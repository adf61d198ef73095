use simulation::clock::SimulatedClock;
use simulation::faults::Errors;
use simulation::faults::FaultProbabilities;
use simulation::faults::FaultType;
use simulation::faults::FileFaultType;
use simulation::file::SimulatedFile;
use simulation::io::SimulatedIO;
use simulation::lines::last_n_lines;
use simulation::pipeline::compose_output;
use simulation::pipeline::init_components;
use simulation::pipeline::run_simulation;
use simulation::pipeline::run_simulation_step;
use simulation::prng::Prng;
use simulation::tail::count_newlines;
use simulation::tail::last_n_byte_lines;
use simulation::tail::tail_scan_needs_more;

fn assert_tail_matches_written(io: &SimulatedIO, written: &[String]) {
    let entries = io.read_last_n_entries(5).unwrap();
    let take = written.len().min(5);
    assert_eq!(entries.len(), take);
    for k in 0..take {
        let expected = &written[written.len() - take + k];
        assert_eq!(format!("{}\n", entries[k]), *expected);
    }
}

#[test]
fn s1_happy_simulator_tail_matches() {
    let mut io = SimulatedIO::new(1);
    io.fault_probabilities.file_open = 0;
    let mut faults = Vec::new();
    init_components(&mut io, &mut faults).unwrap();
    let mut counter = 0u64;
    let mut written = Vec::new();
    for _ in 0..5 {
        run_simulation_step(&mut io, "config_key", &mut counter, &mut written, &mut faults)
            .unwrap();
    }
    assert_eq!(counter, 5);
    assert_tail_matches_written(&io, &written);
    for record in &written {
        assert!(record.starts_with("Config: simulated_config_value, Message: simulated_message_"));
        assert!(record.ends_with('\n'));
    }
}

#[test]
fn s2_write_is_lossy() {
    let mut io = SimulatedIO::new(7);
    io.fault_probabilities.file_open = 0;
    let mut faults = Vec::new();
    init_components(&mut io, &mut faults).unwrap();
    if let Some(file) = io.file.as_mut() {
        file.fault_probabilities.file_write = 1000;
    }
    let mut counter = 0u64;
    let mut written = Vec::new();
    let mut step_faults = Vec::new();
    run_simulation_step(&mut io, "config_key", &mut counter, &mut written, &mut step_faults)
        .unwrap();
    assert_eq!(written.len(), 0);
    assert!(step_faults
        .iter()
        .any(|f| *f == FaultType::FileFaultType(FileFaultType::FileWriteFailure)));
    if let Some(file) = io.file.as_mut() {
        file.fault_probabilities.file_write = 0;
    }
    for _ in 0..5 {
        run_simulation_step(&mut io, "config_key", &mut counter, &mut written, &mut step_faults)
            .unwrap();
    }
    assert_eq!(written.len(), 5);
    assert_tail_matches_written(&io, &written);
}

#[test]
fn s3_retry_exhaustion() {
    let mut io = SimulatedIO::new(3);
    io.fault_probabilities.file_open = 0;
    let mut faults = Vec::new();
    init_components(&mut io, &mut faults).unwrap();
    io.fault_probabilities.kafka_read = 1000;
    let clock_before = io.clock.current_time_ms;
    let mut counter = 0u64;
    let mut written = Vec::new();
    let mut step_faults = Vec::new();
    let outcome =
        run_simulation_step(&mut io, "config_key", &mut counter, &mut written, &mut step_faults);
    assert!(matches!(outcome, Err(Errors::NoKafkaMessage)));
    assert_eq!(step_faults.len(), 6);
    assert!(step_faults.iter().all(|f| *f == FaultType::KafkaReadFailure));
    // five jittered backoffs with bases 10, 20, 40, 80, 160: each in [base, 2*base)
    let delta = io.clock.current_time_ms - clock_before;
    assert!(delta >= 310 && delta < 620, "unexpected backoff total: {delta}");
    assert_eq!(written.len(), 0);
}

#[test]
fn s4_tail_smaller_than_request() {
    let mut probs = FaultProbabilities::defaults();
    probs.file_write = 0;
    let mut file = SimulatedFile::new(Prng::from_seed(9), 1 << 20, probs);
    file.write("alpha\n").unwrap();
    file.write("beta\n").unwrap();
    file.write("gamma\n").unwrap();
    let entries = file.read_last_n_entries(5).unwrap();
    assert_eq!(
        entries,
        vec!["alpha".to_string(), "beta".to_string(), "gamma".to_string()]
    );
}

#[test]
fn tail_of_an_empty_file_is_empty() {
    let file = SimulatedFile::new(Prng::from_seed(9), 1 << 20, FaultProbabilities::defaults());
    assert_eq!(file.read_last_n_entries(5).unwrap(), Vec::<String>::new());
}

#[test]
fn s5_connect_threshold() {
    let mut seed = 0u64;
    while SimulatedIO::new(seed).kafka_failures != 3 {
        seed += 1;
        assert!(seed < 100000, "no seed with a threshold of 3 found");
    }
    let mut io = SimulatedIO::new(seed);
    io.fault_probabilities.kafka_connection = 1000;
    io.fault_probabilities.redis_connection = 0;
    io.fault_probabilities.file_open = 0;
    let mut faults = Vec::new();
    init_components(&mut io, &mut faults).unwrap();
    assert_eq!(io.kafka_attempts, 4);
    assert_eq!(faults, vec![FaultType::KafkaConnectionFailure; 3]);
    // three jittered backoffs with bases 10, 20, 40 plus two fixed 50 ms
    // connect delays
    let clock = io.clock.current_time_ms;
    assert!(clock >= 170 && clock < 240, "unexpected bootstrap time: {clock}");
}

#[test]
fn s6_determinism_replay() {
    let first = run_simulation(42, 20);
    let second = run_simulation(42, 20);
    assert_eq!(first.fault_trace, second.fault_trace);
    assert_eq!(first.written_messages, second.written_messages);
    assert_eq!(first.outcome.is_ok(), second.outcome.is_ok());
    assert_eq!(first.io.clock.current_time_ms, second.io.clock.current_time_ms);
    let contents_first = first.io.file.as_ref().map(|f| f.file_contents.clone());
    let contents_second = second.io.file.as_ref().map(|f| f.file_contents.clone());
    assert_eq!(contents_first, contents_second);
}

#[test]
fn p6_fault_probability_converges() {
    let mut io = SimulatedIO::new(1234);
    let mut hits = 0u32;
    for _ in 0..10000 {
        if io.should_inject_fault(FaultType::KafkaReadFailure) {
            hits += 1;
        }
    }
    // the configured probability is 0.1; allow expected binomial deviation
    assert!((700..=1300).contains(&hits), "rate off: {hits} of 10000");
}

#[test]
fn prng_is_deterministic_and_fork_continues() {
    let mut a = Prng::from_seed(11);
    let mut b = Prng::from_seed(11);
    let mut fork = a.fork();
    for _ in 0..32 {
        let word = a.next_u64();
        assert_eq!(word, b.next_u64());
        assert_eq!(word, fork.next_u64());
    }
    let mut other = Prng::from_seed(12);
    let mut any_difference = false;
    let mut again = Prng::from_seed(11);
    for _ in 0..32 {
        if again.next_u64() != other.next_u64() {
            any_difference = true;
        }
    }
    assert!(any_difference);
}

#[test]
fn prng_draws_stay_in_range() {
    let mut prng = Prng::from_seed(5);
    for _ in 0..100 {
        let below = prng.next_below(7);
        assert!(below < 7);
        let ranged = prng.next_range(3, 9);
        assert!((3..9).contains(&ranged));
    }
}

#[test]
fn jitter_stays_in_range() {
    let mut io = SimulatedIO::new(21);
    for _ in 0..50 {
        let jitter = io.generate_jitter(10);
        assert!((10..20).contains(&jitter));
    }
}

#[test]
fn virtual_clock_advances_and_saturates() {
    let mut clock = SimulatedClock::new();
    assert_eq!(clock.current_time_ms, 0);
    clock.sleep(25);
    clock.advance(17);
    assert_eq!(clock.current_time_ms, 42);
    clock.advance(u64::MAX);
    assert_eq!(clock.current_time_ms, u64::MAX);
    clock.advance(1);
    assert_eq!(clock.current_time_ms, u64::MAX);
}

#[test]
fn new_simulator_has_canned_state() {
    let io = SimulatedIO::new(99);
    assert_eq!(io.kafka_messages.len(), 3);
    assert_eq!(io.kafka_messages[0], "simulated_message_1");
    assert_eq!(io.redis_data.len(), 1);
    assert_eq!(io.redis_data[0].0, "config_key");
    assert_eq!(io.redis_data[0].1, "simulated_config_value");
    assert!((1..5).contains(&io.kafka_failures));
    assert_eq!(io.kafka_attempts, 0);
    assert!(io.file.is_none());
}

#[test]
fn read_kafka_message_is_never_empty_on_success() {
    let mut io = SimulatedIO::new(17);
    io.fault_probabilities.kafka_read = 0;
    for _ in 0..20 {
        let message = io.read_kafka_message().unwrap().unwrap();
        assert!(message.starts_with("simulated_message_"));
    }
}

#[test]
fn get_redis_config_hits_and_misses() {
    let mut io = SimulatedIO::new(17);
    io.fault_probabilities.redis_read = 0;
    assert_eq!(io.get_redis_config("config_key").unwrap(), "simulated_config_value");
    assert!(matches!(
        io.get_redis_config("missing_key"),
        Err(Errors::RedisKeyRetrievalError)
    ));
}

#[test]
fn error_variants_are_reachable() {
    let mut io = SimulatedIO::new(2);
    io.fault_probabilities.kafka_connection = 1000;
    io.fault_probabilities.kafka_read = 1000;
    io.fault_probabilities.redis_connection = 1000;
    io.fault_probabilities.redis_read = 1000;
    io.fault_probabilities.file_open = 1000;
    assert!(matches!(
        io.create_kafka_consumer("group_id", "localhost:9092", "dummy_topic", 0),
        Err(Errors::KafkaConnectionError)
    ));
    assert!(matches!(io.read_kafka_message(), Err(Errors::NoKafkaMessage)));
    assert!(matches!(io.connect_to_redis("redis://127.0.0.1"), Err(Errors::RedisConnectionError)));
    assert!(matches!(io.get_redis_config("config_key"), Err(Errors::RedisKeyRetrievalError)));
    assert!(matches!(io.open_file("output.txt"), Err(Errors::FileOpenError)));
    let mut probs = FaultProbabilities::defaults();
    probs.file_read = 1000;
    probs.file_write = 1000;
    let mut file = SimulatedFile::new(Prng::from_seed(2), 100, probs);
    assert!(matches!(file.read(1), Err(Errors::FileReadError)));
    assert!(matches!(file.write("x\n"), Err(Errors::FileWriteError)));
}

#[test]
fn write_respects_size_cap() {
    let mut probs = FaultProbabilities::defaults();
    probs.file_write = 0;
    let mut file = SimulatedFile::new(Prng::from_seed(4), 8, probs);
    assert_eq!(file.write("12345\n").unwrap(), 6);
    assert!(matches!(file.write("12345\n"), Err(Errors::FileWriteError)));
    assert_eq!(file.current_file_size, 6);
}

#[test]
fn read_and_fsync_work_on_the_buffer() {
    let mut probs = FaultProbabilities::defaults();
    probs.file_read = 0;
    probs.file_write = 0;
    let mut file = SimulatedFile::new(Prng::from_seed(4), 1 << 20, probs);
    file.write("abcdef\n").unwrap();
    assert_eq!(file.read(3).unwrap(), "abc");
    assert_eq!(file.read(2).unwrap(), "de");
    assert!(matches!(file.read(9), Err(Errors::FileReadError)));
    assert_eq!(file.synced_contents, "");
    file.fsync().unwrap();
    assert_eq!(file.synced_contents, "abcdef\n");
}

#[test]
fn compose_output_formats_exactly() {
    let record = compose_output("the_config", "the_message");
    assert_eq!(record, "Config: the_config, Message: the_message\n");
}

#[test]
fn last_n_lines_splits_and_takes_the_tail() {
    assert_eq!(last_n_lines("a\nbb\nccc", 2), vec!["bb".to_string(), "ccc".to_string()]);
    assert_eq!(last_n_lines("a\nbb\nccc\n", 2), vec!["bb".to_string(), "ccc".to_string()]);
    assert_eq!(last_n_lines("", 3), Vec::<String>::new());
    assert_eq!(last_n_lines("solo", 3), vec!["solo".to_string()]);
    assert_eq!(last_n_lines("x\ny\n", 0), Vec::<String>::new());
}

#[test]
fn byte_tail_helpers_count_and_split() {
    let buf: Vec<u8> = b"one\ntwo\nthree\n".to_vec();
    assert_eq!(count_newlines(&buf), 3);
    assert!(tail_scan_needs_more(&buf, 3, 100));
    assert!(!tail_scan_needs_more(&buf, 2, 100));
    assert!(!tail_scan_needs_more(&buf, 9, 0));
    let lines = last_n_byte_lines(&buf, 2);
    assert_eq!(lines, vec![b"two".to_vec(), b"three".to_vec()]);
    let all = last_n_byte_lines(&buf, 9);
    assert_eq!(all.len(), 3);
    assert_eq!(all[0], b"one".to_vec());
}

#[test]
fn fault_probability_table_defaults_and_lookup() {
    let probs = FaultProbabilities::defaults();
    assert_eq!(probs.probability_of(FaultType::KafkaConnectionFailure), 100);
    assert_eq!(
        probs.probability_of(FaultType::FileFaultType(FileFaultType::FileSizeExceededFailure)),
        100
    );
    assert_eq!(probs.file_probability_of(FileFaultType::FileMetadataSyncFailure), 100);
}
