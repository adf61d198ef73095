//! The simulated I/O facade: in-memory stand-ins for the log broker and the
//! key-value store, the simulated file, the virtual clock and the seeded
//! pseudorandom stream, all behind one capability set.
//!
//! Every fallible operation first consults `should_inject_fault`, a weighted
//! draw against the probability table, and either returns the corresponding
//! error or a deterministic canned value.  The `spec_*` functions on
//! [`SimModel`] give each operation's outcome as a pure function of the
//! model, so a whole run is a function of the seed alone.

use vstd::prelude::*;
use crate::clock::spec_clock_advance;
use crate::clock::SimulatedClock;
use crate::faults::Errors;
use crate::faults::FaultProbabilities;
use crate::faults::FaultType;
use crate::faults::DEFAULT_FAULT_PROBABILITY;
use crate::faults::FAULT_PROBABILITY_DENOMINATOR;
use crate::file::FileModel;
use crate::file::SimulatedFile;
use crate::lines::spec_last_lines;
use crate::prng::Prng;
use crate::prng::PrngModel;

verus! {

/// Simulated delay charged to the virtual clock by a successful connect.
pub const SIMULATED_CONNECT_DELAY_MS: u64 = 50;

/// Simulated delay charged to the virtual clock by a successful read.
pub const SIMULATED_READ_DELAY_MS: u64 = 100;

/// Default cap on the simulated file's size, in characters.
pub const DEFAULT_MAX_FILE_SIZE: usize = 1048576;

/// The canned broker payloads; the simulated broker always has at least one.
pub open spec fn spec_canned_messages() -> Seq<Seq<char>> {
    seq!["simulated_message_1"@, "simulated_message_2"@, "simulated_message_3"@]
}

/// The canned key-value contents: the one configuration key.
pub open spec fn spec_canned_redis() -> Seq<(Seq<char>, Seq<char>)> {
    seq![("config_key"@, "simulated_config_value"@)]
}

/// First-match lookup among key-value pairs.
pub open spec fn spec_redis_lookup(
    pairs: Seq<(Seq<char>, Seq<char>)>,
    key: Seq<char>,
) -> Option<Seq<char>>
    decreases pairs.len(),
{
    if pairs.len() == 0 {
        None
    } else if pairs[0].0 == key {
        Some(pairs[0].1)
    } else {
        spec_redis_lookup(pairs.drop_first(), key)
    }
}

/// The mathematical state of a [`SimulatedIO`].
#[verifier::ext_equal]
pub ghost struct SimModel {
    pub prng: PrngModel,
    pub probs: FaultProbabilities,
    pub messages: Seq<Seq<char>>,
    pub attempts: int,
    pub failures: u64,
    pub redis: Seq<(Seq<char>, Seq<char>)>,
    pub file: Option<FileModel>,
    pub clock_ms: u64,
    pub max_file_size: int,
}

/// The model a fresh simulator has: the first draw of the stream picks the
/// broker's connection-failure threshold uniformly from `[1, 5)`.
pub open spec fn sim_new_model(seed: u64) -> SimModel {
    let initial = PrngModel { seed, drawn: 0 };
    let (failures, prng) = initial.spec_range(1, 5);
    SimModel {
        prng,
        probs: FaultProbabilities {
            kafka_connection: DEFAULT_FAULT_PROBABILITY,
            kafka_read: DEFAULT_FAULT_PROBABILITY,
            redis_connection: DEFAULT_FAULT_PROBABILITY,
            redis_read: DEFAULT_FAULT_PROBABILITY,
            file_open: DEFAULT_FAULT_PROBABILITY,
            file_read: DEFAULT_FAULT_PROBABILITY,
            file_write: DEFAULT_FAULT_PROBABILITY,
            file_size_exceeded: DEFAULT_FAULT_PROBABILITY,
            file_metadata_sync: DEFAULT_FAULT_PROBABILITY,
        },
        messages: spec_canned_messages(),
        attempts: 0,
        failures,
        redis: spec_canned_redis(),
        file: None,
        clock_ms: 0,
        max_file_size: DEFAULT_MAX_FILE_SIZE as int,
    }
}

impl SimModel {
    /// One weighted draw against the configured probability of `fault`.
    pub open spec fn spec_should_inject(self, fault: FaultType) -> (bool, SimModel) {
        let (hit, prng) = self.prng.spec_ratio(
            self.probs.spec_probability_of(fault),
            FAULT_PROBABILITY_DENOMINATOR,
        );
        (hit, SimModel { prng, ..self })
    }

    /// Connecting to the broker: the attempt is counted first, then one
    /// draw; the fault only fires while the attempt count is within the
    /// threshold, so connection eventually succeeds.  Success charges the
    /// nominal connect delay.
    pub open spec fn spec_create_kafka_consumer(self) -> (Result<(), Errors>, SimModel) {
        let counted = SimModel { attempts: self.attempts + 1, ..self };
        let (hit, drawn) = counted.spec_should_inject(FaultType::KafkaConnectionFailure);
        if hit && counted.attempts <= counted.failures {
            (Err(Errors::KafkaConnectionError), drawn)
        } else {
            (
                Ok(()),
                SimModel {
                    clock_ms: spec_clock_advance(drawn.clock_ms, SIMULATED_CONNECT_DELAY_MS),
                    ..drawn
                },
            )
        }
    }

    /// Connecting to the key-value store: one draw; success charges the
    /// nominal connect delay.
    pub open spec fn spec_connect_to_redis(self) -> (Result<(), Errors>, SimModel) {
        let (hit, drawn) = self.spec_should_inject(FaultType::RedisConnectionFailure);
        if hit {
            (Err(Errors::RedisConnectionError), drawn)
        } else {
            (
                Ok(()),
                SimModel {
                    clock_ms: spec_clock_advance(drawn.clock_ms, SIMULATED_CONNECT_DELAY_MS),
                    ..drawn
                },
            )
        }
    }

    /// Opening the file: one draw; on success the facade's stream is forked
    /// into a fresh, empty simulated file so that the file's later draws do
    /// not perturb the broker and key-value sequence.  Idempotent: every
    /// successful open resets the file state and cursors.
    pub open spec fn spec_open_file(self) -> (Result<(), Errors>, SimModel) {
        let (hit, drawn) = self.spec_should_inject(FaultType::FileOpenFailure);
        if hit {
            (Err(Errors::FileOpenError), drawn)
        } else {
            (
                Ok(()),
                SimModel {
                    file: Some(
                        FileModel {
                            prng: drawn.prng,
                            contents: Seq::<char>::empty(),
                            synced: Seq::<char>::empty(),
                            max_size: drawn.max_file_size,
                            read_pos: 0,
                            probs: drawn.probs,
                        },
                    ),
                    ..drawn
                },
            )
        }
    }

    /// Reading a broker message: one fault draw, then the read delay, then
    /// one draw to pick a canned payload uniformly.  Never yields
    /// `Ok(None)`: the simulated broker always has a payload.
    pub open spec fn spec_read_kafka_message(self) -> (Result<Option<Seq<char>>, Errors>, SimModel) {
        let (hit, drawn) = self.spec_should_inject(FaultType::KafkaReadFailure);
        if hit {
            (Err(Errors::NoKafkaMessage), drawn)
        } else {
            let slept = SimModel {
                clock_ms: spec_clock_advance(drawn.clock_ms, SIMULATED_READ_DELAY_MS),
                ..drawn
            };
            let (index, prng) = slept.prng.spec_below(slept.messages.len() as u64);
            (Ok(Some(slept.messages[index as int])), SimModel { prng, ..slept })
        }
    }

    /// Reading a configuration value: one fault draw, then the read delay,
    /// then a lookup among the canned pairs.
    pub open spec fn spec_get_redis_config(self, key: Seq<char>) -> (
        Result<Seq<char>, Errors>,
        SimModel,
    ) {
        let (hit, drawn) = self.spec_should_inject(FaultType::RedisReadFailure);
        if hit {
            (Err(Errors::RedisKeyRetrievalError), drawn)
        } else {
            let slept = SimModel {
                clock_ms: spec_clock_advance(drawn.clock_ms, SIMULATED_READ_DELAY_MS),
                ..drawn
            };
            match spec_redis_lookup(slept.redis, key) {
                Some(value) => (Ok(value), slept),
                None => (Err(Errors::RedisKeyRetrievalError), slept),
            }
        }
    }

    /// A jittered delay: the base plus a uniform draw in `[0, base)`.
    pub open spec fn spec_generate_jitter(self, base_delay_ms: u64) -> (u64, SimModel)
        recommends
            base_delay_ms > 0,
    {
        let (offset, prng) = self.prng.spec_below(base_delay_ms);
        ((base_delay_ms + offset) as u64, SimModel { prng, ..self })
    }

    /// A simulated sleep advances the virtual clock and nothing else.
    pub open spec fn spec_sleep(self, duration_ms: u64) -> SimModel {
        SimModel { clock_ms: spec_clock_advance(self.clock_ms, duration_ms), ..self }
    }

    /// Appending to the open file, through the file's own model.
    pub open spec fn spec_write_to_file(self, data: Seq<char>) -> (Result<int, Errors>, SimModel)
        recommends
            self.file is Some,
    {
        let (result, file) = self.file->Some_0.spec_write(data);
        (result, SimModel { file: Some(file), ..self })
    }

    /// Reading from the open file, through the file's own model.
    pub open spec fn spec_read_file(self, size: int) -> (Result<Seq<char>, Errors>, SimModel)
        recommends
            self.file is Some,
    {
        let (result, file) = self.file->Some_0.spec_read(size);
        (result, SimModel { file: Some(file), ..self })
    }
}

/// The simulated I/O facade.  It exclusively owns the pseudorandom stream,
/// the virtual clock, the broker and key-value stand-ins and, once opened,
/// the simulated file.
pub struct SimulatedIO {
    pub prng: Prng,
    pub fault_probabilities: FaultProbabilities,
    pub kafka_messages: Vec<String>,
    pub kafka_attempts: usize,
    pub kafka_failures: u64,
    pub redis_data: Vec<(String, String)>,
    pub file: Option<SimulatedFile>,
    pub clock: SimulatedClock,
    pub max_file_size: usize,
}

impl View for SimulatedIO {
    type V = SimModel;

    open spec fn view(&self) -> SimModel {
        SimModel {
            prng: self.prng@,
            probs: self.fault_probabilities,
            messages: self.kafka_messages@.map_values(|m: String| m@),
            attempts: self.kafka_attempts as int,
            failures: self.kafka_failures,
            redis: self.redis_data@.map_values(|p: (String, String)| (p.0@, p.1@)),
            file: match self.file {
                Some(f) => Some(f@),
                None => None,
            },
            clock_ms: self.clock.current_time_ms,
            max_file_size: self.max_file_size as int,
        }
    }
}

impl SimulatedIO {
    /// Well-formedness: the open file (if any) is well-formed and the
    /// simulated broker has at least one canned payload.
    pub open spec fn wf(&self) -> bool {
        &&& match self.file {
            Some(f) => f.wf(),
            None => true,
        }
        &&& self.kafka_messages@.len() > 0
    }

    /// A fresh simulator for `seed`.  The broker's connection-failure
    /// threshold is drawn first, uniformly from `[1, 5)`.
    pub fn new(seed: u64) -> (r: SimulatedIO)
        ensures
            r.wf(),
            r@ == sim_new_model(seed),
    {
        let mut prng = Prng::from_seed(seed);
        let kafka_failures = prng.next_range(1, 5);
        let mut kafka_messages: Vec<String> = Vec::new();
        kafka_messages.push("simulated_message_1".to_owned());
        kafka_messages.push("simulated_message_2".to_owned());
        kafka_messages.push("simulated_message_3".to_owned());
        let mut redis_data: Vec<(String, String)> = Vec::new();
        redis_data.push(("config_key".to_owned(), "simulated_config_value".to_owned()));
        let fault_probabilities = FaultProbabilities::defaults();
        let r = SimulatedIO {
            prng,
            fault_probabilities,
            kafka_messages,
            kafka_attempts: 0,
            kafka_failures,
            redis_data,
            file: None,
            clock: SimulatedClock::new(),
            max_file_size: DEFAULT_MAX_FILE_SIZE,
        };
        proof {
            assert(r.kafka_messages@.map_values(|m: String| m@) =~= spec_canned_messages());
            assert(r.redis_data@.map_values(|p: (String, String)| (p.0@, p.1@))
                =~= spec_canned_redis());
            assert(r@ =~= sim_new_model(seed));
        }
        r
    }

    /// One weighted draw against the configured probability of `fault`.
    pub fn should_inject_fault(&mut self, fault: FaultType) -> (r: bool)
        requires
            old(self).wf(),
        ensures
            final(self).wf(),
            r == old(self)@.spec_should_inject(fault).0,
            final(self)@ == old(self)@.spec_should_inject(fault).1,
    {
        let probability = self.fault_probabilities.probability_of(fault);
        let hit = self.prng.next_ratio(probability, FAULT_PROBABILITY_DENOMINATOR);
        proof {
            assert(self@ =~= old(self)@.spec_should_inject(fault).1);
        }
        hit
    }

    /// Simulated broker connect.  The connection parameters are accepted
    /// for interface parity and ignored: the stand-in broker needs none.
    pub fn create_kafka_consumer(
        &mut self,
        _group_id: &str,
        _broker: &str,
        _topic: &str,
        _partition: i32,
    ) -> (r: Result<(), Errors>)
        requires
            old(self).wf(),
            old(self).kafka_attempts < usize::MAX,
        ensures
            final(self).wf(),
            r == old(self)@.spec_create_kafka_consumer().0,
            final(self)@ == old(self)@.spec_create_kafka_consumer().1,
    {
        self.kafka_attempts = self.kafka_attempts + 1;
        let hit = self.should_inject_fault(FaultType::KafkaConnectionFailure);
        if hit && self.kafka_attempts as u64 <= self.kafka_failures {
            proof {
                assert(self@ =~= old(self)@.spec_create_kafka_consumer().1);
            }
            return Err(Errors::KafkaConnectionError);
        }
        self.clock.advance(SIMULATED_CONNECT_DELAY_MS);
        proof {
            assert(self@ =~= old(self)@.spec_create_kafka_consumer().1);
        }
        Ok(())
    }

    /// Simulated key-value connect; the URL is ignored by the stand-in.
    pub fn connect_to_redis(&mut self, _url: &str) -> (r: Result<(), Errors>)
        requires
            old(self).wf(),
        ensures
            final(self).wf(),
            r == old(self)@.spec_connect_to_redis().0,
            final(self)@ == old(self)@.spec_connect_to_redis().1,
    {
        let hit = self.should_inject_fault(FaultType::RedisConnectionFailure);
        if hit {
            return Err(Errors::RedisConnectionError);
        }
        self.clock.advance(SIMULATED_CONNECT_DELAY_MS);
        proof {
            assert(self@ =~= old(self)@.spec_connect_to_redis().1);
        }
        Ok(())
    }

    /// Simulated file open.  The stand-in keeps everything in memory, so
    /// the path is ignored; opening resets the file state and cursors.
    pub fn open_file(&mut self, _path: &str) -> (r: Result<(), Errors>)
        requires
            old(self).wf(),
        ensures
            final(self).wf(),
            r == old(self)@.spec_open_file().0,
            final(self)@ == old(self)@.spec_open_file().1,
    {
        let hit = self.should_inject_fault(FaultType::FileOpenFailure);
        if hit {
            return Err(Errors::FileOpenError);
        }
        let forked = self.prng.fork();
        let file = SimulatedFile::new(forked, self.max_file_size, self.fault_probabilities);
        self.file = Some(file);
        proof {
            assert(self@ =~= old(self)@.spec_open_file().1);
        }
        Ok(())
    }

    /// Simulated broker read: a fault or a uniformly chosen canned payload,
    /// never `Ok(None)`.
    pub fn read_kafka_message(&mut self) -> (r: Result<Option<String>, Errors>)
        requires
            old(self).wf(),
        ensures
            final(self).wf(),
            final(self)@ == old(self)@.spec_read_kafka_message().1,
            r matches Ok(message) ==> message matches Some(payload)
                && old(self)@.spec_read_kafka_message().0 == Ok::<Option<Seq<char>>, Errors>(
                Some(payload@),
            ),
            r matches Err(e) ==> old(self)@.spec_read_kafka_message().0 == Err::<
                Option<Seq<char>>,
                Errors,
            >(e),
    {
        let hit = self.should_inject_fault(FaultType::KafkaReadFailure);
        if hit {
            return Err(Errors::NoKafkaMessage);
        }
        self.clock.advance(SIMULATED_READ_DELAY_MS);
        let index = self.prng.next_below(self.kafka_messages.len() as u64);
        let message = self.kafka_messages[index as usize].clone();
        proof {
            assert(self@ =~= old(self)@.spec_read_kafka_message().1);
        }
        Ok(Some(message))
    }

    /// Simulated configuration fetch: a fault or the canned value for the
    /// key.
    pub fn get_redis_config(&mut self, key: &str) -> (r: Result<String, Errors>)
        requires
            old(self).wf(),
        ensures
            final(self).wf(),
            final(self)@ == old(self)@.spec_get_redis_config(key@).1,
            r matches Ok(value) ==> old(self)@.spec_get_redis_config(key@).0 == Ok::<
                Seq<char>,
                Errors,
            >(value@),
            r matches Err(e) ==> old(self)@.spec_get_redis_config(key@).0 == Err::<
                Seq<char>,
                Errors,
            >(e),
    {
        let hit = self.should_inject_fault(FaultType::RedisReadFailure);
        if hit {
            return Err(Errors::RedisKeyRetrievalError);
        }
        self.clock.advance(SIMULATED_READ_DELAY_MS);
        proof {
            assert(self@ =~= old(self)@.spec_get_redis_config(key@).1);
        }
        let wanted = key.to_owned();
        let mut i: usize = 0;
        proof {
            assert(self@.redis.skip(0) =~= self@.redis);
        }
        while i < self.redis_data.len()
            invariant
                0 <= i <= self.redis_data.len(),
                wanted@ == key@,
                self.wf(),
                !(old(self)@.spec_should_inject(FaultType::RedisReadFailure).0),
                self@ == old(self)@.spec_get_redis_config(key@).1,
                spec_redis_lookup(self@.redis, key@) == spec_redis_lookup(
                    self@.redis.skip(i as int),
                    key@,
                ),
            decreases self.redis_data.len() - i,
        {
            if self.redis_data[i].0 == wanted {
                let value = self.redis_data[i].1.clone();
                proof {
                    assert(self@.redis.skip(i as int)[0] == (
                        self.redis_data[i as int].0@,
                        self.redis_data[i as int].1@,
                    ));
                }
                return Ok(value);
            }
            proof {
                assert(self@.redis.skip(i as int).drop_first() =~= self@.redis.skip(i + 1));
                assert(self@.redis.skip(i as int)[0] == (
                    self.redis_data[i as int].0@,
                    self.redis_data[i as int].1@,
                ));
            }
            i = i + 1;
        }
        proof {
            assert(self@.redis.skip(i as int).len() == 0);
        }
        Err(Errors::RedisKeyRetrievalError)
    }

    /// Append `data` to the open file.
    pub fn write_to_file(&mut self, data: &str) -> (r: Result<usize, Errors>)
        requires
            old(self).wf(),
            old(self).file is Some,
        ensures
            final(self).wf(),
            final(self).file is Some,
            final(self)@ == old(self)@.spec_write_to_file(data@).1,
            r matches Ok(written) ==> old(self)@.spec_write_to_file(data@).0 == Ok::<int, Errors>(
                written as int,
            ),
            r matches Err(e) ==> old(self)@.spec_write_to_file(data@).0 == Err::<int, Errors>(e),
    {
        let r = match &mut self.file {
            Some(file) => file.write(data),
            None => Err(Errors::FileWriteError),
        };
        proof {
            assert(self@ =~= old(self)@.spec_write_to_file(data@).1);
        }
        r
    }

    /// Read `size` characters from the open file.
    pub fn read_file(&mut self, size: usize) -> (r: Result<String, Errors>)
        requires
            old(self).wf(),
            old(self).file is Some,
        ensures
            final(self).wf(),
            final(self).file is Some,
            final(self)@ == old(self)@.spec_read_file(size as int).1,
            r matches Ok(data) ==> old(self)@.spec_read_file(size as int).0 == Ok::<
                Seq<char>,
                Errors,
            >(data@),
            r matches Err(e) ==> old(self)@.spec_read_file(size as int).0 == Err::<
                Seq<char>,
                Errors,
            >(e),
    {
        let r = match &mut self.file {
            Some(file) => file.read(size),
            None => Err(Errors::FileReadError),
        };
        proof {
            assert(self@ =~= old(self)@.spec_read_file(size as int).1);
        }
        r
    }

    /// The last `n` records of the open file, in append order, their
    /// trailing newline stripped.
    pub fn read_last_n_entries(&self, n: usize) -> (r: Result<Vec<String>, Errors>)
        requires
            self.wf(),
            self.file is Some,
        ensures
            r matches Ok(entries) && entries@.map_values(|line: String| line@)
                == spec_last_lines(self@.file->Some_0.contents, n as int),
    {
        match &self.file {
            Some(file) => file.read_last_n_entries(n),
            None => Err(Errors::FileReadError),
        }
    }

    /// A jittered delay drawn from the seeded stream: the base plus a
    /// uniform offset in `[0, base)` milliseconds.
    pub fn generate_jitter(&mut self, base_delay_ms: u64) -> (r: u64)
        requires
            old(self).wf(),
            0 < base_delay_ms <= u64::MAX / 2,
        ensures
            final(self).wf(),
            r == old(self)@.spec_generate_jitter(base_delay_ms).0,
            final(self)@ == old(self)@.spec_generate_jitter(base_delay_ms).1,
            base_delay_ms <= r < 2 * base_delay_ms,
    {
        let offset = self.prng.next_below(base_delay_ms);
        proof {
            assert(self@ =~= old(self)@.spec_generate_jitter(base_delay_ms).1);
        }
        base_delay_ms + offset
    }

    /// A simulated sleep: the virtual clock advances and no wall time
    /// elapses.
    pub fn sleep(&mut self, duration_ms: u64)
        requires
            old(self).wf(),
        ensures
            final(self).wf(),
            final(self)@ == old(self)@.spec_sleep(duration_ms),
    {
        self.clock.advance(duration_ms);
        proof {
            assert(self@ =~= old(self)@.spec_sleep(duration_ms));
        }
    }
}

} // verus!
