//! The work loop: read a broker message, fetch the configuration value,
//! compose a record, append it to the file, and every fifth iteration read
//! the last records back and verify them against the in-memory list.
//!
//! Everything here is a pure function of the facade's model, so a whole run
//! — bootstrap, iterations, fault trace and file contents — is determined
//! by the seed alone.  The read-back verification is proved to succeed:
//! whenever every write reported success, the file holds exactly the
//! written records, in order.

use vstd::prelude::*;
use vstd::string::StrSliceExecFns;
use vstd::string::StringExecFns;
use crate::driver::spec_connect_kafka_retry;
use crate::driver::spec_connect_redis_retry;
use crate::driver::spec_get_config_retry;
use crate::driver::spec_read_message_retry;
use crate::driver::connect_kafka_with_retry;
use crate::driver::connect_redis_with_retry;
use crate::driver::get_config_with_retry;
use crate::driver::read_message_with_retry;
use crate::driver::BASE_DELAY_MS;
use crate::driver::MAX_RETRIES;
use crate::faults::Errors;
use crate::faults::FaultType;
use crate::faults::FileFaultType;
use crate::io::sim_new_model;
use crate::io::spec_redis_lookup;
use crate::io::SimModel;
use crate::io::SimulatedIO;
use crate::lines::concat_all;
use crate::lines::has_no_newline;
use crate::lines::is_record;
use crate::lines::lemma_concat_all_push;
use crate::lines::lemma_lines_of_concat;
use crate::lines::lemma_tail_round_trip;
use crate::lines::spec_last_lines;

verus! {

/// How often the work loop reads the tail back: every fifth iteration.
pub const VERIFY_EVERY: u64 = 5;

/// How many records the read-back verification asks for.
pub const VERIFY_TAIL_LEN: usize = 5;

/// The record appended for a configuration value and a broker payload.
pub open spec fn spec_output(config: Seq<char>, message: Seq<char>) -> Seq<char> {
    "Config: "@ + config + ", Message: "@ + message + "\n"@
}

/// A record composed of newline-free parts is well-formed: one line,
/// newline-terminated.
pub proof fn lemma_output_is_record(config: Seq<char>, message: Seq<char>)
    requires
        has_no_newline(config),
        has_no_newline(message),
    ensures
        is_record(spec_output(config, message)),
{
    reveal_strlit("Config: ");
    reveal_strlit(", Message: ");
    reveal_strlit("\n");
    let out = spec_output(config, message);
    assert("Config: "@ =~= seq!['C', 'o', 'n', 'f', 'i', 'g', ':', ' ']);
    assert(", Message: "@ =~= seq![',', ' ', 'M', 'e', 's', 's', 'a', 'g', 'e', ':', ' ']);
    assert("\n"@ =~= seq!['\n']);
    assert(out[out.len() - 1] == '\n');
    assert forall|j: int| 0 <= j < out.len() - 1 implies out[j] != '\n' by {
        let clen = config.len() as int;
        if j < 8 {
            assert(out[j] == "Config: "@[j]);
        } else if j < 8 + clen {
            assert(out[j] == config[j - 8]);
        } else if j < 19 + clen {
            assert(out[j] == ", Message: "@[j - 8 - clen]);
        } else {
            assert(out[j] == message[j - 19 - clen]);
        }
    }
}

/// A found lookup names a value that stands in the table.
pub proof fn lemma_redis_lookup_found(pairs: Seq<(Seq<char>, Seq<char>)>, key: Seq<char>)
    ensures
        spec_redis_lookup(pairs, key) matches Some(value) ==> exists|i: int|
            0 <= i < pairs.len() && #[trigger] pairs[i].1 == value,
    decreases pairs.len(),
{
    if pairs.len() == 0 {
    } else if pairs[0].0 == key {
        assert(pairs[0].1 == spec_redis_lookup(pairs, key)->Some_0);
    } else {
        let rest = pairs.drop_first();
        lemma_redis_lookup_found(rest, key);
        if spec_redis_lookup(pairs, key) is Some {
            let value = spec_redis_lookup(pairs, key)->Some_0;
            let i = choose|i: int| 0 <= i < rest.len() && #[trigger] rest[i].1 == value;
            assert(pairs[i + 1].1 == value);
        }
    }
}

/// The broker-read retry only draws, sleeps and picks payloads: it leaves
/// every other part of the model alone, and a success hands back one of the
/// canned payloads.
pub proof fn lemma_read_retry_frame(m: SimModel, retries_left: int, delay_ms: u64)
    ensures
        ({
            let (r, m2, events) = spec_read_message_retry(m, retries_left, delay_ms);
            &&& m2.messages == m.messages
            &&& m2.redis == m.redis
            &&& m2.file == m.file
            &&& m2.probs == m.probs
            &&& m2.failures == m.failures
            &&& m2.attempts == m.attempts
            &&& m2.max_file_size == m.max_file_size
            &&& r matches Ok(payload) ==> (m.messages.len() > 0 ==> exists|i: int|
                0 <= i < m.messages.len() && payload == #[trigger] m.messages[i])
        }),
    decreases retries_left,
{
    let (result, next) = m.spec_read_kafka_message();
    if result is Err && retries_left > 0 {
        let (jitter, jittered) = next.spec_generate_jitter(delay_ms);
        let slept = jittered.spec_sleep(jitter);
        lemma_read_retry_frame(slept, retries_left - 1, (2 * delay_ms) as u64);
    }
}

/// The configuration-fetch retry leaves the rest of the model alone, and a
/// success hands back exactly the table's value for the key.
pub proof fn lemma_config_retry_frame(m: SimModel, key: Seq<char>, retries_left: int, delay_ms: u64)
    ensures
        ({
            let (r, m2, events) = spec_get_config_retry(m, key, retries_left, delay_ms);
            &&& m2.messages == m.messages
            &&& m2.redis == m.redis
            &&& m2.file == m.file
            &&& m2.probs == m.probs
            &&& m2.failures == m.failures
            &&& m2.attempts == m.attempts
            &&& m2.max_file_size == m.max_file_size
            &&& r matches Ok(value) ==> spec_redis_lookup(m.redis, key) == Some(value)
        }),
    decreases retries_left,
{
    let (result, next) = m.spec_get_redis_config(key);
    if result is Err && retries_left > 0 {
        let (jitter, jittered) = next.spec_generate_jitter(delay_ms);
        let slept = jittered.spec_sleep(jitter);
        lemma_config_retry_frame(slept, key, retries_left - 1, (2 * delay_ms) as u64);
    }
}

/// The broker-connect retry leaves everything but the draws, the clock and
/// the attempt count alone.
pub proof fn lemma_connect_kafka_retry_frame(m: SimModel, retries_left: int, delay_ms: u64)
    ensures
        ({
            let (r, m2, events) = spec_connect_kafka_retry(m, retries_left, delay_ms);
            &&& m2.messages == m.messages
            &&& m2.redis == m.redis
            &&& m2.file == m.file
            &&& m2.probs == m.probs
            &&& m2.failures == m.failures
            &&& m2.max_file_size == m.max_file_size
        }),
    decreases retries_left,
{
    let (result, next) = m.spec_create_kafka_consumer();
    if result is Err && retries_left > 0 {
        let (jitter, jittered) = next.spec_generate_jitter(delay_ms);
        let slept = jittered.spec_sleep(jitter);
        lemma_connect_kafka_retry_frame(slept, retries_left - 1, (2 * delay_ms) as u64);
    }
}

/// The key-value-connect retry leaves everything but the draws and the
/// clock alone.
pub proof fn lemma_connect_redis_retry_frame(m: SimModel, retries_left: int, delay_ms: u64)
    ensures
        ({
            let (r, m2, events) = spec_connect_redis_retry(m, retries_left, delay_ms);
            &&& m2.messages == m.messages
            &&& m2.redis == m.redis
            &&& m2.file == m.file
            &&& m2.probs == m.probs
            &&& m2.failures == m.failures
            &&& m2.attempts == m.attempts
            &&& m2.max_file_size == m.max_file_size
        }),
    decreases retries_left,
{
    let (result, next) = m.spec_connect_to_redis();
    if result is Err && retries_left > 0 {
        let (jitter, jittered) = next.spec_generate_jitter(delay_ms);
        let slept = jittered.spec_sleep(jitter);
        lemma_connect_redis_retry_frame(slept, retries_left - 1, (2 * delay_ms) as u64);
    }
}

/// The invariant the work loop maintains: the file is open, its contents
/// are exactly the concatenation of the recorded writes, each recorded
/// write is a well-formed record, and the canned payloads and values weave
/// into single-line records.
pub open spec fn step_inv(m: SimModel, written: Seq<Seq<char>>) -> bool {
    &&& m.file is Some
    &&& m.file->Some_0.contents == concat_all(written)
    &&& forall|i: int| 0 <= i < written.len() ==> is_record(#[trigger] written[i])
    &&& forall|i: int| 0 <= i < m.messages.len() ==> has_no_newline(#[trigger] m.messages[i])
    &&& forall|i: int| 0 <= i < m.redis.len() ==> has_no_newline(#[trigger] m.redis[i].1)
}

/// One iteration of the work loop, as a function of the model: the new
/// result, model, fault events, iteration counter and record list.
pub open spec fn spec_run_step(m: SimModel, key: Seq<char>, counter: int, written: Seq<Seq<char>>)
    -> (Result<(), Errors>, SimModel, Seq<FaultType>, int, Seq<Seq<char>>) {
    let c1 = counter + 1;
    let (r1, m1, e1) = spec_read_message_retry(m, MAX_RETRIES as int, BASE_DELAY_MS);
    match r1 {
        Err(e) => (Err(e), m1, e1, c1, written),
        Ok(message) => {
            let (r2, m2, e2) = spec_get_config_retry(m1, key, MAX_RETRIES as int, BASE_DELAY_MS);
            match r2 {
                Err(e) => (Err(e), m2, e1 + e2, c1, written),
                Ok(config) => {
                    let output = spec_output(config, message);
                    let (r3, m3) = m2.spec_write_to_file(output);
                    match r3 {
                        Err(_) => (
                            Ok(()),
                            m3,
                            e1 + e2 + seq![
                                FaultType::FileFaultType(FileFaultType::FileWriteFailure),
                            ],
                            c1,
                            written,
                        ),
                        Ok(_) => (Ok(()), m3, e1 + e2, c1, written.push(output)),
                    }
                },
            }
        },
    }
}

/// The canned payloads and the canned configuration value are single-line
/// text: no newline hides in any of them.
pub proof fn lemma_canned_values_newline_free()
    ensures
        forall|i: int| 0 <= i < crate::io::spec_canned_messages().len() ==> has_no_newline(
            #[trigger] crate::io::spec_canned_messages()[i],
        ),
        forall|i: int| 0 <= i < crate::io::spec_canned_redis().len() ==> has_no_newline(
            #[trigger] crate::io::spec_canned_redis()[i].1,
        ),
{
    reveal_strlit("simulated_message_1");
    reveal_strlit("simulated_message_2");
    reveal_strlit("simulated_message_3");
    reveal_strlit("simulated_config_value");
    assert(has_no_newline("simulated_message_1"@)) by {
        assert("simulated_message_1"@ =~= seq![
            's', 'i', 'm', 'u', 'l', 'a', 't', 'e', 'd', '_', 'm', 'e', 's', 's', 'a', 'g',
            'e', '_', '1',
        ]);
    }
    assert(has_no_newline("simulated_message_2"@)) by {
        assert("simulated_message_2"@ =~= seq![
            's', 'i', 'm', 'u', 'l', 'a', 't', 'e', 'd', '_', 'm', 'e', 's', 's', 'a', 'g',
            'e', '_', '2',
        ]);
    }
    assert(has_no_newline("simulated_message_3"@)) by {
        assert("simulated_message_3"@ =~= seq![
            's', 'i', 'm', 'u', 'l', 'a', 't', 'e', 'd', '_', 'm', 'e', 's', 's', 'a', 'g',
            'e', '_', '3',
        ]);
    }
    assert(has_no_newline("simulated_config_value"@)) by {
        assert("simulated_config_value"@ =~= seq![
            's', 'i', 'm', 'u', 'l', 'a', 't', 'e', 'd', '_', 'c', 'o', 'n', 'f', 'i', 'g',
            '_', 'v', 'a', 'l', 'u', 'e',
        ]);
    }
    assert forall|i: int|
        0 <= i < crate::io::spec_canned_messages().len() implies has_no_newline(
        #[trigger] crate::io::spec_canned_messages()[i],
    ) by {
        if i == 0 {
        } else if i == 1 {
        } else {
            assert(i == 2);
        }
    }
}

/// Compose the record for one iteration.
pub fn compose_output(config: &str, message: &str) -> (r: String)
    ensures
        r@ == spec_output(config@, message@),
{
    let mut output = "Config: ".to_owned();
    output.append(config);
    output.append(", Message: ");
    output.append(message);
    output.append("\n");
    proof {
        assert(output@ =~= spec_output(config@, message@));
    }
    output
}

/// One iteration of the work loop.  The broker read and the configuration
/// fetch are retried under the shared policy; a failed write is surfaced in
/// the fault trace but does not end the iteration; and on every fifth
/// iteration the last records are read back and checked against the
/// in-memory list — a check that is proved to pass.
pub fn run_simulation_step(
    io: &mut SimulatedIO,
    config_key: &str,
    counter: &mut u64,
    written_messages: &mut Vec<String>,
    faults: &mut Vec<FaultType>,
) -> (r: Result<(), Errors>)
    requires
        old(io).wf(),
        *old(counter) < u64::MAX,
        step_inv(old(io)@, old(written_messages)@.map_values(|s: String| s@)),
    ensures
        final(io).wf(),
        *final(counter) == *old(counter) + 1,
        ({
            let (sr, sm, se, sc, sw) = spec_run_step(
                old(io)@,
                config_key@,
                *old(counter) as int,
                old(written_messages)@.map_values(|s: String| s@),
            );
            &&& r == sr
            &&& final(io)@ == sm
            &&& final(faults)@ == old(faults)@ + se
            &&& final(written_messages)@.map_values(|s: String| s@) == sw
            &&& step_inv(final(io)@, final(written_messages)@.map_values(|s: String| s@))
        }),
{
    let ghost w0 = old(written_messages)@.map_values(|s: String| s@);
    let ghost step_result = spec_run_step(old(io)@, config_key@, *old(counter) as int, w0);
    proof {
        vstd::arithmetic::power2::lemma2_to64();
        lemma_read_retry_frame(old(io)@, MAX_RETRIES as int, BASE_DELAY_MS);
    }
    *counter = *counter + 1;
    let message = match read_message_with_retry(io, MAX_RETRIES, BASE_DELAY_MS, faults) {
        Ok(payload) => payload,
        Err(e) => {
            return Err(e);
        },
    };
    proof {
        lemma_config_retry_frame(io@, config_key@, MAX_RETRIES as int, BASE_DELAY_MS);
    }
    let config = match get_config_with_retry(io, config_key, MAX_RETRIES, BASE_DELAY_MS, faults) {
        Ok(value) => value,
        Err(e) => {
            proof {
                assert(faults@ =~= old(faults)@ + step_result.2);
            }
            return Err(e);
        },
    };
    proof {
        let messages = old(io)@.messages;
        assert(has_no_newline(message@)) by {
            let i = choose|i: int| 0 <= i < messages.len() && message@ == #[trigger] messages[i];
        }
        assert(has_no_newline(config@)) by {
            lemma_redis_lookup_found(old(io)@.redis, config_key@);
            let redis = old(io)@.redis;
            let i = choose|i: int| 0 <= i < redis.len() && #[trigger] redis[i].1 == config@;
        }
    }
    let output = compose_output(config.as_str(), message.as_str());
    proof {
        lemma_output_is_record(config@, message@);
    }
    let write_result = io.write_to_file(output.as_str());
    match write_result {
        Ok(_) => {
            proof {
                lemma_concat_all_push(w0, output@);
            }
            written_messages.push(output);
            proof {
                assert(written_messages@.map_values(|s: String| s@) =~= w0.push(
                    written_messages@.last()@,
                ));
                assert(faults@ =~= old(faults)@ + step_result.2);
            }
            if *counter % VERIFY_EVERY == 0 {
                let entries = match io.read_last_n_entries(VERIFY_TAIL_LEN) {
                    Ok(read_back) => read_back,
                    Err(e) => {
                        proof {
                            assert(false);
                        }
                        return Err(e);
                    },
                };
                let take = if written_messages.len() < VERIFY_TAIL_LEN {
                    written_messages.len()
                } else {
                    VERIFY_TAIL_LEN
                };
                let start = written_messages.len() - take;
                proof {
                    let w1 = written_messages@.map_values(|s: String| s@);
                    let contents = io@.file->Some_0.contents;
                    lemma_lines_of_concat(w1);
                    lemma_tail_round_trip(w1, take as int);
                    assert(crate::lines::spec_lines(contents).len() == w1.len());
                    assert(spec_last_lines(contents, VERIFY_TAIL_LEN as int) == spec_last_lines(
                        contents,
                        take as int,
                    ));
                    let tail_seq = w1.subrange(w1.len() - take, w1.len() as int);
                    let lhs_map = entries@.map_values(|line: String| line@);
                    assert(lhs_map == tail_seq.map_values(|rec: Seq<char>| rec.drop_last()));
                    assert(tail_seq.len() == take);
                    assert(lhs_map.len() == entries@.len());
                    assert(tail_seq.map_values(|rec: Seq<char>| rec.drop_last()).len()
                        == tail_seq.len());
                    assert(entries@.len() == take);
                    assert forall|j: int| 0 <= j < take implies #[trigger] entries@[j]@
                        == written_messages@[start + j]@.drop_last() by {
                        assert(lhs_map[j] == entries@[j]@);
                        assert(lhs_map[j] == tail_seq[j].drop_last());
                        assert(tail_seq[j] == w1[w1.len() - take + j]);
                        assert(w1[start + j] == written_messages@[start + j]@);
                    }
                    assert forall|j: int| 0 <= j < written_messages@.len() implies is_record(
                        #[trigger] written_messages@[j]@,
                    ) by {
                        assert(written_messages@[j]@ == w1[j]);
                        if j < w1.len() - 1 {
                            assert(w1[j] == w0[j]);
                        }
                    }
                }
                let mut k: usize = 0;
                while k < take
                    invariant
                        k <= take,
                        take <= written_messages.len(),
                        start == written_messages.len() - take,
                        entries@.len() == take,
                        forall|j: int| 0 <= j < written_messages@.len() ==> is_record(
                            #[trigger] written_messages@[j]@,
                        ),
                        forall|j: int| 0 <= j < take ==> #[trigger] entries@[j]@
                            == written_messages@[start + j]@.drop_last(),
                    decreases take - k,
                {
                    let record = &written_messages[start + k];
                    let record_len = record.as_str().unicode_len();
                    let stripped = record.as_str().substring_char(0, record_len - 1).to_owned();
                    let same = entries[k] == stripped;
                    if !same {
                        proof {
                            assert(stripped@ =~= written_messages@[start + k]@.drop_last());
                            assert(false);
                        }
                        return Err(Errors::FileReadError);
                    }
                    k = k + 1;
                }
            }
            Ok(())
        },
        Err(_) => {
            faults.push(FaultType::FileFaultType(FileFaultType::FileWriteFailure));
            proof {
                assert(faults@ =~= old(faults)@ + step_result.2);
                assert(written_messages@.map_values(|s: String| s@) =~= w0);
            }
            Ok(())
        },
    }
}

/// The bootstrap, as a function of the model: broker connect and key-value
/// connect under the retry policy, then a single file-open attempt whose
/// failure is fatal.
pub open spec fn spec_init_components(m: SimModel) -> (Result<(), Errors>, SimModel, Seq<
    FaultType,
>) {
    let (r1, m1, e1) = spec_connect_kafka_retry(m, MAX_RETRIES as int, BASE_DELAY_MS);
    match r1 {
        Err(e) => (Err(e), m1, e1),
        Ok(_) => {
            let (r2, m2, e2) = spec_connect_redis_retry(m1, MAX_RETRIES as int, BASE_DELAY_MS);
            match r2 {
                Err(e) => (Err(e), m2, e1 + e2),
                Ok(_) => {
                    let (r3, m3) = m2.spec_open_file();
                    match r3 {
                        Err(e) => (Err(e), m3, e1 + e2 + seq![FaultType::FileOpenFailure]),
                        Ok(_) => (Ok(()), m3, e1 + e2),
                    }
                },
            }
        },
    }
}

/// Bring the three capabilities up: broker, key-value store, file.  Every
/// observed fault is appended to `faults`; a retry-exhausted connect or a
/// failed open is fatal and surfaced.
pub fn init_components(io: &mut SimulatedIO, faults: &mut Vec<FaultType>) -> (r: Result<
    (),
    Errors,
>)
    requires
        old(io).wf(),
        old(io).kafka_attempts + MAX_RETRIES + 1 <= usize::MAX,
    ensures
        final(io).wf(),
        ({
            let (sr, sm, se) = spec_init_components(old(io)@);
            &&& r == sr
            &&& final(io)@ == sm
            &&& final(faults)@ == old(faults)@ + se
        }),
        r is Ok ==> {
            &&& final(io)@.file == Some(
                crate::file::FileModel {
                    prng: final(io)@.file->Some_0.prng,
                    contents: Seq::<char>::empty(),
                    synced: Seq::<char>::empty(),
                    max_size: old(io)@.max_file_size,
                    read_pos: 0,
                    probs: old(io)@.probs,
                },
            )
            &&& final(io)@.messages == old(io)@.messages
            &&& final(io)@.redis == old(io)@.redis
        },
{
    proof {
        vstd::arithmetic::power2::lemma2_to64();
        lemma_connect_kafka_retry_frame(old(io)@, MAX_RETRIES as int, BASE_DELAY_MS);
    }
    match connect_kafka_with_retry(io, MAX_RETRIES, BASE_DELAY_MS, faults) {
        Ok(_) => (),
        Err(e) => {
            return Err(e);
        },
    }
    proof {
        lemma_connect_redis_retry_frame(io@, MAX_RETRIES as int, BASE_DELAY_MS);
    }
    match connect_redis_with_retry(io, MAX_RETRIES, BASE_DELAY_MS, faults) {
        Ok(_) => (),
        Err(e) => {
            proof {
                assert(faults@ =~= old(faults)@ + spec_init_components(old(io)@).2);
            }
            return Err(e);
        },
    }
    match io.open_file("output.txt") {
        Ok(_) => {
            proof {
                assert(faults@ =~= old(faults)@ + spec_init_components(old(io)@).2);
            }
            Ok(())
        },
        Err(e) => {
            faults.push(FaultType::FileOpenFailure);
            proof {
                assert(faults@ =~= old(faults)@ + spec_init_components(old(io)@).2);
            }
            Err(e)
        },
    }
}

/// `k` further iterations of the work loop, as a function of the model:
/// the final model, record list, accumulated fault events and outcome.  A
/// fatal iteration ends the run at once.
pub open spec fn spec_sim_loop(m: SimModel, counter: int, written: Seq<Seq<char>>, k: int) -> (
    SimModel,
    Seq<Seq<char>>,
    Seq<FaultType>,
    Result<(), Errors>,
)
    decreases k,
{
    if k <= 0 {
        (m, written, Seq::empty(), Ok(()))
    } else {
        let (sr, sm, se, sc, sw) = spec_run_step(m, "config_key"@, counter, written);
        match sr {
            Err(e) => (sm, sw, se, Err(e)),
            Ok(_) => {
                let (m2, w2, e2, r2) = spec_sim_loop(sm, sc, sw, k - 1);
                (m2, w2, se + e2, r2)
            },
        }
    }
}

/// A whole run — construction, bootstrap, `iterations` iterations — as a
/// function of the seed.  This function is the determinism contract: every
/// observable of a run is determined by the seed and the iteration count.
pub open spec fn spec_run_simulation(seed: u64, iterations: int) -> (
    SimModel,
    Seq<Seq<char>>,
    Seq<FaultType>,
    Result<(), Errors>,
) {
    let m0 = sim_new_model(seed);
    let (ir, im, ie) = spec_init_components(m0);
    match ir {
        Err(e) => (im, Seq::empty(), ie, Err(e)),
        Ok(_) => {
            let (m2, w2, e2, r2) = spec_sim_loop(im, 0, Seq::empty(), iterations);
            (m2, w2, ie + e2, r2)
        },
    }
}

/// Determinism: runs with equal seeds and equal iteration counts agree on
/// the final model — file contents, elapsed virtual time, every counter —
/// and on the record list, the fault trace and the outcome.  Together with
/// the contract of [`run_simulation`], whose results equal this function of
/// the seed alone, two equal runs are replayed identically.
pub proof fn lemma_run_deterministic(
    seed1: u64,
    seed2: u64,
    iterations1: int,
    iterations2: int,
)
    requires
        seed1 == seed2,
        iterations1 == iterations2,
    ensures
        spec_run_simulation(seed1, iterations1) == spec_run_simulation(seed2, iterations2),
{
}

/// Everything a finished run hands back: the facade as it ended, the
/// records the driver believes it wrote, the fault trace, and the outcome.
pub struct SimReport {
    pub io: SimulatedIO,
    pub written_messages: Vec<String>,
    pub fault_trace: Vec<FaultType>,
    pub outcome: Result<(), Errors>,
}

/// Construct a simulator for `seed`, bring its components up and run the
/// work loop for at most `iterations` iterations, stopping early on a
/// fatal error.  Every observable of the result equals
/// [`spec_run_simulation`] of the seed and the count alone.
pub fn run_simulation(seed: u64, iterations: u64) -> (r: SimReport)
    requires
        iterations < u64::MAX,
    ensures
        r.io.wf(),
        ({
            let (sm, sw, se, sr) = spec_run_simulation(seed, iterations as int);
            &&& r.io@ == sm
            &&& r.written_messages@.map_values(|s: String| s@) == sw
            &&& r.fault_trace@ == se
            &&& r.outcome == sr
        }),
{
    let mut io = SimulatedIO::new(seed);
    let mut fault_trace: Vec<FaultType> = Vec::new();
    let mut written_messages: Vec<String> = Vec::new();
    let mut counter: u64 = 0;
    match init_components(&mut io, &mut fault_trace) {
        Ok(_) => (),
        Err(e) => {
            proof {
                assert(written_messages@.map_values(|s: String| s@) =~= Seq::<Seq<char>>::empty());
            }
            return SimReport { io, written_messages, fault_trace, outcome: Err(e) };
        },
    }
    proof {
        lemma_canned_values_newline_free();
        assert(concat_all(Seq::<Seq<char>>::empty()) =~= Seq::<char>::empty());
        assert(written_messages@.map_values(|s: String| s@) =~= Seq::<Seq<char>>::empty());
    }
    let ghost after_init = io@;
    let ghost whole = spec_run_simulation(seed, iterations as int);
    let mut i: u64 = 0;
    while i < iterations
        invariant
            io.wf(),
            counter == i,
            i <= iterations,
            iterations < u64::MAX,
            step_inv(io@, written_messages@.map_values(|s: String| s@)),
            whole == spec_run_simulation(seed, iterations as int),
            ({
                let (m2, w2, e2, r2) = spec_sim_loop(
                    io@,
                    counter as int,
                    written_messages@.map_values(|s: String| s@),
                    (iterations - i) as int,
                );
                &&& whole.0 == m2
                &&& whole.1 == w2
                &&& whole.2 == fault_trace@ + e2
                &&& whole.3 == r2
            }),
        decreases iterations - i,
    {
        let ghost before = io@;
        let ghost written_before = written_messages@.map_values(|s: String| s@);
        let ghost trace_before = fault_trace@;
        match run_simulation_step(
            &mut io,
            "config_key",
            &mut counter,
            &mut written_messages,
            &mut fault_trace,
        ) {
            Ok(_) => {
                i = i + 1;
                proof {
                    let (sr, sm, se, sc, sw) = spec_run_step(
                        before,
                        "config_key"@,
                        i as int - 1,
                        written_before,
                    );
                    let (m2, w2, e2, r2) = spec_sim_loop(sm, sc, sw, (iterations - i) as int);
                    assert(whole.2 =~= fault_trace@ + e2);
                }
            },
            Err(e) => {
                return SimReport { io, written_messages, fault_trace, outcome: Err(e) };
            },
        }
    }
    SimReport { io, written_messages, fault_trace, outcome: Ok(()) }
}

} // verus!
