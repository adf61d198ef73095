//! The pipeline driver: retry-wrapped bootstrap and the work loop, run
//! against the simulated I/O facade.
//!
//! Every fallible operation is wrapped in the shared retry policy — up to
//! [`MAX_RETRIES`] extra attempts, sleeping a jittered, doubling delay
//! between them — and every injected fault is recorded in a trace.  The
//! `spec_*` functions give each phase's outcome as a pure function of the
//! facade's model, which is what makes replay deterministic.

use vstd::prelude::*;
use vstd::arithmetic::power2::pow2;
use crate::faults::Errors;
use crate::faults::FaultType;
use crate::io::SimModel;
use crate::io::SimulatedIO;

verus! {

broadcast use vstd::arithmetic::power2::lemma_pow2_unfold;

/// The retry budget: how many additional attempts follow a first failure.
pub const MAX_RETRIES: u64 = 5;

/// The base backoff delay, doubled before every further attempt.
pub const BASE_DELAY_MS: u64 = 10;

/// A conservative cap on `delay_ms * 2^retries_left` under which every
/// doubled delay and every jittered sleep stays far from overflow.
pub const MAX_SCALED_DELAY_MS: u64 = 64000000;

/// Retrying the broker connect: one attempt, and on failure a jittered
/// sleep, a doubled delay and a recursive retry while budget remains.  The
/// result, the facade's state and the sequence of observed faults are all
/// functions of the starting model.
pub open spec fn spec_connect_kafka_retry(
    m: SimModel,
    retries_left: int,
    delay_ms: u64,
) -> (Result<(), Errors>, SimModel, Seq<FaultType>)
    decreases retries_left,
{
    let (result, next) = m.spec_create_kafka_consumer();
    match result {
        Ok(value) => (Ok(value), next, Seq::empty()),
        Err(e) => {
            if retries_left <= 0 {
                (Err(e), next, seq![FaultType::KafkaConnectionFailure])
            } else {
                let (jitter, jittered) = next.spec_generate_jitter(delay_ms);
                let slept = jittered.spec_sleep(jitter);
                let (r2, m2, events) = spec_connect_kafka_retry(
                    slept,
                    retries_left - 1,
                    (2 * delay_ms) as u64,
                );
                (r2, m2, seq![FaultType::KafkaConnectionFailure] + events)
            }
        },
    }
}

/// Retrying the key-value connect, under the same policy.
pub open spec fn spec_connect_redis_retry(
    m: SimModel,
    retries_left: int,
    delay_ms: u64,
) -> (Result<(), Errors>, SimModel, Seq<FaultType>)
    decreases retries_left,
{
    let (result, next) = m.spec_connect_to_redis();
    match result {
        Ok(value) => (Ok(value), next, Seq::empty()),
        Err(e) => {
            if retries_left <= 0 {
                (Err(e), next, seq![FaultType::RedisConnectionFailure])
            } else {
                let (jitter, jittered) = next.spec_generate_jitter(delay_ms);
                let slept = jittered.spec_sleep(jitter);
                let (r2, m2, events) = spec_connect_redis_retry(
                    slept,
                    retries_left - 1,
                    (2 * delay_ms) as u64,
                );
                (r2, m2, seq![FaultType::RedisConnectionFailure] + events)
            }
        },
    }
}

/// Retrying the broker read.  The simulated broker never reports an empty
/// stream, so a successful read always carries a payload.
pub open spec fn spec_read_message_retry(
    m: SimModel,
    retries_left: int,
    delay_ms: u64,
) -> (Result<Seq<char>, Errors>, SimModel, Seq<FaultType>)
    decreases retries_left,
{
    let (result, next) = m.spec_read_kafka_message();
    match result {
        Ok(payload) => (Ok(payload->Some_0), next, Seq::empty()),
        Err(e) => {
            if retries_left <= 0 {
                (Err(e), next, seq![FaultType::KafkaReadFailure])
            } else {
                let (jitter, jittered) = next.spec_generate_jitter(delay_ms);
                let slept = jittered.spec_sleep(jitter);
                let (r2, m2, events) = spec_read_message_retry(
                    slept,
                    retries_left - 1,
                    (2 * delay_ms) as u64,
                );
                (r2, m2, seq![FaultType::KafkaReadFailure] + events)
            }
        },
    }
}

/// Retrying the configuration fetch, under the same policy.
pub open spec fn spec_get_config_retry(
    m: SimModel,
    key: Seq<char>,
    retries_left: int,
    delay_ms: u64,
) -> (Result<Seq<char>, Errors>, SimModel, Seq<FaultType>)
    decreases retries_left,
{
    let (result, next) = m.spec_get_redis_config(key);
    match result {
        Ok(value) => (Ok(value), next, Seq::empty()),
        Err(e) => {
            if retries_left <= 0 {
                (Err(e), next, seq![FaultType::RedisReadFailure])
            } else {
                let (jitter, jittered) = next.spec_generate_jitter(delay_ms);
                let slept = jittered.spec_sleep(jitter);
                let (r2, m2, events) = spec_get_config_retry(
                    slept,
                    key,
                    retries_left - 1,
                    (2 * delay_ms) as u64,
                );
                (r2, m2, seq![FaultType::RedisReadFailure] + events)
            }
        },
    }
}

/// The well-formedness every retried call needs of its backoff arguments:
/// a positive delay that stays far from overflow through every doubling.
pub open spec fn backoff_wf(retries_left: u64, delay_ms: u64) -> bool {
    &&& 0 < delay_ms
    &&& delay_ms * pow2(retries_left as nat) <= MAX_SCALED_DELAY_MS
}

proof fn lemma_backoff_step(retries_left: u64, delay_ms: u64)
    requires
        backoff_wf(retries_left, delay_ms),
        retries_left > 0,
    ensures
        2 * delay_ms <= MAX_SCALED_DELAY_MS,
        backoff_wf((retries_left - 1) as u64, (2 * delay_ms) as u64),
{
    let p = pow2((retries_left - 1) as nat);
    assert(pow2(retries_left as nat) == 2 * p);
    vstd::arithmetic::power2::lemma_pow2_pos((retries_left - 1) as nat);
    assert(delay_ms * (2 * p) == (2 * delay_ms) * p) by (nonlinear_arith);
    assert((2 * delay_ms) * 1 <= (2 * delay_ms) * p) by (nonlinear_arith)
        requires
            p >= 1,
    ;
}

/// The retry bound, for the broker connect: a call site with
/// `retries_left` retries makes at most `retries_left + 1` attempts — the
/// attempt counter grows by at most that, and at most that many faults are
/// observed.
pub proof fn lemma_connect_retry_attempt_bound(m: SimModel, retries_left: int, delay_ms: u64)
    requires
        retries_left >= 0,
    ensures
        ({
            let (r, m2, events) = spec_connect_kafka_retry(m, retries_left, delay_ms);
            &&& m.attempts < m2.attempts <= m.attempts + retries_left + 1
            &&& events.len() <= retries_left + 1
        }),
    decreases retries_left,
{
    let (result, next) = m.spec_create_kafka_consumer();
    if result is Err && retries_left > 0 {
        let (jitter, jittered) = next.spec_generate_jitter(delay_ms);
        let slept = jittered.spec_sleep(jitter);
        lemma_connect_retry_attempt_bound(slept, retries_left - 1, (2 * delay_ms) as u64);
    }
}

/// The retry bound, for the broker read: each attempt observes at most one
/// fault and at most `retries_left + 1` attempts are made, so the fault
/// trace of one call site grows by at most `retries_left + 1` events.
pub proof fn lemma_read_retry_event_bound(m: SimModel, retries_left: int, delay_ms: u64)
    requires
        retries_left >= 0,
    ensures
        spec_read_message_retry(m, retries_left, delay_ms).2.len() <= retries_left + 1,
    decreases retries_left,
{
    let (result, next) = m.spec_read_kafka_message();
    if result is Err && retries_left > 0 {
        let (jitter, jittered) = next.spec_generate_jitter(delay_ms);
        let slept = jittered.spec_sleep(jitter);
        lemma_read_retry_event_bound(slept, retries_left - 1, (2 * delay_ms) as u64);
    }
}

/// A saturating clock advance never gets past the true sum.
proof fn lemma_advance_le(clock_ms: u64, duration_ms: u64)
    ensures
        crate::clock::spec_clock_advance(clock_ms, duration_ms) <= clock_ms + duration_ms,
{
}

/// The retry bound, for the broker read: the total simulated delay of a
/// call site with `retries_left` retries is at most one read delay per
/// attempt plus the geometric sum of the jittered backoffs,
/// `2 * delay * (2^retries_left - 1)`.
pub proof fn lemma_read_retry_delay_bound(m: SimModel, retries_left: int, delay_ms: u64)
    requires
        retries_left >= 0,
        delay_ms > 0,
        delay_ms * pow2(retries_left as nat) <= MAX_SCALED_DELAY_MS,
    ensures
        ({
            let (r, m2, events) = spec_read_message_retry(m, retries_left, delay_ms);
            m2.clock_ms <= m.clock_ms + (retries_left + 1) * (
            crate::io::SIMULATED_READ_DELAY_MS as int) + 2 * delay_ms * (pow2(
                retries_left as nat,
            ) - 1)
        }),
    decreases retries_left,
{
    let read_delay = crate::io::SIMULATED_READ_DELAY_MS as int;
    let (result, next) = m.spec_read_kafka_message();
    vstd::arithmetic::power2::lemma_pow2_pos(retries_left as nat);
    match result {
        Ok(_) => {
            lemma_advance_le(m.clock_ms, crate::io::SIMULATED_READ_DELAY_MS);
            assert((retries_left + 1) * read_delay >= 1 * read_delay) by (nonlinear_arith)
                requires
                    retries_left >= 0,
                    read_delay >= 0,
            ;
            assert(2 * delay_ms * (pow2(retries_left as nat) - 1) >= 0) by (nonlinear_arith)
                requires
                    delay_ms > 0 && pow2(retries_left as nat) >= 1,
            ;
        },
        Err(_) => {
            assert(next.clock_ms == m.clock_ms);
            if retries_left <= 0 {
                assert(2 * delay_ms * (pow2(retries_left as nat) - 1) >= 0) by (nonlinear_arith)
                    requires
                        delay_ms > 0 && pow2(retries_left as nat) >= 1,
                ;
                assert((retries_left + 1) * read_delay >= 0) by (nonlinear_arith)
                    requires
                        retries_left >= 0,
                        read_delay >= 0,
                ;
            } else {
                let p = pow2((retries_left - 1) as nat);
                assert(pow2(retries_left as nat) == 2 * p);
                vstd::arithmetic::power2::lemma_pow2_pos((retries_left - 1) as nat);
                assert(delay_ms * (2 * p) == (2 * delay_ms) * p) by (nonlinear_arith);
                assert((2 * delay_ms) * 1 <= (2 * delay_ms) * p) by (nonlinear_arith)
                    requires
                        p >= 1,
                        delay_ms > 0,
                ;
                let (jitter, jittered) = next.spec_generate_jitter(delay_ms);
                let slept = jittered.spec_sleep(jitter);
                assert(jitter < 2 * delay_ms);
                lemma_advance_le(jittered.clock_ms, jitter);
                assert(slept.clock_ms <= m.clock_ms + 2 * delay_ms);
                lemma_read_retry_delay_bound(slept, retries_left - 1, (2 * delay_ms) as u64);
                let final_clock = spec_read_message_retry(
                    slept,
                    retries_left - 1,
                    (2 * delay_ms) as u64,
                ).1.clock_ms;
                assert(final_clock <= slept.clock_ms + retries_left * read_delay + 2 * (2
                    * delay_ms) * (p - 1));
                assert(2 * delay_ms + 2 * (2 * delay_ms) * (p - 1) <= 2 * delay_ms * (2 * p - 1))
                    by (nonlinear_arith)
                    requires
                        delay_ms > 0 && p >= 1,
                ;
                assert((retries_left + 1) * read_delay == retries_left * read_delay + read_delay)
                    by (nonlinear_arith);
            }
        },
    }
}

/// Connect eventually succeeds: the simulator gates the broker-connect
/// fault on the attempt count staying within the drawn threshold, so with
/// enough budget to push the count past the threshold the connect comes
/// back `Ok`, whatever the probability draws yield.
pub proof fn lemma_connect_eventually_succeeds(m: SimModel, retries_left: int, delay_ms: u64)
    requires
        retries_left >= 0,
        m.attempts + retries_left + 1 > m.failures,
    ensures
        spec_connect_kafka_retry(m, retries_left, delay_ms).0 == Ok::<(), Errors>(()),
    decreases retries_left,
{
    let (result, next) = m.spec_create_kafka_consumer();
    if result is Err {
        assert(m.attempts + 1 <= m.failures);
        assert(retries_left > 0);
        let (jitter, jittered) = next.spec_generate_jitter(delay_ms);
        let slept = jittered.spec_sleep(jitter);
        lemma_connect_eventually_succeeds(slept, retries_left - 1, (2 * delay_ms) as u64);
    }
}

/// Broker connect with retries; every failed attempt is appended to
/// `faults`.
pub fn connect_kafka_with_retry(
    io: &mut SimulatedIO,
    retries_left: u64,
    delay_ms: u64,
    faults: &mut Vec<FaultType>,
) -> (r: Result<(), Errors>)
    requires
        old(io).wf(),
        backoff_wf(retries_left, delay_ms),
        old(io).kafka_attempts + retries_left + 1 <= usize::MAX,
    ensures
        final(io).wf(),
        final(io)@ == spec_connect_kafka_retry(old(io)@, retries_left as int, delay_ms).1,
        r == spec_connect_kafka_retry(old(io)@, retries_left as int, delay_ms).0,
        final(faults)@ == old(faults)@ + spec_connect_kafka_retry(
            old(io)@,
            retries_left as int,
            delay_ms,
        ).2,
    decreases retries_left,
{
    let attempt = io.create_kafka_consumer("group_id", "localhost:9092", "dummy_topic", 0);
    match attempt {
        Ok(()) => {
            proof {
                assert(faults@ =~= old(faults)@ + Seq::<FaultType>::empty());
            }
            Ok(())
        },
        Err(e) => {
            faults.push(FaultType::KafkaConnectionFailure);
            if retries_left == 0 {
                proof {
                    assert(faults@ =~= old(faults)@ + seq![FaultType::KafkaConnectionFailure]);
                }
                Err(e)
            } else {
                proof {
                    lemma_backoff_step(retries_left, delay_ms);
                }
                let jitter = io.generate_jitter(delay_ms);
                io.sleep(jitter);
                let r = connect_kafka_with_retry(io, retries_left - 1, delay_ms * 2, faults);
                proof {
                    assert(faults@ =~= old(faults)@ + spec_connect_kafka_retry(
                        old(io)@,
                        retries_left as int,
                        delay_ms,
                    ).2);
                }
                r
            }
        },
    }
}

/// Key-value connect with retries; every failed attempt is appended to
/// `faults`.
pub fn connect_redis_with_retry(
    io: &mut SimulatedIO,
    retries_left: u64,
    delay_ms: u64,
    faults: &mut Vec<FaultType>,
) -> (r: Result<(), Errors>)
    requires
        old(io).wf(),
        backoff_wf(retries_left, delay_ms),
    ensures
        final(io).wf(),
        final(io)@ == spec_connect_redis_retry(old(io)@, retries_left as int, delay_ms).1,
        r == spec_connect_redis_retry(old(io)@, retries_left as int, delay_ms).0,
        final(faults)@ == old(faults)@ + spec_connect_redis_retry(
            old(io)@,
            retries_left as int,
            delay_ms,
        ).2,
    decreases retries_left,
{
    let attempt = io.connect_to_redis("redis://127.0.0.1");
    match attempt {
        Ok(()) => {
            proof {
                assert(faults@ =~= old(faults)@ + Seq::<FaultType>::empty());
            }
            Ok(())
        },
        Err(e) => {
            faults.push(FaultType::RedisConnectionFailure);
            if retries_left == 0 {
                proof {
                    assert(faults@ =~= old(faults)@ + seq![FaultType::RedisConnectionFailure]);
                }
                Err(e)
            } else {
                proof {
                    lemma_backoff_step(retries_left, delay_ms);
                }
                let jitter = io.generate_jitter(delay_ms);
                io.sleep(jitter);
                let r = connect_redis_with_retry(io, retries_left - 1, delay_ms * 2, faults);
                proof {
                    assert(faults@ =~= old(faults)@ + spec_connect_redis_retry(
                        old(io)@,
                        retries_left as int,
                        delay_ms,
                    ).2);
                }
                r
            }
        },
    }
}

/// Broker read with retries; a success always carries a payload, because
/// the simulated broker never ends its stream.
pub fn read_message_with_retry(
    io: &mut SimulatedIO,
    retries_left: u64,
    delay_ms: u64,
    faults: &mut Vec<FaultType>,
) -> (r: Result<String, Errors>)
    requires
        old(io).wf(),
        backoff_wf(retries_left, delay_ms),
    ensures
        final(io).wf(),
        final(io)@ == spec_read_message_retry(old(io)@, retries_left as int, delay_ms).1,
        r matches Ok(payload) ==> spec_read_message_retry(
            old(io)@,
            retries_left as int,
            delay_ms,
        ).0 == Ok::<Seq<char>, Errors>(payload@),
        r matches Err(e) ==> spec_read_message_retry(old(io)@, retries_left as int, delay_ms).0
            == Err::<Seq<char>, Errors>(e),
        final(faults)@ == old(faults)@ + spec_read_message_retry(
            old(io)@,
            retries_left as int,
            delay_ms,
        ).2,
    decreases retries_left,
{
    let attempt = io.read_kafka_message();
    match attempt {
        Ok(Some(payload)) => {
            proof {
                assert(faults@ =~= old(faults)@ + Seq::<FaultType>::empty());
            }
            Ok(payload)
        },
        Ok(None) => {
            proof {
                assert(false);
            }
            Err(Errors::NoKafkaMessage)
        },
        Err(e) => {
            faults.push(FaultType::KafkaReadFailure);
            if retries_left == 0 {
                proof {
                    assert(faults@ =~= old(faults)@ + seq![FaultType::KafkaReadFailure]);
                }
                Err(e)
            } else {
                proof {
                    lemma_backoff_step(retries_left, delay_ms);
                }
                let jitter = io.generate_jitter(delay_ms);
                io.sleep(jitter);
                let r = read_message_with_retry(io, retries_left - 1, delay_ms * 2, faults);
                proof {
                    assert(faults@ =~= old(faults)@ + spec_read_message_retry(
                        old(io)@,
                        retries_left as int,
                        delay_ms,
                    ).2);
                }
                r
            }
        },
    }
}

/// Configuration fetch with retries; every failed attempt is appended to
/// `faults`.
pub fn get_config_with_retry(
    io: &mut SimulatedIO,
    key: &str,
    retries_left: u64,
    delay_ms: u64,
    faults: &mut Vec<FaultType>,
) -> (r: Result<String, Errors>)
    requires
        old(io).wf(),
        backoff_wf(retries_left, delay_ms),
    ensures
        final(io).wf(),
        final(io)@ == spec_get_config_retry(old(io)@, key@, retries_left as int, delay_ms).1,
        r matches Ok(value) ==> spec_get_config_retry(
            old(io)@,
            key@,
            retries_left as int,
            delay_ms,
        ).0 == Ok::<Seq<char>, Errors>(value@),
        r matches Err(e) ==> spec_get_config_retry(old(io)@, key@, retries_left as int, delay_ms).0
            == Err::<Seq<char>, Errors>(e),
        final(faults)@ == old(faults)@ + spec_get_config_retry(
            old(io)@,
            key@,
            retries_left as int,
            delay_ms,
        ).2,
    decreases retries_left,
{
    let attempt = io.get_redis_config(key);
    match attempt {
        Ok(value) => {
            proof {
                assert(faults@ =~= old(faults)@ + Seq::<FaultType>::empty());
            }
            Ok(value)
        },
        Err(e) => {
            faults.push(FaultType::RedisReadFailure);
            if retries_left == 0 {
                proof {
                    assert(faults@ =~= old(faults)@ + seq![FaultType::RedisReadFailure]);
                }
                Err(e)
            } else {
                proof {
                    lemma_backoff_step(retries_left, delay_ms);
                }
                let jitter = io.generate_jitter(delay_ms);
                io.sleep(jitter);
                let r = get_config_with_retry(io, key, retries_left - 1, delay_ms * 2, faults);
                proof {
                    assert(faults@ =~= old(faults)@ + spec_get_config_retry(
                        old(io)@,
                        key@,
                        retries_left as int,
                        delay_ms,
                    ).2);
                }
                r
            }
        },
    }
}

} // verus!
