//! The dashboard's state: the faults currently flying across the screen,
//! the capped fault and status logs, and the tick that ages and retires
//! fault markers.  Rendering and key handling live with the surrounding
//! process; everything here is plain, verified state.

use vstd::prelude::*;
use vstd::string::StringExecFns;
use crate::faults::FaultType;

verus! {

/// How many lines the fault log keeps.
pub const FAULT_LOG_CAP: usize = 20;

/// How many lines the status log keeps.
pub const STATUS_LOG_CAP: usize = 50;

/// A fault marker is retired once its position reaches this age.
pub const FAULT_EXPIRY_AGE: u8 = 10;

/// The decimal digit character for `d` in `[0, 10)`.
pub open spec fn spec_digit_char(d: int) -> char {
    if d == 0 {
        '0'
    } else if d == 1 {
        '1'
    } else if d == 2 {
        '2'
    } else if d == 3 {
        '3'
    } else if d == 4 {
        '4'
    } else if d == 5 {
        '5'
    } else if d == 6 {
        '6'
    } else if d == 7 {
        '7'
    } else if d == 8 {
        '8'
    } else {
        '9'
    }
}

/// The decimal digits of `n`, most significant first.
pub open spec fn spec_decimal(n: int) -> Seq<char>
    decreases n,
{
    if n < 10 {
        seq![spec_digit_char(n)]
    } else {
        spec_decimal(n / 10).push(spec_digit_char(n % 10))
    }
}

fn digit_str(d: u64) -> (r: &'static str)
    requires
        d < 10,
    ensures
        r@ == seq![spec_digit_char(d as int)],
{
    let r = match d {
        0 => "0",
        1 => "1",
        2 => "2",
        3 => "3",
        4 => "4",
        5 => "5",
        6 => "6",
        7 => "7",
        8 => "8",
        _ => "9",
    };
    proof {
        reveal_strlit("0");
        reveal_strlit("1");
        reveal_strlit("2");
        reveal_strlit("3");
        reveal_strlit("4");
        reveal_strlit("5");
        reveal_strlit("6");
        reveal_strlit("7");
        reveal_strlit("8");
        reveal_strlit("9");
        assert(r@ =~= seq![spec_digit_char(d as int)]);
    }
    r
}

/// The decimal rendering of `n`.
pub fn u64_to_string(n: u64) -> (r: String)
    ensures
        r@ == spec_decimal(n as int),
    decreases n,
{
    if n < 10 {
        digit_str(n).to_owned()
    } else {
        let mut prefix = u64_to_string(n / 10);
        prefix.append(digit_str(n % 10));
        proof {
            assert(prefix@ =~= spec_decimal(n as int));
        }
        prefix
    }
}

/// A status line: the running counter in brackets, then the label.
pub open spec fn spec_status_line(counter: int, label: Seq<char>) -> Seq<char> {
    "["@ + spec_decimal(counter) + "] "@ + label
}

fn status_line(counter: usize, label: &str) -> (r: String)
    ensures
        r@ == spec_status_line(counter as int, label@),
{
    let mut line = "[".to_owned();
    line.append(u64_to_string(counter as u64).as_str());
    line.append("] ");
    line.append(label);
    proof {
        assert(line@ =~= spec_status_line(counter as int, label@));
    }
    line
}

/// A log capped by dropping the oldest entries from the front.
pub open spec fn spec_cap_front<T>(log: Seq<T>, cap: int) -> Seq<T>
    decreases log.len(),
{
    if log.len() > cap && log.len() > 0 {
        spec_cap_front(log.drop_first(), cap)
    } else {
        log
    }
}

/// Every marker aged by one tick, its age saturating.
pub open spec fn spec_age(markers: Seq<(FaultType, u8)>) -> Seq<(FaultType, u8)> {
    markers.map_values(
        |marker: (FaultType, u8)|
            (
                marker.0,
                if marker.1 == u8::MAX {
                    u8::MAX
                } else {
                    (marker.1 + 1) as u8
                },
            ),
    )
}

/// Markers retired from the front once their age reaches the expiry age.
/// The front always holds the oldest markers, so retiring stops at the
/// first young one.
pub open spec fn spec_drop_expired(markers: Seq<(FaultType, u8)>) -> Seq<(FaultType, u8)>
    decreases markers.len(),
{
    if markers.len() > 0 && markers[0].1 >= FAULT_EXPIRY_AGE {
        spec_drop_expired(markers.drop_first())
    } else {
        markers
    }
}

/// Age every marker of a vector in place, then retire expired markers from
/// the front.
fn age_and_retire(markers: &mut Vec<(FaultType, u8)>)
    ensures
        final(markers)@ == spec_drop_expired(spec_age(old(markers)@)),
{
    let mut aged: Vec<(FaultType, u8)> = Vec::new();
    let mut idx: usize = 0;
    while idx < markers.len()
        invariant
            idx <= markers.len(),
            aged@ == spec_age(markers@).subrange(0, idx as int),
        decreases markers.len() - idx,
    {
        let (fault, age) = markers[idx];
        let bumped = if age == u8::MAX {
            u8::MAX
        } else {
            age + 1
        };
        aged.push((fault, bumped));
        proof {
            assert(aged@ =~= spec_age(markers@).subrange(0, idx + 1));
        }
        idx = idx + 1;
    }
    proof {
        assert(aged@ =~= spec_age(markers@));
    }
    *markers = aged;
    while markers.len() > 0 && markers[0].1 >= FAULT_EXPIRY_AGE
        invariant
            spec_drop_expired(spec_age(old(markers)@)) == spec_drop_expired(markers@),
        decreases markers.len(),
    {
        let ghost before = markers@;
        markers.remove(0);
        proof {
            assert(markers@ =~= before.drop_first());
        }
    }
}

/// The fight scene's state: the markers in flight, the fault log and a
/// tick counter.
pub struct GameState {
    pub active_faults: Vec<(FaultType, u8)>,
    pub fault_log: Vec<String>,
    pub tick_count: u64,
}

impl GameState {
    pub fn new() -> (r: GameState)
        ensures
            r.active_faults@ == Seq::<(FaultType, u8)>::empty(),
            r.fault_log@ == Seq::<String>::empty(),
            r.tick_count == 0,
    {
        GameState { active_faults: Vec::new(), fault_log: Vec::new(), tick_count: 0 }
    }

    /// Record a fault: a fresh marker joins the scene and the fault log
    /// gains its line, the oldest line leaving once the cap is reached.
    pub fn add_fault(&mut self, fault: FaultType)
        ensures
            final(self).active_faults@ == old(self).active_faults@.push((fault, 0u8)),
            final(self).fault_log@.map_values(|line: String| line@) == ({
                let pushed = old(self).fault_log@.map_values(|line: String| line@).push(
                    fault.spec_log_message(),
                );
                if pushed.len() > FAULT_LOG_CAP {
                    pushed.drop_first()
                } else {
                    pushed
                }
            }),
            final(self).tick_count == old(self).tick_count,
    {
        self.active_faults.push((fault, 0));
        self.fault_log.push(fault.to_log_message());
        let ghost pushed = self.fault_log@.map_values(|line: String| line@);
        if self.fault_log.len() > FAULT_LOG_CAP {
            self.fault_log.remove(0);
            proof {
                assert(self.fault_log@.map_values(|line: String| line@) =~= pushed.drop_first());
            }
        }
        proof {
            assert(old(self).fault_log@.map_values(|line: String| line@).push(
                fault.spec_log_message(),
            ) =~= pushed);
        }
    }

    /// One tick: the counter wraps around, every marker ages, and markers
    /// that reached the expiry age retire from the front.
    pub fn tick(&mut self)
        ensures
            final(self).tick_count == (if old(self).tick_count == u64::MAX {
                0u64
            } else {
                (old(self).tick_count + 1) as u64
            }),
            final(self).active_faults@ == spec_drop_expired(spec_age(old(self).active_faults@)),
            final(self).fault_log == old(self).fault_log,
    {
        if self.tick_count == u64::MAX {
            self.tick_count = 0;
        } else {
            self.tick_count = self.tick_count + 1;
        }
        age_and_retire(&mut self.active_faults);
    }
}

/// Which screen the dashboard shows.
#[derive(Clone, Copy, PartialEq, Eq, Structural, Debug)]
pub enum AppState {
    StartScreen,
    Running,
    GameOver,
}

/// The dashboard's whole state: the current screen, the fight scene, the
/// two capped logs with their running counter, and the reason the run
/// died, if it did.
pub struct App {
    pub state: AppState,
    pub active_faults: Vec<(FaultType, u8)>,
    pub fault_log: Vec<String>,
    pub status_log: Vec<String>,
    pub status_log_counter: usize,
    pub tick_count: u64,
    pub death_reason: Option<String>,
}

impl App {
    pub fn new() -> (r: App)
        ensures
            r.state == AppState::StartScreen,
            r.active_faults@ == Seq::<(FaultType, u8)>::empty(),
            r.fault_log@ == Seq::<String>::empty(),
            r.status_log@ == Seq::<String>::empty(),
            r.status_log_counter == 0,
            r.tick_count == 0,
            r.death_reason is None,
    {
        App {
            state: AppState::StartScreen,
            active_faults: Vec::new(),
            fault_log: Vec::new(),
            status_log: Vec::new(),
            status_log_counter: 0,
            tick_count: 0,
            death_reason: None,
        }
    }

    /// Record a fault, as the fight scene does.
    pub fn add_fault(&mut self, fault: FaultType)
        ensures
            final(self).active_faults@ == old(self).active_faults@.push((fault, 0u8)),
            final(self).fault_log@.map_values(|line: String| line@) == ({
                let pushed = old(self).fault_log@.map_values(|line: String| line@).push(
                    fault.spec_log_message(),
                );
                if pushed.len() > FAULT_LOG_CAP {
                    pushed.drop_first()
                } else {
                    pushed
                }
            }),
            final(self).state == old(self).state,
            final(self).status_log == old(self).status_log,
            final(self).status_log_counter == old(self).status_log_counter,
            final(self).tick_count == old(self).tick_count,
            final(self).death_reason == old(self).death_reason,
    {
        self.active_faults.push((fault, 0));
        self.fault_log.push(fault.to_log_message());
        let ghost pushed = self.fault_log@.map_values(|line: String| line@);
        if self.fault_log.len() > FAULT_LOG_CAP {
            self.fault_log.remove(0);
            proof {
                assert(self.fault_log@.map_values(|line: String| line@) =~= pushed.drop_first());
            }
        }
        proof {
            assert(old(self).fault_log@.map_values(|line: String| line@).push(
                fault.spec_log_message(),
            ) =~= pushed);
        }
    }

    /// The three status lines announced after the bootstrap connects.
    pub open spec fn spec_connection_lines(counter: int) -> Seq<Seq<char>> {
        seq![
            spec_status_line(counter, "Connected to Kafka"@),
            spec_status_line(counter + 1, "Connected to Redis"@),
            spec_status_line(counter + 2, "Opened file descriptor"@),
        ]
    }

    /// The three status lines announced after a work-loop iteration.
    pub open spec fn spec_iteration_lines(counter: int) -> Seq<Seq<char>> {
        seq![
            spec_status_line(counter, "Read messages from Kafka"@),
            spec_status_line(counter + 1, "Read messages from Redis"@),
            spec_status_line(counter + 2, "Wrote output to file"@),
        ]
    }

    /// Push three status lines and cap the log from the front.
    fn push_status_lines(&mut self, first: String, second: String, third: String)
        requires
            old(self).status_log_counter + 3 <= usize::MAX,
        ensures
            final(self).status_log@.map_values(|line: String| line@) == spec_cap_front(
                old(self).status_log@.map_values(|line: String| line@) + seq![
                    first@,
                    second@,
                    third@,
                ],
                STATUS_LOG_CAP as int,
            ),
            final(self).status_log_counter == old(self).status_log_counter + 3,
            final(self).state == old(self).state,
            final(self).active_faults == old(self).active_faults,
            final(self).fault_log == old(self).fault_log,
            final(self).tick_count == old(self).tick_count,
            final(self).death_reason == old(self).death_reason,
    {
        let ghost lines = seq![first@, second@, third@];
        self.status_log.push(first);
        self.status_log.push(second);
        self.status_log.push(third);
        let ghost extended = self.status_log@.map_values(|line: String| line@);
        proof {
            assert(extended =~= old(self).status_log@.map_values(|line: String| line@) + lines);
        }
        while self.status_log.len() > STATUS_LOG_CAP
            invariant
                spec_cap_front(extended, STATUS_LOG_CAP as int) == spec_cap_front(
                    self.status_log@.map_values(|line: String| line@),
                    STATUS_LOG_CAP as int,
                ),
                self.status_log_counter == old(self).status_log_counter,
                self.state == old(self).state,
                self.active_faults == old(self).active_faults,
                self.fault_log == old(self).fault_log,
                self.tick_count == old(self).tick_count,
                self.death_reason == old(self).death_reason,
            decreases self.status_log.len(),
        {
            let ghost before = self.status_log@.map_values(|line: String| line@);
            self.status_log.remove(0);
            proof {
                assert(self.status_log@.map_values(|line: String| line@) =~= before.drop_first());
            }
        }
        self.status_log_counter = self.status_log_counter + 3;
    }

    /// Announce the bootstrap's three connection steps in the status log.
    pub fn add_connection_status_messages(&mut self)
        requires
            old(self).status_log_counter + 3 <= usize::MAX,
        ensures
            final(self).status_log@.map_values(|line: String| line@) == spec_cap_front(
                old(self).status_log@.map_values(|line: String| line@)
                    + Self::spec_connection_lines(old(self).status_log_counter as int),
                STATUS_LOG_CAP as int,
            ),
            final(self).status_log_counter == old(self).status_log_counter + 3,
            final(self).state == old(self).state,
            final(self).active_faults == old(self).active_faults,
            final(self).fault_log == old(self).fault_log,
            final(self).tick_count == old(self).tick_count,
            final(self).death_reason == old(self).death_reason,
    {
        let first = status_line(self.status_log_counter, "Connected to Kafka");
        let second = status_line(self.status_log_counter + 1, "Connected to Redis");
        let third = status_line(self.status_log_counter + 2, "Opened file descriptor");
        self.push_status_lines(first, second, third);
    }

    /// Announce a work-loop iteration's three steps in the status log.
    pub fn add_status_messages(&mut self)
        requires
            old(self).status_log_counter + 3 <= usize::MAX,
        ensures
            final(self).status_log@.map_values(|line: String| line@) == spec_cap_front(
                old(self).status_log@.map_values(|line: String| line@)
                    + Self::spec_iteration_lines(old(self).status_log_counter as int),
                STATUS_LOG_CAP as int,
            ),
            final(self).status_log_counter == old(self).status_log_counter + 3,
            final(self).state == old(self).state,
            final(self).active_faults == old(self).active_faults,
            final(self).fault_log == old(self).fault_log,
            final(self).tick_count == old(self).tick_count,
            final(self).death_reason == old(self).death_reason,
    {
        let first = status_line(self.status_log_counter, "Read messages from Kafka");
        let second = status_line(self.status_log_counter + 1, "Read messages from Redis");
        let third = status_line(self.status_log_counter + 2, "Wrote output to file");
        self.push_status_lines(first, second, third);
    }

    /// One tick, as the fight scene's.
    pub fn tick(&mut self)
        ensures
            final(self).tick_count == (if old(self).tick_count == u64::MAX {
                0u64
            } else {
                (old(self).tick_count + 1) as u64
            }),
            final(self).active_faults@ == spec_drop_expired(spec_age(old(self).active_faults@)),
            final(self).state == old(self).state,
            final(self).fault_log == old(self).fault_log,
            final(self).status_log == old(self).status_log,
            final(self).status_log_counter == old(self).status_log_counter,
            final(self).death_reason == old(self).death_reason,
    {
        if self.tick_count == u64::MAX {
            self.tick_count = 0;
        } else {
            self.tick_count = self.tick_count + 1;
        }
        age_and_retire(&mut self.active_faults);
    }
}

} // verus!
