use std::collections::VecDeque;
use vstd::prelude::*;
use vstd::string::*;
use crate::html::{decimal, format_file_size, push_decimal, size_text};

verus! {

/// Width of the bandwidth window, in milliseconds.
pub const WINDOW_MS: u64 = 1000;

/// A sample taken at `now` has left the window when it is strictly more than
/// `WINDOW_MS` milliseconds old.
pub open spec fn expired(now: u64, t: u64) -> bool {
    now > t && now - t > WINDOW_MS
}

/// Timestamps never decrease from the front to the back.
pub open spec fn sorted_samples(s: Seq<(u64, u32)>) -> bool {
    forall|i: int, j: int| 0 <= i <= j < s.len() ==> s[i].0 <= s[j].0
}

/// What is left of `s` once the expired samples are taken from its front.
pub open spec fn recent(s: Seq<(u64, u32)>, now: u64) -> Seq<(u64, u32)>
    decreases s.len(),
{
    if s.len() > 0 && expired(now, s[0].0) {
        recent(s.drop_first(), now)
    } else {
        s
    }
}

/// Sum of the byte counts of `s`.
pub open spec fn byte_sum(s: Seq<(u64, u32)>) -> int
    decreases s.len(),
{
    if s.len() == 0 {
        0
    } else {
        byte_sum(s.drop_last()) + s.last().1 as int
    }
}

/// `x` clipped to the range of `u64`.
pub open spec fn clip_u64(x: int) -> u64 {
    if x <= u64::MAX as int {
        x as u64
    } else {
        u64::MAX
    }
}

/// Sliding-window throughput: samples of (milliseconds, bytes), oldest first.
pub struct BandwithTracker {
    timestamps: VecDeque<(u64, u32)>,
}

impl View for BandwithTracker {
    type V = Seq<(u64, u32)>;

    closed spec fn view(&self) -> Seq<(u64, u32)> {
        self.timestamps@
    }
}

impl BandwithTracker {
    pub open spec fn wf(&self) -> bool {
        sorted_samples(self@)
    }

    pub fn new() -> (r: BandwithTracker)
        ensures
            r.wf(),
            r@ == Seq::<(u64, u32)>::empty(),
    {
        BandwithTracker { timestamps: VecDeque::new() }
    }

    /// Records `bytes` sent at `now_ms`. A timestamp older than the latest
    /// sample is recorded as the latest one, so the order is kept.
    pub fn add_bytes(&mut self, now_ms: u64, bytes: u32)
        requires
            old(self).wf(),
        ensures
            final(self).wf(),
            final(self)@ == old(self)@.push((
                if old(self)@.len() > 0 && old(self)@.last().0 > now_ms {
                    old(self)@.last().0
                } else {
                    now_ms
                },
                bytes,
            )),
    {
        let n = self.timestamps.len();
        let mut t = now_ms;
        if n > 0 {
            let last = self.timestamps[n - 1].0;
            if last > now_ms {
                t = last;
            }
        }
        self.timestamps.push_back((t, bytes));
        proof {
            assert(self@ =~= old(self)@.push((t, bytes)));
        }
    }

    /// Drops the samples that left the window at `now_ms` and returns the sum
    /// of the bytes of those that remain, saturated at `u64::MAX`.
    pub fn get_bandwith(&mut self, now_ms: u64) -> (r: u64)
        requires
            old(self).wf(),
        ensures
            final(self).wf(),
            final(self)@ == recent(old(self)@, now_ms),
            r == clip_u64(byte_sum(recent(old(self)@, now_ms))),
    {
        loop
            invariant
                self.wf(),
                recent(self@, now_ms) == recent(old(self)@, now_ms),
            ensures
                self.wf(),
                self@ == recent(old(self)@, now_ms),
            decreases self@.len(),
        {
            if self.timestamps.len() == 0 {
                break;
            }
            let t = self.timestamps[0].0;
            if now_ms > t && now_ms - t > WINDOW_MS {
                let ghost before = self@;
                self.timestamps.pop_front();
                assert(self@ =~= before.drop_first());
            } else {
                break;
            }
        }
        let n = self.timestamps.len();
        let mut total: u64 = 0;
        let mut i: usize = 0;
        while i < n
            invariant
                n == self@.len(),
                i <= n,
                total == clip_u64(byte_sum(self@.subrange(0, i as int))),
            decreases n - i,
        {
            let b = self.timestamps[i].1;
            proof {
                let s = self@.subrange(0, i as int + 1);
                assert(s.drop_last() =~= self@.subrange(0, i as int));
                lemma_byte_sum_nonneg(self@.subrange(0, i as int));
            }
            total = total.saturating_add(b as u64);
            i = i + 1;
        }
        assert(self@.subrange(0, n as int) =~= self@);
        total
    }
}

/// Of sorted samples, a query keeps exactly a suffix: every sample kept is
/// inside the window at `now`, and every sample dropped had left it.
pub proof fn lemma_window(s: Seq<(u64, u32)>, now: u64)
    requires
        sorted_samples(s),
    ensures
        recent(s, now).len() <= s.len(),
        recent(s, now) == s.subrange(s.len() - recent(s, now).len(), s.len() as int),
        forall|i: int| 0 <= i < recent(s, now).len() ==> !expired(now, #[trigger] recent(s, now)[i].0),
        forall|i: int| 0 <= i < s.len() - recent(s, now).len() ==> expired(now, #[trigger] s[i].0),
    decreases s.len(),
{
    if s.len() > 0 && expired(now, s[0].0) {
        let t = s.drop_first();
        lemma_window(t, now);
        assert(t.subrange(t.len() - recent(t, now).len(), t.len() as int) =~= s.subrange(
            s.len() - recent(s, now).len(),
            s.len() as int,
        ));
        assert forall|i: int| 0 <= i < s.len() - recent(s, now).len() implies expired(
            now,
            #[trigger] s[i].0,
        ) by {
            if i > 0 {
                assert(s[i] == t[i - 1]);
            }
        }
    } else {
        assert(s.subrange(0, s.len() as int) =~= s);
        assert forall|i: int| 0 <= i < recent(s, now).len() implies !expired(
            now,
            #[trigger] recent(s, now)[i].0,
        ) by {
            assert(s[0].0 <= s[i].0);
        }
    }
}

pub proof fn lemma_byte_sum_nonneg(s: Seq<(u64, u32)>)
    ensures
        byte_sum(s) >= 0,
    decreases s.len(),
{
    if s.len() > 0 {
        lemma_byte_sum_nonneg(s.drop_last());
    }
}


/// A change to the server's counters.
#[derive(Debug, Clone, Copy, PartialEq, Eq)]
pub enum StatsMsg {
    Refresh,
    SendedBytes(u32),
    NewRequest,
    RequestEnded,
}

/// A message to the single task that owns the statistics and the log.
pub enum LogMsg {
    /// Text, whether the process must stop, and its exit code.
    Error(String, bool, i32),
    Info(String),
    Request(String),
    Stats(StatsMsg),
}

impl LogMsg {
    /// The line that this message adds to the log file: its text, or nothing
    /// for a statistics message.
    pub fn log_text(&self) -> (r: Option<String>)
        ensures
            r matches Some(t) ==> (match self {
                LogMsg::Error(e, _, _) => t@ == e@,
                LogMsg::Info(i) => t@ == i@,
                LogMsg::Request(q) => t@ == q@,
                LogMsg::Stats(_) => false,
            }),
            r is None <==> self is Stats,
    {
        match self {
            LogMsg::Error(e, _, _) => Some(e.clone()),
            LogMsg::Info(i) => Some(i.clone()),
            LogMsg::Request(q) => Some(q.clone()),
            LogMsg::Stats(_) => None,
        }
    }

    /// The exit code to stop the process with once this message is shown.
    pub fn exit_code(&self) -> (r: Option<i32>)
        ensures
            r == (match self {
                LogMsg::Error(_, true, code) => Some(*code),
                _ => None::<i32>,
            }),
    {
        match self {
            LogMsg::Error(_, fatal, code) => {
                if *fatal {
                    Some(*code)
                } else {
                    None
                }
            },
            _ => None,
        }
    }
}

/// The counters of the server, owned by one task.
pub struct Stats {
    /// Requests in flight.
    pub requests: u32,
    /// Requests started since the process began, saturated at `u32::MAX`.
    pub total_requests: u32,
    pub bandwith: BandwithTracker,
}

impl Stats {
    pub open spec fn wf(&self) -> bool {
        self.bandwith.wf()
    }

    pub fn new() -> (r: Stats)
        ensures
            r.wf(),
            r.requests == 0,
            r.total_requests == 0,
            r.bandwith@ == Seq::<(u64, u32)>::empty(),
    {
        Stats { requests: 0, total_requests: 0, bandwith: BandwithTracker::new() }
    }
}

/// `x + 1`, saturated at `u32::MAX`.
pub open spec fn succ_sat(x: u32) -> u32 {
    if x < u32::MAX {
        (x + 1) as u32
    } else {
        x
    }
}

/// `x - 1`, never below zero.
pub open spec fn pred_sat(x: u32) -> u32 {
    if x > 0 {
        (x - 1) as u32
    } else {
        0
    }
}

/// The status line shown for the given counters and bandwidth.
pub open spec fn status_text(total: u32, current: u32, bandwith: u64) -> Seq<char> {
    "Total requests: "@ + decimal(total as nat) + " | Current requests: "@ + decimal(
        current as nat,
    ) + " | Bytes/s: "@ + size_text(bandwith) + "/s"@
}

/// Renders the status line.
pub fn status_line(total: u32, current: u32, bandwith: u64) -> (r: String)
    ensures
        r@ == status_text(total, current, bandwith),
{
    let mut s = String::from_str("Total requests: ");
    push_decimal(&mut s, total as u64);
    s.append(" | Current requests: ");
    push_decimal(&mut s, current as u64);
    s.append(" | Bytes/s: ");
    let size = format_file_size(bandwith);
    s.append(size.as_str());
    s.append("/s");
    s
}

/// Applies one statistics message at time `now_ms`. A `Refresh` recomputes
/// the bandwidth and returns the status line to draw; the others return
/// nothing.
pub fn update_stats(stats: &mut Stats, msg: StatsMsg, now_ms: u64) -> (r: Option<String>)
    requires
        old(stats).wf(),
    ensures
        final(stats).wf(),
        final(stats).requests == next_in_flight(old(stats).requests, msg),
        match msg {
            StatsMsg::NewRequest => {
                &&& final(stats).requests == succ_sat(old(stats).requests)
                &&& final(stats).total_requests == succ_sat(old(stats).total_requests)
                &&& final(stats).bandwith@ == old(stats).bandwith@
                &&& r is None
            },
            StatsMsg::RequestEnded => {
                &&& final(stats).requests == pred_sat(old(stats).requests)
                &&& final(stats).total_requests == old(stats).total_requests
                &&& final(stats).bandwith@ == old(stats).bandwith@
                &&& r is None
            },
            StatsMsg::SendedBytes(b) => {
                &&& final(stats).requests == old(stats).requests
                &&& final(stats).total_requests == old(stats).total_requests
                &&& final(stats).bandwith@ == old(stats).bandwith@.push(
                    (
                        if old(stats).bandwith@.len() > 0 && old(stats).bandwith@.last().0
                            > now_ms {
                            old(stats).bandwith@.last().0
                        } else {
                            now_ms
                        },
                        b,
                    ),
                )
                &&& r is None
            },
            StatsMsg::Refresh => {
                &&& final(stats).requests == old(stats).requests
                &&& final(stats).total_requests == old(stats).total_requests
                &&& final(stats).bandwith@ == recent(old(stats).bandwith@, now_ms)
                &&& r matches Some(line) && line@ == status_text(
                    old(stats).total_requests,
                    old(stats).requests,
                    clip_u64(byte_sum(recent(old(stats).bandwith@, now_ms))),
                )
            },
        },
{
    match msg {
        StatsMsg::NewRequest => {
            stats.requests = stats.requests.saturating_add(1);
            stats.total_requests = stats.total_requests.saturating_add(1);
            None
        },
        StatsMsg::RequestEnded => {
            if stats.requests > 0 {
                stats.requests = stats.requests - 1;
            }
            None
        },
        StatsMsg::SendedBytes(b) => {
            stats.bandwith.add_bytes(now_ms, b);
            None
        },
        StatsMsg::Refresh => {
            let bw = stats.bandwith.get_bandwith(now_ms);
            Some(status_line(stats.total_requests, stats.requests, bw))
        },
    }
}

/// The in-flight counter after one message.
pub open spec fn next_in_flight(c: u32, msg: StatsMsg) -> u32 {
    match msg {
        StatsMsg::NewRequest => succ_sat(c),
        StatsMsg::RequestEnded => pred_sat(c),
        _ => c,
    }
}

/// The in-flight counter after the messages `msgs`, in order, from `c`.
pub open spec fn in_flight_after(c: u32, msgs: Seq<StatsMsg>) -> u32
    decreases msgs.len(),
{
    if msgs.len() == 0 {
        c
    } else {
        next_in_flight(in_flight_after(c, msgs.drop_last()), msgs.last())
    }
}

/// How many of `msgs` are `m`.
pub open spec fn count_msg(msgs: Seq<StatsMsg>, m: StatsMsg) -> nat
    decreases msgs.len(),
{
    if msgs.len() == 0 {
        0
    } else {
        count_msg(msgs.drop_last(), m) + if msgs.last() == m {
            1nat
        } else {
            0nat
        }
    }
}

/// Where every request ends after it started (no prefix of the messages
/// holds more ends than starts) and the starts fit in a `u32`, the in-flight
/// counter is the number of starts less the number of ends.
pub proof fn lemma_in_flight_count(msgs: Seq<StatsMsg>)
    requires
        forall|k: int|
            0 <= k <= msgs.len() ==> count_msg(#[trigger] msgs.take(k), StatsMsg::RequestEnded)
                <= count_msg(msgs.take(k), StatsMsg::NewRequest),
        count_msg(msgs, StatsMsg::NewRequest) <= u32::MAX,
    ensures
        in_flight_after(0, msgs) == count_msg(msgs, StatsMsg::NewRequest) - count_msg(
            msgs,
            StatsMsg::RequestEnded,
        ),
    decreases msgs.len(),
{
    assert(msgs.take(msgs.len() as int) =~= msgs);
    if msgs.len() > 0 {
        let e = msgs.drop_last();
        assert forall|k: int| 0 <= k <= e.len() implies count_msg(
            #[trigger] e.take(k),
            StatsMsg::RequestEnded,
        ) <= count_msg(e.take(k), StatsMsg::NewRequest) by {
            assert(e.take(k) =~= msgs.take(k));
        }
        lemma_count_le_len(e, StatsMsg::NewRequest);
        lemma_in_flight_count(e);
    }
}

proof fn lemma_count_le_len(msgs: Seq<StatsMsg>, m: StatsMsg)
    ensures
        count_msg(msgs, m) <= msgs.len(),
    decreases msgs.len(),
{
    if msgs.len() > 0 {
        lemma_count_le_len(msgs.drop_last(), m);
    }
}

} // verus!
