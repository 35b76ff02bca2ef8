//! The caps on tool calls: per turn, per sliding window of time, and per
//! invocation.
use vstd::prelude::*;

use super::AgentConfig;
use crate::time::{Duration, Instant};

verus! {

/// At most `calls` tool calls in any span of length `window`.
#[derive(Debug, Clone, Copy, PartialEq, Eq, Structural)]
pub struct RateLimit {
    pub calls: usize,
    pub window: Duration,
}

/// What the limiter says of one more tool call.
#[derive(Debug, Clone, Copy, PartialEq, Eq, Structural)]
pub enum GateDecision {
    Proceed,
    TurnLimitExceeded,
    RateLimitExceeded,
    SessionExhausted,
}

/// A [`ToolCallGate`] as a mathematical value.
#[verifier::ext_equal]
pub struct GateModel {
    pub turn_limit: usize,
    pub rate: Option<RateLimit>,
    pub session_max: Option<usize>,
    /// Calls that were let through in this turn.
    pub turn_count: nat,
    /// When the last calls were let through, as far as the window reaches.
    pub recent: Seq<Instant>,
    /// Calls that were let through since the limiter was made, where they are
    /// capped.
    pub session_count: nat,
}

/// Holds the three caps on tool calls. A call that is turned away uses up
/// nothing.
pub struct ToolCallGate {
    turn_limit: usize,
    rate: Option<RateLimit>,
    session_max: Option<usize>,
    turn_count: usize,
    recent: Vec<Instant>,
    session_count: usize,
}

impl View for ToolCallGate {
    type V = GateModel;

    closed spec fn view(&self) -> GateModel {
        GateModel {
            turn_limit: self.turn_limit,
            rate: self.rate,
            session_max: self.session_max,
            turn_count: self.turn_count as nat,
            recent: self.recent@,
            session_count: self.session_count as nat,
        }
    }
}

/// A limiter through which nothing has gone yet.
pub open spec fn new_gate(
    turn_limit: usize,
    rate: Option<RateLimit>,
    session_max: Option<usize>,
) -> GateModel {
    GateModel {
        turn_limit,
        rate,
        session_max,
        turn_count: 0,
        recent: Seq::empty(),
        session_count: 0,
    }
}

/// The limiter at the start of a turn.
pub open spec fn turn_begun(g: GateModel) -> GateModel {
    GateModel { turn_count: 0, ..g }
}

/// Where the window starts that ends now.
pub open spec fn window_start(now: Instant, window: Duration) -> int {
    if now.nanos - window.total() < i128::MIN {
        now.nanos as int
    } else {
        now.nanos - window.total()
    }
}

/// The times without the leading ones that lie before the start of the
/// window.
pub open spec fn in_window(recent: Seq<Instant>, start: int) -> Seq<Instant>
    decreases recent.len(),
{
    if recent.len() > 0 && recent[0].nanos < start {
        in_window(recent.skip(1), start)
    } else {
        recent
    }
}

/// The limiter after the window has moved up to now.
pub open spec fn moved(g: GateModel, now: Instant) -> GateModel {
    match g.rate {
        Some(rate) => GateModel {
            recent: in_window(g.recent, window_start(now, rate.window)),
            ..g
        },
        None => g,
    }
}

/// The limiter after one more call has gone through.
pub open spec fn passed(g: GateModel, now: Instant) -> GateModel {
    GateModel {
        turn_count: g.turn_count + 1,
        session_count: if g.session_max is Some {
            g.session_count + 1
        } else {
            g.session_count
        },
        recent: if g.rate is Some {
            g.recent.push(now)
        } else {
            g.recent
        },
        ..g
    }
}

/// What the limiter says of one more call, and the limiter after it.
pub open spec fn asked(g: GateModel, now: Instant) -> (GateModel, GateDecision) {
    let m = moved(g, now);
    if g.turn_count >= g.turn_limit {
        (g, GateDecision::TurnLimitExceeded)
    } else if m.rate is Some && m.recent.len() >= m.rate->0.calls {
        (m, GateDecision::RateLimitExceeded)
    } else if m.session_max is Some && m.session_count >= m.session_max->0 {
        (m, GateDecision::SessionExhausted)
    } else {
        (passed(m, now), GateDecision::Proceed)
    }
}

impl ToolCallGate {
    /// A limiter with the caps of an invocation. A cap that is absent never
    /// closes it.
    pub fn new(cfg: &AgentConfig) -> (r: Self)
        ensures
            r@ == new_gate(
                cfg.turn_tool_call_limit,
                cfg.tool_call_rate,
                cfg.session_tool_call_max,
            ),
    {
        ToolCallGate {
            turn_limit: cfg.turn_tool_call_limit,
            rate: cfg.tool_call_rate,
            session_max: cfg.session_tool_call_max,
            turn_count: 0,
            recent: Vec::new(),
            session_count: 0,
        }
    }

    /// The cap on a turn.
    pub fn turn_limit(&self) -> (r: usize)
        ensures
            r == self@.turn_limit,
    {
        self.turn_limit
    }

    /// The cap on a span of time.
    pub fn rate(&self) -> (r: Option<RateLimit>)
        ensures
            r == self@.rate,
    {
        self.rate
    }

    /// The cap on an invocation.
    pub fn session_max(&self) -> (r: Option<usize>)
        ensures
            r == self@.session_max,
    {
        self.session_max
    }

    /// Starts a turn.
    pub fn begin_turn(&mut self)
        ensures
            final(self)@ == turn_begun(old(self)@),
    {
        self.turn_count = 0;
    }

    fn drop_before(&mut self, start: Instant)
        ensures
            final(self)@ == (GateModel {
                recent: in_window(old(self)@.recent, start.nanos as int),
                ..old(self)@
            }),
    {
        let ghost all = self.recent@;
        let n: usize = self.recent.len();
        let mut i: usize = 0;
        assert(all.skip(0) =~= all);
        while i < n && self.recent[i].nanos < start.nanos
            invariant
                i <= n,
                n == all.len(),
                self.recent@ == all,
                in_window(all.skip(i as int), start.nanos as int) == in_window(
                    all,
                    start.nanos as int,
                ),
            decreases n - i,
        {
            assert(all.skip(i as int).skip(1) =~= all.skip(i + 1));
            i = i + 1;
        }
        let mut kept: Vec<Instant> = Vec::new();
        let mut k: usize = i;
        while k < n
            invariant
                i <= k <= n,
                n == all.len(),
                self.recent@ == all,
                kept@ == all.subrange(i as int, k as int),
            decreases n - k,
        {
            kept.push(self.recent[k]);
            assert(kept@ =~= all.subrange(i as int, k + 1));
            k = k + 1;
        }
        assert(kept@ =~= all.skip(i as int));
        self.recent = kept;
    }

    /// Asks whether one more call may go through now. If so it is counted;
    /// if not, nothing is used up.
    pub fn try_pass(&mut self, now: Instant) -> (r: GateDecision)
        ensures
            (final(self)@, r) == asked(old(self)@, now),
    {
        if self.turn_count >= self.turn_limit {
            return GateDecision::TurnLimitExceeded;
        }
        if let Some(rate) = self.rate {
            let start = match now.checked_sub(rate.window) {
                Some(t) => t,
                None => now,
            };
            self.drop_before(start);
            if self.recent.len() >= rate.calls {
                return GateDecision::RateLimitExceeded;
            }
        }
        if let Some(max) = self.session_max {
            if self.session_count >= max {
                return GateDecision::SessionExhausted;
            }
            self.session_count = self.session_count + 1;
        }
        self.turn_count = self.turn_count + 1;
        if self.rate.is_some() {
            self.recent.push(now);
        }
        GateDecision::Proceed
    }
}

/// Whether the counts of a limiter are within its caps.
pub open spec fn within_caps(g: GateModel) -> bool {
    &&& g.turn_count <= g.turn_limit
    &&& g.session_max is Some ==> g.session_count <= g.session_max->0
    &&& g.rate is Some ==> g.recent.len() <= g.rate->0.calls
}

/// The counts of a limiter never exceed its caps, whatever is asked of it.
pub proof fn law_gate_stays_within_caps(g: GateModel, now: Instant)
    requires
        within_caps(g),
    ensures
        within_caps(asked(g, now).0),
        within_caps(turn_begun(g)),
{
    if g.rate is Some {
        lemma_in_window(g.recent, window_start(now, g.rate->0.window));
    }
}

/// A new limiter is within its caps.
pub proof fn law_new_gate_is_within_caps(
    turn_limit: usize,
    rate: Option<RateLimit>,
    session_max: Option<usize>,
)
    ensures
        within_caps(new_gate(turn_limit, rate, session_max)),
{
}

/// A call that is turned away uses up nothing: no count goes up.
pub proof fn law_rejections_use_up_nothing(g: GateModel, now: Instant)
    ensures
        !(asked(g, now).1 is Proceed) ==> {
            let after = asked(g, now).0;
            &&& after.turn_count == g.turn_count
            &&& after.session_count == g.session_count
            &&& after.recent.len() <= g.recent.len()
        },
{
    if g.rate is Some {
        lemma_in_window(g.recent, window_start(now, g.rate->0.window));
    }
}

proof fn lemma_in_window(recent: Seq<Instant>, start: int)
    ensures
        in_window(recent, start).len() <= recent.len(),
        in_window(recent, start) == recent.skip(recent.len() - in_window(recent, start).len()),
        forall|i: int|
            0 <= i < recent.len() - in_window(recent, start).len() ==> (#[trigger] recent[i]).nanos
                < start,
    decreases recent.len(),
{
    if recent.len() > 0 && recent[0].nanos < start {
        lemma_in_window(recent.skip(1), start);
        let rest = in_window(recent.skip(1), start);
        assert(recent.skip(1).skip(recent.len() - 1 - rest.len()) =~= recent.skip(
            recent.len() - rest.len(),
        ));
        assert forall|i: int| 0 <= i < recent.len() - rest.len() implies (
        #[trigger] recent[i]).nanos < start by {
            if i > 0 {
                assert(recent.skip(1)[i - 1] == recent[i]);
            }
        }
    } else {
        assert(recent.skip(0) =~= recent);
    }
}

/// The limiter after a while, and when the calls went through that did. An entry
/// of `asks` is a call at that time; an entry without one starts a turn.
pub open spec fn history(g: GateModel, asks: Seq<Option<Instant>>) -> (GateModel, Seq<Instant>)
    decreases asks.len(),
{
    if asks.len() == 0 {
        (g, Seq::empty())
    } else {
        let (h, times) = history(g, asks.drop_last());
        match asks.last() {
            None => (turn_begun(h), times),
            Some(now) => {
                let (after, decision) = asked(h, now);
                (after, if decision is Proceed {
                    times.push(now)
                } else {
                    times
                })
            },
        }
    }
}

/// Whether the times at which calls are made do not go back, and a window
/// that ends at one of them does not start out of range.
pub open spec fn in_order(asks: Seq<Option<Instant>>, window: Duration) -> bool {
    &&& forall|i: int, j: int|
        0 <= i < j < asks.len() && (#[trigger] asks[i]) is Some && (#[trigger] asks[j]) is Some
            ==> asks[i]->0.nanos <= asks[j]->0.nanos
    &&& forall|i: int|
        0 <= i < asks.len() && (#[trigger] asks[i]) is Some ==> asks[i]->0.nanos - window.total()
            >= i128::MIN
}

/// Whether a time lies before the window that ends at one of the calls.
spec fn out_of_window(asks: Seq<Option<Instant>>, t: Instant, window: Duration) -> bool {
    exists|k: int|
        0 <= k < asks.len() && (#[trigger] asks[k]) is Some && t.nanos < asks[k]->0.nanos
            - window.total()
}

/// What the limiter remembers of the calls that went through: all but the first
/// `dropped`, which lie before the window of the last call.
spec fn remembers(
    g: GateModel,
    asks: Seq<Option<Instant>>,
    times: Seq<Instant>,
    dropped: int,
) -> bool {
    &&& 0 <= dropped <= times.len()
    &&& g.recent == times.skip(dropped)
    &&& g.rate is Some
    &&& forall|i: int|
        0 <= i < dropped ==> out_of_window(asks, #[trigger] times[i], g.rate->0.window)
}

/// A rate cap holds over the whole life of a limiter: of the calls that go
/// through, any one and the one that many calls later are further apart than
/// the window is long.
pub proof fn law_rate_is_kept(
    turn_limit: usize,
    rate: RateLimit,
    session_max: Option<usize>,
    asks: Seq<Option<Instant>>,
)
    requires
        in_order(asks, rate.window),
    ensures
        ({
            let times = history(new_gate(turn_limit, Some(rate), session_max), asks).1;
            forall|i: int|
                0 <= i < times.len() - rate.calls ==> (#[trigger] times[i + rate.calls]).nanos
                    - times[i].nanos > rate.window.total()
        }),
{
    let dropped = lemma_rate_is_kept(turn_limit, rate, session_max, asks);
}

proof fn lemma_rate_is_kept(
    turn_limit: usize,
    rate: RateLimit,
    session_max: Option<usize>,
    asks: Seq<Option<Instant>>,
) -> (dropped: int)
    requires
        in_order(asks, rate.window),
    ensures
        ({
            let (g, times) = history(new_gate(turn_limit, Some(rate), session_max), asks);
            &&& g.rate == Some(rate)
            &&& remembers(g, asks, times, dropped)
            &&& forall|i: int|
                0 <= i < times.len() - rate.calls ==> (#[trigger] times[i + rate.calls]).nanos
                    - times[i].nanos > rate.window.total()
        }),
    decreases asks.len(),
{
    let g0 = new_gate(turn_limit, Some(rate), session_max);
    let (g, times) = history(g0, asks);
    if asks.len() == 0 {
        assert(times.skip(0) =~= times);
        assert(remembers(g, asks, times, 0));
        0
    } else {
        let before = asks.drop_last();
        let last = asks.len() - 1;
        lemma_in_order_before(asks, rate.window);
        let d = lemma_rate_is_kept(turn_limit, rate, session_max, before);
        let (h, past) = history(g0, before);
        assert forall|i: int| 0 <= i < d implies out_of_window(
            asks,
            #[trigger] past[i],
            rate.window,
        ) by {
            assert(out_of_window(before, past[i], rate.window));
            let k = choose|k: int|
                0 <= k < before.len() && (#[trigger] before[k]) is Some && past[i].nanos
                    < before[k]->0.nanos - rate.window.total();
            assert(asks[k] == before[k]);
        }
        match asks.last() {
            None => {
                assert(remembers(g, asks, times, d));
                d
            },
            Some(now) => {
                assert(asks[last] == Some(now));
                if h.turn_count >= h.turn_limit {
                    assert(remembers(g, asks, times, d));
                    d
                } else {
                    lemma_one_more(rate, asks, h, past, d, now);
                    past.len() - in_window(h.recent, window_start(now, rate.window)).len()
                }
            },
        }
    }
}

proof fn lemma_in_order_before(asks: Seq<Option<Instant>>, window: Duration)
    requires
        asks.len() > 0,
        in_order(asks, window),
    ensures
        in_order(asks.drop_last(), window),
{
    let before = asks.drop_last();
    assert forall|i: int, j: int|
        0 <= i < j < before.len() && (#[trigger] before[i]) is Some && (
        #[trigger] before[j]) is Some implies before[i]->0.nanos <= before[j]->0.nanos by {
        assert(asks[i] == before[i] && asks[j] == before[j]);
    }
    assert forall|i: int| 0 <= i < before.len() && (#[trigger] before[i]) is Some implies
        before[i]->0.nanos - window.total() >= i128::MIN by {
        assert(asks[i] == before[i]);
    }
}

/// What the limiter remembers after one more call that the cap on a turn does
/// not turn away.
proof fn lemma_one_more(
    rate: RateLimit,
    asks: Seq<Option<Instant>>,
    h: GateModel,
    past: Seq<Instant>,
    d: int,
    now: Instant,
)
    requires
        asks.len() > 0,
        in_order(asks, rate.window),
        asks.last() == Some(now),
        h.rate == Some(rate),
        h.turn_count < h.turn_limit,
        remembers(h, asks, past, d),
        forall|i: int|
            0 <= i < past.len() - rate.calls ==> (#[trigger] past[i + rate.calls]).nanos
                - past[i].nanos > rate.window.total(),
    ensures
        ({
            let (g, decision) = asked(h, now);
            let times = if decision is Proceed {
                past.push(now)
            } else {
                past
            };
            let e = past.len() - in_window(h.recent, window_start(now, rate.window)).len();
            &&& g.rate == Some(rate)
            &&& remembers(g, asks, times, e)
            &&& forall|i: int|
                0 <= i < times.len() - rate.calls ==> (#[trigger] times[i + rate.calls]).nanos
                    - times[i].nanos > rate.window.total()
        }),
{
    let last = asks.len() - 1;
    assert(asks[last] == Some(now));
    let start = window_start(now, rate.window);
    assert(start == now.nanos - rate.window.total());
    let kept = in_window(h.recent, start);
    lemma_in_window(h.recent, start);
    let e = past.len() - kept.len();
    assert(past.skip(d).skip(e - d) =~= past.skip(e));
    assert forall|i: int| 0 <= i < e implies (#[trigger] past[i]).nanos < start by {
        if i >= d {
            assert(h.recent[i - d] == past[i]);
        } else {
            assert(out_of_window(asks, past[i], rate.window));
            let k = choose|k: int|
                0 <= k < asks.len() && (#[trigger] asks[k]) is Some && past[i].nanos
                    < asks[k]->0.nanos - rate.window.total();
            if k < last {
                assert(asks[k]->0.nanos <= asks[last]->0.nanos);
            }
        }
    }
    let (g, decision) = asked(h, now);
    if decision is Proceed {
        let times = past.push(now);
        assert(times.skip(e) =~= kept.push(now));
        assert forall|i: int| 0 <= i < e implies out_of_window(
            asks,
            #[trigger] times[i],
            rate.window,
        ) by {
            assert(times[i] == past[i]);
            assert(asks[last]->0.nanos - rate.window.total() == start);
        }
        assert(remembers(g, asks, times, e));
        assert forall|i: int| 0 <= i < times.len() - rate.calls implies (
        #[trigger] times[i + rate.calls]).nanos - times[i].nanos > rate.window.total() by {
            if i + rate.calls < past.len() {
                assert(times[i + rate.calls] == past[i + rate.calls]);
                assert(times[i] == past[i]);
            } else {
                assert(i < e);
                assert(times[i] == past[i]);
                assert(times[i + rate.calls] == now);
            }
        }
    } else {
        assert forall|i: int| 0 <= i < e implies out_of_window(
            asks,
            #[trigger] past[i],
            rate.window,
        ) by {
            assert(asks[last]->0.nanos - rate.window.total() == start);
        }
        assert(remembers(g, asks, past, e));
    }
}

/// How many calls have gone through since the last turn was started.
pub open spec fn let_through_in_turn(g: GateModel, asks: Seq<Option<Instant>>) -> nat
    decreases asks.len(),
{
    if asks.len() == 0 {
        0
    } else {
        let before = asks.drop_last();
        match asks.last() {
            None => 0,
            Some(now) => if asked(history(g, before).0, now).1 is Proceed {
                let_through_in_turn(g, before) + 1
            } else {
                let_through_in_turn(g, before)
            },
        }
    }
}

/// How many of the times do not lie before `start`.
pub open spec fn count_from(times: Seq<Instant>, start: int) -> nat
    decreases times.len(),
{
    if times.len() == 0 {
        0
    } else {
        count_from(times.drop_last(), start) + (if times.last().nanos >= start {
            1nat
        } else {
            0nat
        })
    }
}

/// What is said of one more call: `turn`, `window` and `all` are how many calls
/// have gone through in this turn, in the window that ends now, and in all.
pub open spec fn decision_for(
    turn_limit: usize,
    rate: Option<RateLimit>,
    session_max: Option<usize>,
    turn: nat,
    window: nat,
    all: nat,
) -> GateDecision {
    if turn >= turn_limit {
        GateDecision::TurnLimitExceeded
    } else if rate is Some && window >= rate->0.calls {
        GateDecision::RateLimitExceeded
    } else if session_max is Some && all >= session_max->0 {
        GateDecision::SessionExhausted
    } else {
        GateDecision::Proceed
    }
}

proof fn lemma_counts(
    turn_limit: usize,
    rate: Option<RateLimit>,
    session_max: Option<usize>,
    asks: Seq<Option<Instant>>,
)
    ensures
        ({
            let g0 = new_gate(turn_limit, rate, session_max);
            let (g, times) = history(g0, asks);
            &&& g.turn_limit == turn_limit
            &&& g.rate == rate
            &&& g.session_max == session_max
            &&& g.turn_count == let_through_in_turn(g0, asks)
            &&& session_max is Some ==> g.session_count == times.len()
        }),
    decreases asks.len(),
{
    if asks.len() > 0 {
        lemma_counts(turn_limit, rate, session_max, asks.drop_last());
    }
}

/// Calls go through in the order in which they are made.
proof fn lemma_times_in_order(g: GateModel, asks: Seq<Option<Instant>>, window: Duration, now: int)
    requires
        in_order(asks, window),
        forall|i: int|
            0 <= i < asks.len() && (#[trigger] asks[i]) is Some ==> asks[i]->0.nanos <= now,
    ensures
        ({
            let times = history(g, asks).1;
            &&& forall|i: int, j: int|
                0 <= i < j < times.len() ==> (#[trigger] times[i]).nanos <= (
                #[trigger] times[j]).nanos
            &&& forall|i: int| 0 <= i < times.len() ==> (#[trigger] times[i]).nanos <= now
        }),
    decreases asks.len(),
{
    if asks.len() > 0 {
        let before = asks.drop_last();
        let n = asks.len() - 1;
        lemma_in_order_before(asks, window);
        assert forall|i: int| 0 <= i < before.len() && (#[trigger] before[i]) is Some implies
            before[i]->0.nanos <= now by {
            assert(before[i] == asks[i]);
        }
        lemma_times_in_order(g, before, window, now);
        if let Some(t) = asks.last() {
            assert(asks[n] == Some(t));
            assert forall|i: int| 0 <= i < before.len() && (#[trigger] before[i]) is Some implies
                before[i]->0.nanos <= t.nanos by {
                assert(before[i] == asks[i]);
                assert(asks[i] is Some && asks[n] is Some);
            }
            lemma_times_in_order(g, before, window, t.nanos as int);
            assert(t.nanos <= now);
            let earlier = history(g, before).1;
            let times = history(g, asks).1;
            assert(times == earlier || times == earlier.push(t));
            assert forall|i: int, j: int| 0 <= i < j < times.len() implies (
            #[trigger] times[i]).nanos <= (#[trigger] times[j]).nanos by {
                assert(times[i] == earlier[i]);
                if j < earlier.len() {
                    assert(times[j] == earlier[j]);
                }
            }
            assert forall|i: int| 0 <= i < times.len() implies (#[trigger] times[i]).nanos
                <= now by {
                if i < earlier.len() {
                    assert(times[i] == earlier[i]);
                }
            }
        } else {
            assert(history(g, asks).1 == history(g, before).1);
        }
    }
}

proof fn lemma_window_head(recent: Seq<Instant>, start: int)
    ensures
        in_window(recent, start).len() > 0 ==> in_window(recent, start)[0].nanos >= start,
    decreases recent.len(),
{
    if recent.len() > 0 && recent[0].nanos < start {
        lemma_window_head(recent.skip(1), start);
    }
}

proof fn lemma_count_from(times: Seq<Instant>, start: int, j: int)
    requires
        0 <= j <= times.len(),
        forall|i: int| 0 <= i < j ==> (#[trigger] times[i]).nanos < start,
        forall|i: int| j <= i < times.len() ==> (#[trigger] times[i]).nanos >= start,
    ensures
        count_from(times, start) == times.len() - j,
    decreases times.len(),
{
    if times.len() > 0 {
        let before = times.drop_last();
        let k = if j == times.len() {
            j - 1
        } else {
            j
        };
        assert forall|i: int| 0 <= i < k implies (#[trigger] before[i]).nanos < start by {
            assert(before[i] == times[i]);
        }
        assert forall|i: int| k <= i < before.len() implies (#[trigger] before[i]).nanos
            >= start by {
            assert(before[i] == times[i]);
        }
        lemma_count_from(before, start, k);
        assert(times.last() == times[times.len() - 1]);
    }
}

/// How many calls the limiter remembers once its window has moved up to now:
/// those that went through in it.
proof fn lemma_window_count(
    turn_limit: usize,
    rate: RateLimit,
    session_max: Option<usize>,
    asks: Seq<Option<Instant>>,
    now: Instant,
)
    requires
        in_order(asks.push(Some(now)), rate.window),
    ensures
        ({
            let (g, times) = history(new_gate(turn_limit, Some(rate), session_max), asks);
            moved(g, now).recent.len() == count_from(times, now.nanos - rate.window.total())
        }),
{
    let all = asks.push(Some(now));
    let n = asks.len() as int;
    assert(all[n] == Some(now));
    assert(all.drop_last() =~= asks);
    lemma_in_order_before(all, rate.window);
    assert forall|i: int| 0 <= i < asks.len() && (#[trigger] asks[i]) is Some implies
        asks[i]->0.nanos <= now.nanos by {
        assert(all[i] == asks[i]);
        assert(all[i] is Some && all[n] is Some);
    }
    let g0 = new_gate(turn_limit, Some(rate), session_max);
    let (g, times) = history(g0, asks);
    lemma_times_in_order(g0, asks, rate.window, now.nanos as int);
    let d = lemma_rate_is_kept(turn_limit, rate, session_max, asks);
    let start = now.nanos - rate.window.total();
    assert(window_start(now, rate.window) == start);
    lemma_in_window(g.recent, start);
    lemma_window_head(g.recent, start);
    let kept = in_window(g.recent, start);
    let j = times.len() - kept.len();
    assert forall|i: int| 0 <= i < j implies (#[trigger] times[i]).nanos < start by {
        if i < d {
            assert(out_of_window(asks, times[i], rate.window));
            let k = choose|k: int|
                0 <= k < asks.len() && (#[trigger] asks[k]) is Some && times[i].nanos
                    < asks[k]->0.nanos - rate.window.total();
            assert(asks[k]->0.nanos <= now.nanos);
        } else {
            assert(g.recent[i - d] == times[i]);
        }
    }
    assert forall|i: int| j <= i < times.len() implies (#[trigger] times[i]).nanos >= start by {
        assert(kept[0] == times[j]);
        if j < i {
            assert(times[j].nanos <= times[i].nanos);
        }
    }
    lemma_count_from(times, start, j);
}

/// What is said of a call follows from the calls that have gone through so
/// far: in this turn, in the window that ends now, and in all. Calls that were
/// turned away count for nothing.
pub proof fn law_decisions_follow_from_history(
    turn_limit: usize,
    rate: Option<RateLimit>,
    session_max: Option<usize>,
    asks: Seq<Option<Instant>>,
    now: Instant,
)
    requires
        rate is Some ==> in_order(asks.push(Some(now)), rate->0.window),
    ensures
        ({
            let g0 = new_gate(turn_limit, rate, session_max);
            let (g, times) = history(g0, asks);
            asked(g, now).1 == decision_for(
                turn_limit,
                rate,
                session_max,
                let_through_in_turn(g0, asks),
                count_from(times, now.nanos - rate->0.window.total()),
                times.len(),
            )
        }),
{
    lemma_counts(turn_limit, rate, session_max, asks);
    if let Some(r) = rate {
        lemma_window_count(turn_limit, r, session_max, asks, now);
    }
}

} // verus!
