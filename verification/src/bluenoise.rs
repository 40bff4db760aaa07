//! The interjection scheduler: decides for each event whether the assistant
//! speaks unprompted. It diffuses the error between the target rate and what
//! was done so far, so that actions come at the target rate, neither in
//! clusters nor after long silences.

use vstd::prelude::*;
use std::collections::VecDeque;
use crate::chance::random_in;

verus! {

/// Number of past actions that are remembered.
pub const RECENT_ACTIONS: usize = 10;

/// Mathematical value of a scheduler. The target rate is the fraction
/// `num / den`; the error is counted in units of `1 / den`.
pub struct SchedulerState {
    /// Numerator of the target rate.
    pub num: nat,
    /// Denominator of the target rate.
    pub den: nat,
    /// Fewest events from one action to the next that chance may decide.
    pub min_gap: nat,
    /// Most events from one action to the next.
    pub max_gap: nat,
    /// The events at which the last actions were taken, oldest first.
    pub recent: Seq<u64>,
    /// Number of events seen.
    pub count: nat,
    /// The event at which the last action was taken; zero before the first.
    pub last: nat,
    /// Whether the next event is answered with an action in any case.
    pub forced: bool,
    /// The probability that is owed: what the target rate asked for so far,
    /// less what was done.
    pub error: int,
}

/// The state of a new scheduler for the rate `num / den`: the gaps are half
/// and twice the whole part of the reciprocal rate.
pub open spec fn initial(num: nat, den: nat) -> SchedulerState {
    SchedulerState {
        num,
        den,
        min_gap: (den / num) / 2,
        max_gap: (den / num) * 2,
        recent: Seq::empty(),
        count: 0,
        last: 0,
        forced: false,
        error: 0,
    }
}

/// The state after an action at the current event.
pub open spec fn acted(s: SchedulerState) -> SchedulerState {
    SchedulerState {
        last: s.count,
        recent: if s.recent.len() >= RECENT_ACTIONS {
            s.recent.drop_first().push(s.count as u64)
        } else {
            s.recent.push(s.count as u64)
        },
        error: s.error + s.num - s.den,
        ..s
    }
}

/// The state after an event without action: the rate's share is owed.
pub open spec fn passed(s: SchedulerState) -> SchedulerState {
    SchedulerState { error: s.error + s.num, ..s }
}

/// Whether the decision on the next event is left to chance: no action is
/// forced, and the gap since the last action is neither too short nor at
/// its limit.
pub open spec fn needs_draw(s: SchedulerState) -> bool {
    &&& !s.forced
    &&& s.min_gap <= s.count + 1 - s.last < s.max_gap
}

/// The state after the next event and whether the assistant acts on it,
/// for a number `draw` drawn evenly from zero to below the denominator. A
/// forced action comes first. Too soon after the last action nothing is
/// done; at the largest gap an action is taken. In between the draw decides,
/// against the target rate plus the error.
pub open spec fn decide(s: SchedulerState, draw: nat) -> (SchedulerState, bool) {
    let t = SchedulerState { count: s.count + 1, ..s };
    let gap = t.count - t.last;
    if t.forced {
        (acted(SchedulerState { forced: false, ..t }), true)
    } else if gap < t.min_gap {
        (passed(t), false)
    } else if gap >= t.max_gap {
        (acted(t), true)
    } else if draw < t.num + t.error {
        (acted(t), true)
    } else {
        (passed(t), false)
    }
}

/// The state in which the next event is answered with an action.
pub open spec fn with_force(s: SchedulerState) -> SchedulerState {
    SchedulerState { forced: true, ..s }
}

/// What holds of every state of a scheduler: the rate lies between zero and
/// one, the gaps are in order, the last action is not in the future and not
/// further back than the largest gap allows, and the error is within what
/// the events so far can have added up to.
pub open spec fn well_formed(s: SchedulerState) -> bool {
    &&& 0 < s.num < s.den
    &&& s.den <= u32::MAX
    &&& s.min_gap <= s.max_gap
    &&& 1 <= s.max_gap <= u64::MAX
    &&& s.last <= s.count <= u64::MAX
    &&& s.count - s.last < s.max_gap
    &&& s.recent.len() <= RECENT_ACTIONS
    &&& -(s.count * s.den) <= s.error <= s.count * s.num
}

/// Every event leaves a well-formed state, in which the last action is less
/// than the largest gap back: no silence is longer than the largest gap.
pub proof fn lemma_decide_well_formed(s: SchedulerState, draw: nat)
    requires
        well_formed(s),
        s.count < u64::MAX,
    ensures
        well_formed(decide(s, draw).0),
        decide(s, draw).0.count == s.count + 1,
        decide(s, draw).0.count - decide(s, draw).0.last < s.max_gap,
        decide(s, draw).1 <==> decide(s, draw).0.last == s.count + 1,
        decide(s, draw).0.error == s.error + s.num - (if decide(s, draw).1 {
            s.den as int
        } else {
            0
        }),
{
    assert((s.count + 1) * s.den == s.count * s.den + s.den) by (nonlinear_arith);
    assert((s.count + 1) * s.num == s.count * s.num + s.num) by (nonlinear_arith);
}

/// What is owed in a well-formed state is small enough to be counted in
/// 128 bits with room to spare.
pub proof fn lemma_error_is_bounded(s: SchedulerState)
    requires
        well_formed(s),
    ensures
        -0x1_0000_0000_0000_0000_0000_0000 <= s.error <= 0x1_0000_0000_0000_0000_0000_0000,
{
    assert(0 <= s.count * s.den <= 0xFFFF_FFFF_FFFF_FFFF * 0xFFFF_FFFF) by (nonlinear_arith)
        requires
            0 <= s.count <= 0xFFFF_FFFF_FFFF_FFFF,
            0 <= s.den <= 0xFFFF_FFFF,
    ;
    assert(0 <= s.count * s.num <= 0xFFFF_FFFF_FFFF_FFFF * 0xFFFF_FFFF) by (nonlinear_arith)
        requires
            0 <= s.count <= 0xFFFF_FFFF_FFFF_FFFF,
            0 <= s.num <= 0xFFFF_FFFF,
    ;
}

/// A forced action is taken at the next event, whatever the gap and the
/// draw, and is forced no longer after it.
pub proof fn lemma_force_acts_once(s: SchedulerState, draw: nat)
    ensures
        decide(with_force(s), draw).1,
        !decide(with_force(s), draw).0.forced,
        decide(with_force(s), draw).0.last == s.count + 1,
{
}

/// The gap from one action to the next is never larger than the largest
/// gap, and, unless the action is forced, never smaller than the smallest.
pub proof fn lemma_action_gap_within_bounds(s: SchedulerState, draw: nat)
    requires
        well_formed(s),
        decide(s, draw).1,
    ensures
        s.count + 1 - s.last <= s.max_gap,
        !s.forced ==> s.count + 1 - s.last >= s.min_gap,
{
}

/// The event that reaches the largest gap is answered with an action,
/// whatever the draw: no silence lasts longer.
pub proof fn lemma_silence_is_bounded(s: SchedulerState, draw: nat)
    requires
        well_formed(s),
        s.count + 1 - s.last >= s.max_gap,
    ensures
        decide(s, draw).1,
{
}

/// The interjection scheduler.
pub struct BlueNoiseInterjecter {
    numerator: u32,
    denominator: u32,
    min_gap: u64,
    max_gap: u64,
    recent_interjections: VecDeque<u64>,
    message_count: u64,
    last_interjection: u64,
    force_interject: bool,
    error: i128,
}

impl View for BlueNoiseInterjecter {
    type V = SchedulerState;

    closed spec fn view(&self) -> SchedulerState {
        SchedulerState {
            num: self.numerator as nat,
            den: self.denominator as nat,
            min_gap: self.min_gap as nat,
            max_gap: self.max_gap as nat,
            recent: self.recent_interjections@,
            count: self.message_count as nat,
            last: self.last_interjection as nat,
            forced: self.force_interject,
            error: self.error as int,
        }
    }
}

impl BlueNoiseInterjecter {
    /// Whether the state is well formed.
    pub open spec fn wf(&self) -> bool {
        well_formed(self@)
    }

    /// A scheduler that acts on the share `numerator / denominator` of all
    /// events in the long run.
    pub fn new(numerator: u32, denominator: u32) -> (r: Self)
        requires
            0 < numerator < denominator,
        ensures
            r@ == initial(numerator as nat, denominator as nat),
            r.wf(),
    {
        let avg_gap: u64 = (denominator / numerator) as u64;
        let r = BlueNoiseInterjecter {
            numerator,
            denominator,
            min_gap: avg_gap / 2,
            max_gap: avg_gap * 2,
            recent_interjections: VecDeque::with_capacity(RECENT_ACTIONS),
            message_count: 0,
            last_interjection: 0,
            force_interject: false,
            error: 0,
        };
        proof {
            assert(denominator / numerator >= 1) by (nonlinear_arith)
                requires
                    0 < numerator < denominator,
            ;
            assert(r@.recent =~= initial(numerator as nat, denominator as nat).recent);
            assert(0 * r@.den == 0 && 0 * r@.num == 0) by (nonlinear_arith);
        }
        r
    }

    /// A scheduler with gaps and a history of its own: so many events seen,
    /// the last action at the given event, nothing owed. Nothing is made
    /// where the values do not fit together.
    pub fn restore(
        numerator: u32,
        denominator: u32,
        min_gap: u64,
        max_gap: u64,
        message_count: u64,
        last_interjection: u64,
    ) -> (r: Option<Self>)
        ensures
            r.is_some() == well_formed(
                SchedulerState {
                    num: numerator as nat,
                    den: denominator as nat,
                    min_gap: min_gap as nat,
                    max_gap: max_gap as nat,
                    recent: Seq::empty(),
                    count: message_count as nat,
                    last: last_interjection as nat,
                    forced: false,
                    error: 0,
                },
            ),
            r matches Some(b) ==> b.wf() && b@ == (SchedulerState {
                num: numerator as nat,
                den: denominator as nat,
                min_gap: min_gap as nat,
                max_gap: max_gap as nat,
                recent: Seq::empty(),
                count: message_count as nat,
                last: last_interjection as nat,
                forced: false,
                error: 0,
            }),
    {
        proof {
            assert(0 <= message_count * denominator && 0 <= message_count * numerator)
                by (nonlinear_arith);
        }
        if 0 < numerator && numerator < denominator && min_gap <= max_gap && 1 <= max_gap
            && last_interjection <= message_count && message_count - last_interjection < max_gap {
            let b = BlueNoiseInterjecter {
                numerator,
                denominator,
                min_gap,
                max_gap,
                recent_interjections: VecDeque::new(),
                message_count,
                last_interjection,
                force_interject: false,
                error: 0,
            };
            assert(b@.recent =~= Seq::<u64>::empty());
            Some(b)
        } else {
            None
        }
    }

    /// Number of events seen.
    pub fn message_count(&self) -> (r: u64)
        ensures
            r == self@.count,
    {
        self.message_count
    }

    /// The event at which the last action was taken.
    pub fn last_interjection(&self) -> (r: u64)
        ensures
            r == self@.last,
    {
        self.last_interjection
    }

    /// Whether the next event is answered with an action in any case.
    pub fn is_forced(&self) -> (r: bool)
        ensures
            r == self@.forced,
    {
        self.force_interject
    }

    /// Fewest events from one action to the next that chance may decide.
    pub fn min_gap(&self) -> (r: u64)
        ensures
            r == self@.min_gap,
    {
        self.min_gap
    }

    /// Most events from one action to the next.
    pub fn max_gap(&self) -> (r: u64)
        ensures
            r == self@.max_gap,
    {
        self.max_gap
    }

    /// Whether the decision on the next event is left to chance.
    pub fn draw_needed(&self) -> (r: bool)
        requires
            self.wf(),
            self@.count < u64::MAX,
        ensures
            r == needs_draw(self@),
    {
        let gap: u64 = self.message_count + 1 - self.last_interjection;
        !self.force_interject && self.min_gap <= gap && gap < self.max_gap
    }

    /// Notes an action at the current event.
    fn record_interjection(&mut self)
        requires
            old(self)@.recent.len() <= RECENT_ACTIONS,
            -0x1_0000_0000_0000_0000_0000_0000 <= old(self)@.error
                <= 0x1_0000_0000_0000_0000_0000_0000,
        ensures
            final(self)@ == acted(old(self)@),
    {
        self.last_interjection = self.message_count;
        self.recent_interjections.push_back(self.message_count);
        if self.recent_interjections.len() > RECENT_ACTIONS {
            self.recent_interjections.pop_front();
        }
        self.error = self.error + self.numerator as i128 - self.denominator as i128;
        assert(self@.recent =~= acted(old(self)@).recent);
    }

    /// Decides on the next event with a given draw.
    pub fn decide_with(&mut self, draw: u64) -> (r: bool)
        requires
            old(self).wf(),
            old(self)@.count < u64::MAX,
        ensures
            (final(self)@, r) == decide(old(self)@, draw as nat),
            final(self).wf(),
    {
        proof {
            lemma_decide_well_formed(self@, draw as nat);
            lemma_error_is_bounded(self@);
        }
        self.message_count = self.message_count + 1;
        let messages_since_last: u64 = self.message_count - self.last_interjection;
        if self.force_interject {
            self.force_interject = false;
            self.record_interjection();
            return true;
        }
        if messages_since_last < self.min_gap {
            self.error = self.error + self.numerator as i128;
            return false;
        }
        if messages_since_last >= self.max_gap {
            self.record_interjection();
            return true;
        }
        if (draw as i128) < self.numerator as i128 + self.error {
            self.record_interjection();
            true
        } else {
            self.error = self.error + self.numerator as i128;
            false
        }
    }

    /// Decides whether the assistant acts on the next event. Where chance
    /// has a say, a number is drawn evenly from zero to below the
    /// denominator of the rate.
    pub fn should_interject(&mut self) -> (r: bool)
        requires
            old(self).wf(),
            old(self)@.count < u64::MAX,
        ensures
            final(self).wf(),
            exists|draw: nat|
                draw < old(self)@.den && #[trigger] decide(old(self)@, draw) == (final(self)@, r),
            !needs_draw(old(self)@) ==> (final(self)@, r) == decide(old(self)@, 0),
    {
        let draw: u64 = if self.draw_needed() {
            random_in(0, (self.denominator - 1) as u64)
        } else {
            0
        };
        let r = self.decide_with(draw);
        assert(decide(old(self)@, draw as nat) == (self@, r));
        r
    }

    /// Makes the next event one that is answered with an action.
    pub fn force_next_interjection(&mut self)
        requires
            old(self).wf(),
        ensures
            final(self)@ == with_force(old(self)@),
            final(self).wf(),
    {
        self.force_interject = true;
    }
}

/// The state after a sequence of events, one draw for each.
pub open spec fn after_draws(s: SchedulerState, draws: Seq<nat>) -> SchedulerState
    decreases draws.len(),
{
    if draws.len() == 0 {
        s
    } else {
        after_draws(decide(s, draws[0]).0, draws.drop_first())
    }
}

/// Number of actions taken in a sequence of events.
pub open spec fn actions_in(s: SchedulerState, draws: Seq<nat>) -> nat
    decreases draws.len(),
{
    if draws.len() == 0 {
        0
    } else {
        let acts: nat = if decide(s, draws[0]).1 {
            1
        } else {
            0
        };
        acts + actions_in(decide(s, draws[0]).0, draws.drop_first())
    }
}

/// Whether the error is as small as diffusion keeps it while no action is
/// forced: less than one action is owed, less than one action was taken in
/// advance, and after an action room is left for what is owed until chance
/// has a say again.
pub open spec fn balanced(s: SchedulerState) -> bool {
    let gap = s.count - s.last;
    let blocked = if s.min_gap - 1 - gap > 0 {
        s.min_gap - 1 - gap
    } else {
        0
    };
    &&& s.min_gap * s.num <= s.den <= s.max_gap * s.num
    &&& s.error <= s.den - 1 - s.num * blocked
    &&& s.error >= 1 - s.den + gap * s.num
}

/// A new scheduler is balanced.
pub proof fn lemma_initial_balanced(num: nat, den: nat)
    requires
        0 < num < den,
    ensures
        balanced(initial(num, den)),
        !initial(num, den).forced,
{
    let q = den / num;
    vstd::arithmetic::div_mod::lemma_fundamental_div_mod(den as int, num as int);
    vstd::arithmetic::div_mod::lemma_mod_bound(den as int, num as int);
    let half = q / 2;
    assert(q >= 1) by (nonlinear_arith)
        requires
            0 < num < den,
            q == den / num,
    ;
    assert(half * num <= q * num) by (nonlinear_arith)
        requires
            half <= q,
    ;
    assert((q * 2) * num == q * num + q * num) by (nonlinear_arith);
    assert(q * num >= num) by (nonlinear_arith)
        requires
            q >= 1,
    ;
    assert(num * q == q * num) by (nonlinear_arith);
    let s = initial(num, den);
    let blocked = if s.min_gap - 1 > 0 {
        s.min_gap - 1
    } else {
        0
    };
    if blocked > 0 {
        assert(num * blocked + num == half * num) by (nonlinear_arith)
            requires
                blocked + 1 == half,
        ;
    } else {
        assert(num * blocked == 0) by (nonlinear_arith)
            requires
                blocked == 0,
        ;
    }
    assert(0 * num == 0) by (nonlinear_arith);
    assert(s.min_gap * s.num <= s.den);
    assert(s.den <= s.max_gap * s.num);
    assert(s.error <= s.den - 1 - s.num * blocked);
}

/// An event whose action is not forced, with a draw below the denominator,
/// leaves a balanced state balanced.
pub proof fn lemma_decide_balanced(s: SchedulerState, draw: nat)
    requires
        0 < s.num < s.den,
        s.last <= s.count,
        balanced(s),
        !s.forced,
        draw < s.den,
    ensures
        balanced(decide(s, draw).0),
        !decide(s, draw).0.forced,
        decide(s, draw).0.num == s.num,
        decide(s, draw).0.den == s.den,
        0 < decide(s, draw).0.num < decide(s, draw).0.den,
        decide(s, draw).0.last <= decide(s, draw).0.count,
        decide(s, draw).0.error == s.error + s.num - (if decide(s, draw).1 {
            s.den as int
        } else {
            0
        }),
{
    let gap = s.count - s.last;
    let new_gap = gap + 1;
    let after = decide(s, draw).0;
    let blocked = if s.min_gap - 1 - gap > 0 {
        s.min_gap - 1 - gap
    } else {
        0
    };
    assert(0 <= s.num * blocked) by (nonlinear_arith)
        requires
            0 <= blocked,
            0 <= s.num,
    ;
    assert(0 <= gap * s.num) by (nonlinear_arith)
        requires
            0 <= gap,
            0 <= s.num,
    ;
    assert(0 * s.num == 0) by (nonlinear_arith);
    assert(s.num * 0 == 0) by (nonlinear_arith);
    if decide(s, draw).1 {
        // An action: the gap is zero again.
        let room = if s.min_gap - 1 > 0 {
            s.min_gap - 1
        } else {
            0
        };
        assert(s.num * room + s.num <= s.den) by (nonlinear_arith)
            requires
                s.min_gap * s.num <= s.den,
                room == (if s.min_gap - 1 > 0 {
                    s.min_gap - 1
                } else {
                    0
                }),
                0 < s.num < s.den,
        ;
        if new_gap >= s.max_gap {
            assert(gap * s.num + s.num >= s.max_gap * s.num) by (nonlinear_arith)
                requires
                    gap + 1 >= s.max_gap,
                    0 <= s.num,
            ;
        }
        assert(after.count - after.last == 0);
    } else {
        // No action: the gap has grown by one.
        assert(new_gap * s.num == gap * s.num + s.num) by (nonlinear_arith)
            requires
                new_gap == gap + 1,
        ;
        let blocked_after = if s.min_gap - 1 - new_gap > 0 {
            s.min_gap - 1 - new_gap
        } else {
            0
        };
        if new_gap < s.min_gap {
            assert(s.num * blocked == s.num * blocked_after + s.num) by (nonlinear_arith)
                requires
                    blocked == blocked_after + 1,
            ;
        }
        assert(after.count - after.last == new_gap);
    }
}

/// Over a sequence of unforced events the error changes by what the rate
/// asked for less what was done, and stays balanced.
pub proof fn lemma_run_balanced(s: SchedulerState, draws: Seq<nat>)
    requires
        0 < s.num < s.den,
        s.last <= s.count,
        balanced(s),
        !s.forced,
        forall|i: int| 0 <= i < draws.len() ==> #[trigger] draws[i] < s.den,
    ensures
        balanced(after_draws(s, draws)),
        after_draws(s, draws).den == s.den,
        after_draws(s, draws).error == s.error + draws.len() * s.num - actions_in(s, draws)
            * s.den,
    decreases draws.len(),
{
    if draws.len() == 0 {
        assert(0 * s.num == 0 && 0 * s.den == 0) by (nonlinear_arith);
    } else {
        let next = decide(s, draws[0]).0;
        let rest = draws.drop_first();
        lemma_decide_balanced(s, draws[0]);
        assert forall|i: int| 0 <= i < rest.len() implies #[trigger] rest[i] < next.den by {
            assert(rest[i] == draws[i + 1]);
        }
        lemma_run_balanced(next, rest);
        let a_rest = actions_in(next, rest);
        let n_rest = rest.len();
        assert(draws.len() * s.num == n_rest * s.num + s.num) by (nonlinear_arith)
            requires
                draws.len() == n_rest + 1,
        ;
        assert((1 + a_rest) * s.den == a_rest * s.den + s.den) by (nonlinear_arith);
    }
}

/// The rate is met. Of any number of events that a new scheduler sees, with
/// no action forced, it acts on the share that the target rate asks for, to
/// within less than one action: the number of actions times the denominator
/// differs from the number of events times the numerator by less than the
/// denominator.
pub proof fn lemma_rate_is_met(num: nat, den: nat, draws: Seq<nat>)
    requires
        0 < num < den,
        forall|i: int| 0 <= i < draws.len() ==> #[trigger] draws[i] < den,
    ensures
        -den < draws.len() * num - actions_in(initial(num, den), draws) * den < den,
{
    lemma_initial_balanced(num, den);
    lemma_run_balanced(initial(num, den), draws);
    let end = after_draws(initial(num, den), draws);
    let gap = end.count - end.last;
    let blocked = if end.min_gap - 1 - gap > 0 {
        end.min_gap - 1 - gap
    } else {
        0
    };
    lemma_run_keeps_order(initial(num, den), draws);
    assert(0 <= end.num * blocked) by (nonlinear_arith)
        requires
            0 <= blocked,
            0 <= end.num,
    ;
    assert(0 <= gap * end.num) by (nonlinear_arith)
        requires
            0 <= gap,
            0 <= end.num,
    ;
}

/// Every event is counted, the last action is never in the future and
/// never moves back, and the rate and the gaps stay what they are.
pub proof fn lemma_run_keeps_order(s: SchedulerState, draws: Seq<nat>)
    requires
        s.last <= s.count,
    ensures
        after_draws(s, draws).count == s.count + draws.len(),
        s.last <= after_draws(s, draws).last <= after_draws(s, draws).count,
        after_draws(s, draws).num == s.num,
        after_draws(s, draws).den == s.den,
        after_draws(s, draws).min_gap == s.min_gap,
        after_draws(s, draws).max_gap == s.max_gap,
    decreases draws.len(),
{
    if draws.len() > 0 {
        lemma_run_keeps_order(decide(s, draws[0]).0, draws.drop_first());
    }
}

/// The gaps at which actions are taken in a sequence of events: for each
/// action, the number of events since the action before it, and for the
/// first one since the last action before the sequence.
pub open spec fn action_gaps(s: SchedulerState, draws: Seq<nat>) -> Seq<nat>
    decreases draws.len(),
{
    if draws.len() == 0 {
        Seq::empty()
    } else {
        let rest = action_gaps(decide(s, draws[0]).0, draws.drop_first());
        if decide(s, draws[0]).1 {
            seq![(s.count + 1 - s.last) as nat] + rest
        } else {
            rest
        }
    }
}

/// The sum of numbers.
pub open spec fn sum_of(values: Seq<nat>) -> nat
    decreases values.len(),
{
    if values.len() == 0 {
        0
    } else {
        sum_of(values.drop_last()) + values.last()
    }
}

/// The sum of the squares of numbers.
pub open spec fn sum_of_squares(values: Seq<nat>) -> nat
    decreases values.len(),
{
    if values.len() == 0 {
        0
    } else {
        sum_of_squares(values.drop_last()) + values.last() * values.last()
    }
}

/// Whether all numbers lie from `low` to `high`.
pub open spec fn all_within(values: Seq<nat>, low: nat, high: nat) -> bool {
    forall|i: int| 0 <= i < values.len() ==> low <= #[trigger] values[i] <= high
}

/// Whether a state is one of a run in which no action is forced: the last
/// action is less than the largest gap back.
pub open spec fn in_step(s: SchedulerState) -> bool {
    &&& !s.forced
    &&& s.last <= s.count
    &&& s.count - s.last < s.max_gap
    &&& s.min_gap <= s.max_gap
}

/// The smallest gap that can lie between two actions: the smallest gap of
/// the scheduler, and one event at least.
pub open spec fn least_gap(s: SchedulerState) -> nat {
    if s.min_gap > 1 {
        s.min_gap
    } else {
        1
    }
}

/// With no action forced, every gap between actions lies from the smallest
/// to the largest gap.
pub proof fn lemma_gaps_within_bounds(s: SchedulerState, draws: Seq<nat>)
    requires
        in_step(s),
    ensures
        all_within(action_gaps(s, draws), least_gap(s), s.max_gap),
    decreases draws.len(),
{
    if draws.len() > 0 {
        let next = decide(s, draws[0]).0;
        lemma_gaps_within_bounds(next, draws.drop_first());
        let rest = action_gaps(next, draws.drop_first());
        let gaps = action_gaps(s, draws);
        if decide(s, draws[0]).1 {
            assert forall|i: int| 0 <= i < gaps.len() implies least_gap(s) <= #[trigger] gaps[i]
                <= s.max_gap by {
                if i > 0 {
                    assert(gaps[i] == rest[i - 1]);
                }
            }
        }
    }
}

/// For numbers from `low` to `high`, the sum of the squares is at most the
/// sum times `low + high`, less `low * high` for each number.
proof fn lemma_squares_bounded(values: Seq<nat>, low: nat, high: nat)
    requires
        all_within(values, low, high),
    ensures
        sum_of_squares(values) + values.len() * (low * high) <= (low + high) * sum_of(values),
    decreases values.len(),
{
    if values.len() == 0 {
        assert(0 * (low * high) == 0 && (low + high) * 0 == 0) by (nonlinear_arith);
    } else {
        let front = values.drop_last();
        let g = values.last();
        assert forall|i: int| 0 <= i < front.len() implies low <= #[trigger] front[i] <= high by {
            assert(front[i] == values[i]);
        }
        lemma_squares_bounded(front, low, high);
        assert(g * g + low * high <= (low + high) * g) by (nonlinear_arith)
            requires
                low <= g <= high,
        ;
        let n = front.len();
        assert((n + 1) * (low * high) == n * (low * high) + low * high) by (nonlinear_arith);
        assert((low + high) * (sum_of(front) + g) == (low + high) * sum_of(front) + (low + high)
            * g) by (nonlinear_arith);
    }
}

/// Numbers that lie close enough together spread less than their mean:
/// their variance is below the square of their mean, which is to say that
/// their number times the sum of their squares is less than twice the
/// square of their sum. Close enough are bounds whose sum squared is less
/// than eight times their product.
pub proof fn lemma_spread_below_mean(values: Seq<nat>, low: nat, high: nat)
    requires
        all_within(values, low, high),
        values.len() >= 1,
        (low + high) * (low + high) < 8 * (low * high),
    ensures
        values.len() * sum_of_squares(values) < 2 * (sum_of(values) * sum_of(values)),
{
    lemma_squares_bounded(values, low, high);
    let n = values.len() as int;
    let total = sum_of(values) as int;
    let squares = sum_of_squares(values) as int;
    let c = (low + high) as int;
    let p = (low * high) as int;
    assert(n * squares <= n * (c * total - n * p)) by (nonlinear_arith)
        requires
            squares + n * p <= c * total,
            n >= 0,
    ;
    assert(8 * (2 * (total * total) - n * (c * total - n * p)) == (4 * total - n * c) * (4
        * total - n * c) + (n * n) * (8 * p - c * c)) by (nonlinear_arith);
    assert((4 * total - n * c) * (4 * total - n * c) >= 0) by (nonlinear_arith);
    assert((n * n) * (8 * p - c * c) >= 1) by (nonlinear_arith)
        requires
            n >= 1,
            8 * p - c * c >= 1,
    ;
}

/// The gaps of a scheduler are close enough together for their spread to
/// be below their mean by their bounds alone, but for rates from a quarter
/// to a third.
proof fn lemma_gaps_are_close(num: nat, den: nat)
    requires
        0 < num < den,
        den / num != 3,
    ensures
        (least_gap(initial(num, den)) + initial(num, den).max_gap) * (least_gap(
            initial(num, den),
        ) + initial(num, den).max_gap) < 8 * (least_gap(initial(num, den)) * initial(
            num,
            den,
        ).max_gap),
{
    let q = den / num;
    assert(q >= 1) by (nonlinear_arith)
        requires
            0 < num < den,
            q == den / num,
    ;
    let h = q / 2;
    let a = least_gap(initial(num, den));
    let b = initial(num, den).max_gap;
    assert(b == q * 2);
    if q <= 2 {
        assert(a == 1);
        assert((a + b) * (a + b) < 8 * (a * b)) by (nonlinear_arith)
            requires
                a == 1,
                b == 2 || b == 4,
        ;
    } else {
        assert(h >= 2);
        assert(a == h);
        assert(q == 2 * h || q == 2 * h + 1);
        assert((a + b) * (a + b) < 8 * (a * b)) by (nonlinear_arith)
            requires
                a == h,
                h >= 2,
                b == 4 * h || b == 4 * h + 2,
        ;
    }
}

/// The sum of numbers with one more before them.
proof fn lemma_sum_with_first(first: nat, rest: Seq<nat>)
    ensures
        sum_of(seq![first] + rest) == first + sum_of(rest),
        sum_of_squares(seq![first] + rest) == first * first + sum_of_squares(rest),
    decreases rest.len(),
{
    let all = seq![first] + rest;
    if rest.len() == 0 {
        assert(all.drop_last() =~= Seq::<nat>::empty());
        assert(all.last() == first);
        assert(sum_of(all.drop_last()) == 0 && sum_of_squares(all.drop_last()) == 0);
        assert(sum_of(all) == sum_of(all.drop_last()) + all.last());
        assert(sum_of_squares(all) == sum_of_squares(all.drop_last()) + all.last() * all.last());
    } else {
        assert(all.drop_last() =~= seq![first] + rest.drop_last());
        assert(all.last() == rest.last());
        lemma_sum_with_first(first, rest.drop_last());
        assert(sum_of(all) == sum_of(all.drop_last()) + all.last());
        assert(sum_of_squares(all) == sum_of_squares(all.drop_last()) + all.last() * all.last());
        assert(sum_of(rest) == sum_of(rest.drop_last()) + rest.last());
        assert(sum_of_squares(rest) == sum_of_squares(rest.drop_last()) + rest.last()
            * rest.last());
    }
}

/// The gaps add up to the way from the last action before the events to
/// the last action in them, and there is one gap for each action.
pub proof fn lemma_gaps_add_up(s: SchedulerState, draws: Seq<nat>)
    requires
        s.last <= s.count,
    ensures
        sum_of(action_gaps(s, draws)) == after_draws(s, draws).last - s.last,
        action_gaps(s, draws).len() == actions_in(s, draws),
    decreases draws.len(),
{
    if draws.len() > 0 {
        let next = decide(s, draws[0]).0;
        let rest = draws.drop_first();
        lemma_gaps_add_up(next, rest);
        lemma_run_keeps_order(next, rest);
        if decide(s, draws[0]).1 {
            lemma_sum_with_first((s.count + 1 - s.last) as nat, action_gaps(next, rest));
        }
    }
}

/// The spread of one or two gaps is below their mean.
proof fn lemma_few_gaps_spread(values: Seq<nat>)
    requires
        1 <= values.len() <= 2,
        all_within(values, 1, values[0] + values.last()),
    ensures
        values.len() * sum_of_squares(values) < 2 * (sum_of(values) * sum_of(values)),
{
    let g = values[0];
    assert(g >= 1);
    if values.len() == 1 {
        lemma_sum_with_first(g, Seq::<nat>::empty());
        assert(seq![g] + Seq::<nat>::empty() =~= values);
        assert(1 * (g * g) < 2 * (g * g)) by (nonlinear_arith)
            requires
                g >= 1,
        ;
    } else {
        let h = values[1];
        assert(h >= 1);
        lemma_sum_with_first(h, Seq::<nat>::empty());
        lemma_sum_with_first(g, seq![h]);
        assert(seq![h] + Seq::<nat>::empty() =~= seq![h]);
        assert(seq![g] + seq![h] =~= values);
        assert(2 * (g * g + h * h) < 2 * ((g + h) * (g + h))) by (nonlinear_arith)
            requires
                g >= 1,
                h >= 1,
        ;
    }
}

/// The spread of the gaps for rates from a quarter to a third. The gaps lie
/// from one to six; that they are on average more than two apart follows
/// from the rate, which the balance of what is owed keeps.
proof fn lemma_gap_spread_near_a_third(num: nat, den: nat, draws: Seq<nat>)
    requires
        0 < num < den,
        den / num == 3,
        forall|i: int| 0 <= i < draws.len() ==> #[trigger] draws[i] < den,
        action_gaps(initial(num, den), draws).len() >= 1,
    ensures
        action_gaps(initial(num, den), draws).len() * sum_of_squares(
            action_gaps(initial(num, den), draws),
        ) < 2 * (sum_of(action_gaps(initial(num, den), draws)) * sum_of(
            action_gaps(initial(num, den), draws),
        )),
{
    let s = initial(num, den);
    let gaps = action_gaps(s, draws);
    let end = after_draws(s, draws);
    lemma_gaps_within_bounds(s, draws);
    assert(least_gap(s) == 1 && s.max_gap == 6);
    if gaps.len() <= 2 {
        assert(all_within(gaps, 1, gaps[0] + gaps.last()));
        lemma_few_gaps_spread(gaps);
    } else {
        lemma_initial_balanced(num, den);
        lemma_run_balanced(s, draws);
        lemma_run_keeps_order(s, draws);
        lemma_gaps_add_up(s, draws);
        lemma_squares_bounded(gaps, 1, 6);
        let n = gaps.len() as int;
        let total = sum_of(gaps) as int;
        let squares = sum_of_squares(gaps) as int;
        let events = draws.len() as int;
        let silent = end.count - end.last;
        assert(total == end.last);
        assert(silent == events - total);
        // What is owed at the end, counted in two ways.
        assert(end.error == events * num - n * den);
        assert(end.error >= 1 - den + silent * num);
        assert(silent * num == events * num - total * num) by (nonlinear_arith)
            requires
                silent == events - total,
        ;
        assert(total * num >= (n - 1) * den + 1) by (nonlinear_arith)
            requires
                events * num - n * den >= 1 - den + (events * num - total * num),
        ;
        // The rate is a third at most.
        vstd::arithmetic::div_mod::lemma_fundamental_div_mod(den as int, num as int);
        vstd::arithmetic::div_mod::lemma_mod_bound(den as int, num as int);
        assert(den >= 3 * num) by (nonlinear_arith)
            requires
                den == num * 3 + (den as int % num as int),
                den as int % num as int >= 0,
        ;
        assert(total > 3 * (n - 1)) by (nonlinear_arith)
            requires
                total * num >= (n - 1) * den + 1,
                den >= 3 * num,
                num > 0,
                n >= 1,
        ;
        assert(total > 2 * n);
        assert(n * squares <= n * (7 * total - 6 * n)) by (nonlinear_arith)
            requires
                squares + n * (1 * 6) <= (1 + 6) * total,
                n >= 0,
        ;
        assert(2 * (total * total) - n * (7 * total - 6 * n) == (2 * total - 3 * n) * (total - 2
            * n)) by (nonlinear_arith);
        assert((2 * total - 3 * n) * (total - 2 * n) > 0) by (nonlinear_arith)
            requires
                total > 2 * n,
                n >= 1,
        ;
    }
}

/// The spread of the gaps is below their mean. The gaps between the
/// actions of a new scheduler, with no action forced, have a standard
/// deviation below their mean, whatever is drawn: their number times the
/// sum of their squares is less than twice the square of their sum.
pub proof fn lemma_gap_spread_is_below_mean(num: nat, den: nat, draws: Seq<nat>)
    requires
        0 < num < den,
        forall|i: int| 0 <= i < draws.len() ==> #[trigger] draws[i] < den,
        action_gaps(initial(num, den), draws).len() >= 1,
    ensures
        action_gaps(initial(num, den), draws).len() * sum_of_squares(
            action_gaps(initial(num, den), draws),
        ) < 2 * (sum_of(action_gaps(initial(num, den), draws)) * sum_of(
            action_gaps(initial(num, den), draws),
        )),
{
    let s = initial(num, den);
    assert(den / num >= 1) by (nonlinear_arith)
        requires
            0 < num < den,
    ;
    if den / num == 3 {
        lemma_gap_spread_near_a_third(num, den, draws);
    } else {
        lemma_gaps_within_bounds(s, draws);
        lemma_gaps_are_close(num, den);
        lemma_spread_below_mean(action_gaps(s, draws), least_gap(s), s.max_gap);
    }
}

} // verus!
