//! A run of tweens, one after another, on one timeline.
use crate::tween::Tween;
use vstd::prelude::*;

verus! {

/// Where a chain stands: the member it is in, the ticks counted within that
/// member, and whether its fuse has tripped.
pub struct ChainState {
    pub index: nat,
    pub elapsed: nat,
    pub fused: bool,
}

/// The sum of the durations of the first `n` members.
pub open spec fn span<T: Tween>(members: Seq<T>, n: nat) -> nat
    decreases n,
{
    if n == 0 {
        0
    } else {
        span(members, (n - 1) as nat) + members[n - 1].spec_duration()
    }
}

/// The length of the whole chain.
pub open spec fn total<T: Tween>(members: Seq<T>) -> nat {
    span(members, members.len())
}

/// How far along the whole chain `s` stands.
pub open spec fn position<T: Tween>(members: Seq<T>, s: ChainState) -> nat {
    span(members, s.index) + s.elapsed
}

/// A state that a chain over `members` can be in: there is a member, the
/// count stays within the current member, and a tripped fuse stands at the
/// end of the last member.
pub open spec fn chain_valid<T: Tween>(members: Seq<T>, s: ChainState) -> bool {
    &&& members.len() > 0
    &&& s.index < members.len()
    &&& s.elapsed <= members[s.index as int].spec_duration()
    &&& s.fused ==> s.index == members.len() - 1 && s.elapsed == members[s.index as int].spec_duration()
}

/// Carries a count of `t` ticks into member `i`: while the count meets or
/// passes that member's duration and a later member exists, the overshoot
/// moves on to the next member. Yields the member reached and the count there.
pub open spec fn settle<T: Tween>(members: Seq<T>, i: nat, t: nat) -> (nat, nat)
    decreases members.len() - i,
{
    if i + 1 < members.len() && t >= members[i as int].spec_duration() {
        settle(members, i + 1, (t - members[i as int].spec_duration()) as nat)
    } else {
        (i, t)
    }
}

/// The state of a chain after a step of `delta` ticks: the overshoot is
/// carried from member to member, and the fuse trips when the last member
/// ends.
pub open spec fn chain_step<T: Tween>(members: Seq<T>, s: ChainState, delta: nat) -> ChainState {
    if s.fused {
        s
    } else {
        let (j, t) = settle(members, s.index, s.elapsed + delta);
        if t >= members[j as int].spec_duration() {
            ChainState { index: j, elapsed: members[j as int].spec_duration(), fused: true }
        } else {
            ChainState { index: j, elapsed: t, fused: false }
        }
    }
}

/// What a step of `delta` ticks yields: nothing once the fuse has tripped;
/// the last member's final value when it ends; the final value of the last
/// member that ended during the step, if one did; else the current member's
/// value at the new count.
pub open spec fn chain_emitted<T: Tween>(members: Seq<T>, s: ChainState, delta: nat) -> Option<i64> {
    if s.fused {
        None
    } else {
        let (j, t) = settle(members, s.index, s.elapsed + delta);
        if t >= members[j as int].spec_duration() {
            Some(members[j as int].spec_final_value())
        } else if j > s.index {
            Some(members[j - 1].spec_final_value())
        } else {
            Some(members[j as int].spec_run(t))
        }
    }
}

proof fn lemma_span_monotone<T: Tween>(members: Seq<T>, a: nat, b: nat)
    requires
        a <= b,
    ensures
        span(members, a) <= span(members, b),
    decreases b,
{
    if a < b {
        lemma_span_monotone(members, a, (b - 1) as nat);
    }
}

proof fn lemma_settle<T: Tween>(members: Seq<T>, i: nat, t: nat)
    requires
        i < members.len(),
    ensures
        i <= settle(members, i, t).0 < members.len(),
        span(members, settle(members, i, t).0) + settle(members, i, t).1 == span(members, i) + t,
        settle(members, i, t).0 + 1 < members.len() ==> settle(members, i, t).1 < members[settle(
            members,
            i,
            t,
        ).0 as int].spec_duration(),
    decreases members.len() - i,
{
    if i + 1 < members.len() && t >= members[i as int].spec_duration() {
        lemma_settle(members, i + 1, (t - members[i as int].spec_duration()) as nat);
    }
}

proof fn lemma_settle_more<T: Tween>(members: Seq<T>, i: nat, t: nat, more: nat)
    ensures
        settle(members, i, t + more) == settle(
            members,
            settle(members, i, t).0,
            settle(members, i, t).1 + more,
        ),
    decreases members.len() - i,
{
    if i + 1 < members.len() && t >= members[i as int].spec_duration() {
        let d = members[i as int].spec_duration();
        lemma_settle_more(members, i + 1, (t - d) as nat, more);
        assert((t + more - d) as nat == (t - d) as nat + more);
    }
}

/// A step keeps a chain's state valid.
pub proof fn lemma_chain_step_valid<T: Tween>(members: Seq<T>, s: ChainState, delta: nat)
    requires
        chain_valid(members, s),
    ensures
        chain_valid(members, chain_step(members, s, delta)),
{
    lemma_settle(members, s.index, s.elapsed + delta);
}

/// Once the last member has ended, a step leaves the chain as it is and
/// yields nothing.
pub proof fn lemma_chain_exhausted<T: Tween>(members: Seq<T>, s: ChainState, delta: nat)
    requires
        s.fused,
    ensures
        chain_step(members, s, delta) == s,
        chain_emitted(members, s, delta) is None,
{
}

/// The chain is as long as its members together: a step moves it `delta`
/// ticks along, up to the sum of the members' durations, and its fuse trips
/// exactly when that sum is reached.
pub proof fn lemma_chain_length<T: Tween>(members: Seq<T>, s: ChainState, delta: nat)
    requires
        chain_valid(members, s),
        !s.fused,
    ensures
        position(members, chain_step(members, s, delta)) == if position(members, s) + delta >= total(
            members,
        ) {
            total(members)
        } else {
            position(members, s) + delta
        },
        chain_step(members, s, delta).fused <==> position(members, s) + delta >= total(members),
{
    let (j, t) = settle(members, s.index, s.elapsed + delta);
    lemma_settle(members, s.index, s.elapsed + delta);
    let last = (members.len() - 1) as nat;
    assert(total(members) == span(members, last) + members[last as int].spec_duration());
    if j < last {
        lemma_span_monotone(members, j + 1, last);
        assert(span(members, j + 1) == span(members, j) + members[j as int].spec_duration());
    }
}

/// Splitting a step in two leaves the chain where the single step does; and
/// where the second part crosses the end of a member, or the first crosses
/// none, the value yielded last is the same. So a delta that spans several
/// members yields what the last of a series of member-by-member steps yields.
pub proof fn lemma_chain_split<T: Tween>(members: Seq<T>, s: ChainState, a: nat, b: nat)
    requires
        chain_valid(members, s),
    ensures
        chain_step(members, chain_step(members, s, a), b) == chain_step(members, s, a + b),
        !s.fused && !chain_step(members, s, a).fused && (chain_step(members, s, a).index == s.index
            || chain_step(members, s, a + b).index > chain_step(members, s, a).index
            || chain_step(members, s, a + b).fused) ==> chain_emitted(
            members,
            chain_step(members, s, a),
            b,
        ) == chain_emitted(members, s, a + b),
{
    if !s.fused {
        let x = s.elapsed + a;
        lemma_settle(members, s.index, x);
        lemma_settle_more(members, s.index, x, b);
        assert(s.elapsed + (a + b) == x + b);
        let (j1, t1) = settle(members, s.index, x);
        if t1 >= members[j1 as int].spec_duration() {
            let d = members[j1 as int].spec_duration();
            assert(settle(members, j1, d + b) == (j1, d + b));
            assert(settle(members, j1, t1 + b) == (j1, t1 + b));
        }
    }
}

/// Runs an ordered list of tweens one after another as one timeline, with a
/// delta given on each call. A delta that carries past the end of a member
/// carries its overshoot into the next; the chain ends with its last member.
pub struct Chain<T: Tween> {
    members: Vec<T>,
    index: usize,
    elapsed: u64,
    fused: bool,
}

impl<T: Tween> View for Chain<T> {
    type V = ChainState;

    closed spec fn view(&self) -> ChainState {
        ChainState { index: self.index as nat, elapsed: self.elapsed as nat, fused: self.fused }
    }
}

impl<T: Tween> Chain<T> {
    /// The tweens of the chain, in order.
    pub closed spec fn members(&self) -> Seq<T> {
        self.members@
    }

    /// The chain has a member, and its state is one that steps can reach.
    pub open spec fn wf(&self) -> bool {
        chain_valid(self.members(), self@)
    }

    /// Chains `members` in order. A chain needs at least one member.
    pub fn new(members: Vec<T>) -> (r: Self)
        requires
            members.len() > 0,
        ensures
            r.members() == members@,
            r@ == (ChainState { index: 0, elapsed: 0, fused: false }),
            r.wf(),
    {
        Chain { members, index: 0, elapsed: 0, fused: false }
    }

    /// Advances the chain by `delta` ticks and yields the value there: `None`
    /// once the last member has ended.
    pub fn update(&mut self, delta: u64) -> (r: Option<i64>)
        requires
            old(self).wf(),
        ensures
            final(self).members() == old(self).members(),
            final(self)@ == chain_step(old(self).members(), old(self)@, delta as nat),
            r == chain_emitted(old(self).members(), old(self)@, delta as nat),
            final(self).wf(),
    {
        proof {
            lemma_chain_step_valid(self.members(), self@, delta as nat);
        }
        if self.fused {
            return None;
        }
        let ghost target = settle(self.members@, self.index as nat, (self.elapsed + delta) as nat);
        let n = self.members.len();
        let start = self.index;
        let mut index = self.index;
        let mut t: u128 = self.elapsed as u128 + delta as u128;
        while index + 1 < n && t >= self.members[index].duration() as u128
            invariant
                n == self.members@.len(),
                start <= index < n,
                t <= self.elapsed + delta,
                settle(self.members@, index as nat, t as nat) == target,
            decreases n - index,
        {
            let d = self.members[index].duration();
            t = t - d as u128;
            index = index + 1;
        }
        let d = self.members[index].duration();
        self.index = index;
        if t >= d as u128 {
            self.elapsed = d;
            self.fused = true;
            Some(self.members[index].final_value())
        } else {
            self.elapsed = t as u64;
            if index > start {
                Some(self.members[index - 1].final_value())
            } else {
                Some(self.members[index].run(t as u64))
            }
        }
    }
}

} // verus!
