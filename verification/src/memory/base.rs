use vstd::prelude::*;
use crate::model::schema::{Message, MessageValue};

verus! {

/// The sum of a sequence of per-turn token counts.
pub open spec fn sum_of(s: Seq<usize>) -> int
    decreases s.len(),
{
    if s.len() == 0 {
        0
    } else {
        s[0] + sum_of(s.drop_first())
    }
}

pub proof fn lemma_sum_of_push(s: Seq<usize>, x: usize)
    ensures
        sum_of(s.push(x)) == sum_of(s) + x,
    decreases s.len(),
{
    reveal_with_fuel(sum_of, 3);
    assert(s.push(x)[0] == if s.len() == 0 { x } else { s[0] });
    if s.len() == 0 {
        assert(s.push(x).drop_first() =~= Seq::<usize>::empty());
    } else {
        assert(s.push(x).drop_first() =~= s.drop_first().push(x));
        lemma_sum_of_push(s.drop_first(), x);
    }
}

/// Stepping one element into the sequence from the front.
pub proof fn lemma_sum_of_skip_step(s: Seq<usize>, e: int)
    requires
        0 <= e < s.len(),
    ensures
        sum_of(s.skip(e)) == s[e] + sum_of(s.skip(e + 1)),
{
    assert(s.skip(e).drop_first() =~= s.skip(e + 1));
    assert(s.skip(e)[0] == s[e]);
}

/// Dropping elements from the front never increases the sum.
pub proof fn lemma_sum_of_skip_mono(s: Seq<usize>, e1: int, e2: int)
    requires
        0 <= e1 <= e2 <= s.len(),
    ensures
        sum_of(s.skip(e1)) >= sum_of(s.skip(e2)),
    decreases e2 - e1,
{
    if e1 < e2 {
        lemma_sum_of_skip_step(s, e1);
        lemma_sum_of_skip_mono(s, e1 + 1, e2);
    }
}

/// How many of the oldest turns must be evicted so that the turns that are
/// left fit in `max` tokens: the smallest cut that brings the sum of the
/// remaining counts to `max` or below.
pub open spec fn eviction_split(counts: Seq<usize>, max: int) -> int
    decreases counts.len(),
{
    if counts.len() == 0 || sum_of(counts) <= max {
        0
    } else {
        1 + eviction_split(counts.drop_first(), max)
    }
}

pub proof fn lemma_eviction_split(counts: Seq<usize>, max: int)
    requires
        max >= 0,
    ensures
        0 <= eviction_split(counts, max) <= counts.len(),
        sum_of(counts.skip(eviction_split(counts, max))) <= max,
        forall|e: int| 0 <= e < eviction_split(counts, max) ==> sum_of(#[trigger] counts.skip(e)) > max,
    decreases counts.len(),
{
    if counts.len() == 0 || sum_of(counts) <= max {
        assert(counts.skip(0) =~= counts);
    } else {
        let rest = counts.drop_first();
        lemma_eviction_split(rest, max);
        let d = eviction_split(rest, max);
        assert(counts.skip(1) =~= rest);
        assert(counts.skip(1 + d) =~= rest.skip(d));
        assert forall|e: int| 0 <= e < 1 + d implies sum_of(#[trigger] counts.skip(e)) > max by {
            if e == 0 {
                assert(counts.skip(0) =~= counts);
            } else {
                assert(counts.skip(e) =~= rest.skip(e - 1));
            }
        }
    }
}

/// The cut is pinned down by its two sides: any index whose suffix fits and
/// whose predecessor's suffix does not is the eviction split.
pub proof fn lemma_eviction_split_unique(counts: Seq<usize>, max: int, k: int)
    requires
        max >= 0,
        0 <= k <= counts.len(),
        sum_of(counts.skip(k)) <= max,
        k > 0 ==> sum_of(counts.skip(k - 1)) > max,
    ensures
        k == eviction_split(counts, max),
{
    lemma_eviction_split(counts, max);
    let d = eviction_split(counts, max);
    if k < d {
        // then the suffix at k would not fit
        assert(sum_of(counts.skip(k)) > max);
    }
    if d < k {
        lemma_sum_of_skip_mono(counts, d, k - 1);
    }
}

/// Remove the `n` oldest turns, and their counts, in lockstep.
pub(crate) fn drop_front_pair(messages: &mut Vec<Message>, counts: &mut Vec<usize>, n: usize)
    requires
        n <= old(messages).len(),
        old(messages).len() == old(counts).len(),
    ensures
        final(messages)@ == old(messages)@.skip(n as int),
        final(counts)@ == old(counts)@.skip(n as int),
{
    let mut j: usize = 0;
    while j < n
        invariant
            j <= n <= old(messages).len(),
            old(messages).len() == old(counts).len(),
            messages@ == old(messages)@.skip(j as int),
            counts@ == old(counts)@.skip(j as int),
        decreases n - j,
    {
        messages.remove(0);
        counts.remove(0);
        proof {
            assert(old(messages)@.skip(j as int).remove(0) =~= old(messages)@.skip(j + 1));
            assert(old(counts)@.skip(j as int).remove(0) =~= old(counts)@.skip(j + 1));
        }
        j += 1;
    }
    proof {
        assert(messages@ =~= old(messages)@.skip(n as int));
        assert(counts@ =~= old(counts)@.skip(n as int));
    }
}

/// A conversation memory: an ordered window of turns with per-turn token
/// counts, under some eviction or summarization policy. Each implementation
/// says through `add_post` and `clear_post` exactly how its state changes.
pub trait BaseMemory: Sized {
    /// The well-formedness invariant that every operation preserves.
    spec fn inv(&self) -> bool;

    /// The turns that `get_messages` yields, in order.
    spec fn turns(&self) -> Seq<MessageValue>;

    /// The sum of the per-turn token counts of the live window.
    spec fn token_total(&self) -> int;

    /// How `add` changes the state.
    spec fn add_post(pre: Self, post: Self, m: MessageValue) -> bool;

    /// How `clear` changes the state.
    spec fn clear_post(pre: Self, post: Self) -> bool;

    /// Token-count the turn and append it, then enforce the memory's policy.
    fn add(&mut self, message: Message)
        requires
            old(self).inv(),
        ensures
            final(self).inv(),
            Self::add_post(*old(self), *final(self), message@),
    ;

    /// The current turns, oldest first.
    fn get_messages(&self) -> (r: Vec<Message>)
        requires
            self.inv(),
        ensures
            crate::model::schema::views_of(r@) == self.turns(),
    ;

    /// The total token count of the live window.
    fn token_count(&self) -> (r: usize)
        requires
            self.inv(),
        ensures
            r == self.token_total(),
    ;

    /// Empty the live window.
    fn clear(&mut self)
        requires
            old(self).inv(),
        ensures
            final(self).inv(),
            Self::clear_post(*old(self), *final(self)),
    ;
}

} // verus!
