use vstd::prelude::*;
use crate::memory::base::{
    eviction_split, lemma_eviction_split, lemma_eviction_split_unique, lemma_sum_of_push,
    lemma_sum_of_skip_mono, lemma_sum_of_skip_step, sum_of, BaseMemory,
};
use crate::model::schema::{
    lemma_views_of_push, lemma_views_of_skip, views_of, Message, MessageValue,
};
use crate::tokens::{count_tokens, token_count_of};

verus! {

/// A purely capacity-based memory: once more than `max_messages` turns or
/// more than `max_tokens` tokens are held, the oldest turns are evicted
/// first until both ceilings hold again.
pub struct SlidingWindowMemory {
    pub max_messages: usize,
    pub max_tokens: usize,
    pub model_str: String,
    pub messages: Vec<Message>,
    pub token_counts: Vec<usize>,
}

/// What one `add` does to a sliding window: the new turn is counted and
/// appended, the oldest turns beyond `max_messages` are dropped, and then
/// the oldest remaining turns are dropped until the counts fit in
/// `max_tokens`.
pub open spec fn sliding_add_post(
    pre: SlidingWindowMemory,
    post: SlidingWindowMemory,
    m: MessageValue,
) -> bool {
    let c = token_count_of(pre.model_str@, m.content);
    let msgs1 = views_of(pre.messages@).push(m);
    let counts1 = pre.token_counts@.push(c);
    let drop1: int = if msgs1.len() > pre.max_messages {
        msgs1.len() - pre.max_messages
    } else {
        0
    };
    let msgs2 = msgs1.skip(drop1);
    let counts2 = counts1.skip(drop1);
    let cut = eviction_split(counts2, pre.max_tokens as int);
    &&& post.max_messages == pre.max_messages
    &&& post.max_tokens == pre.max_tokens
    &&& post.model_str@ == pre.model_str@
    &&& views_of(post.messages@) == msgs2.skip(cut)
    &&& post.token_counts@ == counts2.skip(cut)
}

impl SlidingWindowMemory {
    pub fn new(max_messages: usize, model: &str, max_tokens: usize) -> (r: Self)
        ensures
            r.inv(),
            r.turns() == Seq::<MessageValue>::empty(),
            r.max_messages == max_messages,
            r.max_tokens == max_tokens,
            r.model_str@ == model@,
    {
        let r = SlidingWindowMemory {
            max_messages,
            max_tokens,
            model_str: model.to_owned(),
            messages: Vec::new(),
            token_counts: Vec::new(),
        };
        proof {
            assert(views_of(r.messages@) =~= Seq::<MessageValue>::empty());
        }
        r
    }

    /// Remove the `n` oldest turns, and their counts, in lockstep.
    fn drop_front(&mut self, n: usize)
        requires
            n <= old(self).messages.len(),
            old(self).messages.len() == old(self).token_counts.len(),
        ensures
            final(self).messages@ == old(self).messages@.skip(n as int),
            final(self).token_counts@ == old(self).token_counts@.skip(n as int),
            final(self).max_messages == old(self).max_messages,
            final(self).max_tokens == old(self).max_tokens,
            final(self).model_str == old(self).model_str,
    {
        crate::memory::base::drop_front_pair(&mut self.messages, &mut self.token_counts, n);
    }

    /// Enforce both ceilings by evicting the oldest turns.
    fn _truncate(&mut self)
        requires
            old(self).messages.len() == old(self).token_counts.len(),
        ensures
            final(self).inv(),
            final(self).max_messages == old(self).max_messages,
            final(self).max_tokens == old(self).max_tokens,
            final(self).model_str == old(self).model_str,
            ({
                let drop1: int = if old(self).messages@.len() > old(self).max_messages {
                    old(self).messages@.len() - old(self).max_messages
                } else {
                    0
                };
                let msgs2 = old(self).messages@.skip(drop1);
                let counts2 = old(self).token_counts@.skip(drop1);
                let cut = eviction_split(counts2, old(self).max_tokens as int);
                final(self).messages@ == msgs2.skip(cut) && final(self).token_counts@
                    == counts2.skip(cut)
            }),
    {
        let ghost pre = *self;
        if self.messages.len() > self.max_messages {
            let excess = self.messages.len() - self.max_messages;
            self.drop_front(excess);
        }
        let ghost drop1: int = if pre.messages@.len() > pre.max_messages {
            pre.messages@.len() - pre.max_messages
        } else {
            0
        };
        proof {
            if drop1 == 0 {
                assert(pre.messages@.skip(0) =~= pre.messages@);
                assert(pre.token_counts@.skip(0) =~= pre.token_counts@);
            }
            assert(self.messages@ == pre.messages@.skip(drop1));
            assert(self.token_counts@ == pre.token_counts@.skip(drop1));
        }
        let ghost counts2 = pre.token_counts@.skip(drop1);
        // Walk backward from the newest turn, keeping turns while their
        // counts still fit in the token budget.
        let len = self.token_counts.len();
        let mut k: usize = len;
        let mut acc: usize = 0;
        proof {
            assert(counts2.skip(len as int) =~= Seq::<usize>::empty());
        }
        while k > 0 && self.token_counts[k - 1] <= self.max_tokens - acc
            invariant
                self.messages.len() == self.token_counts.len() == len,
                self.token_counts@ == counts2,
                self.max_tokens == pre.max_tokens,
                k <= len,
                acc <= self.max_tokens,
                acc == sum_of(counts2.skip(k as int)),
            decreases k,
        {
            proof {
                lemma_sum_of_skip_step(counts2, k - 1);
            }
            acc = acc + self.token_counts[k - 1];
            k = k - 1;
        }
        proof {
            if k > 0 {
                lemma_sum_of_skip_step(counts2, k - 1);
            }
            lemma_eviction_split_unique(counts2, pre.max_tokens as int, k as int);
            lemma_eviction_split(counts2, pre.max_tokens as int);
        }
        self.drop_front(k);
        proof {
            let cut = eviction_split(counts2, pre.max_tokens as int);
            assert(self.token_counts@ == counts2.skip(cut));
            // Both ceilings hold of what is left.
            assert(self.messages@.len() <= pre.max_messages);
        }
    }

    pub open spec fn inv(&self) -> bool {
        &&& self.messages@.len() == self.token_counts@.len()
        &&& self.messages@.len() <= self.max_messages
        &&& sum_of(self.token_counts@) <= self.max_tokens
    }

    pub open spec fn turns(&self) -> Seq<MessageValue> {
        views_of(self.messages@)
    }
}

impl BaseMemory for SlidingWindowMemory {
    open spec fn inv(&self) -> bool {
        SlidingWindowMemory::inv(self)
    }

    open spec fn turns(&self) -> Seq<MessageValue> {
        SlidingWindowMemory::turns(self)
    }

    open spec fn token_total(&self) -> int {
        sum_of(self.token_counts@)
    }

    open spec fn add_post(pre: Self, post: Self, m: MessageValue) -> bool {
        sliding_add_post(pre, post, m)
    }

    open spec fn clear_post(pre: Self, post: Self) -> bool {
        &&& post.turns() == Seq::<MessageValue>::empty()
        &&& post.token_counts@ == Seq::<usize>::empty()
        &&& post.max_messages == pre.max_messages
        &&& post.max_tokens == pre.max_tokens
        &&& post.model_str@ == pre.model_str@
    }

    fn add(&mut self, message: Message) {
        let ghost pre = *self;
        let c = count_tokens(self.model_str.as_str(), message.content.as_str());
        self.token_counts.push(c);
        self.messages.push(message);
        proof {
            lemma_views_of_push(pre.messages@, message);
        }
        self._truncate();
        proof {
            let msgs1 = pre.messages@.push(message);
            let drop1: int = if msgs1.len() > pre.max_messages {
                msgs1.len() as int - pre.max_messages
            } else {
                0
            };
            let cut = eviction_split(
                pre.token_counts@.push(c).skip(drop1),
                pre.max_tokens as int,
            );
            lemma_eviction_split(pre.token_counts@.push(c).skip(drop1), pre.max_tokens as int);
            lemma_views_of_skip(msgs1, drop1);
            lemma_views_of_skip(msgs1.skip(drop1), cut);
            assert(views_of(msgs1).skip(drop1).skip(cut) =~= views_of(msgs1.skip(drop1).skip(cut)));
            assert(views_of(msgs1).push(message@).len() == msgs1.len() + 1) by {}
            assert(sliding_add_post(pre, *self, message@)) by {
                lemma_views_of_push(pre.messages@, message);
                assert(views_of(pre.messages@).push(message@).skip(drop1).skip(cut)
                    =~= views_of(msgs1).skip(drop1).skip(cut));
            }
        }
    }

    fn get_messages(&self) -> (r: Vec<Message>) {
        let mut r: Vec<Message> = Vec::new();
        let mut i: usize = 0;
        while i < self.messages.len()
            invariant
                i <= self.messages.len(),
                views_of(r@) =~= views_of(self.messages@.take(i as int)),
                r@.len() == i,
            decreases self.messages.len() - i,
        {
            let m = self.messages[i].clone();
            r.push(m);
            proof {
                assert(self.messages@.take(i + 1) =~= self.messages@.take(i as int).push(
                    self.messages@[i as int],
                ));
                lemma_views_of_push(self.messages@.take(i as int), self.messages@[i as int]);
                lemma_views_of_push(r@.drop_last(), m);
                assert(views_of(r@) =~= views_of(r@.drop_last()).push(m@));
            }
            i += 1;
        }
        proof {
            assert(self.messages@.take(self.messages@.len() as int) =~= self.messages@);
            assert(views_of(r@) =~= self.turns());
        }
        r
    }

    fn token_count(&self) -> (r: usize) {
        let mut total: usize = 0;
        let mut i: usize = 0;
        proof {
            assert(self.token_counts@.take(0) =~= Seq::<usize>::empty());
        }
        while i < self.token_counts.len()
            invariant
                i <= self.token_counts@.len(),
                total == sum_of(self.token_counts@.take(i as int)),
                sum_of(self.token_counts@) <= self.max_tokens,
                self.inv(),
            decreases self.token_counts@.len() - i,
        {
            proof {
                lemma_sum_of_push(self.token_counts@.take(i as int), self.token_counts@[i as int]);
                assert(self.token_counts@.take(i + 1) =~= self.token_counts@.take(i as int).push(
                    self.token_counts@[i as int],
                ));
                // The running total stays within the overall sum.
                lemma_sum_prefix_bound(self.token_counts@, i + 1);
            }
            total = total + self.token_counts[i];
            i += 1;
        }
        proof {
            assert(self.token_counts@.take(self.token_counts@.len() as int) =~= self.token_counts@);
        }
        total
    }

    fn clear(&mut self) {
        self.messages.clear();
        self.token_counts.clear();
        proof {
            assert(views_of(self.messages@) =~= Seq::<MessageValue>::empty());
        }
    }
}

/// The sum of any prefix of the counts is at most the sum of them all.
pub proof fn lemma_sum_prefix_bound(s: Seq<usize>, n: int)
    requires
        0 <= n <= s.len(),
    ensures
        sum_of(s.take(n)) <= sum_of(s),
    decreases s.len() - n,
{
    if n < s.len() {
        lemma_sum_of_push(s.take(n), s[n]);
        assert(s.take(n + 1) =~= s.take(n).push(s[n]));
        lemma_sum_prefix_bound(s, n + 1);
    } else {
        assert(s.take(n) =~= s);
    }
}

/// After any sequence of `add` calls, a sliding window holds at most
/// `max_messages` turns and at most `max_tokens` tokens, and eviction is
/// first-in-first-out: what survives an `add` is a suffix of the old turns
/// followed by the new turn.
pub proof fn lemma_sliding_window_bounds(
    pre: SlidingWindowMemory,
    post: SlidingWindowMemory,
    m: MessageValue,
)
    requires
        pre.messages@.len() == pre.token_counts@.len(),
        sliding_add_post(pre, post, m),
    ensures
        post.messages@.len() <= post.max_messages,
        sum_of(post.token_counts@) <= post.max_tokens,
        exists|d: int|
            0 <= d <= views_of(pre.messages@).push(m).len() && views_of(post.messages@)
                == #[trigger] views_of(pre.messages@).push(m).skip(d),
{
    let c = token_count_of(pre.model_str@, m.content);
    let msgs1 = views_of(pre.messages@).push(m);
    let counts1 = pre.token_counts@.push(c);
    let drop1: int = if msgs1.len() > pre.max_messages {
        msgs1.len() - pre.max_messages
    } else {
        0
    };
    let msgs2 = msgs1.skip(drop1);
    let counts2 = counts1.skip(drop1);
    let cut = eviction_split(counts2, pre.max_tokens as int);
    lemma_eviction_split(counts2, pre.max_tokens as int);
    assert(msgs2.skip(cut) =~= msgs1.skip(drop1 + cut));
    assert(counts2.skip(cut) =~= counts1.skip(drop1 + cut));
    assert(views_of(post.messages@) == msgs1.skip(drop1 + cut));
}

} // verus!
