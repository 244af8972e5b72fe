use vstd::prelude::*;
use vstd::string::StrSliceExecFns;
use vstd::string::StringExecFns;
use crate::memory::base::{
    eviction_split, lemma_eviction_split, lemma_eviction_split_unique, lemma_sum_of_push,
    lemma_sum_of_skip_step, sum_of, BaseMemory,
};
use crate::memory::sliding_window::lemma_sum_prefix_bound;
use crate::memory::summary_format::{
    format_conversation, parse_summary, parsed_summary, render_summary, rendered_of,
};
use crate::model::base::BaseModel;
use crate::model::schema::{
    lemma_views_of_push, lemma_views_of_skip, views_of, Message, MessageValue, Role,
};
use crate::prompt::{
    compress_prompt_middle, compress_prompt_prefix, divider_text, previous_summary_prefix,
    previous_summary_text, summary_divider, summary_prompt_prefix,
};
use crate::strutil::{prefix_chars, take_chars, usize_to_string};
use crate::tokens::{count_tokens, token_count_of};

verus! {

/// A memory for long-running tasks: a live window of verbatim turns plus a
/// rolling natural-language summary. When the live window outgrows
/// `max_tokens`, the turns older than a retained tail are compressed into
/// the summary by a summarization model; the summary itself is compressed
/// when it outgrows its own budget.
pub struct SummaryMemory<M: BaseModel> {
    pub task_id: String,
    pub model_str: String,
    pub reserve_percent: usize,
    pub summary_model: M,
    pub max_tokens: usize,
    pub messages: Vec<Message>,
    pub token_counts: Vec<usize>,
    pub summary: Message,
    pub summary_tokens: usize,
    pub summary_dirty: bool,
}

/// How many of the newest turns a summarization pass retains verbatim: the
/// longest tail whose token counts fit in `max`, but never fewer than one
/// turn.
pub open spec fn tail_keep(counts: Seq<usize>, max: int) -> int {
    let longest = counts.len() - eviction_split(counts, max);
    if longest < 1 {
        1
    } else {
        longest
    }
}

/// The configuration and identity fields that no memory operation changes.
pub open spec fn config_eq<M: BaseModel>(pre: SummaryMemory<M>, post: SummaryMemory<M>) -> bool {
    &&& post.task_id@ == pre.task_id@
    &&& post.model_str@ == pre.model_str@
    &&& post.reserve_percent == pre.reserve_percent
    &&& post.max_tokens == pre.max_tokens
}

/// Every text the retry policy can hand back when asked to summarize or
/// compress against the current summary text `existing`: the canonical
/// rendering of a response that parses as a structured summary; the first
/// 1000 characters of a response that does not; or, when no response
/// carried content at all, the first half of `existing`.
pub open spec fn solicit_outcome(existing: Seq<char>, r: Seq<char>) -> bool {
    ||| (exists|t: Seq<char>|
        (#[trigger] parsed_summary(t)) is Some && r == rendered_of(parsed_summary(t)->Some_0))
    ||| (exists|t: Seq<char>| (#[trigger] parsed_summary(t)) is None && r == prefix_chars(t, 1000))
    ||| r == prefix_chars(existing, existing.len() as int / 2)
}

/// What compression leaves behind: a character prefix (possibly all) of
/// one of the retry policy's outcomes -- a prefix, because the result is
/// halved until it fits the summary budget.
pub open spec fn compressed_from(pre: Seq<char>, post: Seq<char>) -> bool {
    exists|t: Seq<char>|
        #[trigger] solicit_outcome(pre, t) && post.len() <= t.len() && post == prefix_chars(
            t,
            post.len() as int,
        )
}

/// How one summarization pass can change the summary text: left alone,
/// compressed wholesale, or extended by one retry-policy outcome after a
/// visible divider (and then possibly compressed).
pub open spec fn summary_update(pre: Seq<char>, post: Seq<char>) -> bool {
    ||| post == pre
    ||| compressed_from(pre, post)
    ||| (exists|np: Seq<char>|
        #[trigger] solicit_outcome(pre, np) && {
            let joined = if pre.len() == 0 {
                np
            } else {
                pre + divider_text() + np
            };
            post == joined || compressed_from(joined, post)
        })
}

/// What one `add` does to a summarizing memory. The new turn is counted
/// and appended; if the window still fits, nothing else changes. Otherwise
/// a summarization pass runs: only the retained tail of the window
/// survives, and the summary turn is rewritten by the summarization model,
/// so only its role, its recount, and the pending-save mark can be stated.
pub open spec fn summary_add_post<M: BaseModel>(
    pre: SummaryMemory<M>,
    post: SummaryMemory<M>,
    m: MessageValue,
) -> bool {
    let c = token_count_of(pre.model_str@, m.content);
    let msgs1 = views_of(pre.messages@).push(m);
    let counts1 = pre.token_counts@.push(c);
    &&& config_eq(pre, post)
    &&& if sum_of(counts1) <= pre.max_tokens {
        &&& views_of(post.messages@) == msgs1
        &&& post.token_counts@ == counts1
        &&& post.summary == pre.summary
        &&& post.summary_tokens == pre.summary_tokens
        &&& post.summary_dirty == pre.summary_dirty
    } else {
        let keep = tail_keep(counts1, pre.max_tokens as int);
        &&& views_of(post.messages@) == msgs1.skip(msgs1.len() - keep)
        &&& post.token_counts@ == counts1.skip(counts1.len() - keep)
        &&& post.summary@.role == Role::SYSTEM
        &&& post.summary_tokens == token_count_of(pre.model_str@, post.summary@.content)
        &&& post.summary_tokens <= post.spec_summary_budget()
        &&& summary_update(pre.summary@.content, post.summary@.content)
        &&& post.summary_dirty == true
    }
}

/// Ask the summarization model for a structured summary, retrying failed
/// or malformed responses up to three attempts in all. On success the
/// canonical rendering of the structured summary is returned; after three
/// malformed responses, the first 1000 characters of the last raw response;
/// after three empty responses, the first half of `existing`.
fn request_summary_text<M: BaseModel>(model: &M, prompt_msg: &Message, existing: &str) -> (r:
    String)
    ensures
        solicit_outcome(existing@, r@),
{
    let mut retry: usize = 0;
    let mut result: Option<String> = None;
    while result.is_none() && retry < 3
        invariant
            result is None ==> retry < 3,
            result matches Some(s) ==> solicit_outcome(existing@, s@),
        decreases 3 - retry, (if result is None { 1int } else { 0int }),
    {
        let response = model.call(prompt_msg);
        match response.content {
            Some(text) => {
                match parse_summary(text.as_str()) {
                    Some(fields) => {
                        let rendered = render_summary(&fields);
                        proof {
                            assert(parsed_summary(text@) is Some && rendered@ == rendered_of(
                                parsed_summary(text@)->Some_0,
                            ));
                        }
                        result = Some(rendered);
                    },
                    None => {
                        retry += 1;
                        if retry >= 3 {
                            let raw = take_chars(text.as_str(), 1000);
                            proof {
                                assert(parsed_summary(text@) is None && raw@ == prefix_chars(
                                    text@,
                                    1000,
                                ));
                            }
                            result = Some(raw);
                        }
                    },
                }
            },
            None => {
                retry += 1;
                if retry >= 3 {
                    let half = existing.unicode_len() / 2;
                    result = Some(take_chars(existing, half));
                }
            },
        }
    }
    result.unwrap()
}

impl<M: BaseModel> SummaryMemory<M> {
    /// Counts and turns stay aligned, the budget parameters are sane, and
    /// the summary stays a plain system turn.
    pub open spec fn base_wf(&self) -> bool {
        &&& self.messages@.len() == self.token_counts@.len()
        &&& self.reserve_percent <= 100
        &&& self.max_tokens <= usize::MAX / 100
        &&& self.summary@.role == Role::SYSTEM
        &&& self.summary@.tool_calls is None
        &&& self.summary@.tool_call_id is None
    }

    /// The well-formedness that construction establishes and every
    /// operation preserves: besides `base_wf`, the live window fits in
    /// `max_tokens` unless it has been reduced to a single oversized turn.
    pub open spec fn wf(&self) -> bool {
        &&& self.base_wf()
        &&& (sum_of(self.token_counts@) <= self.max_tokens || self.messages@.len() <= 1)
    }

    pub fn new(task_id: &str, reserve_percent: usize, summary_model: M, max_tokens: usize) -> (r:
        Self)
        requires
            reserve_percent <= 100,
            max_tokens <= usize::MAX / 100,
        ensures
            r.wf(),
            r.messages@.len() == 0,
            r.summary@.content == Seq::<char>::empty(),
            r.summary@.role == Role::SYSTEM,
            r.summary_tokens == token_count_of(r.model_str@, r.summary@.content),
            r.task_id@ == task_id@,
            r.reserve_percent == reserve_percent,
            r.max_tokens == max_tokens,
            r.summary_dirty == false,
    {
        let model_str = summary_model.model_name();
        let summary = Message::system("");
        let summary_tokens = count_tokens(model_str.as_str(), "");
        proof {
            reveal_strlit("");
        }
        SummaryMemory {
            task_id: task_id.to_owned(),
            model_str,
            reserve_percent,
            summary_model,
            max_tokens,
            messages: Vec::new(),
            token_counts: Vec::new(),
            summary,
            summary_tokens,
            summary_dirty: false,
        }
    }

    /// The headroom reserved out of `max_tokens`.
    pub fn reserve_tokens(&self) -> (r: usize)
        requires
            self.reserve_percent <= 100,
            self.max_tokens <= usize::MAX / 100,
        ensures
            r == self.spec_reserve_tokens(),
            r <= self.max_tokens,
    {
        proof {
            assert(self.max_tokens * self.reserve_percent <= self.max_tokens * 100) by (nonlinear_arith)
                requires
                    self.reserve_percent <= 100,
                    self.max_tokens >= 0,
            ;
            assert(self.max_tokens * 100 / 100 == self.max_tokens) by (nonlinear_arith)
                requires
                    self.max_tokens >= 0,
            ;
            assert(self.max_tokens * self.reserve_percent / 100 <= self.max_tokens * 100 / 100);
        }
        self.max_tokens * self.reserve_percent / 100
    }

    pub open spec fn spec_reserve_tokens(&self) -> int {
        self.max_tokens * self.reserve_percent / 100
    }

    /// The budget the summary itself must fit in:
    /// `max_tokens - reserve_tokens`.
    pub fn summary_budget(&self) -> (r: usize)
        requires
            self.reserve_percent <= 100,
            self.max_tokens <= usize::MAX / 100,
        ensures
            r == self.spec_summary_budget(),
    {
        let reserve = self.reserve_tokens();
        self.max_tokens - reserve
    }

    pub open spec fn spec_summary_budget(&self) -> int {
        self.max_tokens - self.spec_reserve_tokens()
    }

    /// Install a summary reloaded from durable storage, marked as coming
    /// from a previous run, and recount it.
    pub fn load_existing_summary(&mut self, content: &str)
        requires
            old(self).wf(),
        ensures
            final(self).wf(),
            config_eq(*old(self), *final(self)),
            final(self).summary_model == old(self).summary_model,
            final(self).messages == old(self).messages,
            final(self).token_counts == old(self).token_counts,
            final(self).summary@.role == Role::SYSTEM,
            final(self).summary@.content == previous_summary_text() + content@,
            final(self).summary_tokens == token_count_of(
                final(self).model_str@,
                final(self).summary@.content,
            ),
            final(self).summary_dirty == false,
    {
        let mut c = String::from_str(previous_summary_prefix());
        c.append(content);
        self.summary.content = c;
        self.summary_tokens = count_tokens(self.model_str.as_str(), self.summary.content.as_str());
        self.summary_dirty = false;
    }

    /// The current summary text, as it would be persisted.
    pub fn summary_text(&self) -> (r: String)
        ensures
            r@ == self.summary@.content,
    {
        self.summary.content.clone()
    }

    /// Record that the current summary text has been persisted.
    pub fn mark_summary_saved(&mut self)
        ensures
            final(self).summary_dirty == false,
            final(self).messages == old(self).messages,
            final(self).token_counts == old(self).token_counts,
            final(self).summary == old(self).summary,
            final(self).summary_tokens == old(self).summary_tokens,
            final(self).summary_model == old(self).summary_model,
            config_eq(*old(self), *final(self)),
    {
        self.summary_dirty = false;
    }

    /// Remove the `n` oldest turns, and their counts, in lockstep.
    fn drop_front(&mut self, n: usize)
        requires
            n <= old(self).messages.len(),
            old(self).messages.len() == old(self).token_counts.len(),
        ensures
            final(self).messages@ == old(self).messages@.skip(n as int),
            final(self).token_counts@ == old(self).token_counts@.skip(n as int),
            final(self).summary == old(self).summary,
            final(self).summary_tokens == old(self).summary_tokens,
            final(self).summary_dirty == old(self).summary_dirty,
            final(self).summary_model == old(self).summary_model,
            config_eq(*old(self), *final(self)),
    {
        crate::memory::base::drop_front_pair(&mut self.messages, &mut self.token_counts, n);
    }

    /// The sum of the live window's token counts.
    fn live_token_count(&self) -> (r: usize)
        requires
            self.wf(),
        ensures
            r == sum_of(self.token_counts@),
    {
        proof {
            reveal_with_fuel(sum_of, 2);
            assert(self.token_counts@.take(0) =~= Seq::<usize>::empty());
            if self.messages@.len() <= 1 && sum_of(self.token_counts@) > self.max_tokens {
                // a single turn: its sum is its one count, which fits usize
                assert(self.token_counts@.len() == 1);
                assert(self.token_counts@.drop_first() =~= Seq::<usize>::empty());
                assert(sum_of(self.token_counts@) == self.token_counts@[0]);
            }
        }
        let mut total: usize = 0;
        let mut i: usize = 0;
        while i < self.token_counts.len()
            invariant
                i <= self.token_counts@.len(),
                total == sum_of(self.token_counts@.take(i as int)),
                sum_of(self.token_counts@) <= usize::MAX,
            decreases self.token_counts@.len() - i,
        {
            proof {
                lemma_sum_of_push(self.token_counts@.take(i as int), self.token_counts@[i as int]);
                assert(self.token_counts@.take(i + 1) =~= self.token_counts@.take(i as int).push(
                    self.token_counts@[i as int],
                ));
                lemma_sum_prefix_bound(self.token_counts@, i + 1);
            }
            total = total + self.token_counts[i];
            i += 1;
        }
        proof {
            assert(self.token_counts@.take(self.token_counts@.len() as int) =~= self.token_counts@);
        }
        total
    }

    /// One summarization pass: keep the retained tail of the live window
    /// verbatim, flatten everything older into a transcript, ask the
    /// summarization model to compress it, and append the outcome to the
    /// summary; then compress the summary itself if it outgrew its budget.
    fn do_summary(&mut self)
        requires
            old(self).base_wf(),
            old(self).messages@.len() >= 1,
        ensures
            final(self).wf(),
            config_eq(*old(self), *final(self)),
            ({
                let keep = tail_keep(old(self).token_counts@, old(self).max_tokens as int);
                &&& final(self).messages@.len() == keep
                &&& views_of(final(self).messages@) == views_of(old(self).messages@).skip(
                    old(self).messages@.len() - keep,
                )
                &&& final(self).token_counts@ == old(self).token_counts@.skip(
                    old(self).token_counts@.len() - keep,
                )
            }),
            final(self).summary@.role == Role::SYSTEM,
            final(self).summary_tokens == token_count_of(
                final(self).model_str@,
                final(self).summary@.content,
            ),
            final(self).summary_tokens <= final(self).spec_summary_budget(),
            summary_update(old(self).summary@.content, final(self).summary@.content),
            final(self).summary_dirty == true,
    {
        let ghost pre = *self;
        let len = self.token_counts.len();
        // Walk backward from the newest turn, keeping turns while their
        // counts still fit in the token budget.
        let mut k: usize = len;
        let mut acc: usize = 0;
        proof {
            assert(pre.token_counts@.skip(len as int) =~= Seq::<usize>::empty());
        }
        while k > 0 && self.token_counts[k - 1] <= self.max_tokens - acc
            invariant
                *self == pre,
                len == pre.token_counts@.len(),
                k <= len,
                acc <= self.max_tokens,
                acc == sum_of(pre.token_counts@.skip(k as int)),
            decreases k,
        {
            proof {
                lemma_sum_of_skip_step(pre.token_counts@, k - 1);
            }
            acc = acc + self.token_counts[k - 1];
            k = k - 1;
        }
        proof {
            if k > 0 {
                lemma_sum_of_skip_step(pre.token_counts@, k - 1);
            }
            lemma_eviction_split_unique(pre.token_counts@, pre.max_tokens as int, k as int);
            lemma_eviction_split(pre.token_counts@, pre.max_tokens as int);
        }
        let mut keep = len - k;
        if keep == 0 {
            keep = 1;
        }
        proof {
            assert(keep == tail_keep(pre.token_counts@, pre.max_tokens as int));
        }
        let drain = len - keep;
        // Collect the turns that are about to be summarized away.
        let mut to_summarize: Vec<Message> = Vec::new();
        let mut j: usize = 0;
        while j < drain
            invariant
                drain <= self.messages@.len(),
                j <= drain,
                *self == pre,
                to_summarize@.len() == j,
                views_of(to_summarize@) =~= views_of(self.messages@.take(drain as int)).take(
                    j as int,
                ),
            decreases drain - j,
        {
            let m = self.messages[j].clone();
            to_summarize.push(m);
            proof {
                lemma_views_of_push(to_summarize@.drop_last(), m);
                assert(views_of(to_summarize@) =~= views_of(to_summarize@.drop_last()).push(m@));
                assert(views_of(self.messages@.take(drain as int)).take(j + 1) =~= views_of(
                    self.messages@.take(drain as int),
                ).take(j as int).push(self.messages@[j as int]@));
            }
            j += 1;
        }
        self.drop_front(drain);
        proof {
            lemma_views_of_skip(pre.messages@, drain as int);
        }
        if drain == 0 {
            // The tail already fills the whole window: there is nothing to
            // summarize. Recount the summary, and compress it if it no
            // longer fits its budget.
            self.summary_tokens = count_tokens(
                self.model_str.as_str(),
                self.summary.content.as_str(),
            );
            let over_budget = {
                let budget = self.summary_budget();
                self.summary_tokens > budget
            };
            if !self.summary.content.as_str().is_empty() && over_budget {
                self.compress_summary();
            }
            self.summary_dirty = true;
            proof {
                assert(views_of(self.messages@) =~= views_of(pre.messages@).skip(0));
                assert(self.token_counts@ =~= pre.token_counts@.skip(0));
                if len > 1 {
                    // keep == len > 1 forces the eviction split to 0, so the
                    // whole window already fits the budget
                    assert(k == 0);
                    assert(pre.token_counts@.skip(0) =~= pre.token_counts@);
                }
            }
            return ;
        }
        let conversation = format_conversation(&to_summarize);
        let mut prompt = String::from_str(summary_prompt_prefix());
        prompt.append(conversation.as_str());
        let prompt_msg = Message::user(prompt.as_str());
        let new_part = request_summary_text(
            &self.summary_model,
            &prompt_msg,
            self.summary.content.as_str(),
        );
        let ghost np = new_part@;
        let ghost joined_spec = if pre.summary@.content.len() == 0 {
            np
        } else {
            pre.summary@.content + divider_text() + np
        };
        if self.summary.content.as_str().is_empty() {
            self.summary.content = new_part;
        } else {
            let mut joined = self.summary.content.clone();
            joined.append(summary_divider());
            joined.append(new_part.as_str());
            self.summary.content = joined;
        }
        proof {
            assert(self.summary@.content == joined_spec);
        }
        self.summary_tokens = count_tokens(self.model_str.as_str(), self.summary.content.as_str());
        let over_budget = {
            let budget = self.summary_budget();
            self.summary_tokens > budget
        };
        if over_budget {
            self.compress_summary();
        }
        self.summary_dirty = true;
        proof {
            if keep > 1 {
                assert(keep == len - k);
                assert(self.token_counts@ =~= pre.token_counts@.skip(k as int));
            } else {
                assert(self.messages@.len() == 1);
            }
            // the summary moved by one appended outcome, then possibly a
            // compression pass
            assert(solicit_outcome(pre.summary@.content, np));
            assert(self.summary@.content == joined_spec || compressed_from(
                joined_spec,
                self.summary@.content,
            ));
            assert(summary_update(pre.summary@.content, self.summary@.content));
        }
    }

    /// Ask the summarization model to rewrite the whole summary so that it
    /// fits its budget, and replace the summary wholesale with the
    /// outcome. The live window is untouched.
    fn compress_summary(&mut self)
        requires
            old(self).base_wf(),
        ensures
            final(self).base_wf(),
            config_eq(*old(self), *final(self)),
            final(self).messages == old(self).messages,
            final(self).token_counts == old(self).token_counts,
            final(self).summary@.role == Role::SYSTEM,
            final(self).summary_tokens == token_count_of(
                final(self).model_str@,
                final(self).summary@.content,
            ),
            final(self).summary_tokens <= final(self).spec_summary_budget(),
            compressed_from(old(self).summary@.content, final(self).summary@.content),
            final(self).summary_dirty == old(self).summary_dirty,
    {
        let ghost pre_content = self.summary@.content;
        let budget = self.summary_budget();
        let mut prompt = String::from_str(compress_prompt_prefix());
        let target = usize_to_string(budget);
        prompt.append(target.as_str());
        prompt.append(compress_prompt_middle());
        prompt.append(self.summary.content.as_str());
        let prompt_msg = Message::user(prompt.as_str());
        let new_text = request_summary_text(
            &self.summary_model,
            &prompt_msg,
            self.summary.content.as_str(),
        );
        self.summary.content = new_text;
        self.summary_tokens = count_tokens(self.model_str.as_str(), self.summary.content.as_str());
        proof {
            assert(prefix_chars(self.summary@.content, self.summary@.content.len() as int)
                =~= self.summary@.content);
            assert(compressed_from(pre_content, self.summary@.content));
        }
        // the summary must fit its budget after compression; when the
        // model's rewrite still does not fit, halve it until it does
        while self.summary_tokens > budget
            invariant
                budget == self.spec_summary_budget(),
                self.base_wf(),
                config_eq(*old(self), *self),
                self.messages == old(self).messages,
                self.token_counts == old(self).token_counts,
                self.summary_model == old(self).summary_model,
                self.summary_dirty == old(self).summary_dirty,
                compressed_from(pre_content, self.summary@.content),
                self.summary_tokens == token_count_of(self.model_str@, self.summary@.content),
                self.summary@.content.len() == 0 ==> self.summary_tokens == 0,
            decreases self.summary@.content.len(),
        {
            let ghost cur = self.summary@.content;
            let n = self.summary.content.as_str().unicode_len() / 2;
            let shorter = take_chars(self.summary.content.as_str(), n);
            self.summary.content = shorter;
            self.summary_tokens = count_tokens(
                self.model_str.as_str(),
                self.summary.content.as_str(),
            );
            proof {
                // a prefix of a prefix of an outcome is itself a prefix of
                // that outcome
                let t = choose|t: Seq<char>|
                    #[trigger] solicit_outcome(pre_content, t) && cur.len() <= t.len() && cur
                        == prefix_chars(t, cur.len() as int);
                assert(solicit_outcome(pre_content, t) && cur.len() <= t.len() && cur
                    == prefix_chars(t, cur.len() as int));
                assert(self.summary@.content =~= prefix_chars(
                    t,
                    self.summary@.content.len() as int,
                ));
                assert(compressed_from(pre_content, self.summary@.content));
            }
        }
    }
}

impl<M: BaseModel> BaseMemory for SummaryMemory<M> {
    open spec fn inv(&self) -> bool {
        self.wf()
    }

    /// The summary turn first, then the live window in order.
    open spec fn turns(&self) -> Seq<MessageValue> {
        seq![self.summary@] + views_of(self.messages@)
    }

    open spec fn token_total(&self) -> int {
        sum_of(self.token_counts@)
    }

    open spec fn add_post(pre: Self, post: Self, m: MessageValue) -> bool {
        summary_add_post(pre, post, m)
    }

    open spec fn clear_post(pre: Self, post: Self) -> bool {
        &&& post.messages@ == Seq::<Message>::empty()
        &&& post.token_counts@ == Seq::<usize>::empty()
        &&& post.summary == pre.summary
        &&& post.summary_tokens == pre.summary_tokens
        &&& post.summary_dirty == pre.summary_dirty
        &&& config_eq(pre, post)
    }

    fn add(&mut self, message: Message) {
        let ghost pre = *self;
        let c = count_tokens(self.model_str.as_str(), message.content.as_str());
        let prev = self.live_token_count();
        let over = prev > self.max_tokens || c > self.max_tokens - prev;
        self.token_counts.push(c);
        self.messages.push(message);
        proof {
            lemma_views_of_push(pre.messages@, message);
            lemma_sum_of_push(pre.token_counts@, c);
        }
        if over {
            self.do_summary();
            proof {
                let counts1 = pre.token_counts@.push(c);
                let keep = tail_keep(counts1, pre.max_tokens as int);
                lemma_eviction_split(counts1, pre.max_tokens as int);
                if sum_of(self.token_counts@) > self.max_tokens {
                    assert(self.messages@.len() == 1);
                }
            }
        } else {
            proof {
                assert(sum_of(pre.token_counts@.push(c)) <= pre.max_tokens);
            }
        }
    }

    fn get_messages(&self) -> (r: Vec<Message>) {
        let mut r: Vec<Message> = Vec::new();
        let s = self.summary.clone();
        r.push(s);
        proof {
            assert(views_of(r@) =~= seq![self.summary@] + views_of(self.messages@.take(0)));
        }
        let mut i: usize = 0;
        while i < self.messages.len()
            invariant
                i <= self.messages.len(),
                r@.len() == i + 1,
                views_of(r@) =~= seq![self.summary@] + views_of(self.messages@.take(i as int)),
            decreases self.messages.len() - i,
        {
            let m = self.messages[i].clone();
            r.push(m);
            proof {
                lemma_views_of_push(r@.drop_last(), m);
                assert(views_of(r@) =~= views_of(r@.drop_last()).push(m@));
                lemma_views_of_push(self.messages@.take(i as int), self.messages@[i as int]);
                assert(self.messages@.take(i + 1) =~= self.messages@.take(i as int).push(
                    self.messages@[i as int],
                ));
                assert((seq![self.summary@] + views_of(self.messages@.take(i as int))).push(
                    self.messages@[i as int]@,
                ) =~= seq![self.summary@] + views_of(self.messages@.take(i as int)).push(
                    self.messages@[i as int]@,
                ));
            }
            i += 1;
        }
        proof {
            assert(self.messages@.take(self.messages@.len() as int) =~= self.messages@);
            assert(views_of(r@) =~= self.turns());
        }
        r
    }

    fn token_count(&self) -> (r: usize) {
        self.live_token_count()
    }

    /// Empty the live window. The summary, durable or not, stays.
    fn clear(&mut self) {
        self.messages.clear();
        self.token_counts.clear();
    }
}

/// Immediately after an `add` that triggers summarization, the live window
/// still holds its newest turn, it fits in `max_tokens` again unless that
/// single newest turn alone exceeds the whole budget, and the summary fits
/// its own budget of `max_tokens - reserve`.
pub proof fn lemma_summary_window_bounds<M: BaseModel>(
    pre: SummaryMemory<M>,
    post: SummaryMemory<M>,
    m: MessageValue,
)
    requires
        pre.wf(),
        summary_add_post(pre, post, m),
        sum_of(pre.token_counts@.push(token_count_of(pre.model_str@, m.content)))
            > pre.max_tokens,
    ensures
        post.messages@.len() >= 1,
        sum_of(post.token_counts@) <= post.max_tokens || post.messages@.len() == 1,
        post.summary_tokens <= post.spec_summary_budget(),
{
    let c = token_count_of(pre.model_str@, m.content);
    let counts1 = pre.token_counts@.push(c);
    let keep = tail_keep(counts1, pre.max_tokens as int);
    lemma_eviction_split(counts1, pre.max_tokens as int);
    assert(views_of(post.messages@).len() == keep);
    if keep > 1 {
        assert(keep == counts1.len() - eviction_split(counts1, pre.max_tokens as int));
    }
}

} // verus!
