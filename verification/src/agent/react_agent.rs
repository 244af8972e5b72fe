use vstd::prelude::*;
use vstd::string::StringExecFns;
use vstd::string::StrSliceExecFns;
use crate::agent::base::BaseAgent;
use crate::agent::tool_agent::ToolAgent;
use crate::memory::base::BaseMemory;
use crate::model::base::BaseModel;
use crate::model::schema::{
    plain_message, views_of, views_of_calls, LLMResponse, LLMResponseValue, Message, MessageValue,
    Role, ToolCall, ToolCallValue,
};
use crate::prompt::{
    end_marker, exhausted_message, exhausted_text, no_content_message, no_content_text,
    react_end_token, react_system_preamble, react_system_prompt, tool_not_found_message,
    tool_not_found_text,
};
use crate::strutil::{
    contains_sub, find_sub, first_occurrence, has_occurrence, lemma_first_occurrence_is,
    lemma_occurrence_at_join, occurs_at, trim_str, trimmed,
};
use crate::tool::base::{Tool, ToolSchema};
use crate::tool::manager::ToolManager;

verus! {

/// What termination extraction yields from a response text that contains
/// the end-of-answer marker: everything before the marker's first
/// occurrence, trimmed of whitespace.
pub open spec fn extracted_answer(content: Seq<char>) -> Seq<char> {
    trimmed(content.subrange(0, first_occurrence(content, end_marker())))
}

/// The text recorded for a model response that carries no tool calls: the
/// reasoning and content that are present, or a diagnostic placeholder
/// when both are absent.
pub open spec fn continuation_of(
    reasoning: Option<Seq<char>>,
    content: Option<Seq<char>>,
) -> Seq<char> {
    match (reasoning, content) {
        (Some(re), Some(c)) => re + "\n"@ + c,
        (Some(re), None) => re + "\n"@ + no_content_text(),
        (None, Some(c)) => c,
        (None, None) => no_content_text(),
    }
}

/// The shape of the turn recorded for one requested tool call: a tool
/// turn carrying the call's identifier, whose content is the fixed
/// placeholder whenever the requested name is not registered.
pub open spec fn tool_turn_for<T: Tool>(
    tools: ToolManager<T>,
    c: ToolCallValue,
    m: MessageValue,
) -> bool {
    &&& m.role == Role::TOOL
    &&& m.tool_call_id == Some(c.id)
    &&& m.tool_calls is None
    &&& (tools.contains_name(c.name) || m.content == tool_not_found_text())
}

/// The memory took, in order, one tool turn for each of `calls`.
pub open spec fn tool_chain<Mem: BaseMemory, T: Tool>(
    tools: ToolManager<T>,
    mem0: Mem,
    mem1: Mem,
    calls: Seq<ToolCallValue>,
) -> bool
    decreases calls.len(),
{
    if calls.len() == 0 {
        mem1 == mem0
    } else {
        exists|mid: Mem, m: MessageValue|
            #![trigger Mem::add_post(mem0, mid, m)]
            tool_turn_for(tools, calls[0], m) && Mem::add_post(mem0, mid, m) && tool_chain(
                tools,
                mid,
                mem1,
                calls.drop_first(),
            )
    }
}

/// What one loop iteration does to the memory, for the response the model
/// returned. A terminating response appends the extracted answer as an
/// assistant turn; a response with tool calls appends one assistant turn
/// carrying them all, then one tool turn per call in request order; any
/// other response appends its reasoning and content as an assistant turn.
pub open spec fn response_step<Mem: BaseMemory, T: Tool>(
    tools: ToolManager<T>,
    mem0: Mem,
    mem1: Mem,
    resp: LLMResponseValue,
    outcome: Option<Seq<char>>,
) -> bool {
    match outcome {
        Some(ans) => {
            &&& resp.content is Some
            &&& has_occurrence(resp.content->Some_0, end_marker())
            &&& ans == extracted_answer(resp.content->Some_0)
            &&& Mem::add_post(mem0, mem1, plain_message(Role::ASSISTANT, ans))
        },
        None => {
            &&& (resp.content matches Some(c) ==> !has_occurrence(c, end_marker()))
            &&& if resp.tool_calls is Some && resp.tool_calls->Some_0.len() > 0 {
                let calls = resp.tool_calls->Some_0;
                let content = match resp.content {
                    Some(c) => c,
                    None => Seq::<char>::empty(),
                };
                exists|mid: Mem|
                    #![trigger tool_chain(tools, mid, mem1, calls)]
                    Mem::add_post(
                        mem0,
                        mid,
                        MessageValue {
                            role: Role::ASSISTANT,
                            content: content,
                            tool_calls: Some(calls),
                            tool_call_id: None,
                        },
                    ) && tool_chain(tools, mid, mem1, calls)
            } else {
                Mem::add_post(
                    mem0,
                    mem1,
                    plain_message(
                        Role::ASSISTANT,
                        continuation_of(resp.reasoning_content, resp.content),
                    ),
                )
            }
        },
    }
}

/// The memory took `n` non-terminating iteration steps.
pub open spec fn cont_steps<Mem: BaseMemory, T: Tool>(
    tools: ToolManager<T>,
    mem0: Mem,
    mem1: Mem,
    n: nat,
) -> bool
    decreases n,
{
    if n == 0 {
        mem1 == mem0
    } else {
        exists|mid: Mem, resp: LLMResponseValue|
            #![trigger response_step(tools, mem0, mid, resp, None::<Seq<char>>)]
            response_step(tools, mem0, mid, resp, None::<Seq<char>>) && cont_steps(
                tools,
                mid,
                mem1,
                (n - 1) as nat,
            )
    }
}

/// The memory took `n` iteration steps, of which only the last (if any)
/// terminated; `r` is the answer, or the exhaustion message when no step
/// terminated.
pub open spec fn run_steps<Mem: BaseMemory, T: Tool>(
    tools: ToolManager<T>,
    mem0: Mem,
    mem1: Mem,
    r: Seq<char>,
    n: nat,
) -> bool
    decreases n,
{
    if n == 0 {
        mem1 == mem0 && r == exhausted_text()
    } else {
        ||| (exists|resp: LLMResponseValue|
            #![trigger response_step(tools, mem0, mem1, resp, Some(r))]
            response_step(tools, mem0, mem1, resp, Some(r)))
        ||| (exists|mid: Mem, resp: LLMResponseValue|
            #![trigger response_step(tools, mem0, mid, resp, None::<Seq<char>>)]
            response_step(tools, mem0, mid, resp, None::<Seq<char>>) && run_steps(
                tools,
                mid,
                mem1,
                r,
                (n - 1) as nat,
            ))
    }
}

/// A chain of tool turns extends by one more at its end.
pub proof fn lemma_tool_chain_snoc<Mem: BaseMemory, T: Tool>(
    tools: ToolManager<T>,
    m0: Mem,
    m1: Mem,
    m2: Mem,
    calls: Seq<ToolCallValue>,
    c: ToolCallValue,
    m: MessageValue,
)
    requires
        tool_chain(tools, m0, m1, calls),
        tool_turn_for(tools, c, m),
        Mem::add_post(m1, m2, m),
    ensures
        tool_chain(tools, m0, m2, calls.push(c)),
    decreases calls.len(),
{
    if calls.len() == 0 {
        assert(calls.push(c)[0] == c);
        assert(calls.push(c).drop_first() =~= Seq::<ToolCallValue>::empty());
        assert(tool_turn_for(tools, calls.push(c)[0], m) && Mem::add_post(m0, m2, m)
            && tool_chain(tools, m2, m2, calls.push(c).drop_first()));
    } else {
        let (mid, m00): (Mem, MessageValue) = choose|mid: Mem, m00: MessageValue|
            #![trigger Mem::add_post(m0, mid, m00)]
            tool_turn_for(tools, calls[0], m00) && Mem::add_post(m0, mid, m00) && tool_chain(
                tools,
                mid,
                m1,
                calls.drop_first(),
            );
        lemma_tool_chain_snoc(tools, mid, m1, m2, calls.drop_first(), c, m);
        assert(calls.push(c).drop_first() =~= calls.drop_first().push(c));
        assert(calls.push(c)[0] == calls[0]);
        assert(tool_turn_for(tools, calls.push(c)[0], m00) && Mem::add_post(m0, mid, m00)
            && tool_chain(tools, mid, m2, calls.push(c).drop_first()));
    }
}

/// A run of non-terminating steps extends by one more at its end.
pub proof fn lemma_cont_steps_snoc<Mem: BaseMemory, T: Tool>(
    tools: ToolManager<T>,
    m0: Mem,
    m1: Mem,
    m2: Mem,
    n: nat,
    resp: LLMResponseValue,
)
    requires
        cont_steps(tools, m0, m1, n),
        response_step(tools, m1, m2, resp, None::<Seq<char>>),
    ensures
        cont_steps(tools, m0, m2, (n + 1) as nat),
    decreases n,
{
    if n == 0 {
        assert(response_step(tools, m0, m2, resp, None::<Seq<char>>) && cont_steps(
            tools,
            m2,
            m2,
            0,
        ));
    } else {
        let (mid, resp0): (Mem, LLMResponseValue) = choose|mid: Mem, resp0: LLMResponseValue|
            #![trigger response_step(tools, m0, mid, resp0, None::<Seq<char>>)]
            response_step(tools, m0, mid, resp0, None::<Seq<char>>) && cont_steps(
                tools,
                mid,
                m1,
                (n - 1) as nat,
            );
        lemma_cont_steps_snoc(tools, mid, m1, m2, (n - 1) as nat, resp);
        assert(response_step(tools, m0, mid, resp0, None::<Seq<char>>) && cont_steps(
            tools,
            mid,
            m2,
            n,
        ));
    }
}

/// A run of non-terminating steps closed by a terminating one is a whole
/// run that answers.
pub proof fn lemma_cont_then_terminal<Mem: BaseMemory, T: Tool>(
    tools: ToolManager<T>,
    m0: Mem,
    m1: Mem,
    m2: Mem,
    n: nat,
    resp: LLMResponseValue,
    ans: Seq<char>,
)
    requires
        cont_steps(tools, m0, m1, n),
        response_step(tools, m1, m2, resp, Some(ans)),
    ensures
        run_steps(tools, m0, m2, ans, (n + 1) as nat),
    decreases n,
{
    if n == 0 {
        assert(response_step(tools, m0, m2, resp, Some(ans)));
    } else {
        let (mid, resp0): (Mem, LLMResponseValue) = choose|mid: Mem, resp0: LLMResponseValue|
            #![trigger response_step(tools, m0, mid, resp0, None::<Seq<char>>)]
            response_step(tools, m0, mid, resp0, None::<Seq<char>>) && cont_steps(
                tools,
                mid,
                m1,
                (n - 1) as nat,
            );
        lemma_cont_then_terminal(tools, mid, m1, m2, (n - 1) as nat, resp, ans);
        assert(response_step(tools, m0, mid, resp0, None::<Seq<char>>) && run_steps(
            tools,
            mid,
            m2,
            ans,
            n,
        ));
    }
}

/// A whole run of non-terminating steps answers with the exhaustion
/// message.
pub proof fn lemma_cont_steps_exhausted<Mem: BaseMemory, T: Tool>(
    tools: ToolManager<T>,
    m0: Mem,
    m1: Mem,
    n: nat,
)
    requires
        cont_steps(tools, m0, m1, n),
    ensures
        run_steps(tools, m0, m1, exhausted_text(), n),
    decreases n,
{
    if n > 0 {
        let (mid, resp0): (Mem, LLMResponseValue) = choose|mid: Mem, resp0: LLMResponseValue|
            #![trigger response_step(tools, m0, mid, resp0, None::<Seq<char>>)]
            response_step(tools, m0, mid, resp0, None::<Seq<char>>) && cont_steps(
                tools,
                mid,
                m1,
                (n - 1) as nat,
            );
        lemma_cont_steps_exhausted(tools, mid, m1, (n - 1) as nat);
        assert(response_step(tools, m0, mid, resp0, None::<Seq<char>>) && run_steps(
            tools,
            mid,
            m1,
            exhausted_text(),
            (n - 1) as nat,
        ));
    }
}

/// An agent that drives a model through a reason-act loop: it calls the
/// model on the remembered conversation, dispatches any tool calls the
/// model requests, and stops when the model's text carries the
/// end-of-answer marker or when `max_iterations` model calls have been
/// made.
pub struct ReactAgent<Mod: BaseModel, Mem: BaseMemory, T: Tool> {
    pub model: Mod,
    pub system_prompt: Message,
    pub max_iterations: usize,
    pub memory: Mem,
    pub tools: ToolManager<T>,
}

impl<Mod: BaseModel, Mem: BaseMemory, T: Tool> ReactAgent<Mod, Mem, T> {
    pub open spec fn wf(&self) -> bool {
        &&& self.memory.inv()
        &&& self.tools.wf()
        &&& self.system_prompt@.role == Role::SYSTEM
    }

    pub fn new(
        model: Mod,
        system_prompt: &str,
        max_iterations: usize,
        memory: Mem,
        tools: ToolManager<T>,
    ) -> (r: Self)
        requires
            memory.inv(),
            tools.wf(),
        ensures
            r.wf(),
            r.max_iterations == max_iterations,
            r.memory == memory,
            r.system_prompt@.content == react_system_preamble() + "\n\nUser Prompt: "@
                + system_prompt@,
    {
        let mut ret = ReactAgent {
            model,
            system_prompt: Message::system(system_prompt),
            max_iterations,
            memory,
            tools,
        };
        let built = ret.build_system_prompt(system_prompt);
        ret.system_prompt.content = built;
        ret
    }

    /// The full system prompt: the fixed preamble followed by the agent's
    /// own prompt.
    pub fn build_system_prompt(&self, user_prompt: &str) -> (r: String)
        ensures
            r@ == react_system_preamble() + "\n\nUser Prompt: "@ + user_prompt@,
    {
        let mut s = String::from_str(react_system_prompt());
        s.append("\n\nUser Prompt: ");
        s.append(user_prompt);
        s
    }

    /// Whether the response's text carries the end-of-answer marker.
    pub fn is_finished(&self, response: &LLMResponse) -> (r: bool)
        ensures
            r == match response.content {
                Some(c) => has_occurrence(c@, end_marker()),
                None => false,
            },
    {
        match &response.content {
            Some(text) => contains_sub(text.as_str(), react_end_token()),
            None => false,
        }
    }

    /// The final answer carried by the response, if its text contains the
    /// end-of-answer marker: the text before the marker, trimmed.
    pub fn extract_final_answer(&self, response: &LLMResponse) -> (r: Option<String>)
        ensures
            match r {
                Some(ans) => match response.content {
                    Some(c) => has_occurrence(c@, end_marker()) && ans@ == extracted_answer(c@),
                    None => false,
                },
                None => match response.content {
                    Some(c) => !has_occurrence(c@, end_marker()),
                    None => true,
                },
            },
    {
        match &response.content {
            Some(text) => {
                match find_sub(text.as_str(), react_end_token()) {
                    Some(i) => {
                        let prefix = text.as_str().substring_char(0, i);
                        let ans = trim_str(prefix);
                        proof {
                            lemma_first_occurrence_is(text@, end_marker(), i as int);
                        }
                        Some(ans)
                    },
                    None => None,
                }
            },
            None => None,
        }
    }

    /// The turn recorded for one requested tool call: a tool turn carrying
    /// the call's identifier and the tool's textual output, or the fixed
    /// placeholder when no tool is registered under the requested name.
    pub fn dispatch_tool_call(&self, call: &ToolCall) -> (m: Message)
        requires
            self.tools.wf(),
        ensures
            m@.role == Role::TOOL,
            m@.tool_call_id == Some(call@.id),
            m@.tool_calls is None,
            !self.tools.contains_name(call@.name) ==> m@.content == tool_not_found_text(),
    {
        let out = match self.tools.execute_tool(call.name.as_str(), call.arguments.as_str()) {
            Some(t) => t,
            None => String::from_str(tool_not_found_message()),
        };
        Message::tool_result(out.as_str(), call.id.as_str())
    }

    /// The recorded text of a response without tool calls.
    fn continuation_text(response: &LLMResponse) -> (r: String)
        ensures
            r@ == continuation_of(
                match response.reasoning_content {
                    Some(re) => Some(re@),
                    None => None,
                },
                match response.content {
                    Some(c) => Some(c@),
                    None => None,
                },
            ),
    {
        match (&response.reasoning_content, &response.content) {
            (Some(re), Some(c)) => {
                let mut s = re.clone();
                s.append("\n");
                s.append(c.as_str());
                s
            },
            (Some(re), None) => {
                let mut s = re.clone();
                s.append("\n");
                s.append(no_content_message());
                s
            },
            (None, Some(c)) => c.clone(),
            (None, None) => String::from_str(no_content_message()),
        }
    }

    /// Apply one model response to the agent's memory: the per-iteration
    /// bookkeeping of the reason-act loop. A response whose text carries
    /// the end-of-answer marker terminates the iteration and yields the
    /// extracted answer; one with tool calls is recorded and every call is
    /// dispatched in request order; any other response is recorded as a
    /// plain continuation.
    pub fn apply_response(&mut self, response: LLMResponse) -> (r: Option<String>)
        requires
            old(self).wf(),
        ensures
            final(self).wf(),
            final(self).model == old(self).model,
            final(self).system_prompt == old(self).system_prompt,
            final(self).max_iterations == old(self).max_iterations,
            final(self).tools == old(self).tools,
            response_step(
                old(self).tools,
                old(self).memory,
                final(self).memory,
                response@,
                match r {
                    Some(ans) => Some(ans@),
                    None => None,
                },
            ),
    {
        let ghost pre = *self;
        match self.extract_final_answer(&response) {
            Some(ans) => {
                // termination: record the answer and stop
                let turn = Message::assistant(ans.as_str());
                self.memory.add(turn);
                Some(ans)
            },
            None => {
                let has_calls = match &response.tool_calls {
                    Some(cs) => cs.len() > 0,
                    None => false,
                };
                if has_calls {
                    let ghost resp_view = response@;
                    let calls = match response.tool_calls {
                        Some(cs) => cs,
                        None => Vec::new(),
                    };
                    let content_text = match response.content {
                        Some(t) => t,
                        None => String::new(),
                    };
                    // one assistant turn holding the combined content and
                    // the full set of requested calls
                    let recorded_calls = calls.clone();
                    let turn = Message {
                        role: Role::ASSISTANT,
                        content: content_text,
                        tool_calls: Some(recorded_calls),
                        tool_call_id: None,
                    };
                    proof {
                        assert(views_of_calls(calls@) == resp_view.tool_calls->Some_0);
                        assert(turn@ == MessageValue {
                            role: Role::ASSISTANT,
                            content: match resp_view.content {
                                Some(c) => c,
                                None => Seq::<char>::empty(),
                            },
                            tool_calls: Some(resp_view.tool_calls->Some_0),
                            tool_call_id: None,
                        });
                    }
                    self.memory.add(turn);
                    let ghost mem_mid = self.memory;
                    // then one tool turn per call, in request order
                    let mut k: usize = 0;
                    proof {
                        assert(views_of_calls(calls@).take(0) =~= Seq::<
                            crate::model::schema::ToolCallValue,
                        >::empty());
                    }
                    while k < calls.len()
                        invariant
                            self.wf(),
                            self.model == pre.model,
                            self.system_prompt == pre.system_prompt,
                            self.max_iterations == pre.max_iterations,
                            self.tools == pre.tools,
                            k <= calls.len(),
                            tool_chain(
                                pre.tools,
                                mem_mid,
                                self.memory,
                                views_of_calls(calls@).take(k as int),
                            ),
                        decreases calls.len() - k,
                    {
                        let ghost mem_before = self.memory;
                        let tool_turn = self.dispatch_tool_call(&calls[k]);
                        self.memory.add(tool_turn);
                        proof {
                            lemma_tool_chain_snoc(
                                pre.tools,
                                mem_mid,
                                mem_before,
                                self.memory,
                                views_of_calls(calls@).take(k as int),
                                calls@[k as int]@,
                                tool_turn@,
                            );
                            assert(views_of_calls(calls@).take(k + 1) =~= views_of_calls(
                                calls@,
                            ).take(k as int).push(calls@[k as int]@));
                        }
                        k += 1;
                    }
                    proof {
                        assert(views_of_calls(calls@).take(calls@.len() as int) =~= views_of_calls(
                            calls@,
                        ));
                        assert(response_step(
                            pre.tools,
                            pre.memory,
                            self.memory,
                            resp_view,
                            None::<Seq<char>>,
                        ));
                    }
                    None
                } else {
                    // plain continuation: record what the model said
                    let text = Self::continuation_text(&response);
                    let turn = Message::assistant(text.as_str());
                    self.memory.add(turn);
                    None
                }
            },
        }
    }

    /// The prompt context: the system prompt first, then the remembered
    /// turns in order.
    fn context_messages(&self) -> (r: Vec<Message>)
        requires
            self.wf(),
        ensures
            views_of(r@) == seq![self.system_prompt@] + self.memory.turns(),
    {
        let mut r: Vec<Message> = Vec::new();
        let sp = self.system_prompt.clone();
        r.push(sp);
        let mut h = self.memory.get_messages();
        let ghost hv = views_of(h@);
        r.append(&mut h);
        proof {
            assert(views_of(r@) =~= seq![self.system_prompt@] + hv);
        }
        r
    }
}

impl<Mod: BaseModel, Mem: BaseMemory, T: Tool> BaseAgent for ReactAgent<Mod, Mem, T> {
    open spec fn inv(&self) -> bool {
        self.wf()
    }

    open spec fn history(&self) -> Seq<MessageValue> {
        self.memory.turns()
    }

    open spec fn context_spec(&self) -> Seq<MessageValue> {
        seq![self.system_prompt@] + self.memory.turns()
    }

    /// The model, prompts and tools are untouched; the user turn is
    /// appended to memory first; and then the memory takes at most
    /// `max_iterations` iteration steps, of which only the last (if any)
    /// terminates with the answer. When no step terminates, exactly
    /// `max_iterations` steps ran and the answer is the fixed exhaustion
    /// message.
    open spec fn run_post(pre: Self, post: Self, user_prompt: Seq<char>, r: Seq<char>) -> bool {
        &&& post.model == pre.model
        &&& post.system_prompt == pre.system_prompt
        &&& post.max_iterations == pre.max_iterations
        &&& post.tools == pre.tools
        &&& exists|mem1: Mem|
            #![trigger Mem::add_post(pre.memory, mem1, plain_message(Role::USER, user_prompt))]
            Mem::add_post(pre.memory, mem1, plain_message(Role::USER, user_prompt)) && (
            (r == exhausted_text() && cont_steps(
                pre.tools,
                mem1,
                post.memory,
                pre.max_iterations as nat,
            )) || (exists|n: nat|
                #![trigger run_steps(pre.tools, mem1, post.memory, r, n)]
                n <= pre.max_iterations && run_steps(pre.tools, mem1, post.memory, r, n)))
    }

    fn get_history(&self) -> (r: Vec<Message>) {
        self.memory.get_messages()
    }

    fn clear_history(&mut self) {
        self.memory.clear();
    }

    fn build_messages(&self) -> (r: Vec<Message>) {
        self.context_messages()
    }

    fn add_message(&mut self, message: Message) {
        self.memory.add(message);
    }

    fn run(&mut self, user_prompt: &str) -> (r: String) {
        let user_turn = Message::user(user_prompt);
        self.memory.add(user_turn);
        let ghost mem_start = self.memory;
        let ghost maxi = self.max_iterations;
        let mut i: usize = 0;
        let mut result: Option<String> = None;
        while result.is_none() && i < self.max_iterations
            invariant
                self.wf(),
                self.model == old(self).model,
                self.system_prompt == old(self).system_prompt,
                self.max_iterations == old(self).max_iterations,
                self.tools == old(self).tools,
                maxi == self.max_iterations,
                i <= maxi,
                match result {
                    Some(a) => exists|n: nat|
                        #![trigger run_steps(self.tools, mem_start, self.memory, a@, n)]
                        0 < n <= maxi && run_steps(self.tools, mem_start, self.memory, a@, n),
                    None => cont_steps(self.tools, mem_start, self.memory, i as nat),
                },
            decreases maxi - i, (if result is None { 1int } else { 0int }),
        {
            let msgs = self.context_messages();
            let response = self.model.call_with_history(&msgs);
            let ghost mem_before = self.memory;
            match self.apply_response(response) {
                Some(ans) => {
                    proof {
                        let resp = choose|resp: LLMResponseValue|
                            response_step(self.tools, mem_before, self.memory, resp, Some(ans@));
                        lemma_cont_then_terminal(
                            self.tools,
                            mem_start,
                            mem_before,
                            self.memory,
                            i as nat,
                            resp,
                            ans@,
                        );
                    }
                    result = Some(ans);
                },
                None => {
                    proof {
                        let resp = choose|resp: LLMResponseValue|
                            response_step(
                                self.tools,
                                mem_before,
                                self.memory,
                                resp,
                                None::<Seq<char>>,
                            );
                        lemma_cont_steps_snoc(
                            self.tools,
                            mem_start,
                            mem_before,
                            self.memory,
                            i as nat,
                            resp,
                        );
                    }
                    i += 1;
                },
            }
        }
        match result {
            Some(a) => {
                proof {
                    assert(Mem::add_post(
                        old(self).memory,
                        mem_start,
                        plain_message(Role::USER, user_prompt@),
                    ));
                }
                a
            },
            None => {
                proof {
                    lemma_cont_steps_exhausted(self.tools, mem_start, self.memory, maxi as nat);
                    assert(Mem::add_post(
                        old(self).memory,
                        mem_start,
                        plain_message(Role::USER, user_prompt@),
                    ));
                }
                String::from_str(exhausted_message())
            },
        }
    }
}

impl<Mod: BaseModel, Mem: BaseMemory, T: Tool> ToolAgent for ReactAgent<Mod, Mem, T> {
    open spec fn tools_wf(&self) -> bool {
        self.tools.wf()
    }

    open spec fn tool_registered(&self, name: Seq<char>) -> bool {
        self.tools.contains_name(name)
    }

    open spec fn tools_schema_spec(&self) -> Seq<crate::tool::base::ToolSchemaValue> {
        self.tools.schemas_for(self.tools.names.deep_view())
    }

    fn get_tools_schema(&self) -> (r: Vec<ToolSchema>) {
        let names = self.tools.get_tool_names();
        let r = self.tools.get_schema(&names);
        proof {
            assert(names.deep_view() =~= self.tools.names.deep_view());
        }
        r
    }

    fn format_tool_calls(&self, tool_calls: &Vec<ToolCall>) -> (r: Vec<String>) {
        self.tools.format_tool_calls(tool_calls)
    }

    fn execute_tool(&self, tool_name: &str, arguments: &str) -> (r: Option<String>) {
        self.tools.execute_tool(tool_name, arguments)
    }
}

/// Termination extraction: a response text of the form
/// `answer + marker + trailing`, in which the marker occurs nowhere
/// earlier, extracts to the answer trimmed of whitespace. Text without
/// the marker extracts to nothing, by `extract_final_answer`'s contract.
pub proof fn lemma_extraction_at_marker(answer: Seq<char>, trailing: Seq<char>)
    requires
        forall|j: int|
            0 <= j < answer.len() ==> !occurs_at(
                answer + end_marker() + trailing,
                end_marker(),
                j,
            ),
    ensures
        has_occurrence(answer + end_marker() + trailing, end_marker()),
        extracted_answer(answer + end_marker() + trailing) == trimmed(answer),
{
    lemma_occurrence_at_join(answer, end_marker(), trailing);
}

} // verus!
