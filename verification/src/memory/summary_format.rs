use vstd::prelude::*;
use vstd::string::StrSliceExecFns;
use vstd::string::StringExecFns;
use crate::json::{json_list_item, json_list_len, json_list_item_of, json_list_len_of, json_text_field, json_text_field_of};
use crate::model::schema::{tool_call_rendered, Message, MessageValue, ToolCall};
use crate::strutil::{prefix_chars, take_chars};

verus! {

/// The structured summary a summarization model is asked to produce.
pub struct Summary {
    pub task_context: String,
    pub key_decisions: Vec<String>,
    pub actions_taken: Vec<String>,
    pub current_state: String,
    pub important_info: Vec<String>,
}

// ---------------------------------------------------------------------------
// Rendering a structured summary to its canonical text form
// ---------------------------------------------------------------------------

/// Items as a bulleted list, one per line.
pub open spec fn bullets(items: Seq<Seq<char>>) -> Seq<char>
    decreases items.len(),
{
    if items.len() == 0 {
        Seq::<char>::empty()
    } else if items.len() == 1 {
        "- "@ + items[0]
    } else {
        bullets(items.drop_last()) + "\n- "@ + items.last()
    }
}

fn push_bullets(s: &mut String, items: &Vec<String>)
    ensures
        final(s)@ == old(s)@ + bullets(items.deep_view()),
{
    let ghost views = items.deep_view();
    let mut i: usize = 0;
    proof {
        assert(views.take(0) =~= Seq::<Seq<char>>::empty());
        assert(s@ =~= old(s)@ + bullets(views.take(0)));
    }
    while i < items.len()
        invariant
            i <= items.len(),
            views == items.deep_view(),
            views.len() == items.len(),
            s@ == old(s)@ + bullets(views.take(i as int)),
        decreases items.len() - i,
    {
        if i == 0 {
            s.append("- ");
        } else {
            s.append("\n- ");
        }
        s.append(items[i].as_str());
        proof {
            let t1 = views.take(i + 1);
            assert(t1.last() == views[i as int]);
            assert(views[i as int] == items@[i as int]@);
            if i == 0 {
                assert(t1.len() == 1);
                assert(t1[0] == views[0]);
                assert(s@ =~= old(s)@ + bullets(t1));
            } else {
                assert(t1.drop_last() =~= views.take(i as int));
                assert(s@ =~= old(s)@ + bullets(t1));
            }
        }
        i += 1;
    }
    proof {
        assert(views.take(items.len() as int) =~= views);
    }
}

/// The canonical text form of a structured summary.
pub open spec fn rendered_summary(
    task_context: Seq<char>,
    key_decisions: Seq<Seq<char>>,
    actions_taken: Seq<Seq<char>>,
    current_state: Seq<char>,
    important_info: Seq<Seq<char>>,
) -> Seq<char> {
    "Task Context:\n"@ + task_context + "\n\nKey Decisions:\n"@ + bullets(key_decisions)
        + "\n\nActions Taken:\n"@ + bullets(actions_taken) + "\n\nCurrent State:\n"@
        + current_state + "\n\nImportant Info:\n"@ + bullets(important_info)
}

/// Render a structured summary into its canonical text form.
pub fn render_summary(f: &Summary) -> (r: String)
    ensures
        r@ == rendered_summary(
            f.task_context@,
            f.key_decisions.deep_view(),
            f.actions_taken.deep_view(),
            f.current_state@,
            f.important_info.deep_view(),
        ),
        r@ == rendered_of(f@),
{
    let mut s = String::from_str("Task Context:\n");
    s.append(f.task_context.as_str());
    s.append("\n\nKey Decisions:\n");
    push_bullets(&mut s, &f.key_decisions);
    s.append("\n\nActions Taken:\n");
    push_bullets(&mut s, &f.actions_taken);
    s.append("\n\nCurrent State:\n");
    s.append(f.current_state.as_str());
    s.append("\n\nImportant Info:\n");
    push_bullets(&mut s, &f.important_info);
    s
}

// ---------------------------------------------------------------------------
// Parsing a model response into a structured summary
// ---------------------------------------------------------------------------

/// The first index at which `c` occurs in `s`.
pub fn find_char(s: &str, c: char) -> (r: Option<usize>)
    ensures
        match r {
            Some(i) => i < s@.len() && s@[i as int] == c && (forall|j: int|
                0 <= j < i ==> s@[j] != c),
            None => forall|j: int| 0 <= j < s@.len() ==> s@[j] != c,
        },
{
    let len = s.unicode_len();
    let mut i: usize = 0;
    while i < len
        invariant
            len == s@.len(),
            i <= len,
            forall|j: int| 0 <= j < i ==> s@[j] != c,
        decreases len - i,
    {
        if s.get_char(i) == c {
            return Some(i);
        }
        i += 1;
    }
    None
}

/// The last index at which `c` occurs in `s`.
pub fn rfind_char(s: &str, c: char) -> (r: Option<usize>)
    ensures
        match r {
            Some(i) => i < s@.len() && s@[i as int] == c && (forall|j: int|
                i < j < s@.len() ==> s@[j] != c),
            None => forall|j: int| 0 <= j < s@.len() ==> s@[j] != c,
        },
{
    let len = s.unicode_len();
    let mut i: usize = len;
    while i > 0
        invariant
            len == s@.len(),
            i <= len,
            forall|j: int| i <= j < len ==> s@[j] != c,
        decreases i,
    {
        i -= 1;
        if s.get_char(i) == c {
            return Some(i);
        }
    }
    None
}

/// The index of the first occurrence of `c` in `s` (meaningful only when
/// one exists).
pub open spec fn first_char_at(s: Seq<char>, c: char) -> int {
    choose|i: int|
        0 <= i < s.len() && s[i] == c && (forall|j: int| 0 <= j < i ==> s[j] != c)
}

/// The index of the last occurrence of `c` in `s` (meaningful only when
/// one exists).
pub open spec fn last_char_at(s: Seq<char>, c: char) -> int {
    choose|i: int|
        0 <= i < s.len() && s[i] == c && (forall|j: int| i < j < s.len() ==> s[j] != c)
}

pub open spec fn contains_char(s: Seq<char>, c: char) -> bool {
    exists|i: int| 0 <= i < s.len() && s[i] == c
}

pub proof fn lemma_first_char_at(s: Seq<char>, c: char, i: int)
    requires
        0 <= i < s.len(),
        s[i] == c,
        forall|j: int| 0 <= j < i ==> s[j] != c,
    ensures
        contains_char(s, c),
        first_char_at(s, c) == i,
{
    assert(exists|k: int|
        0 <= k < s.len() && s[k] == c && (forall|j: int| 0 <= j < k ==> s[j] != c)) by {
        assert(0 <= i < s.len() && s[i] == c && (forall|j: int| 0 <= j < i ==> s[j] != c));
    }
    let w = first_char_at(s, c);
    assert(0 <= w < s.len() && s[w] == c && (forall|j: int| 0 <= j < w ==> s[j] != c));
}

pub proof fn lemma_last_char_at(s: Seq<char>, c: char, i: int)
    requires
        0 <= i < s.len(),
        s[i] == c,
        forall|j: int| i < j < s.len() ==> s[j] != c,
    ensures
        contains_char(s, c),
        last_char_at(s, c) == i,
{
    assert(exists|k: int|
        0 <= k < s.len() && s[k] == c && (forall|j: int| k < j < s.len() ==> s[j] != c)) by {
        assert(0 <= i < s.len() && s[i] == c && (forall|j: int| i < j < s.len() ==> s[j] != c));
    }
    let w = last_char_at(s, c);
    assert(0 <= w < s.len() && s[w] == c && (forall|j: int| w < j < s.len() ==> s[j] != c));
}

/// The document a summary response is parsed from: the substring from the
/// first `{` (or the start, when there is none) through the last `}` (or
/// the end). An empty response, or one whose cut is empty, yields nothing.
pub open spec fn brace_cut(text: Seq<char>) -> Option<Seq<char>> {
    if text.len() == 0 {
        None
    } else {
        let start = if contains_char(text, '{') {
            first_char_at(text, '{')
        } else {
            0
        };
        let end = if contains_char(text, '}') {
            last_char_at(text, '}')
        } else {
            text.len() - 1
        };
        if start > end {
            None
        } else {
            Some(text.subrange(start, end + 1))
        }
    }
}

pub ghost struct SummaryValue {
    pub task_context: Seq<char>,
    pub key_decisions: Seq<Seq<char>>,
    pub actions_taken: Seq<Seq<char>>,
    pub current_state: Seq<char>,
    pub important_info: Seq<Seq<char>>,
}

impl View for Summary {
    type V = SummaryValue;

    open spec fn view(&self) -> SummaryValue {
        SummaryValue {
            task_context: self.task_context@,
            key_decisions: self.key_decisions.deep_view(),
            actions_taken: self.actions_taken.deep_view(),
            current_state: self.current_state@,
            important_info: self.important_info.deep_view(),
        }
    }
}

/// The canonical text form of a structured summary value.
pub open spec fn rendered_of(f: SummaryValue) -> Seq<char> {
    rendered_summary(
        f.task_context,
        f.key_decisions,
        f.actions_taken,
        f.current_state,
        f.important_info,
    )
}

pub open spec fn view_opt_summary(o: Option<Summary>) -> Option<SummaryValue> {
    match o {
        Some(f) => Some(f@),
        None => None,
    }
}

/// The list of strings under `key` in the JSON document `text`: present
/// exactly when the key holds an array whose elements are all strings.
pub open spec fn json_string_list(text: Seq<char>, key: Seq<char>) -> Option<Seq<Seq<char>>> {
    match json_list_len(text, key) {
        Some(n) => if forall|i: usize|
            i < n ==> (#[trigger] json_list_item(text, key, i)) is Some {
            Some(Seq::new(n as nat, |i: int| json_list_item(text, key, i as usize)->Some_0))
        } else {
            None
        },
        None => None,
    }
}

/// The structured summary the JSON document `doc` denotes: present exactly
/// when all five expected fields are, with their contents.
pub open spec fn summary_of_doc(doc: Seq<char>) -> Option<SummaryValue> {
    let tc = json_text_field(doc, "task_context"@);
    let cs = json_text_field(doc, "current_state"@);
    let kd = json_string_list(doc, "key_decisions"@);
    let at = json_string_list(doc, "actions_taken"@);
    let ii = json_string_list(doc, "important_info"@);
    if tc is Some && cs is Some && kd is Some && at is Some && ii is Some {
        Some(
            SummaryValue {
                task_context: tc->Some_0,
                key_decisions: kd->Some_0,
                actions_taken: at->Some_0,
                current_state: cs->Some_0,
                important_info: ii->Some_0,
            },
        )
    } else {
        None
    }
}

/// What parsing a summary response yields: the structured summary denoted
/// by the brace cut of the text, or nothing.
pub open spec fn parsed_summary(text: Seq<char>) -> Option<SummaryValue> {
    match brace_cut(text) {
        Some(doc) => summary_of_doc(doc),
        None => None,
    }
}

fn get_list_field(text: &str, key: &str) -> (r: Option<Vec<String>>)
    ensures
        match r {
            Some(v) => json_string_list(text@, key@) == Some(v.deep_view()),
            None => json_string_list(text@, key@) is None,
        },
{
    let n = match json_list_len_of(text, key) {
        Some(n) => n,
        None => {
            return None;
        },
    };
    let mut out: Vec<String> = Vec::new();
    let mut i: usize = 0;
    while i < n
        invariant
            i <= n,
            json_list_len(text@, key@) == Some(n),
            out@.len() == i,
            forall|j: usize| j < i ==> (#[trigger] json_list_item(text@, key@, j)) is Some,
            forall|j: usize|
                j < i ==> out@[j as int]@ == (#[trigger] json_list_item(text@, key@, j))->Some_0,
        decreases n - i,
    {
        let ghost prev = out@;
        match json_list_item_of(text, key, i) {
            Some(s) => {
                out.push(s);
                proof {
                    assert forall|j: usize| j < i + 1 implies out@[j as int]@ == (
                    #[trigger] json_list_item(text@, key@, j))->Some_0 by {
                        if j < i {
                            assert(out@[j as int] == prev[j as int]);
                        } else {
                            assert(out@[j as int]@ == s@);
                        }
                    }
                }
            },
            None => {
                proof {
                    assert(json_list_item(text@, key@, i) is None);
                }
                return None;
            },
        }
        i += 1;
    }
    proof {
        assert forall|k: int| 0 <= k < n implies out.deep_view()[k] == json_list_item(
            text@,
            key@,
            k as usize,
        )->Some_0 by {
            assert(out@[k]@ == json_list_item(text@, key@, k as usize)->Some_0);
        }
        assert(out.deep_view() =~= Seq::new(
            n as nat,
            |j: int| json_list_item(text@, key@, j as usize)->Some_0,
        ));
    }
    Some(out)
}

/// Cut the text down to the outermost brace pair and parse it as a
/// structured summary. The model's framing prose around the JSON document
/// is discarded; a response in which the expected shape cannot be found
/// parses to nothing, which the caller counts as a failed attempt.
pub fn parse_summary(text: &str) -> (r: Option<Summary>)
    ensures
        view_opt_summary(r) == parsed_summary(text@),
{
    let len = text.unicode_len();
    if len == 0 {
        return None;
    }
    let start = match find_char(text, '{') {
        Some(i) => {
            proof {
                lemma_first_char_at(text@, '{', i as int);
            }
            i
        },
        None => 0,
    };
    let end = match rfind_char(text, '}') {
        Some(i) => {
            proof {
                lemma_last_char_at(text@, '}', i as int);
            }
            i
        },
        None => len - 1,
    };
    if start > end {
        return None;
    }
    let json_str = text.substring_char(start, end + 1);
    let task_context = match json_text_field_of(json_str, "task_context") {
        Some(s) => s,
        None => {
            return None;
        },
    };
    let current_state = match json_text_field_of(json_str, "current_state") {
        Some(s) => s,
        None => {
            return None;
        },
    };
    let key_decisions = match get_list_field(json_str, "key_decisions") {
        Some(l) => l,
        None => {
            return None;
        },
    };
    let actions_taken = match get_list_field(json_str, "actions_taken") {
        Some(l) => l,
        None => {
            return None;
        },
    };
    let important_info = match get_list_field(json_str, "important_info") {
        Some(l) => l,
        None => {
            return None;
        },
    };
    Some(Summary { task_context, key_decisions, actions_taken, current_state, important_info })
}

// ---------------------------------------------------------------------------
// Flattening a batch of turns into a transcript
// ---------------------------------------------------------------------------

/// The text form of the tool calls carried by one turn.
pub open spec fn calls_rendered(calls: Seq<crate::model::schema::ToolCallValue>) -> Seq<char>
    decreases calls.len(),
{
    if calls.len() == 0 {
        Seq::<char>::empty()
    } else if calls.len() == 1 {
        tool_call_rendered(calls[0])
    } else {
        calls_rendered(calls.drop_last()) + ", "@ + tool_call_rendered(calls.last())
    }
}

/// One transcript line: the role, the content truncated to 500 characters,
/// and the turn's tool-call metadata.
pub open spec fn message_line(m: MessageValue) -> Seq<char> {
    let truncated = if m.content.len() > 500 {
        prefix_chars(m.content, 500) + "...[truncated]"@
    } else {
        m.content
    };
    let noted = if m.tool_call_id is Some {
        "result: "@ + truncated
    } else {
        truncated
    };
    let calls_part = match m.tool_calls {
        Some(cs) => " With Tool Calls: ["@ + calls_rendered(cs) + "]"@,
        None => Seq::<char>::empty(),
    };
    let id_part = match m.tool_call_id {
        Some(id) => " With Tool Call ID: "@ + id,
        None => Seq::<char>::empty(),
    };
    m.role.spec_str() + ": "@ + noted + calls_part + id_part + "\n"@
}

/// The flattened transcript of a batch of turns, oldest first.
pub open spec fn transcript(msgs: Seq<MessageValue>) -> Seq<char>
    decreases msgs.len(),
{
    if msgs.len() == 0 {
        Seq::<char>::empty()
    } else {
        transcript(msgs.drop_last()) + message_line(msgs.last())
    }
}

fn push_calls(s: &mut String, calls: &Vec<ToolCall>)
    ensures
        final(s)@ == old(s)@ + calls_rendered(crate::model::schema::views_of_calls(calls@)),
{
    let ghost views = crate::model::schema::views_of_calls(calls@);
    let mut i: usize = 0;
    proof {
        assert(s@ =~= old(s)@ + calls_rendered(views.take(0)));
    }
    while i < calls.len()
        invariant
            i <= calls.len(),
            views == crate::model::schema::views_of_calls(calls@),
            views.len() == calls.len(),
            s@ == old(s)@ + calls_rendered(views.take(i as int)),
        decreases calls.len() - i,
    {
        if i > 0 {
            s.append(", ");
        }
        let part = calls[i].render();
        s.append(part.as_str());
        proof {
            let t1 = views.take(i + 1);
            assert(t1.last() == views[i as int]);
            if i == 0 {
                assert(t1.len() == 1);
                assert(t1[0] == views[0]);
                assert(s@ =~= old(s)@ + calls_rendered(t1));
            } else {
                assert(t1.drop_last() =~= views.take(i as int));
                assert(s@ =~= old(s)@ + calls_rendered(t1));
            }
        }
        i += 1;
    }
    proof {
        assert(views.take(calls.len() as int) =~= views);
    }
}

#[verifier::rlimit(50)]
fn push_message_line(s: &mut String, m: &Message)
    ensures
        final(s)@ == old(s)@ + message_line(m@),
{
    s.append(m.role.as_str());
    s.append(": ");
    if m.tool_call_id.is_some() {
        s.append("result: ");
    }
    let content_len = m.content.as_str().unicode_len();
    if content_len > 500 {
        let cut = take_chars(m.content.as_str(), 500);
        s.append(cut.as_str());
        s.append("...[truncated]");
    } else {
        s.append(m.content.as_str());
    }
    match &m.tool_calls {
        Some(calls) => {
            s.append(" With Tool Calls: [");
            push_calls(s, calls);
            s.append("]");
        },
        None => {},
    }
    match &m.tool_call_id {
        Some(id) => {
            s.append(" With Tool Call ID: ");
            s.append(id.as_str());
        },
        None => {},
    }
    s.append("\n");
    proof {
        assert(s@ =~= old(s)@ + message_line(m@));
    }
}

/// Flatten a batch of turns into a transcript for the summarization
/// prompt.
pub fn format_conversation(msgs: &Vec<Message>) -> (r: String)
    ensures
        r@ == transcript(crate::model::schema::views_of(msgs@)),
{
    let ghost views = crate::model::schema::views_of(msgs@);
    let mut s = String::new();
    let mut i: usize = 0;
    proof {
        assert(s@ =~= transcript(views.take(0)));
    }
    while i < msgs.len()
        invariant
            i <= msgs.len(),
            views == crate::model::schema::views_of(msgs@),
            views.len() == msgs.len(),
            s@ == transcript(views.take(i as int)),
        decreases msgs.len() - i,
    {
        push_message_line(&mut s, &msgs[i]);
        proof {
            let t1 = views.take(i + 1);
            assert(t1.last() == views[i as int]);
            assert(t1.drop_last() =~= views.take(i as int));
            assert(s@ =~= transcript(t1));
        }
        i += 1;
    }
    proof {
        assert(views.take(msgs.len() as int) =~= views);
    }
    s
}

} // verus!
