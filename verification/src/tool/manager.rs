use vstd::prelude::*;
use crate::model::schema::{tool_call_rendered, ToolCall, ToolCallValue};
use crate::tool::base::{Tool, ToolSchema, ToolSchemaValue};

verus! {

/// A name-indexed catalog of tools. Each tool's name is captured once at
/// registration, and every later lookup goes by the captured names, kept
/// index-aligned with the tools.
pub struct ToolManager<T: Tool> {
    pub names: Vec<String>,
    pub tools: Vec<T>,
}

/// String equality, decided by contents.
fn str_equal(a: &String, b: &String) -> (r: bool)
    ensures
        r == (a@ == b@),
{
    a.eq(b)
}

/// `t` is the last tool among the first `upto` of `input` that reports
/// the name `nm`.
pub open spec fn last_with_name<T: Tool>(input: Seq<T>, upto: int, nm: Seq<char>, t: T) -> bool {
    exists|j: int|
        0 <= j < upto && (#[trigger] input[j]) == t && input[j].name_spec() == nm && (forall|
            j2: int,
        |
            j < j2 < upto ==> (#[trigger] input[j2]).name_spec() != nm)
}

/// The views of a sequence of schema descriptors.
pub open spec fn views_of_schemas(s: Seq<ToolSchema>) -> Seq<ToolSchemaValue> {
    s.map_values(|x: ToolSchema| x@)
}

impl<T: Tool> ToolManager<T> {
    /// Captured names and tools stay aligned, and no name is registered
    /// twice.
    pub open spec fn wf(&self) -> bool {
        &&& self.names@.len() == self.tools@.len()
        &&& forall|i: int, j: int|
            0 <= i < j < self.names@.len() ==> self.names@[i]@ != self.names@[j]@
    }

    /// A tool is registered under this name.
    pub open spec fn contains_name(&self, n: Seq<char>) -> bool {
        exists|i: int| 0 <= i < self.names@.len() && (#[trigger] self.names@[i])@ == n
    }

    /// The index a name is registered at (meaningful when it is).
    pub open spec fn name_index(&self, n: Seq<char>) -> int {
        choose|i: int| 0 <= i < self.names@.len() && (#[trigger] self.names@[i])@ == n
    }

    /// The tool registered under `n` (meaningful when one is).
    pub open spec fn tool_at(&self, n: Seq<char>) -> T {
        self.tools@[self.name_index(n)]
    }

    /// The schema descriptor a tool reports.
    pub open spec fn schema_of_tool(t: T) -> ToolSchemaValue {
        ToolSchemaValue {
            name: t.name_spec(),
            description: t.description_spec(),
            parameters: t.parameters_spec(),
        }
    }

    /// The descriptors emitted for a request: one per requested name that
    /// is registered, in request order, each built from the registered
    /// tool under that name.
    pub open spec fn schemas_for(&self, req: Seq<Seq<char>>) -> Seq<ToolSchemaValue>
        decreases req.len(),
    {
        if req.len() == 0 {
            Seq::<ToolSchemaValue>::empty()
        } else {
            self.schemas_for(req.drop_last()) + (if self.contains_name(req.last()) {
                seq![Self::schema_of_tool(self.tool_at(req.last()))]
            } else {
                Seq::<ToolSchemaValue>::empty()
            })
        }
    }

    /// Under uniqueness of names, an index that carries `n` is the index
    /// `n` is registered at.
    pub proof fn lemma_name_index(&self, n: Seq<char>, i: int)
        requires
            self.wf(),
            0 <= i < self.names@.len(),
            self.names@[i]@ == n,
        ensures
            self.contains_name(n),
            self.name_index(n) == i,
    {
        assert(exists|k: int| 0 <= k < self.names@.len() && (#[trigger] self.names@[k])@ == n) by {
            assert((self.names@[i])@ == n);
        }
        let w = self.name_index(n);
        assert(0 <= w < self.names@.len() && (self.names@[w])@ == n);
        if w != i {
            assert(self.names@[if w < i {
                w
            } else {
                i
            }]@ != self.names@[if w < i {
                i
            } else {
                w
            }]@);
        }
    }

    /// The index a name is registered at.
    fn index_of(&self, name: &String) -> (r: Option<usize>)
        ensures
            match r {
                Some(i) => i < self.names@.len() && self.names@[i as int]@ == name@,
                None => !self.contains_name(name@),
            },
    {
        let mut i: usize = 0;
        while i < self.names.len()
            invariant
                i <= self.names@.len(),
                forall|j: int| 0 <= j < i ==> (#[trigger] self.names@[j])@ != name@,
            decreases self.names@.len() - i,
        {
            if str_equal(&self.names[i], name) {
                return Some(i);
            }
            i += 1;
        }
        None
    }

    /// Index the tools by name: every input tool ends up registered under
    /// the name it reports, each registered slot holds the last input tool
    /// reporting that slot's name, and no name is registered twice.
    pub fn new(tools: Vec<T>) -> (r: Self)
        ensures
            r.wf(),
            forall|j: int|
                0 <= j < tools@.len() ==> r.contains_name((#[trigger] tools@[j]).name_spec()),
            forall|i: int|
                0 <= i < r.names@.len() ==> (#[trigger] r.names@[i])@ == r.tools@[i].name_spec()
                    && last_with_name(tools@, tools@.len() as int, r.names@[i]@, r.tools@[i]),
    {
        let ghost input = tools@;
        let mut r: ToolManager<T> = ToolManager { names: Vec::new(), tools: Vec::new() };
        let mut rest = tools;
        while rest.len() > 0
            invariant
                rest@.len() <= input.len(),
                rest@ == input.skip(input.len() - rest@.len()),
                r.wf(),
                forall|j: int|
                    0 <= j < input.len() - rest@.len() ==> r.contains_name(
                        (#[trigger] input[j]).name_spec(),
                    ),
                forall|i: int|
                    0 <= i < r.names@.len() ==> (#[trigger] r.names@[i])@
                        == r.tools@[i].name_spec() && last_with_name(
                        input,
                        input.len() - rest@.len(),
                        r.names@[i]@,
                        r.tools@[i],
                    ),
            decreases rest@.len(),
        {
            let ghost p = input.len() - rest@.len();
            let ghost pre = r;
            let tool = rest.remove(0);
            proof {
                assert(input.skip(p as int)[0] == input[p as int]);
                assert(input.skip(p as int).remove(0) =~= input.skip(p + 1));
                assert(rest@ == input.skip(input.len() - rest@.len()));
            }
            let name = tool.name();
            match r.index_of(&name) {
                Some(i) => {
                    // last registration wins: replace the tool in place
                    r.tools.set(i, tool);
                    proof {
                        assert forall|i2: int|
                            0 <= i2 < r.names@.len() implies (#[trigger] r.names@[i2])@
                            == r.tools@[i2].name_spec() && last_with_name(
                            input,
                            p + 1,
                            r.names@[i2]@,
                            r.tools@[i2],
                        ) by {
                            if i2 == i {
                                assert(r.tools@[i2] == input[p as int]);
                                assert(0 <= p < p + 1 && input[p as int] == r.tools@[i2]
                                    && input[p as int].name_spec() == r.names@[i2]@ && (forall|
                                    j2: int,
                                |
                                    p < j2 < p + 1 ==> (#[trigger] input[j2]).name_spec()
                                        != r.names@[i2]@));
                            } else {
                                assert(r.names@[i2]@ != r.names@[i as int]@);
                                assert(last_with_name(input, p, pre.names@[i2]@, pre.tools@[i2]));
                                let j = choose|j: int|
                                    0 <= j < p && (#[trigger] input[j]) == pre.tools@[i2]
                                        && input[j].name_spec() == pre.names@[i2]@ && (forall|
                                        j2: int,
                                    |
                                        j < j2 < p ==> (#[trigger] input[j2]).name_spec()
                                            != pre.names@[i2]@);
                                assert(0 <= j < p + 1 && input[j] == r.tools@[i2]
                                    && input[j].name_spec() == r.names@[i2]@ && (forall|j2: int|
                                    j < j2 < p + 1 ==> (#[trigger] input[j2]).name_spec()
                                        != r.names@[i2]@));
                            }
                        }
                        assert forall|j: int|
                            0 <= j < p + 1 implies r.contains_name(
                            (#[trigger] input[j]).name_spec(),
                        ) by {
                            if j == p {
                                assert(r.names@[i as int]@ == input[p as int].name_spec());
                            }
                        }
                    }
                },
                None => {
                    let ghost pre_names = r.names@;
                    r.names.push(name);
                    r.tools.push(tool);
                    proof {
                        assert forall|i2: int, j2: int|
                            0 <= i2 < j2 < r.names@.len() implies r.names@[i2]@
                            != r.names@[j2]@ by {
                            if j2 < r.names@.len() - 1 {
                                assert(r.names@[i2] == pre_names[i2]);
                            } else {
                                assert(pre_names[i2]@ != r.names@[j2]@);
                            }
                        }
                        assert forall|i2: int|
                            0 <= i2 < r.names@.len() implies (#[trigger] r.names@[i2])@
                            == r.tools@[i2].name_spec() && last_with_name(
                            input,
                            p + 1,
                            r.names@[i2]@,
                            r.tools@[i2],
                        ) by {
                            if i2 == r.names@.len() - 1 {
                                assert(r.tools@[i2] == input[p as int]);
                                assert(0 <= p < p + 1 && input[p as int] == r.tools@[i2]
                                    && input[p as int].name_spec() == r.names@[i2]@ && (forall|
                                    j2: int,
                                |
                                    p < j2 < p + 1 ==> (#[trigger] input[j2]).name_spec()
                                        != r.names@[i2]@));
                            } else {
                                assert(r.names@[i2] == pre.names@[i2]);
                                assert(r.tools@[i2] == pre.tools@[i2]);
                                assert(pre.names@[i2]@ != input[p as int].name_spec());
                                assert(last_with_name(input, p, pre.names@[i2]@, pre.tools@[i2]));
                                let j = choose|j: int|
                                    0 <= j < p && (#[trigger] input[j]) == pre.tools@[i2]
                                        && input[j].name_spec() == pre.names@[i2]@ && (forall|
                                        j2: int,
                                    |
                                        j < j2 < p ==> (#[trigger] input[j2]).name_spec()
                                            != pre.names@[i2]@);
                                assert(0 <= j < p + 1 && input[j] == r.tools@[i2]
                                    && input[j].name_spec() == r.names@[i2]@ && (forall|j2: int|
                                    j < j2 < p + 1 ==> (#[trigger] input[j2]).name_spec()
                                        != r.names@[i2]@));
                            }
                        }
                        assert forall|j: int|
                            0 <= j < p + 1 implies r.contains_name(
                            (#[trigger] input[j]).name_spec(),
                        ) by {
                            if j < p {
                                let w = choose|w: int|
                                    0 <= w < pre_names.len() && (#[trigger] pre_names[w])@
                                        == input[j].name_spec();
                                assert(r.names@[w] == pre_names[w]);
                            } else {
                                assert(r.names@[r.names@.len() - 1]@ == input[p as int].name_spec());
                            }
                        }
                    }
                },
            }
        }
        proof {
            assert(input.len() - rest@.len() == input.len());
        }
        r
    }

    /// The registered names, in registration order.
    pub fn get_tool_names(&self) -> (r: Vec<String>)
        ensures
            r@ == self.names@,
    {
        self.names.clone()
    }

    /// The tool registered under `name`, if any.
    pub fn get_tool(&self, name: &str) -> (r: Option<&T>)
        requires
            self.wf(),
        ensures
            (r is Some) == self.contains_name(name@),
    {
        let key = name.to_owned();
        match self.index_of(&key) {
            Some(i) => Some(&self.tools[i]),
            None => None,
        }
    }

    /// Schema descriptors for the requested names that are registered, in
    /// request order, each built from the registered tool's accessors;
    /// unknown names are silently skipped.
    pub fn get_schema(&self, names: &Vec<String>) -> (r: Vec<ToolSchema>)
        requires
            self.wf(),
        ensures
            views_of_schemas(r@) == self.schemas_for(names.deep_view()),
    {
        let ghost req = names.deep_view();
        let mut schemas: Vec<ToolSchema> = Vec::new();
        let mut i: usize = 0;
        proof {
            assert(req.take(0) =~= Seq::<Seq<char>>::empty());
            assert(views_of_schemas(schemas@) =~= self.schemas_for(req.take(0)));
        }
        while i < names.len()
            invariant
                self.wf(),
                i <= names.len(),
                req == names.deep_view(),
                req.len() == names.len(),
                views_of_schemas(schemas@) == self.schemas_for(req.take(i as int)),
            decreases names.len() - i,
        {
            match self.index_of(&names[i]) {
                Some(t) => {
                    let s = Self::tool_to_schema(&self.tools[t]);
                    schemas.push(s);
                    proof {
                        self.lemma_name_index(req[i as int], t as int);
                        assert(self.tool_at(req[i as int]) == self.tools@[t as int]);
                    }
                },
                None => {},
            }
            proof {
                let t1 = req.take(i + 1);
                assert(t1.drop_last() =~= req.take(i as int));
                assert(t1.last() == req[i as int]);
                assert(req[i as int] == names@[i as int]@);
                assert(views_of_schemas(schemas@) =~= self.schemas_for(t1));
            }
            i += 1;
        }
        proof {
            assert(req.take(names.len() as int) =~= req);
        }
        schemas
    }

    /// Run the tool registered under `tool_name` on the raw argument
    /// payload; nothing comes back exactly when no tool is registered
    /// under that name.
    pub fn execute_tool(&self, tool_name: &str, arguments: &str) -> (r: Option<String>)
        requires
            self.wf(),
        ensures
            (r is Some) == self.contains_name(tool_name@),
    {
        let key = tool_name.to_owned();
        match self.index_of(&key) {
            Some(i) => Some(self.tools[i].execute(arguments)),
            None => None,
        }
    }

    /// Serialize tool-call records to text for logging and memory
    /// embedding.
    pub fn format_tool_calls(&self, tool_calls: &Vec<ToolCall>) -> (r: Vec<String>)
        ensures
            r.deep_view() == crate::model::schema::views_of_calls(tool_calls@).map_values(
                |c: ToolCallValue| tool_call_rendered(c),
            ),
    {
        let ghost expected = crate::model::schema::views_of_calls(tool_calls@).map_values(
            |c: ToolCallValue| tool_call_rendered(c),
        );
        let mut out: Vec<String> = Vec::new();
        let mut i: usize = 0;
        while i < tool_calls.len()
            invariant
                i <= tool_calls.len(),
                expected == crate::model::schema::views_of_calls(tool_calls@).map_values(
                    |c: ToolCallValue| tool_call_rendered(c),
                ),
                expected.len() == tool_calls.len(),
                out@.len() == i,
                forall|j: int| 0 <= j < i ==> out@[j]@ == expected[j],
            decreases tool_calls.len() - i,
        {
            let line = tool_calls[i].render();
            out.push(line);
            i += 1;
        }
        proof {
            assert(out.deep_view() =~= expected);
        }
        out
    }

    /// Forget every registered tool.
    pub fn clear(&mut self)
        ensures
            final(self).names@ == Seq::<String>::empty(),
            final(self).tools@ == Seq::<T>::empty(),
            final(self).wf(),
    {
        self.names.clear();
        self.tools.clear();
    }

    /// The schema descriptor for one tool, built from its accessors.
    pub fn tool_to_schema(tool: &T) -> (r: ToolSchema)
        ensures
            r@ == Self::schema_of_tool(*tool),
    {
        ToolSchema {
            name: tool.name(),
            description: tool.description(),
            parameters: tool.parameters(),
        }
    }
}

} // verus!
