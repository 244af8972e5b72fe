use vstd::prelude::*;

verus! {

/// One named parameter of a tool: its JSON type and a description.
#[derive(Debug)]
pub struct ToolParametersPropoerty {
    pub type_: String,
    pub description: String,
}

pub ghost struct ToolParametersPropoertyValue {
    pub type_: Seq<char>,
    pub description: Seq<char>,
}

impl View for ToolParametersPropoerty {
    type V = ToolParametersPropoertyValue;

    open spec fn view(&self) -> ToolParametersPropoertyValue {
        ToolParametersPropoertyValue { type_: self.type_@, description: self.description@ }
    }
}

/// The parameter schema of a tool: a JSON object type, its properties by
/// name, and which of them are required.
#[derive(Debug)]
pub struct ToolParameters {
    pub type_: String,
    pub properties: Vec<(String, ToolParametersPropoerty)>,
    pub reqiured: Vec<String>,
}

pub ghost struct ToolParametersValue {
    pub type_: Seq<char>,
    pub properties: Seq<(Seq<char>, ToolParametersPropoertyValue)>,
    pub reqiured: Seq<Seq<char>>,
}

impl View for ToolParameters {
    type V = ToolParametersValue;

    open spec fn view(&self) -> ToolParametersValue {
        ToolParametersValue {
            type_: self.type_@,
            properties: self.properties@.map_values(
                |p: (String, ToolParametersPropoerty)| (p.0@, p.1@),
            ),
            reqiured: self.reqiured.deep_view(),
        }
    }
}

/// The schema descriptor handed to the model for one tool.
#[derive(Debug)]
pub struct ToolSchema {
    pub name: String,
    pub description: String,
    pub parameters: ToolParameters,
}

pub ghost struct ToolSchemaValue {
    pub name: Seq<char>,
    pub description: Seq<char>,
    pub parameters: ToolParametersValue,
}

impl View for ToolSchema {
    type V = ToolSchemaValue;

    open spec fn view(&self) -> ToolSchemaValue {
        ToolSchemaValue {
            name: self.name@,
            description: self.description@,
            parameters: self.parameters@,
        }
    }
}

/// A callable tool capability. Implementations live outside the verified
/// library. Each implementation says through the spec members what its
/// accessors report, so that the registry's indexing can be stated; what
/// `execute` returns stays unconstrained, and a tool encodes its own
/// failures in its textual result.
pub trait Tool {
    /// The name the tool is dispatched under. The default stands for
    /// implementations that do not say what their accessors report.
    open spec fn name_spec(&self) -> Seq<char> {
        Seq::<char>::empty()
    }

    /// The JSON type of the tool's parameter object.
    open spec fn type_spec(&self) -> Seq<char> {
        Seq::<char>::empty()
    }

    /// A description of the tool for the model.
    open spec fn description_spec(&self) -> Seq<char> {
        Seq::<char>::empty()
    }

    /// The tool's parameter schema.
    open spec fn parameters_spec(&self) -> ToolParametersValue {
        ToolParametersValue {
            type_: Seq::<char>::empty(),
            properties: Seq::<(Seq<char>, ToolParametersPropoertyValue)>::empty(),
            reqiured: Seq::<Seq<char>>::empty(),
        }
    }

    /// The name the tool is dispatched under.
    fn name(&self) -> (r: String)
        ensures
            r@ == self.name_spec(),
    ;

    /// The JSON type of the tool's parameter object.
    fn type_(&self) -> (r: String)
        ensures
            r@ == self.type_spec(),
    ;

    /// A description of the tool for the model.
    fn description(&self) -> (r: String)
        ensures
            r@ == self.description_spec(),
    ;

    /// The tool's parameter schema.
    fn parameters(&self) -> (r: ToolParameters)
        ensures
            r@ == self.parameters_spec(),
    ;

    /// One-time setup before first use.
    fn init(&mut self);

    /// Run the tool on a raw textual argument payload.
    fn execute(&self, input: &str) -> String;
}

} // verus!
