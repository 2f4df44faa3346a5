//! The tools through which the model steers the task tree.

use crate::coordinator::{NodeKind, SpineCoordinator};
use crate::text::same_text;
use vstd::prelude::*;

verus! {

use crate::shapes::text_view;

/// The namespace of the tools.
pub const SPINE_NAMESPACE: &'static str = "spine";

/// What a spawn call is answered once its branches have ended.
pub const SPAWN_SUCCESS: &'static str = "{\"status\":\"success\"}";

/// A tool of the task tree.
#[derive(Clone, Copy, Debug, PartialEq, Eq, Structural)]
pub enum SpineTool {
    Open,
    Close,
    Next,
    Spawn,
}

/// The name of a tool in its namespace.
pub open spec fn tool_text(tool: SpineTool) -> Seq<char> {
    match tool {
        SpineTool::Open => "open"@,
        SpineTool::Close => "close"@,
        SpineTool::Next => "next"@,
        SpineTool::Spawn => "spawn"@,
    }
}

impl SpineTool {
    pub fn name(self) -> (r: &'static str)
        ensures
            r@ == tool_text(self),
    {
        match self {
            SpineTool::Open => "open",
            SpineTool::Close => "close",
            SpineTool::Next => "next",
            SpineTool::Spawn => "spawn",
        }
    }

    /// The tool's name with its namespace.
    pub fn qualified_name(self) -> (r: String)
        ensures
            r@ == SPINE_NAMESPACE@ + "."@ + tool_text(self),
    {
        let mut name = String::from_str(SPINE_NAMESPACE);
        name.append(".");
        name.append(self.name());
        name
    }
}

/// Whether a name is that of a tool.
pub open spec fn names_tool(name: Seq<char>) -> bool {
    name == "open"@ || name == "close"@ || name == "next"@ || name == "spawn"@
}

/// Whether a tool call is one of these tools.
pub fn is_spine_tool(namespace: &Option<String>, name: &str) -> (r: bool)
    ensures
        r == (text_view(*namespace) == Some(SPINE_NAMESPACE@) && names_tool(name@)),
{
    let spine = match namespace {
        Some(namespace) => same_text(namespace.as_str(), SPINE_NAMESPACE),
        None => false,
    };
    spine && (same_text(name, "open") || same_text(name, "close") || same_text(name, "next")
        || same_text(name, "spawn"))
}

/// What a valid request to a tool asks for.
#[derive(Debug, PartialEq, Eq)]
#[allow(inconsistent_fields)]
pub enum ToolValidation {
    Open { summary: String },
    Close { memory: String },
    Next { summary: String, memory: String },
    Spawn,
    /// Nothing that concerns the task tree.
    Ordinary,
}

/// Why a request to a tool is not valid.
#[derive(Debug, PartialEq, Eq)]
pub enum ToolValidationError {
    InvalidJson(String),
    EmptyField(String),
    UnknownTool(String),
    /// Any other reason, in words.
    Other(String),
}

/// A change of the task tree.
#[derive(Debug, PartialEq, Eq)]
#[allow(inconsistent_fields)]
pub enum SpineOperationFact {
    Open { summary: String },
    Close { memory: String },
    Next { closed_memory: String, next_summary: String },
}

/// The change that a control asks for.
pub fn validated_control_fact(
    tool: SpineTool,
    validated: Result<ToolValidation, ToolValidationError>,
) -> (r: Result<SpineOperationFact, ToolValidationError>)
    ensures
        match validated {
            Err(error) => r == Err::<SpineOperationFact, ToolValidationError>(error),
            Ok(ToolValidation::Open { summary }) => r == Ok::<
                SpineOperationFact,
                ToolValidationError,
            >(SpineOperationFact::Open { summary }),
            Ok(ToolValidation::Close { memory }) => r == Ok::<
                SpineOperationFact,
                ToolValidationError,
            >(SpineOperationFact::Close { memory }),
            Ok(ToolValidation::Next { summary, memory }) => r == Ok::<
                SpineOperationFact,
                ToolValidationError,
            >(SpineOperationFact::Next { closed_memory: memory, next_summary: summary }),
            Ok(_) => r matches Err(ToolValidationError::UnknownTool(name)) && name@
                == SPINE_NAMESPACE@ + "."@ + tool_text(tool),
        },
{
    match validated {
        Err(error) => Err(error),
        Ok(ToolValidation::Open { summary }) => Ok(SpineOperationFact::Open { summary }),
        Ok(ToolValidation::Close { memory }) => Ok(SpineOperationFact::Close { memory }),
        Ok(ToolValidation::Next { summary, memory }) => Ok(
            SpineOperationFact::Next { closed_memory: memory, next_summary: summary },
        ),
        Ok(ToolValidation::Spawn) => Err(ToolValidationError::UnknownTool(tool.qualified_name())),
        Ok(ToolValidation::Ordinary) => Err(
            ToolValidationError::UnknownTool(tool.qualified_name()),
        ),
    }
}

/// What the model is told of a request that is not valid. `described` is the
/// error in the words of the tool contract.
pub open spec fn refusal_text(
    tool: SpineTool,
    error: ToolValidationError,
    described: Seq<char>,
) -> Seq<char> {
    match error {
        ToolValidationError::InvalidJson(error) => "failed to parse function arguments: "@ + error@,
        ToolValidationError::EmptyField(_) => tool_text(tool) + " requires a non-empty argument"@,
        _ => described,
    }
}

pub fn control_refusal(tool: SpineTool, error: &ToolValidationError, described: &str) -> (r: String)
    ensures
        r@ == refusal_text(tool, *error, described@),
{
    match error {
        ToolValidationError::InvalidJson(error) => {
            let mut message = String::from_str("failed to parse function arguments: ");
            message.append(error.as_str());
            message
        },
        ToolValidationError::EmptyField(_) => {
            let mut message = String::from_str(tool.name());
            message.append(" requires a non-empty argument");
            message
        },
        _ => described.to_owned(),
    }
}

/// The mode that a turn is in.
#[derive(Clone, Copy, Debug, PartialEq, Eq, Structural)]
pub enum ModeKind {
    Plan,
    Default,
    Other,
}

/// The tools that a mode offers: in plan mode all but the one that spawns.
pub open spec fn offered(definitions: Seq<SpineTool>, mode: ModeKind) -> Seq<SpineTool> {
    definitions.filter(|tool: SpineTool| !(mode == ModeKind::Plan && tool == SpineTool::Spawn))
}

/// The tools that a mode offers, in the order of the catalog.
pub fn add_tools(definitions: &Vec<SpineTool>, mode: ModeKind) -> (r: Vec<SpineTool>)
    ensures
        r@ == offered(definitions@, mode),
{
    let ghost keep = |tool: SpineTool| !(mode == ModeKind::Plan && tool == SpineTool::Spawn);
    let mut tools: Vec<SpineTool> = Vec::new();
    let mut i: usize = 0;
    proof {
        reveal(Seq::filter);
        assert(definitions@.take(0) =~= Seq::empty());
        assert(tools@ =~= definitions@.take(0).filter(keep));
    }
    while i < definitions.len()
        invariant
            i <= definitions@.len(),
            keep == (|tool: SpineTool| !(mode == ModeKind::Plan && tool == SpineTool::Spawn)),
            tools@ == definitions@.take(i as int).filter(keep),
        decreases definitions@.len() - i,
    {
        proof {
            reveal(Seq::filter);
            let upto = definitions@.take(i + 1);
            assert(upto.drop_last() =~= definitions@.take(i as int));
            assert(upto.last() == definitions@[i as int]);
        }
        if !(mode == ModeKind::Plan && definitions[i] == SpineTool::Spawn) {
            tools.push(definitions[i]);
        }
        i = i + 1;
    }
    assert(definitions@.take(i as int) =~= definitions@);
    tools
}

/// Whether a cancelled call is waited for.
pub fn waits_for_runtime_cancellation(tool: SpineTool) -> (r: bool)
    ensures
        r == (tool == SpineTool::Spawn),
{
    tool == SpineTool::Spawn
}

/// Refuses a call in plan mode, and one that is no function call.
pub fn check_call(mode: ModeKind, is_function: bool) -> (r: Result<(), String>)
    ensures
        match r {
            Ok(()) => mode != ModeKind::Plan && is_function,
            Err(message) => if mode == ModeKind::Plan {
                message@ == "Spine transitions are not allowed in Plan mode"@
            } else {
                !is_function && message@ == "Spine handler received unsupported payload"@
            },
        },
{
    if mode == ModeKind::Plan {
        return Err("Spine transitions are not allowed in Plan mode".to_owned());
    }
    if !is_function {
        return Err("Spine handler received unsupported payload".to_owned());
    }
    Ok(())
}

/// The change that a control call stages, or what the model is told: first that
/// the request is not valid, then that the session has no task tree, then that
/// the tree does not allow it.
pub fn decide_control(
    tool: SpineTool,
    validated: Result<ToolValidation, ToolValidationError>,
    described: &str,
    coordinator: Option<&SpineCoordinator>,
    cursor: Option<NodeKind>,
) -> (r: Result<SpineOperationFact, String>)
    ensures
        match validated {
            Err(error) => r matches Err(message) && message@ == refusal_text(
                tool,
                error,
                described@,
            ),
            Ok(ToolValidation::Spawn) | Ok(ToolValidation::Ordinary) => r matches Err(message)
                && message@ == described@,
            Ok(request) => match coordinator {
                None => r matches Err(message) && message@
                    == "Spine is not enabled for this session"@,
                Some(c) => if c@.fault is Some {
                    r matches Err(message) && message@ == "Spine durability is faulted: "@
                        + c@.fault->Some_0
                } else if (tool == SpineTool::Close || tool == SpineTool::Next) && cursor is None {
                    r matches Err(message) && message@
                        == "Spine cursor is missing from the derived tree"@
                } else if (tool == SpineTool::Close || tool == SpineTool::Next) && cursor == Some(
                    NodeKind::RootEpoch,
                ) {
                    r matches Err(message) && message@
                        == "no open Spine node is available to close"@
                } else {
                    match request {
                        ToolValidation::Open { summary } => r == Ok::<SpineOperationFact, String>(
                            SpineOperationFact::Open { summary },
                        ),
                        ToolValidation::Close { memory } => r == Ok::<SpineOperationFact, String>(
                            SpineOperationFact::Close { memory },
                        ),
                        ToolValidation::Next { summary, memory } => r == Ok::<
                            SpineOperationFact,
                            String,
                        >(SpineOperationFact::Next { closed_memory: memory, next_summary: summary }),
                        _ => true,
                    }
                },
            },
        },
{
    let fact = match validated_control_fact(tool, validated) {
        Err(error) => {
            return Err(control_refusal(tool, &error, described));
        },
        Ok(fact) => fact,
    };
    match coordinator {
        None => Err("Spine is not enabled for this session".to_owned()),
        Some(coordinator) => match coordinator.validate_control(tool, cursor) {
            Ok(()) => Ok(fact),
            Err(message) => Err(message),
        },
    }
}

/// Plan mode takes away the spawning tool, and nothing else.
pub proof fn plan_mode_withholds_only_spawn(definitions: Seq<SpineTool>, tool: SpineTool)
    ensures
        offered(definitions, ModeKind::Default) == definitions,
        offered(definitions, ModeKind::Plan).contains(tool) <==> definitions.contains(tool) && tool
            != SpineTool::Spawn,
    decreases definitions.len(),
{
    reveal(Seq::filter);
    if definitions.len() > 0 {
        let rest = definitions.drop_last();
        let last = definitions.last();
        plan_mode_withholds_only_spawn(rest, tool);
        let before = offered(rest, ModeKind::Plan);
        let after = offered(definitions, ModeKind::Plan);
        assert(rest.push(last) =~= definitions);
        assert(definitions.contains(tool) <==> rest.contains(tool) || tool == last) by {
            if rest.contains(tool) {
                let k = choose|k: int| 0 <= k < rest.len() && rest[k] == tool;
                assert(definitions[k] == tool);
            }
            if tool == last {
                assert(definitions[definitions.len() - 1] == tool);
            }
            if definitions.contains(tool) && tool != last {
                let k = choose|k: int| 0 <= k < definitions.len() && definitions[k] == tool;
                assert(rest[k] == tool);
            }
        }
        if last != SpineTool::Spawn {
            assert(after == before.push(last));
            assert(after.contains(tool) <==> before.contains(tool) || tool == last) by {
                if before.contains(tool) {
                    let k = choose|k: int| 0 <= k < before.len() && before[k] == tool;
                    assert(after[k] == tool);
                }
                if tool == last {
                    assert(after[after.len() - 1] == tool);
                }
                if after.contains(tool) && tool != last {
                    let k = choose|k: int| 0 <= k < after.len() && after[k] == tool;
                    assert(before[k] == tool);
                }
            }
        }
    }
}

/// The names of the tools, and of nothing else, are names of tools.
pub proof fn every_tool_has_its_name(tool: SpineTool, name: Seq<char>)
    ensures
        tool_text(SpineTool::Open) == seq!['o', 'p', 'e', 'n'],
        tool_text(SpineTool::Close) == seq!['c', 'l', 'o', 's', 'e'],
        tool_text(SpineTool::Next) == seq!['n', 'e', 'x', 't'],
        tool_text(SpineTool::Spawn) == seq!['s', 'p', 'a', 'w', 'n'],
        names_tool(tool_text(tool)),
        names_tool(name) ==> name == tool_text(SpineTool::Open) || name == tool_text(
            SpineTool::Close,
        ) || name == tool_text(SpineTool::Next) || name == tool_text(SpineTool::Spawn),
{
    reveal_strlit("open");
    reveal_strlit("close");
    reveal_strlit("next");
    reveal_strlit("spawn");
    assert("open"@ =~= seq!['o', 'p', 'e', 'n']);
    assert("close"@ =~= seq!['c', 'l', 'o', 's', 'e']);
    assert("next"@ =~= seq!['n', 'e', 'x', 't']);
    assert("spawn"@ =~= seq!['s', 'p', 'a', 'w', 'n']);
}

/// Two tools never share a name.
pub proof fn names_tell_tools_apart(a: SpineTool, b: SpineTool)
    ensures
        tool_text(a) == tool_text(b) ==> a == b,
{
    every_tool_has_its_name(a, tool_text(a));
    every_tool_has_its_name(b, tool_text(b));
    assert(tool_text(a)[0] == tool_text(b)[0] ==> a == b);
}

/// A refusal repeats what is wrong with arguments that are no JSON, names the
/// tool that was given an empty argument, and else is the contract's own text.
pub proof fn a_refusal_says_what_is_wrong(
    tool: SpineTool,
    error: ToolValidationError,
    described: Seq<char>,
)
    ensures
        match error {
            ToolValidationError::InvalidJson(words) => refusal_text(tool, error, described)
                == "failed to parse function arguments: "@ + words@,
            ToolValidationError::EmptyField(_) => refusal_text(tool, error, described) == tool_text(
                tool,
            ) + " requires a non-empty argument"@,
            ToolValidationError::UnknownTool(_) => refusal_text(tool, error, described) == described,
            ToolValidationError::Other(_) => refusal_text(tool, error, described) == described,
        },
{
}

} // verus!
