use vstd::prelude::*;
use crate::errors::LaunchError;
use crate::util::str_eq;

verus! {

/// Root of a launch document: an ordered sequence of directives.
#[derive(Debug, PartialEq, Eq)]
pub struct Launch {
    pub children: Vec<LaunchChild>,
}

/// A directive that may appear directly under the document root.
#[derive(Debug, PartialEq, Eq)]
pub enum LaunchChild {
    Arg(LaunchArg),
    Let(Let),
    Executable(Executable),
    Node(Node),
    Group(Group),
    Include(Include),
    SetEnv(SetEnv),
    UnsetEnv(UnsetEnv),
}

/// Declaration of a caller-suppliable argument.
#[derive(Debug, Clone, PartialEq, Eq)]
pub struct LaunchArg {
    pub name: String,
    pub value: Option<String>,
    pub default: Option<String>,
    pub description: Option<String>,
}

/// An eager, unconditional, overriding variable binding.
#[derive(Debug, Clone, PartialEq, Eq)]
pub struct Let {
    pub name: String,
    pub value: String,
}

/// Recursive inclusion of another launch document.
#[derive(Debug, Clone, PartialEq, Eq)]
pub struct Include {
    pub file: String,
    pub if_cond: Option<String>,
    pub unless: Option<String>,
    pub arg: Vec<IncludeArg>,
}

/// An argument binding passed into an included document's root scope.
#[derive(Debug, Clone, PartialEq, Eq)]
pub struct IncludeArg {
    pub name: String,
    pub value: String,
}

/// A structured process-launch directive resolved through a package registry.
#[derive(Debug, Clone, PartialEq, Eq)]
pub struct Node {
    pub pkg: String,
    pub exec_name: String,
    pub name: Option<String>,
    pub ros_args: Option<String>,
    pub args: Option<String>,
    pub namespace: Option<String>,
    pub launch_prefix: Option<String>,
    pub output: Option<Output>,
    pub if_cond: Option<String>,
    pub unless: Option<String>,
    pub children: Vec<NodeChild>,
}

/// A child element of a `Node`.
#[derive(Debug, Clone, PartialEq, Eq)]
pub enum NodeChild {
    Env(Env),
    Param(Param),
    Remap(Remap),
}

/// A name remapping carried by a `Node`.
#[derive(Debug, Clone, PartialEq, Eq)]
pub struct Remap {
    pub from: String,
    pub to: String,
}

/// A parameter assignment carried by a `Node`.
#[derive(Debug, Clone, PartialEq, Eq)]
pub struct Param {
    pub name: Option<String>,
    pub from: Option<String>,
    pub sep: Option<String>,
    pub value: String,
}

/// A bare executable launch directive.
#[derive(Debug, Clone, PartialEq, Eq)]
pub struct Executable {
    pub cmd: String,
    pub cwd: Option<String>,
    pub name: Option<String>,
    pub args: Option<String>,
    pub shell: Option<String>,
    pub launch_prefix: Option<String>,
    pub output: Option<Output>,
    pub if_cond: Option<String>,
    pub unless: Option<String>,
    pub env: Vec<Env>,
}

/// A grouping directive; `scoped` groups isolate variable and environment
/// bindings made by their children.
#[derive(Debug, PartialEq, Eq)]
pub struct Group {
    pub scoped: Option<bool>,
    pub if_cond: Option<String>,
    pub unless: Option<String>,
    pub children: Vec<GroupChild>,
}

/// A directive that may appear inside a `Group`.
#[derive(Debug, PartialEq, Eq)]
pub enum GroupChild {
    Executable(Executable),
    Node(Node),
    Group(Group),
    Include(Include),
    SetEnv(SetEnv),
    UnsetEnv(UnsetEnv),
}

/// Conditional upsert into the active environment overlay.
#[derive(Debug, Clone, PartialEq, Eq)]
pub struct SetEnv {
    pub name: String,
    pub value: String,
    pub if_cond: Option<String>,
    pub unless: Option<String>,
}

/// Conditional removal from the active environment overlay.
#[derive(Debug, Clone, PartialEq, Eq)]
pub struct UnsetEnv {
    pub name: String,
    pub if_cond: Option<String>,
    pub unless: Option<String>,
}

/// One environment entry attached to an `Executable` or a `Node`.
#[derive(Debug, Clone, PartialEq, Eq)]
pub struct Env {
    pub name: String,
    pub value: String,
}

/// Output stream selection for a resolved launch record.
#[derive(Debug, Clone, Copy, PartialEq, Eq, Structural)]
pub enum Output {
    Log,
    Screen,
}

impl Output {
    /// Parse the textual form of an `output` attribute.
    pub fn from_str(s: &str) -> (r: Result<Output, LaunchError>)
        ensures
            s@ == "log"@ ==> r == Result::<Output, LaunchError>::Ok(Output::Log),
            s@ == "screen"@ ==> r == Result::<Output, LaunchError>::Ok(Output::Screen),
            s@ != "log"@ && s@ != "screen"@ ==> (r matches Result::Err(e) && e@
                == crate::errors::SpecErr::SchemaError { text: s@ }),
    {
        proof {
            reveal_strlit("log");
            reveal_strlit("screen");
            assert("log"@.len() == 3);
            assert("screen"@.len() == 6);
            assert("log"@ != "screen"@);
        }
        if str_eq(s, "log") {
            Result::Ok(Output::Log)
        } else if str_eq(s, "screen") {
            Result::Ok(Output::Screen)
        } else {
            Result::Err(LaunchError::SchemaError { text: s.to_owned() })
        }
    }

    /// Textual form of this value, as it appears in a document.
    pub fn to_text(&self) -> (r: &'static str)
        ensures
            *self is Log ==> r@ == "log"@,
            *self is Screen ==> r@ == "screen"@,
    {
        match self {
            Output::Log => "log",
            Output::Screen => "screen",
        }
    }
}

} // verus!
