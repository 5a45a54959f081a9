use vstd::prelude::*;
use crate::schema::Output;
use crate::schema::Param;
use crate::schema::Remap;
use crate::strmap::StrMap;
use crate::util::opt_view;

verus! {

/// A fully-resolved executable launch record.
#[derive(Debug, PartialEq, Eq)]
pub struct ParsedExecutable {
    pub cmd: String,
    pub cwd: Option<String>,
    pub name: Option<String>,
    pub args: Option<String>,
    pub shell: Option<String>,
    pub launch_prefix: Option<String>,
    pub output: Option<Output>,
    pub env: StrMap,
}

/// A fully-resolved node launch record. The `pkg`/`exec` pair is kept raw
/// for the process supervisor to resolve at spawn time.
#[derive(Debug, PartialEq, Eq)]
pub struct ParsedNode {
    pub pkg: String,
    pub exec_name: String,
    pub name: Option<String>,
    pub ros_args: Option<String>,
    pub args: Option<String>,
    pub namespace: Option<String>,
    pub launch_prefix: Option<String>,
    pub output: Option<Output>,
    pub env: StrMap,
    pub param: Vec<Param>,
    pub remap: Vec<Remap>,
}

/// The flat output of a resolution run, in traversal order.
#[derive(Debug, PartialEq, Eq)]
pub struct LaunchProfile {
    pub execs: Vec<ParsedExecutable>,
    pub nodes: Vec<ParsedNode>,
}

/// Specification-level mirror of `Param`.
pub struct SpecParam {
    pub name: Option<Seq<char>>,
    pub from: Option<Seq<char>>,
    pub sep: Option<Seq<char>>,
    pub value: Seq<char>,
}

/// Specification-level mirror of `Remap`.
pub struct SpecRemap {
    pub from: Seq<char>,
    pub to: Seq<char>,
}

/// Specification-level mirror of `ParsedExecutable`.
pub struct SpecExecRecord {
    pub cmd: Seq<char>,
    pub cwd: Option<Seq<char>>,
    pub name: Option<Seq<char>>,
    pub args: Option<Seq<char>>,
    pub shell: Option<Seq<char>>,
    pub launch_prefix: Option<Seq<char>>,
    pub output: Option<Output>,
    pub env: Map<Seq<char>, Seq<char>>,
}

/// Specification-level mirror of `ParsedNode`.
pub struct SpecNodeRecord {
    pub pkg: Seq<char>,
    pub exec_name: Seq<char>,
    pub name: Option<Seq<char>>,
    pub ros_args: Option<Seq<char>>,
    pub args: Option<Seq<char>>,
    pub namespace: Option<Seq<char>>,
    pub launch_prefix: Option<Seq<char>>,
    pub output: Option<Output>,
    pub env: Map<Seq<char>, Seq<char>>,
    pub param: Seq<SpecParam>,
    pub remap: Seq<SpecRemap>,
}

impl View for Param {
    type V = SpecParam;

    open spec fn view(&self) -> SpecParam {
        SpecParam {
            name: opt_view(self.name),
            from: opt_view(self.from),
            sep: opt_view(self.sep),
            value: self.value@,
        }
    }
}

impl View for Remap {
    type V = SpecRemap;

    open spec fn view(&self) -> SpecRemap {
        SpecRemap { from: self.from@, to: self.to@ }
    }
}

impl View for ParsedExecutable {
    type V = SpecExecRecord;

    open spec fn view(&self) -> SpecExecRecord {
        SpecExecRecord {
            cmd: self.cmd@,
            cwd: opt_view(self.cwd),
            name: opt_view(self.name),
            args: opt_view(self.args),
            shell: opt_view(self.shell),
            launch_prefix: opt_view(self.launch_prefix),
            output: self.output,
            env: self.env@,
        }
    }
}

/// View of a sequence of parameters.
pub open spec fn params_view(v: Seq<Param>) -> Seq<SpecParam> {
    Seq::new(v.len(), |i: int| v[i]@)
}

/// View of a sequence of remappings.
pub open spec fn remaps_view(v: Seq<Remap>) -> Seq<SpecRemap> {
    Seq::new(v.len(), |i: int| v[i]@)
}

impl View for ParsedNode {
    type V = SpecNodeRecord;

    open spec fn view(&self) -> SpecNodeRecord {
        SpecNodeRecord {
            pkg: self.pkg@,
            exec_name: self.exec_name@,
            name: opt_view(self.name),
            ros_args: opt_view(self.ros_args),
            args: opt_view(self.args),
            namespace: opt_view(self.namespace),
            launch_prefix: opt_view(self.launch_prefix),
            output: self.output,
            env: self.env@,
            param: params_view(self.param@),
            remap: remaps_view(self.remap@),
        }
    }
}

/// View of a sequence of executable records.
pub open spec fn execs_view(v: Seq<ParsedExecutable>) -> Seq<SpecExecRecord> {
    Seq::new(v.len(), |i: int| v[i]@)
}

/// View of a sequence of node records.
pub open spec fn nodes_view(v: Seq<ParsedNode>) -> Seq<SpecNodeRecord> {
    Seq::new(v.len(), |i: int| v[i]@)
}

} // verus!
