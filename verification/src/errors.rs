use vstd::prelude::*;
use crate::util::strs_view;

verus! {

/// Specification-level mirror of `LaunchError`, phrased over character
/// sequences so that the specification interpreter can build error values.
pub enum SpecErr {
    Syntax { at: int },
    SchemaError { text: Seq<char> },
    MissingRequiredArg { name: Seq<char> },
    UndeclaredVariable { name: Seq<char> },
    UnsetEnvironmentVariable { name: Seq<char> },
    UnknownSubstitutionCommand { command: Seq<char>, args: Seq<Seq<char>> },
    InvalidBooleanLiteral { text: Seq<char> },
    InvalidExpression { expr: Seq<char> },
    UnsupportedFileFormat { path: Seq<char> },
    DocumentNotLoaded { path: Seq<char> },
    PackageNotFound { name: Seq<char> },
    DuplicatePackageName { name: Seq<char>, first: Seq<char>, second: Seq<char> },
    RecursionLimitExceeded,
}

/// An error raised while parsing substitutions or resolving a launch tree.
///
/// Resolution is fail-fast: the first error aborts the whole run and no
/// partial profile is returned.
#[derive(Debug, Clone, PartialEq, Eq)]
pub enum LaunchError {
    /// The substitution grammar was violated at character position `at`.
    Syntax { at: usize },
    /// A document attribute holds a value outside its closed vocabulary.
    SchemaError { text: String },
    /// An `arg` declaration with neither `value` nor `default` had no
    /// caller-supplied binding.
    MissingRequiredArg { name: String },
    /// `$(arg NAME)` named a variable bound in no visible scope.
    UndeclaredVariable { name: String },
    /// `$(env VAR)` (or `$(optenv VAR)` without default) named an unset
    /// environment variable.
    UnsetEnvironmentVariable { name: String },
    /// A substitution call used a command outside the known vocabulary.
    UnknownSubstitutionCommand { command: String, args: Vec<String> },
    /// A conditional guard evaluated to something other than `true`/`false`.
    InvalidBooleanLiteral { text: String },
    /// `$(eval EXPR)` could not evaluate its expression.
    InvalidExpression { expr: String },
    /// A document path ended neither in `.xml` nor in `.yaml`.
    UnsupportedFileFormat { path: String },
    /// A document named by an `Include` directive is not in the supplied set.
    DocumentNotLoaded { path: String },
    /// `$(find PKG)` named a package unknown to the registry.
    PackageNotFound { name: String },
    /// Two package manifests carry the same package name.
    DuplicatePackageName { name: String, first: String, second: String },
    /// The inclusion nesting exceeded the caller-supplied depth budget.
    RecursionLimitExceeded,
}

impl View for LaunchError {
    type V = SpecErr;

    open spec fn view(&self) -> SpecErr {
        match self {
            LaunchError::Syntax { at } => SpecErr::Syntax { at: *at as int },
            LaunchError::SchemaError { text } => SpecErr::SchemaError { text: text@ },
            LaunchError::MissingRequiredArg { name } => SpecErr::MissingRequiredArg { name: name@ },
            LaunchError::UndeclaredVariable { name } => SpecErr::UndeclaredVariable { name: name@ },
            LaunchError::UnsetEnvironmentVariable { name } => SpecErr::UnsetEnvironmentVariable {
                name: name@,
            },
            LaunchError::UnknownSubstitutionCommand { command, args } => {
                SpecErr::UnknownSubstitutionCommand { command: command@, args: strs_view(args@) }
            },
            LaunchError::InvalidBooleanLiteral { text } => SpecErr::InvalidBooleanLiteral {
                text: text@,
            },
            LaunchError::InvalidExpression { expr } => SpecErr::InvalidExpression { expr: expr@ },
            LaunchError::UnsupportedFileFormat { path } => SpecErr::UnsupportedFileFormat {
                path: path@,
            },
            LaunchError::DocumentNotLoaded { path } => SpecErr::DocumentNotLoaded { path: path@ },
            LaunchError::PackageNotFound { name } => SpecErr::PackageNotFound { name: name@ },
            LaunchError::DuplicatePackageName { name, first, second } => {
                SpecErr::DuplicatePackageName { name: name@, first: first@, second: second@ }
            },
            LaunchError::RecursionLimitExceeded => SpecErr::RecursionLimitExceeded,
        }
    }
}

} // verus!
