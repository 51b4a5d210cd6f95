//! Configuration-time validation errors.
//!
//! Every rejected configuration reports one of these errors; the message
//! fragments are fixed wording that surrounding tooling matches on.

use vstd::prelude::*;

verus! {

/// A validation error raised while assembling a filter definition.
#[derive(Debug, PartialEq, Eq)]
pub enum ConfigError {
    /// The block's variable name does not start with the control sigil.
    VariableMissingDollar,
    /// The block's variable name has nothing after the sigil.
    VariableNameEmpty,
    /// The block's variable name holds a byte outside alphanumerics and `_`.
    VariableNameInvalidChars,
    /// An `initial` directive with other than one value argument.
    InitialArity,
    /// A second `initial` directive in the same block.
    DuplicateInitial,
    /// An `initial` value other than `all` or `none`.
    InitialBadValue,
    /// An `include` directive with other than one or two value arguments.
    IncludeArity,
    /// A two-argument `include` whose operator is neither `~` nor `~*`.
    IncludeBadOperator,
    /// An `exclude` directive with other than one or two value arguments.
    ExcludeArity,
    /// A two-argument `exclude` whose operator is neither `~` nor `~*`.
    ExcludeBadOperator,
    /// A `volatile` directive with value arguments.
    VolatileArity,
    /// A regex pattern the engine rejected, with its diagnostic text.
    RegexCompile(String),
    /// A directive name that is not part of the block grammar.
    UnknownDirective,
    /// A block name that is already registered.
    DuplicateVariable,
}

/// Mathematical content of a validation error.
pub enum ErrView {
    VariableMissingDollar,
    VariableNameEmpty,
    VariableNameInvalidChars,
    InitialArity,
    DuplicateInitial,
    InitialBadValue,
    IncludeArity,
    IncludeBadOperator,
    ExcludeArity,
    ExcludeBadOperator,
    VolatileArity,
    RegexCompile(Seq<char>),
    UnknownDirective,
    DuplicateVariable,
}

impl View for ConfigError {
    type V = ErrView;

    open spec fn view(&self) -> ErrView {
        match self {
            ConfigError::VariableMissingDollar => ErrView::VariableMissingDollar,
            ConfigError::VariableNameEmpty => ErrView::VariableNameEmpty,
            ConfigError::VariableNameInvalidChars => ErrView::VariableNameInvalidChars,
            ConfigError::InitialArity => ErrView::InitialArity,
            ConfigError::DuplicateInitial => ErrView::DuplicateInitial,
            ConfigError::InitialBadValue => ErrView::InitialBadValue,
            ConfigError::IncludeArity => ErrView::IncludeArity,
            ConfigError::IncludeBadOperator => ErrView::IncludeBadOperator,
            ConfigError::ExcludeArity => ErrView::ExcludeArity,
            ConfigError::ExcludeBadOperator => ErrView::ExcludeBadOperator,
            ConfigError::VolatileArity => ErrView::VolatileArity,
            ConfigError::RegexCompile(diag) => ErrView::RegexCompile(diag@),
            ConfigError::UnknownDirective => ErrView::UnknownDirective,
            ConfigError::DuplicateVariable => ErrView::DuplicateVariable,
        }
    }
}

/// The fixed message fragment for an error.
pub open spec fn spec_message(e: ErrView) -> Seq<char> {
    match e {
        ErrView::VariableMissingDollar => "args_filter variable must start with '$'"@,
        ErrView::VariableNameEmpty => "args_filter variable name cannot be empty"@,
        ErrView::VariableNameInvalidChars => "args_filter variable name contains invalid characters"@,
        ErrView::InitialArity => "invalid number of arguments in \"initial\" directive"@,
        ErrView::DuplicateInitial => "\"initial\" directive is duplicate"@,
        ErrView::InitialBadValue => "\"initial\" must be \"all\" or \"none\""@,
        ErrView::IncludeArity => "invalid number of arguments in \"include\" directive"@,
        ErrView::IncludeBadOperator => "\"include\" expects literal, \"~\", or \"~*\""@,
        ErrView::ExcludeArity => "invalid number of arguments in \"exclude\" directive"@,
        ErrView::ExcludeBadOperator => "\"exclude\" expects literal, \"~\", or \"~*\""@,
        ErrView::VolatileArity => "invalid number of arguments in \"volatile\" directive"@,
        ErrView::RegexCompile(_) => "failed to compile regex:"@,
        ErrView::UnknownDirective => "unknown directive inside args_filter block"@,
        ErrView::DuplicateVariable => "duplicate args_filter declaration"@,
    }
}

impl ConfigError {
    /// The fixed message fragment for this error. For a regex failure the
    /// engine's diagnostic follows the fragment and is carried in the variant.
    pub fn message(&self) -> (m: &'static str)
        ensures
            m@ == spec_message(self@),
    {
        match self {
            ConfigError::VariableMissingDollar => "args_filter variable must start with '$'",
            ConfigError::VariableNameEmpty => "args_filter variable name cannot be empty",
            ConfigError::VariableNameInvalidChars => "args_filter variable name contains invalid characters",
            ConfigError::InitialArity => "invalid number of arguments in \"initial\" directive",
            ConfigError::DuplicateInitial => "\"initial\" directive is duplicate",
            ConfigError::InitialBadValue => "\"initial\" must be \"all\" or \"none\"",
            ConfigError::IncludeArity => "invalid number of arguments in \"include\" directive",
            ConfigError::IncludeBadOperator => "\"include\" expects literal, \"~\", or \"~*\"",
            ConfigError::ExcludeArity => "invalid number of arguments in \"exclude\" directive",
            ConfigError::ExcludeBadOperator => "\"exclude\" expects literal, \"~\", or \"~*\"",
            ConfigError::VolatileArity => "invalid number of arguments in \"volatile\" directive",
            ConfigError::RegexCompile(_) => "failed to compile regex:",
            ConfigError::UnknownDirective => "unknown directive inside args_filter block",
            ConfigError::DuplicateVariable => "duplicate args_filter declaration",
        }
    }
}

} // verus!
