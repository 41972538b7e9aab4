//! What a failed parse reports.

use vstd::prelude::*;

verus! {

/// The named rules of the grammar.
#[derive(Clone, Copy, Debug, PartialEq, Eq, Structural)]
pub enum Rule {
    VariableName,
    Primitive,
    VariableType,
    Variable,
    ArgumentList,
    FunctionDeclaration,
}

/// Why a rule failed.
#[derive(Clone, Copy, Debug, PartialEq, Eq, Structural)]
pub enum ErrorKind {
    /// The text does not have the form that the rule asks for.
    Syntax,
    /// A vector length was announced by `^` and is no number that fits.
    MalformedLength,
}

/// A failed parse: what went wrong, at which character of the input, and the
/// rules that were being matched there, innermost first.
#[derive(Clone, Debug, PartialEq, Eq)]
pub struct ParseError {
    pub kind: ErrorKind,
    pub position: usize,
    pub context: Vec<Rule>,
}

/// The mathematical content of a [`ParseError`].
pub struct ParseErrorModel {
    pub kind: ErrorKind,
    pub position: int,
    pub context: Seq<Rule>,
}

impl View for ParseError {
    type V = ParseErrorModel;

    open spec fn view(&self) -> ParseErrorModel {
        ParseErrorModel {
            kind: self.kind,
            position: self.position as int,
            context: self.context@,
        }
    }
}

/// The failure of `rule` at `position`.
pub open spec fn failure<T>(kind: ErrorKind, position: int, rule: Rule) -> Result<
    T,
    ParseErrorModel,
> {
    Err(ParseErrorModel { kind, position, context: seq![rule] })
}

/// The same error, seen from the enclosing `rule`.
pub open spec fn inside(e: ParseErrorModel, rule: Rule) -> ParseErrorModel {
    ParseErrorModel { kind: e.kind, position: e.position, context: e.context.push(rule) }
}

impl ParseError {
    /// The failure of `rule` at `position`.
    pub fn new(kind: ErrorKind, position: usize, rule: Rule) -> (e: Self)
        ensures
            Err::<(), ParseErrorModel>(e@) == failure::<()>(kind, position as int, rule),
            e@ == (ParseErrorModel { kind, position: position as int, context: seq![rule] }),
    {
        let mut context: Vec<Rule> = Vec::new();
        context.push(rule);
        assert(context@ =~= seq![rule]);
        ParseError { kind, position, context }
    }

    /// Records that the error happened while `rule` was being matched.
    pub fn inside(self, rule: Rule) -> (e: Self)
        ensures
            e@ == inside(self@, rule),
    {
        let mut context = self.context;
        context.push(rule);
        ParseError { kind: self.kind, position: self.position, context }
    }

    /// The innermost rule that failed, if the error names any.
    pub fn rule(&self) -> (r: Option<Rule>)
        ensures
            r == (if self@.context.len() > 0 {
                Some(self@.context[0])
            } else {
                None
            }),
    {
        if self.context.len() > 0 {
            Some(self.context[0])
        } else {
            None
        }
    }
}

/// The name of a rule, as a diagnostic shows it.
pub open spec fn rule_name(rule: Rule) -> Seq<char> {
    match rule {
        Rule::VariableName => "variable name"@,
        Rule::Primitive => "primitive"@,
        Rule::VariableType => "variable type"@,
        Rule::Variable => "variable"@,
        Rule::ArgumentList => "argument list"@,
        Rule::FunctionDeclaration => "function declaration"@,
    }
}

impl Rule {
    /// The name of the rule, as a diagnostic shows it.
    pub fn name(self) -> (text: &'static str)
        ensures
            text@ == rule_name(self),
    {
        match self {
            Rule::VariableName => "variable name",
            Rule::Primitive => "primitive",
            Rule::VariableType => "variable type",
            Rule::Variable => "variable",
            Rule::ArgumentList => "argument list",
            Rule::FunctionDeclaration => "function declaration",
        }
    }
}

} // verus!
