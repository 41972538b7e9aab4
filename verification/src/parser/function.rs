//! Declarations and the rules of the grammar that read them.

use crate::parser::error::{failure, inside, ErrorKind, ParseError, ParseErrorModel, Rule};
use crate::parser::variable::{
    parsed_variable_is_well_formed, spec_variable, variable_at, variable_models, with_rest,
    Variable, VariableModel,
};
use crate::text::{
    alphanumeric, blanks_end, has_char, ident_end, run_end_is_first_failure, word_end, CharClass,
    Source,
};
use vstd::prelude::*;

verus! {

/// The signature of one function: its name, what it takes and what it gives,
/// each in the order in which it was written.
#[derive(Clone, Debug, PartialEq, Eq)]
pub struct Declaration {
    pub name: String,
    pub inputs: Vec<Variable>,
    pub outputs: Vec<Variable>,
}

/// The mathematical content of a [`Declaration`].
pub struct DeclarationModel {
    pub name: Seq<char>,
    pub inputs: Seq<VariableModel>,
    pub outputs: Seq<VariableModel>,
}

impl View for Declaration {
    type V = DeclarationModel;

    open spec fn view(&self) -> DeclarationModel {
        DeclarationModel {
            name: self.name@,
            inputs: variable_models(self.inputs@),
            outputs: variable_models(self.outputs@),
        }
    }
}

impl DeclarationModel {
    /// The name is one or more alphanumeric characters, and every variable
    /// is well formed.
    pub open spec fn wf(self) -> bool {
        &&& self.name.len() > 0
        &&& forall|i: int| 0 <= i < self.name.len() ==> alphanumeric(#[trigger] self.name[i])
        &&& forall|i: int| 0 <= i < self.inputs.len() ==> (#[trigger] self.inputs[i]).wf()
        &&& forall|i: int| 0 <= i < self.outputs.len() ==> (#[trigger] self.outputs[i]).wf()
    }
}

/// A variable that is read ends behind where it starts, and inside the text.
pub proof fn variable_advances(s: Seq<char>, from: int)
    ensures
        spec_variable(s, from) matches Ok((_, end)) ==> 0 <= from < end <= s.len(),
{
    if 0 <= from <= s.len() {
        run_end_is_first_failure(s, from, CharClass::Alphanumeric);
        let end = ident_end(s, from);
        run_end_is_first_failure(s, end, CharClass::Blank);
        let colon = blanks_end(s, end);
        if has_char(s, colon, ':') {
            run_end_is_first_failure(s, colon + 1, CharClass::Blank);
            let start = blanks_end(s, colon + 1);
            run_end_is_first_failure(s, start, CharClass::Alphanumeric);
            let stop = ident_end(s, start);
            if has_char(s, stop, '^') {
                run_end_is_first_failure(s, stop + 1, CharClass::Digit);
            }
        }
    }
}

/// One or more variables, separated by `;` with optional blanks on both
/// sides. After a `;` a variable must follow.
pub open spec fn spec_variables(s: Seq<char>, from: int) -> Result<
    (Seq<VariableModel>, int),
    ParseErrorModel,
>
    decreases s.len() - from,
{
    match spec_variable(s, from) {
        Err(e) => Err(inside(e, Rule::ArgumentList)),
        Ok((v, end)) => {
            let semi = blanks_end(s, end);
            if has_char(s, semi, ';') {
                proof {
                    variable_advances(s, from);
                    run_end_is_first_failure(s, end, CharClass::Blank);
                    run_end_is_first_failure(s, semi + 1, CharClass::Blank);
                }
                match spec_variables(s, blanks_end(s, semi + 1)) {
                    Err(e) => Err(e),
                    Ok((more, stop)) => Ok((seq![v] + more, stop)),
                }
            } else {
                Ok((seq![v], end))
            }
        },
    }
}

/// An argument list: nothing, where no name starts at `from`, else one or
/// more variables.
pub open spec fn spec_argument_list(s: Seq<char>, from: int) -> Result<
    (Seq<VariableModel>, int),
    ParseErrorModel,
> {
    if ident_end(s, from) == from {
        Ok((Seq::empty(), from))
    } else {
        spec_variables(s, from)
    }
}

/// The variables `done`, followed by what `r` gives.
pub open spec fn after(
    done: Seq<VariableModel>,
    r: Result<(Seq<VariableModel>, int), ParseErrorModel>,
) -> Result<(Seq<VariableModel>, int), ParseErrorModel> {
    match r {
        Ok((more, stop)) => Ok((done + more, stop)),
        Err(e) => Err(e),
    }
}

/// Where the optional `val` and the blanks behind it end: position 0 where
/// the line does not start with `val` and at least one blank.
pub open spec fn spec_prefix_end(s: Seq<char>) -> int {
    match word_end(s, 0, "val"@) {
        Some(end) => if blanks_end(s, end) > end {
            blanks_end(s, end)
        } else {
            0
        },
        None => 0,
    }
}

/// A parenthesised argument list that starts at `from`.
pub open spec fn spec_parenthesised(s: Seq<char>, from: int) -> Result<
    (Seq<VariableModel>, int),
    ParseErrorModel,
> {
    if !has_char(s, from, '(') {
        failure(ErrorKind::Syntax, from, Rule::FunctionDeclaration)
    } else {
        match spec_argument_list(s, from + 1) {
            Err(e) => Err(inside(e, Rule::FunctionDeclaration)),
            Ok((vars, close)) => if has_char(s, close, ')') {
                Ok((vars, close + 1))
            } else {
                failure(ErrorKind::Syntax, close, Rule::FunctionDeclaration)
            },
        }
    }
}

/// A declaration: optionally `val` and blanks; `fun`, blanks, the name; then,
/// each after optional blanks, the parenthesised inputs, `returns`, and the
/// parenthesised outputs. Gives the declaration and the position behind it.
pub open spec fn spec_function_declaration(s: Seq<char>) -> Result<
    (DeclarationModel, int),
    ParseErrorModel,
> {
    let start = spec_prefix_end(s);
    match word_end(s, start, "fun"@) {
        None => failure(ErrorKind::Syntax, start, Rule::FunctionDeclaration),
        Some(fun_end) => {
            let name_start = blanks_end(s, fun_end);
            let name_end = ident_end(s, name_start);
            if name_start == fun_end || name_end == name_start {
                failure(ErrorKind::Syntax, name_start, Rule::FunctionDeclaration)
            } else {
                match spec_parenthesised(s, blanks_end(s, name_end)) {
                    Err(e) => Err(e),
                    Ok((inputs, inputs_end)) => {
                        let returns_start = blanks_end(s, inputs_end);
                        match word_end(s, returns_start, "returns"@) {
                            None => failure(
                                ErrorKind::Syntax,
                                returns_start,
                                Rule::FunctionDeclaration,
                            ),
                            Some(returns_end) => match spec_parenthesised(
                                s,
                                blanks_end(s, returns_end),
                            ) {
                                Err(e) => Err(e),
                                Ok((outputs, stop)) => Ok(
                                    (
                                        DeclarationModel {
                                            name: s.subrange(name_start, name_end),
                                            inputs,
                                            outputs,
                                        },
                                        stop,
                                    ),
                                ),
                            },
                        }
                    },
                }
            }
        },
    }
}

/// Reads an argument list at `from`; gives the variables in order and the
/// position behind the last of them.
pub fn argument_list_at<'a>(src: &Source<'a>, from: usize) -> (r: Result<
    (Vec<Variable>, usize),
    ParseError,
>)
    requires
        src.wf(),
        from <= src@.len(),
    ensures
        match r {
            Ok((vars, end)) => spec_argument_list(src@, from as int) == Ok::<
                (Seq<VariableModel>, int),
                ParseErrorModel,
            >((variable_models(vars@), end as int)) && from <= end <= src@.len(),
            Err(e) => spec_argument_list(src@, from as int) == Err::<
                (Seq<VariableModel>, int),
                ParseErrorModel,
            >(e@),
        },
{
    let mut vars: Vec<Variable> = Vec::new();
    if src.identifier_end(from) == from {
        assert(variable_models(vars@) =~= Seq::<VariableModel>::empty());
        return Ok((vars, from));
    }
    let mut at: usize = from;
    assert(variable_models(vars@) + Seq::<VariableModel>::empty() =~= Seq::<
        VariableModel,
    >::empty());
    assert(spec_variables(src@, from as int) == after(
        variable_models(vars@),
        spec_variables(src@, at as int),
    )) by {
        match spec_variables(src@, from as int) {
            Ok((more, _)) => {
                assert(variable_models(vars@) + more =~= more);
            },
            Err(_) => {},
        }
    }
    loop
        invariant
            src.wf(),
            from <= at <= src@.len(),
            spec_argument_list(src@, from as int) == spec_variables(src@, from as int),
            spec_variables(src@, from as int) == after(
                variable_models(vars@),
                spec_variables(src@, at as int),
            ),
        decreases src@.len() - at,
    {
        let ghost done = variable_models(vars@);
        match variable_at(src, at) {
            Err(e) => {
                return Err(e.inside(Rule::ArgumentList));
            },
            Ok((v, end)) => {
                vars.push(v);
                assert(variable_models(vars@) =~= done + seq![v@]);
                let semi = src.blanks_end(end);
                if src.is_char(semi, ';') {
                    let next = src.blanks_end(semi + 1);
                    proof {
                        match spec_variables(src@, next as int) {
                            Ok((more, _)) => {
                                assert(done + (seq![v@] + more) =~= (done + seq![v@]) + more);
                            },
                            Err(_) => {},
                        }
                    }
                    at = next;
                } else {
                    return Ok((vars, end));
                }
            },
        }
    }
}

/// Reads a parenthesised argument list.
pub fn parenthesised_at<'a>(src: &Source<'a>, from: usize) -> (r: Result<
    (Vec<Variable>, usize),
    ParseError,
>)
    requires
        src.wf(),
        from <= src@.len(),
    ensures
        match r {
            Ok((vars, end)) => spec_parenthesised(src@, from as int) == Ok::<
                (Seq<VariableModel>, int),
                ParseErrorModel,
            >((variable_models(vars@), end as int)) && from < end <= src@.len(),
            Err(e) => spec_parenthesised(src@, from as int) == Err::<
                (Seq<VariableModel>, int),
                ParseErrorModel,
            >(e@),
        },
{
    if !src.is_char(from, '(') {
        return Err(ParseError::new(ErrorKind::Syntax, from, Rule::FunctionDeclaration));
    }
    match argument_list_at(src, from + 1) {
        Err(e) => Err(e.inside(Rule::FunctionDeclaration)),
        Ok((vars, close)) => {
            if src.is_char(close, ')') {
                Ok((vars, close + 1))
            } else {
                Err(ParseError::new(ErrorKind::Syntax, close, Rule::FunctionDeclaration))
            }
        },
    }
}

/// Where the optional `val` and the blanks behind it end.
pub fn prefix_end<'a>(src: &Source<'a>) -> (end: usize)
    requires
        src.wf(),
    ensures
        end == spec_prefix_end(src@),
        end <= src@.len(),
{
    match src.after_word(0, "val") {
        Some(end) => {
            let stop = src.blanks_end(end);
            if stop > end {
                stop
            } else {
                0
            }
        },
        None => 0,
    }
}

/// Reads a declaration at the start of the text; gives the declaration and
/// the position behind it.
pub fn function_declaration_at<'a>(src: &Source<'a>) -> (r: Result<
    (Declaration, usize),
    ParseError,
>)
    requires
        src.wf(),
    ensures
        match r {
            Ok((d, end)) => spec_function_declaration(src@) == Ok::<
                (DeclarationModel, int),
                ParseErrorModel,
            >((d@, end as int)) && end <= src@.len(),
            Err(e) => spec_function_declaration(src@) == Err::<
                (DeclarationModel, int),
                ParseErrorModel,
            >(e@),
        },
{
    let start = prefix_end(src);
    let fun_end = match src.after_word(start, "fun") {
        None => {
            return Err(ParseError::new(ErrorKind::Syntax, start, Rule::FunctionDeclaration));
        },
        Some(end) => end,
    };
    let name_start = src.blanks_end(fun_end);
    let name_end = src.identifier_end(name_start);
    if name_start == fun_end || name_end == name_start {
        return Err(ParseError::new(ErrorKind::Syntax, name_start, Rule::FunctionDeclaration));
    }
    let name = String::from_str(src.slice(name_start, name_end));
    let (inputs, inputs_end) = match parenthesised_at(src, src.blanks_end(name_end)) {
        Err(e) => {
            return Err(e);
        },
        Ok(found) => found,
    };
    let returns_start = src.blanks_end(inputs_end);
    let returns_end = match src.after_word(returns_start, "returns") {
        None => {
            return Err(
                ParseError::new(ErrorKind::Syntax, returns_start, Rule::FunctionDeclaration),
            );
        },
        Some(end) => end,
    };
    match parenthesised_at(src, src.blanks_end(returns_end)) {
        Err(e) => Err(e),
        Ok((outputs, stop)) => Ok((Declaration { name, inputs, outputs }, stop)),
    }
}

/// Reads a declaration at the start of `line`; gives what is left of the
/// line, and the declaration. Text behind the declaration is no error.
pub fn function_declaration<'a>(line: &'a str) -> (r: Result<(&'a str, Declaration), ParseError>)
    ensures
        match r {
            Ok((rest, d)) => with_rest(line@, spec_function_declaration(line@)) == Ok::<
                (Seq<char>, DeclarationModel),
                ParseErrorModel,
            >((rest@, d@)),
            Err(e) => spec_function_declaration(line@) == Err::<
                (DeclarationModel, int),
                ParseErrorModel,
            >(e@),
        },
{
    let src = Source::new(line);
    match function_declaration_at(&src) {
        Ok((d, end)) => Ok((src.rest(end), d)),
        Err(e) => Err(e),
    }
}

/// Every variable of a list that the grammar reads is well formed.
pub proof fn parsed_variables_are_well_formed(s: Seq<char>, from: int)
    ensures
        spec_variables(s, from) matches Ok((vars, _)) ==> forall|i: int|
            0 <= i < vars.len() ==> (#[trigger] vars[i]).wf(),
        spec_argument_list(s, from) matches Ok((vars, _)) ==> forall|i: int|
            0 <= i < vars.len() ==> (#[trigger] vars[i]).wf(),
    decreases s.len() - from,
{
    parsed_variable_is_well_formed(s, from);
    variable_advances(s, from);
    if let Ok((v, end)) = spec_variable(s, from) {
        let semi = blanks_end(s, end);
        if has_char(s, semi, ';') {
            run_end_is_first_failure(s, end, CharClass::Blank);
            run_end_is_first_failure(s, semi + 1, CharClass::Blank);
            parsed_variables_are_well_formed(s, blanks_end(s, semi + 1));
        }
    }
}

/// A declaration that the grammar reads is well formed: its name is one or
/// more alphanumeric characters, and so is the name of each of its
/// variables; no vector has length 0, and no custom type holds a reserved
/// word.
pub proof fn parsed_declaration_is_well_formed(s: Seq<char>)
    ensures
        spec_function_declaration(s) matches Ok((d, _)) ==> d.wf(),
{
    if let Ok((d, _)) = spec_function_declaration(s) {
        let start = spec_prefix_end(s);
        let fun_end = word_end(s, start, "fun"@)->Some_0;
        let name_start = blanks_end(s, fun_end);
        let name_end = ident_end(s, name_start);
        run_end_is_first_failure(s, fun_end, CharClass::Blank);
        run_end_is_first_failure(s, name_start, CharClass::Alphanumeric);
        assert forall|i: int| 0 <= i < d.name.len() implies alphanumeric(#[trigger] d.name[i]) by {
            assert(CharClass::Alphanumeric.holds(s[name_start + i]));
        }
        let open = blanks_end(s, name_end);
        parsed_variables_are_well_formed(s, open + 1);
        let inputs_end = spec_parenthesised(s, open)->Ok_0.1;
        let returns_start = blanks_end(s, inputs_end);
        let returns_end = word_end(s, returns_start, "returns"@)->Some_0;
        parsed_variables_are_well_formed(s, blanks_end(s, returns_end) + 1);
    }
}

} // verus!
