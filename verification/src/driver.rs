//! Applies the grammar to a sequence of lines: a line that fails is reported
//! and skipped, and the run goes on.

use crate::generator::{
    artifacts_follow_declaration_order, concat_all, declaration_models, prototypes_text,
    stubs_text, typedefs_text,
};
use crate::parser::error::{rule_name, ErrorKind, ParseError, ParseErrorModel, Rule};
use crate::parser::function::{
    function_declaration, spec_function_declaration, Declaration, DeclarationModel,
};
use crate::text::{decimal, push_decimal};
use vstd::prelude::*;

verus! {

/// The report of one line that was skipped.
#[derive(Clone, Debug, PartialEq, Eq)]
pub struct Diagnostic {
    /// The index of the line among the lines given, from 0.
    pub line_index: usize,
    /// The line as it was given.
    pub line: String,
    /// Why it was skipped.
    pub error: ParseError,
}

/// The mathematical content of a [`Diagnostic`].
pub struct DiagnosticModel {
    pub line_index: int,
    pub line: Seq<char>,
    pub error: ParseErrorModel,
}

impl View for Diagnostic {
    type V = DiagnosticModel;

    open spec fn view(&self) -> DiagnosticModel {
        DiagnosticModel {
            line_index: self.line_index as int,
            line: self.line@,
            error: self.error@,
        }
    }
}

/// What a run over a sequence of lines gives.
#[derive(Clone, Debug, PartialEq, Eq)]
pub struct ParseReport {
    /// The declarations that were read, in the order of their lines.
    pub declarations: Vec<Declaration>,
    /// One diagnostic for each line that was skipped, in the order of the lines.
    pub diagnostics: Vec<Diagnostic>,
}

/// The views of a sequence of diagnostics, in order.
pub open spec fn diagnostic_models(ds: Seq<Diagnostic>) -> Seq<DiagnosticModel> {
    ds.map_values(|d: Diagnostic| d@)
}

/// The texts of a sequence of lines, in order.
pub open spec fn line_texts(lines: Seq<String>) -> Seq<Seq<char>> {
    lines.map_values(|l: String| l@)
}

/// Whether a line is looked at: one of more than one character.
pub open spec fn usable(line: Seq<char>) -> bool {
    line.len() > 1
}

/// What one line adds to the declarations.
pub open spec fn line_declarations(line: Seq<char>) -> Seq<DeclarationModel> {
    if usable(line) {
        match spec_function_declaration(line) {
            Ok((d, _)) => seq![d],
            Err(_) => Seq::empty(),
        }
    } else {
        Seq::empty()
    }
}

/// What the line with index `index` adds to the diagnostics.
pub open spec fn line_diagnostics(line: Seq<char>, index: int) -> Seq<DiagnosticModel> {
    if usable(line) {
        match spec_function_declaration(line) {
            Ok(_) => Seq::empty(),
            Err(error) => seq![DiagnosticModel { line_index: index, line, error }],
        }
    } else {
        Seq::empty()
    }
}

/// The declarations that a run over `lines` gives.
pub open spec fn spec_declarations(lines: Seq<Seq<char>>) -> Seq<DeclarationModel>
    decreases lines.len(),
{
    if lines.len() == 0 {
        Seq::empty()
    } else {
        spec_declarations(lines.drop_last()) + line_declarations(lines.last())
    }
}

/// The diagnostics that a run over `lines` gives.
pub open spec fn spec_diagnostics(lines: Seq<Seq<char>>) -> Seq<DiagnosticModel>
    decreases lines.len(),
{
    if lines.len() == 0 {
        Seq::empty()
    } else {
        spec_diagnostics(lines.drop_last()) + line_diagnostics(lines.last(), lines.len() - 1)
    }
}

/// How many of the lines are looked at.
pub open spec fn usable_count(lines: Seq<Seq<char>>) -> nat
    decreases lines.len(),
{
    if lines.len() == 0 {
        0
    } else {
        usable_count(lines.drop_last()) + if usable(lines.last()) {
            1nat
        } else {
            0nat
        }
    }
}

/// Reads one declaration from each line of more than one character. A line
/// that fails is reported and skipped; the others keep their order.
pub fn parse_declarations(lines: &Vec<String>) -> (report: ParseReport)
    ensures
        declaration_models(report.declarations@) == spec_declarations(line_texts(lines@)),
        diagnostic_models(report.diagnostics@) == spec_diagnostics(line_texts(lines@)),
{
    let mut declarations: Vec<Declaration> = Vec::new();
    let mut diagnostics: Vec<Diagnostic> = Vec::new();
    let ghost texts = line_texts(lines@);
    let mut i: usize = 0;
    assert(texts.take(0) =~= Seq::<Seq<char>>::empty());
    assert(declaration_models(declarations@) =~= spec_declarations(texts.take(0)));
    assert(diagnostic_models(diagnostics@) =~= spec_diagnostics(texts.take(0)));
    while i < lines.len()
        invariant
            i <= lines.len(),
            texts == line_texts(lines@),
            declaration_models(declarations@) == spec_declarations(texts.take(i as int)),
            diagnostic_models(diagnostics@) == spec_diagnostics(texts.take(i as int)),
        decreases lines.len() - i,
    {
        let ghost seen = texts.take(i + 1);
        let ghost old_declarations = declaration_models(declarations@);
        let ghost old_diagnostics = diagnostic_models(diagnostics@);
        assert(seen.drop_last() =~= texts.take(i as int));
        assert(seen.last() == lines@[i as int]@);
        let line = lines[i].as_str();
        if line.unicode_len() > 1 {
            match function_declaration(line) {
                Ok((_, declaration)) => {
                    declarations.push(declaration);
                    assert(declaration_models(declarations@) =~= old_declarations
                        + line_declarations(line@));
                    assert(diagnostic_models(diagnostics@) =~= old_diagnostics + line_diagnostics(
                        line@,
                        i as int,
                    ));
                },
                Err(error) => {
                    diagnostics.push(
                        Diagnostic { line_index: i, line: String::from_str(line), error },
                    );
                    assert(declaration_models(declarations@) =~= old_declarations
                        + line_declarations(line@));
                    assert(diagnostic_models(diagnostics@) =~= old_diagnostics + line_diagnostics(
                        line@,
                        i as int,
                    ));
                },
            }
        } else {
            assert(declaration_models(declarations@) =~= old_declarations + line_declarations(
                line@,
            ));
            assert(diagnostic_models(diagnostics@) =~= old_diagnostics + line_diagnostics(
                line@,
                i as int,
            ));
        }
        i += 1;
    }
    assert(texts.take(i as int) =~= texts);
    ParseReport { declarations, diagnostics }
}

impl ParseReport {
    /// Whether the run gave no declaration at all.
    pub fn is_empty_input(&self) -> (b: bool)
        ensures
            b == (self.declarations@.len() == 0),
    {
        self.declarations.len() == 0
    }

    /// Whether some line was skipped.
    pub fn has_failures(&self) -> (b: bool)
        ensures
            b == (self.diagnostics@.len() > 0),
    {
        self.diagnostics.len() > 0
    }
}

/// How a diagnostic names the kind of an error.
pub open spec fn kind_text(kind: ErrorKind) -> Seq<char> {
    match kind {
        ErrorKind::Syntax => "syntax error"@,
        ErrorKind::MalformedLength => "malformed length"@,
    }
}

/// The rules of an error, innermost first, each behind ` in `.
pub open spec fn context_text(context: Seq<Rule>) -> Seq<char> {
    concat_all(context.map_values(|r: Rule| " in "@ + rule_name(r)))
}

/// The one line of text that reports a skipped line: the line, the kind of
/// the error, the character at which it was found, and the rules that were
/// being matched.
pub open spec fn diagnostic_text(d: DiagnosticModel) -> Seq<char> {
    "cannot parse `"@ + d.line + "`: "@ + kind_text(d.error.kind) + " at character "@ + decimal(
        d.error.position as nat,
    ) + context_text(d.error.context)
}

impl Diagnostic {
    /// The text of the diagnostic.
    pub fn message(&self) -> (text: String)
        ensures
            text@ == diagnostic_text(self@),
    {
        let mut text = String::from_str("cannot parse `");
        text.append(self.line.as_str());
        text.append("`: ");
        match self.error.kind {
            ErrorKind::Syntax => text.append("syntax error"),
            ErrorKind::MalformedLength => text.append("malformed length"),
        }
        text.append(" at character ");
        push_decimal(&mut text, self.error.position);
        let ghost parts = self.error.context@.map_values(|r: Rule| " in "@ + rule_name(r));
        let ghost start = text@;
        let mut i: usize = 0;
        assert(parts.take(0) =~= Seq::<Seq<char>>::empty());
        assert(text@ =~= start + concat_all(parts.take(0)));
        while i < self.error.context.len()
            invariant
                i <= self.error.context.len(),
                parts == self.error.context@.map_values(|r: Rule| " in "@ + rule_name(r)),
                text@ == start + concat_all(parts.take(i as int)),
            decreases self.error.context.len() - i,
        {
            let ghost before = text@;
            text.append(" in ");
            text.append(self.error.context[i].name());
            proof {
                let next = parts.take(i + 1);
                assert(next.drop_last() =~= parts.take(i as int));
                assert(text@ =~= before + next.last());
                assert(text@ =~= start + concat_all(next));
            }
            i += 1;
        }
        assert(parts.take(i as int) =~= parts);
        text
    }
}

/// The declarations keep the order of their lines: a run over two sequences
/// of lines, one behind the other, gives the declarations of the first
/// followed by those of the second.
pub proof fn declarations_follow_line_order(a: Seq<Seq<char>>, b: Seq<Seq<char>>)
    ensures
        spec_declarations(a + b) == spec_declarations(a) + spec_declarations(b),
    decreases b.len(),
{
    if b.len() == 0 {
        assert(a + b =~= a);
        assert(spec_declarations(a) + spec_declarations(b) =~= spec_declarations(a));
    } else {
        assert((a + b).drop_last() =~= a + b.drop_last());
        declarations_follow_line_order(a, b.drop_last());
        assert((spec_declarations(a) + spec_declarations(b.drop_last())) + line_declarations(
            b.last(),
        ) =~= spec_declarations(a) + (spec_declarations(b.drop_last()) + line_declarations(
            b.last(),
        )));
    }
}

/// Where every line is looked at and is a declaration, the run gives one
/// declaration for each line, at the line's own index, and what it holds
/// depends on that line alone. So a permutation of the lines permutes the
/// declarations in the same way and changes none of them.
pub proof fn valid_lines_give_their_declarations(lines: Seq<Seq<char>>)
    requires
        forall|i: int|
            0 <= i < lines.len() ==> usable(#[trigger] lines[i]) && spec_function_declaration(
                lines[i],
            ) is Ok,
    ensures
        spec_declarations(lines).len() == lines.len(),
        spec_diagnostics(lines).len() == 0,
        forall|i: int|
            0 <= i < lines.len() ==> spec_function_declaration(#[trigger] lines[i]) == Ok::<
                (DeclarationModel, int),
                ParseErrorModel,
            >((spec_declarations(lines)[i], spec_function_declaration(lines[i])->Ok_0.1)),
    decreases lines.len(),
{
    if lines.len() > 0 {
        let front = lines.drop_last();
        assert forall|i: int| 0 <= i < front.len() implies usable(#[trigger] front[i])
            && spec_function_declaration(front[i]) is Ok by {
            assert(front[i] == lines[i]);
        }
        valid_lines_give_their_declarations(front);
        assert(usable(lines[lines.len() - 1]));
        assert forall|i: int| 0 <= i < lines.len() implies spec_function_declaration(
            #[trigger] lines[i],
        ) == Ok::<(DeclarationModel, int), ParseErrorModel>(
            (spec_declarations(lines)[i], spec_function_declaration(lines[i])->Ok_0.1),
        ) by {
            if i < front.len() {
                assert(front[i] == lines[i]);
                assert(spec_declarations(lines)[i] == spec_declarations(front)[i]);
            }
        }
    }
}

/// Every line that is looked at gives either a declaration or a diagnostic.
pub proof fn every_usable_line_is_accounted_for(lines: Seq<Seq<char>>)
    ensures
        spec_declarations(lines).len() + spec_diagnostics(lines).len() == usable_count(lines),
    decreases lines.len(),
{
    if lines.len() > 0 {
        every_usable_line_is_accounted_for(lines.drop_last());
    }
}

/// One bad line costs one declaration: where every line is looked at and
/// all but the line `bad` are declarations, the run over N lines gives N - 1
/// declarations and one diagnostic, which names the line `bad`.
pub proof fn one_bad_line_costs_one_declaration(lines: Seq<Seq<char>>, bad: int)
    requires
        0 <= bad < lines.len(),
        forall|i: int| 0 <= i < lines.len() ==> usable(#[trigger] lines[i]),
        forall|i: int|
            0 <= i < lines.len() && i != bad ==> spec_function_declaration(#[trigger] lines[i])
                is Ok,
        spec_function_declaration(lines[bad]) is Err,
    ensures
        spec_declarations(lines).len() == lines.len() - 1,
        spec_diagnostics(lines).len() == 1,
        spec_diagnostics(lines)[0].line_index == bad,
        spec_diagnostics(lines)[0].line == lines[bad],
    decreases lines.len(),
{
    let front = lines.drop_last();
    assert(usable(lines[lines.len() - 1]));
    if bad == lines.len() - 1 {
        assert forall|i: int| 0 <= i < front.len() implies usable(#[trigger] front[i])
            && spec_function_declaration(front[i]) is Ok by {
            assert(front[i] == lines[i]);
        }
        valid_lines_give_their_declarations(front);
    } else {
        assert forall|i: int| 0 <= i < front.len() implies usable(#[trigger] front[i]) by {
            assert(front[i] == lines[i]);
        }
        assert forall|i: int| 0 <= i < front.len() && i != bad implies spec_function_declaration(
            #[trigger] front[i],
        ) is Ok by {
            assert(front[i] == lines[i]);
        }
        assert(front[bad] == lines[bad]);
        one_bad_line_costs_one_declaration(front, bad);
        assert(spec_function_declaration(lines[lines.len() - 1]) is Ok);
    }
}

/// From lines to artifacts the order is kept: the struct definitions, the
/// prototypes and the stubs that come of two sequences of lines, one behind
/// the other, are those of the first followed by those of the second. So the
/// lines decide the order of what is written, and nothing else of it.
pub proof fn artifacts_follow_line_order(
    capitalized: Seq<char>,
    a: Seq<Seq<char>>,
    b: Seq<Seq<char>>,
)
    ensures
        typedefs_text(capitalized, spec_declarations(a + b)) == typedefs_text(
            capitalized,
            spec_declarations(a),
        ) + typedefs_text(capitalized, spec_declarations(b)),
        prototypes_text(capitalized, spec_declarations(a + b)) == prototypes_text(
            capitalized,
            spec_declarations(a),
        ) + prototypes_text(capitalized, spec_declarations(b)),
        stubs_text(capitalized, spec_declarations(a + b)) == stubs_text(
            capitalized,
            spec_declarations(a),
        ) + stubs_text(capitalized, spec_declarations(b)),
{
    declarations_follow_line_order(a, b);
    artifacts_follow_declaration_order(capitalized, spec_declarations(a), spec_declarations(b));
}

} // verus!
