//! From declarations to the three C artifacts: the type header, the function
//! header and the stub source.

use crate::parser::function::{Declaration, DeclarationModel};
use crate::parser::variable::{MetaType, MetaTypeModel, Type, TypeModel, Variable, VariableModel};
use crate::text::{decimal, push_decimal};
use vstd::prelude::*;

verus! {

/// The upper-case form of a text: what `str::to_uppercase` gives for it.
pub uninterp spec fn uppercase(s: Seq<char>) -> Seq<char>;

/// The lower-case form of a text: what `str::to_lowercase` gives for it.
pub uninterp spec fn lowercase(s: Seq<char>) -> Seq<char>;

/// The upper-case form of one character, which may be several characters:
/// what `char::to_uppercase` gives for it.
pub uninterp spec fn char_uppercase(c: char) -> Seq<char>;

/// Calls `str::to_uppercase` of the standard library. Trusted: the result is
/// the text named [`uppercase`], a function of the argument alone.
#[verifier::external_body]
pub(crate) fn to_uppercase(s: &str) -> (r: String)
    ensures
        r@ == uppercase(s@),
{
    s.to_uppercase()
}

/// Calls `str::to_lowercase` of the standard library. Trusted: the result is
/// the text named [`lowercase`], a function of the argument alone.
#[verifier::external_body]
pub(crate) fn to_lowercase(s: &str) -> (r: String)
    ensures
        r@ == lowercase(s@),
{
    s.to_lowercase()
}

/// Calls `char::to_uppercase` of the standard library and collects the
/// characters that it gives. Trusted: the result is the text named
/// [`char_uppercase`], a function of the argument alone.
#[verifier::external_body]
pub(crate) fn upper_of_char(c: char) -> (r: String)
    ensures
        r@ == char_uppercase(c),
{
    c.to_uppercase().collect()
}

/// The text `s` with `first` in place of its first character; the empty text
/// stays empty.
pub open spec fn with_first(s: Seq<char>, first: Seq<char>) -> Seq<char> {
    if s.len() == 0 {
        s
    } else {
        first + s.skip(1)
    }
}

/// The text `s` with its first character in upper case and the rest as it is.
pub open spec fn spec_capitalize(s: Seq<char>) -> Seq<char> {
    if s.len() == 0 {
        s
    } else {
        with_first(s, char_uppercase(s[0]))
    }
}

/// Puts `first` in place of the first character of `s`.
pub fn replace_first(s: &str, first: &str) -> (r: String)
    ensures
        r@ == with_first(s@, first@),
{
    let n = s.unicode_len();
    if n == 0 {
        let r = String::new();
        assert(r@ =~= s@);
        r
    } else {
        let mut r = String::from_str(first);
        r.append(s.substring_char(1, n));
        assert(s@.subrange(1, n as int) =~= s@.skip(1));
        r
    }
}

/// Changes the first character of `s` to upper case.
pub fn capitalize(s: &str) -> (r: String)
    ensures
        r@ == spec_capitalize(s@),
{
    if s.unicode_len() == 0 {
        let r = String::new();
        assert(r@ =~= s@);
        r
    } else {
        let first = upper_of_char(s.get_char(0));
        replace_first(s, first.as_str())
    }
}

/// The three forms of a unit's name that the artifacts use.
#[derive(Clone, Debug, PartialEq, Eq)]
pub struct UnitNames {
    /// For the include guards.
    pub upper: String,
    /// For the file names.
    pub lower: String,
    /// For the names of types and functions.
    pub capitalized: String,
}

/// The mathematical content of [`UnitNames`].
pub struct UnitNamesModel {
    pub upper: Seq<char>,
    pub lower: Seq<char>,
    pub capitalized: Seq<char>,
}

impl View for UnitNames {
    type V = UnitNamesModel;

    open spec fn view(&self) -> UnitNamesModel {
        UnitNamesModel {
            upper: self.upper@,
            lower: self.lower@,
            capitalized: self.capitalized@,
        }
    }
}

/// The names that belong to `unit`.
pub open spec fn spec_unit_names(unit: Seq<char>) -> UnitNamesModel {
    UnitNamesModel {
        upper: uppercase(unit),
        lower: lowercase(unit),
        capitalized: spec_capitalize(unit),
    }
}

impl UnitNames {
    /// Derives the three forms from the unit's name.
    pub fn of(unit: &str) -> (names: Self)
        ensures
            names@ == spec_unit_names(unit@),
    {
        UnitNames {
            upper: to_uppercase(unit),
            lower: to_lowercase(unit),
            capitalized: capitalize(unit),
        }
    }
}

/// All the parts, one behind the other.
pub open spec fn concat_all(parts: Seq<Seq<char>>) -> Seq<char>
    decreases parts.len(),
{
    if parts.len() == 0 {
        Seq::empty()
    } else {
        concat_all(parts.drop_last()) + parts.last()
    }
}

/// Putting two lists of parts together puts their texts together.
pub proof fn concat_all_distributes(a: Seq<Seq<char>>, b: Seq<Seq<char>>)
    ensures
        concat_all(a + b) == concat_all(a) + concat_all(b),
    decreases b.len(),
{
    if b.len() == 0 {
        assert(a + b =~= a);
        assert(concat_all(a) + concat_all(b) =~= concat_all(a));
    } else {
        assert((a + b).drop_last() =~= a + b.drop_last());
        concat_all_distributes(a, b.drop_last());
        assert((concat_all(a) + concat_all(b.drop_last())) + b.last() =~= concat_all(a) + (
        concat_all(b.drop_last()) + b.last()));
    }
}

/// The C name of a type: `int`, `float`, or the custom name as it is.
pub open spec fn type_text(t: TypeModel) -> Seq<char> {
    match t {
        TypeModel::Integer => "int"@,
        TypeModel::Float => "float"@,
        TypeModel::Custom(name) => name,
    }
}

/// A variable as C declares it: type and name, and for a vector its length
/// in square brackets behind the name.
pub open spec fn variable_text(v: VariableModel) -> Seq<char> {
    match v.kind {
        MetaTypeModel::Primitive(t) => type_text(t) + " "@ + v.name,
        MetaTypeModel::Vector(t, n) => type_text(t) + " "@ + v.name + "["@ + decimal(n) + "]"@,
    }
}

/// A variable as a field of a struct.
pub open spec fn field_text(v: VariableModel) -> Seq<char> {
    " "@ + variable_text(v) + ";"@
}

/// A variable as a parameter that another parameter follows.
pub open spec fn parameter_text(v: VariableModel) -> Seq<char> {
    variable_text(v) + ", "@
}

/// The fields of a struct, in order.
pub open spec fn fields_text(vars: Seq<VariableModel>) -> Seq<char> {
    concat_all(vars.map_values(|v: VariableModel| field_text(v)))
}

/// The parameters that stand before the output pointer, in order.
pub open spec fn parameters_text(vars: Seq<VariableModel>) -> Seq<char> {
    concat_all(vars.map_values(|v: VariableModel| parameter_text(v)))
}

/// The name of the struct that holds a function's outputs.
pub open spec fn struct_name(capitalized: Seq<char>, function: Seq<char>) -> Seq<char> {
    capitalized + "__"@ + function + "_out"@
}

/// The definition of the struct that holds a function's outputs.
pub open spec fn typedef_text(capitalized: Seq<char>, d: DeclarationModel) -> Seq<char> {
    "typedef struct {"@ + fields_text(d.outputs) + " } "@ + struct_name(capitalized, d.name) + ";"@
}

/// The signature of a function's step: the inputs in order, then a pointer
/// to the struct of its outputs.
pub open spec fn signature_text(capitalized: Seq<char>, d: DeclarationModel) -> Seq<char> {
    "void "@ + capitalized + "__"@ + d.name + "_step("@ + parameters_text(d.inputs) + struct_name(
        capitalized,
        d.name,
    ) + " *_out)"@
}

/// The struct definitions of all declarations, one per line.
pub open spec fn typedefs_text(capitalized: Seq<char>, ds: Seq<DeclarationModel>) -> Seq<char> {
    concat_all(ds.map_values(|d: DeclarationModel| typedef_text(capitalized, d) + "\n"@))
}

/// The prototypes of all declarations, one per line.
pub open spec fn prototypes_text(capitalized: Seq<char>, ds: Seq<DeclarationModel>) -> Seq<char> {
    concat_all(ds.map_values(|d: DeclarationModel| signature_text(capitalized, d) + ";\n"@))
}

/// The stubs of all declarations: each signature with an empty body.
pub open spec fn stubs_text(capitalized: Seq<char>, ds: Seq<DeclarationModel>) -> Seq<char> {
    concat_all(
        ds.map_values(|d: DeclarationModel| signature_text(capitalized, d) + "\n{\n\n}\n\n"@),
    )
}

/// The type header: the struct definitions inside an include guard.
pub open spec fn types_artifact(names: UnitNamesModel, ds: Seq<DeclarationModel>) -> Seq<char> {
    "\n#ifndef "@ + names.upper + "_TYPES_H\n#define "@ + names.upper + "_TYPES_H\n\n"@
        + typedefs_text(names.capitalized, ds) + "\n\n#endif /* "@ + names.upper
        + "_TYPES_H */\n"@
}

/// The function header: the include of the type header and the prototypes,
/// inside an include guard.
pub open spec fn header_artifact(names: UnitNamesModel, ds: Seq<DeclarationModel>) -> Seq<char> {
    "\n#ifndef "@ + names.upper + "_H\n#define "@ + names.upper + "_H\n\n#include \""@
        + names.lower + "_types.h\"\n\n"@ + prototypes_text(names.capitalized, ds)
        + "\n\n#endif /* ! "@ + names.upper + "_H */\n"@
}

/// The stub source: the include of the function header and the stubs.
pub open spec fn source_artifact(names: UnitNamesModel, ds: Seq<DeclarationModel>) -> Seq<char> {
    "\n#include \""@ + names.lower + ".h\"\n\n"@ + stubs_text(names.capitalized, ds) + "\n\n"@
}

/// The views of a sequence of declarations, in order.
pub open spec fn declaration_models(ds: Seq<Declaration>) -> Seq<DeclarationModel> {
    ds.map_values(|d: Declaration| d@)
}

/// The three artifacts with the names of their files.
#[derive(Clone, Debug, PartialEq, Eq)]
pub struct Artifacts {
    pub types_name: String,
    pub types_text: String,
    pub header_name: String,
    pub header_text: String,
    pub source_name: String,
    pub source_text: String,
}

/// The mathematical content of [`Artifacts`].
pub struct ArtifactsModel {
    pub types_name: Seq<char>,
    pub types_text: Seq<char>,
    pub header_name: Seq<char>,
    pub header_text: Seq<char>,
    pub source_name: Seq<char>,
    pub source_text: Seq<char>,
}

impl View for Artifacts {
    type V = ArtifactsModel;

    open spec fn view(&self) -> ArtifactsModel {
        ArtifactsModel {
            types_name: self.types_name@,
            types_text: self.types_text@,
            header_name: self.header_name@,
            header_text: self.header_text@,
            source_name: self.source_name@,
            source_text: self.source_text@,
        }
    }
}

/// The artifacts for a unit with the given names and declarations.
pub open spec fn spec_artifacts(names: UnitNamesModel, ds: Seq<DeclarationModel>) -> ArtifactsModel {
    ArtifactsModel {
        types_name: names.lower + "_types.h"@,
        types_text: types_artifact(names, ds),
        header_name: names.lower + ".h"@,
        header_text: header_artifact(names, ds),
        source_name: names.lower + ".c"@,
        source_text: source_artifact(names, ds),
    }
}

/// The C name of a type.
pub fn c_type(t: &Type) -> (text: &str)
    ensures
        text@ == type_text(t@),
{
    match t {
        Type::Integer => "int",
        Type::Float => "float",
        Type::Custom(name) => name.as_str(),
    }
}

/// A variable as C declares it.
pub fn render_variable(v: &Variable) -> (text: String)
    ensures
        text@ == variable_text(v@),
{
    match v.kind() {
        MetaType::Primitive(t) => {
            let mut text = String::from_str(c_type(t));
            text.append(" ");
            text.append(v.name().as_str());
            text
        },
        MetaType::Vector(t, n) => {
            let mut text = String::from_str(c_type(t));
            text.append(" ");
            text.append(v.name().as_str());
            text.append("[");
            push_decimal(&mut text, *n);
            text.append("]");
            text
        },
    }
}

/// Writes the fields of a struct behind what `out` holds.
pub fn push_fields(out: &mut String, vars: &Vec<Variable>)
    ensures
        final(out)@ == old(out)@ + fields_text(crate::parser::variable::variable_models(vars@)),
{
    let ghost models = crate::parser::variable::variable_models(vars@);
    let ghost parts = models.map_values(|v: VariableModel| field_text(v));
    let mut i: usize = 0;
    assert(parts.take(0) =~= Seq::<Seq<char>>::empty());
    assert(out@ =~= old(out)@ + concat_all(parts.take(0)));
    while i < vars.len()
        invariant
            i <= vars.len(),
            models == crate::parser::variable::variable_models(vars@),
            parts == models.map_values(|v: VariableModel| field_text(v)),
            out@ == old(out)@ + concat_all(parts.take(i as int)),
        decreases vars.len() - i,
    {
        let ghost before = out@;
        let text = render_variable(&vars[i]);
        out.append(" ");
        out.append(text.as_str());
        out.append(";");
        proof {
            let next = parts.take(i + 1);
            assert(next.drop_last() =~= parts.take(i as int));
            assert(next.last() == field_text(vars@[i as int]@));
            assert(out@ =~= before + field_text(vars@[i as int]@));
            assert(out@ =~= old(out)@ + concat_all(next));
        }
        i += 1;
    }
    assert(parts.take(i as int) =~= parts);
}

/// Writes the parameters that stand before the output pointer behind what
/// `out` holds.
pub fn push_parameters(out: &mut String, vars: &Vec<Variable>)
    ensures
        final(out)@ == old(out)@ + parameters_text(crate::parser::variable::variable_models(vars@)),
{
    let ghost models = crate::parser::variable::variable_models(vars@);
    let ghost parts = models.map_values(|v: VariableModel| parameter_text(v));
    let mut i: usize = 0;
    assert(parts.take(0) =~= Seq::<Seq<char>>::empty());
    assert(out@ =~= old(out)@ + concat_all(parts.take(0)));
    while i < vars.len()
        invariant
            i <= vars.len(),
            models == crate::parser::variable::variable_models(vars@),
            parts == models.map_values(|v: VariableModel| parameter_text(v)),
            out@ == old(out)@ + concat_all(parts.take(i as int)),
        decreases vars.len() - i,
    {
        let ghost before = out@;
        let text = render_variable(&vars[i]);
        out.append(text.as_str());
        out.append(", ");
        proof {
            let next = parts.take(i + 1);
            assert(next.drop_last() =~= parts.take(i as int));
            assert(next.last() == parameter_text(vars@[i as int]@));
            assert(out@ =~= before + parameter_text(vars@[i as int]@));
            assert(out@ =~= old(out)@ + concat_all(next));
        }
        i += 1;
    }
    assert(parts.take(i as int) =~= parts);
}

/// The name of the struct that holds the outputs of `function`.
pub fn output_struct_name(capitalized: &str, function: &str) -> (name: String)
    ensures
        name@ == struct_name(capitalized@, function@),
{
    let mut name = String::from_str(capitalized);
    name.append("__");
    name.append(function);
    name.append("_out");
    name
}

/// The definition of the struct that holds the outputs of `d`.
pub fn typedef(capitalized: &str, d: &Declaration) -> (text: String)
    ensures
        text@ == typedef_text(capitalized@, d@),
{
    let mut text = String::from_str("typedef struct {");
    push_fields(&mut text, &d.outputs);
    text.append(" } ");
    text.append(output_struct_name(capitalized, d.name.as_str()).as_str());
    text.append(";");
    text
}

/// The signature of the step function of `d`.
pub fn signature(capitalized: &str, d: &Declaration) -> (text: String)
    ensures
        text@ == signature_text(capitalized@, d@),
{
    let mut text = String::from_str("void ");
    text.append(capitalized);
    text.append("__");
    text.append(d.name.as_str());
    text.append("_step(");
    push_parameters(&mut text, &d.inputs);
    text.append(output_struct_name(capitalized, d.name.as_str()).as_str());
    text.append(" *_out)");
    text
}

/// The type header of a unit.
pub fn types_file(names: &UnitNames, decls: &Vec<Declaration>) -> (text: String)
    ensures
        text@ == types_artifact(names@, declaration_models(decls@)),
{
    let mut text = String::from_str("\n#ifndef ");
    text.append(names.upper.as_str());
    text.append("_TYPES_H\n#define ");
    text.append(names.upper.as_str());
    text.append("_TYPES_H\n\n");
    let ghost models = declaration_models(decls@);
    let ghost parts = models.map_values(
        |d: DeclarationModel| typedef_text(names@.capitalized, d) + "\n"@,
    );
    let ghost start = text@;
    let mut i: usize = 0;
    assert(parts.take(0) =~= Seq::<Seq<char>>::empty());
    assert(text@ =~= start + concat_all(parts.take(0)));
    while i < decls.len()
        invariant
            i <= decls.len(),
            models == declaration_models(decls@),
            parts == models.map_values(
                |d: DeclarationModel| typedef_text(names@.capitalized, d) + "\n"@,
            ),
            text@ == start + concat_all(parts.take(i as int)),
        decreases decls.len() - i,
    {
        let ghost before = text@;
        let line = typedef(names.capitalized.as_str(), &decls[i]);
        text.append(line.as_str());
        text.append("\n");
        proof {
            let next = parts.take(i + 1);
            assert(next.drop_last() =~= parts.take(i as int));
            assert(next.last() == typedef_text(names@.capitalized, decls@[i as int]@) + "\n"@);
            assert(text@ =~= before + next.last());
            assert(text@ =~= start + concat_all(next));
        }
        i += 1;
    }
    assert(parts.take(i as int) =~= parts);
    text.append("\n\n#endif /* ");
    text.append(names.upper.as_str());
    text.append("_TYPES_H */\n");
    text
}

/// The function header of a unit.
pub fn header_file(names: &UnitNames, decls: &Vec<Declaration>) -> (text: String)
    ensures
        text@ == header_artifact(names@, declaration_models(decls@)),
{
    let mut text = String::from_str("\n#ifndef ");
    text.append(names.upper.as_str());
    text.append("_H\n#define ");
    text.append(names.upper.as_str());
    text.append("_H\n\n#include \"");
    text.append(names.lower.as_str());
    text.append("_types.h\"\n\n");
    let ghost models = declaration_models(decls@);
    let ghost parts = models.map_values(
        |d: DeclarationModel| signature_text(names@.capitalized, d) + ";\n"@,
    );
    let ghost start = text@;
    let mut i: usize = 0;
    assert(parts.take(0) =~= Seq::<Seq<char>>::empty());
    assert(text@ =~= start + concat_all(parts.take(0)));
    while i < decls.len()
        invariant
            i <= decls.len(),
            models == declaration_models(decls@),
            parts == models.map_values(
                |d: DeclarationModel| signature_text(names@.capitalized, d) + ";\n"@,
            ),
            text@ == start + concat_all(parts.take(i as int)),
        decreases decls.len() - i,
    {
        let ghost before = text@;
        let line = signature(names.capitalized.as_str(), &decls[i]);
        text.append(line.as_str());
        text.append(";\n");
        proof {
            let next = parts.take(i + 1);
            assert(next.drop_last() =~= parts.take(i as int));
            assert(next.last() == signature_text(names@.capitalized, decls@[i as int]@) + ";\n"@);
            assert(text@ =~= before + next.last());
            assert(text@ =~= start + concat_all(next));
        }
        i += 1;
    }
    assert(parts.take(i as int) =~= parts);
    text.append("\n\n#endif /* ! ");
    text.append(names.upper.as_str());
    text.append("_H */\n");
    text
}

/// The stub source of a unit.
pub fn source_file(names: &UnitNames, decls: &Vec<Declaration>) -> (text: String)
    ensures
        text@ == source_artifact(names@, declaration_models(decls@)),
{
    let mut text = String::from_str("\n#include \"");
    text.append(names.lower.as_str());
    text.append(".h\"\n\n");
    let ghost models = declaration_models(decls@);
    let ghost parts = models.map_values(
        |d: DeclarationModel| signature_text(names@.capitalized, d) + "\n{\n\n}\n\n"@,
    );
    let ghost start = text@;
    let mut i: usize = 0;
    assert(parts.take(0) =~= Seq::<Seq<char>>::empty());
    assert(text@ =~= start + concat_all(parts.take(0)));
    while i < decls.len()
        invariant
            i <= decls.len(),
            models == declaration_models(decls@),
            parts == models.map_values(
                |d: DeclarationModel| signature_text(names@.capitalized, d) + "\n{\n\n}\n\n"@,
            ),
            text@ == start + concat_all(parts.take(i as int)),
        decreases decls.len() - i,
    {
        let ghost before = text@;
        let line = signature(names.capitalized.as_str(), &decls[i]);
        text.append(line.as_str());
        text.append("\n{\n\n}\n\n");
        proof {
            let next = parts.take(i + 1);
            assert(next.drop_last() =~= parts.take(i as int));
            assert(next.last() == signature_text(names@.capitalized, decls@[i as int]@)
                + "\n{\n\n}\n\n"@);
            assert(text@ =~= before + next.last());
            assert(text@ =~= start + concat_all(next));
        }
        i += 1;
    }
    assert(parts.take(i as int) =~= parts);
    text.append("\n\n");
    text
}

/// The three artifacts of a unit whose names are given.
pub fn generate_with(names: &UnitNames, decls: &Vec<Declaration>) -> (artifacts: Artifacts)
    ensures
        artifacts@ == spec_artifacts(names@, declaration_models(decls@)),
{
    let mut types_name = names.lower.clone();
    types_name.append("_types.h");
    let mut header_name = names.lower.clone();
    header_name.append(".h");
    let mut source_name = names.lower.clone();
    source_name.append(".c");
    Artifacts {
        types_name,
        types_text: types_file(names, decls),
        header_name,
        header_text: header_file(names, decls),
        source_name,
        source_text: source_file(names, decls),
    }
}

/// The three artifacts of the unit named `unit`.
pub fn generate(unit: &str, decls: &Vec<Declaration>) -> (artifacts: Artifacts)
    ensures
        artifacts@ == spec_artifacts(spec_unit_names(unit@), declaration_models(decls@)),
{
    let names = UnitNames::of(unit);
    generate_with(&names, decls)
}

/// The artifacts keep the order of the declarations: the struct
/// definitions, the prototypes and the stubs of two sequences of
/// declarations, one behind the other, are those of the first followed by
/// those of the second. What one declaration adds depends on it alone.
pub proof fn artifacts_follow_declaration_order(
    capitalized: Seq<char>,
    a: Seq<DeclarationModel>,
    b: Seq<DeclarationModel>,
)
    ensures
        typedefs_text(capitalized, a + b) == typedefs_text(capitalized, a) + typedefs_text(
            capitalized,
            b,
        ),
        prototypes_text(capitalized, a + b) == prototypes_text(capitalized, a) + prototypes_text(
            capitalized,
            b,
        ),
        stubs_text(capitalized, a + b) == stubs_text(capitalized, a) + stubs_text(capitalized, b),
{
    let typedef_of = |d: DeclarationModel| typedef_text(capitalized, d) + "\n"@;
    assert((a + b).map_values(typedef_of) =~= a.map_values(typedef_of) + b.map_values(typedef_of));
    concat_all_distributes(a.map_values(typedef_of), b.map_values(typedef_of));
    let prototype_of = |d: DeclarationModel| signature_text(capitalized, d) + ";\n"@;
    assert((a + b).map_values(prototype_of) =~= a.map_values(prototype_of) + b.map_values(
        prototype_of,
    ));
    concat_all_distributes(a.map_values(prototype_of), b.map_values(prototype_of));
    let stub_of = |d: DeclarationModel| signature_text(capitalized, d) + "\n{\n\n}\n\n"@;
    assert((a + b).map_values(stub_of) =~= a.map_values(stub_of) + b.map_values(stub_of));
    concat_all_distributes(a.map_values(stub_of), b.map_values(stub_of));
}

/// The fields of a struct and the parameters of a function keep the order
/// of the variables: those of two sequences of variables, one behind the
/// other, are those of the first followed by those of the second.
pub proof fn texts_follow_variable_order(a: Seq<VariableModel>, b: Seq<VariableModel>)
    ensures
        fields_text(a + b) == fields_text(a) + fields_text(b),
        parameters_text(a + b) == parameters_text(a) + parameters_text(b),
{
    let field_of = |v: VariableModel| field_text(v);
    assert((a + b).map_values(field_of) =~= a.map_values(field_of) + b.map_values(field_of));
    concat_all_distributes(a.map_values(field_of), b.map_values(field_of));
    let parameter_of = |v: VariableModel| parameter_text(v);
    assert((a + b).map_values(parameter_of) =~= a.map_values(parameter_of) + b.map_values(
        parameter_of,
    ));
    concat_all_distributes(a.map_values(parameter_of), b.map_values(parameter_of));
}

/// Generating twice from the same unit name and the same declarations gives
/// the same six texts, character for character.
pub proof fn same_input_same_artifacts(
    first: Artifacts,
    second: Artifacts,
    unit: Seq<char>,
    ds: Seq<DeclarationModel>,
)
    requires
        first@ == spec_artifacts(spec_unit_names(unit), ds),
        second@ == spec_artifacts(spec_unit_names(unit), ds),
    ensures
        first.types_name@ == second.types_name@,
        first.types_text@ == second.types_text@,
        first.header_name@ == second.header_name@,
        first.header_text@ == second.header_text@,
        first.source_name@ == second.source_name@,
        first.source_text@ == second.source_text@,
{
}

} // verus!
