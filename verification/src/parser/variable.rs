//! Types, variables and the rules of the grammar that read them.

use crate::parser::error::{failure, inside, ErrorKind, ParseError, ParseErrorModel, Rule};
use crate::text::{
    alphanumeric, blanks_end, decimal, decimal_reads_back, digits_end, folded, has_char,
    ident_end, number_value, parse_number, run_end_is_first_failure, same_ignoring_case,
    CharClass, Source,
};
use vstd::prelude::*;

verus! {

/// The type of one value.
#[derive(Clone, Debug, PartialEq, Eq)]
pub enum Type {
    Float,
    Integer,
    Custom(String),
}

/// The shape of a variable: one value, or a fixed number of them.
#[derive(Clone, Debug, PartialEq, Eq)]
pub enum MetaType {
    Vector(Type, usize),
    Primitive(Type),
}

/// A named, typed variable.
#[derive(Clone, Debug, PartialEq, Eq)]
pub struct Variable {
    kind: MetaType,
    name: String,
}

/// The mathematical content of a [`Type`].
pub enum TypeModel {
    Float,
    Integer,
    Custom(Seq<char>),
}

/// The mathematical content of a [`MetaType`].
pub enum MetaTypeModel {
    Vector(TypeModel, nat),
    Primitive(TypeModel),
}

/// The mathematical content of a [`Variable`].
pub struct VariableModel {
    pub name: Seq<char>,
    pub kind: MetaTypeModel,
}

impl View for Type {
    type V = TypeModel;

    open spec fn view(&self) -> TypeModel {
        match self {
            Type::Float => TypeModel::Float,
            Type::Integer => TypeModel::Integer,
            Type::Custom(name) => TypeModel::Custom(name@),
        }
    }
}

impl View for MetaType {
    type V = MetaTypeModel;

    open spec fn view(&self) -> MetaTypeModel {
        match self {
            MetaType::Vector(t, n) => MetaTypeModel::Vector(t@, *n as nat),
            MetaType::Primitive(t) => MetaTypeModel::Primitive(t@),
        }
    }
}

impl View for Variable {
    type V = VariableModel;

    closed spec fn view(&self) -> VariableModel {
        VariableModel { name: self.name@, kind: self.kind@ }
    }
}

/// Whether `token` is one of the two reserved type words, in any letter case.
pub open spec fn reserved(token: Seq<char>) -> bool {
    same_ignoring_case(token, "int"@) || same_ignoring_case(token, "float"@)
}

impl TypeModel {
    /// A custom type never carries a reserved word.
    pub open spec fn wf(self) -> bool {
        self matches TypeModel::Custom(name) ==> !reserved(name)
    }
}

impl MetaTypeModel {
    /// The type of the values.
    pub open spec fn base(self) -> TypeModel {
        match self {
            MetaTypeModel::Vector(t, _) => t,
            MetaTypeModel::Primitive(t) => t,
        }
    }

    /// A vector never has length 0, and its length fits the machine.
    pub open spec fn wf(self) -> bool {
        &&& self.base().wf()
        &&& self matches MetaTypeModel::Vector(_, n) ==> 0 < n <= usize::MAX
    }
}

/// The type that a token names: `int` and `float`, in any letter case, are the
/// two built-in types; every other token names a custom type, as written.
pub open spec fn spec_type_of(token: Seq<char>) -> TypeModel {
    if same_ignoring_case(token, "int"@) {
        TypeModel::Integer
    } else if same_ignoring_case(token, "float"@) {
        TypeModel::Float
    } else {
        TypeModel::Custom(token)
    }
}

/// The shape that a length token gives to `base`: no token or the number 0
/// leaves one value, another number makes a vector of that length, and a
/// token that is no number gives nothing.
pub open spec fn spec_meta_type_of(base: TypeModel, length_token: Seq<char>) -> Option<
    MetaTypeModel,
> {
    if length_token.len() == 0 {
        Some(MetaTypeModel::Primitive(base))
    } else {
        match number_value(length_token) {
            None => None,
            Some(n) => if n == 0 {
                Some(MetaTypeModel::Primitive(base))
            } else {
                Some(MetaTypeModel::Vector(base, n))
            },
        }
    }
}

/// The condition that a vector length is no number that fits the machine.
#[derive(Clone, Copy, Debug, PartialEq, Eq, Structural)]
pub struct MalformedLength;

/// The type that `token` names.
pub fn type_of(token: &str) -> (t: Type)
    ensures
        t@ == spec_type_of(token@),
        t@.wf(),
{
    let src = Source::new(token);
    if src.is_word_ignoring_case("int") {
        Type::Integer
    } else if src.is_word_ignoring_case("float") {
        Type::Float
    } else {
        Type::Custom(String::from_str(token))
    }
}

/// The shape that `length_token` gives to `base`.
pub fn meta_type_of(base: Type, length_token: &str) -> (r: Result<MetaType, MalformedLength>)
    ensures
        match r {
            Ok(kind) => spec_meta_type_of(base@, length_token@) == Some(kind@),
            Err(_) => spec_meta_type_of(base@, length_token@) is None,
        },
        r matches Ok(kind) ==> (base@.wf() ==> kind@.wf()),
{
    if length_token.unicode_len() == 0 {
        return Ok(MetaType::Primitive(base));
    }
    match parse_number(length_token) {
        None => Err(MalformedLength),
        Some(n) => if n == 0 {
            Ok(MetaType::Primitive(base))
        } else {
            Ok(MetaType::Vector(base, n))
        },
    }
}

impl Variable {
    /// A variable with the given name and shape.
    pub fn new(name: String, kind: MetaType) -> (v: Self)
        ensures
            v@ == (VariableModel { name: name@, kind: kind@ }),
    {
        Variable { kind, name }
    }

    /// The name.
    pub fn name(&self) -> (name: &String)
        ensures
            name@ == self@.name,
    {
        &self.name
    }

    /// The shape.
    pub fn kind(&self) -> (kind: &MetaType)
        ensures
            kind@ == self@.kind,
    {
        &self.kind
    }
}

impl VariableModel {
    /// The name is one or more alphanumeric characters, and the shape is
    /// well formed.
    pub open spec fn wf(self) -> bool {
        &&& self.name.len() > 0
        &&& forall|i: int| 0 <= i < self.name.len() ==> alphanumeric(#[trigger] self.name[i])
        &&& self.kind.wf()
    }
}

/// The views of a sequence of variables, in order.
pub open spec fn variable_models(vars: Seq<Variable>) -> Seq<VariableModel> {
    vars.map_values(|v: Variable| v@)
}

/// A variable's name: one or more alphanumeric characters. Gives the name
/// and the position behind it.
pub open spec fn spec_variable_name(s: Seq<char>, from: int) -> Result<
    (Seq<char>, int),
    ParseErrorModel,
> {
    let end = ident_end(s, from);
    if end == from {
        failure(ErrorKind::Syntax, from, Rule::VariableName)
    } else {
        Ok((s.subrange(from, end), end))
    }
}

/// A type's name: one or more alphanumeric characters, read by
/// [`spec_type_of`].
pub open spec fn spec_primitive(s: Seq<char>, from: int) -> Result<
    (TypeModel, int),
    ParseErrorModel,
> {
    let end = ident_end(s, from);
    if end == from {
        failure(ErrorKind::Syntax, from, Rule::Primitive)
    } else {
        Ok((spec_type_of(s.subrange(from, end)), end))
    }
}

/// A variable's type: a type's name, then either `^` and a length, or
/// nothing. Once `^` is seen the length must be a number: there is no falling
/// back to the bare type.
pub open spec fn spec_variable_type(s: Seq<char>, from: int) -> Result<
    (MetaTypeModel, int),
    ParseErrorModel,
> {
    match spec_primitive(s, from) {
        Err(e) => Err(inside(e, Rule::VariableType)),
        Ok((base, end)) => if has_char(s, end, '^') {
            let stop = digits_end(s, end + 1);
            if stop == end + 1 {
                failure(ErrorKind::MalformedLength, end + 1, Rule::VariableType)
            } else {
                match spec_meta_type_of(base, s.subrange(end + 1, stop)) {
                    Some(kind) => Ok((kind, stop)),
                    None => failure(ErrorKind::MalformedLength, end + 1, Rule::VariableType),
                }
            }
        } else {
            Ok((MetaTypeModel::Primitive(base), end))
        },
    }
}

/// A variable: its name, `:` with optional blanks on both sides, its type.
pub open spec fn spec_variable(s: Seq<char>, from: int) -> Result<
    (VariableModel, int),
    ParseErrorModel,
> {
    match spec_variable_name(s, from) {
        Err(e) => Err(inside(e, Rule::Variable)),
        Ok((name, end)) => {
            let colon = blanks_end(s, end);
            if !has_char(s, colon, ':') {
                failure(ErrorKind::Syntax, colon, Rule::Variable)
            } else {
                match spec_variable_type(s, blanks_end(s, colon + 1)) {
                    Err(e) => Err(inside(e, Rule::Variable)),
                    Ok((kind, stop)) => Ok((VariableModel { name, kind }, stop)),
                }
            }
        },
    }
}

/// The result of a rule applied at the start of `s`, with the text that is
/// left in place of the position.
pub open spec fn with_rest<T>(s: Seq<char>, r: Result<(T, int), ParseErrorModel>) -> Result<
    (Seq<char>, T),
    ParseErrorModel,
> {
    match r {
        Ok((value, end)) => Ok((s.skip(end), value)),
        Err(e) => Err(e),
    }
}

/// Reads a variable's name at `from`; gives the name and the position behind
/// it.
pub fn variable_name_at<'a>(src: &Source<'a>, from: usize) -> (r: Result<
    (&'a str, usize),
    ParseError,
>)
    requires
        src.wf(),
        from <= src@.len(),
    ensures
        match r {
            Ok((name, end)) => spec_variable_name(src@, from as int) == Ok::<
                (Seq<char>, int),
                ParseErrorModel,
            >((name@, end as int)) && from < end <= src@.len(),
            Err(e) => spec_variable_name(src@, from as int) == Err::<
                (Seq<char>, int),
                ParseErrorModel,
            >(e@),
        },
{
    let end = src.identifier_end(from);
    if end == from {
        Err(ParseError::new(ErrorKind::Syntax, from, Rule::VariableName))
    } else {
        Ok((src.slice(from, end), end))
    }
}

/// Reads a type's name at `from`; gives the type and the position behind it.
pub fn primitive_at<'a>(src: &Source<'a>, from: usize) -> (r: Result<(Type, usize), ParseError>)
    requires
        src.wf(),
        from <= src@.len(),
    ensures
        match r {
            Ok((t, end)) => spec_primitive(src@, from as int) == Ok::<
                (TypeModel, int),
                ParseErrorModel,
            >((t@, end as int)) && from < end <= src@.len() && t@.wf(),
            Err(e) => spec_primitive(src@, from as int) == Err::<(TypeModel, int), ParseErrorModel>(
                e@,
            ),
        },
{
    let end = src.identifier_end(from);
    if end == from {
        Err(ParseError::new(ErrorKind::Syntax, from, Rule::Primitive))
    } else {
        Ok((type_of(src.slice(from, end)), end))
    }
}

/// Reads a variable's type at `from`; gives the type and the position behind
/// it.
pub fn variable_type_at<'a>(src: &Source<'a>, from: usize) -> (r: Result<
    (MetaType, usize),
    ParseError,
>)
    requires
        src.wf(),
        from <= src@.len(),
    ensures
        match r {
            Ok((kind, end)) => spec_variable_type(src@, from as int) == Ok::<
                (MetaTypeModel, int),
                ParseErrorModel,
            >((kind@, end as int)) && from < end <= src@.len() && kind@.wf(),
            Err(e) => spec_variable_type(src@, from as int) == Err::<
                (MetaTypeModel, int),
                ParseErrorModel,
            >(e@),
        },
{
    match primitive_at(src, from) {
        Err(e) => Err(e.inside(Rule::VariableType)),
        Ok((base, end)) => {
            if src.is_char(end, '^') {
                let stop = src.digits_end(end + 1);
                if stop == end + 1 {
                    Err(ParseError::new(ErrorKind::MalformedLength, end + 1, Rule::VariableType))
                } else {
                    match meta_type_of(base, src.slice(end + 1, stop)) {
                        Ok(kind) => Ok((kind, stop)),
                        Err(_) => Err(
                            ParseError::new(
                                ErrorKind::MalformedLength,
                                end + 1,
                                Rule::VariableType,
                            ),
                        ),
                    }
                }
            } else {
                Ok((MetaType::Primitive(base), end))
            }
        },
    }
}

/// Reads a variable at `from`; gives the variable and the position behind it.
pub fn variable_at<'a>(src: &Source<'a>, from: usize) -> (r: Result<(Variable, usize), ParseError>)
    requires
        src.wf(),
        from <= src@.len(),
    ensures
        match r {
            Ok((v, end)) => spec_variable(src@, from as int) == Ok::<
                (VariableModel, int),
                ParseErrorModel,
            >((v@, end as int)) && from < end <= src@.len(),
            Err(e) => spec_variable(src@, from as int) == Err::<
                (VariableModel, int),
                ParseErrorModel,
            >(e@),
        },
{
    match variable_name_at(src, from) {
        Err(e) => Err(e.inside(Rule::Variable)),
        Ok((name, end)) => {
            let colon = src.blanks_end(end);
            if !src.is_char(colon, ':') {
                Err(ParseError::new(ErrorKind::Syntax, colon, Rule::Variable))
            } else {
                let start = src.blanks_end(colon + 1);
                match variable_type_at(src, start) {
                    Err(e) => Err(e.inside(Rule::Variable)),
                    Ok((kind, stop)) => Ok((Variable::new(String::from_str(name), kind), stop)),
                }
            }
        },
    }
}

/// Reads a variable's name at the start of `input`; gives what is left of the
/// input, and the name.
pub fn variable_name<'a>(input: &'a str) -> (r: Result<(&'a str, &'a str), ParseError>)
    ensures
        match r {
            Ok((rest, name)) => with_rest(input@, spec_variable_name(input@, 0)) == Ok::<
                (Seq<char>, Seq<char>),
                ParseErrorModel,
            >((rest@, name@)),
            Err(e) => spec_variable_name(input@, 0) == Err::<(Seq<char>, int), ParseErrorModel>(
                e@,
            ),
        },
{
    let src = Source::new(input);
    match variable_name_at(&src, 0) {
        Ok((name, end)) => Ok((src.rest(end), name)),
        Err(e) => Err(e),
    }
}

/// Reads a type's name at the start of `input`; gives what is left of the
/// input, and the type.
pub fn primitive<'a>(input: &'a str) -> (r: Result<(&'a str, Type), ParseError>)
    ensures
        match r {
            Ok((rest, t)) => with_rest(input@, spec_primitive(input@, 0)) == Ok::<
                (Seq<char>, TypeModel),
                ParseErrorModel,
            >((rest@, t@)),
            Err(e) => spec_primitive(input@, 0) == Err::<(TypeModel, int), ParseErrorModel>(e@),
        },
{
    let src = Source::new(input);
    match primitive_at(&src, 0) {
        Ok((t, end)) => Ok((src.rest(end), t)),
        Err(e) => Err(e),
    }
}

/// Reads a variable's type at the start of `input`; gives what is left of
/// the input, and the type.
pub fn variable_type<'a>(input: &'a str) -> (r: Result<(&'a str, MetaType), ParseError>)
    ensures
        match r {
            Ok((rest, kind)) => with_rest(input@, spec_variable_type(input@, 0)) == Ok::<
                (Seq<char>, MetaTypeModel),
                ParseErrorModel,
            >((rest@, kind@)),
            Err(e) => spec_variable_type(input@, 0) == Err::<(MetaTypeModel, int), ParseErrorModel>(
                e@,
            ),
        },
{
    let src = Source::new(input);
    match variable_type_at(&src, 0) {
        Ok((kind, end)) => Ok((src.rest(end), kind)),
        Err(e) => Err(e),
    }
}

/// Reads a variable at the start of `input`; gives what is left of the input,
/// and the variable.
pub fn variable<'a>(input: &'a str) -> (r: Result<(&'a str, Variable), ParseError>)
    ensures
        match r {
            Ok((rest, v)) => with_rest(input@, spec_variable(input@, 0)) == Ok::<
                (Seq<char>, VariableModel),
                ParseErrorModel,
            >((rest@, v@)),
            Err(e) => spec_variable(input@, 0) == Err::<(VariableModel, int), ParseErrorModel>(e@),
        },
{
    let src = Source::new(input);
    match variable_at(&src, 0) {
        Ok((v, end)) => Ok((src.rest(end), v)),
        Err(e) => Err(e),
    }
}

/// A token that is `int` in any letter case names the integer type, one that
/// is `float` in any letter case names the float type, and every other token
/// names a custom type and is kept as written. A custom type never holds a
/// reserved word.
pub proof fn type_of_token(token: Seq<char>)
    ensures
        same_ignoring_case(token, "int"@) ==> spec_type_of(token) == TypeModel::Integer,
        same_ignoring_case(token, "float"@) ==> spec_type_of(token) == TypeModel::Float,
        !reserved(token) ==> spec_type_of(token) == TypeModel::Custom(token),
        spec_type_of(token).wf(),
{
    reveal_strlit("int");
    reveal_strlit("float");
}

/// What "in any letter case" means for the two reserved words, letter by
/// letter.
pub proof fn reserved_words_spelled_out(token: Seq<char>)
    ensures
        same_ignoring_case(token, "int"@) <==> {
            &&& token.len() == 3
            &&& (token[0] == 'i' || token[0] == 'I')
            &&& (token[1] == 'n' || token[1] == 'N')
            &&& (token[2] == 't' || token[2] == 'T')
        },
        same_ignoring_case(token, "float"@) <==> {
            &&& token.len() == 5
            &&& (token[0] == 'f' || token[0] == 'F')
            &&& (token[1] == 'l' || token[1] == 'L')
            &&& (token[2] == 'o' || token[2] == 'O')
            &&& (token[3] == 'a' || token[3] == 'A')
            &&& (token[4] == 't' || token[4] == 'T')
        },
{
    reveal_strlit("int");
    reveal_strlit("float");
    let int_word = "int"@;
    let float_word = "float"@;
    if token.len() == 3 {
        assert(folded(int_word[0]) == 'i' as int);
        assert(folded(int_word[1]) == 'n' as int);
        assert(folded(int_word[2]) == 't' as int);
        if same_ignoring_case(token, int_word) {
            assert(folded(token[0]) == folded(int_word[0]));
            assert(folded(token[1]) == folded(int_word[1]));
            assert(folded(token[2]) == folded(int_word[2]));
        }
    }
    if token.len() == 5 {
        assert(folded(float_word[0]) == 'f' as int);
        assert(folded(float_word[1]) == 'l' as int);
        assert(folded(float_word[2]) == 'o' as int);
        assert(folded(float_word[3]) == 'a' as int);
        assert(folded(float_word[4]) == 't' as int);
        if same_ignoring_case(token, float_word) {
            assert(folded(token[0]) == folded(float_word[0]));
            assert(folded(token[1]) == folded(float_word[1]));
            assert(folded(token[2]) == folded(float_word[2]));
            assert(folded(token[3]) == folded(float_word[3]));
            assert(folded(token[4]) == folded(float_word[4]));
        }
    }
}

/// The length decides the shape: no length token and every token that
/// writes 0 leave one value; a token that writes a number above 0 makes a
/// vector of that length. This holds in particular of the decimal digits of
/// any number that fits the machine.
pub proof fn length_decides_shape(base: TypeModel, token: Seq<char>, n: nat)
    requires
        n <= usize::MAX,
    ensures
        spec_meta_type_of(base, Seq::empty()) == Some(MetaTypeModel::Primitive(base)),
        token.len() > 0 && number_value(token) == Some(0nat) ==> spec_meta_type_of(base, token)
            == Some(MetaTypeModel::Primitive(base)),
        token.len() > 0 && number_value(token) == Some(n) && n > 0 ==> spec_meta_type_of(
            base,
            token,
        ) == Some(MetaTypeModel::Vector(base, n)),
        spec_meta_type_of(base, decimal(n)) == Some(
            if n == 0 {
                MetaTypeModel::Primitive(base)
            } else {
                MetaTypeModel::Vector(base, n)
            },
        ),
{
    decimal_reads_back(n);
}

/// A variable that the grammar reads is well formed: its name is one or more
/// alphanumeric characters, a vector has a length above 0, and a custom type
/// holds no reserved word.
pub proof fn parsed_variable_is_well_formed(s: Seq<char>, from: int)
    ensures
        spec_variable(s, from) matches Ok((v, _)) ==> v.wf(),
{
    if 0 <= from <= s.len() {
        run_end_is_first_failure(s, from, CharClass::Alphanumeric);
        let end = ident_end(s, from);
        assert forall|i: int| 0 <= i < end - from implies alphanumeric(
            #[trigger] s.subrange(from, end)[i],
        ) by {
            assert(CharClass::Alphanumeric.holds(s[from + i]));
        }
    }
}

} // verus!
