use epigen::parser::error::{ErrorKind, ParseError, Rule};
use epigen::parser::variable::{
    meta_type_of, primitive, type_of, variable, variable_name, variable_type, MalformedLength,
    MetaType, Type, Variable,
};

fn error(kind: ErrorKind, position: usize, context: Vec<Rule>) -> ParseError {
    ParseError { kind, position, context }
}

#[test]
fn variable_name_test() {
    assert_eq!(variable_name("size : int"), Ok((" : int", "size")));
}

#[test]
fn primitive_int_test() {
    assert_eq!(primitive("int"), Ok(("", Type::Integer)));
}

#[test]
fn primitive_float_test() {
    assert_eq!(primitive("float"), Ok(("", Type::Float)));
}

#[test]
fn primitive_custom_test() {
    assert_eq!(
        primitive("custom "),
        Ok((" ", Type::Custom("custom".to_string())))
    );
}

#[test]
fn variable_primitive_test() {
    assert_eq!(
        variable_type("int "),
        Ok((" ", MetaType::Primitive(Type::Integer)))
    );
}

#[test]
fn variable_vector_test() {
    assert_eq!(
        variable_type("float^256 "),
        Ok((" ", MetaType::Vector(Type::Float, 256)))
    );
}

#[test]
fn variable_test() {
    assert_eq!(
        variable("data:float^256"),
        Ok((
            "",
            Variable::new("data".to_string(), MetaType::Vector(Type::Float, 256))
        ))
    );
}

#[test]
fn variable_space_test() {
    assert_eq!(
        variable("data : float^256"),
        Ok((
            "",
            Variable::new("data".to_string(), MetaType::Vector(Type::Float, 256))
        ))
    );
}

#[test]
fn type_of_reserved_words_in_any_case() {
    for token in ["int", "INT", "Int", "iNt"] {
        assert_eq!(type_of(token), Type::Integer);
    }
    for token in ["float", "FLOAT", "Float", "fLoAt"] {
        assert_eq!(type_of(token), Type::Float);
    }
}

#[test]
fn type_of_custom_keeps_case() {
    assert_eq!(type_of("Matrix"), Type::Custom("Matrix".to_string()));
    assert_eq!(type_of("INTEGER"), Type::Custom("INTEGER".to_string()));
    assert_eq!(type_of("in"), Type::Custom("in".to_string()));
    assert_eq!(type_of("floats"), Type::Custom("floats".to_string()));
    assert_eq!(type_of(""), Type::Custom(String::new()));
    assert_eq!(type_of("\u{130}nt"), Type::Custom("\u{130}nt".to_string()));
}

#[test]
fn meta_type_of_without_length_is_primitive() {
    assert_eq!(
        meta_type_of(Type::Integer, ""),
        Ok(MetaType::Primitive(Type::Integer))
    );
    assert_eq!(
        meta_type_of(Type::Float, "0"),
        Ok(MetaType::Primitive(Type::Float))
    );
    assert_eq!(
        meta_type_of(Type::Float, "000"),
        Ok(MetaType::Primitive(Type::Float))
    );
}

#[test]
fn meta_type_of_with_length_is_vector() {
    assert_eq!(
        meta_type_of(Type::Float, "4"),
        Ok(MetaType::Vector(Type::Float, 4))
    );
    assert_eq!(
        meta_type_of(Type::Custom("m".to_string()), "007"),
        Ok(MetaType::Vector(Type::Custom("m".to_string()), 7))
    );
    assert_eq!(
        meta_type_of(Type::Integer, "+12"),
        Ok(MetaType::Vector(Type::Integer, 12))
    );
    let max = usize::MAX.to_string();
    assert_eq!(
        meta_type_of(Type::Integer, &max),
        Ok(MetaType::Vector(Type::Integer, usize::MAX))
    );
}

#[test]
fn meta_type_of_rejects_what_is_no_number() {
    for token in ["abc", "-1", "4x", " 4", "+", "1_000", "340282366920938463463374607431768211456"] {
        assert_eq!(meta_type_of(Type::Integer, token), Err(MalformedLength));
    }
    let mut above = usize::MAX.to_string();
    above.push('0');
    assert_eq!(meta_type_of(Type::Integer, &above), Err(MalformedLength));
}

#[test]
fn meta_type_of_agrees_with_std_parse() {
    for token in ["0", "1", "9", "10", "255", "256", "65536", "+3", "18446744073709551615", "18446744073709551616", "x", "1 "] {
        let expected = match token.parse::<usize>() {
            Ok(0) => Ok(MetaType::Primitive(Type::Float)),
            Ok(n) => Ok(MetaType::Vector(Type::Float, n)),
            Err(_) => Err(MalformedLength),
        };
        assert_eq!(meta_type_of(Type::Float, token), expected);
    }
}

#[test]
fn variable_accessors() {
    let v = Variable::new("x".to_string(), MetaType::Primitive(Type::Integer));
    assert_eq!(v.name(), "x");
    assert_eq!(v.kind(), &MetaType::Primitive(Type::Integer));
}

#[test]
fn variable_with_zero_length_is_primitive() {
    assert_eq!(
        variable("x: int^0;"),
        Ok((
            ";",
            Variable::new("x".to_string(), MetaType::Primitive(Type::Integer))
        ))
    );
}

#[test]
fn variable_name_stops_at_punctuation() {
    assert_eq!(variable_name("a_b"), Ok(("_b", "a")));
    assert_eq!(variable_name("a-b"), Ok(("-b", "a")));
    assert_eq!(variable_name("x1y2)"), Ok((")", "x1y2")));
    assert_eq!(variable_name("caf\u{e9}:"), Ok((":", "caf\u{e9}")));
}

#[test]
fn variable_name_must_not_be_empty() {
    assert_eq!(
        variable_name(": int"),
        Err(error(ErrorKind::Syntax, 0, vec![Rule::VariableName]))
    );
    assert_eq!(
        variable(""),
        Err(error(
            ErrorKind::Syntax,
            0,
            vec![Rule::VariableName, Rule::Variable]
        ))
    );
}

#[test]
fn variable_needs_a_colon() {
    assert_eq!(
        variable("x  int"),
        Err(error(ErrorKind::Syntax, 3, vec![Rule::Variable]))
    );
}

#[test]
fn variable_needs_a_type() {
    assert_eq!(
        variable("x: ;"),
        Err(error(
            ErrorKind::Syntax,
            3,
            vec![Rule::Primitive, Rule::VariableType, Rule::Variable]
        ))
    );
}

#[test]
fn variable_length_does_not_fall_back() {
    assert_eq!(
        variable("x: int^abc"),
        Err(error(
            ErrorKind::MalformedLength,
            7,
            vec![Rule::VariableType, Rule::Variable]
        ))
    );
    assert_eq!(
        variable_type("int^"),
        Err(error(ErrorKind::MalformedLength, 4, vec![Rule::VariableType]))
    );
    assert_eq!(
        variable_type("int^99999999999999999999999999"),
        Err(error(ErrorKind::MalformedLength, 4, vec![Rule::VariableType]))
    );
}

#[test]
fn tabs_are_no_blanks() {
    assert_eq!(
        variable("x\t: int"),
        Err(error(ErrorKind::Syntax, 1, vec![Rule::Variable]))
    );
}

#[test]
fn error_reports_innermost_rule() {
    let e = variable("x: ;").unwrap_err();
    assert_eq!(e.rule(), Some(Rule::Primitive));
    assert_eq!(Rule::ArgumentList.name(), "argument list");
    assert_eq!(Rule::Variable.name(), "variable");
    assert_eq!(Rule::FunctionDeclaration.name(), "function declaration");
    assert_eq!(Rule::VariableName.name(), "variable name");
    assert_eq!(Rule::VariableType.name(), "variable type");
    assert_eq!(Rule::Primitive.name(), "primitive");
}

#[test]
fn type_of_agrees_with_lowercasing() {
    for token in [
        "int", "INT", "Int", "inT", "float", "FLOAT", "Float", "floaT", "integer", "in", "flo",
        "\u{130}NT", "\u{131}nt", "\u{ff29}\u{ff2e}\u{ff34}", "\u{17f}loat", "fl\u{f6}at", "i\u{307}nt",
        "INt ", "", "Custom", "x1",
    ] {
        let expected = match token.to_lowercase().as_str() {
            "int" => Type::Integer,
            "float" => Type::Float,
            _ => Type::Custom(token.to_string()),
        };
        assert_eq!(type_of(token), expected, "on {:?}", token);
    }
}
