use epigen::parser::error::{ErrorKind, ParseError, Rule};
use epigen::parser::function::{function_declaration, Declaration};
use epigen::parser::variable::{MetaType, Type, Variable};

fn var(name: &str, kind: MetaType) -> Variable {
    Variable::new(name.to_string(), kind)
}

fn syntax_error(position: usize) -> ParseError {
    ParseError {
        kind: ErrorKind::Syntax,
        position,
        context: vec![Rule::FunctionDeclaration],
    }
}

#[test]
fn declaration_with_inputs_and_outputs() {
    assert_eq!(
        function_declaration("fun compute(x: int; data: float^4) returns(y: float)"),
        Ok((
            "",
            Declaration {
                name: "compute".to_string(),
                inputs: vec![
                    var("x", MetaType::Primitive(Type::Integer)),
                    var("data", MetaType::Vector(Type::Float, 4)),
                ],
                outputs: vec![var("y", MetaType::Primitive(Type::Float))],
            }
        ))
    );
}

#[test]
fn declaration_with_val_and_empty_lists() {
    assert_eq!(
        function_declaration("val fun noop() returns()"),
        Ok((
            "",
            Declaration {
                name: "noop".to_string(),
                inputs: vec![],
                outputs: vec![],
            }
        ))
    );
}

#[test]
fn declaration_with_malformed_length() {
    assert_eq!(
        function_declaration("fun bad(x: int^abc) returns(y:int)"),
        Err(ParseError {
            kind: ErrorKind::MalformedLength,
            position: 15,
            context: vec![
                Rule::VariableType,
                Rule::Variable,
                Rule::ArgumentList,
                Rule::FunctionDeclaration,
            ],
        })
    );
}

#[test]
fn declaration_leaves_trailing_text() {
    let (rest, d) = function_declaration("fun f() returns() -- note").unwrap();
    assert_eq!(rest, " -- note");
    assert_eq!(d.name, "f");
}

#[test]
fn declaration_with_flexible_blanks() {
    assert_eq!(
        function_declaration("val   fun   f  (a :int  ;  b:  Mat^3)   returns   (c:float;d:INT)"),
        Ok((
            "",
            Declaration {
                name: "f".to_string(),
                inputs: vec![
                    var("a", MetaType::Primitive(Type::Integer)),
                    var("b", MetaType::Vector(Type::Custom("Mat".to_string()), 3)),
                ],
                outputs: vec![
                    var("c", MetaType::Primitive(Type::Float)),
                    var("d", MetaType::Primitive(Type::Integer)),
                ],
            }
        ))
    );
}

#[test]
fn declaration_needs_fun() {
    assert_eq!(function_declaration("function"), Err(syntax_error(3)));
    assert_eq!(function_declaration("node f() returns()"), Err(syntax_error(0)));
    assert_eq!(function_declaration("valfun f() returns()"), Err(syntax_error(0)));
    assert_eq!(function_declaration("val f() returns()"), Err(syntax_error(4)));
    assert_eq!(function_declaration(" fun f() returns()"), Err(syntax_error(0)));
}

#[test]
fn declaration_needs_a_name() {
    assert_eq!(function_declaration("fun () returns()"), Err(syntax_error(4)));
    assert_eq!(function_declaration("fun"), Err(syntax_error(3)));
}

#[test]
fn declaration_needs_parentheses_and_returns() {
    assert_eq!(function_declaration("fun f returns()"), Err(syntax_error(6)));
    assert_eq!(function_declaration("fun f(x: int returns()"), Err(syntax_error(12)));
    assert_eq!(function_declaration("fun f() return()"), Err(syntax_error(8)));
    assert_eq!(function_declaration("fun f() returns"), Err(syntax_error(15)));
    assert_eq!(function_declaration("fun f() returns(y: int"), Err(syntax_error(22)));
}

#[test]
fn separator_must_be_followed_by_a_variable() {
    assert_eq!(
        function_declaration("fun f(x: int;) returns()"),
        Err(ParseError {
            kind: ErrorKind::Syntax,
            position: 13,
            context: vec![
                Rule::VariableName,
                Rule::Variable,
                Rule::ArgumentList,
                Rule::FunctionDeclaration,
            ],
        })
    );
}

#[test]
fn underscore_ends_a_name() {
    assert_eq!(function_declaration("fun my_f() returns()"), Err(syntax_error(6)));
}
