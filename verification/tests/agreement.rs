use epigen::parser::function::{function_declaration, Declaration};
use epigen::parser::variable::{variable, MetaType, Type, Variable};
use nom::bytes::complete::{tag, take_while, take_while1};
use nom::character::complete::{char, digit1};
use nom::combinator::{cut, map_res, opt};
use nom::multi::separated_list0;
use nom::sequence::{delimited, pair, preceded, tuple};
use nom::IResult;

fn ident(i: &str) -> IResult<&str, &str> {
    take_while1(|c: char| c.is_alphanumeric())(i)
}

fn ws0(i: &str) -> IResult<&str, &str> {
    take_while(|c: char| c == ' ')(i)
}

fn ws1(i: &str) -> IResult<&str, &str> {
    take_while1(|c: char| c == ' ')(i)
}

fn base(token: &str) -> Type {
    match token.to_lowercase().as_str() {
        "int" => Type::Integer,
        "float" => Type::Float,
        _ => Type::Custom(token.to_string()),
    }
}

fn length(i: &str) -> IResult<&str, usize> {
    preceded(
        char('^'),
        cut(map_res(digit1, |d: &str| d.parse::<usize>())),
    )(i)
}

fn vartype(i: &str) -> IResult<&str, MetaType> {
    nom::combinator::map(pair(ident, opt(length)), |(t, n)| match n {
        None | Some(0) => MetaType::Primitive(base(t)),
        Some(n) => MetaType::Vector(base(t), n),
    })(i)
}

fn var(i: &str) -> IResult<&str, Variable> {
    nom::combinator::map(
        tuple((ident, ws0, char(':'), ws0, vartype)),
        |(name, _, _, _, kind)| Variable::new(name.to_string(), kind),
    )(i)
}

fn parens(i: &str) -> IResult<&str, Vec<Variable>> {
    delimited(
        char('('),
        separated_list0(tuple((ws0, char(';'), ws0)), var),
        char(')'),
    )(i)
}

fn decl(i: &str) -> IResult<&str, Declaration> {
    nom::combinator::map(
        tuple((
            opt(pair(tag("val"), ws1)),
            tag("fun"),
            ws1,
            ident,
            ws0,
            parens,
            ws0,
            tag("returns"),
            ws0,
            parens,
        )),
        |(_, _, _, name, _, inputs, _, _, _, outputs)| Declaration {
            name: name.to_string(),
            inputs,
            outputs,
        },
    )(i)
}

const VARIABLES: [&str; 24] = [
    "x:int",
    "x : int",
    "x  :  FLOAT^12 rest",
    "data:float^256",
    "data : float^256",
    "d: Mat^0",
    "d: Mat^007;",
    "d: Mat^18446744073709551615",
    "d: Mat^18446744073709551616",
    "d: Mat^99999999999999999999999999999",
    "d: int^",
    "d: int^abc",
    "d: int^-1",
    "d: int^4^5",
    "d: int ^4",
    "9: 9",
    "\u{e9}t\u{e9}: \u{c9}",
    "x\t: int",
    "x int",
    "x:",
    ": int",
    "",
    "a_b: int",
    "a: b_c",
];

const LINES: [&str; 30] = [
    "fun compute(x: int; data: float^4) returns(y: float)",
    "val fun noop() returns()",
    "fun bad(x: int^abc) returns(y:int)",
    "val   fun   f  (a :int  ;  b:  Mat^3)   returns   (c:float;d:INT)",
    "fun f() returns() trailing",
    "fun f()returns()",
    "fun f()   returns   ()",
    "fun f( ) returns()",
    "fun f(x: int ) returns()",
    "fun f(x: int;) returns()",
    "fun f(x: int; ) returns()",
    "fun f(;x: int) returns()",
    "fun f(x: int;; y: int) returns()",
    "fun f(x: int, y: int) returns()",
    "fun f(x: int y: int) returns()",
    "fun f(x: int) returns(y: float^0; z: float^1)",
    "fun f(x: int) return(y: float)",
    "fun f(x: int) returns y: float",
    "fun f(x: int) returns(y: float",
    "fun f(x: int",
    "fun f",
    "fun",
    "function f() returns()",
    "fun  () returns()",
    "valfun f() returns()",
    "val f() returns()",
    "val",
    " fun f() returns()",
    "FUN f() returns()",
    "fun valve(val: val) returns(fun: fun)",
];

#[test]
fn variable_agrees_with_combinators() {
    for input in VARIABLES {
        assert_eq!(variable(input).ok(), var(input).ok(), "on {:?}", input);
    }
}

#[test]
fn declaration_agrees_with_combinators() {
    for line in LINES {
        assert_eq!(
            function_declaration(line).ok(),
            decl(line).ok(),
            "on {:?}",
            line
        );
    }
}

#[test]
fn combinators_accept_the_plain_cases() {
    assert!(var("x:int").is_ok());
    assert!(decl("fun compute(x: int; data: float^4) returns(y: float)").is_ok());
    assert!(decl("fun bad(x: int^abc) returns(y:int)").is_err());
}

const ALPHABET: [char; 16] = [
    ' ', '(', ')', ':', ';', '^', '0', '7', 'a', 'f', 'v', 'T', '_', '\t', '+', '\u{e9}',
];

fn single_edits(text: &str) -> Vec<String> {
    let chars: Vec<char> = text.chars().collect();
    let mut edits = Vec::new();
    for at in 0..=chars.len() {
        for c in ALPHABET {
            let mut inserted = chars.clone();
            inserted.insert(at, c);
            edits.push(inserted.into_iter().collect());
            if at < chars.len() {
                let mut replaced = chars.clone();
                replaced[at] = c;
                edits.push(replaced.into_iter().collect());
            }
        }
        if at < chars.len() {
            let mut removed = chars.clone();
            removed.remove(at);
            edits.push(removed.into_iter().collect());
        }
    }
    edits
}

#[test]
fn variable_agrees_with_combinators_on_single_edits() {
    let mut accepted = 0;
    for input in VARIABLES {
        for edited in single_edits(input) {
            let found = variable(&edited).ok();
            assert_eq!(found, var(&edited).ok(), "on {:?}", edited);
            if found.is_some() {
                accepted += 1;
            }
        }
    }
    assert!(accepted > 100);
}

#[test]
fn declaration_agrees_with_combinators_on_single_edits() {
    let mut accepted = 0;
    for line in LINES {
        for edited in single_edits(line) {
            let found = function_declaration(&edited).ok();
            assert_eq!(found, decl(&edited).ok(), "on {:?}", edited);
            if found.is_some() {
                accepted += 1;
            }
        }
    }
    assert!(accepted > 100);
}
