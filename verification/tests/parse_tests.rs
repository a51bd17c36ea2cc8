use wasp::ast::{DataType, Expression, GlobalValue, NumberLiteral, TopLevelOperation};
use wasp::grammar::ParseError;
use wasp::parser::parse;
use wasp::text::{is_comment_char, is_digit, is_identifier_char, is_start_identifier_char, is_text_char};

fn lit(negative: bool, digits: &str) -> NumberLiteral {
    NumberLiteral { negative, digits: digits.to_string() }
}

#[test]
fn start_identifier_chars() {
    assert!(is_start_identifier_char('a'));
    assert!(is_start_identifier_char('Z'));
    assert!(is_start_identifier_char('_'));
    assert!(is_start_identifier_char('$'));
    assert!(is_start_identifier_char('é'));
    assert!(!is_start_identifier_char('1'));
    assert!(!is_start_identifier_char('-'));
    assert!(!is_start_identifier_char(' '));
}

#[test]
fn identifier_chars() {
    assert!(is_identifier_char('a'));
    assert!(is_identifier_char('7'));
    assert!(is_identifier_char('-'));
    assert!(is_identifier_char('!'));
    assert!(is_identifier_char('_'));
    assert!(is_identifier_char('$'));
    assert!(is_identifier_char('½'));
    assert!(!is_identifier_char(' '));
    assert!(!is_identifier_char('('));
    assert!(!is_identifier_char(':'));
}

#[test]
fn text_digit_and_comment_chars() {
    assert!(is_text_char('a'));
    assert!(is_text_char('\n'));
    assert!(!is_text_char('"'));
    assert!(is_digit('0'));
    assert!(is_digit('9'));
    assert!(!is_digit('a'));
    assert!(!is_digit('½'));
    assert!(is_comment_char('x'));
    assert!(!is_comment_char('\n'));
    assert!(!is_comment_char('\r'));
}

#[test]
fn parse_hello_world() {
    let app = parse("extern console_log(message)\n\npub fn main(){\n  console_log(\"Hello World!\")\n}\n")
        .unwrap();
    assert_eq!(app.children.len(), 2);
    match &app.children[0] {
        TopLevelOperation::ExternalFunction(x) => {
            assert_eq!(x.name, "console_log");
            assert_eq!(x.params, vec!["message".to_string()]);
        }
        _ => panic!("expected an extern"),
    }
    match &app.children[1] {
        TopLevelOperation::DefineFunction(f) => {
            assert_eq!(f.name, "main");
            assert!(f.exported);
            assert!(f.params.is_empty());
            assert_eq!(f.children.len(), 1);
            match &f.children[0] {
                Expression::FunctionCall(c) => {
                    assert_eq!(c.function_name, "console_log");
                    assert_eq!(c.params.len(), 1);
                    assert!(matches!(&c.params[0], Expression::TextLiteral(t) if t == "Hello World!"));
                }
                _ => panic!("expected a call"),
            }
        }
        _ => panic!("expected a function"),
    }
}

#[test]
fn parse_empty_program() {
    let app = parse("").unwrap();
    assert!(app.children.is_empty());
    let app = parse("  \n// just a comment\n").unwrap();
    assert_eq!(app.children.len(), 1);
    assert!(matches!(&app.children[0], TopLevelOperation::Comment(c) if c == " just a comment"));
}

#[test]
fn parse_globals() {
    let app = parse("static a = 12\nstatic b = -3.5\nstatic c = :sym\nstatic d = \"hi\"\nstatic e = (1, x, \"t\")\nstatic f = true\n")
        .unwrap();
    assert_eq!(app.children.len(), 6);
    let values: Vec<&GlobalValue> = app
        .children
        .iter()
        .map(|t| match t {
            TopLevelOperation::DefineGlobal(g) => &g.value,
            _ => panic!("expected a global"),
        })
        .collect();
    assert!(matches!(values[0], GlobalValue::Number(n) if *n == lit(false, "12")));
    assert!(matches!(values[1], GlobalValue::Number(n) if *n == lit(true, "3.5")));
    assert!(matches!(values[2], GlobalValue::Symbol(s) if s == "sym"));
    assert!(matches!(values[3], GlobalValue::Text(s) if s == "hi"));
    match values[4] {
        GlobalValue::Data(d) => {
            assert_eq!(d.len(), 3);
            assert!(matches!(&d[0], GlobalValue::Number(n) if *n == lit(false, "1")));
            assert!(matches!(&d[1], GlobalValue::Identifier(s) if s == "x"));
            assert!(matches!(&d[2], GlobalValue::Text(s) if s == "t"));
        }
        _ => panic!("expected data"),
    }
    assert!(matches!(values[5], GlobalValue::Number(n) if *n == lit(false, "1")));
}

#[test]
fn parse_struct() {
    let app = parse("(defstruct point :x :y)").unwrap();
    match &app.children[0] {
        TopLevelOperation::DefineGlobal(g) => {
            assert_eq!(g.name, "point");
            match &g.value {
                GlobalValue::Struct(s) => {
                    let names: Vec<&str> = s.members.iter().map(|m| m.name.as_str()).collect();
                    assert_eq!(names, vec!["x", "y"]);
                }
                _ => panic!("expected a struct"),
            }
        }
        _ => panic!("expected a global"),
    }
}

#[test]
fn parse_function_forms() {
    let app = parse("fn add(a b){ (a + b) !a let (x 5) { x } fn(f64, i32)->f64 (# add 1 2) loop { recur } }")
        .unwrap();
    match &app.children[0] {
        TopLevelOperation::DefineFunction(f) => {
            assert!(!f.exported);
            assert_eq!(f.params, vec!["a".to_string(), "b".to_string()]);
            assert_eq!(f.children.len(), 6);
            assert!(matches!(&f.children[0], Expression::FunctionCall(c) if c.function_name == "+" && c.params.len() == 2));
            assert!(matches!(&f.children[1], Expression::FunctionCall(c) if c.function_name == "!" && c.params.len() == 1));
            match &f.children[2] {
                Expression::Let(l) => {
                    assert_eq!(l.bindings.len(), 1);
                    assert_eq!(l.bindings[0].0, "x");
                    assert!(matches!(&l.bindings[0].1, Expression::Number(n) if *n == lit(false, "5")));
                    assert!(matches!(&l.expressions[0], Expression::Identifier(x) if x == "x"));
                }
                _ => panic!("expected a let"),
            }
            match &f.children[3] {
                Expression::FnSig(s) => {
                    assert_eq!(s.inputs, vec![DataType::F64, DataType::I32]);
                    assert_eq!(s.output, Some(DataType::F64));
                }
                _ => panic!("expected a signature"),
            }
            assert!(matches!(&f.children[4], Expression::Populate(p) if p.name == "add" && p.elements.len() == 2));
            assert!(matches!(&f.children[5], Expression::Loop(l) if l.expressions.len() == 1));
        }
        _ => panic!("expected a function"),
    }
}

#[test]
fn parse_if_statement_is_a_call() {
    let app = parse("fn f(){ if (1) { 2 } else { 3 } }").unwrap();
    match &app.children[0] {
        TopLevelOperation::DefineFunction(f) => {
            assert!(matches!(&f.children[0], Expression::FunctionCall(c) if c.function_name == "if" && c.params.len() == 3));
        }
        _ => panic!("expected a function"),
    }
}

#[test]
fn parse_syntax_error() {
    assert_eq!(parse("pub fn f( {").unwrap_err(), ParseError::Syntax);
    assert_eq!(parse("pub fn f(){ }").unwrap_err(), ParseError::Syntax);
    assert_eq!(parse("static x = ").unwrap_err(), ParseError::Syntax);
}

#[test]
fn parse_invalid_type() {
    assert_eq!(parse("pub fn f(){ fn(())->f64 }").unwrap_err(), ParseError::InvalidType);
}

#[test]
fn parse_comma_separated_parameters() {
    let app = parse("fn add(a,b){ (a + b) }").unwrap();
    match &app.children[0] {
        TopLevelOperation::DefineFunction(f) => {
            assert_eq!(f.params, vec!["a".to_string(), "b".to_string()]);
        }
        _ => panic!("expected a function"),
    }
}

#[test]
fn parse_struct_block() {
    let app = parse("struct point { :x :y }").unwrap();
    match &app.children[0] {
        TopLevelOperation::DefineGlobal(g) => {
            assert_eq!(g.name, "point");
            match &g.value {
                GlobalValue::Struct(s) => {
                    let names: Vec<&str> = s.members.iter().map(|m| m.name.as_str()).collect();
                    assert_eq!(names, vec!["x", "y"]);
                }
                _ => panic!("expected a struct"),
            }
        }
        _ => panic!("expected a global"),
    }
}

#[test]
fn parse_if_without_else() {
    let app = parse("fn f(){ if (1) { 2 } }").unwrap();
    match &app.children[0] {
        TopLevelOperation::DefineFunction(f) => {
            assert_eq!(f.children.len(), 1);
            assert!(matches!(&f.children[0], Expression::FunctionCall(c) if c.function_name == "if" && c.params.len() == 2));
        }
        _ => panic!("expected a function"),
    }
    let app = parse("fn g(x){ if (x < 3) { 1 } else { 2 } }").unwrap();
    match &app.children[0] {
        TopLevelOperation::DefineFunction(f) => {
            assert!(matches!(&f.children[0], Expression::FunctionCall(c) if c.function_name == "if" && c.params.len() == 3));
        }
        _ => panic!("expected a function"),
    }
}

#[test]
fn parse_global_without_static() {
    let app = parse("high_score = 0").unwrap();
    match &app.children[0] {
        TopLevelOperation::DefineGlobal(g) => {
            assert_eq!(g.name, "high_score");
            assert!(matches!(&g.value, GlobalValue::Number(n) if *n == lit(false, "0")));
        }
        _ => panic!("expected a global"),
    }
}
