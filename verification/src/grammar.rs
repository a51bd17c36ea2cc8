//! The wasp grammar, as a specification.
//!
//! Each rule is a spec function from the input characters `s` and a
//! position `p` to an outcome: a value and the position after it, a
//! failure (the rule does not apply, and an enclosing alternative may try
//! the next one), or an abort (a malformed type name inside a function
//! signature, which stops the whole parse whatever encloses it).
//!
//! The rules are parser combinators written out step by step, with their
//! whitespace handling: `ws(rule)` skips blanks (space, tab,
//! carriage return, line feed) before and after `rule`; lists stop at the
//! first element that does not parse (leaving the position before it) or
//! that parses without consuming input.  A few branches below are guarded
//! by position checks (`p < q <= s.len()`); the positions computed by the
//! rules always pass them, and they are there so that the recursion
//! visibly terminates.
use vstd::prelude::*;
use crate::ast::{DataType, NumberV, ExprV, GlobalValueV, FunctionV, TopV};
use crate::text::{
    is_whitespace_spec, is_start_identifier_spec, is_identifier_spec, is_text_spec,
    is_digit_spec, is_comment_spec,
};

verus! {

/// How a rule ends.
pub enum PR<T> {
    Got(T, int),
    Fail,
    Panic,
}

/// Why a rule did not produce a value.
#[derive(Debug, Clone, Copy, PartialEq, Eq, Structural)]
pub enum Stop {
    Fail,
    Panic,
}

/// Why a program does not parse.
#[derive(Debug, Clone, Copy, PartialEq, Eq, Structural)]
pub enum ParseError {
    /// The text is not a sequence of top-level items.
    Syntax,
    /// A function signature names `()` where a value type stands.
    InvalidType,
}

#[derive(Debug, Clone, Copy, PartialEq, Eq, Structural)]
pub enum Class {
    Space,
    Comment,
    IdentStart,
    Ident,
    Text,
    Digit,
}

pub open spec fn in_class(k: Class, c: char) -> bool {
    match k {
        Class::Space => is_whitespace_spec(c),
        Class::Comment => is_comment_spec(c),
        Class::IdentStart => is_start_identifier_spec(c),
        Class::Ident => is_identifier_spec(c),
        Class::Text => is_text_spec(c),
        Class::Digit => is_digit_spec(c),
    }
}

pub open spec fn or_else<T>(a: PR<T>, b: PR<T>) -> PR<T> {
    match a {
        PR::Fail => b,
        _ => a,
    }
}

pub open spec fn prepend<T>(x: T, r: PR<Seq<T>>) -> PR<Seq<T>> {
    match r {
        PR::Got(v, e) => PR::Got(seq![x] + v, e),
        PR::Fail => PR::Fail,
        PR::Panic => PR::Panic,
    }
}

// ---------------------------------------------------------------------
// Tokens
// ---------------------------------------------------------------------

/// The end of the longest run of characters of class `k` from `p`.
pub open spec fn span_end(s: Seq<char>, p: int, k: Class) -> int
    decreases s.len() - p,
{
    if 0 <= p < s.len() && in_class(k, s[p]) {
        span_end(s, p + 1, k)
    } else {
        p
    }
}

pub open spec fn ws_end(s: Seq<char>, p: int) -> int {
    span_end(s, p, Class::Space)
}

/// `t` at `p`.
pub open spec fn tag_end(s: Seq<char>, p: int, t: Seq<char>) -> Option<int> {
    if 0 <= p && p + t.len() <= s.len() && s.subrange(p, p + t.len()) == t {
        Some(p + t.len())
    } else {
        None
    }
}

/// `ws(t)`.
pub open spec fn ws_tag(s: Seq<char>, p: int, t: Seq<char>) -> Option<int> {
    match tag_end(s, ws_end(s, p), t) {
        Some(q) => Some(ws_end(s, q)),
        None => None,
    }
}

/// An identifier: a run of start characters, then a run of identifier
/// characters.
pub open spec fn identifier(s: Seq<char>, p: int) -> Option<(Seq<char>, int)> {
    let a = span_end(s, p, Class::IdentStart);
    if a == p {
        None
    } else {
        let b = span_end(s, a, Class::Ident);
        Some((s.subrange(p, b), b))
    }
}

pub open spec fn ws_identifier(s: Seq<char>, p: int) -> Option<(Seq<char>, int)> {
    match identifier(s, ws_end(s, p)) {
        Some((x, q)) => Some((x, ws_end(s, q))),
        None => None,
    }
}

/// Any number of `ws("//" comment-text)`; the position after them.
pub open spec fn comments(s: Seq<char>, p: int) -> int
    decreases s.len() - p,
{
    match tag_end(s, ws_end(s, p), "//"@) {
        None => p,
        Some(q) => {
            let e = ws_end(s, span_end(s, q, Class::Comment));
            if p < e <= s.len() {
                comments(s, e)
            } else {
                p
            }
        },
    }
}

/// `:` and a run of identifier characters (possibly empty).
pub open spec fn symbol(s: Seq<char>, p: int) -> Option<(Seq<char>, int)> {
    match tag_end(s, p, ":"@) {
        Some(q) => {
            let e = span_end(s, q, Class::Ident);
            Some((s.subrange(q, e), e))
        },
        None => None,
    }
}

/// `"`, the characters up to the next `"`, and that `"`.
pub open spec fn text(s: Seq<char>, p: int) -> Option<(Seq<char>, int)> {
    match tag_end(s, p, "\""@) {
        Some(q) => {
            let e = span_end(s, q, Class::Text);
            match tag_end(s, e, "\""@) {
                Some(f) => Some((s.subrange(q, e), f)),
                None => None,
            }
        },
        None => None,
    }
}

/// At least one digit.
pub open spec fn digits(s: Seq<char>, p: int) -> Option<int> {
    let e = span_end(s, p, Class::Digit);
    if e == p {
        None
    } else {
        Some(e)
    }
}

/// `digits "." digits`, else `digits`.
pub open spec fn unsigned_number(s: Seq<char>, p: int) -> Option<(Seq<char>, int)> {
    let float = match digits(s, p) {
        Some(a) => match tag_end(s, a, "."@) {
            Some(b) => match digits(s, b) {
                Some(c) => Some((s.subrange(p, c), c)),
                None => None,
            },
            None => None,
        },
        None => None,
    };
    match float {
        Some(x) => Some(x),
        None => match digits(s, p) {
            Some(a) => Some((s.subrange(p, a), a)),
            None => None,
        },
    }
}

/// An unsigned number, else `-` and an unsigned number.
pub open spec fn number(s: Seq<char>, p: int) -> Option<(NumberV, int)> {
    match unsigned_number(s, p) {
        Some((d, q)) => Some((NumberV { negative: false, digits: d }, q)),
        None => match tag_end(s, p, "-"@) {
            Some(a) => match unsigned_number(s, a) {
                Some((d, q)) => Some((NumberV { negative: true, digits: d }, q)),
                None => None,
            },
            None => None,
        },
    }
}

/// A value type; `()` aborts the parse.
pub open spec fn data_type(s: Seq<char>, p: int) -> PR<DataType> {
    if tag_end(s, p, "()"@) is Some {
        PR::Panic
    } else {
        match tag_end(s, p, "i32"@) {
            Some(q) => PR::Got(DataType::I32, q),
            None => match tag_end(s, p, "i64"@) {
                Some(q) => PR::Got(DataType::I64, q),
                None => match tag_end(s, p, "f32"@) {
                    Some(q) => PR::Got(DataType::F32, q),
                    None => match tag_end(s, p, "f64"@) {
                        Some(q) => PR::Got(DataType::F64, q),
                        None => PR::Fail,
                    },
                },
            },
        }
    }
}

pub open spec fn ws_data_type(s: Seq<char>, p: int) -> PR<DataType> {
    match data_type(s, ws_end(s, p)) {
        PR::Got(t, q) => PR::Got(t, ws_end(s, q)),
        PR::Fail => PR::Fail,
        PR::Panic => PR::Panic,
    }
}

/// The rest of a `,`-separated list of value types after position `q`.
pub open spec fn data_type_rest(s: Seq<char>, q: int) -> PR<Seq<DataType>>
    decreases s.len() - q,
{
    match tag_end(s, ws_end(s, q), ","@) {
        None => PR::Got(seq![], q),
        Some(q2) => if q2 == q {
            PR::Got(seq![], q)
        } else {
            match ws_data_type(s, ws_end(s, q2)) {
                PR::Fail => PR::Got(seq![], q),
                PR::Panic => PR::Panic,
                PR::Got(t, q3) => if q3 == q2 {
                    PR::Got(seq![], q)
                } else if q < q3 <= s.len() {
                    prepend(t, data_type_rest(s, q3))
                } else {
                    PR::Got(seq![], q)
                },
            }
        },
    }
}

/// `ws(list of ws(value type) separated by ",")`.
pub open spec fn data_type_list(s: Seq<char>, p: int) -> PR<Seq<DataType>> {
    let q0 = ws_end(s, p);
    match ws_data_type(s, ws_end(s, q0)) {
        PR::Fail => PR::Got(seq![], ws_end(s, q0)),
        PR::Panic => PR::Panic,
        PR::Got(t, q1) => if q1 == q0 {
            PR::Fail
        } else {
            match prepend(t, data_type_rest(s, q1)) {
                PR::Got(v, e) => PR::Got(v, ws_end(s, e)),
                PR::Fail => PR::Fail,
                PR::Panic => PR::Panic,
            }
        },
    }
}

/// The rest of a `,`-separated list of identifiers after position `q`.
pub open spec fn identifier_rest(s: Seq<char>, q: int) -> (Seq<Seq<char>>, int)
    decreases s.len() - q,
{
    match tag_end(s, ws_end(s, q), ","@) {
        None => (seq![], q),
        Some(q2) => if q2 == q {
            (seq![], q)
        } else {
            match ws_identifier(s, ws_end(s, q2)) {
                None => (seq![], q),
                Some((x, q3)) => if q3 == q2 {
                    (seq![], q)
                } else if q < q3 <= s.len() {
                    let (xs, e) = identifier_rest(s, q3);
                    (seq![x] + xs, e)
                } else {
                    (seq![], q)
                },
            }
        },
    }
}

/// `ws(list of ws(identifier) separated by ",")`.
pub open spec fn identifier_list(s: Seq<char>, p: int) -> Option<(Seq<Seq<char>>, int)> {
    let q0 = ws_end(s, p);
    match ws_identifier(s, ws_end(s, q0)) {
        None => Some((seq![], ws_end(s, q0))),
        Some((x, q1)) => if q1 == q0 {
            None
        } else {
            let (xs, e) = identifier_rest(s, q1);
            Some((seq![x] + xs, ws_end(s, e)))
        },
    }
}

/// Any number of `ws(identifier)`, each optionally followed by `ws(",")`.
pub open spec fn identifier_star(s: Seq<char>, p: int) -> (Seq<Seq<char>>, int)
    decreases s.len() - p,
{
    match ws_identifier(s, p) {
        None => (seq![], p),
        Some((x, q0)) => {
            let q = match ws_tag(s, q0, ","@) {
                Some(r) => r,
                None => q0,
            };
            if p < q <= s.len() {
                let (xs, e) = identifier_star(s, q);
                (seq![x] + xs, e)
            } else {
                (seq![], p)
            }
        },
    }
}

/// `t` at `p`, with `t` as the value.
pub open spec fn tag_value(s: Seq<char>, p: int, t: Seq<char>) -> Option<(Seq<char>, int)> {
    match tag_end(s, p, t) {
        Some(q) => Some((t, q)),
        None => None,
    }
}

pub open spec fn or_opt<T>(a: Option<T>, b: Option<T>) -> Option<T> {
    match a {
        Some(x) => Some(x),
        None => b,
    }
}

/// The binary operators, the first that matches in this order.
pub open spec fn operator_identifier(s: Seq<char>, p: int) -> Option<(Seq<char>, int)> {
    or_opt(tag_value(s, p, ">>"@), or_opt(tag_value(s, p, "<<"@), or_opt(tag_value(s, p, ">="@), or_opt(tag_value(s, p, "<="@), or_opt(tag_value(s, p, ">"@), or_opt(tag_value(s, p, "<"@), or_opt(tag_value(s, p, "or"@), or_opt(tag_value(s, p, "and"@), or_opt(tag_value(s, p, "!="@), or_opt(tag_value(s, p, "=="@), or_opt(tag_value(s, p, "+"@), or_opt(tag_value(s, p, "-"@), or_opt(tag_value(s, p, "*"@), or_opt(tag_value(s, p, "/"@), or_opt(tag_value(s, p, "%"@), or_opt(tag_value(s, p, "|"@), tag_value(s, p, "&"@)))))))))))))))))
}

/// The unary operators.
pub open spec fn unary_identifier(s: Seq<char>, p: int) -> Option<(Seq<char>, int)> {
    or_opt(tag_value(s, p, "^"@), or_opt(tag_value(s, p, "~"@), tag_value(s, p, "!"@)))
}

/// The name in a call: `call`, else an identifier, else `do`, else `if`.
pub open spec fn function_identifier(s: Seq<char>, p: int) -> Option<(Seq<char>, int)> {
    or_opt(
        tag_value(s, p, "call"@),
        or_opt(identifier(s, p), or_opt(tag_value(s, p, "do"@), tag_value(s, p, "if"@))),
    )
}

// ---------------------------------------------------------------------
// Expressions that hold no expression
// ---------------------------------------------------------------------

/// `ws("fn") comments ws("(") comments types comments ws(")") ws("->")
/// comments [ws(type)]`.
pub open spec fn e_fnsig(s: Seq<char>, p: int) -> PR<ExprV> {
    match ws_tag(s, p, "fn"@) {
        None => PR::Fail,
        Some(q1) => match ws_tag(s, comments(s, q1), "("@) {
            None => PR::Fail,
            Some(q2) => match data_type_list(s, comments(s, q2)) {
                PR::Fail => PR::Fail,
                PR::Panic => PR::Panic,
                PR::Got(ins, q3) => match ws_tag(s, comments(s, q3), ")"@) {
                    None => PR::Fail,
                    Some(q4) => match ws_tag(s, q4, "->"@) {
                        None => PR::Fail,
                        Some(q5) => {
                            let c = comments(s, q5);
                            match ws_data_type(s, c) {
                                PR::Got(t, q6) => PR::Got(ExprV::FnSig(ins, Some(t)), q6),
                                PR::Fail => PR::Got(ExprV::FnSig(ins, None), c),
                                PR::Panic => PR::Panic,
                            }
                        },
                    },
                },
            },
        },
    }
}

pub open spec fn e_recur(s: Seq<char>, p: int) -> PR<ExprV> {
    match tag_end(s, p, "recur"@) {
        Some(q) => PR::Got(ExprV::Recur, q),
        None => PR::Fail,
    }
}

pub open spec fn e_number(s: Seq<char>, p: int) -> PR<ExprV> {
    match number(s, ws_end(s, p)) {
        Some((n, q)) => PR::Got(ExprV::Number(n), ws_end(s, q)),
        None => PR::Fail,
    }
}

pub open spec fn one_v() -> NumberV {
    NumberV { negative: false, digits: "1"@ }
}

pub open spec fn zero_v() -> NumberV {
    NumberV { negative: false, digits: "0"@ }
}

pub open spec fn e_true(s: Seq<char>, p: int) -> PR<ExprV> {
    match tag_end(s, p, "true"@) {
        Some(q) => PR::Got(ExprV::Number(one_v()), q),
        None => PR::Fail,
    }
}

pub open spec fn e_false(s: Seq<char>, p: int) -> PR<ExprV> {
    match tag_end(s, p, "false"@) {
        Some(q) => PR::Got(ExprV::Number(zero_v()), q),
        None => PR::Fail,
    }
}

pub open spec fn e_comment(s: Seq<char>, p: int) -> PR<ExprV> {
    match tag_end(s, p, "//"@) {
        Some(q) => {
            let e = span_end(s, q, Class::Comment);
            PR::Got(ExprV::Comment(s.subrange(q, e)), e)
        },
        None => PR::Fail,
    }
}

pub open spec fn e_symbol(s: Seq<char>, p: int) -> PR<ExprV> {
    match symbol(s, ws_end(s, p)) {
        Some((x, q)) => PR::Got(ExprV::SymbolLiteral(x), ws_end(s, q)),
        None => PR::Fail,
    }
}

pub open spec fn e_text(s: Seq<char>, p: int) -> PR<ExprV> {
    match text(s, ws_end(s, p)) {
        Some((x, q)) => PR::Got(ExprV::TextLiteral(x), ws_end(s, q)),
        None => PR::Fail,
    }
}

pub open spec fn e_identifier(s: Seq<char>, p: int) -> PR<ExprV> {
    match ws_identifier(s, p) {
        Some((x, q)) => PR::Got(ExprV::Identifier(x), q),
        None => PR::Fail,
    }
}

// ---------------------------------------------------------------------
// Expressions that hold expressions
// ---------------------------------------------------------------------

/// `ws(expression)` at `q`, for a rule that started at `p < q`.
pub open spec fn sub_expr(s: Seq<char>, p: int, q: int) -> PR<ExprV>
    decreases s.len() - p, 0int,
{
    if p < q <= s.len() {
        ws_expr(s, q)
    } else {
        PR::Fail
    }
}

/// `ws(one or more ws(expression))` at `q`, for a rule that started at
/// `p < q`; the trailing blanks are skipped.
pub open spec fn sub_exprs(s: Seq<char>, p: int, q: int) -> PR<Seq<ExprV>>
    decreases s.len() - p, 0int,
{
    if p < q <= s.len() {
        match exprs_many1(s, q) {
            PR::Got(v, e) => PR::Got(v, ws_end(s, e)),
            PR::Fail => PR::Fail,
            PR::Panic => PR::Panic,
        }
    } else {
        PR::Fail
    }
}

/// The call arguments at `q`, for a rule that started at `p < q`.
pub open spec fn sub_params(s: Seq<char>, p: int, q: int) -> PR<Seq<ExprV>>
    decreases s.len() - p, 0int,
{
    if p < q <= s.len() {
        params(s, q)
    } else {
        PR::Fail
    }
}

/// The `let` bindings at `q`, for a rule that started at `p < q`; the
/// trailing blanks are skipped.
pub open spec fn sub_bindings(s: Seq<char>, p: int, q: int) -> PR<Seq<(Seq<char>, ExprV)>>
    decreases s.len() - p, 0int,
{
    if p < q <= s.len() {
        match bindings(s, q) {
            PR::Got(v, e) => PR::Got(v, ws_end(s, e)),
            PR::Fail => PR::Fail,
            PR::Panic => PR::Panic,
        }
    } else {
        PR::Fail
    }
}

/// `ws("if") cond ws("{") ws(e) "}" [ws("else") ws("{") ws(e) "}"]`,
/// where the condition is `ws("(") ws(e) ws(")")` or else `ws(e)`: a call
/// of `if` with the condition and the one or two branches.
pub open spec fn e_if(s: Seq<char>, p: int) -> PR<ExprV>
    decreases s.len() - p, 3int,
{
    match ws_tag(s, p, "if"@) {
        None => PR::Fail,
        Some(q1) => or_else(
            match ws_tag(s, q1, "("@) {
                None => PR::Fail,
                Some(q2) => match sub_expr(s, p, q2) {
                    PR::Fail => PR::Fail,
                    PR::Panic => PR::Panic,
                    PR::Got(a, q3) => match ws_tag(s, q3, ")"@) {
                        None => PR::Fail,
                        Some(q4) => e_if_then(s, p, a, q4),
                    },
                },
            },
            match sub_expr(s, p, q1) {
                PR::Fail => PR::Fail,
                PR::Panic => PR::Panic,
                PR::Got(a, q3) => e_if_then(s, p, a, q3),
            },
        ),
    }
}

/// The part of `e_if` after its condition `a`, from `q`.
pub open spec fn e_if_then(s: Seq<char>, p: int, a: ExprV, q: int) -> PR<ExprV>
    decreases s.len() - p, 2int,
{
    match ws_tag(s, q, "{"@) {
        None => PR::Fail,
        Some(q5) => match sub_expr(s, p, q5) {
            PR::Fail => PR::Fail,
            PR::Panic => PR::Panic,
            PR::Got(b, q6) => match tag_end(s, q6, "}"@) {
                None => PR::Fail,
                Some(q7) => e_if_else(s, p, a, b, q7),
            },
        },
    }
}

/// The `else` part of `e_if`, from `q`; without it, a call of `if` with
/// two arguments.
pub open spec fn e_if_else(s: Seq<char>, p: int, a: ExprV, b: ExprV, q: int) -> PR<ExprV>
    decreases s.len() - p, 1int,
{
    match ws_tag(s, q, "else"@) {
        None => PR::Got(ExprV::FunctionCall("if"@, seq![a, b]), q),
        Some(q8) => match ws_tag(s, q8, "{"@) {
            None => PR::Fail,
            Some(q9) => match sub_expr(s, p, q9) {
                PR::Fail => PR::Fail,
                PR::Panic => PR::Panic,
                PR::Got(c, q10) => match tag_end(s, q10, "}"@) {
                    None => PR::Fail,
                    Some(q11) => PR::Got(ExprV::FunctionCall("if"@, seq![a, b, c]), q11),
                },
            },
        },
    }
}

/// `ws("let") ws("(") bindings ws(")") ws("{") expressions "}"`.
pub open spec fn e_let(s: Seq<char>, p: int) -> PR<ExprV>
    decreases s.len() - p, 3int,
{
    match ws_tag(s, p, "let"@) {
        None => PR::Fail,
        Some(q1) => match ws_tag(s, q1, "("@) {
            None => PR::Fail,
            Some(q2) => match sub_bindings(s, p, q2) {
                PR::Fail => PR::Fail,
                PR::Panic => PR::Panic,
                PR::Got(bs, q3) => e_let_body(s, p, bs, q3),
            },
        },
    }
}

/// The part of `e_let` after its bindings `bs`, from `q`.
pub open spec fn e_let_body(s: Seq<char>, p: int, bs: Seq<(Seq<char>, ExprV)>, q: int) -> PR<ExprV>
    decreases s.len() - p, 2int,
{
    match ws_tag(s, q, ")"@) {
        None => PR::Fail,
        Some(q4) => match ws_tag(s, q4, "{"@) {
            None => PR::Fail,
            Some(q5) => match sub_exprs(s, p, q5) {
                PR::Fail => PR::Fail,
                PR::Panic => PR::Panic,
                PR::Got(es, q6) => match tag_end(s, q6, "}"@) {
                    None => PR::Fail,
                    Some(q7) => PR::Got(ExprV::Let(bs, es), q7),
                },
            },
        },
    }
}

/// `"(" ws(e) ws(operator) ws(e) ")"`: a call of the operator.
pub open spec fn e_operator(s: Seq<char>, p: int) -> PR<ExprV>
    decreases s.len() - p, 3int,
{
    match tag_end(s, p, "("@) {
        None => PR::Fail,
        Some(q1) => match sub_expr(s, p, q1) {
            PR::Fail => PR::Fail,
            PR::Panic => PR::Panic,
            PR::Got(a, q2) => match operator_identifier(s, ws_end(s, q2)) {
                None => PR::Fail,
                Some((op, q3)) => match sub_expr(s, p, ws_end(s, q3)) {
                    PR::Fail => PR::Fail,
                    PR::Panic => PR::Panic,
                    PR::Got(b, q4) => match tag_end(s, q4, ")"@) {
                        None => PR::Fail,
                        Some(q5) => PR::Got(ExprV::FunctionCall(op, seq![a, b]), q5),
                    },
                },
            },
        },
    }
}

/// `ws(unary operator) ws(e)`: a call of the operator.
pub open spec fn e_unary(s: Seq<char>, p: int) -> PR<ExprV>
    decreases s.len() - p, 3int,
{
    match unary_identifier(s, ws_end(s, p)) {
        None => PR::Fail,
        Some((op, q1)) => match sub_expr(s, p, ws_end(s, q1)) {
            PR::Fail => PR::Fail,
            PR::Panic => PR::Panic,
            PR::Got(a, q2) => PR::Got(ExprV::FunctionCall(op, seq![a]), q2),
        },
    }
}

/// `ws(identifier) ws("=") ws(e)`.
pub open spec fn e_assign(s: Seq<char>, p: int) -> PR<ExprV>
    decreases s.len() - p, 3int,
{
    match ws_identifier(s, p) {
        None => PR::Fail,
        Some((id, q1)) => match ws_tag(s, q1, "="@) {
            None => PR::Fail,
            Some(q2) => match sub_expr(s, p, q2) {
                PR::Fail => PR::Fail,
                PR::Panic => PR::Panic,
                PR::Got(v, q3) => PR::Got(ExprV::Assignment(id, Box::new(v)), q3),
            },
        },
    }
}

/// `ws(function name) "(" ws(arguments) ws(")")`.
pub open spec fn e_call(s: Seq<char>, p: int) -> PR<ExprV>
    decreases s.len() - p, 3int,
{
    match function_identifier(s, ws_end(s, p)) {
        None => PR::Fail,
        Some((name, q1)) => match tag_end(s, ws_end(s, q1), "("@) {
            None => PR::Fail,
            Some(q2) => match sub_params(s, p, ws_end(s, q2)) {
                PR::Fail => PR::Fail,
                PR::Panic => PR::Panic,
                PR::Got(ps, q3) => match ws_tag(s, ws_end(s, q3), ")"@) {
                    None => PR::Fail,
                    Some(q4) => PR::Got(ExprV::FunctionCall(name, ps), q4),
                },
            },
        },
    }
}

/// `"(" comments "#" comments ws(identifier) comments expressions
/// comments ")"`.
pub open spec fn e_populate(s: Seq<char>, p: int) -> PR<ExprV>
    decreases s.len() - p, 3int,
{
    match tag_end(s, p, "("@) {
        None => PR::Fail,
        Some(q1) => match tag_end(s, comments(s, q1), "#"@) {
            None => PR::Fail,
            Some(q2) => match ws_identifier(s, comments(s, q2)) {
                None => PR::Fail,
                Some((name, q3)) => match sub_exprs(s, p, comments(s, q3)) {
                    PR::Fail => PR::Fail,
                    PR::Panic => PR::Panic,
                    PR::Got(es, q4) => match tag_end(s, comments(s, q4), ")"@) {
                        None => PR::Fail,
                        Some(q5) => PR::Got(ExprV::Populate(name, es), q5),
                    },
                },
            },
        },
    }
}

/// `ws("loop") comments ws("{") expressions "}"`.
pub open spec fn e_loop(s: Seq<char>, p: int) -> PR<ExprV>
    decreases s.len() - p, 3int,
{
    match ws_tag(s, p, "loop"@) {
        None => PR::Fail,
        Some(q1) => match ws_tag(s, comments(s, q1), "{"@) {
            None => PR::Fail,
            Some(q2) => match sub_exprs(s, p, q2) {
                PR::Fail => PR::Fail,
                PR::Panic => PR::Panic,
                PR::Got(es, q3) => match tag_end(s, q3, "}"@) {
                    None => PR::Fail,
                    Some(q4) => PR::Got(ExprV::Loop(es), q4),
                },
            },
        },
    }
}

/// One `let` binding, blanks first: `ws(identifier) ws(e)`.
pub open spec fn binding(s: Seq<char>, p: int) -> PR<(Seq<char>, ExprV)>
    decreases s.len() - p, 3int,
{
    match ws_identifier(s, ws_end(s, ws_end(s, p))) {
        None => PR::Fail,
        Some((id, q1)) => match sub_expr(s, p, q1) {
            PR::Fail => PR::Fail,
            PR::Panic => PR::Panic,
            PR::Got(e, q2) => PR::Got((id, e), ws_end(s, q2)),
        },
    }
}

/// The first expression rule that applies, tried in this order.
pub open spec fn expression(s: Seq<char>, p: int) -> PR<ExprV>
    decreases s.len() - p, 4int,
{
    or_else(
        e_if(s, p),
        or_else(
            e_fnsig(s, p),
            or_else(
                e_let(s, p),
                or_else(
                    e_operator(s, p),
                    or_else(
                        e_unary(s, p),
                        or_else(
                            e_assign(s, p),
                            or_else(
                                e_call(s, p),
                                or_else(
                                    e_populate(s, p),
                                    or_else(
                                        e_loop(s, p),
                                        or_else(
                                            e_recur(s, p),
                                            or_else(
                                                e_number(s, p),
                                                or_else(
                                                    e_true(s, p),
                                                    or_else(
                                                        e_false(s, p),
                                                        or_else(
                                                            e_comment(s, p),
                                                            or_else(
                                                                e_symbol(s, p),
                                                                or_else(
                                                                    e_text(s, p),
                                                                    e_identifier(s, p),
                                                                ),
                                                            ),
                                                        ),
                                                    ),
                                                ),
                                            ),
                                        ),
                                    ),
                                ),
                            ),
                        ),
                    ),
                ),
            ),
        ),
    )
}

/// `ws(expression)`.
pub open spec fn ws_expr(s: Seq<char>, p: int) -> PR<ExprV>
    decreases s.len() - p, 5int,
{
    let q = ws_end(s, p);
    if p <= q <= s.len() {
        match expression(s, q) {
            PR::Got(e, r) => PR::Got(e, ws_end(s, r)),
            PR::Fail => PR::Fail,
            PR::Panic => PR::Panic,
        }
    } else {
        PR::Fail
    }
}

/// One or more `ws(expression)`, each after skipped blanks.
pub open spec fn exprs_many1(s: Seq<char>, p: int) -> PR<Seq<ExprV>>
    decreases s.len() - p, 6int,
{
    let r = ws_end(s, p);
    if p <= r <= s.len() {
        match ws_expr(s, r) {
            PR::Fail => PR::Fail,
            PR::Panic => PR::Panic,
            PR::Got(e, q) => if p < q <= s.len() {
                prepend(e, exprs_rest(s, q))
            } else {
                PR::Got(seq![e], q)
            },
        }
    } else {
        PR::Fail
    }
}

/// The rest of a list of `ws(expression)` after position `q`.
pub open spec fn exprs_rest(s: Seq<char>, q: int) -> PR<Seq<ExprV>>
    decreases s.len() - q, 6int,
{
    let r = ws_end(s, q);
    if q <= r <= s.len() {
        match ws_expr(s, r) {
            PR::Fail => PR::Got(seq![], q),
            PR::Panic => PR::Panic,
            PR::Got(e, q2) => if q2 == q {
                PR::Got(seq![], q)
            } else if q < q2 <= s.len() {
                prepend(e, exprs_rest(s, q2))
            } else {
                PR::Got(seq![], q)
            },
        }
    } else {
        PR::Fail
    }
}

/// Call arguments: `ws(list of ws(expression) separated by ",")`.
pub open spec fn params(s: Seq<char>, p: int) -> PR<Seq<ExprV>>
    decreases s.len() - p, 6int,
{
    let q0 = ws_end(s, p);
    let r = ws_end(s, q0);
    if p <= r <= s.len() {
        match ws_expr(s, r) {
            PR::Fail => PR::Got(seq![], ws_end(s, q0)),
            PR::Panic => PR::Panic,
            PR::Got(e, q1) => if q1 == q0 {
                PR::Fail
            } else if p < q1 <= s.len() {
                match prepend(e, params_rest(s, q1)) {
                    PR::Got(v, f) => PR::Got(v, ws_end(s, f)),
                    PR::Fail => PR::Fail,
                    PR::Panic => PR::Panic,
                }
            } else {
                PR::Fail
            },
        }
    } else {
        PR::Fail
    }
}

/// The rest of the call arguments after position `q`.
pub open spec fn params_rest(s: Seq<char>, q: int) -> PR<Seq<ExprV>>
    decreases s.len() - q, 6int,
{
    match tag_end(s, ws_end(s, q), ","@) {
        None => PR::Got(seq![], q),
        Some(q2) => {
            let r = ws_end(s, q2);
            if q2 == q {
                PR::Got(seq![], q)
            } else if q <= r <= s.len() {
                match ws_expr(s, r) {
                    PR::Fail => PR::Got(seq![], q),
                    PR::Panic => PR::Panic,
                    PR::Got(e, q3) => if q3 == q2 {
                        PR::Got(seq![], q)
                    } else if q < q3 <= s.len() {
                        prepend(e, params_rest(s, q3))
                    } else {
                        PR::Got(seq![], q)
                    },
                }
            } else {
                PR::Got(seq![], q)
            }
        },
    }
}

/// Any number of `let` bindings.
pub open spec fn bindings(s: Seq<char>, p: int) -> PR<Seq<(Seq<char>, ExprV)>>
    decreases s.len() - p, 6int,
{
    match binding(s, p) {
        PR::Fail => PR::Got(seq![], p),
        PR::Panic => PR::Panic,
        PR::Got(b, q) => if q == p {
            PR::Got(seq![], p)
        } else if p < q <= s.len() {
            prepend(b, bindings(s, q))
        } else {
            PR::Got(seq![], p)
        },
    }
}

// ---------------------------------------------------------------------
// Global values
// ---------------------------------------------------------------------

/// `ws(one of: "true", "false", number, symbol, text, data)`.
pub open spec fn global_value(s: Seq<char>, p: int) -> Option<(GlobalValueV, int)>
    decreases s.len() - p, 2int,
{
    let c = ws_end(s, ws_end(s, p));
    if p <= c <= s.len() {
        let v = match tag_end(s, c, "true"@) {
            Some(q) => Some((GlobalValueV::Number(one_v()), q)),
            None => match tag_end(s, c, "false"@) {
                Some(q) => Some((GlobalValueV::Number(zero_v()), q)),
                None => match number(s, c) {
                    Some((n, q)) => Some((GlobalValueV::Number(n), q)),
                    None => match symbol(s, c) {
                        Some((x, q)) => Some((GlobalValueV::Symbol(x), q)),
                        None => match text(s, c) {
                            Some((x, q)) => Some((GlobalValueV::Text(x), q)),
                            None => global_data(s, c),
                        },
                    },
                },
            },
        };
        match v {
            Some((g, q)) => Some((g, ws_end(s, q))),
            None => None,
        }
    } else {
        None
    }
}

/// `"(" ws(list of elements separated by ",") ")"`.
pub open spec fn global_data(s: Seq<char>, p: int) -> Option<(GlobalValueV, int)>
    decreases s.len() - p, 1int,
{
    match tag_end(s, p, "("@) {
        None => None,
        Some(q) => {
            let r0 = ws_end(s, q);
            if p < r0 <= s.len() {
                let list: Option<(Seq<GlobalValueV>, int)> = match global_element(s, r0) {
                    None => Some((seq![], r0)),
                    Some((v, r1)) => if r1 == r0 {
                        None
                    } else if p < r1 <= s.len() {
                        let (vs, e) = global_rest(s, r1);
                        Some((seq![v] + vs, e))
                    } else {
                        None
                    },
                };
                match list {
                    None => None,
                    Some((vs, e)) => match tag_end(s, ws_end(s, e), ")"@) {
                        Some(f) => Some((GlobalValueV::Data(vs), f)),
                        None => None,
                    },
                }
            } else {
                None
            }
        },
    }
}

/// An element of global data: a global value, else an identifier.
pub open spec fn global_element(s: Seq<char>, p: int) -> Option<(GlobalValueV, int)>
    decreases s.len() - p, 3int,
{
    let c = ws_end(s, ws_end(s, ws_end(s, p)));
    if p <= c <= s.len() {
        match global_value(s, c) {
            Some((v, q)) => Some((v, ws_end(s, q))),
            None => match identifier(s, c) {
                Some((x, q)) => Some((GlobalValueV::Identifier(x), ws_end(s, q))),
                None => None,
            },
        }
    } else {
        None
    }
}

/// The rest of the elements of global data after position `q`.
pub open spec fn global_rest(s: Seq<char>, q: int) -> (Seq<GlobalValueV>, int)
    decreases s.len() - q, 4int,
{
    match tag_end(s, ws_end(s, q), ","@) {
        None => (seq![], q),
        Some(q2) => if q2 == q {
            (seq![], q)
        } else if q < q2 <= s.len() {
            match global_element(s, q2) {
                None => (seq![], q),
                Some((v, q3)) => if q3 == q2 {
                    (seq![], q)
                } else if q < q3 <= s.len() {
                    let (vs, e) = global_rest(s, q3);
                    (seq![v] + vs, e)
                } else {
                    (seq![], q)
                },
            }
        } else {
            (seq![], q)
        },
    }
}

// ---------------------------------------------------------------------
// Top-level items
// ---------------------------------------------------------------------

pub open spec fn t_comment(s: Seq<char>, p: int) -> PR<TopV> {
    match tag_end(s, p, "//"@) {
        Some(q) => {
            let e = span_end(s, q, Class::Comment);
            PR::Got(TopV::Comment(s.subrange(q, e)), e)
        },
        None => PR::Fail,
    }
}

/// `ws("extern") ws(identifier) ws("(") identifiers ws(")")`.
pub open spec fn t_extern(s: Seq<char>, p: int) -> PR<TopV> {
    match ws_tag(s, p, "extern"@) {
        None => PR::Fail,
        Some(q1) => match ws_identifier(s, q1) {
            None => PR::Fail,
            Some((name, q2)) => match ws_tag(s, q2, "("@) {
                None => PR::Fail,
                Some(q3) => match identifier_list(s, q3) {
                    None => PR::Fail,
                    Some((ps, q4)) => match ws_tag(s, q4, ")"@) {
                        None => PR::Fail,
                        Some(q5) => PR::Got(TopV::ExternalFunction(name, ps), q5),
                    },
                },
            },
        },
    }
}

/// `[ws("pub")] comments ws("fn") comments ws(identifier) comments
/// ws("(") comments (ws(identifier) [ws(",")])* comments ws(")") comments ws("{")
/// expressions "}"`.
pub open spec fn t_function(s: Seq<char>, p: int) -> PR<TopV> {
    let (exported, q0) = match ws_tag(s, p, "pub"@) {
        Some(q) => (true, q),
        None => (false, p),
    };
    match ws_tag(s, comments(s, q0), "fn"@) {
        None => PR::Fail,
        Some(q1) => match ws_identifier(s, comments(s, q1)) {
            None => PR::Fail,
            Some((name, q2)) => match ws_tag(s, comments(s, q2), "("@) {
                None => PR::Fail,
                Some(q3) => {
                    let (ps, q4) = identifier_star(s, comments(s, q3));
                    match ws_tag(s, comments(s, q4), ")"@) {
                        None => PR::Fail,
                        Some(q5) => match ws_tag(s, comments(s, q5), "{"@) {
                            None => PR::Fail,
                            Some(q6) => match exprs_many1(s, q6) {
                                PR::Fail => PR::Fail,
                                PR::Panic => PR::Panic,
                                PR::Got(es, q7) => match tag_end(s, q7, "}"@) {
                                    None => PR::Fail,
                                    Some(q8) => PR::Got(
                                        TopV::DefineFunction(
                                            FunctionV {
                                                name,
                                                exported,
                                                params: ps,
                                                output: None,
                                                children: es,
                                            },
                                        ),
                                        q8,
                                    ),
                                },
                            },
                        },
                    }
                },
            },
        },
    }
}

/// `ws(symbol comments)`.
pub open spec fn struct_member(s: Seq<char>, p: int) -> Option<(Seq<char>, int)> {
    match symbol(s, ws_end(s, p)) {
        Some((x, q)) => Some((x, ws_end(s, comments(s, q)))),
        None => None,
    }
}

pub open spec fn struct_members(s: Seq<char>, p: int) -> (Seq<Seq<char>>, int)
    decreases s.len() - p,
{
    match struct_member(s, p) {
        None => (seq![], p),
        Some((x, q)) => if p < q <= s.len() {
            let (xs, e) = struct_members(s, q);
            (seq![x] + xs, e)
        } else {
            (seq![], p)
        },
    }
}

/// `"(" comments ws("defstruct") comments ws(identifier) comments
/// ws(member)* comments ")"`.
pub open spec fn t_struct(s: Seq<char>, p: int) -> PR<TopV> {
    match tag_end(s, p, "("@) {
        None => PR::Fail,
        Some(q1) => match ws_tag(s, comments(s, q1), "defstruct"@) {
            None => PR::Fail,
            Some(q2) => match ws_identifier(s, comments(s, q2)) {
                None => PR::Fail,
                Some((name, q3)) => {
                    let (ms, q4) = struct_members(s, comments(s, q3));
                    match tag_end(s, comments(s, q4), ")"@) {
                        None => PR::Fail,
                        Some(q5) => PR::Got(TopV::DefineGlobal(name, GlobalValueV::Struct(ms)), q5),
                    }
                },
            },
        },
    }
}

/// `ws("struct") ws(identifier) ws("{") comments ws(member)* comments
/// "}"`.
pub open spec fn t_struct_block(s: Seq<char>, p: int) -> PR<TopV> {
    match ws_tag(s, p, "struct"@) {
        None => PR::Fail,
        Some(q1) => match ws_identifier(s, q1) {
            None => PR::Fail,
            Some((name, q2)) => match ws_tag(s, q2, "{"@) {
                None => PR::Fail,
                Some(q3) => {
                    let (ms, q4) = struct_members(s, comments(s, q3));
                    match tag_end(s, ws_end(s, comments(s, q4)), "}"@) {
                        None => PR::Fail,
                        Some(q5) => PR::Got(TopV::DefineGlobal(name, GlobalValueV::Struct(ms)), q5),
                    }
                },
            },
        },
    }
}

/// `ws(identifier) ws("=") global-value`: a global without `static`.
pub open spec fn t_global_plain(s: Seq<char>, p: int) -> PR<TopV> {
    match ws_identifier(s, p) {
        None => PR::Fail,
        Some((name, q2)) => match ws_tag(s, q2, "="@) {
            None => PR::Fail,
            Some(q3) => match global_value(s, q3) {
                None => PR::Fail,
                Some((v, q4)) => PR::Got(TopV::DefineGlobal(name, v), q4),
            },
        },
    }
}

/// `ws("static") ws(identifier) ws("=") global-value`.
pub open spec fn t_global(s: Seq<char>, p: int) -> PR<TopV> {
    match ws_tag(s, p, "static"@) {
        None => PR::Fail,
        Some(q1) => match ws_identifier(s, q1) {
            None => PR::Fail,
            Some((name, q2)) => match ws_tag(s, q2, "="@) {
                None => PR::Fail,
                Some(q3) => match global_value(s, q3) {
                    None => PR::Fail,
                    Some((v, q4)) => PR::Got(TopV::DefineGlobal(name, v), q4),
                },
            },
        },
    }
}

/// `ws(comment | extern | function | struct | global)`, where a struct is
/// `(defstruct ..)` or `struct .. { .. }` and a global is written with or
/// without `static`.
pub open spec fn top_item(s: Seq<char>, p: int) -> PR<TopV> {
    let c = ws_end(s, ws_end(s, p));
    match or_else(
        t_comment(s, c),
        or_else(
            t_extern(s, c),
            or_else(
                t_function(s, c),
                or_else(
                    t_struct(s, c),
                    or_else(
                        t_struct_block(s, c),
                        or_else(t_global(s, c), t_global_plain(s, c)),
                    ),
                ),
            ),
        ),
    ) {
        PR::Got(t, q) => PR::Got(t, ws_end(s, q)),
        PR::Fail => PR::Fail,
        PR::Panic => PR::Panic,
    }
}

/// Any number of top-level items.
pub open spec fn top_items(s: Seq<char>, p: int) -> PR<Seq<TopV>>
    decreases s.len() - p,
{
    match top_item(s, p) {
        PR::Fail => PR::Got(seq![], p),
        PR::Panic => PR::Panic,
        PR::Got(t, q) => if q == p {
            PR::Got(seq![], p)
        } else if p < q <= s.len() {
            prepend(t, top_items(s, q))
        } else {
            PR::Got(seq![], p)
        },
    }
}

/// A program: top-level items up to the end of the text.
pub open spec fn program(s: Seq<char>) -> Result<Seq<TopV>, ParseError> {
    match top_items(s, 0) {
        PR::Got(ts, q) => if q == s.len() {
            Ok(ts)
        } else {
            Err(ParseError::Syntax)
        },
        PR::Fail => Err(ParseError::Syntax),
        PR::Panic => Err(ParseError::InvalidType),
    }
}

} // verus!
