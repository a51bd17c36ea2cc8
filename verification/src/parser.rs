//! The wasp parser: each function computes the rule of `grammar.rs` of the
//! same name and is proved to agree with it.
use vstd::prelude::*;
use crate::ast::{
    App, DataType, Expression, ExprV, GlobalValue, GlobalValueV, NumberLiteral, OperationFnSig,
    OperationFunctionCall, OperationLet, OperationLoop, OperationPopulate, OperationRecur,
    OperationAssignment, StructDefinition, StructMember, TopLevelOperation, TopV,
    FunctionDefinition, Global, ExternalFunction, view_exprs, view_bindings, view_globals,
    strings_view, member_names, view_tops,
};
use crate::grammar::{
    e_if_then, e_if_else, e_let_body, PR, Stop, ParseError, Class, in_class, prepend, span_end,
    ws_end, tag_end, ws_tag, identifier, ws_identifier, comments, symbol, text, digits,
    unsigned_number, number, data_type, ws_data_type, data_type_rest, data_type_list,
    identifier_rest, identifier_list, identifier_star, tag_value, operator_identifier,
    unary_identifier, function_identifier, e_fnsig, e_recur, e_number, e_true, e_false, e_comment,
    e_symbol, e_text, e_identifier, one_v, zero_v, sub_expr, sub_exprs, sub_params, sub_bindings,
    e_if, e_let, e_operator, e_unary, e_assign, e_call, e_populate, e_loop, binding, expression,
    ws_expr, exprs_many1, exprs_rest, params, params_rest, bindings, global_value, global_data,
    global_element, global_rest, t_comment, t_extern, t_function, struct_member, struct_members,
    t_struct, t_struct_block, t_global, t_global_plain, top_item, top_items, program,
};
use crate::text::{
    is_start_identifier_char, is_identifier_char, is_text_char, is_digit, is_comment_char,
    string_of_range, chars_of,
};

verus! {

/// `r` is the executable outcome of the rule whose specified outcome is
/// `sp`, the value seen through `f`.
pub open spec fn agrees<T, V>(r: Result<(T, usize), Stop>, sp: PR<V>, f: spec_fn(T) -> V) -> bool {
    match r {
        Ok((v, q)) => sp == PR::Got(f(v), q as int),
        Err(Stop::Fail) => sp is Fail,
        Err(Stop::Panic) => sp is Panic,
    }
}

pub open spec fn opt_agrees<T, V>(r: Option<(T, usize)>, sp: Option<(V, int)>, f: spec_fn(T) -> V) -> bool {
    match r {
        Some((v, q)) => sp == Some((f(v), q as int)),
        None => sp is None,
    }
}

pub open spec fn pos_agrees(r: Option<usize>, sp: Option<int>) -> bool {
    match r {
        Some(q) => sp == Some(q as int),
        None => sp is None,
    }
}

/// `r`, with the blanks after its end skipped.
pub open spec fn then_ws<T>(s: Seq<char>, r: PR<T>) -> PR<T> {
    match r {
        PR::Got(v, e) => PR::Got(v, ws_end(s, e)),
        PR::Fail => PR::Fail,
        PR::Panic => PR::Panic,
    }
}

/// The list `xs` followed by the list that `r` yields.
pub open spec fn prepend_all<T>(xs: Seq<T>, r: PR<Seq<T>>) -> PR<Seq<T>> {
    match r {
        PR::Got(v, e) => PR::Got(xs + v, e),
        PR::Fail => PR::Fail,
        PR::Panic => PR::Panic,
    }
}

proof fn lemma_prepend_all_step<T>(xs: Seq<T>, x: T, r: PR<Seq<T>>)
    ensures
        prepend_all(xs, prepend(x, r)) == prepend_all(xs.push(x), r),
{
    match r {
        PR::Got(v, e) => {
            assert(xs + (seq![x] + v) =~= xs.push(x) + v);
        },
        _ => {},
    }
}

proof fn lemma_span_bounds(s: Seq<char>, p: int, k: Class)
    requires
        0 <= p <= s.len(),
    ensures
        p <= span_end(s, p, k) <= s.len(),
    decreases s.len() - p,
{
    if 0 <= p < s.len() && in_class(k, s[p]) {
        lemma_span_bounds(s, p + 1, k);
    }
}

proof fn lemma_comments_bounds(s: Seq<char>, p: int)
    requires
        0 <= p <= s.len(),
    ensures
        p <= comments(s, p) <= s.len(),
    decreases s.len() - p,
{
    match tag_end(s, ws_end(s, p), "//"@) {
        None => {},
        Some(q) => {
            let e = ws_end(s, span_end(s, q, Class::Comment));
            if p < e <= s.len() {
                lemma_comments_bounds(s, e);
            }
        },
    }
}

fn class_has(k: Class, c: char) -> (r: bool)
    ensures
        r == in_class(k, c),
{
    match k {
        Class::Space => c == ' ' || c == '\t' || c == '\r' || c == '\n',
        Class::Comment => is_comment_char(c),
        Class::IdentStart => is_start_identifier_char(c),
        Class::Ident => is_identifier_char(c),
        Class::Text => is_text_char(c),
        Class::Digit => is_digit(c),
    }
}

fn span(s: &Vec<char>, p: usize, k: Class) -> (q: usize)
    requires
        p <= s@.len(),
    ensures
        q as int == span_end(s@, p as int, k),
        p <= q <= s@.len(),
{
    let mut q = p;
    while q < s.len() && class_has(k, s[q])
        invariant
            p <= q <= s@.len(),
            span_end(s@, q as int, k) == span_end(s@, p as int, k),
        decreases s@.len() - q,
    {
        q = q + 1;
    }
    q
}

fn skip_ws(s: &Vec<char>, p: usize) -> (q: usize)
    requires
        p <= s@.len(),
    ensures
        q as int == ws_end(s@, p as int),
        p <= q <= s@.len(),
{
    span(s, p, Class::Space)
}

fn tag_at(s: &Vec<char>, p: usize, t: &str) -> (r: Option<usize>)
    requires
        p <= s@.len(),
    ensures
        pos_agrees(r, tag_end(s@, p as int, t@)),
        r matches Some(q) ==> p <= q <= s@.len() && q == p + t@.len(),
{
    let n = t.unicode_len();
    if n > s.len() - p {
        return None;
    }
    let mut i: usize = 0;
    while i < n
        invariant
            n == t@.len(),
            p + n <= s.len(),
            i <= n,
            forall|j: int| 0 <= j < i ==> s@[p + j] == t@[j],
        decreases n - i,
    {
        if s[p + i] != t.get_char(i) {
            assert(s@.subrange(p as int, p + n)[i as int] != t@[i as int]);
            return None;
        }
        i = i + 1;
    }
    assert(s@.subrange(p as int, p + n) =~= t@);
    Some(p + n)
}

fn ws_tag_at(s: &Vec<char>, p: usize, t: &str) -> (r: Option<usize>)
    requires
        p <= s@.len(),
    ensures
        pos_agrees(r, ws_tag(s@, p as int, t@)),
        r matches Some(q) ==> p <= q <= s@.len(),
{
    let a = skip_ws(s, p);
    match tag_at(s, a, t) {
        Some(b) => Some(skip_ws(s, b)),
        None => None,
    }
}

fn parse_identifier(s: &Vec<char>, p: usize) -> (r: Option<(String, usize)>)
    requires
        p <= s@.len(),
    ensures
        opt_agrees(r, identifier(s@, p as int), |x: String| x@),
        r matches Some((_, q)) ==> p < q <= s@.len(),
{
    let a = span(s, p, Class::IdentStart);
    if a == p {
        return None;
    }
    let b = span(s, a, Class::Ident);
    Some((string_of_range(s, p, b), b))
}

fn parse_ws_identifier(s: &Vec<char>, p: usize) -> (r: Option<(String, usize)>)
    requires
        p <= s@.len(),
    ensures
        opt_agrees(r, ws_identifier(s@, p as int), |x: String| x@),
        r matches Some((_, q)) ==> p < q <= s@.len(),
{
    let a = skip_ws(s, p);
    match parse_identifier(s, a) {
        Some((x, q)) => Some((x, skip_ws(s, q))),
        None => None,
    }
}

fn skip_comments(s: &Vec<char>, p: usize) -> (q: usize)
    requires
        p <= s@.len(),
    ensures
        q as int == comments(s@, p as int),
        p <= q <= s@.len(),
{
    let mut q = p;
    loop
        invariant
            p <= q <= s@.len(),
            comments(s@, q as int) == comments(s@, p as int),
        decreases s@.len() - q,
    {
        let a = skip_ws(s, q);
        match tag_at(s, a, "//") {
            None => {
                return q;
            },
            Some(b) => {
                let e = skip_ws(s, span(s, b, Class::Comment));
                if q < e && e <= s.len() {
                    q = e;
                } else {
                    return q;
                }
            },
        }
    }
}

fn parse_symbol(s: &Vec<char>, p: usize) -> (r: Option<(String, usize)>)
    requires
        p <= s@.len(),
    ensures
        opt_agrees(r, symbol(s@, p as int), |x: String| x@),
        r matches Some((_, q)) ==> p <= q <= s@.len(),
{
    match tag_at(s, p, ":") {
        Some(q) => {
            let e = span(s, q, Class::Ident);
            Some((string_of_range(s, q, e), e))
        },
        None => None,
    }
}

fn parse_text(s: &Vec<char>, p: usize) -> (r: Option<(String, usize)>)
    requires
        p <= s@.len(),
    ensures
        opt_agrees(r, text(s@, p as int), |x: String| x@),
        r matches Some((_, q)) ==> p <= q <= s@.len(),
{
    match tag_at(s, p, "\"") {
        Some(q) => {
            let e = span(s, q, Class::Text);
            match tag_at(s, e, "\"") {
                Some(f) => Some((string_of_range(s, q, e), f)),
                None => None,
            }
        },
        None => None,
    }
}

fn parse_digits(s: &Vec<char>, p: usize) -> (r: Option<usize>)
    requires
        p <= s@.len(),
    ensures
        pos_agrees(r, digits(s@, p as int)),
        r matches Some(q) ==> p <= q <= s@.len(),
{
    let e = span(s, p, Class::Digit);
    if e == p {
        None
    } else {
        Some(e)
    }
}

fn parse_unsigned(s: &Vec<char>, p: usize) -> (r: Option<(String, usize)>)
    requires
        p <= s@.len(),
    ensures
        opt_agrees(r, unsigned_number(s@, p as int), |x: String| x@),
        r matches Some((_, q)) ==> p <= q <= s@.len(),
{
    if let Some(a) = parse_digits(s, p) {
        if let Some(b) = tag_at(s, a, ".") {
            if let Some(c) = parse_digits(s, b) {
                return Some((string_of_range(s, p, c), c));
            }
        }
    }
    match parse_digits(s, p) {
        Some(a) => Some((string_of_range(s, p, a), a)),
        None => None,
    }
}

fn parse_number(s: &Vec<char>, p: usize) -> (r: Option<(NumberLiteral, usize)>)
    requires
        p <= s@.len(),
    ensures
        opt_agrees(r, number(s@, p as int), |n: NumberLiteral| n@),
        r matches Some((_, q)) ==> p <= q <= s@.len(),
{
    match parse_unsigned(s, p) {
        Some((d, q)) => Some((NumberLiteral { negative: false, digits: d }, q)),
        None => match tag_at(s, p, "-") {
            Some(a) => match parse_unsigned(s, a) {
                Some((d, q)) => Some((NumberLiteral { negative: true, digits: d }, q)),
                None => None,
            },
            None => None,
        },
    }
}

fn parse_data_type(s: &Vec<char>, p: usize) -> (r: Result<(DataType, usize), Stop>)
    requires
        p <= s@.len(),
    ensures
        agrees(r, data_type(s@, p as int), |t: DataType| t),
        r matches Ok((_, q)) ==> p <= q <= s@.len(),
{
    if tag_at(s, p, "()").is_some() {
        return Err(Stop::Panic);
    }
    if let Some(q) = tag_at(s, p, "i32") {
        return Ok((DataType::I32, q));
    }
    if let Some(q) = tag_at(s, p, "i64") {
        return Ok((DataType::I64, q));
    }
    if let Some(q) = tag_at(s, p, "f32") {
        return Ok((DataType::F32, q));
    }
    if let Some(q) = tag_at(s, p, "f64") {
        return Ok((DataType::F64, q));
    }
    Err(Stop::Fail)
}

fn parse_ws_data_type(s: &Vec<char>, p: usize) -> (r: Result<(DataType, usize), Stop>)
    requires
        p <= s@.len(),
    ensures
        agrees(r, ws_data_type(s@, p as int), |t: DataType| t),
        r matches Ok((_, q)) ==> p <= q <= s@.len(),
{
    let a = skip_ws(s, p);
    match parse_data_type(s, a) {
        Ok((t, q)) => Ok((t, skip_ws(s, q))),
        Err(e) => Err(e),
    }
}

fn parse_data_type_list(s: &Vec<char>, p: usize) -> (r: Result<(Vec<DataType>, usize), Stop>)
    requires
        p <= s@.len(),
    ensures
        agrees(r, data_type_list(s@, p as int), |v: Vec<DataType>| v@),
        r matches Ok((_, q)) ==> p <= q <= s@.len(),
{
    let q0 = skip_ws(s, p);
    let r0 = skip_ws(s, q0);
    let (t, q1) = match parse_ws_data_type(s, r0) {
        Err(Stop::Fail) => {
            return Ok((Vec::new(), r0));
        },
        Err(Stop::Panic) => {
            return Err(Stop::Panic);
        },
        Ok(x) => x,
    };
    if q1 == q0 {
        return Err(Stop::Fail);
    }
    let mut v: Vec<DataType> = Vec::new();
    v.push(t);
    let mut cur = q1;
    proof {
        lemma_prepend_all_step(seq![], t, data_type_rest(s@, q1 as int));
        assert(seq![t] =~= Seq::<DataType>::empty().push(t));
    }
    loop
        invariant
            p <= cur <= s@.len(),
            prepend(t, data_type_rest(s@, q1 as int)) == prepend_all(v@, data_type_rest(s@, cur as int)),
            match data_type_list(s@, p as int) {
                PR::Got(w, e) => match prepend(t, data_type_rest(s@, q1 as int)) {
                    PR::Got(w2, e2) => w == w2 && e == ws_end(s@, e2),
                    _ => false,
                },
                PR::Fail => prepend(t, data_type_rest(s@, q1 as int)) is Fail,
                PR::Panic => prepend(t, data_type_rest(s@, q1 as int)) is Panic,
            },
        decreases s@.len() - cur,
    {
        let a = skip_ws(s, cur);
        let q2 = match tag_at(s, a, ",") {
            None => {
                return Ok((v, skip_ws(s, cur)));
            },
            Some(q2) => q2,
        };
        if q2 == cur {
            return Ok((v, skip_ws(s, cur)));
        }
        let r2 = skip_ws(s, q2);
        match parse_ws_data_type(s, r2) {
            Err(Stop::Fail) => {
                return Ok((v, skip_ws(s, cur)));
            },
            Err(Stop::Panic) => {
                return Err(Stop::Panic);
            },
            Ok((t2, q3)) => {
                if q3 == q2 || !(cur < q3 && q3 <= s.len()) {
                    return Ok((v, skip_ws(s, cur)));
                }
                proof {
                    lemma_prepend_all_step(v@, t2, data_type_rest(s@, q3 as int));
                }
                v.push(t2);
                cur = q3;
            },
        }
    }
}

fn parse_identifier_list(s: &Vec<char>, p: usize) -> (r: Option<(Vec<String>, usize)>)
    requires
        p <= s@.len(),
    ensures
        opt_agrees(r, identifier_list(s@, p as int), |v: Vec<String>| strings_view(v@)),
        r matches Some((_, q)) ==> p <= q <= s@.len(),
{
    let q0 = skip_ws(s, p);
    let r0 = skip_ws(s, q0);
    let (x, q1) = match parse_ws_identifier(s, r0) {
        None => {
            return Some((Vec::new(), r0));
        },
        Some(y) => y,
    };
    if q1 == q0 {
        return None;
    }
    let mut v: Vec<String> = Vec::new();
    v.push(x);
    let ghost xv = x@;
    proof {
        assert(v@.drop_last() =~= Seq::<String>::empty());
        assert(strings_view(Seq::<String>::empty()) == Seq::<Seq<char>>::empty());
        assert(strings_view(v@) =~= seq![xv]);
    }
    let mut cur = q1;
    loop
        invariant
            p <= q1 <= cur <= s@.len(),
            q1 != q0,
            q0 == ws_end(s@, p as int),
            ws_identifier(s@, ws_end(s@, q0 as int)) == Some((xv, q1 as int)),
            ({
                let (xs, e) = identifier_rest(s@, q1 as int);
                let (ys, f) = identifier_rest(s@, cur as int);
                seq![xv] + xs == strings_view(v@) + ys && e == f
            }),
        decreases s@.len() - cur,
    {
        let a = skip_ws(s, cur);
        let q2 = match tag_at(s, a, ",") {
            None => {
                return Some((v, skip_ws(s, cur)));
            },
            Some(q2) => q2,
        };
        if q2 == cur {
            return Some((v, skip_ws(s, cur)));
        }
        let r2 = skip_ws(s, q2);
        match parse_ws_identifier(s, r2) {
            None => {
                return Some((v, skip_ws(s, cur)));
            },
            Some((y, q3)) => {
                if q3 == q2 || !(cur < q3 && q3 <= s.len()) {
                    return Some((v, skip_ws(s, cur)));
                }
                let ghost old_v = v@;
                v.push(y);
                proof {
                    assert(v@.drop_last() =~= old_v);
                    let (ys, f) = identifier_rest(s@, q3 as int);
                    assert(seq![y@] + ys =~= seq![y@].add(ys));
                    assert(strings_view(old_v) + (seq![y@] + ys) =~= strings_view(v@) + ys);
                }
                cur = q3;
            },
        }
    }
}

fn parse_identifier_star(s: &Vec<char>, p: usize) -> (r: (Vec<String>, usize))
    requires
        p <= s@.len(),
    ensures
        identifier_star(s@, p as int) == (strings_view(r.0@), r.1 as int),
        p <= r.1 <= s@.len(),
{
    let mut v: Vec<String> = Vec::new();
    let mut cur = p;
    loop
        invariant
            p <= cur <= s@.len(),
            ({
                let (xs, e) = identifier_star(s@, p as int);
                let (ys, f) = identifier_star(s@, cur as int);
                xs == strings_view(v@) + ys && e == f
            }),
        decreases s@.len() - cur,
    {
        match parse_ws_identifier(s, cur) {
            None => {
                proof {
                    assert(strings_view(v@) + Seq::<Seq<char>>::empty() =~= strings_view(v@));
                }
                return (v, cur);
            },
            Some((x, q0)) => {
                let q = match ws_tag_at(s, q0, ",") {
                    Some(r) => r,
                    None => q0,
                };
                let ghost old_v = v@;
                v.push(x);
                proof {
                    assert(v@.drop_last() =~= old_v);
                    let (ys, f) = identifier_star(s@, q as int);
                    assert(strings_view(old_v) + (seq![x@] + ys) =~= strings_view(v@) + ys);
                }
                cur = q;
            },
        }
    }
}

fn parse_tag_value(s: &Vec<char>, p: usize, t: &str) -> (r: Option<(String, usize)>)
    requires
        p <= s@.len(),
    ensures
        opt_agrees(r, tag_value(s@, p as int, t@), |x: String| x@),
        r matches Some((_, q)) ==> p <= q <= s@.len(),
{
    match tag_at(s, p, t) {
        Some(q) => Some((String::from_str(t), q)),
        None => None,
    }
}

fn parse_operator(s: &Vec<char>, p: usize) -> (r: Option<(String, usize)>)
    requires
        p <= s@.len(),
    ensures
        opt_agrees(r, operator_identifier(s@, p as int), |x: String| x@),
        r matches Some((_, q)) ==> p <= q <= s@.len(),
{
    if let Some(x) = parse_tag_value(s, p, ">>") { return Some(x); }
    if let Some(x) = parse_tag_value(s, p, "<<") { return Some(x); }
    if let Some(x) = parse_tag_value(s, p, ">=") { return Some(x); }
    if let Some(x) = parse_tag_value(s, p, "<=") { return Some(x); }
    if let Some(x) = parse_tag_value(s, p, ">") { return Some(x); }
    if let Some(x) = parse_tag_value(s, p, "<") { return Some(x); }
    if let Some(x) = parse_tag_value(s, p, "or") { return Some(x); }
    if let Some(x) = parse_tag_value(s, p, "and") { return Some(x); }
    if let Some(x) = parse_tag_value(s, p, "!=") { return Some(x); }
    if let Some(x) = parse_tag_value(s, p, "==") { return Some(x); }
    if let Some(x) = parse_tag_value(s, p, "+") { return Some(x); }
    if let Some(x) = parse_tag_value(s, p, "-") { return Some(x); }
    if let Some(x) = parse_tag_value(s, p, "*") { return Some(x); }
    if let Some(x) = parse_tag_value(s, p, "/") { return Some(x); }
    if let Some(x) = parse_tag_value(s, p, "%") { return Some(x); }
    if let Some(x) = parse_tag_value(s, p, "|") { return Some(x); }
    parse_tag_value(s, p, "&")
}

fn parse_unary(s: &Vec<char>, p: usize) -> (r: Option<(String, usize)>)
    requires
        p <= s@.len(),
    ensures
        opt_agrees(r, unary_identifier(s@, p as int), |x: String| x@),
        r matches Some((_, q)) ==> p <= q <= s@.len(),
{
    if let Some(x) = parse_tag_value(s, p, "^") { return Some(x); }
    if let Some(x) = parse_tag_value(s, p, "~") { return Some(x); }
    parse_tag_value(s, p, "!")
}

fn parse_function_identifier(s: &Vec<char>, p: usize) -> (r: Option<(String, usize)>)
    requires
        p <= s@.len(),
    ensures
        opt_agrees(r, function_identifier(s@, p as int), |x: String| x@),
        r matches Some((_, q)) ==> p <= q <= s@.len(),
{
    if let Some(x) = parse_tag_value(s, p, "call") { return Some(x); }
    if let Some(x) = parse_identifier(s, p) { return Some(x); }
    if let Some(x) = parse_tag_value(s, p, "do") { return Some(x); }
    parse_tag_value(s, p, "if")
}


// ---------------------------------------------------------------------
// Views of growing lists
// ---------------------------------------------------------------------

proof fn lemma_view_exprs_push(v: Seq<Expression>, e: Expression)
    ensures
        view_exprs(v.push(e)) == view_exprs(v).push(e@),
{
    assert(v.push(e).drop_last() =~= v);
}

proof fn lemma_view_bindings_push(v: Seq<(String, Expression)>, b: (String, Expression))
    ensures
        view_bindings(v.push(b)) == view_bindings(v).push((b.0@, b.1@)),
{
    assert(v.push(b).drop_last() =~= v);
}

proof fn lemma_view_globals_push(v: Seq<GlobalValue>, g: GlobalValue)
    ensures
        view_globals(v.push(g)) == view_globals(v).push(g@),
{
    assert(v.push(g).drop_last() =~= v);
}

proof fn lemma_view_tops_push(v: Seq<TopLevelOperation>, t: TopLevelOperation)
    ensures
        view_tops(v.push(t)) == view_tops(v).push(t@),
{
    assert(v.push(t).drop_last() =~= v);
}

proof fn lemma_member_names_push(v: Seq<StructMember>, m: StructMember)
    ensures
        member_names(v.push(m)) == member_names(v).push(m.name@),
{
    assert(v.push(m).drop_last() =~= v);
}

proof fn lemma_prepend_one<T>(x: T, r: PR<Seq<T>>)
    ensures
        prepend(x, r) == prepend_all(seq![x], r),
{
    match r {
        PR::Got(v, e) => {},
        _ => {},
    }
}

fn exprs_of1(a: Expression) -> (v: Vec<Expression>)
    ensures
        view_exprs(v@) == seq![a@],
{
    let mut v: Vec<Expression> = Vec::new();
    proof {
        lemma_view_exprs_push(v@, a);
    }
    v.push(a);
    assert(view_exprs(v@) =~= seq![a@]);
    v
}

fn exprs_of2(a: Expression, b: Expression) -> (v: Vec<Expression>)
    ensures
        view_exprs(v@) == seq![a@, b@],
{
    let mut v = exprs_of1(a);
    proof {
        lemma_view_exprs_push(v@, b);
    }
    v.push(b);
    assert(view_exprs(v@) =~= seq![a@, b@]);
    v
}

fn exprs_of3(a: Expression, b: Expression, c: Expression) -> (v: Vec<Expression>)
    ensures
        view_exprs(v@) == seq![a@, b@, c@],
{
    let mut v = exprs_of2(a, b);
    proof {
        lemma_view_exprs_push(v@, c);
    }
    v.push(c);
    assert(view_exprs(v@) =~= seq![a@, b@, c@]);
    v
}

// ---------------------------------------------------------------------
// Expressions that hold no expression
// ---------------------------------------------------------------------

fn parse_e_fnsig(s: &Vec<char>, p: usize) -> (r: Result<(Expression, usize), Stop>)
    requires
        p <= s@.len(),
    ensures
        agrees(r, e_fnsig(s@, p as int), |e: Expression| e@),
        r matches Ok((_, q)) ==> p <= q <= s@.len(),
{
    let q1 = match ws_tag_at(s, p, "fn") {
        Some(q) => q,
        None => {
            return Err(Stop::Fail);
        },
    };
    let q2 = match ws_tag_at(s, skip_comments(s, q1), "(") {
        Some(q) => q,
        None => {
            return Err(Stop::Fail);
        },
    };
    let (ins, q3) = match parse_data_type_list(s, skip_comments(s, q2)) {
        Ok(x) => x,
        Err(e) => {
            return Err(e);
        },
    };
    let q4 = match ws_tag_at(s, skip_comments(s, q3), ")") {
        Some(q) => q,
        None => {
            return Err(Stop::Fail);
        },
    };
    let q5 = match ws_tag_at(s, q4, "->") {
        Some(q) => q,
        None => {
            return Err(Stop::Fail);
        },
    };
    let c = skip_comments(s, q5);
    match parse_ws_data_type(s, c) {
        Ok((t, q6)) => Ok((Expression::FnSig(OperationFnSig { inputs: ins, output: Some(t) }), q6)),
        Err(Stop::Fail) => Ok((Expression::FnSig(OperationFnSig { inputs: ins, output: None }), c)),
        Err(Stop::Panic) => Err(Stop::Panic),
    }
}

fn parse_e_recur(s: &Vec<char>, p: usize) -> (r: Result<(Expression, usize), Stop>)
    requires
        p <= s@.len(),
    ensures
        agrees(r, e_recur(s@, p as int), |e: Expression| e@),
        r matches Ok((_, q)) ==> p <= q <= s@.len(),
{
    match tag_at(s, p, "recur") {
        Some(q) => Ok((Expression::Recur(OperationRecur {  }), q)),
        None => Err(Stop::Fail),
    }
}

fn parse_e_number(s: &Vec<char>, p: usize) -> (r: Result<(Expression, usize), Stop>)
    requires
        p <= s@.len(),
    ensures
        agrees(r, e_number(s@, p as int), |e: Expression| e@),
        r matches Ok((_, q)) ==> p <= q <= s@.len(),
{
    match parse_number(s, skip_ws(s, p)) {
        Some((n, q)) => Ok((Expression::Number(n), skip_ws(s, q))),
        None => Err(Stop::Fail),
    }
}

fn literal_one() -> (n: NumberLiteral)
    ensures
        n@ == one_v(),
{
    NumberLiteral { negative: false, digits: String::from_str("1") }
}

fn literal_zero() -> (n: NumberLiteral)
    ensures
        n@ == zero_v(),
{
    NumberLiteral { negative: false, digits: String::from_str("0") }
}

fn parse_e_true(s: &Vec<char>, p: usize) -> (r: Result<(Expression, usize), Stop>)
    requires
        p <= s@.len(),
    ensures
        agrees(r, e_true(s@, p as int), |e: Expression| e@),
        r matches Ok((_, q)) ==> p <= q <= s@.len(),
{
    match tag_at(s, p, "true") {
        Some(q) => Ok((Expression::Number(literal_one()), q)),
        None => Err(Stop::Fail),
    }
}

fn parse_e_false(s: &Vec<char>, p: usize) -> (r: Result<(Expression, usize), Stop>)
    requires
        p <= s@.len(),
    ensures
        agrees(r, e_false(s@, p as int), |e: Expression| e@),
        r matches Ok((_, q)) ==> p <= q <= s@.len(),
{
    match tag_at(s, p, "false") {
        Some(q) => Ok((Expression::Number(literal_zero()), q)),
        None => Err(Stop::Fail),
    }
}

fn parse_e_comment(s: &Vec<char>, p: usize) -> (r: Result<(Expression, usize), Stop>)
    requires
        p <= s@.len(),
    ensures
        agrees(r, e_comment(s@, p as int), |e: Expression| e@),
        r matches Ok((_, q)) ==> p <= q <= s@.len(),
{
    match tag_at(s, p, "//") {
        Some(q) => {
            let e = span(s, q, Class::Comment);
            Ok((Expression::Comment(string_of_range(s, q, e)), e))
        },
        None => Err(Stop::Fail),
    }
}

fn parse_e_symbol(s: &Vec<char>, p: usize) -> (r: Result<(Expression, usize), Stop>)
    requires
        p <= s@.len(),
    ensures
        agrees(r, e_symbol(s@, p as int), |e: Expression| e@),
        r matches Ok((_, q)) ==> p <= q <= s@.len(),
{
    match parse_symbol(s, skip_ws(s, p)) {
        Some((x, q)) => Ok((Expression::SymbolLiteral(x), skip_ws(s, q))),
        None => Err(Stop::Fail),
    }
}

fn parse_e_text(s: &Vec<char>, p: usize) -> (r: Result<(Expression, usize), Stop>)
    requires
        p <= s@.len(),
    ensures
        agrees(r, e_text(s@, p as int), |e: Expression| e@),
        r matches Ok((_, q)) ==> p <= q <= s@.len(),
{
    match parse_text(s, skip_ws(s, p)) {
        Some((x, q)) => Ok((Expression::TextLiteral(x), skip_ws(s, q))),
        None => Err(Stop::Fail),
    }
}

fn parse_e_identifier(s: &Vec<char>, p: usize) -> (r: Result<(Expression, usize), Stop>)
    requires
        p <= s@.len(),
    ensures
        agrees(r, e_identifier(s@, p as int), |e: Expression| e@),
        r matches Ok((_, q)) ==> p <= q <= s@.len(),
{
    match parse_ws_identifier(s, p) {
        Some((x, q)) => Ok((Expression::Identifier(x), q)),
        None => Err(Stop::Fail),
    }
}


// ---------------------------------------------------------------------
// Expressions that hold expressions
// ---------------------------------------------------------------------

fn parse_sub_expr(s: &Vec<char>, p: usize, q: usize) -> (r: Result<(Expression, usize), Stop>)
    requires
        p <= s@.len(),
    ensures
        agrees(r, sub_expr(s@, p as int, q as int), |e: Expression| e@),
        r matches Ok((_, f)) ==> p <= f <= s@.len(),
    decreases s@.len() - p, 0int,
{
    if p < q && q <= s.len() {
        parse_ws_expr(s, q)
    } else {
        Err(Stop::Fail)
    }
}

fn parse_sub_exprs(s: &Vec<char>, p: usize, q: usize) -> (r: Result<(Vec<Expression>, usize), Stop>)
    requires
        p <= s@.len(),
    ensures
        agrees(r, sub_exprs(s@, p as int, q as int), |v: Vec<Expression>| view_exprs(v@)),
        r matches Ok((_, f)) ==> p <= f <= s@.len(),
    decreases s@.len() - p, 0int,
{
    if p < q && q <= s.len() {
        match parse_exprs_many1(s, q) {
            Ok((v, e)) => Ok((v, skip_ws(s, e))),
            Err(x) => Err(x),
        }
    } else {
        Err(Stop::Fail)
    }
}

fn parse_sub_params(s: &Vec<char>, p: usize, q: usize) -> (r: Result<(Vec<Expression>, usize), Stop>)
    requires
        p <= s@.len(),
    ensures
        agrees(r, sub_params(s@, p as int, q as int), |v: Vec<Expression>| view_exprs(v@)),
        r matches Ok((_, f)) ==> p <= f <= s@.len(),
    decreases s@.len() - p, 0int,
{
    if p < q && q <= s.len() {
        parse_params(s, q)
    } else {
        Err(Stop::Fail)
    }
}

fn parse_sub_bindings(s: &Vec<char>, p: usize, q: usize) -> (r: Result<
    (Vec<(String, Expression)>, usize),
    Stop,
>)
    requires
        p <= s@.len(),
    ensures
        agrees(
            r,
            sub_bindings(s@, p as int, q as int),
            |v: Vec<(String, Expression)>| view_bindings(v@),
        ),
        r matches Ok((_, f)) ==> p <= f <= s@.len(),
    decreases s@.len() - p, 0int,
{
    if p < q && q <= s.len() {
        match parse_bindings(s, q) {
            Ok((v, e)) => Ok((v, skip_ws(s, e))),
            Err(x) => Err(x),
        }
    } else {
        Err(Stop::Fail)
    }
}

#[verifier::rlimit(60)]
#[verifier::spinoff_prover]
fn parse_e_if(s: &Vec<char>, p: usize) -> (r: Result<(Expression, usize), Stop>)
    requires
        p <= s@.len(),
    ensures
        agrees(r, e_if(s@, p as int), |e: Expression| e@),
        r matches Ok((_, q)) ==> p <= q <= s@.len(),
    decreases s@.len() - p, 3int,
{
    let q1 = match ws_tag_at(s, p, "if") {
        Some(q) => q,
        None => {
            return Err(Stop::Fail);
        },
    };
    let first: Result<(Expression, usize), Stop> = match ws_tag_at(s, q1, "(") {
        None => Err(Stop::Fail),
        Some(q2) => match parse_sub_expr(s, p, q2) {
            Err(e) => Err(e),
            Ok((a, q3)) => match ws_tag_at(s, q3, ")") {
                None => Err(Stop::Fail),
                Some(q4) => parse_e_if_then(s, p, a, q4),
            },
        },
    };
    if first matches Err(Stop::Fail) {
        let (a, q3) = match parse_sub_expr(s, p, q1) {
            Ok(x) => x,
            Err(e) => {
                return Err(e);
            },
        };
        parse_e_if_then(s, p, a, q3)
    } else {
        first
    }
}

fn parse_e_if_then(s: &Vec<char>, p: usize, a: Expression, q: usize) -> (r: Result<(Expression, usize), Stop>)
    requires
        p <= q <= s@.len(),
    ensures
        agrees(r, e_if_then(s@, p as int, a@, q as int), |e: Expression| e@),
        r matches Ok((_, f)) ==> p <= f <= s@.len(),
    decreases s@.len() - p, 2int,
{
    let q5 = match ws_tag_at(s, q, "{") {
        Some(q) => q,
        None => {
            return Err(Stop::Fail);
        },
    };
    let (b, q6) = match parse_sub_expr(s, p, q5) {
        Ok(x) => x,
        Err(e) => {
            return Err(e);
        },
    };
    let q7 = match tag_at(s, q6, "}") {
        Some(q) => q,
        None => {
            return Err(Stop::Fail);
        },
    };
    parse_e_if_else(s, p, a, b, q7)
}

fn parse_e_if_else(s: &Vec<char>, p: usize, a: Expression, b: Expression, q: usize) -> (r: Result<
    (Expression, usize),
    Stop,
>)
    requires
        p <= q <= s@.len(),
    ensures
        agrees(r, e_if_else(s@, p as int, a@, b@, q as int), |e: Expression| e@),
        r matches Ok((_, f)) ==> p <= f <= s@.len(),
    decreases s@.len() - p, 1int,
{
    let q8 = match ws_tag_at(s, q, "else") {
        Some(q) => q,
        None => {
            let params = exprs_of2(a, b);
            return Ok((
                Expression::FunctionCall(
                    OperationFunctionCall { function_name: String::from_str("if"), params },
                ),
                q,
            ));
        },
    };
    let q9 = match ws_tag_at(s, q8, "{") {
        Some(q) => q,
        None => {
            return Err(Stop::Fail);
        },
    };
    let (c, q10) = match parse_sub_expr(s, p, q9) {
        Ok(x) => x,
        Err(e) => {
            return Err(e);
        },
    };
    let q11 = match tag_at(s, q10, "}") {
        Some(q) => q,
        None => {
            return Err(Stop::Fail);
        },
    };
    let params = exprs_of3(a, b, c);
    Ok((
        Expression::FunctionCall(
            OperationFunctionCall { function_name: String::from_str("if"), params },
        ),
        q11,
    ))
}

fn parse_e_let(s: &Vec<char>, p: usize) -> (r: Result<(Expression, usize), Stop>)
    requires
        p <= s@.len(),
    ensures
        agrees(r, e_let(s@, p as int), |e: Expression| e@),
        r matches Ok((_, q)) ==> p <= q <= s@.len(),
    decreases s@.len() - p, 3int,
{
    let q1 = match ws_tag_at(s, p, "let") {
        Some(q) => q,
        None => {
            return Err(Stop::Fail);
        },
    };
    let q2 = match ws_tag_at(s, q1, "(") {
        Some(q) => q,
        None => {
            return Err(Stop::Fail);
        },
    };
    let (bs, q3) = match parse_sub_bindings(s, p, q2) {
        Ok(x) => x,
        Err(e) => {
            return Err(e);
        },
    };
    parse_e_let_body(s, p, bs, q3)
}

fn parse_e_let_body(s: &Vec<char>, p: usize, bs: Vec<(String, Expression)>, q: usize) -> (r: Result<
    (Expression, usize),
    Stop,
>)
    requires
        p <= q <= s@.len(),
    ensures
        agrees(r, e_let_body(s@, p as int, view_bindings(bs@), q as int), |e: Expression| e@),
        r matches Ok((_, f)) ==> p <= f <= s@.len(),
    decreases s@.len() - p, 2int,
{
    let q4 = match ws_tag_at(s, q, ")") {
        Some(q) => q,
        None => {
            return Err(Stop::Fail);
        },
    };
    let q5 = match ws_tag_at(s, q4, "{") {
        Some(q) => q,
        None => {
            return Err(Stop::Fail);
        },
    };
    let (es, q6) = match parse_sub_exprs(s, p, q5) {
        Ok(x) => x,
        Err(e) => {
            return Err(e);
        },
    };
    let q7 = match tag_at(s, q6, "}") {
        Some(q) => q,
        None => {
            return Err(Stop::Fail);
        },
    };
    Ok((Expression::Let(OperationLet { bindings: bs, expressions: es }), q7))
}

fn parse_e_operator(s: &Vec<char>, p: usize) -> (r: Result<(Expression, usize), Stop>)
    requires
        p <= s@.len(),
    ensures
        agrees(r, e_operator(s@, p as int), |e: Expression| e@),
        r matches Ok((_, q)) ==> p <= q <= s@.len(),
    decreases s@.len() - p, 3int,
{
    let q1 = match tag_at(s, p, "(") {
        Some(q) => q,
        None => {
            return Err(Stop::Fail);
        },
    };
    let (a, q2) = match parse_sub_expr(s, p, q1) {
        Ok(x) => x,
        Err(e) => {
            return Err(e);
        },
    };
    let (op, q3) = match parse_operator(s, skip_ws(s, q2)) {
        Some(x) => x,
        None => {
            return Err(Stop::Fail);
        },
    };
    let (b, q4) = match parse_sub_expr(s, p, skip_ws(s, q3)) {
        Ok(x) => x,
        Err(e) => {
            return Err(e);
        },
    };
    let q5 = match tag_at(s, q4, ")") {
        Some(q) => q,
        None => {
            return Err(Stop::Fail);
        },
    };
    let params = exprs_of2(a, b);
    Ok((Expression::FunctionCall(OperationFunctionCall { function_name: op, params }), q5))
}

fn parse_e_unary(s: &Vec<char>, p: usize) -> (r: Result<(Expression, usize), Stop>)
    requires
        p <= s@.len(),
    ensures
        agrees(r, e_unary(s@, p as int), |e: Expression| e@),
        r matches Ok((_, q)) ==> p <= q <= s@.len(),
    decreases s@.len() - p, 3int,
{
    let (op, q1) = match parse_unary(s, skip_ws(s, p)) {
        Some(x) => x,
        None => {
            return Err(Stop::Fail);
        },
    };
    let (a, q2) = match parse_sub_expr(s, p, skip_ws(s, q1)) {
        Ok(x) => x,
        Err(e) => {
            return Err(e);
        },
    };
    let params = exprs_of1(a);
    Ok((Expression::FunctionCall(OperationFunctionCall { function_name: op, params }), q2))
}

fn parse_e_assign(s: &Vec<char>, p: usize) -> (r: Result<(Expression, usize), Stop>)
    requires
        p <= s@.len(),
    ensures
        agrees(r, e_assign(s@, p as int), |e: Expression| e@),
        r matches Ok((_, q)) ==> p <= q <= s@.len(),
    decreases s@.len() - p, 3int,
{
    let (id, q1) = match parse_ws_identifier(s, p) {
        Some(x) => x,
        None => {
            return Err(Stop::Fail);
        },
    };
    let q2 = match ws_tag_at(s, q1, "=") {
        Some(q) => q,
        None => {
            return Err(Stop::Fail);
        },
    };
    let (v, q3) = match parse_sub_expr(s, p, q2) {
        Ok(x) => x,
        Err(e) => {
            return Err(e);
        },
    };
    Ok((Expression::Assignment(OperationAssignment { id, value: Box::new(v) }), q3))
}

fn parse_e_call(s: &Vec<char>, p: usize) -> (r: Result<(Expression, usize), Stop>)
    requires
        p <= s@.len(),
    ensures
        agrees(r, e_call(s@, p as int), |e: Expression| e@),
        r matches Ok((_, q)) ==> p <= q <= s@.len(),
    decreases s@.len() - p, 3int,
{
    let (name, q1) = match parse_function_identifier(s, skip_ws(s, p)) {
        Some(x) => x,
        None => {
            return Err(Stop::Fail);
        },
    };
    let q2 = match tag_at(s, skip_ws(s, q1), "(") {
        Some(q) => q,
        None => {
            return Err(Stop::Fail);
        },
    };
    let (ps, q3) = match parse_sub_params(s, p, skip_ws(s, q2)) {
        Ok(x) => x,
        Err(e) => {
            return Err(e);
        },
    };
    let q4 = match ws_tag_at(s, skip_ws(s, q3), ")") {
        Some(q) => q,
        None => {
            return Err(Stop::Fail);
        },
    };
    Ok((Expression::FunctionCall(OperationFunctionCall { function_name: name, params: ps }), q4))
}

#[verifier::rlimit(100)]
fn parse_e_populate(s: &Vec<char>, p: usize) -> (r: Result<(Expression, usize), Stop>)
    requires
        p <= s@.len(),
    ensures
        agrees(r, e_populate(s@, p as int), |e: Expression| e@),
        r matches Ok((_, q)) ==> p <= q <= s@.len(),
    decreases s@.len() - p, 3int,
{
    let q1 = match tag_at(s, p, "(") {
        Some(q) => q,
        None => {
            return Err(Stop::Fail);
        },
    };
    let q2 = match tag_at(s, skip_comments(s, q1), "#") {
        Some(q) => q,
        None => {
            return Err(Stop::Fail);
        },
    };
    let (name, q3) = match parse_ws_identifier(s, skip_comments(s, q2)) {
        Some(x) => x,
        None => {
            return Err(Stop::Fail);
        },
    };
    let (es, q4) = match parse_sub_exprs(s, p, skip_comments(s, q3)) {
        Ok(x) => x,
        Err(e) => {
            return Err(e);
        },
    };
    let q5 = match tag_at(s, skip_comments(s, q4), ")") {
        Some(q) => q,
        None => {
            return Err(Stop::Fail);
        },
    };
    Ok((Expression::Populate(OperationPopulate { name, elements: es }), q5))
}

fn parse_e_loop(s: &Vec<char>, p: usize) -> (r: Result<(Expression, usize), Stop>)
    requires
        p <= s@.len(),
    ensures
        agrees(r, e_loop(s@, p as int), |e: Expression| e@),
        r matches Ok((_, q)) ==> p <= q <= s@.len(),
    decreases s@.len() - p, 3int,
{
    let q1 = match ws_tag_at(s, p, "loop") {
        Some(q) => q,
        None => {
            return Err(Stop::Fail);
        },
    };
    let q2 = match ws_tag_at(s, skip_comments(s, q1), "{") {
        Some(q) => q,
        None => {
            return Err(Stop::Fail);
        },
    };
    let (es, q3) = match parse_sub_exprs(s, p, q2) {
        Ok(x) => x,
        Err(e) => {
            return Err(e);
        },
    };
    let q4 = match tag_at(s, q3, "}") {
        Some(q) => q,
        None => {
            return Err(Stop::Fail);
        },
    };
    Ok((Expression::Loop(OperationLoop { expressions: es }), q4))
}

fn parse_binding(s: &Vec<char>, p: usize) -> (r: Result<((String, Expression), usize), Stop>)
    requires
        p <= s@.len(),
    ensures
        agrees(r, binding(s@, p as int), |b: (String, Expression)| (b.0@, b.1@)),
        r matches Ok((_, q)) ==> p <= q <= s@.len(),
    decreases s@.len() - p, 3int,
{
    let a = skip_ws(s, skip_ws(s, p));
    let (id, q1) = match parse_ws_identifier(s, a) {
        Some(x) => x,
        None => {
            return Err(Stop::Fail);
        },
    };
    let (e, q2) = match parse_sub_expr(s, p, q1) {
        Ok(x) => x,
        Err(x) => {
            return Err(x);
        },
    };
    Ok(((id, e), skip_ws(s, q2)))
}

fn parse_expression(s: &Vec<char>, p: usize) -> (r: Result<(Expression, usize), Stop>)
    requires
        p <= s@.len(),
    ensures
        agrees(r, expression(s@, p as int), |e: Expression| e@),
        r matches Ok((_, q)) ==> p <= q <= s@.len(),
    decreases s@.len() - p, 4int,
{
    let r = parse_e_if(s, p);
    if !(r matches Err(Stop::Fail)) {
        return r;
    }
    let r = parse_e_fnsig(s, p);
    if !(r matches Err(Stop::Fail)) {
        return r;
    }
    let r = parse_e_let(s, p);
    if !(r matches Err(Stop::Fail)) {
        return r;
    }
    let r = parse_e_operator(s, p);
    if !(r matches Err(Stop::Fail)) {
        return r;
    }
    let r = parse_e_unary(s, p);
    if !(r matches Err(Stop::Fail)) {
        return r;
    }
    let r = parse_e_assign(s, p);
    if !(r matches Err(Stop::Fail)) {
        return r;
    }
    let r = parse_e_call(s, p);
    if !(r matches Err(Stop::Fail)) {
        return r;
    }
    let r = parse_e_populate(s, p);
    if !(r matches Err(Stop::Fail)) {
        return r;
    }
    let r = parse_e_loop(s, p);
    if !(r matches Err(Stop::Fail)) {
        return r;
    }
    let r = parse_e_recur(s, p);
    if !(r matches Err(Stop::Fail)) {
        return r;
    }
    let r = parse_e_number(s, p);
    if !(r matches Err(Stop::Fail)) {
        return r;
    }
    let r = parse_e_true(s, p);
    if !(r matches Err(Stop::Fail)) {
        return r;
    }
    let r = parse_e_false(s, p);
    if !(r matches Err(Stop::Fail)) {
        return r;
    }
    let r = parse_e_comment(s, p);
    if !(r matches Err(Stop::Fail)) {
        return r;
    }
    let r = parse_e_symbol(s, p);
    if !(r matches Err(Stop::Fail)) {
        return r;
    }
    let r = parse_e_text(s, p);
    if !(r matches Err(Stop::Fail)) {
        return r;
    }
    parse_e_identifier(s, p)
}

fn parse_ws_expr(s: &Vec<char>, p: usize) -> (r: Result<(Expression, usize), Stop>)
    requires
        p <= s@.len(),
    ensures
        agrees(r, ws_expr(s@, p as int), |e: Expression| e@),
        r matches Ok((_, q)) ==> p <= q <= s@.len(),
    decreases s@.len() - p, 5int,
{
    let q = skip_ws(s, p);
    match parse_expression(s, q) {
        Ok((e, r)) => Ok((e, skip_ws(s, r))),
        Err(x) => Err(x),
    }
}

fn parse_exprs_many1(s: &Vec<char>, p: usize) -> (r: Result<(Vec<Expression>, usize), Stop>)
    requires
        p <= s@.len(),
    ensures
        agrees(r, exprs_many1(s@, p as int), |v: Vec<Expression>| view_exprs(v@)),
        r matches Ok((_, q)) ==> p <= q <= s@.len(),
    decreases s@.len() - p, 6int,
{
    let r0 = skip_ws(s, p);
    let (e, q) = match parse_ws_expr(s, r0) {
        Ok(x) => x,
        Err(x) => {
            return Err(x);
        },
    };
    let v = exprs_of1(e);
    if !(p < q && q <= s.len()) {
        return Ok((v, q));
    }
    let mut v = v;
    let mut cur = q;
    proof {
        lemma_prepend_one(e@, exprs_rest(s@, q as int));
    }
    loop
        invariant
            p < cur <= s@.len(),
            exprs_many1(s@, p as int) == prepend_all(view_exprs(v@), exprs_rest(s@, cur as int)),
        decreases s@.len() - cur,
    {
        let r2 = skip_ws(s, cur);
        match parse_ws_expr(s, r2) {
            Err(Stop::Fail) => {
                assert(view_exprs(v@) + Seq::<ExprV>::empty() =~= view_exprs(v@));
                return Ok((v, cur));
            },
            Err(Stop::Panic) => {
                return Err(Stop::Panic);
            },
            Ok((e2, q2)) => {
                if q2 == cur || !(cur < q2 && q2 <= s.len()) {
                    assert(view_exprs(v@) + Seq::<ExprV>::empty() =~= view_exprs(v@));
                    return Ok((v, cur));
                }
                proof {
                    lemma_prepend_all_step(view_exprs(v@), e2@, exprs_rest(s@, q2 as int));
                    lemma_view_exprs_push(v@, e2);
                }
                v.push(e2);
                cur = q2;
            },
        }
    }
}

fn parse_params(s: &Vec<char>, p: usize) -> (r: Result<(Vec<Expression>, usize), Stop>)
    requires
        p <= s@.len(),
    ensures
        agrees(r, params(s@, p as int), |v: Vec<Expression>| view_exprs(v@)),
        r matches Ok((_, q)) ==> p <= q <= s@.len(),
    decreases s@.len() - p, 6int,
{
    let q0 = skip_ws(s, p);
    let r0 = skip_ws(s, q0);
    let (e, q1) = match parse_ws_expr(s, r0) {
        Ok(x) => x,
        Err(Stop::Fail) => {
            return Ok((Vec::new(), skip_ws(s, q0)));
        },
        Err(Stop::Panic) => {
            return Err(Stop::Panic);
        },
    };
    if q1 == q0 {
        return Err(Stop::Fail);
    }
    if !(p < q1 && q1 <= s.len()) {
        return Err(Stop::Fail);
    }
    let mut v = exprs_of1(e);
    let mut cur = q1;
    proof {
        lemma_prepend_one(e@, params_rest(s@, q1 as int));
    }
    assert(params(s@, p as int) == then_ws(s@, prepend(e@, params_rest(s@, q1 as int))));
    loop
        invariant
            p < q1 <= cur <= s@.len(),
            params(s@, p as int) == then_ws(s@, prepend(e@, params_rest(s@, q1 as int))),
            prepend(e@, params_rest(s@, q1 as int)) == prepend_all(view_exprs(v@), params_rest(s@, cur as int)),
        decreases s@.len() - cur,
    {
        let a = skip_ws(s, cur);
        let q2 = match tag_at(s, a, ",") {
            None => {
                assert(view_exprs(v@) + Seq::<ExprV>::empty() =~= view_exprs(v@));
                return Ok((v, skip_ws(s, cur)));
            },
            Some(q2) => q2,
        };
        let r2 = skip_ws(s, q2);
        if q2 == cur {
            assert(view_exprs(v@) + Seq::<ExprV>::empty() =~= view_exprs(v@));
            return Ok((v, skip_ws(s, cur)));
        }
        match parse_ws_expr(s, r2) {
            Err(Stop::Fail) => {
                assert(view_exprs(v@) + Seq::<ExprV>::empty() =~= view_exprs(v@));
                return Ok((v, skip_ws(s, cur)));
            },
            Err(Stop::Panic) => {
                return Err(Stop::Panic);
            },
            Ok((e3, q3)) => {
                if q3 == q2 || !(cur < q3 && q3 <= s.len()) {
                    assert(view_exprs(v@) + Seq::<ExprV>::empty() =~= view_exprs(v@));
                    return Ok((v, skip_ws(s, cur)));
                }
                proof {
                    lemma_prepend_all_step(view_exprs(v@), e3@, params_rest(s@, q3 as int));
                    lemma_view_exprs_push(v@, e3);
                }
                v.push(e3);
                cur = q3;
            },
        }
    }
}

fn parse_bindings(s: &Vec<char>, p: usize) -> (r: Result<(Vec<(String, Expression)>, usize), Stop>)
    requires
        p <= s@.len(),
    ensures
        agrees(r, bindings(s@, p as int), |v: Vec<(String, Expression)>| view_bindings(v@)),
        r matches Ok((_, q)) ==> p <= q <= s@.len(),
    decreases s@.len() - p, 6int,
{
    let mut v: Vec<(String, Expression)> = Vec::new();
    let mut cur = p;
    assert(Seq::<(Seq<char>, ExprV)>::empty() + Seq::<(Seq<char>, ExprV)>::empty() =~= Seq::<(Seq<char>, ExprV)>::empty());
    loop
        invariant
            p <= cur <= s@.len(),
            bindings(s@, p as int) == prepend_all(view_bindings(v@), bindings(s@, cur as int)),
        decreases s@.len() - cur,
    {
        match parse_binding(s, cur) {
            Err(Stop::Fail) => {
                assert(view_bindings(v@) + Seq::<(Seq<char>, ExprV)>::empty() =~= view_bindings(v@));
                return Ok((v, cur));
            },
            Err(Stop::Panic) => {
                return Err(Stop::Panic);
            },
            Ok((b, q)) => {
                if q == cur || !(cur < q && q <= s.len()) {
                    assert(view_bindings(v@) + Seq::<(Seq<char>, ExprV)>::empty() =~= view_bindings(v@));
                    return Ok((v, cur));
                }
                proof {
                    lemma_prepend_all_step(view_bindings(v@), (b.0@, b.1@), bindings(s@, q as int));
                    lemma_view_bindings_push(v@, b);
                }
                v.push(b);
                cur = q;
            },
        }
    }
}


// ---------------------------------------------------------------------
// Global values
// ---------------------------------------------------------------------

fn parse_global_value(s: &Vec<char>, p: usize) -> (r: Option<(GlobalValue, usize)>)
    requires
        p <= s@.len(),
    ensures
        opt_agrees(r, global_value(s@, p as int), |g: GlobalValue| g@),
        r matches Some((_, q)) ==> p <= q <= s@.len(),
    decreases s@.len() - p, 2int,
{
    let c = skip_ws(s, skip_ws(s, p));
    let v: Option<(GlobalValue, usize)> = if let Some(q) = tag_at(s, c, "true") {
        Some((GlobalValue::Number(literal_one()), q))
    } else if let Some(q) = tag_at(s, c, "false") {
        Some((GlobalValue::Number(literal_zero()), q))
    } else if let Some((n, q)) = parse_number(s, c) {
        Some((GlobalValue::Number(n), q))
    } else if let Some((x, q)) = parse_symbol(s, c) {
        Some((GlobalValue::Symbol(x), q))
    } else if let Some((x, q)) = parse_text(s, c) {
        Some((GlobalValue::Text(x), q))
    } else {
        parse_global_data(s, c)
    };
    match v {
        Some((g, q)) => Some((g, skip_ws(s, q))),
        None => None,
    }
}

fn parse_global_data(s: &Vec<char>, p: usize) -> (r: Option<(GlobalValue, usize)>)
    requires
        p <= s@.len(),
    ensures
        opt_agrees(r, global_data(s@, p as int), |g: GlobalValue| g@),
        r matches Some((_, q)) ==> p <= q <= s@.len(),
    decreases s@.len() - p, 1int,
{
    let q = match tag_at(s, p, "(") {
        Some(q) => q,
        None => {
            return None;
        },
    };
    let r0 = skip_ws(s, q);
    if !(p < r0 && r0 <= s.len()) {
        return None;
    }
    let (vs, e): (Vec<GlobalValue>, usize) = match parse_global_element(s, r0) {
        None => (Vec::new(), r0),
        Some((v, r1)) => {
            if r1 == r0 || !(p < r1 && r1 <= s.len()) {
                return None;
            }
            let mut vs: Vec<GlobalValue> = Vec::new();
            proof {
                lemma_view_globals_push(vs@, v);
            }
            let ghost vv = v@;
            vs.push(v);
            assert(view_globals(vs@) =~= seq![vv]);
            let mut cur = r1;
            loop
                invariant
                    p < r1 <= cur <= s@.len(),
                    ({
                        let (xs, e) = global_rest(s@, r1 as int);
                        let (ys, f) = global_rest(s@, cur as int);
                        seq![vv] + xs == view_globals(vs@) + ys && e == f
                    }),
                ensures
                    p < r1 <= cur <= s@.len(),
                    global_rest(s@, cur as int) == (Seq::<GlobalValueV>::empty(), cur as int),
                    ({
                        let (xs, e) = global_rest(s@, r1 as int);
                        let (ys, f) = global_rest(s@, cur as int);
                        seq![vv] + xs == view_globals(vs@) + ys && e == f
                    }),
                decreases s@.len() - cur,
            {
                let a = skip_ws(s, cur);
                let q2 = match tag_at(s, a, ",") {
                    None => {
                        break ;
                    },
                    Some(q2) => q2,
                };
                if q2 == cur || !(cur < q2 && q2 <= s.len()) {
                    break ;
                }
                match parse_global_element(s, q2) {
                    None => {
                        break ;
                    },
                    Some((w, q3)) => {
                        if q3 == q2 || !(cur < q3 && q3 <= s.len()) {
                            break ;
                        }
                        let ghost old = vs@;
                        proof {
                            lemma_view_globals_push(vs@, w);
                            let (ys, f) = global_rest(s@, q3 as int);
                            assert(view_globals(old) + (seq![w@] + ys) =~= view_globals(old).push(
                                w@,
                            ) + ys);
                        }
                        vs.push(w);
                        cur = q3;
                    },
                }
            }
            proof {
                assert(view_globals(vs@) + Seq::<GlobalValueV>::empty() =~= view_globals(vs@));
            }
            (vs, cur)
        },
    };
    match tag_at(s, skip_ws(s, e), ")") {
        Some(f) => Some((GlobalValue::Data(vs), f)),
        None => None,
    }
}

fn parse_global_element(s: &Vec<char>, p: usize) -> (r: Option<(GlobalValue, usize)>)
    requires
        p <= s@.len(),
    ensures
        opt_agrees(r, global_element(s@, p as int), |g: GlobalValue| g@),
        r matches Some((_, q)) ==> p <= q <= s@.len(),
    decreases s@.len() - p, 3int,
{
    let c = skip_ws(s, skip_ws(s, skip_ws(s, p)));
    match parse_global_value(s, c) {
        Some((v, q)) => Some((v, skip_ws(s, q))),
        None => match parse_identifier(s, c) {
            Some((x, q)) => Some((GlobalValue::Identifier(x), skip_ws(s, q))),
            None => None,
        },
    }
}

// ---------------------------------------------------------------------
// Top-level items
// ---------------------------------------------------------------------

fn parse_t_comment(s: &Vec<char>, p: usize) -> (r: Result<(TopLevelOperation, usize), Stop>)
    requires
        p <= s@.len(),
    ensures
        agrees(r, t_comment(s@, p as int), |t: TopLevelOperation| t@),
        r matches Ok((_, q)) ==> p <= q <= s@.len(),
{
    match tag_at(s, p, "//") {
        Some(q) => {
            let e = span(s, q, Class::Comment);
            Ok((TopLevelOperation::Comment(string_of_range(s, q, e)), e))
        },
        None => Err(Stop::Fail),
    }
}

fn parse_t_extern(s: &Vec<char>, p: usize) -> (r: Result<(TopLevelOperation, usize), Stop>)
    requires
        p <= s@.len(),
    ensures
        agrees(r, t_extern(s@, p as int), |t: TopLevelOperation| t@),
        r matches Ok((_, q)) ==> p <= q <= s@.len(),
{
    let q1 = match ws_tag_at(s, p, "extern") {
        Some(q) => q,
        None => {
            return Err(Stop::Fail);
        },
    };
    let (name, q2) = match parse_ws_identifier(s, q1) {
        Some(x) => x,
        None => {
            return Err(Stop::Fail);
        },
    };
    let q3 = match ws_tag_at(s, q2, "(") {
        Some(q) => q,
        None => {
            return Err(Stop::Fail);
        },
    };
    let (ps, q4) = match parse_identifier_list(s, q3) {
        Some(x) => x,
        None => {
            return Err(Stop::Fail);
        },
    };
    let q5 = match ws_tag_at(s, q4, ")") {
        Some(q) => q,
        None => {
            return Err(Stop::Fail);
        },
    };
    Ok((TopLevelOperation::ExternalFunction(ExternalFunction { name, params: ps }), q5))
}

fn parse_t_function(s: &Vec<char>, p: usize) -> (r: Result<(TopLevelOperation, usize), Stop>)
    requires
        p <= s@.len(),
    ensures
        agrees(r, t_function(s@, p as int), |t: TopLevelOperation| t@),
        r matches Ok((_, q)) ==> p <= q <= s@.len(),
{
    let (exported, q0) = match ws_tag_at(s, p, "pub") {
        Some(q) => (true, q),
        None => (false, p),
    };
    let q1 = match ws_tag_at(s, skip_comments(s, q0), "fn") {
        Some(q) => q,
        None => {
            return Err(Stop::Fail);
        },
    };
    let (name, q2) = match parse_ws_identifier(s, skip_comments(s, q1)) {
        Some(x) => x,
        None => {
            return Err(Stop::Fail);
        },
    };
    let q3 = match ws_tag_at(s, skip_comments(s, q2), "(") {
        Some(q) => q,
        None => {
            return Err(Stop::Fail);
        },
    };
    let (ps, q4) = parse_identifier_star(s, skip_comments(s, q3));
    let q5 = match ws_tag_at(s, skip_comments(s, q4), ")") {
        Some(q) => q,
        None => {
            return Err(Stop::Fail);
        },
    };
    let q6 = match ws_tag_at(s, skip_comments(s, q5), "{") {
        Some(q) => q,
        None => {
            return Err(Stop::Fail);
        },
    };
    let (es, q7) = match parse_exprs_many1(s, q6) {
        Ok(x) => x,
        Err(e) => {
            return Err(e);
        },
    };
    let q8 = match tag_at(s, q7, "}") {
        Some(q) => q,
        None => {
            return Err(Stop::Fail);
        },
    };
    Ok((
        TopLevelOperation::DefineFunction(
            FunctionDefinition { name, exported, params: ps, output: None, children: es },
        ),
        q8,
    ))
}

fn parse_struct_member(s: &Vec<char>, p: usize) -> (r: Option<(String, usize)>)
    requires
        p <= s@.len(),
    ensures
        opt_agrees(r, struct_member(s@, p as int), |x: String| x@),
        r matches Some((_, q)) ==> p <= q <= s@.len(),
{
    match parse_symbol(s, skip_ws(s, p)) {
        Some((x, q)) => Some((x, skip_ws(s, skip_comments(s, q)))),
        None => None,
    }
}

fn parse_struct_members(s: &Vec<char>, p: usize) -> (r: (Vec<StructMember>, usize))
    requires
        p <= s@.len(),
    ensures
        struct_members(s@, p as int) == (member_names(r.0@), r.1 as int),
        p <= r.1 <= s@.len(),
{
    let mut v: Vec<StructMember> = Vec::new();
    let mut cur = p;
    loop
        invariant
            p <= cur <= s@.len(),
            ({
                let (xs, e) = struct_members(s@, p as int);
                let (ys, f) = struct_members(s@, cur as int);
                xs == member_names(v@) + ys && e == f
            }),
        decreases s@.len() - cur,
    {
        match parse_struct_member(s, cur) {
            None => {
                assert(member_names(v@) + Seq::<Seq<char>>::empty() =~= member_names(v@));
                return (v, cur);
            },
            Some((x, q)) => {
                if !(cur < q && q <= s.len()) {
                    assert(member_names(v@) + Seq::<Seq<char>>::empty() =~= member_names(v@));
                    return (v, cur);
                }
                let m = StructMember { name: x };
                let ghost old = v@;
                proof {
                    lemma_member_names_push(v@, m);
                    let (ys, f) = struct_members(s@, q as int);
                    assert(member_names(old) + (seq![m.name@] + ys) =~= member_names(old).push(
                        m.name@,
                    ) + ys);
                }
                v.push(m);
                cur = q;
            },
        }
    }
}

fn parse_t_struct(s: &Vec<char>, p: usize) -> (r: Result<(TopLevelOperation, usize), Stop>)
    requires
        p <= s@.len(),
    ensures
        agrees(r, t_struct(s@, p as int), |t: TopLevelOperation| t@),
        r matches Ok((_, q)) ==> p <= q <= s@.len(),
{
    let q1 = match tag_at(s, p, "(") {
        Some(q) => q,
        None => {
            return Err(Stop::Fail);
        },
    };
    let q2 = match ws_tag_at(s, skip_comments(s, q1), "defstruct") {
        Some(q) => q,
        None => {
            return Err(Stop::Fail);
        },
    };
    let (name, q3) = match parse_ws_identifier(s, skip_comments(s, q2)) {
        Some(x) => x,
        None => {
            return Err(Stop::Fail);
        },
    };
    let (ms, q4) = parse_struct_members(s, skip_comments(s, q3));
    let q5 = match tag_at(s, skip_comments(s, q4), ")") {
        Some(q) => q,
        None => {
            return Err(Stop::Fail);
        },
    };
    Ok((
        TopLevelOperation::DefineGlobal(
            Global { name, value: GlobalValue::Struct(StructDefinition { members: ms }) },
        ),
        q5,
    ))
}

fn parse_t_struct_block(s: &Vec<char>, p: usize) -> (r: Result<(TopLevelOperation, usize), Stop>)
    requires
        p <= s@.len(),
    ensures
        agrees(r, t_struct_block(s@, p as int), |t: TopLevelOperation| t@),
        r matches Ok((_, q)) ==> p <= q <= s@.len(),
{
    let q1 = match ws_tag_at(s, p, "struct") {
        Some(q) => q,
        None => {
            return Err(Stop::Fail);
        },
    };
    let (name, q2) = match parse_ws_identifier(s, q1) {
        Some(x) => x,
        None => {
            return Err(Stop::Fail);
        },
    };
    let q3 = match ws_tag_at(s, q2, "{") {
        Some(q) => q,
        None => {
            return Err(Stop::Fail);
        },
    };
    let (ms, q4) = parse_struct_members(s, skip_comments(s, q3));
    let q5 = match tag_at(s, skip_ws(s, skip_comments(s, q4)), "}") {
        Some(q) => q,
        None => {
            return Err(Stop::Fail);
        },
    };
    Ok((
        TopLevelOperation::DefineGlobal(
            Global { name, value: GlobalValue::Struct(StructDefinition { members: ms }) },
        ),
        q5,
    ))
}

fn parse_t_global_plain(s: &Vec<char>, p: usize) -> (r: Result<(TopLevelOperation, usize), Stop>)
    requires
        p <= s@.len(),
    ensures
        agrees(r, t_global_plain(s@, p as int), |t: TopLevelOperation| t@),
        r matches Ok((_, q)) ==> p <= q <= s@.len(),
{
    let (name, q2) = match parse_ws_identifier(s, p) {
        Some(x) => x,
        None => {
            return Err(Stop::Fail);
        },
    };
    let q3 = match ws_tag_at(s, q2, "=") {
        Some(q) => q,
        None => {
            return Err(Stop::Fail);
        },
    };
    match parse_global_value(s, q3) {
        Some((v, q4)) => Ok((TopLevelOperation::DefineGlobal(Global { name, value: v }), q4)),
        None => Err(Stop::Fail),
    }
}

fn parse_t_global(s: &Vec<char>, p: usize) -> (r: Result<(TopLevelOperation, usize), Stop>)
    requires
        p <= s@.len(),
    ensures
        agrees(r, t_global(s@, p as int), |t: TopLevelOperation| t@),
        r matches Ok((_, q)) ==> p <= q <= s@.len(),
{
    let q1 = match ws_tag_at(s, p, "static") {
        Some(q) => q,
        None => {
            return Err(Stop::Fail);
        },
    };
    let (name, q2) = match parse_ws_identifier(s, q1) {
        Some(x) => x,
        None => {
            return Err(Stop::Fail);
        },
    };
    let q3 = match ws_tag_at(s, q2, "=") {
        Some(q) => q,
        None => {
            return Err(Stop::Fail);
        },
    };
    match parse_global_value(s, q3) {
        Some((v, q4)) => Ok((TopLevelOperation::DefineGlobal(Global { name, value: v }), q4)),
        None => Err(Stop::Fail),
    }
}

fn parse_top_item(s: &Vec<char>, p: usize) -> (r: Result<(TopLevelOperation, usize), Stop>)
    requires
        p <= s@.len(),
    ensures
        agrees(r, top_item(s@, p as int), |t: TopLevelOperation| t@),
        r matches Ok((_, q)) ==> p <= q <= s@.len(),
{
    let c = skip_ws(s, skip_ws(s, p));
    let mut r = parse_t_comment(s, c);
    if r matches Err(Stop::Fail) {
        r = parse_t_extern(s, c);
    }
    if r matches Err(Stop::Fail) {
        r = parse_t_function(s, c);
    }
    if r matches Err(Stop::Fail) {
        r = parse_t_struct(s, c);
    }
    if r matches Err(Stop::Fail) {
        r = parse_t_struct_block(s, c);
    }
    if r matches Err(Stop::Fail) {
        r = parse_t_global(s, c);
    }
    if r matches Err(Stop::Fail) {
        r = parse_t_global_plain(s, c);
    }
    match r {
        Ok((t, q)) => Ok((t, skip_ws(s, q))),
        Err(e) => Err(e),
    }
}

fn parse_top_items(s: &Vec<char>) -> (r: Result<(Vec<TopLevelOperation>, usize), Stop>)
    ensures
        agrees(r, top_items(s@, 0), |v: Vec<TopLevelOperation>| view_tops(v@)),
{
    let mut v: Vec<TopLevelOperation> = Vec::new();
    let mut cur: usize = 0;
    assert(Seq::<TopV>::empty() + Seq::<TopV>::empty() =~= Seq::<TopV>::empty());
    loop
        invariant
            cur <= s@.len(),
            top_items(s@, 0) == prepend_all(view_tops(v@), top_items(s@, cur as int)),
        decreases s@.len() - cur,
    {
        match parse_top_item(s, cur) {
            Err(Stop::Fail) => {
                assert(view_tops(v@) + Seq::<TopV>::empty() =~= view_tops(v@));
                return Ok((v, cur));
            },
            Err(Stop::Panic) => {
                return Err(Stop::Panic);
            },
            Ok((t, q)) => {
                if q == cur || !(cur < q && q <= s.len()) {
                    assert(view_tops(v@) + Seq::<TopV>::empty() =~= view_tops(v@));
                    return Ok((v, cur));
                }
                proof {
                    lemma_prepend_all_step(view_tops(v@), t@, top_items(s@, q as int));
                    lemma_view_tops_push(v@, t);
                }
                v.push(t);
                cur = q;
            },
        }
    }
}

/// Parses a wasp program.  It succeeds exactly when the whole text is a
/// sequence of top-level items by the grammar of `grammar.rs`
/// (`program`), and then yields those items; it reports `InvalidType`
/// where a function signature names `()` as a type, and `Syntax` for any
/// other text.
pub fn parse(content: &str) -> (r: Result<App, ParseError>)
    ensures
        match r {
            Ok(app) => program(content@) == Ok::<Seq<TopV>, ParseError>(app@),
            Err(e) => program(content@) == Err::<Seq<TopV>, ParseError>(e),
        },
{
    let s = chars_of(content);
    match parse_top_items(&s) {
        Err(Stop::Panic) => Err(ParseError::InvalidType),
        Err(Stop::Fail) => Err(ParseError::Syntax),
        Ok((v, cur)) => {
            if cur == s.len() {
                Ok(App { children: v })
            } else {
                Err(ParseError::Syntax)
            }
        },
    }
}

} // verus!
