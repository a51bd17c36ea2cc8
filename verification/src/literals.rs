//! The boolean literals: where the text `true` or `false` stands as an
//! expression it is the number 1 or 0, not negative.
use vstd::prelude::*;
use crate::ast::{ExprV, NumberV};
use crate::text::{is_identifier_spec, is_whitespace_spec};
use crate::grammar::{
    Class, PR, in_class, span_end, ws_end, tag_end, identifier, expression, e_if, e_fnsig, e_let,
    e_operator, e_unary, e_assign, e_call, e_populate, e_loop, e_recur, e_number, e_true, e_false,
    number, unsigned_number, digits,
};

verus! {

proof fn lemma_tag_mismatch(s: Seq<char>, p: int, t: Seq<char>, i: int)
    requires
        0 <= p,
        0 <= i < t.len(),
        p + i < s.len(),
        s[p + i] != t[i],
    ensures
        tag_end(s, p, t) is None,
{
    if p + t.len() <= s.len() && s.subrange(p, p + t.len()) == t {
        assert(s.subrange(p, p + t.len())[i] == s[p + i]);
    }
}

proof fn lemma_span_end_stop(s: Seq<char>, p: int, k: Class)
    requires
        0 <= p <= s.len(),
    ensures
        p <= span_end(s, p, k) <= s.len(),
        span_end(s, p, k) == s.len() || !in_class(k, s[span_end(s, p, k)]),
    decreases s.len() - p,
{
    if p < s.len() && in_class(k, s[p]) {
        lemma_span_end_stop(s, p + 1, k);
    }
}

proof fn lemma_ws_end_again(s: Seq<char>, q: int)
    requires
        0 <= q <= s.len(),
    ensures
        ws_end(s, ws_end(s, q)) == ws_end(s, q),
        q <= ws_end(s, q) <= s.len(),
{
    lemma_span_end_stop(s, q, Class::Space);
}

/// Where the text `false` stands as an expression, not run on into a
/// longer name, nor followed (after blanks) by `=` or `(`, which would
/// make it a name that is assigned or called, it is the number 0, not
/// negative, and ends right after `false`.
pub proof fn law_false_is_zero(s: Seq<char>, p: int)
    requires
        0 <= p,
        p + 5 <= s.len(),
        s.subrange(p, p + 5) == "false"@,
        p + 5 == s.len() || !is_identifier_spec(s[p + 5]),
        ws_end(s, p + 5) == s.len() || (s[ws_end(s, p + 5)] != '=' && s[ws_end(s, p + 5)] != '('),
    ensures
        expression(s, p) == PR::Got(ExprV::Number(NumberV { negative: false, digits: "0"@ }), p + 5),
{
    reveal_strlit("false");
    reveal_strlit("if");
    reveal_strlit("fn");
    reveal_strlit("let");
    reveal_strlit("(");
    reveal_strlit("^");
    reveal_strlit("~");
    reveal_strlit("!");
    reveal_strlit("=");
    reveal_strlit("call");
    reveal_strlit("loop");
    reveal_strlit("recur");
    reveal_strlit("-");
    reveal_strlit("true");
    let w = s.subrange(p, p + 5);
    assert(s[p] == 'f') by { assert(w[0] == s[p]); }
    assert(s[p + 1] == 'a') by { assert(w[1] == s[p + 1]); }
    assert(s[p + 2] == 'l') by { assert(w[2] == s[p + 2]); }
    assert(s[p + 3] == 's') by { assert(w[3] == s[p + 3]); }
    assert(s[p + 4] == 'e') by { assert(w[4] == s[p + 4]); }
    assert(!is_whitespace_spec(s[p]));
    assert(ws_end(s, p) == p);
    let r = ws_end(s, p + 5);
    lemma_ws_end_again(s, p + 5);
    // `false` is the whole identifier at `p`.
    assert(span_end(s, p + 5, Class::IdentStart) == p + 5);
    assert(span_end(s, p + 4, Class::IdentStart) == p + 5);
    assert(span_end(s, p + 3, Class::IdentStart) == p + 5);
    assert(span_end(s, p + 2, Class::IdentStart) == p + 5);
    assert(span_end(s, p + 1, Class::IdentStart) == p + 5);
    assert(span_end(s, p, Class::IdentStart) == p + 5);
    assert(span_end(s, p + 5, Class::Ident) == p + 5);
    assert(identifier(s, p) == Some((s.subrange(p, p + 5), p + 5)));
    // Neither `=` nor `(` follows it.
    if r < s.len() {
        lemma_tag_mismatch(s, r, "="@, 0);
        lemma_tag_mismatch(s, r, "("@, 0);
    }
    assert(tag_end(s, r, "="@) is None);
    assert(tag_end(s, r, "("@) is None);
    // The rules tried before `false` do not apply.
    lemma_tag_mismatch(s, p, "if"@, 0);
    lemma_tag_mismatch(s, p, "fn"@, 1);
    lemma_tag_mismatch(s, p, "let"@, 0);
    lemma_tag_mismatch(s, p, "("@, 0);
    lemma_tag_mismatch(s, p, "^"@, 0);
    lemma_tag_mismatch(s, p, "~"@, 0);
    lemma_tag_mismatch(s, p, "!"@, 0);
    lemma_tag_mismatch(s, p, "call"@, 0);
    lemma_tag_mismatch(s, p, "loop"@, 0);
    lemma_tag_mismatch(s, p, "recur"@, 0);
    lemma_tag_mismatch(s, p, "-"@, 0);
    lemma_tag_mismatch(s, p, "true"@, 0);
    assert(e_if(s, p) == PR::<ExprV>::Fail);
    assert(e_fnsig(s, p) == PR::<ExprV>::Fail);
    assert(e_let(s, p) == PR::<ExprV>::Fail);
    assert(e_operator(s, p) == PR::<ExprV>::Fail);
    assert(e_unary(s, p) == PR::<ExprV>::Fail);
    assert(e_assign(s, p) == PR::<ExprV>::Fail);
    assert(e_call(s, p) == PR::<ExprV>::Fail);
    assert(e_populate(s, p) == PR::<ExprV>::Fail);
    assert(e_loop(s, p) == PR::<ExprV>::Fail);
    assert(e_recur(s, p) == PR::<ExprV>::Fail);
    assert(span_end(s, p, Class::Digit) == p);
    assert(digits(s, p) is None);
    assert(unsigned_number(s, p) is None);
    assert(number(s, p) is None);
    assert(e_number(s, p) == PR::<ExprV>::Fail);
    assert(e_true(s, p) == PR::<ExprV>::Fail);
    assert(w =~= "false"@);
    assert(tag_end(s, p, "false"@) == Some(p + 5));
    assert(e_false(s, p) == PR::Got(ExprV::Number(NumberV { negative: false, digits: "0"@ }), p + 5));
}

/// Where the text `true` stands as an expression, not run on into a
/// longer name, nor followed (after blanks) by `=` or `(`, which would
/// make it a name that is assigned or called, it is the number 1, not
/// negative, and ends right after `true`.
pub proof fn law_true_is_one(s: Seq<char>, p: int)
    requires
        0 <= p,
        p + 4 <= s.len(),
        s.subrange(p, p + 4) == "true"@,
        p + 4 == s.len() || !is_identifier_spec(s[p + 4]),
        ws_end(s, p + 4) == s.len() || (s[ws_end(s, p + 4)] != '=' && s[ws_end(s, p + 4)] != '('),
    ensures
        expression(s, p) == PR::Got(ExprV::Number(NumberV { negative: false, digits: "1"@ }), p + 4),
{
    reveal_strlit("true");
    reveal_strlit("if");
    reveal_strlit("fn");
    reveal_strlit("let");
    reveal_strlit("(");
    reveal_strlit("^");
    reveal_strlit("~");
    reveal_strlit("!");
    reveal_strlit("=");
    reveal_strlit("call");
    reveal_strlit("loop");
    reveal_strlit("recur");
    reveal_strlit("-");
    let w = s.subrange(p, p + 4);
    assert(s[p] == 't') by { assert(w[0] == s[p]); }
    assert(s[p + 1] == 'r') by { assert(w[1] == s[p + 1]); }
    assert(s[p + 2] == 'u') by { assert(w[2] == s[p + 2]); }
    assert(s[p + 3] == 'e') by { assert(w[3] == s[p + 3]); }
    assert(!is_whitespace_spec(s[p]));
    assert(ws_end(s, p) == p);
    let r = ws_end(s, p + 4);
    lemma_ws_end_again(s, p + 4);
    // `true` is the whole identifier at `p`.
    assert(span_end(s, p + 4, Class::IdentStart) == p + 4);
    assert(span_end(s, p + 3, Class::IdentStart) == p + 4);
    assert(span_end(s, p + 2, Class::IdentStart) == p + 4);
    assert(span_end(s, p + 1, Class::IdentStart) == p + 4);
    assert(span_end(s, p, Class::IdentStart) == p + 4);
    assert(span_end(s, p + 4, Class::Ident) == p + 4);
    assert(identifier(s, p) == Some((s.subrange(p, p + 4), p + 4)));
    // Neither `=` nor `(` follows it.
    if r < s.len() {
        lemma_tag_mismatch(s, r, "="@, 0);
        lemma_tag_mismatch(s, r, "("@, 0);
    }
    assert(tag_end(s, r, "="@) is None);
    assert(tag_end(s, r, "("@) is None);
    // The rules tried before `true` do not apply.
    lemma_tag_mismatch(s, p, "if"@, 0);
    lemma_tag_mismatch(s, p, "fn"@, 0);
    lemma_tag_mismatch(s, p, "let"@, 0);
    lemma_tag_mismatch(s, p, "("@, 0);
    lemma_tag_mismatch(s, p, "^"@, 0);
    lemma_tag_mismatch(s, p, "~"@, 0);
    lemma_tag_mismatch(s, p, "!"@, 0);
    lemma_tag_mismatch(s, p, "call"@, 0);
    lemma_tag_mismatch(s, p, "loop"@, 0);
    lemma_tag_mismatch(s, p, "recur"@, 0);
    lemma_tag_mismatch(s, p, "-"@, 0);
    assert(e_if(s, p) == PR::<ExprV>::Fail);
    assert(e_fnsig(s, p) == PR::<ExprV>::Fail);
    assert(e_let(s, p) == PR::<ExprV>::Fail);
    assert(e_operator(s, p) == PR::<ExprV>::Fail);
    assert(e_unary(s, p) == PR::<ExprV>::Fail);
    assert(e_assign(s, p) == PR::<ExprV>::Fail);
    assert(e_call(s, p) == PR::<ExprV>::Fail);
    assert(e_populate(s, p) == PR::<ExprV>::Fail);
    assert(e_loop(s, p) == PR::<ExprV>::Fail);
    assert(e_recur(s, p) == PR::<ExprV>::Fail);
    assert(span_end(s, p, Class::Digit) == p);
    assert(digits(s, p) is None);
    assert(unsigned_number(s, p) is None);
    assert(number(s, p) is None);
    assert(e_number(s, p) == PR::<ExprV>::Fail);
    assert(w =~= "true"@);
    assert(tag_end(s, p, "true"@) == Some(p + 4));
    assert(e_true(s, p) == PR::Got(ExprV::Number(NumberV { negative: false, digits: "1"@ }), p + 4));
}

} // verus!
