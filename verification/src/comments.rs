//! Comments in a body add no code: a body compiles exactly as it does with
//! its comments taken out, to the same instructions and the same drops.
use vstd::prelude::*;
use crate::ast::{ExprV, FunctionV};
use crate::module::Opcode;
use crate::semantics::{CState, emit, op, expr, block, value_after, function_code, function_of};

verus! {

/// The expressions of `es` that are not comments, in order.
pub open spec fn uncommented(es: Seq<ExprV>) -> Seq<ExprV>
    decreases es.len(),
{
    if es.len() == 0 {
        es
    } else if es[0] is Comment {
        uncommented(es.drop_first())
    } else {
        seq![es[0]] + uncommented(es.drop_first())
    }
}

proof fn lemma_uncommented_plain(es: Seq<ExprV>)
    ensures
        forall|i: int| 0 <= i < uncommented(es).len() ==> !(#[trigger] uncommented(es)[i] is Comment),
    decreases es.len(),
{
    if es.len() > 0 {
        lemma_uncommented_plain(es.drop_first());
        if !(es[0] is Comment) {
            let u = uncommented(es.drop_first());
            assert forall|i: int| 0 <= i < uncommented(es).len() implies !(
            #[trigger] uncommented(es)[i] is Comment) by {
                if i > 0 {
                    assert(uncommented(es)[i] == u[i - 1]);
                }
            }
        }
    }
}

proof fn lemma_value_after_shift(es: Seq<ExprV>, m: int, j: int)
    requires
        0 <= m <= j,
        m <= es.len(),
    ensures
        value_after(es, j) == value_after(es.skip(m), j - m),
    decreases es.len() - j,
{
    if j < es.len() {
        assert(es.skip(m)[j - m] == es[j]);
        lemma_value_after_shift(es, m, j + 1);
    }
}

proof fn lemma_block_shift(st: CState, es: Seq<ExprV>, m: int, k: int)
    requires
        0 <= m <= k,
        m <= es.len(),
    ensures
        block(st, es, k) == block(st, es.skip(m), k - m),
    decreases es.len() - k,
{
    if k < es.len() {
        assert(es.skip(m)[k - m] == es[k]);
        if es[k] is Comment {
            lemma_block_shift(st, es, m, k + 1);
        } else {
            lemma_value_after_shift(es, m, k + 1);
            match expr(st, es[k]) {
                Ok(st1) => {
                    let st2 = if value_after(es, k + 1) {
                        emit(st1, seq![op(Opcode::Drop)])
                    } else {
                        st1
                    };
                    lemma_block_shift(st2, es, m, k + 1);
                },
                Err(_) => {},
            }
        }
    }
}

proof fn lemma_value_after_uncommented(es: Seq<ExprV>, j: int)
    requires
        0 <= j <= es.len(),
    ensures
        value_after(es, j) == (uncommented(es.skip(j)).len() > 0),
    decreases es.len() - j,
{
    if j < es.len() {
        let x = es.skip(j);
        assert(x[0] == es[j]);
        assert(x.drop_first() =~= es.skip(j + 1));
        lemma_value_after_uncommented(es, j + 1);
    } else {
        assert(es.skip(j).len() == 0);
    }
}

proof fn lemma_block_uncommented(st: CState, es: Seq<ExprV>, k: int)
    requires
        0 <= k <= es.len(),
    ensures
        block(st, es, k) == block(st, uncommented(es.skip(k)), 0),
    decreases es.len() - k,
{
    let x = es.skip(k);
    if k < es.len() {
        assert(x[0] == es[k]);
        assert(x.drop_first() =~= es.skip(k + 1));
        let u = uncommented(es.skip(k + 1));
        if es[k] is Comment {
            lemma_block_uncommented(st, es, k + 1);
        } else {
            let w = uncommented(x);
            assert(w == seq![es[k]] + u);
            assert(w[0] == es[k]);
            lemma_uncommented_plain(es.skip(k + 1));
            lemma_value_after_uncommented(es, k + 1);
            assert(value_after(w, 1) == (u.len() > 0)) by {
                if u.len() > 0 {
                    assert(w[1] == u[0]);
                }
            }
            match expr(st, es[k]) {
                Ok(st1) => {
                    let st2 = if value_after(es, k + 1) {
                        emit(st1, seq![op(Opcode::Drop)])
                    } else {
                        st1
                    };
                    lemma_block_uncommented(st2, es, k + 1);
                    lemma_block_shift(st2, w, 1, 1);
                    assert(w.skip(1) =~= u);
                },
                Err(_) => {},
            }
        }
    } else {
        assert(x.len() == 0);
    }
}

/// A comment adds no code: a body compiles exactly as the same body with
/// its comments taken out (the same instructions, the same drops, the same
/// errors), and so does a function.
pub proof fn law_comments_add_nothing(st: CState, es: Seq<ExprV>, f: FunctionV)
    ensures
        block(st, es, 0) == block(st, uncommented(es), 0),
        function_code(st, f) == function_code(st, FunctionV { children: uncommented(f.children), ..f }),
        forall|st1: CState|
            function_of(st1, f) == #[trigger] function_of(
                st1,
                FunctionV { children: uncommented(f.children), ..f },
            ),
{
    lemma_block_uncommented(st, es, 0);
    assert(es.skip(0) =~= es);
    let st0 = CState { locals: f.params, code: seq![], local_types: seq![], ..st };
    lemma_block_uncommented(st0, f.children, 0);
    assert(f.children.skip(0) =~= f.children);
}

} // verus!
