//! The scope of local names: a `let` restores the names in scope after
//! its body, and compiling an expression leaves the names in scope as they
//! were, except for an assignment to a new name and a populate (`#`), which
//! add a local.
use vstd::prelude::*;
use crate::ast::ExprV;
use crate::module::{Opcode, TokenV};
use crate::semantics::{
    CState, emit, op, expr, block, range, truncated, bindings, arithmetic, call, call_indirect,
    if_call, mem_num, logic_or_user_call, text_data,
};

verus! {

/// Whether an expression declares no local that outlives it: it holds no
/// populate.
pub open spec fn keeps_scope(e: ExprV) -> bool
    decreases e, 1int, 0int,
{
    match e {
        ExprV::Populate(_, _) => false,
        ExprV::Assignment(_, _) => false,
        ExprV::FunctionCall(_, ps) => all_keep_scope(ps, 0),
        ExprV::Loop(es) => all_keep_scope(es, 0),
        _ => true,
    }
}

/// Whether `es[k..]` all keep the scope.
pub open spec fn all_keep_scope(es: Seq<ExprV>, k: int) -> bool
    decreases es, 0int, es.len() - k,
{
    if 0 <= k < es.len() {
        keeps_scope(es[k]) && all_keep_scope(es, k + 1)
    } else {
        true
    }
}

/// Whether the values of the bindings `bs[k..]` all keep the scope.
pub open spec fn bindings_keep_scope(bs: Seq<(Seq<char>, ExprV)>, k: int) -> bool
    decreases bs, 0int, bs.len() - k,
{
    if 0 <= k < bs.len() {
        keeps_scope(bs[k].1) && bindings_keep_scope(bs, k + 1)
    } else {
        true
    }
}

/// The names that the bindings `bs[k..]` bind, in order.
pub open spec fn bound_names(bs: Seq<(Seq<char>, ExprV)>, k: int) -> Seq<Seq<char>>
    decreases bs.len() - k,
{
    if 0 <= k < bs.len() {
        seq![bs[k].0] + bound_names(bs, k + 1)
    } else {
        seq![]
    }
}

proof fn lemma_all_keep(es: Seq<ExprV>, k: int, i: int)
    requires
        all_keep_scope(es, k),
        0 <= k <= i < es.len(),
    ensures
        keeps_scope(es[i]),
    decreases i - k,
{
    if k < i {
        lemma_all_keep(es, k + 1, i);
    }
}

proof fn lemma_text_locals(st: CState, t: Seq<char>)
    ensures
        text_data(st, t) matches Ok((st1, p)) ==> st1.locals == st.locals,
{
}

proof fn lemma_expr_scope(st: CState, e: ExprV)
    requires
        keeps_scope(e),
    ensures
        expr(st, e) matches Ok(st1) ==> st1.locals == st.locals,
    decreases e, 0int, 0int,
{
    match e {
        ExprV::Loop(es) => {
            if es.len() > 0 {
                let st1 = emit(
                    CState { recur_depth: 0, ..st },
                    seq![op(Opcode::Loop), op(Opcode::F64)],
                );
                lemma_block_scope(st1, es, 0);
            }
        },
        ExprV::FunctionCall(name, ps) => lemma_call_scope(st, name, ps),
        ExprV::TextLiteral(x) => lemma_text_locals(st, x),
        _ => {},
    }
}

proof fn lemma_block_scope(st: CState, es: Seq<ExprV>, k: int)
    requires
        all_keep_scope(es, k),
    ensures
        block(st, es, k) matches Ok(st1) ==> st1.locals == st.locals,
    decreases es, 0int, es.len() - k,
{
    if 0 <= k < es.len() {
        if es[k] is Comment {
            lemma_block_scope(st, es, k + 1);
        } else {
            lemma_expr_scope(st, es[k]);
            match expr(st, es[k]) {
                Ok(st1) => {
                    let st2 = if crate::semantics::value_after(es, k + 1) {
                        emit(st1, seq![op(Opcode::Drop)])
                    } else {
                        st1
                    };
                    lemma_block_scope(st2, es, k + 1);
                },
                Err(_) => {},
            }
        }
    }
}

proof fn lemma_range_scope(st: CState, es: Seq<ExprV>, k: int, to: int)
    requires
        all_keep_scope(es, 0),
        0 <= k,
    ensures
        range(st, es, k, to) matches Ok(st1) ==> st1.locals == st.locals,
    decreases es, 0int, to - k,
{
    if 0 <= k < to && to <= es.len() {
        lemma_all_keep(es, 0, k);
        lemma_expr_scope(st, es[k]);
        match expr(st, es[k]) {
            Ok(st1) => lemma_range_scope(st1, es, k + 1, to),
            Err(_) => {},
        }
    }
}

proof fn lemma_truncated_scope(st: CState, es: Seq<ExprV>, k: int)
    requires
        all_keep_scope(es, k),
    ensures
        truncated(st, es, k) matches Ok(st1) ==> st1.locals == st.locals,
    decreases es, 0int, es.len() - k,
{
    if 0 <= k < es.len() {
        lemma_expr_scope(st, es[k]);
        match expr(st, es[k]) {
            Ok(st1) => lemma_truncated_scope(
                emit(st1, seq![op(Opcode::I32TruncSF64)]),
                es,
                k + 1,
            ),
            Err(_) => {},
        }
    }
}

proof fn lemma_bindings_scope(st: CState, bs: Seq<(Seq<char>, ExprV)>, k: int)
    requires
        bindings_keep_scope(bs, k),
    ensures
        bindings(st, bs, k) matches Ok(st1) ==> st1.locals == st.locals + bound_names(bs, k),
    decreases bs, 0int, bs.len() - k,
{
    if 0 <= k < bs.len() {
        assert(decreases_to!(bs => bs[k].1));
        lemma_expr_scope(st, bs[k].1);
        match expr(st, bs[k].1) {
            Ok(st1) => {
                let st2 = emit(
                    CState { local_types: st1.local_types.push(crate::ast::DataType::F64), ..st1 },
                    seq![op(Opcode::LocalSet), TokenV::UInt(st1.locals.len() as u32)],
                );
                let st3 = CState { locals: st2.locals.push(bs[k].0), ..st2 };
                lemma_bindings_scope(st3, bs, k + 1);
                match bindings(st3, bs, k + 1) {
                    Ok(st4) => {
                        assert(st4.locals =~= st.locals + bound_names(bs, k));
                    },
                    Err(_) => {},
                }
            },
            Err(_) => {},
        }
    } else {
        assert(st.locals + bound_names(bs, k) =~= st.locals);
    }
}

proof fn lemma_arithmetic_scope(st: CState, name: Seq<char>, ps: Seq<ExprV>, k: int)
    requires
        all_keep_scope(ps, k),
    ensures
        arithmetic(st, name, ps, k) matches Ok(st1) ==> st1.locals == st.locals,
    decreases ps, 0int, ps.len() - k,
{
    if 0 <= k < ps.len() {
        lemma_expr_scope(st, ps[k]);
        match expr(st, ps[k]) {
            Ok(st1) => {
                let st2 = if name == "%"@ {
                    emit(st1, seq![op(Opcode::I64TruncSF64)])
                } else {
                    st1
                };
                let st3 = if k != 0 {
                    emit(st2, crate::semantics::arithmetic_ops(name))
                } else {
                    st2
                };
                lemma_arithmetic_scope(st3, name, ps, k + 1);
            },
            Err(_) => {},
        }
    }
}

proof fn lemma_call_scope(st: CState, name: Seq<char>, ps: Seq<ExprV>)
    requires
        all_keep_scope(ps, 0),
    ensures
        call(st, name, ps) matches Ok(st1) ==> st1.locals == st.locals,
    decreases ps, 3int, 0int,
{
    if ps.len() >= 1 {
        lemma_all_keep(ps, 0, 0);
    }
    if ps.len() >= 2 {
        lemma_all_keep(ps, 0, 1);
    }
    if name == "do"@ {
        lemma_block_scope(st, ps, 0);
    } else if name == "call"@ {
        lemma_call_indirect_scope(st, ps);
    } else if name == "if"@ {
        lemma_if_scope(st, ps);
    } else if name == "mem"@ {
        lemma_mem_num_scope(st, ps);
    } else if name == "mem_byte"@ {
        if ps.len() == 1 {
            lemma_expr_scope(st, ps[0]);
        } else if ps.len() == 2 {
            lemma_truncated_scope(st, ps, 0);
        }
    } else if name == "mem_heap_start"@ {
    } else if name == "mem_heap_end"@ {
        if ps.len() == 1 {
            lemma_expr_scope(st, ps[0]);
        }
    } else if name == "mem_num"@ {
        lemma_mem_num_scope(st, ps);
    } else if crate::semantics::is_comparison(name) {
        lemma_range_scope(st, ps, 0, 2);
    } else if crate::semantics::is_bitwise(name) {
        if ps.len() == 2 {
            lemma_expr_scope(st, ps[0]);
            match expr(st, ps[0]) {
                Ok(st1) => lemma_expr_scope(emit(st1, seq![op(Opcode::I64TruncSF64)]), ps[1]),
                Err(_) => {},
            }
        }
    } else if crate::semantics::is_arithmetic(name) {
        lemma_arithmetic_scope(st, name, ps, 0);
    } else {
        lemma_logic_scope(st, name, ps);
    }
}

proof fn lemma_call_indirect_scope(st: CState, ps: Seq<ExprV>)
    requires
        all_keep_scope(ps, 0),
    ensures
        call_indirect(st, ps) matches Ok(st1) ==> st1.locals == st.locals,
    decreases ps, 2int, 0int,
{
    if ps.len() >= 2 {
        lemma_all_keep(ps, 0, 1);
        lemma_range_scope(st, ps, 2, ps.len() as int);
        match range(st, ps, 2, ps.len() as int) {
            Ok(st1) => lemma_expr_scope(st1, ps[1]),
            Err(_) => {},
        }
    }
}

proof fn lemma_if_scope(st: CState, ps: Seq<ExprV>)
    requires
        all_keep_scope(ps, 0),
    ensures
        if_call(st, ps) matches Ok(st1) ==> st1.locals == st.locals,
    decreases ps, 2int, 0int,
{
    if st.recur_depth < 0xffff_ffff && (ps.len() == 2 || ps.len() == 3) {
        lemma_all_keep(ps, 0, 0);
        lemma_all_keep(ps, 0, 1);
        lemma_expr_scope(st, ps[0]);
        match expr(st, ps[0]) {
            Ok(st1) => {
                let st2 = crate::semantics::enter_if(st, st1);
                lemma_expr_scope(st2, ps[1]);
                match expr(st2, ps[1]) {
                    Ok(st3) => {
                        if ps.len() == 3 {
                            lemma_all_keep(ps, 0, 2);
                            lemma_expr_scope(emit(st3, seq![op(Opcode::Else)]), ps[2]);
                        }
                    },
                    Err(_) => {},
                }
            },
            Err(_) => {},
        }
    }
}

proof fn lemma_mem_num_scope(st: CState, ps: Seq<ExprV>)
    requires
        all_keep_scope(ps, 0),
    ensures
        mem_num(st, ps) matches Ok(st1) ==> st1.locals == st.locals,
    decreases ps, 2int, 0int,
{
    if ps.len() == 1 {
        lemma_all_keep(ps, 0, 0);
        lemma_expr_scope(st, ps[0]);
    } else if ps.len() == 2 {
        lemma_all_keep(ps, 0, 0);
        lemma_all_keep(ps, 0, 1);
        lemma_expr_scope(st, ps[0]);
        match expr(st, ps[0]) {
            Ok(st1) => lemma_expr_scope(emit(st1, seq![op(Opcode::I32TruncSF64)]), ps[1]),
            Err(_) => {},
        }
    }
}

proof fn lemma_logic_scope(st: CState, name: Seq<char>, ps: Seq<ExprV>)
    requires
        all_keep_scope(ps, 0),
    ensures
        logic_or_user_call(st, name, ps) matches Ok(st1) ==> st1.locals == st.locals,
    decreases ps, 2int, 0int,
{
    if ps.len() >= 1 {
        lemma_all_keep(ps, 0, 0);
    }
    if ps.len() >= 2 {
        lemma_all_keep(ps, 0, 1);
    }
    if name == "!"@ || name == "~"@ {
        if ps.len() == 1 {
            lemma_expr_scope(st, ps[0]);
        }
    } else if name == "and"@ || name == "or"@ {
        if ps.len() == 2 {
            lemma_expr_scope(st, ps[0]);
            match expr(st, ps[0]) {
                Ok(st1) => {
                    let t = if name == "and"@ {
                        seq![
                            op(Opcode::I64TruncSF64),
                            op(Opcode::I64Const),
                            TokenV::Int(0),
                            op(Opcode::I64Ne),
                        ]
                    } else {
                        seq![op(Opcode::I64TruncSF64)]
                    };
                    lemma_expr_scope(emit(st1, t), ps[1]);
                },
                Err(_) => {},
            }
        }
    } else {
        lemma_range_scope(st, ps, 0, ps.len() as int);
    }
}

/// A `let` binds its names for its body only: once it is compiled, the
/// names in scope are those before it, whatever its body declares; and
/// while its body is compiled, its names stand after those in scope, the
/// last bound innermost (when no value of a binding declares a local of its
/// own, by an assignment or a populate).
pub proof fn law_let_scope(st: CState, bs: Seq<(Seq<char>, ExprV)>, es: Seq<ExprV>)
    ensures
        expr(st, ExprV::Let(bs, es)) matches Ok(st1) ==> st1.locals == st.locals,
        bindings_keep_scope(bs, 0) ==> (bindings(st, bs, 0) matches Ok(st1) ==> st1.locals
            == st.locals + bound_names(bs, 0)),
{
    if bindings_keep_scope(bs, 0) {
        lemma_bindings_scope(st, bs, 0);
    }
}

} // verus!
