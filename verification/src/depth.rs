//! The depth at which `recur` branches: every `loop` and every `if`
//! closes the blocks it opens, so compiling an expression leaves the
//! count of open `if` blocks as it found it, and `recur` branches across
//! exactly the `if` blocks still open around it to the start of its loop.
use vstd::prelude::*;
use crate::ast::ExprV;
use crate::module::{Opcode, TokenV};
use crate::semantics::{
    CState, emit, op, f64_const, expr, block, range, truncated, bindings, arithmetic,
    populate_chunks, populate, call, call_indirect, if_call, mem_num, logic_or_user_call,
};

verus! {

proof fn depth_expr(st: CState, e: ExprV)
    ensures
        expr(st, e) matches Ok(st1) ==> st1.recur_depth == st.recur_depth,
    decreases e, 0int, 0int,
{
    match e {
        ExprV::Populate(name, es) => depth_populate(st, name, es),
        ExprV::Let(bs, es) => {
            depth_bindings(st, bs, 0);
            match bindings(st, bs, 0) {
                Ok(st1) => depth_block(st1, es, 0),
                Err(_) => {},
            }
        },
        ExprV::FunctionCall(name, ps) => depth_call(st, name, ps),
        ExprV::Assignment(x, v) => depth_expr(st, *v),
        _ => {},
    }
}

proof fn depth_block(st: CState, es: Seq<ExprV>, k: int)
    ensures
        block(st, es, k) matches Ok(st1) ==> st1.recur_depth == st.recur_depth,
    decreases es, 0int, es.len() - k,
{
    if 0 <= k < es.len() {
        if es[k] is Comment {
            depth_block(st, es, k + 1);
        } else {
            depth_expr(st, es[k]);
            match expr(st, es[k]) {
                Ok(st1) => {
                    let st2 = if crate::semantics::value_after(es, k + 1) {
                        emit(st1, seq![op(Opcode::Drop)])
                    } else {
                        st1
                    };
                    depth_block(st2, es, k + 1);
                },
                Err(_) => {},
            }
        }
    }
}

proof fn depth_range(st: CState, es: Seq<ExprV>, k: int, to: int)
    ensures
        range(st, es, k, to) matches Ok(st1) ==> st1.recur_depth == st.recur_depth,
    decreases es, 0int, to - k,
{
    if 0 <= k < to && to <= es.len() {
        depth_expr(st, es[k]);
        match expr(st, es[k]) {
            Ok(st1) => {
                depth_range(st1, es, k + 1, to);
            },
            Err(_) => {},
        }
    }
}

proof fn depth_truncated(st: CState, es: Seq<ExprV>, k: int)
    ensures
        truncated(st, es, k) matches Ok(st1) ==> st1.recur_depth == st.recur_depth,
    decreases es, 0int, es.len() - k,
{
    if 0 <= k < es.len() {
        depth_expr(st, es[k]);
        match expr(st, es[k]) {
            Ok(st1) => {
                let st2 = emit(st1, seq![op(Opcode::I32TruncSF64)]);
                depth_truncated(st2, es, k + 1);
            },
            Err(_) => {},
        }
    }
}

proof fn depth_bindings(st: CState, bs: Seq<(Seq<char>, ExprV)>, k: int)
    ensures
        bindings(st, bs, k) matches Ok(st1) ==> st1.recur_depth == st.recur_depth,
    decreases bs, 0int, bs.len() - k,
{
    if 0 <= k < bs.len() {
        assert(decreases_to!(bs => bs[k].1));
        depth_expr(st, bs[k].1);
        match expr(st, bs[k].1) {
            Ok(st1) => {
                let st2 = emit(
                    CState { local_types: st1.local_types.push(crate::ast::DataType::F64), ..st1 },
                    seq![op(Opcode::LocalSet), TokenV::UInt(st1.locals.len() as u32)],
                );
                let st3 = CState { locals: st2.locals.push(bs[k].0), ..st2 };
                depth_bindings(st3, bs, k + 1);
            },
            Err(_) => {},
        }
    }
}

proof fn depth_arithmetic(st: CState, name: Seq<char>, ps: Seq<ExprV>, k: int)
    ensures
        arithmetic(st, name, ps, k) matches Ok(st1) ==> st1.recur_depth == st.recur_depth,
    decreases ps, 0int, ps.len() - k,
{
    if 0 <= k < ps.len() {
        depth_expr(st, ps[k]);
        match expr(st, ps[k]) {
            Ok(st1) => {
                let st2 = if name == "%"@ {
                    emit(st1, seq![op(Opcode::I64TruncSF64)])
                } else {
                    st1
                };
                let st3 = if k != 0 {
                    emit(st2, crate::semantics::arithmetic_ops(name))
                } else {
                    st2
                };
                depth_arithmetic(st3, name, ps, k + 1);
            },
            Err(_) => {},
        }
    }
}

proof fn depth_populate_chunks(
    st: CState,
    es: Seq<ExprV>,
    size: int,
    count: int,
    j: int,
    target: TokenV,
    slot: i32,
)
    ensures
        populate_chunks(st, es, size, count, j, target, slot) matches Ok(st1) ==> st1.recur_depth == st.recur_depth,
    decreases es, 1int, count - j,
{
    if 0 <= j < count && size > 0 {
        let c = count - 1 - j;
        let from = c * size;
        let to = if (c + 1) * size < es.len() {
            (c + 1) * size
        } else {
            es.len() as int
        };
        depth_range(st, es, from, to);
        match range(st, es, from, to) {
            Ok(st1) => {
                if j == 0 && j != count - 1 {
                    let t = f64_const(0) + seq![
                        op(Opcode::Call),
                        target,
                        op(Opcode::LocalSet),
                        TokenV::Int(slot),
                    ];
                    depth_populate_chunks(emit(st1, t), es, size, count, j + 1, target, slot);
                } else if j != count - 1 {
                    let t = seq![
                        op(Opcode::LocalGet),
                        TokenV::Int(slot),
                        op(Opcode::Call),
                        target,
                        op(Opcode::LocalSet),
                        TokenV::Int(slot),
                    ];
                    depth_populate_chunks(emit(st1, t), es, size, count, j + 1, target, slot);
                }
            },
            Err(_) => {},
        }
    }
}

proof fn depth_populate(st: CState, name: Seq<char>, es: Seq<ExprV>)
    ensures
        populate(st, name, es) matches Ok(st1) ==> st1.recur_depth == st.recur_depth,
    decreases es, 2int, 0int,
{
    let st1 = CState {
        local_types: st.local_types.push(crate::ast::DataType::F64),
        locals: st.locals.push(seq![]),
        ..st
    };
    match populate(st, name, es) {
        Ok(st2) => {
            let (v, kind) = crate::semantics::resolve(st, name)->Ok_0;
            let i = crate::semantics::first_index(
                st.defs.map_values(|d: (Seq<char>, nat)| d.0),
                name,
            )->Some_0;
            let size = st.defs[i].1 - 1;
            let count = crate::semantics::chunk_count(es.len() as int, size);
            let slot = (st1.locals.len() - 1) as i32;
            depth_populate_chunks(st1, es, size, count, 0, crate::semantics::int_token(v), slot);
        },
        Err(_) => {},
    }
}

proof fn depth_call(st: CState, name: Seq<char>, ps: Seq<ExprV>)
    ensures
        call(st, name, ps) matches Ok(st1) ==> st1.recur_depth == st.recur_depth,
    decreases ps, 3int, 0int,
{
    if name == "do"@ {
        depth_block(st, ps, 0);
    } else if name == "call"@ {
        depth_call_indirect(st, ps);
    } else if name == "if"@ {
        depth_if(st, ps);
    } else if name == "mem"@ {
        depth_mem_num(st, ps);
    } else if name == "mem_byte"@ {
        if ps.len() == 1 {
            depth_expr(st, ps[0]);
        } else if ps.len() == 2 {
            depth_truncated(st, ps, 0);
        }
    } else if name == "mem_heap_start"@ {
    } else if name == "mem_heap_end"@ {
        if ps.len() == 1 {
            depth_expr(st, ps[0]);
        }
    } else if name == "mem_num"@ {
        depth_mem_num(st, ps);
    } else if crate::semantics::is_comparison(name) {
        if ps.len() == 2 {
            depth_range(st, ps, 0, 2);
        }
    } else if crate::semantics::is_bitwise(name) {
        if ps.len() == 2 {
            depth_expr(st, ps[0]);
            match expr(st, ps[0]) {
                Ok(st1) => {
                    let st2 = emit(st1, seq![op(Opcode::I64TruncSF64)]);
                    depth_expr(st2, ps[1]);
                },
                Err(_) => {},
            }
        }
    } else if crate::semantics::is_arithmetic(name) {
        depth_arithmetic(st, name, ps, 0);
    } else {
        depth_logic_or_user_call(st, name, ps);
    }
}

proof fn depth_call_indirect(st: CState, ps: Seq<ExprV>)
    ensures
        call_indirect(st, ps) matches Ok(st1) ==> st1.recur_depth == st.recur_depth,
    decreases ps, 2int, 0int,
{
    if ps.len() >= 2 {
        match ps[0] {
            ExprV::FnSig(_, _) => {
                depth_range(st, ps, 2, ps.len() as int);
                match range(st, ps, 2, ps.len() as int) {
                    Ok(st1) => depth_expr(st1, ps[1]),
                    Err(_) => {},
                }
            },
            _ => {},
        }
    }
}

proof fn depth_if(st: CState, ps: Seq<ExprV>)
    ensures
        if_call(st, ps) matches Ok(st1) ==> st1.recur_depth == st.recur_depth,
    decreases ps, 2int, 0int,
{
    if st.recur_depth < 0xffff_ffff && (ps.len() == 2 || ps.len() == 3) {
        depth_expr(st, ps[0]);
        match expr(st, ps[0]) {
            Ok(st1) => {
                let st2 = crate::semantics::enter_if(st, st1);
                depth_expr(st2, ps[1]);
                match expr(st2, ps[1]) {
                    Ok(st3) => {
                        if ps.len() == 3 {
                            let st4 = emit(st3, seq![op(Opcode::Else)]);
                            depth_expr(st4, ps[2]);
                        }
                    },
                    Err(_) => {},
                }
            },
            Err(_) => {},
        }
    }
}

proof fn depth_mem_num(st: CState, ps: Seq<ExprV>)
    ensures
        mem_num(st, ps) matches Ok(st1) ==> st1.recur_depth == st.recur_depth,
    decreases ps, 2int, 0int,
{
    if ps.len() == 1 {
        depth_expr(st, ps[0]);
    } else if ps.len() == 2 {
        depth_expr(st, ps[0]);
        match expr(st, ps[0]) {
            Ok(st1) => {
                let st2 = emit(st1, seq![op(Opcode::I32TruncSF64)]);
                depth_expr(st2, ps[1]);
            },
            Err(_) => {},
        }
    }
}

proof fn depth_logic_or_user_call(st: CState, name: Seq<char>, ps: Seq<ExprV>)
    ensures
        logic_or_user_call(st, name, ps) matches Ok(st1) ==> st1.recur_depth == st.recur_depth,
    decreases ps, 2int, 0int,
{
    if name == "!"@ || name == "~"@ {
        if ps.len() == 1 {
            depth_expr(st, ps[0]);
        }
    } else if name == "and"@ || name == "or"@ {
        if ps.len() == 2 {
            depth_expr(st, ps[0]);
            match expr(st, ps[0]) {
                Ok(st1) => {
                    let t = if name == "and"@ {
                        seq![
                            op(Opcode::I64TruncSF64),
                            op(Opcode::I64Const),
                            TokenV::Int(0),
                            op(Opcode::I64Ne),
                        ]
                    } else {
                        seq![op(Opcode::I64TruncSF64)]
                    };
                    let st2 = emit(st1, t);
                    depth_expr(st2, ps[1]);
                },
                Err(_) => {},
            }
        }
    } else {
        depth_range(st, ps, 0, ps.len() as int);
    }
}

/// Compiling an expression leaves the count of open `if` blocks as it
/// found it: an `if` or a `loop` that is compiled closes its block, so a
/// later `recur` counts only the `if` blocks still open around it.
pub proof fn law_recur_depth_kept(st: CState, e: ExprV)
    ensures
        expr(st, e) matches Ok(st1) ==> st1.recur_depth == st.recur_depth,
{
    depth_expr(st, e);
}

} // verus!
