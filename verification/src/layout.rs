//! What every step of compilation keeps: data segments are only appended,
//! each placed at the heap position and ending before the heap position
//! after it, the heap never moves back, and symbols and function types are
//! only added, never renumbered.
use vstd::prelude::*;
use crate::ast::{ExprV, GlobalValueV, FunctionV, TopV};
use crate::module::{
    Opcode, NumV, TokenV, DataItemV, DataV,
};
use crate::semantics::{
    CState, i32_max, clamp_i32, emit, op, f64_const, items_size, next_heap, create_data,
    text_data, global_value, global_values_from, struct_values, globals_from, expr, block, range,
    truncated, bindings, arithmetic, populate_chunks, populate, call, call_indirect, if_call,
    mem_num, logic_or_user_call, function_code, functions_from, functions_of, initial_state,
    compile_program, numbers_data, symbol_value, add_type, first_index, is_first,
    lemma_first_index_is, lemma_first_index_bound,
};
use crate::ast::DataType;

verus! {

/// The first address past a data segment.
pub open spec fn seg_end(d: DataV) -> int {
    d.offset as int + items_size(d.items)
}

/// The segments `d[from..]` lie in order within `[lo, hi]`, none
/// overlapping the next.
pub open spec fn fresh_in(d: Seq<DataV>, from: int, lo: int, hi: int) -> bool {
    &&& forall|i: int| from <= i < d.len() ==> lo <= (#[trigger] d[i]).offset && seg_end(d[i]) <= hi
    &&& forall|i: int, j: int|
        from <= i < j < d.len() ==> seg_end(#[trigger] d[i]) <= (#[trigger] d[j]).offset
}

/// From `a` to `b` the heap only moves forward, data is only appended, and
/// symbols (never twice) and function types are only added; while the heap stays within
/// `i32`, the new segments lie in order between the two heap positions.
pub open spec fn grows(a: CState, b: CState) -> bool {
    &&& a.heap <= b.heap
    &&& a.data.len() <= b.data.len()
    &&& b.data.take(a.data.len() as int) == a.data
    &&& (0 <= a.heap && b.heap <= i32_max() ==> fresh_in(
        b.data,
        a.data.len() as int,
        a.heap,
        b.heap,
    ))
    &&& a.symbols.is_prefix_of(b.symbols)
    &&& (a.symbols.no_duplicates() ==> b.symbols.no_duplicates())
    &&& a.types.is_prefix_of(b.types)
}

proof fn lemma_grows_same(a: CState, b: CState)
    requires
        a.data == b.data,
        a.heap == b.heap,
        a.symbols == b.symbols,
        a.types == b.types,
    ensures
        grows(a, b),
{
    assert(b.data.take(a.data.len() as int) =~= a.data);
    assert(a.symbols =~= b.symbols.subrange(0, a.symbols.len() as int));
    assert(a.types =~= b.types.subrange(0, a.types.len() as int));
}

proof fn lemma_symbol(st: CState, t: Seq<char>)
    ensures
        grows(st, symbol_value(st, t).0),
{
    let st1 = symbol_value(st, t).0;
    if st.symbols.no_duplicates() {
        crate::laws::law_symbols(st, t, t);
    }
    assert(st1.data.take(st.data.len() as int) =~= st.data);
    assert(st.symbols =~= st1.symbols.subrange(0, st.symbols.len() as int));
    assert(st.types =~= st1.types.subrange(0, st.types.len() as int));
}

proof fn lemma_type(st: CState, ins: Seq<crate::ast::DataType>, out: Option<crate::ast::DataType>)
    ensures
        grows(st, crate::semantics::add_type(st, ins, out).0),
{
    let st1 = crate::semantics::add_type(st, ins, out).0;
    assert(st1.data.take(st.data.len() as int) =~= st.data);
    assert(st.symbols =~= st1.symbols.subrange(0, st.symbols.len() as int));
    assert(st.types =~= st1.types.subrange(0, st.types.len() as int));
}

proof fn lemma_grows_trans(a: CState, b: CState, c: CState)
    requires
        grows(a, b),
        grows(b, c),
    ensures
        grows(a, c),
{
    assert(c.data.take(a.data.len() as int) =~= a.data) by {
        assert(c.data.take(b.data.len() as int).take(a.data.len() as int) =~= c.data.take(
            a.data.len() as int,
        ));
    }
    assert(a.symbols =~= c.symbols.subrange(0, a.symbols.len() as int)) by {
        assert(a.symbols =~= b.symbols.subrange(0, a.symbols.len() as int));
        assert(b.symbols =~= c.symbols.subrange(0, b.symbols.len() as int));
    }
    assert(a.types =~= c.types.subrange(0, a.types.len() as int)) by {
        assert(a.types =~= b.types.subrange(0, a.types.len() as int));
        assert(b.types =~= c.types.subrange(0, b.types.len() as int));
    }
    if 0 <= a.heap && c.heap <= i32_max() {
        let d = c.data;
        let na = a.data.len() as int;
        let nb = b.data.len() as int;
        assert forall|i: int| na <= i < nb implies d[i] == b.data[i] by {
            assert(d.take(nb)[i] == d[i]);
        }
        assert forall|i: int| na <= i < d.len() implies a.heap <= (#[trigger] d[i]).offset
            && seg_end(d[i]) <= c.heap by {
            if i < nb {
                assert(d[i] == b.data[i]);
            }
        }
        assert forall|i: int, j: int| na <= i < j < d.len() implies seg_end(#[trigger] d[i]) <= (
        #[trigger] d[j]).offset by {
            if j < nb {
                assert(d[i] == b.data[i]);
                assert(d[j] == b.data[j]);
            } else if i < nb {
                assert(d[i] == b.data[i]);
                assert(b.heap <= d[j].offset);
            }
        }
    }
}

proof fn lemma_depth_restored(a: CState, b: CState, d: int)
    requires
        grows(a, b),
    ensures
        grows(a, CState { recur_depth: d, ..b }),
{
    lemma_grows_same(b, CState { recur_depth: d, ..b });
    lemma_grows_trans(a, b, CState { recur_depth: d, ..b });
}

proof fn lemma_emit_after(a: CState, b: CState, t: Seq<TokenV>)
    requires
        grows(a, b),
    ensures
        grows(a, emit(b, t)),
{
    lemma_grows_same(b, emit(b, t));
    lemma_grows_trans(a, b, emit(b, t));
}

proof fn lemma_items_size_nonneg(s: Seq<DataItemV>)
    ensures
        items_size(s) >= 0,
    decreases s.len(),
{
    if s.len() > 0 {
        lemma_items_size_nonneg(s.drop_last());
    }
}

proof fn lemma_create_data(st: CState, items: Seq<DataItemV>)
    ensures
        create_data(st, items) matches Ok((st1, p)) ==> grows(st, st1) && p == st.heap,
{
    lemma_items_size_nonneg(items);
    match create_data(st, items) {
        Ok((st1, p)) => {
            assert(st1.data.take(st.data.len() as int) =~= st.data);
            assert(st.symbols =~= st1.symbols.subrange(0, st.symbols.len() as int));
            assert(st.types =~= st1.types.subrange(0, st.types.len() as int));
            if 0 <= st.heap && st1.heap <= i32_max() {
                assert(clamp_i32(p) == p);
                assert(st1.data[st.data.len() as int].offset == p);
            }
        },
        Err(_) => {},
    }
}

proof fn lemma_text_data(st: CState, t: Seq<char>)
    ensures
        text_data(st, t) matches Ok((st1, p)) ==> grows(st, st1),
{
    lemma_create_data(st, seq![DataItemV::Bytes(crate::semantics::c_string(t))]);
}

proof fn lemma_global_value(st: CState, g: GlobalValueV)
    ensures
        global_value(st, g) matches Ok((st1, v)) ==> grows(st, st1),
    decreases g, 0int,
{
    match g {
        GlobalValueV::Text(t) => lemma_text_data(st, t),
        GlobalValueV::Data(vs) => {
            lemma_global_values(st, vs, 0, seq![]);
            match global_values_from(st, vs, 0, seq![]) {
                Ok((st1, ns)) => {
                    lemma_create_data(st1, numbers_data(ns));
                    match create_data(st1, numbers_data(ns)) {
                        Ok((st2, p)) => lemma_grows_trans(st, st1, st2),
                        Err(_) => {},
                    }
                },
                Err(_) => {},
            }
        },
        GlobalValueV::Struct(ms) => {
            lemma_struct_values(st, ms, 0, seq![]);
            match struct_values(st, ms, 0, seq![]) {
                Ok((st1, ns)) => {
                    lemma_create_data(st1, numbers_data(ns.push(NumV::Int(0))));
                    match create_data(st1, numbers_data(ns.push(NumV::Int(0)))) {
                        Ok((st2, p)) => lemma_grows_trans(st, st1, st2),
                        Err(_) => {},
                    }
                },
                Err(_) => {},
            }
        },
        GlobalValueV::Symbol(t) => lemma_symbol(st, t),
        _ => {
            match global_value(st, g) {
                Ok((st1, v)) => lemma_grows_same(st, st1),
                Err(_) => {},
            }
        },
    }
}

proof fn lemma_global_values(st: CState, vs: Seq<GlobalValueV>, k: int, acc: Seq<NumV>)
    ensures
        global_values_from(st, vs, k, acc) matches Ok((st1, ns)) ==> grows(st, st1),
    decreases vs, vs.len() - k,
{
    if 0 <= k < vs.len() {
        lemma_global_value(st, vs[k]);
        match global_value(st, vs[k]) {
            Ok((st1, v)) => {
                lemma_global_values(st1, vs, k + 1, acc.push(v));
                match global_values_from(st1, vs, k + 1, acc.push(v)) {
                    Ok((st2, ns)) => lemma_grows_trans(st, st1, st2),
                    Err(_) => {},
                }
            },
            Err(_) => {},
        }
    } else {
        lemma_grows_same(st, st);
    }
}

proof fn lemma_struct_values(st: CState, ms: Seq<Seq<char>>, k: int, acc: Seq<NumV>)
    ensures
        struct_values(st, ms, k, acc) matches Ok((st1, ns)) ==> grows(st, st1),
    decreases ms.len() - k,
{
    if 0 <= k < ms.len() {
        let (st1, sym) = symbol_value(st, ms[k]);
        lemma_symbol(st, ms[k]);
        lemma_text_data(st1, seq![]);
        match text_data(st1, seq![]) {
            Ok((st2, p)) => {
                lemma_grows_trans(st, st1, st2);
                let acc2 = acc.push(NumV::Int(sym)).push(NumV::Int(p));
                lemma_struct_values(st2, ms, k + 1, acc2);
                match struct_values(st2, ms, k + 1, acc2) {
                    Ok((st3, ns)) => lemma_grows_trans(st, st2, st3),
                    Err(_) => {},
                }
            },
            Err(_) => {},
        }
    } else {
        lemma_grows_same(st, st);
    }
}

proof fn lemma_globals(st: CState, tops: Seq<TopV>, k: int)
    ensures
        globals_from(st, tops, k) matches Ok(st1) ==> grows(st, st1),
    decreases tops.len() - k,
{
    if 0 <= k < tops.len() {
        match tops[k] {
            TopV::DefineGlobal(name, g) => {
                let st1 = CState { global_names: st.global_names.push(name), ..st };
                lemma_grows_same(st, st1);
                lemma_global_value(st1, g);
                match global_value(st1, g) {
                    Ok((st2, v)) => {
                        let st3 = CState { global_values: st2.global_values.push(v), ..st2 };
                        lemma_grows_same(st2, st3);
                        lemma_grows_trans(st, st1, st2);
                        lemma_grows_trans(st, st2, st3);
                        lemma_globals(st3, tops, k + 1);
                        match globals_from(st3, tops, k + 1) {
                            Ok(st4) => lemma_grows_trans(st, st3, st4),
                            Err(_) => {},
                        }
                    },
                    Err(_) => {},
                }
            },
            _ => {
                lemma_globals(st, tops, k + 1);
            },
        }
    } else {
        lemma_grows_same(st, st);
    }
}

proof fn lemma_expr(st: CState, e: ExprV)
    ensures
        expr(st, e) matches Ok(st1) ==> grows(st, st1),
    decreases e, 0int, 0int,
{
    match e {
        ExprV::Populate(name, es) => lemma_populate(st, name, es),
        ExprV::Loop(es) => {
            if es.len() > 0 {
                let st1 = emit(
                    CState { recur_depth: 0, ..st },
                    seq![op(Opcode::Loop), op(Opcode::F64)],
                );
                lemma_grows_same(st, st1);
                lemma_block(st1, es, 0);
                match block(st1, es, 0) {
                    Ok(st2) => {
                        lemma_grows_trans(st, st1, st2);
                        let st3 = emit(st2, seq![op(Opcode::End)]);
                        lemma_emit_after(st, st2, seq![op(Opcode::End)]);
                        lemma_grows_same(st3, CState { recur_depth: st.recur_depth, ..st3 });
                        lemma_grows_trans(st, st3, CState { recur_depth: st.recur_depth, ..st3 });
                    },
                    Err(_) => {},
                }
            }
        },
        ExprV::Let(bs, es) => {
            lemma_bindings(st, bs, 0);
            match bindings(st, bs, 0) {
                Ok(st1) => {
                    lemma_block(st1, es, 0);
                    match block(st1, es, 0) {
                        Ok(st2) => {
                            lemma_grows_trans(st, st1, st2);
                            let st3 = CState { locals: st.locals, ..st2 };
                            lemma_grows_same(st2, st3);
                            lemma_grows_trans(st, st2, st3);
                        },
                        Err(_) => {},
                    }
                },
                Err(_) => {},
            }
        },
        ExprV::FunctionCall(name, ps) => lemma_call(st, name, ps),
        ExprV::TextLiteral(x) => {
            lemma_text_data(st, x);
            match text_data(st, x) {
                Ok((st1, p)) => lemma_emit_after(st, st1, f64_const(p)),
                Err(_) => {},
            }
        },
        ExprV::SymbolLiteral(x) => {
            let (st1, v) = symbol_value(st, x);
            lemma_symbol(st, x);
            lemma_emit_after(st, st1, f64_const(v));
        },
        ExprV::FnSig(ins, out) => {
            let (st1, t) = crate::semantics::add_type(st, ins, out);
            lemma_type(st, ins, out);
            lemma_emit_after(st, st1, f64_const(t));
        },
        ExprV::Assignment(x, v) => {
            lemma_expr(st, *v);
            match expr(st, *v) {
                Ok(st1) => {
                    lemma_grows_same(st1, crate::semantics::assign(st1, x));
                    lemma_grows_trans(st, st1, crate::semantics::assign(st1, x));
                },
                Err(_) => {},
            }
        },
        _ => {
            match expr(st, e) {
                Ok(st1) => lemma_grows_same(st, st1),
                Err(_) => {},
            }
        },
    }
}

proof fn lemma_block(st: CState, es: Seq<ExprV>, k: int)
    ensures
        block(st, es, k) matches Ok(st1) ==> grows(st, st1),
    decreases es, 0int, es.len() - k,
{
    if 0 <= k < es.len() {
        if es[k] is Comment {
            lemma_block(st, es, k + 1);
        } else {
            lemma_expr(st, es[k]);
            match expr(st, es[k]) {
                Ok(st1) => {
                    let st2 = if crate::semantics::value_after(es, k + 1) {
                        emit(st1, seq![op(Opcode::Drop)])
                    } else {
                        st1
                    };
                    lemma_grows_same(st1, st2);
                    lemma_grows_trans(st, st1, st2);
                    lemma_block(st2, es, k + 1);
                    match block(st2, es, k + 1) {
                        Ok(st3) => lemma_grows_trans(st, st2, st3),
                        Err(_) => {},
                    }
                },
                Err(_) => {},
            }
        }
    } else {
        lemma_grows_same(st, st);
    }
}

proof fn lemma_range(st: CState, es: Seq<ExprV>, k: int, to: int)
    ensures
        range(st, es, k, to) matches Ok(st1) ==> grows(st, st1),
    decreases es, 0int, to - k,
{
    if 0 <= k < to && to <= es.len() {
        lemma_expr(st, es[k]);
        match expr(st, es[k]) {
            Ok(st1) => {
                lemma_range(st1, es, k + 1, to);
                match range(st1, es, k + 1, to) {
                    Ok(st2) => lemma_grows_trans(st, st1, st2),
                    Err(_) => {},
                }
            },
            Err(_) => {},
        }
    } else {
        lemma_grows_same(st, st);
    }
}

proof fn lemma_truncated(st: CState, es: Seq<ExprV>, k: int)
    ensures
        truncated(st, es, k) matches Ok(st1) ==> grows(st, st1),
    decreases es, 0int, es.len() - k,
{
    if 0 <= k < es.len() {
        lemma_expr(st, es[k]);
        match expr(st, es[k]) {
            Ok(st1) => {
                let st2 = emit(st1, seq![op(Opcode::I32TruncSF64)]);
                lemma_emit_after(st, st1, seq![op(Opcode::I32TruncSF64)]);
                lemma_truncated(st2, es, k + 1);
                match truncated(st2, es, k + 1) {
                    Ok(st3) => lemma_grows_trans(st, st2, st3),
                    Err(_) => {},
                }
            },
            Err(_) => {},
        }
    } else {
        lemma_grows_same(st, st);
    }
}

proof fn lemma_bindings(st: CState, bs: Seq<(Seq<char>, ExprV)>, k: int)
    ensures
        bindings(st, bs, k) matches Ok(st1) ==> grows(st, st1),
    decreases bs, 0int, bs.len() - k,
{
    if 0 <= k < bs.len() {
        assert(decreases_to!(bs => bs[k].1));
        lemma_expr(st, bs[k].1);
        match expr(st, bs[k].1) {
            Ok(st1) => {
                let st2 = emit(
                    CState { local_types: st1.local_types.push(crate::ast::DataType::F64), ..st1 },
                    seq![op(Opcode::LocalSet), TokenV::UInt(st1.locals.len() as u32)],
                );
                let st3 = CState { locals: st2.locals.push(bs[k].0), ..st2 };
                lemma_grows_same(st1, st3);
                lemma_grows_trans(st, st1, st3);
                lemma_bindings(st3, bs, k + 1);
                match bindings(st3, bs, k + 1) {
                    Ok(st4) => lemma_grows_trans(st, st3, st4),
                    Err(_) => {},
                }
            },
            Err(_) => {},
        }
    } else {
        lemma_grows_same(st, st);
    }
}

proof fn lemma_arithmetic(st: CState, name: Seq<char>, ps: Seq<ExprV>, k: int)
    ensures
        arithmetic(st, name, ps, k) matches Ok(st1) ==> grows(st, st1),
    decreases ps, 0int, ps.len() - k,
{
    if 0 <= k < ps.len() {
        lemma_expr(st, ps[k]);
        match expr(st, ps[k]) {
            Ok(st1) => {
                let st2 = if name == "%"@ {
                    emit(st1, seq![op(Opcode::I64TruncSF64)])
                } else {
                    st1
                };
                let st3 = if k != 0 {
                    emit(st2, crate::semantics::arithmetic_ops(name))
                } else {
                    st2
                };
                lemma_grows_same(st1, st3);
                lemma_grows_trans(st, st1, st3);
                lemma_arithmetic(st3, name, ps, k + 1);
                match arithmetic(st3, name, ps, k + 1) {
                    Ok(st4) => lemma_grows_trans(st, st3, st4),
                    Err(_) => {},
                }
            },
            Err(_) => {},
        }
    } else {
        lemma_grows_same(st, st);
    }
}

proof fn lemma_populate_chunks(
    st: CState,
    es: Seq<ExprV>,
    size: int,
    count: int,
    j: int,
    target: TokenV,
    slot: i32,
)
    ensures
        populate_chunks(st, es, size, count, j, target, slot) matches Ok(st1) ==> grows(st, st1),
    decreases es, 1int, count - j,
{
    if 0 <= j < count && size > 0 {
        let c = count - 1 - j;
        let from = c * size;
        let to = if (c + 1) * size < es.len() {
            (c + 1) * size
        } else {
            es.len() as int
        };
        lemma_range(st, es, from, to);
        match range(st, es, from, to) {
            Ok(st1) => {
                if j == 0 && j != count - 1 {
                    let t = f64_const(0) + seq![
                        op(Opcode::Call),
                        target,
                        op(Opcode::LocalSet),
                        TokenV::Int(slot),
                    ];
                    lemma_emit_after(st, st1, t);
                    lemma_populate_chunks(emit(st1, t), es, size, count, j + 1, target, slot);
                    match populate_chunks(emit(st1, t), es, size, count, j + 1, target, slot) {
                        Ok(st2) => lemma_grows_trans(st, emit(st1, t), st2),
                        Err(_) => {},
                    }
                } else if j == count - 1 {
                    lemma_emit_after(
                        st,
                        st1,
                        seq![op(Opcode::LocalGet), TokenV::Int(slot), op(Opcode::Call), target],
                    );
                } else {
                    let t = seq![
                        op(Opcode::LocalGet),
                        TokenV::Int(slot),
                        op(Opcode::Call),
                        target,
                        op(Opcode::LocalSet),
                        TokenV::Int(slot),
                    ];
                    lemma_emit_after(st, st1, t);
                    lemma_populate_chunks(emit(st1, t), es, size, count, j + 1, target, slot);
                    match populate_chunks(emit(st1, t), es, size, count, j + 1, target, slot) {
                        Ok(st2) => lemma_grows_trans(st, emit(st1, t), st2),
                        Err(_) => {},
                    }
                }
            },
            Err(_) => {},
        }
    } else {
        lemma_grows_same(st, st);
    }
}

proof fn lemma_populate(st: CState, name: Seq<char>, es: Seq<ExprV>)
    ensures
        populate(st, name, es) matches Ok(st1) ==> grows(st, st1),
    decreases es, 2int, 0int,
{
    let st1 = CState {
        local_types: st.local_types.push(crate::ast::DataType::F64),
        locals: st.locals.push(seq![]),
        ..st
    };
    lemma_grows_same(st, st1);
    match populate(st, name, es) {
        Ok(st2) => {
            let (v, kind) = crate::semantics::resolve(st, name)->Ok_0;
            let i = crate::semantics::first_index(
                st.defs.map_values(|d: (Seq<char>, nat)| d.0),
                name,
            )->Some_0;
            let size = st.defs[i].1 - 1;
            let count = crate::semantics::chunk_count(es.len() as int, size);
            let slot = (st1.locals.len() - 1) as i32;
            lemma_populate_chunks(st1, es, size, count, 0, crate::semantics::int_token(v), slot);
            lemma_grows_trans(st, st1, st2);
        },
        Err(_) => {},
    }
}

proof fn lemma_call(st: CState, name: Seq<char>, ps: Seq<ExprV>)
    ensures
        call(st, name, ps) matches Ok(st1) ==> grows(st, st1),
    decreases ps, 3int, 0int,
{
    if name == "do"@ {
        lemma_block(st, ps, 0);
    } else if name == "call"@ {
        lemma_call_indirect(st, ps);
    } else if name == "if"@ {
        lemma_if(st, ps);
    } else if name == "mem"@ {
        lemma_mem_num(st, ps);
    } else if name == "mem_byte"@ {
        if ps.len() == 1 {
            lemma_expr(st, ps[0]);
            match expr(st, ps[0]) {
                Ok(st1) => lemma_emit_after(
                    st,
                    st1,
                    seq![
                        op(Opcode::I32TruncSF64),
                        op(Opcode::I32Load8U),
                        TokenV::Int(0),
                        TokenV::Int(0),
                        op(Opcode::F64ConvertSI32),
                    ],
                ),
                Err(_) => {},
            }
        } else if ps.len() == 2 {
            lemma_truncated(st, ps, 0);
            match truncated(st, ps, 0) {
                Ok(st1) => lemma_emit_after(
                    st,
                    st1,
                    seq![op(Opcode::I32Store8), TokenV::Int(0), TokenV::Int(0)] + f64_const(0),
                ),
                Err(_) => {},
            }
        }
    } else if name == "mem_heap_start"@ {
        match call(st, name, ps) {
            Ok(st1) => lemma_grows_same(st, st1),
            Err(_) => {},
        }
    } else if name == "mem_heap_end"@ {
        if ps.len() == 1 {
            lemma_expr(st, ps[0]);
            match expr(st, ps[0]) {
                Ok(st1) => lemma_emit_after(
                    st,
                    st1,
                    seq![op(Opcode::I32TruncSF64), op(Opcode::GlobalSet), TokenV::Int(1)]
                        + f64_const(0),
                ),
                Err(_) => {},
            }
        } else {
            match call(st, name, ps) {
                Ok(st1) => lemma_grows_same(st, st1),
                Err(_) => {},
            }
        }
    } else if name == "mem_num"@ {
        lemma_mem_num(st, ps);
    } else if crate::semantics::is_comparison(name) {
        if ps.len() == 2 {
            lemma_range(st, ps, 0, 2);
            match range(st, ps, 0, 2) {
                Ok(st1) => lemma_emit_after(
                    st,
                    st1,
                    seq![op(crate::semantics::comparison_op(name)), op(Opcode::F64ConvertSI32)],
                ),
                Err(_) => {},
            }
        }
    } else if crate::semantics::is_bitwise(name) {
        if ps.len() == 2 {
            lemma_expr(st, ps[0]);
            match expr(st, ps[0]) {
                Ok(st1) => {
                    let st2 = emit(st1, seq![op(Opcode::I64TruncSF64)]);
                    lemma_emit_after(st, st1, seq![op(Opcode::I64TruncSF64)]);
                    lemma_expr(st2, ps[1]);
                    match expr(st2, ps[1]) {
                        Ok(st3) => {
                            lemma_grows_trans(st, st2, st3);
                            lemma_emit_after(
                                st,
                                st3,
                                seq![
                                    op(Opcode::I64TruncSF64),
                                    op(crate::semantics::bitwise_op(name)),
                                    op(Opcode::F64ConvertSI64),
                                ],
                            );
                        },
                        Err(_) => {},
                    }
                },
                Err(_) => {},
            }
        }
    } else if crate::semantics::is_arithmetic(name) {
        lemma_arithmetic(st, name, ps, 0);
    } else {
        lemma_logic_or_user_call(st, name, ps);
    }
}

proof fn lemma_call_indirect(st: CState, ps: Seq<ExprV>)
    ensures
        call_indirect(st, ps) matches Ok(st1) ==> grows(st, st1),
    decreases ps, 2int, 0int,
{
    if ps.len() >= 2 {
        match ps[0] {
            ExprV::FnSig(ins, out) => {
                lemma_range(st, ps, 2, ps.len() as int);
                match range(st, ps, 2, ps.len() as int) {
                    Ok(st1) => {
                        lemma_expr(st1, ps[1]);
                        match expr(st1, ps[1]) {
                            Ok(st2) => {
                                lemma_grows_trans(st, st1, st2);
                                let st3 = emit(st2, seq![op(Opcode::I32TruncSF64)]);
                                lemma_emit_after(st, st2, seq![op(Opcode::I32TruncSF64)]);
                                let (st4, t) = crate::semantics::add_type(st3, ins, out);
                                lemma_type(st3, ins, out);
                                lemma_grows_trans(st, st3, st4);
                                let tail = seq![
                                    op(Opcode::CallIndirect),
                                    TokenV::UInt(t as u32),
                                    TokenV::Int(0),
                                ];
                                let st5 = emit(st4, tail);
                                lemma_emit_after(st, st4, tail);
                                lemma_emit_after(st, st5, f64_const(0));
                            },
                            Err(_) => {},
                        }
                    },
                    Err(_) => {},
                }
            },
            _ => {},
        }
    }
}

proof fn lemma_if(st: CState, ps: Seq<ExprV>)
    ensures
        if_call(st, ps) matches Ok(st1) ==> grows(st, st1),
    decreases ps, 2int, 0int,
{
    if st.recur_depth < 0xffff_ffff && (ps.len() == 2 || ps.len() == 3) {
        lemma_expr(st, ps[0]);
        match expr(st, ps[0]) {
            Ok(st1) => {
                let st2 = crate::semantics::enter_if(st, st1);
                lemma_emit_after(st, st1, crate::semantics::condition_test());
                lemma_depth_restored(
                    st,
                    emit(st1, crate::semantics::condition_test()),
                    st.recur_depth + 1,
                );
                lemma_expr(st2, ps[1]);
                match expr(st2, ps[1]) {
                    Ok(st3) => {
                        lemma_grows_trans(st, st2, st3);
                        if ps.len() == 2 {
                            let t = seq![op(Opcode::Else)] + f64_const(0) + seq![op(Opcode::End)];
                            lemma_emit_after(st, st3, t);
                            lemma_depth_restored(st, emit(st3, t), st.recur_depth);
                        } else {
                            let st4 = emit(st3, seq![op(Opcode::Else)]);
                            lemma_emit_after(st, st3, seq![op(Opcode::Else)]);
                            lemma_expr(st4, ps[2]);
                            match expr(st4, ps[2]) {
                                Ok(st5) => {
                                    lemma_grows_trans(st, st4, st5);
                                    lemma_emit_after(st, st5, seq![op(Opcode::End)]);
                                    lemma_depth_restored(
                                        st,
                                        emit(st5, seq![op(Opcode::End)]),
                                        st.recur_depth,
                                    );
                                },
                                Err(_) => {},
                            }
                        }
                    },
                    Err(_) => {},
                }
            },
            Err(_) => {},
        }
    }
}

proof fn lemma_mem_num(st: CState, ps: Seq<ExprV>)
    ensures
        mem_num(st, ps) matches Ok(st1) ==> grows(st, st1),
    decreases ps, 2int, 0int,
{
    if ps.len() == 1 {
        lemma_expr(st, ps[0]);
        match expr(st, ps[0]) {
            Ok(st1) => lemma_emit_after(
                st,
                st1,
                seq![
                    op(Opcode::I32TruncSF64),
                    op(Opcode::F64Load),
                    TokenV::Int(0),
                    TokenV::Int(0),
                ],
            ),
            Err(_) => {},
        }
    } else if ps.len() == 2 {
        lemma_expr(st, ps[0]);
        match expr(st, ps[0]) {
            Ok(st1) => {
                let st2 = emit(st1, seq![op(Opcode::I32TruncSF64)]);
                lemma_emit_after(st, st1, seq![op(Opcode::I32TruncSF64)]);
                lemma_expr(st2, ps[1]);
                match expr(st2, ps[1]) {
                    Ok(st3) => {
                        lemma_grows_trans(st, st2, st3);
                        lemma_emit_after(
                            st,
                            st3,
                            seq![op(Opcode::F64Store), TokenV::Int(0), TokenV::Int(0)] + f64_const(
                                0,
                            ),
                        );
                    },
                    Err(_) => {},
                }
            },
            Err(_) => {},
        }
    }
}

proof fn lemma_logic_or_user_call(st: CState, name: Seq<char>, ps: Seq<ExprV>)
    ensures
        logic_or_user_call(st, name, ps) matches Ok(st1) ==> grows(st, st1),
    decreases ps, 2int, 0int,
{
    if name == "!"@ || name == "~"@ {
        if ps.len() == 1 {
            lemma_expr(st, ps[0]);
            match expr(st, ps[0]) {
                Ok(st1) => {
                    match logic_or_user_call(st, name, ps) {
                        Ok(st2) => {
                            assert(st2.data == st1.data && st2.heap == st1.heap);
                            lemma_grows_same(st1, st2);
                            lemma_grows_trans(st, st1, st2);
                        },
                        Err(_) => {},
                    }
                },
                Err(_) => {},
            }
        }
    } else if name == "and"@ || name == "or"@ {
        if ps.len() == 2 {
            lemma_expr(st, ps[0]);
            match expr(st, ps[0]) {
                Ok(st1) => {
                    let t = if name == "and"@ {
                        seq![
                            op(Opcode::I64TruncSF64),
                            op(Opcode::I64Const),
                            TokenV::Int(0),
                            op(Opcode::I64Ne),
                        ]
                    } else {
                        seq![op(Opcode::I64TruncSF64)]
                    };
                    let st2 = emit(st1, t);
                    lemma_emit_after(st, st1, t);
                    lemma_expr(st2, ps[1]);
                    match expr(st2, ps[1]) {
                        Ok(st3) => {
                            lemma_grows_trans(st, st2, st3);
                            match logic_or_user_call(st, name, ps) {
                                Ok(st4) => {
                                    assert(st4.data == st3.data && st4.heap == st3.heap);
                                    lemma_grows_same(st3, st4);
                                    lemma_grows_trans(st, st3, st4);
                                },
                                Err(_) => {},
                            }
                        },
                        Err(_) => {},
                    }
                },
                Err(_) => {},
            }
        }
    } else {
        lemma_range(st, ps, 0, ps.len() as int);
        match logic_or_user_call(st, name, ps) {
            Ok(st2) => {
                let st1 = range(st, ps, 0, ps.len() as int)->Ok_0;
                lemma_grows_same(st1, st2);
                lemma_grows_trans(st, st1, st2);
            },
            Err(_) => {},
        }
    }
}

proof fn lemma_functions(st: CState, fs: Seq<FunctionV>, k: int, acc: Seq<crate::module::FunctionV2>)
    ensures
        functions_from(st, fs, k, acc) matches Ok((st1, r)) ==> grows(st, st1),
    decreases fs.len() - k,
{
    if 0 <= k < fs.len() {
        let f = fs[k];
        let st0 = CState { locals: f.params, code: seq![], local_types: seq![], ..st };
        lemma_grows_same(st, st0);
        lemma_block(st0, f.children, 0);
        match function_code(st, f) {
            Ok(st1) => {
                let st_b = block(st0, f.children, 0)->Ok_0;
                lemma_grows_trans(st, st0, st_b);
                lemma_emit_after(st, st_b, seq![op(Opcode::End)]);
                lemma_functions(st1, fs, k + 1, acc.push(crate::semantics::function_of(st1, f)));
                match functions_from(
                    st1,
                    fs,
                    k + 1,
                    acc.push(crate::semantics::function_of(st1, f)),
                ) {
                    Ok((st2, r)) => lemma_grows_trans(st, st1, st2),
                    Err(_) => {},
                }
            },
            Err(_) => {},
        }
    } else {
        lemma_grows_same(st, st);
    }
}

/// Data starts at address 4, each segment is placed after the previous
/// one ends, and the heap (the module's two globals, the first fixed and
/// the second mutable, both holding where it starts) begins past all of
/// it; this holds while the heap start is an `i32` below its maximum,
/// past which addresses saturate.
pub proof fn law_data_layout(tops: Seq<TopV>)
    ensures
        compile_program(tops) matches Ok(m) ==> {
            &&& m.globals.len() == 2
            &&& m.globals[0].0 == m.globals[1].0
            &&& !m.globals[0].1 && m.globals[1].1
            &&& (m.globals[0].0 < i32_max() ==> {
                &&& forall|i: int|
                    0 <= i < m.data.len() ==> 4 <= (#[trigger] m.data[i]).offset && seg_end(
                        m.data[i],
                    ) <= m.globals[0].0
                &&& forall|i: int, j: int|
                    0 <= i < j < m.data.len() ==> seg_end(#[trigger] m.data[i]) <= (
                    #[trigger] m.data[j]).offset
            })
        },
{
    let st0 = initial_state(tops);
    lemma_globals(st0, tops, 0);
    match globals_from(st0, tops, 0) {
        Ok(st1) => {
            lemma_functions(st1, functions_of(tops), 0, seq![]);
            match functions_from(st1, functions_of(tops), 0, seq![]) {
                Ok((st2, fs)) => {
                    lemma_grows_trans(st0, st1, st2);
                    let h = next_heap(st2.heap);
                    assert(h >= st2.heap);
                    if clamp_i32(h) < i32_max() {
                        assert(st2.heap <= i32_max());
                        assert(st2.data.take(0) =~= st0.data);
                    }
                },
                Err(_) => {},
            }
        },
        Err(_) => {},
    }
}

proof fn lemma_functions_count(st: CState, fs: Seq<FunctionV>, k: int, acc: Seq<crate::module::FunctionV2>)
    requires
        0 <= k <= fs.len(),
    ensures
        functions_from(st, fs, k, acc) matches Ok((st1, r)) ==> r.len() == acc.len() + fs.len() - k,
    decreases fs.len() - k,
{
    if k < fs.len() {
        match function_code(st, fs[k]) {
            Ok(st1) => lemma_functions_count(
                st1,
                fs,
                k + 1,
                acc.push(crate::semantics::function_of(st1, fs[k])),
            ),
            Err(_) => {},
        }
    }
}

/// The module has one function for each function the program defines,
/// one import for each `extern`, and a table listing all of them, imports
/// first: entry `i` is function `i` (while their number fits in `u32`).
pub proof fn law_function_table(tops: Seq<TopV>)
    ensures
        compile_program(tops) matches Ok(m) ==> {
            &&& m.imports == crate::semantics::imports_of(tops)
            &&& m.functions.len() == functions_of(tops).len()
            &&& m.elements.len() == m.imports.len() + m.functions.len()
            &&& forall|i: int| 0 <= i < m.elements.len() ==> #[trigger] m.elements[i] == i as u32
            &&& (m.elements.len() <= u32::MAX ==> m.table_size == m.elements.len())
        },
{
    let st0 = initial_state(tops);
    match globals_from(st0, tops, 0) {
        Ok(st1) => {
            lemma_functions_count(st1, functions_of(tops), 0, seq![]);
        },
        Err(_) => {},
    }
}

proof fn lemma_first_index_prefix<T>(s: Seq<T>, s2: Seq<T>, x: T)
    requires
        s.is_prefix_of(s2),
        first_index(s, x) is Some,
    ensures
        first_index(s2, x) == first_index(s, x),
{
    lemma_first_index_bound(s, x);
    let i = first_index(s, x)->Some_0;
    assert forall|j: int| 0 <= j <= i implies s2[j] == s[j] by {
        assert(s2.subrange(0, s.len() as int)[j] == s2[j]);
    }
    assert(is_first(s2, x, i));
    lemma_first_index_is(s2, x, i);
}

/// Compiling more code never renumbers: a symbol keeps the value, and a
/// function signature the type index, that it already had.
pub proof fn law_numbering_stable(
    st: CState,
    e: ExprV,
    t: Seq<char>,
    ins: Seq<DataType>,
    out: Option<DataType>,
)
    ensures
        expr(st, e) matches Ok(st1) ==> {
            &&& (first_index(st.symbols, t) is Some ==> symbol_value(st1, t).1 == symbol_value(
                st,
                t,
            ).1)
            &&& (first_index(st.types, (ins, out)) is Some ==> add_type(st1, ins, out).1
                == add_type(st, ins, out).1)
        },
{
    lemma_expr(st, e);
    match expr(st, e) {
        Ok(st1) => {
            if first_index(st.symbols, t) is Some {
                lemma_first_index_prefix(st.symbols, st1.symbols, t);
            }
            if first_index(st.types, (ins, out)) is Some {
                lemma_first_index_prefix(st.types, st1.types, (ins, out));
            }
        },
        Err(_) => {},
    }
}

/// Every compilation step only moves forward, in the sense of `grows`:
/// compiling an expression, the globals from the `k`-th top-level item on,
/// and the functions from the `j`-th on.
pub proof fn law_steps_grow(
    st: CState,
    e: ExprV,
    tops: Seq<TopV>,
    k: int,
    fs: Seq<FunctionV>,
    j: int,
    acc: Seq<crate::module::FunctionV2>,
)
    ensures
        expr(st, e) matches Ok(st1) ==> grows(st, st1),
        globals_from(st, tops, k) matches Ok(st1) ==> grows(st, st1),
        functions_from(st, fs, j, acc) matches Ok((st1, r)) ==> grows(st, st1),
{
    lemma_expr(st, e);
    lemma_globals(st, tops, k);
    lemma_functions(st, fs, j, acc);
}

/// Every state that compilation reaches from a program's start holds each
/// symbol once in its table, and has its heap at or past address 4, so
/// that address 0 stays free to mean `nil`.
pub proof fn law_reachable_states(tops: Seq<TopV>, st: CState)
    requires
        grows(initial_state(tops), st),
    ensures
        st.symbols.no_duplicates(),
        4 <= st.heap,
{
}

/// The address that `create_data` returns is the heap position, at or
/// past 4 in any state that compilation reaches; and whatever compilation
/// happens between two placements, the second starts at or after the end
/// of the first, so placed data never overlaps.
pub proof fn law_data_addresses(
    tops: Seq<TopV>,
    st: CState,
    items1: Seq<DataItemV>,
    st2: CState,
    items2: Seq<DataItemV>,
)
    ensures
        create_data(st, items1) matches Ok((st1, r1)) ==> {
            &&& r1 == st.heap
            &&& (grows(initial_state(tops), st) ==> 4 <= r1)
            &&& (grows(st1, st2) ==> (create_data(st2, items2) matches Ok((st3, r2)) ==> r1
                + items_size(items1) <= r2))
        },
{
    lemma_items_size_nonneg(items1);
    lemma_create_data(st, items1);
}

} // verus!
