//! What the operators compile to: each comparison to its own f64
//! instruction, `!` to a test for zero, and an indirect call to a
//! `call_indirect` through the type of the signature it names.
use vstd::prelude::*;
use crate::ast::{ExprV, DataType};
use crate::module::{Opcode, NumV, TokenV};
use crate::semantics::{CState, expr, range, add_type, is_comparison};

verus! {

/// The names of the built-in forms, character by character.
proof fn reveal_builtin_names()
    ensures
        "do"@ == seq!['d', 'o'],
        "do"@.len() == 2,
        "do"@[0] == 'd',
        "call"@ == seq!['c', 'a', 'l', 'l'],
        "call"@.len() == 4,
        "call"@[0] == 'c',
        "if"@ == seq!['i', 'f'],
        "if"@.len() == 2,
        "if"@[0] == 'i',
        "mem"@ == seq!['m', 'e', 'm'],
        "mem"@.len() == 3,
        "mem"@[0] == 'm',
        "mem_byte"@ == seq!['m', 'e', 'm', '_', 'b', 'y', 't', 'e'],
        "mem_byte"@.len() == 8,
        "mem_byte"@[0] == 'm',
        "mem_heap_start"@ == seq!['m', 'e', 'm', '_', 'h', 'e', 'a', 'p', '_', 's', 't', 'a', 'r', 't'],
        "mem_heap_start"@.len() == 14,
        "mem_heap_start"@[0] == 'm',
        "mem_heap_end"@ == seq!['m', 'e', 'm', '_', 'h', 'e', 'a', 'p', '_', 'e', 'n', 'd'],
        "mem_heap_end"@.len() == 12,
        "mem_heap_end"@[0] == 'm',
        "mem_num"@ == seq!['m', 'e', 'm', '_', 'n', 'u', 'm'],
        "mem_num"@.len() == 7,
        "mem_num"@[0] == 'm',
        "=="@ == seq!['=', '='],
        "=="@.len() == 2,
        "=="@[0] == '=',
        "!="@ == seq!['!', '='],
        "!="@.len() == 2,
        "!="@[0] == '!',
        "<="@ == seq!['<', '='],
        "<="@.len() == 2,
        "<="@[0] == '<',
        ">="@ == seq!['>', '='],
        ">="@.len() == 2,
        ">="@[0] == '>',
        "<"@ == seq!['<'],
        "<"@.len() == 1,
        "<"@[0] == '<',
        ">"@ == seq!['>'],
        ">"@.len() == 1,
        ">"@[0] == '>',
        "&"@ == seq!['&'],
        "&"@.len() == 1,
        "&"@[0] == '&',
        "|"@ == seq!['|'],
        "|"@.len() == 1,
        "|"@[0] == '|',
        "^"@ == seq!['^'],
        "^"@.len() == 1,
        "^"@[0] == '^',
        "<<"@ == seq!['<', '<'],
        "<<"@.len() == 2,
        "<<"@[0] == '<',
        ">>"@ == seq!['>', '>'],
        ">>"@.len() == 2,
        ">>"@[0] == '>',
        "+"@ == seq!['+'],
        "+"@.len() == 1,
        "+"@[0] == '+',
        "-"@ == seq!['-'],
        "-"@.len() == 1,
        "-"@[0] == '-',
        "*"@ == seq!['*'],
        "*"@.len() == 1,
        "*"@[0] == '*',
        "/"@ == seq!['/'],
        "/"@.len() == 1,
        "/"@[0] == '/',
        "%"@ == seq!['%'],
        "%"@.len() == 1,
        "%"@[0] == '%',
        "!"@ == seq!['!'],
        "!"@.len() == 1,
        "!"@[0] == '!',
{
    reveal_strlit("do");
    reveal_strlit("call");
    reveal_strlit("if");
    reveal_strlit("mem");
    reveal_strlit("mem_byte");
    reveal_strlit("mem_heap_start");
    reveal_strlit("mem_heap_end");
    reveal_strlit("mem_num");
    reveal_strlit("==");
    reveal_strlit("!=");
    reveal_strlit("<=");
    reveal_strlit(">=");
    reveal_strlit("<");
    reveal_strlit(">");
    reveal_strlit("&");
    reveal_strlit("|");
    reveal_strlit("^");
    reveal_strlit("<<");
    reveal_strlit(">>");
    reveal_strlit("+");
    reveal_strlit("-");
    reveal_strlit("*");
    reveal_strlit("/");
    reveal_strlit("%");
    reveal_strlit("!");
    assert("do"@ =~= seq!['d', 'o']);
    assert("call"@ =~= seq!['c', 'a', 'l', 'l']);
    assert("if"@ =~= seq!['i', 'f']);
    assert("mem"@ =~= seq!['m', 'e', 'm']);
    assert("mem_byte"@ =~= seq!['m', 'e', 'm', '_', 'b', 'y', 't', 'e']);
    assert("mem_heap_start"@ =~= seq!['m', 'e', 'm', '_', 'h', 'e', 'a', 'p', '_', 's', 't', 'a', 'r', 't']);
    assert("mem_heap_end"@ =~= seq!['m', 'e', 'm', '_', 'h', 'e', 'a', 'p', '_', 'e', 'n', 'd']);
    assert("mem_num"@ =~= seq!['m', 'e', 'm', '_', 'n', 'u', 'm']);
    assert("=="@ =~= seq!['=', '=']);
    assert("!="@ =~= seq!['!', '=']);
    assert("<="@ =~= seq!['<', '=']);
    assert(">="@ =~= seq!['>', '=']);
    assert("<"@ =~= seq!['<']);
    assert(">"@ =~= seq!['>']);
    assert("&"@ =~= seq!['&']);
    assert("|"@ =~= seq!['|']);
    assert("^"@ =~= seq!['^']);
    assert("<<"@ =~= seq!['<', '<']);
    assert(">>"@ =~= seq!['>', '>']);
    assert("+"@ =~= seq!['+']);
    assert("-"@ =~= seq!['-']);
    assert("*"@ =~= seq!['*']);
    assert("/"@ =~= seq!['/']);
    assert("%"@ =~= seq!['%']);
    assert("!"@ =~= seq!['!']);
}

/// The code of a comparison `(a n b)`: the code of `a`, then of `b`, then
/// the instruction `o`, then the conversion of its `i32` result to f64.
pub open spec fn compares_with(st: CState, n: Seq<char>, a: ExprV, b: ExprV, o: Opcode) -> bool {
    expr(st, ExprV::FunctionCall(n, seq![a, b])) matches Ok(r) ==> {
        &&& expr(st, a) matches Ok(s1)
        &&& expr(s1, b) matches Ok(s2)
        &&& r.code == s2.code + seq![TokenV::Op(o), TokenV::Op(Opcode::F64ConvertSI32)]
    }
}

proof fn lemma_comparison(st: CState, n: Seq<char>, a: ExprV, b: ExprV)
    requires
        is_comparison(n),
    ensures
        compares_with(st, n, a, b, crate::semantics::comparison_op(n)),
{
    reveal_builtin_names();
    assert(n[0] != 'd' && n[0] != 'i' && n[0] != 'c' && n[0] != 'm');
    assert(n != "do"@ && n != "if"@ && n != "call"@ && n != "mem"@ && n != "mem_byte"@);
    assert(n != "mem_heap_start"@ && n != "mem_heap_end"@ && n != "mem_num"@);
    let ps = seq![a, b];
    assert(ps[0] == a && ps[1] == b);
    assert(expr(st, ExprV::FunctionCall(n, ps)) == crate::semantics::call(st, n, ps));
    match expr(st, a) {
        Ok(s1) => {
            match expr(s1, b) {
                Ok(s2) => {
                    assert(range(s2, ps, 2, 2) == Ok::<CState, crate::semantics::CompileErrorV>(s2));
                    assert(range(s1, ps, 1, 2) == Ok::<CState, crate::semantics::CompileErrorV>(s2));
                    assert(range(st, ps, 0, 2) == Ok::<CState, crate::semantics::CompileErrorV>(s2));
                },
                Err(_) => {},
            }
        },
        Err(_) => {},
    }
}

/// Each comparison compiles to its own f64 instruction, after the code of
/// its two operands: `==` to `f64.eq`, `!=` to `f64.ne`, `<=` to `f64.le`,
/// `>=` to `f64.ge`, `<` to `f64.lt` and `>` to `f64.gt`; the result, an
/// `i32` 0 or 1, is converted to f64.
pub proof fn law_comparison_instructions(st: CState, a: ExprV, b: ExprV)
    ensures
        compares_with(st, "=="@, a, b, Opcode::F64Eq),
        compares_with(st, "!="@, a, b, Opcode::F64Ne),
        compares_with(st, "<="@, a, b, Opcode::F64Le),
        compares_with(st, ">="@, a, b, Opcode::F64Ge),
        compares_with(st, "<"@, a, b, Opcode::F64Lt),
        compares_with(st, ">"@, a, b, Opcode::F64Gt),
{
    reveal_builtin_names();
    assert("<"@[0] != ">"@[0]);
    assert("<"@ != ">"@);
    assert("=="@[0] != "!="@[0] && "=="@[0] != "<="@[0] && "=="@[0] != ">="@[0]);
    assert("!="@[0] != "<="@[0] && "!="@[0] != ">="@[0] && "<="@[0] != ">="@[0]);
    assert("=="@ != "!="@ && "=="@ != "<="@ && "=="@ != ">="@);
    assert("!="@ != "<="@ && "!="@ != ">="@ && "<="@ != ">="@);
    assert(crate::semantics::comparison_op("<"@) == Opcode::F64Lt);
    assert(crate::semantics::comparison_op(">"@) == Opcode::F64Gt);
    lemma_comparison(st, "=="@, a, b);
    lemma_comparison(st, "!="@, a, b);
    lemma_comparison(st, "<="@, a, b);
    lemma_comparison(st, ">="@, a, b);
    lemma_comparison(st, "<"@, a, b);
    lemma_comparison(st, ">"@, a, b);
}

/// `!x` compiles to the code of `x`, then `f64.const 0`, `f64.eq` and the
/// conversion to f64: it is 1 exactly when `x` is 0, and 0 otherwise.
pub proof fn law_not_tests_for_zero(st: CState, x: ExprV)
    ensures
        expr(st, ExprV::FunctionCall("!"@, seq![x])) matches Ok(r) ==> {
            &&& expr(st, x) matches Ok(s1)
            &&& r.code == s1.code + seq![
                TokenV::Op(Opcode::F64Const),
                TokenV::F64(NumV::Int(0)),
                TokenV::Op(Opcode::F64Eq),
                TokenV::Op(Opcode::F64ConvertSI32),
            ]
        },
{
    reveal_builtin_names();
    let n = "!"@;
    assert(n[0] == '!');
    assert(!is_comparison(n)) by {
        assert(n != "<"@ && n != ">"@ && n != "=="@ && n != "!="@ && n != "<="@ && n != ">="@);
    }
    assert(!crate::semantics::is_bitwise(n)) by {
        assert(n != "&"@ && n != "|"@ && n != "^"@ && n != "<<"@ && n != ">>"@);
    }
    assert(!crate::semantics::is_arithmetic(n)) by {
        assert(n != "+"@ && n != "-"@ && n != "*"@ && n != "/"@ && n != "%"@);
    }
    assert(n != "do"@ && n != "if"@ && n != "call"@ && n != "mem"@ && n != "mem_byte"@);
    assert(n != "mem_heap_start"@ && n != "mem_heap_end"@ && n != "mem_num"@);
    let ps = seq![x];
    assert(ps[0] == x);
    assert(expr(st, ExprV::FunctionCall(n, ps)) == crate::semantics::call(st, n, ps));
    assert(crate::semantics::call(st, n, ps) == crate::semantics::logic_or_user_call(st, n, ps));
    match expr(st, x) {
        Ok(s1) => {
            assert(crate::semantics::f64_const(0) + seq![
                TokenV::Op(Opcode::F64Eq),
                TokenV::Op(Opcode::F64ConvertSI32),
            ] =~= seq![
                TokenV::Op(Opcode::F64Const),
                TokenV::F64(NumV::Int(0)),
                TokenV::Op(Opcode::F64Eq),
                TokenV::Op(Opcode::F64ConvertSI32),
            ]);
        },
        Err(_) => {},
    }
}

/// An indirect call `call(fn(ins) -> out, f, args...)` ends in
/// `call_indirect t` (followed by `f64.const 0` when the signature returns
/// nothing), where `t` is the place of `(ins, out)` in the module's type
/// table: the call is made with the type the signature names, its own
/// output included.
pub proof fn law_indirect_call_type(
    st: CState,
    ins: Seq<DataType>,
    out: Option<DataType>,
    ps: Seq<ExprV>,
)
    requires
        ps.len() >= 2,
        ps[0] == ExprV::FnSig(ins, out),
    ensures
        expr(st, ExprV::FunctionCall("call"@, ps)) matches Ok(r) ==> {
            let k = r.code.len() - (if out is None { 5int } else { 3int });
            &&& 0 <= k
            &&& exists|t: int|
                0 <= t < r.types.len() && #[trigger] r.types[t] == (ins, out) && r.code.subrange(
                    k,
                    k + 3,
                ) == seq![
                    TokenV::Op(Opcode::CallIndirect),
                    TokenV::UInt(t as u32),
                    TokenV::Int(0),
                ]
        },
{
    reveal_builtin_names();
    assert("call"@ != "do"@);
    assert(expr(st, ExprV::FunctionCall("call"@, ps)) == crate::semantics::call(st, "call"@, ps));
    assert(crate::semantics::call(st, "call"@, ps) == crate::semantics::call_indirect(st, ps));
    match crate::semantics::call_indirect(st, ps) {
        Ok(r) => {
            let st1 = range(st, ps, 2, ps.len() as int)->Ok_0;
            let st2 = expr(st1, ps[1])->Ok_0;
            let st3 = crate::semantics::emit(st2, seq![crate::semantics::op(Opcode::I32TruncSF64)]);
            let (st4, t) = add_type(st3, ins, out);
            crate::laws::law_type_table(st3, ins, out);
            let call_code = seq![
                TokenV::Op(Opcode::CallIndirect),
                TokenV::UInt(t as u32),
                TokenV::Int(0),
            ];
            let st5 = crate::semantics::emit(st4, call_code);
            assert(st5.code =~= st4.code + call_code);
            if out is None {
                assert(r == crate::semantics::emit(st5, crate::semantics::f64_const(0)));
                assert(r.code.len() == st4.code.len() + 5);
            } else {
                assert(r == st5);
            }
            let k = st4.code.len() as int;
            assert(r.code.subrange(k, k + 3) =~= call_code);
            assert(r.types == st4.types);
            assert(r.types[t] == (ins, out));
        },
        Err(_) => {},
    }
}

} // verus!
