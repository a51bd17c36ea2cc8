//! What compiling a program means, as a specification over the models of
//! `ast.rs` and `module.rs`.
//!
//! Compilation threads a state (`CState`) through the program: the
//! function types and data segments made so far, the symbol table, the
//! globals, the local names in scope, the heap position, and the code of
//! the function being compiled.  The numbers that compilation itself
//! produces (addresses, indices, symbol values) are integers, and the
//! numbers a program writes are kept as its literals; they become binary64
//! values only when the module is encoded.
use vstd::prelude::*;
use crate::ast::{DataType, ExprV, GlobalValueV, FunctionV, TopV};
use crate::module::{Opcode, NumV, TokenV, DataItemV, DataV, FunctionV2, ModuleV};
use vstd::utf8::encode_utf8;

verus! {

/// Why a program does not compile: a malformed form or an unknown name,
/// a form that has no code (`UnsupportedExpression`), or a limit of
/// the machine (`TooMuchData`, `TooManyIfs`).
pub enum CompileErrorV {
    UnknownIdentifier(Seq<char>),
    GlobalUsedInItsOwnDefinition(Seq<char>),
    UselessDo,
    CallWithoutSignature,
    CallArity,
    IfArity,
    MemArity,
    MemByteArity,
    MemHeapStartArity,
    MemHeapEndArity,
    MemNumArity,
    NeedsTwoParameters(Seq<char>),
    NeedsAtLeastTwoParameters(Seq<char>),
    NeedsOneParameter(Seq<char>),
    UselessLoop,
    PopulateNonFunction(Seq<char>),
    PopulateImport(Seq<char>),
    PopulateArity(Seq<char>),
    UnsupportedExpression,
    TooMuchData,
    TooManyIfs,
}

pub enum Kind {
    Global,
    Local,
    Function,
}

#[verifier::ext_equal]
pub struct CState {
    pub types: Seq<(Seq<DataType>, Option<DataType>)>,
    pub data: Seq<DataV>,
    pub symbols: Seq<Seq<char>>,
    pub global_names: Seq<Seq<char>>,
    pub global_values: Seq<NumV>,
    pub locals: Seq<Seq<char>>,
    pub heap: int,
    pub function_names: Seq<Seq<char>>,
    /// The functions the program defines: name and number of parameters.
    pub defs: Seq<(Seq<char>, nat)>,
    /// The code of the function being compiled.
    pub code: Seq<TokenV>,
    /// The locals added to the function being compiled.
    pub local_types: Seq<DataType>,
    pub recur_depth: int,
}

/// Data may reach up to this address (2^53): below it every address is
/// exactly a binary64 value, which is how a program sees addresses.
pub open spec fn heap_limit() -> int {
    0x20000000000000
}

/// The first address of data: nothing has address 0.
pub open spec fn heap_start() -> int {
    4
}

pub open spec fn i32_max() -> int {
    0x7fffffff
}

/// The `i32` nearest to `n` (`n` converted with saturation).
pub open spec fn clamp_i32(n: int) -> i32 {
    if n > i32_max() {
        0x7fffffffi32
    } else if n < -0x80000000 {
        -0x80000000i32
    } else {
        n as i32
    }
}

// ---------------------------------------------------------------------
// Lookups
// ---------------------------------------------------------------------

pub open spec fn is_first<T>(s: Seq<T>, x: T, i: int) -> bool {
    0 <= i < s.len() && s[i] == x && forall|j: int| 0 <= j < i ==> s[j] != x
}

pub open spec fn is_last<T>(s: Seq<T>, x: T, i: int) -> bool {
    0 <= i < s.len() && s[i] == x && forall|j: int| i < j < s.len() ==> s[j] != x
}

/// The position of the first `x` in `s`.
pub open spec fn first_index<T>(s: Seq<T>, x: T) -> Option<int> {
    if exists|i: int| is_first(s, x, i) {
        Some(choose|i: int| is_first(s, x, i))
    } else {
        None
    }
}

/// The position of the last `x` in `s`.
pub open spec fn last_index<T>(s: Seq<T>, x: T) -> Option<int> {
    if exists|i: int| is_last(s, x, i) {
        Some(choose|i: int| is_last(s, x, i))
    } else {
        None
    }
}

/// What an identifier stands for: `nil` is 0 and `size_num` is 8; then the
/// innermost local of that name (its index), the first function of that
/// name (its index in the table), the first global of that name (its
/// value).
pub open spec fn resolve(st: CState, name: Seq<char>) -> Result<(NumV, Kind), CompileErrorV> {
    if name == "nil"@ {
        Ok((NumV::Int(0), Kind::Global))
    } else if name == "size_num"@ {
        Ok((NumV::Int(8), Kind::Global))
    } else {
        match last_index(st.locals, name) {
            Some(i) => Ok((NumV::Int(i), Kind::Local)),
            None => match first_index(st.function_names, name) {
                Some(i) => Ok((NumV::Int(i), Kind::Function)),
                None => match first_index(st.global_names, name) {
                    Some(i) => if i < st.global_values.len() {
                        Ok((st.global_values[i], Kind::Global))
                    } else {
                        Err(CompileErrorV::GlobalUsedInItsOwnDefinition(name))
                    },
                    None => Err(CompileErrorV::UnknownIdentifier(name)),
                },
            },
        }
    }
}

pub proof fn lemma_first_index_is<T>(s: Seq<T>, x: T, i: int)
    requires
        is_first(s, x, i),
    ensures
        first_index(s, x) == Some(i),
{
    let j = choose|j: int| is_first(s, x, j);
    assert(is_first(s, x, j));
    assert(j == i) by {
        if j < i {
            assert(s[j] != x);
        }
        if i < j {
            assert(s[i] != x);
        }
    }
}

pub proof fn lemma_first_index_none<T>(s: Seq<T>, x: T)
    requires
        forall|j: int| 0 <= j < s.len() ==> s[j] != x,
    ensures
        first_index(s, x) is None,
{
}

pub proof fn lemma_first_index_bound<T>(s: Seq<T>, x: T)
    ensures
        first_index(s, x) matches Some(i) ==> is_first(s, x, i),
{
}

pub proof fn lemma_last_index_is<T>(s: Seq<T>, x: T, i: int)
    requires
        is_last(s, x, i),
    ensures
        last_index(s, x) == Some(i),
{
    let j = choose|j: int| is_last(s, x, j);
    assert(is_last(s, x, j));
    assert(j == i) by {
        if j < i {
            assert(s[i] != x);
        }
        if i < j {
            assert(s[j] != x);
        }
    }
}

pub proof fn lemma_last_index_none<T>(s: Seq<T>, x: T)
    requires
        forall|j: int| 0 <= j < s.len() ==> s[j] != x,
    ensures
        last_index(s, x) is None,
{
}

// ---------------------------------------------------------------------
// State updates
// ---------------------------------------------------------------------

pub open spec fn emit(st: CState, t: Seq<TokenV>) -> CState {
    CState { code: st.code + t, ..st }
}

pub open spec fn op(o: Opcode) -> TokenV {
    TokenV::Op(o)
}

/// `f64.const n`.
pub open spec fn f64_const(n: int) -> Seq<TokenV> {
    seq![op(Opcode::F64Const), TokenV::F64(NumV::Int(n))]
}

/// A function index or call target taken from a number, as `as i32`.
pub open spec fn int_token(v: NumV) -> TokenV {
    match v {
        NumV::Int(n) => TokenV::Int(clamp_i32(n)),
        NumV::Lit(l) => TokenV::TruncLit(l),
    }
}

/// The value of a symbol: one more than its place in the symbol table,
/// where it is added on first use.
pub open spec fn symbol_value(st: CState, t: Seq<char>) -> (CState, int) {
    match first_index(st.symbols, t) {
        Some(i) => (st, i + 1),
        None => (CState { symbols: st.symbols.push(t), ..st }, st.symbols.len() + 1 as int),
    }
}

/// The index of a function type, added on first use.
pub open spec fn add_type(st: CState, ins: Seq<DataType>, out: Option<DataType>) -> (CState, int) {
    match first_index(st.types, (ins, out)) {
        Some(i) => (st, i),
        None => (CState { types: st.types.push((ins, out)), ..st }, st.types.len() as int),
    }
}

pub open spec fn item_size(d: DataItemV) -> int {
    match d {
        DataItemV::Bytes(b) => b.len() as int,
        DataItemV::Number(_) => 8,
    }
}

pub open spec fn items_size(s: Seq<DataItemV>) -> int
    decreases s.len(),
{
    if s.len() == 0 {
        0
    } else {
        items_size(s.drop_last()) + item_size(s.last())
    }
}

/// Where the heap goes after data that ends at `h`: the least multiple of
/// four that is not below `h`, so that data stays aligned to four bytes.
pub open spec fn next_heap(h: int) -> int {
    if h % 4 != 0 {
        h + (4 - h % 4)
    } else {
        h
    }
}

/// Places data at the heap position and moves the heap past it.
pub open spec fn create_data(st: CState, items: Seq<DataItemV>) -> Result<(CState, int), CompileErrorV> {
    let pos = st.heap;
    let end = next_heap(pos + items_size(items));
    if end > heap_limit() {
        Err(CompileErrorV::TooMuchData)
    } else {
        Ok(
            (
                CState {
                    data: st.data.push(DataV { offset: clamp_i32(pos), items }),
                    heap: end,
                    ..st
                },
                pos,
            ),
        )
    }
}

/// The bytes of a text in memory: UTF-8 and a terminating 0.
pub open spec fn c_string(t: Seq<char>) -> Seq<u8> {
    encode_utf8(t) + seq![0u8]
}

pub open spec fn text_data(st: CState, t: Seq<char>) -> Result<(CState, int), CompileErrorV> {
    create_data(st, seq![DataItemV::Bytes(c_string(t))])
}

pub open spec fn numbers_data(vs: Seq<NumV>) -> Seq<DataItemV>
    decreases vs.len(),
{
    if vs.len() == 0 {
        Seq::empty()
    } else {
        numbers_data(vs.drop_last()).push(DataItemV::Number(vs.last()))
    }
}

// ---------------------------------------------------------------------
// Globals
// ---------------------------------------------------------------------

/// The value of a global.
pub open spec fn global_value(st: CState, g: GlobalValueV) -> Result<(CState, NumV), CompileErrorV>
    decreases g, 0int,
{
    match g {
        GlobalValueV::Symbol(t) => {
            let (st1, v) = symbol_value(st, t);
            Ok((st1, NumV::Int(v)))
        },
        GlobalValueV::Number(n) => Ok((st, NumV::Lit(n))),
        GlobalValueV::Text(t) => match text_data(st, t) {
            Ok((st1, p)) => Ok((st1, NumV::Int(p))),
            Err(e) => Err(e),
        },
        GlobalValueV::Data(vs) => match global_values_from(st, vs, 0, seq![]) {
            Ok((st1, ns)) => match create_data(st1, numbers_data(ns)) {
                Ok((st2, p)) => Ok((st2, NumV::Int(p))),
                Err(e) => Err(e),
            },
            Err(e) => Err(e),
        },
        GlobalValueV::Identifier(t) => match resolve(st, t) {
            Ok((v, _)) => Ok((st, v)),
            Err(e) => Err(e),
        },
        GlobalValueV::Struct(ms) => match struct_values(st, ms, 0, seq![]) {
            Ok((st1, ns)) => match create_data(st1, numbers_data(ns.push(NumV::Int(0)))) {
                Ok((st2, p)) => Ok((st2, NumV::Int(p))),
                Err(e) => Err(e),
            },
            Err(e) => Err(e),
        },
    }
}

/// The values of `vs[k..]`, after the values `acc`.
pub open spec fn global_values_from(st: CState, vs: Seq<GlobalValueV>, k: int, acc: Seq<NumV>) -> Result<
    (CState, Seq<NumV>),
    CompileErrorV,
>
    decreases vs, vs.len() - k,
{
    if 0 <= k < vs.len() {
        match global_value(st, vs[k]) {
            Ok((st1, v)) => global_values_from(st1, vs, k + 1, acc.push(v)),
            Err(e) => Err(e),
        }
    } else {
        Ok((st, acc))
    }
}

/// A struct is laid out as its members' symbols, each followed by the
/// address of an empty text, and a final 0.
pub open spec fn struct_values(st: CState, ms: Seq<Seq<char>>, k: int, acc: Seq<NumV>) -> Result<
    (CState, Seq<NumV>),
    CompileErrorV,
>
    decreases ms.len() - k,
{
    if 0 <= k < ms.len() {
        let (st1, sym) = symbol_value(st, ms[k]);
        match text_data(st1, seq![]) {
            Ok((st2, p)) => struct_values(
                st2,
                ms,
                k + 1,
                acc.push(NumV::Int(sym)).push(NumV::Int(p)),
            ),
            Err(e) => Err(e),
        }
    } else {
        Ok((st, acc))
    }
}

/// The globals of `tops[k..]`, in order: each name is declared, then its
/// value computed.
pub open spec fn globals_from(st: CState, tops: Seq<TopV>, k: int) -> Result<CState, CompileErrorV>
    decreases tops.len() - k,
{
    if 0 <= k < tops.len() {
        match tops[k] {
            TopV::DefineGlobal(name, g) => {
                let st1 = CState { global_names: st.global_names.push(name), ..st };
                match global_value(st1, g) {
                    Ok((st2, v)) => globals_from(
                        CState { global_values: st2.global_values.push(v), ..st2 },
                        tops,
                        k + 1,
                    ),
                    Err(e) => Err(e),
                }
            },
            _ => globals_from(st, tops, k + 1),
        }
    } else {
        Ok(st)
    }
}

// ---------------------------------------------------------------------
// Expressions
// ---------------------------------------------------------------------

pub open spec fn is_comparison(n: Seq<char>) -> bool {
    n == "=="@ || n == "!="@ || n == "<="@ || n == ">="@ || n == "<"@ || n == ">"@
}

pub open spec fn is_bitwise(n: Seq<char>) -> bool {
    n == "&"@ || n == "|"@ || n == "^"@ || n == "<<"@ || n == ">>"@
}

pub open spec fn is_arithmetic(n: Seq<char>) -> bool {
    n == "+"@ || n == "-"@ || n == "*"@ || n == "/"@ || n == "%"@
}

pub open spec fn comparison_op(n: Seq<char>) -> Opcode {
    if n == "=="@ {
        Opcode::F64Eq
    } else if n == "!="@ {
        Opcode::F64Ne
    } else if n == "<="@ {
        Opcode::F64Le
    } else if n == ">="@ {
        Opcode::F64Ge
    } else if n == "<"@ {
        Opcode::F64Lt
    } else {
        Opcode::F64Gt
    }
}

pub open spec fn bitwise_op(n: Seq<char>) -> Opcode {
    if n == "&"@ {
        Opcode::I64And
    } else if n == "|"@ {
        Opcode::I64Or
    } else if n == "^"@ {
        Opcode::I64Xor
    } else if n == "<<"@ {
        Opcode::I64Shl
    } else {
        Opcode::I64ShrS
    }
}

/// What an arithmetic operator emits after each operand but the first.
pub open spec fn arithmetic_ops(n: Seq<char>) -> Seq<TokenV> {
    if n == "+"@ {
        seq![op(Opcode::F64Add)]
    } else if n == "-"@ {
        seq![op(Opcode::F64Sub)]
    } else if n == "*"@ {
        seq![op(Opcode::F64Mul)]
    } else if n == "/"@ {
        seq![op(Opcode::F64Div)]
    } else {
        seq![op(Opcode::I64RemS), op(Opcode::F64ConvertSI64)]
    }
}

/// The code of one expression, appended to the current function.
pub open spec fn expr(st: CState, e: ExprV) -> Result<CState, CompileErrorV>
    decreases e, 0int, 0int,
{
    match e {
        ExprV::SymbolLiteral(x) => {
            let (st1, v) = symbol_value(st, x);
            Ok(emit(st1, f64_const(v)))
        },
        ExprV::Populate(name, es) => populate(st, name, es),
        ExprV::FnSig(ins, out) => {
            let (st1, t) = add_type(st, ins, out);
            Ok(emit(st1, f64_const(t)))
        },
        ExprV::Loop(es) => {
            let st1 = CState { recur_depth: 0, ..st };
            if es.len() == 0 {
                Err(CompileErrorV::UselessLoop)
            } else {
                match block(emit(st1, seq![op(Opcode::Loop), op(Opcode::F64)]), es, 0) {
                    Ok(st2) => Ok(
                        CState { recur_depth: st.recur_depth, ..emit(st2, seq![op(Opcode::End)]) },
                    ),
                    Err(err) => Err(err),
                }
            }
        },
        ExprV::Recur => Ok(
            emit(st, f64_const(0) + seq![op(Opcode::Br), TokenV::UInt(st.recur_depth as u32)]),
        ),
        ExprV::Let(bs, es) => match bindings(st, bs, 0) {
            Ok(st1) => match block(st1, es, 0) {
                Ok(st2) => Ok(CState { locals: st.locals, ..st2 }),
                Err(err) => Err(err),
            },
            Err(err) => Err(err),
        },
        ExprV::FunctionCall(name, ps) => call(st, name, ps),
        ExprV::TextLiteral(x) => match text_data(st, x) {
            Ok((st1, p)) => Ok(emit(st1, f64_const(p))),
            Err(err) => Err(err),
        },
        ExprV::Identifier(x) => match resolve(st, x) {
            Ok((v, Kind::Local)) => Ok(emit(st, seq![op(Opcode::LocalGet), int_token(v)])),
            Ok((v, _)) => Ok(emit(st, seq![op(Opcode::F64Const), TokenV::F64(v)])),
            Err(err) => Err(err),
        },
        ExprV::Comment(_) => Ok(st),
        ExprV::Number(n) => Ok(emit(st, seq![op(Opcode::F64Const), TokenV::F64(NumV::Lit(n))])),
        ExprV::IfStatement(..) => Err(CompileErrorV::UnsupportedExpression),
        ExprV::Assignment(x, v) => match expr(st, *v) {
            Ok(st1) => Ok(assign(st1, x)),
            Err(err) => Err(err),
        },
    }
}

/// `x = v`, after the code of `v`: the value is stored in the innermost
/// local named `x`, or in a new local that takes the name `x` if there is
/// none, and stays as the expression's value.
pub open spec fn assign(st: CState, x: Seq<char>) -> CState {
    match last_index(st.locals, x) {
        Some(i) => emit(st, seq![op(Opcode::LocalTee), TokenV::UInt(i as u32)]),
        None => {
            let st1 = emit(
                CState { local_types: st.local_types.push(DataType::F64), ..st },
                seq![op(Opcode::LocalTee), TokenV::UInt(st.locals.len() as u32)],
            );
            CState { locals: st1.locals.push(x), ..st1 }
        },
    }
}

/// Whether one of `es[j..]` leaves a value (is not a comment).
pub open spec fn value_after(es: Seq<ExprV>, j: int) -> bool
    decreases es.len() - j,
{
    if 0 <= j < es.len() {
        !(es[j] is Comment) || value_after(es, j + 1)
    } else {
        false
    }
}

/// `es[k..]`, each result but the last dropped; comments add nothing.
pub open spec fn block(st: CState, es: Seq<ExprV>, k: int) -> Result<CState, CompileErrorV>
    decreases es, 0int, es.len() - k,
{
    if 0 <= k < es.len() {
        if es[k] is Comment {
            block(st, es, k + 1)
        } else {
            match expr(st, es[k]) {
                Ok(st1) => block(
                    if value_after(es, k + 1) {
                        emit(st1, seq![op(Opcode::Drop)])
                    } else {
                        st1
                    },
                    es,
                    k + 1,
                ),
                Err(err) => Err(err),
            }
        }
    } else {
        Ok(st)
    }
}

/// `es[k..to]`, all results kept.
pub open spec fn range(st: CState, es: Seq<ExprV>, k: int, to: int) -> Result<CState, CompileErrorV>
    decreases es, 0int, to - k,
{
    if 0 <= k < to && to <= es.len() {
        match expr(st, es[k]) {
            Ok(st1) => range(st1, es, k + 1, to),
            Err(err) => Err(err),
        }
    } else {
        Ok(st)
    }
}

/// `es[k..]`, each result converted to `i32` after it.
pub open spec fn truncated(st: CState, es: Seq<ExprV>, k: int) -> Result<CState, CompileErrorV>
    decreases es, 0int, es.len() - k,
{
    if 0 <= k < es.len() {
        match expr(st, es[k]) {
            Ok(st1) => truncated(emit(st1, seq![op(Opcode::I32TruncSF64)]), es, k + 1),
            Err(err) => Err(err),
        }
    } else {
        Ok(st)
    }
}

/// The bindings `bs[k..]` of a `let`: each value is stored in a new local
/// that takes the binding's name.
pub open spec fn bindings(st: CState, bs: Seq<(Seq<char>, ExprV)>, k: int) -> Result<CState, CompileErrorV>
    decreases bs, 0int, bs.len() - k,
{
    if 0 <= k < bs.len() {
        match expr(st, bs[k].1) {
            Ok(st1) => {
                let st2 = emit(
                    CState { local_types: st1.local_types.push(DataType::F64), ..st1 },
                    seq![op(Opcode::LocalSet), TokenV::UInt(st1.locals.len() as u32)],
                );
                bindings(CState { locals: st2.locals.push(bs[k].0), ..st2 }, bs, k + 1)
            },
            Err(err) => Err(err),
        }
    } else {
        Ok(st)
    }
}

/// The operands of an arithmetic operator `ps[k..]`.
pub open spec fn arithmetic(st: CState, name: Seq<char>, ps: Seq<ExprV>, k: int) -> Result<
    CState,
    CompileErrorV,
>
    decreases ps, 0int, ps.len() - k,
{
    if 0 <= k < ps.len() {
        match expr(st, ps[k]) {
            Ok(st1) => {
                let st2 = if name == "%"@ {
                    emit(st1, seq![op(Opcode::I64TruncSF64)])
                } else {
                    st1
                };
                let st3 = if k != 0 {
                    emit(st2, arithmetic_ops(name))
                } else {
                    st2
                };
                arithmetic(st3, name, ps, k + 1)
            },
            Err(err) => Err(err),
        }
    } else {
        Ok(st)
    }
}

/// The chunks of a populate, last chunk first: chunk `c` is
/// `es[c * size .. min((c + 1) * size, es.len())]`, and `j` chunks are done.
pub open spec fn populate_chunks(
    st: CState,
    es: Seq<ExprV>,
    size: int,
    count: int,
    j: int,
    target: TokenV,
    slot: i32,
) -> Result<CState, CompileErrorV>
    decreases es, 1int, count - j,
{
    if 0 <= j < count && size > 0 {
        let c = count - 1 - j;
        let from = c * size;
        let to = if (c + 1) * size < es.len() {
            (c + 1) * size
        } else {
            es.len() as int
        };
        match range(st, es, from, to) {
            Ok(st1) => if j == 0 && j != count - 1 {
                populate_chunks(
                    emit(
                        st1,
                        f64_const(0) + seq![
                            op(Opcode::Call),
                            target,
                            op(Opcode::LocalSet),
                            TokenV::Int(slot),
                        ],
                    ),
                    es,
                    size,
                    count,
                    j + 1,
                    target,
                    slot,
                )
            } else if j == count - 1 {
                Ok(
                    emit(
                        st1,
                        seq![op(Opcode::LocalGet), TokenV::Int(slot), op(Opcode::Call), target],
                    ),
                )
            } else {
                populate_chunks(
                    emit(
                        st1,
                        seq![
                            op(Opcode::LocalGet),
                            TokenV::Int(slot),
                            op(Opcode::Call),
                            target,
                            op(Opcode::LocalSet),
                            TokenV::Int(slot),
                        ],
                    ),
                    es,
                    size,
                    count,
                    j + 1,
                    target,
                    slot,
                )
            },
            Err(err) => Err(err),
        }
    } else {
        Ok(st)
    }
}

/// The number of chunks of `n` elements of `size` each (the last may be
/// shorter).
pub open spec fn chunk_count(n: int, size: int) -> int {
    if n % size == 0 {
        n / size
    } else {
        n / size + 1
    }
}

/// `(# f e1 e2 ...)`: folds the elements, from the last chunk of
/// (parameters - 1) elements to the first, through calls of `f`, each
/// call also taking the result of the previous one (0 at first).
pub open spec fn populate(st: CState, name: Seq<char>, es: Seq<ExprV>) -> Result<CState, CompileErrorV>
    decreases es, 2int, 0int,
{
    match resolve(st, name) {
        Err(err) => Err(err),
        Ok((v, kind)) => {
            let st1 = CState {
                local_types: st.local_types.push(DataType::F64),
                locals: st.locals.push(seq![]),
                ..st
            };
            let slot = (st1.locals.len() - 1) as i32;
            match kind {
                Kind::Function => match first_index(st.defs.map_values(|d: (Seq<char>, nat)| d.0), name) {
                    None => Err(CompileErrorV::PopulateImport(name)),
                    Some(i) => if st.defs[i].1 < 2 {
                        Err(CompileErrorV::PopulateArity(name))
                    } else {
                        let size = st.defs[i].1 - 1;
                        populate_chunks(st1, es, size, chunk_count(es.len() as int, size), 0, int_token(v), slot)
                    },
                },
                _ => Err(CompileErrorV::PopulateNonFunction(name)),
            }
        },
    }
}

/// A call, by the function's name: the built-in forms first, then a call
/// of the function the name resolves to.
pub open spec fn call(st: CState, name: Seq<char>, ps: Seq<ExprV>) -> Result<CState, CompileErrorV>
    decreases ps, 3int, 0int,
{
    if name == "do"@ {
        if ps.len() == 0 {
            Err(CompileErrorV::UselessDo)
        } else {
            block(st, ps, 0)
        }
    } else if name == "call"@ {
        call_indirect(st, ps)
    } else if name == "if"@ {
        if_call(st, ps)
    } else if name == "mem"@ {
        if ps.len() == 1 || ps.len() == 2 {
            mem_num(st, ps)
        } else {
            Err(CompileErrorV::MemArity)
        }
    } else if name == "mem_byte"@ {
        if ps.len() == 1 {
            match expr(st, ps[0]) {
                Ok(st1) => Ok(
                    emit(
                        st1,
                        seq![
                            op(Opcode::I32TruncSF64),
                            op(Opcode::I32Load8U),
                            TokenV::Int(0),
                            TokenV::Int(0),
                            op(Opcode::F64ConvertSI32),
                        ],
                    ),
                ),
                Err(err) => Err(err),
            }
        } else if ps.len() == 2 {
            match truncated(st, ps, 0) {
                Ok(st1) => Ok(
                    emit(
                        st1,
                        seq![op(Opcode::I32Store8), TokenV::Int(0), TokenV::Int(0)] + f64_const(0),
                    ),
                ),
                Err(err) => Err(err),
            }
        } else {
            Err(CompileErrorV::MemByteArity)
        }
    } else if name == "mem_heap_start"@ {
        if ps.len() == 0 {
            Ok(
                emit(
                    st,
                    seq![op(Opcode::GlobalGet), TokenV::Int(0), op(Opcode::F64ConvertSI32)],
                ),
            )
        } else {
            Err(CompileErrorV::MemHeapStartArity)
        }
    } else if name == "mem_heap_end"@ {
        if ps.len() == 0 {
            Ok(
                emit(
                    st,
                    seq![op(Opcode::GlobalGet), TokenV::Int(1), op(Opcode::F64ConvertSI32)],
                ),
            )
        } else if ps.len() == 1 {
            match expr(st, ps[0]) {
                Ok(st1) => Ok(
                    emit(
                        st1,
                        seq![op(Opcode::I32TruncSF64), op(Opcode::GlobalSet), TokenV::Int(1)]
                            + f64_const(0),
                    ),
                ),
                Err(err) => Err(err),
            }
        } else {
            Err(CompileErrorV::MemHeapEndArity)
        }
    } else if name == "mem_num"@ {
        mem_num(st, ps)
    } else if is_comparison(name) {
        if ps.len() != 2 {
            Err(CompileErrorV::NeedsTwoParameters(name))
        } else {
            match range(st, ps, 0, 2) {
                Ok(st1) => Ok(
                    emit(st1, seq![op(comparison_op(name)), op(Opcode::F64ConvertSI32)]),
                ),
                Err(err) => Err(err),
            }
        }
    } else if is_bitwise(name) {
        if ps.len() != 2 {
            Err(CompileErrorV::NeedsTwoParameters(name))
        } else {
            match expr(st, ps[0]) {
                Ok(st1) => match expr(emit(st1, seq![op(Opcode::I64TruncSF64)]), ps[1]) {
                    Ok(st2) => Ok(
                        emit(
                            st2,
                            seq![
                                op(Opcode::I64TruncSF64),
                                op(bitwise_op(name)),
                                op(Opcode::F64ConvertSI64),
                            ],
                        ),
                    ),
                    Err(err) => Err(err),
                },
                Err(err) => Err(err),
            }
        }
    } else if is_arithmetic(name) {
        if ps.len() < 2 {
            Err(CompileErrorV::NeedsAtLeastTwoParameters(name))
        } else {
            arithmetic(st, name, ps, 0)
        }
    } else {
        logic_or_user_call(st, name, ps)
    }
}

/// `call(fn(..)->.., f, x...)`: the arguments, then the function handle,
/// then an indirect call through the table with the signature's type.
pub open spec fn call_indirect(st: CState, ps: Seq<ExprV>) -> Result<CState, CompileErrorV>
    decreases ps, 2int, 0int,
{
    if ps.len() >= 2 {
        match ps[0] {
            ExprV::FnSig(ins, out) => match range(st, ps, 2, ps.len() as int) {
                Ok(st1) => match expr(st1, ps[1]) {
                    Ok(st2) => {
                        let st3 = emit(st2, seq![op(Opcode::I32TruncSF64)]);
                        let (st4, t) = add_type(st3, ins, out);
                        let st5 = emit(
                            st4,
                            seq![op(Opcode::CallIndirect), TokenV::UInt(t as u32), TokenV::Int(0)],
                        );
                        Ok(
                            if out is None {
                                emit(st5, f64_const(0))
                            } else {
                                st5
                            },
                        )
                    },
                    Err(err) => Err(err),
                },
                Err(err) => Err(err),
            },
            _ => Err(CompileErrorV::CallWithoutSignature),
        }
    } else {
        Err(CompileErrorV::CallArity)
    }
}

/// The test of a condition: whether it is not 0.
pub open spec fn condition_test() -> Seq<TokenV> {
    f64_const(0) + seq![
        op(Opcode::F64Eq),
        op(Opcode::I32Const),
        TokenV::Int(0),
        op(Opcode::I32Eq),
        op(Opcode::If),
        op(Opcode::F64),
    ]
}

/// The state in which the branches of an `if` are compiled: the condition's
/// code is followed by the test that opens the `if` block, which is one more
/// block for a `recur` in a branch to leave.
pub open spec fn enter_if(st: CState, st1: CState) -> CState {
    CState { recur_depth: st.recur_depth + 1, ..emit(st1, condition_test()) }
}

/// `if(c, a)` and `if(c, a, b)`: the condition, then a block that holds the
/// branches; a `recur` in a branch branches one level further out, one in
/// the condition (which runs before the block opens) does not.
pub open spec fn if_call(st: CState, ps: Seq<ExprV>) -> Result<CState, CompileErrorV>
    decreases ps, 2int, 0int,
{
    if st.recur_depth >= 0xffff_ffff {
        Err(CompileErrorV::TooManyIfs)
    } else if ps.len() == 2 {
        match expr(st, ps[0]) {
            Ok(st1) => match expr(enter_if(st, st1), ps[1]) {
                Ok(st2) => Ok(
                    CState {
                        recur_depth: st.recur_depth,
                        ..emit(st2, seq![op(Opcode::Else)] + f64_const(0) + seq![op(Opcode::End)])
                    },
                ),
                Err(err) => Err(err),
            },
            Err(err) => Err(err),
        }
    } else if ps.len() == 3 {
        match expr(st, ps[0]) {
            Ok(st1) => match expr(enter_if(st, st1), ps[1]) {
                Ok(st2) => match expr(emit(st2, seq![op(Opcode::Else)]), ps[2]) {
                    Ok(st3) => Ok(
                        CState { recur_depth: st.recur_depth, ..emit(st3, seq![op(Opcode::End)]) },
                    ),
                    Err(err) => Err(err),
                },
                Err(err) => Err(err),
            },
            Err(err) => Err(err),
        }
    } else {
        Err(CompileErrorV::IfArity)
    }
}

/// `mem_num(a)` (and `mem(a)`) loads a number from `a`; `mem_num(a, x)` (and
/// `mem(a, x)`) stores `x` there.
pub open spec fn mem_num(st: CState, ps: Seq<ExprV>) -> Result<CState, CompileErrorV>
    decreases ps, 2int, 0int,
{
    if ps.len() == 1 {
        match expr(st, ps[0]) {
            Ok(st1) => Ok(
                emit(
                    st1,
                    seq![
                        op(Opcode::I32TruncSF64),
                        op(Opcode::F64Load),
                        TokenV::Int(0),
                        TokenV::Int(0),
                    ],
                ),
            ),
            Err(err) => Err(err),
        }
    } else if ps.len() == 2 {
        match expr(st, ps[0]) {
            Ok(st1) => match expr(emit(st1, seq![op(Opcode::I32TruncSF64)]), ps[1]) {
                Ok(st2) => Ok(
                    emit(
                        st2,
                        seq![op(Opcode::F64Store), TokenV::Int(0), TokenV::Int(0)] + f64_const(0),
                    ),
                ),
                Err(err) => Err(err),
            },
            Err(err) => Err(err),
        }
    } else {
        Err(CompileErrorV::MemNumArity)
    }
}

/// `!`, `~`, `and`, `or`, and otherwise a call of the function the name
/// resolves to, after its arguments.
pub open spec fn logic_or_user_call(st: CState, name: Seq<char>, ps: Seq<ExprV>) -> Result<
    CState,
    CompileErrorV,
>
    decreases ps, 2int, 0int,
{
    if name == "!"@ {
        if ps.len() != 1 {
            Err(CompileErrorV::NeedsOneParameter(name))
        } else {
            match expr(st, ps[0]) {
                Ok(st1) => Ok(
                    emit(
                        st1,
                        f64_const(0) + seq![op(Opcode::F64Eq), op(Opcode::F64ConvertSI32)],
                    ),
                ),
                Err(err) => Err(err),
            }
        }
    } else if name == "~"@ {
        if ps.len() != 1 {
            Err(CompileErrorV::NeedsOneParameter(name))
        } else {
            match expr(st, ps[0]) {
                Ok(st1) => Ok(
                    emit(
                        st1,
                        seq![
                            op(Opcode::I64TruncSF64),
                            op(Opcode::I64Const),
                            TokenV::Int(-1i32),
                            op(Opcode::I64Xor),
                            op(Opcode::F64ConvertSI64),
                        ],
                    ),
                ),
                Err(err) => Err(err),
            }
        }
    } else if name == "and"@ {
        if ps.len() != 2 {
            Err(CompileErrorV::NeedsTwoParameters(name))
        } else {
            match expr(st, ps[0]) {
                Ok(st1) => match expr(
                    emit(
                        st1,
                        seq![
                            op(Opcode::I64TruncSF64),
                            op(Opcode::I64Const),
                            TokenV::Int(0),
                            op(Opcode::I64Ne),
                        ],
                    ),
                    ps[1],
                ) {
                    Ok(st2) => Ok(
                        emit(
                            st2,
                            seq![
                                op(Opcode::I64TruncSF64),
                                op(Opcode::I64Const),
                                TokenV::Int(0),
                                op(Opcode::I64Ne),
                                op(Opcode::I32And),
                                op(Opcode::F64ConvertSI32),
                            ],
                        ),
                    ),
                    Err(err) => Err(err),
                },
                Err(err) => Err(err),
            }
        }
    } else if name == "or"@ {
        if ps.len() != 2 {
            Err(CompileErrorV::NeedsTwoParameters(name))
        } else {
            match expr(st, ps[0]) {
                Ok(st1) => match expr(emit(st1, seq![op(Opcode::I64TruncSF64)]), ps[1]) {
                    Ok(st2) => Ok(
                        emit(
                            st2,
                            seq![
                                op(Opcode::I64TruncSF64),
                                op(Opcode::I64Or),
                                op(Opcode::I64Const),
                                TokenV::Int(0),
                                op(Opcode::I64Ne),
                                op(Opcode::F64ConvertSI32),
                            ],
                        ),
                    ),
                    Err(err) => Err(err),
                },
                Err(err) => Err(err),
            }
        }
    } else {
        match resolve(st, name) {
            Err(err) => Err(err),
            Ok((h, _)) => match range(st, ps, 0, ps.len() as int) {
                Ok(st1) => Ok(emit(st1, seq![op(Opcode::Call), int_token(h)])),
                Err(err) => Err(err),
            },
        }
    }
}

// ---------------------------------------------------------------------
// Whole programs
// ---------------------------------------------------------------------

pub open spec fn imports_of(tops: Seq<TopV>) -> Seq<(Seq<char>, nat)>
    decreases tops.len(),
{
    if tops.len() == 0 {
        Seq::empty()
    } else {
        let rest = imports_of(tops.drop_last());
        match tops.last() {
            TopV::ExternalFunction(name, ps) => rest.push((name, ps.len())),
            _ => rest,
        }
    }
}

pub open spec fn functions_of(tops: Seq<TopV>) -> Seq<FunctionV>
    decreases tops.len(),
{
    if tops.len() == 0 {
        Seq::empty()
    } else {
        let rest = functions_of(tops.drop_last());
        match tops.last() {
            TopV::DefineFunction(f) => rest.push(f),
            _ => rest,
        }
    }
}

pub open spec fn f64_inputs(n: nat) -> Seq<DataType> {
    Seq::new(n, |i: int| DataType::F64)
}

/// The code of a function: its body with every result but the last
/// dropped, and `end`; its parameters are its first locals.
pub open spec fn function_code(st: CState, f: FunctionV) -> Result<CState, CompileErrorV> {
    let st0 = CState { locals: f.params, code: seq![], local_types: seq![], ..st };
    match block(st0, f.children, 0) {
        Ok(st1) => Ok(emit(st1, seq![op(Opcode::End)])),
        Err(err) => Err(err),
    }
}

pub open spec fn function_of(st: CState, f: FunctionV) -> FunctionV2 {
    FunctionV2 {
        name: if f.exported {
            Some(f.name)
        } else {
            None
        },
        inputs: f64_inputs(f.params.len()),
        locals: st.local_types,
        code: st.code,
    }
}

/// The functions `fs[k..]`, after the compiled functions `acc`.
pub open spec fn functions_from(st: CState, fs: Seq<FunctionV>, k: int, acc: Seq<FunctionV2>) -> Result<
    (CState, Seq<FunctionV2>),
    CompileErrorV,
>
    decreases fs.len() - k,
{
    if 0 <= k < fs.len() {
        match function_code(st, fs[k]) {
            Ok(st1) => functions_from(st1, fs, k + 1, acc.push(function_of(st1, fs[k]))),
            Err(err) => Err(err),
        }
    } else {
        Ok((st, acc))
    }
}

pub open spec fn initial_state(tops: Seq<TopV>) -> CState {
    let fs = functions_of(tops);
    CState {
        types: seq![],
        data: seq![],
        symbols: seq![],
        global_names: seq![],
        global_values: seq![],
        locals: seq![],
        heap: heap_start(),
        function_names: imports_of(tops).map_values(|i: (Seq<char>, nat)| i.0) + fs.map_values(
            |f: FunctionV| f.name,
        ),
        defs: fs.map_values(|f: FunctionV| (f.name, f.params.len())),
        code: seq![],
        local_types: seq![],
        recur_depth: 0,
    }
}

/// The module of a program: its imports, the functions' table, the
/// globals' data, then the functions' code; two globals (the first fixed,
/// the second mutable) hold where the heap starts after all data.
pub open spec fn compile_program(tops: Seq<TopV>) -> Result<ModuleV, CompileErrorV> {
    let st0 = initial_state(tops);
    match globals_from(st0, tops, 0) {
        Err(err) => Err(err),
        Ok(st1) => match functions_from(st1, functions_of(tops), 0, seq![]) {
            Err(err) => Err(err),
            Ok((st2, fs)) => {
                let n = st0.function_names.len();
                let h = clamp_i32(next_heap(st2.heap));
                Ok(
                    ModuleV {
                        imports: imports_of(tops),
                        types: st2.types,
                        functions: fs,
                        table_size: n as u32,
                        data: st2.data,
                        globals: seq![(h, false), (h, true)],
                        elements: Seq::new(n, |i: int| i as u32),
                    },
                )
            },
        },
    }
}

} // verus!
