//! The compiler: from a program's syntax tree to a WebAssembly module.
//!
//! `compile` is proved to build exactly the module that
//! `semantics::compile_program` describes, or to stop with exactly the
//! error it describes.
use vstd::prelude::*;
use crate::ast::{
    DataType, App, TopLevelOperation, GlobalValue, FunctionDefinition, Expression, StructMember,
    FunctionV, view_exprs, view_bindings, view_globals, member_names, view_tops, view_function,
    strings_view, lemma_view_exprs, lemma_view_bindings, lemma_view_globals, lemma_member_names,
    lemma_view_tops, lemma_strings_view,
};
use crate::module::{
    Opcode, Num, Token, FunctionType, Import, Function, DataItem, DataSegment, WasmGlobal, Module,
    NumV, TokenV, DataItemV, DataV, ModuleV, tokens_view, nums_view, data_items_view,
    segments_view, types_view, functions_view, imports_view, globals_view, copy_literal, copy_num,
    token_view, function_view,
};
use crate::semantics::{
    CompileErrorV, Kind, CState, heap_limit, clamp_i32, first_index, last_index, resolve, emit,
    op, f64_const, int_token, symbol_value, add_type, item_size, items_size, next_heap,
    create_data, c_string, text_data, numbers_data, assign, value_after, lemma_first_index_is,
    lemma_first_index_none, lemma_last_index_is, lemma_last_index_none, expr, block, range,
    truncated, bindings, arithmetic, populate_chunks, chunk_count, populate, call, call_indirect,
    condition_test, if_call, mem_num, logic_or_user_call, is_comparison, is_bitwise,
    is_arithmetic, comparison_op, bitwise_op, arithmetic_ops, global_value, global_values_from,
    globals_from, function_code, function_of, f64_inputs, functions_from, functions_of,
    imports_of, initial_state, compile_program,
};
use crate::text::str_is;

verus! {

/// Why a program does not compile.
#[derive(Debug, PartialEq)]
pub enum CompileError {
    /// A name that is no local, function or global.
    UnknownIdentifier(String),
    /// A global whose value names the global itself.
    GlobalUsedInItsOwnDefinition(String),
    /// `do` with no expressions.
    UselessDo,
    /// `call` whose first argument is not a function signature.
    CallWithoutSignature,
    /// `call` with fewer than two arguments.
    CallArity,
    /// `if` with other than two or three arguments.
    IfArity,
    /// `mem` with other than one or two arguments.
    MemArity,
    /// `mem_byte` with other than one or two arguments.
    MemByteArity,
    /// `mem_heap_start` with arguments.
    MemHeapStartArity,
    /// `mem_heap_end` with more than one argument.
    MemHeapEndArity,
    /// `mem_num` with other than one or two arguments.
    MemNumArity,
    /// An operator that takes two arguments, given another number.
    NeedsTwoParameters(String),
    /// An arithmetic operator given fewer than two arguments.
    NeedsAtLeastTwoParameters(String),
    /// `!` or `~` given other than one argument.
    NeedsOneParameter(String),
    /// `loop` with no expressions.
    UselessLoop,
    /// `#` (populate) on a name that is not a function.
    PopulateNonFunction(String),
    /// `#` (populate) on an imported function.
    PopulateImport(String),
    /// `#` (populate) on a function with fewer than two parameters.
    PopulateArity(String),
    /// An `if` statement node, which has no code of its own.
    UnsupportedExpression,
    /// Data beyond the addresses that a binary64 value holds exactly.
    TooMuchData,
    /// More nested or successive `if`s than a block depth can count.
    TooManyIfs,
}

impl View for CompileError {
    type V = CompileErrorV;

    open spec fn view(&self) -> CompileErrorV {
        match self {
            CompileError::UnknownIdentifier(n) => CompileErrorV::UnknownIdentifier(n@),
            CompileError::GlobalUsedInItsOwnDefinition(n) => CompileErrorV::GlobalUsedInItsOwnDefinition(n@),
            CompileError::UselessDo => CompileErrorV::UselessDo,
            CompileError::CallWithoutSignature => CompileErrorV::CallWithoutSignature,
            CompileError::CallArity => CompileErrorV::CallArity,
            CompileError::IfArity => CompileErrorV::IfArity,
            CompileError::MemArity => CompileErrorV::MemArity,
            CompileError::MemByteArity => CompileErrorV::MemByteArity,
            CompileError::MemHeapStartArity => CompileErrorV::MemHeapStartArity,
            CompileError::MemHeapEndArity => CompileErrorV::MemHeapEndArity,
            CompileError::MemNumArity => CompileErrorV::MemNumArity,
            CompileError::NeedsTwoParameters(n) => CompileErrorV::NeedsTwoParameters(n@),
            CompileError::NeedsAtLeastTwoParameters(n) => CompileErrorV::NeedsAtLeastTwoParameters(n@),
            CompileError::NeedsOneParameter(n) => CompileErrorV::NeedsOneParameter(n@),
            CompileError::UselessLoop => CompileErrorV::UselessLoop,
            CompileError::PopulateNonFunction(n) => CompileErrorV::PopulateNonFunction(n@),
            CompileError::PopulateImport(n) => CompileErrorV::PopulateImport(n@),
            CompileError::PopulateArity(n) => CompileErrorV::PopulateArity(n@),
            CompileError::UnsupportedExpression => CompileErrorV::UnsupportedExpression,
            CompileError::TooMuchData => CompileErrorV::TooMuchData,
            CompileError::TooManyIfs => CompileErrorV::TooManyIfs,
        }
    }
}

pub open spec fn strs(s: Seq<String>) -> Seq<Seq<char>> {
    s.map_values(|x: String| x@)
}

/// The result of a compiling step, as the specification states it.
pub open spec fn outcome(r: Result<(), CompileError>, st: CState) -> Result<CState, CompileErrorV> {
    match r {
        Ok(_) => Ok(st),
        Err(e) => Err(e@),
    }
}

/// The result of placing data, as the specification states it.
pub open spec fn placed(r: Result<u64, CompileError>, st: CState) -> Result<(CState, int), CompileErrorV> {
    match r {
        Ok(p) => Ok((st, p as int)),
        Err(e) => Err(e@),
    }
}

/// The result of resolving a name, as the specification states it.
pub open spec fn resolved(r: Result<(Num, Kind), CompileError>) -> Result<(NumV, Kind), CompileErrorV> {
    match r {
        Ok((n, k)) => Ok((n@, k)),
        Err(e) => Err(e@),
    }
}

/// The result of computing a value, as the specification states it.
pub open spec fn valued(r: Result<Num, CompileError>, st: CState) -> Result<(CState, NumV), CompileErrorV> {
    match r {
        Ok(n) => Ok((st, n@)),
        Err(e) => Err(e@),
    }
}

/// The result of computing values, as the specification states it.
pub open spec fn valued_all(r: Result<Vec<Num>, CompileError>, st: CState) -> Result<
    (CState, Seq<NumV>),
    CompileErrorV,
> {
    match r {
        Ok(ns) => Ok((st, nums_view(ns@))),
        Err(e) => Err(e@),
    }
}

/// The compiler's state; its view is the `CState` of the specification.
struct Compiler {
    types: Vec<FunctionType>,
    data: Vec<DataSegment>,
    symbols: Vec<String>,
    global_names: Vec<String>,
    global_values: Vec<Num>,
    locals: Vec<String>,
    heap: u64,
    function_names: Vec<String>,
    defs: Vec<(String, usize)>,
    code: Vec<Token>,
    local_types: Vec<DataType>,
    recur_depth: u32,
}

impl View for Compiler {
    type V = CState;

    closed spec fn view(&self) -> CState {
        CState {
            types: types_view(self.types@),
            data: segments_view(self.data@),
            symbols: strs(self.symbols@),
            global_names: strs(self.global_names@),
            global_values: nums_view(self.global_values@),
            locals: strs(self.locals@),
            heap: self.heap as int,
            function_names: strs(self.function_names@),
            defs: self.defs@.map_values(|d: (String, usize)| (d.0@, d.1 as nat)),
            code: tokens_view(self.code@),
            local_types: self.local_types@,
            recur_depth: self.recur_depth as int,
        }
    }
}

/// The position of the first `x` in `v`.
fn find_first(v: &Vec<String>, x: &String) -> (r: Option<usize>)
    ensures
        match r {
            Some(i) => first_index(strs(v@), x@) == Some(i as int) && i < v.len(),
            None => first_index(strs(v@), x@) is None,
        },
{
    let mut i: usize = 0;
    while i < v.len()
        invariant
            i <= v.len(),
            forall|j: int| 0 <= j < i ==> strs(v@)[j] != x@,
        decreases v.len() - i,
    {
        if v[i] == *x {
            proof {
                lemma_first_index_is(strs(v@), x@, i as int);
            }
            return Some(i);
        }
        i = i + 1;
    }
    proof {
        lemma_first_index_none(strs(v@), x@);
    }
    None
}

/// The position of the last `x` in `v`.
fn find_last(v: &Vec<String>, x: &String) -> (r: Option<usize>)
    ensures
        match r {
            Some(i) => last_index(strs(v@), x@) == Some(i as int) && i < v.len(),
            None => last_index(strs(v@), x@) is None,
        },
{
    let mut i: usize = v.len();
    while i > 0
        invariant
            i <= v.len(),
            forall|j: int| i <= j < v.len() ==> strs(v@)[j] != x@,
        decreases i,
    {
        if v[i - 1] == *x {
            proof {
                lemma_last_index_is(strs(v@), x@, i - 1);
            }
            return Some(i - 1);
        }
        i = i - 1;
    }
    proof {
        lemma_last_index_none(strs(v@), x@);
    }
    None
}

/// The position of the first function definition named `x`.
fn find_def(v: &Vec<(String, usize)>, x: &String) -> (r: Option<usize>)
    ensures
        match r {
            Some(i) => first_index(
                v@.map_values(|d: (String, usize)| (d.0@, d.1 as nat)).map_values(
                    |d: (Seq<char>, nat)| d.0,
                ),
                x@,
            ) == Some(i as int) && i < v.len(),
            None => first_index(
                v@.map_values(|d: (String, usize)| (d.0@, d.1 as nat)).map_values(
                    |d: (Seq<char>, nat)| d.0,
                ),
                x@,
            ) is None,
        },
{
    let ghost names = v@.map_values(|d: (String, usize)| (d.0@, d.1 as nat)).map_values(
        |d: (Seq<char>, nat)| d.0,
    );
    let mut i: usize = 0;
    while i < v.len()
        invariant
            i <= v.len(),
            names == v@.map_values(|d: (String, usize)| (d.0@, d.1 as nat)).map_values(
                |d: (Seq<char>, nat)| d.0,
            ),
            forall|j: int| 0 <= j < i ==> names[j] != x@,
        decreases v.len() - i,
    {
        if v[i].0 == *x {
            proof {
                lemma_first_index_is(names, x@, i as int);
            }
            return Some(i);
        }
        i = i + 1;
    }
    proof {
        lemma_first_index_none(names, x@);
    }
    None
}

/// `n` converted to `i32` with saturation.
fn clamp_to_i32(n: u64) -> (r: i32)
    ensures
        r == clamp_i32(n as int),
{
    if n > 0x7fff_ffffu64 {
        0x7fff_ffffi32
    } else {
        n as i32
    }
}

/// The token of a function index or call target taken from a number.
fn int_token_of(v: &Num) -> (t: Token)
    ensures
        t@ == int_token(v@),
{
    match v {
        Num::Int(n) => Token::Int(clamp_to_i32(*n)),
        Num::Lit(l) => Token::TruncLit(copy_literal(l)),
    }
}

/// A copy of a list of value types.
fn copy_types(v: &Vec<DataType>) -> (r: Vec<DataType>)
    ensures
        r@ == v@,
{
    let mut r: Vec<DataType> = Vec::new();
    for i in 0..v.len()
        invariant
            r@ == v@.take(i as int),
    {
        r.push(v[i]);
        assert(r@ =~= v@.take(i + 1));
    }
    assert(v@.take(v.len() as int) =~= v@);
    r
}

/// A copy of a token.
fn copy_token(t: &Token) -> (r: Token)
    ensures
        r@ == t@,
{
    match t {
        Token::Op(o) => Token::Op(*o),
        Token::Int(i) => Token::Int(*i),
        Token::UInt(u) => Token::UInt(*u),
        Token::F64(n) => Token::F64(copy_num(n)),
        Token::TruncLit(l) => Token::TruncLit(copy_literal(l)),
    }
}

/// A copy of an instruction stream.
fn copy_tokens(v: &Vec<Token>) -> (r: Vec<Token>)
    ensures
        tokens_view(r@) == tokens_view(v@),
{
    let mut r: Vec<Token> = Vec::new();
    for i in 0..v.len()
        invariant
            r@.len() == i,
            forall|j: int| 0 <= j < i ==> token_view(#[trigger] r@[j]) == token_view(v@[j]),
    {
        r.push(copy_token(&v[i]));
    }
    assert(tokens_view(r@) =~= tokens_view(v@));
    r
}

/// A copy of a list of names.
fn copy_strings(v: &Vec<String>) -> (r: Vec<String>)
    ensures
        strs(r@) == strs(v@),
{
    let mut r: Vec<String> = Vec::new();
    for i in 0..v.len()
        invariant
            r@.len() == i,
            forall|j: int| 0 <= j < i ==> (#[trigger] r@[j])@ == v@[j]@,
    {
        r.push(v[i].clone());
    }
    assert(strs(r@) =~= strs(v@));
    r
}

/// Whether two lists of value types are equal.
fn same_types(a: &Vec<DataType>, b: &Vec<DataType>) -> (r: bool)
    ensures
        r == (a@ == b@),
{
    if a.len() != b.len() {
        return false;
    }
    let mut i: usize = 0;
    while i < a.len()
        invariant
            a.len() == b.len(),
            i <= a.len(),
            forall|j: int| 0 <= j < i ==> a@[j] == b@[j],
        decreases a.len() - i,
    {
        if a[i] != b[i] {
            return false;
        }
        i = i + 1;
    }
    assert(a@ =~= b@);
    true
}

/// Whether two optional value types are equal.
fn same_output(a: Option<DataType>, b: Option<DataType>) -> (r: bool)
    ensures
        r == (a == b),
{
    match (a, b) {
        (Some(x), Some(y)) => x == y,
        (None, None) => true,
        _ => false,
    }
}

/// The position of the first function type `(ins, out)` in `v`.
fn find_type(v: &Vec<FunctionType>, ins: &Vec<DataType>, out: Option<DataType>) -> (r: Option<usize>)
    ensures
        match r {
            Some(i) => first_index(types_view(v@), (ins@, out)) == Some(i as int) && i < v.len(),
            None => first_index(types_view(v@), (ins@, out)) is None,
        },
{
    let mut i: usize = 0;
    while i < v.len()
        invariant
            i <= v.len(),
            forall|j: int| 0 <= j < i ==> types_view(v@)[j] != (ins@, out),
        decreases v.len() - i,
    {
        if same_types(&v[i].inputs, ins) && same_output(v[i].output, out) {
            proof {
                lemma_first_index_is(types_view(v@), (ins@, out), i as int);
            }
            return Some(i);
        }
        i = i + 1;
    }
    proof {
        lemma_first_index_none(types_view(v@), (ins@, out));
    }
    None
}

proof fn lemma_items_size_prefix(s: Seq<DataItemV>, i: int)
    requires
        0 <= i <= s.len(),
    ensures
        items_size(s.take(i)) <= items_size(s),
    decreases s.len(),
{
    if i < s.len() {
        lemma_items_size_prefix(s.drop_last(), i);
        assert(s.drop_last().take(i) =~= s.take(i));
    } else {
        assert(s.take(i) =~= s);
    }
}

proof fn lemma_items_size_step(s: Seq<DataItemV>, i: int)
    requires
        0 <= i < s.len(),
    ensures
        items_size(s.take(i + 1)) == items_size(s.take(i)) + item_size(s[i]),
{
    assert(s.take(i + 1).drop_last() =~= s.take(i));
}

/// The number of bytes of `items`, if it is at most the heap limit.
fn items_total(items: &Vec<DataItem>) -> (r: Option<u64>)
    ensures
        match r {
            Some(n) => n == items_size(data_items_view(items@)) && n <= heap_limit(),
            None => items_size(data_items_view(items@)) > heap_limit(),
        },
{
    let ghost s = data_items_view(items@);
    let mut total: u64 = 0;
    for i in 0..items.len()
        invariant
            s == data_items_view(items@),
            total == items_size(s.take(i as int)),
            total <= heap_limit(),
    {
        let size: u64 = match &items[i] {
            DataItem::Bytes(b) => b.len() as u64,
            DataItem::Number(_) => 8,
        };
        proof {
            lemma_items_size_step(s, i as int);
        }
        if size > 0x20_0000_0000_0000u64 - total {
            proof {
                lemma_items_size_prefix(s, i + 1);
            }
            return None;
        }
        total = total + size;
    }
    assert(s.take(items.len() as int) =~= s);
    Some(total)
}

/// Whether `n` names a comparison operator.
fn is_comparison_name(n: &String) -> (r: bool)
    ensures
        r == is_comparison(n@),
{
    str_is(n, "==") || str_is(n, "!=") || str_is(n, "<=") || str_is(n, ">=") || str_is(n, "<")
        || str_is(n, ">")
}

/// Whether `n` names a bitwise operator.
fn is_bitwise_name(n: &String) -> (r: bool)
    ensures
        r == is_bitwise(n@),
{
    str_is(n, "&") || str_is(n, "|") || str_is(n, "^") || str_is(n, "<<") || str_is(n, ">>")
}

/// Whether `n` names an arithmetic operator.
fn is_arithmetic_name(n: &String) -> (r: bool)
    ensures
        r == is_arithmetic(n@),
{
    str_is(n, "+") || str_is(n, "-") || str_is(n, "*") || str_is(n, "/") || str_is(n, "%")
}

/// The instruction of a comparison operator.
fn comparison_opcode(n: &String) -> (o: Opcode)
    ensures
        o == comparison_op(n@),
{
    if str_is(n, "==") {
        Opcode::F64Eq
    } else if str_is(n, "!=") {
        Opcode::F64Ne
    } else if str_is(n, "<=") {
        Opcode::F64Le
    } else if str_is(n, ">=") {
        Opcode::F64Ge
    } else if str_is(n, "<") {
        Opcode::F64Lt
    } else {
        Opcode::F64Gt
    }
}

/// The instruction of a bitwise operator.
fn bitwise_opcode(n: &String) -> (o: Opcode)
    ensures
        o == bitwise_op(n@),
{
    if str_is(n, "&") {
        Opcode::I64And
    } else if str_is(n, "|") {
        Opcode::I64Or
    } else if str_is(n, "^") {
        Opcode::I64Xor
    } else if str_is(n, "<<") {
        Opcode::I64Shl
    } else {
        Opcode::I64ShrS
    }
}

/// What an arithmetic operator emits after each operand but the first.
fn arithmetic_tokens(n: &String) -> (r: Vec<Token>)
    ensures
        tokens_view(r@) == arithmetic_ops(n@),
{
    let r = if str_is(n, "+") {
        vec![Token::Op(Opcode::F64Add)]
    } else if str_is(n, "-") {
        vec![Token::Op(Opcode::F64Sub)]
    } else if str_is(n, "*") {
        vec![Token::Op(Opcode::F64Mul)]
    } else if str_is(n, "/") {
        vec![Token::Op(Opcode::F64Div)]
    } else {
        vec![Token::Op(Opcode::I64RemS), Token::Op(Opcode::F64ConvertSI64)]
    };
    assert(tokens_view(r@) =~= arithmetic_ops(n@));
    r
}

/// Chunk `c` of a populate starts inside the elements.
proof fn lemma_chunk_start(n: int, size: int, c: int)
    requires
        size > 0,
        n >= 0,
        0 <= c < chunk_count(n, size),
    ensures
        0 <= c * size < n,
        (c + 1) * size == c * size + size,
{
    let q = n / size;
    let r = n % size;
    vstd::arithmetic::div_mod::lemma_fundamental_div_mod(n, size);
    vstd::arithmetic::div_mod::lemma_mod_bound(n, size);
    if r == 0 {
        assert(c * size <= (q - 1) * size) by (nonlinear_arith)
            requires
                c <= q - 1,
                size > 0,
        ;
        assert((q - 1) * size == q * size - size) by (nonlinear_arith);
        assert(size * q == q * size) by (nonlinear_arith);
    } else {
        assert(c * size <= q * size) by (nonlinear_arith)
            requires
                c <= q,
                size > 0,
        ;
        assert(size * q == q * size) by (nonlinear_arith);
    }
    assert(0 <= c * size) by (nonlinear_arith)
        requires
            c >= 0,
            size > 0,
    ;
    assert((c + 1) * size == c * size + size) by (nonlinear_arith);
}

/// The data items of the numbers `ns`: eight bytes each.
fn number_items(ns: &Vec<Num>) -> (r: Vec<DataItem>)
    ensures
        data_items_view(r@) == numbers_data(nums_view(ns@)),
{
    let ghost nv = nums_view(ns@);
    let mut r: Vec<DataItem> = Vec::new();
    for i in 0..ns.len()
        invariant
            nv == nums_view(ns@),
            data_items_view(r@) == numbers_data(nv.take(i as int)),
    {
        let ghost before = data_items_view(r@);
        r.push(DataItem::Number(copy_num(&ns[i])));
        assert(nv.take(i + 1).drop_last() =~= nv.take(i as int));
        assert(data_items_view(r@) =~= before.push(DataItemV::Number(nv[i as int])));
    }
    assert(nv.take(ns.len() as int) =~= nv);
    r
}

/// Whether `e` is a comment.
fn is_comment(e: &Expression) -> (r: bool)
    ensures
        r == (e@ is Comment),
{
    match e {
        Expression::Comment(_) => true,
        _ => false,
    }
}

/// Whether one of `es[j..]` leaves a value (is not a comment).
fn has_value_after(es: &Vec<Expression>, j: usize) -> (r: bool)
    requires
        j <= es.len(),
    ensures
        r == value_after(view_exprs(es@), j as int),
{
    let ghost esv = view_exprs(es@);
    proof {
        lemma_view_exprs(es@);
    }
    let mut i = j;
    while i < es.len()
        invariant
            j <= i <= es.len(),
            esv == view_exprs(es@),
            esv.len() == es.len(),
            forall|t: int| 0 <= t < es.len() ==> #[trigger] esv[t] == es@[t]@,
            value_after(esv, j as int) == value_after(esv, i as int),
        decreases es.len() - i,
    {
        assert(esv[i as int] == es@[i as int]@);
        if !is_comment(&es[i]) {
            return true;
        }
        i = i + 1;
    }
    false
}

impl Compiler {
    /// The value of the symbol `t`, which is added to the table on first use.
    fn symbol_value(&mut self, t: &String) -> (v: u64)
        ensures
            symbol_value(old(self)@, t@) == (final(self)@, v as int),
    {
        match find_first(&self.symbols, t) {
            Some(i) => (i as u64) + 1,
            None => {
                self.symbols.push(t.clone());
                proof {
                    assert(strs(self.symbols@) =~= strs(old(self).symbols@).push(t@));
                    assert(self@ =~= CState { symbols: old(self)@.symbols.push(t@), ..old(self)@ });
                }
                self.symbols.len() as u64
            },
        }
    }

    /// The index of the function type `(ins, out)`, added on first use.
    fn add_type(&mut self, ins: &Vec<DataType>, out: Option<DataType>) -> (t: u64)
        ensures
            add_type(old(self)@, ins@, out) == (final(self)@, t as int),
    {
        match find_type(&self.types, ins, out) {
            Some(i) => i as u64,
            None => {
                self.types.push(FunctionType { inputs: copy_types(ins), output: out });
                proof {
                    assert(types_view(self.types@) =~= types_view(old(self).types@).push((ins@, out)));
                    assert(self@ =~= CState {
                        types: old(self)@.types.push((ins@, out)),
                        ..old(self)@
                    });
                }
                (self.types.len() - 1) as u64
            },
        }
    }

    /// Places `items` at the heap position and moves the heap past them.
    fn create_data(&mut self, items: Vec<DataItem>) -> (r: Result<u64, CompileError>)
        ensures
            placed(r, final(self)@) == create_data(old(self)@, data_items_view(items@)),
    {
        let pos = self.heap;
        let size = match items_total(&items) {
            Some(n) => n,
            None => {
                return Err(CompileError::TooMuchData);
            },
        };
        if pos > 0x20_0000_0000_0000u64 || size > 0x20_0000_0000_0000u64 - pos {
            return Err(CompileError::TooMuchData);
        }
        let end0 = pos + size;
        let end = if end0 % 4 != 0 {
            end0 + (4 - end0 % 4)
        } else {
            end0
        };
        if end > 0x20_0000_0000_0000u64 {
            return Err(CompileError::TooMuchData);
        }
        let ghost iv = data_items_view(items@);
        self.data.push(DataSegment { offset: clamp_to_i32(pos), items });
        self.heap = end;
        proof {
            assert(segments_view(self.data@) =~= segments_view(old(self).data@).push(
                DataV { offset: clamp_i32(pos as int), items: iv },
            ));
            assert(self@ =~= CState {
                data: old(self)@.data.push(DataV { offset: clamp_i32(pos as int), items: iv }),
                heap: end as int,
                ..old(self)@
            });
        }
        Ok(pos)
    }

    /// Places the text `t`, as a C string, in the data.
    fn text_data(&mut self, t: &String) -> (r: Result<u64, CompileError>)
        ensures
            placed(r, final(self)@) == text_data(old(self)@, t@),
    {
        let mut b = t.as_str().as_bytes_vec();
        b.push(0u8);
        assert(b@ =~= c_string(t@));
        let items = vec![DataItem::Bytes(b)];
        assert(data_items_view(items@) =~= seq![DataItemV::Bytes(c_string(t@))]);
        self.create_data(items)
    }

    /// What the identifier `name` stands for.
    fn resolve(&self, name: &String) -> (r: Result<(Num, Kind), CompileError>)
        ensures
            resolved(r) == resolve(self@, name@),
    {
        if str_is(name, "nil") {
            return Ok((Num::Int(0), Kind::Global));
        }
        if str_is(name, "size_num") {
            return Ok((Num::Int(8), Kind::Global));
        }
        match find_last(&self.locals, name) {
            Some(i) => {
                return Ok((Num::Int(i as u64), Kind::Local));
            },
            None => {},
        }
        match find_first(&self.function_names, name) {
            Some(i) => {
                return Ok((Num::Int(i as u64), Kind::Function));
            },
            None => {},
        }
        match find_first(&self.global_names, name) {
            Some(i) => {
                if i < self.global_values.len() {
                    Ok((copy_num(&self.global_values[i]), Kind::Global))
                } else {
                    Err(CompileError::GlobalUsedInItsOwnDefinition(name.clone()))
                }
            },
            None => Err(CompileError::UnknownIdentifier(name.clone())),
        }
    }

    /// Appends one instruction.
    fn emit_op(&mut self, o: Opcode)
        ensures
            final(self)@ == emit(old(self)@, seq![op(o)]),
    {
        let ts = vec![Token::Op(o)];
        assert(tokens_view(ts@) =~= seq![op(o)]);
        self.emit_all(ts);
    }

    /// Appends `f64.const n`.
    fn emit_f64_int(&mut self, n: u64)
        ensures
            final(self)@ == emit(old(self)@, f64_const(n as int)),
    {
        let ts = vec![Token::Op(Opcode::F64Const), Token::F64(Num::Int(n))];
        assert(tokens_view(ts@) =~= f64_const(n as int));
        self.emit_all(ts);
    }

    /// Stores the value just computed in the innermost local named `x`, or
    /// in a new local named `x`, keeping it as the value.
    fn assign(&mut self, x: &String)
        ensures
            final(self)@ == assign(old(self)@, x@),
    {
        match find_last(&self.locals, x) {
            Some(i) => {
                let ts = vec![Token::Op(Opcode::LocalTee), Token::UInt(i as u32)];
                assert(tokens_view(ts@) =~= seq![op(Opcode::LocalTee), TokenV::UInt(i as u32)]);
                self.emit_all(ts);
            },
            None => {
                let ghost st = self@;
                self.local_types.push(DataType::F64);
                let ts = vec![Token::Op(Opcode::LocalTee), Token::UInt(self.locals.len() as u32)];
                assert(tokens_view(ts@) =~= seq![
                    op(Opcode::LocalTee),
                    TokenV::UInt(st.locals.len() as u32),
                ]);
                self.emit_all(ts);
                let ghost st1 = self@;
                self.locals.push(x.clone());
                assert(strs(self.locals@) =~= st1.locals.push(x@));
                assert(self@ =~= CState { locals: st1.locals.push(x@), ..st1 });
            },
        }
    }

    /// The code of one expression.
    fn compile_expr(&mut self, e: &Expression) -> (r: Result<(), CompileError>)
        ensures
            outcome(r, final(self)@) == expr(old(self)@, e@),
        decreases e@, 0int, 0int,
    {
        match e {
            Expression::SymbolLiteral(x) => {
                let v = self.symbol_value(x);
                self.emit_f64_int(v);
                Ok(())
            },
            Expression::Populate(x) => self.compile_populate(&x.name, &x.elements),
            Expression::FnSig(x) => {
                let t = self.add_type(&x.inputs, x.output);
                self.emit_f64_int(t);
                Ok(())
            },
            Expression::Loop(x) => {
                let depth = self.recur_depth;
                self.recur_depth = 0;
                proof {
                    lemma_view_exprs(x.expressions@);
                }
                if x.expressions.len() == 0 {
                    return Err(CompileError::UselessLoop);
                }
                let ts = vec![Token::Op(Opcode::Loop), Token::Op(Opcode::F64)];
                assert(tokens_view(ts@) =~= seq![op(Opcode::Loop), op(Opcode::F64)]);
                self.emit_all(ts);
                match self.compile_block(&x.expressions) {
                    Ok(()) => {
                        self.emit_op(Opcode::End);
                        self.recur_depth = depth;
                        Ok(())
                    },
                    Err(err) => Err(err),
                }
            },
            Expression::Recur(_) => {
                let d = self.recur_depth;
                let ts = vec![
                    Token::Op(Opcode::F64Const),
                    Token::F64(Num::Int(0)),
                    Token::Op(Opcode::Br),
                    Token::UInt(d),
                ];
                assert(tokens_view(ts@) =~= f64_const(0) + seq![
                    op(Opcode::Br),
                    TokenV::UInt(d),
                ]);
                self.emit_all(ts);
                Ok(())
            },
            Expression::Let(x) => {
                let saved = copy_strings(&self.locals);
                match self.compile_bindings(&x.bindings) {
                    Ok(()) => {},
                    Err(err) => {
                        return Err(err);
                    },
                }
                match self.compile_block(&x.expressions) {
                    Ok(()) => {},
                    Err(err) => {
                        return Err(err);
                    },
                }
                let ghost st2 = self@;
                self.locals = saved;
                assert(self@ =~= CState { locals: old(self)@.locals, ..st2 });
                Ok(())
            },
            Expression::FunctionCall(x) => self.compile_call(&x.function_name, &x.params),
            Expression::TextLiteral(x) => match self.text_data(x) {
                Ok(p) => {
                    self.emit_f64_int(p);
                    Ok(())
                },
                Err(err) => Err(err),
            },
            Expression::Identifier(x) => match self.resolve(x) {
                Ok((v, Kind::Local)) => {
                    let ts = vec![Token::Op(Opcode::LocalGet), int_token_of(&v)];
                    assert(tokens_view(ts@) =~= seq![op(Opcode::LocalGet), int_token(v@)]);
                    self.emit_all(ts);
                    Ok(())
                },
                Ok((v, _)) => {
                    let ghost vv = v@;
                    let ts = vec![Token::Op(Opcode::F64Const), Token::F64(v)];
                    assert(tokens_view(ts@) =~= seq![op(Opcode::F64Const), TokenV::F64(vv)]);
                    self.emit_all(ts);
                    Ok(())
                },
                Err(err) => Err(err),
            },
            Expression::Comment(_) => Ok(()),
            Expression::Number(n) => {
                let ts = vec![Token::Op(Opcode::F64Const), Token::F64(Num::Lit(copy_literal(n)))];
                assert(tokens_view(ts@) =~= seq![op(Opcode::F64Const), TokenV::F64(NumV::Lit(n@))]);
                self.emit_all(ts);
                Ok(())
            },
            Expression::IfStatement(_) => Err(CompileError::UnsupportedExpression),
            Expression::Assignment(x) => {
                match self.compile_expr(&x.value) {
                    Ok(()) => {},
                    Err(err) => {
                        return Err(err);
                    },
                }
                self.assign(&x.id);
                Ok(())
            },
        }
    }

    /// A block: every expression of `es`, each result but the last dropped.
    fn compile_block(&mut self, es: &Vec<Expression>) -> (r: Result<(), CompileError>)
        ensures
            outcome(r, final(self)@) == block(old(self)@, view_exprs(es@), 0),
        decreases view_exprs(es@), 0int, 0int,
    {
        let ghost esv = view_exprs(es@);
        proof {
            lemma_view_exprs(es@);
        }
        let mut k: usize = 0;
        while k < es.len()
            invariant
                k <= es.len(),
                esv == view_exprs(es@),
                esv.len() == es.len(),
                forall|i: int| 0 <= i < es.len() ==> #[trigger] esv[i] == es@[i]@,
                block(old(self)@, esv, 0) == block(self@, esv, k as int),
            decreases es.len() - k,
        {
            assert(esv[k as int] == es@[k as int]@);
            if is_comment(&es[k]) {
                k = k + 1;
            } else {
                match self.compile_expr(&es[k]) {
                    Ok(()) => {},
                    Err(err) => {
                        return Err(err);
                    },
                }
                if has_value_after(es, k + 1) {
                    self.emit_op(Opcode::Drop);
                }
                k = k + 1;
            }
        }
        Ok(())
    }

    /// The expressions `es[from..to]`, all results kept.
    fn compile_range(&mut self, es: &Vec<Expression>, from: usize, to: usize) -> (r: Result<
        (),
        CompileError,
    >)
        requires
            from <= to <= es.len(),
        ensures
            outcome(r, final(self)@) == range(old(self)@, view_exprs(es@), from as int, to as int),
        decreases view_exprs(es@), 0int, 0int,
    {
        let ghost esv = view_exprs(es@);
        proof {
            lemma_view_exprs(es@);
        }
        let mut k: usize = from;
        while k < to
            invariant
                from <= k <= to <= es.len(),
                esv == view_exprs(es@),
                esv.len() == es.len(),
                forall|i: int| 0 <= i < es.len() ==> #[trigger] esv[i] == es@[i]@,
                range(old(self)@, esv, from as int, to as int) == range(self@, esv, k as int, to as int),
            decreases to - k,
        {
            assert(esv[k as int] == es@[k as int]@);
            match self.compile_expr(&es[k]) {
                Ok(()) => {},
                Err(err) => {
                    return Err(err);
                },
            }
            k = k + 1;
        }
        Ok(())
    }

    /// Every expression of `es`, each result converted to `i32`.
    fn compile_truncated(&mut self, es: &Vec<Expression>) -> (r: Result<(), CompileError>)
        ensures
            outcome(r, final(self)@) == truncated(old(self)@, view_exprs(es@), 0),
        decreases view_exprs(es@), 0int, 0int,
    {
        let ghost esv = view_exprs(es@);
        proof {
            lemma_view_exprs(es@);
        }
        let mut k: usize = 0;
        while k < es.len()
            invariant
                k <= es.len(),
                esv == view_exprs(es@),
                esv.len() == es.len(),
                forall|i: int| 0 <= i < es.len() ==> #[trigger] esv[i] == es@[i]@,
                truncated(old(self)@, esv, 0) == truncated(self@, esv, k as int),
            decreases es.len() - k,
        {
            assert(esv[k as int] == es@[k as int]@);
            match self.compile_expr(&es[k]) {
                Ok(()) => {},
                Err(err) => {
                    return Err(err);
                },
            }
            self.emit_op(Opcode::I32TruncSF64);
            k = k + 1;
        }
        Ok(())
    }

    /// The bindings of a `let`: each value is stored in a new local named
    /// after the binding.
    fn compile_bindings(&mut self, bs: &Vec<(String, Expression)>) -> (r: Result<(), CompileError>)
        ensures
            outcome(r, final(self)@) == bindings(old(self)@, view_bindings(bs@), 0),
        decreases view_bindings(bs@), 0int, 0int,
    {
        let ghost bsv = view_bindings(bs@);
        proof {
            lemma_view_bindings(bs@);
        }
        let mut k: usize = 0;
        while k < bs.len()
            invariant
                k <= bs.len(),
                bsv == view_bindings(bs@),
                bsv.len() == bs.len(),
                forall|i: int|
                    0 <= i < bs.len() ==> #[trigger] bsv[i] == (bs@[i].0@, bs@[i].1@),
                bindings(old(self)@, bsv, 0) == bindings(self@, bsv, k as int),
            decreases bs.len() - k,
        {
            assert(bsv[k as int] == (bs@[k as int].0@, bs@[k as int].1@));
            assert(decreases_to!(bsv => bsv[k as int].1));
            match self.compile_expr(&bs[k].1) {
                Ok(()) => {},
                Err(err) => {
                    return Err(err);
                },
            }
            let ghost st1 = self@;
            self.local_types.push(DataType::F64);
            let ts = vec![Token::Op(Opcode::LocalSet), Token::UInt(self.locals.len() as u32)];
            assert(tokens_view(ts@) =~= seq![op(Opcode::LocalSet), TokenV::UInt(st1.locals.len() as u32)]);
            self.emit_all(ts);
            self.locals.push(bs[k].0.clone());
            proof {
                assert(strs(self.locals@) =~= st1.locals.push(bsv[k as int].0));
            }
            k = k + 1;
        }
        Ok(())
    }

    /// The operands of an arithmetic operator.
    fn compile_arithmetic(&mut self, name: &String, ps: &Vec<Expression>) -> (r: Result<
        (),
        CompileError,
    >)
        ensures
            outcome(r, final(self)@) == arithmetic(old(self)@, name@, view_exprs(ps@), 0),
        decreases view_exprs(ps@), 0int, 0int,
    {
        let ghost psv = view_exprs(ps@);
        proof {
            lemma_view_exprs(ps@);
        }
        let rem = str_is(name, "%");
        let mut k: usize = 0;
        while k < ps.len()
            invariant
                k <= ps.len(),
                psv == view_exprs(ps@),
                psv.len() == ps.len(),
                forall|i: int| 0 <= i < ps.len() ==> #[trigger] psv[i] == ps@[i]@,
                rem == (name@ == "%"@),
                arithmetic(old(self)@, name@, psv, 0) == arithmetic(self@, name@, psv, k as int),
            decreases ps.len() - k,
        {
            assert(psv[k as int] == ps@[k as int]@);
            match self.compile_expr(&ps[k]) {
                Ok(()) => {},
                Err(err) => {
                    return Err(err);
                },
            }
            if rem {
                self.emit_op(Opcode::I64TruncSF64);
            }
            if k != 0 {
                let ts = arithmetic_tokens(name);
                self.emit_all(ts);
            }
            k = k + 1;
        }
        Ok(())
    }

    /// `(# f e1 e2 ...)`: the elements folded through calls of `f`.
    fn compile_populate(&mut self, name: &String, es: &Vec<Expression>) -> (r: Result<
        (),
        CompileError,
    >)
        ensures
            outcome(r, final(self)@) == populate(old(self)@, name@, view_exprs(es@)),
        decreases view_exprs(es@), 2int, 0int,
    {
        let (v, kind) = match self.resolve(name) {
            Ok(x) => x,
            Err(err) => {
                return Err(err);
            },
        };
        let ghost st = self@;
        let di = find_def(&self.defs, name);
        self.local_types.push(DataType::F64);
        self.locals.push(String::new());
        let slot = (self.locals.len() - 1) as i32;
        proof {
            assert(strs(self.locals@) =~= st.locals.push(seq![]));
            assert(self@ =~= CState {
                local_types: st.local_types.push(DataType::F64),
                locals: st.locals.push(seq![]),
                ..st
            });
        }
        match kind {
            Kind::Function => match di {
                None => Err(CompileError::PopulateImport(name.clone())),
                Some(i) => {
                    let params = self.defs[i].1;
                    if params < 2 {
                        return Err(CompileError::PopulateArity(name.clone()));
                    }
                    let size = params - 1;
                    let n = es.len();
                    let count = if n % size == 0 {
                        n / size
                    } else {
                        assert(n / size <= n / 2) by (nonlinear_arith)
                            requires
                                size >= 2,
                                n >= 0,
                        ;
                        n / size + 1
                    };
                    proof {
                        lemma_view_exprs(es@);
                    }
                    let target = int_token_of(&v);
                    self.compile_chunks(es, size, count, &target, slot)
                },
            },
            _ => Err(CompileError::PopulateNonFunction(name.clone())),
        }
    }

    /// The chunks of a populate, the last chunk first.
    fn compile_chunks(
        &mut self,
        es: &Vec<Expression>,
        size: usize,
        count: usize,
        target: &Token,
        slot: i32,
    ) -> (r: Result<(), CompileError>)
        requires
            size > 0,
            count == chunk_count(es.len() as int, size as int),
        ensures
            outcome(r, final(self)@) == populate_chunks(
                old(self)@,
                view_exprs(es@),
                size as int,
                count as int,
                0,
                target@,
                slot,
            ),
        decreases view_exprs(es@), 1int, 0int,
    {
        let ghost esv = view_exprs(es@);
        proof {
            lemma_view_exprs(es@);
        }
        let n = es.len();
        let mut j: usize = 0;
        while j < count
            invariant
                j <= count,
                size > 0,
                n == es.len(),
                count == chunk_count(n as int, size as int),
                esv == view_exprs(es@),
                esv.len() == es.len(),
                populate_chunks(old(self)@, esv, size as int, count as int, 0, target@, slot)
                    == populate_chunks(self@, esv, size as int, count as int, j as int, target@, slot),
            decreases count - j,
        {
            let c = count - 1 - j;
            proof {
                lemma_chunk_start(n as int, size as int, c as int);
            }
            let from = c * size;
            let to = if size < n - from {
                from + size
            } else {
                n
            };
            match self.compile_range(es, from, to) {
                Ok(()) => {},
                Err(err) => {
                    return Err(err);
                },
            }
            if j == 0 && j != count - 1 {
                let ts = vec![
                    Token::Op(Opcode::F64Const),
                    Token::F64(Num::Int(0)),
                    Token::Op(Opcode::Call),
                    copy_token(target),
                    Token::Op(Opcode::LocalSet),
                    Token::Int(slot),
                ];
                assert(tokens_view(ts@) =~= f64_const(0) + seq![
                    op(Opcode::Call),
                    target@,
                    op(Opcode::LocalSet),
                    TokenV::Int(slot),
                ]);
                self.emit_all(ts);
            } else if j == count - 1 {
                let ts = vec![
                    Token::Op(Opcode::LocalGet),
                    Token::Int(slot),
                    Token::Op(Opcode::Call),
                    copy_token(target),
                ];
                assert(tokens_view(ts@) =~= seq![
                    op(Opcode::LocalGet),
                    TokenV::Int(slot),
                    op(Opcode::Call),
                    target@,
                ]);
                self.emit_all(ts);
                return Ok(());
            } else {
                let ts = vec![
                    Token::Op(Opcode::LocalGet),
                    Token::Int(slot),
                    Token::Op(Opcode::Call),
                    copy_token(target),
                    Token::Op(Opcode::LocalSet),
                    Token::Int(slot),
                ];
                assert(tokens_view(ts@) =~= seq![
                    op(Opcode::LocalGet),
                    TokenV::Int(slot),
                    op(Opcode::Call),
                    target@,
                    op(Opcode::LocalSet),
                    TokenV::Int(slot),
                ]);
                self.emit_all(ts);
            }
            j = j + 1;
        }
        Ok(())
    }

    /// A call by name: the built-in forms, the operators, or a call of the
    /// function the name resolves to.
    fn compile_call(&mut self, name: &String, ps: &Vec<Expression>) -> (r: Result<(), CompileError>)
        ensures
            outcome(r, final(self)@) == call(old(self)@, name@, view_exprs(ps@)),
        decreases view_exprs(ps@), 3int, 0int,
    {
        proof {
            lemma_view_exprs(ps@);
        }
        if str_is(name, "do") {
            if ps.len() == 0 {
                Err(CompileError::UselessDo)
            } else {
                self.compile_block(ps)
            }
        } else if str_is(name, "call") {
            self.compile_call_indirect(ps)
        } else if str_is(name, "if") {
            self.compile_if(ps)
        } else if str_is(name, "mem") || str_is(name, "mem_byte") || str_is(name, "mem_heap_start")
            || str_is(name, "mem_heap_end") || str_is(name, "mem_num") {
            self.compile_memory(name, ps)
        } else if is_comparison_name(name) || is_bitwise_name(name) {
            self.compile_binary(name, ps)
        } else if is_arithmetic_name(name) {
            if ps.len() < 2 {
                Err(CompileError::NeedsAtLeastTwoParameters(name.clone()))
            } else {
                self.compile_arithmetic(name, ps)
            }
        } else {
            self.compile_logic_or_user_call(name, ps)
        }
    }

    /// `mem`, `mem_byte`, `mem_heap_start`, `mem_heap_end` and `mem_num`.
    fn compile_memory(&mut self, name: &String, ps: &Vec<Expression>) -> (r: Result<(), CompileError>)
        requires
            name@ == "mem"@ || name@ == "mem_byte"@ || name@ == "mem_heap_start"@ || name@
                == "mem_heap_end"@ || name@ == "mem_num"@,
            name@ != "do"@,
            name@ != "call"@,
            name@ != "if"@,
        ensures
            outcome(r, final(self)@) == call(old(self)@, name@, view_exprs(ps@)),
        decreases view_exprs(ps@), 2int, 1int,
    {
        proof {
            lemma_view_exprs(ps@);
        }
        if str_is(name, "mem") {
            if ps.len() == 1 || ps.len() == 2 {
                self.compile_mem_num(ps)
            } else {
                Err(CompileError::MemArity)
            }
        } else if str_is(name, "mem_byte") {
            if ps.len() == 1 {
                assert(view_exprs(ps@)[0] == ps@[0]@);
                match self.compile_expr(&ps[0]) {
                    Ok(()) => {
                        let ts = vec![
                            Token::Op(Opcode::I32TruncSF64),
                            Token::Op(Opcode::I32Load8U),
                            Token::Int(0),
                            Token::Int(0),
                            Token::Op(Opcode::F64ConvertSI32),
                        ];
                        assert(tokens_view(ts@) =~= seq![
                            op(Opcode::I32TruncSF64),
                            op(Opcode::I32Load8U),
                            TokenV::Int(0),
                            TokenV::Int(0),
                            op(Opcode::F64ConvertSI32),
                        ]);
                        self.emit_all(ts);
                        Ok(())
                    },
                    Err(err) => Err(err),
                }
            } else if ps.len() == 2 {
                match self.compile_truncated(ps) {
                    Ok(()) => {
                        let ts = vec![
                            Token::Op(Opcode::I32Store8),
                            Token::Int(0),
                            Token::Int(0),
                            Token::Op(Opcode::F64Const),
                            Token::F64(Num::Int(0)),
                        ];
                        assert(tokens_view(ts@) =~= seq![
                            op(Opcode::I32Store8),
                            TokenV::Int(0),
                            TokenV::Int(0),
                        ] + f64_const(0));
                        self.emit_all(ts);
                        Ok(())
                    },
                    Err(err) => Err(err),
                }
            } else {
                Err(CompileError::MemByteArity)
            }
        } else if str_is(name, "mem_heap_start") {
            if ps.len() == 0 {
                let ts = vec![
                    Token::Op(Opcode::GlobalGet),
                    Token::Int(0),
                    Token::Op(Opcode::F64ConvertSI32),
                ];
                assert(tokens_view(ts@) =~= seq![
                    op(Opcode::GlobalGet),
                    TokenV::Int(0),
                    op(Opcode::F64ConvertSI32),
                ]);
                self.emit_all(ts);
                Ok(())
            } else {
                Err(CompileError::MemHeapStartArity)
            }
        } else if str_is(name, "mem_heap_end") {
            if ps.len() == 0 {
                let ts = vec![
                    Token::Op(Opcode::GlobalGet),
                    Token::Int(1),
                    Token::Op(Opcode::F64ConvertSI32),
                ];
                assert(tokens_view(ts@) =~= seq![
                    op(Opcode::GlobalGet),
                    TokenV::Int(1),
                    op(Opcode::F64ConvertSI32),
                ]);
                self.emit_all(ts);
                Ok(())
            } else if ps.len() == 1 {
                assert(view_exprs(ps@)[0] == ps@[0]@);
                match self.compile_expr(&ps[0]) {
                    Ok(()) => {
                        let ts = vec![
                            Token::Op(Opcode::I32TruncSF64),
                            Token::Op(Opcode::GlobalSet),
                            Token::Int(1),
                            Token::Op(Opcode::F64Const),
                            Token::F64(Num::Int(0)),
                        ];
                        assert(tokens_view(ts@) =~= seq![
                            op(Opcode::I32TruncSF64),
                            op(Opcode::GlobalSet),
                            TokenV::Int(1),
                        ] + f64_const(0));
                        self.emit_all(ts);
                        Ok(())
                    },
                    Err(err) => Err(err),
                }
            } else {
                Err(CompileError::MemHeapEndArity)
            }
        } else {
            self.compile_mem_num(ps)
        }
    }

    /// A comparison or bitwise operator on two operands.
    fn compile_binary(&mut self, name: &String, ps: &Vec<Expression>) -> (r: Result<(), CompileError>)
        requires
            is_comparison(name@) || is_bitwise(name@),
            name@ != "do"@,
            name@ != "call"@,
            name@ != "if"@,
            name@ != "mem"@,
            name@ != "mem_byte"@,
            name@ != "mem_heap_start"@,
            name@ != "mem_heap_end"@,
            name@ != "mem_num"@,
        ensures
            outcome(r, final(self)@) == call(old(self)@, name@, view_exprs(ps@)),
        decreases view_exprs(ps@), 2int, 1int,
    {
        proof {
            lemma_view_exprs(ps@);
        }
        if is_comparison_name(name) {
            if ps.len() != 2 {
                Err(CompileError::NeedsTwoParameters(name.clone()))
            } else {
                match self.compile_range(ps, 0, 2) {
                    Ok(()) => {
                        let ts = vec![
                            Token::Op(comparison_opcode(name)),
                            Token::Op(Opcode::F64ConvertSI32),
                        ];
                        assert(tokens_view(ts@) =~= seq![
                            op(comparison_op(name@)),
                            op(Opcode::F64ConvertSI32),
                        ]);
                        self.emit_all(ts);
                        Ok(())
                    },
                    Err(err) => Err(err),
                }
            }
        } else {
            if ps.len() != 2 {
                Err(CompileError::NeedsTwoParameters(name.clone()))
            } else {
                assert(view_exprs(ps@)[0] == ps@[0]@);
                assert(view_exprs(ps@)[1] == ps@[1]@);
                match self.compile_expr(&ps[0]) {
                    Ok(()) => {},
                    Err(err) => {
                        return Err(err);
                    },
                }
                self.emit_op(Opcode::I64TruncSF64);
                match self.compile_expr(&ps[1]) {
                    Ok(()) => {},
                    Err(err) => {
                        return Err(err);
                    },
                }
                let ts = vec![
                    Token::Op(Opcode::I64TruncSF64),
                    Token::Op(bitwise_opcode(name)),
                    Token::Op(Opcode::F64ConvertSI64),
                ];
                assert(tokens_view(ts@) =~= seq![
                    op(Opcode::I64TruncSF64),
                    op(bitwise_op(name@)),
                    op(Opcode::F64ConvertSI64),
                ]);
                self.emit_all(ts);
                Ok(())
            }
        }
    }

    /// `call(fn(..)->.., f, x...)`: a call through the function table.
    fn compile_call_indirect(&mut self, ps: &Vec<Expression>) -> (r: Result<(), CompileError>)
        ensures
            outcome(r, final(self)@) == call_indirect(old(self)@, view_exprs(ps@)),
        decreases view_exprs(ps@), 2int, 0int,
    {
        proof {
            lemma_view_exprs(ps@);
        }
        if ps.len() < 2 {
            return Err(CompileError::CallArity);
        }
        assert(view_exprs(ps@)[0] == ps@[0]@);
        assert(view_exprs(ps@)[1] == ps@[1]@);
        match &ps[0] {
            Expression::FnSig(sig) => {
                match self.compile_range(ps, 2, ps.len()) {
                    Ok(()) => {},
                    Err(err) => {
                        return Err(err);
                    },
                }
                match self.compile_expr(&ps[1]) {
                    Ok(()) => {},
                    Err(err) => {
                        return Err(err);
                    },
                }
                self.emit_op(Opcode::I32TruncSF64);
                let t = self.add_type(&sig.inputs, sig.output);
                let ts = vec![Token::Op(Opcode::CallIndirect), Token::UInt(t as u32), Token::Int(0)];
                assert(tokens_view(ts@) =~= seq![
                    op(Opcode::CallIndirect),
                    TokenV::UInt(t as u32),
                    TokenV::Int(0),
                ]);
                self.emit_all(ts);
                if sig.output.is_none() {
                    self.emit_f64_int(0);
                }
                Ok(())
            },
            _ => Err(CompileError::CallWithoutSignature),
        }
    }

    /// `if(c, a)` and `if(c, a, b)`.
    fn compile_if(&mut self, ps: &Vec<Expression>) -> (r: Result<(), CompileError>)
        ensures
            outcome(r, final(self)@) == if_call(old(self)@, view_exprs(ps@)),
        decreases view_exprs(ps@), 2int, 0int,
    {
        proof {
            lemma_view_exprs(ps@);
        }
        if self.recur_depth == 0xffff_ffffu32 {
            return Err(CompileError::TooManyIfs);
        }
        let depth = self.recur_depth;
        if ps.len() != 2 && ps.len() != 3 {
            return Err(CompileError::IfArity);
        }
        assert(view_exprs(ps@)[0] == ps@[0]@);
        assert(view_exprs(ps@)[1] == ps@[1]@);
        match self.compile_expr(&ps[0]) {
            Ok(()) => {},
            Err(err) => {
                return Err(err);
            },
        }
        let ts = vec![
            Token::Op(Opcode::F64Const),
            Token::F64(Num::Int(0)),
            Token::Op(Opcode::F64Eq),
            Token::Op(Opcode::I32Const),
            Token::Int(0),
            Token::Op(Opcode::I32Eq),
            Token::Op(Opcode::If),
            Token::Op(Opcode::F64),
        ];
        assert(tokens_view(ts@) =~= condition_test());
        self.emit_all(ts);
        self.recur_depth = depth + 1;
        match self.compile_expr(&ps[1]) {
            Ok(()) => {},
            Err(err) => {
                return Err(err);
            },
        }
        if ps.len() == 2 {
            let ts = vec![
                Token::Op(Opcode::Else),
                Token::Op(Opcode::F64Const),
                Token::F64(Num::Int(0)),
                Token::Op(Opcode::End),
            ];
            assert(tokens_view(ts@) =~= seq![op(Opcode::Else)] + f64_const(0) + seq![op(Opcode::End)]);
            self.emit_all(ts);
            self.recur_depth = depth;
            Ok(())
        } else {
            assert(view_exprs(ps@)[2] == ps@[2]@);
            self.emit_op(Opcode::Else);
            match self.compile_expr(&ps[2]) {
                Ok(()) => {},
                Err(err) => {
                    return Err(err);
                },
            }
            self.emit_op(Opcode::End);
            self.recur_depth = depth;
            Ok(())
        }
    }

    /// `mem_num(a)` loads a number; `mem_num(a, x)` stores one.
    fn compile_mem_num(&mut self, ps: &Vec<Expression>) -> (r: Result<(), CompileError>)
        ensures
            outcome(r, final(self)@) == mem_num(old(self)@, view_exprs(ps@)),
        decreases view_exprs(ps@), 2int, 0int,
    {
        proof {
            lemma_view_exprs(ps@);
        }
        if ps.len() == 1 {
            self.compile_load(ps)
        } else if ps.len() == 2 {
            self.compile_store(ps)
        } else {
            Err(CompileError::MemNumArity)
        }
    }

    /// A number loaded from an address.
    fn compile_load(&mut self, ps: &Vec<Expression>) -> (r: Result<(), CompileError>)
        requires
            ps.len() == 1,
        ensures
            outcome(r, final(self)@) == mem_num(old(self)@, view_exprs(ps@)),
        decreases view_exprs(ps@), 1int, 0int,
    {
        proof {
            lemma_view_exprs(ps@);
        }
        assert(view_exprs(ps@)[0] == ps@[0]@);
        match self.compile_expr(&ps[0]) {
            Ok(()) => {},
            Err(err) => {
                return Err(err);
            },
        }
        let ts = vec![
            Token::Op(Opcode::I32TruncSF64),
            Token::Op(Opcode::F64Load),
            Token::Int(0),
            Token::Int(0),
        ];
        assert(tokens_view(ts@) =~= seq![
            op(Opcode::I32TruncSF64),
            op(Opcode::F64Load),
            TokenV::Int(0),
            TokenV::Int(0),
        ]);
        self.emit_all(ts);
        Ok(())
    }

    /// A number stored at an address; the value is 0.
    fn compile_store(&mut self, ps: &Vec<Expression>) -> (r: Result<(), CompileError>)
        requires
            ps.len() == 2,
        ensures
            outcome(r, final(self)@) == mem_num(old(self)@, view_exprs(ps@)),
        decreases view_exprs(ps@), 1int, 0int,
    {
        proof {
            lemma_view_exprs(ps@);
        }
        assert(view_exprs(ps@)[0] == ps@[0]@);
        assert(view_exprs(ps@)[1] == ps@[1]@);
        match self.compile_expr(&ps[0]) {
            Ok(()) => {},
            Err(err) => {
                return Err(err);
            },
        }
        self.emit_op(Opcode::I32TruncSF64);
        match self.compile_expr(&ps[1]) {
            Ok(()) => {},
            Err(err) => {
                return Err(err);
            },
        }
        let ts = vec![
            Token::Op(Opcode::F64Store),
            Token::Int(0),
            Token::Int(0),
            Token::Op(Opcode::F64Const),
            Token::F64(Num::Int(0)),
        ];
        assert(tokens_view(ts@) =~= seq![
            op(Opcode::F64Store),
            TokenV::Int(0),
            TokenV::Int(0),
        ] + f64_const(0));
        self.emit_all(ts);
        Ok(())
    }

    /// `!`, `~`, `and`, `or`, and otherwise a call of the function that the
    /// name resolves to.
    fn compile_logic_or_user_call(&mut self, name: &String, ps: &Vec<Expression>) -> (r: Result<
        (),
        CompileError,
    >)
        ensures
            outcome(r, final(self)@) == logic_or_user_call(old(self)@, name@, view_exprs(ps@)),
        decreases view_exprs(ps@), 2int, 0int,
    {
        if str_is(name, "!") || str_is(name, "~") {
            self.compile_unary(name, ps)
        } else if str_is(name, "and") || str_is(name, "or") {
            self.compile_logic(name, ps)
        } else {
            self.compile_user_call(name, ps)
        }
    }

    /// `!x` (whether `x` is 0) and `~x` (the bits of `x` flipped).
    fn compile_unary(&mut self, name: &String, ps: &Vec<Expression>) -> (r: Result<(), CompileError>)
        requires
            name@ == "!"@ || name@ == "~"@,
        ensures
            outcome(r, final(self)@) == logic_or_user_call(old(self)@, name@, view_exprs(ps@)),
        decreases view_exprs(ps@), 1int, 0int,
    {
        proof {
            lemma_view_exprs(ps@);
        }
        if ps.len() != 1 {
            return Err(CompileError::NeedsOneParameter(name.clone()));
        }
        assert(view_exprs(ps@)[0] == ps@[0]@);
        match self.compile_expr(&ps[0]) {
            Ok(()) => {},
            Err(err) => {
                return Err(err);
            },
        }
        if str_is(name, "!") {
            let ts = vec![
                Token::Op(Opcode::F64Const),
                Token::F64(Num::Int(0)),
                Token::Op(Opcode::F64Eq),
                Token::Op(Opcode::F64ConvertSI32),
            ];
            assert(tokens_view(ts@) =~= f64_const(0) + seq![
                op(Opcode::F64Eq),
                op(Opcode::F64ConvertSI32),
            ]);
            self.emit_all(ts);
        } else {
            let ts = vec![
                Token::Op(Opcode::I64TruncSF64),
                Token::Op(Opcode::I64Const),
                Token::Int(-1i32),
                Token::Op(Opcode::I64Xor),
                Token::Op(Opcode::F64ConvertSI64),
            ];
            assert(tokens_view(ts@) =~= seq![
                op(Opcode::I64TruncSF64),
                op(Opcode::I64Const),
                TokenV::Int(-1i32),
                op(Opcode::I64Xor),
                op(Opcode::F64ConvertSI64),
            ]);
            self.emit_all(ts);
        }
        Ok(())
    }

    /// `and(x, y)` and `or(x, y)`: whether both, or either, are not 0.
    fn compile_logic(&mut self, name: &String, ps: &Vec<Expression>) -> (r: Result<(), CompileError>)
        requires
            name@ == "and"@ || name@ == "or"@,
            name@ != "!"@,
            name@ != "~"@,
        ensures
            outcome(r, final(self)@) == logic_or_user_call(old(self)@, name@, view_exprs(ps@)),
        decreases view_exprs(ps@), 1int, 0int,
    {
        proof {
            lemma_view_exprs(ps@);
        }
        if ps.len() != 2 {
            return Err(CompileError::NeedsTwoParameters(name.clone()));
        }
        assert(view_exprs(ps@)[0] == ps@[0]@);
        assert(view_exprs(ps@)[1] == ps@[1]@);
        let is_and = str_is(name, "and");
        match self.compile_expr(&ps[0]) {
            Ok(()) => {},
            Err(err) => {
                return Err(err);
            },
        }
        if is_and {
            let ts = vec![
                Token::Op(Opcode::I64TruncSF64),
                Token::Op(Opcode::I64Const),
                Token::Int(0),
                Token::Op(Opcode::I64Ne),
            ];
            assert(tokens_view(ts@) =~= seq![
                op(Opcode::I64TruncSF64),
                op(Opcode::I64Const),
                TokenV::Int(0),
                op(Opcode::I64Ne),
            ]);
            self.emit_all(ts);
        } else {
            self.emit_op(Opcode::I64TruncSF64);
        }
        match self.compile_expr(&ps[1]) {
            Ok(()) => {},
            Err(err) => {
                return Err(err);
            },
        }
        if is_and {
            let ts = vec![
                Token::Op(Opcode::I64TruncSF64),
                Token::Op(Opcode::I64Const),
                Token::Int(0),
                Token::Op(Opcode::I64Ne),
                Token::Op(Opcode::I32And),
                Token::Op(Opcode::F64ConvertSI32),
            ];
            assert(tokens_view(ts@) =~= seq![
                op(Opcode::I64TruncSF64),
                op(Opcode::I64Const),
                TokenV::Int(0),
                op(Opcode::I64Ne),
                op(Opcode::I32And),
                op(Opcode::F64ConvertSI32),
            ]);
            self.emit_all(ts);
        } else {
            let ts = vec![
                Token::Op(Opcode::I64TruncSF64),
                Token::Op(Opcode::I64Or),
                Token::Op(Opcode::I64Const),
                Token::Int(0),
                Token::Op(Opcode::I64Ne),
                Token::Op(Opcode::F64ConvertSI32),
            ];
            assert(tokens_view(ts@) =~= seq![
                op(Opcode::I64TruncSF64),
                op(Opcode::I64Or),
                op(Opcode::I64Const),
                TokenV::Int(0),
                op(Opcode::I64Ne),
                op(Opcode::F64ConvertSI32),
            ]);
            self.emit_all(ts);
        }
        Ok(())
    }

    /// A call of the function that the name resolves to, after its
    /// arguments.
    fn compile_user_call(&mut self, name: &String, ps: &Vec<Expression>) -> (r: Result<
        (),
        CompileError,
    >)
        requires
            name@ != "!"@,
            name@ != "~"@,
            name@ != "and"@,
            name@ != "or"@,
        ensures
            outcome(r, final(self)@) == logic_or_user_call(old(self)@, name@, view_exprs(ps@)),
        decreases view_exprs(ps@), 1int, 0int,
    {
        proof {
            lemma_view_exprs(ps@);
        }
        let (h, _) = match self.resolve(name) {
            Ok(x) => x,
            Err(err) => {
                return Err(err);
            },
        };
        match self.compile_range(ps, 0, ps.len()) {
            Ok(()) => {},
            Err(err) => {
                return Err(err);
            },
        }
        let ts = vec![Token::Op(Opcode::Call), int_token_of(&h)];
        assert(tokens_view(ts@) =~= seq![op(Opcode::Call), int_token(h@)]);
        self.emit_all(ts);
        Ok(())
    }

    /// The value of a global.
    fn global_value(&mut self, g: &GlobalValue) -> (r: Result<Num, CompileError>)
        ensures
            valued(r, final(self)@) == global_value(old(self)@, g@),
        decreases g@, 0int,
    {
        match g {
            GlobalValue::Symbol(t) => {
                let v = self.symbol_value(t);
                Ok(Num::Int(v))
            },
            GlobalValue::Number(n) => Ok(Num::Lit(copy_literal(n))),
            GlobalValue::Text(t) => match self.text_data(t) {
                Ok(p) => Ok(Num::Int(p)),
                Err(err) => Err(err),
            },
            GlobalValue::Data(vs) => {
                let ns = match self.global_values(vs) {
                    Ok(ns) => ns,
                    Err(err) => {
                        return Err(err);
                    },
                };
                let items = number_items(&ns);
                match self.create_data(items) {
                    Ok(p) => Ok(Num::Int(p)),
                    Err(err) => Err(err),
                }
            },
            GlobalValue::Identifier(t) => match self.resolve(t) {
                Ok((v, _)) => Ok(v),
                Err(err) => Err(err),
            },
            GlobalValue::Struct(s) => {
                let mut ns = match self.struct_values(&s.members) {
                    Ok(ns) => ns,
                    Err(err) => {
                        return Err(err);
                    },
                };
                let ghost before = nums_view(ns@);
                ns.push(Num::Int(0));
                assert(nums_view(ns@) =~= before.push(NumV::Int(0)));
                let items = number_items(&ns);
                match self.create_data(items) {
                    Ok(p) => Ok(Num::Int(p)),
                    Err(err) => Err(err),
                }
            },
        }
    }

    /// The values of `vs`, in order.
    fn global_values(&mut self, vs: &Vec<GlobalValue>) -> (r: Result<Vec<Num>, CompileError>)
        ensures
            valued_all(r, final(self)@) == global_values_from(old(self)@, view_globals(vs@), 0, seq![]),
        decreases view_globals(vs@), 1int,
    {
        let ghost gv = view_globals(vs@);
        proof {
            lemma_view_globals(vs@);
            assert(nums_view(Seq::<Num>::empty()) =~= seq![]);
        }
        let mut acc: Vec<Num> = Vec::new();
        let mut k: usize = 0;
        while k < vs.len()
            invariant
                k <= vs.len(),
                gv == view_globals(vs@),
                gv.len() == vs.len(),
                forall|i: int| 0 <= i < vs.len() ==> #[trigger] gv[i] == vs@[i]@,
                global_values_from(old(self)@, gv, 0, seq![]) == global_values_from(
                    self@,
                    gv,
                    k as int,
                    nums_view(acc@),
                ),
            decreases vs.len() - k,
        {
            assert(gv[k as int] == vs@[k as int]@);
            let v = match self.global_value(&vs[k]) {
                Ok(v) => v,
                Err(err) => {
                    return Err(err);
                },
            };
            let ghost before = nums_view(acc@);
            let ghost vv = v@;
            acc.push(v);
            assert(nums_view(acc@) =~= before.push(vv));
            k = k + 1;
        }
        Ok(acc)
    }

    /// A struct's layout: each member's symbol and the address of an empty
    /// text.
    fn struct_values(&mut self, ms: &Vec<StructMember>) -> (r: Result<Vec<Num>, CompileError>)
        ensures
            valued_all(r, final(self)@) == crate::semantics::struct_values(
                old(self)@,
                member_names(ms@),
                0,
                seq![],
            ),
    {
        let ghost mv = member_names(ms@);
        proof {
            lemma_member_names(ms@);
            assert(nums_view(Seq::<Num>::empty()) =~= seq![]);
        }
        let mut acc: Vec<Num> = Vec::new();
        let mut k: usize = 0;
        while k < ms.len()
            invariant
                k <= ms.len(),
                mv == member_names(ms@),
                mv.len() == ms.len(),
                forall|i: int| 0 <= i < ms.len() ==> #[trigger] mv[i] == ms@[i].name@,
                crate::semantics::struct_values(old(self)@, mv, 0, seq![])
                    == crate::semantics::struct_values(self@, mv, k as int, nums_view(acc@)),
            decreases ms.len() - k,
        {
            assert(mv[k as int] == ms@[k as int].name@);
            let sym = self.symbol_value(&ms[k].name);
            let empty = String::new();
            assert(empty@ =~= seq![]);
            let p = match self.text_data(&empty) {
                Ok(p) => p,
                Err(err) => {
                    return Err(err);
                },
            };
            let ghost before = nums_view(acc@);
            acc.push(Num::Int(sym));
            acc.push(Num::Int(p));
            assert(nums_view(acc@) =~= before.push(NumV::Int(sym as int)).push(NumV::Int(p as int)));
            k = k + 1;
        }
        Ok(acc)
    }

    /// The globals of the program, in order: each name is declared, then
    /// its value computed.
    fn compile_globals(&mut self, tops: &Vec<TopLevelOperation>) -> (r: Result<(), CompileError>)
        ensures
            outcome(r, final(self)@) == globals_from(old(self)@, view_tops(tops@), 0),
    {
        let ghost tv = view_tops(tops@);
        proof {
            lemma_view_tops(tops@);
        }
        let mut k: usize = 0;
        while k < tops.len()
            invariant
                k <= tops.len(),
                tv == view_tops(tops@),
                tv.len() == tops.len(),
                forall|i: int| 0 <= i < tops.len() ==> #[trigger] tv[i] == tops@[i]@,
                globals_from(old(self)@, tv, 0) == globals_from(self@, tv, k as int),
            decreases tops.len() - k,
        {
            assert(tv[k as int] == tops@[k as int]@);
            match &tops[k] {
                TopLevelOperation::DefineGlobal(g) => {
                    let ghost st = self@;
                    self.global_names.push(g.name.clone());
                    proof {
                        assert(strs(self.global_names@) =~= st.global_names.push(g.name@));
                        assert(self@ =~= CState {
                            global_names: st.global_names.push(g.name@),
                            ..st
                        });
                    }
                    let v = match self.global_value(&g.value) {
                        Ok(v) => v,
                        Err(err) => {
                            return Err(err);
                        },
                    };
                    let ghost st2 = self@;
                    let ghost vv = v@;
                    self.global_values.push(v);
                    proof {
                        assert(nums_view(self.global_values@) =~= st2.global_values.push(vv));
                        assert(self@ =~= CState {
                            global_values: st2.global_values.push(vv),
                            ..st2
                        });
                    }
                },
                _ => {},
            }
            k = k + 1;
        }
        Ok(())
    }

    /// The code of a function, which is then made into a function of the
    /// module.
    fn compile_function(&mut self, f: &FunctionDefinition) -> (r: Result<Function, CompileError>)
        ensures
            match r {
                Ok(func) => function_code(old(self)@, view_function(*f)) == Ok::<
                    CState,
                    CompileErrorV,
                >(final(self)@) && function_view(func) == function_of(
                    final(self)@,
                    view_function(*f),
                ),
                Err(e) => function_code(old(self)@, view_function(*f)) == Err::<
                    CState,
                    CompileErrorV,
                >(e@),
            },
    {
        let ghost st = self@;
        self.locals = copy_strings(&f.params);
        self.code = Vec::new();
        self.local_types = Vec::new();
        proof {
            lemma_strings_view(f.params@);
            assert(tokens_view(self.code@) =~= seq![]);
            assert(self@ =~= CState {
                locals: strings_view(f.params@),
                code: seq![],
                local_types: seq![],
                ..st
            });
        }
        match self.compile_block(&f.children) {
            Ok(()) => {},
            Err(err) => {
                return Err(err);
            },
        }
        self.emit_op(Opcode::End);
        let name = if f.exported {
            Some(f.name.clone())
        } else {
            None
        };
        let mut inputs: Vec<DataType> = Vec::new();
        for i in 0..f.params.len()
            invariant
                inputs@ == f64_inputs(i as nat),
        {
            inputs.push(DataType::F64);
            assert(inputs@ =~= f64_inputs((i + 1) as nat));
        }
        proof {
            lemma_strings_view(f.params@);
        }
        let func = Function {
            name,
            inputs,
            locals: copy_types(&self.local_types),
            code: copy_tokens(&self.code),
        };
        assert(function_view(func) =~~= function_of(self@, view_function(*f)));
        Ok(func)
    }

    /// Appends tokens to the code of the function being compiled.
    fn emit_all(&mut self, ts: Vec<Token>)
        ensures
            final(self)@ == emit(old(self)@, tokens_view(ts@)),
    {
        let ghost t0 = ts@;
        let mut ts = ts;
        self.code.append(&mut ts);
        assert(tokens_view(self.code@) =~= tokens_view(old(self).code@) + tokens_view(t0));
    }
}

/// Compiles a program to a WebAssembly module: exactly the module that
/// `compile_program` describes, or exactly the error it describes.
pub fn compile(app: App) -> (r: Result<Module, CompileError>)
    ensures
        match r {
            Ok(m) => compile_program(app@) == Ok::<ModuleV, CompileErrorV>(m@),
            Err(e) => compile_program(app@) == Err::<ModuleV, CompileErrorV>(e@),
        },
{
    let tops = &app.children;
    let ghost tv = view_tops(tops@);
    proof {
        lemma_view_tops(tops@);
    }
    let mut imports: Vec<Import> = Vec::new();
    let mut fs: Vec<&FunctionDefinition> = Vec::new();
    for k in 0..tops.len()
        invariant
            tv == view_tops(tops@),
            tv.len() == tops.len(),
            forall|i: int| 0 <= i < tops.len() ==> #[trigger] tv[i] == tops@[i]@,
            imports_view(imports@) == imports_of(tv.take(k as int)),
            fs@.map_values(|f: &FunctionDefinition| view_function(*f)) == functions_of(
                tv.take(k as int),
            ),
    {
        assert(tv.take(k + 1).drop_last() =~= tv.take(k as int));
        assert(tv[k as int] == tops@[k as int]@);
        match &tops[k] {
            TopLevelOperation::ExternalFunction(x) => {
                let ghost before = imports_view(imports@);
                proof {
                    lemma_strings_view(x.params@);
                }
                imports.push(Import { name: x.name.clone(), params: x.params.len() });
                assert(imports_view(imports@) =~= before.push((x.name@, x.params@.len())));
                assert(fs@.map_values(|f: &FunctionDefinition| view_function(*f))
                    =~= functions_of(tv.take(k + 1)));
            },
            TopLevelOperation::DefineFunction(f) => {
                let ghost before = fs@.map_values(|f: &FunctionDefinition| view_function(*f));
                fs.push(f);
                assert(fs@.map_values(|f: &FunctionDefinition| view_function(*f)) =~= before.push(
                    view_function(*f),
                ));
            },
            _ => {},
        }
    }
    assert(tv.take(tops.len() as int) =~= tv);
    let ghost fsv = fs@.map_values(|f: &FunctionDefinition| view_function(*f));
    let mut function_names: Vec<String> = Vec::new();
    for k in 0..imports.len()
        invariant
            function_names@.len() == k,
            forall|j: int| 0 <= j < k ==> (#[trigger] function_names@[j])@ == imports@[j].name@,
    {
        function_names.push(imports[k].name.clone());
    }
    let mut defs: Vec<(String, usize)> = Vec::new();
    for k in 0..fs.len()
        invariant
            function_names@.len() == imports.len() + k,
            defs@.len() == k,
            forall|j: int|
                0 <= j < imports.len() ==> (#[trigger] function_names@[j])@ == imports@[j].name@,
            forall|j: int|
                0 <= j < k ==> (#[trigger] function_names@[imports.len() + j])@ == fs@[j].name@,
            forall|j: int|
                0 <= j < k ==> (#[trigger] defs@[j]).0@ == fs@[j].name@ && defs@[j].1
                    == fs@[j].params.len(),
    {
        function_names.push(fs[k].name.clone());
        defs.push((fs[k].name.clone(), fs[k].params.len()));
    }
    proof {
        assert forall|j: int| 0 <= j < fs.len() implies fsv[j].params.len() == fs@[j].params.len() by {
            lemma_strings_view(fs@[j].params@);
        }
        let names = imports_view(imports@).map_values(|i: (Seq<char>, nat)| i.0) + fsv.map_values(
            |f: FunctionV| f.name,
        );
        assert forall|j: int| 0 <= j < function_names@.len() implies strs(function_names@)[j]
            == names[j] by {
            if j >= imports.len() {
                let i = j - imports.len();
                assert(function_names@[imports.len() + i] == function_names@[j]);
            }
        }
        assert(strs(function_names@) =~= names);
        assert(defs@.map_values(|d: (String, usize)| (d.0@, d.1 as nat)) =~= fsv.map_values(
            |f: FunctionV| (f.name, f.params.len()),
        ));
    }
    let n = function_names.len();
    let mut c = Compiler {
        types: Vec::new(),
        data: Vec::new(),
        symbols: Vec::new(),
        global_names: Vec::new(),
        global_values: Vec::new(),
        locals: Vec::new(),
        heap: 4,
        function_names,
        defs,
        code: Vec::new(),
        local_types: Vec::new(),
        recur_depth: 0,
    };
    assert(c@ =~= initial_state(app@));
    match c.compile_globals(tops) {
        Ok(()) => {},
        Err(err) => {
            return Err(err);
        },
    }
    assert(functions_view(Seq::<Function>::empty()) =~= seq![]);
    let mut functions: Vec<Function> = Vec::new();
    let mut k: usize = 0;
    while k < fs.len()
        invariant
            k <= fs.len(),
            fsv == fs@.map_values(|f: &FunctionDefinition| view_function(*f)),
            fsv == functions_of(app@),
            globals_from(initial_state(app@), app@, 0) matches Ok(st1) && functions_from(
                st1,
                fsv,
                0,
                seq![],
            ) == functions_from(c@, fsv, k as int, functions_view(functions@)),
            n == initial_state(app@).function_names.len(),
        decreases fs.len() - k,
    {
        let ghost before = functions_view(functions@);
        let func = match c.compile_function(fs[k]) {
            Ok(func) => func,
            Err(err) => {
                return Err(err);
            },
        };
        functions.push(func);
        assert(functions_view(functions@) =~= before.push(function_view(func)));
        k = k + 1;
    }
    let h = if c.heap > 0x7fff_ffffu64 {
        0x7fff_ffffi32
    } else if c.heap % 4 != 0 {
        clamp_to_i32(c.heap + (4 - c.heap % 4))
    } else {
        clamp_to_i32(c.heap)
    };
    let mut elements: Vec<u32> = Vec::new();
    for i in 0..n
        invariant
            elements@ == Seq::new(i as nat, |j: int| j as u32),
    {
        elements.push(#[verifier::truncate] (i as u32));
        assert(elements@ =~= Seq::new((i + 1) as nat, |j: int| j as u32));
    }
    let ghost st2 = c@;
    let m = Module {
        imports,
        types: c.types,
        functions,
        table_size: #[verifier::truncate] (n as u32),
        data: c.data,
        globals: vec![WasmGlobal { value: h, mutable: false }, WasmGlobal { value: h, mutable: true }],
        elements,
    };
    assert(h == clamp_i32(next_heap(st2.heap)));
    assert(globals_view(m.globals@) =~= seq![(h, false), (h, true)]);
    Ok(m)
}

} // verus!
