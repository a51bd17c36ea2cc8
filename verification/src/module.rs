//! The WebAssembly module that the compiler builds, before it is encoded:
//! its imports, function types, functions and their instruction streams,
//! table, data segments and globals, with their models.
//!
//! Numbers are kept exact: an integer the compiler computed, or a decimal
//! literal of the program; their binary64 encodings are made when the
//! module is written out.
use vstd::prelude::*;
use crate::ast::{DataType, NumberLiteral, NumberV};

verus! {

/// The instructions (and the value type `f64`, used as a block type) that
/// the compiler emits.
#[derive(Debug, Clone, Copy, PartialEq, Eq, Structural)]
pub enum Opcode {
    F64,
    F64Const,
    I32Const,
    I64Const,
    Call,
    CallIndirect,
    LocalGet,
    LocalSet,
    LocalTee,
    GlobalGet,
    GlobalSet,
    Loop,
    If,
    Else,
    End,
    Br,
    Drop,
    I32TruncSF64,
    I64TruncSF64,
    F64ConvertSI32,
    F64ConvertSI64,
    I32Load8U,
    I32Store8,
    F64Load,
    F64Store,
    F64Eq,
    F64Ne,
    F64Le,
    F64Ge,
    F64Lt,
    F64Gt,
    I32Eq,
    I32And,
    I64Ne,
    I64And,
    I64Or,
    I64Xor,
    I64Shl,
    I64ShrS,
    I64RemS,
    F64Add,
    F64Sub,
    F64Mul,
    F64Div,
}

/// A number the compiler knows exactly.
#[derive(Debug, PartialEq)]
pub enum Num {
    /// A non-negative integer (an address, an index, a symbol's value).
    Int(u64),
    /// A number literal of the program.
    Lit(NumberLiteral),
}

/// One item of an instruction stream.
#[derive(Debug, PartialEq)]
pub enum Token {
    Op(Opcode),
    /// A signed LEB128 immediate.
    Int(i32),
    /// An unsigned LEB128 immediate.
    UInt(u32),
    /// The eight bytes of the binary64 value of a number.
    F64(Num),
    /// A signed LEB128 immediate: the binary64 value of the literal,
    /// converted to `i32` with saturation.
    TruncLit(NumberLiteral),
}

#[derive(Debug, PartialEq)]
pub struct FunctionType {
    pub inputs: Vec<DataType>,
    pub output: Option<DataType>,
}

/// An imported function: `env.<name>`, taking `params` values of type
/// `f64` and returning an `f64`.
#[derive(Debug, PartialEq)]
pub struct Import {
    pub name: String,
    pub params: usize,
}

/// A function: exported under `name` if it has one, with its inputs,
/// its `f64` result, its locals and its instructions.
#[derive(Debug, PartialEq)]
pub struct Function {
    pub name: Option<String>,
    pub inputs: Vec<DataType>,
    pub locals: Vec<DataType>,
    pub code: Vec<Token>,
}

#[derive(Debug, PartialEq)]
pub enum DataItem {
    Bytes(Vec<u8>),
    /// Eight bytes: the binary64 value of the number.
    Number(Num),
}

#[derive(Debug, PartialEq)]
pub struct DataSegment {
    pub offset: i32,
    pub items: Vec<DataItem>,
}

#[derive(Debug, PartialEq)]
pub struct WasmGlobal {
    pub value: i32,
    pub mutable: bool,
}

#[derive(Debug, PartialEq)]
pub struct Module {
    pub imports: Vec<Import>,
    pub types: Vec<FunctionType>,
    pub functions: Vec<Function>,
    /// The minimum and maximum size of the function table.
    pub table_size: u32,
    pub data: Vec<DataSegment>,
    pub globals: Vec<WasmGlobal>,
    /// The table's elements, placed from offset 0: function indices.
    pub elements: Vec<u32>,
}

// ---------------------------------------------------------------------
// Models
// ---------------------------------------------------------------------

pub enum NumV {
    Int(int),
    Lit(NumberV),
}

pub enum TokenV {
    Op(Opcode),
    Int(i32),
    UInt(u32),
    F64(NumV),
    TruncLit(NumberV),
}

pub enum DataItemV {
    Bytes(Seq<u8>),
    Number(NumV),
}

pub struct DataV {
    pub offset: i32,
    pub items: Seq<DataItemV>,
}

pub struct FunctionV2 {
    pub name: Option<Seq<char>>,
    pub inputs: Seq<DataType>,
    pub locals: Seq<DataType>,
    pub code: Seq<TokenV>,
}

#[verifier::ext_equal]
pub struct ModuleV {
    pub imports: Seq<(Seq<char>, nat)>,
    pub types: Seq<(Seq<DataType>, Option<DataType>)>,
    pub functions: Seq<FunctionV2>,
    pub table_size: u32,
    pub data: Seq<DataV>,
    pub globals: Seq<(i32, bool)>,
    pub elements: Seq<u32>,
}

pub open spec fn num_view(n: Num) -> NumV {
    match n {
        Num::Int(i) => NumV::Int(i as int),
        Num::Lit(l) => NumV::Lit(l@),
    }
}

pub open spec fn token_view(t: Token) -> TokenV {
    match t {
        Token::Op(o) => TokenV::Op(o),
        Token::Int(i) => TokenV::Int(i),
        Token::UInt(u) => TokenV::UInt(u),
        Token::F64(n) => TokenV::F64(num_view(n)),
        Token::TruncLit(l) => TokenV::TruncLit(l@),
    }
}

pub open spec fn tokens_view(s: Seq<Token>) -> Seq<TokenV> {
    s.map_values(|t: Token| token_view(t))
}

pub open spec fn nums_view(s: Seq<Num>) -> Seq<NumV> {
    s.map_values(|n: Num| num_view(n))
}

pub open spec fn data_item_view(d: DataItem) -> DataItemV {
    match d {
        DataItem::Bytes(b) => DataItemV::Bytes(b@),
        DataItem::Number(n) => DataItemV::Number(num_view(n)),
    }
}

pub open spec fn data_items_view(s: Seq<DataItem>) -> Seq<DataItemV> {
    s.map_values(|d: DataItem| data_item_view(d))
}

pub open spec fn segment_view(d: DataSegment) -> DataV {
    DataV { offset: d.offset, items: data_items_view(d.items@) }
}

pub open spec fn segments_view(s: Seq<DataSegment>) -> Seq<DataV> {
    s.map_values(|d: DataSegment| segment_view(d))
}

pub open spec fn type_view(t: FunctionType) -> (Seq<DataType>, Option<DataType>) {
    (t.inputs@, t.output)
}

pub open spec fn types_view(s: Seq<FunctionType>) -> Seq<(Seq<DataType>, Option<DataType>)> {
    s.map_values(|t: FunctionType| type_view(t))
}

pub open spec fn function_view(f: Function) -> FunctionV2 {
    FunctionV2 {
        name: match f.name {
            Some(n) => Some(n@),
            None => None,
        },
        inputs: f.inputs@,
        locals: f.locals@,
        code: tokens_view(f.code@),
    }
}

pub open spec fn functions_view(s: Seq<Function>) -> Seq<FunctionV2> {
    s.map_values(|f: Function| function_view(f))
}

pub open spec fn imports_view(s: Seq<Import>) -> Seq<(Seq<char>, nat)> {
    s.map_values(|i: Import| (i.name@, i.params as nat))
}

pub open spec fn globals_view(s: Seq<WasmGlobal>) -> Seq<(i32, bool)> {
    s.map_values(|g: WasmGlobal| (g.value, g.mutable))
}

impl View for Module {
    type V = ModuleV;

    open spec fn view(&self) -> ModuleV {
        ModuleV {
            imports: imports_view(self.imports@),
            types: types_view(self.types@),
            functions: functions_view(self.functions@),
            table_size: self.table_size,
            data: segments_view(self.data@),
            globals: globals_view(self.globals@),
            elements: self.elements@,
        }
    }
}

impl View for Num {
    type V = NumV;

    open spec fn view(&self) -> NumV {
        num_view(*self)
    }
}

impl View for Token {
    type V = TokenV;

    open spec fn view(&self) -> TokenV {
        token_view(*self)
    }
}

/// A copy of a number literal.
pub fn copy_literal(n: &NumberLiteral) -> (r: NumberLiteral)
    ensures
        r@ == n@,
{
    NumberLiteral { negative: n.negative, digits: n.digits.clone() }
}

/// A copy of a number.
pub fn copy_num(n: &Num) -> (r: Num)
    ensures
        r@ == n@,
{
    match n {
        Num::Int(i) => Num::Int(*i),
        Num::Lit(l) => Num::Lit(copy_literal(l)),
    }
}

} // verus!
