//! The syntax tree of a wasp program, and its mathematical model.
//!
//! Every executable type below has a model built from `Seq`s (its view);
//! the grammar in `grammar.rs` and the compiler in `compiler.rs` are
//! specified over these models.
use vstd::prelude::*;

verus! {

/// The value types of WebAssembly that a function signature can name.
#[derive(Debug, Clone, Copy, PartialEq, Eq, Structural)]
pub enum DataType {
    I32,
    I64,
    F32,
    F64,
}

/// A decimal number literal exactly as written: a sign and the digits,
/// with an optional fractional part after a single `.` (`"12"`, `"3.25"`).
/// The binary64 value it denotes is the rounding of this decimal.
#[derive(Debug, Clone, PartialEq)]
pub struct NumberLiteral {
    pub negative: bool,
    pub digits: String,
}

/// A whole program: its top-level items in source order.
#[derive(Debug)]
pub struct App {
    pub children: Vec<TopLevelOperation>,
}

#[derive(Debug)]
pub enum TopLevelOperation {
    Comment(String),
    DefineGlobal(Global),
    DefineFunction(FunctionDefinition),
    ExternalFunction(ExternalFunction),
}

#[derive(Debug)]
pub struct Global {
    pub name: String,
    pub value: GlobalValue,
}

#[derive(Debug)]
pub enum GlobalValue {
    Symbol(String),
    Number(NumberLiteral),
    Text(String),
    Data(Vec<GlobalValue>),
    Identifier(String),
    Struct(StructDefinition),
}

#[derive(Debug, Clone)]
pub struct ExternalFunction {
    pub name: String,
    pub params: Vec<String>,
}

#[derive(Debug)]
pub struct FunctionDefinition {
    pub name: String,
    pub exported: bool,
    pub params: Vec<String>,
    pub output: Option<String>,
    pub children: Vec<Expression>,
}

#[derive(Debug, Clone)]
pub struct StructMember {
    pub name: String,
}

#[derive(Debug, Clone)]
pub struct StructDefinition {
    pub members: Vec<StructMember>,
}

#[derive(Debug)]
pub struct OperationFunctionCall {
    pub function_name: String,
    pub params: Vec<Expression>,
}

#[derive(Debug)]
pub struct OperationLet {
    pub bindings: Vec<(String, Expression)>,
    pub expressions: Vec<Expression>,
}

#[derive(Debug, Clone)]
pub struct OperationRecur {}

#[derive(Debug)]
pub struct OperationAssignment {
    pub id: String,
    pub value: Box<Expression>,
}

#[derive(Debug)]
pub struct OperationIfStatement {
    pub condition: Box<Expression>,
    pub if_true: Vec<Expression>,
    pub if_false: Vec<Expression>,
}

#[derive(Debug)]
pub struct OperationLoop {
    pub expressions: Vec<Expression>,
}

#[derive(Debug)]
pub struct OperationFnSig {
    pub inputs: Vec<DataType>,
    pub output: Option<DataType>,
}

#[derive(Debug)]
pub struct OperationPopulate {
    pub name: String,
    pub elements: Vec<Expression>,
}

#[derive(Debug)]
pub enum Expression {
    IfStatement(OperationIfStatement),
    Assignment(OperationAssignment),
    TextLiteral(String),
    SymbolLiteral(String),
    Identifier(String),
    Comment(String),
    FunctionCall(OperationFunctionCall),
    Number(NumberLiteral),
    Let(OperationLet),
    Populate(OperationPopulate),
    Recur(OperationRecur),
    Loop(OperationLoop),
    FnSig(OperationFnSig),
}

// ---------------------------------------------------------------------
// Models
// ---------------------------------------------------------------------

/// Model of a number literal.
pub struct NumberV {
    pub negative: bool,
    pub digits: Seq<char>,
}

/// Model of an expression.
pub enum ExprV {
    IfStatement(Box<ExprV>, Seq<ExprV>, Seq<ExprV>),
    Assignment(Seq<char>, Box<ExprV>),
    TextLiteral(Seq<char>),
    SymbolLiteral(Seq<char>),
    Identifier(Seq<char>),
    Comment(Seq<char>),
    FunctionCall(Seq<char>, Seq<ExprV>),
    Number(NumberV),
    Let(Seq<(Seq<char>, ExprV)>, Seq<ExprV>),
    Populate(Seq<char>, Seq<ExprV>),
    Recur,
    Loop(Seq<ExprV>),
    FnSig(Seq<DataType>, Option<DataType>),
}

/// Model of a global's value.
pub enum GlobalValueV {
    Symbol(Seq<char>),
    Number(NumberV),
    Text(Seq<char>),
    Data(Seq<GlobalValueV>),
    Identifier(Seq<char>),
    Struct(Seq<Seq<char>>),
}

/// Model of a function definition.
pub struct FunctionV {
    pub name: Seq<char>,
    pub exported: bool,
    pub params: Seq<Seq<char>>,
    pub output: Option<Seq<char>>,
    pub children: Seq<ExprV>,
}

/// Model of a top-level item.
pub enum TopV {
    Comment(Seq<char>),
    DefineGlobal(Seq<char>, GlobalValueV),
    DefineFunction(FunctionV),
    ExternalFunction(Seq<char>, Seq<Seq<char>>),
}

pub open spec fn number_view(n: NumberLiteral) -> NumberV {
    NumberV { negative: n.negative, digits: n.digits@ }
}

pub open spec fn strings_view(s: Seq<String>) -> Seq<Seq<char>>
    decreases s.len(),
{
    if s.len() == 0 {
        Seq::empty()
    } else {
        strings_view(s.drop_last()).push(s.last()@)
    }
}

pub open spec fn view_exprs(s: Seq<Expression>) -> Seq<ExprV>
    decreases s,
{
    if s.len() == 0 {
        Seq::empty()
    } else {
        view_exprs(s.drop_last()).push(view_expr(s.last()))
    }
}

pub open spec fn view_bindings(s: Seq<(String, Expression)>) -> Seq<(Seq<char>, ExprV)>
    decreases s,
{
    if s.len() == 0 {
        Seq::empty()
    } else {
        view_bindings(s.drop_last()).push((s.last().0@, view_expr(s.last().1)))
    }
}

pub open spec fn view_expr(e: Expression) -> ExprV
    decreases e,
{
    match e {
        Expression::IfStatement(x) => ExprV::IfStatement(
            Box::new(view_expr(*x.condition)),
            view_exprs(x.if_true@),
            view_exprs(x.if_false@),
        ),
        Expression::Assignment(x) => ExprV::Assignment(x.id@, Box::new(view_expr(*x.value))),
        Expression::TextLiteral(t) => ExprV::TextLiteral(t@),
        Expression::SymbolLiteral(t) => ExprV::SymbolLiteral(t@),
        Expression::Identifier(t) => ExprV::Identifier(t@),
        Expression::Comment(t) => ExprV::Comment(t@),
        Expression::FunctionCall(x) => ExprV::FunctionCall(x.function_name@, view_exprs(x.params@)),
        Expression::Number(n) => ExprV::Number(number_view(n)),
        Expression::Let(x) => ExprV::Let(view_bindings(x.bindings@), view_exprs(x.expressions@)),
        Expression::Populate(x) => ExprV::Populate(x.name@, view_exprs(x.elements@)),
        Expression::Recur(_) => ExprV::Recur,
        Expression::Loop(x) => ExprV::Loop(view_exprs(x.expressions@)),
        Expression::FnSig(x) => ExprV::FnSig(x.inputs@, x.output),
    }
}

pub open spec fn member_names(s: Seq<StructMember>) -> Seq<Seq<char>>
    decreases s.len(),
{
    if s.len() == 0 {
        Seq::empty()
    } else {
        member_names(s.drop_last()).push(s.last().name@)
    }
}

pub open spec fn view_globals(s: Seq<GlobalValue>) -> Seq<GlobalValueV>
    decreases s,
{
    if s.len() == 0 {
        Seq::empty()
    } else {
        view_globals(s.drop_last()).push(view_global(s.last()))
    }
}

pub open spec fn view_global(g: GlobalValue) -> GlobalValueV
    decreases g,
{
    match g {
        GlobalValue::Symbol(t) => GlobalValueV::Symbol(t@),
        GlobalValue::Number(n) => GlobalValueV::Number(number_view(n)),
        GlobalValue::Text(t) => GlobalValueV::Text(t@),
        GlobalValue::Data(d) => GlobalValueV::Data(view_globals(d@)),
        GlobalValue::Identifier(t) => GlobalValueV::Identifier(t@),
        GlobalValue::Struct(s) => GlobalValueV::Struct(member_names(s.members@)),
    }
}

pub open spec fn view_function(f: FunctionDefinition) -> FunctionV {
    FunctionV {
        name: f.name@,
        exported: f.exported,
        params: strings_view(f.params@),
        output: match f.output {
            Some(o) => Some(o@),
            None => None,
        },
        children: view_exprs(f.children@),
    }
}

pub open spec fn view_top(t: TopLevelOperation) -> TopV {
    match t {
        TopLevelOperation::Comment(c) => TopV::Comment(c@),
        TopLevelOperation::DefineGlobal(g) => TopV::DefineGlobal(g.name@, view_global(g.value)),
        TopLevelOperation::DefineFunction(f) => TopV::DefineFunction(view_function(f)),
        TopLevelOperation::ExternalFunction(x) => TopV::ExternalFunction(
            x.name@,
            strings_view(x.params@),
        ),
    }
}

pub open spec fn view_tops(s: Seq<TopLevelOperation>) -> Seq<TopV>
    decreases s.len(),
{
    if s.len() == 0 {
        Seq::empty()
    } else {
        view_tops(s.drop_last()).push(view_top(s.last()))
    }
}

impl View for Expression {
    type V = ExprV;

    open spec fn view(&self) -> ExprV {
        view_expr(*self)
    }
}

impl View for GlobalValue {
    type V = GlobalValueV;

    open spec fn view(&self) -> GlobalValueV {
        view_global(*self)
    }
}

impl View for NumberLiteral {
    type V = NumberV;

    open spec fn view(&self) -> NumberV {
        number_view(*self)
    }
}

impl View for TopLevelOperation {
    type V = TopV;

    open spec fn view(&self) -> TopV {
        view_top(*self)
    }
}

impl View for App {
    type V = Seq<TopV>;

    open spec fn view(&self) -> Seq<TopV> {
        view_tops(self.children@)
    }
}

// ---------------------------------------------------------------------
// The models of sequences, element by element
// ---------------------------------------------------------------------

pub proof fn lemma_strings_view(s: Seq<String>)
    ensures
        strings_view(s) == s.map_values(|x: String| x@),
    decreases s.len(),
{
    if s.len() > 0 {
        lemma_strings_view(s.drop_last());
    }
    assert(strings_view(s) =~= s.map_values(|x: String| x@));
}

pub proof fn lemma_view_exprs(s: Seq<Expression>)
    ensures
        view_exprs(s).len() == s.len(),
        forall|i: int| 0 <= i < s.len() ==> #[trigger] view_exprs(s)[i] == view_expr(s[i]),
    decreases s.len(),
{
    if s.len() > 0 {
        lemma_view_exprs(s.drop_last());
    }
}

pub proof fn lemma_view_bindings(s: Seq<(String, Expression)>)
    ensures
        view_bindings(s).len() == s.len(),
        forall|i: int|
            0 <= i < s.len() ==> #[trigger] view_bindings(s)[i] == (s[i].0@, view_expr(s[i].1)),
    decreases s.len(),
{
    if s.len() > 0 {
        lemma_view_bindings(s.drop_last());
    }
}

pub proof fn lemma_view_globals(s: Seq<GlobalValue>)
    ensures
        view_globals(s).len() == s.len(),
        forall|i: int| 0 <= i < s.len() ==> #[trigger] view_globals(s)[i] == view_global(s[i]),
    decreases s.len(),
{
    if s.len() > 0 {
        lemma_view_globals(s.drop_last());
    }
}

pub proof fn lemma_member_names(s: Seq<StructMember>)
    ensures
        member_names(s).len() == s.len(),
        forall|i: int| 0 <= i < s.len() ==> #[trigger] member_names(s)[i] == s[i].name@,
    decreases s.len(),
{
    if s.len() > 0 {
        lemma_member_names(s.drop_last());
    }
}

pub proof fn lemma_view_tops(s: Seq<TopLevelOperation>)
    ensures
        view_tops(s).len() == s.len(),
        forall|i: int| 0 <= i < s.len() ==> #[trigger] view_tops(s)[i] == view_top(s[i]),
    decreases s.len(),
{
    if s.len() > 0 {
        lemma_view_tops(s.drop_last());
    }
}

} // verus!
