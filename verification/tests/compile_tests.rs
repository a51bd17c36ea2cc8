use wasp::ast::{
    App, DataType, Expression, FunctionDefinition, NumberLiteral, OperationFunctionCall,
    OperationIfStatement, OperationLoop, TopLevelOperation,
};
use wasp::compiler::{compile, CompileError};
use wasp::grammar::ParseError;
use wasp::module::{
    DataItem, DataSegment, Function, FunctionType, Import, Module, Num, Opcode, Token, WasmGlobal,
};
use wasp::{run, WaspError};

fn build(src: &str) -> Module {
    match run(src) {
        Ok(m) => m,
        Err(e) => panic!("{:?}", e),
    }
}

fn failure_of(src: &str) -> CompileError {
    match run(src) {
        Err(WaspError::Compile(e)) => e,
        other => panic!("expected a compile error, got {:?}", other),
    }
}

fn op(o: Opcode) -> Token {
    Token::Op(o)
}

fn int_const(n: u64) -> Vec<Token> {
    vec![op(Opcode::F64Const), Token::F64(Num::Int(n))]
}

fn lit(negative: bool, digits: &str) -> NumberLiteral {
    NumberLiteral { negative, digits: digits.to_string() }
}

fn lit_const(digits: &str) -> Vec<Token> {
    vec![op(Opcode::F64Const), Token::F64(Num::Lit(lit(false, digits)))]
}

fn cat(parts: Vec<Vec<Token>>) -> Vec<Token> {
    parts.into_iter().flatten().collect()
}

fn heap_globals(h: i32) -> Vec<WasmGlobal> {
    vec![WasmGlobal { value: h, mutable: false }, WasmGlobal { value: h, mutable: true }]
}

fn function_with(children: Vec<Expression>) -> App {
    App {
        children: vec![TopLevelOperation::DefineFunction(FunctionDefinition {
            name: "f".to_string(),
            exported: true,
            params: vec![],
            output: None,
            children,
        })],
    }
}

fn call_of(name: &str, params: Vec<Expression>) -> Expression {
    Expression::FunctionCall(OperationFunctionCall { function_name: name.to_string(), params })
}

#[test]
fn hello_world_module() {
    let m = build("extern console_log(message)\n\npub fn main(){\n  console_log(\"Hello World!\")\n}\n");
    let expected = Module {
        imports: vec![Import { name: "console_log".to_string(), params: 1 }],
        types: vec![],
        functions: vec![Function {
            name: Some("main".to_string()),
            inputs: vec![],
            locals: vec![],
            code: cat(vec![int_const(4), vec![op(Opcode::Call), Token::Int(0), op(Opcode::End)]]),
        }],
        table_size: 2,
        data: vec![DataSegment { offset: 4, items: vec![DataItem::Bytes(b"Hello World!\0".to_vec())] }],
        globals: heap_globals(20),
        elements: vec![0, 1],
    };
    assert_eq!(m, expected);
}

#[test]
fn parameters_are_locals() {
    let m = build("pub fn add(a b){ (a + b) }");
    assert_eq!(m.functions.len(), 1);
    let f = &m.functions[0];
    assert_eq!(f.inputs, vec![DataType::F64, DataType::F64]);
    assert_eq!(
        f.code,
        vec![
            op(Opcode::LocalGet),
            Token::Int(0),
            op(Opcode::LocalGet),
            Token::Int(1),
            op(Opcode::F64Add),
            op(Opcode::End),
        ]
    );
    assert!(m.data.is_empty());
    assert_eq!(m.globals, heap_globals(4));
}

#[test]
fn unexported_function_has_no_name() {
    let m = build("fn g(){ 1 }");
    assert_eq!(m.functions[0].name, None);
    assert_eq!(m.functions[0].code, cat(vec![lit_const("1"), vec![op(Opcode::End)]]));
}

#[test]
fn symbols_are_numbered_from_one() {
    let m = build("pub fn f(){ :x :y :x }");
    assert_eq!(
        m.functions[0].code,
        cat(vec![
            int_const(1),
            vec![op(Opcode::Drop)],
            int_const(2),
            vec![op(Opcode::Drop)],
            int_const(1),
            vec![op(Opcode::End)],
        ])
    );
}

#[test]
fn nil_and_size_num() {
    let m = build("fn nil(){ 1 }\npub fn f(){ nil size_num }");
    assert_eq!(
        m.functions[1].code,
        cat(vec![int_const(0), vec![op(Opcode::Drop)], int_const(8), vec![op(Opcode::End)]])
    );
}

#[test]
fn let_shadows_parameter() {
    let m = build("pub fn f(x){ let (x 5) { x } x }");
    let f = &m.functions[0];
    assert_eq!(f.locals, vec![DataType::F64]);
    assert_eq!(
        f.code,
        cat(vec![
            lit_const("5"),
            vec![
                op(Opcode::LocalSet),
                Token::UInt(1),
                op(Opcode::LocalGet),
                Token::Int(1),
                op(Opcode::Drop),
                op(Opcode::LocalGet),
                Token::Int(0),
                op(Opcode::End),
            ],
        ])
    );
}

#[test]
fn function_types_are_shared() {
    let m = build("pub fn f(){ fn(f64)->f64 fn(i32, i64)->f32 fn(f64)->f64 }");
    assert_eq!(
        m.types,
        vec![
            FunctionType { inputs: vec![DataType::F64], output: Some(DataType::F64) },
            FunctionType { inputs: vec![DataType::I32, DataType::I64], output: Some(DataType::F32) },
        ]
    );
    assert_eq!(
        m.functions[0].code,
        cat(vec![
            int_const(0),
            vec![op(Opcode::Drop)],
            int_const(1),
            vec![op(Opcode::Drop)],
            int_const(0),
            vec![op(Opcode::End)],
        ])
    );
}

#[test]
fn global_texts_are_laid_out_in_order() {
    let m = build("static s = \"ab\"\nstatic t = \"c\"\npub fn f(){ t }");
    assert_eq!(
        m.data,
        vec![
            DataSegment { offset: 4, items: vec![DataItem::Bytes(vec![97, 98, 0])] },
            DataSegment { offset: 8, items: vec![DataItem::Bytes(vec![99, 0])] },
        ]
    );
    assert_eq!(m.functions[0].code, cat(vec![int_const(8), vec![op(Opcode::End)]]));
    assert_eq!(m.globals, heap_globals(12));
}

#[test]
fn struct_layout() {
    let m = build("(defstruct point :x :y)\npub fn f(){ point }");
    assert_eq!(
        m.data,
        vec![
            DataSegment { offset: 4, items: vec![DataItem::Bytes(vec![0])] },
            DataSegment { offset: 8, items: vec![DataItem::Bytes(vec![0])] },
            DataSegment {
                offset: 12,
                items: vec![
                    DataItem::Number(Num::Int(1)),
                    DataItem::Number(Num::Int(4)),
                    DataItem::Number(Num::Int(2)),
                    DataItem::Number(Num::Int(8)),
                    DataItem::Number(Num::Int(0)),
                ],
            },
        ]
    );
    assert_eq!(m.functions[0].code, cat(vec![int_const(12), vec![op(Opcode::End)]]));
    assert_eq!(m.globals, heap_globals(52));
}

#[test]
fn global_data_holds_numbers() {
    let m = build("static d = (1, :a, \"z\")\npub fn f(){ d }");
    assert_eq!(
        m.data,
        vec![
            DataSegment { offset: 4, items: vec![DataItem::Bytes(vec![122, 0])] },
            DataSegment {
                offset: 8,
                items: vec![
                    DataItem::Number(Num::Lit(lit(false, "1"))),
                    DataItem::Number(Num::Int(1)),
                    DataItem::Number(Num::Int(4)),
                ],
            },
        ]
    );
    assert_eq!(m.functions[0].code, cat(vec![int_const(8), vec![op(Opcode::End)]]));
    assert_eq!(m.globals, heap_globals(32));
}

#[test]
fn populate_folds_from_the_last_chunk() {
    let m = build("fn cons(a b){ a }\npub fn main(){ (# cons 1 2 3) }");
    let main = &m.functions[1];
    assert_eq!(main.locals, vec![DataType::F64]);
    assert_eq!(
        main.code,
        cat(vec![
            lit_const("3"),
            int_const(0),
            vec![op(Opcode::Call), Token::Int(0), op(Opcode::LocalSet), Token::Int(0)],
            lit_const("2"),
            vec![
                op(Opcode::LocalGet),
                Token::Int(0),
                op(Opcode::Call),
                Token::Int(0),
                op(Opcode::LocalSet),
                Token::Int(0),
            ],
            lit_const("1"),
            vec![op(Opcode::LocalGet), Token::Int(0), op(Opcode::Call), Token::Int(0)],
            vec![op(Opcode::End)],
        ])
    );
}

#[test]
fn if_else_and_comparison() {
    let m = build("pub fn f(){ if ((1 < 2)) { 3 } else { 4 } }");
    assert_eq!(
        m.functions[0].code,
        cat(vec![
            lit_const("1"),
            lit_const("2"),
            vec![op(Opcode::F64Lt), op(Opcode::F64ConvertSI32)],
            int_const(0),
            vec![
                op(Opcode::F64Eq),
                op(Opcode::I32Const),
                Token::Int(0),
                op(Opcode::I32Eq),
                op(Opcode::If),
                op(Opcode::F64),
            ],
            lit_const("3"),
            vec![op(Opcode::Else)],
            lit_const("4"),
            vec![op(Opcode::End), op(Opcode::End)],
        ])
    );
}

#[test]
fn loop_and_recur() {
    let m = build("pub fn f(){ loop { recur } }");
    assert_eq!(
        m.functions[0].code,
        cat(vec![
            vec![op(Opcode::Loop), op(Opcode::F64)],
            int_const(0),
            vec![op(Opcode::Br), Token::UInt(0), op(Opcode::End), op(Opcode::End)],
        ])
    );
}

#[test]
fn recur_inside_if_breaks_out_one_more_level() {
    let m = build("pub fn f(){ loop { if(1, recur) } }");
    assert_eq!(
        m.functions[0].code,
        cat(vec![
            vec![op(Opcode::Loop), op(Opcode::F64)],
            lit_const("1"),
            int_const(0),
            vec![
                op(Opcode::F64Eq),
                op(Opcode::I32Const),
                Token::Int(0),
                op(Opcode::I32Eq),
                op(Opcode::If),
                op(Opcode::F64),
            ],
            int_const(0),
            vec![op(Opcode::Br), Token::UInt(1), op(Opcode::Else)],
            int_const(0),
            vec![op(Opcode::End), op(Opcode::End), op(Opcode::End)],
        ])
    );
}

#[test]
fn indirect_call_through_the_table() {
    let m = build("fn g(a){ a }\npub fn f(){ call(fn(f64)->, g, 7) }");
    assert_eq!(m.types, vec![FunctionType { inputs: vec![DataType::F64], output: None }]);
    assert_eq!(
        m.functions[1].code,
        cat(vec![
            lit_const("7"),
            int_const(0),
            vec![
                op(Opcode::I32TruncSF64),
                op(Opcode::CallIndirect),
                Token::UInt(0),
                Token::Int(0),
            ],
            int_const(0),
            vec![op(Opcode::End)],
        ])
    );
}

#[test]
fn memory_forms() {
    let m = build("pub fn f(){ mem(1) mem_num(2, 3) mem(4, 5) mem_heap_start() }");
    assert_eq!(
        m.functions[0].code,
        cat(vec![
            lit_const("1"),
            vec![
                op(Opcode::I32TruncSF64),
                op(Opcode::F64Load),
                Token::Int(0),
                Token::Int(0),
                op(Opcode::Drop),
            ],
            lit_const("2"),
            vec![op(Opcode::I32TruncSF64)],
            lit_const("3"),
            vec![op(Opcode::F64Store), Token::Int(0), Token::Int(0)],
            int_const(0),
            vec![op(Opcode::Drop)],
            lit_const("4"),
            vec![op(Opcode::I32TruncSF64)],
            lit_const("5"),
            vec![op(Opcode::F64Store), Token::Int(0), Token::Int(0)],
            int_const(0),
            vec![op(Opcode::Drop), op(Opcode::GlobalGet), Token::Int(0), op(Opcode::F64ConvertSI32)],
            vec![op(Opcode::End)],
        ])
    );
}

#[test]
fn byte_memory_forms() {
    let m = build("pub fn f(){ mem_byte(1) mem_byte(2, 3) }");
    assert_eq!(
        m.functions[0].code,
        cat(vec![
            lit_const("1"),
            vec![
                op(Opcode::I32TruncSF64),
                op(Opcode::I32Load8U),
                Token::Int(0),
                Token::Int(0),
                op(Opcode::F64ConvertSI32),
                op(Opcode::Drop),
            ],
            lit_const("2"),
            vec![op(Opcode::I32TruncSF64)],
            lit_const("3"),
            vec![op(Opcode::I32TruncSF64), op(Opcode::I32Store8), Token::Int(0), Token::Int(0)],
            int_const(0),
            vec![op(Opcode::End)],
        ])
    );
}

#[test]
fn remainder_truncates_operands() {
    let m = build("pub fn f(){ (5 % 3) }");
    assert_eq!(
        m.functions[0].code,
        cat(vec![
            lit_const("5"),
            vec![op(Opcode::I64TruncSF64)],
            lit_const("3"),
            vec![
                op(Opcode::I64TruncSF64),
                op(Opcode::I64RemS),
                op(Opcode::F64ConvertSI64),
                op(Opcode::End),
            ],
        ])
    );
}

#[test]
fn unknown_identifier() {
    assert_eq!(failure_of("pub fn f(){ foo }"), CompileError::UnknownIdentifier("foo".to_string()));
    assert_eq!(failure_of("pub fn f(){ foo(1) }"), CompileError::UnknownIdentifier("foo".to_string()));
}

#[test]
fn global_used_in_its_own_definition() {
    assert_eq!(
        failure_of("static a = (a)"),
        CompileError::GlobalUsedInItsOwnDefinition("a".to_string())
    );
}

#[test]
fn useless_do() {
    assert_eq!(failure_of("pub fn f(){ do() }"), CompileError::UselessDo);
}

#[test]
fn call_errors() {
    assert_eq!(failure_of("pub fn f(){ call(1) }"), CompileError::CallArity);
    assert_eq!(failure_of("pub fn f(){ call(1, 2) }"), CompileError::CallWithoutSignature);
}

#[test]
fn builtin_arity_errors() {
    assert_eq!(failure_of("pub fn f(){ if(1) }"), CompileError::IfArity);
    assert_eq!(failure_of("pub fn f(){ mem(1, 2, 3) }"), CompileError::MemArity);
    assert_eq!(failure_of("pub fn f(){ mem_byte() }"), CompileError::MemByteArity);
    assert_eq!(failure_of("pub fn f(){ mem_heap_start(1) }"), CompileError::MemHeapStartArity);
    assert_eq!(failure_of("pub fn f(){ mem_heap_end(1, 2) }"), CompileError::MemHeapEndArity);
    assert_eq!(failure_of("pub fn f(){ mem_num() }"), CompileError::MemNumArity);
    assert_eq!(
        failure_of("pub fn f(){ and(1) }"),
        CompileError::NeedsTwoParameters("and".to_string())
    );
}

#[test]
fn operator_arity_errors() {
    let one = || Expression::Number(lit(false, "1"));
    assert_eq!(
        compile(function_with(vec![call_of("+", vec![one()])])),
        Err(CompileError::NeedsAtLeastTwoParameters("+".to_string()))
    );
    assert_eq!(
        compile(function_with(vec![call_of("~", vec![one(), one()])])),
        Err(CompileError::NeedsOneParameter("~".to_string()))
    );
    assert_eq!(
        compile(function_with(vec![call_of("<", vec![one()])])),
        Err(CompileError::NeedsTwoParameters("<".to_string()))
    );
}

#[test]
fn useless_loop() {
    assert_eq!(
        compile(function_with(vec![Expression::Loop(OperationLoop { expressions: vec![] })])),
        Err(CompileError::UselessLoop)
    );
}

#[test]
fn populate_errors() {
    assert_eq!(
        failure_of("pub fn f(){ (# nil 1) }"),
        CompileError::PopulateNonFunction("nil".to_string())
    );
    assert_eq!(
        failure_of("extern g(a, b)\npub fn f(){ (# g 1) }"),
        CompileError::PopulateImport("g".to_string())
    );
    assert_eq!(
        failure_of("fn one(a){ a }\npub fn f(){ (# one 1) }"),
        CompileError::PopulateArity("one".to_string())
    );
}

#[test]
fn assignment_binds_a_new_local() {
    let m = build("pub fn f(){ x = 1 x }");
    let f = &m.functions[0];
    assert_eq!(f.locals, vec![DataType::F64]);
    assert_eq!(
        f.code,
        cat(vec![
            lit_const("1"),
            vec![
                op(Opcode::LocalTee),
                Token::UInt(0),
                op(Opcode::Drop),
                op(Opcode::LocalGet),
                Token::Int(0),
                op(Opcode::End),
            ],
        ])
    );
}

#[test]
fn assignment_rebinds_an_existing_local() {
    let m = build("pub fn f(a){ a = (a + 1) }");
    let f = &m.functions[0];
    assert!(f.locals.is_empty());
    assert_eq!(
        f.code,
        cat(vec![
            vec![op(Opcode::LocalGet), Token::Int(0)],
            lit_const("1"),
            vec![op(Opcode::F64Add), op(Opcode::LocalTee), Token::UInt(0), op(Opcode::End)],
        ])
    );
}

#[test]
fn if_statements_are_unsupported() {
    let one = || Box::new(Expression::Number(lit(false, "1")));
    assert_eq!(
        compile(function_with(vec![Expression::IfStatement(OperationIfStatement {
            condition: one(),
            if_true: vec![],
            if_false: vec![],
        })])),
        Err(CompileError::UnsupportedExpression)
    );
}

#[test]
fn recur_counts_only_open_ifs() {
    let m = build("pub fn f(){ loop { if(1, 2) if(1, recur) } }");
    let code = &m.functions[0].code;
    let br = code.iter().position(|t| *t == op(Opcode::Br)).unwrap();
    assert_eq!(code[br + 1], Token::UInt(1));
}

#[test]
fn comments_add_no_code() {
    let m = build("pub fn f(){ // first\n 1 // last\n }\npub fn g(){ 1 // between\n 2 }");
    assert_eq!(m.functions[0].code, cat(vec![lit_const("1"), vec![op(Opcode::End)]]));
    assert_eq!(
        m.functions[1].code,
        cat(vec![lit_const("1"), vec![op(Opcode::Drop)], lit_const("2"), vec![op(Opcode::End)]])
    );
}

#[test]
fn readme_drawing_example_compiles() {
    let src = "extern console_log(msg)
extern global_get_window()
extern window_get_document(window)
extern document_query_selector(document,query)
extern htmlcanvas_get_context(element,context)
extern canvas_set_fill_style(canvas,color)
extern canvas_fill_rect(canvas,x,y,w,h)

static colors = (\"black\",\"grey\",\"red\")

pub fn main(){
    // setup a drawing context
    window = global_get_window()
    document = window_get_document(window)
    canvas = document_query_selector(document,\"#screen\")
    ctx = htmlcanvas_get_context(canvas,\"2d\")

    x = 0
    loop {
        // get the offset for the color to use
        color_offset = (colors + (x * size_num))
        // set current color to string at that position
        canvas_set_fill_style(ctx,mem(color_offset))
        // draw the rect
        canvas_fill_rect(ctx,(x * 10),(x * 10),50,50)
        // recur until 3 squares are drawn
        x = (x + 1)
        if (x < 3) {
            recur
        }
    }
}
";
    let m = build(src);
    assert_eq!(m.imports.len(), 7);
    let code = &m.functions[0].code;
    let br = code.iter().position(|t| *t == op(Opcode::Br)).unwrap();
    assert_eq!(code[br + 1], Token::UInt(1));
    assert_eq!(m.functions[0].locals.len(), 6);
}

#[test]
fn run_reports_parse_errors() {
    assert_eq!(run("pub fn f( {"), Err(WaspError::Parse(ParseError::Syntax)));
    assert_eq!(run("pub fn f(){ fn(())->f64 }"), Err(WaspError::Parse(ParseError::InvalidType)));
}

#[test]
fn function_table_lists_imports_then_functions() {
    let m = build("extern a(x)\nfn b(){ 1 }\nextern c()\npub fn d(){ b() }");
    assert_eq!(
        m.imports,
        vec![Import { name: "a".to_string(), params: 1 }, Import { name: "c".to_string(), params: 0 }]
    );
    assert_eq!(m.table_size, 4);
    assert_eq!(m.elements, vec![0, 1, 2, 3]);
    assert_eq!(m.functions.len(), 2);
    assert_eq!(m.functions[1].code, vec![op(Opcode::Call), Token::Int(2), op(Opcode::End)]);
}

#[test]
fn text_literal_is_a_c_string() {
    let m = build("pub fn f(){ \"é\" }");
    assert_eq!(m.data, vec![DataSegment { offset: 4, items: vec![DataItem::Bytes(vec![0xc3, 0xa9, 0])] }]);
    assert_eq!(m.globals, heap_globals(8));
}

#[test]
fn symbols_keep_their_values_across_the_program() {
    let m = build("static a = :x\npub fn f(){ :y :x a }");
    assert_eq!(
        m.functions[0].code,
        cat(vec![
            int_const(2),
            vec![op(Opcode::Drop)],
            int_const(1),
            vec![op(Opcode::Drop)],
            int_const(1),
            vec![op(Opcode::End)],
        ])
    );
}

#[test]
fn let_names_end_with_the_let() {
    assert_eq!(
        failure_of("pub fn f(){ let (y 1) { y } y }"),
        CompileError::UnknownIdentifier("y".to_string())
    );
}

#[test]
fn compile_directly_from_a_tree() {
    let m = compile(function_with(vec![Expression::Number(lit(true, "2.5"))])).unwrap();
    assert_eq!(
        m.functions[0].code,
        vec![op(Opcode::F64Const), Token::F64(Num::Lit(lit(true, "2.5"))), op(Opcode::End)]
    );
    assert_eq!(m.table_size, 1);
    assert_eq!(m.elements, vec![0]);
}

#[test]
fn recur_in_an_if_condition_restarts_the_loop() {
    let m = build("pub fn f(){ loop { if(recur, 1) } }");
    assert_eq!(
        m.functions[0].code,
        cat(vec![
            vec![op(Opcode::Loop), op(Opcode::F64)],
            int_const(0),
            vec![op(Opcode::Br), Token::UInt(0)],
            int_const(0),
            vec![
                op(Opcode::F64Eq),
                op(Opcode::I32Const),
                Token::Int(0),
                op(Opcode::I32Eq),
                op(Opcode::If),
                op(Opcode::F64),
            ],
            lit_const("1"),
            vec![op(Opcode::Else)],
            int_const(0),
            vec![op(Opcode::End), op(Opcode::End), op(Opcode::End)],
        ])
    );
}

#[test]
fn heap_end_reads_and_moves_the_heap_end() {
    let m = build("pub fn f(){ mem_heap_end() mem_heap_end(8) }");
    assert_eq!(
        m.functions[0].code,
        cat(vec![
            vec![op(Opcode::GlobalGet), Token::Int(1), op(Opcode::F64ConvertSI32), op(Opcode::Drop)],
            lit_const("8"),
            vec![op(Opcode::I32TruncSF64), op(Opcode::GlobalSet), Token::Int(1)],
            int_const(0),
            vec![op(Opcode::End)],
        ])
    );
}

#[test]
fn data_is_aligned_to_four_bytes() {
    let m = build("pub fn f(){ \"abc\" \"de\" }");
    assert_eq!(
        m.data,
        vec![
            DataSegment { offset: 4, items: vec![DataItem::Bytes(vec![97, 98, 99, 0])] },
            DataSegment { offset: 8, items: vec![DataItem::Bytes(vec![100, 101, 0])] },
        ]
    );
    assert_eq!(
        m.functions[0].code,
        cat(vec![int_const(4), vec![op(Opcode::Drop)], int_const(8), vec![op(Opcode::End)]])
    );
    assert_eq!(m.globals, heap_globals(12));
}

#[test]
fn a_body_compiles_as_it_does_without_its_comments() {
    assert_eq!(
        build("pub fn f(){ // a\n 1 // b\n // c\n 2 // d\n }"),
        build("pub fn f(){ 1 2 }")
    );
}
