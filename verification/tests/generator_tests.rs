use simpla::generator::byte_code_generator::VariableCounter;
use simpla::generator::instruction::truncate_str_to_byte_len;
use simpla::generator::opcode;
use simpla::generator::simple_counter::SimpleCounter;
use simpla::generator::translate::translate_to_byte_code;
use simpla::generator::var_cache::KindCounter;
use simpla::semantic_analysis::semantic_check::check_program;
use simpla::semantic_analysis::semantic_error::{
    ForLoopError, ForLoopErrorType, SemanticError,
};
use simpla::syntax_tree::{
    AssignStat, Const, Expr, ExprTree, Factor, FactorValue, ForStat, FuncCall, FuncDecl, IfStat,
    Kind, Location, Operator, ParamDecl, Program, Stat, StatType, VarDecl, WriteStat,
};

fn make_constant_expr(const_val: Const) -> Expr {
    Expr::new(
        ExprTree::Factor(Factor::new(FactorValue::Const(const_val))),
        0,
        0,
    )
}

fn id_expr(name: &str) -> Expr {
    Expr::new(
        ExprTree::Factor(Factor::new(FactorValue::Id(name.to_owned()))),
        0,
        0,
    )
}

fn binary(lhs: Expr, op: Operator, rhs: Expr) -> Expr {
    Expr::new(ExprTree::Node(Box::new(lhs), op, Box::new(rhs)), 0, 0)
}

#[test]
fn test_truncate_string_with_long_string() {
    // each emoji requires 4 bytes
    let string = "😀😀😀😀😀😀😀😀😀😀😀";
    let byte_count = 5;
    let bytes = truncate_str_to_byte_len(string, byte_count);
    assert!(bytes.len() < byte_count);
    let byte_vec = Vec::from(bytes);
    let new_string = String::from_utf8(byte_vec).unwrap();
    // so a string long at most 5 bytes can contain just one emoji
    assert_eq!(new_string, "😀");
}

#[test]
fn test_truncate_string_with_short_string() {
    let string = "😀😀😀😀😀😀😀😀😀😀😀";
    let byte_count = 100;
    let bytes = truncate_str_to_byte_len(string, byte_count);
    assert_eq!(bytes.len(), string.len());
    let byte_vec = Vec::from(bytes);
    let new_string = String::from_utf8(byte_vec).unwrap();
    assert_eq!(new_string, string);
}

#[test]
fn test_simple_counter() {
    let mut counter = SimpleCounter::new();
    for i in 0..10 {
        assert_eq!(i, counter.count_one());
    }
    assert_eq!(counter.counter, 10);
    counter.reset();
    assert_eq!(counter.counter, 0);
}

#[test]
fn test_kind_counter() {
    let kind_vector: &[(Kind, u16)] = &[
        (Kind::Str, 0),
        (Kind::Str, 1),
        (Kind::Int, 0),
        (Kind::Bool, 0),
        (Kind::Real, 0),
        (Kind::Bool, 1),
        (Kind::Bool, 2),
        (Kind::Int, 1),
    ];

    let mut counter = KindCounter::new();

    for (k, i) in kind_vector.iter() {
        let tmp = counter.get_index(k);
        assert_eq!(tmp, *i);
    }
}

fn var_decl(names: &[&str], kind: Kind) -> VarDecl {
    VarDecl::new(
        names.iter().map(|s| s.to_string()).collect(),
        kind,
        0,
        0,
    )
}

#[test]
fn test_variable_counter() {
    let no_vars: Vec<VarDecl> = vec![];
    let var_count = VariableCounter::count_variables(&no_vars);
    assert_eq!(var_count.integer_count, 0);
    assert_eq!(var_count.real_count, 0);
    assert_eq!(var_count.boolean_count, 0);
    assert_eq!(var_count.string_count, 0);

    let some_vars = vec![
        var_decl(&["a", "b", "c"], Kind::Int),
        var_decl(&["d"], Kind::Int),
        var_decl(&["s"], Kind::Str),
        var_decl(&["q", "w", "e", "r", "t", "y"], Kind::Bool),
        var_decl(&["h", "j", "k"], Kind::Real),
        var_decl(&["p"], Kind::Str),
    ];
    let var_count = VariableCounter::count_variables(&some_vars);
    assert_eq!(var_count.integer_count, 4);
    assert_eq!(var_count.real_count, 3);
    assert_eq!(var_count.boolean_count, 6);
    assert_eq!(var_count.string_count, 2);
}

/// The canonical factorial program: one global integer, a `factorial`
/// function, a `print_factorials` procedure, and a main body that reads
/// a number, guards on negativity, and calls `print_factorials`.
fn factorial_program() -> Program {
    let factorial = FuncDecl::new(
        "factorial".to_owned(),
        vec![ParamDecl::new("n".to_owned(), Kind::Int)],
        Kind::Int,
        vec![var_decl(&["fact"], Kind::Int)],
        vec![
            Stat::new(
                StatType::IfStat(IfStat::new(
                    binary(id_expr("n"), Operator::Equal, make_constant_expr(Const::IntConst(0))),
                    vec![Stat::new(
                        StatType::AssignStat(AssignStat::new(
                            "fact".to_owned(),
                            make_constant_expr(Const::IntConst(1)),
                        )),
                        30,
                        40,
                    )],
                    Some(vec![Stat::new(
                        StatType::AssignStat(AssignStat::new(
                            "fact".to_owned(),
                            binary(
                                id_expr("n"),
                                Operator::Mul,
                                Expr::new(
                                    ExprTree::Factor(Factor::new(FactorValue::FuncCall(
                                        FuncCall::new(
                                            "factorial".to_owned(),
                                            vec![binary(
                                                id_expr("n"),
                                                Operator::Sub,
                                                make_constant_expr(Const::IntConst(1)),
                                            )],
                                        ),
                                    ))),
                                    50,
                                    70,
                                ),
                            ),
                        )),
                        45,
                        75,
                    )]),
                )),
                25,
                80,
            ),
            Stat::new(
                StatType::ReturnStat(Some(id_expr("fact"))),
                85,
                98,
            ),
        ],
        10,
        100,
    );
    let print_factorials = FuncDecl::new(
        "print_factorials".to_owned(),
        vec![ParamDecl::new("tot".to_owned(), Kind::Int)],
        Kind::Void,
        vec![var_decl(&["i", "f"], Kind::Int)],
        vec![Stat::new(
            StatType::ForStat(ForStat::new(
                "i".to_owned(),
                make_constant_expr(Const::IntConst(0)),
                id_expr("tot"),
                vec![
                    Stat::new(
                        StatType::AssignStat(AssignStat::new(
                            "f".to_owned(),
                            Expr::new(
                                ExprTree::Factor(Factor::new(FactorValue::FuncCall(
                                    FuncCall::new(
                                        "factorial".to_owned(),
                                        vec![id_expr("i")],
                                    ),
                                ))),
                                120,
                                135,
                            ),
                        )),
                        115,
                        135,
                    ),
                    Stat::new(
                        StatType::WriteStat(WriteStat::WriteLine(vec![
                            id_expr("i"),
                            make_constant_expr(Const::StrConst("factorial is".to_owned())),
                            id_expr("f"),
                        ])),
                        140,
                        170,
                    ),
                ],
            )),
            110,
            175,
        )],
        105,
        180,
    );
    Program::new(
        vec![var_decl(&["number"], Kind::Int)],
        vec![factorial, print_factorials],
        vec![
            Stat::new(StatType::ReadStat(vec!["number".to_owned()]), 200, 212),
            Stat::new(
                StatType::IfStat(IfStat::new(
                    binary(
                        id_expr("number"),
                        Operator::Less,
                        make_constant_expr(Const::IntConst(0)),
                    ),
                    vec![Stat::new(
                        StatType::WriteStat(WriteStat::WriteLine(vec![
                            id_expr("number"),
                            make_constant_expr(Const::StrConst(
                                "is not a valid number".to_owned(),
                            )),
                        ])),
                        220,
                        250,
                    )],
                    Some(vec![Stat::new(
                        StatType::FuncCall(FuncCall::new(
                            "print_factorials".to_owned(),
                            vec![id_expr("number")],
                        )),
                        260,
                        285,
                    )]),
                )),
                215,
                290,
            ),
        ],
    )
}

#[test]
fn test_factorial_accepted_and_translated() {
    let prog = factorial_program();
    let annotated = check_program(&prog).expect("the factorial program is accepted");
    let bytes = translate_to_byte_code(&annotated);
    assert!(!bytes.is_empty());
    // the stream begins with the allocation block of one global integer
    assert_eq!(bytes[0], opcode::INIT);
    assert_eq!(&bytes[1..9], &[0, 1, 0, 0, 0, 0, 0, 0]);
    // the main body is terminated by the exit opcode, and the stream
    // ends with the function definitions, each closed by a return
    assert!(bytes.contains(&opcode::EXT));
    assert_eq!(*bytes.last().unwrap(), opcode::RET);
    // both function definitions are present
    let func_count = bytes.iter().filter(|b| **b == opcode::FUNC).count();
    assert!(func_count >= 2);
}

#[test]
fn test_accepted_program_is_fully_annotated() {
    // every expression of the accepted copy carries its resolved kind
    let prog = factorial_program();
    let annotated = check_program(&prog).unwrap();
    fn expr_annotated(e: &Expr) -> bool {
        if e.kind.is_none() {
            return false;
        }
        match &e.expr {
            ExprTree::Node(l, _, r) => expr_annotated(l) && expr_annotated(r),
            ExprTree::Factor(f) => factor_annotated(f),
        }
    }
    fn factor_annotated(f: &Factor) -> bool {
        if f.kind.is_none() {
            return false;
        }
        match &f.fact {
            FactorValue::Id(_) | FactorValue::Const(_) => true,
            FactorValue::HighPrecedence(e) => expr_annotated(e),
            FactorValue::CastExpr(c) => match c {
                simpla::syntax_tree::CastExpr::Integer(e) => expr_annotated(e),
                simpla::syntax_tree::CastExpr::Real(e) => expr_annotated(e),
            },
            FactorValue::UnaryOp(u) => match u {
                simpla::syntax_tree::UnaryOp::Minus(f) => factor_annotated(f),
                simpla::syntax_tree::UnaryOp::Negate(f) => factor_annotated(f),
            },
            FactorValue::CondExpr(c) => {
                expr_annotated(&c.cond)
                    && expr_annotated(&c.true_stat)
                    && expr_annotated(&c.false_stat)
            }
            FactorValue::FuncCall(fc) => fc.args.iter().all(expr_annotated),
        }
    }
    fn stat_annotated(s: &Stat) -> bool {
        match &s.stat {
            StatType::AssignStat(a) => expr_annotated(&a.expr),
            StatType::IfStat(i) => {
                expr_annotated(&i.cond)
                    && i.if_body.iter().all(stat_annotated)
                    && i.else_body.iter().flatten().all(stat_annotated)
            }
            StatType::WhileStat(w) => {
                expr_annotated(&w.cond) && w.body.iter().all(stat_annotated)
            }
            StatType::ForStat(f) => {
                expr_annotated(&f.begin_expr)
                    && expr_annotated(&f.end_expr)
                    && f.body.iter().all(stat_annotated)
            }
            StatType::ReturnStat(o) => o.iter().all(expr_annotated),
            StatType::ReadStat(_) | StatType::Break => true,
            StatType::WriteStat(w) => match w {
                WriteStat::Write(l) => l.iter().all(expr_annotated),
                WriteStat::WriteLine(l) => l.iter().all(expr_annotated),
            },
            StatType::FuncCall(fc) => fc.args.iter().all(expr_annotated),
        }
    }
    assert!(annotated.body.iter().all(stat_annotated));
    for f in &annotated.functions {
        assert!(f.body.iter().all(stat_annotated));
    }
}

#[test]
fn test_semantic_check_is_idempotent() {
    // running the analysis again on its own output succeeds with no
    // new errors, and leaves the annotations as they are
    let prog = factorial_program();
    let annotated = check_program(&prog).unwrap();
    let again = check_program(&annotated).expect("an accepted program stays accepted");
    assert_eq!(annotated, again);
}

#[test]
fn test_for_counter_assignment_rejected() {
    // for i = 0 to 10 do i = i + 1; end
    let body = vec![Stat::new(
        StatType::ForStat(ForStat::new(
            "i".to_owned(),
            make_constant_expr(Const::IntConst(0)),
            make_constant_expr(Const::IntConst(10)),
            vec![Stat::new(
                StatType::AssignStat(AssignStat::new(
                    "i".to_owned(),
                    binary(id_expr("i"), Operator::Add, make_constant_expr(Const::IntConst(1))),
                )),
                40,
                49,
            )],
        )),
        20,
        60,
    )];
    let prog = Program::new(vec![var_decl(&["i"], Kind::Int)], vec![], body);
    let err = check_program(&prog).unwrap_err();
    match err {
        SemanticError::ForLoopError(ForLoopError { loc, error }) => {
            assert_eq!(error, ForLoopErrorType::CountVariableAssignment("i".to_owned()));
            assert_eq!(loc, Location::new(40, 49));
        }
        other => panic!("wrong error variant: {:?}", other),
    }
}

#[test]
fn test_missing_return_rejected() {
    // func f(): integer body if n > 0 then return 1; end; end
    let f = FuncDecl::new(
        "f".to_owned(),
        vec![],
        Kind::Int,
        vec![],
        vec![Stat::new(
            StatType::IfStat(IfStat::new(
                binary(id_expr("n"), Operator::Greater, make_constant_expr(Const::IntConst(0))),
                vec![Stat::new(
                    StatType::ReturnStat(Some(make_constant_expr(Const::IntConst(1)))),
                    40,
                    50,
                )],
                None,
            )),
            30,
            60,
        )],
        10,
        70,
    );
    let prog = Program::new(vec![var_decl(&["n"], Kind::Int)], vec![f], vec![]);
    let err = check_program(&prog).unwrap_err();
    match err {
        SemanticError::MissingReturn(m) => {
            assert_eq!(m.kind, Kind::Int);
            assert_eq!(m.func_loc, Location::new(10, 70));
            assert_eq!(m.stat_loc, Location::new(30, 60));
        }
        other => panic!("wrong error variant: {:?}", other),
    }
}

#[test]
fn test_operator_precedence_types() {
    // a = 5 + 6 * 7 * (8 + 9), with the tree the grammar gives it,
    // types as an integer assignment
    let expr = binary(
        make_constant_expr(Const::IntConst(5)),
        Operator::Add,
        binary(
            binary(
                make_constant_expr(Const::IntConst(6)),
                Operator::Mul,
                make_constant_expr(Const::IntConst(7)),
            ),
            Operator::Mul,
            Expr::new(
                ExprTree::Factor(Factor::new(FactorValue::HighPrecedence(Box::new(binary(
                    make_constant_expr(Const::IntConst(8)),
                    Operator::Add,
                    make_constant_expr(Const::IntConst(9)),
                ))))),
                0,
                0,
            ),
        ),
    );
    let body = vec![Stat::new(
        StatType::AssignStat(AssignStat::new("a".to_owned(), expr)),
        0,
        0,
    )];
    let prog = Program::new(vec![var_decl(&["a"], Kind::Int)], vec![], body);
    let annotated = check_program(&prog).unwrap();
    match &annotated.body[0].stat {
        StatType::AssignStat(a) => assert_eq!(a.expr.kind, Some(Kind::Int)),
        _ => panic!("not an assignment"),
    }
}

#[test]
fn test_string_truncation_in_stream() {
    // a write of a string over the 16-bit length space is cut at a
    // codepoint boundary, and the length field matches the payload
    let big = "😀".repeat(20000);  // 80000 bytes
    assert!(big.len() > 0xffff);
    let body = vec![Stat::new(
        StatType::WriteStat(WriteStat::Write(vec![make_constant_expr(Const::StrConst(
            big.clone(),
        ))])),
        0,
        0,
    )];
    let prog = Program::new(vec![], vec![], body);
    let annotated = check_program(&prog).unwrap();
    let bytes = translate_to_byte_code(&annotated);
    // stream: INIT + 8 count bytes, then LDSC, length, payload
    assert_eq!(bytes[9], opcode::LDSC);
    let len = u16::from_be_bytes([bytes[10], bytes[11]]) as usize;
    assert!(len <= 0xffff);
    assert_eq!(len % 4, 0);  // whole 4-byte codepoints only
    let payload = &bytes[12..12 + len];
    assert!(String::from_utf8(payload.to_vec()).is_ok());
    // after the payload: the write opcode, the flush, and the exit
    assert_eq!(bytes[12 + len], opcode::WRS);
    assert_eq!(bytes[13 + len], opcode::FLU);
    assert_eq!(bytes[14 + len], opcode::EXT);
    assert_eq!(bytes.len(), 15 + len);
}

#[test]
fn test_break_outside_loop_rejected() {
    let body = vec![Stat::new(StatType::Break, 5, 10)];
    let prog = Program::new(vec![], vec![], body);
    assert_eq!(check_program(&prog).unwrap_err(), SemanticError::BreakOutsideLoop);
}

#[test]
fn test_unknown_variable_rejected() {
    let body = vec![Stat::new(
        StatType::AssignStat(AssignStat::new(
            "ghostly".to_owned(),
            make_constant_expr(Const::IntConst(1)),
        )),
        0,
        0,
    )];
    let prog = Program::new(vec![], vec![], body);
    assert_eq!(
        check_program(&prog).unwrap_err(),
        SemanticError::UnknownVariable("ghostly".to_owned())
    );
}

#[test]
fn test_unknown_function_rejected() {
    let body = vec![Stat::new(
        StatType::FuncCall(FuncCall::new("nowhere".to_owned(), vec![])),
        0,
        0,
    )];
    let prog = Program::new(vec![], vec![], body);
    assert_eq!(
        check_program(&prog).unwrap_err(),
        SemanticError::UnknownFunction("nowhere".to_owned())
    );
}

#[test]
fn test_function_shadowing_global_rejected() {
    let f = FuncDecl::new("x".to_owned(), vec![], Kind::Void, vec![], vec![], 30, 40);
    let prog = Program::new(vec![var_decl(&["x"], Kind::Int)], vec![f], vec![]);
    match check_program(&prog).unwrap_err() {
        SemanticError::NameRidefinition(r) => {
            assert_eq!(r.name, "x");
            assert!(matches!(r.original, simpla::semantic_analysis::semantic_error::Ridefinition::Variable(_)));
            assert!(matches!(r.new, simpla::semantic_analysis::semantic_error::Ridefinition::Function(_)));
        }
        other => panic!("wrong error variant: {:?}", other),
    }
}

#[test]
fn test_local_shadowing_global_accepted() {
    // a local may shadow a global of another kind; the body then uses
    // the local's kind
    let f = FuncDecl::new(
        "f".to_owned(),
        vec![],
        Kind::Void,
        vec![var_decl(&["x"], Kind::Str)],
        vec![Stat::new(
            StatType::AssignStat(AssignStat::new(
                "x".to_owned(),
                make_constant_expr(Const::StrConst("shadowed".to_owned())),
            )),
            0,
            0,
        )],
        30,
        40,
    );
    let prog = Program::new(vec![var_decl(&["x"], Kind::Int)], vec![f], vec![]);
    assert!(check_program(&prog).is_ok());
}

#[test]
fn test_short_circuit_stream_shape() {
    // b = true and false: the stream short-circuits with a conditional
    // jump, a skip over the right operand, and a pushed false
    let body = vec![Stat::new(
        StatType::AssignStat(AssignStat::new(
            "b".to_owned(),
            binary(
                make_constant_expr(Const::BoolConst(true)),
                Operator::And,
                make_constant_expr(Const::BoolConst(false)),
            ),
        )),
        0,
        0,
    )];
    let prog = Program::new(vec![var_decl(&["b"], Kind::Bool)], vec![], body);
    let annotated = check_program(&prog).unwrap();
    let bytes = translate_to_byte_code(&annotated);
    let expected: Vec<u8> = vec![
        opcode::INIT, 0, 0, 0, 0, 0, 1, 0, 0,  // one global boolean
        opcode::LDBC, 255,                     // true
        opcode::JNE, 0, 0,                     // if false, jump to label 0
        opcode::LDBC, 0,                       // false
        opcode::JUMP, 0, 1,                    // skip to label 1
        opcode::LBL, 0, 0,
        opcode::LDBC, 0,                       // the short-circuit value
        opcode::LBL, 0, 1,
        opcode::STRB, 0, 0,                    // store into the global
        opcode::EXT,
    ];
    assert_eq!(bytes, expected);
}
