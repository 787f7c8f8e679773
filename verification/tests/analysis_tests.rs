use simpla::semantic_analysis::analyze_return_stat::check_full_return_cover;
use simpla::semantic_analysis::name_table::{name_table_factory, LocalVariableTable, VariableTable};
use simpla::semantic_analysis::semantic_error::{
    ArgumentCountError, CastError, ForLoopError, ForLoopErrorType, MismatchedArgumentType,
    MismatchedAssignment, MismatchedTypes, MismatchedUnary, NonBooleanCondition,
    NonBooleanConditionType, Ridefinition, ReturnError, ReturnErrorType, SemanticError,
};
use simpla::semantic_analysis::stat_check::{
    check_assign_stat, check_for_stat, check_return_stat, check_while_stat, CheckStatus, Contex,
    LoopContext,
};
use simpla::semantic_analysis::type_check::{
    check_cast, check_conditional_expression, check_function_call, check_unary_operator,
    coherent_operation,
};
use simpla::semantic_analysis::variable_check::check_variables;
use simpla::syntax_tree::{
    AssignStat, CastExpr, CondExpr, Const, Expr, ExprTree, Factor, FactorValue, ForStat, FuncCall,
    FuncDecl, IfStat, Kind, Location, Operator, ParamDecl, Stat, StatType, UnaryOp, VarDecl,
    WhileStat,
};

fn make_constant_expr(const_val: Const) -> Expr {
    Expr::new(
        ExprTree::Factor(Factor::new(FactorValue::Const(const_val))),
        0,
        0,
    )
}

fn local_table() -> LocalVariableTable {
    name_table_factory()
        .switch_to_function_table()
        .switch_to_local_table()
        .factory_local_table()
}

#[test]
fn test_check_assign_stat() {
    let var_name = "test";
    let stat = AssignStat::new(
        var_name.to_owned(),
        make_constant_expr(Const::IntConst(7)),
    );
    let loc = Location::new(56, 120);
    let table_factory = name_table_factory()
        .switch_to_function_table()
        .switch_to_local_table();
    let mut table = table_factory.factory_local_table();
    table
        .insert_variable(&var_name.to_owned(), &Kind::Int, &loc)
        .unwrap();

    let mut loop_contex = LoopContext::new();

    check_assign_stat(&stat, &table, &loop_contex, &Location::new(0, 0)).unwrap();
    assert!(matches!(
        loop_contex.enter_for_loop(&var_name.to_owned()),
        CheckStatus::Success
    ));

    assert!(matches!(
        check_assign_stat(&stat, &table, &loop_contex, &Location::new(0, 0)),
        Err(SemanticError::ForLoopError(ForLoopError { loc: _, error }))
            if matches!(&error, ForLoopErrorType::CountVariableAssignment(name) if name == var_name)
    ));

    loop_contex.exit_for_loop(&var_name.to_owned());
    check_assign_stat(&stat, &table, &loop_contex, &Location::new(0, 0)).unwrap();

    let stat = AssignStat::new(
        var_name.to_owned(),
        make_constant_expr(Const::RealConst(7.5f64.to_bits())),
    );

    assert!(matches!(
        check_assign_stat(&stat, &table, &loop_contex, &Location::new(0, 0)),
        Err(SemanticError::MismatchedAssignment(mistmatch))
            if mistmatch
                == MismatchedAssignment::new(
                    var_name.to_owned(),
                    Kind::Int,
                    Kind::Real,
                    &Location::new(0, 0)
                )
    ));
}

#[test]
fn test_loop_contex() {
    let mut loop_contex = LoopContext::new();

    assert!(matches!(loop_contex.check_break(), CheckStatus::Failure));
    let names = ["a", "name", "var", "stuff"];
    for name in &names {
        assert!(matches!(
            loop_contex.enter_for_loop(&name.to_string()),
            CheckStatus::Success
        ));
        assert!(matches!(loop_contex.check_break(), CheckStatus::Success));
    }

    assert_eq!(loop_contex.nested_loops(), names.len());

    assert!(matches!(loop_contex.check_break(), CheckStatus::Success));

    for name in &names {
        assert!(matches!(loop_contex.check_break(), CheckStatus::Success));
        loop_contex.exit_for_loop(&name.to_string());
    }

    assert_eq!(loop_contex.nested_loops(), 0);
    assert!(matches!(loop_contex.check_break(), CheckStatus::Failure));

    loop_contex.enter_while_loop();
    assert_eq!(loop_contex.nested_loops(), 1);
    assert_eq!(loop_contex.indexes.len(), 0);

    loop_contex.exit_while_loop();
    assert_eq!(loop_contex.nested_loops(), 0);
    assert_eq!(loop_contex.indexes.len(), 0);
}

#[test]
fn test_check_return_stat() {
    let return_stat = Some(make_constant_expr(Const::RealConst(2.3f64.to_bits())));
    let func_decl = FuncDecl::new(
        "func_name".to_owned(),
        vec![],
        Kind::Real,
        vec![],
        vec![],
        0,
        0,
    );
    let table = local_table();

    check_return_stat(
        &return_stat,
        &table,
        &Contex::Function(&func_decl),
        &Location::new(0, 0),
    )
    .unwrap();

    let func_decl = FuncDecl::new(
        "func_name".to_owned(),
        vec![],
        Kind::Int,
        vec![],
        vec![],
        0,
        0,
    );

    let fake_location = Location::new(0, 0);
    let stat = check_return_stat(
        &return_stat,
        &table,
        &Contex::Function(&func_decl),
        &fake_location,
    );
    assert!(
        matches!(stat, Err(SemanticError::ReturnError(ReturnError { loc: _, error }))
            if matches!(
                &error,
                ReturnErrorType::MismatchedReturnType(correct, given)
                if correct == &Kind::Int && given == &Kind::Real
            )
        )
    );

    let stat = check_return_stat(&return_stat, &table, &Contex::Global, &fake_location);
    assert!(matches!(
        stat,
        Err(SemanticError::ReturnError(ReturnError { loc: _, error }))
            if matches!(error, ReturnErrorType::ReturnOutsideFunction)
    ));
}

fn make_for_stat(index: &str, from: Const, to: Const) -> ForStat {
    ForStat::new(
        index.to_owned(),
        make_constant_expr(from),
        make_constant_expr(to),
        vec![],
    )
}

#[test]
fn test_check_for_stat() {
    let fake_location = Location::new(0, 0);
    let index_var = "index";
    let for_stat = make_for_stat(index_var, Const::IntConst(0), Const::IntConst(9));

    let loc = Location::new(45, 70);
    let table_factory = name_table_factory()
        .switch_to_function_table()
        .switch_to_local_table();
    let mut table = table_factory.factory_local_table();
    table
        .insert_variable(&index_var.to_owned(), &Kind::Int, &loc)
        .unwrap();

    let mut loop_contex = LoopContext::new();

    check_for_stat(
        &for_stat,
        &table,
        &Contex::Global,
        &mut loop_contex,
        &fake_location,
    )
    .unwrap();

    assert_eq!(loop_contex.nested_loops(), 0);
    assert_eq!(loop_contex.indexes.len(), 0);

    let for_stat = make_for_stat(
        index_var,
        Const::RealConst(0.0f64.to_bits()),
        Const::IntConst(10),
    );
    let stat = check_for_stat(
        &for_stat,
        &table,
        &Contex::Global,
        &mut loop_contex,
        &fake_location,
    );
    assert!(matches!(stat,
        Err(SemanticError::ForLoopError(ForLoopError { loc: _, error }))
            if matches!(&error, ForLoopErrorType::NonIntegerStart(kind) if kind == &Kind::Real)));

    let for_stat = make_for_stat(
        index_var,
        Const::IntConst(0),
        Const::RealConst(10.0f64.to_bits()),
    );
    let stat = check_for_stat(
        &for_stat,
        &table,
        &Contex::Global,
        &mut loop_contex,
        &fake_location,
    );
    assert!(matches!(stat,
        Err(SemanticError::ForLoopError(ForLoopError { loc: _, error }))
            if matches!(&error, ForLoopErrorType::NonIntegerEnd(kind) if kind == &Kind::Real)));
}

fn make_while_stat(op: Operator) -> WhileStat {
    WhileStat::new(
        Expr::new(
            ExprTree::Node(
                Box::new(make_constant_expr(Const::RealConst(7.8f64.to_bits()))),
                op,
                Box::new(make_constant_expr(Const::RealConst(6.8f64.to_bits()))),
            ),
            0,
            0,
        ),
        vec![],
    )
}

#[test]
fn test_check_while_stat() {
    let fake_location = Location::new(0, 0);
    let table = local_table();
    let while_stat = make_while_stat(Operator::Greater);

    let mut loop_contex = LoopContext::new();

    check_while_stat(
        &while_stat,
        &table,
        &Contex::Global,
        &mut loop_contex,
        &fake_location,
    )
    .unwrap();

    assert_eq!(loop_contex.nested_loops(), 0);
    assert_eq!(loop_contex.indexes.len(), 0);

    let while_stat = make_while_stat(Operator::Add);

    let stat = check_while_stat(
        &while_stat,
        &table,
        &Contex::Global,
        &mut loop_contex,
        &fake_location,
    );

    assert!(matches!(stat,
        Err(SemanticError::NonBooleanCondition(NonBooleanCondition { loc: _, error }))
            if matches!(&error, NonBooleanConditionType::WhileStat(kind) if kind == &Kind::Real)));

    assert_eq!(loop_contex.nested_loops(), 0);
    assert_eq!(loop_contex.indexes.len(), 0);
}

fn check_error_status(res: Result<(FuncCall, Kind), SemanticError>, expected: SemanticError) {
    match res {
        Ok(_) => panic!("this call is not an error"),
        Err(err) => assert_eq!(err, expected),
    }
}

#[test]
fn test_check_function_call() {
    let fake_location = Location::new(0, 0);
    let mut table = name_table_factory();
    let var_name = "value";
    let loc = Location::new(123, 456);
    table
        .insert_variable(&var_name.to_owned(), &Kind::Int, &loc)
        .unwrap();

    let func_name_a = "test";
    let func_decl_a = FuncDecl::new(func_name_a.to_owned(), vec![], Kind::Int, vec![], vec![], 0, 0);

    let func_name_b = "do_stuff";
    let func_decl_b = FuncDecl::new(
        func_name_b.to_owned(),
        vec![ParamDecl::new("arg".to_owned(), Kind::Str)],
        Kind::Real,
        vec![],
        vec![],
        0,
        0,
    );

    let mut table = table.switch_to_function_table();
    table
        .insert_function(&func_name_a.to_owned(), &Kind::Int, vec![], &Location::new(0, 0))
        .unwrap();
    table
        .insert_function(
            &func_name_b.to_owned(),
            &Kind::Real,
            vec![Kind::Str],
            &Location::new(0, 0),
        )
        .unwrap();

    let table_factory = table.switch_to_local_table();
    let table = table_factory.factory_local_table();

    let func_call = FuncCall::new(func_name_a.to_owned(), vec![]);

    let stat = check_function_call(&func_call, &table, &Location::new(0, 0)).unwrap();
    assert_eq!(stat.1, Kind::Int);

    let func_call = FuncCall::new(
        func_name_a.to_owned(),
        vec![Expr::new(
            ExprTree::Factor(Factor::new(FactorValue::Id(var_name.to_owned()))),
            0,
            0,
        )],
    );
    let stat = check_function_call(&func_call, &table, &fake_location);
    check_error_status(
        stat,
        SemanticError::ArgumentCountError(ArgumentCountError::new(&func_decl_a, &func_call)),
    );

    let func_call = FuncCall::new(
        func_name_b.to_owned(),
        vec![Expr::new(
            ExprTree::Factor(Factor::new(FactorValue::Id(var_name.to_owned()))),
            0,
            0,
        )],
    );
    let stat = check_function_call(&func_call, &table, &fake_location);
    check_error_status(
        stat,
        SemanticError::MismatchedArgumentType(MismatchedArgumentType::new(
            &func_decl_b,
            Kind::Str,
            Kind::Int,
            0,
            &fake_location,
        )),
    );
}

#[test]
fn test_check_cast() {
    let int_var_name = "int_var";
    let float_var_name = "float_var";
    let loc_int = Location::new(123, 456);
    let loc_real = Location::new(234, 567);
    let mut table = name_table_factory();
    table
        .insert_variable(&int_var_name.to_owned(), &Kind::Int, &loc_int)
        .unwrap();
    table
        .insert_variable(&float_var_name.to_owned(), &Kind::Real, &loc_real)
        .unwrap();

    let table_factory = table.switch_to_function_table().switch_to_local_table();
    let table = table_factory.factory_local_table();

    let correct_real_cast = CastExpr::Real(Box::new(Expr::new(
        ExprTree::Factor(Factor::new(FactorValue::Id(int_var_name.to_owned()))),
        0,
        0,
    )));
    let correct_int_cast = CastExpr::Integer(Box::new(Expr::new(
        ExprTree::Factor(Factor::new(FactorValue::Id(float_var_name.to_owned()))),
        0,
        0,
    )));

    assert_eq!(
        check_cast(&correct_real_cast, &table, &Location::new(0, 0))
            .unwrap()
            .1,
        Kind::Real
    );
    assert_eq!(
        check_cast(&correct_int_cast, &table, &Location::new(0, 0))
            .unwrap()
            .1,
        Kind::Int
    );

    let wrong_int_cast = CastExpr::Integer(Box::new(Expr::new(
        ExprTree::Factor(Factor::new(FactorValue::Id(int_var_name.to_owned()))),
        0,
        0,
    )));
    let wrong_real_cast = CastExpr::Real(Box::new(Expr::new(
        ExprTree::Factor(Factor::new(FactorValue::Id(float_var_name.to_owned()))),
        0,
        0,
    )));

    assert!(matches!(
        check_cast(&wrong_int_cast, &table, &loc_int),
        Err(e) if e == SemanticError::CastError(CastError::new_to_int(&loc_int, Kind::Int))
    ));
    assert!(matches!(
        check_cast(&wrong_real_cast, &table, &loc_real),
        Err(e) if e == SemanticError::CastError(CastError::new_to_real(&loc_real, Kind::Real))
    ));
}

#[test]
fn test_unary_operator() {
    let table = local_table();

    let correct_numeric_expr = Box::new(Expr::new(
        ExprTree::Node(
            Box::new(make_constant_expr(Const::IntConst(4))),
            Operator::Add,
            Box::new(make_constant_expr(Const::IntConst(12))),
        ),
        0,
        10,
    ));
    let correct_boolean_expr = Box::new(Expr::new(
        ExprTree::Node(
            Box::new(make_constant_expr(Const::BoolConst(false))),
            Operator::Or,
            Box::new(make_constant_expr(Const::BoolConst(true))),
        ),
        0,
        0,
    ));

    let correct_numeric_unary = UnaryOp::Minus(Box::new(Factor::new(
        FactorValue::HighPrecedence(correct_numeric_expr),
    )));
    let correct_boolean_unary = UnaryOp::Negate(Box::new(Factor::new(
        FactorValue::HighPrecedence(correct_boolean_expr),
    )));

    assert_eq!(
        check_unary_operator(&correct_numeric_unary, &table, &Location::new(0, 0))
            .unwrap()
            .1,
        Kind::Int
    );
    assert_eq!(
        check_unary_operator(&correct_boolean_unary, &table, &Location::new(0, 0))
            .unwrap()
            .1,
        Kind::Bool
    );

    let correct_numeric_expr = match correct_numeric_unary {
        UnaryOp::Minus(out) => out,
        UnaryOp::Negate(out) => out,
    };
    let correct_boolean_expr = match correct_boolean_unary {
        UnaryOp::Minus(out) => out,
        UnaryOp::Negate(out) => out,
    };

    let wrong_numertic_unary = UnaryOp::Minus(correct_boolean_expr);
    let wrong_boolean_unary = UnaryOp::Negate(correct_numeric_expr);

    assert!(matches!(
        check_unary_operator(&wrong_numertic_unary, &table, &Location::new(0, 0)),
        Err(e) if e
            == SemanticError::MismatchedUnary(MismatchedUnary::new_numeric(
                &Location::new(0, 0),
                Kind::Bool
            ))
    ));

    assert!(matches!(
        check_unary_operator(&wrong_boolean_unary, &table, &Location::new(0, 0)),
        Err(e) if e
            == SemanticError::MismatchedUnary(MismatchedUnary::new_logic(
                &Location::new(0, 0),
                Kind::Int
            ))
    ));
}

#[test]
fn test_conditional_expression() {
    let mut table = name_table_factory();
    let int_var_name = "int_var";
    let real_var_name = "real_var";

    let loc_int = Location::new(123, 456);
    let loc_real = Location::new(234, 567);

    table
        .insert_variable(&int_var_name.to_owned(), &Kind::Int, &loc_int)
        .unwrap();
    table
        .insert_variable(&real_var_name.to_owned(), &Kind::Real, &loc_real)
        .unwrap();

    let mut table = table.switch_to_function_table();

    let str_func_name = "str_function";
    table
        .insert_function(
            &str_func_name.to_owned(),
            &Kind::Str,
            vec![Kind::Int],
            &Location::new(0, 0),
        )
        .unwrap();
    table
        .insert_function(
            &"void_function".to_owned(),
            &Kind::Void,
            vec![],
            &Location::new(0, 0),
        )
        .unwrap();

    let str_call = |arg_name: &str| {
        Expr::new(
            ExprTree::Factor(Factor::new(FactorValue::FuncCall(FuncCall::new(
                str_func_name.to_owned(),
                vec![Expr::new(
                    ExprTree::Node(
                        Box::new(Expr::new(
                            ExprTree::Factor(Factor::new(FactorValue::Id(arg_name.to_owned()))),
                            0,
                            0,
                        )),
                        Operator::Mul,
                        Box::new(make_constant_expr(Const::IntConst(21))),
                    ),
                    56,
                    156,
                )],
            )))),
            0,
            0,
        )
    };

    let real_greater = Expr::new(
        ExprTree::Node(
            Box::new(Expr::new(
                ExprTree::Factor(Factor::new(FactorValue::Id(real_var_name.to_owned()))),
                0,
                0,
            )),
            Operator::Greater,
            Box::new(make_constant_expr(Const::RealConst(4.5f64.to_bits()))),
        ),
        10,
        15,
    );

    let correct_cond = CondExpr::new(
        real_greater,
        str_call(int_var_name),
        make_constant_expr(Const::StrConst("test".to_owned())),
    );

    let table_factory = table.switch_to_local_table();
    let table = table_factory.factory_local_table();
    assert_eq!(
        check_conditional_expression(&correct_cond, &table, &Location::new(0, 0))
            .unwrap()
            .1,
        Kind::Str
    );

    let real_greater = Expr::new(
        ExprTree::Node(
            Box::new(Expr::new(
                ExprTree::Factor(Factor::new(FactorValue::Id(real_var_name.to_owned()))),
                0,
                0,
            )),
            Operator::Greater,
            Box::new(make_constant_expr(Const::RealConst(4.5f64.to_bits()))),
        ),
        56,
        125,
    );
    let mismatched_cond = CondExpr::new(
        real_greater,
        str_call(int_var_name),
        make_constant_expr(Const::IntConst(41)),
    );

    assert!(matches!(
        check_conditional_expression(&mismatched_cond, &table, &Location::new(0, 0)),
        Err(e) if e
            == SemanticError::MismatchedConditionalExpression(MismatchedTypes::new(
                Kind::Str,
                Kind::Int,
                &Location::new(0, 0)
            ))
    ));

    let real_add = Expr::new(
        ExprTree::Node(
            Box::new(Expr::new(
                ExprTree::Factor(Factor::new(FactorValue::Id(real_var_name.to_owned()))),
                0,
                0,
            )),
            Operator::Add,
            Box::new(make_constant_expr(Const::RealConst(4.5f64.to_bits()))),
        ),
        10,
        24,
    );
    let non_bool_cond = CondExpr::new(
        real_add,
        str_call(int_var_name),
        make_constant_expr(Const::StrConst("test".to_owned())),
    );

    assert!(matches!(
        check_conditional_expression(&non_bool_cond, &table, &Location::new(0, 0)),
        Err(e) if e
            == SemanticError::NonBooleanCondition(NonBooleanCondition::new_cond_stat(
                &Location::new(0, 0),
                Kind::Real
            ))
    ));
}

fn run_correct_coherent_test(left: &Kind, op: &Operator, right: &Kind, expected: &Kind) {
    let loc = Location::new(10, 15);
    let stat = coherent_operation(*left, op, *right, &loc);
    match stat {
        Ok(kind) => assert_eq!(&kind, expected),
        Err(err) => panic!("this case generates an error: {:?}", err),
    };
}

fn run_mismatched_types_test(left: &Kind, op: &Operator, right: &Kind) {
    let loc = Location::new(10, 15);
    let stat = coherent_operation(*left, op, *right, &loc);
    match stat {
        Ok(_) => panic!("this case should fail: [{:?}, {:?}, {:?}]", left, op, right),
        Err(err) => match err {
            SemanticError::MismatchedOperationTypes(mismatch) => {
                assert_eq!(&mismatch.left, left);
                assert_eq!(&mismatch.right, right);
            }
            _ => panic!("wrong error variant: {:?}", err),
        },
    }
}

fn run_inchoerent_operation(left: &Kind, op: &Operator, right: &Kind) {
    let loc = Location::new(10, 15);
    let stat = coherent_operation(*left, op, *right, &loc);
    match stat {
        Ok(_) => panic!("this case should fail: [{:?}, {:?}, {:?}]", left, op, right),
        Err(err) => match err {
            SemanticError::IncoherentOperation(incoherent) => {
                assert_eq!(&incoherent.var_kind, left);
                assert_eq!(&incoherent.operator, op);
            }
            _ => panic!("wrong error variant: {:?}", err),
        },
    }
}

#[test]
fn test_coherent_operation() {
    for op in &[Operator::Add, Operator::Sub, Operator::Mul, Operator::Div] {
        for kind in &[Kind::Real, Kind::Int] {
            run_correct_coherent_test(kind, op, kind, kind);
        }
        for kind in &[Kind::Bool, Kind::Str] {
            run_inchoerent_operation(kind, op, kind)
        }
    }

    for op in &[
        Operator::Equal,
        Operator::NotEqual,
        Operator::Less,
        Operator::LessEqual,
        Operator::Greater,
        Operator::GreaterEqual,
    ] {
        for kind in &[Kind::Real, Kind::Int, Kind::Bool, Kind::Str] {
            run_correct_coherent_test(kind, op, kind, &Kind::Bool);
        }
    }

    for op in &[Operator::And, Operator::Or] {
        run_correct_coherent_test(&Kind::Bool, op, &Kind::Bool, &Kind::Bool);
        for kind in &[Kind::Int, Kind::Real, Kind::Str] {
            run_inchoerent_operation(kind, op, kind);
        }
    }

    run_mismatched_types_test(&Kind::Real, &Operator::Sub, &Kind::Int);
    run_mismatched_types_test(&Kind::Bool, &Operator::Less, &Kind::Int);
    run_mismatched_types_test(&Kind::Int, &Operator::Add, &Kind::Real);
}

fn var_decl_list_factory(names: &[&str], kind: Kind) -> VarDecl {
    let tmp = names.iter().map(|s| s.to_string()).collect();
    VarDecl::new(tmp, kind, 0, 0)
}

#[test]
fn test_correct_variable_decl() {
    let var_decl_list = vec![
        var_decl_list_factory(&["var", "a", "test"], Kind::Bool),
        var_decl_list_factory(&["name", "uniq", "f"], Kind::Real),
        var_decl_list_factory(&["important", "csv_file"], Kind::Str),
        var_decl_list_factory(&["pi", "e"], Kind::Real),
        var_decl_list_factory(&["i", "j"], Kind::Int),
    ];

    let mut table = name_table_factory();
    check_variables(&var_decl_list, &mut table).unwrap();
}

#[test]
fn test_void_variable_decl() {
    let void_names = ["void_name", "invalid_type", "illegal_decl"];
    let var_decl_list = vec![
        var_decl_list_factory(&["var", "a", "test"], Kind::Bool),
        var_decl_list_factory(&void_names, Kind::Void),
    ];

    let mut table = name_table_factory();
    let stat = check_variables(&var_decl_list, &mut table);
    match stat {
        Ok(_) => panic!("this list should give a void declaration error"),
        Err(err) => match err {
            SemanticError::VoidVariableDeclaration(decl) => {
                assert_eq!(decl.names, var_decl_list[1].id_list);
                assert_eq!(decl.loc, var_decl_list[1].loc);
            }
            err => panic!("wrong error variant: {:?}", err),
        },
    }
}

#[test]
fn test_duplicated_variable_name() {
    let var_decl_list = vec![
        var_decl_list_factory(&["var", "a", "test"], Kind::Bool),
        var_decl_list_factory(&["name", "a", "f"], Kind::Real),
    ];
    let mut table = name_table_factory();
    let stat = check_variables(&var_decl_list, &mut table);
    match stat {
        Ok(_) => panic!("this list should give a redefinition error"),
        Err(err) => match err {
            SemanticError::NameRidefinition(ridef) => {
                assert_eq!(ridef.name, "a");
                assert_eq!(ridef.original, Ridefinition::Variable(Location::new(0, 0)));
                assert_eq!(ridef.new, Ridefinition::Variable(Location::new(0, 0)));
            }
            err => panic!("wrong error variant: {:?}", err),
        },
    }
}

#[test]
fn test_name_ridefination() {
    let function_name = "test_function";
    let other_function_name = "other_function";
    let func_loc = Location::new(111, 222);

    let loc_a = Location::new(14, 25);
    let loc_b = Location::new(34, 60);
    let loc_c = Location::new(67, 91);

    let global_variable = "test_variable";
    let other_global_variable = "global_variable";
    let local_variable = "local_test";
    let other_local_variable = "other_local_variable";

    let mut table = name_table_factory();
    table
        .insert_variable(&global_variable.to_owned(), &Kind::Int, &loc_a)
        .unwrap();
    table
        .insert_variable(&other_global_variable.to_owned(), &Kind::Real, &loc_b)
        .unwrap();

    let err = table.insert_variable(&global_variable.to_owned(), &Kind::Bool, &loc_c);
    check_ridef_status(
        err.map(|_| ()),
        global_variable,
        Ridefinition::Variable(loc_a),
        Ridefinition::Variable(loc_c),
    );

    let mut table = table.switch_to_function_table();
    table
        .insert_function(&function_name.to_owned(), &Kind::Int, vec![], &func_loc)
        .unwrap();

    let err = table.insert_function(&global_variable.to_owned(), &Kind::Int, vec![], &func_loc);
    check_ridef_status(
        err,
        global_variable,
        Ridefinition::Variable(loc_a),
        Ridefinition::Function(Location::new(111, 222)),
    );

    table
        .insert_function(&other_function_name.to_owned(), &Kind::Int, vec![], &func_loc)
        .unwrap();

    let err = table.insert_function(&function_name.to_owned(), &Kind::Int, vec![], &func_loc);
    check_ridef_status(
        err,
        function_name,
        Ridefinition::Function(Location::new(111, 222)),
        Ridefinition::Function(Location::new(111, 222)),
    );

    let loc_d = Location::new(123, 160);
    let loc_e = Location::new(178, 190);
    let loc_f = Location::new(210, 260);

    let table_factory = table.switch_to_local_table();
    let mut table = table_factory.factory_local_table();
    table
        .insert_variable(&local_variable.to_owned(), &Kind::Real, &loc_d)
        .unwrap();

    let err = table.insert_variable(&function_name.to_owned(), &Kind::Bool, &loc_f);
    check_ridef_status(
        err,
        function_name,
        Ridefinition::Function(Location::new(111, 222)),
        Ridefinition::Variable(loc_f),
    );

    table
        .insert_variable(&other_local_variable.to_owned(), &Kind::Int, &loc_e)
        .unwrap();

    let err = table.insert_variable(&other_local_variable.to_owned(), &Kind::Int, &loc_f);
    check_ridef_status(
        err,
        other_local_variable,
        Ridefinition::Variable(loc_e),
        Ridefinition::Variable(loc_f),
    );
}

fn check_ridef_status(
    stat: Result<(), SemanticError>,
    original_name: &str,
    original_kind: Ridefinition,
    new_kind: Ridefinition,
) {
    match stat {
        Ok(_) => panic!("{} has been redefined", original_name),
        Err(err) => match err {
            SemanticError::NameRidefinition(ridef) => {
                assert_eq!(ridef.name, original_name);
                assert_eq!(ridef.original, original_kind);
                assert_eq!(ridef.new, new_kind)
            }
            _ => panic!("wrong error variant: {:?}", err),
        },
    }
}

fn missing_return_case(body: Vec<Stat>, func_loc: Location, kind: Kind) -> FuncDecl {
    FuncDecl::new(
        "f".to_owned(),
        vec![],
        kind,
        vec![],
        body,
        func_loc.begin,
        func_loc.end,
    )
}

#[test]
fn test_missing_return() {
    // a non-void function whose last statement cannot provide the
    // return: the error points at the function and at that statement
    let func = missing_return_case(
        vec![Stat::new(
            StatType::AssignStat(AssignStat::new(
                "x".to_owned(),
                make_constant_expr(Const::IntConst(1)),
            )),
            93,
            100,
        )],
        Location::new(10, 120),
        Kind::Int,
    );
    let stat = check_full_return_cover(&func.body, &func.loc, &func.kind);
    let err = stat.unwrap_err();
    assert_eq!(err.kind, func.kind);
    assert_eq!(err.func_loc, func.loc);
    assert_eq!(err.stat_loc.begin, 93);
    assert_eq!(err.stat_loc.end, 100);
}

#[test]
fn test_missing_return_inside_if() {
    // the last statement is an if whose else branch does not end in a
    // return: the error points at that branch's last statement
    let if_stat = IfStat::new(
        make_constant_expr(Const::BoolConst(true)),
        vec![Stat::new(
            StatType::ReturnStat(Some(make_constant_expr(Const::IntConst(1)))),
            200,
            210,
        )],
        Some(vec![Stat::new(
            StatType::AssignStat(AssignStat::new(
                "x".to_owned(),
                make_constant_expr(Const::IntConst(2)),
            )),
            251,
            256,
        )]),
    );
    let func = missing_return_case(
        vec![Stat::new(StatType::IfStat(if_stat), 190, 260)],
        Location::new(150, 300),
        Kind::Int,
    );
    let stat = check_full_return_cover(&func.body, &func.loc, &func.kind);
    let err = stat.unwrap_err();
    assert_eq!(err.kind, func.kind);
    assert_eq!(err.func_loc, func.loc);
    assert_eq!(err.stat_loc.begin, 251);
    assert_eq!(err.stat_loc.end, 256);
}

#[test]
fn test_standard_return() {
    let func = missing_return_case(
        vec![Stat::new(
            StatType::ReturnStat(Some(make_constant_expr(Const::IntConst(5)))),
            90,
            99,
        )],
        Location::new(10, 120),
        Kind::Int,
    );
    let stat = check_full_return_cover(&func.body, &func.loc, &func.kind);
    assert!(stat.is_ok(), "{:?}", stat);
}

#[test]
fn test_return_into_if_stat() {
    let if_stat = IfStat::new(
        make_constant_expr(Const::BoolConst(true)),
        vec![Stat::new(
            StatType::ReturnStat(Some(make_constant_expr(Const::IntConst(1)))),
            200,
            210,
        )],
        Some(vec![Stat::new(
            StatType::ReturnStat(Some(make_constant_expr(Const::IntConst(2)))),
            251,
            256,
        )]),
    );
    let func = missing_return_case(
        vec![Stat::new(StatType::IfStat(if_stat), 190, 260)],
        Location::new(150, 300),
        Kind::Int,
    );
    let stat = check_full_return_cover(&func.body, &func.loc, &func.kind);
    assert!(stat.is_ok(), "{:?}", stat);
}
