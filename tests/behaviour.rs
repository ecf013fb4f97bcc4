use expr_eval::{
    describe, Arithmetic, Const, Element, ElementList, Evaluator, ExprError, ExprOpr, InnerOpr,
    Literal, Logical, NameOrId, NoneContext, OprItem, ParseError, PropKey, SuffixExpr, Value,
    Variable,
};

fn num(i: i64) -> InnerOpr {
    InnerOpr::Const(Some(Value::Int(i)))
}

fn text(s: &str) -> InnerOpr {
    InnerOpr::Const(Some(Value::Str(s.to_string())))
}

fn var(tag: i32) -> InnerOpr {
    InnerOpr::Var { tag: NameOrId::Id(tag), prop_key: None }
}

fn named(tag: i32, name: &str) -> InnerOpr {
    InnerOpr::Var {
        tag: NameOrId::Id(tag),
        prop_key: Some(PropKey::Key(NameOrId::Str(name.to_string()))),
    }
}

fn run(ops: Vec<InnerOpr>) -> Result<Value, ExprError> {
    Evaluator::new(ops).eval::<NoneContext>(None)
}

fn two_people() -> ElementList {
    let person = |id: i64, age: i64, birthday: i64| Element {
        id,
        label: NameOrId::Id(1),
        properties: Some(vec![
            (NameOrId::Str("age".to_string()), Value::Int(age)),
            (NameOrId::Str("birthday".to_string()), Value::Int(birthday)),
        ]),
    };
    ElementList { vec: vec![person(1, 31, 19900416), person(2, 26, 19950816)] }
}

#[test]
fn sum_of_seven_and_three() {
    assert_eq!(
        run(vec![num(7), num(3), InnerOpr::Arith(Arithmetic::Add)]),
        Ok(Value::Int(10))
    );
}

#[test]
fn negation_of_integers() {
    let not = InnerOpr::Logical(Logical::Not);
    assert_eq!(run(vec![num(0), not.clone()]), Ok(Value::Bool(true)));
    assert_eq!(run(vec![num(10), not]), Ok(Value::Bool(false)));
}

#[test]
fn ages_and_birth_years_agree() {
    let ctxt = two_people();
    let ops = vec![
        named(0, "age"),
        named(0, "birthday"),
        num(10000),
        InnerOpr::Arith(Arithmetic::Div),
        InnerOpr::Arith(Arithmetic::Add),
        named(1, "age"),
        named(1, "birthday"),
        num(10000),
        InnerOpr::Arith(Arithmetic::Div),
        InnerOpr::Arith(Arithmetic::Add),
        InnerOpr::Logical(Logical::Eq),
    ];
    let mut eval = Evaluator::new(ops);
    assert_eq!(eval.eval(Some(&ctxt)), Ok(Value::Bool(true)));
    assert_eq!(eval.eval_bool(Some(&ctxt)), Ok(true));
}

#[test]
fn absent_tag_with_and_without_context() {
    let ctxt = two_people();
    let mut eval = Evaluator::new(vec![var(2)]);
    assert_eq!(
        eval.eval::<NoneContext>(None),
        Err(ExprError::MissingContext(describe(&var(2))))
    );
    assert_eq!(eval.eval(Some(&ctxt)), Err(ExprError::NoneOperand(describe(&var(2)))));
    let mut long = Evaluator::new(vec![num(1), num(2), InnerOpr::Arith(Arithmetic::Add), var(2)]);
    assert_eq!(long.eval(Some(&ctxt)), Err(ExprError::NoneOperand(describe(&var(2)))));
}

#[test]
fn same_result_twice_and_after_reset() {
    let ops = vec![
        num(2),
        num(3),
        InnerOpr::Arith(Arithmetic::Mul),
        num(4),
        InnerOpr::Arith(Arithmetic::Sub),
    ];
    let mut eval = Evaluator::new(ops);
    let first = eval.eval::<NoneContext>(None);
    let second = eval.eval::<NoneContext>(None);
    assert_eq!(first, Ok(Value::Int(2)));
    assert_eq!(first, second);
    eval.reset();
    assert_eq!(eval.eval::<NoneContext>(None), Ok(Value::Int(2)));
}

#[test]
fn stack_left_dirty_by_an_error_does_not_leak() {
    let mut eval = Evaluator::new(vec![
        num(1),
        num(0),
        InnerOpr::Arith(Arithmetic::Div),
        num(1),
        InnerOpr::Arith(Arithmetic::Add),
    ]);
    assert_eq!(eval.eval::<NoneContext>(None), Err(ExprError::DivisionByZero));
    assert_eq!(eval.eval::<NoneContext>(None), Err(ExprError::DivisionByZero));
}

#[test]
fn commutative_sum_and_product() {
    for op in [Arithmetic::Add, Arithmetic::Mul] {
        let a = run(vec![num(-12), num(5), InnerOpr::Arith(op)]);
        let b = run(vec![num(5), num(-12), InnerOpr::Arith(op)]);
        assert_eq!(a, b);
    }
}

#[test]
fn division_truncates_toward_zero() {
    let div = InnerOpr::Arith(Arithmetic::Div);
    let rem = InnerOpr::Arith(Arithmetic::Mod);
    assert_eq!(run(vec![num(-7), num(2), div.clone()]), Ok(Value::Int(-3)));
    assert_eq!(run(vec![num(7), num(-2), div.clone()]), Ok(Value::Int(-3)));
    assert_eq!(run(vec![num(-7), num(-2), div]), Ok(Value::Int(3)));
    assert_eq!(run(vec![num(-7), num(2), rem.clone()]), Ok(Value::Int(-1)));
    assert_eq!(run(vec![num(7), num(-2), rem.clone()]), Ok(Value::Int(1)));
    assert_eq!(run(vec![num(i64::MIN), num(-1), rem]), Ok(Value::Int(0)));
}

#[test]
fn numeric_errors() {
    assert_eq!(
        run(vec![num(7), num(0), InnerOpr::Arith(Arithmetic::Div)]),
        Err(ExprError::DivisionByZero)
    );
    assert_eq!(
        run(vec![num(7), num(0), InnerOpr::Arith(Arithmetic::Mod)]),
        Err(ExprError::DivisionByZero)
    );
    assert_eq!(
        run(vec![num(i64::MAX), num(1), InnerOpr::Arith(Arithmetic::Add)]),
        Err(ExprError::Overflow)
    );
    assert_eq!(
        run(vec![num(i64::MIN), num(-1), InnerOpr::Arith(Arithmetic::Div)]),
        Err(ExprError::Overflow)
    );
    assert_eq!(
        run(vec![num(2), num(64), InnerOpr::Arith(Arithmetic::Exp)]),
        Err(ExprError::Overflow)
    );
    assert_eq!(
        run(vec![num(-2), num(63), InnerOpr::Arith(Arithmetic::Exp)]),
        Ok(Value::Int(i64::MIN))
    );
    assert_eq!(
        run(vec![num(-1), num(i64::MAX), InnerOpr::Arith(Arithmetic::Exp)]),
        Ok(Value::Int(-1))
    );
    assert_eq!(
        run(vec![num(7), num(-3), InnerOpr::Arith(Arithmetic::Exp)]),
        Err(ExprError::NegativeExponent)
    );
}

#[test]
fn mismatched_shapes() {
    assert_eq!(
        run(vec![text("a"), num(1), InnerOpr::Arith(Arithmetic::Add)]),
        Err(ExprError::TypeMismatch)
    );
    assert_eq!(
        run(vec![text("a"), num(1), InnerOpr::Logical(Logical::Eq)]),
        Err(ExprError::TypeMismatch)
    );
    assert_eq!(
        run(vec![num(1), InnerOpr::Const(Some(Value::Bool(true))), InnerOpr::Logical(Logical::And)]),
        Err(ExprError::TypeMismatch)
    );
    assert_eq!(run(vec![text("a"), InnerOpr::Logical(Logical::Not)]), Err(ExprError::TypeMismatch));
}

#[test]
fn no_short_circuit() {
    let ops = vec![
        InnerOpr::Const(Some(Value::Bool(false))),
        var(0),
        InnerOpr::Logical(Logical::And),
    ];
    assert_eq!(run(ops), Err(ExprError::MissingContext(describe(&var(0)))));
}

#[test]
fn text_and_blob_order() {
    let lt = InnerOpr::Logical(Logical::Lt);
    assert_eq!(run(vec![text("abc"), text("abd"), lt.clone()]), Ok(Value::Bool(true)));
    assert_eq!(run(vec![text("ab"), text("a"), lt.clone()]), Ok(Value::Bool(false)));
    let blob = |b: &[u8]| InnerOpr::Const(Some(Value::Blob(b.to_vec())));
    assert_eq!(run(vec![blob(&[1, 2]), blob(&[1, 2, 0]), lt]), Ok(Value::Bool(true)));
    assert_eq!(
        run(vec![blob(&[3]), blob(&[3]), InnerOpr::Logical(Logical::Ge)]),
        Ok(Value::Bool(true))
    );
}

#[test]
fn structural_errors() {
    assert_eq!(run(vec![]), Err(ExprError::EmptyExpression));
    assert_eq!(
        run(vec![InnerOpr::Const(None), InnerOpr::Logical(Logical::Not)]),
        Err(ExprError::NoneOperand(describe(&InnerOpr::Const(None))))
    );
    assert_eq!(
        run(vec![num(1), num(2), InnerOpr::Logical(Logical::Within)]),
        Err(ExprError::Unimplemented(describe(&InnerOpr::Logical(Logical::Within))))
    );
    assert_eq!(
        run(vec![
            num(1),
            InnerOpr::Logical(Logical::Not),
            InnerOpr::Logical(Logical::Not),
            InnerOpr::Arith(Arithmetic::Sub),
        ]),
        Err(ExprError::MissingOperands(describe(&InnerOpr::Arith(Arithmetic::Sub))))
    );
    assert_eq!(
        run(vec![InnerOpr::Const(None), num(1), num(1), InnerOpr::Arith(Arithmetic::Add)]),
        Err(ExprError::NoneOperand(describe(&InnerOpr::Const(None))))
    );
    assert_eq!(
        run(vec![InnerOpr::Const(None)]),
        Err(ExprError::NoneOperand(describe(&InnerOpr::Const(None))))
    );
}

#[test]
fn truthiness_of_results() {
    let mut eval = Evaluator::new(vec![num(3)]);
    assert_eq!(eval.eval_bool::<NoneContext>(None), Ok(true));
    let mut eval = Evaluator::new(vec![text("x")]);
    assert_eq!(eval.eval_bool::<NoneContext>(None), Err(ExprError::TypeMismatch));
}

#[test]
fn element_without_property_store() {
    let ctxt = ElementList {
        vec: vec![Element { id: 5, label: NameOrId::Str("person".to_string()), properties: None }],
    };
    let id_of = InnerOpr::Var { tag: NameOrId::Id(0), prop_key: Some(PropKey::Id) };
    let mut eval = Evaluator::new(vec![var(0)]);
    assert_eq!(eval.eval(Some(&ctxt)), Ok(Value::Int(5)));
    let mut eval = Evaluator::new(vec![id_of.clone()]);
    assert_eq!(eval.eval(Some(&ctxt)), Err(ExprError::NoneOperand(describe(&id_of))));
}

#[test]
fn descriptions() {
    assert_eq!(describe(&var(2)).0, "Var(@2)");
    assert_eq!(describe(&named(1, "nonexistent")).0, "Var(@1.nonexistent)");
    assert_eq!(describe(&num(-305)).0, "Const(-305)");
    assert_eq!(describe(&text("hi")).0, "Const(\"hi\")");
    assert_eq!(describe(&InnerOpr::Arith(Arithmetic::Exp)).0, "Exp");
    assert_eq!(
        describe(&InnerOpr::Var { tag: NameOrId::Str("a".to_string()), prop_key: Some(PropKey::Label) }).0,
        "Var(@a.LABEL)"
    );
    assert_eq!(num(i64::MIN).to_string(), "Const(-9223372036854775808)");
}

#[test]
fn decoding_compiled_form() {
    let lit = |l: Literal| ExprOpr { item: Some(OprItem::Const(Const { value: Some(l) })) };
    let units = vec![
        lit(Literal::I32(7)),
        lit(Literal::I64(3)),
        ExprOpr { item: Some(OprItem::Arith(0)) },
        ExprOpr {
            item: Some(OprItem::Var(Variable { tag: Some(NameOrId::Id(0)), property: Some(PropKey::Id) })),
        },
        ExprOpr { item: Some(OprItem::Logical(4)) },
    ];
    let mut eval = Evaluator::from_pb(SuffixExpr { operators: units }).unwrap();
    let ctxt = two_people();
    assert_eq!(eval.eval(Some(&ctxt)), Ok(Value::Bool(true)));

    let bad = |item: Option<OprItem>| {
        Evaluator::from_pb(SuffixExpr { operators: vec![lit(Literal::Boolean(true)), ExprOpr { item }] })
            .err()
    };
    assert_eq!(bad(None), Some(ParseError::EmptyValue));
    assert_eq!(bad(Some(OprItem::Logical(11))), Some(ParseError::UnknownLogical(11)));
    assert_eq!(bad(Some(OprItem::Arith(-1))), Some(ParseError::UnknownArithmetic(-1)));
    assert_eq!(
        bad(Some(OprItem::Const(Const { value: Some(Literal::I64Array(vec![1])) }))),
        Some(ParseError::UnsupportedArray)
    );
    assert_eq!(bad(Some(OprItem::Const(Const { value: None }))), Some(ParseError::EmptyValue));
    assert_eq!(
        bad(Some(OprItem::Var(Variable { tag: None, property: None }))),
        Some(ParseError::EmptyValue)
    );
    assert_eq!(Const { value: Some(Literal::Null) }.into_object(), Ok(None));
    assert_eq!(
        InnerOpr::from_pb(lit(Literal::Str("s".to_string()))),
        Ok(InnerOpr::Const(Some(Value::Str("s".to_string()))))
    );
}

#[test]
fn absent_tag_in_short_sequences() {
    let ctxt = two_people();
    let add = InnerOpr::Arith(Arithmetic::Add);
    let mut eval = Evaluator::new(vec![var(5), num(1), add.clone()]);
    assert_eq!(eval.eval(Some(&ctxt)), Err(ExprError::NoneOperand(describe(&var(5)))));
    let mut eval = Evaluator::new(vec![num(1), var(5), add]);
    assert_eq!(eval.eval(Some(&ctxt)), Err(ExprError::NoneOperand(describe(&var(5)))));
    let mut eval = Evaluator::new(vec![var(5), InnerOpr::Logical(Logical::Not)]);
    assert_eq!(eval.eval(Some(&ctxt)), Err(ExprError::NoneOperand(describe(&var(5)))));
    assert_eq!(
        run(vec![InnerOpr::Const(None), num(1), InnerOpr::Logical(Logical::Eq)]),
        Err(ExprError::NoneOperand(describe(&InnerOpr::Const(None))))
    );
}

#[test]
fn no_short_circuit_on_longer_sides() {
    let ctxt = two_people();
    let ops = vec![
        num(1),
        num(2),
        InnerOpr::Logical(Logical::Gt),
        num(3),
        named(1, "missing"),
        InnerOpr::Logical(Logical::Lt),
        InnerOpr::Logical(Logical::And),
    ];
    let mut eval = Evaluator::new(ops);
    assert_eq!(
        eval.eval(Some(&ctxt)),
        Err(ExprError::NoneOperand(describe(&named(1, "missing"))))
    );
    let ops = vec![
        InnerOpr::Const(Some(Value::Bool(true))),
        num(3),
        num(0),
        InnerOpr::Arith(Arithmetic::Div),
        InnerOpr::Logical(Logical::Or),
    ];
    assert_eq!(run(ops), Err(ExprError::DivisionByZero));
}
