use lispy::{eval, eval_with_fuel, parse, standard_env, LVal, LispError, StdFn, TypeErrorKind};

fn run(src: &str) -> LVal {
    let mut env = standard_env();
    eval(parse(src).unwrap(), &mut env).unwrap()
}

fn run_err(src: &str) -> LispError {
    let mut env = standard_env();
    eval(parse(src).unwrap(), &mut env).unwrap_err()
}

fn num(x: f64) -> LVal {
    LVal::Num(x.to_bits())
}

#[test]
fn adds_two_numbers() {
    assert_eq!(run("(+ 2 3)"), num(5.0));
}

#[test]
fn multiplies_a_nested_sum() {
    assert_eq!(run("(* 2 (+ 1 2))"), num(6.0));
}

#[test]
fn subtracts_and_divides() {
    assert_eq!(run("(- 7 2)"), num(5.0));
    assert_eq!(run("(/ 1 2)"), num(0.5));
}

#[test]
fn division_is_double_precision() {
    let expected = ((10.0f64 / 7.0) * 3.0) + 10.0;
    assert_eq!(run("((lambda (x) (+ (* (/ x 7) 3) x)) 10)"), num(expected));
}

#[test]
fn comparisons_yield_booleans() {
    assert_eq!(run("(> 3 2)"), LVal::Bool(true));
    assert_eq!(run("(< 3 2)"), LVal::Bool(false));
    assert_eq!(run("(>= 2 2)"), LVal::Bool(true));
    assert_eq!(run("(<= 3 2)"), LVal::Bool(false));
    assert_eq!(run("(== 2 2)"), LVal::Bool(true));
    assert_eq!(run("(!= 2 2)"), LVal::Bool(false));
}

#[test]
fn branch_takes_consequent_when_true() {
    // The numeral stays an untyped atom until a numeric context touches it:
    // the selected branch evaluates to the (unbound, self-evaluating) symbol
    // whose numeric reading is 1.
    let v = run("(if (> 3 2) 1 2)");
    assert_eq!(v, LVal::Sym("1".to_string()));
    assert_eq!(v.to_float().unwrap(), 1.0f64.to_bits());
}

#[test]
fn branch_takes_alternative_when_false() {
    let v = run("(if (> 2 3) 1 2)");
    assert_eq!(v, LVal::Sym("2".to_string()));
    assert_eq!(v.to_float().unwrap(), 2.0f64.to_bits());
}

#[test]
fn branch_result_feeds_arithmetic() {
    assert_eq!(run("(+ (if (> 3 2) 1 2) 0)"), num(1.0));
    assert_eq!(run("(+ (if (> 2 3) 1 2) 0)"), num(2.0));
}

#[test]
fn lambda_applies_to_its_argument() {
    assert_eq!(run("((lambda (x) (* x x)) 5)"), num(25.0));
}

#[test]
fn computed_operator_is_resolved() {
    assert_eq!(run("((if (> 2 3) / *) 6 7)"), num(42.0));
}

#[test]
fn demo_program_evaluates() {
    let src = "
    (+
        ((if (> 2 3) / *)
         (if (> 1 2) 100 10)
            (* 10
                (car
                    (cdr (list 1000 10000 10)))))
        20)
    ";
    assert_eq!(run(src), num(1000020.0));
}

#[test]
fn define_is_visible_afterwards() {
    let mut env = standard_env();
    assert_eq!(eval(parse("(define y 7)").unwrap(), &mut env).unwrap(), LVal::Succ);
    assert_eq!(eval(parse("y").unwrap(), &mut env).unwrap(), LVal::Sym("7".to_string()));
    assert_eq!(eval(parse("(+ y 1)").unwrap(), &mut env).unwrap(), num(8.0));
}

#[test]
fn define_inside_lambda_does_not_leak() {
    let mut env = standard_env();
    eval(parse("((lambda (x) (define z x)) 5)").unwrap(), &mut env).unwrap();
    // z was bound only in the call's frame: afterwards it is unbound and
    // self-evaluating.
    assert_eq!(eval(parse("z").unwrap(), &mut env).unwrap(), LVal::Sym("z".to_string()));
}

#[test]
fn car_cdr_follow_the_simplified_semantics() {
    // car hands the symbol out, and the application boundary turns a symbol
    // result into text.
    assert_eq!(run("(car (cdr (list 1 2 3)))"), LVal::Str("2".to_string()));
}

#[test]
fn list_and_cons_return_their_arguments() {
    let expected = LVal::SExpr(vec![LVal::Sym("1".to_string()), LVal::Sym("2".to_string())]);
    assert_eq!(run("(list 1 2)"), expected);
    assert_eq!(run("(cons 1 2)"), expected);
}

#[test]
fn unbound_symbol_evaluates_to_itself() {
    assert_eq!(run("foo"), LVal::Sym("foo".to_string()));
}

#[test]
fn quote_returns_the_remainder_unevaluated() {
    assert_eq!(
        run("(quote (+ 1 2))"),
        LVal::SExpr(vec![LVal::SExpr(vec![
            LVal::Sym("+".to_string()),
            LVal::Sym("1".to_string()),
            LVal::Sym("2".to_string()),
        ])])
    );
}

#[test]
fn set_is_a_no_op() {
    let mut env = standard_env();
    assert_eq!(eval(parse("(set! a 1)").unwrap(), &mut env).unwrap(), LVal::Succ);
    assert_eq!(eval(parse("a").unwrap(), &mut env).unwrap(), LVal::Sym("a".to_string()));
}

#[test]
fn abs_and_min_are_binary() {
    assert_eq!(run("(abs -3 99)"), num(3.0));
    assert_eq!(run("(min 5 2)"), num(2.0));
}

#[test]
fn predicates_classify_atoms() {
    assert_eq!(run("(list? 1)"), LVal::Bool(true));
    assert_eq!(run("(number? 1)"), LVal::Bool(true));
    assert_eq!(run("(number? a)"), LVal::Bool(false));
    assert_eq!(run("(symbol? a)"), LVal::Bool(true));
    assert_eq!(run("(symbol? 1)"), LVal::Bool(false));
    assert_eq!(run("(null?)"), LVal::Bool(true));
    assert_eq!(run("(null? 1)"), LVal::Bool(false));
    assert_eq!(run("(not false)"), LVal::Bool(true));
    assert_eq!(run("(not true)"), LVal::Bool(false));
    assert_eq!(run("(eq? 1 1)"), LVal::Bool(true));
    assert_eq!(run("(eq? 1 2)"), LVal::Bool(false));
    assert_eq!(run("(eq? (list 1 2) (list 1 2))"), LVal::Bool(true));
    assert_eq!(run("(len 1 2 3)"), num(3.0));
}

#[test]
fn empty_application_is_a_fault() {
    assert_eq!(run_err("()"), LispError::EmptyApplication);
}

#[test]
fn non_boolean_test_is_a_fault() {
    assert_eq!(run_err("(if 1 2 3)"), LispError::TypeError(TypeErrorKind::ExpectedBoolean));
}

#[test]
fn non_callable_head_is_a_fault() {
    assert_eq!(run_err("(1 2)"), LispError::TypeError(TypeErrorKind::NotCallable));
}

#[test]
fn unparsable_operand_is_a_fault() {
    assert_eq!(run_err("(+ a 1)"), LispError::TypeError(TypeErrorKind::NotNumber));
}

#[test]
fn car_of_an_atom_is_a_fault() {
    assert_eq!(run_err("(car 1)"), LispError::TypeError(TypeErrorKind::NotList));
}

#[test]
fn lambda_with_atom_parameters_is_a_fault() {
    assert_eq!(run_err("(lambda x 1)"), LispError::TypeError(TypeErrorKind::NotList));
}

#[test]
fn define_of_a_list_is_a_fault() {
    assert_eq!(run_err("(define (a) 1)"), LispError::TypeError(TypeErrorKind::NotSymbol));
}

#[test]
fn short_special_forms_are_arity_faults() {
    assert_eq!(run_err("(if 1 2)"), LispError::ArityMismatch);
    assert_eq!(run_err("(define x)"), LispError::ArityMismatch);
    assert_eq!(run_err("(+ 1)"), LispError::ArityMismatch);
}

#[test]
fn closure_with_missing_arguments_is_an_arity_fault() {
    assert_eq!(run_err("((lambda (x y) (+ x y)))"), LispError::ArityMismatch);
}

#[test]
fn exhausted_recursion_bound_is_a_fault() {
    let mut env = standard_env();
    assert_eq!(
        eval_with_fuel(parse("(+ 1 2)").unwrap(), &mut env, 0),
        Err(LispError::RecursionLimit)
    );
}

#[test]
fn accessors_read_the_value_shapes() {
    let v = lispy::parse("(a b)").unwrap();
    assert_eq!(
        v.into_vec().unwrap(),
        vec![LVal::Sym("a".to_string()), LVal::Sym("b".to_string())]
    );
    assert_eq!(
        v.into_value().unwrap_err(),
        LispError::TypeError(TypeErrorKind::NotSymbol)
    );
    let s = LVal::Sym("3.5".to_string());
    assert_eq!(s.into_value().unwrap(), "3.5".to_string());
    assert_eq!(s.to_float().unwrap(), 3.5f64.to_bits());
}

#[test]
fn run_applies_a_native_procedure() {
    let plus = LVal::F(lispy::Builtin::Add);
    let args = LVal::SExpr(vec![LVal::Sym("2".to_string()), LVal::Sym("3".to_string())]);
    assert_eq!(plus.run(&args).unwrap(), num(5.0));
    assert_eq!(
        LVal::Succ.run(&args).unwrap_err(),
        LispError::TypeError(TypeErrorKind::NotCallable)
    );
}

#[test]
fn direct_numeric_helpers_work_on_bits() {
    assert_eq!(lispy::abs((-2.5f64).to_bits(), 0), 2.5f64.to_bits());
    assert_eq!(lispy::min(4.0f64.to_bits(), 9.0f64.to_bits()), 4.0f64.to_bits());
    assert_eq!(lispy::atom("x".to_string()), LVal::Sym("x".to_string()));
    assert_eq!(lispy::val_eq(&num(0.0), &num(-0.0)), true);
}

#[test]
fn quote_of_nothing_is_the_empty_list() {
    assert_eq!(run("(quote)"), LVal::SExpr(vec![]));
}

#[test]
fn redefinition_overwrites_the_binding() {
    let mut env = standard_env();
    eval(parse("(define x 1)").unwrap(), &mut env).unwrap();
    eval(parse("(define x 2)").unwrap(), &mut env).unwrap();
    assert_eq!(eval(parse("(+ x 0)").unwrap(), &mut env).unwrap(), num(2.0));
}

#[test]
fn deep_nesting_evaluates() {
    assert_eq!(run("(+ (+ (+ (+ 1 1) 1) 1) (* (* 2 2) (* 2 2)))"), num(20.0));
}
