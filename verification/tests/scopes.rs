use ilo::environment::{EnvError, Environment, Scope};
use ilo::interpreter::{evaluate_equality, Interpreter};
use ilo::machine::{Action, Event};
use ilo::token::Kind;
use ilo::value::{Native, Piece, Value, ValueType};

fn number(n: f64) -> Value<'static> {
    Value::Number(n.to_bits())
}

fn text(s: &str) -> Value<'static> {
    Value::String(String::from(s))
}

fn shown(value: Option<Value>) -> String {
    match value.map(|v| v.shown()) {
        Some(Piece::Text(text)) => text,
        Some(Piece::Number(bits)) => format!("{}", f64::from_bits(bits)),
        None => String::from("<unbound>"),
    }
}

#[test]
fn a_scope_binds_each_name_once() {
    let mut scope = Scope::new(true);
    assert!(scope.is_function());
    assert!(scope.get("a").is_none());
    scope.insert(String::from("a"), number(1.0));
    scope.insert(String::from("b"), text("x"));
    scope.insert(String::from("a"), number(2.0));
    assert_eq!(shown(scope.get("a")), "2");
    assert_eq!(shown(scope.get("b")), "x");
    assert!(scope.get("c").is_none());
}

#[test]
fn the_innermost_binding_wins() {
    let mut env = Environment::new();
    assert_eq!(env.depth(), 1);
    assert!(env.define_or_assign(String::from("a"), number(1.0), false).is_ok());
    env.enter_scope(true);
    // an argument is bound in the top scope, whatever is bound below
    assert!(env.define_or_assign(String::from("a"), text("inner"), true).is_ok());
    assert_eq!(shown(env.get("a")), "inner");
    assert!(env.top_is_function());
    assert!(env.is_in_function());
    env.leave_scope();
    assert_eq!(shown(env.get("a")), "1");
    assert!(!env.is_in_function());
    // the global scope stays
    env.leave_scope();
    assert_eq!(env.depth(), 1);
    assert_eq!(shown(env.get("a")), "1");
}

#[test]
fn names_of_an_inner_scope_end_with_it() {
    let mut env = Environment::new();
    assert!(env.define_or_assign(String::from("outer"), number(1.0), false).is_ok());
    env.enter_scope(false);
    assert!(env.define_or_assign(String::from("inner"), number(2.0), false).is_ok());
    assert!(env.define_or_assign(String::from("outer"), number(3.0), false).is_ok());
    assert_eq!(shown(env.get("inner")), "2");
    env.leave_scope();
    assert_eq!(shown(env.get("inner")), "<unbound>");
    assert_eq!(shown(env.get("outer")), "3");
}

#[test]
fn an_assignment_keeps_the_type() {
    let mut env = Environment::new();
    assert!(env.define_or_assign(String::from("n"), number(1.0), false).is_ok());
    assert!(matches!(
        env.define_or_assign(String::from("n"), text("x"), false),
        Err(EnvError::InvalidType(Value::Number(bits))) if bits == 1.0_f64.to_bits()
    ));
    assert_eq!(shown(env.get("n")), "1");
    assert!(env.define_or_assign(String::from("n"), Value::EmptyNumber, false).is_ok());
    assert!(matches!(env.get("n"), Some(Value::EmptyNumber)));
    assert!(env.define_or_assign(String::from("n"), number(4.0), false).is_ok());
    // the untyped empty takes the type of the name
    assert!(env.define_or_assign(String::from("n"), Value::Empty, false).is_ok());
    assert!(matches!(env.get("n"), Some(Value::EmptyNumber)));
    assert!(env.define_or_assign(String::from("b"), Value::Boolean(true), false).is_ok());
    assert!(env.define_or_assign(String::from("b"), Value::Empty, false).is_ok());
    assert!(matches!(env.get("b"), Some(Value::EmptyBoolean)));
    // and needs a name that has one
    assert!(matches!(
        env.define_or_assign(String::from("new"), Value::Empty, false),
        Err(EnvError::EmptyDeclarationNoType)
    ));
    assert!(matches!(
        env.define_or_assign(String::from("new"), Value::Empty, true),
        Err(EnvError::EmptyDeclarationNoType)
    ));
    assert!(env.define_or_assign(String::from("s"), text("x"), false).is_ok());
    assert!(matches!(
        env.define_or_assign(String::from("s"), Value::Empty, false),
        Err(EnvError::InvalidType(Value::String(_)))
    ));
    env.define_native_function("now", Vec::new(), Native::Time);
    assert!(matches!(
        env.define_or_assign(String::from("now"), number(1.0), false),
        Err(EnvError::InvalidType(Value::NativeFunction { .. }))
    ));
}

#[test]
fn values_have_types() {
    assert_eq!(number(1.0).get_type(), Some(ValueType::Number));
    assert_eq!(Value::EmptyNumber.get_type(), Some(ValueType::Number));
    assert_eq!(Value::Boolean(false).get_type(), Some(ValueType::Boolean));
    assert_eq!(Value::EmptyBoolean.get_type(), Some(ValueType::Boolean));
    assert_eq!(text("").get_type(), Some(ValueType::String));
    assert_eq!(Value::Empty.get_type(), None);
    let native = Value::NativeFunction {
        name: String::from("out"),
        args: vec![String::new()],
        body: Native::Out,
    };
    assert_eq!(native.get_type(), Some(ValueType::Function(1)));
    assert!(matches!(number(1.0).as_empty(), Some(Value::EmptyNumber)));
    assert!(matches!(Value::Boolean(true).as_empty(), Some(Value::EmptyBoolean)));
    assert!(text("x").as_empty().is_none());
    assert!(native.as_empty().is_none());
    assert!(matches!(native.copy(), Value::NativeFunction { name, args, body: Native::Out }
        if name == "out" && args.len() == 1));
}

#[test]
fn values_compare() {
    let equal = |a: &Value, b: &Value| {
        let forth = a.equals(b);
        assert_eq!(forth, b.equals(a));
        assert!(matches!(evaluate_equality(a, Kind::EqualEqual, b), Value::Boolean(r) if r == forth));
        assert!(matches!(evaluate_equality(a, Kind::BangEqual, b), Value::Boolean(r) if r != forth));
        forth
    };
    let out = Value::NativeFunction {
        name: String::from("out"),
        args: vec![String::new()],
        body: Native::Out,
    };
    let other = Value::NativeFunction { name: String::from("out"), args: vec![], body: Native::Ask };
    assert!(equal(&number(1.5), &number(1.5)));
    assert!(equal(&number(0.0), &number(-0.0)));
    assert!(!equal(&number(f64::NAN), &number(f64::NAN)));
    assert!(!equal(&number(1.0), &Value::Boolean(true)));
    assert!(equal(&text("a"), &text("a")));
    assert!(!equal(&text("a"), &text("b")));
    assert!(equal(&Value::Boolean(true), &Value::Boolean(true)));
    assert!(!equal(&Value::Boolean(true), &Value::Boolean(false)));
    assert!(equal(&Value::EmptyNumber, &Value::EmptyNumber));
    assert!(equal(&Value::EmptyBoolean, &Value::EmptyBoolean));
    assert!(!equal(&Value::EmptyBoolean, &Value::EmptyNumber));
    assert!(equal(&Value::Empty, &Value::EmptyNumber));
    assert!(equal(&Value::Empty, &Value::EmptyBoolean));
    assert!(equal(&Value::Empty, &Value::Empty));
    assert!(!equal(&Value::Empty, &number(3.0)));
    assert!(!equal(&Value::EmptyNumber, &number(3.0)));
    assert!(!equal(&Value::EmptyBoolean, &Value::Boolean(false)));
    // functions are the same if their names are
    assert!(equal(&out, &other));
    assert!(!equal(&out, &text("out")));
    assert!(Value::Boolean(true).is_true());
    assert!(!Value::Boolean(false).is_true());
    assert!(!number(1.0).is_true());
}

#[test]
fn a_machine_without_a_program_is_done() {
    let mut interpreter = Interpreter::default();
    assert!(matches!(interpreter.step(Event::Resume), Some(Action::Finished(text)) if text.is_empty()));
    assert!(matches!(interpreter.resume(Event::Number(0), 5), Action::Finished(text) if text.is_empty()));
    let nothing = Vec::new();
    assert!(matches!(interpreter.interpret(&nothing, 5), Action::Finished(text) if text.is_empty()));
    // the first step of a program takes the first statement; the machine asks nothing yet
    let mut interpreter = Interpreter::new();
    assert!(matches!(interpreter.interpret(&nothing, 0), Action::Paused));
    assert!(matches!(interpreter.resume(Event::Resume, 0), Action::Paused));
    assert!(matches!(interpreter.resume(Event::Resume, 0), Action::Finished(text) if text.is_empty()));
}
