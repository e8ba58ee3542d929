use console_game::game::{is_text, Root};
use console_game::game_object::{GameObject, HandleError, Value};
use console_game::parser::{Arg, Instruction};

fn access(name: &str) -> Instruction {
    Instruction::Access(name.to_string(), None)
}

#[test]
fn add_then_read_coins() {
    let mut root = Root::new(0);
    let call = Instruction::FunctionCall("add".to_string(), vec![Arg::Int(5)]);
    assert_eq!(root.handle(call), Ok(Value::IntValue(5)));
    assert_eq!(root.handle(access("coins")), Ok(Value::IntValue(5)));
    assert_eq!(root.coins, 5);
}

#[test]
fn add_uses_first_argument() {
    let mut root = Root::new(10);
    let call = Instruction::FunctionCall("add".to_string(), vec![Arg::Int(-3), Arg::Int(100)]);
    assert_eq!(root.handle(call), Ok(Value::IntValue(7)));
}

#[test]
fn add_wraps_at_the_bound() {
    let mut root = Root::new(i64::MAX);
    let call = Instruction::FunctionCall("add".to_string(), vec![Arg::Int(1)]);
    assert_eq!(root.handle(call), Ok(Value::IntValue(i64::MIN)));
}

#[test]
fn unknown_property_is_not_found() {
    let mut root = Root::new(0);
    match root.handle(access("unknown")) {
        Err(HandleError::NotFound(m)) => {
            assert!(m.contains("unknown"));
            assert!(m.contains("Root"));
            assert_eq!(m, "Did not find property 'unknown' on Root");
        }
        other => panic!("unexpected {:?}", other),
    }
    assert_eq!(root.coins, 0);
}

#[test]
fn unknown_function_is_not_found() {
    let mut root = Root::new(0);
    let call = Instruction::FunctionCall("jump".to_string(), vec![]);
    assert_eq!(
        root.handle(call),
        Err(HandleError::NotFound(
            "Did not find any functions named 'jump' on Root".to_string()
        ))
    );
}

#[test]
fn add_without_argument_is_wrong_type() {
    let mut root = Root::new(4);
    let call = Instruction::FunctionCall("add".to_string(), vec![]);
    assert_eq!(
        root.handle(call),
        Err(HandleError::WrongArgType("Int".to_string(), 0))
    );
    assert_eq!(root.coins, 4);
}

#[test]
fn coins_ignores_continuation() {
    let mut root = Root::new(2);
    let i = Instruction::Access("coins".to_string(), Some(Box::new(access("x"))));
    assert_eq!(root.handle(i), Ok(Value::IntValue(2)));
}

#[test]
fn return_err_names_member_and_type() {
    let root = Root::new(0);
    assert_eq!(
        root.return_err("Shop".to_string(), access("price")),
        Err(HandleError::NotFound("Did not find property 'price' on Shop".to_string()))
    );
}

#[test]
fn value_and_error_text() {
    assert_eq!(Value::Null.text(), "Null");
    assert_eq!(Value::IntValue(3).text(), "3");
    assert_eq!(Value::IntValue(-120).text(), "-120");
    assert_eq!(Value::BoolValue(true).text(), "true");
    assert_eq!(Value::BoolValue(false).text(), "false");
    assert_eq!(
        HandleError::WrongArgType("Int".to_string(), 2).text(),
        "Expected argument of type 'Int' at 2"
    );
    assert_eq!(HandleError::NotFound("gone".to_string()).text(), "gone");
}

#[test]
fn text_comparison() {
    assert!(is_text(&"coins".to_string(), "coins"));
    assert!(!is_text(&"coin".to_string(), "coins"));
}
