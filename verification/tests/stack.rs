use luajit::{Call, Error, Stack, Value};

#[test]
fn new_stack_is_empty() {
    let stack = Stack::new();
    assert_eq!(stack.len(), 0);
    assert!(stack.values().is_empty());
    assert!(stack.calls().is_empty());
    assert_eq!(stack.get(1), None);
    assert_eq!(stack.get(-1), None);
    assert_eq!(stack.get(0), None);
}

#[test]
fn primitives_push_one_value_each() {
    let mut stack = Stack::new();
    stack.push_nil();
    stack.push_boolean(true);
    stack.push_integer(-12);
    stack.push_number(0x4000_0000_0000_0000);
    stack.push_lstring(b"ab\0c");
    stack.create_table(4, 2);
    assert_eq!(stack.push_error(Error::host(String::from("boom"))), 1);
    assert_eq!(stack.len(), 7);
    assert_eq!(
        stack.values(),
        &vec![
            Value::Nil,
            Value::Boolean(true),
            Value::Integer(-12),
            Value::Number(0x4000_0000_0000_0000),
            Value::String(vec![b'a', b'b', 0, b'c']),
            Value::Table(Vec::new()),
            Value::Error(Error::Host { description: String::from("boom") }),
        ]
    );
    assert_eq!(
        stack.calls(),
        &vec![
            Call::PushNil,
            Call::PushBoolean(true),
            Call::PushInteger(-12),
            Call::PushNumber(0x4000_0000_0000_0000),
            Call::PushLString(vec![b'a', b'b', 0, b'c']),
            Call::CreateTable { narr: 4, nrec: 2 },
            Call::PushError(Error::Host { description: String::from("boom") }),
        ]
    );
}

#[test]
fn get_counts_from_the_bottom_and_from_the_top() {
    let mut stack = Stack::new();
    stack.push_integer(1);
    stack.push_integer(2);
    stack.push_integer(3);
    assert_eq!(stack.get(1), Some(&Value::Integer(1)));
    assert_eq!(stack.get(2), Some(&Value::Integer(2)));
    assert_eq!(stack.get(3), Some(&Value::Integer(3)));
    assert_eq!(stack.get(-1), Some(&Value::Integer(3)));
    assert_eq!(stack.get(-2), Some(&Value::Integer(2)));
    assert_eq!(stack.get(-3), Some(&Value::Integer(1)));
    assert_eq!(stack.get(0), None);
    assert_eq!(stack.get(4), None);
    assert_eq!(stack.get(-4), None);
    assert_eq!(stack.get(i32::MAX), None);
    assert_eq!(stack.get(i32::MIN), None);
}

#[test]
fn raw_seti_appends_under_the_next_key_and_pops() {
    let mut stack = Stack::new();
    stack.create_table(0, 0);
    stack.push_integer(7);
    stack.raw_seti(-2, 1);
    assert_eq!(stack.values(), &vec![Value::Table(vec![Value::Integer(7)])]);
    stack.push_boolean(true);
    stack.raw_seti(1, 2);
    assert_eq!(stack.len(), 1);
    assert_eq!(
        stack.values(),
        &vec![Value::Table(vec![Value::Integer(7), Value::Boolean(true)])]
    );
}

#[test]
fn raw_seti_replaces_the_entry_under_a_key_that_is_there() {
    let mut stack = Stack::new();
    stack.create_table(2, 0);
    stack.push_integer(1);
    stack.raw_seti(-2, 1);
    stack.push_integer(2);
    stack.raw_seti(-2, 2);
    stack.push_nil();
    stack.raw_seti(-2, 1);
    assert_eq!(stack.values(), &vec![Value::Table(vec![Value::Nil, Value::Integer(2)])]);
    assert_eq!(stack.calls().len(), 7);
    assert_eq!(stack.calls()[6], Call::RawSetI { index: -2, n: 1 });
}

#[test]
fn raw_seti_reaches_a_table_further_down() {
    let mut stack = Stack::new();
    stack.create_table(0, 0);
    stack.push_nil();
    stack.create_table(0, 0);
    stack.push_integer(5);
    stack.raw_seti(-4, 1);
    assert_eq!(
        stack.values(),
        &vec![Value::Table(vec![Value::Integer(5)]), Value::Nil, Value::Table(Vec::new())]
    );
    stack.raw_seti(1, 2);
    assert_eq!(
        stack.values(),
        &vec![Value::Table(vec![Value::Integer(5), Value::Table(Vec::new())]), Value::Nil]
    );
}

#[test]
fn errors_can_be_copied() {
    let failure = Error::push_error("i64", "no room");
    let copy = failure.clone();
    assert_eq!(failure, copy);
    let failure = Error::host(String::from("late"));
    assert_eq!(failure.clone(), Error::Host { description: String::from("late") });
}
