use luajit::error::OUT_OF_RANGE;
use luajit::{Call, Error, Integer, Number, Pushable, Stack, Value};

fn pushed<T: Pushable>(value: T) -> (i32, Stack) {
    let mut stack = Stack::new();
    let n = Pushable::push(value, &mut stack);
    (n, stack)
}

fn integers(values: &[Integer]) -> Vec<Value> {
    values.iter().map(|n| Value::Integer(*n)).collect()
}

#[test]
fn none_pushes_what_unit_pushes() {
    let (n, none) = pushed(None::<i64>);
    let (m, unit) = pushed(());
    assert_eq!(n, 1);
    assert_eq!(n, m);
    assert_eq!(none.values(), unit.values());
    assert_eq!(none.calls(), unit.calls());
    assert_eq!(none.values(), &vec![Value::Nil]);
}

#[test]
fn some_pushes_what_its_value_pushes() {
    let (n, some) = pushed(Some(17u8));
    let (m, bare) = pushed(17u8);
    assert_eq!((n, m), (1, 1));
    assert_eq!(some.values(), bare.values());
    assert_eq!(some.calls(), bare.calls());
    assert_eq!(some.values(), &vec![Value::Integer(17)]);

    let (n, some) = pushed(Some(String::from("x")));
    let (m, bare) = pushed(String::from("x"));
    assert_eq!(n, m);
    assert_eq!(some.values(), bare.values());

    let (n, some) = pushed(Some(u64::MAX));
    let (m, bare) = pushed(u64::MAX);
    assert_eq!(n, m);
    assert_eq!(some.values(), bare.values());
}

#[test]
fn nested_options_push_one_slot() {
    let (n, stack) = pushed(Some(None::<bool>));
    assert_eq!(n, 1);
    assert_eq!(stack.values(), &vec![Value::Nil]);
    let (n, stack) = pushed(Some(Some(true)));
    assert_eq!(n, 1);
    assert_eq!(stack.values(), &vec![Value::Boolean(true)]);
}

#[test]
fn ok_pushes_what_its_value_pushes() {
    let (n, ok) = pushed(Ok::<i16, Error>(-3));
    let (m, bare) = pushed(-3i16);
    assert_eq!((n, m), (1, 1));
    assert_eq!(ok.values(), bare.values());
    assert_eq!(ok.calls(), bare.calls());
    assert_eq!(ok.values(), &vec![Value::Integer(-3)]);
}

#[test]
fn err_pushes_one_error_and_nothing_of_a_success() {
    let failure = Error::host(String::from("disk full"));
    let (n, stack) = pushed(Err::<(bool, bool, bool), Error>(failure.clone()));
    assert_eq!(n, 1);
    assert_eq!(stack.len(), 1);
    assert_eq!(stack.values(), &vec![Value::Error(failure.clone())]);
    assert_eq!(stack.calls(), &vec![Call::PushError(failure)]);
    assert_eq!(
        stack.values(),
        &vec![Value::Error(Error::Host { description: String::from("disk full") })]
    );
}

#[test]
fn err_of_a_push_failure_keeps_type_and_message() {
    let failure = Error::push_error("u32", "too large");
    assert_eq!(failure, Error::Push { ty: "u32", message: String::from("too large") });
    let (n, stack) = pushed(Err::<(), Error>(failure));
    assert_eq!(n, 1);
    assert_eq!(
        stack.values(),
        &vec![Value::Error(Error::Push { ty: "u32", message: String::from("too large") })]
    );
}

#[test]
fn empty_sequence_pushes_an_empty_table() {
    let (n, stack) = pushed(Vec::<i64>::new());
    assert_eq!(n, 1);
    assert_eq!(stack.values(), &vec![Value::Table(Vec::new())]);
    assert_eq!(stack.calls(), &vec![Call::CreateTable { narr: 0, nrec: 0 }]);
}

#[test]
fn sequence_of_one_pushes_a_table_of_one() {
    let (n, stack) = pushed(vec![true]);
    assert_eq!(n, 1);
    assert_eq!(stack.values(), &vec![Value::Table(vec![Value::Boolean(true)])]);
    assert_eq!(
        stack.calls(),
        &vec![
            Call::CreateTable { narr: 1, nrec: 0 },
            Call::PushBoolean(true),
            Call::RawSetI { index: -2, n: 1 },
        ]
    );
}

#[test]
fn sequence_fills_the_table_in_order_from_key_one() {
    let (n, stack) = pushed(vec![10u8, 20, 30]);
    assert_eq!(n, 1);
    assert_eq!(stack.len(), 1);
    assert_eq!(stack.values(), &vec![Value::Table(integers(&[10, 20, 30]))]);
    assert_eq!(
        stack.calls(),
        &vec![
            Call::CreateTable { narr: 3, nrec: 0 },
            Call::PushInteger(10),
            Call::RawSetI { index: -2, n: 1 },
            Call::PushInteger(20),
            Call::RawSetI { index: -2, n: 2 },
            Call::PushInteger(30),
            Call::RawSetI { index: -2, n: 3 },
        ]
    );
}

#[test]
fn sequence_of_a_thousand_reads_back_element_by_element() {
    let source: Vec<i32> = (0..1000).map(|i| i * 7 - 3000).collect();
    let (n, stack) = pushed(source.clone());
    assert_eq!(n, 1);
    assert_eq!(stack.len(), 1);
    match stack.get(-1) {
        Some(Value::Table(entries)) => {
            assert_eq!(entries.len(), 1000);
            for key in 1..=1000usize {
                assert_eq!(entries[key - 1], Value::Integer(source[key - 1] as Integer));
            }
        },
        other => panic!("not a table: {:?}", other),
    }
    assert_eq!(stack.calls().len(), 2001);
    assert_eq!(stack.calls()[0], Call::CreateTable { narr: 1000, nrec: 0 });
    assert_eq!(stack.calls()[2000], Call::RawSetI { index: -2, n: 1000 });
}

#[test]
fn sequence_leaves_what_was_below_it() {
    let mut stack = Stack::new();
    stack.push_boolean(false);
    stack.push_integer(5);
    let n = Pushable::push(vec![1i8, 2], &mut stack);
    assert_eq!(n, 1);
    assert_eq!(
        stack.values(),
        &vec![Value::Boolean(false), Value::Integer(5), Value::Table(integers(&[1, 2]))]
    );
}

#[test]
fn sequence_of_sequences_pushes_nested_tables() {
    let (n, stack) = pushed(vec![vec![1u8], vec![], vec![2, 3]]);
    assert_eq!(n, 1);
    assert_eq!(
        stack.values(),
        &vec![Value::Table(vec![
            Value::Table(integers(&[1])),
            Value::Table(Vec::new()),
            Value::Table(integers(&[2, 3])),
        ])]
    );
}

#[test]
fn sequence_of_options_keeps_a_place_for_nil() {
    let (n, stack) = pushed(vec![Some(1i16), None, Some(3)]);
    assert_eq!(n, 1);
    assert_eq!(
        stack.values(),
        &vec![Value::Table(vec![Value::Integer(1), Value::Nil, Value::Integer(3)])]
    );
}

#[test]
fn sequence_of_checked_integers_degrades_element_by_element() {
    let (n, stack) = pushed(vec![1u64, u64::MAX]);
    assert_eq!(n, 1);
    assert_eq!(
        stack.values(),
        &vec![Value::Table(vec![
            Value::Integer(1),
            Value::Error(Error::Push { ty: "u64", message: OUT_OF_RANGE.to_string() }),
        ])]
    );
}

#[test]
fn sequence_of_text_copies_each_string() {
    let (_, stack) = pushed(vec![String::from("a"), String::from("\0")]);
    assert_eq!(
        stack.values(),
        &vec![Value::Table(vec![Value::String(vec![b'a']), Value::String(vec![0])])]
    );
}

#[test]
fn one_tuple_pushes_its_member() {
    let (n, stack) = pushed((9u8,));
    assert_eq!(n, 1);
    assert_eq!(stack.values(), &integers(&[9]));
}

#[test]
fn pair_pushes_left_then_right() {
    let (n, stack) = pushed((true, 2i8));
    assert_eq!(n, 2);
    assert_eq!(stack.values(), &vec![Value::Boolean(true), Value::Integer(2)]);
    assert_eq!(stack.calls(), &vec![Call::PushBoolean(true), Call::PushInteger(2)]);
    assert_eq!(stack.get(1), Some(&Value::Boolean(true)));
    assert_eq!(stack.get(2), Some(&Value::Integer(2)));
}

#[test]
fn tuple_members_of_different_kinds_keep_their_order() {
    let mut stack = Stack::new();
    stack.push_nil();
    let n = (
        (),
        false,
        -1isize,
        Number { bits: 2.0f64.to_bits() },
        String::from("s"),
        Some(4u16),
        vec![5i32],
        Err::<bool, Error>(Error::host(String::from("e"))),
    )
        .push(&mut stack);
    assert_eq!(n, 8);
    assert_eq!(stack.len(), 9);
    assert_eq!(
        &stack.values()[1..],
        &[
            Value::Nil,
            Value::Boolean(false),
            Value::Integer(-1),
            Value::Number(2.0f64.to_bits()),
            Value::String(vec![b's']),
            Value::Integer(4),
            Value::Table(integers(&[5])),
            Value::Error(Error::Host { description: String::from("e") }),
        ]
    );
}

#[test]
fn tuples_of_every_arity_push_one_slot_per_member() {
    assert_eq!(pushed((1u8, 2u8, 3u8)).0, 3);
    assert_eq!(pushed((1u8, 2u8, 3u8, 4u8)).0, 4);
    assert_eq!(pushed((1u8, 2u8, 3u8, 4u8, 5u8)).0, 5);
    assert_eq!(pushed((1u8, 2u8, 3u8, 4u8, 5u8, 6u8)).0, 6);
    assert_eq!(pushed((1u8, 2u8, 3u8, 4u8, 5u8, 6u8, 7u8)).0, 7);
    assert_eq!(pushed((1u8, 2u8, 3u8, 4u8, 5u8, 6u8, 7u8, 8u8)).0, 8);
    assert_eq!(pushed((1u8, 2u8, 3u8, 4u8, 5u8, 6u8, 7u8, 8u8, 9u8)).0, 9);
    assert_eq!(pushed((1u8, 2u8, 3u8, 4u8, 5u8, 6u8, 7u8, 8u8, 9u8, 10u8)).0, 10);
    assert_eq!(pushed((1u8, 2u8, 3u8, 4u8, 5u8, 6u8, 7u8, 8u8, 9u8, 10u8, 11u8)).0, 11);
    assert_eq!(pushed((1u8, 2u8, 3u8, 4u8, 5u8, 6u8, 7u8, 8u8, 9u8, 10u8, 11u8, 12u8)).0, 12);
    assert_eq!(pushed((1u8, 2u8, 3u8, 4u8, 5u8, 6u8, 7u8, 8u8, 9u8, 10u8, 11u8, 12u8, 13u8)).0, 13);
    let (n, stack) = pushed((1u8, 2u8, 3u8, 4u8, 5u8, 6u8, 7u8, 8u8, 9u8, 10u8, 11u8, 12u8, 13u8, 14u8));
    assert_eq!(n, 14);
    assert_eq!(stack.values(), &integers(&[1, 2, 3, 4, 5, 6, 7, 8, 9, 10, 11, 12, 13, 14]));
    let (n, stack) =
        pushed((1u8, 2u8, 3u8, 4u8, 5u8, 6u8, 7u8, 8u8, 9u8, 10u8, 11u8, 12u8, 13u8, 14u8, 15u8));
    assert_eq!(n, 15);
    assert_eq!(stack.values(), &integers(&[1, 2, 3, 4, 5, 6, 7, 8, 9, 10, 11, 12, 13, 14, 15]));
}

#[test]
fn sixteen_tuple_pushes_sixteen_slots_in_order() {
    let (n, stack) = pushed((
        0i8, 1u8, 2i16, 3u16, 4i32, 5u32, 6i64, 7u64, 8usize, 9isize, 10i8, 11u8, 12i16, 13u16,
        14i32, 15u32,
    ));
    assert_eq!(n, 16);
    assert_eq!(stack.len(), 16);
    for i in 0..16 {
        assert_eq!(stack.get(i + 1), Some(&Value::Integer(i as Integer)));
        assert_eq!(stack.calls()[i as usize], Call::PushInteger(i as Integer));
    }
}

#[test]
fn tuple_inside_a_tuple_counts_every_value() {
    let (n, stack) = pushed(((1u8, 2u8), 3u8));
    assert_eq!(n, 3);
    assert_eq!(stack.values(), &integers(&[1, 2, 3]));
}

#[test]
fn option_of_a_pair_pushes_the_pair_or_one_nil() {
    let (n, stack) = pushed(Some((1u8, true)));
    assert_eq!(n, 2);
    assert_eq!(stack.values(), &vec![Value::Integer(1), Value::Boolean(true)]);
    let (n, stack) = pushed(None::<(u8, bool)>);
    assert_eq!(n, 1);
    assert_eq!(stack.values(), &vec![Value::Nil]);
}
