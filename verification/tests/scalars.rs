use luajit::error::OUT_OF_RANGE;
use luajit::{Call, Error, Integer, Number, Pushable, Stack, Value};

fn pushed<T: Pushable>(value: T) -> (i32, Stack) {
    let mut stack = Stack::new();
    let n = Pushable::push(value, &mut stack);
    (n, stack)
}

fn out_of_range(ty: &'static str) -> Value {
    Value::Error(Error::Push { ty, message: OUT_OF_RANGE.to_string() })
}

#[test]
fn unit_pushes_nil() {
    let (n, stack) = pushed(());
    assert_eq!(n, 1);
    assert_eq!(stack.values(), &vec![Value::Nil]);
    assert_eq!(stack.calls(), &vec![Call::PushNil]);
}

#[test]
fn booleans_push_themselves() {
    let (n, stack) = pushed(true);
    assert_eq!(n, 1);
    assert_eq!(stack.values(), &vec![Value::Boolean(true)]);
    assert_eq!(stack.calls(), &vec![Call::PushBoolean(true)]);
    let (n, stack) = pushed(false);
    assert_eq!(n, 1);
    assert_eq!(stack.values(), &vec![Value::Boolean(false)]);
}

#[test]
fn platform_integer_pushes_one_slot_over_its_whole_range() {
    for value in [0, 1, -1, Integer::MIN, Integer::MAX] {
        let (n, stack) = pushed(value);
        assert_eq!(n, 1);
        assert_eq!(stack.values(), &vec![Value::Integer(value)]);
        assert_eq!(stack.calls(), &vec![Call::PushInteger(value)]);
    }
}

#[test]
fn narrow_integers_widen_without_loss() {
    for value in [0i8, i8::MIN, i8::MAX] {
        let (n, stack) = pushed(value);
        assert_eq!(n, 1);
        assert_eq!(stack.values(), &vec![Value::Integer(value as Integer)]);
    }
    for value in [0u8, u8::MAX] {
        let (n, stack) = pushed(value);
        assert_eq!(n, 1);
        assert_eq!(stack.values(), &vec![Value::Integer(value as Integer)]);
    }
    for value in [0i16, i16::MIN, i16::MAX] {
        let (n, stack) = pushed(value);
        assert_eq!(n, 1);
        assert_eq!(stack.values(), &vec![Value::Integer(value as Integer)]);
    }
    let (_, stack) = pushed(i16::MIN);
    assert_eq!(stack.values(), &vec![Value::Integer(-32768)]);
    let (_, stack) = pushed(u8::MAX);
    assert_eq!(stack.calls(), &vec![Call::PushInteger(255)]);
}

#[test]
fn integers_in_range_keep_their_value() {
    let (n, stack) = pushed(65535u16);
    assert_eq!((n, stack.values()), (1, &vec![Value::Integer(65535)]));
    let (n, stack) = pushed(i32::MIN);
    assert_eq!((n, stack.values()), (1, &vec![Value::Integer(-2147483648)]));
    let (n, stack) = pushed(i32::MAX);
    assert_eq!((n, stack.values()), (1, &vec![Value::Integer(2147483647)]));
    let (n, stack) = pushed(0u32);
    assert_eq!((n, stack.values()), (1, &vec![Value::Integer(0)]));
    let (n, stack) = pushed(-7i64);
    assert_eq!((n, stack.values()), (1, &vec![Value::Integer(-7)]));
    let (n, stack) = pushed(42u64);
    assert_eq!((n, stack.values()), (1, &vec![Value::Integer(42)]));
    assert_eq!(stack.calls(), &vec![Call::PushInteger(42)]);
    let (n, stack) = pushed(Integer::MAX as u64);
    assert_eq!((n, stack.values()), (1, &vec![Value::Integer(Integer::MAX)]));
    let (n, stack) = pushed(Integer::MAX as usize);
    assert_eq!((n, stack.values()), (1, &vec![Value::Integer(Integer::MAX)]));
}

#[test]
fn unsigned_64_bit_out_of_range_pushes_one_error() {
    for value in [Integer::MAX as u64 + 1, u64::MAX] {
        let (n, stack) = pushed(value);
        assert_eq!(n, 1);
        assert_eq!(stack.len(), 1);
        assert_eq!(stack.values(), &vec![out_of_range("u64")]);
        assert_eq!(
            stack.calls(),
            &vec![Call::PushError(Error::Push { ty: "u64", message: OUT_OF_RANGE.to_string() })]
        );
    }
}

#[test]
fn pointer_sized_unsigned_out_of_range_pushes_one_error() {
    for value in [Integer::MAX as usize + 1, usize::MAX] {
        let (n, stack) = pushed(value);
        assert_eq!(n, 1);
        assert_eq!(stack.values(), &vec![out_of_range("usize")]);
    }
}

#[test]
fn every_checked_integer_agrees_with_the_checked_conversion() {
    fn expected<T: TryInto<Integer>>(value: T, ty: &'static str) -> Value {
        match value.try_into() {
            Ok(n) => Value::Integer(n),
            Err(_) => out_of_range(ty),
        }
    }
    for value in [0u16, 1, u16::MAX] {
        assert_eq!(pushed(value).1.values(), &vec![expected(value, "u16")]);
    }
    for value in [0i32, i32::MIN, i32::MAX] {
        assert_eq!(pushed(value).1.values(), &vec![expected(value, "i32")]);
    }
    for value in [0u32, u32::MAX] {
        assert_eq!(pushed(value).1.values(), &vec![expected(value, "u32")]);
    }
    for value in [0i64, i64::MIN, i64::MAX] {
        assert_eq!(pushed(value).1.values(), &vec![expected(value, "i64")]);
    }
    for value in [0u64, 1 << 31, 1 << 32, 1 << 63, u64::MAX] {
        assert_eq!(pushed(value).1.values(), &vec![expected(value, "u64")]);
    }
    for value in [0usize, usize::MAX / 2, usize::MAX / 2 + 1, usize::MAX] {
        assert_eq!(pushed(value).1.values(), &vec![expected(value, "usize")]);
    }
}

#[test]
fn pushing_the_same_out_of_range_value_again_gives_the_same_error() {
    let (first, one) = pushed(u64::MAX);
    let (second, other) = pushed(u64::MAX);
    assert_eq!(first, second);
    assert_eq!(one.values(), other.values());
    assert_eq!(one.calls(), other.calls());
}

#[test]
fn out_of_range_message_is_that_of_the_checked_conversion() {
    let failure = i8::try_from(1000i32).unwrap_err();
    assert_eq!(OUT_OF_RANGE, failure.to_string());
}

#[test]
fn numbers_push_their_bits_unchanged() {
    for x in [0.0f64, -0.0, 1.5, f64::MIN, f64::MAX, f64::INFINITY, f64::NAN] {
        let bits = x.to_bits();
        let (n, stack) = pushed(Number { bits });
        assert_eq!(n, 1);
        assert_eq!(stack.values(), &vec![Value::Number(bits)]);
        assert_eq!(stack.calls(), &vec![Call::PushNumber(bits)]);
    }
    let (_, stack) = pushed(Number { bits: 1.5f64.to_bits() });
    assert_eq!(stack.values(), &vec![Value::Number(0x3ff8_0000_0000_0000)]);
}

#[test]
fn single_precision_widens_to_the_same_number() {
    let x = 0.25f32;
    let (n, stack) = pushed(Number { bits: (x as f64).to_bits() });
    assert_eq!(n, 1);
    match &stack.values()[0] {
        Value::Number(bits) => assert_eq!(f64::from_bits(*bits), 0.25f64),
        other => panic!("not a number: {:?}", other),
    }
}

#[test]
fn text_pushes_its_bytes() {
    let (n, stack) = pushed(String::from("hello"));
    assert_eq!(n, 1);
    assert_eq!(stack.values(), &vec![Value::String(b"hello".to_vec())]);
    assert_eq!(stack.calls(), &vec![Call::PushLString(b"hello".to_vec())]);
}

#[test]
fn empty_text_pushes_an_empty_string() {
    let (n, stack) = pushed(String::new());
    assert_eq!(n, 1);
    assert_eq!(stack.values(), &vec![Value::String(Vec::new())]);
}

#[test]
fn text_keeps_an_embedded_zero_byte_and_what_follows() {
    let text = String::from("\0abc");
    assert_eq!(text.len(), 4);
    let (n, stack) = pushed(text);
    assert_eq!(n, 1);
    match &stack.values()[0] {
        Value::String(bytes) => {
            assert_eq!(bytes.len(), 4);
            assert_eq!(bytes, &vec![0u8, b'a', b'b', b'c']);
        },
        other => panic!("not a string: {:?}", other),
    }
    let (_, stack) = pushed(String::from("a\0b\0"));
    assert_eq!(stack.values(), &vec![Value::String(vec![b'a', 0, b'b', 0])]);
}

#[test]
fn text_outside_ascii_pushes_its_utf8_encoding() {
    let (_, stack) = pushed(String::from("h\u{e9}\u{20ac}"));
    assert_eq!(stack.values(), &vec![Value::String(vec![b'h', 0xc3, 0xa9, 0xe2, 0x82, 0xac])]);
}
