use js::sc::{
    CloneError, DifferentProcess, SameProcessDifferentThread, SameProcessSameThread, ScopeTag,
    StructuredCloneBuffer, StructuredCloneCallbacks, StructuredCloneScope,
};
use js::value::Value;
use js::wire::{
    decode_value, encode_value, TAG_ARRAY, TAG_BOOLEAN, TAG_NULL, TAG_NUMBER, TAG_OBJECT,
    TAG_TEXT, TAG_UNDEFINED,
};
use std::marker::PhantomData;

fn is_send<S: Send>(_: S) {}

const PLAIN: StructuredCloneCallbacks =
    StructuredCloneCallbacks { writes_objects: false, reads_objects: false };

const WITH_OBJECTS: StructuredCloneCallbacks =
    StructuredCloneCallbacks { writes_objects: true, reads_objects: true };

struct Probe<T>(PhantomData<T>);

trait NotTransferable {
    const TRANSFERABLE: bool = false;
}

impl<T> NotTransferable for Probe<T> {}

impl<T: Send> Probe<T> {
    const TRANSFERABLE: bool = true;
}

fn round_trip(v: &Value) -> Value {
    let mut buffer = StructuredCloneBuffer::<SameProcessDifferentThread>::new(&PLAIN);
    assert_eq!(buffer.write(v, &PLAIN), Ok(()));
    let mut out = Value::Undefined;
    assert_eq!(buffer.read(&mut out), Ok(()));
    out
}

#[test]
fn same_process_different_thread_scope_is_send() {
    is_send(SameProcessDifferentThread);
}

#[test]
fn different_process_scope_is_send() {
    is_send(DifferentProcess);
}

#[test]
fn transferable_buffers_are_send() {
    is_send(StructuredCloneBuffer::<SameProcessDifferentThread>::new(&PLAIN));
    is_send(StructuredCloneBuffer::<DifferentProcess>::new(&PLAIN));
}

#[test]
fn same_thread_scope_is_not_send() {
    assert!(<Probe<SameProcessDifferentThread>>::TRANSFERABLE);
    assert!(<Probe<DifferentProcess>>::TRANSFERABLE);
    assert!(!<Probe<SameProcessSameThread>>::TRANSFERABLE);
    assert!(<Probe<StructuredCloneBuffer<'static, DifferentProcess>>>::TRANSFERABLE);
    assert!(!<Probe<StructuredCloneBuffer<'static, SameProcessSameThread>>>::TRANSFERABLE);
}

#[test]
fn scopes_report_their_tags() {
    assert_eq!(SameProcessSameThread::raw(), ScopeTag::SameProcessSameThread);
    assert_eq!(SameProcessDifferentThread::raw(), ScopeTag::SameProcessDifferentThread);
    assert_eq!(DifferentProcess::raw(), ScopeTag::DifferentProcess);
    let buffer = StructuredCloneBuffer::<SameProcessSameThread>::new(&PLAIN);
    assert_eq!(buffer.scope(), ScopeTag::SameProcessSameThread);
}

#[test]
fn new_buffer_is_empty() {
    let buffer = StructuredCloneBuffer::<DifferentProcess>::new(&PLAIN);
    assert!(buffer.data().is_empty());
    assert_eq!(buffer.copy_to_vec(), Vec::<u8>::new());
}

#[test]
fn write_number_gives_exact_bytes() {
    let mut buffer = StructuredCloneBuffer::<DifferentProcess>::new(&PLAIN);
    assert_eq!(buffer.write(&Value::Number(1), &PLAIN), Ok(()));
    assert_eq!(buffer.copy_to_vec(), vec![3u8, 1, 0, 0, 0x80]);
    assert_eq!(buffer.write(&Value::Number(-1), &PLAIN), Ok(()));
    assert_eq!(buffer.copy_to_vec(), vec![3u8, 0xff, 0xff, 0xff, 0x7f]);
    assert_eq!(buffer.write(&Value::Number(i32::MIN), &PLAIN), Ok(()));
    assert_eq!(buffer.copy_to_vec(), vec![3u8, 0, 0, 0, 0]);
}

#[test]
fn write_text_gives_exact_bytes() {
    let mut buffer = StructuredCloneBuffer::<DifferentProcess>::new(&PLAIN);
    assert_eq!(buffer.write(&Value::Text("h\u{e9}".to_string()), &PLAIN), Ok(()));
    assert_eq!(buffer.copy_to_vec(), vec![4u8, 3, 0, 0, 0, 0, 0, 0, 0, b'h', 0xc3, 0xa9]);
}

#[test]
fn write_array_gives_exact_bytes() {
    let mut buffer = StructuredCloneBuffer::<DifferentProcess>::new(&PLAIN);
    let v = Value::Array(vec![Value::Boolean(true), Value::Null, Value::Undefined]);
    assert_eq!(buffer.write(&v, &PLAIN), Ok(()));
    assert_eq!(buffer.copy_to_vec(), vec![5u8, 3, 0, 0, 0, 0, 0, 0, 0, 2, 1, 1, 0]);
}

#[test]
fn write_replaces_contents() {
    let mut buffer = StructuredCloneBuffer::<DifferentProcess>::new(&PLAIN);
    assert_eq!(buffer.write(&Value::Text("long text".to_string()), &PLAIN), Ok(()));
    assert_eq!(buffer.write(&Value::Null, &PLAIN), Ok(()));
    assert_eq!(buffer.copy_to_vec(), vec![1u8]);
}

#[test]
fn round_trip_numbers() {
    for n in [0, 1, -1, 33, i32::MAX, i32::MIN] {
        assert_eq!(round_trip(&Value::Number(n)), Value::Number(n));
    }
}

#[test]
fn round_trip_strings() {
    for s in ["", "test", "<b>", "mozilla/en", "h\u{e9}llo \u{4e16}\u{754c} \u{1f600}"] {
        assert_eq!(round_trip(&Value::Text(s.to_string())), Value::Text(s.to_string()));
    }
}

#[test]
fn round_trip_nested_arrays() {
    let make = || {
        Value::Array(vec![
            Value::Number(7),
            Value::Text("x".to_string()),
            Value::Array(vec![
                Value::Array(vec![]),
                Value::Array(vec![Value::Number(-5), Value::Text("div".to_string())]),
            ]),
            Value::Boolean(false),
            Value::Null,
            Value::Undefined,
        ])
    };
    assert_eq!(round_trip(&make()), make());
}

#[test]
fn object_reference_needs_callbacks() {
    let mut buffer = StructuredCloneBuffer::<SameProcessSameThread>::new(&PLAIN);
    assert_eq!(buffer.write_bytes(&[9, 9]), Ok(()));
    let v = Value::Array(vec![Value::Number(1), Value::Object(4)]);
    assert_eq!(buffer.write(&v, &PLAIN), Err(CloneError::NotCloneable));
    assert_eq!(buffer.copy_to_vec(), vec![9u8, 9]);
    assert_eq!(buffer.write(&v, &WITH_OBJECTS), Ok(()));
    let mut out = Value::Null;
    assert_eq!(buffer.read(&mut out), Err(CloneError::Malformed));
    assert_eq!(out, Value::Null);
}

#[test]
fn object_reference_round_trip_with_callbacks() {
    let mut buffer = StructuredCloneBuffer::<SameProcessSameThread>::new(&WITH_OBJECTS);
    let v = Value::Array(vec![Value::Object(0), Value::Object(usize::MAX)]);
    assert_eq!(buffer.write(&v, &WITH_OBJECTS), Ok(()));
    let mut out = Value::Undefined;
    assert_eq!(buffer.read(&mut out), Ok(()));
    assert_eq!(out, Value::Array(vec![Value::Object(0), Value::Object(usize::MAX)]));
}

#[test]
fn read_keeps_contents() {
    let mut buffer = StructuredCloneBuffer::<DifferentProcess>::new(&PLAIN);
    assert_eq!(buffer.write(&Value::Number(33), &PLAIN), Ok(()));
    let before = buffer.copy_to_vec();
    let mut out = Value::Undefined;
    assert_eq!(buffer.read(&mut out), Ok(()));
    assert_eq!(buffer.read(&mut out), Ok(()));
    assert_eq!(out, Value::Number(33));
    assert_eq!(buffer.copy_to_vec(), before);
}

#[test]
fn write_bytes_appends() {
    let mut buffer = StructuredCloneBuffer::<DifferentProcess>::new(&PLAIN);
    assert_eq!(buffer.write_bytes(&[4, 2, 0, 0, 0]), Ok(()));
    assert_eq!(buffer.write_bytes(&[]), Ok(()));
    assert_eq!(buffer.write_bytes(&[0, 0, 0, 0, b'o', b'k']), Ok(()));
    assert_eq!(buffer.data(), &vec![4u8, 2, 0, 0, 0, 0, 0, 0, 0, b'o', b'k']);
    let mut out = Value::Undefined;
    assert_eq!(buffer.read(&mut out), Ok(()));
    assert_eq!(out, Value::Text("ok".to_string()));
}

#[test]
fn read_rejects_malformed_contents() {
    let cases: Vec<Vec<u8>> = vec![
        vec![],
        vec![7],
        vec![2],
        vec![2, 2],
        vec![3, 0, 0, 0],
        vec![4, 1, 0, 0, 0, 0, 0, 0, 0],
        vec![4, 1, 0, 0, 0, 0, 0, 0, 0, 0xff],
        vec![4, 0xff, 0xff, 0xff, 0xff, 0xff, 0xff, 0xff, 0xff, b'a'],
        vec![5, 2, 0, 0, 0, 0, 0, 0, 0, 1],
        vec![5, 0xff, 0xff, 0xff, 0xff, 0xff, 0xff, 0xff, 0xff],
        vec![6, 1, 0, 0, 0, 0, 0, 0, 0],
        vec![1, 1],
    ];
    for bytes in cases {
        let mut buffer = StructuredCloneBuffer::<DifferentProcess>::new(&PLAIN);
        assert_eq!(buffer.write_bytes(&bytes), Ok(()));
        let mut out = Value::Number(5);
        assert_eq!(buffer.read(&mut out), Err(CloneError::Malformed));
        assert_eq!(out, Value::Number(5));
    }
}

#[test]
fn release_consumes_the_buffer() {
    let mut buffer = StructuredCloneBuffer::<DifferentProcess>::new(&PLAIN);
    assert_eq!(buffer.write(&Value::Null, &PLAIN), Ok(()));
    buffer.release();
}

#[test]
fn duplicate_denotes_the_same() {
    let v = Value::Array(vec![Value::Text("a".to_string()), Value::Array(vec![Value::Object(3)])]);
    assert_eq!(v.duplicate(), v);
}

#[test]
fn encode_and_decode_work_at_any_position() {
    let mut out = vec![0xaau8, 0xbb];
    assert!(encode_value(&Value::Text("ab".to_string()), false, &mut out));
    assert!(encode_value(&Value::Boolean(true), false, &mut out));
    assert_eq!(out, vec![0xaa, 0xbb, 4, 2, 0, 0, 0, 0, 0, 0, 0, b'a', b'b', 2, 1]);
    assert_eq!(decode_value(&out, 2, false), Some((Value::Text("ab".to_string()), 13)));
    assert_eq!(decode_value(&out, 13, false), Some((Value::Boolean(true), 15)));
    assert_eq!(decode_value(&out, 15, false), None);
    assert_eq!(decode_value(&out, 0, false), None);
    assert_eq!(decode_value(&out, 14, false), Some((Value::Null, 15)));
    let mut scratch = Vec::new();
    assert!(!encode_value(&Value::Object(1), false, &mut scratch));
    assert!(encode_value(&Value::Object(1), true, &mut scratch));
    assert_eq!(scratch, vec![6, 1, 0, 0, 0, 0, 0, 0, 0]);
    assert_eq!(decode_value(&scratch, 0, true), Some((Value::Object(1), 9)));
    assert_eq!(decode_value(&scratch, 0, false), None);
}

#[test]
fn tags_are_the_first_byte() {
    let cases = [
        (Value::Undefined, TAG_UNDEFINED),
        (Value::Null, TAG_NULL),
        (Value::Boolean(false), TAG_BOOLEAN),
        (Value::Number(0), TAG_NUMBER),
        (Value::Text(String::new()), TAG_TEXT),
        (Value::Array(vec![]), TAG_ARRAY),
        (Value::Object(0), TAG_OBJECT),
    ];
    for (v, tag) in cases {
        let mut buffer = StructuredCloneBuffer::<DifferentProcess>::new(&WITH_OBJECTS);
        assert_eq!(buffer.write(&v, &WITH_OBJECTS), Ok(()));
        assert_eq!(buffer.data()[0], tag);
        let mut out = Value::Number(9);
        assert_eq!(buffer.read(&mut out), Ok(()));
        assert_eq!(out, v);
    }
}

#[test]
fn read_then_write_gives_the_same_bytes() {
    let mut bytes = vec![5u8, 2, 0, 0, 0, 0, 0, 0, 0];
    bytes.extend([3, 33, 0, 0, 0x80]);
    bytes.extend([4, 1, 0, 0, 0, 0, 0, 0, 0, b't']);
    let mut buffer = StructuredCloneBuffer::<DifferentProcess>::new(&PLAIN);
    assert_eq!(buffer.write_bytes(&bytes), Ok(()));
    let mut out = Value::Undefined;
    assert_eq!(buffer.read(&mut out), Ok(()));
    assert_eq!(out, Value::Array(vec![Value::Number(33), Value::Text("t".to_string())]));
    let mut again = StructuredCloneBuffer::<SameProcessSameThread>::new(&PLAIN);
    assert_eq!(again.write(&out, &PLAIN), Ok(()));
    assert_eq!(again.copy_to_vec(), bytes);
}
