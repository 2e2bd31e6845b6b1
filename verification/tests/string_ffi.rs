
use artichoke_backend::encoding::Encoding;
use artichoke_backend::error::{Exception, TypeMismatch};
use artichoke_backend::ffi::{
    mrb_gc_free_str, mrb_ptr_to_str, mrb_str_aref, mrb_str_cat, mrb_str_cmp, mrb_str_dup,
    mrb_str_equal, mrb_str_hash, mrb_str_index, mrb_str_new, mrb_str_new_capa, mrb_str_new_cstr,
    mrb_str_new_static, mrb_str_plus, mrb_str_resize, mrb_str_substr, mrb_str_to_dbl_text,
    mrb_str_to_integer, mrb_string_cstr, mrb_string_value_cstr, unreadable_number, NumberText,
};
use artichoke_backend::interp::{Artichoke, Guard};
use artichoke_backend::string::NativeString;
use artichoke_backend::value::{ClassId, Value};

fn machine() -> Artichoke {
    Artichoke::new(64, b"0123456789abcdef".to_vec())
}

fn string(mrb: &mut Artichoke, bytes: &[u8]) -> Value {
    mrb_str_new(mrb, Some(bytes), bytes.len()).unwrap()
}

fn binary(mrb: &mut Artichoke, bytes: &[u8]) -> Value {
    let mut guard = Guard::acquire(mrb).unwrap();
    let value = NativeString::alloc_value(NativeString::binary(bytes.to_vec()), &mut guard).unwrap();
    guard.release(mrb);
    value
}

fn object(mrb: &mut Artichoke) -> Value {
    let mut guard = Guard::acquire(mrb).unwrap();
    let value = guard.alloc_object(ClassId(9), 7).unwrap();
    guard.release(mrb);
    value
}

fn read(mrb: &mut Artichoke, value: Value) -> Option<(Vec<u8>, usize, Encoding)> {
    let guard = Guard::acquire(mrb).unwrap();
    let found = NativeString::unbox_from_value(&value, &guard)
        .ok()
        .map(|s| (s.as_slice().to_vec(), s.capacity(), s.encoding()));
    guard.release(mrb);
    found
}

fn bytes(mrb: &mut Artichoke, value: Value) -> Vec<u8> {
    read(mrb, value).unwrap().0
}

fn class(mrb: &mut Artichoke, value: Value) -> Option<ClassId> {
    let guard = Guard::acquire(mrb).unwrap();
    let class = guard.class_of(&value);
    guard.release(mrb);
    class
}

fn heap_len(mrb: &mut Artichoke) -> usize {
    let guard = Guard::acquire(mrb).unwrap();
    let len = guard.heap_len();
    guard.release(mrb);
    len
}

#[test]
fn boxing_round_trip() {
    let mut mrb = machine();
    let samples: [(&[u8], Encoding); 5] = [
        (b"", Encoding::Utf8),
        (b"hello", Encoding::Utf8),
        ("héllo".as_bytes(), Encoding::Utf8),
        (b"\xff\x00\xfe", Encoding::Binary),
        (b"plain", Encoding::Binary),
    ];
    for (sample, encoding) in samples {
        let mut native = NativeString::with_capacity_and_encoding(sample.len() + 3, encoding);
        native.extend_from_slice(sample);
        let mut guard = Guard::acquire(&mut mrb).unwrap();
        let value = NativeString::alloc_value(native, &mut guard).unwrap();
        let unboxed = NativeString::unbox_from_value(&value, &guard).unwrap();
        assert_eq!(unboxed.as_slice(), sample);
        assert_eq!(unboxed.len(), sample.len());
        assert_eq!(unboxed.capacity(), sample.len() + 3);
        assert_eq!(unboxed.encoding(), encoding);
        assert_eq!(guard.class_of(&value), Some(ClassId::string()));
        guard.release(&mut mrb);
    }
}

#[test]
fn unboxing_what_is_no_string_is_a_type_mismatch() {
    let mut mrb = machine();
    let other = object(&mut mrb);
    let guard = Guard::acquire(&mut mrb).unwrap();
    for value in [
        Value::Nil, Value::True, Value::False, Value::Undef, Value::Integer(3), Value::Symbol(1),
        Value::HeapRef(99), other,
    ] {
        assert!(matches!(NativeString::unbox_from_value(&value, &guard), Err(TypeMismatch)));
    }
    guard.release(&mut mrb);
}

#[test]
fn taking_and_reboxing_keeps_the_slot() {
    let mut mrb = machine();
    let value = string(&mut mrb, b"abc");
    let other = string(&mut mrb, b"other");
    let mut guard = Guard::acquire(&mut mrb).unwrap();
    assert!(guard.set_class(&value, ClassId(77)));
    let mut native = NativeString::take_from_value(&value, &mut guard).unwrap();
    assert!(NativeString::unbox_from_value(&value, &guard).is_err());
    assert_eq!(guard.class_of(&value), Some(ClassId(77)));
    native.extend_from_slice(b"def");
    let boxed = NativeString::box_into_value(native, value, &mut guard);
    assert_eq!(boxed, value);
    assert_eq!(NativeString::unbox_from_value(&value, &guard).unwrap().as_slice(), b"abcdef");
    assert_eq!(NativeString::unbox_from_value(&other, &guard).unwrap().as_slice(), b"other");
    assert_eq!(guard.class_of(&value), Some(ClassId(77)));
    assert_eq!(guard.heap_len(), 2);
    assert!(NativeString::take_from_value(&Value::Nil, &mut guard).is_err());
    guard.release(&mut mrb);
}

#[test]
fn allocation_fails_when_the_heap_is_full() {
    let mut mrb = Artichoke::new(1, Vec::new());
    assert_eq!(mrb_str_new_capa(&mut mrb, 4), Ok(Value::HeapRef(0)));
    assert_eq!(mrb_str_new_capa(&mut mrb, 4), Err(Exception::OutOfMemory));
    assert_eq!(mrb_str_new(&mut mrb, None, 2), Err(Exception::OutOfMemory));
    assert_eq!(mrb_str_new_cstr(&mut mrb, b"a\0"), Err(Exception::OutOfMemory));
    let s = Value::HeapRef(0);
    assert_eq!(mrb_str_plus(&mut mrb, s, s), Value::Nil);
    assert_eq!(mrb_str_dup(&mut mrb, s), Value::Nil);
    assert_eq!(mrb_str_substr(&mut mrb, s, 0, 0), Value::Nil);
    assert_eq!(mrb_ptr_to_str(&mut mrb, 1), Value::Nil);
    assert_eq!(heap_len(&mut mrb), 1);
    let mut full = Artichoke::new(0, Vec::new());
    let mut guard = Guard::acquire(&mut full).unwrap();
    let refused = NativeString::alloc_value(NativeString::with_capacity(0), &mut guard);
    assert_eq!(refused, Err(Exception::OutOfMemory));
    assert_eq!(guard.heap_len(), 0);
    guard.release(&mut full);
}

#[test]
fn one_guard_at_a_time() {
    let mut mrb = machine();
    let s = string(&mut mrb, b"abc");
    assert!(!mrb.is_guarded());
    let outer = Guard::acquire(&mut mrb).unwrap();
    assert!(mrb.is_guarded());
    assert!(Guard::acquire(&mut mrb).is_none());
    assert_eq!(mrb_str_new_capa(&mut mrb, 1), Ok(Value::Nil));
    assert_eq!(mrb_str_new(&mut mrb, None, 1), Ok(Value::Nil));
    assert_eq!(mrb_str_new_cstr(&mut mrb, b"\0"), Ok(Value::Nil));
    assert_eq!(mrb_str_index(&mut mrb, s, b"a", 0), -1);
    assert_eq!(mrb_str_aref(&mut mrb, s, Value::Integer(0), Value::Undef), Value::Nil);
    assert_eq!(mrb_str_resize(&mut mrb, s, 1), Ok(s));
    assert_eq!(mrb_str_plus(&mut mrb, s, s), Value::Nil);
    assert_eq!(mrb_str_cmp(&mut mrb, s, s), -1);
    assert!(!mrb_str_equal(&mut mrb, s, s));
    assert_eq!(mrb_str_dup(&mut mrb, s), Value::Nil);
    assert_eq!(mrb_str_substr(&mut mrb, s, 0, 1), Value::Nil);
    assert_eq!(mrb_ptr_to_str(&mut mrb, 0), Value::Nil);
    assert_eq!(mrb_string_cstr(&mut mrb, s), None);
    assert_eq!(mrb_str_to_integer(&mut mrb, s, 99, true), Ok(Value::Nil));
    assert!(matches!(mrb_str_to_dbl_text(&mut mrb, s, true), Ok(NumberText::Zero)));
    assert_eq!(mrb_str_cat(&mut mrb, s, b"x"), s);
    assert_eq!(mrb_str_hash(&mut mrb, s), 0);
    assert!(!mrb_gc_free_str(&mut mrb, 0));
    assert!(mrb.is_guarded());
    outer.release(&mut mrb);
    assert!(!mrb.is_guarded());
    assert_eq!(bytes(&mut mrb, s), b"abc");
    assert_eq!(heap_len(&mut mrb), 1);
}

#[test]
fn new_strings() {
    let mut mrb = machine();
    let s = mrb_str_new_capa(&mut mrb, 10).unwrap();
    assert_eq!(read(&mut mrb, s), Some((vec![], 10, Encoding::Utf8)));
    let s = mrb_str_new(&mut mrb, Some(b"abc"), 3).unwrap();
    assert_eq!(read(&mut mrb, s), Some((b"abc".to_vec(), 3, Encoding::Utf8)));
    let s = mrb_str_new(&mut mrb, None, 3).unwrap();
    assert_eq!(read(&mut mrb, s), Some((vec![0, 0, 0], 3, Encoding::Utf8)));
    let s = mrb_str_new(&mut mrb, Some(b"\xff"), 1).unwrap();
    assert_eq!(read(&mut mrb, s), Some((vec![0xff], 1, Encoding::Binary)));
    let s = mrb_str_new_static(&mut mrb, Some(b"st"), 2).unwrap();
    assert_eq!(read(&mut mrb, s), Some((b"st".to_vec(), 2, Encoding::Utf8)));
    let s = mrb_str_new_cstr(&mut mrb, b"hello\0world\0").unwrap();
    assert_eq!(bytes(&mut mrb, s), b"hello");
    let s = mrb_str_new_cstr(&mut mrb, b"\0").unwrap();
    assert_eq!(bytes(&mut mrb, s), b"");
    let s = mrb_str_new_cstr(&mut mrb, b"open").unwrap();
    assert_eq!(bytes(&mut mrb, s), b"open");
    assert_eq!(class(&mut mrb, s), Some(ClassId::string()));
}

#[test]
fn index_entry_point() {
    let mut mrb = machine();
    let s = string(&mut mrb, "héllo".as_bytes());
    assert_eq!(bytes(&mut mrb, s).len(), 6);
    assert_eq!(mrb_str_index(&mut mrb, s, b"l", 0), 3);
    assert_eq!(mrb_str_index(&mut mrb, s, b"l", 4), 4);
    assert_eq!(mrb_str_index(&mut mrb, s, b"l", 5), -1);
    assert_eq!(mrb_str_index(&mut mrb, s, b"l", -2), 4);
    assert_eq!(mrb_str_index(&mut mrb, s, b"l", -6), 3);
    assert_eq!(mrb_str_index(&mut mrb, s, b"l", -7), -1);
    assert_eq!(mrb_str_index(&mut mrb, s, b"", 2), 2);
    assert_eq!(mrb_str_index(&mut mrb, s, b"", 6), 6);
    assert_eq!(mrb_str_index(&mut mrb, s, b"", 7), -1);
    assert_eq!(mrb_str_index(&mut mrb, s, b"z", 0), -1);
    assert_eq!(mrb_str_index(&mut mrb, Value::Nil, b"l", 0), -1);
    assert_eq!(mrb_str_index(&mut mrb, Value::Integer(5), b"", 0), -1);
}

#[test]
fn indexed_access() {
    let mut mrb = machine();
    let s = string(&mut mrb, b"hello");
    let one = mrb_str_aref(&mut mrb, s, Value::Integer(1), Value::Undef);
    assert_eq!(bytes(&mut mrb, one), b"e");
    let last = mrb_str_aref(&mut mrb, s, Value::Integer(-1), Value::Undef);
    assert_eq!(bytes(&mut mrb, last), b"o");
    assert_eq!(mrb_str_aref(&mut mrb, s, Value::Integer(5), Value::Undef), Value::Nil);
    let run = mrb_str_aref(&mut mrb, s, Value::Integer(1), Value::Integer(3));
    assert_eq!(bytes(&mut mrb, run), b"ell");
    let end = mrb_str_aref(&mut mrb, s, Value::Integer(5), Value::Integer(3));
    assert_eq!(bytes(&mut mrb, end), b"");
    assert_eq!(mrb_str_aref(&mut mrb, s, Value::Integer(6), Value::Integer(3)), Value::Nil);
    assert_eq!(mrb_str_aref(&mut mrb, s, Value::Integer(0), Value::Integer(-1)), Value::Nil);
    assert_eq!(mrb_str_aref(&mut mrb, s, Value::Nil, Value::Undef), Value::Nil);
    assert_eq!(mrb_str_aref(&mut mrb, s, Value::Integer(0), Value::Nil), Value::Nil);
    assert_eq!(mrb_str_aref(&mut mrb, Value::True, Value::Integer(0), Value::Undef), Value::Nil);
}

#[test]
fn resize_entry_point() {
    let mut mrb = machine();
    let s = mrb_str_new_capa(&mut mrb, 0).unwrap();
    for request in [1i128 << 63, i64::MAX as i128, isize::MAX as i128 + 1, 1i128 << 64, i128::MAX] {
        assert_eq!(mrb_str_resize(&mut mrb, s, request), Err(Exception::OutOfMemory));
        assert_eq!(read(&mut mrb, s), Some((vec![], 0, Encoding::Utf8)));
    }
    let s = string(&mut mrb, b"hello world");
    assert_eq!(mrb_str_resize(&mut mrb, s, 5), Ok(s));
    assert_eq!(read(&mut mrb, s), Some((b"hello".to_vec(), 11, Encoding::Utf8)));
    assert_eq!(mrb_str_resize(&mut mrb, s, 11), Ok(s));
    let (content, capacity, _) = read(&mut mrb, s).unwrap();
    assert_eq!((content.len(), capacity), (11, 11));
    assert_eq!(&content[..5], b"hello");
    assert_eq!(mrb_str_resize(&mut mrb, s, 20), Ok(s));
    let (content, capacity, _) = read(&mut mrb, s).unwrap();
    assert_eq!(content.len(), 20);
    assert_eq!(&content[..5], b"hello");
    assert!(capacity >= 20);
    assert_eq!(class(&mut mrb, s), Some(ClassId::string()));
    assert_eq!(mrb_str_resize(&mut mrb, s, 5), Ok(s));
    assert_eq!(mrb_str_resize(&mut mrb, s, -1), Ok(s));
    assert_eq!(mrb_str_resize(&mut mrb, s, i128::MIN), Ok(s));
    assert_eq!(bytes(&mut mrb, s), b"hello");
    let roomy = mrb_str_new_capa(&mut mrb, 16).unwrap();
    assert_eq!(mrb_str_resize(&mut mrb, roomy, 4), Ok(roomy));
    let (content, capacity, _) = read(&mut mrb, roomy).unwrap();
    assert_eq!((content.len(), capacity), (4, 16));
    assert_eq!(mrb_str_resize(&mut mrb, Value::Nil, 3), Ok(Value::Nil));
    let o = object(&mut mrb);
    assert_eq!(mrb_str_resize(&mut mrb, o, 3), Ok(o));
}

#[test]
fn plus_entry_point() {
    let mut mrb = machine();
    let a = string(&mut mrb, b"foo");
    let b = binary(&mut mrb, b"bar");
    let sum = mrb_str_plus(&mut mrb, a, b);
    assert_eq!(read(&mut mrb, sum), Some((b"foobar".to_vec(), 6, Encoding::Utf8)));
    let sum = mrb_str_plus(&mut mrb, b, a);
    assert_eq!(read(&mut mrb, sum), Some((b"barfoo".to_vec(), 6, Encoding::Binary)));
    let broken = binary(&mut mrb, b"\xff");
    let sum = mrb_str_plus(&mut mrb, a, broken);
    assert_eq!(read(&mut mrb, sum), Some((b"foo\xff".to_vec(), 4, Encoding::Utf8)));
    let twice = mrb_str_plus(&mut mrb, a, a);
    assert_eq!(bytes(&mut mrb, twice), b"foofoo");
    assert_eq!(bytes(&mut mrb, a), b"foo");
    assert_eq!(mrb_str_plus(&mut mrb, a, Value::Nil), Value::Nil);
    assert_eq!(mrb_str_plus(&mut mrb, Value::Integer(1), b), Value::Nil);
}

#[test]
fn comparison_entry_points() {
    let mut mrb = machine();
    let a = string(&mut mrb, b"abc");
    let b = string(&mut mrb, b"abd");
    let c = binary(&mut mrb, b"abc");
    let p = string(&mut mrb, b"ab");
    assert_eq!(mrb_str_cmp(&mut mrb, a, b), -1);
    assert_eq!(mrb_str_cmp(&mut mrb, b, a), 1);
    assert_eq!(mrb_str_cmp(&mut mrb, a, c), 0);
    assert_eq!(mrb_str_cmp(&mut mrb, a, a), 0);
    assert_eq!(mrb_str_cmp(&mut mrb, p, a), -1);
    assert_eq!(mrb_str_cmp(&mut mrb, a, p), 1);
    assert_eq!(mrb_str_cmp(&mut mrb, a, Value::Nil), -1);
    assert_eq!(mrb_str_cmp(&mut mrb, Value::Nil, a), -1);
    assert!(mrb_str_equal(&mut mrb, a, c));
    assert!(mrb_str_equal(&mut mrb, a, a));
    assert!(!mrb_str_equal(&mut mrb, a, b));
    assert!(!mrb_str_equal(&mut mrb, a, p));
    assert!(!mrb_str_equal(&mut mrb, a, Value::Nil));
    assert!(!mrb_str_equal(&mut mrb, Value::Nil, Value::Nil));
}

#[test]
fn duplication_keeps_the_class_of_the_source() {
    let mut mrb = machine();
    let s = binary(&mut mrb, b"sub\xff");
    let subclass = ClassId(4242);
    {
        let mut guard = Guard::acquire(&mut mrb).unwrap();
        assert!(guard.set_class(&s, subclass));
        guard.release(&mut mrb);
    }
    let dup = mrb_str_dup(&mut mrb, s);
    assert_ne!(dup, s);
    assert_eq!(class(&mut mrb, dup), Some(subclass));
    assert_eq!(read(&mut mrb, dup), Some((b"sub\xff".to_vec(), 4, Encoding::Binary)));
    let plain = string(&mut mrb, b"plain");
    let dup = mrb_str_dup(&mut mrb, plain);
    assert_eq!(class(&mut mrb, dup), Some(ClassId::string()));
    assert_eq!(mrb_str_dup(&mut mrb, Value::Nil), Value::Nil);
    let o = object(&mut mrb);
    assert_eq!(mrb_str_dup(&mut mrb, o), Value::Nil);
}

#[test]
fn substr_entry_point() {
    let mut mrb = machine();
    let s = string(&mut mrb, b"hello");
    assert_eq!(mrb_str_substr(&mut mrb, s, 10, 5), Value::Nil);
    assert_eq!(mrb_str_substr(&mut mrb, s, 0, -1), Value::Nil);
    assert_eq!(mrb_str_substr(&mut mrb, s, -6, 1), Value::Nil);
    assert_eq!(mrb_str_substr(&mut mrb, Value::Nil, 0, 1), Value::Nil);
    let last = mrb_str_substr(&mut mrb, s, -1, 1);
    assert_eq!(bytes(&mut mrb, last), b"o");
    let mid = mrb_str_substr(&mut mrb, s, 1, 3);
    assert_eq!(read(&mut mrb, mid), Some((b"ell".to_vec(), 3, Encoding::Utf8)));
    let tail = mrb_str_substr(&mut mrb, s, 3, 100);
    assert_eq!(bytes(&mut mrb, tail), b"lo");
    let wide = string(&mut mrb, "é".as_bytes());
    let half = mrb_str_substr(&mut mrb, wide, 0, 1);
    assert_eq!(read(&mut mrb, half), Some((b"\xc3".to_vec(), 1, Encoding::Utf8)));
    assert_eq!(read(&mut mrb, wide), Some(("é".as_bytes().to_vec(), 2, Encoding::Utf8)));
    let before = heap_len(&mut mrb);
    assert_eq!(mrb_str_substr(&mut mrb, s, 9, 1), Value::Nil);
    assert_eq!(heap_len(&mut mrb), before);
}

#[test]
fn pointer_text() {
    let mut mrb = machine();
    let s = mrb_ptr_to_str(&mut mrb, 0);
    assert_eq!(read(&mut mrb, s), Some((b"0x0".to_vec(), 18, Encoding::Utf8)));
    let s = mrb_ptr_to_str(&mut mrb, 0x7ffd_e3b5);
    assert_eq!(bytes(&mut mrb, s), b"0x7ffde3b5");
    let s = mrb_ptr_to_str(&mut mrb, usize::MAX);
    assert_eq!(bytes(&mut mrb, s), format!("{:#x}", usize::MAX).as_bytes());
    let s = mrb_ptr_to_str(&mut mrb, 0xabcdef);
    assert_eq!(bytes(&mut mrb, s), format!("{:#x}", 0xabcdef).as_bytes());
}

#[test]
fn c_string_twice() {
    let mut mrb = machine();
    let s = string(&mut mrb, b"abc");
    let Value::HeapRef(address) = s else { panic!("a string lives in the heap") };
    assert_eq!(mrb_string_cstr(&mut mrb, s), Some(address));
    assert_eq!(read(&mut mrb, s), Some((b"abc\0".to_vec(), 4, Encoding::Utf8)));
    assert_eq!(mrb_string_cstr(&mut mrb, s), Some(address));
    assert_eq!(read(&mut mrb, s), Some((b"abc\0".to_vec(), 4, Encoding::Utf8)));
    assert_eq!(mrb_string_value_cstr(&mut mrb, &s), Some(address));
    assert_eq!(bytes(&mut mrb, s), b"abc\0");
    let e = string(&mut mrb, b"");
    assert!(mrb_string_value_cstr(&mut mrb, &e).is_some());
    assert_eq!(bytes(&mut mrb, e), b"\0");
    assert_eq!(mrb_string_cstr(&mut mrb, Value::Nil), None);
    let o = object(&mut mrb);
    assert_eq!(mrb_string_cstr(&mut mrb, o), None);
    assert_eq!(class(&mut mrb, s), Some(ClassId::string()));
}

#[test]
fn integer_entry_point() {
    let mut mrb = machine();
    let n = string(&mut mrb, b"-1010");
    assert_eq!(mrb_str_to_integer(&mut mrb, n, 10, true), Ok(Value::Integer(-1010)));
    assert_eq!(mrb_str_to_integer(&mut mrb, n, 2, false), Ok(Value::Integer(-10)));
    assert_eq!(mrb_str_to_integer(&mut mrb, n, 16, true), Ok(Value::Integer(-0x1010)));
    let bad = string(&mut mrb, b"12abc");
    assert_eq!(mrb_str_to_integer(&mut mrb, bad, 10, true), Err(Exception::InvalidNumber));
    assert_eq!(mrb_str_to_integer(&mut mrb, bad, 10, false), Ok(Value::Integer(0)));
    assert_eq!(mrb_str_to_integer(&mut mrb, bad, 16, true), Ok(Value::Integer(0x12abc)));
    assert_eq!(mrb_str_to_integer(&mut mrb, Value::Nil, 10, true), Err(Exception::NotAString));
    assert_eq!(mrb_str_to_integer(&mut mrb, Value::Nil, 10, false), Ok(Value::Integer(0)));
    for base in [i64::MIN, -2, 0, 1, 37, i64::MAX] {
        for badcheck in [true, false] {
            for value in [n, bad, Value::Nil, Value::Integer(1)] {
                assert_eq!(
                    mrb_str_to_integer(&mut mrb, value, base, badcheck),
                    Err(Exception::IllegalRadix)
                );
            }
        }
    }
}

#[test]
fn float_text() {
    let mut mrb = machine();
    let n = string(&mut mrb, b"1.5e3");
    match mrb_str_to_dbl_text(&mut mrb, n, true) {
        Ok(NumberText::Text(text)) => {
            assert_eq!(text, b"1.5e3");
            assert_eq!(std::str::from_utf8(&text).unwrap().parse::<f64>(), Ok(1500.0));
        }
        _ => panic!("text was expected"),
    }
    let broken = string(&mut mrb, b"1\xff");
    assert!(matches!(mrb_str_to_dbl_text(&mut mrb, broken, true), Err(Exception::InvalidNumber)));
    assert!(matches!(mrb_str_to_dbl_text(&mut mrb, broken, false), Ok(NumberText::Zero)));
    assert!(matches!(mrb_str_to_dbl_text(&mut mrb, Value::Nil, true), Err(Exception::NotAString)));
    assert!(matches!(mrb_str_to_dbl_text(&mut mrb, Value::Nil, false), Ok(NumberText::Zero)));
    assert!(matches!(unreadable_number(true), Err(Exception::InvalidNumber)));
    assert!(matches!(unreadable_number(false), Ok(NumberText::Zero)));
}

#[test]
fn cat_entry_point() {
    let mut mrb = machine();
    let s = string(&mut mrb, b"foo");
    assert_eq!(mrb_str_cat(&mut mrb, s, b"bar"), s);
    assert_eq!(read(&mut mrb, s), Some((b"foobar".to_vec(), 6, Encoding::Utf8)));
    assert_eq!(mrb_str_cat(&mut mrb, s, b""), s);
    assert_eq!(mrb_str_cat(&mut mrb, s, b"\xff"), s);
    assert_eq!(read(&mut mrb, s), Some((b"foobar\xff".to_vec(), 7, Encoding::Binary)));
    assert_eq!(mrb_str_cat(&mut mrb, Value::Nil, b"x"), Value::Nil);
    let o = object(&mut mrb);
    assert_eq!(mrb_str_cat(&mut mrb, o, b"x"), o);
    assert_eq!(heap_len(&mut mrb), 2);
}

#[test]
fn hash_entry_point() {
    let mut mrb = machine();
    let a = string(&mut mrb, b"abc");
    let b = binary(&mut mrb, b"abc");
    let c = string(&mut mrb, b"abd");
    let e = string(&mut mrb, b"");
    assert_eq!(mrb_str_hash(&mut mrb, a), mrb_str_hash(&mut mrb, a));
    assert_eq!(mrb_str_hash(&mut mrb, a), mrb_str_hash(&mut mrb, b));
    assert_ne!(mrb_str_hash(&mut mrb, a), mrb_str_hash(&mut mrb, c));
    assert_ne!(mrb_str_hash(&mut mrb, a), mrb_str_hash(&mut mrb, e));
    assert_eq!(mrb_str_hash(&mut mrb, Value::Nil), 0);
    assert_eq!(mrb_str_hash(&mut mrb, Value::Integer(7)), 0);
    let mut other = Artichoke::new(8, b"another key".to_vec());
    let a2 = string(&mut other, b"abc");
    assert_ne!(mrb_str_hash(&mut mrb, a), mrb_str_hash(&mut other, a2));
    let mut same = Artichoke::new(8, b"0123456789abcdef".to_vec());
    let a3 = string(&mut same, b"abc");
    assert_eq!(mrb_str_hash(&mut mrb, a), mrb_str_hash(&mut same, a3));
}

#[test]
fn finalizer_reclaims_the_slot() {
    let mut mrb = machine();
    let a = string(&mut mrb, b"abc");
    let b = string(&mut mrb, b"def");
    let Value::HeapRef(address) = a else { panic!("a string lives in the heap") };
    assert!(mrb_gc_free_str(&mut mrb, address));
    assert_eq!(read(&mut mrb, a), None);
    assert_eq!(class(&mut mrb, a), None);
    assert_eq!(bytes(&mut mrb, b), b"def");
    assert_eq!(heap_len(&mut mrb), 2);
    assert!(!mrb_gc_free_str(&mut mrb, address));
    assert!(!mrb_gc_free_str(&mut mrb, 99));
    assert_eq!(mrb_str_index(&mut mrb, a, b"a", 0), -1);
    let o = object(&mut mrb);
    let Value::HeapRef(other) = o else { panic!("an object lives in the heap") };
    assert!(!mrb_gc_free_str(&mut mrb, other));
    assert_eq!(class(&mut mrb, o), Some(ClassId(9)));
}

#[test]
fn values() {
    assert_eq!(Value::default(), Value::Nil);
    assert_eq!(Value::nil(), Value::Nil);
    assert!(Value::Nil.is_nil());
    assert!(!Value::False.is_nil());
    assert!(Value::Undef.is_unreachable());
    assert!(!Value::Nil.is_unreachable());
    assert!(Value::Integer(1).is_immediate());
    assert!(!Value::HeapRef(0).is_immediate());
}
