use ffi_convert::{
    AsRust, CArray, CDrop, CNulString, CRange, CReprOf, CStringArray, ConstructionError,
    ReleaseError, RestorationError,
};
use std::ops::Range;

fn texts(v: &[&str]) -> Vec<String> {
    v.iter().map(|s| s.to_string()).collect()
}

#[test]
fn text_array_round_trip() {
    let pizza_names = texts(&["Diavola", "Margarita", "Regina"]);
    let c = CStringArray::c_repr_of(pizza_names.clone()).unwrap();
    let back: Vec<String> = c.as_rust().unwrap();
    assert_eq!(back, pizza_names);
}

#[test]
fn text_array_round_trip_unicode() {
    let v = texts(&["héllo", "日本語", "", "naïve café"]);
    let c = CStringArray::c_repr_of(v.clone()).unwrap();
    let back: Vec<String> = c.as_rust().unwrap();
    assert_eq!(back, v);
}

#[test]
fn restore_does_not_consume() {
    let v = texts(&["one", "two"]);
    let c = CStringArray::c_repr_of(v.clone()).unwrap();
    let first: Vec<String> = c.as_rust().unwrap();
    let second: Vec<String> = c.as_rust().unwrap();
    assert_eq!(first, v);
    assert_eq!(second, v);
}

#[test]
fn empty_text_array_is_sentinel() {
    let c = CStringArray::c_repr_of(Vec::new()).unwrap();
    assert!(c.data.is_none());
    assert_eq!(c.size, 0);
    let back: Vec<String> = c.as_rust().unwrap();
    assert!(back.is_empty());
}

#[test]
fn embedded_terminator_is_rejected() {
    let v = texts(&["fine", "bad\0text"]);
    let r = CStringArray::c_repr_of(v);
    assert_eq!(r.unwrap_err(), ConstructionError::InvalidText);
}

#[test]
fn text_array_release_frees_everything() {
    let mut c = CStringArray::c_repr_of(texts(&["a", "b"])).unwrap();
    assert_eq!(c.do_drop(), Ok(()));
    assert!(c.data.is_none());
    assert_eq!(c.size, 0);
}

#[test]
fn corrupted_text_array_release_reports_but_frees() {
    let mut c = CStringArray { data: None, size: 3 };
    assert_eq!(c.do_drop(), Err(ReleaseError::Malformed));
    assert!(c.data.is_none());
    assert_eq!(c.size, 0);

    let one = CNulString::c_repr_of("x".to_string()).unwrap();
    let mut c = CStringArray {
        data: Some(vec![one]),
        size: 2,
    };
    assert_eq!(c.do_drop(), Err(ReleaseError::Malformed));
    assert!(c.data.is_none());
    assert_eq!(c.size, 0);
}

#[test]
fn non_text_bytes_fail_restoration() {
    let c = CStringArray {
        data: Some(vec![CNulString {
            bytes: vec![0xff, 0xfe, 0],
        }]),
        size: 1,
    };
    let r: Result<Vec<String>, RestorationError> = c.as_rust();
    assert_eq!(r.unwrap_err(), RestorationError::InvalidEncoding);
}

#[test]
fn inconsistent_count_fails_restoration() {
    let one = CNulString::c_repr_of("x".to_string()).unwrap();
    let c = CStringArray {
        data: Some(vec![one]),
        size: 2,
    };
    let r: Result<Vec<String>, RestorationError> = c.as_rust();
    assert_eq!(r.unwrap_err(), RestorationError::InvalidEncoding);

    let c = CStringArray { data: None, size: 1 };
    let r: Result<Vec<String>, RestorationError> = c.as_rust();
    assert_eq!(r.unwrap_err(), RestorationError::InvalidEncoding);
}

#[test]
fn nul_string_round_trip() {
    let c = CNulString::c_repr_of("grüße".to_string()).unwrap();
    let back: String = c.as_rust().unwrap();
    assert_eq!(back, "grüße");
}

#[test]
fn released_nul_string_no_longer_decodes() {
    let mut c = CNulString::c_repr_of("x".to_string()).unwrap();
    assert_eq!(c.do_drop(), Ok(()));
    let r: Result<String, RestorationError> = c.as_rust();
    assert_eq!(r.unwrap_err(), RestorationError::InvalidEncoding);
}

#[test]
fn generic_array_round_trip() {
    let v: Vec<i32> = vec![1, -2, 3, i32::MAX, i32::MIN];
    let c = CArray::<i32>::c_repr_of(v.clone()).unwrap();
    let back: Vec<i32> = c.as_rust().unwrap();
    assert_eq!(back, v);
}

#[test]
fn empty_generic_array_is_sentinel() {
    let c = CArray::<i32>::c_repr_of(Vec::new()).unwrap();
    assert!(c.is_sentinel());
    assert_eq!(c.size(), 0);
    let back: Vec<i32> = c.as_rust().unwrap();
    assert!(back.is_empty());
}

#[test]
fn generic_array_release_frees_everything() {
    let mut c = CArray::<i32>::c_repr_of(vec![4, 5]).unwrap();
    assert_eq!(c.do_drop(), Ok(()));
    assert!(c.is_sentinel());
    assert_eq!(c.size(), 0);
}

#[test]
fn generic_array_of_texts_rejects_embedded_terminator() {
    let v = texts(&["ok", "b\0ad", "also ok"]);
    let r = CArray::<CNulString>::c_repr_of(v);
    assert_eq!(r.unwrap_err(), ConstructionError::InvalidText);
}

#[test]
fn range_pass_through() {
    let r: Range<i32> = 20..30;
    let c = CRange::<i32>::c_repr_of(r.clone()).unwrap();
    let back: Range<i32> = c.as_rust().unwrap();
    assert_eq!(back, r);
}

#[test]
fn reversed_range_is_not_validated() {
    let r: Range<i32> = 30..20;
    let c = CRange::<i32>::c_repr_of(r.clone()).unwrap();
    let back: Range<i32> = c.as_rust().unwrap();
    assert_eq!(back, r);
}

#[test]
fn range_matches_directly_built_value() {
    let c = CRange::<i32>::c_repr_of(20..30).unwrap();
    assert_eq!(c, CRange { start: 20, end: 30 });
}

#[test]
fn range_release_is_a_no_op() {
    let mut c = CRange::<i32>::c_repr_of(1..2).unwrap();
    assert_eq!(c.do_drop(), Ok(()));
    assert_eq!(c, CRange { start: 1, end: 2 });
}

#[test]
fn nested_composite_round_trip() {
    let ranges: Vec<Range<i32>> = vec![0..5, 7..9, -3..-1];
    let c = CArray::<CRange<i32>>::c_repr_of(ranges.clone()).unwrap();
    let back: Vec<Range<i32>> = c.as_rust().unwrap();
    assert_eq!(back, ranges);

    let mut c = c;
    assert_eq!(c.do_drop(), Ok(()));
    assert!(c.is_sentinel());
    assert_eq!(c.size(), 0);
}
