use gkquad::ValueWithError;

type Carried = ValueWithError<i32, &'static str>;

#[test]
fn new_has_no_error() {
    let v = Carried::new(7);
    assert_eq!(v.value, 7);
    assert_eq!(v.error, None);
    assert!(!v.has_err());
}

#[test]
fn with_error_keeps_value_and_error() {
    let v = Carried::with_error(7, "late");
    assert_eq!(v.value, 7);
    assert_eq!(v.error, Some("late"));
    assert!(v.has_err());
}

#[test]
fn ok_gives_value_only_without_error() {
    assert_eq!(Carried::new(7).ok(), Some(7));
    assert_eq!(Carried::with_error(7, "late").ok(), None);
}

#[test]
fn err_gives_error() {
    assert_eq!(Carried::new(7).err(), None);
    assert_eq!(Carried::with_error(7, "late").err(), Some("late"));
}

#[test]
fn as_ref_borrows_both_parts() {
    let v = Carried::with_error(7, "late");
    let r = v.as_ref();
    assert_eq!(*r.value, 7);
    assert_eq!(r.error, Some(&"late"));
    let v = Carried::new(8);
    let r = v.as_ref();
    assert_eq!(*r.value, 8);
    assert_eq!(r.error, None);
}

#[test]
fn as_mut_writes_through() {
    let mut v = Carried::with_error(7, "late");
    {
        let m = v.as_mut();
        *m.value = 9;
        *m.error.unwrap() = "later";
    }
    assert_eq!(v, Carried::with_error(9, "later"));
    let mut v = Carried::new(1);
    {
        let m = v.as_mut();
        assert!(m.error.is_none());
        *m.value += 1;
    }
    assert_eq!(v, Carried::new(2));
}

#[test]
fn unwrap_unchecked_gives_value_in_any_case() {
    assert_eq!(Carried::new(7).unwrap_unchecked(), 7);
    assert_eq!(Carried::with_error(7, "late").unwrap_unchecked(), 7);
}

#[test]
fn unwrap_or_falls_back_on_error() {
    assert_eq!(Carried::new(7).unwrap_or(3), 7);
    assert_eq!(Carried::with_error(7, "late").unwrap_or(3), 3);
}

#[test]
fn unwrap_or_else_calls_with_error() {
    assert_eq!(Carried::new(7).unwrap_or_else(|e| e.len() as i32), 7);
    assert_eq!(Carried::with_error(7, "late").unwrap_or_else(|e| e.len() as i32), 4);
}

#[test]
fn unwrap_err_and_expect_err_give_error() {
    assert_eq!(Carried::with_error(7, "late").unwrap_err(), "late");
    assert_eq!(Carried::with_error(7, "late").expect_err("an error"), "late");
}

#[test]
fn into_result_maps_both_cases() {
    assert_eq!(Carried::new(7).into_result(), Ok(7));
    assert_eq!(Carried::with_error(7, "late").into_result(), Err("late"));
}

#[test]
fn unwrap_and_expect_give_value() {
    assert_eq!(Carried::new(7).unwrap(), 7);
    assert_eq!(Carried::new(7).expect("a value"), 7);
}

#[test]
fn derived_order_compares_value_first() {
    assert!(Carried::new(1) < Carried::new(2));
    assert!(Carried::new(1) < Carried::with_error(1, "a"));
    assert_eq!(Carried::new(1).clone(), Carried::new(1));
}
