use lib::contravariance::{contravariance_functions, handle_any, needs_static_handler, STATIC_TEXT};
use lib::covariance::{
    covariance_containers, covariance_lifetimes, covariance_slices_and_arrays, format_labels,
    LABEL_SEPARATOR,
};
use lib::invariance::{common_lifetime_error_and_fix, invariance_mut_refs, Cache};
use lib::phantom::phantom_data_variance;

#[test]
fn handle_any_counts_bytes() {
    assert_eq!(handle_any(""), 0);
    assert_eq!(handle_any("hello"), 5);
    assert_eq!(handle_any("héllo"), 6);
    assert_eq!(handle_any("日本"), 6);
}

#[test]
fn handle_any_on_short_lived_string() {
    let owned = String::from("short lived");
    assert_eq!(handle_any(&owned), 11);
}

#[test]
fn needs_static_handler_applies_handler_to_static_text() {
    assert_eq!(needs_static_handler(handle_any), 25);
    assert_eq!(needs_static_handler(|s: &'static str| s.len() * 2), 50);
    assert_eq!(needs_static_handler(|s: &'static str| if s == STATIC_TEXT { 1 } else { 0 }), 1);
}

#[test]
fn contravariance_functions_gives_static_text_length() {
    assert_eq!(contravariance_functions(), "this string lives forever".len());
    assert_eq!(contravariance_functions(), 25);
}

#[test]
fn covariance_lifetimes_keeps_text() {
    assert_eq!(covariance_lifetimes(), "I live forever");
}

#[test]
fn format_labels_joins_with_separator() {
    assert_eq!(LABEL_SEPARATOR, ", ");
    assert_eq!(format_labels(&["hello", "world"]), "hello, world");
    assert_eq!(format_labels(&[]), "");
    assert_eq!(format_labels(&["only"]), "only");
    assert_eq!(format_labels(&["a", "", "c"]), "a, , c");
}

#[test]
fn format_labels_of_short_lived_labels() {
    let first = String::from("x");
    let second = String::from("y");
    let labels: Vec<&str> = vec![first.as_str(), second.as_str()];
    assert_eq!(format_labels(&labels), "x, y");
}

#[test]
fn covariance_containers_keeps_contents() {
    let (labels, unboxed, short_opt) = covariance_containers();
    assert_eq!(labels, vec!["hello", "world"]);
    assert_eq!(format_labels(&labels), "hello, world");
    assert_eq!(unboxed, "boxed forever");
    assert_eq!(short_opt, Some("optional"));
}

#[test]
fn covariance_slices_and_arrays_keeps_contents() {
    let (short_slice, coerced) = covariance_slices_and_arrays();
    assert_eq!(short_slice.len(), 2);
    assert_eq!(short_slice, vec!["hello", "world"]);
    assert_eq!(coerced[0], "a");
    assert_eq!(coerced, vec!["a", "b", "c"]);
}

#[test]
fn invariance_mut_refs_writes_through_borrow() {
    assert_eq!(invariance_mut_refs(), "world");
}

#[test]
fn common_lifetime_error_and_fix_keeps_storage() {
    assert_eq!(common_lifetime_error_and_fix(), vec!["cached", "new entry"]);
}

#[test]
fn cache_with_split_lifetimes_pushes_into_storage() {
    let mut storage: Vec<&str> = vec!["first"];
    {
        let cache = Cache { data: &mut storage };
        let entry = String::from("second");
        cache.data.push("third");
        assert_eq!(cache.data.len(), 2);
        drop(entry);
    }
    assert_eq!(storage, vec!["first", "third"]);
}

#[test]
fn phantom_data_variance_key_text() {
    let key = phantom_data_variance();
    assert_eq!(key.raw, "user:score");
}
