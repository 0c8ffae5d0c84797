use acc_reader::abox::AtomicBox;
use acc_reader::scoped::{scope, Scope};

#[test]
fn box_gives_back_a_copy_of_what_went_in() {
    let value: u64 = 123;
    let boxed = AtomicBox::new(&value);
    assert_eq!(boxed.get(), 123);
    assert_eq!(boxed.get(), 123);
}

#[test]
fn box_holds_its_own_copy() {
    let mut text = String::from("abc");
    let boxed = AtomicBox::new(&text);
    text.push('d');
    assert_eq!(boxed.get(), "abc");
    let mut copy = boxed.get();
    copy.push('e');
    assert_eq!(boxed.get(), "abc");
    assert_eq!(copy, "abce");
}

#[test]
fn scope_returns_what_the_function_returns() {
    let result = scope(|_: &Scope| 7 * 6);
    assert_eq!(result, 42);
}

#[test]
fn scope_moves_captured_values_through() {
    let words = vec![String::from("a"), String::from("b")];
    let joined = scope(move |_: &Scope| words.join("-"));
    assert_eq!(joined, "a-b");
}
