use rust_demo::{echo, foo};

#[test]
fn demo_blank() {}

#[test]
fn demo_foo_test() {
    assert!(foo());
}

#[test]
fn demo_echo_test() {
    let s = "hello";
    assert_eq!(echo(s), s);
}

#[test]
fn main_blank() {}

#[test]
fn main_foo_test() {
    assert!(foo());
}

#[test]
fn main_echo_test() {
    let s = "hello";
    assert_eq!(echo(s), s);
}
