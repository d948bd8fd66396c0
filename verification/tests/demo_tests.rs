use rust_demo::demos::{
    compare_label, demo_array_access, demo_compare, demo_constants, demo_control_flow,
    demo_convert_a_string_to_a_number, demo_println, demo_random_variable,
    demo_result_with_error_handling, demo_shadow, demo_string_append, demo_tuple_destructure,
    demo_variables, greeting_for,
};
use rust_demo::numparse::parse_u32;

#[test]
fn println_lines_are_fixed() {
    let (first, second) = demo_println();
    assert_eq!(first, "Hello");
    assert_eq!(second, "Hello Alice and Bob");
}

#[test]
fn greeting_names_both_guests() {
    assert_eq!(greeting_for("Carol", "Dan"), "Hello Carol and Dan");
}

#[test]
fn constant_is_one() {
    assert_eq!(demo_constants(), 1);
}

#[test]
fn variables_demo_values() {
    let (sum, letter, text) = demo_variables();
    assert_eq!(sum, 98_222 + 0xff + 0o77 + 0b1111_0000 + 65);
    assert_eq!(letter, 'x');
    assert_eq!(text, "hello");
}

#[test]
fn array_elements_in_order() {
    assert_eq!(demo_array_access(), (1, 2, 3));
}

#[test]
fn tuple_destructures_elementwise() {
    assert_eq!(demo_tuple_destructure(), (1, 2, 'x'));
}

#[test]
fn control_flow_sums_the_array() {
    assert_eq!(demo_control_flow(), 6);
}

#[test]
fn compare_one_with_two_is_less() {
    assert_eq!(demo_compare(), "less");
}

#[test]
fn compare_labels_cover_all_orders() {
    assert_eq!(compare_label(5, 2), "greater");
    assert_eq!(compare_label(2, 2), "equal");
    assert_eq!(compare_label(-3, 2), "less");
}

#[test]
fn shadowing_trims_the_padding() {
    let (before, after) = demo_shadow();
    assert_eq!(before, "    hello     ");
    assert_eq!(after, "hello");
}

#[test]
fn random_draws_stay_in_range() {
    for _ in 0..100 {
        let r = demo_random_variable();
        assert!((1..101).contains(&r));
    }
}

#[test]
fn appending_builds_hello_world() {
    assert_eq!(demo_string_append(), "hello world");
}

#[test]
fn parse_with_fallback_reads_123() {
    assert_eq!(demo_result_with_error_handling(), 123);
}

#[test]
fn trim_then_parse_reads_123() {
    assert_eq!(demo_convert_a_string_to_a_number(), Some(123));
}

#[test]
fn parse_u32_accepts_digit_runs() {
    assert_eq!(parse_u32("0"), Some(0));
    assert_eq!(parse_u32("123"), Some(123));
    assert_eq!(parse_u32("00123"), Some(123));
    assert_eq!(parse_u32("4294967295"), Some(u32::MAX));
}

#[test]
fn parse_u32_rejects_everything_else() {
    assert_eq!(parse_u32(""), None);
    assert_eq!(parse_u32("abc"), None);
    assert_eq!(parse_u32("12a"), None);
    assert_eq!(parse_u32(" 123"), None);
    assert_eq!(parse_u32("-1"), None);
    assert_eq!(parse_u32("4294967296"), None);
    assert_eq!(parse_u32("99999999999999999999"), None);
}
