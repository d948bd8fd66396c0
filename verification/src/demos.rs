//! The demonstration routines: each one is an independent, stateless
//! unit that computes a small value with an exact contract. Printing
//! and reading are left to the program around the library; the routines
//! here return what is to be shown.

use vstd::prelude::*;
use vstd::string::{StrSliceExecFns, StringExecFns};

use crate::numparse::{all_dec_digits, dec_value, parse_u32, spec_parse_u32};

verus! {

/// An immutable value with an explicit type annotation.
pub const DEMO_CONSTANT: i32 = 1;

/// What `str::trim` returns for the given characters: the result
/// depends on the characters alone.
pub uninterp spec fn trim_of(s: Seq<char>) -> Seq<char>;

/// Relies on `str::trim`: returns the string with leading and trailing
/// whitespace removed, so the result is a function of the characters
/// alone and no longer than the input.
#[verifier::external_body]
fn trim_str(s: &str) -> (r: &str)
    ensures
        r@ == trim_of(s@),
        r@.len() <= s@.len(),
{
    s.trim()
}

/// Relies on `String::push`: appends one character to the string.
#[verifier::external_body]
fn push_char(s: &mut String, c: char)
    ensures
        final(s)@ == old(s)@.push(c),
{
    s.push(c);
}

/// Relies on `rand::random_range`: returns a value drawn from the
/// half-open range, which must be non-empty (an empty range panics).
#[verifier::external_body]
fn random_in_range(low: u32, high: u32) -> (r: u32)
    requires
        low < high,
    ensures
        low <= r < high,
{
    rand::random_range(low..high)
}

/// The greeting lines: a plain greeting, then one naming two guests.
pub fn demo_println() -> (r: (String, String))
    ensures
        r.0@ == "Hello"@,
        r.1@ == "Hello "@ + "Alice"@ + " and "@ + "Bob"@,
{
    let first = String::from_str("Hello");
    let second = greeting_for("Alice", "Bob");
    (first, second)
}

/// A greeting that names two guests.
pub fn greeting_for(a: &str, b: &str) -> (r: String)
    ensures
        r@ == "Hello "@ + a@ + " and "@ + b@,
{
    let mut s = String::from_str("Hello ");
    s.append(a);
    s.append(" and ");
    s.append(b);
    s
}

/// The declared constant, returned as a value.
pub fn demo_constants() -> (r: i32)
    ensures
        r == DEMO_CONSTANT,
        r == 1,
{
    DEMO_CONSTANT
}

/// Variable bindings: immutable and mutable bindings, shadowing, a
/// character, an array, a tuple, strings, and integer literals in
/// every base. Returns the sum of the literals, the character, and the
/// initialized string.
#[allow(unused_variables, unused_assignments)]
pub fn demo_variables() -> (r: (i32, char, String))
    ensures
        r.0 == 98_222 + 0xff + 0o77 + 0b1111_0000 + 65,
        r.1 == 'x',
        r.2@ == "hello"@,
{
    let b: i32 = 1;
    let mut c: i32 = 1;
    c = b + 1;
    let letter: char = 'x';
    let arr = [1i32, 2, 3];
    let tup: (i32, u32, char) = (1, 2, 'x');
    let f = String::new();
    let g = String::from_str("hello");
    let h: i32 = 98_222;
    let i: i32 = 0xff;
    let j: i32 = 0o77;
    let k: i32 = 0b1111_0000;
    let l: u8 = 65;
    (h + i + j + k + l as i32, letter, g)
}

/// Indexing into a fixed array yields its elements in order.
pub fn demo_array_access() -> (r: (i32, i32, i32))
    ensures
        r == (1i32, 2i32, 3i32),
{
    let arr = [1i32, 2, 3];
    let a = arr[0];
    let b = arr[1];
    let c = arr[2];
    (a, b, c)
}

/// Destructuring a tuple binds each element to its own name.
pub fn demo_tuple_destructure() -> (r: (i32, u32, char))
    ensures
        r == (1i32, 2u32, 'x'),
{
    let tup: (i32, u32, char) = (1, 2, 'x');
    let (a, b, c) = tup;
    (a, b, c)
}

/// Branches and loops: `if` in its three shapes, a `loop` that breaks,
/// a `while`, and an indexed walk that sums a fixed array. Returns the
/// sum of the array elements.
pub fn demo_control_flow() -> (r: u32)
    ensures
        r == 6,
{
    let a = true;
    let b = false;
    let mut n: u32 = 0;

    if a {
        n = n + 1;
    }

    if a {
        n = n + 1;
    } else {
        n = 100;
    }

    if !a {
        n = 100;
    } else if b {
        n = 200;
    } else {
        n = n + 1;
    }

    loop
        invariant_except_break
            n == 3,
        ensures
            n == 4,
        decreases 1int,
    {
        n = n + 1;
        break;
    }

    while n < 5
        invariant
            n <= 5,
        decreases 5 - n,
    {
        n = n + 1;
    }

    let arr = [1u32, 2, 3];
    assert(arr@ =~= seq![1u32, 2u32, 3u32]);
    let mut sum: u32 = 0;
    let mut i: usize = 0;
    while i < 3
        invariant
            arr@ =~= seq![1u32, 2u32, 3u32],
            i <= 3,
            i == 0 ==> sum == 0,
            i == 1 ==> sum == 1,
            i == 2 ==> sum == 3,
            i == 3 ==> sum == 6,
        decreases 3 - i,
    {
        sum = sum + arr[i];
        i = i + 1;
    }
    sum
}

/// The order label for a pair of numbers: "less", "greater", or
/// "equal", by the usual comparison.
pub fn compare_label(x: i64, y: i64) -> (r: String)
    ensures
        x < y ==> r@ == "less"@,
        x > y ==> r@ == "greater"@,
        x == y ==> r@ == "equal"@,
{
    if x < y {
        String::from_str("less")
    } else if x > y {
        String::from_str("greater")
    } else {
        String::from_str("equal")
    }
}

/// Comparing one with two: the label is "less".
pub fn demo_compare() -> (r: String)
    ensures
        r@ == "less"@,
{
    compare_label(1, 2)
}

/// Shadowing while converting: a padded string, then the same name
/// bound to its trimmed form. Returns the text before and after
/// trimming.
pub fn demo_shadow() -> (r: (String, String))
    ensures
        r.0@ == "    hello     "@,
        r.1@ == trim_of("    hello     "@),
{
    let x = "    hello     ";
    let before = String::from_str(x);
    let x = trim_str(x);
    let after = String::from_str(x);
    (before, after)
}

/// A random number between one inclusive and one hundred one exclusive.
pub fn demo_random_variable() -> (r: u32)
    ensures
        1 <= r < 101,
{
    random_in_range(1, 101)
}

/// Building a string by appending: one character, then a string slice.
pub fn demo_string_append() -> (r: String)
    ensures
        r@ == "hello world"@,
{
    let mut s = String::from_str("hello");
    push_char(&mut s, ' ');
    s.append("world");
    proof {
        reveal_strlit("hello");
        reveal_strlit("world");
        reveal_strlit("hello world");
        assert(("hello"@.push(' ') + "world"@) =~= "hello world"@);
    }
    s
}

/// Parsing the text "123" with a fallback: the denoted number when the
/// text parses, and zero when it does not.
pub fn demo_result_with_error_handling() -> (r: u32)
    ensures
        r == match spec_parse_u32("123"@) {
            Some(num) => num,
            None => 0u32,
        },
        r == 123,
{
    let x = "123";
    let x: u32 = match parse_u32(x) {
        Some(num) => num,
        None => 0,
    };
    proof {
        lemma_one_two_three();
    }
    x
}

/// The text "123" denotes one hundred twenty-three.
proof fn lemma_one_two_three()
    ensures
        spec_parse_u32("123"@) == Some(123u32),
{
    reveal_strlit("123");
    let s = "123"@;
    assert(s.len() == 3);
    assert(s[0] == '1' && s[1] == '2' && s[2] == '3');
    let s2 = s.drop_last();
    let s1 = s2.drop_last();
    let s0 = s1.drop_last();
    assert(s0.len() == 0);
    assert(dec_value(s0) == 0);
    assert(s1.len() == 1 && s1.last() == '1');
    assert(dec_value(s1) == 1);
    assert(s2.len() == 2 && s2.last() == '2');
    assert(dec_value(s2) == 12);
    assert(s.last() == '3');
    assert(dec_value(s) == 123);
    assert(all_dec_digits(s));
}

/// Trimming the text "  123  ", then parsing what remains as a number:
/// the result is exactly what the trimmed text denotes.
pub fn demo_convert_a_string_to_a_number() -> (r: Option<u32>)
    ensures
        r == spec_parse_u32(trim_of("  123  "@)),
{
    let x = "  123  ";
    let x = trim_str(x);
    parse_u32(x)
}

} // verus!
