use remote_mounts::text::{
    chars_of, copy_range, find, push_decimal, push_range, push_signed_decimal, split_lines,
    text_of,
};

fn decimal_text(n: u64) -> String {
    let mut out = String::new();
    push_decimal(&mut out, n);
    out
}

fn signed_text(n: i64) -> String {
    let mut out = String::new();
    push_signed_decimal(&mut out, n);
    out
}

fn line_texts(text: &str) -> Vec<String> {
    split_lines(text).iter().map(|line| line.iter().collect()).collect()
}

#[test]
fn chars_of_gives_the_characters_in_order() {
    assert_eq!(chars_of("aé日"), vec!['a', 'é', '日']);
    assert_eq!(chars_of(""), Vec::<char>::new());
}

#[test]
fn find_gives_the_first_position_from_the_start() {
    let chars = chars_of("a=b=c");
    assert_eq!(find(&chars, '=', 0), 1);
    assert_eq!(find(&chars, '=', 1), 1);
    assert_eq!(find(&chars, '=', 2), 3);
    assert_eq!(find(&chars, '=', 4), 5);
    assert_eq!(find(&chars, '=', 5), 5);
    assert_eq!(find(&chars, '#', 0), 5);
}

#[test]
fn text_of_copies_a_range() {
    let chars = chars_of("héllo wörld");
    assert_eq!(text_of(&chars, 0, 5), "héllo");
    assert_eq!(text_of(&chars, 6, 11), "wörld");
    assert_eq!(text_of(&chars, 3, 3), "");
    assert_eq!(copy_range(&chars, 1, 3), vec!['é', 'l']);
}

#[test]
fn push_range_appends_to_what_is_there() {
    let chars = chars_of("abcdef");
    let mut out = String::from(">");
    push_range(&mut out, &chars, 2, 4);
    assert_eq!(out, ">cd");
}

#[test]
fn decimal_of_small_numbers() {
    assert_eq!(decimal_text(0), "0");
    assert_eq!(decimal_text(7), "7");
    assert_eq!(decimal_text(9), "9");
    assert_eq!(decimal_text(10), "10");
    assert_eq!(decimal_text(105), "105");
}

#[test]
fn decimal_of_the_largest_number() {
    assert_eq!(decimal_text(u64::MAX), "18446744073709551615");
    assert_eq!(decimal_text(1000000000000), "1000000000000");
}

#[test]
fn decimal_appends_to_what_is_there() {
    let mut out = String::from("n=");
    push_decimal(&mut out, 42);
    assert_eq!(out, "n=42");
}

#[test]
fn signed_decimal_writes_the_sign() {
    assert_eq!(signed_text(0), "0");
    assert_eq!(signed_text(32), "32");
    assert_eq!(signed_text(-1), "-1");
    assert_eq!(signed_text(-2147483648), "-2147483648");
    assert_eq!(signed_text(i64::MIN), "-9223372036854775808");
    assert_eq!(signed_text(i64::MAX), "9223372036854775807");
}

#[test]
fn a_text_without_newline_is_one_line() {
    assert_eq!(line_texts("abc"), vec!["abc"]);
    assert_eq!(line_texts(""), vec![""]);
}

#[test]
fn a_text_is_cut_at_each_newline() {
    assert_eq!(line_texts("a\nb\nc"), vec!["a", "b", "c"]);
    assert_eq!(line_texts("a\nb\n"), vec!["a", "b", ""]);
    assert_eq!(line_texts("\n\n"), vec!["", "", ""]);
    assert_eq!(line_texts("a\r\nb"), vec!["a\r", "b"]);
}
