use rust_tools::text::{erode_block, erode_from_back, erode_from_front, replace, sh_quote, to_decimal};

#[test]
fn test_erode_from_back() {
    let input = "\
{
    let x = 5;
    let y = format!(\"{}\", 42);
}";

    let expected = "\
{
    let x = 5;
    let y = format!(\"{}\", 42);";

    let got = erode_from_back(input);
    assert_eq!(expected, got);
}

#[test]
fn test_erode_from_back_no_brace() {
    let input = "\
let x = 5;
let y = something();
";
    let expected = "";
    let got = erode_from_back(input);
    assert_eq!(expected, got);
}

#[test]
fn test_erode_from_front() {
    let input = "
        {
            something();
            inside_a_block();
        }
    ";
    let expected =
"            something();
            inside_a_block();
        }
    ";
    let got = erode_from_front(input);
    println!("input: {}\nexpected:\n{}\ngot:\n{}", input, expected, got);
    assert_eq!(expected, got);
}

#[test]
fn test_erode_from_front_no_brace() {
    let input = "
            something();
            inside_a_block();
    ";
    let expected =
"something();
            inside_a_block();
    ";
    let got = erode_from_front(input);
    println!("input: {}\nexpected:\n{}\ngot:\n{}", input, expected, got);
    assert_eq!(expected, got);
}

#[test]
fn test_erode_block() {
    let input = "
        {
            something();
            inside_a_block();
        }
    ";
    let expected =
"            something();
            inside_a_block();";
    let got = erode_block(input);
    println!("input: {}\nexpected:\n{}\ngot:\n{}", input, expected, got);
    assert_eq!(expected, got);
}

#[test]
fn erode_front_skips_all_braces_then_newlines() {
    assert_eq!(erode_from_front(" {{\n\n\nx"), "x");
    assert_eq!(erode_from_front(" { \n \n \n"), " \n \n \n");
    assert_eq!(erode_from_front(""), "");
}

#[test]
fn erode_back_keeps_text_before_last_brace() {
    assert_eq!(erode_from_back("a } b }  c"), "a } b");
    assert_eq!(erode_from_back("}"), "");
    assert_eq!(erode_from_back("x \u{3000}\t}"), "x");
}

#[test]
fn replace_is_left_to_right_and_non_overlapping() {
    assert_eq!(replace("aaa", "aa", "b"), "ba");
    assert_eq!(replace("x-y-z", "-", " "), "x y z");
    assert_eq!(replace("abc", "abcd", "z"), "abc");
    assert_eq!(replace("%%A%%B%%A%%", "%%A%%", "1"), "1B1");
    assert_eq!(replace("", "-", " "), "");
}

#[test]
fn sh_quote_wraps_and_escapes_single_quotes() {
    assert_eq!(sh_quote("abc"), "'abc'");
    assert_eq!(sh_quote("it's"), "'it'\"'\"'s'");
    assert_eq!(sh_quote(""), "''");
}

#[test]
fn decimal_numbers() {
    assert_eq!(to_decimal(0), "0");
    assert_eq!(to_decimal(3), "3");
    assert_eq!(to_decimal(4096), "4096");
    assert_eq!(to_decimal(u32::MAX as u128), "4294967295");
    assert_eq!(to_decimal(u128::MAX), "340282366920938463463374607431768211455");
}
