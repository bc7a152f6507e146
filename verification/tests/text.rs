use rust4diva::text::chars_le;
use rust4diva::text::chars_of;
use rust4diva::text::i32_to_decimal;
use rust4diva::text::same_text;
use rust4diva::text::u32_to_decimal;

fn le(a: &str, b: &str) -> bool {
    chars_le(&a.chars().collect(), &b.chars().collect())
}

#[test]
fn decimal_of_unsigned() {
    assert_eq!(u32_to_decimal(0), "0");
    assert_eq!(u32_to_decimal(7), "7");
    assert_eq!(u32_to_decimal(10), "10");
    assert_eq!(u32_to_decimal(1204), "1204");
    assert_eq!(u32_to_decimal(u32::MAX), "4294967295");
}

#[test]
fn decimal_of_signed() {
    assert_eq!(i32_to_decimal(0), "0");
    assert_eq!(i32_to_decimal(1), "1");
    assert_eq!(i32_to_decimal(-1), "-1");
    assert_eq!(i32_to_decimal(-250), "-250");
    assert_eq!(i32_to_decimal(i32::MAX), "2147483647");
    assert_eq!(i32_to_decimal(i32::MIN), "-2147483648");
}

#[test]
fn characters_of_a_text() {
    assert_eq!(chars_of(""), Vec::<char>::new());
    assert_eq!(chars_of("a\u{e9}\u{1f3b5}"), vec!['a', '\u{e9}', '\u{1f3b5}']);
}

#[test]
fn same_text_compares_contents() {
    assert!(same_text("", ""));
    assert!(same_text("abc", "abc"));
    assert!(!same_text("abc", "abd"));
    assert!(!same_text("abc", "ab"));
    assert!(!same_text("a", "\u{e9}"));
}

#[test]
fn dictionary_order() {
    assert!(le("", ""));
    assert!(le("", "a"));
    assert!(!le("a", ""));
    assert!(le("a", "a"));
    assert!(le("a", "ab"));
    assert!(!le("ab", "a"));
    assert!(le("ab", "b"));
    assert!(!le("b", "ab"));
    assert!(le("Z", "a"));
    assert!(le("z", "\u{e9}"));
    assert!(!le("\u{e9}", "z"));
}

#[test]
fn dictionary_order_agrees_with_the_order_of_strings() {
    let words = ["", "a", "A", "ab", "b", "My Loadout!", "My Loadout_", "\u{e9}t\u{e9}", "zz"];
    for x in words {
        for y in words {
            assert_eq!(le(x, y), x <= y);
        }
    }
}
