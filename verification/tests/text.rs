use roguelike::text::{decimal_text, join2, join3};

#[test]
fn decimal_text_writes_numbers() {
    assert_eq!(decimal_text(0), "0");
    assert_eq!(decimal_text(7), "7");
    assert_eq!(decimal_text(10), "10");
    assert_eq!(decimal_text(40), "40");
    assert_eq!(decimal_text(1234567890), "1234567890");
    assert_eq!(decimal_text(-1), "-1");
    assert_eq!(decimal_text(-305), "-305");
    assert_eq!(decimal_text(i64::MAX), "9223372036854775807");
    assert_eq!(decimal_text(i64::MIN), "-9223372036854775808");
}

#[test]
fn decimal_text_agrees_with_the_standard_rendering() {
    let mut n: i64 = -2000;
    while n <= 2000 {
        assert_eq!(decimal_text(n), format!("{}", n));
        n += 1;
    }
}

#[test]
fn join_concatenates() {
    assert_eq!(join2("ab", "cd"), "abcd");
    assert_eq!(join2("", ""), "");
    assert_eq!(join3("a", "", "c"), "ac");
    assert_eq!(join3("remains", " of ", "orc"), "remains of orc");
}
