use rsu::periodic::{after, Next, Trouble};
use rsu::text::{decimal_i64, decimal_u64, enclose, replace};

#[test]
fn enclose_puts_three_texts_in_a_row() {
    assert_eq!(enclose("plugin[", "tl", "] added"), "plugin[tl] added");
    assert_eq!(enclose("", "", ""), "");
}

#[test]
fn decimal_of_unsigned_numbers() {
    assert_eq!(decimal_u64(0), "0");
    assert_eq!(decimal_u64(7), "7");
    assert_eq!(decimal_u64(10), "10");
    assert_eq!(decimal_u64(1234567890), "1234567890");
    assert_eq!(decimal_u64(u64::MAX), "18446744073709551615");
}

#[test]
fn decimal_of_signed_numbers() {
    assert_eq!(decimal_i64(0), "0");
    assert_eq!(decimal_i64(-1), "-1");
    assert_eq!(decimal_i64(42), "42");
    assert_eq!(decimal_i64(i64::MAX), "9223372036854775807");
    assert_eq!(decimal_i64(i64::MIN), "-9223372036854775808");
}

#[test]
fn replace_every_occurrence() {
    assert_eq!(replace("http://127.0.0.1:80/x", "127.0.0.1", "10.1.2.3"), "http://10.1.2.3:80/x");
    assert_eq!(replace("127.0.0.1 127.0.0.1", "127.0.0.1", "h"), "h h");
    assert_eq!(replace("aaa", "aa", "b"), "ba");
    assert_eq!(replace("abc", "x", "y"), "abc");
    assert_eq!(replace("abc", "", "y"), "abc");
    assert_eq!(replace("", "a", "y"), "");
    assert_eq!(replace("ab", "abc", "y"), "ab");
    assert_eq!(replace("été 127.0.0.1 é", "127.0.0.1", "ô"), "été ô é");
}

#[test]
fn passing_trouble_lets_a_loop_go_on() {
    assert_eq!(after(Trouble::Publish), Next::GoOn);
    assert_eq!(after(Trouble::Report), Next::GoOn);
    assert_eq!(after(Trouble::Lock), Next::Stop);
    assert_eq!(after(Trouble::Counter), Next::Stop);
    assert_eq!(after(Trouble::Clock), Next::Stop);
}
