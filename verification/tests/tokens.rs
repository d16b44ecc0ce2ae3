use rusty_planner::text::{append_some, decimal};
use rusty_planner::token::{CookieToken, LAYOUT_BITS, LAYOUT_MASK};

#[test]
fn decimal_renders_numbers() {
    assert_eq!(decimal(0), "0");
    assert_eq!(decimal(7), "7");
    assert_eq!(decimal(10), "10");
    assert_eq!(decimal(50035), "50035");
    assert_eq!(decimal(u64::MAX), "18446744073709551615");
}

#[test]
fn simple_form_is_thirty_two_lower_case_hex_digits() {
    let token = CookieToken { value: 0xa1a2a3a4b1b2c1c2d1d2d3d4d5d6d7d8 };
    assert_eq!(token.to_simple(), "a1a2a3a4b1b2c1c2d1d2d3d4d5d6d7d8");
    assert_eq!(CookieToken { value: 0 }.to_simple(), "00000000000000000000000000000000");
    assert_eq!(CookieToken { value: 255 }.to_simple(), "000000000000000000000000000000ff");
    assert_eq!(CookieToken { value: u128::MAX }.to_simple(), "ffffffffffffffffffffffffffffffff");
}

#[test]
fn simple_form_reads_back() {
    for value in [0u128, 1, 0x936da01f9abd4d9d80c702af85c822a8, u128::MAX] {
        let token = CookieToken { value };
        assert_eq!(CookieToken::parse_str(&token.to_simple()), Some(token));
    }
    let fresh = CookieToken::generate();
    assert_eq!(CookieToken::parse_str(&fresh.to_simple()), Some(fresh));
}

#[test]
fn parse_accepts_the_forms_of_a_token() {
    let expected = Some(CookieToken { value: 0x936da01f9abd4d9d80c702af85c822a8 });
    assert_eq!(CookieToken::parse_str("936da01f9abd4d9d80c702af85c822a8"), expected);
    assert_eq!(CookieToken::parse_str("936DA01F-9ABD-4D9D-80C7-02AF85C822A8"), expected);
    assert_eq!(
        CookieToken::parse_str("urn:uuid:936da01f-9abd-4d9d-80c7-02af85c822a8"),
        expected
    );
}

#[test]
fn parse_rejects_what_is_no_token() {
    assert_eq!(CookieToken::parse_str(""), None);
    assert_eq!(CookieToken::parse_str("not-a-token"), None);
    assert_eq!(CookieToken::parse_str("936da01f9abd4d9d80c702af85c822a"), None);
    assert_eq!(CookieToken::parse_str("936da01f9abd4d9d80c702af85c822ag"), None);
    assert_eq!(CookieToken::parse_str("936da01f-9abd-4d9d-80c7-02af85c822a8-"), None);
}

#[test]
fn generated_tokens_carry_the_random_layout() {
    for _ in 0..64 {
        let token = CookieToken::generate();
        assert_eq!(token.value & LAYOUT_MASK, LAYOUT_BITS);
        let text = token.to_simple();
        assert_eq!(text.len(), 32);
        assert_eq!(&text[12..13], "4");
        assert!(["8", "9", "a", "b"].contains(&&text[16..17]));
    }
}

#[test]
fn some_brackets_are_appended() {
    let mut out = "code: ".to_string();
    append_some(&mut out, "12");
    assert_eq!(out, "code: Some(12)");
}
