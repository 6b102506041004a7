use ray_marcher::text::{push_decimal, push_str};

fn decimal(n: u128) -> String {
    let mut out = Vec::new();
    push_decimal(&mut out, n);
    out.into_iter().collect()
}

#[test]
fn decimal_notation() {
    assert_eq!(decimal(0), "0");
    assert_eq!(decimal(7), "7");
    assert_eq!(decimal(10), "10");
    assert_eq!(decimal(12345), "12345");
    assert_eq!(decimal(u128::MAX), u128::MAX.to_string());
}

#[test]
fn push_str_appends() {
    let mut out = vec!['a'];
    push_str(&mut out, "bc");
    push_str(&mut out, "");
    assert_eq!(out, vec!['a', 'b', 'c']);
}
