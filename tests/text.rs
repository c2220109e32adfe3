use sample_ic_web3_macros_backend::{greet, push_decimal};

#[test]
fn greet_formats_name_and_message() {
    assert_eq!(
        greet(String::from("Alice"), String::from("How are you?")),
        Ok(String::from("Hello, Alice! How are you?"))
    );
    assert_eq!(greet(String::new(), String::new()), Ok(String::from("Hello, ! ")));
}

#[test]
fn decimal_rendering() {
    let mut s = String::from("n=");
    push_decimal(&mut s, 0);
    assert_eq!(s, "n=0");
    let mut s = String::new();
    push_decimal(&mut s, 9);
    assert_eq!(s, "9");
    let mut s = String::new();
    push_decimal(&mut s, 10);
    assert_eq!(s, "10");
    let mut s = String::new();
    push_decimal(&mut s, 1234567890);
    assert_eq!(s, "1234567890");
    let mut s = String::new();
    push_decimal(&mut s, u64::MAX);
    assert_eq!(s, "18446744073709551615");
}
