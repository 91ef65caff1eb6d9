use vangers_srv::auth::Auth;

#[test]
fn test_new_with_empty_name() {
    let auth = Auth::new(&[], &[]);
    assert_eq!(b"Player-", &auth.name()[..7]);
    assert_eq!(Some(&0), auth.name().last());
}

#[test]
fn test_new_without_nullterminated_name() {
    let auth = Auth::new(b"test-auth", &[]);
    assert_eq!(b"test-auth\0", &auth.name()[..]);
}

#[test]
fn test_new_with_nullterminated_name() {
    let auth = Auth::new(b"test-auth\0", &[]);
    assert_eq!(b"test-auth\0", &auth.name()[..],);
}

#[test]
fn test_name_utf8() {
    let auth = Auth::new(b"login\0", b"pwd\0");
    assert_eq!("login", auth.name_utf8());
}
