use mountpoints::linux::{unescape_path, Error};

#[test]
fn unescape_path_works() {
    assert_eq!(unescape_path(b"").unwrap(), b"");
    assert_eq!(
        unescape_path(b"/tmp/a\\134\\054b\\134\\134c/lower").unwrap(),
        b"/tmp/a\\,b\\\\c/lower"
    );
    assert!(matches!(
        unescape_path(b"\\54ab").unwrap_err(),
        Error::PathParseError
    ));
    assert!(matches!(
        unescape_path(b"\\666").unwrap_err(),
        Error::PathParseError
    ));
    assert_eq!(unescape_path(b"\\000\\377").unwrap(), b"\x00\xFF");
}

#[test]
fn unescape_space_and_tab() {
    assert_eq!(unescape_path(b"/mnt/my\\040disk\\011x").unwrap(), b"/mnt/my disk\tx");
}

#[test]
fn unescape_plain_path_is_unchanged() {
    assert_eq!(unescape_path(b"/home/user").unwrap(), b"/home/user");
}

#[test]
fn unescape_rejects_first_digit_above_three() {
    for d in [b'4', b'5', b'6', b'7'] {
        let input = [b'/', b'\\', d, b'0', b'0'];
        assert_eq!(unescape_path(&input), Err(Error::PathParseError));
    }
    assert_eq!(unescape_path(b"ok\\400"), Err(Error::PathParseError));
    assert_eq!(unescape_path(b"\\377"), Ok(vec![0xFF]));
}

#[test]
fn unescape_rejects_truncated_escape() {
    assert_eq!(unescape_path(b"/a\\"), Err(Error::PathParseError));
    assert_eq!(unescape_path(b"/a\\0"), Err(Error::PathParseError));
    assert_eq!(unescape_path(b"/a\\04"), Err(Error::PathParseError));
    assert_eq!(unescape_path(b"/a\\040"), Ok(b"/a ".to_vec()));
}

#[test]
fn unescape_rejects_non_octal_digit() {
    assert_eq!(unescape_path(b"\\08x"), Err(Error::PathParseError));
    assert_eq!(unescape_path(b"a\\\\134"), Err(Error::PathParseError));
}

#[test]
fn unescape_is_deterministic() {
    let input = b"/x\\040y\\134z";
    assert_eq!(unescape_path(input), unescape_path(input));
}
