use cmdutils::head::{first_bytes, first_lines, header, parse_positive_int};

#[test]
fn test_parse_positive_int() {
    let res = parse_positive_int("3");
    assert!(res.is_ok());
    assert_eq!(res.unwrap(), 3);

    let res = parse_positive_int("foo");
    assert!(res.is_err());

    let res = parse_positive_int("0");
    assert!(res.is_err());
}

#[test]
fn positive_integers_and_their_failure() {
    assert_eq!(parse_positive_int("+3").unwrap(), 3);
    assert_eq!(parse_positive_int("18446744073709551615").ok(), "18446744073709551615".parse().ok());
    for text in ["", "0", "-1", "-0", "foo", "3.5", "99999999999999999999999"] {
        assert_eq!(parse_positive_int(text).unwrap_err().to_string(), "invalid positive integer");
    }
}

#[test]
fn the_start_of_a_stream() {
    let data = b"one\ntwo\nthree";
    assert_eq!(first_lines(data, 0), b"");
    assert_eq!(first_lines(data, 1), b"one\n");
    assert_eq!(first_lines(data, 2), b"one\ntwo\n");
    assert_eq!(first_lines(data, 3), data);
    assert_eq!(first_lines(data, 10), data);
    assert_eq!(first_lines(b"", 3), b"");
    assert_eq!(first_bytes(data, 0), b"");
    assert_eq!(first_bytes(data, 5), b"one\nt");
    assert_eq!(first_bytes(data, 13), data);
    assert_eq!(first_bytes(data, usize::MAX), data);
    assert_eq!(header("a.txt"), "==> a.txt <==\n");
}
