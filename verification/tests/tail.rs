use cmdutils::tail::lines::NEWLINE;
use cmdutils::tail::report::header;
use cmdutils::tail::stream::{select_bytes, select_lines, skip_lines, tail, LineWindow};
use cmdutils::tail::take::TakeValue::{PlusZero, TakeNum};
use cmdutils::tail::take::{parse_num, parse_num_without_regex, take_value_of_groups};
use cmdutils::tail::totals::{count_lines_bytes, StreamTotals};
use cmdutils::tail::window::get_start_index;

const ONE: &str = "Öne line, four wordś.\n";
const TEN: &str = "one\ntwo\nthree\nfour\nfive\nsix\nseven\neight\nnine\nten\n";

#[test]
fn test_get_start_index() {
    assert_eq!(get_start_index(&PlusZero, 0), None);
    assert_eq!(get_start_index(&PlusZero, 1), Some(0));
    assert_eq!(get_start_index(&TakeNum(0), 1), None);
    assert_eq!(get_start_index(&TakeNum(1), 0), None);
    assert_eq!(get_start_index(&TakeNum(2), 1), None);
    assert_eq!(get_start_index(&TakeNum(1), 10), Some(0));
    assert_eq!(get_start_index(&TakeNum(2), 10), Some(1));
    assert_eq!(get_start_index(&TakeNum(3), 10), Some(2));
    assert_eq!(get_start_index(&TakeNum(-1), 10), Some(9));
    assert_eq!(get_start_index(&TakeNum(-2), 10), Some(8));
    assert_eq!(get_start_index(&TakeNum(-3), 10), Some(7));
    assert_eq!(get_start_index(&TakeNum(-20), 10), Some(0));
}

#[test]
fn test_count_lines_bytes() {
    let res = count_lines_bytes(ONE.as_bytes());
    assert!(res.is_ok());
    assert_eq!(res.unwrap(), (1, 24));
    let res = count_lines_bytes(TEN.as_bytes());
    assert!(res.is_ok());
    assert_eq!(res.unwrap(), (10, 49));
}

#[test]
fn test_parse_num() {
    let res = parse_num("3");
    assert!(res.is_ok());
    assert_eq!(res.unwrap(), TakeNum(-3));

    let res = parse_num("+3");
    assert!(res.is_ok());
    assert_eq!(res.unwrap(), TakeNum(3));

    let res = parse_num("-3");
    assert!(res.is_ok());
    assert_eq!(res.unwrap(), TakeNum(-3));

    let res = parse_num("0");
    assert!(res.is_ok());
    assert_eq!(res.unwrap(), TakeNum(0));

    let res = parse_num("+0");
    assert!(res.is_ok());
    assert_eq!(res.unwrap(), PlusZero);

    let res = parse_num(&i64::MAX.to_string());
    assert!(res.is_ok());
    assert_eq!(res.unwrap(), TakeNum(i64::MIN + 1));
    let res = parse_num(&(i64::MIN + 1).to_string());
    assert!(res.is_ok());
    assert_eq!(res.unwrap(), TakeNum(i64::MIN + 1));
    let res = parse_num(&format!("+{}", i64::MAX));
    assert!(res.is_ok());
    assert_eq!(res.unwrap(), TakeNum(i64::MAX));
    let res = parse_num(&i64::MIN.to_string());
    assert!(res.is_ok());
    assert_eq!(res.unwrap(), TakeNum(i64::MIN));

    let res = parse_num("3.14");
    assert!(res.is_err());
    assert_eq!(res.unwrap_err().to_string(), "3.14");

    let res = parse_num("foo");
    assert!(res.is_err());
    assert_eq!(res.unwrap_err().to_string(), "foo");
}

#[test]
fn test_parse_num_without_regex() {
    let res = parse_num_without_regex("3");
    assert!(res.is_ok());
    assert_eq!(res.unwrap(), TakeNum(-3));

    let res = parse_num_without_regex("+3");
    assert!(res.is_ok());
    assert_eq!(res.unwrap(), TakeNum(3));

    let res = parse_num_without_regex("-3");
    assert!(res.is_ok());
    assert_eq!(res.unwrap(), TakeNum(-3));

    let res = parse_num_without_regex("0");
    assert!(res.is_ok());
    assert_eq!(res.unwrap(), TakeNum(0));

    let res = parse_num_without_regex("+0");
    assert!(res.is_ok());
    assert_eq!(res.unwrap(), PlusZero);

    let res = parse_num_without_regex(&i64::MAX.to_string());
    assert!(res.is_ok());
    assert_eq!(res.unwrap(), TakeNum(i64::MIN + 1));
    let res = parse_num_without_regex(&(i64::MIN + 1).to_string());
    assert!(res.is_ok());
    assert_eq!(res.unwrap(), TakeNum(i64::MIN + 1));
    let res = parse_num_without_regex(&format!("+{}", i64::MAX));
    assert!(res.is_ok());
    assert_eq!(res.unwrap(), TakeNum(i64::MAX));
    let res = parse_num_without_regex(&i64::MIN.to_string());
    assert!(res.is_ok());
    assert_eq!(res.unwrap(), TakeNum(i64::MIN));

    let res = parse_num_without_regex("3.14");
    assert!(res.is_err());
    assert_eq!(res.unwrap_err().to_string(), "3.14");

    let res = parse_num_without_regex("foo");
    assert!(res.is_err());
    assert_eq!(res.unwrap_err().to_string(), "foo");
}

#[test]
fn start_index_selects_nothing_of_nothing() {
    for take in [PlusZero, TakeNum(0), TakeNum(1), TakeNum(-1), TakeNum(i64::MIN), TakeNum(i64::MAX)] {
        assert_eq!(get_start_index(&take, 0), None);
    }
}

#[test]
fn start_index_of_extreme_counts() {
    assert_eq!(get_start_index(&TakeNum(i64::MIN), 1), Some(0));
    assert_eq!(get_start_index(&TakeNum(i64::MIN), i64::MAX), Some(0));
    assert_eq!(get_start_index(&TakeNum(i64::MAX), i64::MAX), Some(i64::MAX as u64 - 1));
    assert_eq!(get_start_index(&TakeNum(i64::MAX), i64::MAX - 1), None);
    assert_eq!(get_start_index(&TakeNum(-1), i64::MAX), Some(i64::MAX as u64 - 1));
    assert_eq!(get_start_index(&TakeNum(10), 10), Some(9));
    assert_eq!(get_start_index(&TakeNum(11), 10), None);
    assert_eq!(get_start_index(&TakeNum(-10), 10), Some(0));
}

#[test]
fn start_index_of_negative_totals() {
    assert_eq!(get_start_index(&PlusZero, -1), None);
    assert_eq!(get_start_index(&TakeNum(1), -1), None);
    assert_eq!(get_start_index(&TakeNum(-1), -5), Some(0));
    assert_eq!(get_start_index(&TakeNum(i64::MIN), i64::MIN), Some(0));
}

#[test]
fn parse_round_trip() {
    for parse in [parse_num, parse_num_without_regex] {
        assert_eq!(parse("+0").unwrap(), PlusZero);
        assert_eq!(parse("0").unwrap(), TakeNum(0));
        assert_eq!(parse("-0").unwrap(), TakeNum(0));
        assert_eq!(parse("+5").unwrap(), TakeNum(5));
        assert_eq!(parse("5").unwrap(), TakeNum(-5));
        assert_eq!(parse("-5").unwrap(), TakeNum(-5));
        assert_eq!(parse("+000").unwrap(), PlusZero);
        assert_eq!(parse("007").unwrap(), TakeNum(-7));
    }
}

#[test]
fn parse_boundaries() {
    for parse in [parse_num, parse_num_without_regex] {
        assert_eq!(parse("9223372036854775808").unwrap(), TakeNum(i64::MIN));
        assert_eq!(parse("-9223372036854775808").unwrap(), TakeNum(i64::MIN));
        assert_eq!(parse("+9223372036854775807").unwrap(), TakeNum(i64::MAX));
        assert_eq!(parse("+9223372036854775808").unwrap_err().to_string(), "+9223372036854775808");
        assert_eq!(parse("9223372036854775809").unwrap_err().to_string(), "9223372036854775809");
        assert_eq!(
            parse("-00000000000000000000000000000000000012").unwrap(),
            TakeNum(-12)
        );
        assert!(parse("99999999999999999999999999999999999999999999").is_err());
    }
}

#[test]
fn parse_rejects_and_echoes() {
    for parse in [parse_num, parse_num_without_regex] {
        for text in ["", "+", "-", "+-5", "--5", "5-", "5 ", " 5", "1e3", "٣", "+٣", "5\n", "0x10", "1_000"] {
            let res = parse(text);
            assert!(res.is_err());
            assert_eq!(res.unwrap_err().to_string(), text);
        }
    }
}

#[test]
fn groups_make_a_count() {
    assert_eq!(take_value_of_groups(None, "3"), Some(TakeNum(-3)));
    assert_eq!(take_value_of_groups(Some("-"), "3"), Some(TakeNum(-3)));
    assert_eq!(take_value_of_groups(Some("+"), "3"), Some(TakeNum(3)));
    assert_eq!(take_value_of_groups(Some("+"), "0"), Some(PlusZero));
    assert_eq!(take_value_of_groups(Some("-"), "0"), Some(TakeNum(0)));
    assert_eq!(take_value_of_groups(None, "0"), Some(TakeNum(0)));
    assert_eq!(take_value_of_groups(None, "٣"), None);
    assert_eq!(take_value_of_groups(Some("x"), "3"), None);
    assert_eq!(take_value_of_groups(Some(""), "3"), Some(TakeNum(3)));
    assert_eq!(take_value_of_groups(None, "9223372036854775808"), Some(TakeNum(i64::MIN)));
    assert_eq!(take_value_of_groups(Some("+"), "9223372036854775808"), None);
}

#[test]
fn counts_lines_and_bytes() {
    assert_eq!(count_lines_bytes(b"").unwrap(), (0, 0));
    assert_eq!(count_lines_bytes(b"\n").unwrap(), (1, 1));
    assert_eq!(count_lines_bytes(b"a").unwrap(), (1, 1));
    assert_eq!(count_lines_bytes(b"a\nb").unwrap(), (2, 3));
    assert_eq!(count_lines_bytes(b"\n\n\n").unwrap(), (3, 3));
    assert_eq!(count_lines_bytes(b"a\r\nb\r\n").unwrap(), (2, 6));
    assert_eq!(NEWLINE, b'\n');
}

#[test]
fn totals_do_not_depend_on_the_pieces() {
    let data = TEN.as_bytes();
    for cut in 0..=data.len() {
        let mut totals = StreamTotals::new();
        totals.feed(&data[..cut]);
        totals.feed(&data[cut..]);
        assert_eq!((totals.total_lines(), totals.total_bytes()), (10, 49));
    }
    let mut totals = StreamTotals::new();
    assert_eq!((totals.total_lines(), totals.total_bytes()), (0, 0));
    totals.feed(b"ab");
    assert_eq!((totals.total_lines(), totals.total_bytes()), (1, 2));
    totals.feed(b"c\n");
    assert_eq!((totals.total_lines(), totals.total_bytes()), (1, 4));
    totals.feed(b"");
    assert_eq!((totals.total_lines(), totals.total_bytes()), (1, 4));
}

#[test]
fn last_three_lines_of_ten() {
    let data = TEN.as_bytes();
    assert_eq!(tail(data, &TakeNum(-3), None).unwrap(), b"eight\nnine\nten\n");
    assert_eq!(select_lines(data, &TakeNum(-3), 10), b"eight\nnine\nten\n");
    assert_eq!(tail(b"1\n2\n3\n4\n5\n6\n7\r\n8\n9\n10", &TakeNum(-3), None).unwrap(), b"8\n9\n10");
    assert_eq!(tail(b"1\n2\n3\n4\n5\n6\n7\r\n8\n9\n10", &TakeNum(-4), None).unwrap(), b"7\r\n8\n9\n10");
}

#[test]
fn bytes_from_the_tenth_of_forty_nine() {
    let data = TEN.as_bytes();
    let out = tail(data, &TakeNum(-10), Some(&TakeNum(10))).unwrap();
    assert_eq!(out.len(), 40);
    assert_eq!(out, &data[9..]);
    assert_eq!(select_bytes(data, &TakeNum(10), 49), &data[9..]);
}

#[test]
fn tail_by_lines() {
    let data = TEN.as_bytes();
    assert_eq!(tail(data, &PlusZero, None).unwrap(), data);
    assert_eq!(tail(data, &TakeNum(0), None).unwrap(), b"");
    assert_eq!(tail(data, &TakeNum(1), None).unwrap(), data);
    assert_eq!(tail(data, &TakeNum(10), None).unwrap(), b"ten\n");
    assert_eq!(tail(data, &TakeNum(11), None).unwrap(), b"");
    assert_eq!(tail(data, &TakeNum(-1), None).unwrap(), b"ten\n");
    assert_eq!(tail(data, &TakeNum(-10), None).unwrap(), data);
    assert_eq!(tail(data, &TakeNum(-200), None).unwrap(), data);
    assert_eq!(tail(data, &TakeNum(i64::MIN), None).unwrap(), data);
    assert_eq!(tail(ONE.as_bytes(), &TakeNum(-10), None).unwrap(), ONE.as_bytes());
}

#[test]
fn tail_by_bytes() {
    let data = TEN.as_bytes();
    assert_eq!(tail(data, &PlusZero, Some(&PlusZero)).unwrap(), data);
    assert_eq!(tail(data, &PlusZero, Some(&TakeNum(0))).unwrap(), b"");
    assert_eq!(tail(data, &PlusZero, Some(&TakeNum(-4))).unwrap(), b"ten\n");
    assert_eq!(tail(data, &PlusZero, Some(&TakeNum(49))).unwrap(), b"\n");
    assert_eq!(tail(data, &PlusZero, Some(&TakeNum(50))).unwrap(), b"");
    assert_eq!(tail(data, &PlusZero, Some(&TakeNum(-49))).unwrap(), data);
    assert_eq!(tail(data, &PlusZero, Some(&TakeNum(-50))).unwrap(), data);
    assert_eq!(tail(data, &PlusZero, Some(&TakeNum(i64::MIN))).unwrap(), data);
    assert_eq!(tail(ONE.as_bytes(), &PlusZero, Some(&TakeNum(-3))).unwrap(), "ś.\n".as_bytes()[1..].to_vec());
}

#[test]
fn nothing_is_printed_of_an_empty_stream() {
    for take in [PlusZero, TakeNum(0), TakeNum(1), TakeNum(-1), TakeNum(-10), TakeNum(i64::MIN)] {
        assert_eq!(tail(b"", &take, None).unwrap(), b"");
        assert_eq!(tail(b"", &PlusZero, Some(&take)).unwrap(), b"");
    }
}

#[test]
fn selection_with_foreign_totals() {
    assert_eq!(select_bytes(b"abc", &TakeNum(6), 10), b"");
    assert_eq!(select_bytes(b"abc", &TakeNum(-8), 10), b"c");
    assert_eq!(select_lines(b"a\nb\n", &TakeNum(-1), 5), b"");
    assert_eq!(select_lines(b"a\nb\nc", &TakeNum(-3), 5), b"c");
}

#[test]
fn skipping_lines() {
    assert_eq!(skip_lines(b"a\nb\nc", 0), (0, 0));
    assert_eq!(skip_lines(b"a\nb\nc", 1), (2, 0));
    assert_eq!(skip_lines(b"a\nb\nc", 2), (4, 0));
    assert_eq!(skip_lines(b"a\nb\nc", 3), (5, 1));
    assert_eq!(skip_lines(b"", 3), (0, 3));
    assert_eq!(skip_lines(b"\n\n", u64::MAX), (2, u64::MAX - 2));
}

#[test]
fn the_window_does_not_depend_on_the_pieces() {
    let data = TEN.as_bytes();
    for start in 0..12u64 {
        let whole = select_lines(data, &TakeNum(start as i64 + 1), 12);
        for cut in 0..=data.len() {
            let mut window = LineWindow::new(start);
            let mut out = Vec::new();
            for piece in [&data[..cut], &data[cut..]] {
                let offset = window.feed(piece);
                out.extend_from_slice(&piece[offset..]);
            }
            assert_eq!(out, whole);
        }
    }
}

#[test]
fn headers_of_several_files() {
    assert_eq!(header("a.txt", 0, 2, false), Some("==> a.txt <==\n".to_string()));
    assert_eq!(header("b.txt", 1, 2, false), Some("\n==> b.txt <==\n".to_string()));
    assert_eq!(header("c", 2, 3, false), Some("\n==> c <==\n".to_string()));
    assert_eq!(header("a.txt", 0, 1, false), None);
    assert_eq!(header("a.txt", 0, 2, true), None);
    assert_eq!(header("b.txt", 1, 2, true), None);
    assert_eq!(header("", 0, 2, false), Some("==>  <==\n".to_string()));
}
