use cmdutils::text::{char_is_whitespace, decimal_string};
use cmdutils::wc::{
    count, count_text, format_field, report_line, shown, sum, total_line, FileInfo, Shown,
};

#[test]
fn test_count() {
    let text = "I don't want the world. I just want your half.\r\n";
    let info = count(text.as_bytes());
    let expected = FileInfo {
        num_lines: 1,
        num_words: 10,
        num_bytes: 48,
        num_chars: 48,
    };
    assert!(info.is_ok());
    assert_eq!(info.unwrap(), expected);
}

#[test]
fn count_of_nothing() {
    let expected = FileInfo { num_lines: 0, num_words: 0, num_bytes: 0, num_chars: 0 };
    assert_eq!(count(b"").unwrap(), expected);
}

#[test]
fn count_of_text_beyond_ascii() {
    let expected = FileInfo { num_lines: 1, num_words: 4, num_bytes: 24, num_chars: 22 };
    assert_eq!(count("Öne line, four wordś.\n".as_bytes()).unwrap(), expected);
    assert_eq!(count_text("Öne line, four wordś.\n"), expected);
}

#[test]
fn count_of_an_unfinished_line() {
    let expected = FileInfo { num_lines: 3, num_words: 3, num_bytes: 10, num_chars: 10 };
    assert_eq!(count(b"a\n\n  bb\tcc").unwrap(), expected);
}

#[test]
fn count_agrees_with_the_standard_library() {
    for text in ["", " ", "a", " a", "a ", "a b", "a\u{3000}b\u{85}c\u{a0}d", "x\u{200b}y", "\n\n", "a\r\nb\r\n"] {
        let info = count_text(text);
        assert_eq!(info.num_words, text.split_whitespace().count());
        assert_eq!(info.num_chars, text.chars().count());
        assert_eq!(info.num_bytes, text.len());
    }
}

#[test]
fn count_rejects_what_is_not_utf8() {
    let res = count(&[0x61, 0xff, 0x0a]);
    assert!(res.is_err());
    assert_eq!(res.unwrap_err().to_string(), "stream did not contain valid UTF-8");
}

#[test]
fn white_space_is_what_the_standard_library_says() {
    for code in 0..0x11_0000u32 {
        if let Some(c) = char::from_u32(code) {
            assert_eq!(char_is_whitespace(c), c.is_whitespace());
        }
    }
}

#[test]
fn fields_of_the_report() {
    assert_eq!(format_field(1, false), "");
    assert_eq!(format_field(3, true), "       3");
    assert_eq!(format_field(10, true), "      10");
    assert_eq!(format_field(0, true), "       0");
    assert_eq!(format_field(12345678, true), "12345678");
    assert_eq!(format_field(123456789, true), "123456789");
}

#[test]
fn numbers_in_base_ten() {
    for n in [0u64, 1, 9, 10, 11, 99, 100, 101, 1234567890, u64::MAX] {
        assert_eq!(decimal_string(n), n.to_string());
    }
}

#[test]
fn lines_of_the_report() {
    let info = FileInfo { num_lines: 1, num_words: 9, num_bytes: 48, num_chars: 48 };
    let all = shown(false, false, false, false);
    assert_eq!(all, Shown { lines: true, words: true, bytes: true, chars: false });
    assert_eq!(shown(false, true, false, false), Shown { lines: false, words: true, bytes: false, chars: false });
    assert_eq!(shown(false, false, false, true), Shown { lines: false, words: false, bytes: false, chars: true });
    assert_eq!(report_line(&info, &all, "fox.txt"), "       1       9      48 fox.txt");
    assert_eq!(report_line(&info, &all, "-"), "       1       9      48");
    assert_eq!(report_line(&info, &shown(false, false, false, true), "a"), "      48 a");
    assert_eq!(total_line(&info, &all), "       1       9      48 total");
    let twice = sum(&info, &info).unwrap();
    assert_eq!(twice, FileInfo { num_lines: 2, num_words: 18, num_bytes: 96, num_chars: 96 });
    let huge = FileInfo { num_lines: 0, num_words: 0, num_bytes: usize::MAX, num_chars: 0 };
    assert_eq!(sum(&huge, &info), None);
}
