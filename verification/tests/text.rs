use cmdutils::cat::{numbering, render, Numbering};
use cmdutils::comm::{check_inputs, comm, fold_case, Columns};
use cmdutils::echo::echo;
use cmdutils::split::{lines_of, lines_with_ends, strip_line_end};
use cmdutils::text::{
    center, int_string, join, pad_end, pad_start, rank_texts, starts_with, trimmed_end, Rank,
};
use cmdutils::uniq::uniq;

fn strings(texts: &[&str]) -> Vec<String> {
    texts.iter().map(|t| t.to_string()).collect()
}

#[test]
fn lines_as_the_standard_library_cuts_them() {
    for text in ["", "\n", "a", "a\n", "a\nb", "a\r\nb\r\n", "\r\n", "\n\n", "a\r", "\r", "a\r\r\n", "é\nü"] {
        let bare: Vec<&str> = text.lines().collect();
        assert_eq!(lines_of(text), bare);
        let whole: Vec<&str> = text.split_inclusive('\n').collect();
        assert_eq!(lines_with_ends(text), whole);
        assert_eq!(lines_with_ends(text).concat(), text);
    }
    assert_eq!(strip_line_end("a\r\n".to_string()), "a");
    assert_eq!(strip_line_end("a\r".to_string()), "a\r");
    assert_eq!(strip_line_end("\n".to_string()), "");
    assert_eq!(strip_line_end("".to_string()), "");
}

#[test]
fn text_helpers() {
    assert_eq!(join(&strings(&["a", "b", "c"]), ", "), "a, b, c");
    assert_eq!(join(&strings(&["a"]), ", "), "a");
    assert_eq!(join(&strings(&[]), ", "), "");
    assert_eq!(join(&strings(&["", ""]), "-"), "-");
    assert_eq!(center("abc", 8), format!("{:^8}", "abc"));
    assert_eq!(center("abcd", 8), format!("{:^8}", "abcd"));
    assert_eq!(center("abcdefghij", 8), "abcdefghij");
    assert_eq!(pad_start("7", 2), " 7");
    assert_eq!(pad_start("777", 2), "777");
    assert_eq!(pad_end("7", 3), "7  ");
    assert_eq!(int_string(0), "0");
    assert_eq!(int_string(-45), "-45");
    assert_eq!(int_string(i64::MIN), i64::MIN.to_string());
    assert_eq!(int_string(i64::MAX), i64::MAX.to_string());
    for text in ["", " ", "a ", " a", "a\t\n ", "a\u{3000}", "a\u{200b}", "  \n"] {
        assert_eq!(trimmed_end(text), text.trim_end());
    }
    assert!(starts_with("january", "jan"));
    assert!(starts_with("january", ""));
    assert!(starts_with("january", "january"));
    assert!(!starts_with("january", "januaryx"));
    assert!(!starts_with("january", "jun"));
}

#[test]
fn ranks_as_the_standard_library_orders_strings() {
    let texts = ["", "a", "A", "ab", "b", "é", "e", "z", "\u{10000}", "\u{ffff}", "aa", "a\n"];
    for a in texts {
        for b in texts {
            let expected = if a < b {
                Rank::Before
            } else if a > b {
                Rank::After
            } else {
                Rank::Same
            };
            assert_eq!(rank_texts(a, b), expected);
        }
    }
}

#[test]
fn echo_of_its_arguments() {
    assert_eq!(echo(&strings(&["Hello there"]), false), "Hello there\n");
    assert_eq!(echo(&strings(&["Hello", "there"]), false), "Hello there\n");
    assert_eq!(echo(&strings(&["Hello  there"]), true), "Hello  there");
    assert_eq!(echo(&strings(&["Hello", "there"]), true), "Hello there");
    assert_eq!(echo(&strings(&[]), false), "\n");
}

#[test]
fn cat_with_and_without_numbers() {
    let text = "a\n\nb\r\nc";
    assert_eq!(render(text, Numbering::Off), ["a", "", "b", "c"]);
    assert_eq!(render(text, Numbering::All), ["1 a", "2 ", "3 b", "4 c"]);
    assert_eq!(render(text, Numbering::NonBlank), ["1\ta", "", "2\tb", "3\tc"]);
    assert_eq!(render("", Numbering::All), Vec::<String>::new());
    assert_eq!(numbering(false, false), Numbering::Off);
    assert_eq!(numbering(true, false), Numbering::All);
    assert_eq!(numbering(false, true), Numbering::NonBlank);
    assert_eq!(numbering(true, true), Numbering::All);
}

#[test]
fn uniq_of_runs() {
    assert_eq!(uniq("", false), Vec::<String>::new());
    assert_eq!(uniq("a\n", false), ["a\n"]);
    assert_eq!(uniq("a\na\n", false), ["a\n"]);
    assert_eq!(uniq("a\na\nb\na\n", false), ["a\n", "b\n", "a\n"]);
    assert_eq!(uniq("a\na\nb\na\n", true), ["   2 a\n", "   1 b\n", "   1 a\n"]);
    assert_eq!(uniq("a\na", true), ["   2 a\n"]);
    assert_eq!(uniq("a\na \t\nb", true), ["   2 a\n", "   1 b"]);
    assert_eq!(uniq("\n\na\n", true), ["   2 ", "   1 a\n"]);
    let many = "x\n".repeat(12345);
    assert_eq!(uniq(&many, true), ["12345 x\n"]);
}

#[test]
fn comm_of_two_texts() {
    let one = strings(&["a", "b", "c", "e"]);
    let two = strings(&["b", "d", "e", "f"]);
    let all = Columns { show_col1: true, show_col2: true, show_col3: true, delimiter: "\t".to_string() };
    assert_eq!(comm(&one, &two, &all), ["a", "\t\tb", "c", "\td", "\t\te", "\tf"]);
    let only3 = Columns { show_col1: false, show_col2: false, show_col3: true, delimiter: "\t".to_string() };
    assert_eq!(comm(&one, &two, &only3), ["b", "e"]);
    let no1 = Columns { show_col1: false, show_col2: true, show_col3: true, delimiter: ":".to_string() };
    assert_eq!(comm(&one, &two, &no1), [":b", "d", ":e", "f"]);
    let no2 = Columns { show_col1: true, show_col2: false, show_col3: true, delimiter: ":".to_string() };
    assert_eq!(comm(&one, &two, &no2), ["a", ":b", "c", ":e"]);
    let none = Columns { show_col1: false, show_col2: false, show_col3: false, delimiter: ":".to_string() };
    assert_eq!(comm(&one, &two, &none), Vec::<String>::new());
    assert_eq!(comm(&one, &Vec::new(), &all), ["a", "b", "c", "e"]);
    assert_eq!(comm(&Vec::new(), &two, &all), ["\tb", "\td", "\te", "\tf"]);
    assert_eq!(comm(&Vec::new(), &Vec::new(), &all), Vec::<String>::new());
}

#[test]
fn comm_inputs() {
    assert_eq!(
        check_inputs("-", "-").unwrap_err().to_string(),
        "Both input files cannot be STDIN (\"-\")"
    );
    assert!(check_inputs("-", "a").is_ok());
    assert!(check_inputs("a", "-").is_ok());
    assert!(check_inputs("a", "a").is_ok());
    assert_eq!(fold_case(strings(&["Ab", "ÉCOLE"]), true), ["ab", "école"]);
    assert_eq!(fold_case(strings(&["Ab", "ÉCOLE"]), false), ["Ab", "ÉCOLE"]);
}
