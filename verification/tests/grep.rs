use cmdutils::grep::{classify, find_lines, is_stdin, label, parse_pattern, report, unreadable, PathKind, Step};
use cmdutils::pattern::Pattern;

#[test]
fn test_find_lines() {
    let text = b"Lorem\nIpsum\r\nDOLOR";
    let re1 = Pattern::new("or", false).unwrap();
    let matches = find_lines(text, &re1, false);
    assert!(matches.is_ok());
    assert_eq!(matches.unwrap().len(), 1);

    let matches = find_lines(text, &re1, true);
    assert!(matches.is_ok());
    assert_eq!(matches.unwrap().len(), 2);

    let re2 = Pattern::new("or", true).unwrap();
    let matches = find_lines(text, &re2, false);
    assert!(matches.is_ok());
    assert_eq!(matches.unwrap().len(), 2);

    let matches = find_lines(text, &re2, true);
    assert!(matches.is_ok());
    assert_eq!(matches.unwrap().len(), 1);
}

#[test]
fn found_lines_keep_their_ends() {
    let text = b"Lorem\nIpsum\r\nDOLOR";
    let re = Pattern::new("or", true).unwrap();
    assert_eq!(find_lines(text, &re, false).unwrap(), ["Lorem\n", "DOLOR"]);
    assert_eq!(find_lines(text, &re, true).unwrap(), ["Ipsum\r\n"]);
    let end = Pattern::new("m$", false).unwrap();
    assert_eq!(find_lines(text, &end, false).unwrap(), Vec::<String>::new());
    let newline = Pattern::new("m\n", false).unwrap();
    assert_eq!(find_lines(text, &newline, false).unwrap(), ["Lorem\n"]);
    assert_eq!(find_lines(b"", &re, true).unwrap(), Vec::<String>::new());
    assert_eq!(
        find_lines(b"or\n\xff", &re, false).unwrap_err().to_string(),
        "stream did not contain valid UTF-8"
    );
}

#[test]
fn patterns_that_are_none() {
    assert!(Pattern::new("(", false).is_none());
    assert!(Pattern::new("*", true).is_none());
    assert_eq!(parse_pattern("*foo", false).unwrap_err().to_string(), "Invalid pattern \"*foo\"");
    assert!(parse_pattern("fo+", false).unwrap().is_match("a foo"));
    assert!(!parse_pattern("fo+", false).unwrap().is_match("a FOO"));
    assert!(parse_pattern("fo+", true).unwrap().is_match("a FOO"));
}

#[test]
fn output_with_and_without_names() {
    assert_eq!(label("a.txt", "line\n", 1), "line\n");
    assert_eq!(label("a.txt", "line\n", 2), "a.txt:line\n");
    let found = vec!["one\n".to_string(), "two".to_string()];
    assert_eq!(report("a.txt", &found, false, 1), ["one\n", "two"]);
    assert_eq!(report("a.txt", &found, false, 3), ["a.txt:one\n", "a.txt:two"]);
    assert_eq!(report("a.txt", &found, true, 1), ["2\n"]);
    assert_eq!(report("a.txt", &found, true, 2), ["a.txt:2\n"]);
    assert_eq!(report("a.txt", &Vec::new(), true, 2), ["a.txt:0\n"]);
    assert_eq!(report("a.txt", &Vec::new(), false, 2), Vec::<String>::new());
}

#[test]
fn what_is_done_with_a_path() {
    assert!(is_stdin("-"));
    assert!(!is_stdin("--"));
    assert!(!is_stdin(""));
    assert!(matches!(classify("a", PathKind::File, false), Step::Take));
    assert!(matches!(classify("a", PathKind::File, true), Step::Take));
    assert!(matches!(classify("a", PathKind::Other, true), Step::Skip));
    assert!(matches!(classify("a", PathKind::Dir, true), Step::Walk));
    match classify("./tests/inputs", PathKind::Dir, false) {
        Step::Fail(failure) => assert_eq!(failure.to_string(), "./tests/inputs is a directory"),
        _ => panic!("a directory is not searched"),
    }
    assert_eq!(unreadable("blargh", "No such file").to_string(), "blargh:No such file");
}
