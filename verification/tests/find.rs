use cmdutils::find::{
    name_filter, parse_entry_type, parse_name, select, type_filter, Entry, EntryKind, EntryType,
};

fn entry(kind: EntryKind, name: &str, path: &str) -> Entry {
    Entry { kind, name: name.to_string(), path: path.to_string() }
}

#[test]
fn filters_of_find() {
    assert!(type_filter(EntryKind::Other, &vec![]));
    assert!(type_filter(EntryKind::Dir, &vec![EntryType::File, EntryType::Dir]));
    assert!(!type_filter(EntryKind::Link, &vec![EntryType::File, EntryType::Dir]));
    assert!(!type_filter(EntryKind::Other, &vec![EntryType::File, EntryType::Dir, EntryType::Link]));
    assert!(type_filter(EntryKind::Link, &vec![EntryType::Link]));
    let names = vec![parse_name(".*[.]csv").unwrap(), parse_name("^g").unwrap()];
    assert!(name_filter("anything", &vec![]));
    assert!(name_filter("a.csv", &names));
    assert!(name_filter("g.txt", &names));
    assert!(!name_filter("a.txt", &names));
}

#[test]
fn entries_that_are_found() {
    let entries = vec![
        entry(EntryKind::Dir, "a", "./a"),
        entry(EntryKind::File, "a.csv", "./a/a.csv"),
        entry(EntryKind::Link, "b.csv", "./a/b.csv"),
        entry(EntryKind::File, "c.txt", "./a/c.txt"),
    ];
    let csv = vec![parse_name("[.]csv$").unwrap()];
    assert_eq!(select(&entries, &vec![], &vec![]), ["./a", "./a/a.csv", "./a/b.csv", "./a/c.txt"]);
    assert_eq!(select(&entries, &csv, &vec![]), ["./a/a.csv", "./a/b.csv"]);
    assert_eq!(select(&entries, &csv, &vec![EntryType::Link]), ["./a/b.csv"]);
    assert_eq!(select(&entries, &vec![], &vec![EntryType::Dir, EntryType::File]), ["./a", "./a/a.csv", "./a/c.txt"]);
    assert_eq!(select(&entries, &csv, &vec![EntryType::Dir]), Vec::<String>::new());
}

#[test]
fn types_and_names_of_the_command_line() {
    assert_eq!(parse_entry_type("d"), Some(EntryType::Dir));
    assert_eq!(parse_entry_type("f"), Some(EntryType::File));
    assert_eq!(parse_entry_type("l"), Some(EntryType::Link));
    assert_eq!(parse_entry_type("x"), None);
    assert_eq!(parse_entry_type(""), None);
    assert_eq!(parse_name("*.csv").unwrap_err().to_string(), "Invalid --name \"*.csv\"");
}
