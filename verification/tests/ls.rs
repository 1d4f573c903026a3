use cmdutils::ls::{format_cells, format_mode, format_output, is_listed, mk_triple, Listing, Owner};

#[test]
fn test_format_mode() {
    assert_eq!(format_mode(0o755), "rwxr-xr-x");
    assert_eq!(format_mode(0o421), "r---w---x");
}

#[test]
fn test_mk_triple() {
    assert_eq!(mk_triple(0o751, Owner::User), "rwx");
    assert_eq!(mk_triple(0o751, Owner::Group), "r-x");
    assert_eq!(mk_triple(0o751, Owner::Other), "--x");
    assert_eq!(mk_triple(0o600, Owner::Other), "---");
}

#[test]
fn modes_beyond_the_permission_bits() {
    assert_eq!(format_mode(0), "---------");
    assert_eq!(format_mode(0o777), "rwxrwxrwx");
    assert_eq!(format_mode(0o100644), "rw-r--r--");
    assert_eq!(format_mode(u32::MAX), "rwxrwxrwx");
    assert_eq!(Owner::User.masks(), [0o400, 0o200, 0o100]);
    assert_eq!(Owner::Group.masks(), [0o040, 0o020, 0o010]);
    assert_eq!(Owner::Other.masks(), [0o004, 0o002, 0o001]);
}

#[test]
fn hidden_entries() {
    assert!(is_listed("a", false));
    assert!(is_listed("a.b", false));
    assert!(!is_listed(".a", false));
    assert!(is_listed(".a", true));
    assert!(is_listed("", false));
}

#[test]
fn the_long_listing() {
    let listings = vec![
        Listing {
            is_dir: true,
            mode: 0o755,
            nlink: 4,
            user: "kyclark".to_string(),
            group: "staff".to_string(),
            size: 128,
            modified: "Mar 1 21 13:57".to_string(),
            path: "tests/inputs/dir".to_string(),
        },
        Listing {
            is_dir: false,
            mode: 0o600,
            nlink: 1,
            user: "kyclark".to_string(),
            group: "wheel".to_string(),
            size: 193,
            modified: "May 31 21 16:11".to_string(),
            path: "tests/inputs/fox.txt".to_string(),
        },
    ];
    assert_eq!(
        format_cells(&listings[0]),
        ["d", "rwxr-xr-x", "4", "kyclark", "staff", "128", "Mar 1 21 13:57", "tests/inputs/dir"]
    );
    assert_eq!(
        format_output(&listings),
        "drwxr-xr-x 4 kyclark staff 128 Mar 1 21 13:57  tests/inputs/dir\n\
         -rw------- 1 kyclark wheel 193 May 31 21 16:11 tests/inputs/fox.txt\n"
    );
    assert_eq!(format_output(&Vec::new()), "");
}
