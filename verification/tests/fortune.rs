use cmdutils::fortune::{
    parse_seed, pick_fortune, read_fortunes, search_fortunes, Fortune, FortuneFile, Found,
};
use cmdutils::pattern::Pattern;

fn lines(texts: &[&str]) -> Vec<String> {
    texts.iter().map(|t| t.to_string()).collect()
}

fn fortune(source: &str, text: &str) -> Fortune {
    Fortune { source: source.to_string(), text: text.to_string() }
}

#[test]
fn test_pick_fortune() {
    let fortunes = &[
        Fortune {
            source: "fortunes".to_string(),
            text: "You cannot achieve the impossible without \
                    attempting the absurd."
                .to_string(),
        },
        Fortune {
            source: "fortunes".to_string(),
            text: "Assumption is the mother of all screw-ups.".to_string(),
        },
        Fortune {
            source: "fortunes".to_string(),
            text: "Neckties strangle clear thinking.".to_string(),
        },
    ];

    assert_eq!(
        pick_fortune(fortunes, Some(1)).unwrap(),
        "Neckties strangle clear thinking.".to_string()
    );
}

#[test]
fn picking_of_none_and_of_any() {
    assert_eq!(pick_fortune(&[], Some(1)), None);
    assert_eq!(pick_fortune(&[], None), None);
    let fortunes = [fortune("a", "one"), fortune("a", "two"), fortune("b", "three")];
    for seed in 0..50 {
        let first = pick_fortune(&fortunes, Some(seed)).unwrap();
        assert_eq!(pick_fortune(&fortunes, Some(seed)).unwrap(), first);
        assert!(fortunes.iter().any(|f| f.text == first));
    }
    for _ in 0..50 {
        let any = pick_fortune(&fortunes, None).unwrap();
        assert!(fortunes.iter().any(|f| f.text == any));
    }
    assert_eq!(pick_fortune(&fortunes[..1], None).unwrap(), "one");
}

#[test]
fn reading_fortunes() {
    let files = vec![
        FortuneFile {
            name: "jokes".to_string(),
            lines: lines(&["%", "Q. What?", "A. That.", "%", "%", "One line.", "%", "left over"]),
        },
        FortuneFile {
            name: "quotes".to_string(),
            lines: lines(&["carried", "%", "last, without its end"]),
        },
    ];
    let fortunes = read_fortunes(&files);
    let pairs: Vec<(&str, &str)> =
        fortunes.iter().map(|f| (f.source.as_str(), f.text.as_str())).collect();
    assert_eq!(
        pairs,
        [
            ("jokes", "Q. What?\nA. That."),
            ("jokes", "One line."),
            ("quotes", "left over\ncarried"),
        ]
    );
    assert_eq!(read_fortunes(&Vec::new()).len(), 0);
}

#[test]
fn seeds() {
    assert_eq!(parse_seed("1").unwrap(), 1);
    assert_eq!(parse_seed("18446744073709551615").unwrap(), u64::MAX);
    assert_eq!(parse_seed("-1").unwrap_err().to_string(), "\"-1\" not a valid integer");
    assert_eq!(parse_seed("foo").unwrap_err().to_string(), "\"foo\" not a valid integer");
}

#[test]
fn searching_fortunes() {
    let fortunes = [
        fortune("a", "Yogi Berra said"),
        fortune("a", "nothing here"),
        fortune("a", "Yogi again"),
        fortune("b", "yogi in lower case"),
        fortune("b", "Yogi in b"),
        fortune("a", "Yogi back in a"),
    ];
    let pattern = Pattern::new("Yogi", false).unwrap();
    assert_eq!(
        search_fortunes(&fortunes, &pattern),
        [
            Found::Source("a".to_string()),
            Found::Text("Yogi Berra said".to_string()),
            Found::Text("Yogi again".to_string()),
            Found::Source("b".to_string()),
            Found::Text("Yogi in b".to_string()),
            Found::Source("a".to_string()),
            Found::Text("Yogi back in a".to_string()),
        ]
    );
    let none = Pattern::new("Mark Twain", true).unwrap();
    assert_eq!(search_fortunes(&fortunes, &none), Vec::<Found>::new());
}
