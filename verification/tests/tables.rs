use katwebx::number::{number_text, signed_text};
use katwebx::pattern::{array_get_literal, array_get_regex, trim_regex};
use katwebx::rules::{Rule, RuleTable};
use katwebx::sorted::{insert_sorted, lex_order, sorted_contains, sorted_texts, Position};

fn chars(s: &str) -> Vec<char> {
    s.chars().collect()
}

fn rule(location: &str, dest: &str) -> Rule {
    Rule { location: location.to_owned(), dest: dest.to_owned() }
}

#[test]
fn regex_patterns_are_kept_without_their_sentinel() {
    let given = vec![
        "localhost/redir".to_owned(),
        "r#localhost/redir2.*".to_owned(),
        "r#".to_owned(),
        "xr#y".to_owned(),
        "r".to_owned(),
        "r#^a$".to_owned(),
    ];
    assert_eq!(
        array_get_regex(given),
        vec!["localhost/redir2.*".to_owned(), "".to_owned(), "^a$".to_owned()]
    );
    assert_eq!(array_get_regex(vec![]), Vec::<String>::new());
}

#[test]
fn literal_patterns_are_those_without_the_sentinel() {
    let given = vec![
        "localhost/redir".to_owned(),
        "r#localhost/redir2.*".to_owned(),
        "xr#y".to_owned(),
        "r".to_owned(),
        "r#".to_owned(),
        "localhost/redir".to_owned(),
    ];
    assert_eq!(
        array_get_literal(&given),
        vec!["localhost/redir".to_owned(), "xr#y".to_owned(), "r".to_owned(), "localhost/redir".to_owned()]
    );
}

#[test]
fn trimming_removes_every_match() {
    assert_eq!(trim_regex("localhost/proxy[0-9]", "localhost/proxy0/links.html"), "/links.html");
    assert_eq!(trim_regex("localhost/redir2.*", "localhost/redir2a"), "");
    assert_eq!(trim_regex("a", "banana"), "bnn");
    assert_eq!(trim_regex("x", "banana"), "banana");
    assert_eq!(trim_regex("(", "banana"), "banana");
}

#[test]
fn texts_are_ordered_by_character() {
    assert_eq!(lex_order(&chars("a"), &chars("b")), Position::Before);
    assert_eq!(lex_order(&chars("b"), &chars("a")), Position::After);
    assert_eq!(lex_order(&chars("a"), &chars("a")), Position::Same);
    assert_eq!(lex_order(&chars(""), &chars("a")), Position::Before);
    assert_eq!(lex_order(&chars("ab"), &chars("a")), Position::After);
    assert_eq!(lex_order(&chars("Z"), &chars("a")), Position::Before);
    assert_eq!(lex_order(&chars("z"), &chars("\u{e9}")), Position::Before);
}

#[test]
fn sorted_lists_are_sorted_as_strings_are() {
    let mut given: Vec<String> =
        ["src", "target", "ssl", "redir", "", "a", "B", "\u{e9}", "src", "aa"].iter().map(|s| s.to_string()).collect();
    let list = sorted_texts(&given);
    given.sort_unstable();
    let expected: Vec<Vec<char>> = given.iter().map(|s| chars(s)).collect();
    assert_eq!(list, expected);
    for s in &given {
        assert!(sorted_contains(&list, &chars(s)));
    }
    for s in ["sr", "srcs", "t", "zzz", "A"] {
        assert!(!sorted_contains(&list, &chars(s)));
    }
    assert!(!sorted_contains(&Vec::new(), &chars("a")));
}

#[test]
fn insertion_keeps_a_list_sorted() {
    let mut list: Vec<Vec<char>> = Vec::new();
    for s in ["m", "a", "z", "m", "b"] {
        insert_sorted(&mut list, chars(s));
    }
    assert_eq!(list, vec![chars("a"), chars("b"), chars("m"), chars("m"), chars("z")]);
}

#[test]
fn tables_look_up_literals_and_regexes() {
    let table = RuleTable::build(vec![
        rule("localhost/redir", "https://one.example"),
        rule("r#localhost/a.*", "https://two.example"),
        rule("r#localhost/b.*", "https://three.example"),
        rule("localhost/redir", "https://four.example"),
    ])
    .ok()
    .unwrap();
    assert_eq!(table.lookup("localhost/redir"), Some(&"https://four.example".to_owned()));
    assert_eq!(table.lookup("r#localhost/a.*"), Some(&"https://two.example".to_owned()));
    assert_eq!(table.lookup("localhost/a.*"), None);
    assert!(table.has_literal(&chars("localhost/redir")));
    assert!(!table.has_literal(&chars("r#localhost/b.*")));
    assert!(!table.has_literal(&chars("localhost/b.*")));
    assert!(!table.has_literal(&chars("localhost")));
    assert_eq!(table.first_regex("localhost/bcd"), Some(1));
    assert_eq!(table.first_regex("localhost/abc/localhost/b"), Some(0));
    assert_eq!(table.first_regex("elsewhere"), None);
    assert_eq!(table.regex_at(1), "localhost/b.*");
    assert_eq!(table.regex_dest(1), "https://three.example");
    assert_eq!(
        table.first_regex_trimmed("x-localhost/bcd"),
        Some((1, "x-".to_owned()))
    );
}

#[test]
fn tables_reject_invalid_regexes() {
    assert!(RuleTable::build(vec![rule("r#(", "x")]).is_err());
    assert!(RuleTable::build(vec![rule("(", "x")]).is_ok());
    assert!(RuleTable::build(vec![]).is_ok());
}

#[test]
fn numbers_are_written_in_base_ten() {
    assert_eq!(number_text(0), "0");
    assert_eq!(number_text(9), "9");
    assert_eq!(number_text(10), "10");
    assert_eq!(number_text(43200), "43200");
    assert_eq!(number_text(u128::MAX), "340282366920938463463374607431768211455");
    assert_eq!(signed_text(0), "0");
    assert_eq!(signed_text(-1), "-1");
    assert_eq!(signed_text(-3600), "-3600");
    assert_eq!(signed_text(i128::MAX), "170141183460469231731687303715884105727");
    assert_eq!(signed_text(i128::MIN), "-170141183460469231731687303715884105728");
}
