use label_keys::defect::{check_lengths, classify_key, Defect};
use label_keys::report::{render, Violation};
use label_keys::segments::{find_last_slash, split_key};
use label_keys::pattern::LABELS_NAME_REGEX;
use label_keys::validator::KeyValidator;

#[test]
fn last_slash_of_a_key_with_two() {
    assert_eq!(find_last_slash("a/b/c"), Some(3));
    let key = "a/b/c";
    let idx = find_last_slash(key).unwrap();
    assert_eq!(&key[..idx], "a/b");
    assert_eq!(&key[idx + 1..], "c");
}

#[test]
fn last_slash_edge_cases() {
    assert_eq!(find_last_slash(""), None);
    assert_eq!(find_last_slash("my-label"), None);
    assert_eq!(find_last_slash("/"), Some(0));
    assert_eq!(find_last_slash("/my-label"), Some(0));
    assert_eq!(find_last_slash("example.com/"), Some(11));
    assert_eq!(find_last_slash("example.com/my-label"), Some(11));
    assert_eq!(find_last_slash("a//"), Some(2));
}

#[test]
fn last_slash_counts_bytes() {
    assert_eq!(find_last_slash("\u{e9}/x"), Some(2));
    assert_eq!(find_last_slash("\u{e9}/x"), "\u{e9}/x".rfind('/'));
    assert_eq!(find_last_slash("\u{4e2d}\u{6587}/\u{1f600}/z"), Some(11));
}

#[test]
fn lengths_without_a_prefix() {
    assert_eq!(check_lengths(""), None);
    assert_eq!(check_lengths(&"a".repeat(63)), None);
    assert_eq!(check_lengths(&"a".repeat(64)), Some(Defect::NameTooLong));
    assert_eq!(check_lengths(&"a".repeat(300)), Some(Defect::NameTooLong));
}

#[test]
fn lengths_with_a_prefix() {
    assert_eq!(check_lengths("a/b"), None);
    assert_eq!(check_lengths(&format!("{}/b", "a".repeat(251))), None);
    assert_eq!(
        check_lengths(&format!("{}/b", "a".repeat(252))),
        Some(Defect::KeyTooLong)
    );
    assert_eq!(
        check_lengths(&format!("{}/b", "a".repeat(253))),
        Some(Defect::KeyTooLong)
    );
    assert_eq!(
        check_lengths(&format!("{}/b", "a".repeat(254))),
        Some(Defect::PrefixTooLong)
    );
    assert_eq!(
        check_lengths(&format!("a/{}", "b".repeat(64))),
        Some(Defect::NameTooLong)
    );
    assert_eq!(check_lengths(&format!("a/{}", "b".repeat(63))), None);
}

#[test]
fn first_length_defect_is_the_one_reported() {
    let both = format!("{}/{}", "a".repeat(254), "b".repeat(64));
    assert_eq!(check_lengths(&both), Some(Defect::PrefixTooLong));
    let name_and_key = format!("{}/{}", "a".repeat(253), "b".repeat(64));
    assert_eq!(check_lengths(&name_and_key), Some(Defect::NameTooLong));
}

#[test]
fn lengths_count_bytes() {
    let key = "\u{e9}".repeat(32);
    assert_eq!(key.len(), 64);
    assert_eq!(check_lengths(&key), Some(Defect::NameTooLong));
    let shorter = "\u{e9}".repeat(31);
    assert_eq!(check_lengths(&shorter), None);
}

#[test]
fn classify_puts_lengths_before_the_grammar() {
    let long = "a".repeat(64);
    assert_eq!(classify_key(&long, true), Some(Defect::NameTooLong));
    assert_eq!(classify_key(&long, false), Some(Defect::NameTooLong));
    assert_eq!(classify_key("my-label", true), None);
    assert_eq!(classify_key("my-label", false), Some(Defect::Pattern));
    assert_eq!(classify_key("", false), Some(Defect::Pattern));
}

#[test]
fn suffix_of_each_defect() {
    assert_eq!(Defect::PrefixTooLong.suffix(), " (prefix too long)");
    assert_eq!(Defect::NameTooLong.suffix(), " (name too long)");
    assert_eq!(Defect::KeyTooLong.suffix(), " (key too long)");
    assert_eq!(Defect::Pattern.suffix(), "");
}

#[test]
fn describe_appends_the_suffix() {
    let v = Violation { key: "k".to_string(), defect: Defect::KeyTooLong };
    assert_eq!(v.describe(), "k (key too long)");
    let p = Violation { key: "foo@bar".to_string(), defect: Defect::Pattern };
    assert_eq!(p.describe(), "foo@bar");
}

#[test]
fn render_without_violations_is_ok() {
    assert_eq!(render(&Vec::new()), Ok(()));
}

#[test]
fn render_one_violation() {
    let vs = vec![Violation { key: "x y".to_string(), defect: Defect::Pattern }];
    assert_eq!(render(&vs), Err("Invalid annotation names: x y".to_string()));
}

#[test]
fn render_joins_with_comma_and_space() {
    let vs = vec![
        Violation { key: "p".to_string(), defect: Defect::PrefixTooLong },
        Violation { key: "n".to_string(), defect: Defect::NameTooLong },
        Violation { key: "k".to_string(), defect: Defect::KeyTooLong },
        Violation { key: "g".to_string(), defect: Defect::Pattern },
    ];
    assert_eq!(
        render(&vs),
        Err("Invalid annotation names: p (prefix too long), n (name too long), k (key too long), g"
            .to_string())
    );
}

#[test]
fn check_key_consults_the_grammar() {
    let validator = KeyValidator::new().unwrap();
    assert_eq!(validator.check_key("my-label"), None);
    assert_eq!(validator.check_key("example.com/my-label"), None);
    assert_eq!(validator.check_key("my label"), Some(Defect::Pattern));
    assert_eq!(validator.check_key(""), Some(Defect::Pattern));
    assert_eq!(validator.check_key("/my-label"), Some(Defect::Pattern));
    assert_eq!(validator.check_key("example.com/"), Some(Defect::Pattern));
    assert_eq!(validator.check_key("Example.com/my-label"), Some(Defect::Pattern));
    assert_eq!(
        validator.check_key(&"n".repeat(64)),
        Some(Defect::NameTooLong)
    );
}

#[test]
fn violations_keep_the_order_of_the_keys() {
    let validator = KeyValidator::new().unwrap();
    let keys = vec![
        "z z".to_string(),
        "fine".to_string(),
        "a a".to_string(),
        "a a".to_string(),
    ];
    let found = validator.violations(&keys);
    assert_eq!(found.len(), 3);
    assert_eq!(found[0].key, "z z");
    assert_eq!(found[0].defect, Defect::Pattern);
    assert_eq!(found[1].key, "a a");
    assert_eq!(found[2].key, "a a");
    assert!(validator.violations(&vec!["fine".to_string()]).is_empty());
}

#[test]
fn split_key_at_the_last_slash() {
    let parts = split_key("a/b/c");
    assert_eq!(parts.prefix, Some("a/b".as_bytes()));
    assert_eq!(parts.name, "c".as_bytes());
}

#[test]
fn split_key_without_a_slash() {
    let parts = split_key("my-label");
    assert_eq!(parts.prefix, None);
    assert_eq!(parts.name, "my-label".as_bytes());
    let empty = split_key("");
    assert_eq!(empty.prefix, None);
    assert_eq!(empty.name.len(), 0);
}

#[test]
fn split_key_with_empty_parts() {
    let no_name = split_key("example.com/");
    assert_eq!(no_name.prefix, Some("example.com".as_bytes()));
    assert_eq!(no_name.name.len(), 0);
    let no_prefix = split_key("/my-label");
    assert_eq!(no_prefix.prefix, Some("".as_bytes()));
    assert_eq!(no_prefix.name, "my-label".as_bytes());
}

#[test]
fn split_key_keeps_multibyte_characters_whole() {
    let parts = split_key("\u{e9}t\u{e9}/\u{4e2d}");
    assert_eq!(parts.prefix, Some("\u{e9}t\u{e9}".as_bytes()));
    assert_eq!(parts.name, "\u{4e2d}".as_bytes());
}

#[test]
fn from_compiled_keeps_the_compiled_grammar() {
    let compiled = regex::Regex::new(LABELS_NAME_REGEX);
    let validator = KeyValidator::from_compiled(compiled).unwrap();
    assert_eq!(validator.check_key("example.com/my-label"), None);
    assert_eq!(validator.check_key("example.com/"), Some(Defect::Pattern));
}

#[test]
fn from_compiled_hands_on_the_cause() {
    let broken = regex::Regex::new("(");
    let cause = broken.clone().unwrap_err();
    let refused = KeyValidator::from_compiled(broken);
    assert!(refused.is_err());
    assert_eq!(refused.err().unwrap().cause, cause);
}

#[test]
fn new_compiles_the_grammar() {
    assert!(KeyValidator::new().is_ok());
}
