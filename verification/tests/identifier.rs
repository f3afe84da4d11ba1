use modelc::ident::{is_valid_char, is_valid_str, Identifier, InvalidIdentifier, DEFAULT_NAMESPACE};
use modelc::text::str_eq;
use modelc::order::bytes_lt;

#[test]
fn parse_defaults_to_minecraft_namespace() {
    let id = Identifier::parse("stone").unwrap();
    assert_eq!(id.namespace, "minecraft");
    assert_eq!(id.namespace, DEFAULT_NAMESPACE);
    assert_eq!(id.path, "stone");
}

#[test]
fn parse_splits_at_first_colon() {
    let id = Identifier::parse("custom:block/b").unwrap();
    assert_eq!(id, Identifier::new("custom", "block/b"));
    assert_eq!(Identifier::parse("a:b:c"), Err(InvalidIdentifier::Path));
}

#[test]
fn parse_accepts_empty_segments() {
    assert_eq!(Identifier::parse(""), Ok(Identifier::new("minecraft", "")));
    assert_eq!(Identifier::parse(":"), Ok(Identifier::new("", "")));
    assert_eq!(Identifier::parse(":x"), Ok(Identifier::new("", "x")));
    assert_eq!(Identifier::parse("x:"), Ok(Identifier::new("x", "")));
}

#[test]
fn parse_rejects_bad_namespace() {
    assert_eq!(Identifier::parse("Mine:stone"), Err(InvalidIdentifier::Namespace));
    assert_eq!(Identifier::parse("a/b:stone"), Err(InvalidIdentifier::Namespace));
    assert_eq!(Identifier::parse("a b:c"), Err(InvalidIdentifier::Namespace));
    assert_eq!(Identifier::parse("\u{e9}:c"), Err(InvalidIdentifier::Namespace));
}

#[test]
fn parse_rejects_bad_path() {
    assert_eq!(Identifier::parse("Stone"), Err(InvalidIdentifier::Path));
    assert_eq!(Identifier::parse("mine:Stone"), Err(InvalidIdentifier::Path));
    assert_eq!(Identifier::parse("mine:a#b"), Err(InvalidIdentifier::Path));
}

#[test]
fn parse_checks_namespace_before_path() {
    assert_eq!(Identifier::parse("BAD:ALSO BAD"), Err(InvalidIdentifier::Namespace));
}

#[test]
fn error_messages_name_the_grammar() {
    assert_eq!(InvalidIdentifier::Namespace.message(), "Namespace must match [a-z0-9_.-]");
    assert_eq!(InvalidIdentifier::Path.message(), "Path must match [a-z0-9_.-/]");
}

#[test]
fn format_is_namespace_colon_path() {
    assert_eq!(Identifier::new("minecraft", "block/stone").to_string(), "minecraft:block/stone");
    assert_eq!(Identifier::new("a", "b").to_string(), "a:b");
}

#[test]
fn parse_of_format_gives_the_identifier_back() {
    let samples = [
        ("minecraft", "stone"),
        ("custom", "block/sub/thing"),
        ("a-b_c.d", "x.y-z_0/9"),
        ("", "only/path"),
        ("ns", ""),
        ("0", "1"),
    ];
    for (namespace, path) in samples.iter() {
        let id = Identifier::new(namespace, path);
        assert!(id.is_valid());
        assert_eq!(Identifier::parse(&id.to_string()), Ok(id));
    }
}

#[test]
fn format_of_parse_gives_the_text_back_when_it_has_a_colon() {
    for text in ["a:b", "minecraft:block/stone", ":x", "x:"].iter() {
        assert_eq!(Identifier::parse(text).unwrap().to_string(), *text);
    }
    assert_eq!(Identifier::parse("stone").unwrap().to_string(), "minecraft:stone");
}

#[test]
fn new_takes_segments_as_they_are() {
    let id = Identifier::new("Not Valid", "Either:");
    assert_eq!(id.namespace, "Not Valid");
    assert_eq!(id.path, "Either:");
    assert!(!id.is_valid());
}

#[test]
fn valid_chars_are_lowercase_digits_and_punctuation() {
    for c in "abcxyz0189_.-".chars() {
        assert!(is_valid_char(c, false));
        assert!(is_valid_char(c, true));
    }
    assert!(is_valid_char('/', true));
    assert!(!is_valid_char('/', false));
    for c in "AZ :#\u{e9}`{".chars() {
        assert!(!is_valid_char(c, false));
        assert!(!is_valid_char(c, true));
    }
}

#[test]
fn valid_str_checks_every_char() {
    assert!(is_valid_str("", false));
    assert!(is_valid_str("abc_1.2-3", false));
    assert!(!is_valid_str("abc/def", false));
    assert!(is_valid_str("abc/def", true));
    assert!(!is_valid_str("abcD", true));
}

#[test]
fn identifiers_sort_by_namespace_then_path() {
    let a = Identifier::new("custom", "b");
    let b = Identifier::new("minecraft", "a");
    assert!(a.precedes(&b));
    assert!(!b.precedes(&a));
    assert!(!a.precedes(&a));
    let c = Identifier::new("minecraft", "ab");
    assert!(b.precedes(&c));
    assert!(!c.precedes(&b));
    let d = Identifier::new("minecraf", "zzz");
    assert!(d.precedes(&b));
}

#[test]
fn precedes_agrees_with_the_derived_order() {
    let names = ["", "a", "b", "ab", "minecraft", "custom", "z/y", "\u{e9}"];
    for an in names.iter() {
        for ap in names.iter() {
            for bn in names.iter() {
                for bp in names.iter() {
                    let a = Identifier::new(an, ap);
                    let b = Identifier::new(bn, bp);
                    assert_eq!(a.precedes(&b), a < b);
                    assert_eq!(a == b, !a.precedes(&b) && !b.precedes(&a));
                }
            }
        }
    }
}

#[test]
fn bytes_order_is_lexicographic() {
    assert!(bytes_lt(b"", b"a"));
    assert!(!bytes_lt(b"", b""));
    assert!(!bytes_lt(b"a", b""));
    assert!(bytes_lt(b"abc", b"abd"));
    assert!(bytes_lt(b"ab", b"abc"));
    assert!(!bytes_lt(b"abc", b"ab"));
    assert!(bytes_lt(b"a\x7f", b"a\x80"));
}

#[test]
fn str_eq_compares_texts() {
    assert!(str_eq("", ""));
    assert!(str_eq("minecraft", "minecraft"));
    assert!(!str_eq("minecraft", "minecrafs"));
    assert!(!str_eq("a", "ab"));
}

#[test]
fn clone_keeps_both_segments() {
    let id = Identifier::new("a", "b/c");
    assert_eq!(id.clone(), id);
}

#[test]
fn from_str_parses_like_parse() {
    let id: Identifier = "custom:thing".parse().unwrap();
    assert_eq!(id, Identifier::new("custom", "thing"));
    assert_eq!("Bad:thing".parse::<Identifier>(), Err(InvalidIdentifier::Namespace));
}
