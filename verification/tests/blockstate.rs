use modelc::text::{find_char, split};
use modelc::vanilla::blockstate::multipart::VariantValues;
use modelc::vanilla::blockstate::variants::{AnyProperty, InvalidProperty, PropertyList};

fn prop(name: &str, value: &str) -> AnyProperty {
    AnyProperty { name: name.to_string(), value: value.to_string() }
}

fn texts(pieces: &[&str]) -> Vec<String> {
    pieces.iter().map(|p| p.to_string()).collect()
}

#[test]
fn find_char_gives_the_first_position_in_characters() {
    assert_eq!(find_char("a=b=c", '='), 1);
    assert_eq!(find_char("abc", '='), 3);
    assert_eq!(find_char("", '='), 0);
    assert_eq!(find_char("=", '='), 0);
    assert_eq!(find_char("\u{e9}\u{20ac}=x", '='), 2);
}

#[test]
fn split_gives_one_piece_more_than_separators() {
    assert_eq!(split("a,b,c", ','), texts(&["a", "b", "c"]));
    assert_eq!(split("", ','), texts(&[""]));
    assert_eq!(split(",", ','), texts(&["", ""]));
    assert_eq!(split("a,,b,", ','), texts(&["a", "", "b", ""]));
    assert_eq!(split("abc", ','), texts(&["abc"]));
    assert_eq!(split("\u{e9},\u{20ac}", ','), texts(&["\u{e9}", "\u{20ac}"]));
}

#[test]
fn split_agrees_with_std_and_joins_back() {
    for text in ["", "a", "|", "a|b", "||", "x|y|", "|x|y", "north|south|east"].iter() {
        let expected: Vec<String> = text.split('|').map(|p| p.to_string()).collect();
        let pieces = split(text, '|');
        assert_eq!(pieces, expected);
        assert_eq!(pieces.join("|"), *text);
    }
}

#[test]
fn property_is_split_at_its_first_equals() {
    assert_eq!(AnyProperty::parse("facing=north"), Ok(prop("facing", "north")));
    assert_eq!(AnyProperty::parse("a=b=c"), Ok(prop("a", "b=c")));
    assert_eq!(AnyProperty::parse("="), Ok(prop("", "")));
    assert_eq!(AnyProperty::parse("a="), Ok(prop("a", "")));
}

#[test]
fn property_without_equals_is_rejected() {
    let err = AnyProperty::parse("facing").unwrap_err();
    assert_eq!(err, InvalidProperty { text: "facing".to_string() });
    assert_eq!(err.message(), "No = found in property spec: facing");
    assert_eq!(AnyProperty::parse("").unwrap_err().message(), "No = found in property spec: ");
}

#[test]
fn property_list_is_split_at_commas() {
    assert_eq!(
        PropertyList::parse("facing=north,half=top"),
        Ok(PropertyList(vec![prop("facing", "north"), prop("half", "top")]))
    );
    assert_eq!(PropertyList::parse("a=b"), Ok(PropertyList(vec![prop("a", "b")])));
}

#[test]
fn property_list_fails_with_its_first_bad_piece() {
    assert_eq!(
        PropertyList::parse("a=b,bad,worse,c=d"),
        Err(InvalidProperty { text: "bad".to_string() })
    );
    assert_eq!(PropertyList::parse(""), Err(InvalidProperty { text: "".to_string() }));
    assert_eq!(PropertyList::parse("a=b,"), Err(InvalidProperty { text: "".to_string() }));
}

#[test]
fn variant_values_are_split_at_bars() {
    assert_eq!(VariantValues::parse("north|south"), VariantValues(texts(&["north", "south"])));
    assert_eq!(VariantValues::parse("true"), VariantValues(texts(&["true"])));
    assert_eq!(VariantValues::parse(""), VariantValues(texts(&[""])));
}
