//! The plain values everything else is made of: texts, JSON, ids, trees.

use epik::ids::{IdMap, IdSet, IssueId};
use epik::json::{array, read_optional_number, read_optional_whole, read_texts, Json, RecordText};
use epik::text;
use epik::tree::Tree;

// ----- texts -----

#[test]
fn a_text_is_trimmed_and_searched_by_characters() {
    assert_eq!(text::trim(" \t naïve \u{3000}\n"), "naïve");
    assert_eq!(text::trim(" \n"), "");
    assert_eq!(text::trim_end_matches("v1//", '/'), "v1");
    assert!(text::contains("naïve", "ïv"));
    assert!(!text::contains("na", "naïve"));
    assert!(text::contains("x", ""));
    assert!(text::starts_with("naïve", "na"));
    assert_eq!(
        text::split_once("a=b=c", '='),
        Some(("a".to_owned(), "b=c".to_owned()))
    );
    assert_eq!(text::split_once("abc", '='), None);
    assert_eq!(text::strip_prefix("git x", "git "), Some("x".to_owned()));
    assert_eq!(text::strip_prefix("gi", "git "), None);
}

#[test]
fn a_text_is_read_by_its_lines() {
    assert_eq!(text::lines_of("a\r\n\nb"), ["a", "", "b"]);
    assert_eq!(text::lines_of("a\n"), ["a"]);
    assert_eq!(text::lines_of(""), Vec::<String>::new());
}

#[test]
fn numbers_are_read_and_written_in_decimal() {
    assert_eq!(text::number(0), "0");
    assert_eq!(text::number(u64::MAX), "18446744073709551615");
    assert_eq!(text::zero_padded(7, 2), "07");
    assert_eq!(text::zero_padded(123, 2), "123");
    assert_eq!(text::signed(-12), "-12");
    assert_eq!(text::signed(i32::MIN), "-2147483648");
    assert_eq!(text::parse_number("0042", 100), Some(42));
    assert_eq!(text::parse_number("101", 100), None);
    assert_eq!(
        text::parse_number("18446744073709551615", u64::MAX),
        Some(u64::MAX)
    );
    assert_eq!(text::parse_number("18446744073709551616", u64::MAX), None);
    assert_eq!(text::parse_number("", 100), None);
    assert_eq!(text::parse_number("4x", 100), None);
}

#[test]
fn texts_are_ordered_as_their_code_points_are() {
    assert!(text::precedes("10", "9"));
    assert!(text::precedes("a", "ab"));
    assert!(!text::precedes("b", "ab"));
    assert!(!text::precedes("a", "a"));
}

// ----- JSON -----

#[test]
fn json_is_read_into_its_shape_and_written_back() {
    let value = Json::parse(r#" {"b":[1,-2,1.5,true,null],"a":"x\né"} "#).unwrap();
    assert_eq!(
        value,
        Json::Object(vec![
            ("a".to_owned(), Json::Text("x\né".to_owned())),
            (
                "b".to_owned(),
                Json::Array(vec![
                    Json::Whole(1),
                    Json::Other("-2".to_owned()),
                    Json::Other("1.5".to_owned()),
                    Json::Bool(true),
                    Json::Null,
                ])
            ),
        ])
    );
    assert_eq!(
        value.to_string(),
        "{\"a\":\"x\\né\",\"b\":[1,-2,1.5,true,null]}"
    );
    assert!(Json::parse("{").is_err());
    assert!(Json::parse("{} x").is_err());
}

#[test]
fn a_member_is_found_by_its_key() {
    let value = Json::record()
        .with("n", Json::Whole(7))
        .with("s", Json::string("x"))
        .with("l", Json::row().also("a").also("b"));
    assert_eq!(value.whole_at("n"), Some(7));
    assert_eq!(value.text_at("s").map(String::as_str), Some("x"));
    assert_eq!(value.text_at("n"), None);
    assert_eq!(value.get("gone"), None);
    assert_eq!(
        value.get("l"),
        Some(&Json::strings(&vec!["a".to_owned(), "b".to_owned()]))
    );
    assert!(Json::string_or_null(&None).is_null());
}

#[test]
fn a_field_may_be_left_out_and_may_not_be_another_thing() {
    assert_eq!(read_optional_whole(None), Some(None));
    assert_eq!(read_optional_whole(Some(&Json::Null)), Some(None));
    assert_eq!(read_optional_whole(Some(&Json::Whole(3))), Some(Some(3)));
    assert_eq!(read_optional_whole(Some(&Json::string("3"))), None);
    assert_eq!(
        read_optional_number(Some(&Json::Other("0.5".to_owned()))),
        Some(Some("0.5".to_owned()))
    );
    assert_eq!(
        read_texts(&vec![Json::string("a"), Json::string("b")]),
        Some(vec!["a".to_owned(), "b".to_owned()])
    );
    assert_eq!(read_texts(&vec![Json::string("a"), Json::Null]), None);
}

#[test]
fn a_record_is_written_in_the_order_it_was_filled() {
    let record = RecordText::new()
        .with_string("z", "say \"hi\"\n")
        .with("a", "[1]");
    assert_eq!(record.text(), r#"{"z":"say \"hi\"\n","a":[1]}"#);
    assert_eq!(RecordText::new().text(), "{}");
    assert_eq!(
        array(&vec!["1".to_owned(), "2".to_owned()]),
        "[1,2]".to_owned()
    );
    assert_eq!(array(&Vec::new()), "[]");
}

// ----- ids and trees -----

#[test]
fn ids_are_kept_once_each_in_order() {
    let mut set = IdSet::new();
    for number in [3u64, 20, 1, 3] {
        set.insert(IssueId::from(number));
    }
    assert_eq!(set.len(), 3);
    assert!(set.contains(&IssueId::from("20")));
    assert!(!set.contains(&IssueId::from("2")));

    let mut map: IdMap<u8> = IdMap::new();
    map.insert(IssueId::from(2), 1);
    map.insert(IssueId::from(10), 2);
    map.insert(IssueId::from(2), 3);
    assert_eq!(map.len(), 2);
    assert_eq!(map.entry(0), (&IssueId::from("10"), &2));
    assert_eq!(map.entry(1), (&IssueId::from("2"), &3));
    assert_eq!(map.get(&IssueId::from(7)), None);
}

#[test]
fn a_tree_is_walked_parents_first_and_its_leaves_left_to_right() {
    let tree = Tree {
        value: 1,
        children: vec![
            Tree {
                value: 2,
                children: vec![Tree::new(3), Tree::new(4)],
            },
            Tree::new(5),
        ],
    };
    assert_eq!(tree.nodes(), [&1, &2, &3, &4, &5]);
    assert_eq!(tree.leaves(), [&3, &4, &5]);
    assert!(!tree.is_leaf());
    assert!(Tree::new(0).is_leaf());
}
