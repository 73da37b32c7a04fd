use ga_core::json::Json;

#[test]
fn parse_reads_an_object_with_its_members() {
    let tree = Json::parse("{\"a\": 1, \"b\": [true, null, \"x\", 0.5, -3]}").unwrap();
    match tree {
        Json::Object(members) => {
            assert_eq!(members.len(), 2);
            assert_eq!(members[0].0, "a");
            assert!(matches!(
                members[0].1,
                Json::Number { unsigned: Some(1), bits: Some(b) } if f64::from_bits(b) == 1.0
            ));
            match &members[1].1 {
                Json::List(items) => {
                    assert_eq!(items.len(), 5);
                    assert!(matches!(items[0], Json::Bool(true)));
                    assert!(matches!(items[1], Json::Null));
                    assert!(matches!(&items[2], Json::Text(s) if s == "x"));
                    assert!(matches!(
                        items[3],
                        Json::Number { unsigned: None, bits: Some(b) } if f64::from_bits(b) == 0.5
                    ));
                    assert!(matches!(
                        items[4],
                        Json::Number { unsigned: None, bits: Some(b) } if f64::from_bits(b) == -3.0
                    ));
                }
                other => panic!("expected a list, found {:?}", other),
            }
        }
        other => panic!("expected an object, found {:?}", other),
    }
}

#[test]
fn parse_refuses_text_that_is_no_document() {
    assert!(Json::parse("{\"a\": ").is_none());
    assert!(Json::parse("").is_none());
    assert!(Json::parse("{} trailing").is_none());
}

#[test]
fn real_number_written_in_full_is_read_back_exactly() {
    let mut bits: u64 = 0x9E37_79B9_7F4A_7C15;
    for _ in 0..50000 {
        bits ^= bits << 13;
        bits ^= bits >> 7;
        bits ^= bits << 17;
        let x = f64::from_bits(bits);
        if !x.is_finite() {
            continue;
        }
        let text = format!("{:?}", x);
        match Json::parse(&text) {
            Some(Json::Number { bits: Some(read), .. }) => assert_eq!(read, bits, "{}", text),
            other => panic!("{} was read as {:?}", text, other),
        }
    }
}

#[test]
fn unsigned_reading_is_there_for_non_negative_integers_only() {
    let unsigned = |text: &str| match Json::parse(text) {
        Some(Json::Number { unsigned, .. }) => unsigned,
        other => panic!("{} was read as {:?}", text, other),
    };
    assert_eq!(unsigned("0"), Some(0));
    assert_eq!(unsigned("18446744073709551615"), Some(u64::MAX));
    assert_eq!(unsigned("18446744073709551616"), None);
    assert_eq!(unsigned("-1"), None);
    assert_eq!(unsigned("1.0"), None);
    assert_eq!(unsigned("1e2"), None);
}

#[test]
fn member_finds_a_value_by_its_name() {
    let tree = Json::parse("{\"b\": 1, \"a\": {\"b\": true}, \"c\": null}").unwrap();
    assert!(matches!(tree.member("b"), Some(Json::Number { unsigned: Some(1), .. })));
    assert!(matches!(tree.member("c"), Some(Json::Null)));
    assert!(tree.member("d").is_none());
    assert!(tree.member("").is_none());
    let inner = tree.member("a").unwrap();
    assert!(matches!(inner.member("b"), Some(Json::Bool(true))));
    assert!(inner.member("a").is_none());
    assert!(Json::Null.member("a").is_none());
    assert!(Json::List(Vec::new()).member("a").is_none());
}

#[test]
fn member_takes_the_first_of_two_members_with_one_name() {
    let tree = Json::Object(vec![
        (String::from("a"), Json::Bool(false)),
        (String::from("a"), Json::Bool(true)),
    ]);
    assert!(matches!(tree.member("a"), Some(Json::Bool(false))));
}

#[test]
fn last_of_two_members_with_one_name_is_read() {
    let tree = Json::parse("{\"a\": 1, \"a\": 2}").unwrap();
    match tree {
        Json::Object(members) => {
            assert_eq!(members.len(), 1);
            assert!(matches!(members[0].1, Json::Number { unsigned: Some(2), .. }));
        }
        other => panic!("expected an object, found {:?}", other),
    }
}
