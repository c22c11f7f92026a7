use abcy_data::json::{find_member, Json, Member, Number};
use abcy_data::scalar::Scalar;

fn whole(n: i64) -> Json {
    Json::Number(Number {
        signed: Some(n),
        unsigned: if n >= 0 { Some(n as u64) } else { None },
        real: Scalar { bits: (n as f64).to_bits() },
    })
}

fn fraction(x: f64) -> Json {
    Json::Number(Number { signed: None, unsigned: None, real: Scalar { bits: x.to_bits() } })
}

fn text(s: &str) -> Json {
    Json::Text(s.to_string())
}

fn object(members: Vec<(&str, Json)>) -> Json {
    Json::Object(
        members.into_iter().map(|(key, value)| Member { key: key.to_string(), value }).collect(),
    )
}

fn keys(doc: &Json) -> Vec<String> {
    match doc {
        Json::Object(members) => members.iter().map(|m| m.key.clone()).collect(),
        _ => panic!("no object"),
    }
}

#[test]
fn get_finds_members_of_objects_only() {
    let doc = object(vec![("id", whole(7)), ("name", text("ride")), ("distance", fraction(1.5))]);
    assert_eq!(doc.get("id").unwrap().as_u64(), Some(7));
    assert_eq!(doc.get("id").unwrap().as_i64(), Some(7));
    assert_eq!(doc.get("name").unwrap().as_str(), Some("ride"));
    assert_eq!(doc.get("distance").unwrap().as_f64().unwrap().to_bits(), 1.5f64.to_bits());
    assert!(doc.get("missing").is_none());
    assert!(doc.get("").is_none());
    assert!(Json::Null.get("id").is_none());
    assert!(Json::Array(vec![whole(1)]).get("id").is_none());
    assert!(text("id").get("id").is_none());
}

#[test]
fn first_member_with_a_key_counts() {
    let doc = object(vec![("a", whole(1)), ("b", whole(2)), ("a", whole(3))]);
    assert_eq!(doc.get("a").unwrap().as_i64(), Some(1));
    match &doc {
        Json::Object(members) => {
            assert_eq!(find_member(members, "a"), Some(0));
            assert_eq!(find_member(members, "b"), Some(1));
            assert_eq!(find_member(members, "c"), None);
        }
        _ => unreachable!(),
    }
}

#[test]
fn readings_of_other_kinds_are_none() {
    assert_eq!(text("5").as_i64(), None);
    assert_eq!(Json::Null.as_u64(), None);
    assert!(Json::Bool(true).as_f64().is_none());
    assert_eq!(whole(5).as_str(), None);
    assert!(whole(5).as_array().is_none());
    assert_eq!(whole(-5).as_u64(), None);
    assert_eq!(whole(-5).as_i64(), Some(-5));
    assert_eq!(fraction(2.5).as_i64(), None);
    assert!(object(vec![]).is_object());
    assert!(!Json::Array(vec![]).is_object());
    assert_eq!(Json::Array(vec![whole(1), whole(2)]).as_array().unwrap().len(), 2);
}

#[test]
fn with_member_appends_a_new_key() {
    let doc = object(vec![("a", whole(1))]).with_member("b".to_string(), whole(2));
    assert_eq!(keys(&doc), vec!["a", "b"]);
    assert_eq!(doc.get("a").unwrap().as_i64(), Some(1));
    assert_eq!(doc.get("b").unwrap().as_i64(), Some(2));
}

#[test]
fn with_member_replaces_in_place() {
    let doc = object(vec![("a", whole(1)), ("b", whole(2)), ("c", whole(3))])
        .with_member("b".to_string(), text("x"));
    assert_eq!(keys(&doc), vec!["a", "b", "c"]);
    assert_eq!(doc.get("b").unwrap().as_str(), Some("x"));
    assert_eq!(doc.get("a").unwrap().as_i64(), Some(1));
    assert_eq!(doc.get("c").unwrap().as_i64(), Some(3));
}

#[test]
fn with_member_leaves_other_documents() {
    let doc = Json::Array(vec![whole(1)]).with_member("a".to_string(), whole(2));
    assert_eq!(doc.as_array().unwrap().len(), 1);
    assert!(doc.get("a").is_none());
    assert!(matches!(Json::Null.with_member("a".to_string(), whole(2)), Json::Null));
}
