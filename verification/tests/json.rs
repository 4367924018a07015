use webhook_rebind::json::Json;

fn text(value: &str) -> Json {
    Json::Text(value.to_string())
}

#[test]
fn member_is_found_by_its_exact_name() {
    let object = Json::Object(
        vec![("a".to_string(), text("1")), ("ab".to_string(), text("2")), ("".to_string(), text("3"))],
    );
    assert_eq!(object.member("a"), Some(&text("1")));
    assert_eq!(object.member("ab"), Some(&text("2")));
    assert_eq!(object.member(""), Some(&text("3")));
    assert_eq!(object.member("b"), None);
    assert_eq!(object.member("A"), None);
}

#[test]
fn first_member_of_a_name_is_the_one_found() {
    let object = Json::Object(vec![("k".to_string(), text("first")), ("k".to_string(), text("second"))]);
    assert_eq!(object.member("k"), Some(&text("first")));
}

#[test]
fn only_an_object_has_members() {
    assert_eq!(Json::Null.member("a"), None);
    assert_eq!(Json::Bool(true).member("a"), None);
    assert_eq!(text("a").member("a"), None);
    assert_eq!(Json::List(vec![text("a")]).member("a"), None);
    assert_eq!(Json::Object(Vec::new()).member("a"), None);
}

#[test]
fn only_a_list_has_items() {
    let list = Json::List(vec![Json::Null, text("x")]);
    assert_eq!(list.items(), Some(&vec![Json::Null, text("x")]));
    assert_eq!(Json::List(Vec::new()).items(), Some(&Vec::new()));
    assert_eq!(Json::Null.items(), None);
    assert_eq!(text("[]").items(), None);
    assert_eq!(Json::Object(Vec::new()).items(), None);
}

#[test]
fn only_a_text_has_characters() {
    assert_eq!(text("abc").text(), Some("abc"));
    assert_eq!(text("").text(), Some(""));
    assert_eq!(Json::Number("12".to_string()).text(), None);
    assert_eq!(Json::Bool(false).text(), None);
    assert_eq!(Json::Null.text(), None);
}
