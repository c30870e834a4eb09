use antiknob::api::json::{take_members, Json};

fn obj(members: Vec<(&str, Json)>) -> Json {
    Json::Object(members.into_iter().map(|(k, v)| (k.to_string(), v)).collect())
}

#[test]
fn members_are_taken_by_key_first_one_wins() {
    let j = obj(vec![
        ("b", Json::Bool(true)),
        ("a", Json::Str("x".to_string())),
        ("b", Json::Null),
    ]);
    let got = take_members(j, &vec!["a", "b", "c"]);
    assert_eq!(got, vec![Some(Json::Str("x".to_string())), Some(Json::Bool(true)), None]);
}

#[test]
fn a_value_that_is_not_an_object_has_no_members() {
    assert_eq!(take_members(Json::Array(vec![Json::Null]), &vec!["0"]), vec![None]);
    assert_eq!(take_members(Json::Null, &vec!["a", "b"]), vec![None, None]);
    assert_eq!(take_members(obj(vec![("a", Json::Null)]), &vec![]), vec![]);
}
