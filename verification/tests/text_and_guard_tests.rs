use actix_web_auth::guard::{forwarded_names, plan_guard, request_param, HandlerParam};
use actix_web_auth::json::JsonObject;
use actix_web_auth::text::{insert_sorted_unique, split_at_char, split_words, str_equal, string_less};

fn strings(v: &[&str]) -> Vec<String> {
    v.iter().map(|s| s.to_string()).collect()
}

fn param(name: Option<&str>, ty: Option<&str>) -> HandlerParam {
    HandlerParam { name: name.map(|s| s.to_string()), ty: ty.map(|s| s.to_string()) }
}

#[test]
fn split_words_drops_empty_pieces() {
    assert_eq!(split_words("  read\twrite\n openid  "), strings(&["read", "write", "openid"]));
    assert_eq!(split_words(""), Vec::<String>::new());
    assert_eq!(split_words("\u{3000}a\u{a0}b"), strings(&["a", "b"]));
    assert_eq!(split_words("one"), strings(&["one"]));
}

#[test]
fn split_at_char_keeps_empty_pieces() {
    assert_eq!(split_at_char("a.b.c", '.'), strings(&["a", "b", "c"]));
    assert_eq!(split_at_char("a..b", '.'), strings(&["a", "", "b"]));
    assert_eq!(split_at_char("", '.'), strings(&[""]));
    assert_eq!(split_at_char(".", '.'), strings(&["", ""]));
}

#[test]
fn string_order_and_equality() {
    assert!(string_less(&"a".to_string(), &"b".to_string()));
    assert!(string_less(&"ab".to_string(), &"abc".to_string()));
    assert!(!string_less(&"abc".to_string(), &"abc".to_string()));
    assert!(string_less(&"Z".to_string(), &"a".to_string()));
    assert!(str_equal("x", "x"));
    assert!(!str_equal("x", "X"));
}

#[test]
fn insert_sorted_unique_keeps_order_and_drops_duplicates() {
    let mut v: Vec<String> = Vec::new();
    for s in ["m", "c", "x", "c", "a", "m"] {
        insert_sorted_unique(&mut v, s.to_string());
    }
    assert_eq!(v, strings(&["a", "c", "m", "x"]));
}

#[test]
fn json_object_members() {
    let o = JsonObject::parse(r#"{"a":"x","b":[1,"y"],"c":{"d":1}}"#).unwrap();
    assert_eq!(o.get_str("a"), Some(&"x".to_string()));
    assert_eq!(o.get("b").unwrap().items, Some(vec![None, Some("y".to_string())]));
    assert_eq!(o.get("c").unwrap().text, "{\"d\":1}");
    assert!(o.get_str("c").is_none());
    assert!(o.get("z").is_none());
    assert_eq!(JsonObject::parse("5").unwrap().fields.len(), 0);
    assert!(JsonObject::parse("{").is_none());
}

#[test]
fn request_param_is_first_named_http_request() {
    let params = vec![
        param(None, None),
        param(None, Some("HttpRequest")),
        param(Some("data"), Some("Json")),
        param(Some("r"), Some("HttpRequest")),
        param(Some("s"), Some("HttpRequest")),
    ];
    assert_eq!(request_param(&params), Some(3));
    assert_eq!(request_param(&vec![param(Some("q"), Some("Query"))]), None);
}

#[test]
fn forwarded_names_skip_unnamed_params() {
    let params = vec![param(Some("a"), None), param(None, Some("Json")), param(Some("b"), Some("Path"))];
    assert_eq!(forwarded_names(&params), strings(&["a", "b"]));
}

#[test]
fn plan_guard_uses_existing_request() {
    let params = vec![param(Some("data"), Some("Json")), param(Some("http"), Some("HttpRequest"))];
    let plan = plan_guard("create_user", Some("users.create".to_string()), &params);
    assert_eq!(plan.inner_fn, "__inner_create_user");
    assert_eq!(plan.request, "http");
    assert!(!plan.adds_request);
    assert_eq!(plan.policy, Some("users.create".to_string()));
    assert_eq!(plan.forwarded, strings(&["data", "http"]));
}

#[test]
fn plan_guard_adds_request_when_missing() {
    let plan = plan_guard("get_version", None, &Vec::new());
    assert_eq!(plan.inner_fn, "__inner_get_version");
    assert_eq!(plan.request, "req");
    assert!(plan.adds_request);
    assert_eq!(plan.policy, None);
    assert!(plan.forwarded.is_empty());
}

#[test]
fn json_object_item_texts() {
    let o = JsonObject::parse(r#"{"a":[{"k":1}, "s", 2]}"#).unwrap();
    assert_eq!(
        o.get("a").unwrap().item_texts,
        Some(vec!["{\"k\":1}".to_string(), "\"s\"".to_string(), "2".to_string()])
    );
    assert_eq!(o.get("a").unwrap().items, Some(vec![None, Some("s".to_string()), None]));
}
