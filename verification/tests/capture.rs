use tether::capture::{
    fallback_preview, last_text_source, request_id, request_model, system_prompt_source,
    user_prompt_source, Json, SystemPrompt, TextSource,
};

fn s(v: &str) -> Json {
    Json::Str(v.to_string())
}

fn obj(members: Vec<(&str, Json)>) -> Json {
    Json::Object(members.into_iter().map(|(k, v)| (k.to_string(), v)).collect())
}

fn is_str(j: &Json, text: &str) -> bool {
    matches!(j, Json::Str(t) if t == text)
}

fn chat() -> Json {
    obj(vec![
        ("model", s("gpt-4o")),
        ("id", s("req-1")),
        (
            "messages",
            Json::Array(vec![
                obj(vec![("role", s("system")), ("content", s("be brief"))]),
                obj(vec![("role", s("developer")), ("content", s("use rust"))]),
                obj(vec![("role", s("user")), ("content", s("hello"))]),
                obj(vec![("role", s("assistant")), ("content", s("hi"))]),
            ]),
        ),
    ])
}

#[test]
fn model_and_id() {
    let v = chat();
    assert_eq!(request_model(Some(&v)), "gpt-4o");
    assert_eq!(request_id(Some(&v)), "req-1");
    assert_eq!(request_model(None), "-");
    assert_eq!(request_id(Some(&obj(vec![("id", Json::Null)]))), "-");
}

#[test]
fn preview_is_the_most_recent_user_text() {
    let v = chat();
    match last_text_source(&v) {
        Some(TextSource::Content(c)) => assert!(is_str(c, "hello")),
        _ => panic!("expected content"),
    }
    let v = obj(vec![(
        "messages",
        Json::Array(vec![
            obj(vec![("role", s("user")), ("content", s("question"))]),
            obj(vec![("role", s("assistant")), ("content", s("answer"))]),
        ]),
    )]);
    match last_text_source(&v) {
        Some(TextSource::Content(c)) => assert!(is_str(c, "question")),
        _ => panic!("expected the user's content"),
    }
    let v = obj(vec![(
        "input",
        Json::Array(vec![obj(vec![("role", s("user"))]), obj(vec![("role", s("assistant"))])]),
    )]);
    match last_text_source(&v) {
        Some(TextSource::Content(Json::Object(m))) => assert!(m.iter().any(|(k, v)| k == "role" && is_str(v, "user"))),
        _ => panic!("expected the user message itself"),
    }
    let v = obj(vec![(
        "messages",
        Json::Array(vec![obj(vec![("role", s("assistant")), ("content", s("answer"))])]),
    )]);
    assert!(last_text_source(&v).is_none());
    let v = obj(vec![("input", s("plain input"))]);
    match last_text_source(&v) {
        Some(TextSource::Content(c)) => assert!(is_str(c, "plain input")),
        _ => panic!("expected input"),
    }
    let v = obj(vec![("prompt", s("complete this"))]);
    match last_text_source(&v) {
        Some(TextSource::Plain(p)) => assert_eq!(p, "complete this"),
        _ => panic!("expected plain text"),
    }
    assert!(last_text_source(&obj(vec![("messages", Json::Array(vec![]))])).is_none());
    assert_eq!(fallback_preview(0), "-");
    assert_eq!(fallback_preview(12), "<12 bytes, non-JSON>");
}

#[test]
fn system_and_user_prompts() {
    let v = chat();
    match system_prompt_source(&v) {
        SystemPrompt::Messages(list) => {
            assert_eq!(list.len(), 2);
            assert!(is_str(list[0], "be brief"));
            assert!(is_str(list[1], "use rust"));
        }
        _ => panic!("expected messages"),
    }
    match user_prompt_source(&v) {
        Some(TextSource::Content(c)) => assert!(is_str(c, "hello")),
        _ => panic!("expected user content"),
    }
    let a = obj(vec![("system", s("rules")), ("input", s("question"))]);
    assert!(matches!(system_prompt_source(&a), SystemPrompt::Field(_)));
    match user_prompt_source(&a) {
        Some(TextSource::Content(c)) => assert!(is_str(c, "question")),
        _ => panic!("expected input"),
    }
    assert!(matches!(system_prompt_source(&obj(vec![])), SystemPrompt::Empty));
    assert!(user_prompt_source(&obj(vec![])).is_none());
}
