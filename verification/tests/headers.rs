use guild_mirror::config::SystemSettings;
use guild_mirror::util::http::default_headers;

fn system(user_agent: &str, discord_token: &str) -> SystemSettings {
    SystemSettings {
        database_url: String::new(),
        discord_token: discord_token.to_string(),
        user_agent: user_agent.to_string(),
    }
}

#[test]
fn requests_tell_who_asks() {
    let headers = default_headers(&system("mirror/1", "Bot abc\tdef")).unwrap();
    assert_eq!(headers.len(), 2);
    assert_eq!(headers.get("user-agent").unwrap(), "mirror/1");
    assert_eq!(headers.get("authorization").unwrap(), "Bot abc\tdef");
    let names: Vec<String> = headers.keys().map(|name| name.as_str().to_string()).collect();
    assert!(names.contains(&"user-agent".to_string()));
    assert!(names.contains(&"authorization".to_string()));
}

#[test]
fn headers_may_be_empty_or_beyond_ascii() {
    let headers = default_headers(&system("", "\u{e9}")).unwrap();
    assert_eq!(headers.get("user-agent").unwrap(), "");
    assert_eq!(headers.get("authorization").unwrap().as_bytes(), "\u{e9}".as_bytes());
}

#[test]
fn control_characters_are_refused() {
    let refused = "failed to parse header value";
    assert_eq!(default_headers(&system("a\nb", "t")).unwrap_err(), refused);
    assert_eq!(default_headers(&system("a", "t\u{7f}")).unwrap_err(), refused);
    assert_eq!(default_headers(&system("a\u{0}", "t")).unwrap_err(), refused);
}
