use line_bridge::config::{LineConfig, DEFAULT_SERVER_URL};

fn bound(token: &str, server: &str) -> LineConfig {
    LineConfig {
        binding_token: token.into(),
        server_url: Some(server.into()),
        ..Default::default()
    }
}

#[test]
fn server_url_precedence_config_over_env_over_default() {
    // Config wins
    let mut c = LineConfig {
        binding_token: "t".into(),
        server_url: Some("https://custom.example/".into()),
        ..Default::default()
    };
    assert_eq!(
        c.resolved_server_url(Some("https://env.example/")),
        "https://custom.example"
    );

    // Env wins over default
    c.server_url = None;
    assert_eq!(
        c.resolved_server_url(Some("https://env.example/")),
        "https://env.example"
    );

    assert_eq!(c.resolved_server_url(None), DEFAULT_SERVER_URL);
}

#[test]
fn ws_url_uses_wss_for_https() {
    let c = LineConfig {
        binding_token: "abc".into(),
        server_url: Some("https://line.thclaws.ai".into()),
        ..Default::default()
    };
    assert_eq!(c.ws_url(None), "wss://line.thclaws.ai/ws?token=abc");
}

#[test]
fn ws_url_uses_ws_for_http() {
    let c = LineConfig {
        binding_token: "abc".into(),
        server_url: Some("http://localhost:8080".into()),
        ..Default::default()
    };
    assert_eq!(c.ws_url(None), "ws://localhost:8080/ws?token=abc");
}

#[test]
fn reply_url_escapes_request_id() {
    let c = LineConfig {
        binding_token: "t".into(),
        server_url: Some("https://line.thclaws.ai".into()),
        ..Default::default()
    };
    assert_eq!(
        c.reply_url(None, "a b/c"),
        "https://line.thclaws.ai/reply/a%20b%2Fc"
    );
}

#[test]
fn default_binding_is_empty() {
    let c = LineConfig::default();
    assert_eq!(c.binding_token, "");
    assert!(c.server_url.is_none());
    assert!(c.display_name.is_none());
    assert!(c.picture_url.is_none());
    assert!(c.language.is_none());
}

#[test]
fn blank_environment_is_ignored() {
    let c = LineConfig::default();
    assert_eq!(c.resolved_server_url(Some(" \t\n")), DEFAULT_SERVER_URL);
    assert_eq!(c.resolved_server_url(Some("")), DEFAULT_SERVER_URL);
    // What is not blank is not trimmed, only its slashes are dropped.
    assert_eq!(c.resolved_server_url(Some(" http://x// ")), " http://x// ");
    assert_eq!(c.resolved_server_url(Some("http://x//")), "http://x");
    // An explicit address counts even if it is empty.
    assert_eq!(bound("t", "//").resolved_server_url(Some("http://x")), "");
}

#[test]
fn plain_addresses() {
    let c = bound("t", "https://relay.example//");
    assert_eq!(c.unpair_url(None), "https://relay.example/unpair");
    assert_eq!(c.push_url(None), "https://relay.example/push");
    assert_eq!(
        c.chat_bridge_event_url(None),
        "https://relay.example/chat-bridge/event"
    );
    let d = LineConfig::default();
    assert_eq!(d.push_url(Some("http://env/")), "http://env/push");
    assert_eq!(d.unpair_url(None), "https://line.thclaws.ai/unpair");
}

#[test]
fn ws_scheme_and_host() {
    assert_eq!(bound("t", "relay.example").ws_url(None), "wss://relay.example/ws?token=t");
    assert_eq!(bound("t", "https://https://h").ws_url(None), "wss://h/ws?token=t");
    assert_eq!(bound("t", "http://https://h").ws_url(None), "ws://https://h/ws?token=t");
    assert_eq!(bound("t", "https://http://h").ws_url(None), "wss://h/ws?token=t");
}

#[test]
fn tokens_are_percent_encoded() {
    let c = bound("a+b=/ก~-._Z9", "https://h");
    assert_eq!(c.ws_url(None), "wss://h/ws?token=a%2Bb%3D%2F%E0%B8%81~-._Z9");
    let d = bound("t", "https://h");
    assert_eq!(d.reply_url(None, "plain-id_1.2~"), "https://h/reply/plain-id_1.2~");
    assert_eq!(d.reply_url(None, "👾?&#"), "https://h/reply/%F0%9F%91%BE%3F%26%23");
    assert_eq!(d.reply_url(None, ""), "https://h/reply/");
    assert_ne!(d.reply_url(None, "a/b"), d.reply_url(None, "a%2Fb"));
}
