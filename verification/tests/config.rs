use oplire::config::{AppConfig, Backend, ProxyConfig};
use oplire::json_text::to_text;

#[test]
fn defaults() {
    let c = ProxyConfig::default();
    assert_eq!(c.listen_addr, "127.0.0.1:8080");
    assert_eq!(c.opencode_base_url, "http://localhost:3000");
    assert_eq!(c.opencode_api_key, None);
    assert_eq!(c.max_retries, 3);
    assert_eq!(c.warp_reset_delay_ms, 5000);
    assert_eq!(c.backend, Backend::Native);
    assert_eq!(Backend::default(), Backend::Native);
    let _ = AppConfig::default();
}

#[test]
fn the_free_models() {
    let models = ProxyConfig::free_models();
    let ids: Vec<&str> = models.iter().map(|m| m.id.as_str()).collect();
    assert_eq!(
        ids,
        vec![
            "big-pickle",
            "ling-3.0-flash-fin-free",
            "mimo-v2.5-free",
            "muse-spark-1.2-contributor-free",
            "muse-spark-1.3-contributor-free",
            "nemotron-3-ultra-free",
            "nemotron-3.5-lightning-free",
        ]
    );
    assert_eq!(models[0].display_name, "Big Pickle");
    assert_eq!(models[6].display_name, "Nemotron 3.5 Lightning Free");
}

#[test]
fn the_own_models_list() {
    let text = to_text(&ProxyConfig::models_response());
    assert!(text.starts_with(
        r#"{"data":[{"created":0,"id":"big-pickle","object":"model","owned_by":"opencode-zen"},"#
    ));
    assert!(text.ends_with(r#""owned_by":"opencode-zen"}],"object":"list"}"#));
    assert_eq!(text.matches(r#""object":"model""#).count(), 7);
}
