use daisy_nam::text::{i64_to_text, text_contains, u64_to_text};
use daisy_nam::tone3000::{
    downloaded_model_info, filter_nano_a2, model_fetch_status, model_url, models_status, models_url, refresh_status,
    sanitize_model_name, search_status, search_url, status_outcome, exchange_failure, token_url, user_url, StatusAction, Tone3000Model,
};

fn fail_text(a: StatusAction) -> Option<String> {
    match a {
        StatusAction::Fail(m) => Some(m),
        _ => None,
    }
}

#[test]
fn search_address() {
    assert_eq!(
        search_url(None, None, None, None),
        "https://www.tone3000.com/api/v1/tones/search?platform=nam&architecture=2&sort=trending&page=1&page_size=25"
    );
    assert_eq!(
        search_url(Some("fuzz & drive"), Some("amp"), Some("newest"), Some(3)),
        "https://www.tone3000.com/api/v1/tones/search?platform=nam&architecture=2&sort=newest&page=3&page_size=25&query=fuzz%20%26%20drive&gears=amp"
    );
}

#[test]
fn model_addresses() {
    assert_eq!(models_url(42), "https://www.tone3000.com/api/v1/models?tone_id=42&page_size=100");
    assert_eq!(model_url(-7), "https://www.tone3000.com/api/v1/models/-7");
    assert_eq!(token_url(), "https://www.tone3000.com/api/v1/oauth/token");
    assert_eq!(user_url(), "https://www.tone3000.com/api/v1/user");
}

#[test]
fn status_handling() {
    assert!(matches!(search_status(200, "200 OK"), StatusAction::Proceed));
    assert!(matches!(search_status(401, "401 Unauthorized"), StatusAction::SignOut));
    assert_eq!(fail_text(search_status(429, "429 Too Many Requests")), Some("RATE_LIMITED".to_string()));
    assert_eq!(fail_text(search_status(500, "500 Internal Server Error")), Some("Search failed: HTTP 500 Internal Server Error".to_string()));
    assert!(matches!(models_status(401, "x"), StatusAction::SignOut));
    assert_eq!(fail_text(models_status(404, "404 Not Found")), Some("Models request failed: HTTP 404 Not Found".to_string()));
    assert!(matches!(models_status(204, "x"), StatusAction::Proceed));
    assert_eq!(fail_text(model_fetch_status(403, "403 Forbidden")), Some("Model fetch failed: HTTP 403 Forbidden".to_string()));
    assert!(matches!(model_fetch_status(429, "x"), StatusAction::Fail(_)));
    assert!(matches!(refresh_status(400), StatusAction::SignOut));
    assert!(matches!(refresh_status(500), StatusAction::Proceed));
}

#[test]
fn downloaded_names() {
    assert_eq!(sanitize_model_name("Fender Twin (clean)", 5), "Fender_Twin__clean");
    assert_eq!(sanitize_model_name("__a-b__", 5), "a-b");
    assert_eq!(sanitize_model_name("!!!", 77), "tone_77");
    assert_eq!(sanitize_model_name("", -3), "tone_-3");
    assert_eq!(sanitize_model_name("Crème brûlée", 1), "Crème_brûlée");
}

#[test]
fn downloaded_record() {
    let m = downloaded_model_info("id".into(), "n".into(), 5, "t".into(), 12, 345);
    assert_eq!(m.tone3000_id.as_deref(), Some("12"));
    assert_eq!(m.tone3000_model_id.as_deref(), Some("345"));
}

#[test]
fn decimal_text() {
    assert_eq!(u64_to_text(0), "0");
    assert_eq!(u64_to_text(1234567890), "1234567890");
    assert_eq!(u64_to_text(u64::MAX), u64::MAX.to_string());
    assert_eq!(i64_to_text(i64::MIN), i64::MIN.to_string());
    assert_eq!(i64_to_text(-5), "-5");
    assert!(text_contains("abc", ""));
    assert!(text_contains("abcabd", "abd"));
    assert!(!text_contains("ab", "abc"));
}

fn listed(id: i64, size: Option<&str>, arch: &str) -> Tone3000Model {
    Tone3000Model {
        id,
        tone_id: 7,
        name: format!("m{id}"),
        size: size.map(|s| s.to_string()),
        architecture_version: arch.to_string(),
        model_url: format!("https://example.com/{id}"),
    }
}

#[test]
fn only_nano_a2_models_are_listed() {
    let models = vec![
        listed(1, Some("nano"), "2"),
        listed(2, Some("standard"), "2"),
        listed(3, Some("nano"), "1"),
        listed(4, None, "2"),
        listed(5, Some("nano"), "2"),
    ];
    let kept = filter_nano_a2(&models);
    let ids: Vec<i64> = kept.iter().map(|m| m.id).collect();
    assert_eq!(ids, vec![1, 5]);
    assert_eq!(kept[1].name, "m5");
    assert!(filter_nano_a2(&Vec::new()).is_empty());
}

#[test]
fn status_decisions_end_requests() {
    assert_eq!(status_outcome(StatusAction::Proceed), (false, Ok(())));
    assert_eq!(status_outcome(StatusAction::SignOut), (true, Err("SESSION_EXPIRED".to_string())));
    assert_eq!(status_outcome(StatusAction::Fail("RATE_LIMITED".into())), (false, Err("RATE_LIMITED".to_string())));
    assert_eq!(status_outcome(search_status(401, "401 Unauthorized")).0, true);
}

#[test]
fn token_exchange_failure_reports_the_body() {
    assert_eq!(exchange_failure(200, "{}"), None);
    assert_eq!(exchange_failure(400, "bad code"), Some("Token exchange failed: bad code".to_string()));
    assert_eq!(exchange_failure(500, ""), Some("Token exchange failed: ".to_string()));
}
