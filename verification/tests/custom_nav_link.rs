use backend::custom_nav_link::{
    default_custom_nav_link, link_from_row, map_update_error, resolve_custom_nav_link_update,
    CustomNavLink, UpdateCustomNavLink,
};
use backend::error::AppError;

fn stored_default() -> CustomNavLink {
    link_from_row(None, None)
}

#[test]
fn invalid_link_maps_to_bad_request() {
    match map_update_error("Invalid custom link url: must start with http:// or https://".into()) {
        AppError::BadRequest(msg) => assert!(msg.contains("Invalid custom link")),
        other => panic!("expected BadRequest, got {other:?}"),
    }
}

#[test]
fn other_errors_map_to_internal() {
    assert!(matches!(
        map_update_error("Failed to update custom nav link: boom".into()),
        AppError::InternalError(_)
    ));
}

#[test]
fn test_get_default_returns_builtin_link() {
    let link = stored_default();
    assert_eq!(link.url, "https://producao.ghpo.com.br");
    assert_eq!(link.icon, "printer");
}

#[test]
fn test_update_url_and_icon_round_trip() {
    let link = resolve_custom_nav_link_update(
        stored_default(),
        &UpdateCustomNavLink {
            url: Some("https://example.com".to_string()),
            icon: Some("globe".to_string()),
        },
    )
    .unwrap();

    assert_eq!(link.url, "https://example.com");
    assert_eq!(link.icon, "globe");
    let read_back = link_from_row(Some(link.url.clone()), Some(link.icon.clone()));
    assert_eq!(read_back, link);
}

#[test]
fn test_update_omitted_field_keeps_existing() {
    let first = resolve_custom_nav_link_update(
        stored_default(),
        &UpdateCustomNavLink {
            url: Some("https://example.com".to_string()),
            icon: Some("globe".to_string()),
        },
    )
    .unwrap();

    let link = resolve_custom_nav_link_update(
        first,
        &UpdateCustomNavLink { url: None, icon: Some("calendar".to_string()) },
    )
    .unwrap();

    assert_eq!(link.url, "https://example.com");
    assert_eq!(link.icon, "calendar");
}

#[test]
fn test_empty_url_hides_button() {
    let link = resolve_custom_nav_link_update(
        stored_default(),
        &UpdateCustomNavLink { url: Some(String::new()), icon: None },
    )
    .unwrap();
    assert_eq!(link.url, "");
}

#[test]
fn test_invalid_scheme_rejected() {
    assert!(resolve_custom_nav_link_update(
        stored_default(),
        &UpdateCustomNavLink { url: Some("javascript:alert(1)".to_string()), icon: None },
    )
    .is_err());
}

#[test]
fn default_link_matches_stored_null_row() {
    assert_eq!(default_custom_nav_link(), stored_default());
    let partial = link_from_row(Some("http://a".to_string()), None);
    assert_eq!(partial.url, "http://a");
    assert_eq!(partial.icon, "printer");
}

#[test]
fn too_long_url_and_icon_are_rejected_with_their_messages() {
    let long_url = format!("https://{}", "a".repeat(2041));
    assert_eq!(long_url.len(), 2049);
    let err = resolve_custom_nav_link_update(
        stored_default(),
        &UpdateCustomNavLink { url: Some(long_url), icon: None },
    )
    .unwrap_err();
    assert_eq!(err, "Invalid custom link url: too long");

    let just_fits = format!("https://{}", "a".repeat(2040));
    assert!(resolve_custom_nav_link_update(
        stored_default(),
        &UpdateCustomNavLink { url: Some(just_fits), icon: None },
    )
    .is_ok());

    let err = resolve_custom_nav_link_update(
        stored_default(),
        &UpdateCustomNavLink { url: None, icon: Some("x".repeat(65)) },
    )
    .unwrap_err();
    assert_eq!(err, "Invalid custom link icon: too long");
}

#[test]
fn url_limit_counts_utf8_bytes() {
    // 1023 two-byte characters plus the scheme exceed 2048 bytes but not 2048 chars.
    let url = format!("https://{}", "é".repeat(1021));
    assert!(url.chars().count() <= 2048);
    assert!(url.len() > 2048);
    assert!(resolve_custom_nav_link_update(
        stored_default(),
        &UpdateCustomNavLink { url: Some(url), icon: None },
    )
    .is_err());
}

#[test]
fn length_is_checked_before_scheme() {
    let err = resolve_custom_nav_link_update(
        stored_default(),
        &UpdateCustomNavLink { url: Some(format!("ftp://{}", "a".repeat(3000))), icon: None },
    )
    .unwrap_err();
    assert_eq!(err, "Invalid custom link url: too long");
}

#[test]
fn every_rejection_maps_to_bad_request_and_accepted_update_is_idempotent() {
    let update = UpdateCustomNavLink { url: Some("mailto:x".to_string()), icon: None };
    let err = resolve_custom_nav_link_update(stored_default(), &update).unwrap_err();
    assert!(matches!(map_update_error(err), AppError::BadRequest(_)));

    let update = UpdateCustomNavLink { url: Some("http://x".to_string()), icon: None };
    let once = resolve_custom_nav_link_update(stored_default(), &update).unwrap();
    let twice = resolve_custom_nav_link_update(once.clone(), &update).unwrap();
    assert_eq!(once, twice);
}
