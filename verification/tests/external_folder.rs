use backend::error::AppError;
use backend::external_folder::{
    active_folder_system, build_status, check_verified_account, connect_precheck,
    default_external_folder_settings, escape_html, external_error_to_app, image_data_uri,
    image_fetch_target, image_media_type, image_request_url, image_response_acceptable,
    item_not_found, item_to_detail, item_to_summary, list_response, normalize_base_url,
    plan_settings_update, settings_from_row, status_count_target, ExternalFolderSettings,
    UpdateExternalFolderRequest,
};
use backend::external_sql::{ExternalError, ExternalItem, VerifiedAccount};

fn sample_item() -> ExternalItem {
    ExternalItem {
        id: 10,
        subject: "Item 10".to_string(),
        sender: "Someone".to_string(),
        date: "2026-01-01T00:00:00".to_string(),
        snippet: "summary".to_string(),
        body_html: None,
        body_text: Some("body".to_string()),
        image_ref: None,
    }
}

fn connected(enabled: bool) -> ExternalFolderSettings {
    ExternalFolderSettings {
        enabled,
        account_id: Some(2300),
        account_email: Some("contato@example.com".to_string()),
        system: Some(1),
        base_url: Some("https://img/".to_string()),
        connected_at: Some("2026-01-01T00:00:00Z".to_string()),
    }
}

#[test]
fn summary_maps_fields() {
    let summary = item_to_summary(&sample_item(), "Custom", "folder-id");
    assert_eq!(summary.uid, 10);
    assert_eq!(summary.subject, "Item 10");
    assert_eq!(summary.from_name, "Someone");
    assert_eq!(summary.folder_name, "Custom");
}

#[test]
fn detail_escapes_text_fallback() {
    let mut item = sample_item();
    item.body_text = Some("<script>x</script>".to_string());
    let detail = item_to_detail(&item, "Custom", "folder-id", None);
    let html = detail.html.unwrap();
    assert!(!html.contains("<script>"));
    assert!(html.contains("&lt;script&gt;"));
}

#[test]
fn defaults_to_disabled() {
    let settings = default_external_folder_settings();
    assert!(!settings.enabled);
    assert_eq!(settings.system, None);
}

#[test]
fn settings_row_flag() {
    let s = settings_from_row(1, Some(2300), None, Some("https://img/".to_string()), Some(1), None);
    assert!(s.enabled);
    assert_eq!(s.account_id, Some(2300));
    assert_eq!(s.base_url.as_deref(), Some("https://img/"));
    assert!(!settings_from_row(0, None, None, None, None, None).enabled);
}

#[test]
fn escape_html_replaces_all_four() {
    assert_eq!(escape_html("a & b < c > d \"e\" 'f'"), "a &amp; b &lt; c &gt; d &quot;e&quot; 'f'");
    assert_eq!(escape_html("&lt;"), "&amp;lt;");
    assert_eq!(escape_html(""), "");
}

#[test]
fn detail_html_layout() {
    let mut item = sample_item();
    let detail = item_to_detail(&item, "Custom", "fid", Some("data:image/png;base64,AA==".to_string()));
    assert_eq!(
        detail.html.as_deref(),
        Some("<div style=\"margin-bottom:12px;\"><img src=\"data:image/png;base64,AA==\" alt=\"image\" style=\"max-width:100%;height:auto;border-radius:6px;\" /></div><pre style=\"white-space: pre-wrap; word-break: break-word; font-family: inherit;\">body</pre>")
    );
    assert_eq!(detail.text.as_deref(), Some("body"));
    assert_eq!(detail.folder_id, "fid");

    item.body_html = Some("<p>rich</p>".to_string());
    item.body_text = None;
    let detail = item_to_detail(&item, "Custom", "fid", None);
    assert_eq!(detail.html.as_deref(), Some("<p>rich</p>"));
    assert_eq!(detail.text.as_deref(), Some("summary"));
}

#[test]
fn error_mapping() {
    for (err, bad_request) in [
        (ExternalError::NotConfigured, false),
        (ExternalError::Unreachable("x".into()), false),
        (ExternalError::Query("y".into()), false),
        (ExternalError::InvalidCredentials, true),
        (ExternalError::SystemMismatch, true),
    ] {
        let message = err.user_message();
        match external_error_to_app(err) {
            AppError::BadRequest(m) => {
                assert!(bad_request);
                assert_eq!(m, message);
            }
            AppError::ServiceUnavailable(m) => {
                assert!(!bad_request);
                assert_eq!(m, message);
            }
            other => panic!("unexpected {other:?}"),
        }
    }
}

#[test]
fn status_counts_only_active_available_folder() {
    let settings = connected(true);
    assert_eq!(status_count_target(&settings, true, Some(1)), Some(1));
    assert_eq!(status_count_target(&settings, false, Some(1)), None);
    assert_eq!(status_count_target(&settings, true, None), None);
    assert_eq!(status_count_target(&connected(false), true, Some(1)), None);

    let status = build_status(settings, true, "Custom", Some(1), Some(Ok(32)));
    assert!(status.configured && status.available && status.enabled && status.connected);
    assert_eq!(status.folder_name.as_deref(), Some("Custom"));
    assert_eq!(status.count, 32);
    assert_eq!(status.system, Some(1));

    let failed = build_status(connected(true), true, "Custom", Some(1), Some(Err(ExternalError::Query("q".into()))));
    assert_eq!(failed.count, 0);

    let off = build_status(default_external_folder_settings(), false, "ignored", Some(4), None);
    assert!(!off.configured && !off.available && !off.connected);
    assert_eq!(off.folder_name, None);
    assert_eq!(off.system, Some(4));
    assert_eq!(off.count, 0);
}

#[test]
fn base_url_normalization() {
    assert!(matches!(normalize_base_url(None), Ok(None)));
    assert!(matches!(normalize_base_url(Some("   ")), Ok(None)));
    assert_eq!(normalize_base_url(Some(" https://host/THUMBS ")).unwrap().as_deref(), Some("https://host/THUMBS/"));
    assert_eq!(normalize_base_url(Some("http://host/")).unwrap().as_deref(), Some("http://host/"));
    match normalize_base_url(Some("not a url")) {
        Err(AppError::BadRequest(m)) => assert_eq!(m, "URL base inválida."),
        other => panic!("unexpected {other:?}"),
    }
    match normalize_base_url(Some("ftp://host/")) {
        Err(AppError::BadRequest(m)) => assert_eq!(m, "A URL base deve começar com http:// ou https://."),
        other => panic!("unexpected {other:?}"),
    }
    // The scheme is compared as the URL parser reports it, in lower case.
    assert_eq!(normalize_base_url(Some("HTTPS://Host")).unwrap().as_deref(), Some("HTTPS://Host/"));
}

#[test]
fn connect_checks() {
    assert!(matches!(connect_precheck(false, Some(1), "u", "p"), Err(AppError::ServiceUnavailable(_))));
    match connect_precheck(true, None, "u", "p") {
        Err(AppError::BadRequest(m)) => {
            assert_eq!(m, "O domínio do seu e-mail não está habilitado para este recurso.")
        }
        other => panic!("unexpected {other:?}"),
    }
    match connect_precheck(true, Some(1), "   ", "p") {
        Err(AppError::BadRequest(m)) => assert_eq!(m, "Informe usuário e senha."),
        other => panic!("unexpected {other:?}"),
    }
    assert!(matches!(connect_precheck(true, Some(1), "u", ""), Err(AppError::BadRequest(_))));
    let (system, user) = connect_precheck(true, Some(3), "  joao ", "p").unwrap();
    assert_eq!(system, 3);
    assert_eq!(user, "joao");

    let account = VerifiedAccount { id: 1, system: 3, email: "joao".to_string() };
    assert_eq!(check_verified_account(Ok(account.clone()), 3).unwrap(), account);
    match check_verified_account(Ok(account), 4) {
        Err(AppError::BadRequest(m)) => {
            assert_eq!(m, "Esta conta pertence a outro sistema, diferente do sistema do seu e-mail.")
        }
        other => panic!("unexpected {other:?}"),
    }
    assert!(matches!(
        check_verified_account(Err(ExternalError::Unreachable("down".into())), 3),
        Err(AppError::ServiceUnavailable(_))
    ));
}

#[test]
fn settings_update_plan() {
    let disconnected = default_external_folder_settings();
    match plan_settings_update(&disconnected, &UpdateExternalFolderRequest { enabled: Some(true), base_url: None }) {
        Err(AppError::BadRequest(m)) => assert_eq!(m, "Conecte uma conta antes de ativar."),
        other => panic!("unexpected {other:?}"),
    }
    let plan = plan_settings_update(&disconnected, &UpdateExternalFolderRequest { enabled: Some(false), base_url: None }).unwrap();
    assert_eq!(plan.enabled, Some(false));
    assert!(plan.base_url.is_none());

    let plan = plan_settings_update(
        &connected(false),
        &UpdateExternalFolderRequest { enabled: Some(true), base_url: Some("https://h/img".to_string()) },
    )
    .unwrap();
    assert_eq!(plan.enabled, Some(true));
    assert_eq!(plan.base_url, Some(Some("https://h/img/".to_string())));

    let plan = plan_settings_update(&connected(true), &UpdateExternalFolderRequest { enabled: None, base_url: Some(String::new()) }).unwrap();
    assert_eq!(plan.base_url, Some(None));

    assert!(matches!(
        plan_settings_update(&connected(true), &UpdateExternalFolderRequest { enabled: None, base_url: Some("gopher://x".to_string()) }),
        Err(AppError::BadRequest(_))
    ));
}

#[test]
fn active_system_and_not_found() {
    assert_eq!(active_folder_system(&connected(true)).unwrap(), 1);
    match active_folder_system(&connected(false)) {
        Err(AppError::NotFound(m)) => assert_eq!(m, "A pasta não está ativa."),
        other => panic!("unexpected {other:?}"),
    }
    match item_not_found(4021) {
        AppError::NotFound(m) => assert_eq!(m, "Item 4021 não encontrado"),
        other => panic!("unexpected {other:?}"),
    }
    match item_not_found(0) {
        AppError::NotFound(m) => assert_eq!(m, "Item 0 não encontrado"),
        other => panic!("unexpected {other:?}"),
    }
    match item_not_found(u32::MAX) {
        AppError::NotFound(m) => assert_eq!(m, format!("Item {} não encontrado", u32::MAX)),
        other => panic!("unexpected {other:?}"),
    }
}

#[test]
fn listing_page() {
    let items = vec![sample_item(), ExternalItem { id: 11, ..sample_item() }];
    let page = list_response(&items, Ok(32), "Custom", "fid", 2, 10);
    assert_eq!(page.messages.len(), 2);
    assert_eq!(page.messages[1].uid, 11);
    assert_eq!(page.messages[0].to_addresses, "[]");
    assert_eq!(page.messages[0].thread_count, 1);
    assert_eq!(page.total_count, 32);
    assert_eq!(page.page, 2);
    assert_eq!(page.per_page, 10);
    assert!(!page.syncing);
    let fallback = list_response(&items, Err(ExternalError::Query("q".into())), "Custom", "fid", 0, 10);
    assert_eq!(fallback.total_count, 2);
    let wrapped = list_response(&items, Ok(u64::from(u32::MAX) + 5), "Custom", "fid", 0, 10);
    assert_eq!(wrapped.total_count, 4);
}

#[test]
fn image_helpers() {
    let base = Some("https://img/".to_string());
    assert_eq!(image_fetch_target(&base, &Some("a.jpg".to_string())), Some(("https://img/", "a.jpg")));
    assert_eq!(image_fetch_target(&base, &Some("  ".to_string())), None);
    assert_eq!(image_fetch_target(&None, &Some("a.jpg".to_string())), None);

    assert_eq!(image_request_url("https://img/", "//p/a.jpg").as_deref(), Some("https://img/p/a.jpg"));
    assert_eq!(image_request_url("file:///", "etc/passwd"), None);
    assert_eq!(image_request_url("", "nothing"), None);

    assert!(image_response_acceptable(true, None));
    assert!(image_response_acceptable(true, Some(8 * 1024 * 1024)));
    assert!(!image_response_acceptable(true, Some(8 * 1024 * 1024 + 1)));
    assert!(!image_response_acceptable(false, Some(1)));

    assert_eq!(image_media_type(Some("image/png")), "image/png");
    assert_eq!(image_media_type(Some("image/svg+xml")), "image/svg+xml");
    assert_eq!(image_media_type(Some("image/png; x=\"y\"")), "image/jpeg");
    assert_eq!(image_media_type(Some("text/html")), "image/jpeg");
    assert_eq!(image_media_type(None), "image/jpeg");

    assert_eq!(image_data_uri(Some("image/gif"), b"hi").as_deref(), Some("data:image/gif;base64,aGk="));
    assert_eq!(image_data_uri(None, b"").as_deref(), Some("data:image/jpeg;base64,"));
    let too_big = vec![0u8; 8 * 1024 * 1024 + 1];
    assert_eq!(image_data_uri(None, &too_big), None);
}

#[test]
fn data_uri_is_attribute_safe() {
    let uri = image_data_uri(Some("image/png"), &[0xfb, 0xff, 0x3e, 0x00]).unwrap();
    assert!(uri.starts_with("data:image/"));
    assert!(!uri.contains(|c: char| c == '"' || c == '<' || c == '>' || c.is_whitespace()));
    assert_eq!(uri, "data:image/png;base64,+/8+AA==");
}

#[test]
fn normalizing_twice_changes_nothing() {
    let once = normalize_base_url(Some("  https://host/THUMBS ")).unwrap().unwrap();
    let twice = normalize_base_url(Some(&once)).unwrap().unwrap();
    assert_eq!(once, twice);
}

#[test]
fn connection_record_copies_the_account() {
    let record = backend::external_folder::connection_record(
        VerifiedAccount { id: 2300, system: 1, email: "contato@example.com".to_string() },
        Some("https://img/".to_string()),
    );
    assert_eq!(record.account_id, 2300);
    assert_eq!(record.account_email, "contato@example.com");
    assert_eq!(record.system, 1);
    assert_eq!(record.base_url.as_deref(), Some("https://img/"));
    let wrapped = backend::external_folder::connection_record(
        VerifiedAccount { id: u64::MAX, system: 1, email: String::new() },
        None,
    );
    assert_eq!(wrapped.account_id, -1);
}
