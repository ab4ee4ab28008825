use backend::external_sql::{
    account_from_row, build_external_client, config_path, count_from_row, default_folder_name,
    default_mysql_port, default_true, item_from_detail_row, items_from_list_rows, list_offset,
    ExternalClient, ExternalConnection, ExternalError, ExternalFolderConfig, ExternalQueries,
    UnconfiguredExternalClient,
};

fn sample_config() -> ExternalFolderConfig {
    ExternalFolderConfig {
        folder_name: "Minha Pasta".to_string(),
        icon: Some("tag".to_string()),
        connection: ExternalConnection {
            host: "h".to_string(),
            port: default_mysql_port(),
            user: "u".to_string(),
            password: "p".to_string(),
            database: "d".to_string(),
            tls: default_true(),
        },
        domains: vec![("example.com".to_string(), 7), ("other.org".to_string(), 9)],
        queries: ExternalQueries {
            verify_account: "a".to_string(),
            count: "b".to_string(),
            list: "c".to_string(),
            detail: "d".to_string(),
        },
    }
}

#[test]
fn config_defaults() {
    assert_eq!(default_folder_name(), "External");
    assert_eq!(default_mysql_port(), 3306);
    assert!(default_true());
}

#[test]
fn config_accessors() {
    let cfg = sample_config();
    assert_eq!(cfg.folder_name(), "Minha Pasta");
    assert_eq!(cfg.icon(), Some("tag"));
}

#[test]
fn system_for_email_uses_domain_after_last_at() {
    let cfg = sample_config();
    assert_eq!(cfg.system_for_email("user@example.com"), Some(7));
    assert_eq!(cfg.system_for_email("User@EXAMPLE.COM"), Some(7));
    assert_eq!(cfg.system_for_email("a@b@other.org "), Some(9));
    assert_eq!(cfg.system_for_email("user@unknown.net"), None);
    // Without an '@' the whole address is taken as the domain.
    assert_eq!(cfg.system_for_email(" example.com"), Some(7));
}

#[test]
fn user_messages() {
    assert_eq!(
        ExternalError::NotConfigured.user_message(),
        "Este recurso não está configurado no servidor."
    );
    assert_eq!(
        ExternalError::Unreachable("secret detail".to_string()).user_message(),
        "Não foi possível conectar ao serviço externo. Tente novamente."
    );
    assert_eq!(
        ExternalError::Query("SQL detail".to_string()).user_message(),
        "Erro ao consultar os dados. Tente novamente."
    );
    assert_eq!(ExternalError::InvalidCredentials.user_message(), "Usuário ou senha inválidos.");
    assert_eq!(
        ExternalError::SystemMismatch.user_message(),
        "Esta conta pertence a outro sistema, diferente do sistema do seu e-mail."
    );
}

#[test]
fn config_path_prefers_non_blank_override() {
    assert_eq!(config_path(&Some("/etc/x.json".to_string()), "/data"), "/etc/x.json");
    assert_eq!(config_path(&Some("   ".to_string()), "/data//"), "/data/external-folder.json");
    assert_eq!(config_path(&None, "/var/lib"), "/var/lib/external-folder.json");
    assert_eq!(config_path(&None, ""), "/external-folder.json");
}

#[test]
fn account_from_row_checks_hash_and_system() {
    let hash = bcrypt::hash("s3cret", 4).unwrap();
    let row = Some((2300u64, Some(hash.clone().into_bytes()), Some(1i64)));
    let ok = account_from_row(row.clone(), "contato@example.com".to_string(), "s3cret").unwrap();
    assert_eq!(ok.id, 2300);
    assert_eq!(ok.system, 1);
    assert_eq!(ok.email, "contato@example.com");

    assert!(matches!(
        account_from_row(row, "x".to_string(), "wrong"),
        Err(ExternalError::InvalidCredentials)
    ));
    assert!(matches!(
        account_from_row(None, "x".to_string(), "s3cret"),
        Err(ExternalError::InvalidCredentials)
    ));
    assert!(matches!(
        account_from_row(Some((1, None, Some(1))), "x".to_string(), "s3cret"),
        Err(ExternalError::InvalidCredentials)
    ));
    assert!(matches!(
        account_from_row(Some((1, Some(hash.into_bytes()), None)), "x".to_string(), "s3cret"),
        Err(ExternalError::InvalidCredentials)
    ));
    assert!(matches!(
        account_from_row(Some((1, Some(b"not a hash".to_vec()), Some(1))), "x".to_string(), ""),
        Err(ExternalError::InvalidCredentials)
    ));
}

#[test]
fn rows_become_items_with_lossy_text() {
    let rows = vec![
        (10u32, b"Item 10".to_vec(), b"Someone".to_vec(), b"2026-01-01".to_vec(), b"sum".to_vec()),
        (11u32, vec![b'a', 0xff, b'b'], b"S".to_vec(), b"D".to_vec(), vec![0xc3, 0xa9]),
    ];
    let items = items_from_list_rows(rows);
    assert_eq!(items.len(), 2);
    assert_eq!(items[0].id, 10);
    assert_eq!(items[0].subject, "Item 10");
    assert_eq!(items[0].sender, "Someone");
    assert_eq!(items[0].snippet, "sum");
    assert_eq!(items[0].body_html, None);
    assert_eq!(items[1].id, 11);
    assert_eq!(items[1].subject, "a\u{fffd}b");
    assert_eq!(items[1].snippet, "é");
}

#[test]
fn detail_row_becomes_item() {
    assert_eq!(item_from_detail_row(None), None);
    let item = item_from_detail_row(Some((
        5,
        b"S".to_vec(),
        b"F".to_vec(),
        b"D".to_vec(),
        Some(b"<b>x</b>".to_vec()),
        None,
    )))
    .unwrap();
    assert_eq!(item.id, 5);
    assert_eq!(item.snippet, "");
    assert_eq!(item.body_html.as_deref(), Some("<b>x</b>"));
    assert_eq!(item.body_text, None);
    assert_eq!(item.image_ref, None);
}

#[test]
fn count_and_offset() {
    assert_eq!(count_from_row(None), 0);
    assert_eq!(count_from_row(Some(42)), 42);
    assert_eq!(list_offset(3, 50), 150);
    assert_eq!(list_offset(u32::MAX, 2), u32::MAX);
    assert_eq!(list_offset(0, u32::MAX), 0);
}

#[test]
fn unconfigured_client_refuses_everything() {
    let c = UnconfiguredExternalClient;
    assert!(!c.is_configured());
    assert_eq!(c.folder_name(), "");
    assert_eq!(c.icon(), None);
    assert_eq!(c.system_for_email("a@example.com"), None);
    assert!(matches!(c.verify_account("a", "b"), Err(ExternalError::NotConfigured)));
    assert!(matches!(c.count(1), Err(ExternalError::NotConfigured)));
    assert!(matches!(c.list(1, 0, 10), Err(ExternalError::NotConfigured)));
    assert!(matches!(c.detail(1, 3), Err(ExternalError::NotConfigured)));
}

#[test]
fn client_choice() {
    assert!(matches!(build_external_client::<u8>(None), ExternalClient::Unconfigured(_)));
    assert!(matches!(
        build_external_client::<u8>(Some(Err("pool".to_string()))),
        ExternalClient::Unconfigured(_)
    ));
    assert!(matches!(build_external_client(Some(Ok(3u8))), ExternalClient::Real(3)));
}

#[test]
fn unknown_email_and_wrong_password_answer_alike() {
    let hash = bcrypt::hash("right", 4).unwrap();
    let unknown = account_from_row(None, "a@b.c".to_string(), "right");
    let wrong = account_from_row(Some((1, Some(hash.into_bytes()), Some(1))), "a@b.c".to_string(), "wrong");
    assert!(matches!(unknown, Err(ExternalError::InvalidCredentials)));
    assert!(matches!(wrong, Err(ExternalError::InvalidCredentials)));
}

#[test]
fn duplicate_free_domain_table_acts_as_map() {
    let cfg = sample_config();
    for (domain, system) in &cfg.domains {
        assert_eq!(cfg.system_for_email(&format!("x@{domain}")), Some(*system));
    }
}
