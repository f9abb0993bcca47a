use std::sync::Arc;

use bichon::error::{ApiError, BichonError, ErrorCode};
use bichon::account::{active_accounts, ensure_pool_account, mailbox_source, AccountSummary, AccountType, MailboxSource};
use bichon::capabilities::{capability_to_string, check_capabilities, Capability};
use bichon::registry::{settle, EmailClientExecutors, EntryOutcome};
use bichon::settings::DataDirManager;
use bichon::status::BichonStatus;
use bichon::transport::{
    connect_timeout_error, effective_request_timeout, parse_proxy_scheme, parse_u64, transport_error,
    ProxyScheme, Timeout,
};

#[test]
fn registry_keeps_first_executor() {
    let registry: EmailClientExecutors<String> = EmailClientExecutors::new(1_000);
    assert!(registry.cached(7).is_none());
    let first = registry.install(7, Arc::new("first pool".to_string())).unwrap();
    let callers: Vec<Arc<String>> = (0..5)
        .map(|i| registry.install(7, Arc::new(format!("pool {}", i))).unwrap())
        .collect();
    for h in &callers {
        assert!(Arc::ptr_eq(h, &first));
    }
    assert!(Arc::ptr_eq(&registry.cached(7).unwrap(), &first));
    assert!(registry.clean_account(7).is_ok());
    assert!(registry.cached(7).is_none());
    assert!(registry.clean_account(7).is_ok());
    assert_eq!(registry.uptime_ms(4_500), 3_500);
}

#[test]
fn settle_picks_the_stored_handle() {
    let stored = Arc::new(1u32);
    let fresh = Arc::new(2u32);
    let r = settle(EntryOutcome::Existing(stored.clone()), fresh.clone()).unwrap();
    assert!(Arc::ptr_eq(&r, &stored));
    let r = settle(EntryOutcome::Inserted, fresh.clone()).unwrap();
    assert!(Arc::ptr_eq(&r, &fresh));
    let e = settle(EntryOutcome::Locked, fresh).unwrap_err();
    assert_eq!(e.code(), ErrorCode::InternalError);
}

#[test]
fn only_enabled_session_accounts_start() {
    let accounts = vec![
        AccountSummary { id: 1, email: "a@x".to_string(), enabled: true, account_type: AccountType::Imap },
        AccountSummary { id: 2, email: "b@x".to_string(), enabled: false, account_type: AccountType::Imap },
        AccountSummary { id: 3, email: "c@x".to_string(), enabled: true, account_type: AccountType::NoSync },
        AccountSummary { id: 4, email: "d@x".to_string(), enabled: true, account_type: AccountType::Imap },
    ];
    let active = active_accounts(&accounts);
    assert_eq!(active, vec![(1, "a@x".to_string()), (4, "d@x".to_string())]);
}

#[test]
fn proxy_schemes() {
    let (s, rest) = parse_proxy_scheme("socks5://127.0.0.1:1080").unwrap();
    assert_eq!(s, ProxyScheme::Socks5);
    assert_eq!(rest, "127.0.0.1:1080");
    let (s, rest) = parse_proxy_scheme("HTTP://10.0.0.1:3128").unwrap();
    assert_eq!(s, ProxyScheme::Http);
    assert_eq!(rest, "10.0.0.1:3128");
    let (s, _) = parse_proxy_scheme("SoCkS5://h:1").unwrap();
    assert_eq!(s, ProxyScheme::Socks5);
    let e = parse_proxy_scheme("ftp://1.2.3.4:21").unwrap_err();
    assert_eq!(e.code(), ErrorCode::InvalidParameter);
    assert_eq!(parse_proxy_scheme("http:/x").unwrap_err().code(), ErrorCode::InvalidParameter);
}

#[test]
fn request_timeout_header() {
    assert_eq!(effective_request_timeout(None), 30);
    assert_eq!(effective_request_timeout(Some("120")), 120);
    assert_eq!(effective_request_timeout(Some("5")), 5);
    assert_eq!(effective_request_timeout(Some("9000")), 600);
    assert_eq!(effective_request_timeout(Some("abc")), 30);
    assert_eq!(effective_request_timeout(Some("-3")), 30);
    let ep = Timeout.transform(());
    assert_eq!(ep.deadline_secs(Some("+45")), 45);
}

#[test]
fn decimal_parsing_matches_std() {
    for s in ["0", "+7", "18446744073709551615", "18446744073709551616", "", "+", "1 2", "00012", "99999999999999999999"] {
        assert_eq!(parse_u64(s), s.parse::<u64>().ok(), "input {:?}", s);
    }
}

#[test]
fn connect_timeout_reports_target_and_bound() {
    let e = connect_timeout_error("10.0.0.2:993", None);
    assert_eq!(e.code(), ErrorCode::ConnectionTimeout);
    let BichonError::Generic { message, .. } = e;
    assert_eq!(message, "TCP connection to 10.0.0.2:993 timed out after 30s");
    let e = connect_timeout_error("10.0.0.2:993", Some("127.0.0.1:1080"));
    let BichonError::Generic { message, .. } = e;
    assert_eq!(message, "SOCKS5 proxy connection to 10.0.0.2:993 via 127.0.0.1:1080 timed out after 30s");
}

#[test]
fn read_stall_is_a_timeout() {
    assert_eq!(transport_error(true, "read timed out".to_string()).code(), ErrorCode::ConnectionTimeout);
    assert_eq!(transport_error(false, "reset".to_string()).code(), ErrorCode::NetworkError);
}

#[test]
fn api_error_text_and_codes() {
    let e = ApiError::new("boom".to_string(), 70000);
    assert_eq!(e.to_text(), "Error(70000): boom");
    let e = ApiError::from_error(BichonError::new("bad".to_string(), ErrorCode::InvalidParameter));
    assert_eq!(e.code, 10000);
    assert_eq!(e.message, "bad");
    assert_eq!(ErrorCode::ConnectionTimeout.status(), 504);
    let e = ApiError::new_with_error_code("plain text", 3);
    assert_eq!(e.message, "plain text");
    assert_eq!(ApiError::new(String::new(), 0).to_text(), "Error(0): ");
}

#[test]
fn status_reports_uptime_text() {
    let s = BichonStatus::get(86_400_000, "+00:00".to_string(), "1.0.0".to_string());
    assert_eq!(s.uptime_ms, 86_400_000);
    assert_eq!(s.timeago, "1 day ago");
    assert_eq!(s.timezone, "+00:00");
    assert_eq!(s.version, "1.0.0");
}

#[test]
fn data_dir_layout() {
    let d = DataDirManager::new("/var/bichon", None, Some("/data/eml".to_string()));
    assert_eq!(d.root_dir, "/var/bichon");
    assert_eq!(d.meta_db, "/var/bichon/meta.db");
    assert_eq!(d.mailbox_db, "/var/bichon/mailbox.db");
    assert_eq!(d.envelope_dir, "/var/bichon/envelope");
    assert_eq!(d.eml_dir, "/data/eml");
    assert_eq!(d.temp_dir, "/var/bichon/tmp");
    assert_eq!(d.log_dir, "/var/bichon/logs");
    assert_eq!(d.tls_cert, "/var/bichon/cert.pem");
    assert_eq!(d.tls_key, "/var/bichon/key.pem");
    let d = DataDirManager::new("/root/", Some("/idx".to_string()), None);
    assert_eq!(d.meta_db, "/root/meta.db");
    assert_eq!(d.envelope_dir, "/idx");
}

fn account(enabled: bool, account_type: AccountType) -> AccountSummary {
    AccountSummary { id: 9, email: "z@x".to_string(), enabled, account_type }
}

#[test]
fn pool_needs_enabled_session_account() {
    assert!(ensure_pool_account(Some(&account(true, AccountType::Imap))).is_ok());
    assert_eq!(ensure_pool_account(None).unwrap_err().code(), ErrorCode::InternalError);
    assert_eq!(
        ensure_pool_account(Some(&account(false, AccountType::Imap))).unwrap_err().code(),
        ErrorCode::InvalidParameter
    );
    assert_eq!(
        ensure_pool_account(Some(&account(true, AccountType::NoSync))).unwrap_err().code(),
        ErrorCode::InvalidParameter
    );
}

#[test]
fn remote_listing_only_for_session_accounts() {
    assert_eq!(mailbox_source(&account(true, AccountType::Imap), true).unwrap(), MailboxSource::Remote);
    assert_eq!(mailbox_source(&account(true, AccountType::Imap), false).unwrap(), MailboxSource::Cache);
    assert_eq!(mailbox_source(&account(true, AccountType::NoSync), false).unwrap(), MailboxSource::Cache);
    assert_eq!(
        mailbox_source(&account(true, AccountType::NoSync), true).unwrap_err().code(),
        ErrorCode::InvalidParameter
    );
}

#[test]
fn capabilities_text_and_check() {
    assert_eq!(capability_to_string(&Capability::Imap4rev1), "IMAP4rev1");
    assert_eq!(capability_to_string(&Capability::Auth("PLAIN".to_string())), "AUTH=PLAIN");
    assert_eq!(capability_to_string(&Capability::Atom("IDLE".to_string())), "IDLE");
    let caps = vec![Capability::Atom("IDLE".to_string()), Capability::Imap4rev1];
    assert!(check_capabilities(&caps).is_ok());
    let caps = vec![Capability::Atom("IMAP4rev1x".to_string())];
    assert_eq!(check_capabilities(&caps).unwrap_err().code(), ErrorCode::Incompatible);
    assert_eq!(check_capabilities(&Vec::new()).unwrap_err().code(), ErrorCode::Incompatible);
}

#[test]
fn error_codes_are_stable() {
    let table = [
        (ErrorCode::InvalidParameter, 10000, 400),
        (ErrorCode::Incompatible, 10010, 400),
        (ErrorCode::RequestTimeout, 10020, 408),
        (ErrorCode::ConnectionTimeout, 50000, 504),
        (ErrorCode::NetworkError, 50010, 502),
        (ErrorCode::ImapCommandFailed, 50020, 502),
        (ErrorCode::ImapUnexpectedResult, 50030, 502),
        (ErrorCode::InternalError, 70000, 500),
    ];
    for (code, number, status) in table {
        assert_eq!(code.number(), number);
        assert_eq!(code.status(), status);
        let api = ApiError::from_error(BichonError::new("x".to_string(), code));
        assert_eq!(api.code, number);
    }
}
