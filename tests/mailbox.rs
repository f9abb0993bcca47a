use bichon::cache::{delete_mailbox_impl, MailboxStore};
use bichon::error::ErrorCode;
use bichon::mailbox::{mailbox_id, Attribute, AttributeEnum, ExamineInfo, MailBox};

fn stored(account_id: u64, name: &str, delimiter: Option<&str>) -> MailBox {
    let mut m = MailBox::from_listing(name, delimiter.map(|d| d.to_string()), Vec::new());
    m.apply_examine(account_id, ExamineInfo { exists: 0, unseen: None, uid_next: None, uid_validity: None });
    m
}

#[test]
fn mailbox_id_is_stable() {
    assert_eq!(mailbox_id(1, "INBOX"), 16352999512803184012);
    assert_eq!(mailbox_id(0, ""), 12161962213042174405);
    assert_eq!(mailbox_id(7, "Work/Sub"), 14513829845855115690);
    assert_eq!(mailbox_id(7, "Work/Sub"), mailbox_id(7, "Work/Sub"));
    assert_ne!(mailbox_id(1, "INBOX"), mailbox_id(2, "INBOX"));
}

#[test]
fn examine_fills_counters_and_id() {
    let mut m = MailBox::from_listing(
        "Sent",
        Some("/".to_string()),
        vec![Attribute::new(AttributeEnum::Sent, None)],
    );
    assert_eq!(m.id, 0);
    m.apply_examine(3, ExamineInfo { exists: 12, unseen: Some(2), uid_next: Some(40), uid_validity: Some(9) });
    assert_eq!(m.account_id, 3);
    assert_eq!(m.id, mailbox_id(3, "Sent"));
    assert_eq!(m.exists, 12);
    assert_eq!(m.unseen, Some(2));
    assert_eq!(m.uid_next, Some(40));
    assert_eq!(m.uid_validity, Some(9));
    assert!(!m.is_no_select());
}

#[test]
fn cascade_delete_takes_sub_folders_only() {
    let mut store = MailboxStore::new();
    let folders = vec![
        stored(1, "Work", Some("/")),
        stored(1, "Work/Sub", Some("/")),
        stored(1, "Work/Sub/Deep", Some("/")),
        stored(1, "Workshop", Some("/")),
        stored(2, "Work/Sub", Some("/")),
    ];
    MailBox::batch_insert(&mut store, &folders[..4]).unwrap();
    MailBox::batch_upsert(&mut store, &folders[4..]);
    let work = mailbox_id(1, "Work");
    let ids = delete_mailbox_impl(&mut store, 1, work).unwrap();
    assert_eq!(ids, vec![work, mailbox_id(1, "Work/Sub"), mailbox_id(1, "Work/Sub/Deep")]);
    let left: Vec<String> = MailBox::list_all(&store, 1).iter().map(|m| m.name.clone()).collect();
    assert_eq!(left, vec!["Workshop".to_string()]);
    assert_eq!(MailBox::list_all(&store, 2).len(), 1);
}

#[test]
fn cascade_without_delimiter_uses_slash() {
    let mut store = MailboxStore::new();
    MailBox::batch_insert(&mut store, &vec![stored(1, "A", None), stored(1, "A/B", None), stored(1, "A.B", None)])
        .unwrap();
    let ids = delete_mailbox_impl(&mut store, 1, mailbox_id(1, "A")).unwrap();
    assert_eq!(ids.len(), 2);
    assert_eq!(MailBox::list_all(&store, 1)[0].name, "A.B");
}

#[test]
fn missing_mailbox_is_internal_error() {
    let mut store = MailboxStore::new();
    assert_eq!(MailBox::get(&store, 5).unwrap_err().code(), ErrorCode::InternalError);
    assert_eq!(MailBox::delete(&mut store, 5).unwrap_err().code(), ErrorCode::InternalError);
    assert_eq!(delete_mailbox_impl(&mut store, 1, 5).unwrap_err().code(), ErrorCode::InternalError);
}

#[test]
fn insert_rejects_taken_or_repeated_ids() {
    let mut store = MailboxStore::new();
    MailBox::batch_insert(&mut store, &vec![stored(1, "INBOX", None)]).unwrap();
    let again = MailBox::batch_insert(&mut store, &vec![stored(1, "Other", None), stored(1, "INBOX", None)]);
    assert_eq!(again.unwrap_err().code(), ErrorCode::InternalError);
    assert_eq!(MailBox::list_all(&store, 1).len(), 1);
    let twice = MailBox::batch_insert(&mut store, &vec![stored(1, "X", None), stored(1, "X", None)]);
    assert_eq!(twice.unwrap_err().code(), ErrorCode::InternalError);
    assert_eq!(MailBox::list_all(&store, 1).len(), 1);
}

#[test]
fn upsert_replaces_by_id() {
    let mut store = MailboxStore::new();
    MailBox::batch_upsert(&mut store, &vec![stored(1, "INBOX", None)]);
    let mut newer = stored(1, "INBOX", None);
    newer.exists = 42;
    MailBox::batch_upsert(&mut store, &vec![newer, stored(1, "Sent", None)]);
    let all = MailBox::list_all(&store, 1);
    assert_eq!(all.len(), 2);
    assert_eq!(MailBox::get(&store, mailbox_id(1, "INBOX")).unwrap().exists, 42);
}

#[test]
fn clean_removes_one_account() {
    let mut store = MailboxStore::new();
    MailBox::batch_upsert(&mut store, &vec![stored(1, "INBOX", None), stored(2, "INBOX", None), stored(1, "Sent", None)]);
    MailBox::clean(&mut store, 1);
    assert!(MailBox::list_all(&store, 1).is_empty());
    assert_eq!(MailBox::list_all(&store, 2).len(), 1);
    MailBox::delete(&mut store, mailbox_id(2, "INBOX")).unwrap();
    assert!(MailBox::list_all(&store, 2).is_empty());
}
