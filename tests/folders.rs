use bichon::error::ErrorCode;
use bichon::folders::{detect_mailbox_changes, get_sync_folders, select_folders, selectable_mailboxes, FolderState};
use bichon::mailbox::{Attribute, AttributeEnum, MailBox};

fn folder(name: &str, attrs: &[AttributeEnum]) -> MailBox {
    let attributes = attrs.iter().map(|a| Attribute::new(*a, None)).collect();
    MailBox::from_listing(name, Some("/".to_string()), attributes)
}

fn names(v: &[&str]) -> Vec<String> {
    v.iter().map(|s| s.to_string()).collect()
}

fn sorted(v: &Option<Vec<String>>) -> Option<Vec<String>> {
    v.as_ref().map(|l| {
        let mut l = l.clone();
        l.sort();
        l
    })
}

fn selected_names(r: &Result<Vec<MailBox>, bichon::error::BichonError>) -> Vec<String> {
    r.as_ref().unwrap().iter().map(|m| m.name.clone()).collect()
}

fn inbox_sent_work() -> Vec<MailBox> {
    vec![
        folder("INBOX", &[]),
        folder("Sent", &[AttributeEnum::Sent]),
        folder("Work", &[]),
    ]
}

#[test]
fn first_run_sets_baseline() {
    let account = FolderState { known_folders: None, sync_folders: None };
    let changes = detect_mailbox_changes(&account, &names(&["INBOX", "Sent", "Work"]));
    assert!(changes.added.is_empty());
    assert!(changes.removed.is_empty());
    assert_eq!(sorted(&changes.known_folders), Some(names(&["INBOX", "Sent", "Work"])));
    assert!(changes.sync_folders.is_none());

    let pass = get_sync_folders(&account, &inbox_sent_work());
    assert_eq!(sorted(&pass.account.known_folders), Some(names(&["INBOX", "Sent", "Work"])));
    assert!(pass.changes.added.is_empty());
    assert!(pass.changes.removed.is_empty());
}

#[test]
fn default_selection_is_inbox_and_sent() {
    let account = FolderState { known_folders: None, sync_folders: None };
    let pass = get_sync_folders(&account, &inbox_sent_work());
    assert_eq!(selected_names(&pass.selected), names(&["INBOX", "Sent"]));
    assert_eq!(pass.account.sync_folders, Some(names(&["INBOX", "Sent"])));
}

#[test]
fn inbox_match_ignores_case() {
    let mbs = vec![folder("inbox", &[]), folder("Other", &[])];
    let r = select_folders(&mbs, &Vec::new());
    assert_eq!(selected_names(&r), names(&["inbox"]));
}

#[test]
fn subscription_takes_precedence() {
    let account = FolderState {
        known_folders: Some(names(&["INBOX", "Sent", "Work"])),
        sync_folders: Some(names(&["Work"])),
    };
    let pass = get_sync_folders(&account, &inbox_sent_work());
    assert_eq!(selected_names(&pass.selected), names(&["Work"]));
    assert_eq!(pass.account.sync_folders, Some(names(&["Work"])));
}

#[test]
fn no_select_folder_never_selected() {
    let mbs = vec![
        folder("INBOX", &[AttributeEnum::NoSelect]),
        folder("Sent", &[AttributeEnum::Sent, AttributeEnum::NoSelect]),
        folder("Work", &[AttributeEnum::NoSelect]),
        folder("Archive", &[]),
    ];
    let subscribed = select_folders(&mbs, &names(&["Work", "Archive"]));
    assert_eq!(selected_names(&subscribed), names(&["Archive"]));
    let by_default = select_folders(&mbs, &Vec::new());
    let err = by_default.unwrap_err();
    assert_eq!(err.code(), ErrorCode::ImapUnexpectedResult);
}

#[test]
fn deleted_subscription_is_dropped() {
    let account = FolderState {
        known_folders: Some(names(&["A", "B"])),
        sync_folders: Some(names(&["A"])),
    };
    let mbs = vec![folder("B", &[]), folder("C", &[])];
    let pass = get_sync_folders(&account, &mbs);
    assert_eq!(sorted(&pass.account.known_folders), Some(names(&["B", "C"])));
    assert_eq!(pass.account.sync_folders, Some(Vec::new()));
    assert_eq!(pass.changes.added, names(&["C"]));
    assert_eq!(pass.changes.removed, names(&["A"]));
    // With the list emptied the default rule applies, and finds nothing here.
    assert_eq!(pass.selected.unwrap_err().code(), ErrorCode::ImapUnexpectedResult);

    // On the next pass, with an inbox present, the defaults are chosen.
    let mbs = vec![folder("B", &[]), folder("C", &[]), folder("INBOX", &[])];
    let next = get_sync_folders(&pass.account, &mbs);
    assert_eq!(selected_names(&next.selected), names(&["INBOX"]));
    assert_eq!(next.account.sync_folders, Some(names(&["INBOX"])));
}

#[test]
fn unchanged_names_write_nothing() {
    let account = FolderState {
        known_folders: Some(names(&["INBOX", "Sent"])),
        sync_folders: Some(names(&["INBOX"])),
    };
    let changes = detect_mailbox_changes(&account, &names(&["Sent", "INBOX", "Sent"]));
    assert!(changes.known_folders.is_none());
    assert!(changes.sync_folders.is_none());
    assert!(changes.added.is_empty());
    assert!(changes.removed.is_empty());
}

#[test]
fn empty_listing_fails() {
    let account = FolderState { known_folders: None, sync_folders: None };
    let pass = get_sync_folders(&account, &Vec::new());
    assert_eq!(pass.selected.unwrap_err().code(), ErrorCode::ImapUnexpectedResult);
    assert!(pass.account.known_folders.is_none());
}

#[test]
fn second_pass_changes_nothing() {
    let account = FolderState { known_folders: None, sync_folders: None };
    let first = get_sync_folders(&account, &inbox_sent_work());
    let second = get_sync_folders(&first.account, &inbox_sent_work());
    assert_eq!(sorted(&first.account.known_folders), sorted(&second.account.known_folders));
    assert_eq!(first.account.sync_folders, second.account.sync_folders);
    assert_eq!(selected_names(&first.selected), selected_names(&second.selected));
    assert!(second.changes.known_folders.is_none());
    assert!(second.changes.sync_folders.is_none());
}

#[test]
fn selectable_skips_no_select() {
    let mbs = vec![
        folder("[Gmail]", &[AttributeEnum::NoSelect, AttributeEnum::Marked]),
        folder("INBOX", &[AttributeEnum::Marked]),
        folder("Drafts", &[AttributeEnum::Drafts]),
    ];
    let names: Vec<String> = selectable_mailboxes(&mbs).iter().map(|m| m.name.clone()).collect();
    assert_eq!(names, vec!["INBOX".to_string(), "Drafts".to_string()]);
}

#[test]
fn subscription_to_unselectable_folder_is_dropped() {
    let account = FolderState {
        known_folders: Some(names(&["A"])),
        sync_folders: Some(names(&["A"])),
    };
    let pass = get_sync_folders(&account, &vec![folder("A", &[AttributeEnum::NoSelect])]);
    assert_eq!(pass.account.sync_folders, Some(Vec::new()));
    assert_eq!(pass.selected.unwrap_err().code(), ErrorCode::ImapUnexpectedResult);

    let mbs = vec![folder("A", &[AttributeEnum::NoSelect]), folder("INBOX", &[])];
    let pass = get_sync_folders(&account, &mbs);
    assert_eq!(selected_names(&pass.selected), names(&["INBOX"]));
    assert_eq!(pass.account.sync_folders, Some(names(&["INBOX"])));
}

#[test]
fn first_run_drops_unlisted_subscriptions() {
    let account = FolderState { known_folders: None, sync_folders: Some(names(&["Gone", "Work"])) };
    let pass = get_sync_folders(&account, &inbox_sent_work());
    assert_eq!(pass.account.sync_folders, Some(names(&["Work"])));
    assert_eq!(selected_names(&pass.selected), names(&["Work"]));
}
