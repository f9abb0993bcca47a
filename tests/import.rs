use bichon::import::{
    eml_folder_name, is_thunderbird_mail_file, thunderbird_mailbox_name, ImportBatches, BATCH_LIMIT,
};

#[test]
fn eml_folders_follow_directories() {
    assert_eq!(eml_folder_name(""), "Inbox");
    assert_eq!(eml_folder_name("Work"), "Work");
    assert_eq!(eml_folder_name("Work\\2024\\Q1"), "Work/2024/Q1");
}

#[test]
fn thunderbird_names_drop_sbd_markers() {
    assert_eq!(thunderbird_mailbox_name("Inbox"), "Inbox");
    assert_eq!(thunderbird_mailbox_name("Inbox.sbd/Work"), "Inbox/Work");
    assert_eq!(thunderbird_mailbox_name("Local.sbd\\Trips.sbd\\Rome"), "Local/Trips/Rome");
    assert_eq!(thunderbird_mailbox_name(".sb.sbdd"), ".sbd");
    assert!(is_thunderbird_mail_file(""));
    assert!(!is_thunderbird_mail_file("msf"));
}

#[test]
fn batches_fill_per_folder() {
    let mut batches = ImportBatches::new();
    let mut sent = Vec::new();
    for i in 0..120 {
        let folder = if i % 3 == 0 { "B" } else { "A" };
        if let Some((name, batch)) = batches.push(folder, format!("m{}", i)) {
            sent.push((name, batch.len()));
        }
    }
    assert_eq!(sent, vec![("A".to_string(), BATCH_LIMIT)]);
    let rest = batches.drain();
    assert_eq!(rest.len(), 2);
    assert_eq!(rest[0].0, "B");
    assert_eq!(rest[0].1.len(), 40);
    assert_eq!(rest[1].0, "A");
    assert_eq!(rest[1].1.len(), 30);
    assert_eq!(rest[0].1[0], "m0");
}
