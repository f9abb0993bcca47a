use bichon::mailbox::MailBox;
use bichon::names::{decode_mailbox_name, encode_mailbox_name, is_utf7_decodable};

#[test]
fn decodes_modified_utf7() {
    assert_eq!(decode_mailbox_name("&BB4EQgQ,BEAEMAQyBDsENQQ9BD0ESwQ1-"), "Отправленные");
    assert_eq!(decode_mailbox_name("th&AOkA4g-tre"), "théâtre");
    assert_eq!(decode_mailbox_name("Tom &- Jerry"), "Tom & Jerry");
    assert_eq!(decode_mailbox_name("INBOX"), "INBOX");
}

#[test]
fn undecodable_names_stay_as_sent() {
    assert!(!is_utf7_decodable("&AB*-"));
    assert_eq!(decode_mailbox_name("&AB*-"), "&AB*-");
    assert!(!is_utf7_decodable("&A-"));
    assert_eq!(decode_mailbox_name("&A-"), "&A-");
    assert!(!is_utf7_decodable("&AOl-"));
    assert!(is_utf7_decodable("&AOk-"));
    assert!(is_utf7_decodable("open & never closed"));
}

#[test]
fn encodes_modified_utf7() {
    assert_eq!(encode_mailbox_name("Отправленные"), "&BB4EQgQ,BEAEMAQyBDsENQQ9BD0ESwQ1-");
    assert_eq!(encode_mailbox_name("A&B"), "A&-B");
    let m = MailBox::from_listing("&AWA-iuk&AWE-liad&ARcBfgEX-", Some("/".to_string()), Vec::new());
    assert_eq!(m.name, "Šiukšliadėžė");
    assert_eq!(m.encoded_name(), "&AWA-iuk&AWE-liad&ARcBfgEX-");
}
