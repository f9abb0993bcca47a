use bichon::labels::{choose_folder, determine_folder, split_commas};

#[test]
fn business_label_wins() {
    assert_eq!(determine_folder("Inbox, medium"), "medium");
    assert_eq!(determine_folder("Opened,Inbox,Work,Later"), "Work");
}

#[test]
fn generic_label_when_no_business_label() {
    assert_eq!(determine_folder("Sent,Inbox"), "Sent");
    assert_eq!(determine_folder("Unread, Inbox"), "Inbox");
}

#[test]
fn status_labels_fall_back_to_first() {
    assert_eq!(determine_folder("Opened, Unread"), "Opened");
    assert_eq!(determine_folder(" Archived ,Opened"), "Archived");
}

#[test]
fn no_labels_is_unknown() {
    assert_eq!(determine_folder(""), "Unknown");
    assert_eq!(determine_folder(" , ,"), "Unknown");
}

#[test]
fn single_label() {
    assert_eq!(determine_folder("Important"), "Important");
}

#[test]
fn split_keeps_empty_pieces() {
    assert_eq!(split_commas("a,,b,"), vec!["a", "", "b", ""]);
    assert_eq!(split_commas(""), vec![""]);
}

#[test]
fn choose_from_given_labels() {
    let labels = vec!["Opened".to_string(), "Trips".to_string()];
    assert_eq!(choose_folder(&labels), "Trips");
    assert_eq!(choose_folder(&Vec::new()), "Unknown");
}

#[test]
fn labels_trim_unicode_white_space() {
    assert_eq!(determine_folder("\u{3000}Work\u{a0}, Inbox"), "Work");
    assert_eq!(determine_folder("\tOpened\n,\u{2003}"), "Opened");
}
