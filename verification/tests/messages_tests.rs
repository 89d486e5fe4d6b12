use rusty_suite::messages::{missing_file_message, purchase_message, AckCounter};

#[test]
fn acknowledgements_count_up() {
    let mut c = AckCounter::new();
    assert_eq!(c.acknowledge(), "ACK: Server recieved 1 messages.");
    assert_eq!(c.acknowledge(), "ACK: Server recieved 2 messages.");
    assert_eq!(c.received(), 2);
}

#[test]
fn purchase_reply_spells_the_flag() {
    assert_eq!(purchase_message("milk", true), "Added milk with status if purchased on true.");
    assert_eq!(purchase_message("eggs", false), "Added eggs with status if purchased on false.");
}

#[test]
fn missing_file_notice_names_the_path() {
    assert_eq!(
        missing_file_message("data.txt"),
        "File <data.txt> does not exists, or is in different directory"
    );
}
