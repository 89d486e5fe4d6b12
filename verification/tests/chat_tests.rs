use rusty_suite::chat::{relay_line, wants_to_send, ChatState};

#[test]
fn send_is_asked_by_click_or_enter_on_leaving_the_field() {
    assert!(wants_to_send(true, false, false));
    assert!(wants_to_send(false, true, true));
    assert!(!wants_to_send(false, true, false));
    assert!(!wants_to_send(false, false, true));
}

#[test]
fn submit_sends_the_input_with_a_newline() {
    let mut s = ChatState::new();
    s.input = String::from("hi there");
    assert_eq!(s.submit(true), Some(String::from("hi there\n")));
    assert_eq!(s.input, "");
    assert_eq!(s.submit(true), None);
}

#[test]
fn submit_without_request_keeps_the_input() {
    let mut s = ChatState::new();
    s.input = String::from("draft");
    assert_eq!(s.submit(false), None);
    assert_eq!(s.input, "draft");
}

#[test]
fn received_lines_are_kept_in_order() {
    let mut s = ChatState::new();
    s.receive(String::from("a\n"));
    s.receive(String::from("b\n"));
    assert_eq!(s.chat, vec![String::from("a\n"), String::from("b\n")]);
}

#[test]
fn relayed_lines_name_the_sender() {
    assert_eq!(relay_line("127.0.0.1:5000", "hello\n"), "127.0.0.1:5000: hello\n");
}
