//! The chat: what the client window keeps and sends, and how the server
//! labels the lines it relays.

use vstd::prelude::*;
use crate::text::{push_str, string_from};

verus! {

/// What the chat window keeps: the lines received so far, oldest first, and
/// the text being typed.
pub struct ChatState {
    pub chat: Vec<String>,
    pub input: String,
}

/// The user asks to send: the button was clicked, or the input field lost
/// the focus while Enter was pressed.
pub open spec fn send_requested(clicked: bool, lost_focus: bool, enter_pressed: bool) -> bool {
    clicked || (lost_focus && enter_pressed)
}

/// A click on the button always asks to send.
pub proof fn law_click_sends(lost_focus: bool, enter_pressed: bool)
    ensures
        send_requested(true, lost_focus, enter_pressed),
{
}

/// Without a click, sending is asked for only when the field lost the focus
/// and Enter was pressed together; a frame with neither a click nor Enter,
/// or with Enter but the focus kept, asks for nothing.
pub proof fn law_without_click_needs_enter_on_focus_loss(lost_focus: bool, enter_pressed: bool)
    ensures
        send_requested(false, lost_focus, enter_pressed) ==> lost_focus,
        send_requested(false, lost_focus, enter_pressed) ==> enter_pressed,
        send_requested(false, true, true),
{
}

/// A frame with no click and no Enter sends nothing and keeps the input.
pub proof fn law_quiet_frame_sends_nothing(lost_focus: bool)
    ensures
        !send_requested(false, lost_focus, false),
{
}

/// Decides whether the user asked to send.
pub fn wants_to_send(clicked: bool, lost_focus: bool, enter_pressed: bool) -> (r: bool)
    ensures
        r == send_requested(clicked, lost_focus, enter_pressed),
{
    clicked || (lost_focus && enter_pressed)
}

impl ChatState {
    /// An empty chat with an empty input.
    pub fn new() -> (s: ChatState)
        ensures
            s.chat@.len() == 0,
            s.input@.len() == 0,
    {
        ChatState { chat: Vec::new(), input: String::new() }
    }

    /// Appends a line received from the server.
    pub fn receive(&mut self, message: String)
        ensures
            final(self).chat@ == old(self).chat@.push(message),
            final(self).input == old(self).input,
    {
        self.chat.push(message);
    }

    /// When sending was asked for and the input is not empty: returns the
    /// input followed by a newline, and empties the input. Otherwise returns
    /// `None` and changes nothing.
    pub fn submit(&mut self, send: bool) -> (out: Option<String>)
        ensures
            final(self).chat == old(self).chat,
            send && old(self).input@.len() > 0 ==> {
                &&& out matches Some(m) && m@ == old(self).input@.push('\n')
                &&& final(self).input@.len() == 0
            },
            !(send && old(self).input@.len() > 0) ==> {
                &&& out is None
                &&& final(self).input == old(self).input
            },
    {
        if send && !self.input.as_str().is_empty() {
            let mut message = string_from(self.input.as_str());
            push_str(&mut message, "\n");
            proof {
                reveal_strlit("\n");
            }
            self.input = String::new();
            Some(message)
        } else {
            None
        }
    }
}

/// The line the server relays for a message: the sender's address, a colon
/// and a space, and the message.
pub fn relay_line(sender: &str, text: &str) -> (r: String)
    ensures
        r@ == sender@ + ": "@ + text@,
{
    let mut line = string_from(sender);
    push_str(&mut line, ": ");
    push_str(&mut line, text);
    line
}

} // verus!
