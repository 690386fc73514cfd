//! Decisions of the chat client: what it does with the lines its user types,
//! when it shows a message that arrived in the database, and what it sends.

use vstd::prelude::*;
use vstd::string::StringExecFns;

use crate::message::UserData;
use crate::text::{trim, trimmed, without_last, without_last_char};

verus! {

/// The line with which the user leaves the chat.
pub const QUIT_COMMAND: &'static str = ":quit";

/// What the client does with a line that its user typed.
pub enum InputAction {
    /// The user leaves the chat.
    Quit,
    /// The line, without surrounding white space, is sent.
    Send(String),
}

/// What the client does with a line `line` that its user typed: it leaves when the line
/// is `:quit` once surrounding white space is removed, and else sends that trimmed line.
pub fn read_message_line(line: &str) -> (action: InputAction)
    ensures
        match action {
            InputAction::Quit => trimmed(line@) == ":quit"@,
            InputAction::Send(message) => message@ == trimmed(line@) && trimmed(line@) != ":quit"@,
        },
{
    let message = trim(line);
    let quit = String::from_str(QUIT_COMMAND);
    if message == quit {
        InputAction::Quit
    } else {
        InputAction::Send(message)
    }
}

/// The user's name from the line in which it was typed: the line without its last
/// character, the line end.
pub fn user_name_from_line(line: &str) -> (name: String)
    ensures
        name@ == without_last(line@),
{
    without_last_char(line)
}

/// What a look at the database's row count decides.
pub struct RowUpdate {
    /// Whether the newest stored message is shown.
    pub show_newest: bool,
    /// How many rows count as seen after the look.
    pub seen: usize,
}

/// The number of rows seen after a look that found `total` rows when `seen` were seen.
pub open spec fn seen_after(seen: nat, total: nat) -> nat {
    if total > seen {
        seen + 1
    } else {
        seen
    }
}

/// Compares the database's row count `total` against the `seen` rows already shown: when it
/// grew, the newest message is shown and one more row counts as seen.
pub fn observe_rows(seen: usize, total: usize) -> (update: RowUpdate)
    ensures
        update.show_newest == (total > seen),
        update.seen == seen_after(seen as nat, total as nat),
{
    if total > seen {
        RowUpdate { show_newest: true, seen: seen + 1 }
    } else {
        RowUpdate { show_newest: false, seen }
    }
}

/// The number of rows seen after `looks` looks that each found `total` rows, starting
/// from `seen`.
pub open spec fn seen_after_looks(seen: nat, total: nat, looks: nat) -> nat
    decreases looks,
{
    if looks == 0 {
        seen
    } else {
        seen_after_looks(seen_after(seen, total), total, (looks - 1) as nat)
    }
}

/// Catching up: while the row count stays at `total`, each look shows one more of the
/// rows not yet seen, and no look ever counts more rows than there are.
pub proof fn lemma_looks_catch_up(seen: nat, total: nat, looks: nat)
    requires
        seen <= total,
    ensures
        seen_after_looks(seen, total, looks) == (if seen + looks <= total {
            seen + looks
        } else {
            total
        }),
    decreases looks,
{
    if looks > 0 {
        lemma_looks_catch_up(seen_after(seen, total), total, (looks - 1) as nat);
    }
}

/// What the sending side of the client found on the channel of typed messages.
pub enum Outgoing {
    /// A typed message.
    Message(String),
    /// Nothing was typed since the last look.
    Empty,
    /// The typing side is gone.
    Disconnected,
}

/// What the sending side of the client does next.
pub enum SenderAction {
    /// Sends this message to the server.
    Send(UserData),
    /// Waits for the next round.
    Wait,
    /// Stops sending.
    Stop,
}

/// What the sending side of the client does with what it found on the channel: a
/// typed message goes out under the user's name.
pub fn sender_step(user_name: &String, outgoing: Outgoing) -> (action: SenderAction)
    ensures
        match outgoing {
            Outgoing::Message(m) => action matches SenderAction::Send(data) && data.name@
                == user_name@ && data.message@ == m@,
            Outgoing::Empty => action is Wait,
            Outgoing::Disconnected => action is Stop,
        },
{
    match outgoing {
        Outgoing::Message(message) => SenderAction::Send(
            UserData::new(user_name.clone(), message),
        ),
        Outgoing::Empty => SenderAction::Wait,
        Outgoing::Disconnected => SenderAction::Stop,
    }
}

} // verus!
