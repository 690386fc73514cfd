//! The chat's database: where it lives, and the statements run on it.
//!
//! Messages are rows `(name, message)` of the table `users`, in the order in
//! which they were written.

use vstd::prelude::*;
use vstd::string::StringExecFns;

verus! {

/// The file in which the clients keep the chat.
pub const CHAT_DB: &'static str = "chat.db";

/// The file that the relay receiver opens for its own copy of the chat.
pub const RECEIVER_DB: &'static str = ":memory";

/// Creates the table of messages unless it exists.
pub const CREATE_USERS_TABLE: &'static str = "CREATE TABLE if NOT EXISTS users (name CHARFIELD, message TEXT)";

/// Drops the table of messages.
pub const DROP_USERS_TABLE: &'static str = "DROP TABLE users";

/// Selects every message, oldest first.
pub const SELECT_ALL: &'static str = "SELECT * FROM users";

/// Selects the five newest messages, newest first.
pub const SELECT_LAST_FIVE: &'static str = "SELECT * FROM users ORDER BY ROWID DESC LIMIT 5";

/// Selects the newest message.
pub const SELECT_LAST: &'static str = "SELECT * FROM users ORDER BY ROWID DESC LIMIT 1";

/// The statement that stores the message `message` of `name`:
/// `INSERT INTO users VALUES ('{name}', '{message}')`. The two texts stand in it as
/// they are, quotes included.
pub open spec fn insert_statement(name: Seq<char>, message: Seq<char>) -> Seq<char> {
    "INSERT INTO users VALUES ('"@ + name + "', '"@ + message + "')"@
}

/// The statement holds both texts whole: 27 characters of `INSERT INTO users VALUES ('`,
/// then the name, then 4 characters `', '`, then the message, then the closing `')`, so
/// its length is the two lengths plus 33, whatever they are.
pub proof fn lemma_insert_statement_holds_both_texts(name: Seq<char>, message: Seq<char>)
    ensures
        insert_statement(name, message).len() == name.len() as int + message.len() as int + 33,
        insert_statement(name, message).subrange(27, 27 + name.len() as int) == name,
        insert_statement(name, message).subrange(
            31 + name.len() as int,
            31 + name.len() as int + message.len() as int,
        ) == message,
        insert_statement(name, message).subrange(
            31 + name.len() as int + message.len() as int,
            33 + name.len() as int + message.len() as int,
        ) == seq!['\'', ')'],
{
    reveal_strlit("INSERT INTO users VALUES ('");
    reveal_strlit("', '");
    reveal_strlit("')");
    let st = insert_statement(name, message);
    assert(st.subrange(27, 27 + name.len() as int) =~= name);
    assert(st.subrange(31 + name.len() as int, 31 + name.len() as int + message.len() as int) =~= message);
    assert(st.subrange(31 + name.len() as int + message.len() as int, 33 + name.len() as int + message.len() as int)
        =~= seq!['\'', ')']);
}

/// The statement that stores the message `message` of `name`.
pub fn insert_query(name: &str, message: &str) -> (query: String)
    ensures
        query@ == insert_statement(name@, message@),
{
    let mut query = String::from_str("INSERT INTO users VALUES ('");
    query.append(name);
    query.append("', '");
    query.append(message);
    query.append("')");
    query
}

/// Puts rows read newest first into the order in which they were written.
pub fn oldest_first<T>(rows: Vec<T>) -> (ordered: Vec<T>)
    ensures
        ordered@ == rows@.reverse(),
{
    let mut rows = rows;
    let mut ordered: Vec<T> = Vec::new();
    let ghost original = rows@;
    while rows.len() > 0
        invariant
            rows@ == original.take(rows.len() as int),
            rows.len() <= original.len(),
            ordered@ == original.reverse().take(original.len() - rows.len()),
        decreases rows.len(),
    {
        let row = rows.pop().unwrap();
        ordered.push(row);
        assert(rows@ =~= original.take(rows.len() as int));
        assert(ordered@ =~= original.reverse().take(original.len() - rows.len()));
    }
    assert(ordered@ =~= original.reverse());
    ordered
}

} // verus!
