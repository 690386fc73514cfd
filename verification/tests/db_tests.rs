use chat::db::{insert_query, oldest_first, SELECT_LAST_FIVE, CREATE_USERS_TABLE, CHAT_DB};

#[test]
fn insert_query_holds_name_and_message() {
    assert_eq!(
        insert_query("ann", "hello"),
        "INSERT INTO users VALUES ('ann', 'hello')"
    );
}

#[test]
fn insert_query_keeps_quotes_as_they_are() {
    assert_eq!(
        insert_query("o'neil", "it's"),
        "INSERT INTO users VALUES ('o'neil', 'it's')"
    );
}

#[test]
fn newest_first_rows_are_put_oldest_first() {
    let rows = vec![
        ("c".to_string(), "3".to_string()),
        ("b".to_string(), "2".to_string()),
        ("a".to_string(), "1".to_string()),
    ];
    let ordered = oldest_first(rows);
    assert_eq!(ordered[0].0, "a");
    assert_eq!(ordered[1].0, "b");
    assert_eq!(ordered[2].0, "c");
    assert!(oldest_first(Vec::<u8>::new()).is_empty());
}

#[test]
fn statements_are_those_of_the_chat() {
    assert_eq!(CHAT_DB, "chat.db");
    assert_eq!(SELECT_LAST_FIVE, "SELECT * FROM users ORDER BY ROWID DESC LIMIT 5");
    assert_eq!(
        CREATE_USERS_TABLE,
        "CREATE TABLE if NOT EXISTS users (name CHARFIELD, message TEXT)"
    );
}
