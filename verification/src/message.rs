use vstd::prelude::*;

verus! {

/// What a client sends for every line its user writes: who wrote it, and what.
#[derive(Clone, Debug)]
pub struct UserData {
    pub name: String,
    pub message: String,
}

/// A received message together with the address of the connection it came from.
#[derive(Debug)]
pub struct UserID {
    pub id: String,
    pub data: UserData,
}

impl UserData {
    /// The message `message` written by `name`.
    pub fn new(name: String, message: String) -> (data: UserData)
        ensures
            data.name@ == name@,
            data.message@ == message@,
    {
        UserData { name, message }
    }
}

impl UserID {
    /// Tags `data` with the address `id` of the connection that delivered it.
    pub fn new(id: String, data: UserData) -> (user: UserID)
        ensures
            user.id@ == id@,
            user.data == data,
    {
        UserID { id, data }
    }
}

} // verus!
