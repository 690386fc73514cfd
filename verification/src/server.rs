//! Decisions of the relay server: what it does with what a connection delivered,
//! and which clients it keeps after a broadcast.

use vstd::prelude::*;

use crate::frame::{decode_frame, frame_text};
use crate::text::{id_tag, quoted};

verus! {

/// What reading one frame from a connection gave.
pub enum ReadOutcome {
    /// A whole frame.
    Frame(Vec<u8>),
    /// Nothing yet; the connection does not block.
    WouldBlock,
    /// The read failed: the connection is gone.
    Failed,
}

/// What the server does with a connection after a read.
pub enum ConnectionStep {
    /// The frame carried this text, which is passed on.
    Deliver(String),
    /// The frame's bytes are not UTF-8.
    Undecodable,
    /// Tries again later.
    Retry,
    /// Closes the connection.
    Close,
}

/// What the server does after reading from a connection: a frame's text is passed on,
/// an empty read is retried and a failed read closes the connection.
pub fn connection_step(outcome: ReadOutcome) -> (step: ConnectionStep)
    ensures
        match outcome {
            ReadOutcome::Frame(buf) => match frame_text(buf@) {
                Some(t) => step matches ConnectionStep::Deliver(s) && s@ == t,
                None => step is Undecodable,
            },
            ReadOutcome::WouldBlock => step is Retry,
            ReadOutcome::Failed => step is Close,
        },
{
    match outcome {
        ReadOutcome::Frame(buf) => match decode_frame(&buf) {
            Ok(text) => ConnectionStep::Deliver(text),
            Err(_) => ConnectionStep::Undecodable,
        },
        ReadOutcome::WouldBlock => ConnectionStep::Retry,
        ReadOutcome::Failed => ConnectionStep::Close,
    }
}

/// The items of `items` whose entry in `delivered` is true, in order.
pub open spec fn kept<T>(items: Seq<T>, delivered: Seq<bool>) -> Seq<T>
    decreases items.len(),
{
    if items.len() == 0 {
        Seq::empty()
    } else {
        let rest = kept(items.drop_last(), delivered.take(items.len() - 1));
        if delivered[items.len() - 1] {
            rest.push(items.last())
        } else {
            rest
        }
    }
}

/// Each item paired with its flag.
pub open spec fn paired<T>(items: Seq<T>, delivered: Seq<bool>) -> Seq<(T, bool)> {
    Seq::new(items.len(), |i: int| (items[i], delivered[i]))
}

/// Whether a pair's flag is set.
pub open spec fn flag_set<T>() -> spec_fn((T, bool)) -> bool {
    |p: (T, bool)| p.1
}

/// The item of a pair.
pub open spec fn item_of<T>() -> spec_fn((T, bool)) -> T {
    |p: (T, bool)| p.0
}

/// Whether a flag is set.
pub open spec fn is_set() -> spec_fn(bool) -> bool {
    |b: bool| b
}

/// An item is kept exactly when its flag is set, in order: what is kept is the items of
/// the pairs whose flag is set, and there are as many of them as set flags.
pub proof fn lemma_kept_exactly_the_delivered<T>(items: Seq<T>, delivered: Seq<bool>)
    requires
        items.len() == delivered.len(),
    ensures
        kept(items, delivered) == paired(items, delivered).filter(flag_set::<T>()).map_values(
            item_of::<T>(),
        ),
        kept(items, delivered).len() == delivered.filter(is_set()).len(),
    decreases items.len(),
{
    reveal(Seq::filter);
    let pairs = paired(items, delivered);
    if items.len() == 0 {
        assert(pairs.filter(flag_set::<T>()).map_values(item_of::<T>()) =~= Seq::<T>::empty());
    } else {
        let n = items.len() as int;
        let rest_items = items.drop_last();
        let rest_flags = delivered.take(n - 1);
        lemma_kept_exactly_the_delivered(rest_items, rest_flags);
        assert(pairs.drop_last() =~= paired(rest_items, rest_flags));
        assert(delivered.drop_last() =~= rest_flags);
        assert(pairs.last() == (items.last(), delivered[n - 1]));
        let rest_kept = pairs.drop_last().filter(flag_set::<T>());
        if delivered[n - 1] {
            assert(rest_kept.push(pairs.last()).map_values(item_of::<T>()) =~= rest_kept.map_values(
                item_of::<T>(),
            ).push(items.last()));
        }
    }
}

/// A broadcast that reached every client keeps every client, in order.
pub proof fn lemma_all_delivered_keeps_all<T>(items: Seq<T>, delivered: Seq<bool>)
    requires
        items.len() == delivered.len(),
        forall|i: int| 0 <= i < delivered.len() ==> delivered[i],
    ensures
        kept(items, delivered) == items,
    decreases items.len(),
{
    if items.len() > 0 {
        let n = items.len() as int;
        lemma_all_delivered_keeps_all(items.drop_last(), delivered.take(n - 1));
        assert(items.drop_last().push(items.last()) =~= items);
    }
}

/// The clients that stay connected after a broadcast: those to which the frame was
/// delivered (`delivered[i]` tells it of `clients[i]`), in their order.
pub fn retain_delivered<T>(clients: Vec<T>, delivered: &Vec<bool>) -> (kept_clients: Vec<T>)
    requires
        delivered@.len() == clients@.len(),
    ensures
        kept_clients@ == kept(clients@, delivered@),
{
    let ghost original = clients@;
    let mut rest = clients;
    let mut reversed: Vec<T> = Vec::new();
    proof {
        assert(delivered@.take(rest.len() as int) =~= delivered@);
        assert(rest@ =~= original.take(rest.len() as int));
        assert(kept(original, delivered@) + reversed@.reverse() =~= kept(original, delivered@));
    }
    while rest.len() > 0
        invariant
            delivered@.len() == original.len(),
            rest.len() <= original.len(),
            rest@ == original.take(rest.len() as int),
            kept(original, delivered@) == kept(
                rest@,
                delivered@.take(rest.len() as int),
            ) + reversed@.reverse(),
        decreases rest.len(),
    {
        let ghost before = reversed@;
        let n = rest.len();
        let client = rest.pop().unwrap();
        proof {
            let prefix = original.take(n as int);
            let flags = delivered@.take(n as int);
            assert(prefix.drop_last() =~= original.take(rest.len() as int));
            assert(flags.take(n - 1) =~= delivered@.take(rest.len() as int));
            assert(prefix.last() == client);
        }
        if delivered[n - 1] {
            reversed.push(client);
            assert(reversed@.reverse() =~= seq![client] + before.reverse());
        }
        assert(rest@ =~= original.take(rest.len() as int));
    }
    proof {
        assert(kept(rest@, delivered@.take(0)) =~= Seq::<T>::empty());
        assert(kept(original, delivered@) =~= reversed@.reverse());
    }
    crate::db::oldest_first(reversed)
}

/// The JSON object of strings that `text` holds, as a map from keys to values, or `None`
/// where `text` is not such an object, as `serde_json::from_str` into a
/// `HashMap<String, String>` reads it.
pub uninterp spec fn json_string_object(text: Seq<char>) -> Option<Map<Seq<char>, Seq<char>>>;

/// `serde_json::from_str::<HashMap<String, String>>` of serde_json, with the map's entries
/// listed: one entry per key of the object that `text` holds, with its value, or `None`
/// where `text` is not such an object. The object itself is only named; the order of the
/// entries follows the map's hasher and is left open.
#[verifier::external_body]
fn string_object_entries(text: &str) -> (entries: Option<Vec<(String, String)>>)
    ensures
        entries is Some <==> json_string_object(text@) is Some,
        entries matches Some(v) ==> {
            &&& v.len() == json_string_object(text@).unwrap().dom().len()
            &&& forall|i: int|
                0 <= i < v.len() ==> json_string_object(text@).unwrap().dom().contains(
                    (#[trigger] v[i]).0@,
                ) && json_string_object(text@).unwrap()[v[i].0@] == v[i].1@
            &&& forall|i: int, j: int|
                0 <= i < j < v.len() ==> (#[trigger] v[i]).0@ != (#[trigger] v[j]).0@
        },
{
    match serde_json::from_str::<std::collections::HashMap<String, String>>(text) {
        Ok(m) => Some(m.into_iter().collect()),
        Err(_) => None,
    }
}

/// Whether `lines` lists the object `object` of a message that came from `addr`: one line
/// per key, each the key, the tag of the connection and the key's value in quotes, with no
/// key twice (in any order).
pub open spec fn lists_object(
    lines: Seq<(String, String, String)>,
    object: Map<Seq<char>, Seq<char>>,
    addr: Seq<char>,
) -> bool {
    &&& lines.len() == object.dom().len()
    &&& forall|i: int|
        0 <= i < lines.len() ==> {
            &&& object.dom().contains((#[trigger] lines[i]).0@)
            &&& lines[i].1@ == "(ID: "@ + addr + ")"@
            &&& lines[i].2@ == "\""@ + object[lines[i].0@] + "\""@
        }
    &&& forall|i: int, j: int|
        0 <= i < j < lines.len() ==> (#[trigger] lines[i]).0@ != (#[trigger] lines[j]).0@
}

/// The lines in which the server shows a message `text` that came from `addr` as an
/// object of strings: for each key, the key, the tag of the connection and the value in
/// quotes; `None` where `text` is not a JSON object of strings.
pub fn object_lines(text: &str, addr: &str) -> (lines: Option<Vec<(String, String, String)>>)
    ensures
        lines is Some <==> json_string_object(text@) is Some,
        lines matches Some(v) ==> lists_object(v@, json_string_object(text@).unwrap(), addr@),
{
    let entries = match string_object_entries(text) {
        Some(entries) => entries,
        None => return None,
    };
    let ghost object = json_string_object(text@).unwrap();
    let mut lines: Vec<(String, String, String)> = Vec::new();
    let mut i: usize = 0;
    while i < entries.len()
        invariant
            i <= entries.len(),
            lines@.len() == i,
            entries@.len() == object.dom().len(),
            forall|k: int|
                0 <= k < entries@.len() ==> object.dom().contains((#[trigger] entries@[k]).0@)
                    && object[entries@[k].0@] == entries@[k].1@,
            forall|k: int, l: int|
                0 <= k < l < entries@.len() ==> (#[trigger] entries@[k]).0@
                    != (#[trigger] entries@[l]).0@,
            forall|k: int|
                0 <= k < i ==> {
                    &&& (#[trigger] lines@[k]).0@ == entries@[k].0@
                    &&& lines@[k].1@ == "(ID: "@ + addr@ + ")"@
                    &&& lines@[k].2@ == "\""@ + entries@[k].1@ + "\""@
                },
        decreases entries.len() - i,
    {
        let key = entries[i].0.clone();
        let tag = id_tag(addr);
        let value = quoted(entries[i].1.as_str());
        lines.push((key, tag, value));
        i = i + 1;
    }
    proof {
        assert forall|k: int, l: int| 0 <= k < l < lines@.len() implies (#[trigger] lines@[k]).0@
            != (#[trigger] lines@[l]).0@ by {
            assert(lines@[k].0@ == entries@[k].0@);
            assert(lines@[l].0@ == entries@[l].0@);
        }
        assert forall|k: int| 0 <= k < lines@.len() implies {
            &&& object.dom().contains((#[trigger] lines@[k]).0@)
            &&& lines@[k].1@ == "(ID: "@ + addr@ + ")"@
            &&& lines@[k].2@ == "\""@ + object[lines@[k].0@] + "\""@
        } by {
            assert(lines@[k].0@ == entries@[k].0@);
            assert(object.dom().contains(entries@[k].0@));
        }
    }
    Some(lines)
}

} // verus!
