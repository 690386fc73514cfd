//! Text rules of the chat: how typed lines are cleaned up, and the lines that
//! the clients and the server show.

use vstd::prelude::*;
use vstd::string::StrSliceExecFns;
use vstd::string::StringExecFns;

verus! {

/// The characters with the Unicode `White_Space` property, which are those that
/// `char::is_whitespace` accepts and `str::trim` removes.
pub open spec fn is_white_space(c: char) -> bool {
    let v = c as u32;
    ||| 0x9 <= v <= 0xd
    ||| v == 0x20
    ||| v == 0x85
    ||| v == 0xa0
    ||| v == 0x1680
    ||| 0x2000 <= v <= 0x200a
    ||| v == 0x2028
    ||| v == 0x2029
    ||| v == 0x202f
    ||| v == 0x205f
    ||| v == 0x3000
}

/// Every white-space character lies at or below U+3000 IDEOGRAPHIC SPACE, the highest
/// code point with the Unicode `White_Space` property; of the ASCII characters only tab,
/// line feed, vertical tab, form feed, carriage return and space are white space.
pub proof fn lemma_white_space_range(c: char)
    ensures
        is_white_space(c) ==> c as u32 <= 0x3000,
        c as u32 <= 0x7f ==> (is_white_space(c) <==> (9 <= c as u32 <= 13 || c as u32 == 32)),
{
}

/// `s` without its leading white space.
pub open spec fn trim_start(s: Seq<char>) -> Seq<char>
    decreases s.len(),
{
    if s.len() > 0 && is_white_space(s[0]) {
        trim_start(s.drop_first())
    } else {
        s
    }
}

/// `s` without its trailing white space.
pub open spec fn trim_end(s: Seq<char>) -> Seq<char>
    decreases s.len(),
{
    if s.len() > 0 && is_white_space(s.last()) {
        trim_end(s.drop_last())
    } else {
        s
    }
}

/// `s` without its leading and trailing white space, as `str::trim` gives it.
pub open spec fn trimmed(s: Seq<char>) -> Seq<char> {
    trim_end(trim_start(s))
}

/// `s` without its last character, or `s` itself when it is empty, as `String::pop`
/// leaves it.
pub open spec fn without_last(s: Seq<char>) -> Seq<char> {
    if s.len() > 0 {
        s.drop_last()
    } else {
        s
    }
}

/// Whether `c` has the Unicode `White_Space` property.
pub fn is_white_space_char(c: char) -> (b: bool)
    ensures
        b == is_white_space(c),
{
    let v = c as u32;
    (0x9 <= v && v <= 0xd) || v == 0x20 || v == 0x85 || v == 0xa0 || v == 0x1680 || (0x2000 <= v
        && v <= 0x200a) || v == 0x2028 || v == 0x2029 || v == 0x202f || v == 0x205f || v == 0x3000
}

/// Dropping leading white space from `s[from..]` gives `s[start..]` when `s[from..start]`
/// is all white space and `s[start]` is not.
proof fn lemma_trim_start_at(s: Seq<char>, from: int, start: int)
    requires
        0 <= from <= start <= s.len(),
        forall|k: int| from <= k < start ==> is_white_space(#[trigger] s[k]),
        start == s.len() || !is_white_space(s[start]),
    ensures
        trim_start(s.subrange(from, s.len() as int)) == s.subrange(start, s.len() as int),
    decreases start - from,
{
    let rest = s.subrange(from, s.len() as int);
    if from < start {
        assert(rest[0] == s[from]);
        assert(rest.drop_first() =~= s.subrange(from + 1, s.len() as int));
        lemma_trim_start_at(s, from + 1, start);
    } else if start < s.len() {
        assert(rest[0] == s[start]);
    }
}

/// Dropping trailing white space from `s[start..to]` gives `s[start..end]` when
/// `s[end..to]` is all white space and `s[end - 1]` is not (or `end` is `start`).
proof fn lemma_trim_end_at(s: Seq<char>, start: int, end: int, to: int)
    requires
        0 <= start <= end <= to <= s.len(),
        forall|k: int| end <= k < to ==> is_white_space(#[trigger] s[k]),
        end == start || !is_white_space(s[end - 1]),
    ensures
        trim_end(s.subrange(start, to)) == s.subrange(start, end),
    decreases to - end,
{
    let part = s.subrange(start, to);
    if end < to {
        assert(part.last() == s[to - 1]);
        assert(part.drop_last() =~= s.subrange(start, to - 1));
        lemma_trim_end_at(s, start, end, to - 1);
    } else if start < end {
        assert(part.last() == s[end - 1]);
    }
}

/// What `trim_start` leaves does not start with white space.
proof fn lemma_trim_start_first(s: Seq<char>)
    ensures
        trim_start(s).len() > 0 ==> !is_white_space(trim_start(s)[0]),
    decreases s.len(),
{
    if s.len() > 0 && is_white_space(s[0]) {
        lemma_trim_start_first(s.drop_first());
    }
}

/// What `trim_end` leaves is a prefix of `s` that does not end with white space.
proof fn lemma_trim_end_prefix(s: Seq<char>)
    ensures
        trim_end(s).len() <= s.len(),
        trim_end(s) == s.take(trim_end(s).len() as int),
        trim_end(s).len() > 0 ==> !is_white_space(trim_end(s).last()),
    decreases s.len(),
{
    if s.len() > 0 && is_white_space(s.last()) {
        lemma_trim_end_prefix(s.drop_last());
        assert(s.drop_last().take(trim_end(s).len() as int) =~= s.take(trim_end(s).len() as int));
    } else {
        assert(s.take(s.len() as int) =~= s);
    }
}

/// A trimmed line neither starts nor ends with white space, and trimming it again leaves
/// it as it is.
pub proof fn lemma_trimmed_is_trimmed(s: Seq<char>)
    ensures
        trimmed(s).len() > 0 ==> !is_white_space(trimmed(s)[0]) && !is_white_space(
            trimmed(s).last(),
        ),
        trimmed(trimmed(s)) == trimmed(s),
{
    let front = trim_start(s);
    let t = trimmed(s);
    lemma_trim_start_first(s);
    lemma_trim_end_prefix(front);
    if t.len() > 0 {
        assert(t[0] == front[0]);
        assert(trim_start(t) == t);
        assert(trim_end(t) == t);
    }
}

/// Trimming keeps a line whose first and last characters are visible ASCII characters
/// or lie above U+3000 (CJK text, fullwidth forms, emoji, ...): it comes back unchanged.
pub proof fn lemma_trim_keeps_visible_ends(s: Seq<char>)
    requires
        s.len() > 0,
        0x21 <= s[0] as u32 <= 0x7e || s[0] as u32 > 0x3000,
        0x21 <= s.last() as u32 <= 0x7e || s.last() as u32 > 0x3000,
    ensures
        trimmed(s) == s,
{
    lemma_white_space_range(s[0]);
    lemma_white_space_range(s.last());
    assert(trim_start(s) == s);
    assert(trim_end(s) == s);
}

/// `s` without its leading and trailing white space.
pub fn trim(s: &str) -> (t: String)
    ensures
        t@ == trimmed(s@),
{
    let n = s.unicode_len();
    let mut start: usize = 0;
    while start < n && is_white_space_char(s.get_char(start))
        invariant
            n == s@.len(),
            start <= n,
            forall|k: int| 0 <= k < start ==> is_white_space(#[trigger] s@[k]),
        decreases n - start,
    {
        start = start + 1;
    }
    let mut end: usize = n;
    while end > start && is_white_space_char(s.get_char(end - 1))
        invariant
            n == s@.len(),
            start <= end <= n,
            start == n || !is_white_space(s@[start as int]),
            forall|k: int| end <= k < n ==> is_white_space(#[trigger] s@[k]),
        decreases end - start,
    {
        end = end - 1;
    }
    proof {
        lemma_trim_start_at(s@, 0, start as int);
        assert(s@.subrange(0, n as int) =~= s@);
        lemma_trim_end_at(s@, start as int, end as int, n as int);
    }
    String::from_str(s.substring_char(start, end))
}

/// `s` without its last character; `s` itself when it is empty.
pub fn without_last_char(s: &str) -> (t: String)
    ensures
        t@ == without_last(s@),
{
    let n = s.unicode_len();
    if n == 0 {
        String::from_str(s)
    } else {
        String::from_str(s.substring_char(0, n - 1))
    }
}

/// The concatenation of `a`, `b` and `c`.
fn concat3(a: &str, b: &str, c: &str) -> (s: String)
    ensures
        s@ == a@ + b@ + c@,
{
    let mut s = String::from_str(a);
    s.append(b);
    s.append(c);
    s
}

/// The line in which the terminal client shows a stored message: `"{name}: {message}"`.
pub fn history_line(name: &str, message: &str) -> (line: String)
    ensures
        line@ == name@ + ": "@ + message@,
{
    concat3(name, ": ", message)
}

/// The line in which the window client shows a stored message: `"{name}:\t{message}\n"`.
pub fn window_history_line(name: &str, message: &str) -> (line: String)
    ensures
        line@ == name@ + ":\t"@ + message@ + "\n"@,
{
    let mut line = concat3(name, ":\t", message);
    line.append("\n");
    line
}

/// The line that the window client adds for a line typed into its entry: `"{text}\n"`.
pub fn window_entry_line(text: &str) -> (line: String)
    ensures
        line@ == text@ + "\n"@,
{
    let mut line = String::from_str(text);
    line.append("\n");
    line
}

/// The label in front of a message of `name`: `"{name} said:"`.
pub fn said_label(name: &str) -> (label: String)
    ensures
        label@ == name@ + " said:"@,
{
    let mut label = String::from_str(name);
    label.append(" said:");
    label
}

/// The line in which the server lists a stored message: `"{name} said: {message}"`.
pub fn stored_line(name: &str, message: &str) -> (line: String)
    ensures
        line@ == name@ + " said: "@ + message@,
{
    concat3(name, " said: ", message)
}

/// The tag that names the connection a message came from: `"(ID: {id})"`.
pub fn id_tag(id: &str) -> (tag: String)
    ensures
        tag@ == "(ID: "@ + id@ + ")"@,
{
    concat3("(ID: ", id, ")")
}

/// A message in double quotes: `"\"{message}\""`.
pub fn quoted(message: &str) -> (q: String)
    ensures
        q@ == "\""@ + message@ + "\""@,
{
    concat3("\"", message, "\"")
}

/// The notice that the server closes its connection with `addr`.
pub fn closing_notice(addr: &str) -> (notice: String)
    ensures
        notice@ == "Closing connection with "@ + addr@,
{
    let mut notice = String::from_str("Closing connection with ");
    notice.append(addr);
    notice
}

} // verus!
