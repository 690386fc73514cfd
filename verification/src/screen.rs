//! The terminal client's screen: what the user has typed, how keys change it,
//! and what is drawn on each frame.
//!
//! The screen has two modes. In normal mode `e` starts editing and `q` quits.
//! In editing mode typed characters go into the input box, backspace removes
//! the last one, enter moves the input into the list of typed messages and
//! escape goes back to normal mode.

use vstd::prelude::*;

use crate::text::{without_last, without_last_char};

verus! {

/// How many stored messages the screen lists, newest first.
pub const SHOWN_HISTORY: usize = 7;

/// The period of the scroll counter.
pub const SCROLL_PERIOD: u16 = 10;

/// Whether keys go to the input box.
pub enum InputMode {
    /// Keys are commands: `e` starts editing, `q` quits.
    Normal,
    /// Keys edit the input box.
    Editing,
}

/// A key that the user pressed, as far as the screen tells keys apart.
pub enum Key {
    /// A character key.
    Typed(char),
    Enter,
    Backspace,
    Esc,
    /// Any other key.
    Other,
}

/// Whether the screen keeps running after a key.
pub enum Flow {
    Continue,
    Quit,
}

/// The state of the terminal client's screen.
pub struct App {
    scroll: u16,
    /// Current value of the input box
    input: String,
    /// Current input mode
    input_mode: InputMode,
    /// History of recorded messages
    messages: Vec<String>,
}

/// The texts of `strings`, in order.
pub open spec fn views(strings: Seq<String>) -> Seq<Seq<char>> {
    strings.map_values(|m: String| m@)
}

/// Appending a string appends its text.
pub proof fn lemma_views_push(strings: Seq<String>, s: String)
    ensures
        views(strings.push(s)) == views(strings).push(s@),
{
    assert(views(strings.push(s)) =~= views(strings).push(s@));
}

/// The state of the screen as values.
pub struct AppModel {
    pub scroll: u16,
    pub input: Seq<char>,
    pub input_mode: InputMode,
    pub messages: Seq<Seq<char>>,
}

impl View for App {
    type V = AppModel;

    closed spec fn view(&self) -> AppModel {
        AppModel {
            scroll: self.scroll,
            input: self.input@,
            input_mode: self.input_mode,
            messages: views(self.messages@),
        }
    }
}

/// The screen after `key` in the state `s`, and whether it keeps running.
pub open spec fn key_step(s: AppModel, key: Key) -> (AppModel, Flow) {
    match s.input_mode {
        InputMode::Normal => match key {
            Key::Typed('e') => (AppModel { input_mode: InputMode::Editing, ..s }, Flow::Continue),
            Key::Typed('q') => (s, Flow::Quit),
            _ => (s, Flow::Continue),
        },
        InputMode::Editing => match key {
            Key::Enter => (
                AppModel { input: Seq::empty(), messages: s.messages.push(s.input), ..s },
                Flow::Continue,
            ),
            Key::Typed(c) => (AppModel { input: s.input.push(c), ..s }, Flow::Continue),
            Key::Backspace => (AppModel { input: without_last(s.input), ..s }, Flow::Continue),
            Key::Esc => (AppModel { input_mode: InputMode::Normal, ..s }, Flow::Continue),
            Key::Other => (s, Flow::Continue),
        },
    }
}

/// The screen after typing the characters of `text`, one key each, from the state `s`.
pub open spec fn type_text(s: AppModel, text: Seq<char>) -> AppModel
    decreases text.len(),
{
    if text.len() == 0 {
        s
    } else {
        type_text(key_step(s, Key::Typed(text[0])).0, text.drop_first())
    }
}

/// Typing in editing mode: each typed character, `e` and `q` included, goes to the end of
/// the input box, and nothing else changes.
pub proof fn lemma_typing_appends(s: AppModel, text: Seq<char>)
    requires
        s.input_mode == InputMode::Editing,
    ensures
        type_text(s, text) == (AppModel { input: s.input + text, ..s }),
    decreases text.len(),
{
    if text.len() == 0 {
        assert(s.input + text =~= s.input);
    } else {
        let next = key_step(s, Key::Typed(text[0])).0;
        lemma_typing_appends(next, text.drop_first());
        assert(next.input + text.drop_first() =~= s.input + text);
    }
}

/// A typed line becomes a message: in editing mode with an empty input box, typing
/// `text` and pressing enter adds `text` to the typed messages and empties the box.
pub proof fn lemma_typed_line_becomes_message(s: AppModel, text: Seq<char>)
    requires
        s.input_mode == InputMode::Editing,
        s.input == Seq::<char>::empty(),
    ensures
        key_step(type_text(s, text), Key::Enter) == (
            AppModel { messages: s.messages.push(text), ..s },
            Flow::Continue,
        ),
{
    lemma_typing_appends(s, text);
    assert(s.input + text =~= text);
}

/// Backspace undoes a typed character: in editing mode, typing `c` and then pressing
/// backspace gives back the screen as it was.
pub proof fn lemma_backspace_undoes_typing(s: AppModel, c: char)
    requires
        s.input_mode == InputMode::Editing,
    ensures
        key_step(key_step(s, Key::Typed(c)).0, Key::Backspace) == (s, Flow::Continue),
{
    assert(s.input.push(c).drop_last() =~= s.input);
}

/// Leaving and resuming editing (escape, then `e`) keeps what was typed.
pub proof fn lemma_escape_then_edit_keeps_input(s: AppModel)
    requires
        s.input_mode == InputMode::Editing,
    ensures
        key_step(key_step(s, Key::Esc).0, Key::Typed('e')) == (s, Flow::Continue),
{
}

/// Only `q` in normal mode ends the screen, and no key that keeps it running in normal
/// mode other than `e` changes it.
pub proof fn lemma_quit_only_by_q_in_normal_mode(s: AppModel, key: Key)
    ensures
        (key_step(s, key).1 == Flow::Quit) == (s.input_mode == InputMode::Normal && key
            == Key::Typed('q')),
        s.input_mode == InputMode::Normal && key != Key::Typed('e') ==> key_step(s, key).0 == s,
{
}

/// A key that the screen does not tell apart (an arrow, a function key, ...) changes
/// nothing and keeps the screen running, in either mode.
pub proof fn lemma_other_keys_change_nothing(s: AppModel)
    ensures
        key_step(s, Key::Other) == (s, Flow::Continue),
{
}

/// Enter while editing moves exactly the input box into the typed messages: one more
/// message, the last one being what was typed, the earlier ones unchanged, and an empty
/// input box; the mode stays editing and the screen keeps running.
pub proof fn lemma_enter_submits_input(s: AppModel)
    requires
        s.input_mode == InputMode::Editing,
    ensures
        key_step(s, Key::Enter).0.messages.len() == s.messages.len() + 1,
        key_step(s, Key::Enter).0.messages.last() == s.input,
        key_step(s, Key::Enter).0.messages.drop_last() == s.messages,
        key_step(s, Key::Enter).0.input.len() == 0,
        key_step(s, Key::Enter).0.input_mode == InputMode::Editing,
        key_step(s, Key::Enter).1 == Flow::Continue,
{
    assert(s.messages.push(s.input).drop_last() =~= s.messages);
}

/// Keys never touch the scroll counter and never lose a typed message: after any key the
/// typed messages are those before it, or those with the input box added at the end.
pub proof fn lemma_keys_keep_scroll_and_messages(s: AppModel, key: Key)
    ensures
        key_step(s, key).0.scroll == s.scroll,
        key_step(s, key).0.messages == s.messages || key_step(s, key).0.messages
            == s.messages.push(s.input),
{
}

/// The scroll counter after `ticks` ticks from `scroll`.
pub open spec fn scroll_after_ticks(scroll: nat, ticks: nat) -> nat
    decreases ticks,
{
    if ticks == 0 {
        scroll
    } else {
        scroll_after_ticks((scroll + 1) % 10, (ticks - 1) as nat)
    }
}

/// The scroll counter counts ticks modulo its period: from a value in the period, after
/// `ticks` ticks it stands at the start value plus `ticks`, modulo the period.
pub proof fn lemma_scroll_counts_ticks(scroll: nat, ticks: nat)
    requires
        scroll < 10,
    ensures
        scroll_after_ticks(scroll, ticks) == (scroll + ticks) % 10,
    decreases ticks,
{
    if ticks > 0 {
        let next = (scroll + 1) % 10;
        lemma_scroll_counts_ticks(next, (ticks - 1) as nat);
        vstd::arithmetic::div_mod::lemma_add_mod_noop((scroll + 1) as int, (ticks - 1) as int, 10);
        assert((next + (ticks - 1)) % 10 == (scroll + ticks) % 10) by {
            vstd::arithmetic::div_mod::lemma_mod_twice((scroll + 1) as int, 10);
        }
    }
}

/// From a new screen, the scroll counter after `ticks` ticks is `ticks` modulo its
/// period, so it always stays below the period, and ten more ticks bring it back.
pub proof fn lemma_scroll_from_new(ticks: nat)
    ensures
        scroll_after_ticks(0, ticks) == ticks % 10,
        scroll_after_ticks(0, ticks) < 10,
        scroll_after_ticks(0, ticks + 10) == scroll_after_ticks(0, ticks),
{
    lemma_scroll_counts_ticks(0, ticks);
    lemma_scroll_counts_ticks(0, ticks + 10);
    vstd::arithmetic::div_mod::lemma_mod_add_multiples_vanish(ticks as int, 10);
}

/// `String::push` of std: appends `c` to `s`.
#[verifier::external_body]
fn push_char(s: &mut String, c: char)
    ensures
        final(s)@ == old(s)@.push(c),
{
    s.push(c)
}

impl App {
    #[verifier::type_invariant]
    spec fn scroll_in_period(self) -> bool {
        self.scroll < SCROLL_PERIOD
    }

    /// A screen in normal mode, with nothing typed and nothing scrolled.
    pub fn new() -> (app: App)
        ensures
            app@.scroll == 0,
            app@.input == Seq::<char>::empty(),
            app@.input_mode == InputMode::Normal,
            app@.messages == Seq::<Seq<char>>::empty(),
    {
        let app = App {
            scroll: 0,
            input: String::new(),
            input_mode: InputMode::Normal,
            messages: Vec::new(),
        };
        assert(app@.messages =~= Seq::<Seq<char>>::empty());
        app
    }

    /// Advances the scroll counter by one, modulo its period.
    pub fn on_tick(&mut self)
        ensures
            final(self)@ == (AppModel { scroll: ((old(self)@.scroll + 1) % 10) as u16, ..old(self)@ }),
    {
        proof {
            use_type_invariant(&*self);
        }
        self.scroll = (self.scroll + 1) % SCROLL_PERIOD;
    }

    /// The scroll counter.
    pub fn scroll(&self) -> (scroll: u16)
        ensures
            scroll == self@.scroll,
            scroll < SCROLL_PERIOD,
    {
        proof {
            use_type_invariant(self);
        }
        self.scroll
    }

    /// The text in the input box.
    pub fn input(&self) -> (input: &String)
        ensures
            input@ == self@.input,
    {
        &self.input
    }

    /// Whether the input box is being edited.
    pub fn is_editing(&self) -> (editing: bool)
        ensures
            editing == (self@.input_mode == InputMode::Editing),
    {
        match self.input_mode {
            InputMode::Normal => false,
            InputMode::Editing => true,
        }
    }

    /// The messages typed so far, oldest first.
    pub fn messages(&self) -> (messages: &Vec<String>)
        ensures
            views(messages@) == self@.messages,
    {
        &self.messages
    }

    /// Applies the key `key` to the screen: `key_step` of its state.
    pub fn handle_key(&mut self, key: Key) -> (flow: Flow)
        ensures
            (final(self)@, flow) == key_step(old(self)@, key),
    {
        proof {
            use_type_invariant(&*self);
        }
        let ghost before = self@;
        match self.input_mode {
            InputMode::Normal => match key {
                Key::Typed('e') => {
                    self.input_mode = InputMode::Editing;
                    Flow::Continue
                },
                Key::Typed('q') => Flow::Quit,
                _ => Flow::Continue,
            },
            InputMode::Editing => match key {
                Key::Enter => {
                    let mut line = String::new();
                    std::mem::swap(&mut line, &mut self.input);
                    let mut messages = Vec::new();
                    std::mem::swap(&mut messages, &mut self.messages);
                    messages.push(line);
                    self.messages = messages;
                    assert(self@.messages =~= before.messages.push(before.input));
                    Flow::Continue
                },
                Key::Typed(c) => {
                    let mut input = String::new();
                    std::mem::swap(&mut input, &mut self.input);
                    push_char(&mut input, c);
                    self.input = input;
                    Flow::Continue
                },
                Key::Backspace => {
                    let shorter = without_last_char(self.input.as_str());
                    self.input = shorter;
                    Flow::Continue
                },
                Key::Esc => {
                    self.input_mode = InputMode::Normal;
                    Flow::Continue
                },
                Key::Other => Flow::Continue,
            },
        }
    }
}

/// Whether a key read while waiting for the next tick ends the screen: only `q` does,
/// in either mode.
pub fn quits_while_waiting(key: &Key) -> (quit: bool)
    ensures
        quit == (*key == Key::Typed('q')),
{
    match key {
        Key::Typed(c) => *c == 'q',
        _ => false,
    }
}

/// How long to wait for a key before the next tick is due: what is left of `tick_rate`
/// after `elapsed`, or nothing when it has passed (both in nanoseconds).
pub fn poll_timeout(tick_rate: u128, elapsed: u128) -> (timeout: u128)
    ensures
        timeout == (if elapsed <= tick_rate { tick_rate - elapsed } else { 0 }),
{
    if elapsed <= tick_rate {
        tick_rate - elapsed
    } else {
        0
    }
}

/// Whether the next tick is due after `elapsed` (both in nanoseconds).
pub fn tick_due(tick_rate: u128, elapsed: u128) -> (due: bool)
    ensures
        due == (elapsed >= tick_rate),
{
    elapsed >= tick_rate
}

/// The top-left corner of the box on the screen that holds the input.
pub struct Area {
    pub x: u16,
    pub y: u16,
}

/// Where the terminal cursor goes.
pub enum Cursor {
    /// The cursor is not shown (normal mode).
    Hidden,
    /// The cursor stands at column `.0`, row `.1`.
    At(u16, u16),
}

/// What one frame of the screen shows.
pub struct Screen {
    /// The text of the input box.
    pub input: String,
    /// Whether the input box is drawn as being edited.
    pub editing: bool,
    /// Where the cursor goes.
    pub cursor: Cursor,
    /// The lines of the chat box, top to bottom.
    pub items: Vec<String>,
    /// The stored lines handed on to be shared, in the order in which they are listed.
    pub shared: Vec<(String, bool)>,
}

/// The width of `text` in terminal columns, as `UnicodeWidthStr::width` of
/// unicode-width computes it.
pub uninterp spec fn display_width(text: Seq<char>) -> usize;

/// `UnicodeWidthStr::width` of unicode-width: the number of terminal columns that
/// `text` takes. The contract names the result and says nothing of its value, which
/// follows the Unicode width tables of the crate.
#[verifier::external_body]
fn text_width(text: &str) -> (width: usize)
    ensures
        width == display_width(text@),
{
    unicode_width::UnicodeWidthStr::width(text)
}

/// The cursor position just past an input `width` columns wide in the box at `area`:
/// one column past the text (counted modulo 2^16, as a terminal coordinate) and one row
/// down, or `None` when that does not fit in a terminal coordinate.
pub open spec fn cursor_after(area: Area, width: usize) -> Option<(u16, u16)> {
    let x = area.x + (width as u16) + 1;
    let y = area.y + 1;
    if x <= u16::MAX && y <= u16::MAX {
        Some((x as u16, y as u16))
    } else {
        None
    }
}

/// The cursor position just past an input `width` columns wide in the box at `area`.
pub fn cursor_position(area: &Area, width: usize) -> (position: Option<(u16, u16)>)
    ensures
        position == cursor_after(*area, width),
{
    let columns = width as u16;
    let x: u32 = area.x as u32 + columns as u32 + 1;
    let y: u32 = area.y as u32 + 1;
    if x <= 0xffff && y <= 0xffff {
        Some((x as u16, y as u16))
    } else {
        None
    }
}

/// The `n` newest of the stored lines `history` (kept oldest first), newest first.
pub open spec fn recent_first(history: Seq<Seq<char>>, n: nat) -> Seq<Seq<char>> {
    let shown = if history.len() < n { history.len() } else { n };
    history.reverse().take(shown as int)
}

/// The listed stored lines are the newest ones, newest first: as many as there are, up to
/// `n`, the `i`-th being the `i`-th from the end of the history.
pub proof fn lemma_recent_first_is_newest_first(history: Seq<Seq<char>>, n: nat)
    ensures
        recent_first(history, n).len() == (if history.len() < n {
            history.len()
        } else {
            n
        }),
        forall|i: int|
            0 <= i < recent_first(history, n).len() ==> #[trigger] recent_first(history, n)[i]
                == history[history.len() - 1 - i],
{
}

/// What is handed on to share the stored line `msg`: the line, marked as shared.
pub fn share_text(msg: &String) -> (shared: (String, bool))
    ensures
        shared.0@ == msg@,
        shared.1,
{
    (msg.clone(), true)
}

/// Whether the cursor of the screen `app` fits in terminal coordinates with the input
/// box at `area`: in normal mode it is hidden; while editing it stands one column past
/// the input and one row down.
pub open spec fn cursor_fits(app: AppModel, area: Area) -> bool {
    app.input_mode == InputMode::Editing ==> cursor_after(area, display_width(app.input)) is Some
}

/// Whether `screen` is the frame that the screen `app` shows with the stored lines
/// `history` (oldest first) and the input box at `area`: the input text, highlighted
/// while editing; no cursor in normal mode, and while editing the cursor past the input;
/// in the chat box the `SHOWN_HISTORY` newest stored lines, newest first, then the typed
/// messages; and those stored lines, shared.
pub open spec fn shows(app: AppModel, history: Seq<Seq<char>>, area: Area, screen: Screen) -> bool {
    let recent = recent_first(history, SHOWN_HISTORY as nat);
    &&& screen.input@ == app.input
    &&& screen.editing == (app.input_mode == InputMode::Editing)
    &&& app.input_mode == InputMode::Normal ==> screen.cursor == Cursor::Hidden
    &&& app.input_mode == InputMode::Editing ==> (cursor_after(area, display_width(app.input))
        matches Some((x, y)) && screen.cursor == Cursor::At(x, y))
    &&& views(screen.items@) == recent + app.messages
    &&& screen.shared@.len() == recent.len()
    &&& forall|i: int|
        0 <= i < screen.shared@.len() ==> {
            &&& (#[trigger] screen.shared@[i]).0@ == recent[i]
            &&& screen.shared@[i].1
        }
}

/// The frame that the screen `app` shows with the stored lines `history` (oldest first)
/// and the input box at `input_area`, where its cursor fits in terminal coordinates.
pub fn ui(app: &App, history: &Vec<String>, input_area: &Area) -> (screen: Screen)
    requires
        cursor_fits(app@, *input_area),
    ensures
        shows(app@, views(history@), *input_area, screen),
{
    let editing = app.is_editing();
    let cursor = if editing {
        match cursor_position(input_area, text_width(app.input().as_str())) {
            Some((x, y)) => Cursor::At(x, y),
            None => Cursor::Hidden,
        }
    } else {
        Cursor::Hidden
    };
    let ghost lines = views(history@);
    let ghost recent = recent_first(lines, SHOWN_HISTORY as nat);
    let n = history.len();
    let shown = if n < SHOWN_HISTORY {
        n
    } else {
        SHOWN_HISTORY
    };
    let mut items: Vec<String> = Vec::new();
    let mut shared: Vec<(String, bool)> = Vec::new();
    let mut i: usize = 0;
    while i < shown
        invariant
            n == history@.len(),
            lines == views(history@),
            recent == recent_first(lines, SHOWN_HISTORY as nat),
            recent.len() == shown,
            shown <= n,
            i <= shown,
            views(items@) == recent.take(i as int),
            shared@.len() == i,
            forall|k: int|
                0 <= k < i ==> {
                    &&& (#[trigger] shared@[k]).0@ == recent[k]
                    &&& shared@[k].1
                },
        decreases shown - i,
    {
        let line = history[n - 1 - i].clone();
        assert(line@ == recent[i as int]);
        let ghost before = items@;
        items.push(line.clone());
        proof {
            lemma_views_push(before, line);
            assert(recent.take(i as int).push(recent[i as int]) =~= recent.take(i + 1));
        }
        shared.push(share_text(&line));
        i = i + 1;
    }
    let typed = app.messages();
    let ghost typed_lines = app@.messages;
    let mut j: usize = 0;
    while j < typed.len()
        invariant
            j <= typed@.len(),
            views(typed@) == typed_lines,
            recent.len() == shown,
            views(items@) == recent + typed_lines.take(j as int),
        decreases typed@.len() - j,
    {
        let line = typed[j].clone();
        let ghost before = items@;
        proof {
            assert(line@ == typed_lines[j as int]);
        }
        items.push(line);
        proof {
            lemma_views_push(before, line);
            assert((recent + typed_lines.take(j as int)).push(typed_lines[j as int]) =~= recent
                + typed_lines.take(j + 1));
        }
        j = j + 1;
    }
    assert(typed_lines.take(j as int) =~= typed_lines);
    Screen { input: app.input().clone(), editing, cursor, items, shared }
}

/// The frame that the screen `app` shows with the stored lines `history` and the input
/// box at `input_area`, or `None` where its cursor does not fit in terminal coordinates
/// (while editing, one column past an input so wide that the column exceeds `u16::MAX`).
pub fn checked_ui(app: &App, history: &Vec<String>, input_area: &Area) -> (screen: Option<
    Screen,
>)
    ensures
        screen is None <==> !cursor_fits(app@, *input_area),
        screen matches Some(s) ==> shows(app@, views(history@), *input_area, s),
{
    if app.is_editing() {
        let width = text_width(app.input().as_str());
        if cursor_position(input_area, width).is_none() {
            return None;
        }
    }
    Some(ui(app, history, input_area))
}

} // verus!
