//! The typing screen: a state machine from key presses to what the screen does.
//!
//! The caller polls the keyboard, hands each poll's outcome to [`ui_step`], and
//! performs the returned [`UiOutcome`]: printing a slice of the styled content,
//! echoing free text, showing the result popup, playing a sound or quitting.

use vstd::prelude::*;

verus! {

/// A key as the typing screen tells keys apart.
#[derive(Clone, Copy, Debug)]
pub enum Key {
    Esc,
    /// A function key, `F(n)`.
    Function(u8),
    Up,
    Down,
    Char(char),
    Enter,
    Backspace,
    Tab,
    BackTab,
    /// The empty key code; also what an auto-typing tick stands for.
    Null,
    /// Any other key.
    Other,
}

/// What one poll of the keyboard produced.
#[derive(Clone, Copy, Debug)]
pub enum Input {
    /// A key was pressed.
    Pressed(Key),
    /// An event arrived that is not a key press (a release, a resize, ...).
    Ignored,
    /// The poll interval passed without any event.
    Timeout,
}

/// The state of the typing screen.
#[derive(Clone, Copy, Debug)]
pub struct UiState {
    /// How many styled characters of the content have been typed out.
    pub index: usize,
    /// How many characters one key press types.
    pub chunk_size: usize,
    /// Keys are echoed as typed instead of typing the content.
    pub freestyle: bool,
    /// Typing goes on by itself on every poll timeout.
    pub agent: bool,
    /// Sounds are enabled.
    pub sound: bool,
}

/// What the screen does in answer to one poll.
#[derive(Clone, Copy, Debug)]
pub enum UiAction {
    /// Leave the typing screen.
    Quit,
    /// Nothing is drawn.
    Idle,
    /// Flash the result popup: "ACCESS GRANTED" or "ACCESS DENIED".
    Popup(bool),
    /// Print the content's characters in `start..end`.
    Type { start: usize, end: usize },
    /// Clear the screen and move the cursor home: the content starts over.
    Restart,
    /// Print a character in green (free typing).
    Echo(char),
    /// Print a line break (free typing).
    NewLine,
    /// Print four spaces (free typing).
    Indent,
    /// Rub out this many characters to the left of the cursor (free typing).
    Erase(usize),
}

/// The sound that goes with an action.
#[derive(Clone, Copy, Debug)]
pub enum Sound {
    Silent,
    /// The mechanical key click.
    Click,
    /// The result chord: major for a granted access, dissonant for a denied one.
    Chime(bool),
}

/// An action and its sound.
#[derive(Clone, Copy, Debug)]
pub struct UiOutcome {
    pub action: UiAction,
    pub sound: Sound,
}

/// The largest value of a `usize`, as a mathematical integer.
pub open spec fn usize_max() -> nat {
    usize::MAX as nat
}

/// Where typing stops: `chunk` characters further, but not past the end.
pub open spec fn typed_end(index: nat, chunk: nat, len: nat) -> nat {
    if index + chunk < len {
        index + chunk
    } else {
        len
    }
}

/// The chunk size after the speed-up key: one more, saturating.
pub open spec fn faster(chunk: usize) -> usize {
    if chunk < usize::MAX {
        (chunk + 1) as usize
    } else {
        chunk
    }
}

/// The chunk size after the slow-down key: one less, but at least one.
pub open spec fn slower(chunk: usize) -> usize {
    if chunk > 1 {
        (chunk - 1) as usize
    } else {
        1
    }
}

/// The key that a poll amounts to: the pressed key, or on a timeout in agent
/// mode the auto-typing tick.
pub open spec fn key_of(agent: bool, input: Input) -> Option<Key> {
    match input {
        Input::Pressed(k) => Some(k),
        Input::Ignored => None,
        Input::Timeout => if agent {
            Some(Key::Null)
        } else {
            None
        },
    }
}

/// The click, when sounds are on.
pub open spec fn click_of(s: UiState) -> Sound {
    if s.sound {
        Sound::Click
    } else {
        Sound::Silent
    }
}

/// The result chord, when sounds are on.
pub open spec fn chime_of(s: UiState, granted: bool) -> Sound {
    if s.sound {
        Sound::Chime(granted)
    } else {
        Sound::Silent
    }
}

/// Nothing drawn, nothing heard.
pub open spec fn idle() -> UiOutcome {
    UiOutcome { action: UiAction::Idle, sound: Sound::Silent }
}

/// A state with another index.
pub open spec fn with_index(s: UiState, index: usize) -> UiState {
    UiState { index, chunk_size: s.chunk_size, freestyle: s.freestyle, agent: s.agent, sound: s.sound }
}

/// A state with another chunk size.
pub open spec fn with_chunk(s: UiState, chunk_size: usize) -> UiState {
    UiState { index: s.index, chunk_size, freestyle: s.freestyle, agent: s.agent, sound: s.sound }
}

/// A state with free typing switched over.
pub open spec fn toggled_freestyle(s: UiState) -> UiState {
    UiState { index: s.index, chunk_size: s.chunk_size, freestyle: !s.freestyle, agent: s.agent, sound: s.sound }
}

/// A state with agent mode switched over.
pub open spec fn toggled_agent(s: UiState) -> UiState {
    UiState { index: s.index, chunk_size: s.chunk_size, freestyle: s.freestyle, agent: !s.agent, sound: s.sound }
}

/// What a key does in free typing mode.
pub open spec fn free_outcome(s: UiState, key: Key) -> UiOutcome {
    match key {
        Key::Char(c) => UiOutcome { action: UiAction::Echo(c), sound: click_of(s) },
        Key::Enter => UiOutcome { action: UiAction::NewLine, sound: click_of(s) },
        Key::Backspace => UiOutcome { action: UiAction::Erase(1), sound: click_of(s) },
        Key::Tab => UiOutcome { action: UiAction::Indent, sound: click_of(s) },
        Key::BackTab => UiOutcome { action: UiAction::Erase(4), sound: click_of(s) },
        _ => idle(),
    }
}

/// What a key does when it types the content: the next chunk, or, once all
/// of it has been typed, a fresh start.
pub open spec fn type_next(s: UiState, len: nat) -> (UiState, UiOutcome) {
    if s.index < len {
        let end = typed_end(s.index as nat, s.chunk_size as nat, len);
        (
            with_index(s, end as usize),
            UiOutcome { action: UiAction::Type { start: s.index, end: end as usize }, sound: click_of(s) },
        )
    } else {
        (with_index(s, 0), UiOutcome { action: UiAction::Restart, sound: click_of(s) })
    }
}

/// What a key does, for content of `len` styled characters.
pub open spec fn react(s: UiState, key: Key, len: nat) -> (UiState, UiOutcome) {
    match key {
        Key::Esc => (s, UiOutcome { action: UiAction::Quit, sound: Sound::Silent }),
        Key::Up => (with_chunk(s, faster(s.chunk_size)), idle()),
        Key::Down => (with_chunk(s, slower(s.chunk_size)), idle()),
        Key::Function(4) => (toggled_agent(s), idle()),
        Key::Function(3) => (toggled_freestyle(s), idle()),
        Key::Function(1) => (
            with_index(s, 0),
            UiOutcome { action: UiAction::Popup(true), sound: chime_of(s, true) },
        ),
        Key::Function(2) => (
            with_index(s, 0),
            UiOutcome { action: UiAction::Popup(false), sound: chime_of(s, false) },
        ),
        _ => if s.freestyle {
            (s, free_outcome(s, key))
        } else {
            type_next(s, len)
        },
    }
}

/// One poll of the typing screen, for content of `len` styled characters.
pub open spec fn ui_next(s: UiState, input: Input, len: nat) -> (UiState, UiOutcome) {
    match key_of(s.agent, input) {
        Some(key) => react(s, key, len),
        None => (s, idle()),
    }
}

/// The state in which the typing screen starts.
pub fn ui_start(chunk_size: usize, sound: bool) -> (s: UiState)
    ensures
        s == (UiState { index: 0, chunk_size, freestyle: false, agent: false, sound }),
{
    UiState { index: 0, chunk_size, freestyle: false, agent: false, sound }
}

/// How long one keyboard poll waits, in milliseconds: agent mode polls faster.
pub fn poll_millis(s: &UiState) -> (ms: u64)
    ensures
        ms == (if s.agent { 30u64 } else { 50u64 }),
{
    if s.agent {
        30
    } else {
        50
    }
}

fn idle_outcome() -> (o: UiOutcome)
    ensures
        o == idle(),
{
    UiOutcome { action: UiAction::Idle, sound: Sound::Silent }
}

fn click(s: &UiState) -> (snd: Sound)
    ensures
        snd == click_of(*s),
{
    if s.sound {
        Sound::Click
    } else {
        Sound::Silent
    }
}

fn chime(s: &UiState, granted: bool) -> (snd: Sound)
    ensures
        snd == chime_of(*s, granted),
{
    if s.sound {
        Sound::Chime(granted)
    } else {
        Sound::Silent
    }
}

/// What a key does in free typing mode.
fn free_step(s: &UiState, key: Key) -> (o: UiOutcome)
    ensures
        o == free_outcome(*s, key),
{
    match key {
        Key::Char(c) => UiOutcome { action: UiAction::Echo(c), sound: click(s) },
        Key::Enter => UiOutcome { action: UiAction::NewLine, sound: click(s) },
        Key::Backspace => UiOutcome { action: UiAction::Erase(1), sound: click(s) },
        Key::Tab => UiOutcome { action: UiAction::Indent, sound: click(s) },
        Key::BackTab => UiOutcome { action: UiAction::Erase(4), sound: click(s) },
        _ => idle_outcome(),
    }
}

/// Types the next chunk of the content, or starts it over.
fn type_step(s: &UiState, len: usize) -> (r: (UiState, UiOutcome))
    requires
        s.index <= len,
    ensures
        r == type_next(*s, len as nat),
{
    let mut next = *s;
    if s.index < len {
        let end = if s.chunk_size < len - s.index {
            s.index + s.chunk_size
        } else {
            len
        };
        next.index = end;
        (next, UiOutcome { action: UiAction::Type { start: s.index, end }, sound: click(s) })
    } else {
        next.index = 0;
        (next, UiOutcome { action: UiAction::Restart, sound: click(s) })
    }
}

/// One poll of the typing screen: the next state and what to do.
///
/// `len` is the number of styled characters in the content being typed.
pub fn ui_step(s: &UiState, input: Input, len: usize) -> (r: (UiState, UiOutcome))
    requires
        s.index <= len,
    ensures
        r == ui_next(*s, input, len as nat),
{
    let key = match input {
        Input::Pressed(k) => k,
        Input::Ignored => {
            return (*s, idle_outcome());
        },
        Input::Timeout => {
            if s.agent {
                Key::Null
            } else {
                return (*s, idle_outcome());
            }
        },
    };
    let mut next = *s;
    match key {
        Key::Esc => (next, UiOutcome { action: UiAction::Quit, sound: Sound::Silent }),
        Key::Up => {
            next.chunk_size = s.chunk_size.saturating_add(1);
            (next, idle_outcome())
        },
        Key::Down => {
            next.chunk_size = if s.chunk_size > 1 {
                s.chunk_size - 1
            } else {
                1
            };
            (next, idle_outcome())
        },
        Key::Function(4) => {
            next.agent = !s.agent;
            (next, idle_outcome())
        },
        Key::Function(3) => {
            next.freestyle = !s.freestyle;
            (next, idle_outcome())
        },
        Key::Function(1) => {
            next.index = 0;
            (next, UiOutcome { action: UiAction::Popup(true), sound: chime(s, true) })
        },
        Key::Function(2) => {
            next.index = 0;
            (next, UiOutcome { action: UiAction::Popup(false), sound: chime(s, false) })
        },
        _ => {
            if s.freestyle {
                (next, free_step(s, key))
            } else {
                type_step(s, len)
            }
        },
    }
}



/// Where the result popup goes and what it says.
#[derive(Clone, Copy, Debug)]
pub struct Popup {
    pub text: &'static str,
    /// The column of its first character.
    pub x: u16,
    /// Its row.
    pub y: u16,
}

/// The popup's text.
pub open spec fn popup_text(granted: bool) -> Seq<char> {
    if granted {
        " ACCESS GRANTED "@
    } else {
        " ACCESS DENIED "@
    }
}

/// The result popup on a screen of `cols` by `rows`: centred on the middle
/// row, starting at column 0 when the screen is narrower than the text.
pub fn popup_layout(cols: u16, rows: u16, granted: bool) -> (p: Popup)
    ensures
        p.text@ == popup_text(granted),
        p.x == (if cols >= popup_text(granted).len() { (cols - popup_text(granted).len()) / 2 } else { 0 }),
        p.y == rows / 2,
{
    let text = if granted {
        " ACCESS GRANTED "
    } else {
        " ACCESS DENIED "
    };
    proof {
        reveal_strlit(" ACCESS GRANTED ");
        reveal_strlit(" ACCESS DENIED ");
    }
    let len = text.unicode_len();
    assert(len <= 16);
    let text_len = len as u16;
    Popup { text, x: cols.saturating_sub(text_len) / 2, y: rows / 2 }
}

/// The keys that type the content in the standard mode: all but the ones
/// bound to quitting, speed, the modes and the result popups.
pub open spec fn is_typing_key(k: Key) -> bool {
    match k {
        Key::Esc | Key::Up | Key::Down => false,
        Key::Function(n) => !(1 <= n <= 4),
        _ => true,
    }
}

/// The state after pressing `key` `n` times in a row.
pub open spec fn press_times(s: UiState, key: Key, n: nat, len: nat) -> UiState
    decreases n,
{
    if n == 0 {
        s
    } else {
        ui_next(press_times(s, key, (n - 1) as nat, len), Input::Pressed(key), len).0
    }
}

/// The typed position never passes the end of the content: every step keeps
/// `index <= len`.
pub proof fn lemma_step_keeps_index_in_bounds(s: UiState, input: Input, len: nat)
    requires
        s.index <= len,
        len <= usize_max(),
    ensures
        ui_next(s, input, len).0.index <= len,
{
}

/// A poll that brought no key press, or a timeout outside agent mode, changes
/// nothing and does nothing.
pub proof fn lemma_no_key_no_change(s: UiState, len: nat)
    ensures
        ui_next(s, Input::Ignored, len) == (s, idle()),
        !s.agent ==> ui_next(s, Input::Timeout, len) == (s, idle()),
{
}

/// In agent mode a timeout acts exactly as a press of the empty key.
pub proof fn lemma_agent_tick_types(s: UiState, len: nat)
    requires
        s.agent,
    ensures
        ui_next(s, Input::Timeout, len) == ui_next(s, Input::Pressed(Key::Null), len),
{
}

/// Escape quits, silently and without touching the state.
pub proof fn lemma_escape_quits(s: UiState, len: nat)
    ensures
        ui_next(s, Input::Pressed(Key::Esc), len)
            == (s, UiOutcome { action: UiAction::Quit, sound: Sound::Silent }),
{
}

/// Pressing F3 twice leaves the state as it was: free typing is a toggle.
pub proof fn lemma_freestyle_toggle_twice(s: UiState, len: nat)
    ensures
        ui_next(ui_next(s, Input::Pressed(Key::Function(3)), len).0, Input::Pressed(Key::Function(3)), len).0 == s,
        ui_next(s, Input::Pressed(Key::Function(3)), len).0.freestyle == !s.freestyle,
{
}

/// Pressing F4 twice leaves the state as it was: agent mode is a toggle.
pub proof fn lemma_agent_toggle_twice(s: UiState, len: nat)
    ensures
        ui_next(ui_next(s, Input::Pressed(Key::Function(4)), len).0, Input::Pressed(Key::Function(4)), len).0 == s,
        ui_next(s, Input::Pressed(Key::Function(4)), len).0.agent == !s.agent,
{
}

/// The slow-down key never brings the chunk size below one, and undoes the
/// speed-up key wherever that one did not saturate.
pub proof fn lemma_speed_keys(s: UiState, len: nat)
    ensures
        ui_next(s, Input::Pressed(Key::Down), len).0.chunk_size >= 1,
        ui_next(s, Input::Pressed(Key::Up), len).0.chunk_size >= s.chunk_size,
        1 <= s.chunk_size < usize::MAX ==> ui_next(
            ui_next(s, Input::Pressed(Key::Up), len).0,
            Input::Pressed(Key::Down),
            len,
        ).0 == s,
{
}

/// The result popups (F1 granted, F2 denied) start the content over and keep
/// every setting.
pub proof fn lemma_popup_restarts(s: UiState, granted: bool, len: nat)
    ensures
        ({
            let r = ui_next(s, Input::Pressed(Key::Function(if granted { 1u8 } else { 2u8 })), len);
            &&& r.0 == with_index(s, 0)
            &&& r.1.action == UiAction::Popup(granted)
            &&& r.1.sound == chime_of(s, granted)
            &&& r.1.sound == (if s.sound { Sound::Chime(granted) } else { Sound::Silent })
        }),
{
}

/// In the standard mode a typing key prints the next chunk of the content,
/// `chunk_size` characters or what is left, and once everything has been
/// typed the next one clears the screen and starts over at the beginning.
pub proof fn lemma_typing_key_types_next_chunk(s: UiState, k: Key, len: nat)
    requires
        !s.freestyle,
        is_typing_key(k),
        s.index <= len,
        len <= usize_max(),
    ensures
        ({
            let r = ui_next(s, Input::Pressed(k), len);
            &&& s.index < len ==> r.1.action == (UiAction::Type {
                start: s.index,
                end: typed_end(s.index as nat, s.chunk_size as nat, len) as usize,
            }) && r.0.index == typed_end(s.index as nat, s.chunk_size as nat, len)
            &&& s.index == len ==> r.1.action == UiAction::Restart && r.0.index == 0
            &&& r.1.sound == click_of(s)
            &&& r.0.chunk_size == s.chunk_size && r.0.freestyle == s.freestyle && r.0.agent == s.agent
        }),
{
}

/// In free typing mode no key moves through the content.
pub proof fn lemma_freestyle_keeps_position(s: UiState, k: Key, len: nat)
    requires
        s.freestyle,
        is_typing_key(k),
    ensures
        ui_next(s, Input::Pressed(k), len).0 == s,
        ui_next(s, Input::Pressed(k), len).1 == free_outcome(s, k),
{
}

/// Typing from the start, `n` presses of a typing key have typed
/// `min(n * chunk_size, len)` characters, as long as the presses before the
/// last one had not yet reached the end.
pub proof fn lemma_typing_from_start(s: UiState, k: Key, n: nat, len: nat)
    requires
        !s.freestyle,
        is_typing_key(k),
        s.index == 0,
        s.chunk_size >= 1,
        len <= usize_max(),
        n * s.chunk_size < len + s.chunk_size,
    ensures
        press_times(s, k, n, len).index == (if n * s.chunk_size < len { n * s.chunk_size } else { len as int }),
        press_times(s, k, n, len).chunk_size == s.chunk_size,
        press_times(s, k, n, len).freestyle == s.freestyle,
    decreases n,
{
    if n > 0 {
        let c = s.chunk_size as int;
        assert((n - 1) * c == n * c - c) by (nonlinear_arith);
        lemma_typing_from_start(s, k, (n - 1) as nat, len);
        let p = press_times(s, k, (n - 1) as nat, len);
        assert(p.index == (n - 1) * c);
        assert(p.index < len);
        lemma_typing_key_types_next_chunk(p, k, len);
        assert(p.index + c == n * c);
    } else {
        assert(n * s.chunk_size == 0) by (nonlinear_arith)
            requires
                n == 0,
        ;
    }
}


/// What an action writes of the content: the positions it types, in order,
/// and `-1` for clearing the screen to start over.
pub open spec fn written_by(a: UiAction) -> Seq<int> {
    match a {
        UiAction::Type { start, end } => Seq::new((end - start) as nat, |t: int| start + t),
        UiAction::Restart => seq![-1int],
        _ => Seq::empty(),
    }
}

/// What `n` presses of `key` in a row write.
pub open spec fn written_after(s: UiState, key: Key, n: nat, len: nat) -> Seq<int>
    decreases n,
{
    if n == 0 {
        Seq::empty()
    } else {
        written_after(s, key, (n - 1) as nat, len) + written_by(
            ui_next(press_times(s, key, (n - 1) as nat, len), Input::Pressed(key), len).1.action,
        )
    }
}

/// The endless typing of content of `len` characters: its positions in
/// order, then a clear, then the positions again, and so on.
pub open spec fn pass_pattern(j: int, len: nat) -> int {
    let r = j % ((len + 1) as int);
    if r < len {
        r
    } else {
        -1
    }
}

proof fn lemma_mod_shift(l: int, t: int, m: int)
    requires
        0 <= l,
        0 <= t,
        0 < m,
        l % m + t < m,
    ensures
        (l + t) % m == l % m + t,
{
    vstd::arithmetic::div_mod::lemma_fundamental_div_mod(l, m);
    vstd::arithmetic::div_mod::lemma_mod_pos_bound(l, m);
    assert(l + t == (l / m) * m + (l % m + t)) by (nonlinear_arith)
        requires
            l == m * (l / m) + (l % m),
    ;
    vstd::arithmetic::div_mod::lemma_fundamental_div_mod_converse(l + t, m, l / m, l % m + t);
}

proof fn lemma_mod_wrap(l: int, m: int)
    requires
        0 <= l,
        0 < m,
        l % m == m - 1,
    ensures
        (l + 1) % m == 0,
{
    vstd::arithmetic::div_mod::lemma_fundamental_div_mod(l, m);
    assert(l + 1 == (l / m + 1) * m + 0) by (nonlinear_arith)
        requires
            l == m * (l / m) + (l % m),
            l % m == m - 1,
    ;
    vstd::arithmetic::div_mod::lemma_fundamental_div_mod_converse(l + 1, m, l / m + 1, 0);
}

/// Typing the content over and over, from the start: whatever a run of
/// presses of a typing key has written is a prefix of the content's
/// positions in order, a clear, the positions again, and so on; no position
/// is skipped or doubled. The typed position is where the pattern stands,
/// and each press writes something when the chunk size is at least one.
pub proof fn lemma_typing_repeats_content(s: UiState, k: Key, n: nat, len: nat)
    requires
        !s.freestyle,
        is_typing_key(k),
        s.index == 0,
        len <= usize_max(),
    ensures
        ({
            let w = written_after(s, k, n, len);
            &&& forall|j: int| 0 <= j < w.len() ==> #[trigger] w[j] == pass_pattern(j, len)
            &&& press_times(s, k, n, len).index == (w.len() as int) % ((len + 1) as int)
            &&& press_times(s, k, n, len).freestyle == s.freestyle
            &&& press_times(s, k, n, len).chunk_size == s.chunk_size
            &&& s.chunk_size >= 1 ==> w.len() >= n
        }),
    decreases n,
{
    let m = len + 1;
    if n == 0 {
        assert(0int % (m as int) == 0) by (nonlinear_arith)
            requires
                m > 0,
        ;
    } else {
        let n1 = (n - 1) as nat;
        lemma_typing_repeats_content(s, k, n1, len);
        let p = press_times(s, k, n1, len);
        let w = written_after(s, k, n1, len);
        let l = w.len() as int;
        vstd::arithmetic::div_mod::lemma_mod_pos_bound(l, m as int);
        assert(p.index <= len);
        lemma_typing_key_types_next_chunk(p, k, len);
        let r = ui_next(p, Input::Pressed(k), len);
        let w2 = written_after(s, k, n, len);
        assert(w2 == w + written_by(r.1.action));
        if p.index < len {
            let i = p.index as int;
            let e = typed_end(p.index as nat, p.chunk_size as nat, len) as int;
            assert(r.1.action == (UiAction::Type { start: p.index, end: e as usize }));
            let add = written_by(r.1.action);
            assert(add.len() == e - i);
            assert forall|j: int| 0 <= j < w2.len() implies #[trigger] w2[j] == pass_pattern(j, len) by {
                if j >= l {
                    let t = j - l;
                    assert(w2[j] == add[t]);
                    assert(add[t] == i + t);
                    lemma_mod_shift(l, t, m as int);
                } else {
                    assert(w2[j] == w[j]);
                }
            }
            lemma_mod_shift(l, e - i, m as int);
        } else {
            assert(r.1.action == UiAction::Restart);
            assert forall|j: int| 0 <= j < w2.len() implies #[trigger] w2[j] == pass_pattern(j, len) by {
                if j >= l {
                    assert(j == l);
                    assert(w2[j] == -1);
                } else {
                    assert(w2[j] == w[j]);
                }
            }
            lemma_mod_wrap(l, m as int);
        }
    }
}

/// A state with sounds switched to `sound`.
pub open spec fn with_sound(s: UiState, sound: bool) -> UiState {
    UiState { index: s.index, chunk_size: s.chunk_size, freestyle: s.freestyle, agent: s.agent, sound }
}

/// The actions a sequence of polls leads to.
pub open spec fn actions_of(s: UiState, inputs: Seq<Input>, len: nat) -> Seq<UiAction>
    decreases inputs.len(),
{
    if inputs.len() == 0 {
        Seq::empty()
    } else {
        let r = ui_next(s, inputs[0], len);
        seq![r.1.action] + actions_of(r.0, inputs.drop_first(), len)
    }
}

/// Sounds only decide what is heard: switching them changes no state but the
/// sound setting, and no action.
pub proof fn lemma_sound_changes_only_sound(s: UiState, input: Input, len: nat, sound: bool)
    ensures
        ui_next(with_sound(s, sound), input, len).0 == with_sound(ui_next(s, input, len).0, sound),
        ui_next(with_sound(s, sound), input, len).1.action == ui_next(s, input, len).1.action,
{
}

/// Over a whole run, sounds on or off, the screen does the same things.
pub proof fn lemma_sound_keeps_actions(s: UiState, inputs: Seq<Input>, len: nat, sound: bool)
    ensures
        actions_of(with_sound(s, sound), inputs, len) == actions_of(s, inputs, len),
    decreases inputs.len(),
{
    if inputs.len() > 0 {
        lemma_sound_changes_only_sound(s, inputs[0], len, sound);
        let r = ui_next(s, inputs[0], len);
        lemma_sound_keeps_actions(r.0, inputs.drop_first(), len, sound);
    }
}


/// Each control key changes exactly one setting, and nothing else: F4 only
/// the agent flag, F3 only the free typing flag, Up and Down only the chunk
/// size, F1 and F2 only the typed position (back to the start).
pub proof fn lemma_control_keys_change_one_setting(s: UiState, len: nat)
    ensures
        ui_next(s, Input::Pressed(Key::Function(4)), len).0 == (UiState {
            index: s.index,
            chunk_size: s.chunk_size,
            freestyle: s.freestyle,
            agent: !s.agent,
            sound: s.sound,
        }),
        ui_next(s, Input::Pressed(Key::Function(3)), len).0 == (UiState {
            index: s.index,
            chunk_size: s.chunk_size,
            freestyle: !s.freestyle,
            agent: s.agent,
            sound: s.sound,
        }),
        ui_next(s, Input::Pressed(Key::Up), len).0 == (UiState {
            index: s.index,
            chunk_size: if s.chunk_size < usize::MAX { (s.chunk_size + 1) as usize } else { s.chunk_size },
            freestyle: s.freestyle,
            agent: s.agent,
            sound: s.sound,
        }),
        ui_next(s, Input::Pressed(Key::Down), len).0 == (UiState {
            index: s.index,
            chunk_size: if s.chunk_size > 1 { (s.chunk_size - 1) as usize } else { 1 },
            freestyle: s.freestyle,
            agent: s.agent,
            sound: s.sound,
        }),
        ui_next(s, Input::Pressed(Key::Function(1)), len).0 == (UiState {
            index: 0,
            chunk_size: s.chunk_size,
            freestyle: s.freestyle,
            agent: s.agent,
            sound: s.sound,
        }),
        ui_next(s, Input::Pressed(Key::Function(2)), len).0 == (UiState {
            index: 0,
            chunk_size: s.chunk_size,
            freestyle: s.freestyle,
            agent: s.agent,
            sound: s.sound,
        }),
        ui_next(s, Input::Pressed(Key::Function(4)), len).1.action == UiAction::Idle,
        ui_next(s, Input::Pressed(Key::Function(3)), len).1.action == UiAction::Idle,
        ui_next(s, Input::Pressed(Key::Up), len).1.action == UiAction::Idle,
        ui_next(s, Input::Pressed(Key::Down), len).1.action == UiAction::Idle,
{
}

/// Switching agent mode on in the standard mode makes the next timeout type
/// the next chunk of the content, by itself.
pub proof fn lemma_agent_mode_types_on_timeouts(s: UiState, len: nat)
    requires
        !s.freestyle,
        !s.agent,
        s.index < len,
        len <= usize_max(),
    ensures
        ({
            let on = ui_next(s, Input::Pressed(Key::Function(4)), len).0;
            let r = ui_next(on, Input::Timeout, len);
            let end = if s.index + s.chunk_size < len { s.index + s.chunk_size } else { len as int };
            &&& on.agent && !on.freestyle
            &&& r.1.action == (UiAction::Type { start: s.index, end: end as usize })
            &&& r.0.index == end
        }),
{
}


/// What each key does in free typing mode, with the click when sounds are
/// on: a character is echoed, Enter starts a new line, Backspace rubs out
/// one character and Shift-Tab four, Tab indents by four spaces; any other
/// typing key does nothing.
pub proof fn lemma_free_typing_keys(s: UiState, c: char, k: Key, len: nat)
    requires
        s.freestyle,
    ensures
        ({
            let click = if s.sound { Sound::Click } else { Sound::Silent };
            &&& ui_next(s, Input::Pressed(Key::Char(c)), len) == (s, UiOutcome { action: UiAction::Echo(c), sound: click })
            &&& ui_next(s, Input::Pressed(Key::Enter), len) == (s, UiOutcome { action: UiAction::NewLine, sound: click })
            &&& ui_next(s, Input::Pressed(Key::Backspace), len) == (s, UiOutcome { action: UiAction::Erase(1), sound: click })
            &&& ui_next(s, Input::Pressed(Key::Tab), len) == (s, UiOutcome { action: UiAction::Indent, sound: click })
            &&& ui_next(s, Input::Pressed(Key::BackTab), len) == (s, UiOutcome { action: UiAction::Erase(4), sound: click })
            &&& (k == Key::Null || k == Key::Other || (k matches Key::Function(n) && !(1 <= n <= 4)))
                ==> ui_next(s, Input::Pressed(k), len) == (s, UiOutcome { action: UiAction::Idle, sound: Sound::Silent })
        }),
{
}

/// In the standard mode every typing key clicks when sounds are on.
pub proof fn lemma_typing_clicks(s: UiState, k: Key, len: nat)
    requires
        !s.freestyle,
        is_typing_key(k),
    ensures
        ui_next(s, Input::Pressed(k), len).1.sound == (if s.sound { Sound::Click } else { Sound::Silent }),
{
}

} // verus!
