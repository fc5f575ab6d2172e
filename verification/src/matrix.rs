//! The digital-rain screen: streams of characters falling down the columns.
//!
//! A stream's position moves by a fractional speed; the caller keeps that
//! position and hands the library the rows it was on before and after a
//! frame. The library decides what each frame draws, builds new streams and
//! tells how many streams the screen keeps alive.

use rand::rngs::ThreadRng;
use rand::Rng;
use vstd::prelude::*;

use crate::ui::Key;

verus! {

#[verifier::external_type_specification]
#[verifier::external_body]
pub struct ExThreadRng(ThreadRng);

/// The characters a stream is made of.
pub const RAIN_CHARS: &'static str = "abcdefghijklmnopqrstuvwxyzABCDEFGHIJKLMNOPQRSTUVWXYZ0123456789@#$%^&*()";

/// How many characters a stream carries; its rows cycle through them.
pub const STREAM_GLYPHS: usize = 40;

/// The shortest stream (inclusive).
pub const MIN_STREAM_LEN: usize = 5;

/// The longest stream (exclusive).
pub const MAX_STREAM_LEN: usize = 20;

/// How many rows above the screen a stream may start (exclusive).
pub const MAX_RISE: usize = 10;

/// `Rng::random_range(lo..hi)` on the thread's generator: a number in
/// `lo..hi`. The range must not be empty, else it panics.
#[verifier::external_body]
fn random_below(rng: &mut ThreadRng, lo: usize, hi: usize) -> (r: usize)
    requires
        lo < hi,
    ensures
        lo <= r < hi,
{
    rng.random_range(lo..hi)
}

/// The rain characters, in order.
pub fn rain_charset() -> (cs: Vec<char>)
    ensures
        cs@ == RAIN_CHARS@,
        cs@ == "abcdefghijklmnopqrstuvwxyzABCDEFGHIJKLMNOPQRSTUVWXYZ0123456789@#$%^&*()"@,
{
    let mut cs: Vec<char> = Vec::new();
    for c in it: RAIN_CHARS.chars()
        invariant
            it.seq() == RAIN_CHARS@,
            cs@ == RAIN_CHARS@.take(it.index() as int),
    {
        proof {
            assert(RAIN_CHARS@.take(it.index() + 1) == RAIN_CHARS@.take(it.index() as int).push(c));
        }
        cs.push(c);
    }
    proof {
        assert(RAIN_CHARS@.take(RAIN_CHARS@.len() as int) == RAIN_CHARS@);
    }
    cs
}

/// A column of a screen `cols` wide, drawn at random.
pub fn random_column(rng: &mut ThreadRng, cols: u16) -> (c: u16)
    requires
        cols > 0,
    ensures
        c < cols,
{
    random_below(rng, 0, cols as usize) as u16
}

/// The integer part of a new stream; its speed is added by the caller.
pub struct StreamSeed {
    /// The column it falls in.
    pub col: u16,
    /// How many rows it is long.
    pub len: usize,
    /// How many rows above the top of the screen it starts.
    pub rise: usize,
    /// Its characters; row `y` shows `chars[y % chars.len()]`.
    pub chars: Vec<char>,
}

/// The characters of `charset` that `picks` point at, in order.
pub fn glyphs_from_picks(charset: &Vec<char>, picks: &Vec<usize>) -> (glyphs: Vec<char>)
    requires
        forall|i: int| 0 <= i < picks.len() ==> #[trigger] picks[i] < charset.len(),
    ensures
        glyphs@.len() == picks@.len(),
        forall|i: int| 0 <= i < picks.len() ==> #[trigger] glyphs@[i] == charset@[picks@[i] as int],
{
    let mut glyphs: Vec<char> = Vec::new();
    let mut i: usize = 0;
    while i < picks.len()
        invariant
            i <= picks.len(),
            forall|k: int| 0 <= k < picks.len() ==> #[trigger] picks[k] < charset.len(),
            glyphs@.len() == i,
            forall|k: int| 0 <= k < i ==> #[trigger] glyphs@[k] == charset@[picks@[k] as int],
        decreases picks.len() - i,
    {
        glyphs.push(charset[picks[i]]);
        i = i + 1;
    }
    glyphs
}

/// A new stream for column `col`: 5 to 19 rows long, starting up to 9 rows
/// above the screen, with 40 characters drawn from `charset`.
pub fn create_stream(col: u16, rng: &mut ThreadRng, charset: &Vec<char>) -> (seed: StreamSeed)
    requires
        charset.len() > 0,
    ensures
        seed.col == col,
        MIN_STREAM_LEN <= seed.len < MAX_STREAM_LEN,
        seed.rise < MAX_RISE,
        seed.chars@.len() == STREAM_GLYPHS,
        5 <= seed.len < 20,
        seed.rise < 10,
        seed.chars@.len() == 40,
        forall|i: int| 0 <= i < seed.chars@.len() ==> charset@.contains(#[trigger] seed.chars@[i]),
{
    let len = random_below(rng, MIN_STREAM_LEN, MAX_STREAM_LEN);
    let mut picks: Vec<usize> = Vec::new();
    let mut i: usize = 0;
    while i < STREAM_GLYPHS
        invariant
            i <= STREAM_GLYPHS,
            charset.len() > 0,
            picks@.len() == i,
            forall|k: int| 0 <= k < i ==> #[trigger] picks[k] < charset.len(),
        decreases STREAM_GLYPHS - i,
    {
        let p = random_below(rng, 0, charset.len());
        picks.push(p);
        i = i + 1;
    }
    let chars = glyphs_from_picks(charset, &picks);
    let rise = random_below(rng, 0, MAX_RISE);
    proof {
        assert forall|k: int| 0 <= k < chars@.len() implies charset@.contains(#[trigger] chars@[k]) by {
            assert(chars@[k] == charset@[picks@[k] as int]);
        }
    }
    StreamSeed { col, len, rise, chars }
}

/// What a frame draws in one cell.
#[derive(Clone, Copy, Debug)]
pub enum Glyph {
    /// The stream's leading character, drawn bright white.
    Head(char),
    /// The character the head just left, drawn green.
    Trail(char),
    /// A blank that rubs out the stream's end.
    Blank,
}

/// One cell drawn.
#[derive(Clone, Copy, Debug)]
pub struct Draw {
    pub x: u16,
    pub y: u16,
    pub glyph: Glyph,
}

/// Row `y` is on a screen of `rows` rows.
pub open spec fn on_screen(y: int, rows: int) -> bool {
    0 <= y < rows
}

/// The character a stream shows on row `y`.
pub open spec fn glyph_at(chars: Seq<char>, y: int) -> char {
    chars[y % (chars.len() as int)]
}

/// One cell, or nothing when the row is off the screen.
pub open spec fn cell_if(x: u16, y: int, rows: int, glyph: Glyph) -> Seq<Draw> {
    if on_screen(y, rows) {
        seq![Draw { x, y: y as u16, glyph }]
    } else {
        Seq::empty()
    }
}

/// What a frame draws for a stream in column `x` of length `len` whose head
/// moved from row `old_y` to row `new_y`: when it reached a new row, the
/// head on the new row, the trail on the old one and a blank `len` rows
/// behind the head, each only where it is on the screen.
pub open spec fn frame_draws(x: u16, old_y: int, new_y: int, rows: int, len: int, chars: Seq<char>) -> Seq<Draw> {
    if new_y > old_y {
        cell_if(x, new_y, rows, Glyph::Head(glyph_at(chars, new_y)))
            + cell_if(x, old_y, rows, Glyph::Trail(glyph_at(chars, old_y)))
            + cell_if(x, new_y - len, rows, Glyph::Blank)
    } else {
        Seq::empty()
    }
}

/// The cells one frame draws for one stream; see [`frame_draws`].
pub fn stream_frame(x: u16, old_y: i32, new_y: i32, rows: u16, len: usize, chars: &Vec<char>) -> (draws: Vec<Draw>)
    requires
        chars.len() > 0,
        len <= i32::MAX,
    ensures
        draws@ == frame_draws(x, old_y as int, new_y as int, rows as int, len as int, chars@),
{
    let mut draws: Vec<Draw> = Vec::new();
    if new_y > old_y {
        let n = chars.len();
        if 0 <= new_y && (new_y as i64) < (rows as i64) {
            let idx = (new_y as usize) % n;
            draws.push(Draw { x, y: new_y as u16, glyph: Glyph::Head(chars[idx]) });
        }
        if 0 <= old_y && (old_y as i64) < (rows as i64) {
            let idx = (old_y as usize) % n;
            draws.push(Draw { x, y: old_y as u16, glyph: Glyph::Trail(chars[idx]) });
        }
        let erase_y = (new_y as i64) - (len as i64);
        if 0 <= erase_y && erase_y < (rows as i64) {
            draws.push(Draw { x, y: erase_y as u16, glyph: Glyph::Blank });
        }
        proof {
            assert(draws@ =~= frame_draws(x, old_y as int, new_y as int, rows as int, len as int, chars@));
        }
    }
    draws
}

/// How many streams the screen keeps falling: one for every two columns.
pub fn stream_target(cols: u16) -> (n: usize)
    ensures
        n == cols / 2,
{
    (cols / 2) as usize
}

/// What a key does on the rain screen.
#[derive(Clone, Copy, Debug)]
pub enum RainAction {
    /// Leave the rain screen.
    Quit,
    /// Click, and maybe start one more stream.
    Stir,
}

/// Escape leaves the rain screen; any other key stirs it.
pub fn rain_key(key: Key) -> (a: RainAction)
    ensures
        a == (match key {
            Key::Esc => RainAction::Quit,
            _ => RainAction::Stir,
        }),
{
    match key {
        Key::Esc => RainAction::Quit,
        _ => RainAction::Stir,
    }
}

/// A frame draws only on the screen, in the stream's own column, and at most
/// three cells; nothing when the head stayed on its row. Every character it
/// draws is one of the stream's.
pub proof fn lemma_frame_stays_on_screen(x: u16, old_y: int, new_y: int, rows: int, len: int, chars: Seq<char>)
    requires
        chars.len() > 0,
    ensures
        ({
            let d = frame_draws(x, old_y, new_y, rows, len, chars);
            &&& d.len() <= 3
            &&& new_y <= old_y ==> d.len() == 0
            &&& forall|i: int| 0 <= i < d.len() ==> (#[trigger] d[i]).x == x && 0 <= d[i].y < rows
            &&& forall|i: int| 0 <= i < d.len() ==> match #[trigger] d[i].glyph {
                Glyph::Head(c) => chars.contains(c),
                Glyph::Trail(c) => chars.contains(c),
                Glyph::Blank => true,
            }
        }),
{
    let a = cell_if(x, new_y, rows, Glyph::Head(glyph_at(chars, new_y)));
    let b = cell_if(x, old_y, rows, Glyph::Trail(glyph_at(chars, old_y)));
    let c = cell_if(x, new_y - len, rows, Glyph::Blank);
    let d = frame_draws(x, old_y, new_y, rows, len, chars);
    lemma_glyph_in_chars(chars, new_y);
    lemma_glyph_in_chars(chars, old_y);
    if new_y > old_y {
        assert forall|i: int| 0 <= i < d.len() implies (#[trigger] d[i]).x == x && 0 <= d[i].y < rows && match d[i].glyph {
            Glyph::Head(ch) => chars.contains(ch),
            Glyph::Trail(ch) => chars.contains(ch),
            Glyph::Blank => true,
        } by {
            if i < a.len() {
                assert(d[i] == a[i]);
            } else if i < a.len() + b.len() {
                assert(d[i] == b[i - a.len()]);
            } else {
                assert(d[i] == c[i - a.len() - b.len()]);
            }
        }
    }
}

proof fn lemma_glyph_in_chars(chars: Seq<char>, y: int)
    requires
        chars.len() > 0,
    ensures
        chars.contains(glyph_at(chars, y)),
{
    vstd::arithmetic::div_mod::lemma_mod_bound(y, chars.len() as int);
    assert(chars[y % (chars.len() as int)] == glyph_at(chars, y));
}

/// The character a head draws on a row is the one its trail draws there in
/// a later frame, when the head moves on.
pub proof fn lemma_head_becomes_trail(x: u16, a: int, r: int, b: int, rows: int, len: int, chars: Seq<char>)
    requires
        a < r < b,
        on_screen(r, rows),
    ensures
        frame_draws(x, a, r, rows, len, chars).contains(Draw { x, y: r as u16, glyph: Glyph::Head(glyph_at(chars, r)) }),
        frame_draws(x, r, b, rows, len, chars).contains(Draw { x, y: r as u16, glyph: Glyph::Trail(glyph_at(chars, r)) }),
{
    let first = frame_draws(x, a, r, rows, len, chars);
    assert(first[0] == Draw { x, y: r as u16, glyph: Glyph::Head(glyph_at(chars, r)) });
    let later = frame_draws(x, r, b, rows, len, chars);
    let head = cell_if(x, b, rows, Glyph::Head(glyph_at(chars, b)));
    assert(later[head.len() as int] == Draw { x, y: r as u16, glyph: Glyph::Trail(glyph_at(chars, r)) });
}

/// A row is blanked in the frame whose head reaches `len` rows below it.
pub proof fn lemma_tail_blanks_row(x: u16, a: int, r: int, rows: int, len: int, chars: Seq<char>)
    requires
        a < r + len,
        on_screen(r, rows),
    ensures
        frame_draws(x, a, r + len, rows, len, chars).contains(Draw { x, y: r as u16, glyph: Glyph::Blank }),
{
    let d = frame_draws(x, a, r + len, rows, len, chars);
    let head = cell_if(x, r + len, rows, Glyph::Head(glyph_at(chars, r + len)));
    let trail = cell_if(x, a, rows, Glyph::Trail(glyph_at(chars, a)));
    assert(r + len - len == r);
    assert(d[(head.len() + trail.len()) as int] == Draw { x, y: r as u16, glyph: Glyph::Blank });
}


/// When the head reaches a new row on the screen, the frame draws it there
/// with the stream's character for that row, `chars[row % chars.len()]`.
pub proof fn lemma_head_shows_row_glyph(x: u16, old_y: int, new_y: int, rows: int, len: int, chars: Seq<char>)
    requires
        old_y < new_y,
        0 <= new_y < rows,
        chars.len() > 0,
    ensures
        frame_draws(x, old_y, new_y, rows, len, chars)[0] == (Draw {
            x,
            y: new_y as u16,
            glyph: Glyph::Head(chars[new_y % (chars.len() as int)]),
        }),
{
}

} // verus!
