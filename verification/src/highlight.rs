//! Syntax colouring of the text to type, and its layout as styled characters.
//!
//! The text is cut into lines (each keeping its line break), each line is
//! coloured by `syntect`, and the coloured pieces become styled characters: a
//! line break becomes a carriage return and a line feed (the terminal is in raw
//! mode), a carriage return of the text is dropped, and a tab becomes four
//! spaces.

use syntect::easy::HighlightLines;
use syntect::highlighting::{Theme, ThemeSet};
use syntect::parsing::{SyntaxReference, SyntaxSet};
use vstd::prelude::*;

verus! {

/// A colour a character is drawn in.
#[derive(Clone, Copy, Debug)]
pub enum Tint {
    /// A 24-bit foreground colour.
    Rgb { r: u8, g: u8, b: u8 },
    /// The terminal's default colour.
    Reset,
}

/// A character of the typed text with its colour.
#[derive(Clone, Copy, Debug)]
pub struct StyledChar {
    pub ch: char,
    pub color: Tint,
}

/// A piece of text in one colour, as the highlighter cuts a line.
pub struct ColoredText {
    pub color: Tint,
    pub text: String,
}

/// A styled character.
pub open spec fn styled(ch: char, color: Tint) -> StyledChar {
    StyledChar { ch, color }
}

/// The styled characters that one character of a piece in `color` becomes.
pub open spec fn expand_char(c: char, color: Tint) -> Seq<StyledChar> {
    if c == '\n' {
        seq![styled('\r', Tint::Reset), styled('\n', Tint::Reset)]
    } else if c == '\r' {
        Seq::empty()
    } else if c == '\t' {
        seq![styled(' ', color), styled(' ', color), styled(' ', color), styled(' ', color)]
    } else {
        seq![styled(c, color)]
    }
}

/// The styled characters that a piece of text in `color` becomes.
pub open spec fn expand_text(s: Seq<char>, color: Tint) -> Seq<StyledChar>
    decreases s.len(),
{
    if s.len() == 0 {
        Seq::empty()
    } else {
        expand_text(s.drop_last(), color) + expand_char(s.last(), color)
    }
}

/// A coloured piece as a value: its colour and its text.
pub open spec fn piece_view(p: ColoredText) -> (Tint, Seq<char>) {
    (p.color, p.text@)
}

/// Coloured pieces as values.
pub open spec fn piece_views(ps: Seq<ColoredText>) -> Seq<(Tint, Seq<char>)> {
    ps.map_values(|p: ColoredText| piece_view(p))
}

/// The texts of the pieces, in order.
pub open spec fn texts(ps: Seq<(Tint, Seq<char>)>) -> Seq<Seq<char>> {
    ps.map_values(|p: (Tint, Seq<char>)| p.1)
}

/// The styled characters that a sequence of coloured pieces becomes.
pub open spec fn expand_pieces(ps: Seq<(Tint, Seq<char>)>) -> Seq<StyledChar>
    decreases ps.len(),
{
    if ps.len() == 0 {
        Seq::empty()
    } else {
        expand_pieces(ps.drop_last()) + expand_text(ps.last().1, ps.last().0)
    }
}

/// Appends the styled characters of one piece to `out`.
fn push_piece(out: &mut Vec<StyledChar>, piece: &ColoredText)
    ensures
        final(out)@ == old(out)@ + expand_text(piece.text@, piece.color),
{
    let color = piece.color;
    let ghost start = out@;
    let ghost text = piece.text@;
    for c in it: piece.text.as_str().chars()
        invariant
            it.seq() == text,
            out@ == start + expand_text(text.take(it.index() as int), color),
    {
        proof {
            assert(text.take(it.index() + 1).drop_last() == text.take(it.index() as int));
        }
        if c == '\n' {
            out.push(StyledChar { ch: '\r', color: Tint::Reset });
            out.push(StyledChar { ch: '\n', color: Tint::Reset });
        } else if c == '\r' {
        } else if c == '\t' {
            out.push(StyledChar { ch: ' ', color });
            out.push(StyledChar { ch: ' ', color });
            out.push(StyledChar { ch: ' ', color });
            out.push(StyledChar { ch: ' ', color });
        } else {
            out.push(StyledChar { ch: c, color });
        }
    }
    proof {
        assert(text.take(text.len() as int) == text);
    }
}

/// Line breaks are printed as they are; every other character in its colour.
pub fn prints_uncoloured(sc: &StyledChar) -> (b: bool)
    ensures
        b == (sc.ch == '\r' || sc.ch == '\n'),
{
    sc.ch == '\r' || sc.ch == '\n'
}

/// The styled characters of the coloured pieces, in order.
pub fn styled_chars(pieces: &Vec<ColoredText>) -> (out: Vec<StyledChar>)
    ensures
        out@ == expand_pieces(piece_views(pieces@)),
{
    let mut out: Vec<StyledChar> = Vec::new();
    let mut i: usize = 0;
    while i < pieces.len()
        invariant
            i <= pieces.len(),
            out@ == expand_pieces(piece_views(pieces@.take(i as int))),
        decreases pieces.len() - i,
    {
        proof {
            assert(piece_views(pieces@.take(i + 1)).drop_last() == piece_views(pieces@.take(i as int)));
            assert(piece_views(pieces@.take(i + 1)).last() == piece_view(pieces@[i as int]));
        }
        push_piece(&mut out, &pieces[i]);
        i = i + 1;
    }
    proof {
        assert(pieces@.take(pieces.len() as int) == pieces@);
    }
    out
}


/// `l` is one line as a line iterator yields it: not empty, and a line break,
/// if it has one, only as its last character; every line but the last has one.
pub open spec fn is_line(l: Seq<char>, last: bool) -> bool {
    &&& l.len() > 0
    &&& forall|j: int| 0 <= j < l.len() - 1 ==> l[j] != '\n'
    &&& !last ==> l.last() == '\n'
}

/// `ls` are the lines of `s`, each with its line break: they join back to
/// `s`, and each is a line.
pub open spec fn lines_of(s: Seq<char>, ls: Seq<Seq<char>>) -> bool {
    &&& ls.flatten_alt() == s
    &&& forall|i: int| 0 <= i < ls.len() ==> is_line(#[trigger] ls[i], i == ls.len() - 1)
}

/// The lines of `s` as a line iterator yields them, built character by
/// character: a character goes on the last line while that line is still
/// open (has no line break yet), else it starts a new line.
pub open spec fn split_lines(s: Seq<char>) -> Seq<Seq<char>>
    decreases s.len(),
{
    if s.len() == 0 {
        Seq::empty()
    } else {
        let p = split_lines(s.drop_last());
        if p.len() > 0 && p.last().last() != '\n' {
            p.drop_last().push(p.last().push(s.last()))
        } else {
            p.push(seq![s.last()])
        }
    }
}

/// One more character on a text: how its lines grow.
proof fn lemma_split_push(t: Seq<char>, c: char)
    ensures
        split_lines(t.push(c)) == ({
            let p = split_lines(t);
            if p.len() > 0 && p.last().last() != '\n' {
                p.drop_last().push(p.last().push(c))
            } else {
                p.push(seq![c])
            }
        }),
{
    assert(t.push(c).drop_last() == t);
    assert(t.push(c).last() == c);
}

/// Finished lines, and the open line after them when it is not empty.
pub open spec fn with_open_line(done: Seq<Seq<char>>, open: Seq<char>) -> Seq<Seq<char>> {
    if open.len() > 0 {
        done.push(open)
    } else {
        done
    }
}

/// The lines `split_lines` builds join back to the text, and each is a line.
pub proof fn lemma_split_lines_are_lines(s: Seq<char>)
    ensures
        lines_of(s, split_lines(s)),
    decreases s.len(),
{
    if s.len() > 0 {
        let t = s.drop_last();
        let c = s.last();
        assert(t.push(c) == s);
        lemma_split_lines_are_lines(t);
        lemma_split_push(t, c);
        let p = split_lines(t);
        let q = split_lines(s);
        if p.len() > 0 && p.last().last() != '\n' {
            let l = p.last();
            assert(q.drop_last() == p.drop_last());
            assert(q.last() == l.push(c));
            assert(p.drop_last().flatten_alt() + l == t);
            assert(q.flatten_alt() == p.drop_last().flatten_alt() + l.push(c));
            assert(p.drop_last().flatten_alt() + l.push(c) == (p.drop_last().flatten_alt() + l).push(c));
            assert forall|i: int| 0 <= i < q.len() implies is_line(#[trigger] q[i], i == q.len() - 1) by {
                if i < q.len() - 1 {
                    assert(q[i] == p[i]);
                } else {
                    assert(is_line(p[i], true));
                    assert forall|j: int| 0 <= j < q[i].len() - 1 implies q[i][j] != '\n' by {
                        if j < l.len() - 1 {
                            assert(q[i][j] == l[j]);
                        } else {
                            assert(q[i][j] == l.last());
                        }
                    }
                }
            }
        } else {
            assert(q.drop_last() == p);
            assert(q.flatten_alt() == p.flatten_alt() + seq![c]);
            assert(p.flatten_alt() + seq![c] == t.push(c));
            assert forall|i: int| 0 <= i < q.len() implies is_line(#[trigger] q[i], i == q.len() - 1) by {
                if i < q.len() - 1 {
                    assert(q[i] == p[i]);
                    assert(is_line(p[i], i == p.len() - 1));
                }
            }
        }
        assert(q.flatten_alt() == s);
    } else {
        assert(s =~= Seq::<char>::empty());
    }
}

/// Appends a character to a string (`String::push`).
#[verifier::external_body]
fn push_char(s: &mut String, c: char)
    ensures
        final(s)@ == old(s)@.push(c),
{
    s.push(c);
}

/// The lines of `text`, each keeping its line break; the last one may lack
/// one. The empty text has no lines.
pub fn lines_with_endings(text: &str) -> (lines: Vec<String>)
    ensures
        lines.deep_view() == split_lines(text@),
        lines_of(text@, lines.deep_view()),
{
    let ghost s = text@;
    let mut lines: Vec<String> = Vec::new();
    let mut cur = String::new();
    for c in it: text.chars()
        invariant
            it.seq() == s,
            lines.deep_view().flatten_alt() + cur@ == s.take(it.index() as int),
            forall|i: int| 0 <= i < lines.deep_view().len() ==> is_line(#[trigger] lines.deep_view()[i], false),
            forall|j: int| 0 <= j < cur@.len() ==> cur@[j] != '\n',
            split_lines(s.take(it.index() as int)) == with_open_line(lines.deep_view(), cur@),
    {
        let ghost before = lines.deep_view();
        let ghost before_cur = cur@;
        let ghost k = it.index() as int;
        proof {
            assert(s.take(k + 1) == s.take(k).push(c));
            lemma_split_push(s.take(k), c);
            if before_cur.len() > 0 {
                assert(before_cur.last() != '\n');
                assert(with_open_line(before, before_cur).last() == before_cur);
                assert(with_open_line(before, before_cur).drop_last() == before);
            } else if before.len() > 0 {
                assert(is_line(before[before.len() - 1], false));
            }
        }
        push_char(&mut cur, c);
        if c == '\n' {
            let done = cur;
            cur = String::new();
            lines.push(done);
            proof {
                assert(lines.deep_view() == before.push(done@));
                assert(lines.deep_view().drop_last() == before);
                assert forall|i: int| 0 <= i < lines.deep_view().len() implies is_line(#[trigger] lines.deep_view()[i], false) by {
                    if i < before.len() {
                        assert(lines.deep_view()[i] == before[i]);
                    }
                }
                assert(cur@ == Seq::<char>::empty());
                if before_cur.len() > 0 {
                    assert(split_lines(s.take(k + 1)) == before.push(before_cur.push(c)));
                } else {
                    assert(split_lines(s.take(k + 1)) == before.push(seq![c]));
                    assert(before_cur.push(c) == seq![c]);
                }
                assert(split_lines(s.take(k + 1)) == with_open_line(lines.deep_view(), cur@));
            }
        } else {
            proof {
                if before_cur.len() > 0 {
                    assert(split_lines(s.take(k + 1)) == before.push(before_cur.push(c)));
                } else {
                    assert(split_lines(s.take(k + 1)) == before.push(seq![c]));
                    assert(before_cur.push(c) == seq![c]);
                }
                assert(split_lines(s.take(k + 1)) == with_open_line(lines.deep_view(), cur@));
            }
        }
    }
    proof {
        assert(s.take(s.len() as int) == s);
    }
    if cur.unicode_len() > 0 {
        let ghost before = lines.deep_view();
        lines.push(cur);
        proof {
            assert(lines.deep_view().drop_last() == before);
            assert forall|i: int| 0 <= i < lines.deep_view().len() implies is_line(#[trigger] lines.deep_view()[i], i == lines.deep_view().len() - 1) by {
                if i < before.len() {
                    assert(lines.deep_view()[i] == before[i]);
                }
            }
        }
    } else {
        proof {
            assert(cur@ == Seq::<char>::empty());
            assert(lines.deep_view().flatten_alt() + cur@ == lines.deep_view().flatten_alt());
        }
    }
    lines
}

#[verifier::external_type_specification]
#[verifier::external_body]
pub struct ExSyntaxSet(SyntaxSet);

#[verifier::external_type_specification]
#[verifier::external_body]
pub struct ExSyntaxReference(SyntaxReference);

#[verifier::external_type_specification]
#[verifier::external_body]
pub struct ExThemeSet(ThemeSet);

#[verifier::external_type_specification]
#[verifier::external_body]
pub struct ExTheme(Theme);

#[verifier::external_type_specification]
#[verifier::external_body]
pub struct ExHighlightLines<'a>(HighlightLines<'a>);

/// Whether syntect's bundled theme set holds a theme of that name: the keys
/// of the map that `ThemeSet::load_defaults` returns, as syntect documents
/// them.
pub open spec fn bundled_theme(name: Seq<char>) -> bool {
    ||| name == "base16-ocean.dark"@
    ||| name == "base16-eighties.dark"@
    ||| name == "base16-mocha.dark"@
    ||| name == "base16-ocean.light"@
    ||| name == "InspiredGitHub"@
    ||| name == "Solarized (dark)"@
    ||| name == "Solarized (light)"@
}

/// The name of the syntax that the bundled syntax set finds for a file
/// extension, if any.
pub uninterp spec fn syntax_for_extension_name(extension: Seq<char>) -> Option<Seq<char>>;

/// The name of the syntax that the bundled syntax set recognises from the
/// start of a text (a shebang, a mode line), if any.
pub uninterp spec fn syntax_for_first_line_name(text: Seq<char>) -> Option<Seq<char>>;

/// The coloured pieces of `line` as highlighted with the bundled syntax and
/// theme of those names, by a highlighter that has already highlighted the
/// `earlier` lines. The bundled syntaxes have distinct names, so a name
/// stands for one syntax.
pub uninterp spec fn highlighted(syntax: Seq<char>, theme: Seq<char>, earlier: Seq<Seq<char>>, line: Seq<char>) -> Seq<(Tint, Seq<char>)>;

/// `a` comes before `b` in the order of `String`: byte by byte of UTF-8,
/// which is character by character of code points.
pub open spec fn name_before(a: Seq<char>, b: Seq<char>) -> bool
    decreases a.len(),
{
    if a.len() == 0 {
        b.len() > 0
    } else if b.len() == 0 {
        false
    } else if a[0] != b[0] {
        (a[0] as int) < (b[0] as int)
    } else {
        name_before(a.drop_first(), b.drop_first())
    }
}

/// `name` is the bundled theme whose name comes first.
pub open spec fn is_first_theme(name: Seq<char>) -> bool {
    &&& bundled_theme(name)
    &&& forall|m: Seq<char>| bundled_theme(m) ==> !name_before(m, name)
}

/// The bundled theme whose name comes first, if there is a bundled theme.
pub open spec fn first_bundled_theme() -> Option<Seq<char>> {
    if exists|n: Seq<char>| is_first_theme(n) {
        Some(choose|n: Seq<char>| is_first_theme(n))
    } else {
        None
    }
}

/// The preferred colour theme.
pub const PREFERRED_THEME: &'static str = "base16-ocean.dark";

/// The colour theme used when the preferred one is missing.
pub const SECOND_THEME: &'static str = "base16-mocha.dark";

/// The name of syntect's plain text syntax.
pub const PLAIN_TEXT: &'static str = "Plain Text";

/// The theme the text is coloured with: "base16-ocean.dark", else
/// "base16-mocha.dark", else the bundled theme whose name comes first.
pub open spec fn chosen_theme() -> Option<Seq<char>> {
    if bundled_theme(PREFERRED_THEME@) {
        Some(PREFERRED_THEME@)
    } else if bundled_theme(SECOND_THEME@) {
        Some(SECOND_THEME@)
    } else {
        first_bundled_theme()
    }
}

/// The syntax the text is coloured with: the one for the extension when
/// there is one, else plain text; plain text gives way to a syntax recognised
/// from the start of the text.
pub open spec fn chosen_syntax(code: Seq<char>, extension: Option<Seq<char>>) -> Seq<char> {
    let by_extension = match extension {
        Some(e) => match syntax_for_extension_name(e) {
            Some(n) => n,
            None => PLAIN_TEXT@,
        },
        None => PLAIN_TEXT@,
    };
    if by_extension == PLAIN_TEXT@ {
        match syntax_for_first_line_name(code) {
            Some(n) => n,
            None => by_extension,
        }
    } else {
        by_extension
    }
}

/// The pieces of all the lines, each highlighted after the ones before it.
pub open spec fn highlight_all(syntax: Seq<char>, theme: Seq<char>, lines: Seq<Seq<char>>) -> Seq<(Tint, Seq<char>)>
    decreases lines.len(),
{
    if lines.len() == 0 {
        Seq::empty()
    } else {
        highlight_all(syntax, theme, lines.drop_last()) + highlighted(syntax, theme, lines.drop_last(), lines.last())
    }
}

/// The styled characters of `code` coloured with the given syntax and theme
/// (when there is a theme); nothing otherwise.
pub open spec fn coloured_code(code: Seq<char>, syntax: Seq<char>, theme: Option<Seq<char>>) -> Seq<StyledChar> {
    match theme {
        Some(t) => expand_pieces(highlight_all(syntax, t, split_lines(code))),
        None => Seq::empty(),
    }
}

/// The view of an optional string slice.
pub open spec fn opt_str_view(o: Option<&str>) -> Option<Seq<char>> {
    match o {
        Some(s) => Some(s@),
        None => None,
    }
}

/// syntect's bundled syntaxes and themes, which the names above describe.
/// Only `load_bundled` makes one, from `bundled_syntaxes` and `bundled_themes`.
struct Bundled {
    syntaxes: SyntaxSet,
    themes: ThemeSet,
}

/// A bundled syntax with its name.
struct SyntaxPick<'a> {
    syntax: &'a SyntaxReference,
    name: String,
}

/// A bundled theme with its name.
struct ThemePick<'a> {
    theme: &'a Theme,
    name: String,
}

/// A highlighter, with the names of its syntax and theme and the lines it
/// has highlighted so far. Only `highlighter_for` and `highlight_line` make
/// or change one.
struct Highlighter<'a> {
    inner: HighlightLines<'a>,
    syntax: Ghost<Seq<char>>,
    theme: Ghost<Seq<char>>,
    done: Ghost<Seq<Seq<char>>>,
}

/// `SyntaxSet::load_defaults_newlines`: the syntaxes bundled with syntect,
/// for lines that keep their line breaks. The names above describe it.
#[verifier::external_body]
fn bundled_syntaxes() -> SyntaxSet {
    SyntaxSet::load_defaults_newlines()
}

/// `ThemeSet::load_defaults`: the themes bundled with syntect. The names
/// above describe it.
#[verifier::external_body]
fn bundled_themes() -> ThemeSet {
    ThemeSet::load_defaults()
}

/// The bundled syntaxes and themes.
fn load_bundled() -> Bundled {
    Bundled { syntaxes: bundled_syntaxes(), themes: bundled_themes() }
}

/// `ThemeSet::themes.get`: the bundled theme of that name, if there is one.
#[verifier::external_body]
fn theme_named<'a>(bundled: &'a Bundled, name: &str) -> (t: Option<ThemePick<'a>>)
    ensures
        t is Some <==> bundled_theme(name@),
        t matches Some(p) ==> p.name@ == name@,
{
    bundled.themes.themes.get(name).map(|theme| ThemePick { theme, name: name.to_string() })
}

/// `ThemeSet::themes.iter().next()`: the bundled theme whose name comes
/// first (a `BTreeMap` is walked in the order of its keys), if any.
#[verifier::external_body]
fn first_theme<'a>(bundled: &'a Bundled) -> (t: Option<ThemePick<'a>>)
    ensures
        t matches Some(p) ==> is_first_theme(p.name@),
        t is None ==> forall|n: Seq<char>| !bundled_theme(n),
{
    bundled.themes.themes.iter().next().map(|(name, theme)| ThemePick { theme, name: name.clone() })
}

/// `SyntaxSet::find_syntax_by_name`: the bundled syntax of that name, if any.
/// syntect documents that a syntax set should always hold "Plain Text" (its
/// `find_syntax_plain_text` relies on it) and that its plain text syntax is
/// added to the bundled dumps; whether other names are found is not stated.
#[verifier::external_body]
fn syntax_named<'a>(bundled: &'a Bundled, name: &str) -> (s: Option<SyntaxPick<'a>>)
    ensures
        s matches Some(p) ==> p.name@ == name@,
        name@ == PLAIN_TEXT@ ==> s is Some,
{
    bundled.syntaxes.find_syntax_by_name(name).map(|syntax| SyntaxPick { syntax, name: syntax.name.clone() })
}

/// `SyntaxSet::find_syntax_by_extension`: the bundled syntax that claims the
/// file extension (compared ignoring ASCII case), if any.
#[verifier::external_body]
fn syntax_for_extension<'a>(bundled: &'a Bundled, extension: &str) -> (s: Option<SyntaxPick<'a>>)
    ensures
        s is Some <==> syntax_for_extension_name(extension@) is Some,
        s matches Some(p) ==> syntax_for_extension_name(extension@) == Some(p.name@),
{
    bundled.syntaxes.find_syntax_by_extension(extension).map(|syntax| SyntaxPick { syntax, name: syntax.name.clone() })
}

/// `SyntaxSet::find_syntax_by_first_line`: the bundled syntax whose
/// first-line pattern matches the start of the text, if any.
#[verifier::external_body]
fn syntax_for_first_line<'a>(bundled: &'a Bundled, text: &str) -> (s: Option<SyntaxPick<'a>>)
    ensures
        s is Some <==> syntax_for_first_line_name(text@) is Some,
        s matches Some(p) ==> syntax_for_first_line_name(text@) == Some(p.name@),
{
    bundled.syntaxes.find_syntax_by_first_line(text).map(|syntax| SyntaxPick { syntax, name: syntax.name.clone() })
}

/// `HighlightLines::new`: a highlighter for the syntax and theme, at the
/// start of a text.
#[verifier::external_body]
fn highlighter_for<'a>(syntax: &SyntaxPick, theme: &ThemePick<'a>) -> (h: Highlighter<'a>)
    ensures
        h.syntax@ == syntax.name@,
        h.theme@ == theme.name@,
        h.done@ == Seq::<Seq<char>>::empty(),
{
    Highlighter {
        inner: HighlightLines::new(syntax.syntax, theme.theme),
        syntax: Ghost(syntax.name@),
        theme: Ghost(theme.name@),
        done: Ghost(Seq::empty()),
    }
}

/// `HighlightLines::highlight_line`, with a failure turned into no pieces:
/// the next line's pieces with their foreground colours. syntect documents
/// that the pieces join back to the line; it does not say when highlighting
/// fails or which colours the pieces get; every colour is a foreground
/// colour of the theme, in RGB.
#[verifier::external_body]
fn highlight_line(highlighter: &mut Highlighter, line: &str, bundled: &Bundled) -> (pieces: Vec<ColoredText>)
    ensures
        piece_views(pieces@) == highlighted(old(highlighter).syntax@, old(highlighter).theme@, old(highlighter).done@, line@),
        forall|i: int| 0 <= i < pieces@.len() ==> (#[trigger] pieces@[i]).color is Rgb,
        pieces@.len() == 0 || texts(piece_views(pieces@)).flatten_alt() == line@,
        final(highlighter).syntax == old(highlighter).syntax,
        final(highlighter).theme == old(highlighter).theme,
        final(highlighter).done@ == old(highlighter).done@.push(line@),
{
    let pieces = highlighter.inner.highlight_line(line, &bundled.syntaxes).unwrap_or_default().into_iter().map(|(style, text)| ColoredText {
        color: Tint::Rgb { r: style.foreground.r, g: style.foreground.g, b: style.foreground.b },
        text: text.to_string(),
    }).collect();
    highlighter.done = Ghost(highlighter.done@.push(line@));
    pieces
}

/// Two bundled themes that both come first are the same.
proof fn lemma_first_theme_unique(a: Seq<char>, b: Seq<char>)
    requires
        is_first_theme(a),
        is_first_theme(b),
    ensures
        a == b,
{
    lemma_name_order_total(a, b);
}

/// Of two different names one comes before the other.
proof fn lemma_name_order_total(a: Seq<char>, b: Seq<char>)
    ensures
        a != b ==> name_before(a, b) || name_before(b, a),
    decreases a.len(),
{
    if a.len() > 0 && b.len() > 0 && a[0] == b[0] {
        lemma_name_order_total(a.drop_first(), b.drop_first());
        if a.drop_first() == b.drop_first() {
            assert(a == seq![a[0]] + a.drop_first());
            assert(b == seq![b[0]] + b.drop_first());
        }
    } else if a.len() == 0 && b.len() == 0 {
        assert(a == b);
    }
}

/// Colours `code` and lays it out as styled characters.
///
/// The theme is "base16-ocean.dark", else "base16-mocha.dark", else the
/// bundled one whose name comes first. The syntax is the one for `extension`
/// when there is one, else plain text; plain text gives way to a syntax
/// recognised from the first line. The lines are highlighted in order by one
/// highlighter. Line breaks come out in the terminal's default colour, every
/// other character in an RGB colour of the theme.
pub fn highlight_code(code: &str, extension: Option<&str>) -> (out: Vec<StyledChar>)
    ensures
        out@ == coloured_code(code@, chosen_syntax(code@, opt_str_view(extension)), chosen_theme()),
        forall|k: int| 0 <= k < out@.len() ==> if (#[trigger] out@[k]).ch == '\r' || out@[k].ch == '\n' {
            out@[k].color == Tint::Reset
        } else {
            out@[k].color is Rgb
        },
{
    let bundled = load_bundled();
    let theme = match theme_named(&bundled, PREFERRED_THEME) {
        Some(t) => t,
        None => match theme_named(&bundled, SECOND_THEME) {
            Some(t) => t,
            None => match first_theme(&bundled) {
                Some(t) => {
                    proof {
                        lemma_first_choice(t.name@);
                    }
                    t
                },
                None => {
                    proof {
                        assert(!exists|n: Seq<char>| is_first_theme(n));
                    }
                    return Vec::new();
                },
            },
        },
    };
    assert(chosen_theme() == Some(theme.name@));
    let mut syntax = match syntax_named(&bundled, PLAIN_TEXT) {
        Some(s) => s,
        None => {
            return Vec::new();
        },
    };
    match extension {
        Some(ext) => match syntax_for_extension(&bundled, ext) {
            Some(s) => {
                syntax = s;
            },
            None => {},
        },
        None => {},
    }
    if syntax.name == String::from_str(PLAIN_TEXT) {
        match syntax_for_first_line(&bundled, code) {
            Some(s) => {
                syntax = s;
            },
            None => {},
        }
    }
    assert(chosen_syntax(code@, opt_str_view(extension)) == syntax.name@);
    let lines = lines_with_endings(code);
    let mut highlighter = highlighter_for(&syntax, &theme);
    let mut pieces: Vec<ColoredText> = Vec::new();
    let ghost sx = syntax.name@;
    let ghost th = theme.name@;
    let mut i: usize = 0;
    assert(lines.deep_view().take(0) =~= Seq::<Seq<char>>::empty());
    while i < lines.len()
        invariant
            i <= lines.len(),
            highlighter.syntax@ == sx,
            highlighter.theme@ == th,
            highlighter.done@ == lines.deep_view().take(i as int),
            piece_views(pieces@) == highlight_all(sx, th, lines.deep_view().take(i as int)),
            all_rgb(piece_views(pieces@)),
        decreases lines.len() - i,
    {
        let ghost before = pieces@;
        let mut line_pieces = highlight_line(&mut highlighter, lines[i].as_str(), &bundled);
        let ghost added = line_pieces@;
        pieces.append(&mut line_pieces);
        proof {
            let ls = lines.deep_view();
            assert(ls[i as int] == lines@[i as int]@);
            assert(ls.take(i + 1).drop_last() == ls.take(i as int));
            assert(ls.take(i + 1).last() == ls[i as int]);
            assert(ls.take(i as int).push(ls[i as int]) == ls.take(i + 1));
            assert(pieces@ == before + added);
            assert(piece_views(before + added) == piece_views(before) + piece_views(added));
            assert forall|j: int| 0 <= j < piece_views(pieces@).len() implies (#[trigger] piece_views(pieces@)[j]).0 is Rgb by {
                if j >= before.len() {
                    assert(piece_views(pieces@)[j] == piece_view(added[j - before.len()]));
                } else {
                    assert(piece_views(pieces@)[j] == piece_views(before)[j]);
                }
            }
        }
        i = i + 1;
    }
    proof {
        assert(lines.deep_view().take(lines.len() as int) == lines.deep_view());
        lemma_expanded_colours(piece_views(pieces@));
    }
    styled_chars(&pieces)
}

/// The first theme the wrapper reports is the chosen first theme.
proof fn lemma_first_choice(n: Seq<char>)
    requires
        is_first_theme(n),
    ensures
        first_bundled_theme() == Some(n),
{
    let m = choose|m: Seq<char>| is_first_theme(m);
    lemma_first_theme_unique(m, n);
}

/// The characters that one character of the text is shown as.
pub open spec fn shown_char(c: char) -> Seq<char> {
    if c == '\n' {
        seq!['\r', '\n']
    } else if c == '\r' {
        Seq::empty()
    } else if c == '\t' {
        seq![' ', ' ', ' ', ' ']
    } else {
        seq![c]
    }
}

/// The characters that a text is shown as.
pub open spec fn shown_text(s: Seq<char>) -> Seq<char>
    decreases s.len(),
{
    if s.len() == 0 {
        Seq::empty()
    } else {
        shown_text(s.drop_last()) + shown_char(s.last())
    }
}

/// The characters of styled characters.
pub open spec fn chars_of(sc: Seq<StyledChar>) -> Seq<char> {
    sc.map_values(|x: StyledChar| x.ch)
}

proof fn lemma_chars_of_append(a: Seq<StyledChar>, b: Seq<StyledChar>)
    ensures
        chars_of(a + b) == chars_of(a) + chars_of(b),
{
    assert(chars_of(a + b) =~= chars_of(a) + chars_of(b));
}

proof fn lemma_expand_text_chars(s: Seq<char>, color: Tint)
    ensures
        chars_of(expand_text(s, color)) == shown_text(s),
    decreases s.len(),
{
    if s.len() > 0 {
        lemma_expand_text_chars(s.drop_last(), color);
        lemma_chars_of_append(expand_text(s.drop_last(), color), expand_char(s.last(), color));
        assert(chars_of(expand_char(s.last(), color)) =~= shown_char(s.last()));
    }
}

/// Showing a text piece by piece is showing it whole.
pub proof fn lemma_shown_text_append(a: Seq<char>, b: Seq<char>)
    ensures
        shown_text(a + b) == shown_text(a) + shown_text(b),
    decreases b.len(),
{
    if b.len() == 0 {
        assert(a + b =~= a);
        assert(shown_text(a) + shown_text(b) =~= shown_text(a));
    } else {
        lemma_shown_text_append(a, b.drop_last());
        assert((a + b).drop_last() =~= a + b.drop_last());
        assert((a + b).last() == b.last());
        assert(shown_text(a) + shown_text(b.drop_last()) + shown_char(b.last())
            =~= shown_text(a) + (shown_text(b.drop_last()) + shown_char(b.last())));
    }
}

proof fn lemma_texts_append(a: Seq<(Tint, Seq<char>)>, b: Seq<(Tint, Seq<char>)>)
    ensures
        texts(a + b) == texts(a) + texts(b),
{
    assert(texts(a + b) =~= texts(a) + texts(b));
}

/// Colouring changes no character: the styled characters of coloured pieces
/// show exactly the pieces' joined text.
pub proof fn lemma_colouring_keeps_text(ps: Seq<(Tint, Seq<char>)>)
    ensures
        chars_of(expand_pieces(ps)) == shown_text(texts(ps).flatten_alt()),
    decreases ps.len(),
{
    if ps.len() > 0 {
        lemma_colouring_keeps_text(ps.drop_last());
        lemma_chars_of_append(expand_pieces(ps.drop_last()), expand_text(ps.last().1, ps.last().0));
        lemma_expand_text_chars(ps.last().1, ps.last().0);
        assert(texts(ps).drop_last() =~= texts(ps.drop_last()));
        assert(texts(ps).last() == ps.last().1);
        lemma_shown_text_append(texts(ps.drop_last()).flatten_alt(), ps.last().1);
    }
}

/// The shown text holds no tab, and every carriage return in it starts a
/// carriage return and line feed pair.
pub proof fn lemma_shown_text_layout(s: Seq<char>)
    ensures
        forall|i: int| 0 <= i < shown_text(s).len() ==> #[trigger] shown_text(s)[i] != '\t',
        forall|i: int|
            0 <= i < shown_text(s).len() && #[trigger] shown_text(s)[i] == '\r' ==> i + 1 < shown_text(s).len()
                && shown_text(s)[i + 1] == '\n',
    decreases s.len(),
{
    if s.len() > 0 {
        lemma_shown_text_layout(s.drop_last());
        let p = shown_text(s.drop_last());
        let q = shown_char(s.last());
        assert(shown_text(s) == p + q);
        assert forall|i: int| 0 <= i < shown_text(s).len() implies #[trigger] shown_text(s)[i] != '\t' by {
            if i >= p.len() {
                assert(shown_text(s)[i] == q[i - p.len()]);
            } else {
                assert(shown_text(s)[i] == p[i]);
            }
        }
        assert forall|i: int|
            0 <= i < shown_text(s).len() && #[trigger] shown_text(s)[i] == '\r' implies i + 1 < shown_text(s).len()
                && shown_text(s)[i + 1] == '\n' by {
            if i >= p.len() {
                assert(shown_text(s)[i] == q[i - p.len()]);
                assert(shown_text(s)[i + 1] == q[i + 1 - p.len()]);
            } else {
                assert(shown_text(s)[i] == p[i]);
                assert(shown_text(s)[i + 1] == p[i + 1]);
            }
        }
    }
}

proof fn lemma_joined_texts(syntax: Seq<char>, theme: Seq<char>, lines: Seq<Seq<char>>)
    requires
        forall|i: int| 0 <= i < lines.len() ==> texts(#[trigger] highlighted(syntax, theme, lines.take(i), lines[i])).flatten_alt() == lines[i],
    ensures
        texts(highlight_all(syntax, theme, lines)).flatten_alt() == lines.flatten_alt(),
    decreases lines.len(),
{
    if lines.len() > 0 {
        let n = lines.len() - 1;
        let front = lines.drop_last();
        assert forall|i: int| 0 <= i < front.len() implies texts(#[trigger] highlighted(syntax, theme, front.take(i), front[i])).flatten_alt() == front[i] by {
            assert(front.take(i) == lines.take(i));
            assert(front[i] == lines[i]);
            assert(texts(highlighted(syntax, theme, lines.take(i), lines[i])).flatten_alt() == lines[i]);
        }
        lemma_joined_texts(syntax, theme, front);
        let last = highlighted(syntax, theme, front, lines.last());
        assert(lines.take(n) == front);
        assert(texts(highlighted(syntax, theme, lines.take(n), lines[n])).flatten_alt() == lines[n]);
        lemma_texts_append(highlight_all(syntax, theme, front), last);
        vstd::seq_lib::lemma_flatten_alt_concat(texts(highlight_all(syntax, theme, front)), texts(last));
    }
}

/// When every line is highlighted without failing, the typed-out characters
/// are exactly the text shown as the terminal needs it: line breaks as
/// carriage return and line feed, tabs as four spaces, no lone carriage
/// returns.
pub proof fn lemma_full_highlight_shows_code(code: Seq<char>, syntax: Seq<char>, theme: Seq<char>)
    requires
        fully_highlighted(code, syntax, theme),
    ensures
        chars_of(coloured_code(code, syntax, Some(theme))) == shown_text(code),
{
    lemma_split_lines_are_lines(code);
    lemma_joined_texts(syntax, theme, split_lines(code));
    lemma_colouring_keeps_text(highlight_all(syntax, theme, split_lines(code)));
}

/// An extension that names no bundled syntax is the same as no extension.
pub proof fn lemma_unknown_extension_is_no_extension(code: Seq<char>, extension: Seq<char>)
    requires
        syntax_for_extension_name(extension) is None,
    ensures
        chosen_syntax(code, Some(extension)) == chosen_syntax(code, None),
{
}

/// Where a bundled syntax claims the extension and it is not plain text, it
/// is the syntax used, whatever the first line says.
pub proof fn lemma_known_extension_wins(code: Seq<char>, extension: Seq<char>, name: Seq<char>)
    requires
        syntax_for_extension_name(extension) == Some(name),
        name != PLAIN_TEXT@,
    ensures
        chosen_syntax(code, Some(extension)) == name,
{
}

/// The preferred theme is bundled, so it is the one used.
pub proof fn lemma_preferred_theme_used()
    ensures
        chosen_theme() == Some(PREFERRED_THEME@),
        chosen_theme() == Some("base16-ocean.dark"@),
{
}

/// Every line of `code` is highlighted without failing: its pieces join back
/// to the line.
pub open spec fn fully_highlighted(code: Seq<char>, syntax: Seq<char>, theme: Seq<char>) -> bool {
    forall|i: int|
        0 <= i < split_lines(code).len() ==> texts(
            #[trigger] highlighted(syntax, theme, split_lines(code).take(i), split_lines(code)[i]),
        ).flatten_alt() == split_lines(code)[i]
}

/// Every line of `code` is highlighted without failing, with the syntax
/// and theme `highlight_code` picks for it.
pub open spec fn highlights_fully(code: Seq<char>, extension: Option<Seq<char>>) -> bool {
    fully_highlighted(code, chosen_syntax(code, extension), PREFERRED_THEME@)
}

/// When every line highlights, `highlight_code` shows exactly the text, as
/// the terminal needs it.
pub proof fn lemma_highlight_code_keeps_text(code: Seq<char>, extension: Option<Seq<char>>)
    requires
        highlights_fully(code, extension),
    ensures
        chars_of(coloured_code(code, chosen_syntax(code, extension), chosen_theme())) == shown_text(code),
{
    lemma_full_highlight_shows_code(code, chosen_syntax(code, extension), PREFERRED_THEME@);
}

/// Highlighting two texts one after the other shows the same characters as
/// highlighting them joined, where every line highlights in each case.
pub proof fn lemma_highlight_code_concat(a: Seq<char>, b: Seq<char>, extension: Option<Seq<char>>)
    requires
        highlights_fully(a, extension),
        highlights_fully(b, extension),
        highlights_fully(a + b, extension),
    ensures
        chars_of(coloured_code(a + b, chosen_syntax(a + b, extension), chosen_theme())) == chars_of(
            coloured_code(a, chosen_syntax(a, extension), chosen_theme()),
        ) + chars_of(coloured_code(b, chosen_syntax(b, extension), chosen_theme())),
{
    lemma_highlight_code_keeps_text(a, extension);
    lemma_highlight_code_keeps_text(b, extension);
    lemma_highlight_code_keeps_text(a + b, extension);
    lemma_shown_text_append(a, b);
}

/// Every piece is coloured in RGB.
pub open spec fn all_rgb(ps: Seq<(Tint, Seq<char>)>) -> bool {
    forall|i: int| 0 <= i < ps.len() ==> (#[trigger] ps[i]).0 is Rgb
}

/// A piece's line breaks come out in the default colour, and all its other
/// characters (the four spaces of a tab among them) in the piece's colour.
pub proof fn lemma_piece_colours(s: Seq<char>, color: Tint)
    ensures
        forall|k: int| 0 <= k < expand_text(s, color).len() ==> if (#[trigger] expand_text(s, color)[k]).ch == '\r'
            || expand_text(s, color)[k].ch == '\n' {
            expand_text(s, color)[k].color == Tint::Reset
        } else {
            expand_text(s, color)[k].color == color
        },
        expand_char('\t', color) == seq![styled(' ', color), styled(' ', color), styled(' ', color), styled(' ', color)],
    decreases s.len(),
{
    if s.len() > 0 {
        lemma_piece_colours(s.drop_last(), color);
        let p = expand_text(s.drop_last(), color);
        let q = expand_char(s.last(), color);
        let e = expand_text(s, color);
        assert(e == p + q);
        assert forall|k: int| 0 <= k < e.len() implies if (#[trigger] e[k]).ch == '\r' || e[k].ch == '\n' {
            e[k].color == Tint::Reset
        } else {
            e[k].color == color
        } by {
            if k < p.len() {
                assert(e[k] == p[k]);
            } else {
                assert(e[k] == q[k - p.len()]);
            }
        }
    }
}

/// Expanded pieces: line breaks in the default colour; where every piece is
/// RGB, every other character is RGB.
pub proof fn lemma_expanded_colours(ps: Seq<(Tint, Seq<char>)>)
    requires
        all_rgb(ps),
    ensures
        forall|k: int| 0 <= k < expand_pieces(ps).len() ==> if (#[trigger] expand_pieces(ps)[k]).ch == '\r'
            || expand_pieces(ps)[k].ch == '\n' {
            expand_pieces(ps)[k].color == Tint::Reset
        } else {
            expand_pieces(ps)[k].color is Rgb
        },
    decreases ps.len(),
{
    if ps.len() > 0 {
        let front = ps.drop_last();
        assert forall|i: int| 0 <= i < front.len() implies (#[trigger] front[i]).0 is Rgb by {
            assert(front[i] == ps[i]);
        }
        lemma_expanded_colours(front);
        assert(ps[ps.len() - 1].0 is Rgb);
        lemma_piece_colours(ps.last().1, ps.last().0);
        let p = expand_pieces(front);
        let q = expand_text(ps.last().1, ps.last().0);
        let e = expand_pieces(ps);
        assert(e == p + q);
        assert forall|k: int| 0 <= k < e.len() implies if (#[trigger] e[k]).ch == '\r' || e[k].ch == '\n' {
            e[k].color == Tint::Reset
        } else {
            e[k].color is Rgb
        } by {
            if k < p.len() {
                assert(e[k] == p[k]);
            } else {
                assert(e[k] == q[k - p.len()]);
            }
        }
    }
}

/// A text with no line break, carriage return or tab is laid out as itself:
/// one styled character per character, in order, each in the piece's colour.
pub proof fn lemma_plain_text_kept(s: Seq<char>, color: Tint)
    requires
        forall|i: int| 0 <= i < s.len() ==> #[trigger] s[i] != '\n' && s[i] != '\r' && s[i] != '\t',
    ensures
        expand_text(s, color).len() == s.len(),
        forall|i: int| 0 <= i < s.len() ==> #[trigger] expand_text(s, color)[i] == (StyledChar { ch: s[i], color }),
        shown_text(s) == s,
    decreases s.len(),
{
    if s.len() > 0 {
        let t = s.drop_last();
        assert forall|i: int| 0 <= i < t.len() implies #[trigger] t[i] != '\n' && t[i] != '\r' && t[i] != '\t' by {
            assert(t[i] == s[i]);
        }
        lemma_plain_text_kept(t, color);
        let c = s.last();
        assert(s[s.len() - 1] == c);
        assert(expand_char(c, color) == seq![StyledChar { ch: c, color }]);
        assert(shown_char(c) == seq![c]);
        assert(t.push(c) == s);
        let e = expand_text(s, color);
        assert forall|i: int| 0 <= i < s.len() implies #[trigger] e[i] == (StyledChar { ch: s[i], color }) by {
            if i < t.len() {
                assert(e[i] == expand_text(t, color)[i]);
                assert(t[i] == s[i]);
            }
        }
    } else {
        assert(s =~= Seq::<char>::empty());
    }
}

/// Each kind of character is laid out as the raw-mode terminal needs it: a
/// line break as a carriage return and a line feed in the default colour, a
/// carriage return as nothing, a tab as four spaces in the piece's colour,
/// and every other character as itself in the piece's colour.
pub proof fn lemma_char_layout(c: char, color: Tint)
    ensures
        c == '\n' ==> expand_char(c, color) == seq![
            StyledChar { ch: '\r', color: Tint::Reset },
            StyledChar { ch: '\n', color: Tint::Reset },
        ],
        c == '\r' ==> expand_char(c, color).len() == 0,
        c == '\t' ==> expand_char(c, color) == seq![
            StyledChar { ch: ' ', color },
            StyledChar { ch: ' ', color },
            StyledChar { ch: ' ', color },
            StyledChar { ch: ' ', color },
        ],
        c != '\n' && c != '\r' && c != '\t' ==> expand_char(c, color) == seq![StyledChar { ch: c, color }],
        c != '\n' && c != '\r' && c != '\t' ==> shown_char(c) == seq![c],
{
}

/// A single piece of plain text (no line break, carriage return or tab)
/// comes out of `styled_chars` as exactly its characters, in its colour.
pub proof fn lemma_single_plain_piece(color: Tint, text: Seq<char>)
    requires
        forall|i: int| 0 <= i < text.len() ==> #[trigger] text[i] != '\n' && text[i] != '\r' && text[i] != '\t',
    ensures
        expand_pieces(seq![(color, text)]).len() == text.len(),
        forall|i: int| 0 <= i < text.len() ==> #[trigger] expand_pieces(seq![(color, text)])[i] == (StyledChar { ch: text[i], color }),
{
    let ps = seq![(color, text)];
    assert(ps.drop_last() =~= Seq::<(Tint, Seq<char>)>::empty());
    assert(ps.last() == (color, text));
    assert(expand_pieces(ps.drop_last()) == Seq::<StyledChar>::empty());
    assert(Seq::<StyledChar>::empty() + expand_text(text, color) =~= expand_text(text, color));
    assert(expand_pieces(ps) == expand_text(text, color));
    lemma_plain_text_kept(text, color);
}

/// First-line detection: where the extension names no syntax, names plain
/// text, or is missing, and syntect recognises a syntax from the start of the
/// text, that syntax is the one used.
pub proof fn lemma_first_line_detection(code: Seq<char>, extension: Option<Seq<char>>, n: Seq<char>)
    requires
        syntax_for_first_line_name(code) == Some(n),
        match extension {
            Some(e) => syntax_for_extension_name(e) is None || syntax_for_extension_name(e) == Some(PLAIN_TEXT@),
            None => true,
        },
    ensures
        chosen_syntax(code, extension) == n,
        chosen_syntax(code, None) == n,
{
}

/// With no extension and nothing recognised from the first line, the text is
/// plain text.
pub proof fn lemma_plain_text_fallback(code: Seq<char>)
    requires
        syntax_for_first_line_name(code) is None,
    ensures
        chosen_syntax(code, None) == PLAIN_TEXT@,
        chosen_syntax(code, None) == "Plain Text"@,
{
}

} // verus!
