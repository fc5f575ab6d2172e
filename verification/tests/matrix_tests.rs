use hacktyper::matrix::{
    create_stream, glyphs_from_picks, rain_charset, rain_key, stream_frame, stream_target, Glyph,
    RainAction, RAIN_CHARS,
};
use hacktyper::ui::Key;

fn glyphs() -> Vec<char> {
    (0..40).map(|i| char::from(b'a' + (i % 26) as u8)).collect()
}

#[test]
fn charset_is_the_rain_characters() {
    let cs = rain_charset();
    assert_eq!(cs.len(), 71);
    assert_eq!(cs.iter().collect::<String>(), RAIN_CHARS);
    assert_eq!(cs[0], 'a');
    assert_eq!(cs[70], ')');
}

#[test]
fn head_and_trail_are_drawn() {
    let g = glyphs();
    let d = stream_frame(5, 2, 3, 10, 5, &g);
    assert_eq!(d.len(), 2);
    assert_eq!((d[0].x, d[0].y), (5, 3));
    assert!(matches!(d[0].glyph, Glyph::Head('d')));
    assert_eq!((d[1].x, d[1].y), (5, 2));
    assert!(matches!(d[1].glyph, Glyph::Trail('c')));
}

#[test]
fn tail_end_is_erased() {
    let g = glyphs();
    let d = stream_frame(1, 7, 8, 10, 5, &g);
    assert_eq!(d.len(), 3);
    assert!(matches!(d[2].glyph, Glyph::Blank));
    assert_eq!((d[2].x, d[2].y), (1, 3));
}

#[test]
fn rows_wrap_over_the_characters() {
    let g = glyphs();
    let d = stream_frame(0, 44, 45, 100, 5, &g);
    assert!(matches!(d[0].glyph, Glyph::Head(c) if c == g[45 % 40]));
}

#[test]
fn off_screen_and_still_streams_draw_nothing_there() {
    let g = glyphs();
    assert!(stream_frame(0, 3, 3, 10, 5, &g).is_empty());
    assert!(stream_frame(0, -5, -4, 10, 5, &g).is_empty());
    let below = stream_frame(0, 12, 13, 10, 5, &g);
    assert_eq!(below.len(), 1);
    assert!(matches!(below[0].glyph, Glyph::Blank));
    assert_eq!(below[0].y, 8);
    let entering = stream_frame(0, -1, 0, 10, 5, &g);
    assert_eq!(entering.len(), 1);
    assert!(matches!(entering[0].glyph, Glyph::Head('a')));
}

#[test]
fn new_streams_are_within_bounds() {
    let cs = rain_charset();
    let mut rng = rand::rng();
    for col in 0..50u16 {
        let s = create_stream(col, &mut rng, &cs);
        assert_eq!(s.col, col);
        assert!((5..20).contains(&s.len));
        assert!(s.rise < 10);
        assert_eq!(s.chars.len(), 40);
        assert!(s.chars.iter().all(|c| cs.contains(c)));
    }
}

#[test]
fn picks_select_characters() {
    let cs = vec!['x', 'y', 'z'];
    assert_eq!(glyphs_from_picks(&cs, &vec![2, 0, 0, 1]), vec!['z', 'x', 'x', 'y']);
}

#[test]
fn population_is_half_the_columns() {
    assert_eq!(stream_target(81), 40);
    assert_eq!(stream_target(0), 0);
}

#[test]
fn escape_leaves_the_rain() {
    assert!(matches!(rain_key(Key::Esc), RainAction::Quit));
    assert!(matches!(rain_key(Key::Char('a')), RainAction::Stir));
}

#[test]
fn random_columns_fit_the_screen() {
    let mut rng = rand::rng();
    for _ in 0..200 {
        assert!(hacktyper::matrix::random_column(&mut rng, 7) < 7);
    }
    assert_eq!(hacktyper::matrix::random_column(&mut rng, 1), 0);
}
