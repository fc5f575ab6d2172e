use syntect::easy::HighlightLines;
use syntect::highlighting::ThemeSet;
use syntect::parsing::SyntaxSet;
use syntect::util::LinesWithEndings;
use hacktyper::highlight::{highlight_code, lines_with_endings, styled_chars, ColoredText, Tint};

fn text_of(v: &[hacktyper::highlight::StyledChar]) -> String {
    v.iter().map(|s| s.ch).collect()
}

#[test]
fn lines_keep_their_breaks() {
    assert_eq!(lines_with_endings("ab\ncd"), vec!["ab\n", "cd"]);
    assert_eq!(lines_with_endings("x\n"), vec!["x\n"]);
    assert_eq!(lines_with_endings("\n\n"), vec!["\n", "\n"]);
    assert!(lines_with_endings("").is_empty());
    assert_eq!(lines_with_endings("a\r\nb"), vec!["a\r\n", "b"]);
}

#[test]
fn pieces_become_styled_characters() {
    let red = Tint::Rgb { r: 200, g: 0, b: 0 };
    let pieces = vec![
        ColoredText { color: red, text: "a\tb".to_string() },
        ColoredText { color: red, text: "\r\n".to_string() },
    ];
    let out = styled_chars(&pieces);
    assert_eq!(text_of(&out), "a    b\r\n");
    assert!(matches!(out[0].color, Tint::Rgb { r: 200, g: 0, b: 0 }));
    assert!(matches!(out[2].color, Tint::Rgb { r: 200, .. }));
    assert!(matches!(out[6].color, Tint::Reset));
    assert!(matches!(out[7].color, Tint::Reset));
    assert!(styled_chars(&vec![]).is_empty());
}

#[test]
fn code_is_coloured_without_losing_text() {
    let out = highlight_code("fn main() {\n\tlet x = 1;\n}\n", Some("rs"));
    assert_eq!(text_of(&out), "fn main() {\r\n    let x = 1;\r\n}\r\n");
    assert!(out.iter().any(|s| matches!(s.color, Tint::Rgb { .. })));
}

#[test]
fn unknown_extension_is_plain_text() {
    let out = highlight_code("hello\nworld", Some("zzz-unknown"));
    assert_eq!(text_of(&out), "hello\r\nworld");
    let out = highlight_code("#!/bin/sh\necho hi\n", None);
    assert_eq!(text_of(&out), "#!/bin/sh\r\necho hi\r\n");
}

fn described(v: &[hacktyper::highlight::StyledChar]) -> Vec<String> {
    v.iter().map(|s| format!("{:?}", s)).collect()
}

#[test]
fn unknown_extension_is_like_no_extension() {
    let code = "#!/bin/sh\necho hi\tthere\n";
    let a = highlight_code(code, Some("zzqq"));
    let b = highlight_code(code, None);
    assert_eq!(described(&a), described(&b));
    assert!(!a.is_empty());
}

#[test]
fn colours_match_syntect_with_the_preferred_theme() {
    let code = "fn main() {\n    let x = \"hi\";\n}\n";
    let ps = SyntaxSet::load_defaults_newlines();
    let ts = ThemeSet::load_defaults();
    let syntax = ps.find_syntax_by_extension("rs").unwrap();
    let mut h = HighlightLines::new(syntax, &ts.themes["base16-ocean.dark"]);
    let mut expected = Vec::new();
    for line in LinesWithEndings::from(code) {
        for (style, text) in h.highlight_line(line, &ps).unwrap() {
            let fg = style.foreground;
            for c in text.chars() {
                if c == '\n' {
                    expected.push(('\r', None));
                    expected.push(('\n', None));
                } else {
                    expected.push((c, Some((fg.r, fg.g, fg.b))));
                }
            }
        }
    }
    let got: Vec<(char, Option<(u8, u8, u8)>)> = highlight_code(code, Some("rs"))
        .iter()
        .map(|s| match s.color {
            Tint::Rgb { r, g, b } => (s.ch, Some((r, g, b))),
            Tint::Reset => (s.ch, None),
        })
        .collect();
    assert_eq!(got, expected);
}

#[test]
fn bundled_syntaxes_have_distinct_names() {
    let ps = syntect::parsing::SyntaxSet::load_defaults_newlines();
    let mut names: Vec<&str> = ps.syntaxes().iter().map(|s| s.name.as_str()).collect();
    let all = names.len();
    names.sort();
    names.dedup();
    assert_eq!(names.len(), all);
    assert!(names.contains(&"Plain Text"));
    let ts = syntect::highlighting::ThemeSet::load_defaults();
    assert!(ts.themes.contains_key("base16-ocean.dark"));
}

#[test]
fn line_breaks_are_uncoloured_and_the_rest_is_rgb() {
    let out = highlight_code("fn main() {\n\tlet s = \"x\";\r\n}\n", Some("rs"));
    for s in &out {
        if s.ch == '\r' || s.ch == '\n' {
            assert!(matches!(s.color, Tint::Reset));
        } else {
            assert!(matches!(s.color, Tint::Rgb { .. }));
        }
    }
    let tab_at = text_of(&out).find("    let").unwrap();
    let spaces: Vec<String> = out[tab_at..tab_at + 4].iter().map(|s| format!("{:?}", s.color)).collect();
    assert!(spaces.iter().all(|c| c == &spaces[0]));
}

#[test]
fn joined_texts_show_joined_characters() {
    let a = "a = 1\n";
    let b = "b = 2\nc\n";
    let joined = format!("{}{}", a, b);
    let whole = text_of(&highlight_code(&joined, Some("py")));
    let parts = text_of(&highlight_code(a, Some("py"))) + &text_of(&highlight_code(b, Some("py")));
    assert_eq!(whole, parts);
}

#[test]
fn bundled_theme_keys_are_the_documented_ones() {
    let ts = ThemeSet::load_defaults();
    let keys: Vec<&str> = ts.themes.keys().map(|k| k.as_str()).collect();
    assert_eq!(
        keys,
        vec![
            "InspiredGitHub",
            "Solarized (dark)",
            "Solarized (light)",
            "base16-eighties.dark",
            "base16-mocha.dark",
            "base16-ocean.dark",
            "base16-ocean.light",
        ]
    );
}
