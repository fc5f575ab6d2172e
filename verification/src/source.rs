//! The text that the typing screen types out.

use vstd::prelude::*;

verus! {

/// The built-in text, typed out when no file is given or the file cannot be read.
pub const DEFAULT_CODE: &'static str = r#"
// MATRIX CORE SYSTEM - SECURITY LEVEL 9
// ACCESSING MAINFRAME...

use std::matrix::render;
use system::kernel::{inject, bypass};

fn main() -> SystemResult<()> {
    let mut cyberspace = Matrix::connect("192.168.0.1");
    
    // Breaking encryption layer...
    for attempt in 0..u64::MAX {
        if cyberspace.crack_node(attempt) {
            println!("ACCESS GRANTED: NODE_{}", attempt);
            break;
        }
    }

    // Injecting payload
    let payload = vec![0xDE, 0xAD, 0xBE, 0xEF];
    unsafe {
        system::memory::write(0x0000_FFFF, payload);
    }

    // Downloading secret data...
    let secrets = cyberspace.download("/root/passwords.db");
    
    // Covering tracks
    system::logs::wipe_all();
    
    Ok(())
}

// END OF TRANSMISSION
"#;

/// How many times the text is repeated, so that typing does not run out early.
pub const REPEAT_COUNT: usize = 100;

/// `s` written `n` times in a row.
pub open spec fn repeat_seq(s: Seq<char>, n: nat) -> Seq<char>
    decreases n,
{
    if n == 0 {
        Seq::empty()
    } else {
        repeat_seq(s, (n - 1) as nat) + s
    }
}

/// `s` written `times` times in a row.
pub fn repeat_text(s: &str, times: usize) -> (r: String)
    ensures
        r@ == repeat_seq(s@, times as nat),
{
    let mut r = String::new();
    let mut i: usize = 0;
    while i < times
        invariant
            i <= times,
            r@ == repeat_seq(s@, i as nat),
        decreases times - i,
    {
        r.append(s);
        i = i + 1;
    }
    r
}

/// What reading the file named on the command line gave.
pub struct FileText {
    /// The file name's extension, when it has one that is valid UTF-8.
    pub extension: Option<String>,
    /// The file's contents, or `None` when it could not be read as text.
    pub content: Option<String>,
}

/// The extension used for the built-in text: it is Rust code.
pub open spec fn default_extension() -> Seq<char> {
    "rs"@
}

/// The view of an optional string.
pub open spec fn opt_view(o: Option<String>) -> Option<Seq<char>> {
    match o {
        Some(s) => Some(s@),
        None => None,
    }
}

/// The text to type and the extension that decides its colouring.
///
/// Without a file: the built-in text, as Rust. With a file: its contents, or
/// the built-in text when it could not be read; the extension is always the
/// file's own.
pub fn select_source(file: Option<FileText>) -> (r: (String, Option<String>))
    ensures
        match file {
            None => r.0@ == DEFAULT_CODE@ && opt_view(r.1) == Some(default_extension()),
            Some(f) => {
                &&& r.0@ == (match f.content {
                    Some(c) => c@,
                    None => DEFAULT_CODE@,
                })
                &&& opt_view(r.1) == opt_view(f.extension)
            },
        },
{
    match file {
        None => (String::from_str(DEFAULT_CODE), Some(String::from_str("rs"))),
        Some(f) => {
            let code = match f.content {
                Some(c) => c,
                None => String::from_str(DEFAULT_CODE),
            };
            (code, f.extension)
        },
    }
}

/// The text actually typed: the chosen text repeated `REPEAT_COUNT` times.
pub fn full_code(code: &str) -> (r: String)
    ensures
        r@ == repeat_seq(code@, REPEAT_COUNT as nat),
        r@ == repeat_seq(code@, 100),
{
    repeat_text(code, REPEAT_COUNT)
}


/// Repeating a text `n` times makes it `n` times as long.
pub proof fn lemma_repeat_len(s: Seq<char>, n: nat)
    ensures
        repeat_seq(s, n).len() == n * s.len(),
    decreases n,
{
    if n > 0 {
        lemma_repeat_len(s, (n - 1) as nat);
        assert((n - 1) * s.len() + s.len() == n * s.len()) by (nonlinear_arith);
    } else {
        assert(n * s.len() == 0) by (nonlinear_arith)
            requires
                n == 0,
        ;
    }
}

/// Every character of the repeated text is the character at the same place
/// in the original, counted modulo its length.
pub proof fn lemma_repeat_index(s: Seq<char>, n: nat, i: int)
    requires
        0 <= i < n * s.len(),
    ensures
        s.len() > 0,
        repeat_seq(s, n)[i] == s[i % (s.len() as int)],
    decreases n,
{
    lemma_repeat_len(s, n);
    if n == 0 {
        assert(n * s.len() == 0) by (nonlinear_arith)
            requires
                n == 0,
        ;
    }
    if s.len() == 0 {
        assert(n * s.len() == 0) by (nonlinear_arith)
            requires
                s.len() == 0,
        ;
    }
    let m = (n - 1) as nat;
    lemma_repeat_len(s, m);
    assert(m * s.len() + s.len() == n * s.len()) by (nonlinear_arith)
        requires
            m == n - 1,
    ;
    if i < m * s.len() {
        lemma_repeat_index(s, m, i);
    } else {
        let k = i - m * s.len();
        assert(0 <= k < s.len());
        assert(i % (s.len() as int) == k) by (nonlinear_arith)
            requires
                i == m * s.len() + k,
                0 <= k < s.len(),
        ;
    }
}

} // verus!
