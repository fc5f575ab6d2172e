//! The choice of a terminal emulator for the extra windows.

use vstd::prelude::*;

verus! {

/// The terminal emulators tried, in order of preference: the Debian and
/// Ubuntu alias first, then common ones.
pub open spec fn terminal_candidates() -> Seq<Seq<char>> {
    seq![
        "x-terminal-emulator"@,
        "gnome-terminal"@,
        "konsole"@,
        "alacritty"@,
        "xterm"@,
    ]
}

/// The terminal used when none of the candidates is found.
pub open spec fn fallback_terminal() -> Seq<char> {
    "x-terminal-emulator"@
}

/// The candidates as strings.
fn candidates() -> (cs: Vec<&'static str>)
    ensures
        cs.deep_view() == terminal_candidates(),
{
    let cs = vec!["x-terminal-emulator", "gnome-terminal", "konsole", "alacritty", "xterm"];
    assert(cs.deep_view() =~= terminal_candidates());
    cs
}

/// `which::which(program).is_ok()`: whether an executable of that name is
/// found on the search path. The answer depends on the environment and the
/// disk, so nothing is claimed of it.
#[verifier::external_body]
fn on_path(program: &str) -> bool {
    which::which(program).is_ok()
}

/// The terminal to use, given which of the candidates were found: the first
/// one found, else the fallback.
pub fn select_terminal(found: &Vec<bool>) -> (t: String)
    requires
        found.len() == terminal_candidates().len(),
    ensures
        forall|i: int|
            0 <= i < found.len() && found@[i] && (forall|j: int| 0 <= j < i ==> !found@[j])
                ==> t@ == terminal_candidates()[i],
        (forall|i: int| 0 <= i < found.len() ==> !found@[i]) ==> t@ == fallback_terminal(),
{
    let cs = candidates();
    let mut i: usize = 0;
    while i < found.len()
        invariant
            i <= found.len(),
            found.len() == cs.len(),
            cs.deep_view() == terminal_candidates(),
            forall|j: int| 0 <= j < i ==> !found@[j],
        decreases found.len() - i,
    {
        if found[i] {
            let t = String::from_str(cs[i]);
            proof {
                assert(cs.deep_view()[i as int] == cs@[i as int]@);
            }
            return t;
        }
        i = i + 1;
    }
    String::from_str("x-terminal-emulator")
}

/// The terminal emulator to open the extra windows in: the first candidate
/// found on the search path, else `x-terminal-emulator`. Whatever the search
/// finds, the answer is one of the candidates.
pub fn identify_terminal() -> (t: String)
    ensures
        exists|i: int| 0 <= i < terminal_candidates().len() && t@ == #[trigger] terminal_candidates()[i],
{
    let cs = candidates();
    let mut found: Vec<bool> = Vec::new();
    let mut i: usize = 0;
    while i < cs.len()
        invariant
            i <= cs.len(),
            found@.len() == i,
            cs.deep_view() == terminal_candidates(),
        decreases cs.len() - i,
    {
        found.push(on_path(cs[i]));
        i = i + 1;
    }
    let t = select_terminal(&found);
    proof {
        if exists|k: int| 0 <= k < found.len() && found@[k] {
            let k = choose|k: int| 0 <= k < found.len() && found@[k];
            lemma_first_true(found@, k);
            let m = choose|m: int| 0 <= m <= k && found@[m] && forall|j: int| 0 <= j < m ==> !found@[j];
            assert(t@ == terminal_candidates()[m]);
        } else {
            assert(t@ == terminal_candidates()[0]);
        }
    }
    t
}

/// Where some entry is `true`, there is a first one.
proof fn lemma_first_true(found: Seq<bool>, k: int)
    requires
        0 <= k < found.len(),
        found[k],
    ensures
        exists|m: int| 0 <= m <= k && found[m] && forall|j: int| 0 <= j < m ==> !found[j],
    decreases k,
{
    if exists|j: int| 0 <= j < k && found[j] {
        let j = choose|j: int| 0 <= j < k && found[j];
        lemma_first_true(found, j);
    } else {
        assert(forall|j: int| 0 <= j < k ==> !found[j]);
    }
}

} // verus!
