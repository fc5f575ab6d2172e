use hacktyper::terminal::{identify_terminal, select_terminal};

#[test]
fn first_found_terminal_wins() {
    assert_eq!(select_terminal(&vec![false, true, false, false, true]), "gnome-terminal");
    assert_eq!(select_terminal(&vec![true, true, true, true, true]), "x-terminal-emulator");
    assert_eq!(select_terminal(&vec![false, false, false, false, true]), "xterm");
    assert_eq!(select_terminal(&vec![false, false, true, false, false]), "konsole");
    assert_eq!(select_terminal(&vec![false, false, false, true, false]), "alacritty");
}

#[test]
fn no_terminal_found_falls_back() {
    assert_eq!(select_terminal(&vec![false; 5]), "x-terminal-emulator");
}

#[test]
fn identified_terminal_is_a_candidate() {
    let t = identify_terminal();
    let names = ["x-terminal-emulator", "gnome-terminal", "konsole", "alacritty", "xterm"];
    assert!(names.contains(&t.as_str()));
}
