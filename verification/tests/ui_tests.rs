use hacktyper::ui::{
    poll_millis, popup_layout, ui_start, ui_step, Input, Key, Sound, UiAction, UiState,
};

fn press(s: &UiState, key: Key, len: usize) -> (UiState, UiAction, Sound) {
    let (next, out) = ui_step(s, Input::Pressed(key), len);
    (next, out.action, out.sound)
}

#[test]
fn start_state_types_from_the_beginning() {
    let s = ui_start(3, true);
    assert_eq!(s.index, 0);
    assert_eq!(s.chunk_size, 3);
    assert!(!s.freestyle);
    assert!(!s.agent);
    assert!(s.sound);
}

#[test]
fn typing_walks_through_content_then_restarts() {
    let mut s = ui_start(3, true);
    let mut ends = Vec::new();
    for _ in 0..4 {
        let (next, action, sound) = press(&s, Key::Char('x'), 10);
        match action {
            UiAction::Type { start, end } => {
                assert_eq!(start, s.index);
                ends.push(end);
            }
            other => panic!("unexpected action {:?}", other),
        }
        assert!(matches!(sound, Sound::Click));
        s = next;
    }
    assert_eq!(ends, vec![3, 6, 9, 10]);
    let (next, action, _) = press(&s, Key::Enter, 10);
    assert!(matches!(action, UiAction::Restart));
    assert_eq!(next.index, 0);
}

#[test]
fn escape_quits_without_change() {
    let s = UiState { index: 4, chunk_size: 2, freestyle: true, agent: true, sound: true };
    let (next, action, sound) = press(&s, Key::Esc, 10);
    assert!(matches!(action, UiAction::Quit));
    assert!(matches!(sound, Sound::Silent));
    assert_eq!(next.index, 4);
    assert!(next.freestyle && next.agent);
}

#[test]
fn speed_keys_change_chunk_size() {
    let s = ui_start(1, false);
    let (s, _, _) = press(&s, Key::Up, 10);
    assert_eq!(s.chunk_size, 2);
    let (s, _, _) = press(&s, Key::Down, 10);
    assert_eq!(s.chunk_size, 1);
    let (s, _, _) = press(&s, Key::Down, 10);
    assert_eq!(s.chunk_size, 1);
    let zero = ui_start(0, false);
    let (s, _, _) = press(&zero, Key::Down, 10);
    assert_eq!(s.chunk_size, 1);
    let top = ui_start(usize::MAX, false);
    let (s, _, _) = press(&top, Key::Up, 10);
    assert_eq!(s.chunk_size, usize::MAX);
}

#[test]
fn result_popups_reset_the_content() {
    let s = UiState { index: 7, chunk_size: 2, freestyle: false, agent: false, sound: true };
    let (next, action, sound) = press(&s, Key::Function(1), 10);
    assert!(matches!(action, UiAction::Popup(true)));
    assert!(matches!(sound, Sound::Chime(true)));
    assert_eq!(next.index, 0);
    let (next, action, sound) = press(&s, Key::Function(2), 10);
    assert!(matches!(action, UiAction::Popup(false)));
    assert!(matches!(sound, Sound::Chime(false)));
    assert_eq!(next.index, 0);
    let quiet = UiState { sound: false, ..s };
    let (_, _, sound) = press(&quiet, Key::Function(1), 10);
    assert!(matches!(sound, Sound::Silent));
}

#[test]
fn mode_keys_toggle() {
    let s = ui_start(3, true);
    let (s1, action, _) = press(&s, Key::Function(3), 10);
    assert!(matches!(action, UiAction::Idle));
    assert!(s1.freestyle);
    let (s2, _, _) = press(&s1, Key::Function(3), 10);
    assert!(!s2.freestyle);
    let (a1, _, _) = press(&s, Key::Function(4), 10);
    assert!(a1.agent);
    let (a2, _, _) = press(&a1, Key::Function(4), 10);
    assert!(!a2.agent);
}

#[test]
fn freestyle_echoes_keys() {
    let s = UiState { index: 2, chunk_size: 3, freestyle: true, agent: false, sound: true };
    let (next, action, sound) = press(&s, Key::Char('q'), 10);
    assert!(matches!(action, UiAction::Echo('q')));
    assert!(matches!(sound, Sound::Click));
    assert_eq!(next.index, 2);
    assert!(matches!(press(&s, Key::Enter, 10).1, UiAction::NewLine));
    assert!(matches!(press(&s, Key::Backspace, 10).1, UiAction::Erase(1)));
    assert!(matches!(press(&s, Key::Tab, 10).1, UiAction::Indent));
    assert!(matches!(press(&s, Key::BackTab, 10).1, UiAction::Erase(4)));
    let (_, action, sound) = press(&s, Key::Other, 10);
    assert!(matches!(action, UiAction::Idle));
    assert!(matches!(sound, Sound::Silent));
    let (_, action, _) = press(&s, Key::Null, 10);
    assert!(matches!(action, UiAction::Idle));
}

#[test]
fn agent_mode_types_on_timeout() {
    let s = UiState { index: 0, chunk_size: 4, freestyle: false, agent: true, sound: false };
    let (next, out) = ui_step(&s, Input::Timeout, 10);
    assert!(matches!(out.action, UiAction::Type { start: 0, end: 4 }));
    assert!(matches!(out.sound, Sound::Silent));
    assert_eq!(next.index, 4);
    let idle = UiState { agent: false, ..s };
    let (next, out) = ui_step(&idle, Input::Timeout, 10);
    assert!(matches!(out.action, UiAction::Idle));
    assert_eq!(next.index, 0);
    let (_, out) = ui_step(&s, Input::Ignored, 10);
    assert!(matches!(out.action, UiAction::Idle));
}

#[test]
fn agent_mode_polls_faster() {
    assert_eq!(poll_millis(&ui_start(3, true)), 50);
    let s = UiState { agent: true, ..ui_start(3, true) };
    assert_eq!(poll_millis(&s), 30);
}

#[test]
fn popup_is_centred() {
    let p = popup_layout(80, 24, true);
    assert_eq!(p.text, " ACCESS GRANTED ");
    assert_eq!((p.x, p.y), (32, 12));
    let p = popup_layout(80, 25, false);
    assert_eq!(p.text, " ACCESS DENIED ");
    assert_eq!((p.x, p.y), (32, 12));
    let p = popup_layout(10, 3, true);
    assert_eq!((p.x, p.y), (0, 1));
}

#[test]
fn empty_content_restarts_at_once() {
    let s = ui_start(3, true);
    let (next, action, _) = press(&s, Key::Char('a'), 0);
    assert!(matches!(action, UiAction::Restart));
    assert_eq!(next.index, 0);
}

fn written(action: UiAction) -> Vec<i64> {
    match action {
        UiAction::Type { start, end } => (start..end).map(|p| p as i64).collect(),
        UiAction::Restart => vec![-1],
        _ => vec![],
    }
}

#[test]
fn typing_repeats_the_content_with_a_clear_between_passes() {
    let mut s = ui_start(2, true);
    let mut out = Vec::new();
    for _ in 0..9 {
        let (next, action, _) = press(&s, Key::Char('k'), 5);
        out.extend(written(action));
        s = next;
    }
    assert_eq!(out, vec![0, 1, 2, 3, 4, -1, 0, 1, 2, 3, 4, -1, 0, 1]);
}

#[test]
fn sound_setting_changes_no_action() {
    let keys = [Key::Char('a'), Key::Up, Key::Function(3), Key::Tab, Key::Function(3), Key::Function(1), Key::Null, Key::Esc];
    let mut loud = ui_start(2, true);
    let mut quiet = ui_start(2, false);
    for k in keys {
        let (l, la, _) = press(&loud, k, 7);
        let (q, qa, qs) = press(&quiet, k, 7);
        assert_eq!(format!("{:?}", la), format!("{:?}", qa));
        assert!(matches!(qs, Sound::Silent));
        assert_eq!((l.index, l.chunk_size, l.freestyle, l.agent), (q.index, q.chunk_size, q.freestyle, q.agent));
        loud = l;
        quiet = q;
    }
}
