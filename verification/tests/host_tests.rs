use presence::host::{handle_script_call, request_kind, Command, CommandError, Reply, RequestKind, MAX_NAME_LEN};
use presence::model::{Presence, State, WinState};
use presence::window::{next_action, LoopAction};

fn named(name: &str) -> Presence {
    Presence {
        application_id: 1,
        name: name.to_string(),
        elapsed: 0,
        active_presence: 0,
        time_presences: vec![],
    }
}

fn state_of(names: &[&str]) -> State {
    let mut s = State::new();
    for n in names {
        s.presences.push(named(n));
    }
    s
}

fn names(s: &State) -> Vec<String> {
    s.presences.iter().map(|p| p.name.clone()).collect()
}

#[test]
fn add_a_new_presence() {
    let mut s = state_of(&["a", "b"]);
    let mut ws: WinState<()> = WinState::Opening;
    match handle_script_call(&mut s, &mut ws, Command::AddPresence(None)) {
        Ok(Reply::Added(i)) => assert_eq!(i, 2),
        _ => panic!("not added"),
    }
    assert_eq!(names(&s), vec!["a", "b", "Presence 3"]);
}

#[test]
fn add_a_given_presence() {
    let mut s = state_of(&["a"]);
    assert_eq!(s.add_presence(Some(named("z"))), 1);
    assert_eq!(names(&s), vec!["a", "z"]);
}

#[test]
fn delete_shifts_the_later_presences() {
    let mut s = state_of(&["a", "b", "c"]);
    s.current = 2;
    let mut ws: WinState<()> = WinState::Tray;
    assert!(matches!(handle_script_call(&mut s, &mut ws, Command::DelPresence(0)), Ok(Reply::Done)));
    assert_eq!(names(&s), vec!["b", "c"]);
    assert_eq!(s.current, 2);
}

#[test]
fn add_then_delete_restores() {
    let mut s = state_of(&["a", "b"]);
    let i = s.add_presence(None);
    s.del_presence(i);
    assert_eq!(names(&s), vec!["a", "b"]);
}

#[test]
fn rename_checks_the_length() {
    let mut s = state_of(&["a", "b"]);
    assert_eq!(MAX_NAME_LEN, 16);
    assert_eq!(s.rename_presence(1, "x".repeat(17)), Err(CommandError::NameTooLong));
    assert_eq!(s.rename_presence(1, String::new()), Err(CommandError::NameEmpty));
    assert_eq!(s.rename_presence(9, String::new()), Err(CommandError::NameEmpty));
    assert_eq!(names(&s), vec!["a", "b"]);
    assert_eq!(s.rename_presence(1, "x".repeat(16)), Ok(()));
    assert_eq!(names(&s), vec!["a".to_string(), "x".repeat(16)]);
}

#[test]
fn rename_counts_bytes() {
    let mut s = state_of(&["a"]);
    assert_eq!(s.rename_presence(0, "é".repeat(9)), Err(CommandError::NameTooLong));
    assert_eq!(s.rename_presence(0, "é".repeat(8)), Ok(()));
}

#[test]
fn rename_errors_through_the_dispatcher() {
    let mut s = state_of(&["a"]);
    let mut ws: WinState<()> = WinState::Tray;
    let r = handle_script_call(&mut s, &mut ws, Command::RenamePresence(0, String::new()));
    match r {
        Err(e) => assert_eq!(e.message(), "Presence name cannot be empty!"),
        Ok(_) => panic!("accepted an empty name"),
    }
    assert_eq!(CommandError::NameTooLong.message(), "Presence name cannot be over 16 characters!");
}

#[test]
fn reorder_moves_one_presence() {
    let mut s = state_of(&["a", "b", "c", "d"]);
    s.reorder_presence(0, 2);
    assert_eq!(names(&s), vec!["b", "c", "a", "d"]);
    s.reorder_presence(3, 0);
    assert_eq!(names(&s), vec!["d", "b", "c", "a"]);
}

#[test]
fn reorder_back_restores() {
    let mut s = state_of(&["a", "b", "c", "d"]);
    s.reorder_presence(1, 3);
    s.reorder_presence(3, 1);
    assert_eq!(names(&s), vec!["a", "b", "c", "d"]);
}

#[test]
fn activate_and_update_the_current_presence() {
    let mut s = state_of(&["a", "b"]);
    let mut ws: WinState<()> = WinState::Tray;
    assert!(matches!(handle_script_call(&mut s, &mut ws, Command::ActivatePresence(1)), Ok(Reply::Activated(1))));
    assert_eq!(s.current, 1);
    assert!(matches!(handle_script_call(&mut s, &mut ws, Command::UpdatePresence(named("new"))), Ok(Reply::Done)));
    assert_eq!(names(&s), vec!["a", "new"]);
}

#[test]
fn serialise_and_parse_hand_back() {
    let mut s = state_of(&["a", "b"]);
    let mut ws: WinState<()> = WinState::Tray;
    assert!(matches!(handle_script_call(&mut s, &mut ws, Command::SerPresence(1)), Ok(Reply::Serialize(1))));
    match handle_script_call(&mut s, &mut ws, Command::DePresence(named("q"))) {
        Ok(Reply::Parsed(p)) => assert_eq!(p.name, "q"),
        _ => panic!("not parsed"),
    }
    assert_eq!(names(&s), vec!["a", "b"]);
}

#[test]
fn new_time_presence_through_the_dispatcher() {
    let mut s = State::new();
    let mut ws: WinState<()> = WinState::Tray;
    match handle_script_call(&mut s, &mut ws, Command::NewTimePresence) {
        Ok(Reply::NewTimePresence(t)) => assert_eq!(t.state, "Hello world!"),
        _ => panic!("no time presence"),
    }
}

#[test]
fn window_reports() {
    let mut s = State::new();
    let mut ws: WinState<u8> = WinState::Open(3);
    assert!(matches!(handle_script_call(&mut s, &mut ws, Command::Win("minimise".to_string())), Ok(Reply::Done)));
    assert!(matches!(ws, WinState::Open(3)));
    assert_eq!(next_action(&ws), LoopAction::Wait);
    handle_script_call(&mut s, &mut ws, Command::Win("closing".to_string())).ok();
    assert!(matches!(ws, WinState::Closing));
    assert_eq!(next_action(&ws), LoopAction::Exit);
    handle_script_call(&mut s, &mut ws, Command::Win("opening".to_string())).ok();
    assert_eq!(next_action(&ws), LoopAction::Exit);
}

#[test]
fn main_loop_actions() {
    assert_eq!(next_action::<u8>(&WinState::Opening), LoopAction::OpenWindow);
    assert_eq!(next_action::<u8>(&WinState::Tray), LoopAction::Wait);
    assert_eq!(next_action::<u8>(&WinState::Open(1)), LoopAction::Wait);
    assert_eq!(next_action::<u8>(&WinState::Closing), LoopAction::Exit);
}

#[test]
fn request_names_and_arities() {
    assert_eq!(request_kind("add_presence", 1), Some(RequestKind::AddPresence));
    assert_eq!(request_kind("del_presence", 1), Some(RequestKind::DelPresence));
    assert_eq!(request_kind("rename_presence", 2), Some(RequestKind::RenamePresence));
    assert_eq!(request_kind("ser_presence", 1), Some(RequestKind::SerPresence));
    assert_eq!(request_kind("de_presence", 1), Some(RequestKind::DePresence));
    assert_eq!(request_kind("reorder_presence", 2), Some(RequestKind::ReorderPresence));
    assert_eq!(request_kind("activate_presence", 1), Some(RequestKind::ActivatePresence));
    assert_eq!(request_kind("update_presence", 1), Some(RequestKind::UpdatePresence));
    assert_eq!(request_kind("new_time_presence", 0), Some(RequestKind::NewTimePresence));
    assert_eq!(request_kind("win", 1), Some(RequestKind::Win));
}

#[test]
fn unknown_requests() {
    assert_eq!(request_kind("add_presence", 0), None);
    assert_eq!(request_kind("rename_presence", 1), None);
    assert_eq!(request_kind("new_time_presence", 1), None);
    assert_eq!(request_kind("load", 1), None);
    assert_eq!(request_kind("", 0), None);
}
