use claude_sessions::input::handle_key;
use claude_sessions::input::handle_mouse;
use claude_sessions::input::Action;
use claude_sessions::input::CreatePullRequestField;
use claude_sessions::input::KeyCode;
use claude_sessions::input::KeyEvent;
use claude_sessions::input::ListArea;
use claude_sessions::input::Mode;
use claude_sessions::input::MouseButton;
use claude_sessions::input::MouseEvent;
use claude_sessions::input::MouseEventKind;
use claude_sessions::input::NewSessionField;
use claude_sessions::input::NewWorktreeField;
use claude_sessions::scroll_state::ScrollState;

fn key(code: KeyCode) -> KeyEvent {
    KeyEvent { code, ctrl: false }
}

fn ch(c: char) -> KeyEvent {
    key(KeyCode::Char(c))
}

fn worktree(field: NewWorktreeField, selected_branch: Option<usize>) -> Mode {
    Mode::NewWorktree {
        branch_input: String::from("feat"),
        worktree_path: String::from("/tmp/w"),
        session_name: String::from("s1"),
        path_selected: Some(2),
        field,
        selected_branch,
    }
}

#[test]
fn normal_mode_keys() {
    let cases = [
        (ch('q'), Action::Quit),
        (key(KeyCode::Esc), Action::Quit),
        (ch('j'), Action::SelectNext),
        (key(KeyCode::Down), Action::SelectNext),
        (ch('k'), Action::SelectPrev),
        (key(KeyCode::Up), Action::SelectPrev),
        (ch('l'), Action::EnterActionMenu),
        (key(KeyCode::Right), Action::EnterActionMenu),
        (key(KeyCode::Enter), Action::SwitchToSelected),
        (ch('n'), Action::StartNewSession),
        (ch('K'), Action::StartKill),
        (ch('r'), Action::StartRename),
        (ch('/'), Action::StartFilter),
        (KeyEvent { code: KeyCode::Char('c'), ctrl: true }, Action::ClearFilter),
        (ch('c'), Action::Nothing),
        (ch('R'), Action::Refresh),
        (ch('?'), Action::ShowHelp),
        (ch('x'), Action::Nothing),
        (key(KeyCode::Tab), Action::Nothing),
    ];
    for (k, a) in cases {
        let mut m = Mode::Normal;
        assert_eq!(handle_key(&mut m, k, 0), a, "{:?}", k);
        assert!(matches!(m, Mode::Normal));
    }
}

#[test]
fn action_menu_confirm_and_help_keys() {
    let mut m = Mode::ActionMenu;
    assert_eq!(handle_key(&mut m, ch('j'), 0), Action::SelectNextAction);
    assert_eq!(handle_key(&mut m, key(KeyCode::Up), 0), Action::SelectPrevAction);
    assert_eq!(handle_key(&mut m, key(KeyCode::Right), 0), Action::ExecuteSelectedAction);
    assert_eq!(handle_key(&mut m, key(KeyCode::Enter), 0), Action::ExecuteSelectedAction);
    assert_eq!(handle_key(&mut m, ch('h'), 0), Action::Cancel);
    assert_eq!(handle_key(&mut m, key(KeyCode::Esc), 0), Action::Cancel);
    assert_eq!(handle_key(&mut m, ch('q'), 0), Action::Quit);
    assert_eq!(handle_key(&mut m, ch('z'), 0), Action::Nothing);

    let mut m = Mode::ConfirmAction;
    assert_eq!(handle_key(&mut m, ch('y'), 0), Action::ConfirmAction);
    assert_eq!(handle_key(&mut m, ch('Y'), 0), Action::ConfirmAction);
    assert_eq!(handle_key(&mut m, key(KeyCode::Enter), 0), Action::ConfirmAction);
    assert_eq!(handle_key(&mut m, ch('N'), 0), Action::Cancel);
    assert_eq!(handle_key(&mut m, key(KeyCode::Esc), 0), Action::Cancel);
    assert_eq!(handle_key(&mut m, ch('x'), 0), Action::Nothing);

    let mut m = Mode::Help;
    assert_eq!(handle_key(&mut m, ch('?'), 0), Action::Cancel);
    assert_eq!(handle_key(&mut m, ch('q'), 0), Action::Cancel);
    assert_eq!(handle_key(&mut m, ch('h'), 0), Action::Nothing);
}

#[test]
fn filter_and_commit_take_any_character() {
    let mut m = Mode::Filter { input: String::new() };
    assert_eq!(handle_key(&mut m, ch('a'), 0), Action::Nothing);
    assert_eq!(handle_key(&mut m, ch(' '), 0), Action::Nothing);
    assert_eq!(handle_key(&mut m, ch('é'), 0), Action::Nothing);
    assert_eq!(handle_key(&mut m, key(KeyCode::Backspace), 0), Action::Nothing);
    assert_eq!(handle_key(&mut m, key(KeyCode::Enter), 0), Action::ApplyFilter);
    match &m {
        Mode::Filter { input } => assert_eq!(input, "a "),
        _ => panic!("mode changed"),
    }
    assert_eq!(handle_key(&mut m, key(KeyCode::Esc), 0), Action::Cancel);

    let mut m = Mode::Commit { message: String::from("fix") };
    handle_key(&mut m, ch('!'), 0);
    assert_eq!(handle_key(&mut m, key(KeyCode::Enter), 0), Action::ConfirmCommit);
    match &m {
        Mode::Commit { message } => assert_eq!(message, "fix!"),
        _ => panic!("mode changed"),
    }
}

#[test]
fn rename_accepts_only_session_name_characters() {
    let mut m = Mode::Rename { new_name: String::new() };
    for c in ['a', 'B', '3', '-', '_', ' ', '/', '.', 'ß'] {
        handle_key(&mut m, ch(c), 0);
    }
    assert_eq!(handle_key(&mut m, key(KeyCode::Enter), 0), Action::ConfirmRename);
    match &m {
        Mode::Rename { new_name } => assert_eq!(new_name, "aB3-_ß"),
        _ => panic!("mode changed"),
    }
    let mut empty = Mode::Rename { new_name: String::new() };
    handle_key(&mut empty, key(KeyCode::Backspace), 0);
    match &empty {
        Mode::Rename { new_name } => assert_eq!(new_name, ""),
        _ => panic!("mode changed"),
    }
}

#[test]
fn new_session_form() {
    let mut m = Mode::NewSession {
        name: String::new(),
        path: String::from("/ho"),
        field: NewSessionField::Name,
        path_selected: Some(1),
    };
    assert_eq!(handle_key(&mut m, ch('x'), 0), Action::Nothing);
    assert_eq!(handle_key(&mut m, ch('.'), 0), Action::Nothing);
    assert_eq!(handle_key(&mut m, key(KeyCode::Up), 0), Action::Nothing);
    assert_eq!(handle_key(&mut m, key(KeyCode::Tab), 0), Action::Nothing);
    assert_eq!(handle_key(&mut m, key(KeyCode::Up), 0), Action::SelectPrevNewSessionPath);
    assert_eq!(handle_key(&mut m, key(KeyCode::Down), 0), Action::SelectNextNewSessionPath);
    assert_eq!(
        handle_key(&mut m, key(KeyCode::Right), 0),
        Action::AcceptNewSessionPathCompletion
    );
    assert_eq!(handle_key(&mut m, ch('m'), 0), Action::UpdateNewSessionPathSuggestions);
    match &m {
        Mode::NewSession { name, path, field, path_selected } => {
            assert_eq!(name, "x");
            assert_eq!(path, "/hom");
            assert_eq!(*field, NewSessionField::Path);
            assert_eq!(*path_selected, None);
        },
        _ => panic!("mode changed"),
    }
    assert_eq!(
        handle_key(&mut m, key(KeyCode::Backspace), 0),
        Action::UpdateNewSessionPathSuggestions
    );
    assert_eq!(
        handle_key(&mut m, key(KeyCode::Enter), 0),
        Action::ConfirmNewSession { start_claude: true }
    );
    assert_eq!(handle_key(&mut m, key(KeyCode::Esc), 0), Action::Cancel);
    match &m {
        Mode::NewSession { path, .. } => assert_eq!(path, "/ho"),
        _ => panic!("mode changed"),
    }
}

#[test]
fn new_worktree_fields_cycle() {
    let mut m = worktree(NewWorktreeField::Branch, None);
    handle_key(&mut m, key(KeyCode::Tab), 0);
    assert!(matches!(m, Mode::NewWorktree { field: NewWorktreeField::Path, .. }));
    handle_key(&mut m, key(KeyCode::Tab), 0);
    assert!(matches!(m, Mode::NewWorktree { field: NewWorktreeField::SessionName, .. }));
    handle_key(&mut m, key(KeyCode::Tab), 0);
    assert!(matches!(m, Mode::NewWorktree { field: NewWorktreeField::Branch, .. }));
    handle_key(&mut m, key(KeyCode::BackTab), 0);
    assert!(matches!(m, Mode::NewWorktree { field: NewWorktreeField::SessionName, .. }));
    handle_key(&mut m, key(KeyCode::BackTab), 0);
    assert!(matches!(m, Mode::NewWorktree { field: NewWorktreeField::Path, .. }));
}

#[test]
fn new_worktree_typing() {
    let mut m = worktree(NewWorktreeField::Branch, Some(1));
    assert_eq!(handle_key(&mut m, ch('/'), 0), Action::UpdateWorktreeSuggestions);
    assert_eq!(
        handle_key(&mut m, key(KeyCode::Backspace), 0),
        Action::UpdateWorktreeSuggestions
    );
    assert_eq!(handle_key(&mut m, ch('x'), 0), Action::UpdateWorktreeSuggestions);
    let mut p = worktree(NewWorktreeField::Path, None);
    assert_eq!(handle_key(&mut p, ch('2'), 0), Action::UpdateWorktreePathSuggestions);
    let mut s = worktree(NewWorktreeField::SessionName, None);
    assert_eq!(handle_key(&mut s, ch(' '), 0), Action::Nothing);
    assert_eq!(handle_key(&mut s, ch('z'), 0), Action::Nothing);
    assert_eq!(handle_key(&mut s, key(KeyCode::Enter), 0), Action::ConfirmNewWorktree);
    match (&m, &p, &s) {
        (
            Mode::NewWorktree { branch_input, path_selected: ps1, .. },
            Mode::NewWorktree { worktree_path, path_selected: ps2, .. },
            Mode::NewWorktree { session_name, .. },
        ) => {
            assert_eq!(branch_input, "featx");
            assert_eq!(*ps1, Some(2));
            assert_eq!(worktree_path, "/tmp/w2");
            assert_eq!(*ps2, None);
            assert_eq!(session_name, "s1z");
        },
        _ => panic!("mode changed"),
    }
}

#[test]
fn branch_suggestions_wrap_around() {
    let mut m = worktree(NewWorktreeField::Branch, None);
    assert_eq!(handle_key(&mut m, key(KeyCode::Down), 3), Action::UpdateWorktreeSuggestions);
    assert!(matches!(m, Mode::NewWorktree { selected_branch: Some(0), .. }));
    handle_key(&mut m, key(KeyCode::Down), 3);
    handle_key(&mut m, key(KeyCode::Down), 3);
    assert!(matches!(m, Mode::NewWorktree { selected_branch: Some(2), .. }));
    handle_key(&mut m, key(KeyCode::Down), 3);
    assert!(matches!(m, Mode::NewWorktree { selected_branch: Some(0), .. }));
    handle_key(&mut m, key(KeyCode::Up), 3);
    assert!(matches!(m, Mode::NewWorktree { selected_branch: Some(2), .. }));
    let mut n = worktree(NewWorktreeField::Branch, None);
    handle_key(&mut n, key(KeyCode::Up), 4);
    assert!(matches!(n, Mode::NewWorktree { selected_branch: Some(3), .. }));
    let mut e = worktree(NewWorktreeField::Branch, Some(5));
    assert_eq!(handle_key(&mut e, key(KeyCode::Down), 0), Action::Nothing);
    assert!(matches!(e, Mode::NewWorktree { selected_branch: Some(5), .. }));
    assert_eq!(handle_key(&mut e, key(KeyCode::Right), 0), Action::AcceptBranchCompletion);
}

#[test]
fn worktree_path_navigation() {
    let mut m = worktree(NewWorktreeField::Path, None);
    assert_eq!(handle_key(&mut m, key(KeyCode::Down), 3), Action::SelectNextWorktreePath);
    assert_eq!(handle_key(&mut m, key(KeyCode::Up), 3), Action::SelectPrevWorktreePath);
    assert_eq!(
        handle_key(&mut m, key(KeyCode::Right), 3),
        Action::AcceptWorktreePathCompletion
    );
    let mut s = worktree(NewWorktreeField::SessionName, None);
    assert_eq!(handle_key(&mut s, key(KeyCode::Down), 3), Action::Nothing);
    assert_eq!(handle_key(&mut s, key(KeyCode::Esc), 3), Action::Cancel);
}

#[test]
fn pull_request_form() {
    let mut m = Mode::CreatePullRequest {
        title: String::new(),
        body: String::new(),
        base_branch: String::new(),
        field: CreatePullRequestField::Title,
    };
    handle_key(&mut m, ch('T'), 0);
    handle_key(&mut m, key(KeyCode::Tab), 0);
    handle_key(&mut m, ch(' '), 0);
    handle_key(&mut m, key(KeyCode::Tab), 0);
    for c in ['m', 'a', 'i', 'n', '/', 'x', ' ', '~'] {
        handle_key(&mut m, ch(c), 0);
    }
    handle_key(&mut m, key(KeyCode::Backspace), 0);
    assert_eq!(handle_key(&mut m, key(KeyCode::Enter), 0), Action::ConfirmCreatePullRequest);
    match &m {
        Mode::CreatePullRequest { title, body, base_branch, field } => {
            assert_eq!(title, "T");
            assert_eq!(body, " ");
            assert_eq!(base_branch, "main/");
            assert_eq!(*field, CreatePullRequestField::BaseBranch);
        },
        _ => panic!("mode changed"),
    }
    handle_key(&mut m, key(KeyCode::BackTab), 0);
    assert!(matches!(m, Mode::CreatePullRequest { field: CreatePullRequestField::Body, .. }));
    assert_eq!(handle_key(&mut m, key(KeyCode::Esc), 0), Action::Cancel);
}

#[test]
fn type_then_erase_restores_text() {
    let mut m = Mode::Commit { message: String::from("abc") };
    handle_key(&mut m, ch('€'), 0);
    handle_key(&mut m, key(KeyCode::Backspace), 0);
    match &m {
        Mode::Commit { message } => assert_eq!(message, "abc"),
        _ => panic!("mode changed"),
    }
}

fn left_click(row: u16) -> MouseEvent {
    MouseEvent { kind: MouseEventKind::Down(MouseButton::Left), column: 3, row }
}

#[test]
fn mouse_click_selects_and_centers() {
    let area = Some(ListArea { x: 0, y: 2, width: 40, height: 10 });
    let mut scroll = ScrollState::new();
    let _ = scroll.update(12, 30, 10);
    assert_eq!(scroll.offset(), 7);
    let r = handle_mouse(&Mode::Normal, left_click(5), area, 30, &mut scroll);
    assert_eq!(r, Some(10));
    assert_eq!(scroll.offset(), 5);
}

#[test]
fn mouse_clicks_that_select_nothing() {
    let area = Some(ListArea { x: 0, y: 2, width: 40, height: 10 });
    let mut scroll = ScrollState::new();
    let _ = scroll.update(3, 5, 10);
    let before = scroll.offset();
    // outside the area
    assert_eq!(handle_mouse(&Mode::Normal, left_click(1), area, 5, &mut scroll), None);
    assert_eq!(handle_mouse(&Mode::Normal, left_click(12), area, 5, &mut scroll), None);
    // below the last item
    assert_eq!(handle_mouse(&Mode::Normal, left_click(7), area, 5, &mut scroll), None);
    // other buttons, releases, other modes, no area
    let right = MouseEvent { kind: MouseEventKind::Down(MouseButton::Right), column: 0, row: 3 };
    assert_eq!(handle_mouse(&Mode::Normal, right, area, 5, &mut scroll), None);
    let up = MouseEvent { kind: MouseEventKind::Up(MouseButton::Left), column: 0, row: 3 };
    assert_eq!(handle_mouse(&Mode::Normal, up, area, 5, &mut scroll), None);
    assert_eq!(handle_mouse(&Mode::Help, left_click(3), area, 5, &mut scroll), None);
    assert_eq!(handle_mouse(&Mode::Normal, left_click(3), None, 5, &mut scroll), None);
    assert_eq!(scroll.offset(), before);
    // a row that shows an item
    assert_eq!(handle_mouse(&Mode::Normal, left_click(2), area, 5, &mut scroll), Some(0));
}

#[test]
fn mouse_click_past_the_end_after_scrolling() {
    let area = Some(ListArea { x: 0, y: 0, width: 10, height: 4 });
    let mut scroll = ScrollState::new();
    let st = scroll.update(2, 6, 4);
    *st.offset_mut() = 3;
    // row 3 is visible index 3 < 6, but 3 + 3 = 6 is past the end
    assert_eq!(handle_mouse(&Mode::Normal, left_click(3), area, 6, &mut scroll), None);
    assert_eq!(handle_mouse(&Mode::Normal, left_click(2), area, 6, &mut scroll), Some(5));
}
