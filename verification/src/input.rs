//! What a key press or a mouse click does in each mode of the session manager.
//!
//! Edits of the text being typed happen here, on the mode; everything else that
//! a key asks for is returned as an `Action` for the application to carry out.

use vstd::prelude::*;
use crate::text::char_is_alphanumeric;
use crate::text::is_alphanumeric;
use crate::text::string_pop;
use crate::text::string_push;
use crate::scroll_state::ScrollState;
use crate::scroll_state::centered_offset;

verus! {

/// A key, as the input logic tells keys apart.
#[derive(Debug, Clone, Copy, PartialEq, Eq, Structural)]
pub enum KeyCode {
    Char(char),
    Esc,
    Enter,
    Tab,
    BackTab,
    Backspace,
    Up,
    Down,
    Left,
    Right,
    /// Any other key.
    Other,
}

/// A key press: the key and whether Control was held.
#[derive(Debug, Clone, Copy, PartialEq, Eq, Structural)]
pub struct KeyEvent {
    pub code: KeyCode,
    pub ctrl: bool,
}

/// A mouse button.
#[derive(Debug, Clone, Copy, PartialEq, Eq, Structural)]
pub enum MouseButton {
    Left,
    Right,
    Middle,
}

/// What the mouse did.
#[derive(Debug, Clone, Copy, PartialEq, Eq, Structural)]
pub enum MouseEventKind {
    Down(MouseButton),
    Up(MouseButton),
    Drag(MouseButton),
    Moved,
    ScrollDown,
    ScrollUp,
    ScrollLeft,
    ScrollRight,
}

/// A mouse event at a terminal cell (row and column count from 0).
#[derive(Debug, Clone, Copy, PartialEq, Eq, Structural)]
pub struct MouseEvent {
    pub kind: MouseEventKind,
    pub column: u16,
    pub row: u16,
}

/// The screen rectangle where the session list was drawn.
#[derive(Debug, Clone, Copy, PartialEq, Eq, Structural)]
pub struct ListArea {
    pub x: u16,
    pub y: u16,
    pub width: u16,
    pub height: u16,
}

/// The field being typed into when a new session is created.
#[derive(Debug, Clone, Copy, PartialEq, Eq, Structural)]
pub enum NewSessionField {
    Name,
    Path,
}

/// The field being typed into when a new worktree is created.
#[derive(Debug, Clone, Copy, PartialEq, Eq, Structural)]
pub enum NewWorktreeField {
    Branch,
    Path,
    SessionName,
}

/// The field being typed into when a pull request is created.
#[derive(Debug, Clone, Copy, PartialEq, Eq, Structural)]
pub enum CreatePullRequestField {
    Title,
    Body,
    BaseBranch,
}

/// The interaction mode, with the text typed so far in the modes that take text.
#[allow(inconsistent_fields)]
pub enum Mode {
    Normal,
    ActionMenu,
    Filter { input: String },
    ConfirmAction,
    NewSession {
        name: String,
        path: String,
        field: NewSessionField,
        path_selected: Option<usize>,
    },
    Rename { new_name: String },
    Commit { message: String },
    NewWorktree {
        branch_input: String,
        worktree_path: String,
        session_name: String,
        path_selected: Option<usize>,
        field: NewWorktreeField,
        selected_branch: Option<usize>,
    },
    CreatePullRequest {
        title: String,
        body: String,
        base_branch: String,
        field: CreatePullRequestField,
    },
    Help,
}

/// A mode with its texts seen as character sequences.
#[allow(inconsistent_fields)]
pub enum ModeModel {
    Normal,
    ActionMenu,
    Filter { input: Seq<char> },
    ConfirmAction,
    NewSession {
        name: Seq<char>,
        path: Seq<char>,
        field: NewSessionField,
        path_selected: Option<usize>,
    },
    Rename { new_name: Seq<char> },
    Commit { message: Seq<char> },
    NewWorktree {
        branch_input: Seq<char>,
        worktree_path: Seq<char>,
        session_name: Seq<char>,
        path_selected: Option<usize>,
        field: NewWorktreeField,
        selected_branch: Option<usize>,
    },
    CreatePullRequest {
        title: Seq<char>,
        body: Seq<char>,
        base_branch: Seq<char>,
        field: CreatePullRequestField,
    },
    Help,
}

impl View for Mode {
    type V = ModeModel;

    open spec fn view(&self) -> ModeModel {
        match self {
            Mode::Normal => ModeModel::Normal,
            Mode::ActionMenu => ModeModel::ActionMenu,
            Mode::Filter { input } => ModeModel::Filter { input: input@ },
            Mode::ConfirmAction => ModeModel::ConfirmAction,
            Mode::NewSession { name, path, field, path_selected } => ModeModel::NewSession {
                name: name@,
                path: path@,
                field: *field,
                path_selected: *path_selected,
            },
            Mode::Rename { new_name } => ModeModel::Rename { new_name: new_name@ },
            Mode::Commit { message } => ModeModel::Commit { message: message@ },
            Mode::NewWorktree {
                branch_input,
                worktree_path,
                session_name,
                path_selected,
                field,
                selected_branch,
            } => ModeModel::NewWorktree {
                branch_input: branch_input@,
                worktree_path: worktree_path@,
                session_name: session_name@,
                path_selected: *path_selected,
                field: *field,
                selected_branch: *selected_branch,
            },
            Mode::CreatePullRequest { title, body, base_branch, field } =>
                ModeModel::CreatePullRequest {
                title: title@,
                body: body@,
                base_branch: base_branch@,
                field: *field,
            },
            Mode::Help => ModeModel::Help,
        }
    }
}

/// What the application is asked to do after a key press or click.
#[derive(Debug, Clone, Copy, PartialEq, Eq, Structural)]
pub enum Action {
    /// Nothing beyond the edit already made to the mode.
    Nothing,
    Quit,
    SelectNext,
    SelectPrev,
    EnterActionMenu,
    SwitchToSelected,
    StartNewSession,
    StartKill,
    StartRename,
    StartFilter,
    ClearFilter,
    Refresh,
    ShowHelp,
    Cancel,
    ApplyFilter,
    SelectNextAction,
    SelectPrevAction,
    ExecuteSelectedAction,
    ConfirmAction,
    ConfirmNewSession { start_claude: bool },
    SelectPrevNewSessionPath,
    SelectNextNewSessionPath,
    AcceptNewSessionPathCompletion,
    UpdateNewSessionPathSuggestions,
    ConfirmRename,
    ConfirmCommit,
    ConfirmNewWorktree,
    UpdateWorktreeSuggestions,
    UpdateWorktreePathSuggestions,
    AcceptBranchCompletion,
    SelectNextWorktreePath,
    SelectPrevWorktreePath,
    AcceptWorktreePathCompletion,
    ConfirmCreatePullRequest,
}

// ---------------------------------------------------------------------------
// Specification

/// The key is the character `c`.
pub open spec fn is_char(key: KeyEvent, c: char) -> bool {
    key.code == KeyCode::Char(c)
}

/// A character allowed in a session name: alphanumeric, `-` or `_`.
pub open spec fn session_name_char(c: char) -> bool {
    char_is_alphanumeric(c) || c == '-' || c == '_'
}

/// A character allowed in a branch name: a session-name character or `/`.
pub open spec fn branch_name_char(c: char) -> bool {
    session_name_char(c) || c == '/'
}

/// `s` without its last character, if it has one.
pub open spec fn pop_last(s: Seq<char>) -> Seq<char> {
    if s.len() > 0 {
        s.drop_last()
    } else {
        s
    }
}

/// `s` with `c` appended when `allowed` holds.
pub open spec fn push_if(s: Seq<char>, c: char, allowed: bool) -> Seq<char> {
    if allowed {
        s.push(c)
    } else {
        s
    }
}

/// The action of a key in the session list.
pub open spec fn normal_action(key: KeyEvent) -> Action {
    if is_char(key, 'q') || key.code == KeyCode::Esc {
        Action::Quit
    } else if is_char(key, 'j') || key.code == KeyCode::Down {
        Action::SelectNext
    } else if is_char(key, 'k') || key.code == KeyCode::Up {
        Action::SelectPrev
    } else if is_char(key, 'l') || key.code == KeyCode::Right {
        Action::EnterActionMenu
    } else if key.code == KeyCode::Enter {
        Action::SwitchToSelected
    } else if is_char(key, 'n') {
        Action::StartNewSession
    } else if is_char(key, 'K') {
        Action::StartKill
    } else if is_char(key, 'r') {
        Action::StartRename
    } else if is_char(key, '/') {
        Action::StartFilter
    } else if is_char(key, 'c') && key.ctrl {
        Action::ClearFilter
    } else if is_char(key, 'R') {
        Action::Refresh
    } else if is_char(key, '?') {
        Action::ShowHelp
    } else {
        Action::Nothing
    }
}

/// The action of a key in the action menu.
pub open spec fn action_menu_action(key: KeyEvent) -> Action {
    if is_char(key, 'j') || key.code == KeyCode::Down {
        Action::SelectNextAction
    } else if is_char(key, 'k') || key.code == KeyCode::Up {
        Action::SelectPrevAction
    } else if key.code == KeyCode::Enter || is_char(key, 'l') || key.code == KeyCode::Right {
        Action::ExecuteSelectedAction
    } else if is_char(key, 'h') || key.code == KeyCode::Left || key.code == KeyCode::Esc {
        Action::Cancel
    } else if is_char(key, 'q') {
        Action::Quit
    } else {
        Action::Nothing
    }
}

/// The action of a key while an action waits for confirmation.
pub open spec fn confirm_action_action(key: KeyEvent) -> Action {
    if key.code == KeyCode::Enter || is_char(key, 'y') || is_char(key, 'Y') {
        Action::ConfirmAction
    } else if is_char(key, 'n') || is_char(key, 'N') || key.code == KeyCode::Esc {
        Action::Cancel
    } else {
        Action::Nothing
    }
}

/// The action of a key on the help screen.
pub open spec fn help_action(key: KeyEvent) -> Action {
    if is_char(key, 'q') || key.code == KeyCode::Esc || is_char(key, '?') {
        Action::Cancel
    } else {
        Action::Nothing
    }
}

/// A free-text field: `Esc` gives `Cancel`, `Enter` gives `confirm`,
/// `Backspace` removes the last character, and a character is appended (when
/// `names_only` holds, only a session-name character).
pub open spec fn text_step(s: Seq<char>, key: KeyEvent, confirm: Action, names_only: bool) -> (
    Seq<char>,
    Action,
) {
    match key.code {
        KeyCode::Esc => (s, Action::Cancel),
        KeyCode::Enter => (s, confirm),
        KeyCode::Backspace => (pop_last(s), Action::Nothing),
        KeyCode::Char(c) => (push_if(s, c, !names_only || session_name_char(c)), Action::Nothing),
        _ => (s, Action::Nothing),
    }
}

/// The next field of a new session (there are two).
pub open spec fn toggle_session_field(f: NewSessionField) -> NewSessionField {
    match f {
        NewSessionField::Name => NewSessionField::Path,
        NewSessionField::Path => NewSessionField::Name,
    }
}

/// The next field of a new worktree, in the order branch, path, session name.
pub open spec fn next_worktree_field(f: NewWorktreeField) -> NewWorktreeField {
    match f {
        NewWorktreeField::Branch => NewWorktreeField::Path,
        NewWorktreeField::Path => NewWorktreeField::SessionName,
        NewWorktreeField::SessionName => NewWorktreeField::Branch,
    }
}

/// The previous field of a new worktree.
pub open spec fn prev_worktree_field(f: NewWorktreeField) -> NewWorktreeField {
    match f {
        NewWorktreeField::Branch => NewWorktreeField::SessionName,
        NewWorktreeField::Path => NewWorktreeField::Branch,
        NewWorktreeField::SessionName => NewWorktreeField::Path,
    }
}

/// The next field of a pull request, in the order title, body, base branch.
pub open spec fn next_pr_field(f: CreatePullRequestField) -> CreatePullRequestField {
    match f {
        CreatePullRequestField::Title => CreatePullRequestField::Body,
        CreatePullRequestField::Body => CreatePullRequestField::BaseBranch,
        CreatePullRequestField::BaseBranch => CreatePullRequestField::Title,
    }
}

/// The previous field of a pull request.
pub open spec fn prev_pr_field(f: CreatePullRequestField) -> CreatePullRequestField {
    match f {
        CreatePullRequestField::Title => CreatePullRequestField::BaseBranch,
        CreatePullRequestField::Body => CreatePullRequestField::Title,
        CreatePullRequestField::BaseBranch => CreatePullRequestField::Body,
    }
}

/// The branch suggestion selected after `Down` among `count` suggestions:
/// the next one, wrapping to the first; the first when none was selected.
pub open spec fn branch_down(sel: Option<usize>, count: usize) -> Option<usize> {
    match sel {
        Some(i) => Some(((i + 1) % (count as int)) as usize),
        None => Some(0),
    }
}

/// The branch suggestion selected after `Up` among `count` suggestions:
/// the previous one, wrapping to the last; the last when none was selected.
pub open spec fn branch_up(sel: Option<usize>, count: usize) -> Option<usize> {
    match sel {
        Some(i) => Some(
            if i == 0 {
                (count - 1) as usize
            } else {
                (i - 1) as usize
            },
        ),
        None => Some((count - 1) as usize),
    }
}

/// The step of a key in the new-session form.
pub open spec fn new_session_step(
    name: Seq<char>,
    path: Seq<char>,
    field: NewSessionField,
    path_selected: Option<usize>,
    key: KeyEvent,
) -> (ModeModel, Action) {
    let m = ModeModel::NewSession { name, path, field, path_selected };
    let on_path = field == NewSessionField::Path;
    match key.code {
        KeyCode::Esc => (m, Action::Cancel),
        KeyCode::Tab => (
            ModeModel::NewSession { name, path, field: toggle_session_field(field), path_selected },
            Action::Nothing,
        ),
        KeyCode::Enter => (m, Action::ConfirmNewSession { start_claude: true }),
        KeyCode::Up if on_path => (m, Action::SelectPrevNewSessionPath),
        KeyCode::Down if on_path => (m, Action::SelectNextNewSessionPath),
        KeyCode::Right if on_path => (m, Action::AcceptNewSessionPathCompletion),
        KeyCode::Backspace => if on_path {
            (
                ModeModel::NewSession { name, path: pop_last(path), field, path_selected: None },
                Action::UpdateNewSessionPathSuggestions,
            )
        } else {
            (ModeModel::NewSession { name: pop_last(name), path, field, path_selected }, Action::Nothing)
        },
        KeyCode::Char(c) => if on_path {
            (
                ModeModel::NewSession { name, path: path.push(c), field, path_selected: None },
                Action::UpdateNewSessionPathSuggestions,
            )
        } else {
            (
                ModeModel::NewSession {
                    name: push_if(name, c, session_name_char(c)),
                    path,
                    field,
                    path_selected,
                },
                Action::Nothing,
            )
        },
        _ => (m, Action::Nothing),
    }
}

/// The suggestions to refresh after typing in a worktree field.
pub open spec fn worktree_refresh(field: NewWorktreeField) -> Action {
    match field {
        NewWorktreeField::Branch => Action::UpdateWorktreeSuggestions,
        NewWorktreeField::Path => Action::UpdateWorktreePathSuggestions,
        NewWorktreeField::SessionName => Action::Nothing,
    }
}

/// The step of a key in the new-worktree form, with `count` branch suggestions.
pub open spec fn new_worktree_step(
    branch_input: Seq<char>,
    worktree_path: Seq<char>,
    session_name: Seq<char>,
    path_selected: Option<usize>,
    field: NewWorktreeField,
    selected_branch: Option<usize>,
    key: KeyEvent,
    count: usize,
) -> (ModeModel, Action) {
    let m = ModeModel::NewWorktree {
        branch_input,
        worktree_path,
        session_name,
        path_selected,
        field,
        selected_branch,
    };
    let with_field = |f: NewWorktreeField|
        ModeModel::NewWorktree {
            branch_input,
            worktree_path,
            session_name,
            path_selected,
            field: f,
            selected_branch,
        };
    let on_branch = field == NewWorktreeField::Branch;
    let on_path = field == NewWorktreeField::Path;
    match key.code {
        KeyCode::Esc => (m, Action::Cancel),
        KeyCode::Tab => (with_field(next_worktree_field(field)), Action::Nothing),
        KeyCode::BackTab => (with_field(prev_worktree_field(field)), Action::Nothing),
        KeyCode::Enter => (m, Action::ConfirmNewWorktree),
        KeyCode::Backspace => (
            match field {
                NewWorktreeField::Branch => ModeModel::NewWorktree {
                    branch_input: pop_last(branch_input),
                    worktree_path,
                    session_name,
                    path_selected,
                    field,
                    selected_branch,
                },
                NewWorktreeField::Path => ModeModel::NewWorktree {
                    branch_input,
                    worktree_path: pop_last(worktree_path),
                    session_name,
                    path_selected: None,
                    field,
                    selected_branch,
                },
                NewWorktreeField::SessionName => ModeModel::NewWorktree {
                    branch_input,
                    worktree_path,
                    session_name: pop_last(session_name),
                    path_selected,
                    field,
                    selected_branch,
                },
            },
            worktree_refresh(field),
        ),
        KeyCode::Char(c) => (
            match field {
                NewWorktreeField::Branch => ModeModel::NewWorktree {
                    branch_input: branch_input.push(c),
                    worktree_path,
                    session_name,
                    path_selected,
                    field,
                    selected_branch,
                },
                NewWorktreeField::Path => ModeModel::NewWorktree {
                    branch_input,
                    worktree_path: worktree_path.push(c),
                    session_name,
                    path_selected: None,
                    field,
                    selected_branch,
                },
                NewWorktreeField::SessionName => ModeModel::NewWorktree {
                    branch_input,
                    worktree_path,
                    session_name: push_if(session_name, c, session_name_char(c)),
                    path_selected,
                    field,
                    selected_branch,
                },
            },
            worktree_refresh(field),
        ),
        KeyCode::Down if on_branch => if count > 0 {
            (
                ModeModel::NewWorktree {
                    branch_input,
                    worktree_path,
                    session_name,
                    path_selected,
                    field,
                    selected_branch: branch_down(selected_branch, count),
                },
                Action::UpdateWorktreeSuggestions,
            )
        } else {
            (m, Action::Nothing)
        },
        KeyCode::Up if on_branch => if count > 0 {
            (
                ModeModel::NewWorktree {
                    branch_input,
                    worktree_path,
                    session_name,
                    path_selected,
                    field,
                    selected_branch: branch_up(selected_branch, count),
                },
                Action::UpdateWorktreeSuggestions,
            )
        } else {
            (m, Action::Nothing)
        },
        KeyCode::Right if on_branch => (m, Action::AcceptBranchCompletion),
        KeyCode::Down if on_path => (m, Action::SelectNextWorktreePath),
        KeyCode::Up if on_path => (m, Action::SelectPrevWorktreePath),
        KeyCode::Right if on_path => (m, Action::AcceptWorktreePathCompletion),
        _ => (m, Action::Nothing),
    }
}

/// The step of a key in the pull-request form.
pub open spec fn create_pr_step(
    title: Seq<char>,
    body: Seq<char>,
    base_branch: Seq<char>,
    field: CreatePullRequestField,
    key: KeyEvent,
) -> (ModeModel, Action) {
    let m = ModeModel::CreatePullRequest { title, body, base_branch, field };
    match key.code {
        KeyCode::Esc => (m, Action::Cancel),
        KeyCode::Tab => (
            ModeModel::CreatePullRequest { title, body, base_branch, field: next_pr_field(field) },
            Action::Nothing,
        ),
        KeyCode::BackTab => (
            ModeModel::CreatePullRequest { title, body, base_branch, field: prev_pr_field(field) },
            Action::Nothing,
        ),
        KeyCode::Enter => (m, Action::ConfirmCreatePullRequest),
        KeyCode::Backspace => (
            match field {
                CreatePullRequestField::Title => ModeModel::CreatePullRequest {
                    title: pop_last(title),
                    body,
                    base_branch,
                    field,
                },
                CreatePullRequestField::Body => ModeModel::CreatePullRequest {
                    title,
                    body: pop_last(body),
                    base_branch,
                    field,
                },
                CreatePullRequestField::BaseBranch => ModeModel::CreatePullRequest {
                    title,
                    body,
                    base_branch: pop_last(base_branch),
                    field,
                },
            },
            Action::Nothing,
        ),
        KeyCode::Char(c) => (
            match field {
                CreatePullRequestField::Title => ModeModel::CreatePullRequest {
                    title: title.push(c),
                    body,
                    base_branch,
                    field,
                },
                CreatePullRequestField::Body => ModeModel::CreatePullRequest {
                    title,
                    body: body.push(c),
                    base_branch,
                    field,
                },
                CreatePullRequestField::BaseBranch => ModeModel::CreatePullRequest {
                    title,
                    body,
                    base_branch: push_if(base_branch, c, branch_name_char(c)),
                    field,
                },
            },
            Action::Nothing,
        ),
        _ => (m, Action::Nothing),
    }
}

/// The step of a key in any mode: the mode after it and the action it asks for.
/// `branch_count` is the number of branch suggestions of the worktree form.
pub open spec fn key_step(m: ModeModel, key: KeyEvent, branch_count: usize) -> (ModeModel, Action) {
    match m {
        ModeModel::Normal => (m, normal_action(key)),
        ModeModel::ActionMenu => (m, action_menu_action(key)),
        ModeModel::Filter { input } => {
            let (s, a) = text_step(input, key, Action::ApplyFilter, false);
            (ModeModel::Filter { input: s }, a)
        },
        ModeModel::ConfirmAction => (m, confirm_action_action(key)),
        ModeModel::NewSession { name, path, field, path_selected } => new_session_step(
            name,
            path,
            field,
            path_selected,
            key,
        ),
        ModeModel::Rename { new_name } => {
            let (s, a) = text_step(new_name, key, Action::ConfirmRename, true);
            (ModeModel::Rename { new_name: s }, a)
        },
        ModeModel::Commit { message } => {
            let (s, a) = text_step(message, key, Action::ConfirmCommit, false);
            (ModeModel::Commit { message: s }, a)
        },
        ModeModel::NewWorktree {
            branch_input,
            worktree_path,
            session_name,
            path_selected,
            field,
            selected_branch,
        } => new_worktree_step(
            branch_input,
            worktree_path,
            session_name,
            path_selected,
            field,
            selected_branch,
            key,
            branch_count,
        ),
        ModeModel::CreatePullRequest { title, body, base_branch, field } => create_pr_step(
            title,
            body,
            base_branch,
            field,
            key,
        ),
        ModeModel::Help => (m, help_action(key)),
    }
}

/// The one input on which moving to the next branch suggestion would overflow:
/// `Down` on the branch field, with suggestions shown and index `usize::MAX`
/// selected.
pub open spec fn branch_index_overflows(m: ModeModel, key: KeyEvent, branch_count: usize) -> bool {
    &&& m matches ModeModel::NewWorktree { field, selected_branch, .. }
    &&& field == NewWorktreeField::Branch
    &&& key.code == KeyCode::Down
    &&& branch_count > 0
    &&& selected_branch == Some(usize::MAX)
}

// ---------------------------------------------------------------------------
// Key handling

/// Whether `c` may stand in a session name.
fn is_session_name_char(c: char) -> (r: bool)
    ensures
        r == session_name_char(c),
{
    is_alphanumeric(c) || c == '-' || c == '_'
}

/// Whether `c` may stand in a branch name.
fn is_branch_name_char(c: char) -> (r: bool)
    ensures
        r == branch_name_char(c),
{
    is_alphanumeric(c) || c == '-' || c == '_' || c == '/'
}

/// Removes the last character of `s`, if any.
fn pop_char(s: &mut String)
    ensures
        final(s)@ == pop_last(old(s)@),
{
    let _ = string_pop(s);
}

/// The action of a key in the session list.
pub fn handle_normal_mode(key: KeyEvent) -> (r: Action)
    ensures
        r == normal_action(key),
{
    match key.code {
        KeyCode::Char('q') | KeyCode::Esc => Action::Quit,
        KeyCode::Char('j') | KeyCode::Down => Action::SelectNext,
        KeyCode::Char('k') | KeyCode::Up => Action::SelectPrev,
        KeyCode::Char('l') | KeyCode::Right => Action::EnterActionMenu,
        KeyCode::Enter => Action::SwitchToSelected,
        KeyCode::Char('n') => Action::StartNewSession,
        KeyCode::Char('K') => Action::StartKill,
        KeyCode::Char('r') => Action::StartRename,
        KeyCode::Char('/') => Action::StartFilter,
        KeyCode::Char('c') if key.ctrl => Action::ClearFilter,
        KeyCode::Char('R') => Action::Refresh,
        KeyCode::Char('?') => Action::ShowHelp,
        _ => Action::Nothing,
    }
}

/// A key in a free-text field (filter, rename, commit message).
fn handle_text(s: &mut String, key: KeyEvent, confirm: Action, names_only: bool) -> (r: Action)
    ensures
        (final(s)@, r) == text_step(old(s)@, key, confirm, names_only),
{
    match key.code {
        KeyCode::Esc => Action::Cancel,
        KeyCode::Enter => confirm,
        KeyCode::Backspace => {
            pop_char(s);
            Action::Nothing
        },
        KeyCode::Char(c) => {
            if !names_only || is_session_name_char(c) {
                string_push(s, c);
            }
            Action::Nothing
        },
        _ => Action::Nothing,
    }
}

/// A key in the filter: typing edits the filter text.
pub fn handle_filter_mode(input: &mut String, key: KeyEvent) -> (r: Action)
    ensures
        (final(input)@, r) == text_step(old(input)@, key, Action::ApplyFilter, false),
{
    handle_text(input, key, Action::ApplyFilter, false)
}

/// The action of a key in the action menu.
pub fn handle_action_menu_mode(key: KeyEvent) -> (r: Action)
    ensures
        r == action_menu_action(key),
{
    match key.code {
        KeyCode::Char('j') | KeyCode::Down => Action::SelectNextAction,
        KeyCode::Char('k') | KeyCode::Up => Action::SelectPrevAction,
        KeyCode::Enter | KeyCode::Char('l') | KeyCode::Right => Action::ExecuteSelectedAction,
        KeyCode::Char('h') | KeyCode::Left | KeyCode::Esc => Action::Cancel,
        KeyCode::Char('q') => Action::Quit,
        _ => Action::Nothing,
    }
}

/// The action of a key while an action waits for confirmation.
pub fn handle_confirm_action_mode(key: KeyEvent) -> (r: Action)
    ensures
        r == confirm_action_action(key),
{
    match key.code {
        KeyCode::Enter | KeyCode::Char('y') | KeyCode::Char('Y') => Action::ConfirmAction,
        KeyCode::Char('n') | KeyCode::Char('N') | KeyCode::Esc => Action::Cancel,
        _ => Action::Nothing,
    }
}

/// A key in the rename form: only session-name characters are typed.
pub fn handle_rename_mode(new_name: &mut String, key: KeyEvent) -> (r: Action)
    ensures
        (final(new_name)@, r) == text_step(old(new_name)@, key, Action::ConfirmRename, true),
{
    handle_text(new_name, key, Action::ConfirmRename, true)
}

/// A key in the commit form: any character is typed.
pub fn handle_commit_mode(message: &mut String, key: KeyEvent) -> (r: Action)
    ensures
        (final(message)@, r) == text_step(old(message)@, key, Action::ConfirmCommit, false),
{
    handle_text(message, key, Action::ConfirmCommit, false)
}

/// The action of a key on the help screen.
pub fn handle_help_mode(key: KeyEvent) -> (r: Action)
    ensures
        r == help_action(key),
{
    match key.code {
        KeyCode::Char('q') | KeyCode::Esc | KeyCode::Char('?') => Action::Cancel,
        _ => Action::Nothing,
    }
}

/// The new-session form after a key, and the action the key asks for.
pub fn handle_new_session_mode(
    name: String,
    path: String,
    field: NewSessionField,
    path_selected: Option<usize>,
    key: KeyEvent,
) -> (r: (Mode, Action))
    ensures
        (r.0@, r.1) == new_session_step(name@, path@, field, path_selected, key),
{
    let mut name = name;
    let mut path = path;
    let mut field = field;
    let mut path_selected = path_selected;
    let on_path = field == NewSessionField::Path;
    let action = match key.code {
        KeyCode::Esc => Action::Cancel,
        KeyCode::Tab => {
            field = match field {
                NewSessionField::Name => NewSessionField::Path,
                NewSessionField::Path => NewSessionField::Name,
            };
            Action::Nothing
        },
        KeyCode::Enter => Action::ConfirmNewSession { start_claude: true },
        KeyCode::Up if on_path => Action::SelectPrevNewSessionPath,
        KeyCode::Down if on_path => Action::SelectNextNewSessionPath,
        KeyCode::Right if on_path => Action::AcceptNewSessionPathCompletion,
        KeyCode::Backspace => {
            if on_path {
                pop_char(&mut path);
                path_selected = None;
                Action::UpdateNewSessionPathSuggestions
            } else {
                pop_char(&mut name);
                Action::Nothing
            }
        },
        KeyCode::Char(c) => {
            if on_path {
                string_push(&mut path, c);
                path_selected = None;
                Action::UpdateNewSessionPathSuggestions
            } else {
                if is_session_name_char(c) {
                    string_push(&mut name, c);
                }
                Action::Nothing
            }
        },
        _ => Action::Nothing,
    };
    (Mode::NewSession { name, path, field, path_selected }, action)
}

/// The new-worktree form after a key, with `count` branch suggestions, and the
/// action the key asks for.
pub fn handle_new_worktree_mode(
    branch_input: String,
    worktree_path: String,
    session_name: String,
    path_selected: Option<usize>,
    field: NewWorktreeField,
    selected_branch: Option<usize>,
    key: KeyEvent,
    count: usize,
) -> (r: (Mode, Action))
    requires
        !(field == NewWorktreeField::Branch && key.code == KeyCode::Down && count > 0
            && selected_branch == Some(usize::MAX)),
    ensures
        (r.0@, r.1) == new_worktree_step(
            branch_input@,
            worktree_path@,
            session_name@,
            path_selected,
            field,
            selected_branch,
            key,
            count,
        ),
{
    let mut branch_input = branch_input;
    let mut worktree_path = worktree_path;
    let mut session_name = session_name;
    let mut path_selected = path_selected;
    let mut field = field;
    let mut selected_branch = selected_branch;
    let on_branch = field == NewWorktreeField::Branch;
    let on_path = field == NewWorktreeField::Path;
    let refresh = match field {
        NewWorktreeField::Branch => Action::UpdateWorktreeSuggestions,
        NewWorktreeField::Path => Action::UpdateWorktreePathSuggestions,
        NewWorktreeField::SessionName => Action::Nothing,
    };
    let action = match key.code {
        KeyCode::Esc => Action::Cancel,
        KeyCode::Tab => {
            field = match field {
                NewWorktreeField::Branch => NewWorktreeField::Path,
                NewWorktreeField::Path => NewWorktreeField::SessionName,
                NewWorktreeField::SessionName => NewWorktreeField::Branch,
            };
            Action::Nothing
        },
        KeyCode::BackTab => {
            field = match field {
                NewWorktreeField::Branch => NewWorktreeField::SessionName,
                NewWorktreeField::Path => NewWorktreeField::Branch,
                NewWorktreeField::SessionName => NewWorktreeField::Path,
            };
            Action::Nothing
        },
        KeyCode::Enter => Action::ConfirmNewWorktree,
        KeyCode::Backspace => {
            match field {
                NewWorktreeField::Branch => {
                    pop_char(&mut branch_input);
                },
                NewWorktreeField::Path => {
                    pop_char(&mut worktree_path);
                    path_selected = None;
                },
                NewWorktreeField::SessionName => {
                    pop_char(&mut session_name);
                },
            }
            refresh
        },
        KeyCode::Char(c) => {
            match field {
                NewWorktreeField::Branch => {
                    string_push(&mut branch_input, c);
                },
                NewWorktreeField::Path => {
                    string_push(&mut worktree_path, c);
                    path_selected = None;
                },
                NewWorktreeField::SessionName => {
                    if is_session_name_char(c) {
                        string_push(&mut session_name, c);
                    }
                },
            }
            refresh
        },
        KeyCode::Down if on_branch => {
            if count > 0 {
                selected_branch = Some(
                    match selected_branch {
                        Some(i) => (i + 1) % count,
                        None => 0,
                    },
                );
                Action::UpdateWorktreeSuggestions
            } else {
                Action::Nothing
            }
        },
        KeyCode::Up if on_branch => {
            if count > 0 {
                selected_branch = Some(
                    match selected_branch {
                        Some(i) => if i == 0 {
                            count - 1
                        } else {
                            i - 1
                        },
                        None => count - 1,
                    },
                );
                Action::UpdateWorktreeSuggestions
            } else {
                Action::Nothing
            }
        },
        KeyCode::Right if on_branch => Action::AcceptBranchCompletion,
        KeyCode::Down if on_path => Action::SelectNextWorktreePath,
        KeyCode::Up if on_path => Action::SelectPrevWorktreePath,
        KeyCode::Right if on_path => Action::AcceptWorktreePathCompletion,
        _ => Action::Nothing,
    };
    (
        Mode::NewWorktree {
            branch_input,
            worktree_path,
            session_name,
            path_selected,
            field,
            selected_branch,
        },
        action,
    )
}

/// The pull-request form after a key, and the action the key asks for.
pub fn handle_create_pr_mode(
    title: String,
    body: String,
    base_branch: String,
    field: CreatePullRequestField,
    key: KeyEvent,
) -> (r: (Mode, Action))
    ensures
        (r.0@, r.1) == create_pr_step(title@, body@, base_branch@, field, key),
{
    let mut title = title;
    let mut body = body;
    let mut base_branch = base_branch;
    let mut field = field;
    let action = match key.code {
        KeyCode::Esc => Action::Cancel,
        KeyCode::Tab => {
            field = match field {
                CreatePullRequestField::Title => CreatePullRequestField::Body,
                CreatePullRequestField::Body => CreatePullRequestField::BaseBranch,
                CreatePullRequestField::BaseBranch => CreatePullRequestField::Title,
            };
            Action::Nothing
        },
        KeyCode::BackTab => {
            field = match field {
                CreatePullRequestField::Title => CreatePullRequestField::BaseBranch,
                CreatePullRequestField::Body => CreatePullRequestField::Title,
                CreatePullRequestField::BaseBranch => CreatePullRequestField::Body,
            };
            Action::Nothing
        },
        KeyCode::Enter => Action::ConfirmCreatePullRequest,
        KeyCode::Backspace => {
            match field {
                CreatePullRequestField::Title => pop_char(&mut title),
                CreatePullRequestField::Body => pop_char(&mut body),
                CreatePullRequestField::BaseBranch => pop_char(&mut base_branch),
            }
            Action::Nothing
        },
        KeyCode::Char(c) => {
            match field {
                CreatePullRequestField::Title => string_push(&mut title, c),
                CreatePullRequestField::Body => string_push(&mut body, c),
                CreatePullRequestField::BaseBranch => {
                    if is_branch_name_char(c) {
                        string_push(&mut base_branch, c);
                    }
                },
            }
            Action::Nothing
        },
        _ => Action::Nothing,
    };
    (Mode::CreatePullRequest { title, body, base_branch, field }, action)
}

/// Handles a key press in the current mode: edits the text being typed, moves
/// between fields and suggestions, and returns the action that the application
/// is to carry out. `branch_count` is the number of branch suggestions that the
/// worktree form currently shows.
pub fn handle_key(mode: &mut Mode, key: KeyEvent, branch_count: usize) -> (r: Action)
    requires
        !branch_index_overflows(old(mode)@, key, branch_count),
    ensures
        (final(mode)@, r) == key_step(old(mode)@, key, branch_count),
{
    let mut current = Mode::Normal;
    std::mem::swap(&mut current, mode);
    let (next, action) = match current {
        Mode::Normal => (Mode::Normal, handle_normal_mode(key)),
        Mode::ActionMenu => (Mode::ActionMenu, handle_action_menu_mode(key)),
        Mode::Filter { input } => {
            let mut input = input;
            let a = handle_filter_mode(&mut input, key);
            (Mode::Filter { input }, a)
        },
        Mode::ConfirmAction => (Mode::ConfirmAction, handle_confirm_action_mode(key)),
        Mode::NewSession { name, path, field, path_selected } => handle_new_session_mode(
            name,
            path,
            field,
            path_selected,
            key,
        ),
        Mode::Rename { new_name } => {
            let mut new_name = new_name;
            let a = handle_rename_mode(&mut new_name, key);
            (Mode::Rename { new_name }, a)
        },
        Mode::Commit { message } => {
            let mut message = message;
            let a = handle_commit_mode(&mut message, key);
            (Mode::Commit { message }, a)
        },
        Mode::NewWorktree {
            branch_input,
            worktree_path,
            session_name,
            path_selected,
            field,
            selected_branch,
        } => handle_new_worktree_mode(
            branch_input,
            worktree_path,
            session_name,
            path_selected,
            field,
            selected_branch,
            key,
            branch_count,
        ),
        Mode::CreatePullRequest { title, body, base_branch, field } => handle_create_pr_mode(
            title,
            body,
            base_branch,
            field,
            key,
        ),
        Mode::Help => (Mode::Help, handle_help_mode(key)),
    };
    *mode = next;
    action
}

// ---------------------------------------------------------------------------
// Laws of key handling

/// Two modes are the same kind of mode, whatever their texts.
pub open spec fn same_mode_kind(a: ModeModel, b: ModeModel) -> bool {
    &&& (a is Normal) == (b is Normal)
    &&& (a is ActionMenu) == (b is ActionMenu)
    &&& (a is Filter) == (b is Filter)
    &&& (a is ConfirmAction) == (b is ConfirmAction)
    &&& (a is NewSession) == (b is NewSession)
    &&& (a is Rename) == (b is Rename)
    &&& (a is Commit) == (b is Commit)
    &&& (a is NewWorktree) == (b is NewWorktree)
    &&& (a is CreatePullRequest) == (b is CreatePullRequest)
    &&& (a is Help) == (b is Help)
}

/// A key never switches the mode by itself: it edits the current mode, and
/// leaves switching to the action it returns.
pub proof fn lemma_key_keeps_mode_kind(m: ModeModel, key: KeyEvent, branch_count: usize)
    ensures
        same_mode_kind(key_step(m, key, branch_count).0, m),
{
}

/// In modes without text (the list, the action menu, a confirmation, help) a
/// key changes nothing but the action it returns.
pub proof fn lemma_key_leaves_plain_modes(m: ModeModel, key: KeyEvent, branch_count: usize)
    requires
        m is Normal || m is ActionMenu || m is ConfirmAction || m is Help,
    ensures
        key_step(m, key, branch_count).0 == m,
{
}

/// `Tab` followed by `BackTab` returns to the field where typing was, in the
/// worktree form and the pull-request form; so does `BackTab` then `Tab`.
pub proof fn lemma_tab_backtab_roundtrip(m: ModeModel, tab: KeyEvent, back: KeyEvent, n: usize)
    requires
        m is NewWorktree || m is CreatePullRequest,
        tab.code == KeyCode::Tab,
        back.code == KeyCode::BackTab,
    ensures
        key_step(key_step(m, tab, n).0, back, n).0 == m,
        key_step(key_step(m, back, n).0, tab, n).0 == m,
{
}

/// Three presses of `Tab` cycle through the three fields of the worktree or
/// pull-request form back to the first; two presses do so in the new-session
/// form.
pub proof fn lemma_tab_cycles(m: ModeModel, tab: KeyEvent, n: usize)
    requires
        tab.code == KeyCode::Tab,
    ensures
        (m is NewWorktree || m is CreatePullRequest) ==> key_step(
            key_step(key_step(m, tab, n).0, tab, n).0,
            tab,
            n,
        ).0 == m,
        m is NewSession ==> key_step(key_step(m, tab, n).0, tab, n).0 == m,
{
}

/// Typing a character and then `Backspace` gives back the text there was, in
/// the filter, in a commit message, and in a new name when the character may
/// stand in a session name.
pub proof fn lemma_type_then_erase(m: ModeModel, typed: KeyEvent, erase: KeyEvent, n: usize)
    requires
        m is Filter || m is Commit || m is Rename,
        typed.code matches KeyCode::Char(c) && (m is Rename ==> session_name_char(c)),
        erase.code == KeyCode::Backspace,
    ensures
        key_step(key_step(m, typed, n).0, erase, n).0 == m,
{
    if let KeyCode::Char(c) = typed.code {
        match m {
            ModeModel::Filter { input } => {
                assert(input.push(c).drop_last() =~= input);
            },
            ModeModel::Commit { message } => {
                assert(message.push(c).drop_last() =~= message);
            },
            ModeModel::Rename { new_name } => {
                assert(new_name.push(c).drop_last() =~= new_name);
            },
            _ => {},
        }
    }
}

/// Every character of `s` may stand in a session name.
pub open spec fn is_session_name(s: Seq<char>) -> bool {
    forall|i: int| 0 <= i < s.len() ==> #[trigger] session_name_char(s[i])
}

/// Every character of `s` may stand in a branch name.
pub open spec fn is_branch_name(s: Seq<char>) -> bool {
    forall|i: int| 0 <= i < s.len() ==> #[trigger] branch_name_char(s[i])
}

/// The names being typed hold only allowed characters: a new name, the name of
/// a new session and the session name of a new worktree only session-name
/// characters, the base branch of a pull request only branch-name characters.
pub open spec fn names_valid(m: ModeModel) -> bool {
    match m {
        ModeModel::Rename { new_name } => is_session_name(new_name),
        ModeModel::NewSession { name, .. } => is_session_name(name),
        ModeModel::NewWorktree { session_name, .. } => is_session_name(session_name),
        ModeModel::CreatePullRequest { base_branch, .. } => is_branch_name(base_branch),
        _ => true,
    }
}

/// Typing keeps names well formed: every key keeps `names_valid`.
pub proof fn lemma_names_stay_valid(m: ModeModel, key: KeyEvent, n: usize)
    requires
        names_valid(m),
    ensures
        names_valid(key_step(m, key, n).0),
{
    match m {
        ModeModel::Rename { new_name } => {
            lemma_push_pop_keep(new_name, key, true);
        },
        ModeModel::NewSession { name, field, .. } => {
            lemma_push_pop_keep(name, key, true);
        },
        ModeModel::NewWorktree { session_name, .. } => {
            lemma_push_pop_keep(session_name, key, true);
        },
        ModeModel::CreatePullRequest { base_branch, .. } => {
            lemma_push_pop_keep_branch(base_branch, key);
        },
        _ => {},
    }
}

proof fn lemma_push_pop_keep(s: Seq<char>, key: KeyEvent, names_only: bool)
    requires
        names_only,
        is_session_name(s),
    ensures
        is_session_name(pop_last(s)),
        key.code matches KeyCode::Char(c) ==> is_session_name(
            push_if(s, c, session_name_char(c)),
        ),
{
    assert forall|i: int| 0 <= i < pop_last(s).len() implies #[trigger] session_name_char(
        pop_last(s)[i],
    ) by {
        assert(pop_last(s)[i] == s[i]);
    }
    if let KeyCode::Char(c) = key.code {
        let t = push_if(s, c, session_name_char(c));
        assert forall|i: int| 0 <= i < t.len() implies #[trigger] session_name_char(t[i]) by {
            if i < s.len() {
                assert(t[i] == s[i]);
            }
        }
    }
}

proof fn lemma_push_pop_keep_branch(s: Seq<char>, key: KeyEvent)
    requires
        is_branch_name(s),
    ensures
        is_branch_name(pop_last(s)),
        key.code matches KeyCode::Char(c) ==> is_branch_name(push_if(s, c, branch_name_char(c))),
{
    assert forall|i: int| 0 <= i < pop_last(s).len() implies #[trigger] branch_name_char(
        pop_last(s)[i],
    ) by {
        assert(pop_last(s)[i] == s[i]);
    }
    if let KeyCode::Char(c) = key.code {
        let t = push_if(s, c, branch_name_char(c));
        assert forall|i: int| 0 <= i < t.len() implies #[trigger] branch_name_char(t[i]) by {
            if i < s.len() {
                assert(t[i] == s[i]);
            }
        }
    }
}

/// Moving through the branch suggestions keeps the selection among them, and
/// `Down` followed by `Up` (or `Up` followed by `Down`) comes back to the
/// suggestion that was selected.
pub proof fn lemma_branch_moves(sel: Option<usize>, count: usize)
    requires
        count > 0,
        sel matches Some(i) ==> i < count,
    ensures
        branch_down(sel, count) matches Some(j) && j < count,
        branch_up(sel, count) matches Some(j) && j < count,
        sel is Some ==> branch_up(branch_down(sel, count), count) == sel,
        sel is Some ==> branch_down(branch_up(sel, count), count) == sel,
{
    if let Some(i) = sel {
        if i + 1 < count {
            assert((i + 1) % (count as int) == i + 1) by (nonlinear_arith)
                requires
                    0 <= i + 1 < count,
            ;
        } else {
            assert((i + 1) % (count as int) == 0) by (nonlinear_arith)
                requires
                    i + 1 == count,
                    count > 0,
            ;
        }
        if i == 0 {
            assert(((count - 1) + 1) % (count as int) == 0) by (nonlinear_arith)
                requires
                    count > 0,
            ;
        } else {
            assert(((i - 1) + 1) % (count as int) == i) by (nonlinear_arith)
                requires
                    0 < i < count,
            ;
        }
    }
    assert(((count - 1) as int) % (count as int) == count - 1) by (nonlinear_arith)
        requires
            count > 0,
    ;
    assert(0int % (count as int) == 0) by (nonlinear_arith)
        requires
            count > 0,
    ;
}

/// Declining a confirmation cancels it: `n`, `N` and `Esc` each give `Cancel`,
/// and `y`, `Y` and `Enter` each confirm; the mode itself stays as it is.
pub proof fn lemma_confirmation_answers(key: KeyEvent, n: usize)
    ensures
        key.code == KeyCode::Char('n') || key.code == KeyCode::Char('N') || key.code
            == KeyCode::Esc ==> key_step(ModeModel::ConfirmAction, key, n) == (
            ModeModel::ConfirmAction,
            Action::Cancel,
        ),
        key.code == KeyCode::Char('y') || key.code == KeyCode::Char('Y') || key.code
            == KeyCode::Enter ==> key_step(ModeModel::ConfirmAction, key, n) == (
            ModeModel::ConfirmAction,
            Action::ConfirmAction,
        ),
{
}

/// `after` is `before` with its last character removed, or both are empty.
pub open spec fn erased_last(before: Seq<char>, after: Seq<char>) -> bool {
    &&& after.len() == (if before.len() > 0 {
        before.len() - 1
    } else {
        0
    })
    &&& after == before.subrange(0, after.len() as int)
}

/// `Backspace` in a form erases the last character of the field being typed
/// into and of no other: the other texts, the field and the branch selection
/// stay as they were.
pub proof fn lemma_backspace_erases_current_field(m: ModeModel, key: KeyEvent, n: usize)
    requires
        key.code == KeyCode::Backspace,
    ensures
        m matches ModeModel::NewSession { name, path, field, .. } ==> key_step(
            m,
            key,
            n,
        ).0 matches ModeModel::NewSession { name: name2, path: path2, field: field2, .. } ==> {
            &&& field2 == field
            &&& field == NewSessionField::Name ==> erased_last(name, name2) && path2 == path
            &&& field == NewSessionField::Path ==> erased_last(path, path2) && name2 == name
        },
        m is NewSession ==> key_step(m, key, n).0 is NewSession,
        m matches ModeModel::NewWorktree {
            branch_input,
            worktree_path,
            session_name,
            field,
            selected_branch,
            ..
        } ==> key_step(m, key, n).0 matches ModeModel::NewWorktree {
            branch_input: b2,
            worktree_path: w2,
            session_name: s2,
            field: f2,
            selected_branch: sb2,
            ..
        } ==> {
            &&& f2 == field && sb2 == selected_branch
            &&& field == NewWorktreeField::Branch ==> erased_last(branch_input, b2) && w2
                == worktree_path && s2 == session_name
            &&& field == NewWorktreeField::Path ==> erased_last(worktree_path, w2) && b2
                == branch_input && s2 == session_name
            &&& field == NewWorktreeField::SessionName ==> erased_last(session_name, s2) && b2
                == branch_input && w2 == worktree_path
        },
        m is NewWorktree ==> key_step(m, key, n).0 is NewWorktree,
        m matches ModeModel::CreatePullRequest { title, body, base_branch, field }
            ==> key_step(m, key, n).0 matches ModeModel::CreatePullRequest {
            title: t2,
            body: b2,
            base_branch: r2,
            field: f2,
        } ==> {
            &&& f2 == field
            &&& field == CreatePullRequestField::Title ==> erased_last(title, t2) && b2 == body
                && r2 == base_branch
            &&& field == CreatePullRequestField::Body ==> erased_last(body, b2) && t2 == title
                && r2 == base_branch
            &&& field == CreatePullRequestField::BaseBranch ==> erased_last(base_branch, r2) && t2
                == title && b2 == body
        },
        m is CreatePullRequest ==> key_step(m, key, n).0 is CreatePullRequest,
{
    match m {
        ModeModel::NewSession { name, path, .. } => {
            assert(pop_last(name) =~= name.subrange(0, pop_last(name).len() as int));
            assert(pop_last(path) =~= path.subrange(0, pop_last(path).len() as int));
        },
        ModeModel::NewWorktree { branch_input, worktree_path, session_name, .. } => {
            assert(pop_last(branch_input) =~= branch_input.subrange(
                0,
                pop_last(branch_input).len() as int,
            ));
            assert(pop_last(worktree_path) =~= worktree_path.subrange(
                0,
                pop_last(worktree_path).len() as int,
            ));
            assert(pop_last(session_name) =~= session_name.subrange(
                0,
                pop_last(session_name).len() as int,
            ));
        },
        ModeModel::CreatePullRequest { title, body, base_branch, .. } => {
            assert(pop_last(title) =~= title.subrange(0, pop_last(title).len() as int));
            assert(pop_last(body) =~= body.subrange(0, pop_last(body).len() as int));
            assert(pop_last(base_branch) =~= base_branch.subrange(
                0,
                pop_last(base_branch).len() as int,
            ));
        },
        _ => {},
    }
}

/// The texts of a mode, in the order of its fields (empty for modes without text).
pub open spec fn texts(m: ModeModel) -> Seq<Seq<char>> {
    match m {
        ModeModel::Filter { input } => seq![input],
        ModeModel::NewSession { name, path, .. } => seq![name, path],
        ModeModel::Rename { new_name } => seq![new_name],
        ModeModel::Commit { message } => seq![message],
        ModeModel::NewWorktree { branch_input, worktree_path, session_name, .. } => seq![
            branch_input,
            worktree_path,
            session_name,
        ],
        ModeModel::CreatePullRequest { title, body, base_branch, .. } => seq![
            title,
            body,
            base_branch,
        ],
        _ => Seq::empty(),
    }
}

/// The field of a form that a character may be typed into, where that field
/// takes the character: name fields take session-name characters, the base
/// branch takes branch-name characters, every other text field takes any.
pub open spec fn accepts_char(m: ModeModel, c: char) -> bool {
    match m {
        ModeModel::Rename { .. } => session_name_char(c),
        ModeModel::NewSession { field, .. } => field == NewSessionField::Path || session_name_char(
            c,
        ),
        ModeModel::NewWorktree { field, .. } => field != NewWorktreeField::SessionName
            || session_name_char(c),
        ModeModel::CreatePullRequest { field, .. } => field != CreatePullRequestField::BaseBranch
            || branch_name_char(c),
        _ => true,
    }
}

/// In every form, typing a character that the current field takes and then
/// `Backspace` gives back all of the form's texts, in the same field.
pub proof fn lemma_type_then_erase_in_forms(m: ModeModel, typed: KeyEvent, erase: KeyEvent, n: usize)
    requires
        m is Filter || m is Commit || m is Rename || m is NewSession || m is NewWorktree
            || m is CreatePullRequest,
        typed.code matches KeyCode::Char(c) && accepts_char(m, c),
        erase.code == KeyCode::Backspace,
    ensures
        texts(key_step(key_step(m, typed, n).0, erase, n).0) == texts(m),
        same_mode_kind(key_step(key_step(m, typed, n).0, erase, n).0, m),
{
    if let KeyCode::Char(c) = typed.code {
        match m {
            ModeModel::Filter { input } => {
                assert(input.push(c).drop_last() =~= input);
            },
            ModeModel::Commit { message } => {
                assert(message.push(c).drop_last() =~= message);
            },
            ModeModel::Rename { new_name } => {
                assert(new_name.push(c).drop_last() =~= new_name);
            },
            ModeModel::NewSession { name, path, .. } => {
                assert(name.push(c).drop_last() =~= name);
                assert(path.push(c).drop_last() =~= path);
            },
            ModeModel::NewWorktree { branch_input, worktree_path, session_name, .. } => {
                assert(branch_input.push(c).drop_last() =~= branch_input);
                assert(worktree_path.push(c).drop_last() =~= worktree_path);
                assert(session_name.push(c).drop_last() =~= session_name);
            },
            ModeModel::CreatePullRequest { title, body, base_branch, .. } => {
                assert(title.push(c).drop_last() =~= title);
                assert(body.push(c).drop_last() =~= body);
                assert(base_branch.push(c).drop_last() =~= base_branch);
            },
            _ => {},
        }
    }
}

/// The keys of the session list: `j`/Down and `k`/Up move the selection down
/// and up, `q`/Esc quit, `l`/Right open the action menu, Enter switches to the
/// selected session, Control-`c` clears the filter and a plain `c` does nothing.
pub proof fn lemma_session_list_keys(key: KeyEvent, n: usize)
    ensures
        key_step(ModeModel::Normal, key, n).0 == ModeModel::Normal,
        (key.code == KeyCode::Char('j') || key.code == KeyCode::Down) ==> key_step(
            ModeModel::Normal,
            key,
            n,
        ).1 == Action::SelectNext,
        (key.code == KeyCode::Char('k') || key.code == KeyCode::Up) ==> key_step(
            ModeModel::Normal,
            key,
            n,
        ).1 == Action::SelectPrev,
        (key.code == KeyCode::Char('q') || key.code == KeyCode::Esc) ==> key_step(
            ModeModel::Normal,
            key,
            n,
        ).1 == Action::Quit,
        (key.code == KeyCode::Char('l') || key.code == KeyCode::Right) ==> key_step(
            ModeModel::Normal,
            key,
            n,
        ).1 == Action::EnterActionMenu,
        key.code == KeyCode::Enter ==> key_step(ModeModel::Normal, key, n).1
            == Action::SwitchToSelected,
        key.code == KeyCode::Char('n') ==> key_step(ModeModel::Normal, key, n).1
            == Action::StartNewSession,
        key.code == KeyCode::Char('K') ==> key_step(ModeModel::Normal, key, n).1
            == Action::StartKill,
        key.code == KeyCode::Char('r') ==> key_step(ModeModel::Normal, key, n).1
            == Action::StartRename,
        key.code == KeyCode::Char('/') ==> key_step(ModeModel::Normal, key, n).1
            == Action::StartFilter,
        key.code == KeyCode::Char('R') ==> key_step(ModeModel::Normal, key, n).1
            == Action::Refresh,
        key.code == KeyCode::Char('?') ==> key_step(ModeModel::Normal, key, n).1
            == Action::ShowHelp,
        key.code == KeyCode::Char('c') ==> key_step(ModeModel::Normal, key, n).1 == (if key.ctrl {
            Action::ClearFilter
        } else {
            Action::Nothing
        }),
{
}

/// The keys of the action menu and the help screen: in the menu `j`/Down and
/// `k`/Up move, Enter, `l` and Right execute, `h`, Left and Esc go back, `q`
/// quits; on the help screen `q`, Esc and `?` close it and every other key does
/// nothing.
pub proof fn lemma_menu_and_help_keys(key: KeyEvent, n: usize)
    ensures
        key_step(ModeModel::ActionMenu, key, n).0 == ModeModel::ActionMenu,
        key_step(ModeModel::Help, key, n).0 == ModeModel::Help,
        (key.code == KeyCode::Char('j') || key.code == KeyCode::Down) ==> key_step(
            ModeModel::ActionMenu,
            key,
            n,
        ).1 == Action::SelectNextAction,
        (key.code == KeyCode::Char('k') || key.code == KeyCode::Up) ==> key_step(
            ModeModel::ActionMenu,
            key,
            n,
        ).1 == Action::SelectPrevAction,
        (key.code == KeyCode::Enter || key.code == KeyCode::Char('l') || key.code
            == KeyCode::Right) ==> key_step(ModeModel::ActionMenu, key, n).1
            == Action::ExecuteSelectedAction,
        (key.code == KeyCode::Char('h') || key.code == KeyCode::Left || key.code == KeyCode::Esc)
            ==> key_step(ModeModel::ActionMenu, key, n).1 == Action::Cancel,
        key.code == KeyCode::Char('q') ==> key_step(ModeModel::ActionMenu, key, n).1
            == Action::Quit,
        key_step(ModeModel::Help, key, n).1 == (if key.code == KeyCode::Char('q') || key.code
            == KeyCode::Esc || key.code == KeyCode::Char('?') {
            Action::Cancel
        } else {
            Action::Nothing
        }),
{
}

/// In every text mode and form, `Esc` cancels and leaves the mode unchanged;
/// `Enter` leaves it unchanged and confirms what the mode is for.
pub proof fn lemma_escape_and_enter_in_forms(m: ModeModel, key: KeyEvent, n: usize)
    requires
        m is Filter || m is Commit || m is Rename || m is NewSession || m is NewWorktree
            || m is CreatePullRequest,
    ensures
        key.code == KeyCode::Esc ==> key_step(m, key, n) == (m, Action::Cancel),
        key.code == KeyCode::Enter ==> key_step(m, key, n).0 == m,
        key.code == KeyCode::Enter ==> key_step(m, key, n).1 == match m {
            ModeModel::Filter { .. } => Action::ApplyFilter,
            ModeModel::Commit { .. } => Action::ConfirmCommit,
            ModeModel::Rename { .. } => Action::ConfirmRename,
            ModeModel::NewSession { .. } => Action::ConfirmNewSession { start_claude: true },
            ModeModel::NewWorktree { .. } => Action::ConfirmNewWorktree,
            _ => Action::ConfirmCreatePullRequest,
        },
{
}

/// The index of the field being typed into, counted from 0 in the order in
/// which `texts` lists the fields.
pub open spec fn field_index(m: ModeModel) -> int {
    match m {
        ModeModel::NewSession { field, .. } => if field == NewSessionField::Name {
            0
        } else {
            1
        },
        ModeModel::NewWorktree { field, .. } => match field {
            NewWorktreeField::Branch => 0,
            NewWorktreeField::Path => 1,
            NewWorktreeField::SessionName => 2,
        },
        ModeModel::CreatePullRequest { field, .. } => match field {
            CreatePullRequestField::Title => 0,
            CreatePullRequestField::Body => 1,
            CreatePullRequestField::BaseBranch => 2,
        },
        _ => 0,
    }
}

/// Typing a character appends it to the field being typed into when that
/// field takes it, and to no other text; a character the field does not take
/// changes no text. The field stays where it was.
pub proof fn lemma_typing_edits_current_field(m: ModeModel, key: KeyEvent, n: usize)
    requires
        m is Filter || m is Commit || m is Rename || m is NewSession || m is NewWorktree
            || m is CreatePullRequest,
        key.code matches KeyCode::Char(c),
    ensures
        ({
            let after = key_step(m, key, n).0;
            let c = key.code->Char_0;
            let k = field_index(m);
            &&& same_mode_kind(after, m)
            &&& field_index(after) == k
            &&& texts(after).len() == texts(m).len()
            &&& 0 <= k < texts(m).len()
            &&& texts(after)[k] == (if accepts_char(m, c) {
                texts(m)[k].push(c)
            } else {
                texts(m)[k]
            })
            &&& forall|j: int| 0 <= j < texts(m).len() && j != k ==> #[trigger] texts(after)[j]
                == texts(m)[j]
        }),
{
}

/// Tab moves to the next field in the order in which the form lists them, and
/// BackTab to the previous one, wrapping around; no text changes.
pub proof fn lemma_tab_moves_to_next_field(m: ModeModel, key: KeyEvent, n: usize)
    requires
        m is NewSession || m is NewWorktree || m is CreatePullRequest,
        key.code == KeyCode::Tab || key.code == KeyCode::BackTab,
    ensures
        ({
            let after = key_step(m, key, n).0;
            let count = texts(m).len() as int;
            &&& texts(after) == texts(m)
            &&& same_mode_kind(after, m)
            &&& key_step(m, key, n).1 == Action::Nothing
            &&& key.code == KeyCode::Tab ==> field_index(after) == (field_index(m) + 1) % count
            &&& (key.code == KeyCode::BackTab && !(m is NewSession)) ==> field_index(after) == (
            field_index(m) + count - 1) % count
        }),
{
}

/// Editing a path drops the path suggestion that was selected and asks for new
/// suggestions; editing a name keeps the selection. In the worktree form, edits
/// of the branch ask for new branch suggestions, and the session name asks for
/// none.
pub proof fn lemma_edits_refresh_suggestions(m: ModeModel, key: KeyEvent, n: usize)
    requires
        m is NewSession || m is NewWorktree,
        key.code == KeyCode::Backspace || key.code is Char,
    ensures
        m matches ModeModel::NewSession { field, path_selected, .. } ==> key_step(
            m,
            key,
            n,
        ).0 matches ModeModel::NewSession { path_selected: after, .. } ==> if field
            == NewSessionField::Path {
            after is None && key_step(m, key, n).1 == Action::UpdateNewSessionPathSuggestions
        } else {
            after == path_selected && key_step(m, key, n).1 == Action::Nothing
        },
        m matches ModeModel::NewWorktree { field, path_selected, .. } ==> key_step(
            m,
            key,
            n,
        ).0 matches ModeModel::NewWorktree { path_selected: after, .. } ==> match field {
            NewWorktreeField::Branch => after == path_selected && key_step(m, key, n).1
                == Action::UpdateWorktreeSuggestions,
            NewWorktreeField::Path => after is None && key_step(m, key, n).1
                == Action::UpdateWorktreePathSuggestions,
            NewWorktreeField::SessionName => after == path_selected && key_step(m, key, n).1
                == Action::Nothing,
        },
{
}

/// Up and Down on the branch field move through the branch suggestions: from
/// suggestion `i` of `count`, Down selects `i + 1` and Up `i - 1`, wrapping at
/// both ends; with no suggestion selected, Down selects the first and Up the
/// last. Nothing else in the form changes.
pub proof fn lemma_branch_navigation(m: ModeModel, key: KeyEvent, count: usize)
    requires
        m matches ModeModel::NewWorktree { field, selected_branch, .. } && field
            == NewWorktreeField::Branch && (selected_branch matches Some(i) ==> i < count),
        key.code == KeyCode::Up || key.code == KeyCode::Down,
        count > 0,
    ensures
        ({
            let after = key_step(m, key, count).0;
            &&& texts(after) == texts(m)
            &&& key_step(m, key, count).1 == Action::UpdateWorktreeSuggestions
            &&& after matches ModeModel::NewWorktree { selected_branch: sb2, field: f2, .. }
            &&& f2 == NewWorktreeField::Branch
            &&& sb2 matches Some(j) && j < count
            &&& (m->selected_branch matches Some(i) ==> (key.code == KeyCode::Down ==> sb2 == Some(
                (if i + 1 == count {
                    0
                } else {
                    i + 1
                }) as usize,
            )))
            &&& (m->selected_branch matches Some(i) ==> (key.code == KeyCode::Up ==> sb2 == Some(
                (if i == 0 {
                    count - 1
                } else {
                    i - 1
                }) as usize,
            )))
            &&& (m->selected_branch is None ==> sb2 == Some(
                (if key.code == KeyCode::Down {
                    0
                } else {
                    count - 1
                }) as usize,
            ))
        }),
{
    lemma_branch_moves(m->selected_branch, count);
    if let Some(i) = m->selected_branch {
        if i + 1 < count {
            assert((i + 1) % (count as int) == i + 1) by (nonlinear_arith)
                requires
                    0 <= i + 1 < count,
            ;
        } else {
            assert((i + 1) % (count as int) == 0) by (nonlinear_arith)
                requires
                    i + 1 == count,
                    count > 0,
            ;
        }
    }
}

/// Which characters names take: every alphanumeric character, `-` and `_`
/// stand in a session name, and a branch name takes all of those and `/`.
pub proof fn lemma_name_characters(c: char)
    ensures
        (char_is_alphanumeric(c) || c == '-' || c == '_') ==> session_name_char(c),
        session_name_char(c) ==> branch_name_char(c),
        c == '/' ==> branch_name_char(c),
        session_name_char(c) ==> (char_is_alphanumeric(c) || c == '-' || c == '_'),
        branch_name_char(c) ==> (session_name_char(c) || c == '/'),
{
}

/// Up, Down and Right on a path field move through the path suggestions and
/// accept one, and Right on the branch field accepts the branch suggestion;
/// on a name field these keys do nothing. No text changes.
pub proof fn lemma_completion_keys(m: ModeModel, key: KeyEvent, n: usize)
    requires
        m is NewSession || m is NewWorktree,
        key.code == KeyCode::Up || key.code == KeyCode::Down || key.code == KeyCode::Right,
    ensures
        texts(key_step(m, key, n).0) == texts(m),
        m matches ModeModel::NewSession { field, .. } ==> key_step(m, key, n) == (
            m,
            if field == NewSessionField::Name {
                Action::Nothing
            } else if key.code == KeyCode::Up {
                Action::SelectPrevNewSessionPath
            } else if key.code == KeyCode::Down {
                Action::SelectNextNewSessionPath
            } else {
                Action::AcceptNewSessionPathCompletion
            },
        ),
        m matches ModeModel::NewWorktree { field, .. } ==> field == NewWorktreeField::Path
            ==> key_step(m, key, n) == (
            m,
            if key.code == KeyCode::Up {
                Action::SelectPrevWorktreePath
            } else if key.code == KeyCode::Down {
                Action::SelectNextWorktreePath
            } else {
                Action::AcceptWorktreePathCompletion
            },
        ),
        m matches ModeModel::NewWorktree { field, .. } ==> field == NewWorktreeField::SessionName
            ==> key_step(m, key, n) == (m, Action::Nothing),
        m matches ModeModel::NewWorktree { field, .. } ==> field == NewWorktreeField::Branch
            ==> key.code == KeyCode::Right ==> key_step(m, key, n) == (
            m,
            Action::AcceptBranchCompletion,
        ),
{
}

// ---------------------------------------------------------------------------
// Mouse

/// The row of the list, counted from its top, that a click hit: only a press
/// of the left button in the session list counts, and only inside the list's
/// area.
pub open spec fn clicked_row(mode: ModeModel, mouse: MouseEvent, area: Option<ListArea>) -> Option<int> {
    if !(mode is Normal) || mouse.kind != MouseEventKind::Down(MouseButton::Left) {
        None
    } else {
        match area {
            None => None,
            Some(a) => if mouse.row < a.y || mouse.row >= a.y + a.height {
                None
            } else {
                Some(mouse.row - a.y)
            },
        }
    }
}

/// The item that a click selects among `total` listed items when the view
/// starts at `offset`: the clicked row shifted by the offset, if that row shows
/// an item.
pub open spec fn click_target(
    mode: ModeModel,
    mouse: MouseEvent,
    area: Option<ListArea>,
    total: usize,
    offset: usize,
) -> Option<int> {
    match clicked_row(mode, mouse, area) {
        None => None,
        Some(v) => if v >= total {
            None
        } else if offset + v >= total {
            None
        } else {
            Some(offset + v)
        },
    }
}

/// A click selects the item shown on the clicked row: only a left press in the
/// session list, inside the list's area, on a row that shows an item, selects;
/// the selected index is the offset of the view plus the row's distance from
/// the top of the area.
pub proof fn lemma_click_selects_the_clicked_row(
    mode: ModeModel,
    mouse: MouseEvent,
    area: Option<ListArea>,
    total: usize,
    offset: usize,
)
    ensures
        click_target(mode, mouse, area, total, offset) matches Some(a) ==> {
            &&& mode is Normal
            &&& mouse.kind == MouseEventKind::Down(MouseButton::Left)
            &&& area matches Some(r)
            &&& area->0.y <= mouse.row < area->0.y + area->0.height
            &&& a == offset + (mouse.row - area->0.y)
            &&& 0 <= a < total
        },
        area matches Some(r) && mode is Normal && mouse.kind == MouseEventKind::Down(
            MouseButton::Left,
        ) && r.y <= mouse.row < r.y + r.height && offset + (mouse.row - r.y) < total ==> click_target(
            mode,
            mouse,
            area,
            total,
            offset,
        ) == Some(offset + (mouse.row - area->0.y)),
{
}

/// Handles a mouse event: a left click on an item of the session list selects
/// it and scrolls so that it stays centered. Returns the newly selected index,
/// which the application stores before it refreshes the preview; `None` when the
/// click selects nothing, and then the scroll state is left as it was.
pub fn handle_mouse(
    mode: &Mode,
    mouse: MouseEvent,
    list_area: Option<ListArea>,
    total_items: usize,
    scroll: &mut ScrollState,
) -> (r: Option<usize>)
    requires
        clicked_row(mode@, mouse, list_area) matches Some(v) ==> (v < total_items ==> old(
            scroll,
        ).offset_view() + v <= usize::MAX),
    ensures
        crate::detection::opt_index(r) == click_target(
            mode@,
            mouse,
            list_area,
            total_items,
            old(scroll).offset_view(),
        ),
        r matches Some(a) ==> {
            &&& a < total_items
            &&& final(scroll).selected_view() == Some(a)
            &&& final(scroll).offset_view() == centered_offset(
                a as int,
                total_items as int,
                list_area.unwrap().height as int,
            )
            &&& final(scroll).offset_view() <= a < final(scroll).offset_view()
                + list_area.unwrap().height
        },
        r is None ==> *final(scroll) == *old(scroll),
{
    match mode {
        Mode::Normal => {},
        _ => {
            return None;
        },
    }
    match mouse.kind {
        MouseEventKind::Down(MouseButton::Left) => {},
        _ => {
            return None;
        },
    }
    let area = match list_area {
        Some(area) => area,
        None => {
            return None;
        },
    };
    let mouse_row = mouse.row as usize;
    let list_y = area.y as usize;
    let list_height = area.height as usize;
    if mouse_row < list_y || mouse_row >= list_y + list_height {
        return None;
    }
    let visible_index = mouse_row - list_y;
    if visible_index >= total_items {
        return None;
    }
    let scroll_offset = scroll.offset();
    let actual_index = scroll_offset + visible_index;
    if actual_index >= total_items {
        return None;
    }
    let _ = scroll.update(actual_index, total_items, list_height);
    proof {
        crate::scroll_state::lemma_selection_visible(
            actual_index as int,
            total_items as int,
            list_height as int,
        );
    }
    Some(actual_index)
}

} // verus!
