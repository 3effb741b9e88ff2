use tagcm::cmd::session::{App, InputEvent, SessionState};
use tagcm::repo::tag_data_repository::TagDataRepository;
use tagcm::repo::unittest_repository::UnitTestRepository;

fn repo_with(entries: &[(&str, &str)]) -> UnitTestRepository {
    let mut repo = UnitTestRepository::new();
    for (tag, command) in entries {
        repo.add_tag_data(tag.to_string(), command.to_string());
    }
    repo
}

fn type_str(app: &mut App, repo: &UnitTestRepository, text: &str) {
    for c in text.chars() {
        let state = app.handle_event(repo, InputEvent::Char(c));
        assert_eq!(state, SessionState::Editing);
    }
}

#[test]
fn test_typing_narrows_suggestions() {
    let repo = repo_with(&[("test", "echo test"), ("test2", "echo test2")]);
    let mut app = App::default();
    type_str(&mut app, &repo, "test");
    assert_eq!(app.suggestion_list().len(), 2);
    type_str(&mut app, &repo, "x");
    assert_eq!(app.suggestion_list().len(), 0);
}

#[test]
fn test_suggestions_sorted_by_tag() {
    let repo = repo_with(&[("test2", "echo test2"), ("test", "echo test")]);
    let mut app = App::default();
    type_str(&mut app, &repo, "test");
    let list = app.suggestion_list();
    assert_eq!(list.len(), 2);
    assert_eq!(list[0].tag, "test");
    assert_eq!(list[0].command, "echo test");
    assert_eq!(list[1].tag, "test2");
    assert_eq!(list[1].command, "echo test2");
}

#[test]
fn test_navigation_wraps_both_ways() {
    let repo = repo_with(&[("test", "echo test"), ("test2", "echo test2")]);
    let mut app = App::default();
    let state = app.handle_event(&repo, InputEvent::Tab);
    assert_eq!(state, SessionState::Editing);
    assert_eq!(app.suggestion_list().len(), 2);
    assert_eq!(app.get_current_command_input(), 0);
    app.handle_event(&repo, InputEvent::Down);
    assert_eq!(app.get_current_command_input(), 1);
    app.handle_event(&repo, InputEvent::Down);
    assert_eq!(app.get_current_command_input(), 0);
    app.handle_event(&repo, InputEvent::Up);
    assert_eq!(app.get_current_command_input(), 1);
}

#[test]
fn test_navigation_empty_list_stays_at_start() {
    let repo = repo_with(&[]);
    let mut app = App::default();
    app.handle_event(&repo, InputEvent::Tab);
    assert_eq!(app.suggestion_list().len(), 0);
    app.handle_event(&repo, InputEvent::Down);
    assert_eq!(app.get_current_command_input(), 0);
    app.handle_event(&repo, InputEvent::Up);
    assert_eq!(app.get_current_command_input(), 0);
}

#[test]
fn test_backspace_at_start_changes_nothing() {
    let repo = repo_with(&[("abc", "echo abc")]);
    let mut app = App::default();
    type_str(&mut app, &repo, "abc");
    assert_eq!(app.cursor_position(), 3);
    app.handle_event(&repo, InputEvent::Left);
    app.handle_event(&repo, InputEvent::Left);
    app.handle_event(&repo, InputEvent::Left);
    assert_eq!(app.cursor_position(), 0);
    let state = app.handle_event(&repo, InputEvent::Backspace);
    assert_eq!(state, SessionState::Editing);
    assert_eq!(app.input_text(), "abc");
    assert_eq!(app.cursor_position(), 0);
}

#[test]
fn test_backspace_removes_char_before_cursor() {
    let repo = repo_with(&[]);
    let mut app = App::default();
    type_str(&mut app, &repo, "abc");
    app.handle_event(&repo, InputEvent::Left);
    app.handle_event(&repo, InputEvent::Backspace);
    assert_eq!(app.input_text(), "ac");
    assert_eq!(app.cursor_position(), 1);
}

#[test]
fn test_backspace_is_unicode_scalar_safe() {
    let repo = repo_with(&[]);
    let mut app = App::default();
    type_str(&mut app, &repo, "a\u{00e9}z");
    app.handle_event(&repo, InputEvent::Left);
    app.handle_event(&repo, InputEvent::Backspace);
    assert_eq!(app.input_text(), "az");
    assert_eq!(app.cursor_position(), 1);
}

#[test]
fn test_cursor_moves_clamp_at_both_ends() {
    let repo = repo_with(&[]);
    let mut app = App::default();
    type_str(&mut app, &repo, "ab");
    app.handle_event(&repo, InputEvent::Right);
    assert_eq!(app.cursor_position(), 2);
    app.handle_event(&repo, InputEvent::Left);
    app.handle_event(&repo, InputEvent::Left);
    app.handle_event(&repo, InputEvent::Left);
    assert_eq!(app.cursor_position(), 0);
}

#[test]
fn test_cursor_stays_in_range_through_mixed_edits() {
    let repo = repo_with(&[]);
    let mut app = App::default();
    let events = [
        InputEvent::Char('a'),
        InputEvent::Left,
        InputEvent::Char('b'),
        InputEvent::Backspace,
        InputEvent::Right,
        InputEvent::Right,
        InputEvent::Char('c'),
        InputEvent::Backspace,
        InputEvent::Backspace,
        InputEvent::Backspace,
        InputEvent::Left,
    ];
    for ev in events {
        app.handle_event(&repo, ev);
        let len = app.input_text().chars().count();
        assert!(app.cursor_position() <= len);
    }
}

#[test]
fn test_enter_commits_highlighted_command() {
    let repo = repo_with(&[("deploy", "kubectl apply -f .")]);
    let mut app = App::default();
    type_str(&mut app, &repo, "dep");
    assert_eq!(app.suggestion_list().len(), 1);
    let state = app.handle_event(&repo, InputEvent::Enter);
    assert!(matches!(state, SessionState::Committed(ref cmd) if cmd == "kubectl apply -f ."));
}

#[test]
fn test_enter_commits_selected_entry() {
    let repo = repo_with(&[("test", "echo test"), ("test2", "echo test2")]);
    let mut app = App::default();
    type_str(&mut app, &repo, "test");
    app.handle_event(&repo, InputEvent::Down);
    let state = app.handle_event(&repo, InputEvent::Enter);
    assert!(matches!(state, SessionState::Committed(ref cmd) if cmd == "echo test2"));
}

#[test]
fn test_enter_without_matches_keeps_editing() {
    let repo = repo_with(&[("test", "echo test"), ("test2", "echo test2")]);
    let mut app = App::default();
    type_str(&mut app, &repo, "zzz");
    assert_eq!(app.suggestion_list().len(), 0);
    let state = app.handle_event(&repo, InputEvent::Enter);
    assert_eq!(state, SessionState::Editing);
    assert_eq!(app.input_text(), "zzz");
}

#[test]
fn test_escape_cancels() {
    let repo = repo_with(&[("test", "echo test")]);
    let mut app = App::default();
    let state = app.handle_event(&repo, InputEvent::Esc);
    assert_eq!(state, SessionState::Cancelled);
}

#[test]
fn test_current_none_when_empty() {
    let repo = repo_with(&[]);
    let mut app = App::default();
    app.handle_event(&repo, InputEvent::Tab);
    assert!(app.current().is_none());
}
