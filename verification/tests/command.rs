use basalt::app::{ExplorerMessage, Message, ScrollAmount};
use basalt::command::{parse_command, run_command, str_to_command, Command};
use basalt::note_editor::Message as EditorMessage;
use basalt::state::Operator;

#[test]
fn names_map_to_commands() {
    assert_eq!(str_to_command("quit"), Some(Command::Quit));
    assert_eq!(str_to_command("explorer_up"), Some(Command::ExplorerUp));
    assert_eq!(str_to_command("note_editor_yank"), Some(Command::NoteEditorYankOperator));
    assert_eq!(str_to_command("debug_log_scroll_down_half_page"), Some(Command::DebugLogScrollDownHalfPage));
    assert_eq!(str_to_command("Quit"), None);
    assert_eq!(str_to_command(""), None);
    assert_eq!(str_to_command("quit "), None);
}

#[test]
fn deprecated_names_still_work() {
    assert_eq!(
        str_to_command("note_editor_experimental_set_edit_mode"),
        Some(Command::NoteEditorExperimentalSetEditView)
    );
    assert_eq!(
        str_to_command("note_editor_experimental_set_read_mode"),
        Some(Command::NoteEditorExperimentalSetReadView)
    );
    assert_eq!(
        str_to_command("note_editor_experimental_exit_mode"),
        Some(Command::NoteEditorExperimentalExit)
    );
}

#[test]
fn exec_and_spawn_prefixes() {
    assert_eq!(parse_command("exec:vim %note_path"), Ok(Command::Exec("vim %note_path".to_string())));
    assert_eq!(parse_command("spawn:open %vault"), Ok(Command::Spawn("open %vault".to_string())));
    assert_eq!(parse_command("exec:"), Ok(Command::Exec(String::new())));
    assert_eq!(parse_command("help_modal_toggle"), Ok(Command::HelpModalToggle));
    assert_eq!(parse_command("nope"), Err("nope is not a valid command".to_string()));
}

#[test]
fn commands_become_messages() {
    assert_eq!(Message::from(Command::Quit), Message::Quit);
    assert_eq!(
        Message::from(Command::ExplorerScrollUpHalfPage),
        Message::Explorer(ExplorerMessage::ScrollUp(ScrollAmount::HalfPage))
    );
    assert_eq!(
        Message::from(Command::NoteEditorChange),
        Message::NoteEditor(EditorMessage::Operator(Operator::Change))
    );
    assert_eq!(
        Message::from(Command::NoteEditorTillBackward),
        Message::NoteEditor(EditorMessage::FindChar { forward: false, till: true })
    );
    assert_eq!(Message::from(Command::ExplorerOpen), Message::Explorer(ExplorerMessage::Select));
    assert_eq!(Message::from(Command::Exec("ls".to_string())), Message::Exec("ls".to_string()));
}

#[test]
fn run_command_fills_in_variables() {
    let (program, args) = run_command("open %vault/%note_path %note", "Notes", "Todo", "a/Todo.md").unwrap();
    assert_eq!(program, "open");
    assert_eq!(args, vec!["Notes/a/Todo.md".to_string(), "Todo".to_string()]);
}

#[test]
fn run_command_splits_on_any_whitespace() {
    let (program, args) = run_command("  nvim\t-R \n %note  ", "v", "n", "p").unwrap();
    assert_eq!(program, "nvim");
    assert_eq!(args, vec!["-R".to_string(), "n".to_string()]);
    assert_eq!(run_command("   ", "v", "n", "p"), None);
    assert_eq!(run_command("%note", "v", "", "p"), None);
}

#[test]
fn run_command_replaces_every_occurrence() {
    let (program, args) = run_command("echo %vault%vault", "x", "n", "p").unwrap();
    assert_eq!(program, "echo");
    assert_eq!(args, vec!["xx".to_string()]);
}
