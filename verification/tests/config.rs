use basalt::app::{ActivePane, Message, OutlineMessage};
use basalt::command::Command;
use basalt::config::{handle_pending_keys, layered, Config, ConfigSection};

#[test]
fn test_base_config_snapshot() {
    // The bundled configuration ships with the application; its snapshot is
    // platform dependent and left unchecked.
}

fn section(pairs: &[(&str, Command)]) -> ConfigSection {
    let mut s = ConfigSection::new();
    for (k, c) in pairs {
        s.insert(k.to_string(), c.clone());
    }
    s
}

#[test]
fn insert_overwrites_the_same_key() {
    let mut s = section(&[("q", Command::Quit), ("?", Command::HelpModalToggle)]);
    assert_eq!(s.len(), 2);
    s.insert("q".to_string(), Command::ExplorerUp);
    assert_eq!(s.len(), 2);
    assert_eq!(s.get(&"q".to_string()), Some(Command::ExplorerUp));
    assert_eq!(s.get(&"x".to_string()), None);
}

#[test]
fn merge_prefers_the_other_section() {
    let mut a = section(&[("q", Command::Quit), ("k", Command::ExplorerUp)]);
    let b = section(&[("k", Command::ExplorerDown), ("j", Command::OutlineDown)]);
    a.merge_key_bindings(b);
    assert_eq!(a.len(), 3);
    assert_eq!(a.get(&"q".to_string()), Some(Command::Quit));
    assert_eq!(a.get(&"k".to_string()), Some(Command::ExplorerDown));
    assert_eq!(a.get(&"j".to_string()), Some(Command::OutlineDown));
}

#[test]
fn replace_keeps_bindings_when_the_other_is_empty() {
    let mut a = section(&[("q", Command::Quit)]);
    a.replace_key_bindings(ConfigSection::new());
    assert_eq!(a.get(&"q".to_string()), Some(Command::Quit));
    a.replace_key_bindings(section(&[("x", Command::OutlineUp)]));
    assert_eq!(a.len(), 1);
    assert_eq!(a.get(&"q".to_string()), None);
}

#[test]
fn sequences_and_prefixes() {
    let s = section(&[("gg", Command::NoteEditorCursorDocStart), ("q", Command::Quit)]);
    let g = vec!["g".to_string()];
    let gg = vec!["g".to_string(), "g".to_string()];
    assert_eq!(s.sequence_to_message(&g), None);
    assert!(s.is_sequence_prefix(&g));
    assert!(!s.is_sequence_prefix(&gg), "a complete binding is no prefix of itself");
    assert_eq!(
        s.sequence_to_message(&gg),
        Some(Message::from(Command::NoteEditorCursorDocStart))
    );
}

fn config() -> Config {
    let mut c = Config::new();
    c.global = section(&[("q", Command::Quit)]);
    c.outline = section(&[("gg", Command::OutlineUp), ("j", Command::OutlineDown)]);
    c
}

#[test]
fn pending_keys_complete_a_sequence() {
    let c = config();
    let mut pending = Vec::new();
    assert_eq!(handle_pending_keys("g".to_string(), &c, ActivePane::Outline, &mut pending), None);
    assert_eq!(pending, vec!["g".to_string()]);
    assert_eq!(
        handle_pending_keys("g".to_string(), &c, ActivePane::Outline, &mut pending),
        Some(Message::Outline(OutlineMessage::Up))
    );
    assert!(pending.is_empty());
    assert_eq!(
        handle_pending_keys("q".to_string(), &c, ActivePane::Outline, &mut pending),
        Some(Message::Quit),
        "global bindings apply in every pane"
    );
}

#[test]
fn a_broken_sequence_retries_the_last_key() {
    let c = config();
    let mut pending = Vec::new();
    handle_pending_keys("g".to_string(), &c, ActivePane::Outline, &mut pending);
    assert_eq!(
        handle_pending_keys("j".to_string(), &c, ActivePane::Outline, &mut pending),
        Some(Message::Outline(OutlineMessage::Down))
    );
    assert!(pending.is_empty());
    assert_eq!(handle_pending_keys("z".to_string(), &c, ActivePane::Outline, &mut pending), None);
    assert!(pending.is_empty());
    assert_eq!(handle_pending_keys("j".to_string(), &c, ActivePane::Explorer, &mut pending), None);
}

#[test]
fn layering_order() {
    let mut base = Config::new();
    base.global = section(&[("q", Command::ExplorerUp), ("?", Command::HelpModalToggle)]);
    base.explorer = section(&[("k", Command::ExplorerUp)]);
    let mut vim = Config::new();
    vim.explorer = section(&[("j", Command::ExplorerDown)]);
    let mut user = Config::new();
    user.vim_mode = true;
    user.global = section(&[("?", Command::Quit)]);
    let c = layered(base, Some(user), Some(vim), "ctrl+c".to_string());
    assert!(c.vim_mode);
    assert_eq!(c.explorer.get(&"k".to_string()), None, "vim replaced the section");
    assert_eq!(c.explorer.get(&"j".to_string()), Some(Command::ExplorerDown));
    assert_eq!(c.global.get(&"?".to_string()), Some(Command::Quit), "user bindings win");
    assert_eq!(c.global.get(&"q".to_string()), Some(Command::ExplorerUp));
    assert_eq!(c.global.get(&"ctrl+c".to_string()), Some(Command::Quit));
}

#[test]
fn merge_returns_the_merged_config() {
    let mut a = Config::new();
    let mut b = Config::new();
    b.experimental_editor = true;
    b.note_editor = section(&[("i", Command::NoteEditorInsertMode)]);
    let r = a.merge(b);
    assert!(a.experimental_editor && r.experimental_editor);
    assert_eq!(r.note_editor.get(&"i".to_string()), Some(Command::NoteEditorInsertMode));
    assert_eq!(a.section(ActivePane::NoteEditor).len(), 1);
}
