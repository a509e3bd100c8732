//! Key bindings: per-pane sections that map key sequences to commands,
//! layered by merging, and the lookup that turns typed keys into messages.

use vstd::prelude::*;

use crate::app::{ActivePane, Message};
use crate::command::{has_prefix, message_of, Command};

verus! {

/// A copy of `c`.
pub fn copy_command(c: &Command) -> (r: Command)
    ensures
        r == *c,
{
    match c {
        Command::Quit => Command::Quit,
        Command::SplashUp => Command::SplashUp,
        Command::SplashDown => Command::SplashDown,
        Command::SplashOpen => Command::SplashOpen,
        Command::ExplorerUp => Command::ExplorerUp,
        Command::ExplorerDown => Command::ExplorerDown,
        Command::ExplorerOpen => Command::ExplorerOpen,
        Command::ExplorerSort => Command::ExplorerSort,
        Command::ExplorerToggle => Command::ExplorerToggle,
        Command::ExplorerNewUntitledNote => Command::ExplorerNewUntitledNote,
        Command::ExplorerNewUntitledFolder => Command::ExplorerNewUntitledFolder,
        Command::ExplorerToggleInputRename => Command::ExplorerToggleInputRename,
        Command::ExplorerToggleOutline => Command::ExplorerToggleOutline,
        Command::ExplorerSwitchPaneNext => Command::ExplorerSwitchPaneNext,
        Command::ExplorerSwitchPanePrevious => Command::ExplorerSwitchPanePrevious,
        Command::ExplorerHidePane => Command::ExplorerHidePane,
        Command::ExplorerExpandPane => Command::ExplorerExpandPane,
        Command::ExplorerScrollUpOne => Command::ExplorerScrollUpOne,
        Command::ExplorerScrollDownOne => Command::ExplorerScrollDownOne,
        Command::ExplorerScrollUpHalfPage => Command::ExplorerScrollUpHalfPage,
        Command::ExplorerScrollDownHalfPage => Command::ExplorerScrollDownHalfPage,
        Command::OutlineUp => Command::OutlineUp,
        Command::OutlineDown => Command::OutlineDown,
        Command::OutlineSelect => Command::OutlineSelect,
        Command::OutlineExpand => Command::OutlineExpand,
        Command::OutlineToggle => Command::OutlineToggle,
        Command::OutlineToggleExplorer => Command::OutlineToggleExplorer,
        Command::OutlineSwitchPaneNext => Command::OutlineSwitchPaneNext,
        Command::OutlineSwitchPanePrevious => Command::OutlineSwitchPanePrevious,
        Command::HelpModalScrollUpOne => Command::HelpModalScrollUpOne,
        Command::HelpModalScrollDownOne => Command::HelpModalScrollDownOne,
        Command::HelpModalScrollUpHalfPage => Command::HelpModalScrollUpHalfPage,
        Command::HelpModalScrollDownHalfPage => Command::HelpModalScrollDownHalfPage,
        Command::HelpModalToggle => Command::HelpModalToggle,
        Command::HelpModalClose => Command::HelpModalClose,
        Command::NoteEditorScrollUpOne => Command::NoteEditorScrollUpOne,
        Command::NoteEditorScrollDownOne => Command::NoteEditorScrollDownOne,
        Command::NoteEditorScrollUpHalfPage => Command::NoteEditorScrollUpHalfPage,
        Command::NoteEditorScrollDownHalfPage => Command::NoteEditorScrollDownHalfPage,
        Command::NoteEditorSwitchPaneNext => Command::NoteEditorSwitchPaneNext,
        Command::NoteEditorSwitchPanePrevious => Command::NoteEditorSwitchPanePrevious,
        Command::NoteEditorToggleExplorer => Command::NoteEditorToggleExplorer,
        Command::NoteEditorToggleOutline => Command::NoteEditorToggleOutline,
        Command::NoteEditorCursorUp => Command::NoteEditorCursorUp,
        Command::NoteEditorCursorDown => Command::NoteEditorCursorDown,
        Command::NoteEditorScrollToTop => Command::NoteEditorScrollToTop,
        Command::NoteEditorScrollToBottom => Command::NoteEditorScrollToBottom,
        Command::ExplorerScrollToTop => Command::ExplorerScrollToTop,
        Command::ExplorerScrollToBottom => Command::ExplorerScrollToBottom,
        Command::NoteEditorExperimentalCursorWordForward => Command::NoteEditorExperimentalCursorWordForward,
        Command::NoteEditorExperimentalCursorWordBackward => Command::NoteEditorExperimentalCursorWordBackward,
        Command::NoteEditorExperimentalToggleView => Command::NoteEditorExperimentalToggleView,
        Command::NoteEditorExperimentalSetEditView => Command::NoteEditorExperimentalSetEditView,
        Command::NoteEditorExperimentalSetReadView => Command::NoteEditorExperimentalSetReadView,
        Command::NoteEditorExperimentalSave => Command::NoteEditorExperimentalSave,
        Command::NoteEditorExperimentalExit => Command::NoteEditorExperimentalExit,
        Command::NoteEditorExperimentalCursorLeft => Command::NoteEditorExperimentalCursorLeft,
        Command::NoteEditorExperimentalCursorRight => Command::NoteEditorExperimentalCursorRight,
        Command::NoteEditorInsertMode => Command::NoteEditorInsertMode,
        Command::NoteEditorAppend => Command::NoteEditorAppend,
        Command::NoteEditorReplaceChar => Command::NoteEditorReplaceChar,
        Command::NoteEditorVisualMode => Command::NoteEditorVisualMode,
        Command::NoteEditorVisualLineMode => Command::NoteEditorVisualLineMode,
        Command::NoteEditorCursorLineStart => Command::NoteEditorCursorLineStart,
        Command::NoteEditorCursorLineEnd => Command::NoteEditorCursorLineEnd,
        Command::NoteEditorCursorFirstNonblank => Command::NoteEditorCursorFirstNonblank,
        Command::NoteEditorCursorWordEnd => Command::NoteEditorCursorWordEnd,
        Command::NoteEditorCursorWordForwardBig => Command::NoteEditorCursorWordForwardBig,
        Command::NoteEditorCursorWordBackwardBig => Command::NoteEditorCursorWordBackwardBig,
        Command::NoteEditorCursorWordEndBig => Command::NoteEditorCursorWordEndBig,
        Command::NoteEditorParagraphForward => Command::NoteEditorParagraphForward,
        Command::NoteEditorParagraphBackward => Command::NoteEditorParagraphBackward,
        Command::NoteEditorMatchingPair => Command::NoteEditorMatchingPair,
        Command::NoteEditorCursorDocStart => Command::NoteEditorCursorDocStart,
        Command::NoteEditorCursorDocEnd => Command::NoteEditorCursorDocEnd,
        Command::NoteEditorFindForward => Command::NoteEditorFindForward,
        Command::NoteEditorFindBackward => Command::NoteEditorFindBackward,
        Command::NoteEditorTillForward => Command::NoteEditorTillForward,
        Command::NoteEditorTillBackward => Command::NoteEditorTillBackward,
        Command::NoteEditorRepeatFind => Command::NoteEditorRepeatFind,
        Command::NoteEditorRepeatFindReverse => Command::NoteEditorRepeatFindReverse,
        Command::NoteEditorDelete => Command::NoteEditorDelete,
        Command::NoteEditorChange => Command::NoteEditorChange,
        Command::NoteEditorYankOperator => Command::NoteEditorYankOperator,
        Command::NoteEditorDeleteUnderCursor => Command::NoteEditorDeleteUnderCursor,
        Command::NoteEditorDeleteToLineEnd => Command::NoteEditorDeleteToLineEnd,
        Command::NoteEditorChangeToLineEnd => Command::NoteEditorChangeToLineEnd,
        Command::NoteEditorSubstituteChar => Command::NoteEditorSubstituteChar,
        Command::NoteEditorPasteAfter => Command::NoteEditorPasteAfter,
        Command::NoteEditorPasteBefore => Command::NoteEditorPasteBefore,
        Command::NoteEditorUndo => Command::NoteEditorUndo,
        Command::NoteEditorRedo => Command::NoteEditorRedo,
        Command::VaultSelectorModalUp => Command::VaultSelectorModalUp,
        Command::VaultSelectorModalDown => Command::VaultSelectorModalDown,
        Command::VaultSelectorModalClose => Command::VaultSelectorModalClose,
        Command::VaultSelectorModalOpen => Command::VaultSelectorModalOpen,
        Command::VaultSelectorModalToggle => Command::VaultSelectorModalToggle,
        Command::DebugLogToggle => Command::DebugLogToggle,
        Command::DebugLogClose => Command::DebugLogClose,
        Command::DebugLogClear => Command::DebugLogClear,
        Command::DebugLogCycleLevel => Command::DebugLogCycleLevel,
        Command::DebugLogScrollUpOne => Command::DebugLogScrollUpOne,
        Command::DebugLogScrollDownOne => Command::DebugLogScrollDownOne,
        Command::DebugLogScrollUpHalfPage => Command::DebugLogScrollUpHalfPage,
        Command::DebugLogScrollDownHalfPage => Command::DebugLogScrollDownHalfPage,
        Command::InputModalWordForward => Command::InputModalWordForward,
        Command::InputModalWordBackward => Command::InputModalWordBackward,
        Command::InputModalLeft => Command::InputModalLeft,
        Command::InputModalRight => Command::InputModalRight,
        Command::InputModalCancel => Command::InputModalCancel,
        Command::InputModalAccept => Command::InputModalAccept,
        Command::InputModalEditMode => Command::InputModalEditMode,
        Command::Exec(s) => Command::Exec(s.clone()),
        Command::Spawn(s) => Command::Spawn(s.clone()),
    }
}

/// The bindings `entries` hold, later entries overriding earlier ones.
pub open spec fn bindings_of(entries: Seq<(String, Command)>) -> Map<Seq<char>, Command>
    decreases entries.len(),
{
    if entries.len() == 0 {
        Map::empty()
    } else {
        bindings_of(entries.drop_last()).insert(entries.last().0@, entries.last().1)
    }
}

/// No key occurs twice among `entries`.
pub open spec fn unique_keys(entries: Seq<(String, Command)>) -> bool {
    forall|i: int, j: int|
        0 <= i < j < entries.len() ==> #[trigger] entries[i].0@ != #[trigger] entries[j].0@
}

/// The key sequence `keys` spells: their strings one after another.
pub open spec fn spelled(keys: Seq<String>) -> Seq<char>
    decreases keys.len(),
{
    if keys.len() == 0 {
        Seq::empty()
    } else {
        spelled(keys.drop_last()) + keys.last()@
    }
}

/// The key bindings of one pane: from the spelled key sequence to the command.
pub struct ConfigSection {
    key_bindings: Vec<(String, Command)>,
}

impl View for ConfigSection {
    type V = Map<Seq<char>, Command>;

    closed spec fn view(&self) -> Map<Seq<char>, Command> {
        bindings_of(self.key_bindings@)
    }
}

proof fn lemma_bindings_dom(entries: Seq<(String, Command)>)
    ensures
        forall|k: Seq<char>| #[trigger]
            bindings_of(entries).contains_key(k) <==> exists|i: int|
                0 <= i < entries.len() && entries[i].0@ == k,
        bindings_of(entries).dom().finite(),
    decreases entries.len(),
{
    if entries.len() > 0 {
        lemma_bindings_dom(entries.drop_last());
        assert forall|k: Seq<char>| #[trigger]
            bindings_of(entries).contains_key(k) implies exists|i: int|
                0 <= i < entries.len() && entries[i].0@ == k by {
            if k == entries.last().0@ {
                assert(entries[entries.len() - 1].0@ == k);
            } else {
                let i = choose|i: int| 0 <= i < entries.drop_last().len() && entries.drop_last()[i].0@ == k;
                assert(entries[i].0@ == k);
            }
        }
        assert forall|k: Seq<char>|
            (exists|i: int| 0 <= i < entries.len() && entries[i].0@ == k) implies #[trigger]
            bindings_of(entries).contains_key(k) by {
            let i = choose|i: int| 0 <= i < entries.len() && entries[i].0@ == k;
            if i < entries.len() - 1 {
                assert(entries.drop_last()[i].0@ == k);
            }
        }
    }
}

/// With unique keys, the binding of entry `i` is its command.
proof fn lemma_bindings_at(entries: Seq<(String, Command)>, i: int)
    requires
        unique_keys(entries),
        0 <= i < entries.len(),
    ensures
        bindings_of(entries).contains_key(entries[i].0@),
        bindings_of(entries)[entries[i].0@] == entries[i].1,
    decreases entries.len(),
{
    lemma_bindings_dom(entries);
    if i < entries.len() - 1 {
        let d = entries.drop_last();
        assert(d[i] == entries[i]);
        assert(entries[i].0@ != entries[entries.len() - 1].0@);
        lemma_bindings_at(d, i);
    }
}

impl ConfigSection {
    /// No key is bound twice.
    #[verifier::type_invariant]
    spec fn keys_unique(&self) -> bool {
        unique_keys(self.key_bindings@)
    }

    /// A section with no bindings.
    pub fn new() -> (s: ConfigSection)
        ensures
            s@ == Map::<Seq<char>, Command>::empty(),
    {
        ConfigSection { key_bindings: Vec::new() }
    }

    /// Number of bindings.
    pub fn len(&self) -> (n: usize)
        ensures
            n == self@.dom().len(),
    {
        proof {
            use_type_invariant(self);
            lemma_entries_len(self.key_bindings@);
        }
        self.key_bindings.len()
    }

    /// The command bound to `key`.
    pub fn get(&self, key: &String) -> (r: Option<Command>)
        ensures
            r == (if self@.contains_key(key@) {
                Some(self@[key@])
            } else {
                None
            }),
    {
        proof {
            use_type_invariant(self);
            lemma_bindings_dom(self.key_bindings@);
        }
        let mut i: usize = 0;
        while i < self.key_bindings.len()
            invariant
                i <= self.key_bindings@.len(),
                unique_keys(self.key_bindings@),
                forall|j: int| 0 <= j < i ==> #[trigger] self.key_bindings@[j].0@ != key@,
            decreases self.key_bindings@.len() - i,
        {
            if self.key_bindings[i].0 == *key {
                proof {
                    lemma_bindings_at(self.key_bindings@, i as int);
                }
                return Some(copy_command(&self.key_bindings[i].1));
            }
            i = i + 1;
        }
        None
    }

    /// Binds `key` to `command`, replacing any binding it had.
    pub fn insert(&mut self, key: String, command: Command)
        ensures
            final(self)@ == old(self)@.insert(key@, command),
    {
        proof {
            use_type_invariant(&*self);
        }
        let ghost e = self.key_bindings@;
        proof {
            lemma_bindings_dom(e);
        }
        let mut entries: Vec<(String, Command)> = Vec::new();
        std::mem::swap(&mut entries, &mut self.key_bindings);
        let mut i: usize = 0;
        while i < entries.len()
            invariant
                e == entries@,
                e == old(self).key_bindings@,
                i <= e.len(),
                unique_keys(e),
                forall|j: int| 0 <= j < i ==> #[trigger] e[j].0@ != key@,
            decreases e.len() - i,
        {
            if entries[i].0 == key {
                let ghost v = (key, command);
                proof {
                    lemma_set_binding(e, i as int, v);
                }
                entries.set(i, (key, command));
                assert(entries@ == e.update(i as int, v));
                self.key_bindings = entries;
                return ;
            }
            i = i + 1;
        }
        let ghost v = (key, command);
        entries.push((key, command));
        proof {
            let n = entries@;
            assert(n.drop_last() =~= e);
            assert forall|a: int, b: int| 0 <= a < b < n.len() implies #[trigger] n[a].0@ != #[trigger] n[b].0@ by {
                if b == n.len() - 1 {
                    assert(n[a] == e[a]);
                } else {
                    assert(n[a] == e[a] && n[b] == e[b]);
                }
            }
        }
        self.key_bindings = entries;
    }

    /// Merges the bindings of `config` in, overwriting those with the same key.
    pub fn merge_key_bindings(&mut self, config: ConfigSection)
        ensures
            final(self)@ == old(self)@.union_prefer_right(config@),
    {
        let ghost start = self@;
        let ghost other = config.key_bindings@;
        let mut i: usize = 0;
        let n = config.key_bindings.len();
        while i < n
            invariant
                n == other.len(),
                other == config.key_bindings@,
                i <= n,
                self@ == start.union_prefer_right(bindings_of(other.subrange(0, i as int))),
            decreases n - i,
        {
            let key = config.key_bindings[i].0.clone();
            let command = copy_command(&config.key_bindings[i].1);
            self.insert(key, command);
            proof {
                assert(other.subrange(0, i + 1).drop_last() =~= other.subrange(0, i as int));
                assert(other.subrange(0, i + 1).last() == other[i as int]);
                assert(self@ =~= start.union_prefer_right(bindings_of(other.subrange(0, i + 1))));
            }
            i = i + 1;
        }
        assert(other.subrange(0, n as int) =~= other);
    }

    /// Replaces the bindings with those of `config`, unless it has none.
    pub fn replace_key_bindings(&mut self, config: ConfigSection)
        ensures
            config@.dom().len() == 0 ==> final(self)@ == old(self)@,
            config@.dom().len() > 0 ==> final(self)@ == config@,
    {
        proof {
            use_type_invariant(&config);
            lemma_entries_len(config.key_bindings@);
        }
        if config.key_bindings.len() > 0 {
            self.key_bindings = config.key_bindings;
        }
    }

    /// The message bound to the key sequence `keys`.
    pub fn sequence_to_message(&self, keys: &[String]) -> (r: Option<Message>)
        ensures
            r == (if self@.contains_key(spelled(keys@)) {
                Some(message_of(self@[spelled(keys@)]))
            } else {
                None
            }),
    {
        let s = spell(keys);
        match self.get(&s) {
            Some(command) => Some(Message::from(command)),
            None => None,
        }
    }

    /// Some binding continues the key sequence `keys` with more keys.
    pub fn is_sequence_prefix(&self, keys: &[String]) -> (r: bool)
        ensures
            r == exists|k: Seq<char>|
                #[trigger] self@.contains_key(k) && has_prefix(k, spelled(keys@)) && k.len()
                    > spelled(keys@).len(),
    {
        let s = spell(keys);
        let st = crate::text::Text::new(s.as_str());
        proof {
            use_type_invariant(self);
            lemma_bindings_dom(self.key_bindings@);
        }
        let mut i: usize = 0;
        while i < self.key_bindings.len()
            invariant
                i <= self.key_bindings@.len(),
                unique_keys(self.key_bindings@),
                st.chars@ == s@,
                s@ == spelled(keys@),
                forall|j: int|
                    0 <= j < i ==> !(has_prefix(#[trigger] self.key_bindings@[j].0@, s@)
                        && self.key_bindings@[j].0@.len() > s@.len()),
            decreases self.key_bindings@.len() - i,
        {
            let kt = crate::text::Text::new(self.key_bindings[i].0.as_str());
            if kt.chars.len() > st.chars.len() && starts_with(&kt, &st) {
                proof {
                    lemma_bindings_at(self.key_bindings@, i as int);
                    let k = self.key_bindings@[i as int].0@;
                    assert(kt.chars@ == k);
                    assert(self@.contains_key(k) && has_prefix(k, spelled(keys@)) && k.len() > spelled(keys@).len());
                }
                return true;
            }
            i = i + 1;
        }
        proof {
            assert forall|k: Seq<char>|
                #[trigger] self@.contains_key(k) implies !(has_prefix(k, s@) && k.len() > s@.len()) by {
                let j = choose|j: int| 0 <= j < self.key_bindings@.len() && self.key_bindings@[j].0@ == k;
                assert(self.key_bindings@[j].0@ == k);
            }
        }
        false
    }

    /// A copy of this section.
    pub fn copy(&self) -> (r: ConfigSection)
        ensures
            r@ == self@,
    {
        proof {
            use_type_invariant(self);
        }
        let mut entries: Vec<(String, Command)> = Vec::new();
        let mut i: usize = 0;
        while i < self.key_bindings.len()
            invariant
                i <= self.key_bindings@.len(),
                entries@ == self.key_bindings@.subrange(0, i as int),
            decreases self.key_bindings@.len() - i,
        {
            let key = self.key_bindings[i].0.clone();
            let command = copy_command(&self.key_bindings[i].1);
            entries.push((key, command));
            i = i + 1;
            assert(entries@ =~= self.key_bindings@.subrange(0, i as int));
        }
        assert(entries@ =~= self.key_bindings@);
        ConfigSection { key_bindings: entries }
    }
}

/// Setting entry `i` (whose key is `v`'s) to `v` keeps the keys unique and
/// rebinds that key.
proof fn lemma_set_binding(e: Seq<(String, Command)>, i: int, v: (String, Command))
    requires
        unique_keys(e),
        0 <= i < e.len(),
        v.0@ == e[i].0@,
    ensures
        unique_keys(e.update(i, v)),
        bindings_of(e.update(i, v)) == bindings_of(e).insert(v.0@, v.1),
{
    let n = e.update(i, v);
    lemma_bindings_dom(e);
    lemma_bindings_dom(n);
    assert forall|a: int, b: int| 0 <= a < b < n.len() implies #[trigger] n[a].0@ != #[trigger] n[b].0@ by {
        assert(e[a].0@ != e[b].0@);
    }
    assert forall|k: Seq<char>| #[trigger] bindings_of(n).contains_key(k) implies bindings_of(n)[k]
        == bindings_of(e).insert(v.0@, v.1)[k] by {
        let j = choose|j: int| 0 <= j < n.len() && n[j].0@ == k;
        lemma_bindings_at(n, j);
        if j != i {
            lemma_bindings_at(e, j);
        }
    }
    assert(bindings_of(n).dom() =~= bindings_of(e).insert(v.0@, v.1).dom()) by {
        assert forall|k: Seq<char>| bindings_of(e).insert(v.0@, v.1).contains_key(k) implies #[trigger] bindings_of(n).contains_key(k) by {
            if k != v.0@ {
                let j = choose|j: int| 0 <= j < e.len() && e[j].0@ == k;
                assert(n[j].0@ == k);
            } else {
                assert(n[i].0@ == k);
            }
        }
    }
    assert(bindings_of(n) =~= bindings_of(e).insert(v.0@, v.1));
}

/// With unique keys there are as many bindings as entries.
proof fn lemma_entries_len(e: Seq<(String, Command)>)
    requires
        unique_keys(e),
    ensures
        bindings_of(e).dom().len() == e.len(),
    decreases e.len(),
{
    lemma_bindings_dom(e);
    if e.len() > 0 {
        let d = e.drop_last();
        assert(unique_keys(d)) by {
            assert forall|a: int, b: int| 0 <= a < b < d.len() implies #[trigger] d[a].0@ != #[trigger] d[b].0@ by {
                assert(d[a] == e[a] && d[b] == e[b]);
            }
        }
        lemma_entries_len(d);
        lemma_bindings_dom(d);
        assert(!bindings_of(d).contains_key(e.last().0@)) by {
            if bindings_of(d).contains_key(e.last().0@) {
                let j = choose|j: int| 0 <= j < d.len() && d[j].0@ == e.last().0@;
                assert(e[j].0@ != e[e.len() - 1].0@);
            }
        }
    }
}

/// `pre` is a prefix of `t`.
fn starts_with(t: &crate::text::Text, pre: &crate::text::Text) -> (r: bool)
    ensures
        r == has_prefix(t.chars@, pre.chars@),
{
    if pre.chars.len() > t.chars.len() {
        return false;
    }
    let mut i: usize = 0;
    while i < pre.chars.len()
        invariant
            i <= pre.chars@.len() <= t.chars@.len(),
            t.chars@.subrange(0, i as int) == pre.chars@.subrange(0, i as int),
        decreases pre.chars@.len() - i,
    {
        if t.chars[i] != pre.chars[i] {
            assert(t.chars@.subrange(0, pre.chars@.len() as int)[i as int] != pre.chars@[i as int]);
            return false;
        }
        i = i + 1;
        assert(t.chars@.subrange(0, i as int) =~= pre.chars@.subrange(0, i as int));
    }
    assert(pre.chars@ =~= pre.chars@.subrange(0, i as int));
    true
}

/// The keys' strings one after another.
fn spell(keys: &[String]) -> (s: String)
    ensures
        s@ == spelled(keys@),
{
    let mut s = String::new();
    let mut i: usize = 0;
    while i < keys.len()
        invariant
            i <= keys@.len(),
            s@ == spelled(keys@.subrange(0, i as int)),
        decreases keys@.len() - i,
    {
        let t = crate::text::Text::new(keys[i].as_str());
        let ghost before = s@;
        let mut j: usize = 0;
        while j < t.chars.len()
            invariant
                j <= t.chars@.len(),
                s@ == before + t.chars@.subrange(0, j as int),
            decreases t.chars@.len() - j,
        {
            crate::text::push_char(&mut s, t.chars[j]);
            j = j + 1;
            assert(s@ =~= before + t.chars@.subrange(0, j as int));
        }
        assert(keys@.subrange(0, i + 1).drop_last() =~= keys@.subrange(0, i as int));
        assert(t.chars@.subrange(0, j as int) =~= keys@[i as int]@);
        i = i + 1;
    }
    assert(keys@.subrange(0, i as int) =~= keys@);
    s
}

/// The whole key configuration: feature switches and one section per pane.
pub struct Config {
    pub experimental_editor: bool,
    pub vim_mode: bool,
    pub global: ConfigSection,
    pub splash: ConfigSection,
    pub explorer: ConfigSection,
    pub outline: ConfigSection,
    pub input_modal: ConfigSection,
    pub help_modal: ConfigSection,
    pub note_editor: ConfigSection,
    pub vault_selector_modal: ConfigSection,
    pub debug_log_modal: ConfigSection,
}

/// The bindings of every section of a configuration, in a fixed order:
/// global, splash, explorer, outline, input modal, help modal, note editor,
/// vault selector modal, debug log modal.
pub open spec fn sections(c: &Config) -> Seq<Map<Seq<char>, Command>> {
    seq![
        c.global@,
        c.splash@,
        c.explorer@,
        c.outline@,
        c.input_modal@,
        c.help_modal@,
        c.note_editor@,
        c.vault_selector_modal@,
        c.debug_log_modal@,
    ]
}

/// The section whose bindings apply in `pane`.
pub open spec fn section_of(c: &Config, pane: ActivePane) -> Map<Seq<char>, Command> {
    match pane {
        ActivePane::Splash => c.splash@,
        ActivePane::Explorer => c.explorer@,
        ActivePane::Outline => c.outline@,
        ActivePane::HelpModal => c.help_modal@,
        ActivePane::VaultSelectorModal => c.vault_selector_modal@,
        ActivePane::Input => c.input_modal@,
        ActivePane::NoteEditor => c.note_editor@,
        ActivePane::DebugLogModal => c.debug_log_modal@,
    }
}

impl Config {
    /// A configuration with no bindings and both switches off.
    pub fn new() -> (c: Config)
        ensures
            !c.experimental_editor,
            !c.vim_mode,
            forall|i: int| 0 <= i < 9 ==> #[trigger] sections(&c)[i] == Map::<Seq<char>, Command>::empty(),
    {
        Config {
            experimental_editor: false,
            vim_mode: false,
            global: ConfigSection::new(),
            splash: ConfigSection::new(),
            explorer: ConfigSection::new(),
            outline: ConfigSection::new(),
            input_modal: ConfigSection::new(),
            help_modal: ConfigSection::new(),
            note_editor: ConfigSection::new(),
            vault_selector_modal: ConfigSection::new(),
            debug_log_modal: ConfigSection::new(),
        }
    }

    /// The section whose bindings apply in `pane`.
    pub fn section(&self, pane: ActivePane) -> (s: &ConfigSection)
        ensures
            s@ == section_of(self, pane),
    {
        match pane {
            ActivePane::Splash => &self.splash,
            ActivePane::Explorer => &self.explorer,
            ActivePane::Outline => &self.outline,
            ActivePane::HelpModal => &self.help_modal,
            ActivePane::VaultSelectorModal => &self.vault_selector_modal,
            ActivePane::Input => &self.input_modal,
            ActivePane::NoteEditor => &self.note_editor,
            ActivePane::DebugLogModal => &self.debug_log_modal,
        }
    }

    /// A copy of this configuration.
    pub fn copy(&self) -> (c: Config)
        ensures
            c.experimental_editor == self.experimental_editor,
            c.vim_mode == self.vim_mode,
            sections(&c) == sections(self),
    {
        Config {
            experimental_editor: self.experimental_editor,
            vim_mode: self.vim_mode,
            global: self.global.copy(),
            splash: self.splash.copy(),
            explorer: self.explorer.copy(),
            outline: self.outline.copy(),
            input_modal: self.input_modal.copy(),
            help_modal: self.help_modal.copy(),
            note_editor: self.note_editor.copy(),
            vault_selector_modal: self.vault_selector_modal.copy(),
            debug_log_modal: self.debug_log_modal.copy(),
        }
    }

    /// Takes the switches of `config` and merges its bindings in, section by
    /// section, overwriting bindings with the same key; returns the result.
    pub fn merge(&mut self, config: Config) -> (r: Config)
        ensures
            final(self).experimental_editor == config.experimental_editor,
            final(self).vim_mode == config.vim_mode,
            forall|i: int|
                0 <= i < 9 ==> #[trigger] sections(final(self))[i] == sections(old(self))[i].union_prefer_right(
                    sections(&config)[i],
                ),
            r.experimental_editor == final(self).experimental_editor,
            r.vim_mode == final(self).vim_mode,
            sections(&r) == sections(final(self)),
    {
        self.experimental_editor = config.experimental_editor;
        self.vim_mode = config.vim_mode;
        self.global.merge_key_bindings(config.global);
        self.explorer.merge_key_bindings(config.explorer);
        self.splash.merge_key_bindings(config.splash);
        self.outline.merge_key_bindings(config.outline);
        self.input_modal.merge_key_bindings(config.input_modal);
        self.note_editor.merge_key_bindings(config.note_editor);
        self.help_modal.merge_key_bindings(config.help_modal);
        self.vault_selector_modal.merge_key_bindings(config.vault_selector_modal);
        self.debug_log_modal.merge_key_bindings(config.debug_log_modal);
        self.copy()
    }

    /// Replaces each section's bindings with those of `config`, where it has
    /// any; sections it leaves empty stay as they are. Returns the result.
    pub fn replace(&mut self, config: Config) -> (r: Config)
        ensures
            final(self).experimental_editor == old(self).experimental_editor,
            final(self).vim_mode == old(self).vim_mode,
            forall|i: int|
                0 <= i < 9 ==> #[trigger] sections(final(self))[i] == if sections(&config)[i].dom().len() == 0 {
                    sections(old(self))[i]
                } else {
                    sections(&config)[i]
                },
            r.experimental_editor == final(self).experimental_editor,
            r.vim_mode == final(self).vim_mode,
            sections(&r) == sections(final(self)),
    {
        self.global.replace_key_bindings(config.global);
        self.explorer.replace_key_bindings(config.explorer);
        self.splash.replace_key_bindings(config.splash);
        self.outline.replace_key_bindings(config.outline);
        self.input_modal.replace_key_bindings(config.input_modal);
        self.note_editor.replace_key_bindings(config.note_editor);
        self.help_modal.replace_key_bindings(config.help_modal);
        self.vault_selector_modal.replace_key_bindings(config.vault_selector_modal);
        self.debug_log_modal.replace_key_bindings(config.debug_log_modal);
        self.copy()
    }
}

/// The configuration in force: the base one; the vim bindings over it
/// (replacing whole sections) when the user turned vim mode on; the user's
/// bindings merged over that; and `quit_key` bound to quit in the global
/// section, which nothing overrides.
pub fn layered(base: Config, user: Option<Config>, vim: Option<Config>, quit_key: String) -> (c:
    Config)
    ensures
        c.global@.contains_key(quit_key@),
        c.global@[quit_key@] == Command::Quit,
        ({
            let after_vim = match (user, vim) {
                (Some(u), Some(v)) if u.vim_mode => Some(v),
                _ => None,
            };
            forall|i: int|
                0 <= i < 9 ==> {
                    let b = sections(&base)[i];
                    let v = match after_vim {
                        Some(v) => if sections(&v)[i].dom().len() == 0 {
                            b
                        } else {
                            sections(&v)[i]
                        },
                        None => b,
                    };
                    let m = match user {
                        Some(u) => v.union_prefer_right(sections(&u)[i]),
                        None => v,
                    };
                    (i == 0 ==> c.global@ == m.insert(quit_key@, Command::Quit)) && (i > 0
                        ==> #[trigger] sections(&c)[i] == m)
                }
        }),
        c.vim_mode == match user {
            Some(u) => u.vim_mode,
            None => base.vim_mode,
        },
        c.experimental_editor == match user {
            Some(u) => u.experimental_editor,
            None => base.experimental_editor,
        },
{
    let mut config = base;
    let user_vim = match &user {
        Some(u) => u.vim_mode,
        None => false,
    };
    if user_vim {
        if let Some(v) = vim {
            config.replace(v);
        }
    }
    if let Some(u) = user {
        config.merge(u);
    }
    config.global.insert(quit_key, Command::Quit);
    config
}

/// The message the key sequence `keys` completes in `pane`: a global
/// binding first, then one of the pane's section.
pub open spec fn lookup(c: &Config, pane: ActivePane, keys: Seq<String>) -> Option<Message> {
    let s = spelled(keys);
    if c.global@.contains_key(s) {
        Some(message_of(c.global@[s]))
    } else if section_of(c, pane).contains_key(s) {
        Some(message_of(section_of(c, pane)[s]))
    } else {
        None
    }
}

/// Some binding, global or of `pane`, continues the key sequence `keys`.
pub open spec fn continues(c: &Config, pane: ActivePane, keys: Seq<String>) -> bool {
    let s = spelled(keys);
    ||| exists|k: Seq<char>| #[trigger] c.global@.contains_key(k) && has_prefix(k, s) && k.len() > s.len()
    ||| exists|k: Seq<char>|
        #[trigger] section_of(c, pane).contains_key(k) && has_prefix(k, s) && k.len() > s.len()
}

/// Feeding one key to the pending sequence `keys`: the message it
/// completes (the sequence then starts afresh), or the sequence kept
/// waiting for more.
pub open spec fn key_step(c: &Config, pane: ActivePane, keys: Seq<String>) -> (Option<Message>, Seq<String>) {
    if lookup(c, pane, keys) is Some {
        (lookup(c, pane, keys), Seq::empty())
    } else if continues(c, pane, keys) {
        (None, keys)
    } else {
        (None, Seq::empty())
    }
}

/// `r` and `after` are what feeding `key` to the pending keys `before`
/// gives: `key_step` on the longer sequence, or, when that sequence neither
/// completes nor continues a binding, on the key alone.
pub open spec fn fed_key(
    c: &Config,
    pane: ActivePane,
    before: Seq<String>,
    key: String,
    r: Option<Message>,
    after: Seq<String>,
) -> bool {
    let keys = before.push(key);
    let first = key_step(c, pane, keys);
    if first.0 is Some || continues(c, pane, keys) || keys.len() <= 1 {
        r == first.0 && after == first.1
    } else {
        let again = key_step(c, pane, seq![key]);
        r == again.0 && after == again.1
    }
}

/// Feeds `key` to the pending key sequence in `pane`. A sequence that neither
/// completes nor continues a binding is dropped, and the key alone is tried
/// in its place.
pub fn handle_pending_keys(
    key: String,
    config: &Config,
    active: ActivePane,
    pending_keys: &mut Vec<String>,
) -> (r: Option<Message>)
    ensures
        fed_key(config, active, old(pending_keys)@, key, r, final(pending_keys)@),
    decreases old(pending_keys)@.len(),
{
    let ghost start = pending_keys@;
    pending_keys.push(key.clone());
    let section = config.section(active);
    let global_message = config.global.sequence_to_message(pending_keys.as_slice());
    if global_message.is_some() {
        pending_keys.clear();
        return global_message;
    }
    let section_message = section.sequence_to_message(pending_keys.as_slice());
    if section_message.is_some() {
        pending_keys.clear();
        return section_message;
    }
    let is_sequence_prefix = config.global.is_sequence_prefix(pending_keys.as_slice())
        || section.is_sequence_prefix(pending_keys.as_slice());
    if is_sequence_prefix {
        return None;
    }
    let is_sequence = pending_keys.len() > 1;
    pending_keys.clear();
    if is_sequence {
        let r = handle_pending_keys(key, config, active, pending_keys);
        proof {
            assert(seq![key] =~= Seq::<String>::empty().push(key));
        }
        r
    } else {
        None
    }
}

} // verus!
