//! Application settings: keyboard shortcuts, the external editor and the
//! default color picker mode.

use vstd::prelude::*;
use vstd::string::*;
use crate::chars::{lower_of, lowercase, push_char, same_chars, string_of, to_chars};
use crate::lines::{split_words, words};

verus! {

/// Modifier keys of a shortcut.
#[derive(Clone, Copy, Debug, PartialEq, Eq, Structural, Hash, Default)]
pub struct Modifiers {
    pub ctrl: bool,
    pub alt: bool,
    pub shift: bool,
}

/// The modifiers pressed, e.g. `Ctrl+Shift`; empty when none is.
pub open spec fn modifiers_str(m: Modifiers) -> Seq<char> {
    let c = if m.ctrl { "Ctrl"@ } else { Seq::empty() };
    let a = if m.alt {
        if m.ctrl { "+Alt"@ } else { "Alt"@ }
    } else {
        Seq::empty()
    };
    let s = if m.shift {
        if m.ctrl || m.alt { "+Shift"@ } else { "Shift"@ }
    } else {
        Seq::empty()
    };
    c + a + s
}

impl Modifiers {
    pub fn new(ctrl: bool, alt: bool, shift: bool) -> (r: Modifiers)
        ensures
            r == (Modifiers { ctrl, alt, shift }),
    {
        Modifiers { ctrl, alt, shift }
    }

    /// Control alone.
    pub fn ctrl() -> (r: Modifiers)
        ensures
            r == (Modifiers { ctrl: true, alt: false, shift: false }),
    {
        Modifiers::new(true, false, false)
    }

    /// No modifier.
    pub fn none() -> (r: Modifiers)
        ensures
            r == (Modifiers { ctrl: false, alt: false, shift: false }),
    {
        Modifiers::new(false, false, false)
    }

    /// Whether exactly these modifiers are the ones held.
    pub fn matches(&self, held: Modifiers) -> (r: bool)
        ensures
            r == (*self == held),
    {
        self.ctrl == held.ctrl && self.alt == held.alt && self.shift == held.shift
    }

    /// The modifiers joined with `+`, e.g. `Ctrl+Alt`.
    pub fn to_string(&self) -> (r: String)
        ensures
            r@ == modifiers_str(*self),
    {
        let mut s = String::new();
        if self.ctrl {
            s.append("Ctrl");
        }
        if self.alt {
            if self.ctrl {
                s.append("+Alt");
            } else {
                s.append("Alt");
            }
        }
        if self.shift {
            if self.ctrl || self.alt {
                s.append("+Shift");
            } else {
                s.append("Shift");
            }
        }
        assert(s@ =~= modifiers_str(*self));
        s
    }
}

/// A key press: a character, a named key such as `Escape`, or another key.
#[derive(Clone, Debug)]
pub enum KeyPress {
    Character(String),
    Named(String),
    Other,
}

/// ASCII letters folded to lower case; other characters kept.
pub open spec fn ascii_lower(c: char) -> char {
    if 'A' <= c <= 'Z' {
        ((c as u32) + 32) as char
    } else {
        c
    }
}

/// Equal up to ASCII case.
pub open spec fn eq_ascii_ci(a: Seq<char>, b: Seq<char>) -> bool {
    a.len() == b.len() && forall|i: int| 0 <= i < a.len() ==> ascii_lower(#[trigger] a[i]) == ascii_lower(b[i])
}

fn fold_ascii(c: char) -> (r: char)
    ensures
        r == ascii_lower(c),
{
    if 'A' <= c && c <= 'Z' {
        ((c as u8) + 32) as char
    } else {
        c
    }
}

fn same_ascii_ci(a: &Vec<char>, b: &Vec<char>) -> (r: bool)
    ensures
        r == eq_ascii_ci(a@, b@),
{
    if a.len() != b.len() {
        return false;
    }
    let mut i: usize = 0;
    while i < a.len()
        invariant
            a@.len() == b@.len(),
            i <= a@.len(),
            forall|k: int| 0 <= k < i ==> ascii_lower(#[trigger] a@[k]) == ascii_lower(b@[k]),
        decreases a@.len() - i,
    {
        if fold_ascii(a[i]) != fold_ascii(b[i]) {
            return false;
        }
        i = i + 1;
    }
    true
}

/// A key with modifiers.
#[derive(Clone, Debug)]
pub struct Shortcut {
    /// The key, e.g. `v`, `Delete`, `Escape`.
    pub key: String,
    pub modifiers: Modifiers,
}

impl Shortcut {
    pub open spec fn view(&self) -> (Seq<char>, Modifiers) {
        (self.key@, self.modifiers)
    }

    pub fn new(key: String, modifiers: Modifiers) -> (r: Shortcut)
        ensures
            r@ == (key@, modifiers),
    {
        Shortcut { key, modifiers }
    }

    /// A shortcut on a character key.
    pub fn char_key(c: char, modifiers: Modifiers) -> (r: Shortcut)
        ensures
            r@ == (seq![c], modifiers),
    {
        let mut key = String::new();
        push_char(&mut key, c);
        assert(key@ =~= seq![c]);
        Shortcut { key, modifiers }
    }

    /// A shortcut on a named key such as `Delete`.
    pub fn named(name: &str, modifiers: Modifiers) -> (r: Shortcut)
        ensures
            r@ == (name@, modifiers),
    {
        Shortcut { key: String::from_str(name), modifiers }
    }

    pub open spec fn matches_spec(&self, key: KeyPress, held: Modifiers) -> bool {
        self.modifiers == held && match key {
            KeyPress::Character(c) => lower_of(c@) == lower_of(self.key@),
            KeyPress::Named(n) => eq_ascii_ci(n@, self.key@),
            KeyPress::Other => false,
        }
    }

    /// Whether pressing `key` with `held` triggers this shortcut: the same
    /// modifiers, and the same character ignoring case or the same key name
    /// ignoring ASCII case.
    pub fn matches(&self, key: &KeyPress, held: Modifiers) -> (r: bool)
        ensures
            r == self.matches_spec(*key, held),
    {
        if !self.modifiers.matches(held) {
            return false;
        }
        match key {
            KeyPress::Character(c) => same_chars(
                &to_chars(lowercase(c.as_str()).as_str()),
                &to_chars(lowercase(self.key.as_str()).as_str()),
            ),
            KeyPress::Named(n) => same_ascii_ci(&to_chars(n.as_str()), &to_chars(self.key.as_str())),
            KeyPress::Other => false,
        }
    }

    pub fn duplicate(&self) -> (r: Shortcut)
        ensures
            r@ == self@,
    {
        Shortcut { key: String::from_str(self.key.as_str()), modifiers: self.modifiers }
    }

    /// `Mods+key`, or the key alone without modifiers.
    pub fn to_string(&self) -> (r: String)
        ensures
            r@ == if modifiers_str(self.modifiers).len() == 0 {
                self.key@
            } else {
                modifiers_str(self.modifiers) + "+"@ + self.key@
            },
    {
        let mods = self.modifiers.to_string();
        if mods.as_str().is_empty() {
            String::from_str(self.key.as_str())
        } else {
            let mut s = mods;
            s.append("+");
            s.append(self.key.as_str());
            s
        }
    }
}

/// Actions that have a shortcut.
#[derive(Clone, Copy, Debug, PartialEq, Eq, Structural, Hash)]
pub enum ShortcutAction {
    Paste,
    NewColor,
    Escape,
    Delete,
    CopySnippet,
}

impl ShortcutAction {
    pub fn display_name(&self) -> (r: &'static str)
        ensures
            r@ == match self {
                ShortcutAction::Paste => "Paste / Add Snippet"@,
                ShortcutAction::NewColor => "New Color Input"@,
                ShortcutAction::Escape => "Close / Cancel"@,
                ShortcutAction::Delete => "Delete Selected"@,
                ShortcutAction::CopySnippet => "Copy Snippet"@,
            },
    {
        match self {
            ShortcutAction::Paste => "Paste / Add Snippet",
            ShortcutAction::NewColor => "New Color Input",
            ShortcutAction::Escape => "Close / Cancel",
            ShortcutAction::Delete => "Delete Selected",
            ShortcutAction::CopySnippet => "Copy Snippet",
        }
    }

    /// Every action, in display order.
    pub fn all() -> (r: Vec<ShortcutAction>)
        ensures
            r@ == seq![
                ShortcutAction::Paste,
                ShortcutAction::NewColor,
                ShortcutAction::Escape,
                ShortcutAction::Delete,
                ShortcutAction::CopySnippet,
            ],
    {
        let r = vec![
            ShortcutAction::Paste,
            ShortcutAction::NewColor,
            ShortcutAction::Escape,
            ShortcutAction::Delete,
            ShortcutAction::CopySnippet,
        ];
        assert(r@ =~= seq![
            ShortcutAction::Paste,
            ShortcutAction::NewColor,
            ShortcutAction::Escape,
            ShortcutAction::Delete,
            ShortcutAction::CopySnippet,
        ]);
        r
    }
}

/// The shortcut of each action.
#[derive(Clone, Debug)]
pub struct KeyboardConfig {
    pub paste: Shortcut,
    pub new_color: Shortcut,
    pub escape: Shortcut,
    pub delete: Shortcut,
    pub copy_snippet: Shortcut,
}

fn default_copy_snippet_shortcut() -> (r: Shortcut)
    ensures
        r@ == (seq!['c'], Modifiers { ctrl: true, alt: false, shift: false }),
{
    Shortcut::char_key('c', Modifiers::ctrl())
}

impl Default for KeyboardConfig {
    /// Ctrl+V, Ctrl+N, Escape, Delete and Ctrl+C.
    fn default() -> (r: KeyboardConfig)
        ensures
            r.paste@ == (seq!['v'], Modifiers { ctrl: true, alt: false, shift: false }),
            r.new_color@ == (seq!['n'], Modifiers { ctrl: true, alt: false, shift: false }),
            r.escape@ == ("Escape"@, Modifiers { ctrl: false, alt: false, shift: false }),
            r.delete@ == ("Delete"@, Modifiers { ctrl: false, alt: false, shift: false }),
            r.copy_snippet@ == (seq!['c'], Modifiers { ctrl: true, alt: false, shift: false }),
    {
        KeyboardConfig {
            paste: Shortcut::char_key('v', Modifiers::ctrl()),
            new_color: Shortcut::char_key('n', Modifiers::ctrl()),
            escape: Shortcut::named("Escape", Modifiers::none()),
            delete: Shortcut::named("Delete", Modifiers::none()),
            copy_snippet: default_copy_snippet_shortcut(),
        }
    }
}

impl KeyboardConfig {
    pub open spec fn shortcut_of(&self, action: ShortcutAction) -> Shortcut {
        match action {
            ShortcutAction::Paste => self.paste,
            ShortcutAction::NewColor => self.new_color,
            ShortcutAction::Escape => self.escape,
            ShortcutAction::Delete => self.delete,
            ShortcutAction::CopySnippet => self.copy_snippet,
        }
    }

    pub open spec fn view(&self) -> Seq<(Seq<char>, Modifiers)> {
        seq![self.paste@, self.new_color@, self.escape@, self.delete@, self.copy_snippet@]
    }

    /// The shortcut of `action`.
    pub fn get(&self, action: ShortcutAction) -> (r: &Shortcut)
        ensures
            *r == self.shortcut_of(action),
    {
        match action {
            ShortcutAction::Paste => &self.paste,
            ShortcutAction::NewColor => &self.new_color,
            ShortcutAction::Escape => &self.escape,
            ShortcutAction::Delete => &self.delete,
            ShortcutAction::CopySnippet => &self.copy_snippet,
        }
    }

    /// Gives `action` the shortcut `shortcut`; the others stay.
    pub fn set(&mut self, action: ShortcutAction, shortcut: Shortcut)
        ensures
            final(self).shortcut_of(action) == shortcut,
            forall|other: ShortcutAction|
                other != action ==> #[trigger] final(self).shortcut_of(other) == old(
                    self,
                ).shortcut_of(other),
    {
        match action {
            ShortcutAction::Paste => self.paste = shortcut,
            ShortcutAction::NewColor => self.new_color = shortcut,
            ShortcutAction::Escape => self.escape = shortcut,
            ShortcutAction::Delete => self.delete = shortcut,
            ShortcutAction::CopySnippet => self.copy_snippet = shortcut,
        }
    }

    pub fn duplicate(&self) -> (r: KeyboardConfig)
        ensures
            r@ == self@,
    {
        KeyboardConfig {
            paste: self.paste.duplicate(),
            new_color: self.new_color.duplicate(),
            escape: self.escape.duplicate(),
            delete: self.delete.duplicate(),
            copy_snippet: self.copy_snippet.duplicate(),
        }
    }
}

/// Editors with a known command line.
#[derive(Clone, Copy, Debug, PartialEq, Eq, Structural)]
pub enum EditorPreset {
    Vscode,
    Helix,
    Neovim,
    Vim,
    Custom,
}

impl Default for EditorPreset {
    fn default() -> (r: EditorPreset)
        ensures
            r == EditorPreset::Vscode,
    {
        EditorPreset::Vscode
    }
}

pub open spec fn preset_command(p: EditorPreset) -> Option<Seq<char>> {
    match p {
        EditorPreset::Vscode => Some("code --wait {file}"@),
        EditorPreset::Helix => Some("hx {file}"@),
        EditorPreset::Neovim => Some("nvim {file}"@),
        EditorPreset::Vim => Some("vim {file}"@),
        EditorPreset::Custom => None,
    }
}

impl EditorPreset {
    /// The command template of the preset; none for `Custom`.
    pub fn default_command(&self) -> (r: Option<&'static str>)
        ensures
            match r {
                Some(s) => preset_command(*self) == Some(s@),
                None => preset_command(*self) is None,
            },
    {
        match self {
            EditorPreset::Vscode => Some("code --wait {file}"),
            EditorPreset::Helix => Some("hx {file}"),
            EditorPreset::Neovim => Some("nvim {file}"),
            EditorPreset::Vim => Some("vim {file}"),
            EditorPreset::Custom => None,
        }
    }

    pub fn display_name(&self) -> (r: &'static str)
        ensures
            r@ == match self {
                EditorPreset::Vscode => "VS Code"@,
                EditorPreset::Helix => "Helix"@,
                EditorPreset::Neovim => "Neovim"@,
                EditorPreset::Vim => "Vim"@,
                EditorPreset::Custom => "Custom"@,
            },
    {
        match self {
            EditorPreset::Vscode => "VS Code",
            EditorPreset::Helix => "Helix",
            EditorPreset::Neovim => "Neovim",
            EditorPreset::Vim => "Vim",
            EditorPreset::Custom => "Custom",
        }
    }
}

/// The external editor: a preset, or a custom command line where `{file}`
/// stands for the file path.
#[derive(Clone, Debug)]
pub struct EditorConfig {
    pub preset: EditorPreset,
    pub custom_command: String,
}

impl Default for EditorConfig {
    fn default() -> (r: EditorConfig)
        ensures
            r.preset == EditorPreset::Helix,
            r.custom_command@.len() == 0,
    {
        EditorConfig { preset: EditorPreset::Helix, custom_command: String::new() }
    }
}

/// The placeholder for the file path.
pub open spec fn file_marker() -> Seq<char> {
    seq!['{', 'f', 'i', 'l', 'e', '}']
}

/// `t` with every `{file}`, left to right, replaced by `p`.
pub open spec fn replace_marker(t: Seq<char>, p: Seq<char>) -> Seq<char>
    decreases t.len(),
{
    if t.len() == 0 {
        Seq::empty()
    } else if t.len() >= 6 && t.subrange(0, 6) == file_marker() {
        p + replace_marker(t.subrange(6, t.len() as int), p)
    } else {
        seq![t[0]] + replace_marker(t.subrange(1, t.len() as int), p)
    }
}

fn replace_file(t: &Vec<char>, p: &str) -> (r: String)
    ensures
        r@ == replace_marker(t@, p@),
{
    let mut out = String::new();
    let mut i: usize = 0;
    assert(t@.subrange(0, t@.len() as int) =~= t@);
    while i < t.len()
        invariant
            i <= t@.len(),
            out@ + replace_marker(t@.subrange(i as int, t@.len() as int), p@) == replace_marker(
                t@,
                p@,
            ),
        decreases t@.len() - i,
    {
        let ghost rest = t@.subrange(i as int, t@.len() as int);
        let ghost before = out@;
        if t.len() - i >= 6 && t[i] == '{' && t[i + 1] == 'f' && t[i + 2] == 'i' && t[i + 3] == 'l'
            && t[i + 4] == 'e' && t[i + 5] == '}' {
            assert(rest.subrange(0, 6) =~= file_marker());
            assert(rest.subrange(6, rest.len() as int) =~= t@.subrange(i + 6, t@.len() as int));
            out.append(p);
            assert(before + replace_marker(rest, p@) =~= out@ + replace_marker(
                t@.subrange(i + 6, t@.len() as int),
                p@,
            ));
            i = i + 6;
        } else {
            assert(rest.len() >= 6 ==> rest.subrange(0, 6) != file_marker()) by {
                if rest.len() >= 6 && rest.subrange(0, 6) == file_marker() {
                    assert(rest.subrange(0, 6)[0] == t@[i as int]);
                    assert(rest.subrange(0, 6)[1] == t@[i + 1]);
                    assert(rest.subrange(0, 6)[2] == t@[i + 2]);
                    assert(rest.subrange(0, 6)[3] == t@[i + 3]);
                    assert(rest.subrange(0, 6)[4] == t@[i + 4]);
                    assert(rest.subrange(0, 6)[5] == t@[i + 5]);
                }
            }
            assert(rest.subrange(1, rest.len() as int) =~= t@.subrange(i + 1, t@.len() as int));
            push_char(&mut out, t[i]);
            assert(before + replace_marker(rest, p@) =~= out@ + replace_marker(
                t@.subrange(i + 1, t@.len() as int),
                p@,
            ));
            i = i + 1;
        }
    }
    assert(t@.subrange(i as int, t@.len() as int) =~= Seq::<char>::empty());
    assert(out@ =~= out@ + replace_marker(Seq::<char>::empty(), p@));
    out
}

impl EditorConfig {
    pub open spec fn effective(&self) -> Seq<char> {
        match self.preset {
            EditorPreset::Custom => self.custom_command@,
            p => preset_command(p)->0,
        }
    }

    /// The command template in use: the preset's, or the custom one.
    pub fn effective_command(&self) -> (r: &str)
        ensures
            r@ == self.effective(),
    {
        match self.preset {
            EditorPreset::Custom => self.custom_command.as_str(),
            p => match p.default_command() {
                Some(c) => c,
                None => "code --wait {file}",
            },
        }
    }

    pub open spec fn command_spec(&self, file: Seq<char>) -> Option<(Seq<char>, Seq<Seq<char>>)> {
        let t = self.effective();
        let w = words(replace_marker(t, file));
        if t.len() == 0 || w.len() == 0 {
            None
        } else {
            Some((w[0], w.subrange(1, w.len() as int)))
        }
    }

    /// Program and arguments for opening `file_path`: the template with
    /// `{file}` replaced, split at whitespace; none when that is empty.
    pub fn build_command(&self, file_path: &str) -> (r: Option<(String, Vec<String>)>)
        ensures
            match r {
                Some((prog, args)) => self.command_spec(file_path@) == Some(
                    (prog@, args.deep_view()),
                ),
                None => self.command_spec(file_path@) is None,
            },
    {
        let template = to_chars(self.effective_command());
        if template.len() == 0 {
            return None;
        }
        let line = replace_file(&template, file_path);
        let parts = split_words(&to_chars(line.as_str()));
        if parts.len() == 0 {
            return None;
        }
        let ghost pv = parts.deep_view();
        let program = string_of(&to_chars(parts[0].as_str()), 0, to_chars(parts[0].as_str()).len());
        let mut args: Vec<String> = Vec::new();
        let mut i: usize = 1;
        while i < parts.len()
            invariant
                1 <= i <= parts@.len(),
                pv == parts.deep_view(),
                args.deep_view() == pv.subrange(1, i as int),
            decreases parts@.len() - i,
        {
            let ghost before = args.deep_view();
            let a = String::from_str(parts[i].as_str());
            assert(a@ == pv[i as int]);
            args.push(a);
            assert(args.deep_view() =~= before.push(pv[i as int]));
            assert(args.deep_view() =~= pv.subrange(1, i + 1));
            i = i + 1;
        }
        assert(program@ =~= pv[0]);
        Some((program, args))
    }
}

/// Color picker mode.
#[derive(Clone, Copy, Debug, PartialEq, Eq, Structural)]
pub enum PickerMode {
    Hsl,
    Oklch,
}

impl Default for PickerMode {
    fn default() -> (r: PickerMode)
        ensures
            r == PickerMode::Hsl,
    {
        PickerMode::Hsl
    }
}

/// All settings.
#[derive(Clone, Debug)]
pub struct Config {
    pub editor: EditorConfig,
    pub keyboard: KeyboardConfig,
    pub default_picker_mode: PickerMode,
}

impl Default for Config {
    fn default() -> (r: Config)
        ensures
            r.editor.preset == EditorPreset::Helix,
            r.editor.custom_command@.len() == 0,
            r.default_picker_mode == PickerMode::Hsl,
    {
        Config {
            editor: EditorConfig::default(),
            keyboard: KeyboardConfig::default(),
            default_picker_mode: PickerMode::default(),
        }
    }
}

/// The settings as the settings dialog edits them.
#[derive(Clone, Debug)]
pub struct SettingsState {
    pub editor_preset: EditorPreset,
    pub custom_command: String,
    pub keyboard: KeyboardConfig,
    /// The action whose shortcut is being recorded, if any.
    pub recording_action: Option<ShortcutAction>,
    pub default_picker_mode: PickerMode,
}

impl SettingsState {
    /// The state for `config`, recording nothing.
    pub fn from_config(config: &Config) -> (r: SettingsState)
        ensures
            r.editor_preset == config.editor.preset,
            r.custom_command@ == config.editor.custom_command@,
            r.keyboard@ == config.keyboard@,
            r.recording_action is None,
            r.default_picker_mode == config.default_picker_mode,
    {
        SettingsState {
            editor_preset: config.editor.preset,
            custom_command: String::from_str(config.editor.custom_command.as_str()),
            keyboard: config.keyboard.duplicate(),
            recording_action: None,
            default_picker_mode: config.default_picker_mode,
        }
    }

    /// Writes the edited settings into `config`.
    pub fn apply_to_config(&self, config: &mut Config)
        ensures
            final(config).editor.preset == self.editor_preset,
            final(config).editor.custom_command@ == self.custom_command@,
            final(config).keyboard@ == self.keyboard@,
            final(config).default_picker_mode == self.default_picker_mode,
    {
        config.editor.preset = self.editor_preset;
        config.editor.custom_command = String::from_str(self.custom_command.as_str());
        config.keyboard = self.keyboard.duplicate();
        config.default_picker_mode = self.default_picker_mode;
    }
}

} // verus!
