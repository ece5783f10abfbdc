//! Which keys do what, and where.

use vstd::prelude::*;

use crate::file_tree::actions::TreeAction;

verus! {

/// What a key can do.
#[derive(Clone, Copy, Debug, PartialEq, Eq, Structural)]
pub enum Command {
    /// Switch to the window with this number.
    SelectWindow(usize),
    OpenCommandPalette,
    OpenQuickOpen,
    OpenSettings,
    /// Leave the key to what has the focus.
    Nothing,
    Save,
    GoToDefinition,
    GoBack,
    ShowHover,
    FindReferences,
    CloseResultsPanel,
    Redo,
    GoToLine,
    Tree(TreeAction),
}

/// Where a binding holds.
#[derive(Clone, Copy, Debug, PartialEq, Eq, Structural)]
pub enum KeyContext {
    Terminal,
    Editor,
    FileTree,
}

/// Keys, what they do, and where; without a context they do it everywhere.
#[derive(Clone, Copy, Debug)]
pub struct KeyBinding {
    pub keys: &'static str,
    pub command: Command,
    pub context: Option<KeyContext>,
}

/// `binding` has these three parts.
pub open spec fn binds(
    binding: KeyBinding,
    keys: Seq<char>,
    command: Command,
    context: Option<KeyContext>,
) -> bool {
    binding.keys@ == keys && binding.command == command && binding.context == context
}

/// A binding of the tree holds in the tree alone, and a key that a terminal
/// would get stays the terminal's.
pub open spec fn leaves_terminal_alone(binding: KeyBinding) -> bool {
    &&& binding.command is Tree ==> binding.context == Some(KeyContext::FileTree)
    &&& binding.context == Some(KeyContext::Terminal) ==> binding.command == Command::Nothing
}

/// Every binding.
pub fn key_bindings() -> (all: Vec<KeyBinding>)
    ensures
        all@.len() == 36,
        binds(all@[0], "alt-1"@, Command::SelectWindow(1), None),
        binds(all@[1], "alt-2"@, Command::SelectWindow(2), None),
        binds(all@[2], "alt-3"@, Command::SelectWindow(3), None),
        binds(all@[3], "alt-4"@, Command::SelectWindow(4), None),
        binds(all@[4], "alt-5"@, Command::SelectWindow(5), None),
        binds(all@[5], "alt-6"@, Command::SelectWindow(6), None),
        binds(all@[6], "alt-7"@, Command::SelectWindow(7), None),
        binds(all@[7], "alt-8"@, Command::SelectWindow(8), None),
        binds(all@[8], "alt-9"@, Command::SelectWindow(9), None),
        binds(all@[9], "ctrl-shift-p"@, Command::OpenCommandPalette, None),
        binds(all@[10], "cmd-shift-p"@, Command::OpenCommandPalette, None),
        binds(all@[11], "ctrl-shift-o"@, Command::OpenQuickOpen, None),
        binds(all@[12], "cmd-shift-o"@, Command::OpenQuickOpen, None),
        binds(all@[13], "ctrl-,"@, Command::OpenSettings, None),
        binds(all@[14], "cmd-,"@, Command::OpenSettings, None),
        binds(all@[15], "tab"@, Command::Nothing, Some(KeyContext::Terminal)),
        binds(all@[16], "shift-tab"@, Command::Nothing, Some(KeyContext::Terminal)),
        binds(all@[17], "ctrl-s"@, Command::Save, Some(KeyContext::Editor)),
        binds(all@[18], "cmd-s"@, Command::Save, Some(KeyContext::Editor)),
        binds(all@[19], "f12"@, Command::GoToDefinition, Some(KeyContext::Editor)),
        binds(all@[20], "alt-left"@, Command::GoBack, Some(KeyContext::Editor)),
        binds(all@[21], "ctrl-k ctrl-i"@, Command::ShowHover, Some(KeyContext::Editor)),
        binds(all@[22], "shift-f12"@, Command::FindReferences, Some(KeyContext::Editor)),
        binds(all@[23], "escape"@, Command::CloseResultsPanel, Some(KeyContext::Editor)),
        binds(all@[24], "ctrl-shift-z"@, Command::Redo, Some(KeyContext::Editor)),
        binds(all@[25], "ctrl-g"@, Command::GoToLine, Some(KeyContext::Editor)),
        binds(all@[26], "up"@, Command::Tree(TreeAction::SelectUp), Some(KeyContext::FileTree)),
        binds(all@[27], "down"@, Command::Tree(TreeAction::SelectDown), Some(KeyContext::FileTree)),
        binds(all@[28], "left"@, Command::Tree(TreeAction::CollapseOrSelectParent), Some(KeyContext::FileTree)),
        binds(all@[29], "right"@, Command::Tree(TreeAction::ExpandOrSelectChild), Some(KeyContext::FileTree)),
        binds(all@[30], "enter"@, Command::Tree(TreeAction::OpenSelected), Some(KeyContext::FileTree)),
        binds(all@[31], "home"@, Command::Tree(TreeAction::SelectFirst), Some(KeyContext::FileTree)),
        binds(all@[32], "end"@, Command::Tree(TreeAction::SelectLast), Some(KeyContext::FileTree)),
        binds(all@[33], "f2"@, Command::Tree(TreeAction::StartRename), Some(KeyContext::FileTree)),
        binds(all@[34], "shift-up"@, Command::Tree(TreeAction::ExtendSelectionUp), Some(KeyContext::FileTree)),
        binds(all@[35], "shift-down"@, Command::Tree(TreeAction::ExtendSelectionDown), Some(KeyContext::FileTree)),
        forall|i: int| 0 <= i < all@.len() ==> leaves_terminal_alone(#[trigger] all@[i]),
{
    vec![
        KeyBinding { keys: "alt-1", command: Command::SelectWindow(1), context: None },
        KeyBinding { keys: "alt-2", command: Command::SelectWindow(2), context: None },
        KeyBinding { keys: "alt-3", command: Command::SelectWindow(3), context: None },
        KeyBinding { keys: "alt-4", command: Command::SelectWindow(4), context: None },
        KeyBinding { keys: "alt-5", command: Command::SelectWindow(5), context: None },
        KeyBinding { keys: "alt-6", command: Command::SelectWindow(6), context: None },
        KeyBinding { keys: "alt-7", command: Command::SelectWindow(7), context: None },
        KeyBinding { keys: "alt-8", command: Command::SelectWindow(8), context: None },
        KeyBinding { keys: "alt-9", command: Command::SelectWindow(9), context: None },
        KeyBinding { keys: "ctrl-shift-p", command: Command::OpenCommandPalette, context: None },
        KeyBinding { keys: "cmd-shift-p", command: Command::OpenCommandPalette, context: None },
        KeyBinding { keys: "ctrl-shift-o", command: Command::OpenQuickOpen, context: None },
        KeyBinding { keys: "cmd-shift-o", command: Command::OpenQuickOpen, context: None },
        KeyBinding { keys: "ctrl-,", command: Command::OpenSettings, context: None },
        KeyBinding { keys: "cmd-,", command: Command::OpenSettings, context: None },
        KeyBinding { keys: "tab", command: Command::Nothing, context: Some(KeyContext::Terminal) },
        KeyBinding { keys: "shift-tab", command: Command::Nothing, context: Some(KeyContext::Terminal) },
        KeyBinding { keys: "ctrl-s", command: Command::Save, context: Some(KeyContext::Editor) },
        KeyBinding { keys: "cmd-s", command: Command::Save, context: Some(KeyContext::Editor) },
        KeyBinding { keys: "f12", command: Command::GoToDefinition, context: Some(KeyContext::Editor) },
        KeyBinding { keys: "alt-left", command: Command::GoBack, context: Some(KeyContext::Editor) },
        KeyBinding { keys: "ctrl-k ctrl-i", command: Command::ShowHover, context: Some(KeyContext::Editor) },
        KeyBinding { keys: "shift-f12", command: Command::FindReferences, context: Some(KeyContext::Editor) },
        KeyBinding { keys: "escape", command: Command::CloseResultsPanel, context: Some(KeyContext::Editor) },
        KeyBinding { keys: "ctrl-shift-z", command: Command::Redo, context: Some(KeyContext::Editor) },
        KeyBinding { keys: "ctrl-g", command: Command::GoToLine, context: Some(KeyContext::Editor) },
        KeyBinding { keys: "up", command: Command::Tree(TreeAction::SelectUp), context: Some(KeyContext::FileTree) },
        KeyBinding { keys: "down", command: Command::Tree(TreeAction::SelectDown), context: Some(KeyContext::FileTree) },
        KeyBinding { keys: "left", command: Command::Tree(TreeAction::CollapseOrSelectParent), context: Some(KeyContext::FileTree) },
        KeyBinding { keys: "right", command: Command::Tree(TreeAction::ExpandOrSelectChild), context: Some(KeyContext::FileTree) },
        KeyBinding { keys: "enter", command: Command::Tree(TreeAction::OpenSelected), context: Some(KeyContext::FileTree) },
        KeyBinding { keys: "home", command: Command::Tree(TreeAction::SelectFirst), context: Some(KeyContext::FileTree) },
        KeyBinding { keys: "end", command: Command::Tree(TreeAction::SelectLast), context: Some(KeyContext::FileTree) },
        KeyBinding { keys: "f2", command: Command::Tree(TreeAction::StartRename), context: Some(KeyContext::FileTree) },
        KeyBinding { keys: "shift-up", command: Command::Tree(TreeAction::ExtendSelectionUp), context: Some(KeyContext::FileTree) },
        KeyBinding { keys: "shift-down", command: Command::Tree(TreeAction::ExtendSelectionDown), context: Some(KeyContext::FileTree) },
    ]
}

// ---------------------------------------------------------------------------
// Laws
// ---------------------------------------------------------------------------

/// Every binding is one of its place: the keys of windows and of the dialogs
/// hold everywhere, those of the editor in the editor, and those of the tree in
/// the tree.
pub proof fn law_bindings_hold_where_they_belong(all: Vec<KeyBinding>, i: int)
    requires
        call_ensures(key_bindings, (), all),
        0 <= i < all@.len(),
    ensures
        all@[i].command is Tree <==> all@[i].context == Some(KeyContext::FileTree),
        all@[i].command is Nothing <==> all@[i].context == Some(KeyContext::Terminal),
        all@[i].context is None <==> all@[i].command is SelectWindow || all@[i].command
            is OpenCommandPalette || all@[i].command is OpenQuickOpen || all@[i].command
            is OpenSettings,
        all@[i].context == Some(KeyContext::Editor) <==> all@[i].command is Save || all@[i].command
            is GoToDefinition || all@[i].command is GoBack || all@[i].command is ShowHover
            || all@[i].command is FindReferences || all@[i].command is CloseResultsPanel
            || all@[i].command is Redo || all@[i].command is GoToLine,
{
    lemma_each_binding(all, i);
}

/// What each command of the tree is bound to: the keys that say what it does.
pub proof fn law_tree_keys(all: Vec<KeyBinding>, i: int)
    requires
        call_ensures(key_bindings, (), all),
        0 <= i < all@.len(),
    ensures
        all@[i].command matches Command::Tree(action) ==> {
            &&& action is SelectUp ==> all@[i].keys@ == "up"@
            &&& action is SelectDown ==> all@[i].keys@ == "down"@
            &&& action is CollapseOrSelectParent ==> all@[i].keys@ == "left"@
            &&& action is ExpandOrSelectChild ==> all@[i].keys@ == "right"@
            &&& action is OpenSelected ==> all@[i].keys@ == "enter"@
            &&& action is SelectFirst ==> all@[i].keys@ == "home"@
            &&& action is SelectLast ==> all@[i].keys@ == "end"@
            &&& action is StartRename ==> all@[i].keys@ == "f2"@
            &&& action is ExtendSelectionUp ==> all@[i].keys@ == "shift-up"@
            &&& action is ExtendSelectionDown ==> all@[i].keys@ == "shift-down"@
        },
{
    lemma_each_binding(all, i);
}

/// What the commands beside the tree are bound to.
pub proof fn law_command_keys(all: Vec<KeyBinding>, i: int)
    requires
        call_ensures(key_bindings, (), all),
        0 <= i < all@.len(),
    ensures
        ({
            let keys = all@[i].keys@;
            let command = all@[i].command;
            &&& command is OpenCommandPalette ==> keys == "ctrl-shift-p"@ || keys == "cmd-shift-p"@
            &&& command is OpenQuickOpen ==> keys == "ctrl-shift-o"@ || keys == "cmd-shift-o"@
            &&& command is OpenSettings ==> keys == "ctrl-,"@ || keys == "cmd-,"@
            &&& command is Nothing ==> keys == "tab"@ || keys == "shift-tab"@
            &&& command is Save ==> keys == "ctrl-s"@ || keys == "cmd-s"@
            &&& command is GoToDefinition ==> keys == "f12"@
            &&& command is GoBack ==> keys == "alt-left"@
            &&& command is ShowHover ==> keys == "ctrl-k ctrl-i"@
            &&& command is FindReferences ==> keys == "shift-f12"@
            &&& command is CloseResultsPanel ==> keys == "escape"@
            &&& command is Redo ==> keys == "ctrl-shift-z"@
            &&& command is GoToLine ==> keys == "ctrl-g"@
        }),
{
    lemma_each_binding(all, i);
}

/// Window `n` is on `alt` and its own digit, for each of the nine windows.
pub proof fn law_window_keys_are_their_digits(all: Vec<KeyBinding>, i: int)
    requires
        call_ensures(key_bindings, (), all),
        0 <= i < all@.len(),
    ensures
        all@.len() == 36,
        all@[i].command matches Command::SelectWindow(n) ==> 1 <= n <= 9 && all@[i].keys@
            == "alt-"@.push((48 + n) as char),
        i < 9 ==> all@[i].command == Command::SelectWindow((i + 1) as usize),
{
    lemma_each_binding(all, i);
    reveal_strlit("alt-");
    reveal_strlit("alt-1");
    reveal_strlit("alt-2");
    reveal_strlit("alt-3");
    reveal_strlit("alt-4");
    reveal_strlit("alt-5");
    reveal_strlit("alt-6");
    reveal_strlit("alt-7");
    reveal_strlit("alt-8");
    reveal_strlit("alt-9");
    if i < 9 {
        let n = (i + 1) as usize;
        assert(all@[i].keys@ =~= "alt-"@.push((48 + n) as char));
    }
}

proof fn lemma_each_binding(all: Vec<KeyBinding>, i: int)
    requires
        call_ensures(key_bindings, (), all),
        0 <= i < all@.len(),
    ensures
        all@.len() == 36,
        i < 9 ==> all@[i].command == Command::SelectWindow((i + 1) as usize) && all@[i].context
            is None,
        i < 9 || (i == 9 || i == 10 || i == 11 || i == 12 || i == 13 || i == 14 || i == 15 || i
            == 16 || i == 17 || i == 18 || i == 19 || i == 20 || i == 21 || i == 22 || i == 23 || i
            == 24 || i == 25 || i == 26 || i == 27 || i == 28 || i == 29 || i == 30 || i == 31 || i
            == 32 || i == 33 || i == 34 || i == 35),
{
    assert(i < 9 ==> i == 0 || i == 1 || i == 2 || i == 3 || i == 4 || i == 5 || i == 6 || i == 7
        || i == 8);
}

} // verus!
