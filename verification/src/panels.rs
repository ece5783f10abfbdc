//! The identities that dock panels have in a saved layout. They never change
//! once they have been saved.

use vstd::prelude::*;

use crate::file_tree::FILE_TREE_PANEL_NAME;
use crate::outline_panel::OUTLINE_PANEL_NAME;
use crate::problems_panel::PROBLEMS_PANEL_NAME;

verus! {

/// The editor's identity.
pub const EDITOR_PANEL_NAME: &'static str = "editor";

/// The terminal's identity.
pub const TERMINAL_PANEL_NAME: &'static str = "terminal";

/// The source control panel's identity.
pub const SOURCE_CONTROL_PANEL_NAME: &'static str = "source-control";

/// The diff view's identity.
pub const DIFF_VIEW_PANEL_NAME: &'static str = "diff-view";

/// A dock panel.
#[derive(Clone, Copy, Debug, PartialEq, Eq, Structural)]
pub enum DockPanel {
    Explorer,
    Editor,
    Terminal,
    SourceControl,
    Problems,
    Outline,
    DiffView,
}

/// The identity of a panel.
pub open spec fn name_of(panel: DockPanel) -> Seq<char> {
    match panel {
        DockPanel::Explorer => FILE_TREE_PANEL_NAME@,
        DockPanel::Editor => EDITOR_PANEL_NAME@,
        DockPanel::Terminal => TERMINAL_PANEL_NAME@,
        DockPanel::SourceControl => SOURCE_CONTROL_PANEL_NAME@,
        DockPanel::Problems => PROBLEMS_PANEL_NAME@,
        DockPanel::Outline => OUTLINE_PANEL_NAME@,
        DockPanel::DiffView => DIFF_VIEW_PANEL_NAME@,
    }
}

/// The identity of a panel.
pub fn panel_name(panel: DockPanel) -> (name: &'static str)
    ensures
        name@ == name_of(panel),
{
    match panel {
        DockPanel::Explorer => FILE_TREE_PANEL_NAME,
        DockPanel::Editor => EDITOR_PANEL_NAME,
        DockPanel::Terminal => TERMINAL_PANEL_NAME,
        DockPanel::SourceControl => SOURCE_CONTROL_PANEL_NAME,
        DockPanel::Problems => PROBLEMS_PANEL_NAME,
        DockPanel::Outline => OUTLINE_PANEL_NAME,
        DockPanel::DiffView => DIFF_VIEW_PANEL_NAME,
    }
}

/// No two panels have the same identity.
pub proof fn law_panel_names_distinct(a: DockPanel, b: DockPanel)
    requires
        name_of(a) == name_of(b),
    ensures
        a == b,
{
    reveal_strlit("explorer");
    reveal_strlit("editor");
    reveal_strlit("terminal");
    reveal_strlit("source-control");
    reveal_strlit("problems");
    reveal_strlit("outline");
    reveal_strlit("diff-view");
    assert(name_of(DockPanel::Explorer)[1] == 'x');
    assert(name_of(DockPanel::Editor)[1] == 'd');
    assert(name_of(DockPanel::Terminal)[1] == 'e');
    assert(name_of(DockPanel::SourceControl)[1] == 'o');
    assert(name_of(DockPanel::Problems)[1] == 'r');
    assert(name_of(DockPanel::Outline)[1] == 'u');
    assert(name_of(DockPanel::DiffView)[1] == 'i');
}

/// A saved layout knows each panel by the same name in every run.
pub proof fn law_panel_names_are_fixed(panel: DockPanel, name: &'static str)
    requires
        call_ensures(panel_name, (panel,), name),
    ensures
        panel is Explorer ==> name@ == "explorer"@,
        panel is Editor ==> name@ == "editor"@,
        panel is Terminal ==> name@ == "terminal"@,
        panel is SourceControl ==> name@ == "source-control"@,
        panel is Problems ==> name@ == "problems"@,
        panel is Outline ==> name@ == "outline"@,
        panel is DiffView ==> name@ == "diff-view"@,
{
}

} // verus!
