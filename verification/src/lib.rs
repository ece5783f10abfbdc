//! The decision core of `rift`, a terminal cockpit with an IDE shell.

pub mod bindings;
pub mod daemon;
pub mod emphasis;
pub mod file_tree;
pub mod fuzzy_match;
pub mod gallery;
pub mod launch;
pub mod legacy;
pub mod messages;
pub mod navigation;
pub mod ordered;
pub mod outline_panel;
pub mod panels;
pub mod paths;
pub mod problems_panel;
pub mod protocol;
pub mod quick_open;
pub mod rollup;
pub mod rows;
pub mod session;
pub mod shell;
pub mod sorting;
pub mod terminal;
pub mod text;
pub mod theme;
pub mod worktree;
