//! The state of the gallery's demos, and the sample data that they show.

use vstd::prelude::*;

use crate::text;

verus! {

// ---------------------------------------------------------------------------
// Theme tokens
// ---------------------------------------------------------------------------

/// The colour tokens that the swatches show, in order.
pub open spec fn token_names() -> Seq<Seq<char>> {
    seq![
        "accent"@,
        "accent_foreground"@,
        "accordion"@,
        "accordion_hover"@,
        "background"@,
        "border"@,
        "button_primary"@,
        "button_primary_active"@,
        "button_primary_foreground"@,
        "button_primary_hover"@,
        "group_box"@,
        "group_box_foreground"@,
        "caret"@,
        "chart_1"@,
        "chart_2"@,
        "chart_3"@,
        "chart_4"@,
        "chart_5"@,
        "chart_bullish"@,
        "chart_bearish"@,
        "danger"@,
        "danger_active"@,
        "danger_foreground"@,
        "danger_hover"@,
        "description_list_label"@,
        "description_list_label_foreground"@,
        "drag_border"@,
        "drop_target"@,
        "foreground"@,
        "info"@,
        "info_active"@,
        "info_foreground"@,
        "info_hover"@,
        "input"@,
        "link"@,
        "link_active"@,
        "link_hover"@,
        "list"@,
        "list_active"@,
        "list_active_border"@,
        "list_even"@,
        "list_head"@,
        "list_hover"@,
        "muted"@,
        "muted_foreground"@,
        "popover"@,
        "popover_foreground"@,
        "primary"@,
        "primary_active"@,
        "primary_foreground"@,
        "primary_hover"@,
        "progress_bar"@,
        "ring"@,
        "scrollbar"@,
        "scrollbar_thumb"@,
        "scrollbar_thumb_hover"@,
        "secondary"@,
        "secondary_active"@,
        "secondary_foreground"@,
        "secondary_hover"@,
        "selection"@,
        "sidebar"@,
        "sidebar_accent"@,
        "sidebar_accent_foreground"@,
        "sidebar_border"@,
        "sidebar_foreground"@,
        "sidebar_primary"@,
        "sidebar_primary_foreground"@,
        "skeleton"@,
        "slider_bar"@,
        "slider_thumb"@,
        "success"@,
        "success_foreground"@,
        "success_hover"@,
        "success_active"@,
        "switch"@,
        "switch_thumb"@,
        "tab"@,
        "tab_active"@,
        "tab_active_foreground"@,
        "tab_bar"@,
        "tab_bar_segmented"@,
        "tab_foreground"@,
        "table"@,
        "table_active"@,
        "table_active_border"@,
        "table_even"@,
        "table_head"@,
        "table_head_foreground"@,
        "table_foot"@,
        "table_foot_foreground"@,
        "table_hover"@,
        "table_row_border"@,
        "title_bar"@,
        "title_bar_border"@,
        "tiles"@,
        "warning"@,
        "warning_active"@,
        "warning_hover"@,
        "warning_foreground"@,
        "overlay"@,
        "window_border"@,
        "red"@,
        "red_light"@,
        "green"@,
        "green_light"@,
        "blue"@,
        "blue_light"@,
        "yellow"@,
        "yellow_light"@,
        "magenta"@,
        "magenta_light"@,
        "cyan"@,
        "cyan_light"@,
    ]
}

/// The views of a list of literals.
pub open spec fn spelled_out(names: Seq<&str>) -> Seq<Seq<char>> {
    Seq::new(names.len(), |i: int| names[i]@)
}

/// The colour tokens that the swatches show, in order.
pub fn theme_tokens() -> (names: Vec<&'static str>)
    ensures
        spelled_out(names@) == token_names(),
{
    let names: Vec<&'static str> = vec![
        "accent",
        "accent_foreground",
        "accordion",
        "accordion_hover",
        "background",
        "border",
        "button_primary",
        "button_primary_active",
        "button_primary_foreground",
        "button_primary_hover",
        "group_box",
        "group_box_foreground",
        "caret",
        "chart_1",
        "chart_2",
        "chart_3",
        "chart_4",
        "chart_5",
        "chart_bullish",
        "chart_bearish",
        "danger",
        "danger_active",
        "danger_foreground",
        "danger_hover",
        "description_list_label",
        "description_list_label_foreground",
        "drag_border",
        "drop_target",
        "foreground",
        "info",
        "info_active",
        "info_foreground",
        "info_hover",
        "input",
        "link",
        "link_active",
        "link_hover",
        "list",
        "list_active",
        "list_active_border",
        "list_even",
        "list_head",
        "list_hover",
        "muted",
        "muted_foreground",
        "popover",
        "popover_foreground",
        "primary",
        "primary_active",
        "primary_foreground",
        "primary_hover",
        "progress_bar",
        "ring",
        "scrollbar",
        "scrollbar_thumb",
        "scrollbar_thumb_hover",
        "secondary",
        "secondary_active",
        "secondary_foreground",
        "secondary_hover",
        "selection",
        "sidebar",
        "sidebar_accent",
        "sidebar_accent_foreground",
        "sidebar_border",
        "sidebar_foreground",
        "sidebar_primary",
        "sidebar_primary_foreground",
        "skeleton",
        "slider_bar",
        "slider_thumb",
        "success",
        "success_foreground",
        "success_hover",
        "success_active",
        "switch",
        "switch_thumb",
        "tab",
        "tab_active",
        "tab_active_foreground",
        "tab_bar",
        "tab_bar_segmented",
        "tab_foreground",
        "table",
        "table_active",
        "table_active_border",
        "table_even",
        "table_head",
        "table_head_foreground",
        "table_foot",
        "table_foot_foreground",
        "table_hover",
        "table_row_border",
        "title_bar",
        "title_bar_border",
        "tiles",
        "warning",
        "warning_active",
        "warning_hover",
        "warning_foreground",
        "overlay",
        "window_border",
        "red",
        "red_light",
        "green",
        "green_light",
        "blue",
        "blue_light",
        "yellow",
        "yellow_light",
        "magenta",
        "magenta_light",
        "cyan",
        "cyan_light",
    ];
    assert(spelled_out(names@) =~= token_names());
    names
}

// ---------------------------------------------------------------------------
// Notifications
// ---------------------------------------------------------------------------

/// The kinds of notification that the demo pushes.
#[derive(Clone, Copy, Debug, PartialEq, Eq, Structural)]
pub enum NotificationKind {
    Info,
    Success,
    Warning,
    Error,
}

/// The message of a notification.
pub open spec fn message_of(kind: NotificationKind) -> Seq<char> {
    match kind {
        NotificationKind::Info => "This is an info notification."@,
        NotificationKind::Success => "Saved successfully."@,
        NotificationKind::Warning => "Low disk space."@,
        NotificationKind::Error => "Something went wrong."@,
    }
}

/// The message of a notification.
pub fn notification_message(kind: NotificationKind) -> (message: &'static str)
    ensures
        message@ == message_of(kind),
{
    match kind {
        NotificationKind::Info => "This is an info notification.",
        NotificationKind::Success => "Saved successfully.",
        NotificationKind::Warning => "Low disk space.",
        NotificationKind::Error => "Something went wrong.",
    }
}

// ---------------------------------------------------------------------------
// Tabs
// ---------------------------------------------------------------------------

/// The tab bar's demo: the active one of three tabs.
#[derive(Clone, Copy, Debug, PartialEq, Eq, Structural)]
pub struct TabsDemo {
    pub active: usize,
}

/// The label of a tab.
pub open spec fn tab_label_of(tab: usize) -> Seq<char> {
    if tab == 0 {
        "Account"@
    } else if tab == 1 {
        "Password"@
    } else {
        "Notifications"@
    }
}

/// The label of a tab.
pub fn tab_label(tab: usize) -> (label: &'static str)
    requires
        tab < 3,
    ensures
        label@ == tab_label_of(tab),
{
    if tab == 0 {
        "Account"
    } else if tab == 1 {
        "Password"
    } else {
        "Notifications"
    }
}

impl TabsDemo {
    /// The active tab is one of the three.
    pub open spec fn wf(&self) -> bool {
        self.active < 3
    }

    /// The first tab is active.
    pub fn new() -> (demo: Self)
        ensures
            demo.wf(),
            demo.active == 0,
    {
        TabsDemo { active: 0 }
    }

    /// Activates a tab.
    pub fn select(&mut self, tab: usize)
        requires
            tab < 3,
        ensures
            final(self).wf(),
            final(self).active == tab,
    {
        self.active = tab;
    }

    /// What the active tab shows.
    pub fn content(&self) -> (content: String)
        requires
            self.wf(),
        ensures
            content@ == "Content for the "@ + tab_label_of(self.active) + " tab."@,
    {
        let mut content = "Content for the ".to_owned();
        content.append(tab_label(self.active));
        content.append(" tab.");
        content
    }
}

// ---------------------------------------------------------------------------
// Accordion and collapsible
// ---------------------------------------------------------------------------

/// The accordion's demo: the open items.
pub struct AccordionDemo {
    pub open: Vec<usize>,
}

impl AccordionDemo {
    /// The first item is open.
    pub fn new() -> (demo: Self)
        ensures
            demo.open@ == seq![0usize],
    {
        AccordionDemo { open: vec![0] }
    }

    /// The open items changed.
    pub fn toggled(&mut self, open: Vec<usize>)
        ensures
            final(self).open == open,
    {
        self.open = open;
    }

    /// Whether an item is open.
    pub fn is_open(&self, item: usize) -> (open: bool)
        ensures
            open == self.open@.contains(item),
    {
        let mut i: usize = 0;
        while i < self.open.len()
            invariant
                i <= self.open@.len(),
                forall|k: int| 0 <= k < i ==> self.open@[k] != item,
            decreases self.open@.len() - i,
        {
            if self.open[i] == item {
                assert(self.open@[i as int] == item);
                return true;
            }
            i = i + 1;
        }
        false
    }
}

/// The collapsible's demo.
#[derive(Clone, Copy, Debug, PartialEq, Eq, Structural)]
pub struct CollapsibleDemo {
    pub open: bool,
}

impl CollapsibleDemo {
    /// The details show.
    pub fn new() -> (demo: Self)
        ensures
            demo.open,
    {
        CollapsibleDemo { open: true }
    }

    /// Shows or hides the details.
    pub fn toggle(&mut self)
        ensures
            final(self).open == !old(self).open,
    {
        self.open = !self.open;
    }

    /// The label of the button.
    pub fn label(&self) -> (label: &'static str)
        ensures
            label@ == if self.open {
                "Hide details"@
            } else {
                "Show details"@
            },
    {
        if self.open {
            "Hide details"
        } else {
            "Show details"
        }
    }
}

// ---------------------------------------------------------------------------
// Pagination and stepper
// ---------------------------------------------------------------------------

/// The number of pages of the pagination's demo.
pub const TOTAL_PAGES: usize = 10;

/// The pagination's demo.
#[derive(Clone, Copy, Debug, PartialEq, Eq, Structural)]
pub struct PaginationDemo {
    pub page: usize,
}

impl PaginationDemo {
    /// The first page shows.
    pub fn new() -> (demo: Self)
        ensures
            demo.page == 1,
    {
        PaginationDemo { page: 1 }
    }

    /// Goes to a page.
    pub fn select(&mut self, page: usize)
        ensures
            final(self).page == page,
    {
        self.page = page;
    }

    /// The line below the pages.
    pub fn caption(&self) -> (caption: String)
        ensures
            caption@ == "Page "@ + text::decimal_text(self.page as nat) + " of 10"@,
    {
        let mut caption = "Page ".to_owned();
        caption.append(text::decimal(self.page as u64).as_str());
        caption.append(" of 10");
        caption
    }
}

/// The last step of the stepper's demo.
pub const LAST_STEP: usize = 2;

/// The stepper's demo.
#[derive(Clone, Copy, Debug, PartialEq, Eq, Structural)]
pub struct StepperDemo {
    pub step: usize,
}

impl StepperDemo {
    /// The first step is current.
    pub fn new() -> (demo: Self)
        ensures
            demo.step == 0,
    {
        StepperDemo { step: 0 }
    }

    /// Goes to a step.
    pub fn select(&mut self, step: usize)
        ensures
            final(self).step == step,
    {
        self.step = step;
    }

    /// Goes one step back, not below the first.
    pub fn back(&mut self)
        ensures
            final(self).step == if old(self).step > 0 {
                old(self).step - 1
            } else {
                0
            },
    {
        self.step = self.step.saturating_sub(1);
    }

    /// Goes one step on, not beyond the last.
    pub fn next_step(&mut self)
        ensures
            final(self).step == if old(self).step < LAST_STEP {
                old(self).step + 1
            } else {
                old(self).step as int
            },
    {
        if self.step < LAST_STEP {
            self.step = self.step + 1;
        }
    }
}

// ---------------------------------------------------------------------------
// List
// ---------------------------------------------------------------------------

/// The list's demo: its items and the selected one.
pub struct GalleryListDelegate {
    pub items: Vec<&'static str>,
    pub selected: Option<usize>,
}

impl GalleryListDelegate {
    /// Six mail folders, the first one selected.
    pub fn new() -> (list: Self)
        ensures
            spelled_out(list.items@) == seq![
                "Inbox"@,
                "Drafts"@,
                "Sent"@,
                "Archive"@,
                "Spam"@,
                "Trash"@,
            ],
            list.selected == Some(0usize),
    {
        let items: Vec<&'static str> = vec![
            "Inbox", "Drafts", "Sent", "Archive", "Spam", "Trash",
        ];
        assert(spelled_out(items@) =~= seq![
            "Inbox"@,
            "Drafts"@,
            "Sent"@,
            "Archive"@,
            "Spam"@,
            "Trash"@,
        ]);
        GalleryListDelegate { items, selected: Some(0) }
    }

    /// The number of items.
    pub fn items_count(&self) -> (count: usize)
        ensures
            count == self.items@.len(),
    {
        self.items.len()
    }

    /// An item's label and whether it is selected; nothing beyond the list.
    pub fn render_item(&self, row: usize) -> (item: Option<(&'static str, bool)>)
        ensures
            item is Some <==> row < self.items@.len(),
            item matches Some((label, selected)) ==> label@ == self.items@[row as int]@ && selected
                == (self.selected == Some(row)),
    {
        if row < self.items.len() {
            let selected: bool = match self.selected {
                Some(at) => at == row,
                None => false,
            };
            Some((self.items[row], selected))
        } else {
            None
        }
    }

    /// Selects an item, or none.
    pub fn set_selected_index(&mut self, row: Option<usize>)
        ensures
            final(self).selected == row,
            final(self).items == old(self).items,
    {
        self.selected = row;
    }
}

// ---------------------------------------------------------------------------
// Data table
// ---------------------------------------------------------------------------

/// One row of the data table's demo.
#[derive(Clone, Copy, Debug)]
pub struct CrateRow {
    pub name: &'static str,
    pub files: usize,
    pub lines: usize,
    pub public: bool,
}

/// The data table's demo: one row for each crate.
pub struct GalleryTableDelegate {
    pub rows: Vec<CrateRow>,
}

/// The text of a cell.
pub open spec fn cell_of(row: CrateRow, column: usize) -> Seq<char> {
    if column == 0 {
        row.name@
    } else if column == 1 {
        text::decimal_text(row.files as nat)
    } else if column == 2 {
        text::decimal_text(row.lines as nat)
    } else if row.public {
        "yes"@
    } else {
        "no"@
    }
}

/// `row` is the sample with these figures.
pub open spec fn is_sample(
    row: CrateRow,
    name: Seq<char>,
    files: usize,
    lines: usize,
    public: bool,
) -> bool {
    row.name@ == name && row.files == files && row.lines == lines && row.public == public
}

impl GalleryTableDelegate {
    /// The sample rows.
    pub fn new() -> (table: Self)
        ensures
            table.rows@.len() == 5,
            is_sample(table.rows@[0], "rift-app"@, 12, 4200, false),
            is_sample(table.rows@[1], "rift-ssh"@, 5, 1300, true),
            is_sample(table.rows@[2], "rift-terminal"@, 8, 2600, true),
            is_sample(table.rows@[3], "rift-daemon"@, 9, 3100, true),
            is_sample(table.rows@[4], "rift-protocol"@, 4, 700, true),
    {
        GalleryTableDelegate {
            rows: vec![
                CrateRow { name: "rift-app", files: 12, lines: 4200, public: false },
                CrateRow { name: "rift-ssh", files: 5, lines: 1300, public: true },
                CrateRow { name: "rift-terminal", files: 8, lines: 2600, public: true },
                CrateRow { name: "rift-daemon", files: 9, lines: 3100, public: true },
                CrateRow { name: "rift-protocol", files: 4, lines: 700, public: true },
            ],
        }
    }

    /// The number of rows.
    pub fn rows_count(&self) -> (count: usize)
        ensures
            count == self.rows@.len(),
    {
        self.rows.len()
    }

    /// The text of a cell.
    pub fn render_td(&self, row: usize, column: usize) -> (cell: String)
        requires
            row < self.rows@.len(),
        ensures
            cell@ == cell_of(self.rows@[row as int], column),
    {
        let sample = &self.rows[row];
        if column == 0 {
            sample.name.to_owned()
        } else if column == 1 {
            text::decimal(sample.files as u64)
        } else if column == 2 {
            text::decimal(sample.lines as u64)
        } else if sample.public {
            "yes".to_owned()
        } else {
            "no".to_owned()
        }
    }
}

// ---------------------------------------------------------------------------
// Settings
// ---------------------------------------------------------------------------

/// The choices of the theme's drop-down: what is stored, and what is shown for
/// it.
pub fn theme_choices() -> (choices: Vec<(&'static str, &'static str)>)
    ensures
        choices@.len() == 2,
        choices@[0].0@ == "mocha"@ && choices@[0].1@ == "Mocha"@,
        choices@[1].0@ == "latte"@ && choices@[1].1@ == "Latte"@,
{
    vec![("mocha", "Mocha"), ("latte", "Latte")]
}

/// The settings page's demo.
pub struct SettingsDemo {
    pub dark: bool,
    pub telemetry: bool,
    pub theme_name: String,
}

impl SettingsDemo {
    /// Dark mode, no telemetry, the theme "mocha".
    pub fn new() -> (demo: Self)
        ensures
            demo.dark,
            !demo.telemetry,
            demo.theme_name@ == "mocha"@,
    {
        SettingsDemo { dark: true, telemetry: false, theme_name: "mocha".to_owned() }
    }

    /// The dark mode switch was set.
    pub fn set_dark(&mut self, dark: bool)
        ensures
            *final(self) == (SettingsDemo { dark, ..*old(self) }),
    {
        self.dark = dark;
    }

    /// The telemetry box was set.
    pub fn set_telemetry(&mut self, telemetry: bool)
        ensures
            *final(self) == (SettingsDemo { telemetry, ..*old(self) }),
    {
        self.telemetry = telemetry;
    }

    /// A theme was chosen.
    pub fn set_theme_name(&mut self, theme_name: String)
        ensures
            *final(self) == (SettingsDemo { theme_name, ..*old(self) }),
    {
        self.theme_name = theme_name;
    }
}

// ---------------------------------------------------------------------------
// Laws
// ---------------------------------------------------------------------------

/// Each kind of notification says something of its own.
pub proof fn law_notifications_say_what_they_are(kind: NotificationKind, message: &'static str)
    requires
        call_ensures(notification_message, (kind,), message),
    ensures
        kind is Info ==> message@ == "This is an info notification."@,
        kind is Success ==> message@ == "Saved successfully."@,
        kind is Warning ==> message@ == "Low disk space."@,
        kind is Error ==> message@ == "Something went wrong."@,
{
}

/// The content names the tab that was selected.
pub proof fn law_content_names_the_selected_tab(
    demo: &mut TabsDemo,
    tab: usize,
    label: &'static str,
    content: String,
)
    requires
        tab < 3,
        call_ensures(TabsDemo::select, (demo, tab), ()),
        call_ensures(tab_label, (tab,), label),
        call_ensures(TabsDemo::content, (final(demo),), content),
    ensures
        content@ == "Content for the "@ + label@ + " tab."@,
        tab == 0 ==> label@ == "Account"@,
        tab == 1 ==> label@ == "Password"@,
        tab == 2 ==> label@ == "Notifications"@,
{
}

/// An item of the accordion is open exactly where the last change lists it.
pub proof fn law_accordion_opens_what_is_listed(
    demo: &mut AccordionDemo,
    list: Vec<usize>,
    item: usize,
    open: bool,
)
    requires
        call_ensures(AccordionDemo::toggled, (demo, list), ()),
        call_ensures(AccordionDemo::is_open, (final(demo), item), open),
    ensures
        open <==> exists|i: int| 0 <= i < list@.len() && #[trigger] list@[i] == item,
{
    if open {
        let i = choose|i: int| 0 <= i < list@.len() && list@[i] == item;
        assert(list@[i] == item);
    }
}

/// The collapsible's label offers what a toggle does.
pub proof fn law_collapsible_offers_the_other_state(
    demo: &mut CollapsibleDemo,
    before: &'static str,
    after: &'static str,
)
    requires
        call_ensures(CollapsibleDemo::label, (old(demo),), before),
        call_ensures(CollapsibleDemo::toggle, (demo,), ()),
        call_ensures(CollapsibleDemo::label, (final(demo),), after),
    ensures
        final(demo).open != old(demo).open,
        old(demo).open ==> before@ == "Hide details"@ && after@ == "Show details"@,
        !old(demo).open ==> before@ == "Show details"@ && after@ == "Hide details"@,
{
}

/// The caption tells the page that was selected.
pub proof fn law_caption_tells_the_page(
    demo: &mut PaginationDemo,
    page: usize,
    caption: String,
    numeral: String,
)
    requires
        call_ensures(PaginationDemo::select, (demo, page), ()),
        call_ensures(PaginationDemo::caption, (final(demo),), caption),
        call_ensures(text::decimal, (page as u64,), numeral),
    ensures
        caption@ == "Page "@ + numeral@ + " of 10"@,
{
}

/// The stepper stays between its first and its last step, and a step on and a
/// step back undo each other in between.
pub proof fn law_stepper_stays_in_range(
    on: &mut StepperDemo,
    back: &mut StepperDemo,
    picked: &mut StepperDemo,
    step: usize,
)
    requires
        old(on).step <= 2,
        old(back).step <= 2,
        call_ensures(StepperDemo::next_step, (on,), ()),
        call_ensures(StepperDemo::back, (back,), ()),
        call_ensures(StepperDemo::select, (picked, step), ()),
    ensures
        final(on).step <= 2 && final(back).step <= 2,
        old(on).step < 2 ==> final(on).step == old(on).step + 1,
        old(on).step == 2 ==> final(on).step == 2,
        old(back).step > 0 ==> final(back).step + 1 == old(back).step,
        old(back).step == 0 ==> final(back).step == 0,
        old(on).step < 2 && old(back).step == final(on).step ==> final(back).step == old(on).step,
        final(picked).step == step,
{
}

/// The list paints the label of each row and marks the selected one alone.
pub proof fn law_list_marks_the_selected_row(
    list: &mut GalleryListDelegate,
    at: Option<usize>,
    row: usize,
    item: Option<(&'static str, bool)>,
    count: usize,
)
    requires
        call_ensures(GalleryListDelegate::set_selected_index, (list, at), ()),
        call_ensures(GalleryListDelegate::render_item, (final(list), row), item),
        call_ensures(GalleryListDelegate::items_count, (final(list),), count),
    ensures
        count == old(list).items@.len(),
        item is Some <==> row < count,
        item matches Some((label, selected)) ==> label@ == old(list).items@[row as int]@ && (
        selected <==> at == Some(row)),
{
}

/// A row of the table tells its name, its files, its lines and whether it is
/// public, one cell each.
pub proof fn law_cells_tell_their_columns(
    table: GalleryTableDelegate,
    row: usize,
    column: usize,
    cell: String,
    files: String,
    lines: String,
    count: usize,
)
    requires
        row < table.rows@.len(),
        call_ensures(GalleryTableDelegate::render_td, (&table, row, column), cell),
        call_ensures(text::decimal, (table.rows@[row as int].files as u64,), files),
        call_ensures(text::decimal, (table.rows@[row as int].lines as u64,), lines),
        call_ensures(GalleryTableDelegate::rows_count, (&table,), count),
    ensures
        column == 0 ==> cell@ == table.rows@[row as int].name@,
        column == 1 ==> cell@ == files@,
        column == 2 ==> cell@ == lines@,
        column >= 3 && table.rows@[row as int].public ==> cell@ == "yes"@,
        column >= 3 && !table.rows@[row as int].public ==> cell@ == "no"@,
        count == table.rows@.len(),
{
}

/// Each setting changes alone.
pub proof fn law_settings_change_alone(
    lit: &mut SettingsDemo,
    told: &mut SettingsDemo,
    named: &mut SettingsDemo,
    on: bool,
    name: String,
)
    requires
        call_ensures(SettingsDemo::set_dark, (lit, on), ()),
        call_ensures(SettingsDemo::set_telemetry, (told, on), ()),
        call_ensures(SettingsDemo::set_theme_name, (named, name), ()),
    ensures
        final(lit).dark == on && final(lit).telemetry == old(lit).telemetry && final(lit).theme_name
            == old(lit).theme_name,
        final(told).telemetry == on && final(told).dark == old(told).dark && final(told).theme_name
            == old(told).theme_name,
        final(named).theme_name@ == name@ && final(named).dark == old(named).dark
            && final(named).telemetry == old(named).telemetry,
{
}

} // verus!
