//! Themes: which named theme fills each mode's slot, which mode is active, and
//! what of that survives a restart.

use vstd::prelude::*;

use crate::navigation;
use crate::ordered;
use crate::ordered::{Keyed, KeyedVec};
use crate::text;

verus! {

/// The name of the bundled light theme.
pub const DEFAULT_LIGHT_THEME_NAME: &'static str = "Default Light";

/// The name of the bundled dark theme.
pub const DEFAULT_DARK_THEME_NAME: &'static str = "Default Dark";

/// The name of rift's own theme.
pub const CATPPUCCIN_MOCHA_THEME_NAME: &'static str = "Catppuccin Mocha";

/// The theme that is active where nothing else was chosen.
pub const DEFAULT_THEME_NAME: &'static str = CATPPUCCIN_MOCHA_THEME_NAME;

/// Toggle between light and dark mode.
#[derive(Clone, Copy, Debug, PartialEq, Eq, Structural)]
pub struct ToggleThemeMode;

/// Select the bundled light theme.
#[derive(Clone, Copy, Debug, PartialEq, Eq, Structural)]
pub struct SelectDefaultLightTheme;

/// Select the bundled dark theme.
#[derive(Clone, Copy, Debug, PartialEq, Eq, Structural)]
pub struct SelectDefaultDarkTheme;

/// Select rift's own theme.
#[derive(Clone, Copy, Debug, PartialEq, Eq, Structural)]
pub struct SelectCatppuccinMochaTheme;

/// Light or dark.
#[derive(Clone, Copy, Debug, PartialEq, Eq, Structural)]
pub enum ThemeMode {
    Light,
    Dark,
}

/// The other mode.
pub open spec fn flipped(mode: ThemeMode) -> ThemeMode {
    match mode {
        ThemeMode::Light => ThemeMode::Dark,
        ThemeMode::Dark => ThemeMode::Light,
    }
}

impl ThemeMode {
    /// Whether the mode is dark.
    pub fn is_dark(self) -> (dark: bool)
        ensures
            dark == (self == ThemeMode::Dark),
    {
        match self {
            ThemeMode::Dark => true,
            ThemeMode::Light => false,
        }
    }

    /// The other mode.
    pub fn flip(self) -> (other: ThemeMode)
        ensures
            other == flipped(self),
    {
        if self.is_dark() {
            ThemeMode::Light
        } else {
            ThemeMode::Dark
        }
    }
}

/// A named theme and the mode it is made for.
#[derive(Debug, PartialEq, Eq)]
pub struct ThemeConfig {
    pub name: String,
    pub mode: ThemeMode,
}

impl Clone for ThemeConfig {
    fn clone(&self) -> (copy: Self)
        ensures
            copy == *self,
    {
        ThemeConfig { name: self.name.clone(), mode: self.mode }
    }
}

impl Keyed for ThemeConfig {
    open spec fn key(&self) -> Seq<char> {
        self.name@
    }

    fn key_text(&self) -> (text: &str) {
        self.name.as_str()
    }
}

/// The theme that a name stands for: the one so named, else the default one,
/// else none.
pub open spec fn resolved(themes: Map<Seq<char>, ThemeConfig>, name: Seq<char>) -> Option<
    ThemeConfig,
> {
    if themes.dom().contains(name) {
        Some(themes[name])
    } else if themes.dom().contains(DEFAULT_THEME_NAME@) {
        Some(themes[DEFAULT_THEME_NAME@])
    } else {
        None
    }
}

/// Looks a name up, falling back to the default theme.
pub fn resolve_theme(themes: &KeyedVec<ThemeConfig>, name: &str) -> (theme: Option<ThemeConfig>)
    requires
        themes.wf(),
    ensures
        theme == resolved(themes@, name@),
{
    match themes.get(name) {
        Some(theme) => Some(theme.clone()),
        None => match themes.get(DEFAULT_THEME_NAME) {
            Some(theme) => Some(theme.clone()),
            None => None,
        },
    }
}

/// Which windows have to be painted again.
#[derive(Clone, Copy, Debug, PartialEq, Eq, Structural)]
pub enum Repaint {
    /// The window that the change came from.
    ThisWindow,
    /// Every open window, where the change came from none.
    AllWindows,
}

/// The repaint that a change calls for.
pub open spec fn repaint_for(has_window: bool) -> Repaint {
    if has_window {
        Repaint::ThisWindow
    } else {
        Repaint::AllWindows
    }
}

fn repaint(has_window: bool) -> (which: Repaint)
    ensures
        which == repaint_for(has_window),
{
    if has_window {
        Repaint::ThisWindow
    } else {
        Repaint::AllWindows
    }
}

// ---------------------------------------------------------------------------
// Live theme
// ---------------------------------------------------------------------------

/// The live theme: the registered themes, the theme in each mode's slot, the
/// active mode, and the font families that were last chosen.
pub struct Theme {
    themes: KeyedVec<ThemeConfig>,
    light_theme: ThemeConfig,
    dark_theme: ThemeConfig,
    mode: ThemeMode,
    font_family: Option<String>,
    mono_font_family: Option<String>,
}

/// What a [`Theme`] holds.
#[verifier::ext_equal]
pub struct ThemeView {
    pub themes: Map<Seq<char>, ThemeConfig>,
    pub light: ThemeConfig,
    pub dark: ThemeConfig,
    pub mode: ThemeMode,
    pub ui_font: Option<Seq<char>>,
    pub mono_font: Option<Seq<char>>,
}

impl ThemeView {
    /// The theme in the active mode's slot.
    pub open spec fn active(&self) -> ThemeConfig {
        match self.mode {
            ThemeMode::Light => self.light,
            ThemeMode::Dark => self.dark,
        }
    }

    /// With `theme` in the slot of its own mode, and that mode active.
    pub open spec fn showing(self, theme: ThemeConfig) -> ThemeView {
        match theme.mode {
            ThemeMode::Light => ThemeView { light: theme, mode: ThemeMode::Light, ..self },
            ThemeMode::Dark => ThemeView { dark: theme, mode: ThemeMode::Dark, ..self },
        }
    }

    /// After selecting the theme called `name`.
    pub open spec fn selecting(self, name: Seq<char>) -> ThemeView {
        match resolved(self.themes, name) {
            Some(theme) => self.showing(theme),
            None => self,
        }
    }

    /// After restoring what was stored.
    pub open spec fn restoring(self, stored: StoredThemeView) -> ThemeView {
        ThemeView {
            mode: stored.mode,
            ui_font: if stored.ui_font.len() > 0 {
                Some(stored.ui_font)
            } else {
                self.ui_font
            },
            mono_font: if stored.mono_font.len() > 0 {
                Some(stored.mono_font)
            } else {
                self.mono_font
            },
            ..self.selecting(stored.name)
        }
    }

    /// With one more registered theme.
    pub open spec fn registering(self, theme: ThemeConfig) -> ThemeView {
        ThemeView { themes: self.themes.insert(theme.name@, theme), ..self }
    }

    /// Every registered theme stands under its own name.
    pub open spec fn wf(&self) -> bool {
        forall|name: Seq<char>|
            self.themes.dom().contains(name) ==> (#[trigger] self.themes[name]).name@ == name
    }
}

impl View for Theme {
    type V = ThemeView;

    closed spec fn view(&self) -> ThemeView {
        ThemeView {
            themes: self.themes@,
            light: self.light_theme,
            dark: self.dark_theme,
            mode: self.mode,
            ui_font: text::opt_view(self.font_family),
            mono_font: text::opt_view(self.mono_font_family),
        }
    }
}

/// The theme that fills a slot before anything was selected.
pub open spec fn is_bundled(theme: ThemeConfig, name: Seq<char>, mode: ThemeMode) -> bool {
    theme.name@ == name && theme.mode == mode
}

impl Theme {
    /// The registered themes are in order.
    pub closed spec fn wf(&self) -> bool {
        self.themes.wf()
    }

    /// Every registered theme stands under its own name.
    pub proof fn law_themes_stand_under_their_names(&self)
        requires
            self.wf(),
        ensures
            self@.wf(),
    {
        assert forall|name: Seq<char>| self@.themes.dom().contains(name) implies (
        #[trigger] self@.themes[name]).name@ == name by {
            assert(ordered::has_key(self.themes.seq(), name));
        }
    }

    /// The theme state that the widget toolkit starts with: the two bundled
    /// themes are registered and fill the slots, and light mode is active.
    pub fn new() -> (theme: Self)
        ensures
            theme.wf(),
            theme@.wf(),
            theme@.themes.dom() == set![DEFAULT_LIGHT_THEME_NAME@, DEFAULT_DARK_THEME_NAME@],
            is_bundled(theme@.light, DEFAULT_LIGHT_THEME_NAME@, ThemeMode::Light),
            is_bundled(theme@.dark, DEFAULT_DARK_THEME_NAME@, ThemeMode::Dark),
            theme@.themes[DEFAULT_LIGHT_THEME_NAME@] == theme@.light,
            theme@.themes[DEFAULT_DARK_THEME_NAME@] == theme@.dark,
            theme@.mode == ThemeMode::Light,
            theme@.ui_font is None,
            theme@.mono_font is None,
    {
        proof {
            reveal_strlit("Default Light");
            reveal_strlit("Default Dark");
            assert(DEFAULT_LIGHT_THEME_NAME@[8] != DEFAULT_DARK_THEME_NAME@[8]);
        }
        let light_theme = ThemeConfig {
            name: DEFAULT_LIGHT_THEME_NAME.to_owned(),
            mode: ThemeMode::Light,
        };
        let dark_theme = ThemeConfig {
            name: DEFAULT_DARK_THEME_NAME.to_owned(),
            mode: ThemeMode::Dark,
        };
        let mut themes: KeyedVec<ThemeConfig> = KeyedVec::new();
        themes.upsert(light_theme.clone());
        themes.upsert(dark_theme.clone());
        proof {
            assert(themes@.dom() =~= set![DEFAULT_LIGHT_THEME_NAME@, DEFAULT_DARK_THEME_NAME@]);
        }
        Theme {
            themes,
            light_theme,
            dark_theme,
            mode: ThemeMode::Light,
            font_family: None,
            mono_font_family: None,
        }
    }

    /// The registered themes.
    pub fn themes(&self) -> (themes: &KeyedVec<ThemeConfig>)
        requires
            self.wf(),
        ensures
            themes.wf(),
            themes@ == self@.themes,
    {
        &self.themes
    }

    /// The active mode.
    pub fn mode(&self) -> (mode: ThemeMode)
        ensures
            mode == self@.mode,
    {
        self.mode
    }

    /// The name of the active theme.
    pub fn theme_name(&self) -> (name: &str)
        ensures
            name@ == self@.active().name@,
    {
        match self.mode {
            ThemeMode::Light => self.light_theme.name.as_str(),
            ThemeMode::Dark => self.dark_theme.name.as_str(),
        }
    }

    /// The font family last chosen for the interface; none where none was.
    pub fn font_family(&self) -> (family: Option<&str>)
        ensures
            navigation::opt_str(family) == self@.ui_font,
    {
        match &self.font_family {
            Some(family) => Some(family.as_str()),
            None => None,
        }
    }

    /// The font family last chosen for the editor and the panes; none where
    /// none was.
    pub fn mono_font_family(&self) -> (family: Option<&str>)
        ensures
            navigation::opt_str(family) == self@.mono_font,
    {
        match &self.mono_font_family {
            Some(family) => Some(family.as_str()),
            None => None,
        }
    }

    /// Registers a theme that was loaded; nothing where loading failed. Tells
    /// whether it was registered.
    pub fn register_themes(&mut self, loaded: Option<ThemeConfig>) -> (registered: bool)
        requires
            old(self).wf(),
        ensures
            final(self).wf(),
            registered == (loaded is Some),
            final(self)@ == match loaded {
                Some(theme) => old(self)@.registering(theme),
                None => old(self)@,
            },
    {
        match loaded {
            Some(theme) => {
                self.themes.upsert(theme);
                true
            },
            None => false,
        }
    }

    /// Registers rift's theme and activates the default one.
    pub fn apply_theme(&mut self, loaded: Option<ThemeConfig>) -> (repaint: Option<Repaint>)
        requires
            old(self).wf(),
        ensures
            final(self).wf(),
            final(self)@ == match loaded {
                Some(theme) => old(self)@.registering(theme).selecting(DEFAULT_THEME_NAME@),
                None => old(self)@,
            },
            repaint == match loaded {
                Some(theme) => match resolved(
                    old(self)@.registering(theme).themes,
                    DEFAULT_THEME_NAME@,
                ) {
                    Some(_) => Some(Repaint::AllWindows),
                    None => None,
                },
                None => None,
            },
    {
        if self.register_themes(loaded) {
            self.set_theme(DEFAULT_THEME_NAME, false)
        } else {
            None
        }
    }

    /// Registers rift's theme and restores what was stored: the theme, then the
    /// mode, then the font families that are not empty.
    pub fn apply_persisted_theme(&mut self, loaded: Option<ThemeConfig>, stored: &StoredTheme)
        requires
            old(self).wf(),
        ensures
            final(self).wf(),
            final(self)@ == match loaded {
                Some(theme) => old(self)@.registering(theme).restoring(stored@),
                None => old(self)@,
            },
    {
        if self.register_themes(loaded) {
            let _ = self.set_theme(stored.theme_name.as_str(), false);
            let _ = self.set_theme_mode(stored.theme_mode, false);
            if !stored.ui_font_family.as_str().is_empty() {
                let _ = self.set_ui_font(stored.ui_font_family.as_str(), false);
            }
            if !stored.mono_font_family.as_str().is_empty() {
                let _ = self.set_mono_font(stored.mono_font_family.as_str(), false);
            }
        }
    }

    /// Selects a theme by name. An unknown name selects the default theme;
    /// where that one is not registered either, nothing happens.
    pub fn set_theme(&mut self, name: &str, has_window: bool) -> (repaint: Option<Repaint>)
        requires
            old(self).wf(),
        ensures
            final(self).wf(),
            final(self)@ == old(self)@.selecting(name@),
            repaint == match resolved(old(self)@.themes, name@) {
                Some(_) => Some(repaint_for(has_window)),
                None => None,
            },
    {
        match resolve_theme(&self.themes, name) {
            None => None,
            Some(theme) => {
                let mode = theme.mode;
                if mode.is_dark() {
                    self.dark_theme = theme;
                } else {
                    self.light_theme = theme;
                }
                Some(self.set_theme_mode(mode, has_window))
            },
        }
    }

    /// Switches the mode and keeps the theme in each slot.
    pub fn set_theme_mode(&mut self, mode: ThemeMode, has_window: bool) -> (which: Repaint)
        ensures
            old(self).wf() ==> final(self).wf(),
            final(self)@ == (ThemeView { mode, ..old(self)@ }),
            which == repaint_for(has_window),
    {
        self.mode = mode;
        repaint(has_window)
    }

    /// Flips between light and dark and keeps the theme in each slot.
    pub fn toggle_theme_mode(&mut self, has_window: bool) -> (which: Repaint)
        ensures
            old(self).wf() ==> final(self).wf(),
            final(self)@ == (ThemeView { mode: flipped(old(self)@.mode), ..old(self)@ }),
            which == repaint_for(has_window),
    {
        let mode = self.mode.flip();
        self.set_theme_mode(mode, has_window)
    }

    /// Switches the font family of the interface.
    pub fn set_ui_font(&mut self, name: &str, has_window: bool) -> (which: Repaint)
        ensures
            old(self).wf() ==> final(self).wf(),
            final(self)@ == (ThemeView { ui_font: Some(name@), ..old(self)@ }),
            which == repaint_for(has_window),
    {
        self.font_family = Some(name.to_owned());
        repaint(has_window)
    }

    /// Switches the font family of the editor and the panes.
    pub fn set_mono_font(&mut self, name: &str, has_window: bool) -> (which: Repaint)
        ensures
            old(self).wf() ==> final(self).wf(),
            final(self)@ == (ThemeView { mono_font: Some(name@), ..old(self)@ }),
            which == repaint_for(has_window),
    {
        self.mono_font_family = Some(name.to_owned());
        repaint(has_window)
    }

    /// Records the active theme, name and mode.
    pub fn persist_theme_to(&self, stored: &mut StoredTheme)
        ensures
            final(stored)@ == old(stored)@.recording_theme(self@),
    {
        stored.theme_name = self.theme_name().to_owned();
        stored.theme_mode = self.mode;
    }

    /// Records the active mode only; the stored theme keeps its name.
    pub fn persist_theme_mode_to(&self, stored: &mut StoredTheme)
        ensures
            final(stored)@ == old(stored)@.recording_mode(self@),
    {
        stored.theme_mode = self.mode;
    }

    /// Selects a theme by name and records what is active then.
    pub fn set_theme_persisted(
        &mut self,
        name: &str,
        has_window: bool,
        stored: &mut StoredTheme,
    ) -> (repaint: Option<Repaint>)
        requires
            old(self).wf(),
        ensures
            final(self).wf(),
            final(self)@ == old(self)@.selecting(name@),
            final(stored)@ == old(stored)@.recording_theme(final(self)@),
            repaint == match resolved(old(self)@.themes, name@) {
                Some(_) => Some(repaint_for(has_window)),
                None => None,
            },
    {
        let repaint = self.set_theme(name, has_window);
        self.persist_theme_to(stored);
        repaint
    }

    /// Switches the mode and records it.
    pub fn set_theme_mode_persisted(
        &mut self,
        mode: ThemeMode,
        has_window: bool,
        stored: &mut StoredTheme,
    ) -> (which: Repaint)
        ensures
            old(self).wf() ==> final(self).wf(),
            final(self)@ == (ThemeView { mode, ..old(self)@ }),
            final(stored)@ == old(stored)@.recording_mode(final(self)@),
            which == repaint_for(has_window),
    {
        let which = self.set_theme_mode(mode, has_window);
        self.persist_theme_mode_to(stored);
        which
    }

    /// Flips the mode and records it.
    pub fn toggle_theme_mode_persisted(
        &mut self,
        has_window: bool,
        stored: &mut StoredTheme,
    ) -> (which: Repaint)
        ensures
            old(self).wf() ==> final(self).wf(),
            final(self)@ == (ThemeView { mode: flipped(old(self)@.mode), ..old(self)@ }),
            final(stored)@ == old(stored)@.recording_mode(final(self)@),
            which == repaint_for(has_window),
    {
        let mode = self.mode.flip();
        self.set_theme_mode_persisted(mode, has_window, stored)
    }

    /// Switches the font family of the interface and records it.
    pub fn set_ui_font_persisted(
        &mut self,
        name: &str,
        has_window: bool,
        stored: &mut StoredTheme,
    ) -> (which: Repaint)
        ensures
            old(self).wf() ==> final(self).wf(),
            final(self)@ == (ThemeView { ui_font: Some(name@), ..old(self)@ }),
            final(stored)@ == (StoredThemeView { ui_font: name@, ..old(stored)@ }),
            which == repaint_for(has_window),
    {
        let which = self.set_ui_font(name, has_window);
        stored.ui_font_family = name.to_owned();
        which
    }

    /// Switches the font family of the editor and the panes and records it.
    pub fn set_mono_font_persisted(
        &mut self,
        name: &str,
        has_window: bool,
        stored: &mut StoredTheme,
    ) -> (which: Repaint)
        ensures
            old(self).wf() ==> final(self).wf(),
            final(self)@ == (ThemeView { mono_font: Some(name@), ..old(self)@ }),
            final(stored)@ == (StoredThemeView { mono_font: name@, ..old(stored)@ }),
            which == repaint_for(has_window),
    {
        let which = self.set_mono_font(name, has_window);
        stored.mono_font_family = name.to_owned();
        which
    }
}

// ---------------------------------------------------------------------------
// Stored preference
// ---------------------------------------------------------------------------

/// The theme preference that survives a restart. An empty font family means
/// that none was chosen.
#[derive(Debug, PartialEq, Eq)]
pub struct StoredTheme {
    pub theme_name: String,
    pub theme_mode: ThemeMode,
    pub ui_font_family: String,
    pub mono_font_family: String,
}

/// What a [`StoredTheme`] holds.
#[verifier::ext_equal]
pub struct StoredThemeView {
    pub name: Seq<char>,
    pub mode: ThemeMode,
    pub ui_font: Seq<char>,
    pub mono_font: Seq<char>,
}

impl StoredThemeView {
    /// With the active theme of `theme` recorded, name and mode.
    pub open spec fn recording_theme(self, theme: ThemeView) -> StoredThemeView {
        StoredThemeView { name: theme.active().name@, mode: theme.mode, ..self }
    }

    /// With the active mode of `theme` recorded.
    pub open spec fn recording_mode(self, theme: ThemeView) -> StoredThemeView {
        StoredThemeView { mode: theme.mode, ..self }
    }
}

impl View for StoredTheme {
    type V = StoredThemeView;

    open spec fn view(&self) -> StoredThemeView {
        StoredThemeView {
            name: self.theme_name@,
            mode: self.theme_mode,
            ui_font: self.ui_font_family@,
            mono_font: self.mono_font_family@,
        }
    }
}

impl Default for StoredTheme {
    /// The default theme in dark mode, with the theme's own fonts.
    fn default() -> (stored: Self)
        ensures
            stored@.name == DEFAULT_THEME_NAME@,
            stored@.mode == ThemeMode::Dark,
            stored@.ui_font.len() == 0,
            stored@.mono_font.len() == 0,
    {
        proof {
            reveal_strlit("");
        }
        StoredTheme {
            theme_name: DEFAULT_THEME_NAME.to_owned(),
            theme_mode: ThemeMode::Dark,
            ui_font_family: "".to_owned(),
            mono_font_family: "".to_owned(),
        }
    }
}

/// Why a change was not recorded. The change itself stands either way.
#[derive(Debug, PartialEq, Eq)]
pub enum PersistWarning {
    /// The platform names no directory for state.
    NoStateDirectory(String),
    /// Writing failed.
    SaveFailed(String),
}

/// `warning` is what comes of saving with the outcome `saved`.
pub open spec fn warns_of(saved: Result<(), String>, warning: Option<PersistWarning>) -> bool {
    match saved {
        Ok(_) => warning is None,
        Err(reason) => warning == Some(PersistWarning::SaveFailed(reason)),
    }
}

/// Saves to the state path where there is one. A failure is only a warning.
pub fn persist_best_effort<F: FnOnce(String) -> Result<(), String>>(
    state_path: Result<String, String>,
    save_to: F,
) -> (warning: Option<PersistWarning>)
    requires
        state_path matches Ok(path) ==> save_to.requires((path,)),
    ensures
        match state_path {
            Ok(path) => exists|saved: Result<(), String>| #[trigger]
                save_to.ensures((path,), saved) && warns_of(saved, warning),
            Err(reason) => warning == Some(PersistWarning::NoStateDirectory(reason)),
        },
{
    match state_path {
        Ok(path) => match save_to(path) {
            Ok(()) => None,
            Err(reason) => Some(PersistWarning::SaveFailed(reason)),
        },
        Err(reason) => Some(PersistWarning::NoStateDirectory(reason)),
    }
}

// ---------------------------------------------------------------------------
// Laws
// ---------------------------------------------------------------------------

/// Toggling the mode twice changes nothing.
pub proof fn law_toggle_mode_twice(theme: ThemeView)
    ensures
        ({
            let once = ThemeView { mode: flipped(theme.mode), ..theme };
            (ThemeView { mode: flipped(once.mode), ..once }) == theme
        }),
{
}

/// A theme that is registered becomes the active one when it is selected, and
/// the other mode's slot keeps its theme.
pub proof fn law_selected_theme_is_active(theme: ThemeView, name: Seq<char>)
    requires
        theme.wf(),
        theme.themes.dom().contains(name),
    ensures
        theme.selecting(name).active() == theme.themes[name],
        theme.selecting(name).active().name@ == name,
        theme.selecting(name).mode == theme.themes[name].mode,
        theme.themes[name].mode == ThemeMode::Light ==> theme.selecting(name).dark == theme.dark,
        theme.themes[name].mode == ThemeMode::Dark ==> theme.selecting(name).light == theme.light,
{
}

/// An unknown name selects the default theme, if it is registered.
pub proof fn law_unknown_theme_degrades(theme: ThemeView, name: Seq<char>)
    requires
        !theme.themes.dom().contains(name),
    ensures
        theme.selecting(name) == theme.selecting(DEFAULT_THEME_NAME@),
        !theme.themes.dom().contains(DEFAULT_THEME_NAME@) ==> theme.selecting(name) == theme,
{
}

/// A selected theme survives a restart: what is recorded of it brings it back,
/// from whatever state the next start has, as long as the same themes are
/// registered.
pub proof fn law_selection_survives_restart(
    before: ThemeView,
    name: Seq<char>,
    stored: StoredThemeView,
    fresh: ThemeView,
)
    requires
        before.wf(),
        resolved(before.themes, name) is Some,
        fresh.themes == before.themes,
    ensures
        ({
            let live = before.selecting(name);
            let restored = fresh.restoring(stored.recording_theme(live));
            restored.active() == live.active() && restored.mode == live.mode
        }),
{
    let theme = resolved(before.themes, name)->0;
    assert(theme.name@ == name || theme.name@ == DEFAULT_THEME_NAME@);
    assert(resolved(before.themes, theme.name@) == Some(theme));
}

/// A mode flip survives a restart, and it leaves the recorded theme alone:
/// after the restart the recorded theme still fills its slot.
pub proof fn law_mode_flip_keeps_selection(
    live: ThemeView,
    stored: StoredThemeView,
    fresh: ThemeView,
)
    requires
        fresh.wf(),
        fresh.themes.dom().contains(stored.name),
    ensures
        stored.recording_mode(live).name == stored.name,
        ({
            let restored = fresh.restoring(stored.recording_mode(live));
            &&& restored.mode == live.mode
            &&& fresh.themes[stored.name].mode == ThemeMode::Light ==> restored.light
                == fresh.themes[stored.name]
            &&& fresh.themes[stored.name].mode == ThemeMode::Dark ==> restored.dark
                == fresh.themes[stored.name]
        }),
{
}

/// A chosen font family survives a restart. An empty name chooses none.
pub proof fn law_fonts_survive_restart(
    stored: StoredThemeView,
    fresh: ThemeView,
    ui: Seq<char>,
    mono: Seq<char>,
)
    requires
        ui.len() > 0,
        mono.len() > 0,
    ensures
        fresh.restoring(StoredThemeView { ui_font: ui, ..stored }).ui_font == Some(ui),
        fresh.restoring(StoredThemeView { mono_font: mono, ..stored }).mono_font == Some(mono),
{
}

// ---------------------------------------------------------------------------
// Laws of the calls
// ---------------------------------------------------------------------------

/// The names of the themes that come with the program.
pub proof fn law_theme_names()
    ensures
        DEFAULT_LIGHT_THEME_NAME@ == "Default Light"@,
        DEFAULT_DARK_THEME_NAME@ == "Default Dark"@,
        CATPPUCCIN_MOCHA_THEME_NAME@ == "Catppuccin Mocha"@,
        DEFAULT_THEME_NAME@ == "Catppuccin Mocha"@,
{
}

/// A repaint is for the window that a change came from, or for all of them.
pub open spec fn repaints(which: Repaint, has_window: bool) -> bool {
    which is ThisWindow <==> has_window
}

/// A name is looked up among the registered themes, and rift's own theme stands
/// in for one that is not there.
pub proof fn law_names_are_looked_up(
    themes: KeyedVec<ThemeConfig>,
    name: &str,
    theme: Option<ThemeConfig>,
)
    requires
        themes.wf(),
        call_ensures(resolve_theme, (&themes, name), theme),
    ensures
        themes@.dom().contains(name@) ==> theme == Some(themes@[name@]) && (theme->0).name@
            == name@,
        !themes@.dom().contains(name@) && themes@.dom().contains("Catppuccin Mocha"@) ==> theme
            is Some && (theme->0).name@ == "Catppuccin Mocha"@,
        !themes@.dom().contains(name@) && !themes@.dom().contains("Catppuccin Mocha"@) ==> theme
            is None,
{
    assert forall|key: Seq<char>| themes@.dom().contains(key) implies (
    #[trigger] themes@[key]).name@ == key by {
        assert(ordered::has_key(themes.seq(), key));
        let i = ordered::key_index(themes.seq(), key);
        assert(themes.seq()[i].key() == key);
    }
}

/// What choosing `theme` leaves: it is active, in its own mode, and the other
/// slot, the fonts and the registered themes are as they were.
pub open spec fn shows_theme(v: ThemeView, after: ThemeView, theme: ThemeConfig) -> bool {
    &&& after.mode == theme.mode
    &&& theme.mode is Light ==> after.light == theme && after.dark == v.dark
    &&& theme.mode is Dark ==> after.dark == theme && after.light == v.light
    &&& after.themes == v.themes
    &&& after.ui_font == v.ui_font
    &&& after.mono_font == v.mono_font
}

/// Selecting a theme shows the one that the name stands for and repaints;
/// nothing happens where it stands for none. The recorded name is that of the
/// theme that is active then.
pub proof fn law_selection_shows_the_theme(
    live: &mut Theme,
    kept: &mut Theme,
    list: &KeyedVec<ThemeConfig>,
    name: &str,
    theme: Option<ThemeConfig>,
    has_window: bool,
    which: Option<Repaint>,
    stored: &mut StoredTheme,
    also: Option<Repaint>,
    active: &str,
)
    requires
        call_ensures(Theme::set_theme, (live, name, has_window), which),
        call_ensures(Theme::set_theme_persisted, (kept, name, has_window, stored), also),
        old(kept)@ == old(live)@,
        list@ == old(live)@.themes,
        call_ensures(resolve_theme, (list, name), theme),
        call_ensures(Theme::theme_name, (final(live),), active),
    ensures
        theme matches Some(t) ==> {
            &&& shows_theme(old(live)@, final(live)@, t)
            &&& shows_theme(old(live)@, final(kept)@, t)
            &&& which is Some && repaints(which->0, has_window)
            &&& also is Some && repaints(also->0, has_window)
            &&& active@ == t.name@
        },
        theme is None ==> final(live)@ == old(live)@ && final(kept)@ == old(kept)@ && which is None
            && also is None,
        final(stored)@.name == active@,
        final(stored)@.mode == final(kept)@.mode,
        final(stored)@.ui_font == old(stored)@.ui_font,
        final(stored)@.mono_font == old(stored)@.mono_font,
{
}

/// The name told is that of the theme in the active mode's slot.
pub proof fn law_active_theme_is_that_of_the_mode(theme: Theme, name: &str, mode: ThemeMode)
    requires
        call_ensures(Theme::theme_name, (&theme,), name),
        call_ensures(Theme::mode, (&theme,), mode),
    ensures
        mode is Light ==> name@ == theme@.light.name@,
        mode is Dark ==> name@ == theme@.dark.name@,
{
}

/// What a change of the mode leaves: both slots, the fonts and the registered
/// themes are as they were.
pub open spec fn only_changes_mode(v: ThemeView, after: ThemeView) -> bool {
    &&& after.light == v.light
    &&& after.dark == v.dark
    &&& after.themes == v.themes
    &&& after.ui_font == v.ui_font
    &&& after.mono_font == v.mono_font
}

/// Setting a mode sets it, toggling it takes the other one, and both keep the
/// themes in their slots. The recorded mode follows, the recorded theme stays.
pub proof fn law_mode_changes_alone(
    set: &mut Theme,
    flipped: &mut Theme,
    kept: &mut Theme,
    turned: &mut Theme,
    mode: ThemeMode,
    has_window: bool,
    first: Repaint,
    second: Repaint,
    third: Repaint,
    fourth: Repaint,
    stored: &mut StoredTheme,
    noted: &mut StoredTheme,
)
    requires
        call_ensures(Theme::set_theme_mode, (set, mode, has_window), first),
        call_ensures(Theme::toggle_theme_mode, (flipped, has_window), second),
        call_ensures(Theme::set_theme_mode_persisted, (kept, mode, has_window, stored), third),
        call_ensures(Theme::toggle_theme_mode_persisted, (turned, has_window, noted), fourth),
    ensures
        final(set)@.mode == mode && final(kept)@.mode == mode,
        final(flipped)@.mode is Dark <==> old(flipped)@.mode is Light,
        final(turned)@.mode is Dark <==> old(turned)@.mode is Light,
        only_changes_mode(old(set)@, final(set)@),
        only_changes_mode(old(flipped)@, final(flipped)@),
        only_changes_mode(old(kept)@, final(kept)@),
        only_changes_mode(old(turned)@, final(turned)@),
        repaints(first, has_window) && repaints(second, has_window) && repaints(third, has_window)
            && repaints(fourth, has_window),
        final(stored)@.mode == mode && final(noted)@.mode == final(turned)@.mode,
        final(stored)@.name == old(stored)@.name && final(noted)@.name == old(noted)@.name,
        final(stored)@.ui_font == old(stored)@.ui_font && final(noted)@.ui_font
            == old(noted)@.ui_font,
        final(stored)@.mono_font == old(stored)@.mono_font && final(noted)@.mono_font
            == old(noted)@.mono_font,
{
}

/// The modes: flipping takes the other one.
pub proof fn law_modes_flip(mode: ThemeMode, other: ThemeMode, dark: bool)
    requires
        call_ensures(ThemeMode::flip, (mode,), other),
        call_ensures(ThemeMode::is_dark, (mode,), dark),
    ensures
        other != mode,
        dark <==> mode is Dark,
{
}

/// A chosen font is the one that shows, each for its own use, and is recorded as
/// such; everything else stays.
pub proof fn law_fonts_change_alone(
    ui: &mut Theme,
    mono: &mut Theme,
    ui_kept: &mut Theme,
    mono_kept: &mut Theme,
    name: &str,
    has_window: bool,
    first: Repaint,
    second: Repaint,
    third: Repaint,
    fourth: Repaint,
    stored: &mut StoredTheme,
    noted: &mut StoredTheme,
)
    requires
        call_ensures(Theme::set_ui_font, (ui, name, has_window), first),
        call_ensures(Theme::set_mono_font, (mono, name, has_window), second),
        call_ensures(Theme::set_ui_font_persisted, (ui_kept, name, has_window, stored), third),
        call_ensures(Theme::set_mono_font_persisted, (mono_kept, name, has_window, noted), fourth),
    ensures
        final(ui)@.ui_font == Some(name@) && final(ui)@.mono_font == old(ui)@.mono_font,
        final(mono)@.mono_font == Some(name@) && final(mono)@.ui_font == old(mono)@.ui_font,
        final(ui_kept)@.ui_font == Some(name@) && final(ui_kept)@.mono_font
            == old(ui_kept)@.mono_font,
        final(mono_kept)@.mono_font == Some(name@) && final(mono_kept)@.ui_font
            == old(mono_kept)@.ui_font,
        final(ui)@.mode == old(ui)@.mode && final(ui)@.light == old(ui)@.light && final(ui)@.dark
            == old(ui)@.dark && final(ui)@.themes == old(ui)@.themes,
        final(mono)@.mode == old(mono)@.mode && final(mono)@.light == old(mono)@.light
            && final(mono)@.dark == old(mono)@.dark && final(mono)@.themes == old(mono)@.themes,
        final(ui_kept)@.mode == old(ui_kept)@.mode && final(ui_kept)@.light == old(ui_kept)@.light
            && final(ui_kept)@.dark == old(ui_kept)@.dark && final(ui_kept)@.themes
            == old(ui_kept)@.themes,
        final(mono_kept)@.mode == old(mono_kept)@.mode && final(mono_kept)@.light
            == old(mono_kept)@.light && final(mono_kept)@.dark == old(mono_kept)@.dark
            && final(mono_kept)@.themes == old(mono_kept)@.themes,
        repaints(first, has_window) && repaints(second, has_window) && repaints(third, has_window)
            && repaints(fourth, has_window),
        final(stored)@.ui_font == name@ && final(stored)@.mono_font == old(stored)@.mono_font,
        final(noted)@.mono_font == name@ && final(noted)@.ui_font == old(noted)@.ui_font,
        final(stored)@.name == old(stored)@.name && final(stored)@.mode == old(stored)@.mode,
        final(noted)@.name == old(noted)@.name && final(noted)@.mode == old(noted)@.mode,
{
}

/// Recording a theme records the name and the mode of what is active; recording
/// the mode leaves the name.
pub proof fn law_recording_tells_what_is_active(
    theme: Theme,
    whole: &mut StoredTheme,
    part: &mut StoredTheme,
    name: &str,
)
    requires
        call_ensures(Theme::persist_theme_to, (&theme, whole), ()),
        call_ensures(Theme::persist_theme_mode_to, (&theme, part), ()),
        call_ensures(Theme::theme_name, (&theme,), name),
    ensures
        final(whole)@.name == name@ && final(whole)@.mode == theme@.mode,
        final(whole)@.ui_font == old(whole)@.ui_font && final(whole)@.mono_font
            == old(whole)@.mono_font,
        final(part)@.mode == theme@.mode && final(part)@.name == old(part)@.name,
        final(part)@.ui_font == old(part)@.ui_font && final(part)@.mono_font
            == old(part)@.mono_font,
{
}

/// Registering adds one theme under its name; a theme that failed to load
/// changes nothing.
pub proof fn law_registering_adds_one_theme(
    theme: &mut Theme,
    loaded: Option<ThemeConfig>,
    registered: bool,
    name: Seq<char>,
)
    requires
        call_ensures(Theme::register_themes, (theme, loaded), registered),
    ensures
        registered <==> loaded is Some,
        loaded matches Some(one) ==> {
            &&& final(theme)@.themes.dom().contains(one.name@)
            &&& final(theme)@.themes[one.name@] == one
            &&& name != one.name@ ==> (final(theme)@.themes.dom().contains(name)
                <==> old(theme)@.themes.dom().contains(name))
            &&& name != one.name@ && old(theme)@.themes.dom().contains(name)
                ==> final(theme)@.themes[name] == old(theme)@.themes[name]
            &&& final(theme)@.light == old(theme)@.light && final(theme)@.dark == old(theme)@.dark
                && final(theme)@.mode == old(theme)@.mode
        },
        loaded is None ==> final(theme)@ == old(theme)@,
{
}

/// Applying rift's theme makes it active in every window.
pub proof fn law_own_theme_is_applied(
    theme: &mut Theme,
    own: ThemeConfig,
    which: Option<Repaint>,
    name: &str,
)
    requires
        own.name@ == "Catppuccin Mocha"@,
        call_ensures(Theme::apply_theme, (theme, Some(own)), which),
        call_ensures(Theme::theme_name, (final(theme),), name),
    ensures
        name@ == "Catppuccin Mocha"@,
        final(theme)@.mode == own.mode,
        which == Some(Repaint::AllWindows),
        own.mode is Dark ==> final(theme)@.light == old(theme)@.light,
        own.mode is Light ==> final(theme)@.dark == old(theme)@.dark,
{
}

/// A restart restores the stored theme in its own slot, then the stored mode,
/// and each font that was chosen.
pub proof fn law_restart_restores_what_was_stored(
    theme: &mut Theme,
    own: ThemeConfig,
    stored: &StoredTheme,
    before: &mut Theme,
    registered: bool,
    list: &KeyedVec<ThemeConfig>,
    name: &str,
    chosen: Option<ThemeConfig>,
)
    requires
        call_ensures(Theme::apply_persisted_theme, (theme, Some(own), stored), ()),
        call_ensures(Theme::register_themes, (before, Some(own)), registered),
        old(before)@ == old(theme)@,
        list@ == final(before)@.themes,
        name@ == stored.theme_name@,
        call_ensures(resolve_theme, (list, name), chosen),
    ensures
        final(theme)@.mode == stored.theme_mode,
        chosen matches Some(one) ==> {
            &&& one.mode is Light ==> final(theme)@.light == one && final(theme)@.dark == old(theme)@.dark
            &&& one.mode is Dark ==> final(theme)@.dark == one && final(theme)@.light == old(theme)@.light
        },
        chosen is None ==> final(theme)@.light == old(theme)@.light && final(theme)@.dark == old(theme)@.dark,
        final(theme)@.themes == final(before)@.themes,
        stored.ui_font_family@.len() > 0 ==> final(theme)@.ui_font == Some(stored.ui_font_family@),
        stored.ui_font_family@.len() == 0 ==> final(theme)@.ui_font == old(theme)@.ui_font,
        stored.mono_font_family@.len() > 0 ==> final(theme)@.mono_font == Some(
            stored.mono_font_family@,
        ),
        stored.mono_font_family@.len() == 0 ==> final(theme)@.mono_font == old(theme)@.mono_font,
{
}

/// A preference is saved where there is a place for it, and what fails is
/// warned of with its reason.
pub proof fn law_failed_saves_are_warned_of<F: FnOnce(String) -> Result<(), String>>(
    state_path: Result<String, String>,
    save_to: F,
    warning: Option<PersistWarning>,
)
    requires
        call_ensures(persist_best_effort::<F>, (state_path, save_to), warning),
    ensures
        state_path matches Err(reason) ==> warning == Some(
            PersistWarning::NoStateDirectory(reason),
        ),
        state_path matches Ok(path) ==> exists|saved: Result<(), String>| #[trigger]
            save_to.ensures((path,), saved) && (warning is None <==> saved is Ok) && (
            saved matches Err(reason) ==> warning == Some(PersistWarning::SaveFailed(reason))),
{
    if let Ok(path) = state_path {
        let saved = choose|saved: Result<(), String>| #[trigger]
            save_to.ensures((path,), saved) && warns_of(saved, warning);
        assert(save_to.ensures((path,), saved));
    }
}

/// The toolkit starts with its two themes in their slots and light mode.
pub proof fn law_fresh_theme_is_bundled(
    theme: Theme,
    name: &str,
    other: Seq<char>,
    ui: Option<&str>,
    mono: Option<&str>,
)
    requires
        call_ensures(Theme::new, (), theme),
        call_ensures(Theme::theme_name, (&theme,), name),
        call_ensures(Theme::font_family, (&theme,), ui),
        call_ensures(Theme::mono_font_family, (&theme,), mono),
    ensures
        theme@.mode is Light,
        name@ == "Default Light"@,
        theme@.dark.name@ == "Default Dark"@,
        theme@.light.mode is Light && theme@.dark.mode is Dark,
        theme@.themes.dom().contains(other) <==> other == "Default Light"@ || other
            == "Default Dark"@,
        ui is None && mono is None,
{
}

/// The font families told are the ones that were last chosen.
pub proof fn law_fonts_are_told(
    ui_theme: &mut Theme,
    mono_theme: &mut Theme,
    family: &str,
    has_window: bool,
    first: Repaint,
    second: Repaint,
    ui: Option<&str>,
    mono: Option<&str>,
)
    requires
        call_ensures(Theme::set_ui_font, (ui_theme, family, has_window), first),
        call_ensures(Theme::set_mono_font, (mono_theme, family, has_window), second),
        call_ensures(Theme::font_family, (final(ui_theme),), ui),
        call_ensures(Theme::mono_font_family, (final(mono_theme),), mono),
    ensures
        ui is Some && (ui->0)@ == family@,
        mono is Some && (mono->0)@ == family@,
{
}

/// Where nothing is stored, a restart brings the default theme in dark mode.
pub proof fn law_nothing_stored_means_the_default(
    stored: StoredTheme,
    theme: &mut Theme,
    own: ThemeConfig,
    name: &str,
)
    requires
        call_ensures(StoredTheme::default, (), stored),
        own.name@ == "Catppuccin Mocha"@,
        own.mode is Dark,
        call_ensures(Theme::apply_persisted_theme, (theme, Some(own), &stored), ()),
        call_ensures(Theme::theme_name, (final(theme),), name),
    ensures
        name@ == "Catppuccin Mocha"@,
        final(theme)@.mode is Dark,
        final(theme)@.ui_font == old(theme)@.ui_font,
        final(theme)@.mono_font == old(theme)@.mono_font,
{
}

/// A theme that failed to load leaves everything as it was, whatever is stored.
pub proof fn law_failed_load_changes_nothing(
    plain: &mut Theme,
    restored: &mut Theme,
    stored: &StoredTheme,
    which: Option<Repaint>,
)
    requires
        call_ensures(Theme::apply_theme, (plain, None), which),
        call_ensures(Theme::apply_persisted_theme, (restored, None, stored), ()),
    ensures
        final(plain)@ == old(plain)@,
        which is None,
        final(restored)@ == old(restored)@,
{
}

} // verus!
