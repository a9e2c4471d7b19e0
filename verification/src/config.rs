//! Application settings and their management.
//!
//! Settings come in three layers: the cache location and the name
//! pattern, the cleaning policy (mode, floor, result path) and the
//! interface (theme, keybindings). Built-in defaults are merged with
//! whatever the caller loads from a user configuration file; merging
//! and validation are pure and verified here, while reading the file
//! and checking that paths exist on disk stay with the caller.

use vstd::prelude::*;
use crate::errors::Error;

verus! {

/// How cleaning picks what to delete.
#[derive(Debug, Clone, Copy, PartialEq, Eq, Structural)]
pub enum CleaningMode {
    /// Keep the earliest file of each sub-group.
    Auto,
    /// Prefer keeping original files over auto-numbered copies.
    Smart,
    /// Let the user choose; needs an interactive interface.
    Interactive,
}

/// Where the cache sits and how its copies are named.
#[derive(Debug)]
pub struct WechatSettings {
    /// The cache directory to scan.
    pub cache_path: Option<String>,
    /// The pattern that recognizes auto-numbered copies.
    pub cache_patterns: String,
}

/// The cleaning policy.
#[derive(Debug)]
pub struct CleaningSettings {
    /// The default cleaning mode.
    pub default_mode: CleaningMode,
    /// Whether files without a copy suffix are preferred for keeping.
    pub preserve_originals: bool,
    /// Files below this many bytes are never deleted.
    pub min_file_size: u64,
    /// Where a scan result is persisted between invocations.
    pub scan_result_save_path: Option<String>,
}

/// Colors of the interface.
#[derive(Debug)]
pub struct ThemeSettings {
    pub primary_color: String,
    pub secondary_color: String,
    pub highlight_color: String,
}

/// Keys of the interface.
#[derive(Debug, Clone, Copy, PartialEq, Eq, Structural)]
pub struct Keybindings {
    pub quit: char,
    pub up: char,
    pub down: char,
    pub left: char,
    pub right: char,
    pub confirm: char,
    pub delete: char,
}

/// The interface settings.
#[derive(Debug)]
pub struct UiSettings {
    pub theme: ThemeSettings,
    pub keybindings: Keybindings,
}

/// All settings together.
#[derive(Debug)]
pub struct Settings {
    pub wechat: WechatSettings,
    pub cleaning: CleaningSettings,
    pub ui: UiSettings,
}

/// Merging: a loaded layer is folded over the current one, field by
/// field; an absent or empty loaded value leaves the current one.
pub trait Merge: Sized {
    /// Folds `other` over `self`.
    fn merge(&mut self, other: Self);
}

/// The default copy pattern: a numeric parenthetical suffix before the
/// extension.
pub open spec fn default_cache_patterns_spec() -> Seq<char> {
    r"\(\d+\)\.[a-zA-Z0-9]+$"@
}

fn default_cache_patterns() -> (r: String)
    ensures
        r@ == default_cache_patterns_spec(),
{
    String::from_str(r"\(\d+\)\.[a-zA-Z0-9]+$")
}

fn default_cleaning_mode() -> (r: CleaningMode)
    ensures
        r is Smart,
{
    CleaningMode::Smart
}

fn default_preserve_originals() -> (r: bool)
    ensures
        r,
{
    true
}

fn default_min_file_size() -> (r: u64)
    ensures
        r == 1024,
{
    1024
}

pub open spec fn default_primary_color_spec() -> Seq<char> {
    "blue"@
}

pub open spec fn default_secondary_color_spec() -> Seq<char> {
    "green"@
}

pub open spec fn default_highlight_color_spec() -> Seq<char> {
    "yellow"@
}

fn default_primary_color() -> (r: String)
    ensures
        r@ == default_primary_color_spec(),
{
    String::from_str("blue")
}

fn default_secondary_color() -> (r: String)
    ensures
        r@ == default_secondary_color_spec(),
{
    String::from_str("green")
}

fn default_highlight_color() -> (r: String)
    ensures
        r@ == default_highlight_color_spec(),
{
    String::from_str("yellow")
}

fn default_theme() -> (r: ThemeSettings)
    ensures
        r.primary_color@ == default_primary_color_spec(),
        r.secondary_color@ == default_secondary_color_spec(),
        r.highlight_color@ == default_highlight_color_spec(),
{
    ThemeSettings {
        primary_color: default_primary_color(),
        secondary_color: default_secondary_color(),
        highlight_color: default_highlight_color(),
    }
}

/// The default keybindings.
pub open spec fn default_keybindings_spec() -> Keybindings {
    Keybindings {
        quit: 'q',
        up: 'k',
        down: 'j',
        left: 'h',
        right: 'l',
        confirm: '\n',
        delete: 'd',
    }
}

fn default_keybindings() -> (r: Keybindings)
    ensures
        r == default_keybindings_spec(),
{
    Keybindings { quit: 'q', up: 'k', down: 'j', left: 'h', right: 'l', confirm: '\n', delete: 'd' }
}

/// What the built-in defaults look like. The cache path and the save
/// path are left unset: resolving platform directories is the
/// caller's.
pub open spec fn is_default_settings(s: Settings) -> bool {
    &&& s.wechat.cache_path is None
    &&& s.wechat.cache_patterns@ == default_cache_patterns_spec()
    &&& s.cleaning.default_mode is Smart
    &&& s.cleaning.preserve_originals
    &&& s.cleaning.min_file_size == 1024
    &&& s.cleaning.scan_result_save_path is None
    &&& s.ui.theme.primary_color@ == default_primary_color_spec()
    &&& s.ui.theme.secondary_color@ == default_secondary_color_spec()
    &&& s.ui.theme.highlight_color@ == default_highlight_color_spec()
    &&& s.ui.keybindings == default_keybindings_spec()
}

impl Default for Settings {
    /// The built-in defaults.
    fn default() -> (r: Settings)
        ensures
            is_default_settings(r),
    {
        Settings {
            wechat: WechatSettings { cache_path: None, cache_patterns: default_cache_patterns() },
            cleaning: CleaningSettings {
                default_mode: default_cleaning_mode(),
                preserve_originals: default_preserve_originals(),
                min_file_size: default_min_file_size(),
                scan_result_save_path: None,
            },
            ui: UiSettings { theme: default_theme(), keybindings: default_keybindings() },
        }
    }
}

/// The cache layer merged: a present path and a non-empty pattern win.
pub open spec fn merge_wechat_spec(a: WechatSettings, b: WechatSettings) -> WechatSettings {
    WechatSettings {
        cache_path: if b.cache_path is Some {
            b.cache_path
        } else {
            a.cache_path
        },
        cache_patterns: if b.cache_patterns@.len() > 0 {
            b.cache_patterns
        } else {
            a.cache_patterns
        },
    }
}

impl WechatSettings {
    /// Folds a loaded cache layer over this one.
    pub fn merge(&mut self, other: Self)
        ensures
            *final(self) == merge_wechat_spec(*old(self), other),
    {
        let WechatSettings { cache_path, cache_patterns } = other;
        if cache_path.is_some() {
            self.cache_path = cache_path;
        }
        let pattern_str: &str = &cache_patterns;
        if !pattern_str.is_empty() {
            self.cache_patterns = cache_patterns;
        }
    }
}

/// The cleaning layer merged: mode and preservation always win, a
/// positive floor wins, a present save path wins.
pub open spec fn merge_cleaning_spec(a: CleaningSettings, b: CleaningSettings) -> CleaningSettings {
    CleaningSettings {
        default_mode: b.default_mode,
        preserve_originals: b.preserve_originals,
        min_file_size: if b.min_file_size > 0 {
            b.min_file_size
        } else {
            a.min_file_size
        },
        scan_result_save_path: if b.scan_result_save_path is Some {
            b.scan_result_save_path
        } else {
            a.scan_result_save_path
        },
    }
}

impl CleaningSettings {
    /// Folds a loaded cleaning layer over this one.
    pub fn merge(&mut self, other: Self)
        ensures
            *final(self) == merge_cleaning_spec(*old(self), other),
    {
        let CleaningSettings {
            default_mode,
            preserve_originals,
            min_file_size,
            scan_result_save_path,
        } = other;
        self.default_mode = default_mode;
        self.preserve_originals = preserve_originals;
        if min_file_size > 0 {
            self.min_file_size = min_file_size;
        }
        if scan_result_save_path.is_some() {
            self.scan_result_save_path = scan_result_save_path;
        }
    }
}

/// A theme color merged: a non-empty color that differs from the
/// built-in default wins.
pub open spec fn merge_color_spec(a: String, b: String, default: Seq<char>) -> String {
    if b@.len() > 0 && b@ != default {
        b
    } else {
        a
    }
}

/// The theme merged, color by color.
pub open spec fn merge_theme_spec(a: ThemeSettings, b: ThemeSettings) -> ThemeSettings {
    ThemeSettings {
        primary_color: merge_color_spec(a.primary_color, b.primary_color, default_primary_color_spec()),
        secondary_color: merge_color_spec(
            a.secondary_color,
            b.secondary_color,
            default_secondary_color_spec(),
        ),
        highlight_color: merge_color_spec(
            a.highlight_color,
            b.highlight_color,
            default_highlight_color_spec(),
        ),
    }
}

impl ThemeSettings {
    /// Folds a loaded theme over this one.
    pub fn merge(&mut self, other: Self)
        ensures
            *final(self) == merge_theme_spec(*old(self), other),
    {
        let ThemeSettings { primary_color, secondary_color, highlight_color } = other;
        let p: &str = &primary_color;
        if !p.is_empty() && primary_color != default_primary_color() {
            self.primary_color = primary_color;
        }
        let sc: &str = &secondary_color;
        if !sc.is_empty() && secondary_color != default_secondary_color() {
            self.secondary_color = secondary_color;
        }
        let h: &str = &highlight_color;
        if !h.is_empty() && highlight_color != default_highlight_color() {
            self.highlight_color = highlight_color;
        }
    }
}

/// One keybinding merged: a key that is set and differs from the
/// built-in default wins.
pub open spec fn merge_key_spec(a: char, b: char, default: char) -> char {
    if b != '\0' && b != default {
        b
    } else {
        a
    }
}

/// The keybindings merged, key by key.
pub open spec fn merge_keybindings_spec(a: Keybindings, b: Keybindings) -> Keybindings {
    let d = default_keybindings_spec();
    Keybindings {
        quit: merge_key_spec(a.quit, b.quit, d.quit),
        up: merge_key_spec(a.up, b.up, d.up),
        down: merge_key_spec(a.down, b.down, d.down),
        left: merge_key_spec(a.left, b.left, d.left),
        right: merge_key_spec(a.right, b.right, d.right),
        confirm: merge_key_spec(a.confirm, b.confirm, d.confirm),
        delete: merge_key_spec(a.delete, b.delete, d.delete),
    }
}

impl Keybindings {
    /// Folds loaded keybindings over these.
    pub fn merge(&mut self, other: Self)
        ensures
            *final(self) == merge_keybindings_spec(*old(self), other),
    {
        if other.quit != '\0' && other.quit != 'q' {
            self.quit = other.quit;
        }
        if other.up != '\0' && other.up != 'k' {
            self.up = other.up;
        }
        if other.down != '\0' && other.down != 'j' {
            self.down = other.down;
        }
        if other.left != '\0' && other.left != 'h' {
            self.left = other.left;
        }
        if other.right != '\0' && other.right != 'l' {
            self.right = other.right;
        }
        if other.confirm != '\0' && other.confirm != '\n' {
            self.confirm = other.confirm;
        }
        if other.delete != '\0' && other.delete != 'd' {
            self.delete = other.delete;
        }
    }
}

/// The interface layer merged.
pub open spec fn merge_ui_spec(a: UiSettings, b: UiSettings) -> UiSettings {
    UiSettings {
        theme: merge_theme_spec(a.theme, b.theme),
        keybindings: merge_keybindings_spec(a.keybindings, b.keybindings),
    }
}

impl UiSettings {
    /// Folds a loaded interface layer over this one.
    pub fn merge(&mut self, other: Self)
        ensures
            *final(self) == merge_ui_spec(*old(self), other),
    {
        let UiSettings { theme, keybindings } = other;
        self.theme.merge(theme);
        self.keybindings.merge(keybindings);
    }
}

/// All layers merged.
pub open spec fn merge_settings_spec(a: Settings, b: Settings) -> Settings {
    Settings {
        wechat: merge_wechat_spec(a.wechat, b.wechat),
        cleaning: merge_cleaning_spec(a.cleaning, b.cleaning),
        ui: merge_ui_spec(a.ui, b.ui),
    }
}

impl Settings {
    /// Folds loaded settings over these, layer by layer.
    pub fn merge(&mut self, other: Self)
        ensures
            *final(self) == merge_settings_spec(*old(self), other),
    {
        let Settings { wechat, cleaning, ui } = other;
        self.wechat.merge(wechat);
        self.cleaning.merge(cleaning);
        self.ui.merge(ui);
    }
}

impl Merge for WechatSettings {
    fn merge(&mut self, other: Self) {
        self.merge(other);
    }
}

impl Merge for CleaningSettings {
    fn merge(&mut self, other: Self) {
        self.merge(other);
    }
}

impl Merge for ThemeSettings {
    fn merge(&mut self, other: Self) {
        self.merge(other);
    }
}

impl Merge for Keybindings {
    fn merge(&mut self, other: Self) {
        self.merge(other);
    }
}

impl Merge for UiSettings {
    fn merge(&mut self, other: Self) {
        self.merge(other);
    }
}

impl Merge for Settings {
    fn merge(&mut self, other: Self) {
        self.merge(other);
    }
}

/// No two functions share a key.
pub open spec fn keys_distinct(k: Keybindings) -> bool {
    &&& k.quit != k.up
    &&& k.quit != k.down
    &&& k.quit != k.left
    &&& k.quit != k.right
    &&& k.quit != k.confirm
    &&& k.quit != k.delete
    &&& k.up != k.down
    &&& k.up != k.left
    &&& k.up != k.right
    &&& k.up != k.confirm
    &&& k.up != k.delete
    &&& k.down != k.left
    &&& k.down != k.right
    &&& k.down != k.confirm
    &&& k.down != k.delete
    &&& k.left != k.right
    &&& k.left != k.confirm
    &&& k.left != k.delete
    &&& k.right != k.confirm
    &&& k.right != k.delete
    &&& k.confirm != k.delete
}

/// The largest minimum-size floor that is accepted, 100 MiB.
pub const MAX_MIN_FILE_SIZE: u64 = 104857600;

/// What validation checks of settings: the floor within range and the
/// keybindings free of conflicts. Whether a configured path exists on
/// disk is the caller's to check.
pub open spec fn settings_valid(s: Settings) -> bool {
    &&& s.cleaning.min_file_size <= MAX_MIN_FILE_SIZE
    &&& keys_distinct(s.ui.keybindings)
}

/// Where one loaded configuration layer came from.
#[derive(Debug)]
pub struct ConfigSource {
    /// The file, or a marker for the built-in layer.
    pub path: String,
    pub source_type: ConfigSourceType,
    /// When the layer was loaded, in seconds since the Unix epoch.
    pub loaded_at: u64,
}

/// The kind of a configuration layer.
#[derive(Debug, Clone, Copy, PartialEq, Eq, Structural)]
pub enum ConfigSourceType {
    /// The built-in defaults.
    Default,
    /// A user-level configuration file.
    User,
}

/// Holds the current settings and tracks where they came from.
#[derive(Debug)]
pub struct ConfigManager {
    pub settings: Settings,
    pub config_path: Option<String>,
    pub config_sources: Vec<ConfigSource>,
}

impl ConfigManager {
    /// A manager loaded with the built-in defaults. The defaults are
    /// valid, so this never fails.
    pub fn new() -> (r: Result<ConfigManager, Error>)
        ensures
            r matches Ok(m) ==> {
                &&& is_default_settings(m.settings)
                &&& m.config_path is None
                &&& m.config_sources@.len() == 1
                &&& m.config_sources@[0].source_type is Default
            },
            r is Ok,
    {
        let mut manager = ConfigManager {
            settings: Settings::default(),
            config_path: None,
            config_sources: Vec::new(),
        };
        manager.load();
        Ok(manager)
    }

    /// The current settings.
    pub fn settings(&self) -> (r: &Settings)
        ensures
            r == &self.settings,
    {
        &self.settings
    }

    /// The current settings, for the caller to change.
    pub fn settings_mut(&mut self) -> (r: &mut Settings)
        ensures
            *r == old(self).settings,
            final(self).settings == *final(r),
            final(self).config_path == old(self).config_path,
            final(self).config_sources == old(self).config_sources,
    {
        &mut self.settings
    }

    /// The user configuration file the settings were loaded from.
    pub fn config_path(&self) -> (r: Option<&String>)
        ensures
            r is Some <==> self.config_path is Some,
            r matches Some(p) ==> *p == self.config_path->0,
    {
        self.config_path.as_ref()
    }

    /// Where the current settings came from.
    pub fn config_sources(&self) -> (r: &Vec<ConfigSource>)
        ensures
            r == &self.config_sources,
    {
        &self.config_sources
    }

    /// Puts the manager back to the built-in defaults and records the
    /// built-in layer as the one source.
    pub fn load(&mut self)
        ensures
            is_default_settings(final(self).settings),
            final(self).config_sources@.len() == 1,
            final(self).config_sources@[0].source_type is Default,
            final(self).config_path == old(self).config_path,
    {
        self.config_sources.clear();
        self.settings = Settings::default();
        self.add_config_source(
            ConfigSource {
                path: String::from_str("<built-in>"),
                source_type: ConfigSourceType::Default,
                loaded_at: 0,
            },
        );
    }

    /// Folds loaded settings over the current ones.
    pub fn merge_settings(&mut self, new_settings: Settings)
        ensures
            final(self).settings == merge_settings_spec(old(self).settings, new_settings),
            final(self).config_path == old(self).config_path,
            final(self).config_sources == old(self).config_sources,
    {
        self.settings.merge(new_settings);
    }

    /// Records where a configuration layer came from.
    pub fn add_config_source(&mut self, source: ConfigSource)
        ensures
            final(self).config_sources@ == old(self).config_sources@.push(source),
            final(self).settings == old(self).settings,
            final(self).config_path == old(self).config_path,
    {
        self.config_sources.push(source);
    }

    /// Checks the floor and the keybindings. Whether a configured
    /// cache path exists on disk is checked by the caller, which has
    /// the filesystem.
    pub fn validate(&self) -> (r: Result<(), Error>)
        ensures
            r is Ok <==> settings_valid(self.settings),
            r matches Err(e) ==> e is ConfigurationInvalid,
    {
        if self.settings.cleaning.min_file_size > MAX_MIN_FILE_SIZE {
            return Err(
                Error::ConfigurationInvalid(String::from_str("minimum file size too large")),
            );
        }
        let k = self.settings.ui.keybindings;
        if k.quit == k.up || k.quit == k.down || k.quit == k.left || k.quit == k.right || k.quit
            == k.confirm || k.quit == k.delete || k.up == k.down || k.up == k.left || k.up
            == k.right || k.up == k.confirm || k.up == k.delete || k.down == k.left || k.down
            == k.right || k.down == k.confirm || k.down == k.delete || k.left == k.right || k.left
            == k.confirm || k.left == k.delete || k.right == k.confirm || k.right == k.delete
            || k.confirm == k.delete {
            return Err(Error::ConfigurationInvalid(String::from_str("keybinding conflict")));
        }
        Ok(())
    }
}

} // verus!
