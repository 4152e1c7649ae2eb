//! What the user set, by hand in `config.toml` or through the settings page.

use vstd::prelude::*;

use crate::text;
use crate::text::{cat, chars_of, trim_end_of};

verus! {

/// Corner of the monitor the popup is pinned to.
#[derive(Debug, Clone, Copy, PartialEq, Eq, Structural)]
pub enum Anchor {
    TopLeft,
    /// Where a tray usually is, so it is the default.
    TopRight,
    BottomLeft,
    BottomRight,
}

impl Default for Anchor {
    fn default() -> (r: Self)
        ensures
            r == Anchor::TopRight,
    {
        Anchor::TopRight
    }
}

/// The hand-edited configuration.
#[derive(Debug)]
pub struct Config {
    /// Jellyfin base URL. Trailing slashes are trimmed on load.
    pub server: Option<String>,
    pub username: Option<String>,
    pub anchor: Anchor,
    pub margin: i32,
    pub width: i32,
    pub height: i32,
    /// Hide the popup when it loses focus.
    pub hide_on_focus_loss: bool,
    /// How long auto-hide waits after the blur, in milliseconds.
    pub hide_delay_ms: u64,
    /// `_NET_WM_WINDOW_TYPE` for the popup on X11, without that prefix.
    pub x11_window_type: Option<String>,
    /// Tracks pulled per random-play refill.
    pub random_batch: u32,
    pub cache_max_mb: u64,
    pub prefetch_next: bool,
    /// How long a browse query is reused, in seconds. Zero disables.
    pub library_cache_ttl_secs: u64,
    /// Tell the server what is played.
    pub report_playback: bool,
}

/// What a [`Config`] says.
pub struct ConfigView {
    pub server: Option<Seq<char>>,
    pub username: Option<Seq<char>>,
    pub anchor: Anchor,
    pub margin: i32,
    pub width: i32,
    pub height: i32,
    pub hide_on_focus_loss: bool,
    pub hide_delay_ms: u64,
    pub x11_window_type: Option<Seq<char>>,
    pub random_batch: u32,
    pub cache_max_mb: u64,
    pub prefetch_next: bool,
    pub library_cache_ttl_secs: u64,
    pub report_playback: bool,
}

impl View for Config {
    type V = ConfigView;

    open spec fn view(&self) -> ConfigView {
        ConfigView {
            server: text::text_opt(self.server),
            username: text::text_opt(self.username),
            anchor: self.anchor,
            margin: self.margin,
            width: self.width,
            height: self.height,
            hide_on_focus_loss: self.hide_on_focus_loss,
            hide_delay_ms: self.hide_delay_ms,
            x11_window_type: text::text_opt(self.x11_window_type),
            random_batch: self.random_batch,
            cache_max_mb: self.cache_max_mb,
            prefetch_next: self.prefetch_next,
            library_cache_ttl_secs: self.library_cache_ttl_secs,
            report_playback: self.report_playback,
        }
    }
}

impl ConfigView {
    /// The configuration of a file that sets nothing.
    pub open spec fn defaults() -> ConfigView {
        ConfigView {
            server: None,
            username: None,
            anchor: Anchor::TopRight,
            margin: 8,
            width: 380,
            height: 520,
            hide_on_focus_loss: false,
            hide_delay_ms: 0,
            x11_window_type: Some("utility"@),
            random_batch: 100,
            cache_max_mb: 500,
            prefetch_next: true,
            library_cache_ttl_secs: 300,
            report_playback: true,
        }
    }

    /// The configuration with the server's trailing slashes trimmed.
    pub open spec fn normalized(self) -> ConfigView {
        ConfigView {
            server: match self.server {
                Some(server) => Some(text::trim_end_char(server, '/')),
                None => None,
            },
            ..self
        }
    }
}

impl Default for Config {
    fn default() -> (r: Self)
        ensures
            r@ == ConfigView::defaults(),
    {
        Self {
            server: None,
            username: None,
            anchor: Anchor::TopRight,
            margin: 8,
            width: 380,
            height: 520,
            hide_on_focus_loss: false,
            hide_delay_ms: 0,
            x11_window_type: Some("utility".to_owned()),
            random_batch: 100,
            cache_max_mb: 500,
            prefetch_next: true,
            library_cache_ttl_secs: 300,
            report_playback: true,
        }
    }
}

impl Config {
    /// The configuration in force, `parsed` being what the file says: the defaults where
    /// there is no file.
    pub fn load(parsed: Option<Config>) -> (r: Self)
        ensures
            r@ == match parsed {
                Some(config) => config@.normalized(),
                None => ConfigView::defaults(),
            },
    {
        match parsed {
            None => Self::default(),
            Some(config) => {
                let mut config = config;
                config.server = match config.server {
                    Some(server) => Some(trim_end_of(server.as_str(), '/')),
                    None => None,
                };
                config
            },
        }
    }
}

/// An explicit light/dark choice. Absent means follow the desktop's preference.
#[derive(Debug, Clone, Copy, PartialEq, Eq, Structural)]
pub enum ColorScheme {
    Light,
    Dark,
}

/// What happens when a track, or the whole queue, runs out.
#[derive(Debug, Clone, Copy, PartialEq, Eq, Structural)]
pub enum Repeat {
    /// Playback stops at the end of the queue.
    Off,
    /// The queue starts over from its first track.
    All,
    /// The current track plays again.
    One,
}

impl Default for Repeat {
    fn default() -> (r: Self)
        ensures
            r == Repeat::Off,
    {
        Repeat::Off
    }
}

impl Repeat {
    /// The state after this one.
    pub open spec fn successor(self) -> Repeat {
        match self {
            Repeat::Off => Repeat::All,
            Repeat::All => Repeat::One,
            Repeat::One => Repeat::Off,
        }
    }

    /// Next state for the button: off, all, one, off.
    pub fn next(self) -> (r: Self)
        ensures
            r == self.successor(),
    {
        match self {
            Self::Off => Self::All,
            Self::All => Self::One,
            Self::One => Self::Off,
        }
    }
}

/// Three presses of the repeat button come back to where they started, and no fewer do.
pub proof fn law_repeat_cycles_through_three_states(repeat: Repeat)
    ensures
        repeat.successor() != repeat,
        repeat.successor().successor() != repeat,
        repeat.successor().successor().successor() == repeat,
{
}

/// State the settings page and the player write for themselves.
#[derive(Debug, Clone, Copy, PartialEq, Eq, Structural)]
pub struct Settings {
    /// None until the user picks one, so a fresh install follows the system.
    pub color_scheme: Option<ColorScheme>,
    /// None means whatever `config.toml` says.
    pub hide_on_focus_loss: Option<bool>,
    /// Stops the no-art panel's pattern from moving.
    pub reduce_motion: bool,
    /// Ceiling on the track cache, in megabytes. None means `config.toml`'s.
    pub cache_max_mb: Option<u64>,
    /// Survives a restart alongside the queue itself.
    pub repeat: Repeat,
}

/// One change of one setting.
#[derive(Debug, Clone, Copy, PartialEq, Eq, Structural)]
pub enum Change {
    ColorScheme(ColorScheme),
    HideOnFocusLoss(bool),
    ReduceMotion(bool),
    CacheMaxMb(u64),
    Repeat(Repeat),
}

impl Default for Settings {
    fn default() -> (r: Self)
        ensures
            r == Settings::defaults(),
    {
        Settings {
            color_scheme: None,
            hide_on_focus_loss: None,
            reduce_motion: false,
            cache_max_mb: None,
            repeat: Repeat::Off,
        }
    }
}

impl Settings {
    /// The settings of a fresh install.
    pub open spec fn defaults() -> Settings {
        Settings {
            color_scheme: None,
            hide_on_focus_loss: None,
            reduce_motion: false,
            cache_max_mb: None,
            repeat: Repeat::Off,
        }
    }

    /// The settings with one of them changed and every other kept.
    pub open spec fn changed(self, change: Change) -> Settings {
        match change {
            Change::ColorScheme(scheme) => Settings { color_scheme: Some(scheme), ..self },
            Change::HideOnFocusLoss(hides) => Settings { hide_on_focus_loss: Some(hides), ..self },
            Change::ReduceMotion(reduce) => Settings { reduce_motion: reduce, ..self },
            Change::CacheMaxMb(mb) => Settings { cache_max_mb: Some(mb), ..self },
            Change::Repeat(repeat) => Settings { repeat, ..self },
        }
    }

    /// The settings in force, `parsed` being what the state file says. Never fails: a missing
    /// or corrupt file must not stop the player from starting.
    pub fn load(parsed: Option<Settings>) -> (r: Self)
        ensures
            r == match parsed {
                Some(settings) => settings,
                None => Settings::defaults(),
            },
    {
        match parsed {
            Some(settings) => settings,
            None => Self::default(),
        }
    }

    /// Read, change, write: what is to be written back to the state file after one change,
    /// `parsed` being what the file said before.
    ///
    /// The file holds every setting, so writing one field on its own would silently reset the
    /// others.
    pub fn update(parsed: Option<Settings>, change: Change) -> (r: Self)
        ensures
            r == (match parsed {
                Some(settings) => settings,
                None => Settings::defaults(),
            }).changed(change),
    {
        let mut settings = Self::load(parsed);
        match change {
            Change::ColorScheme(scheme) => {
                settings.color_scheme = Some(scheme);
            },
            Change::HideOnFocusLoss(hides) => {
                settings.hide_on_focus_loss = Some(hides);
            },
            Change::ReduceMotion(reduce) => {
                settings.reduce_motion = reduce;
            },
            Change::CacheMaxMb(mb) => {
                settings.cache_max_mb = Some(mb);
            },
            Change::Repeat(repeat) => {
                settings.repeat = repeat;
            },
        }
        settings
    }

    /// Whether the popup hides when it loses focus: the stored choice wins over the
    /// hand-edited one.
    pub fn hides_on_focus_loss(&self, config: &Config) -> (r: bool)
        ensures
            r == match self.hide_on_focus_loss {
                Some(hides) => hides,
                None => config@.hide_on_focus_loss,
            },
    {
        match self.hide_on_focus_loss {
            Some(hides) => hides,
            None => config.hide_on_focus_loss,
        }
    }

    /// Ceiling on the track cache, in megabytes: the stored choice wins over the hand-edited
    /// one.
    pub open spec fn cache_limit(self, configured: u64) -> u64 {
        match self.cache_max_mb {
            Some(mb) => mb,
            None => configured,
        }
    }

    /// Ceiling on the track cache, in megabytes: the stored choice wins over the hand-edited
    /// one.
    pub fn cache_limit_mb(&self, configured: u64) -> (r: u64)
        ensures
            r == self.cache_limit(configured),
    {
        match self.cache_max_mb {
            Some(mb) => mb,
            None => configured,
        }
    }

    /// Ceiling on the track cache, in bytes.
    pub fn cache_limit_bytes(&self, configured: u64) -> (r: u64)
        requires
            self.cache_limit(configured) * BYTES_PER_MB <= u64::MAX,
        ensures
            r == self.cache_limit(configured) * BYTES_PER_MB,
    {
        self.cache_limit_mb(configured) * BYTES_PER_MB
    }
}

/// Bytes in a megabyte.
pub const BYTES_PER_MB: u64 = 1_048_576;

/// Whether two changes are of the same setting.
pub open spec fn same_setting(a: Change, b: Change) -> bool {
    match (a, b) {
        (Change::ColorScheme(_), Change::ColorScheme(_)) => true,
        (Change::HideOnFocusLoss(_), Change::HideOnFocusLoss(_)) => true,
        (Change::ReduceMotion(_), Change::ReduceMotion(_)) => true,
        (Change::CacheMaxMb(_), Change::CacheMaxMb(_)) => true,
        (Change::Repeat(_), Change::Repeat(_)) => true,
        _ => false,
    }
}

/// Two changes of different settings can be made in either order, and of two changes of the same
/// setting the later one holds: no change resets another setting.
pub proof fn law_a_change_resets_no_other_setting(settings: Settings, a: Change, b: Change)
    ensures
        same_setting(a, b) ==> settings.changed(a).changed(b) == settings.changed(b),
        !same_setting(a, b) ==> settings.changed(a).changed(b) == settings.changed(b).changed(a),
{
}

// ---------------------------------------------------------------------------------------
// Where the files are.
// ---------------------------------------------------------------------------------------

/// The base directories of the application, as the desktop's conventions give them.
#[derive(Debug)]
pub struct ProjectDirs {
    pub config_dir: String,
    pub cache_dir: String,
    /// Not every platform has one.
    pub state_dir: Option<String>,
    pub data_local_dir: String,
}

/// The base directories cannot be determined.
#[derive(Debug, Clone, Copy, PartialEq, Eq, Structural)]
pub struct NoBaseDirs;

impl ProjectDirs {
    /// Where machine-written state goes.
    pub open spec fn state(self) -> Seq<char> {
        match self.state_dir {
            Some(dir) => dir@,
            None => self.data_local_dir@,
        }
    }
}

/// The path of `name` in `dir`.
pub open spec fn file_in(dir: Seq<char>, name: Seq<char>) -> Seq<char> {
    if dir.len() == 0 || dir.last() == '/' {
        dir + name
    } else {
        dir + "/"@ + name
    }
}

/// A path, if the base directories are known.
pub open spec fn path_result(r: Result<String, NoBaseDirs>) -> Option<Seq<char>> {
    match r {
        Ok(path) => Some(path@),
        Err(_) => None,
    }
}

/// The path of `name` in `dir`.
pub fn join(dir: &str, name: &str) -> (r: String)
    ensures
        r@ == file_in(dir@, name@),
{
    let chars = chars_of(dir);
    if chars.len() == 0 || chars[chars.len() - 1] == '/' {
        cat(dir, name)
    } else {
        cat(cat(dir, "/").as_str(), name)
    }
}

/// Where the hand-edited configuration is.
pub fn config_dir(dirs: &Option<ProjectDirs>) -> (r: Result<String, NoBaseDirs>)
    ensures
        path_result(r) == match *dirs {
            Some(d) => Some(d.config_dir@),
            None => None,
        },
{
    match dirs {
        Some(d) => Ok(d.config_dir.clone()),
        None => Err(NoBaseDirs),
    }
}

/// Where downloaded tracks are kept.
pub fn cache_dir(dirs: &Option<ProjectDirs>) -> (r: Result<String, NoBaseDirs>)
    ensures
        path_result(r) == match *dirs {
            Some(d) => Some(d.cache_dir@),
            None => None,
        },
{
    match dirs {
        Some(d) => Ok(d.cache_dir.clone()),
        None => Err(NoBaseDirs),
    }
}

/// Where machine-written state is kept, out of the configuration directory so a hand-edited
/// file and a generated one never sit side by side.
pub fn state_dir(dirs: &Option<ProjectDirs>) -> (r: Result<String, NoBaseDirs>)
    ensures
        path_result(r) == match *dirs {
            Some(d) => Some(d.state()),
            None => None,
        },
{
    match dirs {
        Some(d) => match &d.state_dir {
            Some(state) => Ok(state.clone()),
            None => Ok(d.data_local_dir.clone()),
        },
        None => Err(NoBaseDirs),
    }
}

fn within(dir: Result<String, NoBaseDirs>, name: &str) -> (r: Result<String, NoBaseDirs>)
    ensures
        path_result(r) == match path_result(dir) {
            Some(d) => Some(file_in(d, name@)),
            None => None,
        },
{
    match dir {
        Ok(d) => Ok(join(d.as_str(), name)),
        Err(e) => Err(e),
    }
}

/// The hand-edited configuration.
pub fn config_path(dirs: &Option<ProjectDirs>) -> (r: Result<String, NoBaseDirs>)
    ensures
        path_result(r) == match *dirs {
            Some(d) => Some(file_in(d.config_dir@, "config.toml"@)),
            None => None,
        },
{
    within(config_dir(dirs), "config.toml")
}

/// The state file of the settings page.
pub fn settings_path(dirs: &Option<ProjectDirs>) -> (r: Result<String, NoBaseDirs>)
    ensures
        path_result(r) == match *dirs {
            Some(d) => Some(file_in(d.state(), "settings.toml"@)),
            None => None,
        },
{
    within(state_dir(dirs), "settings.toml")
}

/// The persisted queue.
pub fn queue_state_path(dirs: &Option<ProjectDirs>) -> (r: Result<String, NoBaseDirs>)
    ensures
        path_result(r) == match *dirs {
            Some(d) => Some(file_in(d.state(), "queue.json"@)),
            None => None,
        },
{
    within(state_dir(dirs), "queue.json")
}

/// The optional user theme, watched for changes at runtime.
pub fn user_theme_path(dirs: &Option<ProjectDirs>) -> (r: Result<String, NoBaseDirs>)
    ensures
        path_result(r) == match *dirs {
            Some(d) => Some(file_in(d.config_dir@, "theme.css"@)),
            None => None,
        },
{
    within(config_dir(dirs), "theme.css")
}

/// Each change is of the setting it names, and is the value that was chosen.
pub proof fn law_a_change_is_of_the_setting_it_names(
    settings: Settings,
    scheme: ColorScheme,
    flag: bool,
    mb: u64,
    repeat: Repeat,
)
    ensures
        settings.changed(Change::ColorScheme(scheme)).color_scheme == Some(scheme),
        settings.changed(Change::HideOnFocusLoss(flag)).hide_on_focus_loss == Some(flag),
        settings.changed(Change::ReduceMotion(flag)).reduce_motion == flag,
        settings.changed(Change::CacheMaxMb(mb)).cache_max_mb == Some(mb),
        settings.changed(Change::Repeat(repeat)).repeat == repeat,
        settings.changed(Change::ColorScheme(scheme)).repeat == settings.repeat,
        settings.changed(Change::Repeat(repeat)) == (Settings { repeat, ..settings }),
        settings.changed(Change::CacheMaxMb(mb)) == (Settings {
            cache_max_mb: Some(mb),
            ..settings
        }),
        settings.changed(Change::ReduceMotion(flag)) == (Settings {
            reduce_motion: flag,
            ..settings
        }),
{
}

/// The limit on the cache is the one that was chosen on the settings page, and the hand-written one
/// only where none was.
pub proof fn law_a_chosen_limit_wins(settings: Settings, mb: u64, configured: u64)
    ensures
        settings.changed(Change::CacheMaxMb(mb)).cache_limit(configured) == mb,
        settings.cache_max_mb is None ==> settings.cache_limit(configured) == configured,
        Settings::defaults().cache_limit(configured) == configured,
{
}

/// A fresh install repeats nothing, moves, and leaves everything else to the hand-written file and
/// the desktop.
pub proof fn law_a_fresh_install_chooses_nothing()
    ensures
        Settings::defaults().color_scheme is None,
        Settings::defaults().hide_on_focus_loss is None,
        Settings::defaults().cache_max_mb is None,
        !Settings::defaults().reduce_motion,
        Settings::defaults().repeat == Repeat::Off,
{
}

/// Off is followed by the whole queue, that by this track, and that by off.
pub proof fn law_repeat_goes_from_all_to_one(repeat: Repeat)
    ensures
        Repeat::Off.successor() == Repeat::All,
        Repeat::All.successor() == Repeat::One,
        Repeat::One.successor() == Repeat::Off,
{
}

/// Loading a configuration takes the slashes off the end of the server's address and changes
/// nothing else.
pub proof fn law_loading_only_trims_the_server(config: ConfigView)
    ensures
        ({
            let after = config.normalized();
            &&& after == (ConfigView { server: after.server, ..config })
            &&& after.server is Some <==> config.server is Some
            &&& config.server is Some ==> {
                let (was, is) = (config.server.unwrap(), after.server.unwrap());
                &&& is.is_prefix_of(was)
                &&& is.len() > 0 ==> is.last() != '/'
                &&& forall|i: int| is.len() <= i < was.len() ==> #[trigger] was[i] == '/'
            }
        }),
{
    if let Some(server) = config.server {
        text::law_trimming_the_end_takes_one_character_only(server, '/');
    }
}

/// A file in a directory is written with one slash between the two, and none where the directory
/// already ends in one or is not named.
pub proof fn law_a_path_has_one_slash_between(dir: Seq<char>, name: Seq<char>)
    ensures
        dir.is_prefix_of(file_in(dir, name)),
        file_in(dir, name).len() >= name.len(),
        file_in(dir, name).skip(file_in(dir, name).len() - name.len()) == name,
        dir.len() > 0 && dir.last() != '/' ==> file_in(dir, name).len() == dir.len() + 1
            + name.len() && file_in(dir, name)[dir.len() as int] == '/',
        dir.len() == 0 || dir.last() == '/' ==> file_in(dir, name).len() == dir.len() + name.len(),
{
    reveal_strlit("/");
    let path = file_in(dir, name);
    assert(path.skip(path.len() - name.len()) =~= name);
}

/// Machine-written state goes where the platform keeps state, and with the local data where it
/// keeps none.
pub proof fn law_state_has_its_own_place(dirs: ProjectDirs)
    ensures
        dirs.state_dir is Some ==> dirs.state() == dirs.state_dir.unwrap()@,
        dirs.state_dir is None ==> dirs.state() == dirs.data_local_dir@,
{
}

/// A file that sets nothing is a popup at the top right that stays where it is, with half a
/// gigabyte for tracks, and everything that is played is fetched ahead and reported.
pub proof fn law_an_empty_file_sets_the_defaults()
    ensures
        ConfigView::defaults().server is None,
        ConfigView::defaults().username is None,
        ConfigView::defaults().anchor == Anchor::TopRight,
        ConfigView::defaults().margin == 8,
        ConfigView::defaults().width == 380,
        ConfigView::defaults().height == 520,
        !ConfigView::defaults().hide_on_focus_loss,
        ConfigView::defaults().hide_delay_ms == 0,
        ConfigView::defaults().x11_window_type == Some("utility"@),
        ConfigView::defaults().random_batch == 100,
        ConfigView::defaults().cache_max_mb == 500,
        ConfigView::defaults().prefetch_next,
        ConfigView::defaults().library_cache_ttl_secs == 300,
        ConfigView::defaults().report_playback,
{
}

} // verus!
