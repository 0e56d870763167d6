use vstd::prelude::*;
use crate::text::concat_str;

verus! {

/// Top-level application configuration.
#[derive(Debug, Clone)]
pub struct AppConfig {
    pub general: GeneralConfig,
    pub auth: AuthConfig,
    pub discord: DiscordConfig,
    pub appearance: AppearanceConfig,
    pub pane: PaneConfig,
    pub session: SessionConfig,
}

/// General settings.
#[derive(Debug, Clone)]
pub struct GeneralConfig {
    pub timestamp_format: String,
    pub message_cache_size: u32,
    pub show_typing_indicator: bool,
    pub desktop_notifications: bool,
    pub render_fps: u32,
}

/// Where the token comes from.
#[derive(Debug, Clone)]
pub struct AuthConfig {
    pub token_source: String,
    pub token_file: Option<String>,
}

/// What the client presents itself as to Discord.
#[derive(Debug, Clone)]
pub struct DiscordConfig {
    pub client_build_number: u64,
    pub browser_version: String,
    pub browser_user_agent: String,
}

/// Look of the interface.
#[derive(Debug, Clone)]
pub struct AppearanceConfig {
    pub theme: String,
    pub show_sidebar: bool,
    pub sidebar_width: u16,
    pub message_date_separator: bool,
}

/// Pane settings.
#[derive(Debug, Clone)]
pub struct PaneConfig {
    pub prefix_key: String,
    pub border_style: String,
    pub active_border_color: String,
    pub inactive_border_color: String,
    pub show_pane_title: bool,
}

/// Session persistence settings.
#[derive(Debug, Clone, Copy, PartialEq, Eq, Structural)]
pub struct SessionConfig {
    pub auto_save: bool,
    pub restore_on_start: bool,
}

/// The user agent of the browser the client presents itself as.
pub open spec fn default_user_agent() -> Seq<char> {
    "Mozilla/5.0 (Macintosh; Intel Mac OS X 10_15_7) AppleWebKit/537.36 (KHTML, like Gecko) Chrome/131.0.0.0 Safari/537.36"@
}

/// Default timestamp format.
pub fn default_timestamp_format() -> (r: String)
    ensures
        r@ == "%H:%M"@,
{
    String::from_str("%H:%M")
}

/// Default number of cached messages.
pub fn default_message_cache_size() -> (r: u32)
    ensures
        r == 10000,
{
    10000
}

/// Default for the flags that are on unless configured otherwise.
pub fn default_true() -> (r: bool)
    ensures
        r,
{
    true
}

/// Default frames per second.
pub fn default_render_fps() -> (r: u32)
    ensures
        r == 60,
{
    60
}

/// Default token source.
pub fn default_token_source() -> (r: String)
    ensures
        r@ == "keyring"@,
{
    String::from_str("keyring")
}

/// Default client build number.
pub fn default_client_build_number() -> (r: u64)
    ensures
        r == 346892,
{
    346892
}

/// Default browser version.
pub fn default_browser_version() -> (r: String)
    ensures
        r@ == "131.0.0.0"@,
{
    String::from_str("131.0.0.0")
}

/// Default browser user agent.
pub fn default_browser_user_agent() -> (r: String)
    ensures
        r@ == default_user_agent(),
{
    String::from_str(
        "Mozilla/5.0 (Macintosh; Intel Mac OS X 10_15_7) AppleWebKit/537.36 (KHTML, like Gecko) Chrome/131.0.0.0 Safari/537.36",
    )
}

/// Default theme.
pub fn default_theme() -> (r: String)
    ensures
        r@ == "default"@,
{
    String::from_str("default")
}

/// Default sidebar width.
pub fn default_sidebar_width() -> (r: u16)
    ensures
        r == 24,
{
    24
}

/// Default pane prefix key.
pub fn default_prefix_key() -> (r: String)
    ensures
        r@ == "Ctrl+b"@,
{
    String::from_str("Ctrl+b")
}

/// Default border style.
pub fn default_border_style() -> (r: String)
    ensures
        r@ == "rounded"@,
{
    String::from_str("rounded")
}

/// Default border color of the focused pane.
pub fn default_active_border_color() -> (r: String)
    ensures
        r@ == "cyan"@,
{
    String::from_str("cyan")
}

/// Default border color of the other panes.
pub fn default_inactive_border_color() -> (r: String)
    ensures
        r@ == "gray"@,
{
    String::from_str("gray")
}

impl GeneralConfig {
    /// Whether this holds the default general settings.
    pub open spec fn is_default(&self) -> bool {
        &&& self.timestamp_format@ == "%H:%M"@
        &&& self.message_cache_size == 10000
        &&& self.show_typing_indicator
        &&& self.desktop_notifications
        &&& self.render_fps == 60
    }
}

impl Default for GeneralConfig {
    fn default() -> (c: Self)
        ensures
            c.is_default(),
    {
        GeneralConfig {
            timestamp_format: default_timestamp_format(),
            message_cache_size: default_message_cache_size(),
            show_typing_indicator: true,
            desktop_notifications: true,
            render_fps: default_render_fps(),
        }
    }
}

impl AuthConfig {
    /// Whether this holds the default auth settings.
    pub open spec fn is_default(&self) -> bool {
        self.token_source@ == "keyring"@ && self.token_file is None
    }
}

impl Default for AuthConfig {
    fn default() -> (c: Self)
        ensures
            c.is_default(),
    {
        AuthConfig { token_source: default_token_source(), token_file: None }
    }
}

impl DiscordConfig {
    /// Whether this holds the default client identity.
    pub open spec fn is_default(&self) -> bool {
        &&& self.client_build_number == 346892
        &&& self.browser_version@ == "131.0.0.0"@
        &&& self.browser_user_agent@ == default_user_agent()
    }
}

impl Default for DiscordConfig {
    fn default() -> (c: Self)
        ensures
            c.is_default(),
    {
        DiscordConfig {
            client_build_number: default_client_build_number(),
            browser_version: default_browser_version(),
            browser_user_agent: default_browser_user_agent(),
        }
    }
}

impl AppearanceConfig {
    /// Whether this holds the default appearance.
    pub open spec fn is_default(&self) -> bool {
        &&& self.theme@ == "default"@
        &&& self.show_sidebar
        &&& self.sidebar_width == 24
        &&& self.message_date_separator
    }
}

impl Default for AppearanceConfig {
    fn default() -> (c: Self)
        ensures
            c.is_default(),
    {
        AppearanceConfig {
            theme: default_theme(),
            show_sidebar: true,
            sidebar_width: default_sidebar_width(),
            message_date_separator: true,
        }
    }
}

impl PaneConfig {
    /// Whether this holds the default pane settings.
    pub open spec fn is_default(&self) -> bool {
        &&& self.prefix_key@ == "Ctrl+b"@
        &&& self.border_style@ == "rounded"@
        &&& self.active_border_color@ == "cyan"@
        &&& self.inactive_border_color@ == "gray"@
        &&& self.show_pane_title
    }
}

impl Default for PaneConfig {
    fn default() -> (c: Self)
        ensures
            c.is_default(),
    {
        PaneConfig {
            prefix_key: default_prefix_key(),
            border_style: default_border_style(),
            active_border_color: default_active_border_color(),
            inactive_border_color: default_inactive_border_color(),
            show_pane_title: true,
        }
    }
}

impl Default for SessionConfig {
    fn default() -> (c: Self)
        ensures
            c.auto_save && c.restore_on_start,
    {
        SessionConfig { auto_save: true, restore_on_start: true }
    }
}

impl AppConfig {
    /// Whether every section holds its defaults.
    pub open spec fn is_default(&self) -> bool {
        &&& self.general.is_default()
        &&& self.auth.is_default()
        &&& self.discord.is_default()
        &&& self.appearance.is_default()
        &&& self.pane.is_default()
        &&& self.session.auto_save && self.session.restore_on_start
    }
}

impl Default for AppConfig {
    fn default() -> (c: Self)
        ensures
            c.is_default(),
    {
        AppConfig {
            general: GeneralConfig::default(),
            auth: AuthConfig::default(),
            discord: DiscordConfig::default(),
            appearance: AppearanceConfig::default(),
            pane: PaneConfig::default(),
            session: SessionConfig::default(),
        }
    }
}

/// The path of `name` inside the directory `dir`: joined with one `/`, as a relative path
/// component is pushed onto a directory path.
pub open spec fn join_path(dir: Seq<char>, name: Seq<char>) -> Seq<char> {
    if dir.len() == 0 || dir.last() == '/' {
        dir + name
    } else {
        dir + seq!['/'] + name
    }
}

/// Joins a relative `name` onto the directory `dir`.
pub fn join(dir: &str, name: &str) -> (r: String)
    ensures
        r@ == join_path(dir@, name@),
{
    let d = crate::text::chars_of(dir);
    if d.len() == 0 || d[d.len() - 1] == '/' {
        concat_str(dir, name)
    } else {
        let with_sep = concat_str(dir, "/");
        proof {
            reveal_strlit("/");
            assert("/"@ =~= seq!['/']);
        }
        concat_str(with_sep.as_str(), name)
    }
}

/// The name of the application's directory under each base directory.
pub open spec fn app_dir_name() -> Seq<char> {
    "discordinator"@
}

/// The application's directories (configuration, data, cache).
#[derive(Debug, Clone)]
pub struct AppDirs {
    pub config_dir: String,
    pub data_dir: String,
    pub cache_dir: String,
}

/// The base directory for configuration files, from the `dirs` crate. Trusted: it depends on the
/// platform and the environment, so nothing is claimed of it; a path that is not valid UTF-8
/// is read lossily.
#[verifier::external_body]
fn base_config_dir() -> Option<String> {
    dirs::config_dir().map(|p| p.to_string_lossy().into_owned())
}

/// The base directory for data files, from the `dirs` crate. Trusted: it depends on the platform
/// and the environment, so nothing is claimed of it; a path that is not valid UTF-8 is
/// read lossily.
#[verifier::external_body]
fn base_data_dir() -> Option<String> {
    dirs::data_dir().map(|p| p.to_string_lossy().into_owned())
}

/// The base directory for cache files, from the `dirs` crate. Trusted: it depends on the
/// platform and the environment, so nothing is claimed of it; a path that is not valid UTF-8
/// is read lossily.
#[verifier::external_body]
fn base_cache_dir() -> Option<String> {
    dirs::cache_dir().map(|p| p.to_string_lossy().into_owned())
}

impl AppDirs {
    /// The directories of the application under the given base directories, or the error for
    /// the first base directory that is missing.
    pub fn from_bases(
        config_base: Option<String>,
        data_base: Option<String>,
        cache_base: Option<String>,
    ) -> (r: Result<AppDirs, String>)
        ensures
            match r {
                Ok(d) => config_base is Some && data_base is Some && cache_base is Some
                    && d.config_dir@ == join_path(config_base->0@, app_dir_name())
                    && d.data_dir@ == join_path(data_base->0@, app_dir_name())
                    && d.cache_dir@ == join_path(cache_base->0@, app_dir_name()),
                Err(e) => if config_base is None {
                    e@ == "Could not determine config directory"@
                } else if data_base is None {
                    e@ == "Could not determine data directory"@
                } else {
                    cache_base is None && e@ == "Could not determine cache directory"@
                },
            },
    {
        let config_dir = match config_base {
            Some(b) => join(b.as_str(), "discordinator"),
            None => {
                return Err(String::from_str("Could not determine config directory"));
            },
        };
        let data_dir = match data_base {
            Some(b) => join(b.as_str(), "discordinator"),
            None => {
                return Err(String::from_str("Could not determine data directory"));
            },
        };
        let cache_dir = match cache_base {
            Some(b) => join(b.as_str(), "discordinator"),
            None => {
                return Err(String::from_str("Could not determine cache directory"));
            },
        };
        Ok(AppDirs { config_dir, data_dir, cache_dir })
    }

    /// Resolves the platform's directories for the application: each is the platform's base
    /// directory of its kind joined with the application's name; when the platform has no base
    /// directory of a kind, the error names the first such kind.
    pub fn new() -> (r: Result<AppDirs, String>)
        ensures
            r matches Ok(d) ==> d.config_dir@.len() >= app_dir_name().len()
                && d.config_dir@.subrange(
                d.config_dir@.len() - app_dir_name().len(),
                d.config_dir@.len() as int,
            ) == app_dir_name(),
            r matches Ok(d) ==> exists|c: Seq<char>, a: Seq<char>, h: Seq<char>|
                d.config_dir@ == join_path(c, app_dir_name()) && d.data_dir@ == join_path(
                    a,
                    app_dir_name(),
                ) && d.cache_dir@ == join_path(h, app_dir_name()),
            r matches Err(e) ==> e@ == "Could not determine config directory"@ || e@
                == "Could not determine data directory"@ || e@
                == "Could not determine cache directory"@,
    {
        let r = AppDirs::from_bases(base_config_dir(), base_data_dir(), base_cache_dir());
        proof {
            if r is Ok {
                let d = r->Ok_0;
                let b = d.config_dir@;
                assert(b.subrange(b.len() - app_dir_name().len(), b.len() as int) =~= app_dir_name());
            }
        }
        r
    }

    /// Config file path.
    pub fn config_file(&self) -> (r: String)
        ensures
            r@ == join_path(self.config_dir@, "config.toml"@),
    {
        join(self.config_dir.as_str(), "config.toml")
    }

    /// Database file path.
    pub fn database_file(&self) -> (r: String)
        ensures
            r@ == join_path(self.data_dir@, "messages.db"@),
    {
        join(self.data_dir.as_str(), "messages.db")
    }

    /// Log directory path.
    pub fn log_dir(&self) -> (r: String)
        ensures
            r@ == join_path(self.data_dir@, "logs"@),
    {
        join(self.data_dir.as_str(), "logs")
    }
}

} // verus!
