//! Where the shared store lives: an explicit override (made absolute against
//! the working directory), else the platform's place for application state.

use vstd::prelude::*;
use crate::path::{is_absolute, is_absolute_spec, join, join_spec, lemma_join_keeps_absolute, prefix_len, PathStyle};
use crate::text::{one, opt_text, texts, two};

verus! {

broadcast use vstd::string::group_string_axioms;

/// The directory name of the store inside the platform's application directory.
pub const APP_STORAGE_DIR: &'static str = "nodus";

/// The platform families whose conventions for application state differ.
#[derive(Clone, Copy, Debug, PartialEq, Eq, Structural)]
pub enum Platform {
    MacOs,
    Windows,
    Unix,
}

/// What the process environment tells about where the store may live.
pub struct StoreEnvironment {
    pub platform: Platform,
    /// The working directory, or why it could not be determined.
    pub current_dir: Result<String, String>,
    pub home: Option<String>,
    pub xdg_state_home: Option<String>,
    pub local_app_data: Option<String>,
    pub app_data: Option<String>,
}

/// Why no store root could be determined.
#[derive(Debug)]
pub enum CacheError {
    /// The working directory is unknown; the cause as the system gave it.
    CurrentDir { cause: String },
    /// There is no home directory.
    MissingHome,
    /// Neither `LOCALAPPDATA` nor `APPDATA` is set.
    MissingAppData,
}

pub enum CacheErrorView {
    CurrentDir { cause: Seq<char> },
    MissingHome,
    MissingAppData,
}

impl View for CacheError {
    type V = CacheErrorView;

    open spec fn view(&self) -> CacheErrorView {
        match self {
            CacheError::CurrentDir { cause } => CacheErrorView::CurrentDir { cause: cause@ },
            CacheError::MissingHome => CacheErrorView::MissingHome,
            CacheError::MissingAppData => CacheErrorView::MissingAppData,
        }
    }
}

/// The messages of a store-root error, outermost first.
pub open spec fn cache_error_chain(e: CacheErrorView) -> Seq<Seq<char>> {
    match e {
        CacheErrorView::CurrentDir { cause } => seq![
            "failed to determine the current directory"@,
            cause,
        ],
        CacheErrorView::MissingHome => seq![
            "failed to determine the home directory for the default storage path"@,
        ],
        CacheErrorView::MissingAppData => seq![
            "failed to determine the default local application data path on Windows"@,
        ],
    }
}

impl CacheError {
    /// The error's messages, outermost first, as an error report shows them.
    pub fn chain(&self) -> (r: Vec<String>)
        ensures
            texts(r@) == cache_error_chain(self@),
    {
        match self {
            CacheError::CurrentDir { cause } => two(
                "failed to determine the current directory".to_string(),
                cause.clone(),
            ),
            CacheError::MissingHome => one(
                "failed to determine the home directory for the default storage path".to_string(),
            ),
            CacheError::MissingAppData => one(
                "failed to determine the default local application data path on Windows".to_string(),
            ),
        }
    }
}

/// The store root on Linux and other Unix systems: below an absolute
/// `XDG_STATE_HOME`, else below `~/.local/state`.
pub open spec fn unix_root_spec(home: Seq<char>, xdg_state_home: Option<Seq<char>>) -> Seq<char> {
    match xdg_state_home {
        Some(x) if is_absolute_spec(PathStyle::Posix, x) => join_spec(PathStyle::Posix, x, "nodus"@),
        _ => join_spec(
            PathStyle::Posix,
            join_spec(PathStyle::Posix, join_spec(PathStyle::Posix, home, ".local"@), "state"@),
            "nodus"@,
        ),
    }
}

/// The store root on macOS: `~/Library/Application Support/nodus`.
pub open spec fn macos_root_spec(home: Seq<char>) -> Seq<char> {
    join_spec(
        PathStyle::Posix,
        join_spec(PathStyle::Posix, join_spec(PathStyle::Posix, home, "Library"@), "Application Support"@),
        "nodus"@,
    )
}

/// The store root on Windows: below `LOCALAPPDATA`, else below `APPDATA`.
pub open spec fn windows_root_spec(local: Option<Seq<char>>, roaming: Option<Seq<char>>) -> Option<
    Seq<char>,
> {
    match (local, roaming) {
        (Some(l), _) => Some(join_spec(PathStyle::Windows, l, "nodus"@)),
        (None, Some(a)) => Some(join_spec(PathStyle::Windows, a, "nodus"@)),
        (None, None) => None,
    }
}

/// The store root for a Unix home directory and `XDG_STATE_HOME`; a relative
/// `XDG_STATE_HOME` is ignored.
pub fn default_unix_store_root(home: &str, xdg_state_home: Option<&str>) -> (r: String)
    ensures
        r@ == unix_root_spec(
            home@,
            match xdg_state_home {
                Some(x) => Some(x@),
                None => None,
            },
        ),
{
    if let Some(path) = xdg_state_home {
        if is_absolute(PathStyle::Posix, path) {
            return join(PathStyle::Posix, path, APP_STORAGE_DIR);
        }
    }
    let local = join(PathStyle::Posix, home, ".local");
    let state = join(PathStyle::Posix, local.as_str(), "state");
    join(PathStyle::Posix, state.as_str(), APP_STORAGE_DIR)
}

/// The store root for a macOS home directory.
pub fn default_macos_store_root(home: &str) -> (r: String)
    ensures
        r@ == macos_root_spec(home@),
{
    let library = join(PathStyle::Posix, home, "Library");
    let support = join(PathStyle::Posix, library.as_str(), "Application Support");
    join(PathStyle::Posix, support.as_str(), APP_STORAGE_DIR)
}

/// The store root for the Windows application data directories.
pub fn default_windows_store_root(local_app_data: Option<&str>, app_data: Option<&str>) -> (r:
    Option<String>)
    ensures
        opt_text(r) == windows_root_spec(
            match local_app_data {
                Some(x) => Some(x@),
                None => None,
            },
            match app_data {
                Some(x) => Some(x@),
                None => None,
            },
        ),
{
    if let Some(local) = local_app_data {
        return Some(join(PathStyle::Windows, local, APP_STORAGE_DIR));
    }
    if let Some(roaming) = app_data {
        return Some(join(PathStyle::Windows, roaming, APP_STORAGE_DIR));
    }
    None
}

/// The path rules of a platform.
pub open spec fn platform_style(p: Platform) -> PathStyle {
    match p {
        Platform::Windows => PathStyle::Windows,
        _ => PathStyle::Posix,
    }
}

/// The path rules of a platform.
pub fn style_of(p: Platform) -> (r: PathStyle)
    ensures
        r == platform_style(p),
{
    match p {
        Platform::Windows => PathStyle::Windows,
        _ => PathStyle::Posix,
    }
}

/// The platform's default store root.
pub open spec fn default_root_spec(env: StoreEnvironmentView) -> Result<Seq<char>, CacheErrorView> {
    match env.platform {
        Platform::MacOs => match env.home {
            Some(h) => Ok(macos_root_spec(h)),
            None => Err(CacheErrorView::MissingHome),
        },
        Platform::Windows => match windows_root_spec(env.local_app_data, env.app_data) {
            Some(r) => Ok(r),
            None => Err(CacheErrorView::MissingAppData),
        },
        Platform::Unix => match env.home {
            Some(h) => Ok(unix_root_spec(h, env.xdg_state_home)),
            None => Err(CacheErrorView::MissingHome),
        },
    }
}

pub struct StoreEnvironmentView {
    pub platform: Platform,
    pub current_dir: Result<Seq<char>, Seq<char>>,
    pub home: Option<Seq<char>>,
    pub xdg_state_home: Option<Seq<char>>,
    pub local_app_data: Option<Seq<char>>,
    pub app_data: Option<Seq<char>>,
}

impl View for StoreEnvironment {
    type V = StoreEnvironmentView;

    open spec fn view(&self) -> StoreEnvironmentView {
        StoreEnvironmentView {
            platform: self.platform,
            current_dir: match self.current_dir {
                Ok(d) => Ok(d@),
                Err(e) => Err(e@),
            },
            home: opt_text(self.home),
            xdg_state_home: opt_text(self.xdg_state_home),
            local_app_data: opt_text(self.local_app_data),
            app_data: opt_text(self.app_data),
        }
    }
}

/// The store root: the override made absolute against the working directory,
/// else the platform's default.
pub open spec fn store_root_spec(override_path: Option<Seq<char>>, env: StoreEnvironmentView) -> Result<
    Seq<char>,
    CacheErrorView,
> {
    match override_path {
        Some(p) => if is_absolute_spec(platform_style(env.platform), p) {
            Ok(p)
        } else {
            match env.current_dir {
                Ok(cwd) => Ok(join_spec(platform_style(env.platform), cwd, p)),
                Err(cause) => Err(CacheErrorView::CurrentDir { cause }),
            }
        },
        None => default_root_spec(env),
    }
}

fn default_store_root(env: &StoreEnvironment) -> (r: Result<String, CacheError>)
    ensures
        match r {
            Ok(p) => default_root_spec(env@) == Ok::<Seq<char>, CacheErrorView>(p@),
            Err(e) => default_root_spec(env@) == Err::<Seq<char>, CacheErrorView>(e@),
        },
{
    match env.platform {
        Platform::MacOs => match &env.home {
            Some(h) => Ok(default_macos_store_root(h.as_str())),
            None => Err(CacheError::MissingHome),
        },
        Platform::Windows => {
            let local = match &env.local_app_data {
                Some(l) => Some(l.as_str()),
                None => None,
            };
            let roaming = match &env.app_data {
                Some(a) => Some(a.as_str()),
                None => None,
            };
            match default_windows_store_root(local, roaming) {
                Some(r) => Ok(r),
                None => Err(CacheError::MissingAppData),
            }
        },
        Platform::Unix => match &env.home {
            Some(h) => {
                let xdg = match &env.xdg_state_home {
                    Some(x) => Some(x.as_str()),
                    None => None,
                };
                Ok(default_unix_store_root(h.as_str(), xdg))
            },
            None => Err(CacheError::MissingHome),
        },
    }
}

/// Where the store lives.
pub fn resolve_store_root(override_path: Option<&str>, env: &StoreEnvironment) -> (r: Result<
    String,
    CacheError,
>)
    ensures
        match r {
            Ok(p) => store_root_spec(
                match override_path {
                    Some(x) => Some(x@),
                    None => None,
                },
                env@,
            ) == Ok::<Seq<char>, CacheErrorView>(p@),
            Err(e) => store_root_spec(
                match override_path {
                    Some(x) => Some(x@),
                    None => None,
                },
                env@,
            ) == Err::<Seq<char>, CacheErrorView>(e@),
        },
{
    match override_path {
        Some(path) => {
            let style = style_of(env.platform);
            if is_absolute(style, path) {
                return Ok(path.to_string());
            }
            match &env.current_dir {
                Ok(cwd) => Ok(join(style, cwd.as_str(), path)),
                Err(cause) => Err(CacheError::CurrentDir { cause: cause.clone() }),
            }
        },
        None => default_store_root(env),
    }
}

/// An override that is absolute under the platform's rules is the store
/// root as it is, whatever the working directory.
pub proof fn lemma_absolute_override_is_kept(p: Seq<char>, env: StoreEnvironmentView)
    requires
        is_absolute_spec(platform_style(env.platform), p),
    ensures
        store_root_spec(Some(p), env) == Ok::<Seq<char>, CacheErrorView>(p),
{
}

/// With an absolute working directory, every override resolves to an
/// absolute store root, except a Windows override that names a drive
/// without a root (such as `D:store`), which `join` keeps as it is.
pub proof fn lemma_override_resolves_absolute(p: Seq<char>, env: StoreEnvironmentView)
    requires
        env.current_dir matches Ok(cwd) && is_absolute_spec(platform_style(env.platform), cwd),
        prefix_len(platform_style(env.platform), p) == 0 || is_absolute_spec(
            platform_style(env.platform),
            p,
        ),
    ensures
        store_root_spec(Some(p), env) matches Ok(r) && is_absolute_spec(
            platform_style(env.platform),
            r,
        ),
{
    if let Ok(cwd) = env.current_dir {
        lemma_join_keeps_absolute(platform_style(env.platform), cwd, p);
    }
}

/// Without an override, the store root is the platform's place for
/// application state: `~/Library/Application Support/nodus` on macOS,
/// `$XDG_STATE_HOME/nodus` (when absolute) or `~/.local/state/nodus` on
/// other Unix systems, and `nodus` below `LOCALAPPDATA`, else `APPDATA`, on
/// Windows.
pub proof fn lemma_default_root_by_platform(env: StoreEnvironmentView)
    ensures
        match env.home {
            Some(h) => (env.platform == Platform::MacOs ==> store_root_spec(None, env)
            == Ok::<Seq<char>, CacheErrorView>(
            join_spec(
                PathStyle::Posix,
                join_spec(
                    PathStyle::Posix,
                    join_spec(PathStyle::Posix, h, "Library"@),
                    "Application Support"@,
                ),
                "nodus"@,
            ),
        )) && (env.platform == Platform::Unix ==> store_root_spec(None, env)
            == Ok::<Seq<char>, CacheErrorView>(
            match env.xdg_state_home {
                Some(x) if is_absolute_spec(PathStyle::Posix, x) => join_spec(
                    PathStyle::Posix,
                    x,
                    "nodus"@,
                ),
                _ => join_spec(
                    PathStyle::Posix,
                    join_spec(
                        PathStyle::Posix,
                        join_spec(PathStyle::Posix, h, ".local"@),
                        "state"@,
                    ),
                    "nodus"@,
                ),
            },
        )),
            None => true,
        },
        env.platform != Platform::Windows && env.home is None ==> store_root_spec(None, env)
            == Err::<Seq<char>, CacheErrorView>(CacheErrorView::MissingHome),
        env.platform == Platform::Windows ==> store_root_spec(None, env) == match (
            env.local_app_data,
            env.app_data,
        ) {
            (Some(l), _) => Ok::<Seq<char>, CacheErrorView>(join_spec(PathStyle::Windows, l, "nodus"@)),
            (None, Some(a)) => Ok(join_spec(PathStyle::Windows, a, "nodus"@)),
            (None, None) => Err(CacheErrorView::MissingAppData),
        },
{
}

} // verus!
