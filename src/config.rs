//! Settings of the launcher: the built-in defaults and how the values read
//! from the user's configuration file override them. Reading and parsing
//! the file is up to the caller.
use vstd::prelude::*;
use crate::text::{after_prefix, has_prefix, strip_prefix, views_of, str_eq, chars_of};

verus! {

/// Default window width in pixels.
pub const DEFAULT_WINDOW_WIDTH: i32 = 640;
/// Default window height in pixels.
pub const DEFAULT_WINDOW_HEIGHT: i32 = 480;
/// Default maximum number of results shown.
pub const DEFAULT_MAX_RESULTS: usize = 64;
/// The calculator is off unless enabled.
pub const DEFAULT_CALCULATOR: bool = false;
/// Default debounce of colon commands, in milliseconds.
pub const DEFAULT_COMMAND_DEBOUNCE_MS: u32 = 300;

/// The directories scanned for desktop entries unless configured.
pub open spec fn default_dirs() -> Seq<Seq<char>> {
    seq![
        "/usr/share/applications"@,
        "/usr/local/share/applications"@,
        "~/.local/share/applications"@,
        "/var/lib/flatpak/exports/share/applications"@,
        "~/.local/share/flatpak/exports/share/applications"@,
    ]
}

/// The directories scanned for desktop entries unless configured, with `~`
/// not yet expanded.
pub fn default_app_dirs() -> (r: Vec<String>)
    ensures
        views_of(r@) == default_dirs(),
{
    let r = vec![
        "/usr/share/applications".to_owned(),
        "/usr/local/share/applications".to_owned(),
        "~/.local/share/applications".to_owned(),
        "/var/lib/flatpak/exports/share/applications".to_owned(),
        "~/.local/share/flatpak/exports/share/applications".to_owned(),
    ];
    assert(views_of(r@) =~= default_dirs());
    r
}

/// `rest` appended to the path `base` as a path component: an absolute
/// `rest` replaces `base`, and a `/` separates the two when `base` is
/// non-empty and does not end with one.
pub open spec fn join_path(base: Seq<char>, rest: Seq<char>) -> Seq<char> {
    if rest.len() > 0 && rest[0] == '/' {
        rest
    } else if base.len() == 0 {
        rest
    } else if base.last() == '/' {
        base + rest
    } else {
        base + seq!['/'] + rest
    }
}

/// The path with a leading `~` standing for `home`.
pub open spec fn expanded(path: Seq<char>, home: Seq<char>) -> Seq<char> {
    if has_prefix(path, "~/"@) {
        join_path(home, after_prefix(path, "~/"@))
    } else if path == "~"@ {
        home
    } else {
        path
    }
}

/// `rest` appended to the path `base` (`Path::join`).
pub fn join(base: &str, rest: &str) -> (r: String)
    ensures
        r@ == join_path(base@, rest@),
{
    let rc = chars_of(rest);
    let bc = chars_of(base);
    if rc.len() > 0 && rc[0] == '/' {
        rest.to_owned()
    } else if bc.len() == 0 {
        rest.to_owned()
    } else if bc[bc.len() - 1] == '/' {
        let mut s = base.to_owned();
        s.append(rest);
        s
    } else {
        let mut s = base.to_owned();
        s.append("/");
        s.append(rest);
        proof { reveal_strlit("/"); }
        assert(s@ =~= base@ + seq!['/'] + rest@);
        s
    }
}

/// Replaces a leading `~/` or a lone `~` by the home directory `home`.
pub fn expand_home(path: &str, home: &str) -> (r: String)
    ensures
        r@ == expanded(path@, home@),
{
    match strip_prefix(path, "~/") {
        Some(rest) => join(home, rest),
        None => {
            if str_eq(path, "~") {
                home.to_owned()
            } else {
                path.to_owned()
            }
        },
    }
}

/// Settings of the vault integration.
#[derive(Debug, Clone, Default)]
pub struct ObsidianConfig {
    /// Path of the vault (`~` allowed).
    pub vault: String,
    /// Folder of the daily notes, inside the vault.
    pub daily_notes_folder: String,
    /// Folder of new notes, inside the vault.
    pub new_notes_folder: String,
    /// File of the quick note, inside the vault.
    pub quick_note: String,
}

/// The settings of the launcher.
#[derive(Debug, Clone)]
pub struct Config {
    pub window_width: i32,
    pub window_height: i32,
    pub max_results: usize,
    /// Directories scanned for desktop entries, `~` expanded.
    pub app_dirs: Vec<String>,
    pub calculator: bool,
    /// Colon commands: name and shell template.
    pub commands: Vec<(String, String)>,
    pub obsidian: Option<ObsidianConfig>,
    pub command_debounce_ms: u32,
    /// Identities of the search backends to leave out.
    pub search_provider_blacklist: Vec<String>,
}

/// The values that the configuration file sets; `None` for what it leaves out.
pub struct FileSettings {
    pub window_width: Option<i32>,
    pub window_height: Option<i32>,
    pub max_results: Option<usize>,
    pub app_dirs: Option<Vec<String>>,
    pub command_debounce_ms: Option<u32>,
    pub provider_blacklist: Option<Vec<String>>,
    pub calculator: Option<bool>,
    pub commands: Option<Vec<(String, String)>>,
    pub obsidian: Option<ObsidianConfig>,
}

/// Each directory with `~` expanded.
pub open spec fn expanded_all(dirs: Seq<Seq<char>>, home: Seq<char>) -> Seq<Seq<char>> {
    dirs.map_values(|d: Seq<char>| expanded(d, home))
}

fn expand_all(dirs: &Vec<String>, home: &str) -> (r: Vec<String>)
    ensures
        views_of(r@) == expanded_all(views_of(dirs@), home@),
{
    let mut r: Vec<String> = Vec::new();
    let mut i: usize = 0;
    while i < dirs.len()
        invariant
            i <= dirs.len(),
            views_of(r@) == expanded_all(views_of(dirs@), home@).subrange(0, i as int),
        decreases dirs.len() - i,
    {
        let d = expand_home(dirs[i].as_str(), home);
        let ghost before = r@;
        r.push(d);
        assert(views_of(dirs@)[i as int] == dirs@[i as int]@);
        assert(views_of(r@) =~= views_of(before).push(d@));
        assert(views_of(r@) =~= expanded_all(views_of(dirs@), home@).subrange(0, i + 1));
        i = i + 1;
    }
    assert(expanded_all(views_of(dirs@), home@).subrange(0, dirs@.len() as int) =~= expanded_all(views_of(dirs@), home@));
    r
}

/// The (name, template) texts of colon commands.
pub open spec fn command_texts(c: Seq<(String, String)>) -> Seq<(Seq<char>, Seq<char>)> {
    c.map_values(|p: (String, String)| (p.0@, p.1@))
}

/// The built-in colon commands: `f` searches file names, `fg` file contents.
pub open spec fn default_command_texts() -> Seq<(Seq<char>, Seq<char>)> {
    seq![
        ("f"@, "plocate -i -- \"$1\" 2>/dev/null | grep \"^$HOME/\" | head -20"@),
        ("fg"@, "rg --with-filename --line-number --no-heading -S \"$1\" ~ 2>/dev/null | head -20"@),
    ]
}

/// The built-in colon commands.
fn default_commands() -> (r: Vec<(String, String)>)
    ensures
        command_texts(r@) == default_command_texts(),
{
    let r = vec![
        ("f".to_owned(), "plocate -i -- \"$1\" 2>/dev/null | grep \"^$HOME/\" | head -20".to_owned()),
        (
            "fg".to_owned(),
            "rg --with-filename --line-number --no-heading -S \"$1\" ~ 2>/dev/null | head -20".to_owned(),
        ),
    ];
    assert(command_texts(r@) =~= default_command_texts());
    r
}

impl Config {
    /// The built-in settings, with the default directories expanded
    /// against `home`.
    pub fn defaults(home: &str) -> (r: Config)
        ensures
            r.window_width == DEFAULT_WINDOW_WIDTH,
            r.window_height == DEFAULT_WINDOW_HEIGHT,
            r.max_results == DEFAULT_MAX_RESULTS,
            views_of(r.app_dirs@) == expanded_all(default_dirs(), home@),
            r.calculator == DEFAULT_CALCULATOR,
            command_texts(r.commands@) == default_command_texts(),
            r.obsidian is None,
            r.command_debounce_ms == DEFAULT_COMMAND_DEBOUNCE_MS,
            r.search_provider_blacklist@.len() == 0,
    {
        let dirs = default_app_dirs();
        Config {
            window_width: DEFAULT_WINDOW_WIDTH,
            window_height: DEFAULT_WINDOW_HEIGHT,
            max_results: DEFAULT_MAX_RESULTS,
            app_dirs: expand_all(&dirs, home),
            calculator: DEFAULT_CALCULATOR,
            commands: default_commands(),
            obsidian: None,
            command_debounce_ms: DEFAULT_COMMAND_DEBOUNCE_MS,
            search_provider_blacklist: Vec::new(),
        }
    }
}

/// The built-in settings overridden by those of the configuration file:
/// sizes and the result cap only when positive, directories expanded
/// against `home`; commands and vault settings replace the defaults.
pub fn apply_settings(s: FileSettings, home: &str) -> (r: Config)
    ensures
        r.window_width == match s.window_width {
            Some(w) => if w > 0 { w } else { DEFAULT_WINDOW_WIDTH },
            None => DEFAULT_WINDOW_WIDTH,
        },
        r.window_height == match s.window_height {
            Some(h) => if h > 0 { h } else { DEFAULT_WINDOW_HEIGHT },
            None => DEFAULT_WINDOW_HEIGHT,
        },
        r.max_results == match s.max_results {
            Some(m) => if m > 0 { m } else { DEFAULT_MAX_RESULTS },
            None => DEFAULT_MAX_RESULTS,
        },
        views_of(r.app_dirs@) == match s.app_dirs {
            Some(d) => expanded_all(views_of(d@), home@),
            None => expanded_all(default_dirs(), home@),
        },
        r.command_debounce_ms == match s.command_debounce_ms {
            Some(d) => d,
            None => DEFAULT_COMMAND_DEBOUNCE_MS,
        },
        r.search_provider_blacklist@ == match s.provider_blacklist {
            Some(b) => b@,
            None => Seq::<String>::empty(),
        },
        r.calculator == match s.calculator {
            Some(c) => c,
            None => DEFAULT_CALCULATOR,
        },
        match s.commands {
            Some(c) => r.commands == c,
            None => command_texts(r.commands@) == default_command_texts(),
        },
        r.obsidian == s.obsidian,
{
    let mut cfg = Config::defaults(home);
    if let Some(w) = s.window_width {
        if w > 0 {
            cfg.window_width = w;
        }
    }
    if let Some(h) = s.window_height {
        if h > 0 {
            cfg.window_height = h;
        }
    }
    if let Some(m) = s.max_results {
        if m > 0 {
            cfg.max_results = m;
        }
    }
    if let Some(dirs) = s.app_dirs {
        cfg.app_dirs = expand_all(&dirs, home);
    }
    if let Some(d) = s.command_debounce_ms {
        cfg.command_debounce_ms = d;
    }
    if let Some(b) = s.provider_blacklist {
        cfg.search_provider_blacklist = b;
    } else {
        assert(cfg.search_provider_blacklist@ =~= Seq::<String>::empty());
    }
    if let Some(c) = s.calculator {
        cfg.calculator = c;
    }
    if let Some(c) = s.commands {
        cfg.commands = c;
    }
    cfg.obsidian = s.obsidian;
    cfg
}

} // verus!
