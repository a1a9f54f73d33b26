use vstd::prelude::*;

use crate::command::{is_placeholder, is_placeholder_arg};
use crate::util::{duration_secs, parse_duration, same_text, string_to_path, tilde_expansion};

verus! {

/// Order in which a playlist visits its images.
#[derive(Debug, Clone, Copy, PartialEq, Eq, Structural)]
pub enum ChangeMode {
    Sequential,
    Random,
}

/// How the daemon watches the configured files and directories for changes.
#[derive(Debug, Clone, Copy, PartialEq, Eq, Structural)]
pub enum WatchMode {
    Disabled,
    /// Rescan every given number of seconds.
    Poll(i64),
}

/// Settings shared by the daemon and its control client.
pub struct CommonConfig {
    pub endpoint: String,
}

/// One playlist after defaults have been resolved.
pub struct ValidatedPlaylist {
    pub files: Vec<String>,
    pub directories: Vec<String>,
    pub command: String,
    pub command_args: Vec<String>,
    pub mode: ChangeMode,
    /// Interval between automatic changes, in seconds.
    pub change_every: i64,
    pub trigger_on_select: bool,
    pub use_last_on_select: bool,
}

/// The daemon's configuration after validation.
pub struct ValidatedServerConfig {
    pub default_playlist: String,
    pub watch: WatchMode,
    /// Playlists in configuration order, each with its name.
    pub playlists: Vec<(String, ValidatedPlaylist)>,
    pub stats_db: Option<String>,
}

/// An interval as written in the configuration, in seconds.
#[derive(Debug, Clone, Copy, PartialEq, Eq, Structural)]
pub struct ParsedDuration(pub i64);

/// One playlist as the configuration file writes it; unset settings fall
/// back to the defaults.
pub struct Playlist {
    pub files: Vec<String>,
    pub directories: Vec<String>,
    pub command: Option<Vec<String>>,
    pub mode: Option<ChangeMode>,
    pub change_every: Option<ParsedDuration>,
    pub trigger_on_select: Option<bool>,
    pub use_last_on_select: Option<bool>,
}

/// Settings that apply to every playlist that does not set its own.
pub struct Defaults {
    pub command: Option<Vec<String>>,
    pub mode: Option<ChangeMode>,
    pub change_every: Option<ParsedDuration>,
    pub trigger_on_select: Option<bool>,
    pub use_last_on_select: Option<bool>,
}

/// The daemon's section of the configuration file.
pub struct ServerConfig {
    pub default_playlist: String,
    pub watch: Option<WatchMode>,
    pub defaults: Option<Defaults>,
    /// The playlists with their names, which are distinct.
    pub playlists: Vec<(String, Playlist)>,
    pub stats_db: Option<String>,
}

/// The configuration file.
pub struct Config {
    pub common: CommonConfig,
    pub server: ServerConfig,
}

/// The configuration after validation.
pub struct ValidatedConfig {
    pub common: CommonConfig,
    pub server: ValidatedServerConfig,
}

/// Why a configuration is refused. A playlist name says where; `None`
/// stands for the default command.
#[derive(Debug, Clone, PartialEq)]
pub enum ValidationError {
    UnknownDefaultPlaylist(String),
    EmptyCommand(Option<String>),
    MissingPlaceholder(Option<String>),
    NoCommand(String),
    NoMode(String),
    NoChangeInterval(String),
}

/// The interval at which playlists are rescanned when the configuration does not say.
pub const DEFAULT_WATCH_SECS: i64 = 30;

/// A mode as the configuration writes it: `sequential` or `random`.
pub fn parse_change_mode(s: &str) -> (r: Option<ChangeMode>)
    ensures
        r == (if s@ == "sequential"@ {
            Some(ChangeMode::Sequential)
        } else if s@ == "random"@ {
            Some(ChangeMode::Random)
        } else {
            None
        }),
{
    if same_text(s, "sequential") {
        Some(ChangeMode::Sequential)
    } else if same_text(s, "random") {
        Some(ChangeMode::Random)
    } else {
        None
    }
}

/// A watch setting as the configuration writes it: `disabled`, or the
/// interval at which to rescan.
pub fn parse_watch_mode(s: &str) -> (r: Option<WatchMode>)
    ensures
        r == (if s@ == "disabled"@ {
            Some(WatchMode::Disabled)
        } else {
            match duration_secs(s@) {
                Some(v) => Some(WatchMode::Poll(v as i64)),
                None => None,
            }
        }),
{
    if same_text(s, "disabled") {
        Some(WatchMode::Disabled)
    } else {
        match parse_duration(s) {
            Some(v) => Some(WatchMode::Poll(v)),
            None => None,
        }
    }
}

/// An interval as the configuration writes it.
pub fn parse_interval(s: &str) -> (r: Option<ParsedDuration>)
    ensures
        r == match duration_secs(s@) {
            Some(v) => Some(ParsedDuration(v as i64)),
            None => None,
        },
{
    match parse_duration(s) {
        Some(v) => Some(ParsedDuration(v)),
        None => None,
    }
}

pub open spec fn pick<T>(own: Option<T>, fallback: Option<T>) -> Option<T> {
    match own {
        Some(v) => Some(v),
        None => fallback,
    }
}

pub open spec fn or_true(b: Option<bool>) -> bool {
    match b {
        Some(v) => v,
        None => true,
    }
}

pub open spec fn default_command(d: Option<Defaults>) -> Option<Vec<String>> {
    match d {
        Some(d) => d.command,
        None => None,
    }
}

pub open spec fn default_mode(d: Option<Defaults>) -> Option<ChangeMode> {
    match d {
        Some(d) => d.mode,
        None => None,
    }
}

pub open spec fn default_change_every(d: Option<Defaults>) -> Option<ParsedDuration> {
    match d {
        Some(d) => d.change_every,
        None => None,
    }
}

pub open spec fn default_trigger_on_select(d: Option<Defaults>) -> Option<bool> {
    match d {
        Some(d) => d.trigger_on_select,
        None => None,
    }
}

pub open spec fn default_use_last_on_select(d: Option<Defaults>) -> Option<bool> {
    match d {
        Some(d) => d.use_last_on_select,
        None => None,
    }
}

/// What is wrong with a command template, if anything: it must name a
/// program and hold the placeholder.
pub open spec fn command_error(cmd: Seq<String>, playlist: Option<String>) -> Option<ValidationError> {
    if cmd.len() == 0 {
        Some(ValidationError::EmptyCommand(playlist))
    } else if forall|i: int| 0 <= i < cmd.len() ==> !is_placeholder(#[trigger] cmd[i]@) {
        Some(ValidationError::MissingPlaceholder(playlist))
    } else {
        None
    }
}

/// What is wrong with a playlist once defaults apply, if anything.
pub open spec fn playlist_error(name: String, p: Playlist, d: Option<Defaults>) -> Option<ValidationError> {
    match pick(p.command, default_command(d)) {
        None => Some(ValidationError::NoCommand(name)),
        Some(c) => match command_error(c@, Some(name)) {
            Some(e) => Some(e),
            None => if pick(p.mode, default_mode(d)) is None {
                Some(ValidationError::NoMode(name))
            } else if pick(p.change_every, default_change_every(d)) is None {
                Some(ValidationError::NoChangeInterval(name))
            } else {
                None
            },
        },
    }
}

/// The error of the first faulty playlist, in order.
pub open spec fn first_error(ps: Seq<(String, Playlist)>, d: Option<Defaults>) -> Option<ValidationError>
    decreases ps.len(),
{
    if ps.len() == 0 {
        None
    } else {
        match playlist_error(ps[0].0, ps[0].1, d) {
            Some(e) => Some(e),
            None => first_error(ps.drop_first(), d),
        }
    }
}

pub open spec fn paths_expanded(raw: Seq<String>, out: Seq<String>) -> bool {
    &&& out.len() == raw.len()
    &&& forall|i: int| 0 <= i < raw.len() ==> tilde_expansion(raw[i]@, (#[trigger] out[i])@)
}

/// Whether `v` is playlist `p` with the defaults `d` applied and its paths
/// expanded: the command's first word is the program, the rest its
/// arguments; the select settings default to true.
pub open spec fn resolved(p: Playlist, d: Option<Defaults>, v: ValidatedPlaylist) -> bool {
    let c = pick(p.command, default_command(d))->0@;
    &&& paths_expanded(p.files@, v.files@)
    &&& paths_expanded(p.directories@, v.directories@)
    &&& v.command == c[0]
    &&& v.command_args@ == c.drop_first()
    &&& v.mode == pick(p.mode, default_mode(d))->0
    &&& pick(p.change_every, default_change_every(d)) == Some(ParsedDuration(v.change_every))
    &&& v.trigger_on_select == or_true(pick(p.trigger_on_select, default_trigger_on_select(d)))
    &&& v.use_last_on_select == or_true(pick(p.use_last_on_select, default_use_last_on_select(d)))
}

fn copy_name(name: &Option<String>) -> (r: Option<String>)
    ensures
        r == *name,
{
    match name {
        Some(n) => Some(n.clone()),
        None => None,
    }
}

/// Checks a command template: it must name a program and hold the placeholder.
fn check_command(cmd: &Vec<String>, playlist: &Option<String>) -> (r: Option<ValidationError>)
    ensures
        r == command_error(cmd@, *playlist),
{
    if cmd.len() == 0 {
        return Some(ValidationError::EmptyCommand(copy_name(playlist)));
    }
    let mut i: usize = 0;
    while i < cmd.len()
        invariant
            i <= cmd.len(),
            forall|k: int| 0 <= k < i ==> !is_placeholder(#[trigger] cmd@[k]@),
        decreases cmd.len() - i,
    {
        if is_placeholder_arg(&cmd[i]) {
            return None;
        }
        i = i + 1;
    }
    Some(ValidationError::MissingPlaceholder(copy_name(playlist)))
}

fn expand_paths(raw: &Vec<String>) -> (r: Vec<String>)
    ensures
        paths_expanded(raw@, r@),
{
    let mut out: Vec<String> = Vec::new();
    let mut i: usize = 0;
    while i < raw.len()
        invariant
            i <= raw.len(),
            out@.len() == i,
            forall|k: int| 0 <= k < i ==> tilde_expansion(raw@[k]@, (#[trigger] out@[k])@),
        decreases raw.len() - i,
    {
        out.push(string_to_path(&raw[i]));
        i = i + 1;
    }
    out
}

/// Applies the defaults to one playlist and checks it.
fn resolve_playlist(name: &String, p: Playlist, d: &Option<Defaults>) -> (r: Result<
    ValidatedPlaylist,
    ValidationError,
>)
    ensures
        match playlist_error(*name, p, *d) {
            Some(e) => r == Err::<ValidatedPlaylist, ValidationError>(e),
            None => r matches Ok(v) && resolved(p, *d, v),
        },
{
    let mut c: Vec<String> = match &p.command {
        Some(c) => c.clone(),
        None => match d {
            Some(dd) => match &dd.command {
                Some(c) => c.clone(),
                None => {
                    return Err(ValidationError::NoCommand(name.clone()));
                },
            },
            None => {
                return Err(ValidationError::NoCommand(name.clone()));
            },
        },
    };
    match check_command(&c, &Some(name.clone())) {
        Some(e) => {
            return Err(e);
        },
        None => {},
    }
    let mode = match p.mode {
        Some(m) => m,
        None => match d {
            Some(dd) => match dd.mode {
                Some(m) => m,
                None => {
                    return Err(ValidationError::NoMode(name.clone()));
                },
            },
            None => {
                return Err(ValidationError::NoMode(name.clone()));
            },
        },
    };
    let every = match p.change_every {
        Some(e) => e,
        None => match d {
            Some(dd) => match dd.change_every {
                Some(e) => e,
                None => {
                    return Err(ValidationError::NoChangeInterval(name.clone()));
                },
            },
            None => {
                return Err(ValidationError::NoChangeInterval(name.clone()));
            },
        },
    };
    let trigger_on_select = match p.trigger_on_select {
        Some(b) => b,
        None => match d {
            Some(dd) => match dd.trigger_on_select {
                Some(b) => b,
                None => true,
            },
            None => true,
        },
    };
    let use_last_on_select = match p.use_last_on_select {
        Some(b) => b,
        None => match d {
            Some(dd) => match dd.use_last_on_select {
                Some(b) => b,
                None => true,
            },
            None => true,
        },
    };
    let ghost full = c@;
    let command = c.remove(0);
    assert(c@ =~= full.drop_first());
    Ok(
        ValidatedPlaylist {
            files: expand_paths(&p.files),
            directories: expand_paths(&p.directories),
            command,
            command_args: c,
            mode,
            change_every: every.0,
            trigger_on_select,
            use_last_on_select,
        },
    )
}

/// What is wrong with the default command, if anything.
pub open spec fn default_command_error(d: Option<Defaults>) -> Option<ValidationError> {
    match default_command(d) {
        Some(c) => command_error(c@, None),
        None => None,
    }
}

/// The first fault of a configuration, if any: an unknown default
/// playlist, then a faulty default command, then the first faulty playlist.
pub open spec fn validation_error(s: ServerConfig) -> Option<ValidationError> {
    if !(exists|i: int|
        0 <= i < s.playlists@.len() && (#[trigger] s.playlists@[i]).0@ == s.default_playlist@) {
        Some(ValidationError::UnknownDefaultPlaylist(s.default_playlist))
    } else if default_command_error(s.defaults) is Some {
        default_command_error(s.defaults)
    } else {
        first_error(s.playlists@, s.defaults)
    }
}

/// A configuration that passes validation keeps its playlists' names, in
/// order, and its default playlist is one of them.
pub proof fn lemma_validated_default_exists(config: Config, v: ValidatedConfig)
    requires
        validation_error(config.server) is None,
        v.server.default_playlist == config.server.default_playlist,
        v.server.playlists@.len() == config.server.playlists@.len(),
        forall|i: int|
            0 <= i < config.server.playlists@.len() ==> (#[trigger] v.server.playlists@[i]).0
                == config.server.playlists@[i].0,
    ensures
        exists|i: int|
            0 <= i < v.server.playlists@.len() && (#[trigger] v.server.playlists@[i]).0@
                == v.server.default_playlist@,
{
    let s = config.server;
    let i = choose|i: int|
        0 <= i < s.playlists@.len() && (#[trigger] s.playlists@[i]).0@ == s.default_playlist@;
    assert(v.server.playlists@[i].0 == s.playlists@[i].0);
}

/// Checks the configuration and applies the defaults: the default playlist
/// must exist, the default command (if any) must be well formed, and so
/// must each playlist once defaults apply; the first fault found, in that
/// order, is reported. Paths have a leading `~` expanded; unless set, the
/// playlists are rescanned every thirty seconds.
pub fn validate(config: Config) -> (r: Result<ValidatedConfig, ValidationError>)
    ensures
        match validation_error(config.server) {
            Some(e) => r == Err::<ValidatedConfig, ValidationError>(e),
            None => r matches Ok(v) && {
                let s = config.server;
                &&& v.common == config.common
                &&& v.server.default_playlist == s.default_playlist
                &&& v.server.watch == match s.watch {
                    Some(w) => w,
                    None => WatchMode::Poll(DEFAULT_WATCH_SECS),
                }
                &&& v.server.playlists@.len() == s.playlists@.len()
                &&& forall|i: int|
                    0 <= i < s.playlists@.len() ==> (#[trigger] v.server.playlists@[i]).0
                        == s.playlists@[i].0 && resolved(
                        s.playlists@[i].1,
                        s.defaults,
                        v.server.playlists@[i].1,
                    )
                &&& match s.stats_db {
                    Some(p) => v.server.stats_db matches Some(q) && tilde_expansion(p@, q@),
                    None => v.server.stats_db is None,
                }
            },
        },
{
    let ghost s0 = config.server;
    let common = config.common;
    let server = config.server;
    let default_playlist = server.default_playlist;
    let defaults = server.defaults;
    let mut pending = server.playlists;
    let ghost all = pending@;
    let mut found = false;
    let mut i: usize = 0;
    while i < pending.len()
        invariant
            i <= pending@.len(),
            pending@ == all,
            found == exists|k: int| 0 <= k < i && (#[trigger] all[k]).0@ == default_playlist@,
        decreases pending@.len() - i,
    {
        if same_text(pending[i].0.as_str(), default_playlist.as_str()) {
            found = true;
        }
        i = i + 1;
    }
    if !found {
        return Err(ValidationError::UnknownDefaultPlaylist(default_playlist));
    }
    match &defaults {
        Some(dd) => match &dd.command {
            Some(c) => match check_command(c, &None) {
                Some(e) => {
                    return Err(e);
                },
                None => {},
            },
            None => {},
        },
        None => {},
    }
    let mut out: Vec<(String, ValidatedPlaylist)> = Vec::new();
    while pending.len() > 0
        invariant
            out@.len() + pending@.len() == all.len(),
            pending@ == all.subrange(out@.len() as int, all.len() as int),
            first_error(all, defaults) == first_error(pending@, defaults),
            all == s0.playlists@,
            s0 == config.server,
            defaults == s0.defaults,
            default_playlist == s0.default_playlist,
            exists|k: int| 0 <= k < all.len() && (#[trigger] all[k]).0@ == default_playlist@,
            default_command_error(defaults) is None,
            forall|k: int|
                0 <= k < out@.len() ==> (#[trigger] out@[k]).0 == all[k].0 && resolved(
                    all[k].1,
                    defaults,
                    out@[k].1,
                ),
        decreases pending@.len(),
    {
        let ghost rest = pending@;
        let (name, p) = pending.remove(0);
        assert(rest[0] == (name, p));
        assert(pending@ =~= rest.drop_first());
        match resolve_playlist(&name, p, &defaults) {
            Ok(v) => {
                out.push((name, v));
            },
            Err(e) => {
                assert(playlist_error(rest[0].0, rest[0].1, defaults) == Some(e));
                assert(first_error(rest, defaults) == Some(e));
                return Err(e);
            },
        }
        assert(pending@ =~= all.subrange(out@.len() as int, all.len() as int));
    }
    let watch = match server.watch {
        Some(w) => w,
        None => WatchMode::Poll(DEFAULT_WATCH_SECS),
    };
    let stats_db = match &server.stats_db {
        Some(p) => Some(string_to_path(p)),
        None => None,
    };
    Ok(
        ValidatedConfig {
            common,
            server: ValidatedServerConfig { default_playlist, watch, playlists: out, stats_db },
        },
    )
}

} // verus!
