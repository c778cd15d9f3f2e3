//! Wallpaper configuration: global defaults, per-monitor overrides and
//! per-workspace wallpapers.

use std::collections::HashMap;
use vstd::prelude::*;

verus! {

broadcast use vstd::std_specs::hash::group_hash_axioms;

/// How one wallpaper replaces the previous one.
#[derive(Debug, Clone, Copy, PartialEq, Eq, Structural)]
pub enum TransitionType {
    /// No transition, instant switch
    Instant,
    /// Simple fade/crossfade
    Fade,
    /// Slide from a direction
    Slide,
    /// Wipe effect
    Wipe,
    /// Crossfade with easing
    Crossfade,
}

impl Default for TransitionType {
    fn default() -> (r: Self)
        ensures
            r == TransitionType::Fade,
    {
        TransitionType::Fade
    }
}

/// How an image is fitted to the output.
#[derive(Debug, Clone, Copy, PartialEq, Eq, Structural)]
pub enum BackgroundMode {
    /// Scale to cover entire screen, may crop
    Cover,
    /// Scale to fit within screen, may letterbox
    Contain,
    /// Stretch to fill, may distort
    Fill,
    /// Tile the image
    Tile,
    /// Center without scaling
    Center,
}

impl Default for BackgroundMode {
    fn default() -> (r: Self)
        ensures
            r == BackgroundMode::Cover,
    {
        BackgroundMode::Cover
    }
}

/// Order in which a slideshow walks its images.
#[derive(Debug, Clone, Copy, PartialEq, Eq, Structural)]
pub enum SortingMethod {
    /// Random order
    Random,
    /// Alphabetical ascending
    Ascending,
    /// Alphabetical descending
    Descending,
}

impl Default for SortingMethod {
    fn default() -> (r: Self)
        ensures
            r == SortingMethod::Random,
    {
        SortingMethod::Random
    }
}

/// Transition duration used when nothing else is configured.
pub const DEFAULT_TRANSITION_MS: u32 = 300;

/// Settings applied to every monitor unless overridden.
#[derive(Debug)]
pub struct DefaultConfig {
    /// Default wallpaper path (file or directory)
    pub path: Option<String>,
    /// Transition type
    pub transition: TransitionType,
    /// Transition duration in milliseconds
    pub transition_time: u32,
    /// Background mode
    pub mode: BackgroundMode,
}

impl Default for DefaultConfig {
    fn default() -> (r: Self)
        ensures
            r.path.is_none(),
            r.transition == TransitionType::Fade,
            r.transition_time == DEFAULT_TRANSITION_MS,
            r.mode == BackgroundMode::Cover,
    {
        DefaultConfig {
            path: None,
            transition: TransitionType::Fade,
            transition_time: DEFAULT_TRANSITION_MS,
            mode: BackgroundMode::Cover,
        }
    }
}

/// Copies an optional string, keeping its contents.
pub fn copy_opt_string(s: &Option<String>) -> (r: Option<String>)
    ensures
        r == *s,
{
    match s {
        Some(v) => Some(v.clone()),
        None => None,
    }
}

impl Clone for DefaultConfig {
    fn clone(&self) -> (r: Self)
        ensures
            r == *self,
    {
        DefaultConfig {
            path: copy_opt_string(&self.path),
            transition: self.transition,
            transition_time: self.transition_time,
            mode: self.mode,
        }
    }
}

/// Settings of one monitor.
#[derive(Debug)]
pub struct MonitorConfig {
    /// Wallpaper path (file or directory); empty when none is set
    pub path: String,
    /// Slideshow interval in milliseconds (if path is a directory)
    pub duration: Option<u64>,
    /// Sorting method for slideshow
    pub sorting: SortingMethod,
    /// Search subdirectories
    pub recursive: bool,
    /// Background mode override
    pub mode: Option<BackgroundMode>,
    /// Transition type override
    pub transition: Option<TransitionType>,
    /// Transition time override
    pub transition_time: Option<u32>,
}

impl Clone for MonitorConfig {
    fn clone(&self) -> (r: Self)
        ensures
            r == *self,
    {
        MonitorConfig {
            path: self.path.clone(),
            duration: self.duration,
            sorting: self.sorting,
            recursive: self.recursive,
            mode: self.mode,
            transition: self.transition,
            transition_time: self.transition_time,
        }
    }
}

impl Default for MonitorConfig {
    fn default() -> (r: Self)
        ensures
            r.path@.len() == 0,
            r.duration.is_none(),
            r.sorting == SortingMethod::Random,
            r.recursive,
            r.mode.is_none(),
            r.transition.is_none(),
            r.transition_time.is_none(),
    {
        MonitorConfig {
            path: String::new(),
            duration: None,
            sorting: SortingMethod::Random,
            recursive: true,
            mode: None,
            transition: None,
            transition_time: None,
        }
    }
}


impl MonitorConfig {
    /// Monitor settings taken from the global defaults.
    pub fn from_default(default: &DefaultConfig) -> (r: Self)
        ensures
            r.path@ == match default.path {
                Some(p) => p@,
                None => Seq::<char>::empty(),
            },
            r.duration.is_none(),
            r.sorting == SortingMethod::Random,
            r.recursive,
            r.mode == Some(default.mode),
            r.transition == Some(default.transition),
            r.transition_time == Some(default.transition_time),
    {
        let path = match &default.path {
            Some(p) => p.clone(),
            None => String::new(),
        };
        MonitorConfig {
            path,
            duration: None,
            sorting: SortingMethod::Random,
            recursive: true,
            mode: Some(default.mode),
            transition: Some(default.transition),
            transition_time: Some(default.transition_time),
        }
    }
}


/// Per-monitor settings keyed by output name; each name occurs once.
#[derive(Debug)]
pub struct MonitorTable {
    entries: Vec<(String, MonitorConfig)>,
}

impl MonitorTable {
    /// Each name occurs at most once.
    #[verifier::type_invariant]
    spec fn names_distinct(self) -> bool {
        forall|i: int, j: int|
            0 <= i < j < self.entries@.len() ==> #[trigger] self.entries@[i].0@
                != #[trigger] self.entries@[j].0@
    }

    /// The table as a map from output name to its settings.
    pub closed spec fn view(&self) -> Map<Seq<char>, MonitorConfig> {
        Map::new(
            |k: Seq<char>| exists|i: int| 0 <= i < self.entries@.len() && self.entries@[i].0@ == k,
            |k: Seq<char>|
                self.entries@[choose|i: int|
                    0 <= i < self.entries@.len() && self.entries@[i].0@ == k].1,
        )
    }

    /// An empty table.
    pub fn new() -> (r: Self)
        ensures
            r@ == Map::<Seq<char>, MonitorConfig>::empty(),
    {
        let r = MonitorTable { entries: Vec::new() };
        assert(r@ =~= Map::<Seq<char>, MonitorConfig>::empty());
        r
    }

    /// Position of the entry named `name`, if there is one.
    fn position(&self, name: &str) -> (r: Option<usize>)
        ensures
            match r {
                Some(i) => i < self.entries@.len() && self.entries@[i as int].0@ == name@,
                None => forall|i: int|
                    0 <= i < self.entries@.len() ==> self.entries@[i].0@ != name@,
            },
    {
        let mut i: usize = 0;
        while i < self.entries.len()
            invariant
                i <= self.entries@.len(),
                forall|j: int| 0 <= j < i ==> self.entries@[j].0@ != name@,
            decreases self.entries@.len() - i,
        {
            if str_eq(self.entries[i].0.as_str(), name) {
                return Some(i);
            }
            i = i + 1;
        }
        None
    }

    /// The settings of `name`, if the table holds it.
    pub fn get(&self, name: &str) -> (r: Option<&MonitorConfig>)
        ensures
            match r {
                Some(c) => self@.contains_key(name@) && *c == self@[name@],
                None => !self@.contains_key(name@),
            },
    {
        proof {
            use_type_invariant(self);
        }
        match self.position(name) {
            Some(i) => {
                proof {
                    let j = choose|j: int|
                        0 <= j < self.entries@.len() && self.entries@[j].0@ == name@;
                    assert(self@.contains_key(name@));
                    assert(j == i) by {
                        if j < i {
                            assert(self.entries@[j].0@ != self.entries@[i as int].0@);
                        } else if i < j {
                            assert(self.entries@[i as int].0@ != self.entries@[j].0@);
                        }
                    }
                }
                Some(&self.entries[i].1)
            },
            None => None,
        }
    }

    /// Sets the settings of `name`, replacing any it had.
    pub fn insert(&mut self, name: String, config: MonitorConfig)
        ensures
            final(self)@ == old(self)@.insert(name@, config),
    {
        proof {
            use_type_invariant(&*self);
        }
        let ghost old_entries = self.entries@;
        match self.position(name.as_str()) {
            Some(i) => {
                let ghost key = name@;
                let mut entries: Vec<(String, MonitorConfig)> = Vec::new();
                std::mem::swap(&mut entries, &mut self.entries);
                entries.set(i, (name, config));
                self.entries = entries;
                proof {
                    assert forall|a: int, b: int|
                        0 <= a < b < self.entries@.len() implies #[trigger] self.entries@[a].0@
                        != #[trigger] self.entries@[b].0@ by {
                        assert(old_entries[a].0@ != old_entries[b].0@);
                    }
                }
                assert(self@ =~= old(self)@.insert(key, config)) by {
                    assert forall|k: Seq<char>| #[trigger] self@.contains_key(k) implies old(
                        self,
                    )@.insert(key, config).contains_key(k) && self@[k] == old(self)@.insert(
                        key,
                        config,
                    )[k] by {
                        let j = choose|j: int|
                            0 <= j < self.entries@.len() && self.entries@[j].0@ == k;
                        if j != i {
                            assert(old_entries[j].0@ == k);
                            assert(old(self)@.contains_key(k));
                            let oj = choose|x: int|
                                0 <= x < old_entries.len() && old_entries[x].0@ == k;
                            if oj != j {
                                if oj < j {
                                    assert(old_entries[oj].0@ != old_entries[j].0@);
                                } else {
                                    assert(old_entries[j].0@ != old_entries[oj].0@);
                                }
                            }
                        }
                    }
                    assert forall|k: Seq<char>| #[trigger] old(self)@.insert(
                        key,
                        config,
                    ).contains_key(k) implies self@.contains_key(k) by {
                        if k != key {
                            let oj = choose|x: int|
                                0 <= x < old_entries.len() && old_entries[x].0@ == k;
                            assert(self.entries@[oj].0@ == k);
                        } else {
                            assert(self.entries@[i as int].0@ == k);
                        }
                    }
                }
            },
            None => {
                let ghost key = name@;
                let mut entries: Vec<(String, MonitorConfig)> = Vec::new();
                std::mem::swap(&mut entries, &mut self.entries);
                entries.push((name, config));
                self.entries = entries;
                let ghost n = old_entries.len() as int;
                proof {
                    assert forall|a: int, b: int|
                        0 <= a < b < self.entries@.len() implies #[trigger] self.entries@[a].0@
                        != #[trigger] self.entries@[b].0@ by {
                        if b < n {
                            assert(old_entries[a].0@ != old_entries[b].0@);
                        } else {
                            assert(self.entries@[a] == old_entries[a]);
                        }
                    }
                }
                assert(self@ =~= old(self)@.insert(key, config)) by {
                    assert forall|k: Seq<char>| #[trigger] self@.contains_key(k) implies old(
                        self,
                    )@.insert(key, config).contains_key(k) && self@[k] == old(self)@.insert(
                        key,
                        config,
                    )[k] by {
                        let j = choose|j: int|
                            0 <= j < self.entries@.len() && self.entries@[j].0@ == k;
                        if j < n {
                            assert(old_entries[j].0@ == k);
                            assert(old(self)@.contains_key(k));
                            let oj = choose|x: int|
                                0 <= x < old_entries.len() && old_entries[x].0@ == k;
                            if oj != j {
                                if oj < j {
                                    assert(old_entries[oj].0@ != old_entries[j].0@);
                                } else {
                                    assert(old_entries[j].0@ != old_entries[oj].0@);
                                }
                            }
                        }
                    }
                    assert forall|k: Seq<char>| #[trigger] old(self)@.insert(
                        key,
                        config,
                    ).contains_key(k) implies self@.contains_key(k) by {
                        if k != key {
                            let oj = choose|x: int|
                                0 <= x < old_entries.len() && old_entries[x].0@ == k;
                            assert(self.entries@[oj].0@ == k);
                        } else {
                            assert(self.entries@[n].0@ == k);
                        }
                    }
                }
            },
        }
    }
}

/// Whether two strings hold the same characters.
pub fn str_eq(a: &str, b: &str) -> (r: bool)
    ensures
        r == (a@ == b@),
{
    let n = a.unicode_len();
    if n != b.unicode_len() {
        return false;
    }
    let mut i: usize = 0;
    while i < n
        invariant
            n == a@.len(),
            n == b@.len(),
            i <= n,
            forall|j: int| 0 <= j < i ==> a@[j] == b@[j],
        decreases n - i,
    {
        if a.get_char(i) != b.get_char(i) {
            return false;
        }
        i = i + 1;
    }
    assert(a@ =~= b@);
    true
}


/// Per-workspace wallpapers.
#[derive(Debug, Clone)]
pub struct WorkspaceConfig {
    /// Enable per-workspace wallpapers
    pub enabled: bool,
    /// Workspace number -> wallpaper path mapping
    pub wallpapers: HashMap<i32, String>,
}

impl Default for WorkspaceConfig {
    fn default() -> (r: Self)
        ensures
            !r.enabled,
            r.wallpapers@ == Map::<i32, String>::empty(),
    {
        WorkspaceConfig { enabled: false, wallpapers: HashMap::new() }
    }
}

/// The whole configuration.
#[derive(Debug)]
pub struct Config {
    /// Default settings applied to all monitors/workspaces unless overridden
    pub default: DefaultConfig,
    /// Per-monitor wallpaper configuration
    pub monitors: MonitorTable,
    /// Per-workspace wallpaper configuration
    pub workspaces: WorkspaceConfig,
}

impl Default for Config {
    fn default() -> (r: Self)
        ensures
            r.default.path.is_none(),
            r.default.transition == TransitionType::Fade,
            r.default.transition_time == DEFAULT_TRANSITION_MS,
            r.default.mode == BackgroundMode::Cover,
            r.monitors@ == Map::<Seq<char>, MonitorConfig>::empty(),
            !r.workspaces.enabled,
            r.workspaces.wallpapers@ == Map::<i32, String>::empty(),
    {
        Config {
            default: DefaultConfig::default(),
            monitors: MonitorTable::new(),
            workspaces: WorkspaceConfig::default(),
        }
    }
}

/// The characters of an optional string.
pub open spec fn opt_chars(o: Option<String>) -> Option<Seq<char>> {
    match o {
        Some(s) => Some(s@),
        None => None,
    }
}

/// `rest` placed under the directory `home`, with one separator between.
pub open spec fn under_dir(home: Seq<char>, rest: Seq<char>) -> Seq<char> {
    if home.len() > 0 && home.last() == '/' {
        home + rest
    } else {
        home + seq!['/'] + rest
    }
}

/// A path with a leading `~` component replaced by the home directory, when
/// one is known.
pub open spec fn expanded(path: Seq<char>, home: Option<Seq<char>>) -> Seq<char> {
    match home {
        Some(h) => if path == seq!['~'] {
            under_dir(h, Seq::empty())
        } else if path.len() >= 2 && path[0] == '~' && path[1] == '/' {
            under_dir(h, path.subrange(2, path.len() as int))
        } else {
            path
        },
        None => path,
    }
}

/// Relies on dirs::home_dir: the current user's home directory, if one is
/// known; it reads the environment, so nothing is promised of its value.
#[verifier::external_body]
pub(crate) fn home_dir() -> (r: Option<String>) {
    dirs::home_dir().map(|p| p.to_string_lossy().into_owned())
}

fn join_under_dir(home: &str, rest: &str) -> (r: String)
    ensures
        r@ == under_dir(home@, rest@),
{
    let mut out = String::from_str(home);
    let n = home.unicode_len();
    if !(n > 0 && home.get_char(n - 1) == '/') {
        proof {
            reveal_strlit("/");
        }
        out.append("/");
    }
    out.append(rest);
    out
}

/// Expands a leading `~` component with the given home directory.
pub fn expand_path_with(path: &str, home: &Option<String>) -> (r: String)
    ensures
        r@ == expanded(path@, opt_chars(*home)),
{
    let n = path.unicode_len();
    if let Some(h) = home {
        if n == 1 && path.get_char(0) == '~' {
            assert(path@ =~= seq!['~']);
            proof {
                reveal_strlit("");
            }
            return join_under_dir(h.as_str(), "");
        }
        if n >= 2 && path.get_char(0) == '~' && path.get_char(1) == '/' {
            let rest = path.substring_char(2, n);
            return join_under_dir(h.as_str(), rest);
        }
    }
    String::from_str(path)
}

/// Expands a leading `~` component with the current user's home directory.
pub fn expand_path(path: &str) -> (r: String)
    ensures
        exists|home: Option<Seq<char>>| r@ == expanded(path@, home),
        path@.len() == 0 || path@[0] != '~' ==> r@ == path@,
{
    let home = home_dir();
    expand_path_with(path, &home)
}

/// The configured path that applies to `monitor` while `workspace` is shown,
/// before expansion: a workspace wallpaper, then the monitor's own path, then
/// the default path.
pub open spec fn configured_wallpaper(c: Config, monitor: Seq<char>, workspace: i32) -> Option<
    Seq<char>,
> {
    if c.workspaces.enabled && c.workspaces.wallpapers@.contains_key(workspace) {
        Some(c.workspaces.wallpapers@[workspace]@)
    } else if c.monitors@.contains_key(monitor) {
        Some(c.monitors@[monitor].path@)
    } else {
        opt_chars(c.default.path)
    }
}

/// The expanded wallpaper path for `monitor` showing `workspace`.
pub open spec fn wallpaper_for(
    c: Config,
    monitor: Seq<char>,
    workspace: i32,
    home: Option<Seq<char>>,
) -> Option<Seq<char>> {
    match configured_wallpaper(c, monitor, workspace) {
        Some(p) => Some(expanded(p, home)),
        None => None,
    }
}

/// `r` is the settings `monitor` gets under `c`: its own entry when there is
/// one, else those derived from the defaults.
pub open spec fn resolves_monitor(c: Config, monitor: Seq<char>, r: MonitorConfig) -> bool {
    if c.monitors@.contains_key(monitor) {
        r == c.monitors@[monitor]
    } else {
        &&& r.path@ == match c.default.path {
            Some(p) => p@,
            None => Seq::<char>::empty(),
        }
        &&& r.duration.is_none()
        &&& r.sorting == SortingMethod::Random
        &&& r.recursive
        &&& r.mode == Some(c.default.mode)
        &&& r.transition == Some(c.default.transition)
        &&& r.transition_time == Some(c.default.transition_time)
    }
}

impl Config {
    /// Wallpaper path for a workspace on a monitor, with `~` expanded by the
    /// given home directory.
    pub fn wallpaper_with_home(&self, monitor: &str, workspace: i32, home: &Option<String>) -> (r:
        Option<String>)
        ensures
            opt_chars(r) == wallpaper_for(*self, monitor@, workspace, opt_chars(*home)),
    {
        if self.workspaces.enabled {
            if let Some(path) = self.workspaces.wallpapers.get(&workspace) {
                return Some(expand_path_with(path.as_str(), home));
            }
        }
        if let Some(mon_config) = self.monitors.get(monitor) {
            return Some(expand_path_with(mon_config.path.as_str(), home));
        }
        match &self.default.path {
            Some(p) => Some(expand_path_with(p.as_str(), home)),
            None => None,
        }
    }

    /// Wallpaper path for a specific workspace on a monitor, with `~`
    /// expanded by the current user's home directory.
    pub fn get_wallpaper_for_workspace(&self, monitor: &str, workspace: i32) -> (r: Option<String>)
        ensures
            exists|home: Option<Seq<char>>|
                opt_chars(r) == wallpaper_for(*self, monitor@, workspace, home),
            r.is_some() == configured_wallpaper(*self, monitor@, workspace).is_some(),
    {
        let home = home_dir();
        self.wallpaper_with_home(monitor, workspace, &home)
    }

    /// The monitor's own settings, or those the defaults give.
    pub fn get_monitor_config(&self, monitor: &str) -> (r: MonitorConfig)
        ensures
            resolves_monitor(*self, monitor@, r),
    {
        match self.monitors.get(monitor) {
            Some(c) => c.clone(),
            None => MonitorConfig::from_default(&self.default),
        }
    }
}

} // verus!
