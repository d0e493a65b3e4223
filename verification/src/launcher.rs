//! The state of the launcher and how it reacts to what the user does and to
//! what downloads report. Everything that touches the screen, the disk, the
//! network or the clock is an `Effect` that the caller carries out.

use vstd::prelude::*;
use crate::json::{
    json_pretty_strings, json_string_set, read_json_string_set, string_views,
    write_json_pretty_strings,
};
use crate::order::{lemma_version_lt_transitive, lemma_version_order_total, version_lt};
use crate::version::{display_spec, lemma_parse_display, parse_spec, parse_version, Version, VersionParseError};

verus! {

// ---------------------------------------------------------------------------
// Settings
// ---------------------------------------------------------------------------

/// Where the launcher keeps the game.
#[derive(Debug)]
pub struct LauncherSettings {
    pub game_dir: String,
}

impl LauncherSettings {
    /// The settings read from a settings file: its `game_dir` where it names one,
    /// else the default game directory where there is one, else an error.
    pub fn from_config(configured: Option<String>, default_dir: Option<String>) -> (r: Result<
        LauncherSettings,
        String,
    >)
        ensures
            match configured {
                Some(c) => r matches Ok(s) && s.game_dir@ == c@,
                None => match default_dir {
                    Some(d) => r matches Ok(s) && s.game_dir@ == d@,
                    None => r matches Err(e) && e@ == "game_dir is required"@,
                },
            },
    {
        match configured {
            Some(c) => Ok(LauncherSettings { game_dir: c }),
            None => match default_dir {
                Some(d) => Ok(LauncherSettings { game_dir: d }),
                None => Err("game_dir is required".to_string()),
            },
        }
    }
}

// ---------------------------------------------------------------------------
// What the launcher shows and hears
// ---------------------------------------------------------------------------

/// The page on screen.
#[derive(Debug, Clone, Copy, PartialEq, Eq, Structural)]
pub enum Page {
    Main,
    Settings,
}

/// The state of the download shown under the buttons. Progress and speed are
/// the bit patterns of the `f32` values (`f32::to_bits`), carried unchanged.
#[derive(Debug, Clone, Copy, PartialEq, Eq, Structural)]
pub enum DownloadUpdate {
    Progress { progress: u32, speed: u32 },
    Finished,
    Failed { last_progress: Option<u32> },
    Idle,
}

impl Default for DownloadUpdate {
    fn default() -> (r: Self)
        ensures
            r == DownloadUpdate::Idle,
    {
        DownloadUpdate::Idle
    }
}

#[derive(Debug, Clone)]
pub enum ButtonMessage {
    DownloadVersion,
    RunVersion,
    OpenSettings,
    ExitSettings,
    SaveSettings,
}

#[derive(Debug, Clone)]
pub enum InputMessage {
    VersionContentChanged(String),
    GameDirContentChanged(String),
}

/// What happens to the launcher.
#[derive(Debug, Clone)]
pub enum Message {
    Button(ButtonMessage),
    Input(InputMessage),
    VersionDownloaded(Version),
    VersionDownloadFailed(String),
    VersionDownloadUpdate(DownloadUpdate),
    VersionDownloadClear,
}

/// The outside work that a message asks for.
#[derive(Debug)]
pub enum Effect {
    Nothing,
    /// Download `version` into the `versions` folder of `game_dir`.
    StartDownload { game_dir: String, version: Version },
    /// Start the installed `version`.
    Launch { version: Version },
    /// Move the game from `old_game_dir` to `new_game_dir`, store the settings,
    /// and load the versions of the new directory.
    ApplySettings { old_game_dir: String, new_game_dir: String },
    /// Write the versions file (`Launcher::versions_json`), then clear the
    /// download status a little later.
    SaveVersions,
    /// Clear the download status a little later.
    ClearLater,
}

/// What `Launcher::update` hands back: a line for the error log, if any, and the
/// outside work to do.
#[derive(Debug)]
pub struct Outcome {
    pub log: Option<String>,
    pub effect: Effect,
}

// ---------------------------------------------------------------------------
// The launcher and its model
// ---------------------------------------------------------------------------

/// The launcher as the contracts see it.
pub struct LauncherModel {
    pub game_dir: Seq<char>,
    pub versions: Set<Version>,
    pub input_version: Seq<char>,
    pub input_game_dir: Seq<char>,
    pub downloading: bool,
    pub download_update: DownloadUpdate,
    pub page: Page,
}

/// The launcher: its settings, the installed versions (each once) and what the
/// pages show.
pub struct Launcher {
    launcher_settings: LauncherSettings,
    versions: Vec<Version>,
    input_version_content: String,
    input_game_dir_content: String,
    version_downloading: bool,
    version_download_update: DownloadUpdate,
    page: Page,
}

impl View for Launcher {
    type V = LauncherModel;

    closed spec fn view(&self) -> LauncherModel {
        LauncherModel {
            game_dir: self.launcher_settings.game_dir@,
            versions: self.versions@.to_set(),
            input_version: self.input_version_content@,
            input_game_dir: self.input_game_dir_content@,
            downloading: self.version_downloading,
            download_update: self.version_download_update,
            page: self.page,
        }
    }
}

impl Launcher {
    #[verifier::type_invariant]
    spec fn installed_once(self) -> bool {
        self.versions@.no_duplicates()
    }

    /// A launcher for the given settings: no versions installed yet, empty
    /// version input, the game directory in its input, the main page.
    pub fn new(launcher_settings: LauncherSettings) -> (r: Launcher)
        ensures
            r@ == (LauncherModel {
                game_dir: launcher_settings.game_dir@,
                versions: Set::empty(),
                input_version: Seq::empty(),
                input_game_dir: launcher_settings.game_dir@,
                downloading: false,
                download_update: DownloadUpdate::Idle,
                page: Page::Main,
            }),
    {
        let input_game_dir_content = launcher_settings.game_dir.clone();
        let r = Launcher {
            launcher_settings,
            versions: Vec::new(),
            input_version_content: String::new(),
            input_game_dir_content,
            version_downloading: false,
            version_download_update: DownloadUpdate::default(),
            page: Page::Main,
        };
        assert(r.versions@.to_set() =~= Set::empty());
        r
    }

    pub fn game_dir(&self) -> (r: &String)
        ensures
            r@ == self@.game_dir,
    {
        &self.launcher_settings.game_dir
    }

    pub fn input_version_content(&self) -> (r: &String)
        ensures
            r@ == self@.input_version,
    {
        &self.input_version_content
    }

    pub fn input_game_dir_content(&self) -> (r: &String)
        ensures
            r@ == self@.input_game_dir,
    {
        &self.input_game_dir_content
    }

    pub fn version_downloading(&self) -> (r: bool)
        ensures
            r == self@.downloading,
    {
        self.version_downloading
    }

    pub fn version_download_update(&self) -> (r: DownloadUpdate)
        ensures
            r == self@.download_update,
    {
        self.version_download_update
    }

    pub fn page(&self) -> (r: Page)
        ensures
            r == self@.page,
    {
        self.page
    }

    /// Whether `version` is installed.
    pub fn is_installed(&self, version: Version) -> (r: bool)
        ensures
            r == self@.versions.contains(version),
    {
        contains_version(&self.versions, version)
    }
}

/// Whether `v` occurs in `vs`.
fn contains_version(vs: &Vec<Version>, v: Version) -> (r: bool)
    ensures
        r == vs@.contains(v),
{
    let n = vs.len();
    for i in 0..n
        invariant
            n == vs@.len(),
            forall|j: int| 0 <= j < i ==> vs@[j] != v,
    {
        if vs[i] == v {
            assert(vs@[i as int] == v);
            return true;
        }
    }
    false
}

// ---------------------------------------------------------------------------
// The versions file
// ---------------------------------------------------------------------------

/// The versions that a set of strings names: those strings that read as a version.
pub open spec fn parsed_versions(strings: Set<Seq<char>>) -> Set<Version> {
    Set::new(
        |v: Version|
            exists|s: Seq<char>|
                strings.contains(s) && #[trigger] parse_spec(s) == Ok::<Version, VersionParseError>(v),
    )
}

/// The versions that the text of a versions file names, or `None` where the
/// text is not a JSON array of strings.
pub open spec fn versions_of_file(text: Seq<char>) -> Option<Set<Version>> {
    match json_string_set(text) {
        Some(strings) => Some(parsed_versions(strings)),
        None => None,
    }
}

/// `q` lists its versions from the newest to the oldest, each once.
pub open spec fn strictly_descending(q: Seq<Version>) -> bool {
    forall|i: int, j: int| 0 <= i < j < q.len() ==> version_lt(#[trigger] q[j], #[trigger] q[i])
}

/// Appending an element adds it to the set of the sequence.
proof fn lemma_push_to_set(s: Seq<Version>, x: Version)
    ensures
        s.push(x).to_set() == s.to_set().insert(x),
{
    assert forall|y: Version| s.push(x).contains(y) <==> (s.contains(y) || y == x) by {
        if s.push(x).contains(y) {
            let k = choose|k: int| 0 <= k < s.push(x).len() && s.push(x)[k] == y;
            if k < s.len() {
                assert(s[k] == y);
            }
        }
        if s.contains(y) {
            let k = choose|k: int| 0 <= k < s.len() && s[k] == y;
            assert(s.push(x)[k] == y);
        }
        if y == x {
            assert(s.push(x)[s.len() as int] == x);
        }
    }
    assert(s.push(x).to_set() =~= s.to_set().insert(x));
}

/// Inserting `v` at position `p` of a descending list, where everything before
/// `p` comes after `v` and everything from `p` on comes before it, keeps the list
/// descending.
proof fn lemma_insert_descending(before: Seq<Version>, p: int, v: Version)
    requires
        strictly_descending(before),
        0 <= p <= before.len(),
        forall|k: int| 0 <= k < p ==> version_lt(v, #[trigger] before[k]),
        p < before.len() ==> version_lt(before[p], v),
    ensures
        strictly_descending(before.insert(p, v)),
        before.insert(p, v).to_set() == before.to_set().insert(v),
        before.insert(p, v).len() == before.len() + 1,
{
    let q = before.insert(p, v);
    before.insert_ensures(p, v);
    assert forall|k: int| p < k < q.len() implies #[trigger] q[k] == before[k - 1] by {
        assert(q[(k - 1) + 1] == before[k - 1]);
    }
    assert forall|k: int| p < k < q.len() implies version_lt(#[trigger] q[k], v) by {
        if k - 1 > p {
            assert(version_lt(before[k - 1], before[p]));
            lemma_version_lt_transitive(before[k - 1], before[p], v);
        }
    }
    assert forall|i: int, j: int| 0 <= i < j < q.len() implies version_lt(#[trigger] q[j], #[trigger] q[i]) by {
        if j < p {
            assert(q[j] == before[j] && q[i] == before[i]);
        } else if j == p {
            assert(q[i] == before[i]);
        } else if i < p {
            assert(q[i] == before[i]);
            assert(version_lt(q[j], v));
            lemma_version_lt_transitive(q[j], v, before[i]);
        } else if i == p {
        } else {
            assert(q[i] == before[i - 1]);
        }
    }
    assert(q.to_set() =~= before.to_set().insert(v)) by {
        assert forall|x: Version| q.contains(x) implies before.contains(x) || x == v by {
            let k = choose|k: int| 0 <= k < q.len() && q[k] == x;
            if k < p {
                assert(q[k] == before[k]);
            } else if k > p {
                assert(q[k] == before[k - 1]);
            }
        }
        assert forall|x: Version| before.contains(x) implies q.contains(x) by {
            let k = choose|k: int| 0 <= k < before.len() && before[k] == x;
            if k < p {
                assert(q[k] == before[k]);
            } else {
                assert(q[k + 1] == before[k]);
            }
        }
        assert(q[p] == v);
    }
}

/// Why a versions file could not be read.
#[derive(Debug, Clone, Copy, PartialEq, Eq, Structural)]
pub enum VersionsFileError {
    /// The text is not a JSON array of strings.
    NotAStringArray,
}

/// The versions that a versions file names, each once; strings that do not
/// read as a version are skipped.
pub fn versions_from_json(text: &str) -> (r: Result<Vec<Version>, VersionsFileError>)
    ensures
        match versions_of_file(text@) {
            Some(set) => r matches Ok(vs) && vs@.to_set() == set && vs@.no_duplicates(),
            None => r == Err::<Vec<Version>, VersionsFileError>(VersionsFileError::NotAStringArray),
        },
{
    let strings = match read_json_string_set(text) {
        Ok(strings) => strings,
        Err(_) => return Err(VersionsFileError::NotAStringArray),
    };
    let ghost names = json_string_set(text@).unwrap();
    let mut vs: Vec<Version> = Vec::new();
    let n = strings.len();
    for i in 0..n
        invariant
            n == strings@.len(),
            string_views(strings@).to_set() == names,
            vs@.no_duplicates(),
            vs@.to_set() == Set::new(
                |v: Version|
                    exists|j: int|
                        0 <= j < i && #[trigger] parse_spec(strings@[j]@) == Ok::<
                            Version,
                            VersionParseError,
                        >(v),
            ),
    {
        let ghost before = vs@;
        match parse_version(strings[i].as_str()) {
            Ok(v) => {
                if !contains_version(&vs, v) {
                    vs.push(v);
                    proof {
                        lemma_push_to_set(before, v);
                    }
                } else {
                    assert(before.to_set() =~= before.to_set().insert(v));
                }
                assert(vs@.to_set() == before.to_set().insert(v));
            },
            Err(_) => {},
        }
        assert(vs@.to_set() =~= Set::new(
            |v: Version|
                exists|j: int|
                    0 <= j < i + 1 && #[trigger] parse_spec(strings@[j]@) == Ok::<
                        Version,
                        VersionParseError,
                    >(v),
        )) by {
            assert forall|v: Version|
                (exists|j: int|
                    0 <= j < i + 1 && #[trigger] parse_spec(strings@[j]@) == Ok::<
                        Version,
                        VersionParseError,
                    >(v)) implies vs@.to_set().contains(v) by {
                let j = choose|j: int|
                    0 <= j < i + 1 && #[trigger] parse_spec(strings@[j]@) == Ok::<
                        Version,
                        VersionParseError,
                    >(v);
                if j < i {
                    assert(before.to_set().contains(v));
                }
            }
        }
    }
    assert(vs@.to_set() =~= parsed_versions(names)) by {
        assert forall|v: Version| #[trigger] parsed_versions(names).contains(v) implies vs@.to_set().contains(v) by {
            let s = choose|s: Seq<char>|
                names.contains(s) && #[trigger] parse_spec(s) == Ok::<Version, VersionParseError>(v);
            assert(string_views(strings@).contains(s));
            let j = choose|j: int| 0 <= j < n && string_views(strings@)[j] == s;
            assert(parse_spec(strings@[j]@) == Ok::<Version, VersionParseError>(v));
        }
        assert forall|v: Version| vs@.to_set().contains(v) implies #[trigger] parsed_versions(names).contains(v) by {
            let j = choose|j: int|
                0 <= j < n && #[trigger] parse_spec(strings@[j]@) == Ok::<Version, VersionParseError>(v);
            assert(string_views(strings@)[j] == strings@[j]@);
            assert(names.contains(strings@[j]@));
        }
    }
    Ok(vs)
}

/// Inserts `v` into the descending list `q`, where it does not occur yet.
fn insert_descending(q: &mut Vec<Version>, v: Version)
    requires
        strictly_descending(old(q)@),
        !old(q)@.contains(v),
    ensures
        strictly_descending(final(q)@),
        final(q)@.to_set() == old(q)@.to_set().insert(v),
        final(q)@.len() == old(q)@.len() + 1,
{
    let n = q.len();
    let mut p: usize = 0;
    while p < n && comes_before(v, q[p])
        invariant
            p <= n == q@.len(),
            q@ == old(q)@,
            forall|k: int| 0 <= k < p ==> version_lt(v, #[trigger] q@[k]),
        decreases n - p,
    {
        p = p + 1;
    }
    proof {
        if p < n {
            lemma_version_order_total(v, q@[p as int]);
            assert(q@[p as int] != v);
            assert(version_lt(q@[p as int], v));
        }
    }
    let ghost before = q@;
    q.insert(p, v);
    proof {
        lemma_insert_descending(before, p as int, v);
    }
}

/// Whether `a` comes strictly before `b`.
fn comes_before(a: Version, b: Version) -> (r: bool)
    ensures
        r == version_lt(a, b),
{
    a < b
}

impl Launcher {
    /// Replaces the installed versions by those of the versions file: none where
    /// there is no file (`None`); those the file names where it reads; where it
    /// does not read, the launcher is left as it was and the error is returned.
    pub fn load_versions(&mut self, versions_data: Option<&str>) -> (r: Result<(), VersionsFileError>)
        ensures
            match versions_data {
                None => r is Ok && final(self)@ == (LauncherModel { versions: Set::empty(), ..old(self)@ }),
                Some(text) => match versions_of_file(text@) {
                    Some(set) => r is Ok && final(self)@ == (LauncherModel { versions: set, ..old(self)@ }),
                    None => r is Err && final(self)@ == old(self)@,
                },
            },
    {
        match versions_data {
            None => {
                self.versions = Vec::new();
                assert(self.versions@.to_set() =~= Set::empty());
                Ok(())
            },
            Some(text) => match versions_from_json(text) {
                Ok(vs) => {
                    self.versions = vs;
                    Ok(())
                },
                Err(e) => Err(e),
            },
        }
    }

    /// The installed versions from the newest to the oldest.
    pub fn installed_versions_desc(&self) -> (r: Vec<Version>)
        ensures
            r@.to_set() == self@.versions,
            strictly_descending(r@),
            r@.len() == self@.versions.len(),
    {
        proof {
            use_type_invariant(self);
        }
        let mut r: Vec<Version> = Vec::new();
        let n = self.versions.len();
        for i in 0..n
            invariant
                n == self.versions@.len(),
                self.versions@.no_duplicates(),
                strictly_descending(r@),
                r@.to_set() == self.versions@.take(i as int).to_set(),
                r@.len() == i,
        {
            let v = self.versions[i];
            proof {
                assert(!r@.contains(v)) by {
                    if r@.contains(v) {
                        assert(r@.to_set().contains(v));
                        assert(self.versions@.take(i as int).contains(v));
                        let k = choose|k: int| 0 <= k < i && self.versions@.take(i as int)[k] == v;
                        assert(self.versions@[k] == self.versions@[i as int]);
                    }
                }
            }
            insert_descending(&mut r, v);
            assert(self.versions@.take(i + 1) == self.versions@.take(i as int).push(v));
            proof {
                lemma_push_to_set(self.versions@.take(i as int), v);
            }
        }
        assert(self.versions@.take(n as int) == self.versions@);
        proof {
            self.versions@.unique_seq_to_set();
        }
        r
    }

    /// The text of the versions file: the installed versions, newest first, as a
    /// JSON array of their texts. Reading it back names the installed versions.
    pub fn versions_json(&self) -> (r: Option<String>)
        ensures
            r is Some,
            r matches Some(t) ==> {
                &&& exists|q: Seq<Version>|
                    q.to_set() == self@.versions && strictly_descending(q) && t@ == json_pretty_strings(
                        q.map_values(|v: Version| display_spec(v)),
                    )
                &&& json_string_set(t@) == Some(self@.versions.map(|v: Version| display_spec(v)))
            },
    {
        let q = self.installed_versions_desc();
        let mut texts: Vec<String> = Vec::new();
        let n = q.len();
        for i in 0..n
            invariant
                n == q@.len(),
                string_views(texts@) == q@.take(i as int).map_values(|v: Version| display_spec(v)),
        {
            let t = q[i].to_string();
            let ghost before = texts@;
            texts.push(t);
            assert(q@.take(i + 1) == q@.take(i as int).push(q@[i as int]));
            assert(string_views(texts@) =~= string_views(before).push(t@));
            assert(q@.take(i + 1).map_values(|v: Version| display_spec(v)) =~= q@.take(
                i as int,
            ).map_values(|v: Version| display_spec(v)).push(display_spec(q@[i as int])));
        }
        assert(q@.take(n as int) == q@);
        match write_json_pretty_strings(&texts) {
            Ok(t) => {
                assert(string_views(texts@).to_set() =~= self@.versions.map(|v: Version| display_spec(v))) by {
                    assert forall|x: Seq<char>| string_views(texts@).to_set().contains(x) implies self@.versions.map(|v: Version| display_spec(v)).contains(x) by {
                        let k = choose|k: int| 0 <= k < n && string_views(texts@)[k] == x;
                        assert(q@.to_set().contains(q@[k]));
                    }
                    assert forall|x: Seq<char>| self@.versions.map(|v: Version| display_spec(v)).contains(x) implies string_views(texts@).to_set().contains(x) by {
                        let v = choose|v: Version| self@.versions.contains(v) && display_spec(v) == x;
                        assert(q@.to_set().contains(v));
                        let k = choose|k: int| 0 <= k < n && q@[k] == v;
                        assert(string_views(texts@)[k] == x);
                    }
                }
                Some(t)
            },
            Err(_) => None,
        }
    }
}

// ---------------------------------------------------------------------------
// Reacting to messages
// ---------------------------------------------------------------------------

/// The version that the download button would fetch: the typed version, where
/// it reads as one and is not installed yet.
pub open spec fn download_target(m: LauncherModel) -> Option<Version> {
    match parse_spec(m.input_version) {
        Ok(v) => if m.versions.contains(v) {
            None
        } else {
            Some(v)
        },
        Err(_) => None,
    }
}

/// Whether the download button can be pressed: no download running, something
/// typed, and it reads as a version that is not installed.
pub open spec fn download_enabled_spec(m: LauncherModel) -> bool {
    !m.downloading && m.input_version.len() > 0 && download_target(m) is Some
}

/// The status after a failed download: the progress reached, where there was one.
pub open spec fn failed_after(u: DownloadUpdate) -> DownloadUpdate {
    match u {
        DownloadUpdate::Progress { progress, .. } => DownloadUpdate::Failed {
            last_progress: Some(progress),
        },
        _ => DownloadUpdate::Failed { last_progress: None },
    }
}

/// The message for a version that is not installed.
pub open spec fn unavailable_message(v: Version) -> Seq<char> {
    "Version v"@ + display_spec(v) + " is not available"@
}

/// The log line for typed text that is not a version.
pub open spec fn invalid_input_message(input: Seq<char>) -> Seq<char> {
    "Invalid version format: "@ + input
}

/// The launcher after a message.
pub open spec fn next_model(m: LauncherModel, msg: Message) -> LauncherModel {
    match msg {
        Message::Button(b) => match b {
            ButtonMessage::DownloadVersion => if download_target(m) is Some {
                LauncherModel { downloading: true, ..m }
            } else {
                m
            },
            ButtonMessage::RunVersion => m,
            ButtonMessage::OpenSettings => LauncherModel { page: Page::Settings, ..m },
            ButtonMessage::ExitSettings => LauncherModel { page: Page::Main, ..m },
            ButtonMessage::SaveSettings => LauncherModel {
                game_dir: m.input_game_dir,
                page: Page::Main,
                ..m
            },
        },
        Message::Input(i) => match i {
            InputMessage::VersionContentChanged(t) => LauncherModel { input_version: t@, ..m },
            InputMessage::GameDirContentChanged(t) => LauncherModel { input_game_dir: t@, ..m },
        },
        Message::VersionDownloaded(v) => LauncherModel {
            versions: m.versions.insert(v),
            downloading: false,
            ..m
        },
        Message::VersionDownloadFailed(_) => LauncherModel {
            downloading: false,
            download_update: failed_after(m.download_update),
            ..m
        },
        Message::VersionDownloadUpdate(u) => LauncherModel { download_update: u, ..m },
        Message::VersionDownloadClear => LauncherModel { download_update: DownloadUpdate::Idle, ..m },
    }
}

/// Nothing to log and nothing to do.
pub open spec fn quiet(o: Outcome) -> bool {
    o.log is None && o.effect is Nothing
}

/// Logs exactly `line`.
pub open spec fn logs(o: Outcome, line: Seq<char>) -> bool {
    o.log matches Some(l) && l@ == line
}

/// What the launcher hands back for a message.
pub open spec fn outcome_spec(m: LauncherModel, msg: Message, o: Outcome) -> bool {
    match msg {
        Message::Button(b) => match b {
            ButtonMessage::DownloadVersion => match parse_spec(m.input_version) {
                Ok(v) => if m.versions.contains(v) {
                    quiet(o)
                } else {
                    &&& o.log is None
                    &&& o.effect matches Effect::StartDownload { game_dir, version }
                    &&& game_dir@ == m.game_dir
                    &&& version == v
                },
                Err(_) => o.effect is Nothing && logs(o, invalid_input_message(m.input_version)),
            },
            ButtonMessage::RunVersion => match parse_spec(m.input_version) {
                Ok(v) => if m.versions.contains(v) {
                    o.log is None && o.effect == Effect::Launch { version: v }
                } else {
                    o.effect is Nothing && logs(
                        o,
                        "Error running version: "@ + unavailable_message(v),
                    )
                },
                Err(_) => o.effect is Nothing && logs(o, invalid_input_message(m.input_version)),
            },
            ButtonMessage::OpenSettings => quiet(o),
            ButtonMessage::ExitSettings => quiet(o),
            ButtonMessage::SaveSettings => {
                &&& o.log is None
                &&& o.effect matches Effect::ApplySettings { old_game_dir, new_game_dir }
                &&& old_game_dir@ == m.game_dir
                &&& new_game_dir@ == m.input_game_dir
            },
        },
        Message::Input(_) => quiet(o),
        Message::VersionDownloaded(_) => o.log is None && o.effect is SaveVersions,
        Message::VersionDownloadFailed(e) => o.effect is ClearLater && logs(
            o,
            "Version download failed: "@ + e@,
        ),
        Message::VersionDownloadUpdate(_) => quiet(o),
        Message::VersionDownloadClear => quiet(o),
    }
}

fn quiet_outcome() -> (o: Outcome)
    ensures
        quiet(o),
{
    Outcome { log: None, effect: Effect::Nothing }
}

fn invalid_input_line(input: &String) -> (r: String)
    ensures
        r@ == invalid_input_message(input@),
{
    let mut line = "Invalid version format: ".to_string();
    line.append(input.as_str());
    line
}

impl Launcher {
    /// Whether `version` can be run: an error message where it is not installed.
    pub fn run_version(&self, version: Version) -> (r: Result<(), String>)
        ensures
            self@.versions.contains(version) ==> r is Ok,
            !self@.versions.contains(version) ==> (r matches Err(e) && e@ == unavailable_message(
                version,
            )),
    {
        if !self.is_installed(version) {
            let mut e = "Version v".to_string();
            let text = version.to_string();
            e.append(text.as_str());
            e.append(" is not available");
            return Err(e);
        }
        Ok(())
    }

    /// Whether the download button can be pressed.
    pub fn download_enabled(&self) -> (r: bool)
        ensures
            r == download_enabled_spec(self@),
    {
        if self.version_downloading || self.input_version_content.as_str().is_empty() {
            return false;
        }
        match parse_version(self.input_version_content.as_str()) {
            Ok(v) => !self.is_installed(v),
            Err(_) => false,
        }
    }

    /// The caption of the download button.
    pub fn download_button_label(&self) -> (r: &'static str)
        ensures
            r@ == (if self@.downloading {
                "Downloading..."@
            } else {
                "Download Version"@
            }),
    {
        if self.version_downloading {
            "Downloading..."
        } else {
            "Download Version"
        }
    }

    /// Reacts to a message: changes the launcher as `next_model` says and hands
    /// back the line to log and the outside work, as `outcome_spec` says.
    pub fn update(&mut self, msg: Message) -> (o: Outcome)
        ensures
            final(self)@ == next_model(old(self)@, msg),
            outcome_spec(old(self)@, msg, o),
    {
        proof {
            use_type_invariant(&*self);
        }
        match msg {
            Message::Button(b) => match b {
                ButtonMessage::DownloadVersion => match parse_version(
                    self.input_version_content.as_str(),
                ) {
                    Ok(version) => {
                        if self.is_installed(version) {
                            return quiet_outcome();
                        }
                        self.version_downloading = true;
                        let game_dir = self.launcher_settings.game_dir.clone();
                        Outcome { log: None, effect: Effect::StartDownload { game_dir, version } }
                    },
                    Err(_) => Outcome {
                        log: Some(invalid_input_line(&self.input_version_content)),
                        effect: Effect::Nothing,
                    },
                },
                ButtonMessage::RunVersion => match parse_version(
                    self.input_version_content.as_str(),
                ) {
                    Ok(version) => match self.run_version(version) {
                        Ok(()) => Outcome { log: None, effect: Effect::Launch { version } },
                        Err(e) => {
                            let mut line = "Error running version: ".to_string();
                            line.append(e.as_str());
                            Outcome { log: Some(line), effect: Effect::Nothing }
                        },
                    },
                    Err(_) => Outcome {
                        log: Some(invalid_input_line(&self.input_version_content)),
                        effect: Effect::Nothing,
                    },
                },
                ButtonMessage::OpenSettings => {
                    self.page = Page::Settings;
                    quiet_outcome()
                },
                ButtonMessage::ExitSettings => {
                    self.page = Page::Main;
                    quiet_outcome()
                },
                ButtonMessage::SaveSettings => {
                    let old_game_dir = self.launcher_settings.game_dir.clone();
                    let new_game_dir = self.input_game_dir_content.clone();
                    self.launcher_settings.game_dir = self.input_game_dir_content.clone();
                    self.page = Page::Main;
                    Outcome { log: None, effect: Effect::ApplySettings { old_game_dir, new_game_dir } }
                },
            },
            Message::Input(i) => match i {
                InputMessage::VersionContentChanged(t) => {
                    self.input_version_content = t;
                    quiet_outcome()
                },
                InputMessage::GameDirContentChanged(t) => {
                    self.input_game_dir_content = t;
                    quiet_outcome()
                },
            },
            Message::VersionDownloaded(version) => {
                let ghost before = self.versions@;
                if !self.is_installed(version) {
                    let mut versions = Vec::new();
                    std::mem::swap(&mut versions, &mut self.versions);
                    versions.push(version);
                    self.versions = versions;
                    proof {
                        lemma_push_to_set(before, version);
                    }
                } else {
                    assert(before.to_set() =~= before.to_set().insert(version));
                }
                self.version_downloading = false;
                Outcome { log: None, effect: Effect::SaveVersions }
            },
            Message::VersionDownloadFailed(error) => {
                let mut line = "Version download failed: ".to_string();
                line.append(error.as_str());
                self.version_downloading = false;
                self.version_download_update = match self.version_download_update {
                    DownloadUpdate::Progress { progress, .. } => DownloadUpdate::Failed {
                        last_progress: Some(progress),
                    },
                    _ => DownloadUpdate::Failed { last_progress: None },
                };
                Outcome { log: Some(line), effect: Effect::ClearLater }
            },
            Message::VersionDownloadUpdate(update) => {
                self.version_download_update = update;
                quiet_outcome()
            },
            Message::VersionDownloadClear => {
                self.version_download_update = DownloadUpdate::default();
                quiet_outcome()
            },
        }
    }
}

// ---------------------------------------------------------------------------
// Laws
// ---------------------------------------------------------------------------

/// Pressing the download button while it can be pressed starts the download of
/// the typed version and marks the launcher as downloading.
pub proof fn lemma_enabled_button_downloads(m: LauncherModel, o: Outcome)
    requires
        download_enabled_spec(m),
        outcome_spec(m, Message::Button(ButtonMessage::DownloadVersion), o),
    ensures
        o.effect matches Effect::StartDownload { version, .. } && parse_spec(m.input_version) == Ok::<
            Version,
            VersionParseError,
        >(version) && !m.versions.contains(version),
        next_model(m, Message::Button(ButtonMessage::DownloadVersion)).downloading,
{
}

/// A downloaded version is installed, and the launcher no longer downloads.
pub proof fn lemma_downloaded_is_installed(m: LauncherModel, v: Version)
    ensures
        next_model(m, Message::VersionDownloaded(v)).versions.contains(v),
        !next_model(m, Message::VersionDownloaded(v)).downloading,
        next_model(m, Message::VersionDownloaded(v)).versions == m.versions.insert(v),
{
}

/// Once the typed version is downloaded, the download button cannot be pressed,
/// and pressing it anyway changes nothing and asks for nothing.
pub proof fn lemma_no_second_download(m: LauncherModel, v: Version, o: Outcome)
    requires
        parse_spec(m.input_version) == Ok::<Version, VersionParseError>(v),
        outcome_spec(
            next_model(m, Message::VersionDownloaded(v)),
            Message::Button(ButtonMessage::DownloadVersion),
            o,
        ),
    ensures
        !download_enabled_spec(next_model(m, Message::VersionDownloaded(v))),
        next_model(
            next_model(m, Message::VersionDownloaded(v)),
            Message::Button(ButtonMessage::DownloadVersion),
        ) == next_model(m, Message::VersionDownloaded(v)),
        quiet(o),
{
    assert(next_model(m, Message::VersionDownloaded(v)).versions.contains(v));
}

/// Opening the settings and leaving them again comes back to the main page and
/// changes nothing else.
pub proof fn lemma_settings_open_close(m: LauncherModel)
    ensures
        next_model(
            next_model(m, Message::Button(ButtonMessage::OpenSettings)),
            Message::Button(ButtonMessage::ExitSettings),
        ) == (LauncherModel { page: Page::Main, ..m }),
{
}

/// A failed download stops the download and keeps the progress it had reached.
pub proof fn lemma_failure_keeps_progress(m: LauncherModel, e: String, progress: u32, speed: u32)
    requires
        m.download_update == (DownloadUpdate::Progress { progress, speed }),
    ensures
        next_model(m, Message::VersionDownloadFailed(e)).download_update == (DownloadUpdate::Failed {
            last_progress: Some(progress),
        }),
        !next_model(m, Message::VersionDownloadFailed(e)).downloading,
{
}

/// A failed download is always shown as failed, whatever was shown before; the
/// progress reached is kept where a download was in progress, and there is none
/// otherwise. Nothing downloads any more, and nothing else changes.
pub proof fn lemma_failure_always_shown(m: LauncherModel, e: String)
    ensures
        match m.download_update {
            DownloadUpdate::Progress { progress, speed } => next_model(
                m,
                Message::VersionDownloadFailed(e),
            ).download_update == (DownloadUpdate::Failed { last_progress: Some(progress) }),
            _ => next_model(m, Message::VersionDownloadFailed(e)).download_update == (
            DownloadUpdate::Failed { last_progress: None }),
        },
        next_model(m, Message::VersionDownloadFailed(e)) == (LauncherModel {
            downloading: false,
            download_update: next_model(m, Message::VersionDownloadFailed(e)).download_update,
            ..m
        }),
{
}

/// The download button can be pressed exactly when nothing downloads, something
/// is typed, and it reads as a version that is not installed, whatever its stage.
pub proof fn lemma_download_enabled_exactly(m: LauncherModel)
    ensures
        download_enabled_spec(m) <==> (!m.downloading && m.input_version.len() > 0 && exists|v: Version|
            parse_spec(m.input_version) == Ok::<Version, VersionParseError>(v)
                && !m.versions.contains(v)),
{
    if !m.downloading && m.input_version.len() > 0 && exists|v: Version|
        parse_spec(m.input_version) == Ok::<Version, VersionParseError>(v) && !m.versions.contains(v) {
        let v = choose|v: Version|
            parse_spec(m.input_version) == Ok::<Version, VersionParseError>(v) && !m.versions.contains(v);
        assert(download_target(m) == Some(v));
    }
}

/// Typed text changes the input it was typed into, and nothing else.
pub proof fn lemma_typing_changes_only_input(m: LauncherModel, t: String)
    ensures
        next_model(m, Message::Input(InputMessage::VersionContentChanged(t))) == (LauncherModel {
            input_version: t@,
            ..m
        }),
{
}

/// The versions read from a file that names the texts of some versions are
/// those versions: what `versions_json` writes, `load_versions` reads back.
pub proof fn lemma_versions_file_round_trip(versions: Set<Version>, text: Seq<char>)
    requires
        json_string_set(text) == Some(versions.map(|v: Version| display_spec(v))),
    ensures
        versions_of_file(text) == Some(versions),
{
    let names = versions.map(|v: Version| display_spec(v));
    assert(parsed_versions(names) =~= versions) by {
        assert forall|v: Version| versions.contains(v) implies #[trigger] parsed_versions(names).contains(v) by {
            lemma_parse_display(v);
            assert(names.contains(display_spec(v)));
            assert(parse_spec(display_spec(v)) == Ok::<Version, VersionParseError>(v));
        }
        assert forall|v: Version| #[trigger] parsed_versions(names).contains(v) implies versions.contains(v) by {
            let s = choose|s: Seq<char>|
                names.contains(s) && #[trigger] parse_spec(s) == Ok::<Version, VersionParseError>(v);
            let w = choose|w: Version| versions.contains(w) && display_spec(w) == s;
            lemma_parse_display(w);
        }
    }
}

} // verus!
