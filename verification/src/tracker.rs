//! What the activity trackers record: which focused apps count, how saved
//! files are classified, and which repeated events are dropped.
use vstd::prelude::*;
use crate::text::{
    eq_ignore_ascii_case, eq_ignoring_ascii_case, fold_ascii, lowercase, starts_with, str_eq, to_lowercase,
};

verus! {

/// Whether every app is tracked, or only the allowlisted ones.
#[derive(Clone, Copy, PartialEq, Eq, Debug, Structural)]
pub enum AppFilterMode {
    All,
    Allowlist,
}

/// The mode used when the configuration names none.
pub fn default_mode() -> (m: AppFilterMode)
    ensures
        m == AppFilterMode::All,
{
    AppFilterMode::All
}

impl AppFilterMode {
    /// The mode named by the settings page: `"allowlist"`, or else every app.
    pub fn from_setting(name: &str) -> (m: AppFilterMode)
        ensures
            m == (if name@ == "allowlist"@ { AppFilterMode::Allowlist } else { AppFilterMode::All }),
    {
        if str_eq(name, "allowlist") {
            AppFilterMode::Allowlist
        } else {
            AppFilterMode::All
        }
    }
}

/// The tracker configuration (`config.json`).
#[derive(Clone)]
pub struct TrackerConfig {
    pub mode: AppFilterMode,
    /// Executable names tracked in allowlist mode.
    pub apps: Vec<String>,
    /// Folders watched for saves; none (or an empty list) means the standard
    /// user folders.
    pub watch_folders: Option<Vec<String>>,
}

impl Default for TrackerConfig {
    fn default() -> (c: TrackerConfig)
        ensures
            c.mode == AppFilterMode::All,
            c.apps@.len() == 0,
            c.watch_folders is None,
    {
        TrackerConfig { mode: AppFilterMode::All, apps: Vec::new(), watch_folders: None }
    }
}

impl TrackerConfig {
    /// The folders the configuration names explicitly; `None` asks for the
    /// standard user folders.
    pub fn explicit_watch_folders(&self) -> (f: Option<&Vec<String>>)
        ensures
            f == (match &self.watch_folders {
                Some(list) => if list@.len() > 0 { Some(list) } else { None },
                None => None,
            }),
    {
        match &self.watch_folders {
            Some(list) => if list.len() > 0 {
                Some(list)
            } else {
                None
            },
            None => None,
        }
    }
}

/// The settings page's request to save the tracker configuration.
pub struct SaveConfigArgs {
    pub mode: String,
    pub apps: Vec<String>,
    pub watch_folders: Option<Vec<String>>,
}

impl TrackerConfig {
    /// The configuration the settings page asks to save: the mode by name
    /// (see [`AppFilterMode::from_setting`]), the lists as given.
    pub fn from_args(args: SaveConfigArgs) -> (c: TrackerConfig)
        ensures
            c.mode == (if args.mode@ == "allowlist"@ { AppFilterMode::Allowlist } else { AppFilterMode::All }),
            c.apps == args.apps,
            c.watch_folders == args.watch_folders,
    {
        TrackerConfig {
            mode: AppFilterMode::from_setting(args.mode.as_str()),
            apps: args.apps,
            watch_folders: args.watch_folders,
        }
    }
}

/// `dir` followed by `name`, as `Path::join` writes it: the name either
/// directly or after one separator.
pub open spec fn joined_under(dir: Seq<char>, name: Seq<char>, path: Seq<char>) -> bool {
    ||| path == dir + name
    ||| path == dir + seq!['/'] + name
    ||| path == dir + seq!['\\'] + name
}

/// `\\?\`: a Windows verbatim prefix, under which `Path::join` normalizes.
pub open spec fn verbatim_prefixed(p: Seq<char>) -> bool {
    seq!['\\', '\\', '?', '\\'].is_prefix_of(p)
}

/// A relative file name: no separators, no drive colon, not `.` or `..`.
pub open spec fn plain_file_name(n: Seq<char>) -> bool {
    &&& n.len() > 0
    &&& !n.contains('/') && !n.contains('\\') && !n.contains(':')
    &&& n != seq!['.'] && n != seq!['.', '.']
}

/// `Path::join(dir, name)`, as text. For a plain file name the result ends
/// with the name and, unless the directory has a verbatim prefix (which
/// `join` normalizes), is the directory followed by the name, directly or
/// after one separator. Whether a separator is added, and which one, is
/// left to the target and not stated.
#[verifier::external_body]
fn path_join(dir: &str, name: &str) -> (p: String)
    requires
        plain_file_name(name@),
    ensures
        name@.is_suffix_of(p@),
        !verbatim_prefixed(dir@) ==> joined_under(dir@, name@, p@),
{
    std::path::Path::new(dir).join(name).to_string_lossy().into_owned()
}

/// The configuration file inside the data directory.
pub fn config_path(data_dir: &str) -> (p: String)
    ensures
        "config.json"@.is_suffix_of(p@),
        !verbatim_prefixed(data_dir@) ==> joined_under(data_dir@, "config.json"@, p@),
{
    proof {
        reveal_strlit("config.json");
        assert(!"config.json"@.contains('/'));
        assert(!"config.json"@.contains('\\'));
        assert(!"config.json"@.contains(':'));
        assert("config.json"@ != seq!['.']);
        assert("config.json"@ != seq!['.', '.']);
    }
    path_join(data_dir, "config.json")
}

#[verifier::external_type_specification]
#[verifier::external_body]
pub struct ExJsonValue(serde_json::Value);

/// What `serde_json::from_str::<serde_json::Value>` gives for `text`: the
/// JSON document it reads, or the text of its error.
pub uninterp spec fn json_read(text: Seq<char>) -> Result<serde_json::Value, Seq<char>>;

/// Whether serde_json reads `text` as one JSON document.
pub open spec fn json_accepts(text: Seq<char>) -> bool {
    json_read(text) is Ok
}

/// A parse result with its error message taken as text.
pub open spec fn read_view(r: Result<serde_json::Value, String>) -> Result<serde_json::Value, Seq<char>> {
    match r {
        Ok(v) => Ok(v),
        Err(e) => Err(e@),
    }
}

/// `serde_json::from_str::<serde_json::Value>`: the JSON document in `text`,
/// or the parser's message, both decided by the text alone.
#[verifier::external_body]
fn parse_json_value(text: &str) -> (r: Result<serde_json::Value, String>)
    ensures
        read_view(r) == json_read(text@),
{
    serde_json::from_str(text).map_err(|e| e.to_string())
}

/// The stored tracker configuration as the settings page reads it: the
/// configuration file's text as a JSON document, or why it is none.
pub fn config_document(text: &str) -> (r: Result<serde_json::Value, String>)
    ensures
        read_view(r) == json_read(text@),
        r is Ok <==> json_accepts(text@),
{
    parse_json_value(text)
}

/// Whether the configuration tracks the executable `exe`: every app, or an
/// allowlisted name equal up to ASCII case.
pub open spec fn tracks(config: TrackerConfig, exe: Seq<char>) -> bool {
    match config.mode {
        AppFilterMode::All => true,
        AppFilterMode::Allowlist => exists|i: int|
            0 <= i < config.apps@.len() && eq_ignoring_ascii_case(#[trigger] config.apps@[i]@, exe),
    }
}

/// Whether focus on the executable `exe_name` is recorded.
pub fn should_track(config: &TrackerConfig, exe_name: &str) -> (b: bool)
    ensures
        b == tracks(*config, exe_name@),
{
    match config.mode {
        AppFilterMode::All => true,
        AppFilterMode::Allowlist => {
            let mut i: usize = 0;
            while i < config.apps.len()
                invariant
                    config.mode == AppFilterMode::Allowlist,
                    i <= config.apps.len(),
                    forall|j: int| 0 <= j < i ==> !eq_ignoring_ascii_case(#[trigger] config.apps@[j]@, exe_name@),
                decreases config.apps.len() - i,
            {
                if eq_ignore_ascii_case(config.apps[i].as_str(), exe_name) {
                    return true;
                }
                i = i + 1;
            }
            false
        },
    }
}

/// Whether an app is tracked does not depend on the ASCII case of its name.
pub proof fn law_tracking_ignores_ascii_case(config: TrackerConfig, a: Seq<char>, b: Seq<char>)
    requires
        eq_ignoring_ascii_case(a, b),
    ensures
        tracks(config, a) == tracks(config, b),
{
    if config.mode == AppFilterMode::Allowlist {
        assert forall|i: int| 0 <= i < config.apps@.len() implies eq_ignoring_ascii_case(
            #[trigger] config.apps@[i]@,
            a,
        ) == eq_ignoring_ascii_case(config.apps@[i]@, b) by {
            let x = config.apps@[i]@;
            if eq_ignoring_ascii_case(x, a) {
                assert forall|k: int| 0 <= k < x.len() implies fold_ascii(#[trigger] x[k]) == fold_ascii(b[k]) by {
                    assert(fold_ascii(x[k]) == fold_ascii(a[k]));
                    assert(fold_ascii(a[k]) == fold_ascii(b[k]));
                }
            }
            if eq_ignoring_ascii_case(x, b) {
                assert forall|k: int| 0 <= k < x.len() implies fold_ascii(#[trigger] x[k]) == fold_ascii(a[k]) by {
                    assert(fold_ascii(x[k]) == fold_ascii(b[k]));
                    assert(fold_ascii(a[k]) == fold_ascii(b[k]));
                }
            }
        }
    }
}

/// The executable and title of the foreground window.
pub struct ForegroundInfo {
    pub exe_name: String,
    pub window_title: String,
}

/// A focus event to store.
pub struct FocusEvent {
    pub app_name: String,
    /// The window title, when there is one.
    pub detail: Option<String>,
}

/// The executable name the focus tracker records for a process whose image
/// file is named `file_name`: the name lower-cased, or none when that is
/// empty.
pub fn exe_name(file_name: &str) -> (name: Option<String>)
    ensures
        name is None <==> lowercase(file_name@).len() == 0,
        name matches Some(n) ==> n@ == lowercase(file_name@),
{
    let lower = to_lowercase(file_name);
    if lower.as_str().is_empty() {
        None
    } else {
        Some(lower)
    }
}

/// Our own process, whose focus is never recorded.
pub open spec fn own_process() -> Seq<char> {
    "activity-widget"@
}

/// The focus tracker's memory: the last app it saw.
pub struct FocusState {
    pub last_app: Option<String>,
}

pub open spec fn last_text(s: FocusState) -> Option<Seq<char>> {
    match s.last_app {
        Some(a) => Some(a@),
        None => None,
    }
}

pub open spec fn event_text(ev: Option<FocusEvent>) -> Option<(Seq<char>, Option<Seq<char>>)> {
    match ev {
        Some(e) => Some((e.app_name@, match e.detail {
            Some(d) => Some(d@),
            None => None,
        })),
        None => None,
    }
}

/// One foreground sample: the app remembered next, and the event recorded
/// (app name and optional title detail), if any.
pub open spec fn focus_next(
    last: Option<Seq<char>>,
    config: TrackerConfig,
    exe: Seq<char>,
    title: Seq<char>,
) -> (Option<Seq<char>>, Option<(Seq<char>, Option<Seq<char>>)>) {
    if own_process().is_prefix_of(exe) || last == Some(exe) {
        (last, None)
    } else if !tracks(config, exe) {
        (Some(exe), None)
    } else {
        (Some(exe), Some((exe, if title.len() == 0 { None } else { Some(title) })))
    }
}

impl FocusState {
    pub fn new() -> (s: FocusState)
        ensures
            s.last_app is None,
    {
        FocusState { last_app: None }
    }

    /// One foreground sample: our own window is ignored, a repeat of the
    /// last app is ignored, an untracked app is only remembered, and a newly
    /// focused tracked app is remembered and recorded, with its window title
    /// as detail when it has one.
    pub fn observe(&mut self, config: &TrackerConfig, info: ForegroundInfo) -> (ev: Option<FocusEvent>)
        ensures
            (last_text(*final(self)), event_text(ev)) == focus_next(
                last_text(*old(self)),
                *config,
                info.exe_name@,
                info.window_title@,
            ),
    {
        if starts_with(info.exe_name.as_str(), "activity-widget") {
            return None;
        }
        let same = match &self.last_app {
            Some(last) => *last == info.exe_name,
            None => false,
        };
        if same {
            return None;
        }
        if !should_track(config, info.exe_name.as_str()) {
            self.last_app = Some(info.exe_name);
            return None;
        }
        let detail = if info.window_title.as_str().is_empty() {
            None
        } else {
            Some(info.window_title)
        };
        let app_name = info.exe_name.clone();
        self.last_app = Some(info.exe_name);
        Some(FocusEvent { app_name, detail })
    }
}

/// Focus staying on an app is recorded once: right after an app's focus
/// event, the same app in the foreground records nothing.
pub proof fn law_focus_recorded_once(
    last: Option<Seq<char>>,
    config: TrackerConfig,
    exe: Seq<char>,
    t1: Seq<char>,
    t2: Seq<char>,
)
    requires
        focus_next(last, config, exe, t1).1 is Some,
    ensures
        focus_next(focus_next(last, config, exe, t1).0, config, exe, t2).1 is None,
{
}

/// A sample of the widget's own window changes nothing: nothing is
/// recorded and the remembered app stays as it was, so an app focused again
/// after a glance at the widget is not recorded a second time.
pub proof fn law_own_window_changes_nothing(
    last: Option<Seq<char>>,
    config: TrackerConfig,
    exe: Seq<char>,
    title: Seq<char>,
)
    requires
        "activity-widget"@.is_prefix_of(exe),
    ensures
        focus_next(last, config, exe, title) == (last, None::<(Seq<char>, Option<Seq<char>>)>),
{
}

/// Focus on an app, then on the widget itself, then on the same app again
/// records the app once.
pub proof fn law_glance_at_widget_records_once(
    last: Option<Seq<char>>,
    config: TrackerConfig,
    app: Seq<char>,
    widget: Seq<char>,
    t1: Seq<char>,
    t2: Seq<char>,
    t3: Seq<char>,
)
    requires
        "activity-widget"@.is_prefix_of(widget),
        focus_next(last, config, app, t1).1 is Some,
    ensures
        ({
            let s1 = focus_next(last, config, app, t1).0;
            let s2 = focus_next(s1, config, widget, t2).0;
            &&& focus_next(s1, config, widget, t2).1 is None
            &&& focus_next(s2, config, app, t3).1 is None
        }),
{
}

/// Only tracked apps other than this widget itself are ever recorded, under
/// their own name.
pub proof fn law_focus_records_only_tracked(
    last: Option<Seq<char>>,
    config: TrackerConfig,
    exe: Seq<char>,
    title: Seq<char>,
)
    ensures
        focus_next(last, config, exe, title).1 matches Some(e) ==> {
            &&& e.0 == exe
            &&& tracks(config, exe)
            &&& !own_process().is_prefix_of(exe)
        },
{
}

// ---------- configuration reload ----------

/// How often the focus tracker samples the foreground window and the
/// configuration file (ms).
pub const FOCUS_POLL_MS: u64 = 1500;

/// One look at the configuration file's modification time `modified`:
/// whether to reload the configuration, and the time remembered afterwards.
/// A time other than the remembered one (or the first one seen) reloads.
pub open spec fn reload_step(seen: Option<i128>, modified: i128) -> (bool, Option<i128>) {
    if seen == Some(modified) {
        (false, seen)
    } else {
        (true, Some(modified))
    }
}

/// The focus tracker's memory of the configuration file's modification
/// time, in nanoseconds from the Unix epoch (negative before it).
pub struct ConfigWatch {
    pub seen: Option<i128>,
}

impl ConfigWatch {
    /// Starts from the modification time read when the configuration was
    /// first loaded, if it could be read.
    pub fn new(loaded_at: Option<i128>) -> (w: ConfigWatch)
        ensures
            w.seen == loaded_at,
    {
        ConfigWatch { seen: loaded_at }
    }

    /// A poll that read the modification time `modified`: whether the
    /// configuration has to be reloaded.
    pub fn poll(&mut self, modified: i128) -> (reload: bool)
        ensures
            (reload, final(self).seen) == reload_step(old(self).seen, modified),
    {
        match self.seen {
            Some(t) => if t == modified {
                return false;
            },
            None => {},
        }
        self.seen = Some(modified);
        true
    }
}

/// The configuration is reloaded once per change of the file: right after a
/// reload, a poll that reads the same time does not reload again, and one
/// that reads another time does.
pub proof fn law_reload_once_per_change(seen: Option<i128>, m1: i128, m2: i128)
    ensures
        !reload_step(reload_step(seen, m1).1, m1).0,
        m2 != m1 ==> reload_step(reload_step(seen, m1).1, m2).0,
        reload_step(seen, m1).0 <==> seen != Some(m1),
{
}

// ---------- watched folders ----------

/// The texts of a list of strings.
pub open spec fn texts(v: Seq<String>) -> Seq<Seq<char>> {
    v.map_values(|s: String| s@)
}

/// The folders the file watcher is to watch: those the configuration names,
/// or else `defaults` (the standard user folders).
pub open spec fn wanted_folders(config: TrackerConfig, defaults: Seq<Seq<char>>) -> Seq<Seq<char>> {
    match config.watch_folders {
        Some(list) => if list@.len() > 0 {
            texts(list@)
        } else {
            defaults
        },
        None => defaults,
    }
}

/// The items of `items` that `other` does not hold, in their order.
pub open spec fn missing_from(items: Seq<Seq<char>>, other: Seq<Seq<char>>) -> Seq<Seq<char>>
    decreases items.len(),
{
    if items.len() == 0 {
        Seq::empty()
    } else {
        let rest = missing_from(items.drop_last(), other);
        if other.contains(items.last()) {
            rest
        } else {
            rest.push(items.last())
        }
    }
}

fn contains_text(list: &Vec<String>, s: &String) -> (b: bool)
    ensures
        b == texts(list@).contains(s@),
{
    let mut i: usize = 0;
    while i < list.len()
        invariant
            i <= list.len(),
            forall|j: int| 0 <= j < i ==> list@[j]@ != s@,
        decreases list.len() - i,
    {
        if str_eq(list[i].as_str(), s.as_str()) {
            assert(texts(list@)[i as int] == s@);
            return true;
        }
        i = i + 1;
    }
    proof {
        if texts(list@).contains(s@) {
            let j = choose|j: int| 0 <= j < texts(list@).len() && texts(list@)[j] == s@;
            assert(list@[j]@ == s@);
        }
    }
    false
}

fn missing(items: &Vec<String>, other: &Vec<String>) -> (r: Vec<String>)
    ensures
        texts(r@) == missing_from(texts(items@), texts(other@)),
{
    let ghost all = texts(items@);
    let mut r: Vec<String> = Vec::new();
    let mut i: usize = 0;
    assert(all.take(0) =~= Seq::<Seq<char>>::empty());
    while i < items.len()
        invariant
            i <= items.len(),
            all == texts(items@),
            texts(r@) == missing_from(all.take(i as int), texts(other@)),
        decreases items.len() - i,
    {
        proof {
            assert(all.take(i + 1).drop_last() =~= all.take(i as int));
            assert(all.take(i + 1).last() == items@[i as int]@);
        }
        if !contains_text(other, &items[i]) {
            let item = items[i].clone();
            r.push(item);
            assert(texts(r@) =~= missing_from(all.take(i as int), texts(other@)).push(items@[i as int]@));
        }
        i = i + 1;
    }
    assert(all.take(items.len() as int) =~= all);
    r
}

/// How the watched folders change when the configuration becomes `config`:
/// the folders to start watching (wanted, not yet watched) and those to stop
/// watching (watched, no longer wanted), each in its list's order. `current`
/// is what is watched now; `defaults` are the standard user folders, wanted
/// when the configuration names none.
pub fn watch_change(current: &Vec<String>, config: &TrackerConfig, defaults: &Vec<String>) -> (r: (
    Vec<String>,
    Vec<String>,
))
    ensures
        texts(r.0@) == missing_from(wanted_folders(*config, texts(defaults@)), texts(current@)),
        texts(r.1@) == missing_from(texts(current@), wanted_folders(*config, texts(defaults@))),
{
    let wanted: &Vec<String> = match config.explicit_watch_folders() {
        Some(list) => list,
        None => defaults,
    };
    (missing(wanted, current), missing(current, wanted))
}

proof fn lemma_missing_from_contains(items: Seq<Seq<char>>, other: Seq<Seq<char>>, f: Seq<char>)
    ensures
        missing_from(items, other).contains(f) <==> (items.contains(f) && !other.contains(f)),
    decreases items.len(),
{
    if items.len() > 0 {
        let init = items.drop_last();
        lemma_missing_from_contains(init, other, f);
        let rest = missing_from(init, other);
        if rest.contains(f) {
            let j = choose|j: int| 0 <= j < rest.len() && rest[j] == f;
            if !other.contains(items.last()) {
                assert(rest.push(items.last())[j] == f);
            }
        }
        if init.contains(f) {
            let j = choose|j: int| 0 <= j < init.len() && init[j] == f;
            assert(items[j] == f);
        }
        if items.contains(f) {
            let j = choose|j: int| 0 <= j < items.len() && items[j] == f;
            if j < items.len() - 1 {
                assert(init[j] == f);
            }
        }
        if !other.contains(items.last()) {
            assert(rest.push(items.last())[rest.len() as int] == items.last());
            if rest.push(items.last()).contains(f) {
                let j = choose|j: int| 0 <= j < rest.len() + 1 && rest.push(items.last())[j] == f;
                if j < rest.len() {
                    assert(rest[j] == f);
                }
            }
        }
    }
}

/// Applying a watch change leaves exactly the wanted folders watched: a
/// folder is watched afterwards (watched before and not stopped, or
/// started) exactly when it is wanted.
pub proof fn law_watch_change_reaches_wanted(current: Seq<Seq<char>>, wanted: Seq<Seq<char>>, f: Seq<char>)
    ensures
        ((current.contains(f) && !missing_from(current, wanted).contains(f)) || missing_from(
            wanted,
            current,
        ).contains(f)) <==> wanted.contains(f),
{
    lemma_missing_from_contains(current, wanted, f);
    lemma_missing_from_contains(wanted, current, f);
}

// ---------- file saves ----------

pub open spec fn views(v: Seq<&str>) -> Seq<Seq<char>> {
    v.map_values(|s: &str| s@)
}

pub open spec fn code_exts() -> Seq<Seq<char>> {
    seq![
        "rs"@, "ts"@, "tsx"@, "js"@, "jsx"@, "py"@, "go"@, "java"@, "c"@, "cpp"@, "h"@, "hpp"@,
        "cs"@, "rb"@, "php"@, "swift"@, "kt"@, "html"@, "css"@, "scss"@, "json"@, "yaml"@,
        "yml"@, "toml"@, "sql"@, "sh"@, "ps1"@, "bat"@, "vue"@, "svelte"@, "lua"@, "dart"@,
    ]
}

pub open spec fn doc_exts() -> Seq<Seq<char>> {
    seq![
        "md"@, "txt"@, "doc"@, "docx"@, "pdf"@, "xls"@, "xlsx"@, "ppt"@, "pptx"@, "csv"@,
        "rtf"@, "odt"@, "tex"@,
    ]
}

pub open spec fn image_exts() -> Seq<Seq<char>> {
    seq!["png"@, "jpg"@, "jpeg"@, "gif"@, "webp"@, "svg"@, "ico"@, "bmp"@, "heic"@]
}

pub open spec fn media_exts() -> Seq<Seq<char>> {
    seq!["mp4"@, "mkv"@, "mov"@, "avi"@, "mp3"@, "wav"@, "flac"@, "aac"@]
}

/// Extensions of temporary and bookkeeping files, never recorded.
pub open spec fn ignored_exts() -> Seq<Seq<char>> {
    seq!["tmp"@, "temp"@, "crdownload"@, "part"@, "partial"@, "swp"@, "log"@, "lnk"@, "lock"@]
}

/// The category under which a save of a file with extension `ext` is logged.
pub open spec fn bucket_of(ext: Seq<char>) -> Seq<char> {
    if code_exts().contains(ext) {
        "Code"@
    } else if doc_exts().contains(ext) {
        "Docs"@
    } else if image_exts().contains(ext) {
        "Images"@
    } else if media_exts().contains(ext) {
        "Media"@
    } else {
        "Files"@
    }
}

fn in_list(e: &str, list: &Vec<&str>) -> (b: bool)
    ensures
        b == views(list@).contains(e@),
{
    let mut i: usize = 0;
    while i < list.len()
        invariant
            i <= list.len(),
            forall|j: int| 0 <= j < i ==> list@[j]@ != e@,
        decreases list.len() - i,
    {
        if str_eq(list[i], e) {
            assert(views(list@)[i as int] == e@);
            return true;
        }
        i = i + 1;
    }
    proof {
        if views(list@).contains(e@) {
            let j = choose|j: int| 0 <= j < views(list@).len() && views(list@)[j] == e@;
            assert(list@[j]@ == e@);
        }
    }
    false
}

/// The category of a saved file, from its (lower-case) extension.
pub fn extension_bucket(ext: &str) -> (b: &'static str)
    ensures
        b@ == bucket_of(ext@),
{
    let code = vec![
        "rs", "ts", "tsx", "js", "jsx", "py", "go", "java", "c", "cpp", "h", "hpp", "cs", "rb",
        "php", "swift", "kt", "html", "css", "scss", "json", "yaml", "yml", "toml", "sql", "sh",
        "ps1", "bat", "vue", "svelte", "lua", "dart",
    ];
    let docs = vec!["md", "txt", "doc", "docx", "pdf", "xls", "xlsx", "ppt", "pptx", "csv", "rtf", "odt", "tex"];
    let images = vec!["png", "jpg", "jpeg", "gif", "webp", "svg", "ico", "bmp", "heic"];
    let media = vec!["mp4", "mkv", "mov", "avi", "mp3", "wav", "flac", "aac"];
    assert(views(code@) =~= code_exts());
    assert(views(docs@) =~= doc_exts());
    assert(views(images@) =~= image_exts());
    assert(views(media@) =~= media_exts());
    if in_list(ext, &code) {
        "Code"
    } else if in_list(ext, &docs) {
        "Docs"
    } else if in_list(ext, &images) {
        "Images"
    } else if in_list(ext, &media) {
        "Media"
    } else {
        "Files"
    }
}

/// The characters of the extensions in the classification and ignore tables.
proof fn lemma_extension_texts()
    ensures
        "rs"@.len() == 2,
        "rs"@[0] == 'r',
        "rs"@[1] == 's',
        "ts"@.len() == 2,
        "ts"@[0] == 't',
        "ts"@[1] == 's',
        "tsx"@.len() == 3,
        "tsx"@[0] == 't',
        "tsx"@[1] == 's',
        "tsx"@[2] == 'x',
        "js"@.len() == 2,
        "js"@[0] == 'j',
        "js"@[1] == 's',
        "jsx"@.len() == 3,
        "jsx"@[0] == 'j',
        "jsx"@[1] == 's',
        "jsx"@[2] == 'x',
        "py"@.len() == 2,
        "py"@[0] == 'p',
        "py"@[1] == 'y',
        "go"@.len() == 2,
        "go"@[0] == 'g',
        "go"@[1] == 'o',
        "java"@.len() == 4,
        "java"@[0] == 'j',
        "java"@[1] == 'a',
        "java"@[2] == 'v',
        "java"@[3] == 'a',
        "c"@.len() == 1,
        "c"@[0] == 'c',
        "cpp"@.len() == 3,
        "cpp"@[0] == 'c',
        "cpp"@[1] == 'p',
        "cpp"@[2] == 'p',
        "h"@.len() == 1,
        "h"@[0] == 'h',
        "hpp"@.len() == 3,
        "hpp"@[0] == 'h',
        "hpp"@[1] == 'p',
        "hpp"@[2] == 'p',
        "cs"@.len() == 2,
        "cs"@[0] == 'c',
        "cs"@[1] == 's',
        "rb"@.len() == 2,
        "rb"@[0] == 'r',
        "rb"@[1] == 'b',
        "php"@.len() == 3,
        "php"@[0] == 'p',
        "php"@[1] == 'h',
        "php"@[2] == 'p',
        "swift"@.len() == 5,
        "swift"@[0] == 's',
        "swift"@[1] == 'w',
        "swift"@[2] == 'i',
        "swift"@[3] == 'f',
        "swift"@[4] == 't',
        "kt"@.len() == 2,
        "kt"@[0] == 'k',
        "kt"@[1] == 't',
        "html"@.len() == 4,
        "html"@[0] == 'h',
        "html"@[1] == 't',
        "html"@[2] == 'm',
        "html"@[3] == 'l',
        "css"@.len() == 3,
        "css"@[0] == 'c',
        "css"@[1] == 's',
        "css"@[2] == 's',
        "scss"@.len() == 4,
        "scss"@[0] == 's',
        "scss"@[1] == 'c',
        "scss"@[2] == 's',
        "scss"@[3] == 's',
        "json"@.len() == 4,
        "json"@[0] == 'j',
        "json"@[1] == 's',
        "json"@[2] == 'o',
        "json"@[3] == 'n',
        "yaml"@.len() == 4,
        "yaml"@[0] == 'y',
        "yaml"@[1] == 'a',
        "yaml"@[2] == 'm',
        "yaml"@[3] == 'l',
        "yml"@.len() == 3,
        "yml"@[0] == 'y',
        "yml"@[1] == 'm',
        "yml"@[2] == 'l',
        "toml"@.len() == 4,
        "toml"@[0] == 't',
        "toml"@[1] == 'o',
        "toml"@[2] == 'm',
        "toml"@[3] == 'l',
        "sql"@.len() == 3,
        "sql"@[0] == 's',
        "sql"@[1] == 'q',
        "sql"@[2] == 'l',
        "sh"@.len() == 2,
        "sh"@[0] == 's',
        "sh"@[1] == 'h',
        "ps1"@.len() == 3,
        "ps1"@[0] == 'p',
        "ps1"@[1] == 's',
        "ps1"@[2] == '1',
        "bat"@.len() == 3,
        "bat"@[0] == 'b',
        "bat"@[1] == 'a',
        "bat"@[2] == 't',
        "vue"@.len() == 3,
        "vue"@[0] == 'v',
        "vue"@[1] == 'u',
        "vue"@[2] == 'e',
        "svelte"@.len() == 6,
        "svelte"@[0] == 's',
        "svelte"@[1] == 'v',
        "svelte"@[2] == 'e',
        "svelte"@[3] == 'l',
        "svelte"@[4] == 't',
        "svelte"@[5] == 'e',
        "lua"@.len() == 3,
        "lua"@[0] == 'l',
        "lua"@[1] == 'u',
        "lua"@[2] == 'a',
        "dart"@.len() == 4,
        "dart"@[0] == 'd',
        "dart"@[1] == 'a',
        "dart"@[2] == 'r',
        "dart"@[3] == 't',
        "md"@.len() == 2,
        "md"@[0] == 'm',
        "md"@[1] == 'd',
        "txt"@.len() == 3,
        "txt"@[0] == 't',
        "txt"@[1] == 'x',
        "txt"@[2] == 't',
        "doc"@.len() == 3,
        "doc"@[0] == 'd',
        "doc"@[1] == 'o',
        "doc"@[2] == 'c',
        "docx"@.len() == 4,
        "docx"@[0] == 'd',
        "docx"@[1] == 'o',
        "docx"@[2] == 'c',
        "docx"@[3] == 'x',
        "pdf"@.len() == 3,
        "pdf"@[0] == 'p',
        "pdf"@[1] == 'd',
        "pdf"@[2] == 'f',
        "xls"@.len() == 3,
        "xls"@[0] == 'x',
        "xls"@[1] == 'l',
        "xls"@[2] == 's',
        "xlsx"@.len() == 4,
        "xlsx"@[0] == 'x',
        "xlsx"@[1] == 'l',
        "xlsx"@[2] == 's',
        "xlsx"@[3] == 'x',
        "ppt"@.len() == 3,
        "ppt"@[0] == 'p',
        "ppt"@[1] == 'p',
        "ppt"@[2] == 't',
        "pptx"@.len() == 4,
        "pptx"@[0] == 'p',
        "pptx"@[1] == 'p',
        "pptx"@[2] == 't',
        "pptx"@[3] == 'x',
        "csv"@.len() == 3,
        "csv"@[0] == 'c',
        "csv"@[1] == 's',
        "csv"@[2] == 'v',
        "rtf"@.len() == 3,
        "rtf"@[0] == 'r',
        "rtf"@[1] == 't',
        "rtf"@[2] == 'f',
        "odt"@.len() == 3,
        "odt"@[0] == 'o',
        "odt"@[1] == 'd',
        "odt"@[2] == 't',
        "tex"@.len() == 3,
        "tex"@[0] == 't',
        "tex"@[1] == 'e',
        "tex"@[2] == 'x',
        "png"@.len() == 3,
        "png"@[0] == 'p',
        "png"@[1] == 'n',
        "png"@[2] == 'g',
        "jpg"@.len() == 3,
        "jpg"@[0] == 'j',
        "jpg"@[1] == 'p',
        "jpg"@[2] == 'g',
        "jpeg"@.len() == 4,
        "jpeg"@[0] == 'j',
        "jpeg"@[1] == 'p',
        "jpeg"@[2] == 'e',
        "jpeg"@[3] == 'g',
        "gif"@.len() == 3,
        "gif"@[0] == 'g',
        "gif"@[1] == 'i',
        "gif"@[2] == 'f',
        "webp"@.len() == 4,
        "webp"@[0] == 'w',
        "webp"@[1] == 'e',
        "webp"@[2] == 'b',
        "webp"@[3] == 'p',
        "svg"@.len() == 3,
        "svg"@[0] == 's',
        "svg"@[1] == 'v',
        "svg"@[2] == 'g',
        "ico"@.len() == 3,
        "ico"@[0] == 'i',
        "ico"@[1] == 'c',
        "ico"@[2] == 'o',
        "bmp"@.len() == 3,
        "bmp"@[0] == 'b',
        "bmp"@[1] == 'm',
        "bmp"@[2] == 'p',
        "heic"@.len() == 4,
        "heic"@[0] == 'h',
        "heic"@[1] == 'e',
        "heic"@[2] == 'i',
        "heic"@[3] == 'c',
        "mp4"@.len() == 3,
        "mp4"@[0] == 'm',
        "mp4"@[1] == 'p',
        "mp4"@[2] == '4',
        "mkv"@.len() == 3,
        "mkv"@[0] == 'm',
        "mkv"@[1] == 'k',
        "mkv"@[2] == 'v',
        "mov"@.len() == 3,
        "mov"@[0] == 'm',
        "mov"@[1] == 'o',
        "mov"@[2] == 'v',
        "avi"@.len() == 3,
        "avi"@[0] == 'a',
        "avi"@[1] == 'v',
        "avi"@[2] == 'i',
        "mp3"@.len() == 3,
        "mp3"@[0] == 'm',
        "mp3"@[1] == 'p',
        "mp3"@[2] == '3',
        "wav"@.len() == 3,
        "wav"@[0] == 'w',
        "wav"@[1] == 'a',
        "wav"@[2] == 'v',
        "flac"@.len() == 4,
        "flac"@[0] == 'f',
        "flac"@[1] == 'l',
        "flac"@[2] == 'a',
        "flac"@[3] == 'c',
        "aac"@.len() == 3,
        "aac"@[0] == 'a',
        "aac"@[1] == 'a',
        "aac"@[2] == 'c',
        "tmp"@.len() == 3,
        "tmp"@[0] == 't',
        "tmp"@[1] == 'm',
        "tmp"@[2] == 'p',
        "temp"@.len() == 4,
        "temp"@[0] == 't',
        "temp"@[1] == 'e',
        "temp"@[2] == 'm',
        "temp"@[3] == 'p',
        "crdownload"@.len() == 10,
        "crdownload"@[0] == 'c',
        "crdownload"@[1] == 'r',
        "crdownload"@[2] == 'd',
        "crdownload"@[3] == 'o',
        "crdownload"@[4] == 'w',
        "crdownload"@[5] == 'n',
        "crdownload"@[6] == 'l',
        "crdownload"@[7] == 'o',
        "crdownload"@[8] == 'a',
        "crdownload"@[9] == 'd',
        "part"@.len() == 4,
        "part"@[0] == 'p',
        "part"@[1] == 'a',
        "part"@[2] == 'r',
        "part"@[3] == 't',
        "partial"@.len() == 7,
        "partial"@[0] == 'p',
        "partial"@[1] == 'a',
        "partial"@[2] == 'r',
        "partial"@[3] == 't',
        "partial"@[4] == 'i',
        "partial"@[5] == 'a',
        "partial"@[6] == 'l',
        "swp"@.len() == 3,
        "swp"@[0] == 's',
        "swp"@[1] == 'w',
        "swp"@[2] == 'p',
        "log"@.len() == 3,
        "log"@[0] == 'l',
        "log"@[1] == 'o',
        "log"@[2] == 'g',
        "lnk"@.len() == 3,
        "lnk"@[0] == 'l',
        "lnk"@[1] == 'n',
        "lnk"@[2] == 'k',
        "lock"@.len() == 4,
        "lock"@[0] == 'l',
        "lock"@[1] == 'o',
        "lock"@[2] == 'c',
        "lock"@[3] == 'k',
{
    reveal_strlit("rs");
    reveal_strlit("ts");
    reveal_strlit("tsx");
    reveal_strlit("js");
    reveal_strlit("jsx");
    reveal_strlit("py");
    reveal_strlit("go");
    reveal_strlit("java");
    reveal_strlit("c");
    reveal_strlit("cpp");
    reveal_strlit("h");
    reveal_strlit("hpp");
    reveal_strlit("cs");
    reveal_strlit("rb");
    reveal_strlit("php");
    reveal_strlit("swift");
    reveal_strlit("kt");
    reveal_strlit("html");
    reveal_strlit("css");
    reveal_strlit("scss");
    reveal_strlit("json");
    reveal_strlit("yaml");
    reveal_strlit("yml");
    reveal_strlit("toml");
    reveal_strlit("sql");
    reveal_strlit("sh");
    reveal_strlit("ps1");
    reveal_strlit("bat");
    reveal_strlit("vue");
    reveal_strlit("svelte");
    reveal_strlit("lua");
    reveal_strlit("dart");
    reveal_strlit("md");
    reveal_strlit("txt");
    reveal_strlit("doc");
    reveal_strlit("docx");
    reveal_strlit("pdf");
    reveal_strlit("xls");
    reveal_strlit("xlsx");
    reveal_strlit("ppt");
    reveal_strlit("pptx");
    reveal_strlit("csv");
    reveal_strlit("rtf");
    reveal_strlit("odt");
    reveal_strlit("tex");
    reveal_strlit("png");
    reveal_strlit("jpg");
    reveal_strlit("jpeg");
    reveal_strlit("gif");
    reveal_strlit("webp");
    reveal_strlit("svg");
    reveal_strlit("ico");
    reveal_strlit("bmp");
    reveal_strlit("heic");
    reveal_strlit("mp4");
    reveal_strlit("mkv");
    reveal_strlit("mov");
    reveal_strlit("avi");
    reveal_strlit("mp3");
    reveal_strlit("wav");
    reveal_strlit("flac");
    reveal_strlit("aac");
    reveal_strlit("tmp");
    reveal_strlit("temp");
    reveal_strlit("crdownload");
    reveal_strlit("part");
    reveal_strlit("partial");
    reveal_strlit("swp");
    reveal_strlit("log");
    reveal_strlit("lnk");
    reveal_strlit("lock");
}

/// Saves of source code are logged as Code: Rust, TypeScript, JavaScript,
/// Python, Go, Java, C and C++, C#, Ruby, PHP, Swift, Kotlin, web markup and
/// styles, data and config formats, SQL, shell and batch scripts, Vue,
/// Svelte, Lua and Dart files.
pub proof fn law_code_extensions()
    ensures
        bucket_of("rs"@) == "Code"@,
        bucket_of("ts"@) == "Code"@,
        bucket_of("tsx"@) == "Code"@,
        bucket_of("js"@) == "Code"@,
        bucket_of("jsx"@) == "Code"@,
        bucket_of("py"@) == "Code"@,
        bucket_of("go"@) == "Code"@,
        bucket_of("java"@) == "Code"@,
        bucket_of("c"@) == "Code"@,
        bucket_of("cpp"@) == "Code"@,
        bucket_of("h"@) == "Code"@,
        bucket_of("hpp"@) == "Code"@,
        bucket_of("cs"@) == "Code"@,
        bucket_of("rb"@) == "Code"@,
        bucket_of("php"@) == "Code"@,
        bucket_of("swift"@) == "Code"@,
        bucket_of("kt"@) == "Code"@,
        bucket_of("html"@) == "Code"@,
        bucket_of("css"@) == "Code"@,
        bucket_of("scss"@) == "Code"@,
        bucket_of("json"@) == "Code"@,
        bucket_of("yaml"@) == "Code"@,
        bucket_of("yml"@) == "Code"@,
        bucket_of("toml"@) == "Code"@,
        bucket_of("sql"@) == "Code"@,
        bucket_of("sh"@) == "Code"@,
        bucket_of("ps1"@) == "Code"@,
        bucket_of("bat"@) == "Code"@,
        bucket_of("vue"@) == "Code"@,
        bucket_of("svelte"@) == "Code"@,
        bucket_of("lua"@) == "Code"@,
        bucket_of("dart"@) == "Code"@,
{
    broadcast use vstd::seq_lib::lemma_seq_contains_after_push, vstd::seq_lib::lemma_seq_empty_contains_nothing;

    lemma_extension_texts();

}

/// Saves of documents are logged as Docs: text, Markdown, Word, PDF, Excel,
/// PowerPoint, CSV, RTF, OpenDocument text and TeX files.
pub proof fn law_document_extensions()
    ensures
        bucket_of("md"@) == "Docs"@,
        bucket_of("txt"@) == "Docs"@,
        bucket_of("doc"@) == "Docs"@,
        bucket_of("docx"@) == "Docs"@,
        bucket_of("pdf"@) == "Docs"@,
        bucket_of("xls"@) == "Docs"@,
        bucket_of("xlsx"@) == "Docs"@,
        bucket_of("ppt"@) == "Docs"@,
        bucket_of("pptx"@) == "Docs"@,
        bucket_of("csv"@) == "Docs"@,
        bucket_of("rtf"@) == "Docs"@,
        bucket_of("odt"@) == "Docs"@,
        bucket_of("tex"@) == "Docs"@,
{
    broadcast use vstd::seq_lib::lemma_seq_contains_after_push, vstd::seq_lib::lemma_seq_empty_contains_nothing;

    lemma_extension_texts();

}

/// Saves of pictures are logged as Images: PNG, JPEG, GIF, WebP, SVG, icon,
/// bitmap and HEIC files.
pub proof fn law_image_extensions()
    ensures
        bucket_of("png"@) == "Images"@,
        bucket_of("jpg"@) == "Images"@,
        bucket_of("jpeg"@) == "Images"@,
        bucket_of("gif"@) == "Images"@,
        bucket_of("webp"@) == "Images"@,
        bucket_of("svg"@) == "Images"@,
        bucket_of("ico"@) == "Images"@,
        bucket_of("bmp"@) == "Images"@,
        bucket_of("heic"@) == "Images"@,
{
    broadcast use vstd::seq_lib::lemma_seq_contains_after_push, vstd::seq_lib::lemma_seq_empty_contains_nothing;

    lemma_extension_texts();

}

/// Saves of audio and video are logged as Media: MP4, Matroska, QuickTime,
/// AVI, MP3, WAV, FLAC and AAC files.
pub proof fn law_media_extensions()
    ensures
        bucket_of("mp4"@) == "Media"@,
        bucket_of("mkv"@) == "Media"@,
        bucket_of("mov"@) == "Media"@,
        bucket_of("avi"@) == "Media"@,
        bucket_of("mp3"@) == "Media"@,
        bucket_of("wav"@) == "Media"@,
        bucket_of("flac"@) == "Media"@,
        bucket_of("aac"@) == "Media"@,
{
    broadcast use vstd::seq_lib::lemma_seq_contains_after_push, vstd::seq_lib::lemma_seq_empty_contains_nothing;

    lemma_extension_texts();

}

/// Every other extension is logged as Files.
pub proof fn law_other_extensions_are_files(ext: Seq<char>)
    requires
        !(ext == "rs"@ || ext == "ts"@ || ext == "tsx"@ || ext == "js"@ || ext == "jsx"@ || ext == "py"@ || ext == "go"@ || ext == "java"@ || ext == "c"@ || ext == "cpp"@ || ext == "h"@ || ext == "hpp"@ || ext == "cs"@ || ext == "rb"@ || ext == "php"@ || ext == "swift"@ || ext == "kt"@ || ext == "html"@ || ext == "css"@ || ext == "scss"@ || ext == "json"@ || ext == "yaml"@ || ext == "yml"@ || ext == "toml"@ || ext == "sql"@ || ext == "sh"@ || ext == "ps1"@ || ext == "bat"@ || ext == "vue"@ || ext == "svelte"@ || ext == "lua"@ || ext == "dart"@ || ext == "md"@ || ext == "txt"@ || ext == "doc"@ || ext == "docx"@ || ext == "pdf"@ || ext == "xls"@ || ext == "xlsx"@ || ext == "ppt"@ || ext == "pptx"@ || ext == "csv"@ || ext == "rtf"@ || ext == "odt"@ || ext == "tex"@ || ext == "png"@ || ext == "jpg"@ || ext == "jpeg"@ || ext == "gif"@ || ext == "webp"@ || ext == "svg"@ || ext == "ico"@ || ext == "bmp"@ || ext == "heic"@ || ext == "mp4"@ || ext == "mkv"@ || ext == "mov"@ || ext == "avi"@ || ext == "mp3"@ || ext == "wav"@ || ext == "flac"@ || ext == "aac"@),
    ensures
        bucket_of(ext) == "Files"@,
{
    broadcast use vstd::seq_lib::lemma_seq_contains_after_push, vstd::seq_lib::lemma_seq_empty_contains_nothing;

}

/// Saves of temporary and bookkeeping files are never recorded: files with
/// the extensions tmp, temp, crdownload, part, partial, swp, log, lnk and
/// lock, hidden files (`.name`) and Office lock files (`~$name`).
pub proof fn law_ignored_files(name: Seq<char>, ext: Seq<char>)
    ensures
        ext == "tmp"@ ==> !trackable_file(name, ext),
        ext == "temp"@ ==> !trackable_file(name, ext),
        ext == "crdownload"@ ==> !trackable_file(name, ext),
        ext == "part"@ ==> !trackable_file(name, ext),
        ext == "partial"@ ==> !trackable_file(name, ext),
        ext == "swp"@ ==> !trackable_file(name, ext),
        ext == "log"@ ==> !trackable_file(name, ext),
        ext == "lnk"@ ==> !trackable_file(name, ext),
        ext == "lock"@ ==> !trackable_file(name, ext),
        (name.len() > 0 && name[0] == '.') ==> !trackable_file(name, ext),
        (name.len() > 1 && name[0] == '~' && name[1] == '$') ==> !trackable_file(name, ext),
        !(name.len() > 0 && name[0] == '.') && !(name.len() > 1 && name[0] == '~' && name[1] == '$')
            && !(ext == "tmp"@ || ext == "temp"@ || ext == "crdownload"@ || ext == "part"@ || ext == "partial"@ || ext == "swp"@ || ext == "log"@ || ext == "lnk"@ || ext == "lock"@) ==> trackable_file(name, ext),
{
    broadcast use vstd::seq_lib::lemma_seq_contains_after_push, vstd::seq_lib::lemma_seq_empty_contains_nothing;

    lemma_extension_texts();
    if name.len() > 0 && name[0] == '.' {
        assert(name.subrange(0, 1) =~= seq!['.']);
    }
    if name.len() > 1 && name[0] == '~' && name[1] == '$' {
        assert(name.subrange(0, 2) =~= seq!['~', '$']);
    }
    if seq!['.'].is_prefix_of(name) {
        assert(name.subrange(0, 1)[0] == name[0]);
        assert(seq!['.'][0] == '.');
    }
    if seq!['~', '$'].is_prefix_of(name) {
        assert(name.subrange(0, 2)[0] == name[0]);
        assert(name.subrange(0, 2)[1] == name[1]);
        assert(seq!['~', '$'][0] == '~');
        assert(seq!['~', '$'][1] == '$');
    }
}

/// A saved file is worth recording: not hidden (`.name`), not an Office
/// lock file (`~$name`), and not a temporary or bookkeeping extension.
/// `name` and `ext` are the lower-cased file name and extension.
pub open spec fn trackable_file(name: Seq<char>, ext: Seq<char>) -> bool {
    &&& !seq!['.'].is_prefix_of(name)
    &&& !seq!['~', '$'].is_prefix_of(name)
    &&& !ignored_exts().contains(ext)
}

/// Whether a save of the file `name` with extension `ext` is recorded.
pub fn is_trackable_file(name: &str, ext: &str) -> (b: bool)
    ensures
        b == trackable_file(name@, ext@),
{
    proof {
        reveal_strlit(".");
        reveal_strlit("~$");
    }
    if starts_with(name, ".") || starts_with(name, "~$") {
        return false;
    }
    let ignored = vec!["tmp", "temp", "crdownload", "part", "partial", "swp", "log", "lnk", "lock"];
    assert(views(ignored@) =~= ignored_exts());
    !in_list(ext, &ignored)
}

// ---------- save debouncing ----------

/// Saves of one file closer together than this are recorded once (ns).
pub const DEBOUNCE_NS: u64 = 1_000_000_000;
/// The remembered saves are forgotten once there are more than this many.
pub const SEEN_LIMIT: usize = 10_000;

/// The map described by `(path, time)` entries.
pub open spec fn seen_map(s: Seq<(Seq<char>, u64)>) -> Map<Seq<char>, u64>
    decreases s.len(),
{
    if s.len() == 0 {
        Map::empty()
    } else {
        seen_map(s.drop_last()).insert(s.last().0, s.last().1)
    }
}

pub open spec fn keys_distinct(s: Seq<(Seq<char>, u64)>) -> bool {
    forall|i: int, j: int| 0 <= i < j < s.len() ==> s[i].0 != s[j].0
}

proof fn lemma_seen_map_absent(s: Seq<(Seq<char>, u64)>, k: Seq<char>)
    requires
        forall|i: int| 0 <= i < s.len() ==> s[i].0 != k,
    ensures
        !seen_map(s).contains_key(k),
    decreases s.len(),
{
    if s.len() > 0 {
        lemma_seen_map_absent(s.drop_last(), k);
    }
}

proof fn lemma_seen_map_index(s: Seq<(Seq<char>, u64)>, i: int)
    requires
        keys_distinct(s),
        0 <= i < s.len(),
    ensures
        seen_map(s).contains_key(s[i].0),
        seen_map(s)[s[i].0] == s[i].1,
    decreases s.len(),
{
    if i < s.len() - 1 {
        lemma_seen_map_index(s.drop_last(), i);
    }
}

proof fn lemma_seen_map_update(s: Seq<(Seq<char>, u64)>, i: int, v: u64)
    requires
        keys_distinct(s),
        0 <= i < s.len(),
    ensures
        seen_map(s.update(i, (s[i].0, v))) == seen_map(s).insert(s[i].0, v),
        keys_distinct(s.update(i, (s[i].0, v))),
    decreases s.len(),
{
    let t = s.update(i, (s[i].0, v));
    if i == s.len() - 1 {
        assert(t.drop_last() =~= s.drop_last());
        assert(seen_map(t) =~= seen_map(s).insert(s[i].0, v));
    } else {
        lemma_seen_map_update(s.drop_last(), i, v);
        assert(t.drop_last() =~= s.drop_last().update(i, (s[i].0, v)));
        assert(s.last().0 != s[i].0);
        assert(seen_map(t) =~= seen_map(s).insert(s[i].0, v));
    }
}

proof fn lemma_seen_map_len(s: Seq<(Seq<char>, u64)>)
    requires
        keys_distinct(s),
    ensures
        seen_map(s).dom().finite(),
        seen_map(s).len() == s.len(),
    decreases s.len(),
{
    if s.len() > 0 {
        let init = s.drop_last();
        lemma_seen_map_len(init);
        assert forall|i: int| 0 <= i < init.len() implies init[i].0 != s.last().0 by {
            assert(s[i].0 != s[s.len() - 1].0);
        }
        lemma_seen_map_absent(init, s.last().0);
    }
}

pub open spec fn since_ns(t: u64, now: u64) -> int {
    if now >= t {
        now - t
    } else {
        0
    }
}

/// One save event for `path` at `now`: whether it is recorded, and the
/// remembered saves afterwards. A save within the debounce window of the
/// remembered one is dropped; otherwise it is remembered, and the memory is
/// emptied once it holds more than the limit.
pub open spec fn debounce_step(m: Map<Seq<char>, u64>, path: Seq<char>, now: u64) -> (bool, Map<Seq<char>, u64>) {
    if m.contains_key(path) && since_ns(m[path], now) < DEBOUNCE_NS {
        (false, m)
    } else {
        let m2 = m.insert(path, now);
        (true, if m2.len() > SEEN_LIMIT { Map::empty() } else { m2 })
    }
}

/// The file watcher's memory of recent saves, per path: a list of
/// (path text, time) pairs that holds each path at most once, read as the
/// map from path to its last recorded save.
pub struct SaveDebouncer {
    seen: Vec<(String, u64)>,
}

pub open spec fn entry_texts(v: Seq<(String, u64)>) -> Seq<(Seq<char>, u64)> {
    v.map_values(|e: (String, u64)| (e.0@, e.1))
}

impl View for SaveDebouncer {
    type V = Map<Seq<char>, u64>;

    closed spec fn view(&self) -> Map<Seq<char>, u64> {
        seen_map(entry_texts(self.seen@))
    }
}

impl SaveDebouncer {
    /// The memory holds each path once and no more than the limit.
    pub closed spec fn wf(&self) -> bool {
        &&& keys_distinct(entry_texts(self.seen@))
        &&& self.seen@.len() <= SEEN_LIMIT
    }

    pub fn new() -> (d: SaveDebouncer)
        ensures
            d.wf(),
            d@ == Map::<Seq<char>, u64>::empty(),
    {
        let d = SaveDebouncer { seen: Vec::new() };
        assert(entry_texts(d.seen@) =~= Seq::<(Seq<char>, u64)>::empty());
        d
    }

    /// The memory is finite and within the limit.
    pub proof fn lemma_bounded(&self)
        requires
            self.wf(),
        ensures
            self@.dom().finite(),
            self@.len() <= SEEN_LIMIT,
    {
        lemma_seen_map_len(entry_texts(self.seen@));
    }

    /// A save of `path` at `now` (ns, monotonic): returns whether to record it.
    pub fn observe(&mut self, path: &String, now: u64) -> (recorded: bool)
        requires
            old(self).wf(),
        ensures
            final(self).wf(),
            (recorded, final(self)@) == debounce_step(old(self)@, path@, now),
    {
        let ghost old_e = entry_texts(self.seen@);
        proof {
            lemma_seen_map_len(old_e);
        }
        let mut i: usize = 0;
        while i < self.seen.len()
            invariant
                i <= self.seen.len(),
                old_e == entry_texts(self.seen@),
                forall|j: int| 0 <= j < i ==> self.seen@[j].0@ != path@,
            ensures
                i <= self.seen.len(),
                old_e == entry_texts(self.seen@),
                forall|j: int| 0 <= j < i ==> self.seen@[j].0@ != path@,
                i < self.seen.len() ==> self.seen@[i as int].0@ == path@,
            decreases self.seen.len() - i,
        {
            if self.seen[i].0 == *path {
                break;
            }
            i = i + 1;
        }
        if i < self.seen.len() {
            proof {
                assert(old_e[i as int].0 == path@);
                lemma_seen_map_index(old_e, i as int);
            }
            let t = self.seen[i].1;
            let waited = if now >= t {
                now - t
            } else {
                0
            };
            if waited < DEBOUNCE_NS {
                return false;
            }
            let ghost before = self.seen@;
            self.seen.set(i, (path.clone(), now));
            proof {
                assert(entry_texts(self.seen@) =~= old_e.update(i as int, (old_e[i as int].0, now)));
                lemma_seen_map_update(old_e, i as int, now);
            }
        } else {
            proof {
                assert forall|j: int| 0 <= j < old_e.len() implies old_e[j].0 != path@ by {
                    assert(self.seen@[j].0@ != path@);
                }
                lemma_seen_map_absent(old_e, path@);
            }
            self.seen.push((path.clone(), now));
            proof {
                let e = entry_texts(self.seen@);
                assert(e =~= old_e.push((path@, now)));
                assert(e.drop_last() =~= old_e);
                assert(keys_distinct(e)) by {
                    assert forall|a: int, b: int| 0 <= a < b < e.len() implies e[a].0 != e[b].0 by {
                        if b == e.len() - 1 {
                            assert(self.seen@[a].0@ != path@);
                        } else {
                            assert(e[a] == old_e[a] && e[b] == old_e[b]);
                        }
                    }
                }
            }
        }
        proof {
            lemma_seen_map_len(entry_texts(self.seen@));
        }
        if self.seen.len() > SEEN_LIMIT {
            self.seen = Vec::new();
            assert(entry_texts(self.seen@) =~= Seq::<(Seq<char>, u64)>::empty());
        }
        true
    }
}

impl SaveDebouncer {
    /// One file event for the saved file `path`, whose file name and
    /// extension are `file_name` and `extension` as the path gives them, at
    /// `now`: both are lower-cased; untrackable files are skipped without
    /// being remembered; a trackable save is debounced, and when recorded its
    /// category is returned.
    pub fn record_save(
        &mut self,
        file_name: &str,
        extension: &str,
        path: &String,
        now: u64,
    ) -> (category: Option<&'static str>)
        requires
            old(self).wf(),
        ensures
            final(self).wf(),
            ({
                let name = lowercase(file_name@);
                let ext = lowercase(extension@);
                &&& !trackable_file(name, ext) ==> final(self)@ == old(self)@ && category is None
                &&& trackable_file(name, ext) ==> {
                    let (rec, m) = debounce_step(old(self)@, path@, now);
                    &&& final(self)@ == m
                    &&& rec ==> (category matches Some(c) && c@ == bucket_of(ext))
                    &&& !rec ==> category is None
                }
            }),
    {
        let name = to_lowercase(file_name);
        let ext = to_lowercase(extension);
        if !is_trackable_file(name.as_str(), ext.as_str()) {
            return None;
        }
        if !self.observe(path, now) {
            return None;
        }
        Some(extension_bucket(ext.as_str()))
    }
}

/// A second save of the same file within the debounce window of a recorded
/// one is dropped (while the memory was below its limit, so it was kept).
pub proof fn law_repeated_save_dropped(m: Map<Seq<char>, u64>, path: Seq<char>, t1: u64, t2: u64)
    requires
        m.dom().finite(),
        m.len() < SEEN_LIMIT,
        t1 <= t2 < t1 + DEBOUNCE_NS,
    ensures
        debounce_step(m, path, t1).0 ==> !debounce_step(debounce_step(m, path, t1).1, path, t2).0,
{
    if debounce_step(m, path, t1).0 {
        let m2 = m.insert(path, t1);
        assert(m2.len() <= m.len() + 1);
    }
}

/// A save after the debounce window has passed is always recorded.
pub proof fn law_save_after_window_recorded(m: Map<Seq<char>, u64>, path: Seq<char>, now: u64)
    requires
        m.contains_key(path) ==> since_ns(m[path], now) >= DEBOUNCE_NS,
    ensures
        debounce_step(m, path, now).0,
{
}

} // verus!
