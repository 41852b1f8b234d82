//! Where the binding lies on disk, and how it is saved, loaded and deleted.
//!
//! Each operation is a chain of steps. A step names the file operation to perform ([`FileOp`])
//! and, told how it went, gives the next step or the outcome.

use std::path::PathBuf;

use vstd::prelude::*;

use crate::config;
use crate::config::LineConfig;

verus! {

/// A path below the home directory. `components` are joined to `home` one by one.
#[derive(Debug)]
pub struct ConfigPath {
    pub home: PathBuf,
    pub components: Vec<String>,
}

/// Why the binding could not be saved, loaded or deleted.
#[derive(Debug)]
pub enum LineConfigError {
    /// The home directory cannot be resolved on this platform.
    NoHome,
    /// A file operation on `path` failed.
    Io { path: ConfigPath, source: std::io::Error },
    /// The contents of `path` are no JSON form of a binding, or could not be made.
    Json { path: ConfigPath, source: serde_json::Error },
}

/// A file operation. Each path is given by its components below the home directory.
#[derive(Debug)]
pub enum FileOp {
    /// Creates a directory and those above it, where they are missing.
    CreateDirAll { dir: Vec<String> },
    /// Replaces the contents of a file, which is created where it is missing.
    Write { file: Vec<String>, body: String },
    /// Renames a file over another one.
    Rename { from: Vec<String>, to: Vec<String> },
    /// Reads a file.
    Read { file: Vec<String> },
    /// Removes a file.
    Remove { file: Vec<String> },
}

/// The components of a path below the home directory.
pub type Components = Seq<Seq<char>>;

/// A file operation on paths and contents as sequences.
pub enum FileOpView {
    CreateDirAll(Components),
    Write(Components, Seq<char>),
    Rename(Components, Components),
    Read(Components),
    Remove(Components),
}

/// The components that a vector of strings holds.
pub open spec fn components_of(v: Vec<String>) -> Components {
    v@.map_values(|c: String| c@)
}

impl View for FileOp {
    type V = FileOpView;

    open spec fn view(&self) -> FileOpView {
        match *self {
            FileOp::CreateDirAll { dir } => FileOpView::CreateDirAll(components_of(dir)),
            FileOp::Write { file, body } => FileOpView::Write(components_of(file), body@),
            FileOp::Rename { from, to } => FileOpView::Rename(
                components_of(from),
                components_of(to),
            ),
            FileOp::Read { file } => FileOpView::Read(components_of(file)),
            FileOp::Remove { file } => FileOpView::Remove(components_of(file)),
        }
    }
}

/// The directory that holds the binding.
pub open spec fn config_dir() -> Components {
    seq![".config"@, "thclaws"@]
}

/// The file that holds the binding.
pub open spec fn config_file() -> Components {
    seq![".config"@, "thclaws"@, "line.json"@]
}

/// The file that a binding is written to before it replaces the old one.
pub open spec fn temp_file() -> Components {
    seq![".config"@, "thclaws"@, "line.json.tmp"@]
}

fn dir_components() -> (r: Vec<String>)
    ensures
        components_of(r) == config_dir(),
{
    let mut v: Vec<String> = Vec::new();
    v.push(".config".to_owned());
    v.push("thclaws".to_owned());
    proof {
        assert(components_of(v) =~= config_dir());
    }
    v
}

fn components_in_dir(name: &str) -> (r: Vec<String>)
    ensures
        components_of(r) == seq![".config"@, "thclaws"@, name@],
{
    let mut v: Vec<String> = Vec::new();
    v.push(".config".to_owned());
    v.push("thclaws".to_owned());
    v.push(name.to_owned());
    proof {
        assert(components_of(v) =~= seq![".config"@, "thclaws"@, name@]);
    }
    v
}

fn file_components() -> (r: Vec<String>)
    ensures
        components_of(r) == config_file(),
{
    components_in_dir("line.json")
}

fn temp_components() -> (r: Vec<String>)
    ensures
        components_of(r) == temp_file(),
{
    components_in_dir("line.json.tmp")
}

impl ConfigPath {
    /// The components of this path below the home directory.
    pub open spec fn below_home(&self) -> Components {
        components_of(self.components)
    }

    /// Whether this is the path `below` the directory `home`.
    pub open spec fn is_at(&self, home: PathBuf, below: Components) -> bool {
        &&& self.home == home
        &&& self.below_home() == below
    }
}

impl LineConfigError {
    /// Whether this is the failure `source` of an operation on the path `below` `home`.
    pub open spec fn is_io(
        &self,
        home: PathBuf,
        below: Components,
        source: std::io::Error,
    ) -> bool {
        self matches LineConfigError::Io { path, source: s } && path.is_at(home, below) && s
            == source
    }

    /// Whether this is the failure `source` to make or read the JSON form at `below` `home`.
    pub open spec fn is_json(
        &self,
        home: PathBuf,
        below: Components,
        source: serde_json::Error,
    ) -> bool {
        self matches LineConfigError::Json { path, source: s } && path.is_at(home, below) && s
            == source
    }
}

/// Save, first step: the directory is created.
#[derive(Debug)]
pub struct CreateDir<'a> {
    home: PathBuf,
    binding: &'a LineConfig,
}

/// Save, second step: the binding is turned into JSON.
#[derive(Debug)]
pub struct Serialize<'a> {
    home: PathBuf,
    binding: &'a LineConfig,
}

/// Save, third step: the JSON form is written to the temporary file.
#[derive(Debug)]
pub struct WriteTemp {
    home: PathBuf,
    body: String,
}

/// Save, last step: the temporary file takes the place of the old binding.
#[derive(Debug)]
pub struct RenameTemp {
    home: PathBuf,
}

/// Load, first step: the file is read.
#[derive(Debug)]
pub struct ReadFile {
    home: PathBuf,
}

/// Load, last step: the text that was read is parsed.
#[derive(Debug)]
pub struct ParseText {
    home: PathBuf,
    text: String,
}

/// Delete: the file is removed.
#[derive(Debug)]
pub struct RemoveFile {
    home: PathBuf,
}

/// How reading the file went.
#[derive(Debug)]
pub enum ReadOutcome {
    /// The file holds this text.
    Text(String),
    /// There is no such file.
    Missing,
    /// The file could not be read for another reason.
    Failed(std::io::Error),
}

/// How removing the file went.
#[derive(Debug)]
pub enum RemoveOutcome {
    Removed,
    /// There is no such file.
    Missing,
    /// The file could not be removed for another reason.
    Failed(std::io::Error),
}

impl LineConfig {
    /// The canonical path of the binding in the home directory `home`, if one was found.
    pub fn path(home: Option<PathBuf>) -> (r: Result<ConfigPath, LineConfigError>)
        ensures
            match home {
                Some(h) => r matches Ok(path) && path.is_at(h, config_file()),
                None => r matches Err(e) && e is NoHome,
            },
    {
        match home {
            Some(home) => Ok(ConfigPath { home, components: file_components() }),
            None => Err(LineConfigError::NoHome),
        }
    }

    /// Begins to save this binding: to a temporary file beside the old one, which is then
    /// renamed, so that no half-written file is ever found.
    pub fn save(&self, home: Option<PathBuf>) -> (r: Result<CreateDir<'_>, LineConfigError>)
        ensures
            match home {
                Some(h) => r matches Ok(step) && step.in_home() == h && step.saves() == *self,
                None => r matches Err(e) && e is NoHome,
            },
    {
        let path = LineConfig::path(home)?;
        Ok(CreateDir { home: path.home, binding: self })
    }

    /// Begins to load the binding.
    pub fn load(home: Option<PathBuf>) -> (r: Result<ReadFile, LineConfigError>)
        ensures
            match home {
                Some(h) => r matches Ok(step) && step.in_home() == h,
                None => r matches Err(e) && e is NoHome,
            },
    {
        let path = LineConfig::path(home)?;
        Ok(ReadFile { home: path.home })
    }

    /// Begins to delete the binding.
    pub fn delete(home: Option<PathBuf>) -> (r: Result<RemoveFile, LineConfigError>)
        ensures
            match home {
                Some(h) => r matches Ok(step) && step.in_home() == h,
                None => r matches Err(e) && e is NoHome,
            },
    {
        let path = LineConfig::path(home)?;
        Ok(RemoveFile { home: path.home })
    }
}

impl<'a> CreateDir<'a> {
    /// The home directory of this step.
    pub closed spec fn in_home(&self) -> PathBuf {
        self.home
    }

    /// The binding that is saved.
    pub closed spec fn saves(&self) -> LineConfig {
        *self.binding
    }

    /// The home directory that the paths of the operation lie below.
    pub fn home(&self) -> (r: &PathBuf)
        ensures
            *r == self.in_home(),
    {
        &self.home
    }

    /// The operation to perform.
    pub fn op(&self) -> (r: FileOp)
        ensures
            r@ == FileOpView::CreateDirAll(config_dir()),
            forall|body: Seq<char>| r@ == #[trigger] save_ops(body)[0],
    {
        FileOp::CreateDirAll { dir: dir_components() }
    }

    /// Goes on once the operation was performed.
    pub fn done(self, outcome: Result<(), std::io::Error>) -> (r: Result<
        Serialize<'a>,
        LineConfigError,
    >)
        ensures
            match outcome {
                Ok(_) => r matches Ok(step) && step.in_home() == self.in_home() && step.saves()
                    == self.saves(),
                Err(source) => r matches Err(e) && e.is_io(self.in_home(), config_dir(), source),
            },
    {
        match outcome {
            Ok(_) => Ok(Serialize { home: self.home, binding: self.binding }),
            Err(source) => Err(
                LineConfigError::Io {
                    path: ConfigPath { home: self.home, components: dir_components() },
                    source,
                },
            ),
        }
    }
}

impl<'a> Serialize<'a> {
    /// The home directory of this step.
    pub closed spec fn in_home(&self) -> PathBuf {
        self.home
    }

    /// The binding that is saved.
    pub closed spec fn saves(&self) -> LineConfig {
        *self.binding
    }

    /// The binding to turn into JSON.
    pub fn binding(&self) -> (r: &LineConfig)
        ensures
            *r == self.saves(),
    {
        self.binding
    }

    /// Goes on once the binding was turned into JSON.
    pub fn done(self, outcome: Result<String, serde_json::Error>) -> (r: Result<
        WriteTemp,
        LineConfigError,
    >)
        ensures
            match outcome {
                Ok(body) => r matches Ok(step) && step.in_home() == self.in_home() && step.writes()
                    == body@,
                Err(source) => r matches Err(e) && e.is_json(
                    self.in_home(),
                    config_file(),
                    source,
                ),
            },
    {
        match outcome {
            Ok(body) => Ok(WriteTemp { home: self.home, body }),
            Err(source) => Err(
                LineConfigError::Json {
                    path: ConfigPath { home: self.home, components: file_components() },
                    source,
                },
            ),
        }
    }
}

impl WriteTemp {
    /// The home directory of this step.
    pub closed spec fn in_home(&self) -> PathBuf {
        self.home
    }

    /// The JSON form that is written.
    pub closed spec fn writes(&self) -> Seq<char> {
        self.body@
    }

    /// The home directory that the paths of the operation lie below.
    pub fn home(&self) -> (r: &PathBuf)
        ensures
            *r == self.in_home(),
    {
        &self.home
    }

    /// The operation to perform.
    pub fn op(&self) -> (r: FileOp)
        ensures
            r@ == FileOpView::Write(temp_file(), self.writes()),
            r@ == save_ops(self.writes())[1],
    {
        FileOp::Write { file: temp_components(), body: self.body.clone() }
    }

    /// Goes on once the operation was performed.
    pub fn done(self, outcome: Result<(), std::io::Error>) -> (r: Result<
        RenameTemp,
        LineConfigError,
    >)
        ensures
            match outcome {
                Ok(_) => r matches Ok(step) && step.in_home() == self.in_home(),
                Err(source) => r matches Err(e) && e.is_io(self.in_home(), temp_file(), source),
            },
    {
        match outcome {
            Ok(_) => Ok(RenameTemp { home: self.home }),
            Err(source) => Err(
                LineConfigError::Io {
                    path: ConfigPath { home: self.home, components: temp_components() },
                    source,
                },
            ),
        }
    }
}

impl RenameTemp {
    /// The home directory of this step.
    pub closed spec fn in_home(&self) -> PathBuf {
        self.home
    }

    /// The home directory that the paths of the operation lie below.
    pub fn home(&self) -> (r: &PathBuf)
        ensures
            *r == self.in_home(),
    {
        &self.home
    }

    /// The operation to perform.
    pub fn op(&self) -> (r: FileOp)
        ensures
            r@ == FileOpView::Rename(temp_file(), config_file()),
            forall|body: Seq<char>| r@ == #[trigger] save_ops(body)[2],
    {
        FileOp::Rename { from: temp_components(), to: file_components() }
    }

    /// The outcome of the whole save.
    pub fn done(self, outcome: Result<(), std::io::Error>) -> (r: Result<(), LineConfigError>)
        ensures
            match outcome {
                Ok(_) => r is Ok,
                Err(source) => r matches Err(e) && e.is_io(self.in_home(), config_file(), source),
            },
    {
        match outcome {
            Ok(_) => Ok(()),
            Err(source) => Err(
                LineConfigError::Io {
                    path: ConfigPath { home: self.home, components: file_components() },
                    source,
                },
            ),
        }
    }
}

/// How a load goes on once the file was read: text is parsed, a missing file means that LINE is
/// not configured, the default state of a fresh install.
pub open spec fn read_done(
    home: PathBuf,
    outcome: ReadOutcome,
    r: Result<Option<ParseText>, LineConfigError>,
) -> bool {
    match outcome {
        ReadOutcome::Text(text) => r matches Ok(Some(step)) && step.in_home() == home
            && step.parses() == text@,
        ReadOutcome::Missing => r matches Ok(None),
        ReadOutcome::Failed(source) => r matches Err(e) && e.is_io(home, config_file(), source),
    }
}

/// How a load ends once the text was parsed.
pub open spec fn parse_done(
    home: PathBuf,
    outcome: Result<LineConfig, serde_json::Error>,
    r: Result<Option<LineConfig>, LineConfigError>,
) -> bool {
    match outcome {
        Ok(config) => r matches Ok(Some(c)) && c == config,
        Err(source) => r matches Err(e) && e.is_json(home, config_file(), source),
    }
}

/// How a deletion ends. A missing file counts as success.
pub open spec fn remove_done(
    home: PathBuf,
    outcome: RemoveOutcome,
    r: Result<(), LineConfigError>,
) -> bool {
    match outcome {
        RemoveOutcome::Removed => r is Ok,
        RemoveOutcome::Missing => r is Ok,
        RemoveOutcome::Failed(source) => r matches Err(e) && e.is_io(home, config_file(), source),
    }
}

impl ReadFile {
    /// The home directory of this step.
    pub closed spec fn in_home(&self) -> PathBuf {
        self.home
    }

    /// The home directory that the paths of the operation lie below.
    pub fn home(&self) -> (r: &PathBuf)
        ensures
            *r == self.in_home(),
    {
        &self.home
    }

    /// The operation to perform.
    pub fn op(&self) -> (r: FileOp)
        ensures
            r@ == FileOpView::Read(config_file()),
    {
        FileOp::Read { file: file_components() }
    }

    /// Goes on once the operation was performed. No step is left where there is no file.
    pub fn done(self, outcome: ReadOutcome) -> (r: Result<Option<ParseText>, LineConfigError>)
        ensures
            read_done(self.in_home(), outcome, r),
    {
        match outcome {
            ReadOutcome::Text(text) => Ok(Some(ParseText { home: self.home, text })),
            ReadOutcome::Missing => Ok(None),
            ReadOutcome::Failed(source) => Err(
                LineConfigError::Io {
                    path: ConfigPath { home: self.home, components: file_components() },
                    source,
                },
            ),
        }
    }
}

impl ParseText {
    /// The home directory of this step.
    pub closed spec fn in_home(&self) -> PathBuf {
        self.home
    }

    /// The text that is parsed.
    pub closed spec fn parses(&self) -> Seq<char> {
        self.text@
    }

    /// The text to parse.
    pub fn text(&self) -> (r: &str)
        ensures
            r@ == self.parses(),
    {
        self.text.as_str()
    }

    /// The outcome of the whole load.
    pub fn done(self, outcome: Result<LineConfig, serde_json::Error>) -> (r: Result<
        Option<LineConfig>,
        LineConfigError,
    >)
        ensures
            parse_done(self.in_home(), outcome, r),
    {
        match outcome {
            Ok(config) => Ok(Some(config)),
            Err(source) => Err(
                LineConfigError::Json {
                    path: ConfigPath { home: self.home, components: file_components() },
                    source,
                },
            ),
        }
    }
}

impl RemoveFile {
    /// The home directory of this step.
    pub closed spec fn in_home(&self) -> PathBuf {
        self.home
    }

    /// The home directory that the paths of the operation lie below.
    pub fn home(&self) -> (r: &PathBuf)
        ensures
            *r == self.in_home(),
    {
        &self.home
    }

    /// The operation to perform.
    pub fn op(&self) -> (r: FileOp)
        ensures
            r@ == FileOpView::Remove(config_file()),
    {
        FileOp::Remove { file: file_components() }
    }

    /// The outcome of the deletion.
    pub fn done(self, outcome: RemoveOutcome) -> (r: Result<(), LineConfigError>)
        ensures
            remove_done(self.in_home(), outcome, r),
    {
        match outcome {
            RemoveOutcome::Removed => Ok(()),
            RemoveOutcome::Missing => Ok(()),
            RemoveOutcome::Failed(source) => Err(
                LineConfigError::Io {
                    path: ConfigPath { home: self.home, components: file_components() },
                    source,
                },
            ),
        }
    }
}

/// The files below the home directory and what they hold.
pub type Files = Map<Components, Seq<char>>;

/// What a file holds, if it is there.
pub open spec fn contents(files: Files, file: Components) -> Option<Seq<char>> {
    if files.dom().contains(file) {
        Some(files[file])
    } else {
        None
    }
}

/// Whether `after` is what the completed operation makes of `before`.
pub open spec fn applied(op: FileOpView, before: Files, after: Files) -> bool {
    match op {
        FileOpView::CreateDirAll(_) => after == before,
        FileOpView::Write(file, body) => after == before.insert(file, body),
        FileOpView::Rename(from, to) => before.dom().contains(from) && after == before.remove(
            from,
        ).insert(to, before[from]),
        FileOpView::Read(_) => after == before,
        FileOpView::Remove(file) => after == before.remove(file),
    }
}

/// Whether `after` is what the operation may leave of `before` when it reports a failure: a write
/// may leave anything in its file, the others leave all files as they were.
pub open spec fn failed(op: FileOpView, before: Files, after: Files) -> bool {
    match op {
        FileOpView::Write(file, _) => after.remove(file) == before.remove(file),
        _ => after == before,
    }
}

/// Whether `after` is what the operation may leave of `before` when it completes, fails or is
/// cut short.
pub open spec fn attempted(op: FileOpView, before: Files, after: Files) -> bool {
    applied(op, before, after) || failed(op, before, after)
}

/// What reading a file gives: its contents, and nothing where it is absent.
pub open spec fn read_gives(files: Files, file: Components) -> Option<Seq<char>> {
    contents(files, file)
}

/// Whether `outcome` is what reading `file` reports: its text or a failure where it is present,
/// that it is missing where it is absent.
pub open spec fn read_reports(files: Files, file: Components, outcome: ReadOutcome) -> bool {
    match outcome {
        ReadOutcome::Text(text) => read_gives(files, file) == Some(text@),
        ReadOutcome::Missing => read_gives(files, file) is None,
        ReadOutcome::Failed(_) => read_gives(files, file) is Some,
    }
}

/// Whether `outcome` is what removing `file` reports, and `after` what it makes of `before`: a
/// present file is removed, or the removal fails; an absent one is reported missing.
pub open spec fn remove_reports(
    before: Files,
    file: Components,
    outcome: RemoveOutcome,
    after: Files,
) -> bool {
    match outcome {
        RemoveOutcome::Removed => contents(before, file) is Some && applied(
            FileOpView::Remove(file),
            before,
            after,
        ),
        RemoveOutcome::Missing => contents(before, file) is None && after == before,
        RemoveOutcome::Failed(_) => contents(before, file) is Some && failed(
            FileOpView::Remove(file),
            before,
            after,
        ),
    }
}

/// The file operations of a save, in order, once the binding's JSON form is `body`.
pub open spec fn save_ops(body: Seq<char>) -> Seq<FileOpView> {
    seq![
        FileOpView::CreateDirAll(config_dir()),
        FileOpView::Write(temp_file(), body),
        FileOpView::Rename(temp_file(), config_file()),
    ]
}

/// Whether `states` are the states that the files go through while `ops` are performed: each
/// operation but the last one begun is completed.
pub open spec fn is_run(ops: Seq<FileOpView>, states: Seq<Files>) -> bool {
    &&& 1 <= states.len() <= ops.len() + 1
    &&& forall|i: int|
        #![trigger ops[i]]
        0 <= i < states.len() - 2 ==> applied(ops[i], states[i], states[i + 1])
    &&& states.len() >= 2 ==> attempted(
        ops[states.len() - 2],
        states[states.len() - 2],
        states.last(),
    )
}

/// Whether `states` are the states that the files go through while all of `ops` are completed.
pub open spec fn is_completed_run(ops: Seq<FileOpView>, states: Seq<Files>) -> bool {
    &&& states.len() == ops.len() + 1
    &&& forall|i: int|
        #![trigger ops[i]]
        0 <= i < ops.len() ==> applied(ops[i], states[i], states[i + 1])
}

/// The temporary file lies beside the binding and has `.tmp` behind its name.
pub proof fn temp_file_is_a_sibling()
    ensures
        temp_file() != config_file(),
        temp_file().drop_last() == config_file().drop_last(),
        config_file().drop_last() == config_dir(),
        temp_file().last() == config_file().last() + ".tmp"@,
{
    reveal_strlit("line.json");
    reveal_strlit("line.json.tmp");
    reveal_strlit(".tmp");
    assert(temp_file().last().len() != config_file().last().len());
    assert(temp_file().drop_last() =~= config_dir());
    assert(config_file().drop_last() =~= config_dir());
    assert("line.json.tmp"@ =~= "line.json"@ + ".tmp"@);
}

/// Saving is atomic: however far it gets, the binding's file holds what it held before, or all
/// of the new contents.
pub proof fn saving_is_atomic(body: Seq<char>, states: Seq<Files>)
    requires
        is_run(save_ops(body), states),
    ensures
        forall|i: int|
            0 <= i < states.len() ==> {
                ||| contents(#[trigger] states[i], config_file()) == contents(
                    states[0],
                    config_file(),
                )
                ||| contents(states[i], config_file()) == Some(body)
            },
{
    temp_file_is_a_sibling();
    let ops = save_ops(body);
    let file = config_file();
    if states.len() >= 2 {
        assert(states[1] == states[0]) by {
            assert(ops[0] == FileOpView::CreateDirAll(config_dir()));
        }
    }
    if states.len() >= 3 {
        assert(ops[1] == FileOpView::Write(temp_file(), body));
        assert(contents(states[2], file) == contents(states[1], file)) by {
            if !applied(ops[1], states[1], states[2]) {
                let a = states[2].remove(temp_file());
                let b = states[1].remove(temp_file());
                assert(a.dom().contains(file) == b.dom().contains(file));
                assert(a[file] == b[file]);
            }
        }
    }
    if states.len() >= 4 {
        assert(ops[2] == FileOpView::Rename(temp_file(), file));
        assert(applied(ops[1], states[1], states[2]));
    }
    assert forall|i: int| 0 <= i < states.len() implies {
        ||| contents(#[trigger] states[i], file) == contents(states[0], file)
        ||| contents(states[i], file) == Some(body)
    } by {
        assert(i == 0 || i == 1 || i == 2 || i == 3);
    }
}

/// A save that ends in an error leaves the binding's file as it was.
pub proof fn failed_save_keeps_the_old_binding(body: Seq<char>, states: Seq<Files>)
    requires
        2 <= states.len(),
        is_run(save_ops(body), states),
        failed(
            save_ops(body)[states.len() - 2],
            states[states.len() - 2],
            states.last(),
        ),
    ensures
        contents(states.last(), config_file()) == contents(states[0], config_file()),
{
    temp_file_is_a_sibling();
    let ops = save_ops(body);
    let file = config_file();
    assert(ops[0] == FileOpView::CreateDirAll(config_dir()));
    assert(ops[1] == FileOpView::Write(temp_file(), body));
    assert(ops[2] == FileOpView::Rename(temp_file(), file));
    assert(states[1] == states[0]);
    if states.len() == 3 {
        let a = states[2].remove(temp_file());
        let b = states[1].remove(temp_file());
        assert(a.dom().contains(file) == b.dom().contains(file));
        assert(a[file] == b[file]);
    }
}

/// A completed save leaves the new contents in the binding's file, no temporary file, and every
/// other file as it was.
pub proof fn completed_save_replaces_the_binding(body: Seq<char>, states: Seq<Files>)
    requires
        is_completed_run(save_ops(body), states),
    ensures
        contents(states.last(), config_file()) == Some(body),
        contents(states.last(), temp_file()) is None,
        forall|p: Components|
            p != config_file() && p != temp_file() ==> #[trigger] contents(states.last(), p)
                == contents(states[0], p),
{
    temp_file_is_a_sibling();
    let ops = save_ops(body);
    assert(applied(ops[0], states[0], states[1]));
    assert(applied(ops[1], states[1], states[2]));
    assert(applied(ops[2], states[2], states[3]));
}

/// A load reads what was saved: where `parse` undoes `form` on a binding, the text that a
/// completed save of it leaves is parsed to that binding again.
pub proof fn load_gives_back_the_saved_binding(
    binding: LineConfig,
    form: spec_fn(config::LineConfigView) -> Seq<char>,
    parse: spec_fn(Seq<char>) -> Option<config::LineConfigView>,
    states: Seq<Files>,
)
    requires
        parse(form(binding@)) == Some(binding@),
        is_completed_run(save_ops(form(binding@)), states),
    ensures
        read_gives(states.last(), config_file()) matches Some(text) && parse(text) == Some(
            binding@,
        ),
{
    completed_save_replaces_the_binding(form(binding@), states);
}

/// Whether `outcome` is what parsing `text` gives, when `parse` says which texts are the JSON
/// form of which binding.
pub open spec fn parse_reports(
    parse: spec_fn(Seq<char>) -> Option<config::LineConfigView>,
    text: Seq<char>,
    outcome: Result<LineConfig, serde_json::Error>,
) -> bool {
    match parse(text) {
        Some(binding) => outcome matches Ok(config) && config@ == binding,
        None => outcome is Err,
    }
}

/// The result of a load after a completed save: unless the file cannot be read, it is the binding
/// that was saved, whatever was there before.
pub proof fn load_after_save_returns_the_binding(
    home: PathBuf,
    binding: LineConfig,
    form: spec_fn(config::LineConfigView) -> Seq<char>,
    parse: spec_fn(Seq<char>) -> Option<config::LineConfigView>,
    states: Seq<Files>,
    outcome: ReadOutcome,
    read: Result<Option<ParseText>, LineConfigError>,
    parsed: Result<LineConfig, serde_json::Error>,
    r: Result<Option<LineConfig>, LineConfigError>,
)
    requires
        parse(form(binding@)) == Some(binding@),
        is_completed_run(save_ops(form(binding@)), states),
        read_reports(states.last(), config_file(), outcome),
        outcome !is Failed,
        read_done(home, outcome, read),
        read matches Ok(Some(step)) ==> parse_reports(parse, step.parses(), parsed) && parse_done(
            step.in_home(),
            parsed,
            r,
        ),
    ensures
        read matches Ok(Some(step)) && step.in_home() == home,
        r matches Ok(Some(config)) && config@ == binding@,
{
    load_gives_back_the_saved_binding(binding, form, parse, states);
}

/// A deletion succeeds exactly where the file was removed or was missing already. Then the
/// binding is gone and every other file is as it was.
pub proof fn deleting_removes_the_binding(
    home: PathBuf,
    before: Files,
    outcome: RemoveOutcome,
    after: Files,
    r: Result<(), LineConfigError>,
)
    requires
        remove_reports(before, config_file(), outcome, after),
        remove_done(home, outcome, r),
    ensures
        r is Ok <==> outcome !is Failed,
        r is Ok ==> after == before.remove(config_file()),
        r is Ok ==> contents(after, config_file()) is None,
        contents(before, config_file()) is None ==> r is Ok,
{
    if outcome is Missing {
        assert(before.remove(config_file()) =~= before);
    }
}

/// Deleting is idempotent: once a deletion succeeded, a second one succeeds too and changes
/// nothing.
pub proof fn deleting_is_idempotent(
    home: PathBuf,
    before: Files,
    first: RemoveOutcome,
    between: Files,
    first_result: Result<(), LineConfigError>,
    second: RemoveOutcome,
    after: Files,
    second_result: Result<(), LineConfigError>,
)
    requires
        remove_reports(before, config_file(), first, between),
        remove_done(home, first, first_result),
        first_result is Ok,
        remove_reports(between, config_file(), second, after),
        remove_done(home, second, second_result),
    ensures
        second_result is Ok,
        after == between,
{
    deleting_removes_the_binding(home, before, first, between, first_result);
}

/// Once a deletion succeeded, a load finds no binding.
pub proof fn load_after_delete_gives_nothing(
    home: PathBuf,
    before: Files,
    outcome: RemoveOutcome,
    after: Files,
    result: Result<(), LineConfigError>,
    read: ReadOutcome,
    r: Result<Option<ParseText>, LineConfigError>,
)
    requires
        remove_reports(before, config_file(), outcome, after),
        remove_done(home, outcome, result),
        result is Ok,
        read_reports(after, config_file(), read),
        read_done(home, read, r),
    ensures
        r matches Ok(None),
{
    deleting_removes_the_binding(home, before, outcome, after, result);
}

/// What the calls of a save that meets no failure do: the directory is made, this very binding is
/// turned into JSON, its whole JSON form is written beside the old one and renamed over it, all
/// below the home directory that was given.
pub proof fn save_puts_the_form_in_place<'a>(
    binding: &'a LineConfig,
    home: PathBuf,
    body: String,
    saved: Result<CreateDir<'a>, LineConfigError>,
    made: FileOp,
    created: Result<Serialize<'a>, LineConfigError>,
    to_serialize: &LineConfig,
    serialized: Result<WriteTemp, LineConfigError>,
    written: FileOp,
    wrote: Result<RenameTemp, LineConfigError>,
    renamed: FileOp,
    r: Result<(), LineConfigError>,
    homes: (&PathBuf, &PathBuf, &PathBuf),
)
    requires
        call_ensures(LineConfig::save, (binding, Some(home)), saved),
        call_ensures(CreateDir::op, (&saved->Ok_0,), made),
        call_ensures(CreateDir::home, (&saved->Ok_0,), homes.0),
        call_ensures(CreateDir::done, (saved->Ok_0, Ok(())), created),
        call_ensures(Serialize::binding, (&created->Ok_0,), to_serialize),
        call_ensures(Serialize::done, (created->Ok_0, Ok(body)), serialized),
        call_ensures(WriteTemp::op, (&serialized->Ok_0,), written),
        call_ensures(WriteTemp::home, (&serialized->Ok_0,), homes.1),
        call_ensures(WriteTemp::done, (serialized->Ok_0, Ok(())), wrote),
        call_ensures(RenameTemp::op, (&wrote->Ok_0,), renamed),
        call_ensures(RenameTemp::home, (&wrote->Ok_0,), homes.2),
        call_ensures(RenameTemp::done, (wrote->Ok_0, Ok(())), r),
    ensures
        saved is Ok && created is Ok && serialized is Ok && wrote is Ok && r is Ok,
        *to_serialize == *binding,
        made@ == FileOpView::CreateDirAll(seq![".config"@, "thclaws"@]),
        written@ == FileOpView::Write(seq![".config"@, "thclaws"@, "line.json.tmp"@], body@),
        renamed@ == FileOpView::Rename(
            seq![".config"@, "thclaws"@, "line.json.tmp"@],
            seq![".config"@, "thclaws"@, "line.json"@],
        ),
        *homes.0 == home && *homes.1 == home && *homes.2 == home,
{
}

/// What the calls of a save do at a failure: the save ends with it, and the error names its cause
/// and the path that was worked on.
pub proof fn failure_ends_the_save<'a>(
    create: CreateDir<'a>,
    not_created: Result<Serialize<'a>, LineConfigError>,
    serialize: Serialize<'a>,
    not_serialized: Result<WriteTemp, LineConfigError>,
    write: WriteTemp,
    not_written: Result<RenameTemp, LineConfigError>,
    rename: RenameTemp,
    not_renamed: Result<(), LineConfigError>,
    io: std::io::Error,
    json: serde_json::Error,
)
    requires
        call_ensures(CreateDir::done, (create, Err(io)), not_created),
        call_ensures(Serialize::done, (serialize, Err(json)), not_serialized),
        call_ensures(WriteTemp::done, (write, Err(io)), not_written),
        call_ensures(RenameTemp::done, (rename, Err(io)), not_renamed),
    ensures
        not_created matches Err(LineConfigError::Io { path, source }) && source == io && path.home
            == create.in_home() && path.below_home() == seq![".config"@, "thclaws"@],
        not_serialized matches Err(LineConfigError::Json { path, source }) && source == json
            && path.home == serialize.in_home() && path.below_home() == seq![
            ".config"@,
            "thclaws"@,
            "line.json"@,
        ],
        not_written matches Err(LineConfigError::Io { path, source }) && source == io && path.home
            == write.in_home() && path.below_home() == seq![
            ".config"@,
            "thclaws"@,
            "line.json.tmp"@,
        ],
        not_renamed matches Err(LineConfigError::Io { path, source }) && source == io && path.home
            == rename.in_home() && path.below_home() == seq![
            ".config"@,
            "thclaws"@,
            "line.json"@,
        ],
{
}

/// What the calls of a load do: the binding's file is read, its whole text is parsed, and what
/// the text was parsed to is the result. A missing file gives no binding and no error; any other
/// failure ends the load with an error that names its cause and the file.
pub proof fn load_returns_what_was_parsed(
    home: PathBuf,
    text: String,
    binding: LineConfig,
    loaded: Result<ReadFile, LineConfigError>,
    op: FileOp,
    in_home: &PathBuf,
    read: Result<Option<ParseText>, LineConfigError>,
    to_parse: &str,
    r: Result<Option<LineConfig>, LineConfigError>,
    missing: Result<Option<ParseText>, LineConfigError>,
    io: std::io::Error,
    unread: Result<Option<ParseText>, LineConfigError>,
    json: serde_json::Error,
    unparsed: Result<Option<LineConfig>, LineConfigError>,
)
    requires
        call_ensures(LineConfig::load, (Some(home),), loaded),
        call_ensures(ReadFile::op, (&loaded->Ok_0,), op),
        call_ensures(ReadFile::home, (&loaded->Ok_0,), in_home),
        call_ensures(ReadFile::done, (loaded->Ok_0, ReadOutcome::Text(text)), read),
        call_ensures(ParseText::text, (&(read->Ok_0)->0,), to_parse),
        call_ensures(ParseText::done, ((read->Ok_0)->0, Ok(binding)), r),
        call_ensures(ReadFile::done, (loaded->Ok_0, ReadOutcome::Missing), missing),
        call_ensures(ReadFile::done, (loaded->Ok_0, ReadOutcome::Failed(io)), unread),
        call_ensures(ParseText::done, ((read->Ok_0)->0, Err(json)), unparsed),
    ensures
        loaded is Ok,
        op@ == FileOpView::Read(seq![".config"@, "thclaws"@, "line.json"@]),
        *in_home == home,
        read matches Ok(Some(_)),
        to_parse@ == text@,
        r matches Ok(Some(found)) && found == binding,
        missing matches Ok(None),
        unread matches Err(LineConfigError::Io { path, source }) && source == io && path.home
            == home && path.below_home() == seq![".config"@, "thclaws"@, "line.json"@],
        unparsed matches Err(LineConfigError::Json { path, source }) && source == json && path.home
            == home && path.below_home() == seq![".config"@, "thclaws"@, "line.json"@],
{
}

/// What the calls of a deletion do: the binding's file is removed; that it was missing is no
/// error; any other failure is, and names its cause and the file.
pub proof fn delete_removes_the_file(
    home: PathBuf,
    begun: Result<RemoveFile, LineConfigError>,
    op: FileOp,
    in_home: &PathBuf,
    removed: Result<(), LineConfigError>,
    missing: Result<(), LineConfigError>,
    io: std::io::Error,
    unremoved: Result<(), LineConfigError>,
)
    requires
        call_ensures(LineConfig::delete, (Some(home),), begun),
        call_ensures(RemoveFile::op, (&begun->Ok_0,), op),
        call_ensures(RemoveFile::home, (&begun->Ok_0,), in_home),
        call_ensures(RemoveFile::done, (begun->Ok_0, RemoveOutcome::Removed), removed),
        call_ensures(RemoveFile::done, (begun->Ok_0, RemoveOutcome::Missing), missing),
        call_ensures(RemoveFile::done, (begun->Ok_0, RemoveOutcome::Failed(io)), unremoved),
    ensures
        begun is Ok,
        op@ == FileOpView::Remove(seq![".config"@, "thclaws"@, "line.json"@]),
        *in_home == home,
        removed is Ok && missing is Ok,
        unremoved matches Err(LineConfigError::Io { path, source }) && source == io && path.home
            == home && path.below_home() == seq![".config"@, "thclaws"@, "line.json"@],
{
}

/// What every call of [`LineConfig::path`] returns: `.config/thclaws/line.json` below the home
/// directory.
pub proof fn path_lies_below_home(home: PathBuf, r: Result<ConfigPath, LineConfigError>)
    requires
        call_ensures(LineConfig::path, (Some(home),), r),
    ensures
        r matches Ok(path) && path.home == home && path.below_home() == seq![
            ".config"@,
            "thclaws"@,
            "line.json"@,
        ],
{
}

/// Without a home directory there is no path, and nothing is saved, loaded or deleted.
pub proof fn nothing_begins_without_home<'a>(
    binding: &'a LineConfig,
    path: Result<ConfigPath, LineConfigError>,
    saved: Result<CreateDir<'a>, LineConfigError>,
    loaded: Result<ReadFile, LineConfigError>,
    begun: Result<RemoveFile, LineConfigError>,
)
    requires
        call_ensures(LineConfig::path, (None,), path),
        call_ensures(LineConfig::save, (binding, None), saved),
        call_ensures(LineConfig::load, (None,), loaded),
        call_ensures(LineConfig::delete, (None,), begun),
    ensures
        path matches Err(LineConfigError::NoHome),
        saved matches Err(LineConfigError::NoHome),
        loaded matches Err(LineConfigError::NoHome),
        begun matches Err(LineConfigError::NoHome),
{
}

} // verus!
