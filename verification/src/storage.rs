//! Storage backends: where a preference set is kept between runs.
//!
//! [`Storage`] is the capability a record needs: read a named record, replace
//! it atomically, describe where it lives. [`FileStorage`] and
//! [`LocalStorage`] address the two kinds of durable store, a directory of
//! files and a namespaced key-value store; they compute locations and lay out
//! the steps of a read or a write, and leave performing those steps to the
//! host. [`MemoryStorage`] keeps everything in memory.

use vstd::prelude::*;
use vstd::string::StringExecFns;

verus! {

broadcast use vstd::string::group_string_axioms;

/// `std::io::Error`, what a backend reports: opaque here, carried to the
/// caller as it came.
#[verifier::external_type_specification]
#[verifier::external_body]
pub struct ExIoError(std::io::Error);

/// The outcome of a read, as contracts see it: `None` where the read failed,
/// else the text found, if any.
pub open spec fn read_outcome(found: Result<Option<String>, std::io::Error>) -> Option<
    Option<Seq<char>>,
> {
    match found {
        Ok(Some(text)) => Some(Some(text@)),
        Ok(None) => Some(None),
        Err(_) => None,
    }
}

/// A place that keeps named records of text.
///
/// A backend replaces a record as a whole or not at all: no reader ever sees
/// part of a write. What more a backend promises of its operations it says
/// in the three `_spec` predicates, which every operation is held to. A
/// backend that leaves them as they are promises nothing: its outcomes are
/// for its callers to handle as they come.
pub trait Storage {
    /// What the backend promises of a read of the record `key` that ends in
    /// `outcome` (see [`read_outcome`]).
    open spec fn read_spec(&self, key: Seq<char>, outcome: Option<Option<Seq<char>>>) -> bool {
        true
    }

    /// What the backend promises of a write of `data` to the record `key`
    /// that succeeds or fails as `succeeded` says and leaves the backend as
    /// `after`.
    open spec fn write_spec(
        &self,
        key: Seq<char>,
        data: Seq<char>,
        succeeded: bool,
        after: &Self,
    ) -> bool {
        true
    }

    /// What the backend promises of the location `path` that it displays for
    /// the record `key`.
    open spec fn path_spec(&self, key: Seq<char>, path: Seq<char>) -> bool {
        true
    }

    /// The record called `key`: `None` where the backend holds none.
    fn read(&self, key: &str) -> (found: Result<Option<String>, std::io::Error>)
        ensures
            self.read_spec(key@, read_outcome(found)),
    ;

    /// Replaces the record called `key` by `data`, as one step.
    fn write(&mut self, key: &str, data: &str) -> (done: Result<(), std::io::Error>)
        ensures
            old(self).write_spec(key@, data@, done is Ok, &*final(self)),
    ;

    /// Where the record called `key` lives, for display.
    fn get_path(&self, key: &str) -> (path: String)
        ensures
            self.path_spec(key@, path@),
    ;
}

/// The record called `key` among `records`, if there is one.
pub open spec fn record_at(records: Map<Seq<char>, Seq<char>>, key: Seq<char>) -> Option<Seq<char>> {
    if records.contains_key(key) {
        Some(records[key])
    } else {
        None
    }
}

/// `String::push`: appends one character.
#[verifier::external_body]
fn push_char(text: &mut String, c: char)
    ensures
        final(text)@ == old(text)@.push(c),
{
    text.push(c)
}

/// The path of `key` inside `directory`: the two joined by one `/`, unless the
/// directory is empty or already ends in one.
pub open spec fn joined_path(directory: Seq<char>, key: Seq<char>) -> Seq<char> {
    if directory.len() == 0 {
        key
    } else if directory.last() == '/' {
        directory + key
    } else {
        directory + seq!['/'] + key
    }
}

/// The position of the last `/` in `path`, if it has one.
pub open spec fn last_separator(path: Seq<char>) -> Option<int>
    decreases path.len(),
{
    if path.len() == 0 {
        None
    } else if path.last() == '/' {
        Some(path.len() - 1)
    } else {
        last_separator(path.drop_last())
    }
}

/// The directory that holds `path`: what stands before its last `/`. A path
/// without one lies in the current directory, written as the empty path; a
/// path whose only `/` comes first lies in the root.
pub open spec fn directory_of(path: Seq<char>) -> Seq<char> {
    match last_separator(path) {
        None => Seq::empty(),
        Some(at) => if at == 0 {
            seq!['/']
        } else {
            path.take(at)
        },
    }
}

/// The last `/` of a path is a `/`, lies inside the path, and has none after it.
pub proof fn lemma_last_separator(path: Seq<char>)
    ensures
        match last_separator(path) {
            Some(at) => {
                &&& 0 <= at < path.len()
                &&& path[at] == '/'
                &&& forall|k: int| at < k < path.len() ==> path[k] != '/'
            },
            None => forall|k: int| 0 <= k < path.len() ==> path[k] != '/',
        },
    decreases path.len(),
{
    if path.len() > 0 && path.last() != '/' {
        let front = path.drop_last();
        lemma_last_separator(front);
        match last_separator(front) {
            Some(at) => {
                assert forall|k: int| at < k < path.len() implies path[k] != '/' by {
                    if k < front.len() {
                        assert(front[k] != '/');
                    }
                }
            },
            None => {
                assert forall|k: int| 0 <= k < path.len() implies path[k] != '/' by {
                    if k < front.len() {
                        assert(front[k] != '/');
                    }
                }
            },
        }
    }
}

/// `key` names a file and no directory: it holds no `/`.
pub open spec fn plain_name(key: Seq<char>) -> bool {
    forall|k: int| 0 <= k < key.len() ==> key[k] != '/'
}

/// A record whose key is a plain file name lies directly in the directory it
/// was joined to: staging a write beside the record is staging it there.
pub proof fn lemma_directory_of_joined(directory: Seq<char>, key: Seq<char>)
    requires
        plain_name(key),
        directory.len() > 0,
        directory.last() != '/',
    ensures
        directory_of(joined_path(directory, key)) == directory,
    decreases key.len(),
{
    let path = joined_path(directory, key);
    if key.len() > 0 {
        let shorter = key.drop_last();
        lemma_directory_of_joined(directory, shorter);
        assert(path.drop_last() =~= joined_path(directory, shorter));
        lemma_last_separator(path.drop_last());
        assert(path.take(directory.len() as int) =~= path.drop_last().take(
            directory.len() as int,
        ));
    }
}

/// A directory of files, one file per record.
#[derive(Debug)]
pub struct FileStorage {
    base_dir: String,
}

impl FileStorage {
    /// The directory that the records live in.
    pub closed spec fn directory(&self) -> Seq<char> {
        self.base_dir@
    }

    /// Addresses the records under `directory`.
    pub fn new(directory: &str) -> (storage: FileStorage)
        ensures
            storage.directory() == directory@,
    {
        FileStorage { base_dir: String::from_str(directory) }
    }

    /// The directory that the records live in.
    pub fn base_dir(&self) -> (directory: &String)
        ensures
            directory@ == self.directory(),
    {
        &self.base_dir
    }

    /// The path of the file that holds the record called `key`.
    pub fn get_path(&self, key: &str) -> (path: String)
        ensures
            path@ == joined_path(self.directory(), key@),
    {
        let length = self.base_dir.as_str().unicode_len();
        let mut path = self.base_dir.clone();
        if length == 0 {
        } else if self.base_dir.as_str().get_char(length - 1) != '/' {
            push_char(&mut path, '/');
        }
        path.append(key);
        path
    }

    /// The directory in which a write of the record called `key` is staged:
    /// the one that holds the record's file.
    pub fn staging_dir(&self, key: &str) -> (directory: String)
        ensures
            directory@ == directory_of(joined_path(self.directory(), key@)),
            plain_name(key@) && self.directory().len() > 0 && self.directory().last() != '/'
                ==> directory@ == self.directory(),
    {
        proof {
            if plain_name(key@) && self.directory().len() > 0 && self.directory().last() != '/' {
                lemma_directory_of_joined(self.directory(), key@);
            }
        }
        let path = self.get_path(key);
        let length = path.as_str().unicode_len();
        let mut last: Option<usize> = None;
        let mut at: usize = 0;
        for c in it: path.as_str().chars()
            invariant
                it.seq() == path@,
                length == path@.len(),
                at == it.index(),
                match last {
                    Some(i) => last_separator(path@.take(it.index())) == Some(i as int),
                    None => last_separator(path@.take(it.index())) is None,
                },
        {
            proof {
                assert(path@.take(it.index() + 1).drop_last() =~= path@.take(it.index()));
            }
            if c == '/' {
                last = Some(at);
            }
            at += 1;
        }
        proof {
            assert(path@.take(path@.len() as int) =~= path@);
            lemma_last_separator(path@);
        }
        match last {
            None => String::new(),
            Some(i) => if i == 0 {
                let mut root = String::new();
                push_char(&mut root, '/');
                root
            } else {
                let head = path.as_str().substring_char(0, i);
                String::from_str(head)
            },
        }
    }
}

/// The prefix that every key of this library carries in a shared store.
pub const KEY_PREFIX: &'static str = "easy_prefs_";

/// The text that precedes a namespaced key in a displayed location.
pub const LOCAL_SCHEME: &'static str = "localStorage::";

/// `c`, or `_` in place of a path or domain separator.
pub open spec fn sanitized_char(c: char) -> char {
    if c == '/' || c == '.' {
        '_'
    } else {
        c
    }
}

/// An application identifier with every `/` and `.` replaced by `_`.
pub open spec fn sanitized(app_id: Seq<char>) -> Seq<char> {
    app_id.map_values(|c: char| sanitized_char(c))
}

/// The namespace of an application: [`KEY_PREFIX`], the sanitized
/// identifier, and `_`.
pub open spec fn namespace_of(app_id: Seq<char>) -> Seq<char> {
    KEY_PREFIX@ + sanitized(app_id) + seq!['_']
}

/// A namespace in a shared key-value store, one entry per record.
#[derive(Debug)]
pub struct LocalStorage {
    prefix: String,
}

impl LocalStorage {
    /// The text that every key of this namespace starts with.
    pub closed spec fn namespace(&self) -> Seq<char> {
        self.prefix@
    }

    /// Addresses the records of the application `app_id`.
    pub fn new(app_id: &str) -> (storage: LocalStorage)
        ensures
            storage.namespace() == namespace_of(app_id@),
    {
        let mut prefix = String::from_str(KEY_PREFIX);
        let ghost head = prefix@;
        for c in it: app_id.chars()
            invariant
                it.seq() == app_id@,
                head == KEY_PREFIX@,
                prefix@ == head + sanitized(app_id@.take(it.index())),
        {
            let replaced = if c == '/' || c == '.' {
                '_'
            } else {
                c
            };
            push_char(&mut prefix, replaced);
            assert(sanitized(app_id@.take(it.index() + 1)) =~= sanitized(
                app_id@.take(it.index()),
            ).push(replaced));
        }
        push_char(&mut prefix, '_');
        LocalStorage { prefix }
    }

    /// The key under which the shared store holds the record called `key`.
    pub fn full_key(&self, key: &str) -> (full: String)
        ensures
            full@ == self.namespace() + key@,
    {
        self.prefix.clone().concat(key)
    }

    /// The location of the record called `key`, for display.
    pub fn get_path(&self, key: &str) -> (path: String)
        ensures
            path@ == LOCAL_SCHEME@ + (self.namespace() + key@),
    {
        let full = self.full_key(key);
        String::from_str(LOCAL_SCHEME).concat(full.as_str())
    }
}

/// The kind of durable store that the host offers.
#[derive(Clone, Copy, Debug, PartialEq, Eq, Structural)]
pub enum Target {
    /// A file system: records are files in a directory.
    Native,
    /// A browser: records are entries of its key-value store.
    Browser,
}

/// One step of work on a durable store, for the host to perform.
#[derive(Debug)]
pub enum StorageStep {
    /// Create `directory` and its missing ancestors.
    CreateDirectories { directory: String },
    /// Create a fresh, empty temporary file in `directory`.
    CreateTempFile { directory: String },
    /// Write `data`, all of it, to the temporary file.
    FillTempFile { data: String },
    /// Rename the temporary file onto `target`, replacing what is there.
    ReplaceWithTempFile { target: String },
    /// Store `data` under `key` in the key-value store.
    SetItem { key: String, data: String },
}

/// The mathematical content of a [`StorageStep`].
pub enum StepView {
    CreateDirectories { directory: Seq<char> },
    CreateTempFile { directory: Seq<char> },
    FillTempFile { data: Seq<char> },
    ReplaceWithTempFile { target: Seq<char> },
    SetItem { key: Seq<char>, data: Seq<char> },
}

impl View for StorageStep {
    type V = StepView;

    open spec fn view(&self) -> StepView {
        match self {
            StorageStep::CreateDirectories { directory } => StepView::CreateDirectories {
                directory: directory@,
            },
            StorageStep::CreateTempFile { directory } => StepView::CreateTempFile {
                directory: directory@,
            },
            StorageStep::FillTempFile { data } => StepView::FillTempFile { data: data@ },
            StorageStep::ReplaceWithTempFile { target } => StepView::ReplaceWithTempFile {
                target: target@,
            },
            StorageStep::SetItem { key, data } => StepView::SetItem { key: key@, data: data@ },
        }
    }
}

/// The views of a list of steps, in order.
pub open spec fn step_views(steps: Seq<StorageStep>) -> Seq<StepView> {
    steps.map_values(|s: StorageStep| s@)
}

/// Where the host finds a record.
#[derive(Debug)]
pub enum Lookup {
    /// In the file at `path`; a file that does not exist is a record that
    /// was never written, not an error.
    File { path: String },
    /// Under `key` in the key-value store.
    Item { key: String },
}

/// The mathematical content of a [`Lookup`].
pub enum LookupView {
    File { path: Seq<char> },
    Item { key: Seq<char> },
}

impl View for Lookup {
    type V = LookupView;

    open spec fn view(&self) -> LookupView {
        match self {
            Lookup::File { path } => LookupView::File { path: path@ },
            Lookup::Item { key } => LookupView::Item { key: key@ },
        }
    }
}

/// A durable store as a reader sees it: the records under their paths or
/// keys, and the temporary file that a write in progress has open.
pub struct StoreView {
    pub records: Map<Seq<char>, Seq<char>>,
    pub staged: Option<Seq<char>>,
}

/// The store after the host has performed `step` on it. A step that fails
/// is a step not performed: it leaves every record as it was.
pub open spec fn after_step(store: StoreView, step: StepView) -> StoreView {
    match step {
        StepView::CreateDirectories { directory } => store,
        StepView::CreateTempFile { directory } => StoreView {
            records: store.records,
            staged: Some(Seq::empty()),
        },
        StepView::FillTempFile { data } => StoreView {
            records: store.records,
            staged: Some(data),
        },
        StepView::ReplaceWithTempFile { target } => match store.staged {
            Some(data) => StoreView { records: store.records.insert(target, data), staged: None },
            None => store,
        },
        StepView::SetItem { key, data } => StoreView {
            records: store.records.insert(key, data),
            staged: store.staged,
        },
    }
}

/// The store after the host has performed the first `count` of `steps`.
pub open spec fn after_steps(store: StoreView, steps: Seq<StepView>, count: int) -> StoreView
    decreases count,
{
    if count <= 0 || count > steps.len() {
        store
    } else {
        after_step(after_steps(store, steps, count - 1), steps[count - 1])
    }
}

/// The steps that replace the file at `target`, inside `directory`, by `data`:
/// stage the whole content in a temporary file beside the target, then move
/// it into place.
pub open spec fn file_write_steps(directory: Seq<char>, target: Seq<char>, data: Seq<char>) -> Seq<
    StepView,
> {
    seq![
        StepView::CreateDirectories { directory },
        StepView::CreateTempFile { directory },
        StepView::FillTempFile { data },
        StepView::ReplaceWithTempFile { target },
    ]
}

/// The one step that stores `data` under `key` in a key-value store.
pub open spec fn item_write_steps(key: Seq<char>, data: Seq<char>) -> Seq<StepView> {
    seq![StepView::SetItem { key, data }]
}

/// A durable store of one of the two kinds, addressed and ready to plan work.
#[derive(Debug)]
pub enum Backend {
    File(FileStorage),
    Local(LocalStorage),
}

impl Backend {
    /// Where the record called `key` is kept: the path or key that a write
    /// replaces and a read looks at.
    pub open spec fn address(&self, key: Seq<char>) -> Seq<char> {
        match self {
            Backend::File(files) => joined_path(files.directory(), key),
            Backend::Local(items) => items.namespace() + key,
        }
    }

    /// The steps of a write of `data` to the record called `key`.
    pub open spec fn planned_write(&self, key: Seq<char>, data: Seq<char>) -> Seq<StepView> {
        match self {
            Backend::File(files) => file_write_steps(
                directory_of(self.address(key)),
                self.address(key),
                data,
            ),
            Backend::Local(items) => item_write_steps(self.address(key), data),
        }
    }

    /// The location of the record called `key`, for display.
    pub fn get_path(&self, key: &str) -> (path: String)
        ensures
            path@ == match self {
                Backend::File(_) => self.address(key@),
                Backend::Local(_) => LOCAL_SCHEME@ + self.address(key@),
            },
    {
        match self {
            Backend::File(files) => files.get_path(key),
            Backend::Local(items) => items.get_path(key),
        }
    }

    /// Where the host reads the record called `key`.
    pub fn lookup(&self, key: &str) -> (place: Lookup)
        ensures
            place@ == match self {
                Backend::File(_) => LookupView::File { path: self.address(key@) },
                Backend::Local(_) => LookupView::Item { key: self.address(key@) },
            },
    {
        match self {
            Backend::File(files) => Lookup::File { path: files.get_path(key) },
            Backend::Local(items) => Lookup::Item { key: items.full_key(key) },
        }
    }

    /// The steps that write `data` to the record called `key`. The host
    /// performs them in order and stops at the first that fails.
    pub fn write_steps(&self, key: &str, data: &str) -> (steps: Vec<StorageStep>)
        ensures
            step_views(steps@) == self.planned_write(key@, data@),
    {
        let mut steps: Vec<StorageStep> = Vec::new();
        match self {
            Backend::File(files) => {
                let directory = files.staging_dir(key);
                steps.push(StorageStep::CreateDirectories { directory: directory.clone() });
                steps.push(StorageStep::CreateTempFile { directory });
                steps.push(StorageStep::FillTempFile { data: String::from_str(data) });
                steps.push(StorageStep::ReplaceWithTempFile { target: files.get_path(key) });
            },
            Backend::Local(items) => {
                steps.push(
                    StorageStep::SetItem { key: items.full_key(key), data: String::from_str(data) },
                );
            },
        }
        steps
    }
}

/// Atomicity of a write: however many of its steps the host gets through,
/// the record holds either what it held before or all of the new content,
/// the new content exactly when every step was performed, and no other
/// record changes.
pub proof fn lemma_write_is_atomic(
    backend: Backend,
    key: Seq<char>,
    data: Seq<char>,
    store: StoreView,
    count: int,
)
    requires
        0 <= count <= backend.planned_write(key, data).len(),
    ensures
        after_steps(store, backend.planned_write(key, data), count).records == if count
            == backend.planned_write(key, data).len() {
            store.records.insert(backend.address(key), data)
        } else {
            store.records
        },
{
    reveal_with_fuel(after_steps, 5);
}

/// Addresses the durable store that the host offers on `target`: for a file
/// system `location` is a directory path, for a browser an application
/// identifier.
pub fn create_storage(target: Target, location: &str) -> (backend: Backend)
    ensures
        match backend {
            Backend::File(files) => target == Target::Native && files.directory() == location@,
            Backend::Local(items) => target == Target::Browser && items.namespace()
                == namespace_of(location@),
        },
{
    match target {
        Target::Native => Backend::File(FileStorage::new(location)),
        Target::Browser => Backend::Local(LocalStorage::new(location)),
    }
}

/// The text that precedes the label in a displayed in-memory location.
pub const MEMORY_SCHEME: &'static str = "memory::";

/// The records that a journal of writes amounts to: for each key, the data
/// of the last write to it.
pub open spec fn replayed(journal: Seq<(Seq<char>, Seq<char>)>) -> Map<Seq<char>, Seq<char>>
    decreases journal.len(),
{
    if journal.len() == 0 {
        Map::empty()
    } else {
        replayed(journal.drop_last()).insert(journal.last().0, journal.last().1)
    }
}

/// A key that the journal never wrote has no record.
pub proof fn lemma_replayed_absent(journal: Seq<(Seq<char>, Seq<char>)>, key: Seq<char>)
    requires
        forall|k: int| 0 <= k < journal.len() ==> journal[k].0 != key,
    ensures
        !replayed(journal).contains_key(key),
    decreases journal.len(),
{
    if journal.len() > 0 {
        lemma_replayed_absent(journal.drop_last(), key);
    }
}

/// A key holds the data of the last write to it.
pub proof fn lemma_replayed_last(journal: Seq<(Seq<char>, Seq<char>)>, key: Seq<char>, at: int)
    requires
        0 <= at < journal.len(),
        journal[at].0 == key,
        forall|k: int| at < k < journal.len() ==> journal[k].0 != key,
    ensures
        replayed(journal).contains_key(key),
        replayed(journal)[key] == journal[at].1,
    decreases journal.len(),
{
    if at < journal.len() - 1 {
        lemma_replayed_last(journal.drop_last(), key, at);
    }
}

/// A backend that keeps its records in memory, as the journal of the writes
/// made to it. It never fails, and it is gone with the process.
#[derive(Debug)]
pub struct MemoryStorage {
    label: String,
    journal: Vec<(String, String)>,
}

impl MemoryStorage {
    /// The name that displayed locations carry.
    pub closed spec fn label(&self) -> Seq<char> {
        self.label@
    }

    /// Every write made so far, oldest first, as key and data.
    pub closed spec fn journal(&self) -> Seq<(Seq<char>, Seq<char>)> {
        self.journal@.map_values(|entry: (String, String)| (entry.0@, entry.1@))
    }

    /// The records held: for each key, the data of the last write to it.
    pub open spec fn contents(&self) -> Map<Seq<char>, Seq<char>> {
        replayed(self.journal())
    }

    /// The number of writes made so far.
    pub open spec fn writes(&self) -> nat {
        self.journal().len()
    }

    /// The location displayed for the record `key`.
    pub open spec fn location(&self, key: Seq<char>) -> Seq<char> {
        MEMORY_SCHEME@ + self.label() + seq!['/'] + key
    }

    /// An empty backend called `label`.
    pub fn new(label: &str) -> (storage: MemoryStorage)
        ensures
            storage.label() == label@,
            storage.journal() == Seq::<(Seq<char>, Seq<char>)>::empty(),
    {
        MemoryStorage { label: String::from_str(label), journal: Vec::new() }
    }

    /// The number of writes made so far.
    pub fn write_count(&self) -> (count: usize)
        ensures
            count == self.writes(),
    {
        self.journal.len()
    }
}

impl Storage for MemoryStorage {
    /// A read never fails, and finds what the last write to the key left.
    open spec fn read_spec(&self, key: Seq<char>, outcome: Option<Option<Seq<char>>>) -> bool {
        outcome == Some(record_at(self.contents(), key))
    }

    /// A write never fails, and adds itself to the journal.
    open spec fn write_spec(
        &self,
        key: Seq<char>,
        data: Seq<char>,
        succeeded: bool,
        after: &Self,
    ) -> bool {
        &&& succeeded
        &&& after.journal() == self.journal().push((key, data))
        &&& after.label() == self.label()
    }

    open spec fn path_spec(&self, key: Seq<char>, path: Seq<char>) -> bool {
        path == self.location(key)
    }

    fn read(&self, key: &str) -> (found: Result<Option<String>, std::io::Error>) {
        let wanted = String::from_str(key);
        let mut i: usize = self.journal.len();
        while i > 0
            invariant
                i <= self.journal.len(),
                wanted@ == key@,
                forall|k: int| i <= k < self.journal.len() ==> self.journal()[k].0 != key@,
            decreases i,
        {
            i -= 1;
            if self.journal[i].0 == wanted {
                proof {
                    lemma_replayed_last(self.journal(), key@, i as int);
                }
                return Ok(Some(self.journal[i].1.clone()));
            }
        }
        proof {
            lemma_replayed_absent(self.journal(), key@);
        }
        Ok(None)
    }

    fn write(&mut self, key: &str, data: &str) -> (done: Result<(), std::io::Error>) {
        self.journal.push((String::from_str(key), String::from_str(data)));
        proof {
            assert(self.journal() =~= old(self).journal().push((key@, data@)));
        }
        Ok(())
    }

    fn get_path(&self, key: &str) -> (path: String) {
        let mut path = String::from_str(MEMORY_SCHEME);
        path.append(self.label.as_str());
        push_char(&mut path, '/');
        path.append(key);
        assert(path@ =~= self.location(key@));
        path
    }
}

} // verus!
