//! The pin backend: a capability-set interface over a hierarchical
//! sysfs-like namespace — write, read, an existence check, a timed pause —
//! together with a ghost log of every action it has performed.
//!
//! Two implementations exist: a deterministic in-memory double in this module
//! (it records every call and can be scripted to fail), and a real
//! filesystem-backed one outside the verified library.

use vstd::prelude::*;
use vstd::string::StringExecFns;

verus! {

/// One observable action performed through a pin backend: a write attempt
/// (with the path it went to, the data handed over, and whether the backend
/// reported success) or a timed pause.
pub enum IoEvent {
    Write { path: Seq<char>, data: Seq<char>, ok: bool },
    Sleep { milli_seconds: u64 },
}

/// A backend I/O failure, carrying the failing path and the underlying cause.
#[derive(Debug, Clone)]
pub struct IoError {
    pub path: String,
    pub message: String,
}

/// The injectable backend through which every GPIO state change is expressed
/// as a path write, and every timed hold as a pause.
///
/// The ghost `log` is the complete history of writes and pauses the backend
/// has performed, oldest first; `node_exists` is what an existence check on a
/// path would report in the current state. Whether a write succeeds is the
/// backend's choice: the contracts only pin down that every attempt is
/// recorded verbatim, so callers state their own behaviour as exact event
/// sequences over the log.
pub trait FileIO: Sized {
    spec fn log(&self) -> Seq<IoEvent>;

    spec fn node_exists(&self, path: Seq<char>) -> bool;

    fn write(&mut self, file_path: &str, data: &str) -> (r: Result<(), IoError>)
        ensures
            final(self).log() == old(self).log().push(
                IoEvent::Write { path: file_path@, data: data@, ok: r is Ok },
            ),
            r is Err ==> r->Err_0.path@ == file_path@,
    ;

    fn read(&self, file_path: &str) -> (r: Result<String, IoError>)
        ensures
            r is Err ==> r->Err_0.path@ == file_path@,
    ;

    fn path_exists(&self, path: &str) -> (r: bool)
        ensures
            r == self.node_exists(path@),
    ;

    fn sleep(&mut self, milli_seconds: u64)
        ensures
            final(self).log() == old(self).log().push(IoEvent::Sleep { milli_seconds }),
    ;
}

/// The raw side of a deployment backend: ordinary code — a real file
/// system, a device driver — that the verified library cannot see into.
/// Implementations live outside the library; nothing is stated of them
/// beyond their signatures, and [`ExternalFileIO`] is the one trusted seam
/// that turns such a backend into a [`FileIO`].
pub trait RawFileIO {
    fn write(&mut self, file_path: &str, data: &str) -> Result<(), IoError>;

    fn read(&self, file_path: &str) -> Result<String, IoError>;

    fn path_exists(&self, path: &str) -> bool;

    fn sleep(&mut self, milli_seconds: u64);
}

/// A raw backend adapted into a [`FileIO`]: the ghost log models the
/// history of calls handed to the raw side, the ghost node map models what
/// its existence checks answer in the current state.
pub struct ExternalFileIO<R: RawFileIO> {
    raw: R,
    history: Ghost<Seq<IoEvent>>,
    nodes: Ghost<Map<Seq<char>, bool>>,
}

impl<R: RawFileIO> ExternalFileIO<R> {
    /// Wraps a raw backend; its history starts empty.
    pub fn new(raw: R) -> (r: ExternalFileIO<R>)
        ensures
            r.log() == Seq::<IoEvent>::empty(),
    {
        let ghost history: Seq<IoEvent> = Seq::empty();
        let ghost nodes: Map<Seq<char>, bool> = vstd::pervasive::arbitrary();
        ExternalFileIO { raw, history: Ghost(history), nodes: Ghost(nodes) }
    }

    /// Hands the raw backend back, for callers that want to take it apart
    /// again once the controllers are done with it.
    pub fn into_raw(self) -> R {
        self.raw
    }
}

/// Relies on the raw backend attempting the write against `file_path` and
/// answering whether it went through; the attempt is what the ghost log
/// records.
#[verifier::external_body]
fn raw_write<R: RawFileIO>(io: &mut ExternalFileIO<R>, file_path: &str, data: &str) -> (r: Result<
    (),
    IoError,
>)
    ensures
        final(io).log() == old(io).log().push(
            IoEvent::Write { path: file_path@, data: data@, ok: r is Ok },
        ),
        r is Err ==> r->Err_0.path@ == file_path@,
{
    match io.raw.write(file_path, data) {
        Ok(()) => Ok(()),
        Err(e) => Err(IoError { path: file_path.to_string(), message: e.message }),
    }
}

/// Relies on the raw backend reading the file at `file_path`.
#[verifier::external_body]
fn raw_read<R: RawFileIO>(io: &ExternalFileIO<R>, file_path: &str) -> (r: Result<String, IoError>)
    ensures
        r is Err ==> r->Err_0.path@ == file_path@,
{
    match io.raw.read(file_path) {
        Ok(contents) => Ok(contents),
        Err(e) => Err(IoError { path: file_path.to_string(), message: e.message }),
    }
}

/// Relies on the raw backend answering existence checks consistently for
/// one and the same backend state (nothing writes between two checks on an
/// unchanged adapter).
#[verifier::external_body]
fn raw_path_exists<R: RawFileIO>(io: &ExternalFileIO<R>, path: &str) -> (r: bool)
    ensures
        r == io.node_exists(path@),
{
    io.raw.path_exists(path)
}

/// Relies on the raw backend pausing the caller for the given time; the
/// pause is what the ghost log records.
#[verifier::external_body]
fn raw_sleep<R: RawFileIO>(io: &mut ExternalFileIO<R>, milli_seconds: u64)
    ensures
        final(io).log() == old(io).log().push(IoEvent::Sleep { milli_seconds }),
{
    io.raw.sleep(milli_seconds);
}

impl<R: RawFileIO> FileIO for ExternalFileIO<R> {
    closed spec fn log(&self) -> Seq<IoEvent> {
        self.history@
    }

    closed spec fn node_exists(&self, path: Seq<char>) -> bool {
        self.nodes@[path]
    }

    fn write(&mut self, file_path: &str, data: &str) -> (r: Result<(), IoError>) {
        raw_write(self, file_path, data)
    }

    fn read(&self, file_path: &str) -> (r: Result<String, IoError>) {
        raw_read(self, file_path)
    }

    fn path_exists(&self, path: &str) -> (r: bool) {
        raw_path_exists(self, path)
    }

    fn sleep(&mut self, milli_seconds: u64) {
        raw_sleep(self, milli_seconds);
    }
}

/// The executable mirror of one [`IoEvent`], as the in-memory double records
/// it.
#[derive(Debug, Clone, PartialEq, Eq)]
pub enum IoRecord {
    Write { path: String, data: String, ok: bool },
    Sleep { milli_seconds: u64 },
}

impl View for IoRecord {
    type V = IoEvent;

    open spec fn view(&self) -> IoEvent {
        match self {
            IoRecord::Write { path, data, ok } => IoEvent::Write {
                path: path@,
                data: data@,
                ok: *ok,
            },
            IoRecord::Sleep { milli_seconds } => IoEvent::Sleep { milli_seconds: *milli_seconds },
        }
    }
}

/// A deterministic in-memory backend: it records every call, reports a
/// scripted answer for existence checks, and can be scripted to start
/// failing writes from a chosen write ordinal on.
///
/// Its `write` contract is exact — the verdict is fixed by the scripting
/// fields, which every call preserves — so code holding a concrete double
/// can derive each write's outcome. Code that only sees the [`FileIO`]
/// bound still treats the backend as nondeterministic: that is the trait's
/// deliberate model, and the scripted behaviour is then checked by running
/// against this double.
pub struct InMemoryFileIO {
    /// Every write attempt and pause so far, oldest first.
    pub records: Vec<IoRecord>,
    /// Write attempts with ordinal `>= fail_writes_from` are refused.
    pub fail_writes_from: usize,
    /// How many write attempts have been made so far.
    pub writes_attempted: usize,
    /// What `path_exists` reports, for every path.
    pub nodes_present: bool,
}

impl InMemoryFileIO {
    /// A backend on which every write succeeds and no node exists yet.
    pub fn new() -> (r: InMemoryFileIO)
        ensures
            r.log() == Seq::<IoEvent>::empty(),
            r.writes_attempted == 0,
            r.fail_writes_from == usize::MAX,
            !r.nodes_present,
    {
        let r = InMemoryFileIO {
            records: Vec::new(),
            fail_writes_from: usize::MAX,
            writes_attempted: 0,
            nodes_present: false,
        };
        assert(r.log() =~= Seq::<IoEvent>::empty());
        r
    }

    /// A backend scripted to refuse every write whose ordinal (counted from
    /// zero) is `fail_writes_from` or later, and to report `nodes_present`
    /// from every existence check.
    pub fn scripted(fail_writes_from: usize, nodes_present: bool) -> (r: InMemoryFileIO)
        ensures
            r.log() == Seq::<IoEvent>::empty(),
            r.writes_attempted == 0,
            r.fail_writes_from == fail_writes_from,
            r.nodes_present == nodes_present,
    {
        let r = InMemoryFileIO {
            records: Vec::new(),
            fail_writes_from,
            writes_attempted: 0,
            nodes_present,
        };
        assert(r.log() =~= Seq::<IoEvent>::empty());
        r
    }
}

impl FileIO for InMemoryFileIO {
    open spec fn log(&self) -> Seq<IoEvent> {
        self.records@.map_values(|r: IoRecord| r@)
    }

    open spec fn node_exists(&self, path: Seq<char>) -> bool {
        self.nodes_present
    }

    fn write(&mut self, file_path: &str, data: &str) -> (r: Result<(), IoError>)
        ensures
            final(self).log() == old(self).log().push(
                IoEvent::Write { path: file_path@, data: data@, ok: r is Ok },
            ),
            r is Err ==> r->Err_0.path@ == file_path@,
            r is Ok <==> old(self).writes_attempted < old(self).fail_writes_from,
            final(self).writes_attempted == (if old(self).writes_attempted < usize::MAX {
                old(self).writes_attempted + 1
            } else {
                old(self).writes_attempted as int
            }),
            final(self).fail_writes_from == old(self).fail_writes_from,
            final(self).nodes_present == old(self).nodes_present,
    {
        let ok = self.writes_attempted < self.fail_writes_from;
        if self.writes_attempted < usize::MAX {
            self.writes_attempted = self.writes_attempted + 1;
        }
        let record = IoRecord::Write { path: file_path.to_owned(), data: data.to_owned(), ok };
        self.records.push(record);
        assert(self.log() =~= old(self).log().push(
            IoEvent::Write { path: file_path@, data: data@, ok },
        ));
        if ok {
            Ok(())
        } else {
            Err(IoError {
                path: file_path.to_owned(),
                message: String::from_str("scripted write failure"),
            })
        }
    }

    fn read(&self, file_path: &str) -> (r: Result<String, IoError>)
        ensures
            r is Err ==> r->Err_0.path@ == file_path@,
    {
        Ok(String::new())
    }

    fn path_exists(&self, path: &str) -> (r: bool)
        ensures
            r == self.node_exists(path@),
    {
        self.nodes_present
    }

    fn sleep(&mut self, milli_seconds: u64)
        ensures
            final(self).log() == old(self).log().push(IoEvent::Sleep { milli_seconds }),
            final(self).writes_attempted == old(self).writes_attempted,
            final(self).fail_writes_from == old(self).fail_writes_from,
            final(self).nodes_present == old(self).nodes_present,
    {
        self.records.push(IoRecord::Sleep { milli_seconds });
        assert(self.log() =~= old(self).log().push(IoEvent::Sleep { milli_seconds }));
    }
}

} // verus!
