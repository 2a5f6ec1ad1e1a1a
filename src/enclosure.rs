//! One sandboxed run: its name, the paths it materialised, the child's status,
//! and the plans that tear it down and assemble its view of the filesystem.
use vstd::prelude::*;
use haikunator::Haikunator;
use crate::path::{container_root, container_root_of, copy_bytes};

verus! {

/// Whether a rule redirects one file or a directory tree.
#[derive(Clone, Copy, Debug, PartialEq, Eq, Structural)]
pub enum RuleMode {
    File,
    Directory,
}

/// The policy flags of a run.
#[derive(Clone, Copy, Debug, PartialEq, Eq, Structural)]
pub struct Config {
    /// Observe the child's syscalls and write a path report.
    pub trace: bool,
    /// Remount the enclosure's `/` read-only before the command starts.
    pub immutable_root: bool,
    /// Detach the command; the caller's status is then 0.
    pub daemon: bool,
    /// Load variables from the nearest `.env` file.
    pub dotenv: bool,
}

/// A step of tearing an enclosure down.
#[derive(Debug)]
pub enum CleanupStep {
    /// Unmount and remove the enclosure root.
    RemoveRoot(Vec<u8>),
    /// Remove a file that the run created.
    RemoveFile(Vec<u8>),
    /// Remove a directory that the run created.
    RemoveDir(Vec<u8>),
}

/// A cleanup step over byte sequences.
pub ghost enum CleanupOp {
    RemoveRoot(Seq<u8>),
    RemoveFile(Seq<u8>),
    RemoveDir(Seq<u8>),
}

impl View for CleanupStep {
    type V = CleanupOp;

    open spec fn view(&self) -> CleanupOp {
        match self {
            CleanupStep::RemoveRoot(p) => CleanupOp::RemoveRoot(p@),
            CleanupStep::RemoveFile(p) => CleanupOp::RemoveFile(p@),
            CleanupStep::RemoveDir(p) => CleanupOp::RemoveDir(p@),
        }
    }
}

/// The teardown of an enclosure: the root first, then every created file in
/// the order created, then every created directory, the latest first.
pub open spec fn cleanup_ops(root: Seq<u8>, files: Seq<Seq<u8>>, dirs: Seq<Seq<u8>>) -> Seq<
    CleanupOp,
> {
    seq![CleanupOp::RemoveRoot(root)] + Seq::new(
        files.len(),
        |i: int| CleanupOp::RemoveFile(files[i]),
    ) + Seq::new(dirs.len(), |i: int| CleanupOp::RemoveDir(dirs[dirs.len() - 1 - i]))
}

/// The byte sequences of a list of paths.
pub open spec fn paths_view(v: Seq<Vec<u8>>) -> Seq<Seq<u8>> {
    v.map_values(|p: Vec<u8>| p@)
}

/// The default stack of the child when no limit can be read: 8 MiB.
pub const DEFAULT_STACK_SIZE: usize = 8388608;

/// The status of a child that has not been waited for.
pub const NO_STATUS: i32 = -1;

/// The exit code that a wait status stands for: the exit byte of a child that
/// exited, 128 plus the signal of one that a signal ended. A negative status
/// (none was collected) is handed on as it is.
pub open spec fn exit_code_of(wstatus: int) -> int {
    if wstatus < 0 {
        wstatus
    } else if wstatus % 128 == 0 {
        (wstatus / 256) % 256
    } else {
        128 + wstatus % 128
    }
}

/// The status that the caller reports for a run.
pub open spec fn reported_code(daemon: bool, wstatus: int) -> int {
    if daemon {
        0
    } else {
        exit_code_of(wstatus)
    }
}

/// Relies on haikunator's `Haikunator::haikunate`: a random adjective-noun
/// name; nothing is promised of which.
#[verifier::external_body]
fn fresh_name() -> (r: Vec<u8>) {
    Haikunator::default().haikunate().into_bytes()
}

/// Relies on rlimit's `Resource::get` for `STACK`: the soft limit, or `None`
/// when it cannot be read. The value depends on the process.
#[verifier::external_body]
fn soft_stack_limit() -> (r: Option<u64>) {
    rlimit::Resource::STACK.get().ok().map(|(soft, _hard)| soft)
}

/// The stack size of the child for a soft stack limit, if one was read.
pub fn stack_size_for(soft: Option<u64>) -> (r: usize)
    ensures
        r == match soft {
            Some(s) => s as usize,
            None => DEFAULT_STACK_SIZE,
        },
{
    match soft {
        Some(s) => s as usize,
        None => DEFAULT_STACK_SIZE,
    }
}

/// The stack size of the child: the process's soft stack limit, or 8 MiB.
pub fn child_stack_size() -> usize {
    stack_size_for(soft_stack_limit())
}

/// The exit code that a wait status stands for.
pub fn exit_code(wstatus: i32) -> (r: i32)
    ensures
        r as int == exit_code_of(wstatus as int),
{
    if wstatus < 0 {
        wstatus
    } else if wstatus % 128 == 0 {
        (wstatus / 256) % 256
    } else {
        128 + wstatus % 128
    }
}

/// One sandboxed run.
pub struct Enclosure {
    config: Config,
    name: Vec<u8>,
    child_exit_status: i32,
    created_files: Vec<Vec<u8>>,
    created_directories: Vec<Vec<u8>>,
}

impl Enclosure {
    /// The run's policy.
    pub closed spec fn config_view(&self) -> Config {
        self.config
    }

    /// The run's name.
    pub closed spec fn name_view(&self) -> Seq<u8> {
        self.name@
    }

    /// The child's wait status, `NO_STATUS` until it is collected.
    pub closed spec fn status_view(&self) -> i32 {
        self.child_exit_status
    }

    /// The files the run created, in the order created.
    pub closed spec fn files_view(&self) -> Seq<Seq<u8>> {
        paths_view(self.created_files@)
    }

    /// The directories the run created, in the order created.
    pub closed spec fn dirs_view(&self) -> Seq<Seq<u8>> {
        paths_view(self.created_directories@)
    }

    /// A run under `config` with a fresh random name.
    pub fn new(config: Config) -> (r: Enclosure)
        ensures
            r.config_view() == config,
            r.status_view() == NO_STATUS,
            r.files_view() == Seq::<Seq<u8>>::empty(),
            r.dirs_view() == Seq::<Seq<u8>>::empty(),
    {
        Enclosure::with_name(config, fresh_name())
    }

    /// A run under `config` called `name`.
    pub fn with_name(config: Config, name: Vec<u8>) -> (r: Enclosure)
        ensures
            r.config_view() == config,
            r.name_view() == name@,
            r.status_view() == NO_STATUS,
            r.files_view() == Seq::<Seq<u8>>::empty(),
            r.dirs_view() == Seq::<Seq<u8>>::empty(),
    {
        let r = Enclosure {
            config,
            name,
            child_exit_status: NO_STATUS,
            created_files: Vec::new(),
            created_directories: Vec::new(),
        };
        assert(r.files_view() =~= Seq::<Seq<u8>>::empty());
        assert(r.dirs_view() =~= Seq::<Seq<u8>>::empty());
        r
    }

    /// The run's policy.
    pub fn config(&self) -> (r: Config)
        ensures
            r == self.config_view(),
    {
        self.config
    }

    /// The run's name.
    pub fn name(&self) -> (r: &Vec<u8>)
        ensures
            r@ == self.name_view(),
    {
        &self.name
    }

    /// The child's wait status, `NO_STATUS` until it is collected.
    pub fn child_exit_status(&self) -> (r: i32)
        ensures
            r == self.status_view(),
    {
        self.child_exit_status
    }

    /// Records the child's wait status.
    pub fn set_child_exit_status(&mut self, wstatus: i32)
        ensures
            final(self).status_view() == wstatus,
            final(self).config_view() == old(self).config_view(),
            final(self).name_view() == old(self).name_view(),
            final(self).files_view() == old(self).files_view(),
            final(self).dirs_view() == old(self).dirs_view(),
    {
        self.child_exit_status = wstatus;
    }

    /// Records the outcome of materialising a rule endpoint: a path that was
    /// `created` is remembered as a file or a directory by `mode`.
    pub fn record_created(&mut self, mode: RuleMode, path: Vec<u8>, created: bool)
        ensures
            final(self).files_view() == if created && mode == RuleMode::File {
                old(self).files_view().push(path@)
            } else {
                old(self).files_view()
            },
            final(self).dirs_view() == if created && mode == RuleMode::Directory {
                old(self).dirs_view().push(path@)
            } else {
                old(self).dirs_view()
            },
            final(self).status_view() == old(self).status_view(),
            final(self).config_view() == old(self).config_view(),
            final(self).name_view() == old(self).name_view(),
    {
        if created {
            match mode {
                RuleMode::File => {
                    self.created_files.push(path);
                    assert(self.files_view() =~= old(self).files_view().push(path@));
                },
                RuleMode::Directory => {
                    self.created_directories.push(path);
                    assert(self.dirs_view() =~= old(self).dirs_view().push(path@));
                },
            }
        }
    }

    /// The root of this run's enclosure under `runtime_dir`.
    pub fn root(&self, runtime_dir: &[u8]) -> (r: Vec<u8>)
        ensures
            r@ == container_root_of(runtime_dir@, self.name_view()),
    {
        container_root(runtime_dir, self.name.as_slice())
    }

    /// How to tear this run down: see `cleanup_ops`.
    pub fn cleanup_plan(&self, runtime_dir: &[u8]) -> (r: Vec<CleanupStep>)
        ensures
            r@.map_values(|s: CleanupStep| s@) == cleanup_ops(
                container_root_of(runtime_dir@, self.name_view()),
                self.files_view(),
                self.dirs_view(),
            ),
    {
        let ghost files = self.files_view();
        let ghost dirs = self.dirs_view();
        let ghost root = container_root_of(runtime_dir@, self.name_view());
        let mut r: Vec<CleanupStep> = Vec::new();
        r.push(CleanupStep::RemoveRoot(self.root(runtime_dir)));
        let nf = self.created_files.len();
        let mut i: usize = 0;
        while i < nf
            invariant
                i <= nf,
                nf == files.len(),
                files == self.files_view(),
                r@.len() == 1 + i,
                r@[0]@ == CleanupOp::RemoveRoot(root),
                forall|k: int| 0 <= k < i ==> #[trigger] r@[1 + k]@ == CleanupOp::RemoveFile(files[k]),
            decreases nf - i,
        {
            assert(files[i as int] == self.created_files@[i as int]@);
            r.push(CleanupStep::RemoveFile(copy_bytes(self.created_files[i].as_slice())));
            i = i + 1;
        }
        let n = self.created_directories.len();
        let mut j: usize = 0;
        while j < n
            invariant
                j <= n,
                n == dirs.len(),
                nf == files.len(),
                dirs == self.dirs_view(),
                r@.len() == 1 + nf + j,
                r@[0]@ == CleanupOp::RemoveRoot(root),
                forall|k: int| 0 <= k < nf ==> #[trigger] r@[1 + k]@ == CleanupOp::RemoveFile(files[k]),
                forall|k: int|
                    0 <= k < j ==> #[trigger] r@[1 + nf + k]@ == CleanupOp::RemoveDir(dirs[n - 1 - k]),
            decreases n - j,
        {
            assert(dirs[n - 1 - j] == self.created_directories@[n - 1 - j]@);
            r.push(CleanupStep::RemoveDir(copy_bytes(self.created_directories[n - 1 - j].as_slice())));
            j = j + 1;
        }
        let ghost ops = cleanup_ops(root, files, dirs);
        let ghost mapped = r@.map_values(|s: CleanupStep| s@);
        assert forall|k: int| 0 <= k < ops.len() implies mapped[k] == ops[k] by {
            if k >= 1 + nf {
                assert(r@[1 + nf + (k - 1 - nf)]@ == CleanupOp::RemoveDir(dirs[n - 1 - (k - 1
                    - nf)]));
            } else if k >= 1 {
                assert(r@[1 + (k - 1)]@ == CleanupOp::RemoveFile(files[k - 1]));
            }
        }
        assert(mapped =~= ops);
        r
    }

    /// The status that the caller reports: 0 in daemon mode, else the exit
    /// code of the child's wait status.
    pub fn reported_status(&self) -> (r: i32)
        ensures
            r as int == reported_code(self.config_view().daemon, self.status_view() as int),
    {
        if self.config.daemon {
            0
        } else {
            exit_code(self.child_exit_status)
        }
    }
}

/// Teardown leaves nothing behind: the enclosure root goes first, every file
/// and every directory the run created is removed, and a directory created
/// after another is removed before it, so children go before their parents.
pub proof fn lemma_cleanup_removes_all_created(
    root: Seq<u8>,
    files: Seq<Seq<u8>>,
    dirs: Seq<Seq<u8>>,
)
    ensures
        cleanup_ops(root, files, dirs)[0] == CleanupOp::RemoveRoot(root),
        cleanup_ops(root, files, dirs).len() == 1 + files.len() + dirs.len(),
        forall|i: int|
            0 <= i < files.len() ==> cleanup_ops(root, files, dirs).contains(
                CleanupOp::RemoveFile(#[trigger] files[i]),
            ),
        forall|i: int|
            0 <= i < dirs.len() ==> cleanup_ops(root, files, dirs)[1 + files.len() + dirs.len() - 1
                - i] == CleanupOp::RemoveDir(#[trigger] dirs[i]),
{
    let ops = cleanup_ops(root, files, dirs);
    assert forall|i: int| 0 <= i < files.len() implies ops.contains(
        CleanupOp::RemoveFile(#[trigger] files[i]),
    ) by {
        assert(ops[1 + i] == CleanupOp::RemoveFile(files[i]));
    }
}

} // verus!
