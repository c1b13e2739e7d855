//! The add operation as a state machine.  The orchestrator owns every
//! decision — validation, expansion, per-file hashing, storing,
//! manifest writing and ignore recording — while the caller performs
//! the filesystem actions it requests and reports each outcome back as
//! the next event.  A failure on one file is recorded and the
//! remaining files continue; only a single-file add propagates its
//! failure as the sole overall error.

use vstd::prelude::*;

use crate::bytes::{copy_bytes, has_infix};
use crate::config::{spec_algo_field, HashAlgorithm};
use crate::hashing::{identity_of, spec_identity};
use crate::ignore::{record, spec_record};
use crate::manifest::{render_sidecar, sidecar_path, spec_sidecar_doc, spec_sidecar_path};
use crate::store::{object_rel_path, spec_object_rel_path};
use crate::walk::{filter_tracked, spec_excluded, tracked_pred};

verus! {

/// Which event the orchestrator is waiting for.
#[derive(Clone, Copy, Debug, PartialEq, Eq, Structural)]
pub enum Phase {
    /// Waiting to learn whether the target path exists.
    AwaitStat,
    /// Waiting for the raw enumeration of a directory target.
    AwaitList,
    /// Waiting for the current file's bytes.
    AwaitBytes,
    /// Waiting to learn whether the current object is already cached.
    AwaitContains,
    /// Waiting for the outcome of the cache-object write.
    AwaitStore,
    /// Waiting for the outcome of the sidecar write.
    AwaitManifest,
    /// Waiting for the current ignore-file content.
    AwaitIgnore,
    /// Waiting for the outcome of the ignore-file write.
    AwaitIgnoreWrite,
    /// The operation is complete; the report can be taken.
    Finished,
}

/// Why an add, or one file within it, failed.
#[derive(Clone, Copy, Debug, PartialEq, Eq, Structural)]
pub enum AddErrorKind {
    /// The target path does not exist.
    NotFound,
    /// A read or write failed outside the store and manifest writes.
    IoError,
    /// The cache-object write failed.
    StoreWriteFailed,
    /// The sidecar write failed.
    ManifestWriteFailed,
}

/// One file that could not be completed, and why.
#[derive(Debug)]
pub struct FileFailure {
    pub path: Vec<u8>,
    pub kind: AddErrorKind,
}

/// The outcome of a whole add operation: which files were completed,
/// which failed and why.  `error` classifies the overall failure for a
/// missing target and for a single-file add; a directory add with
/// failures reports them through `failures` alone.
#[derive(Debug)]
pub struct AddReport {
    pub ok: bool,
    pub error: Option<AddErrorKind>,
    pub completed: Vec<Vec<u8>>,
    pub failures: Vec<FileFailure>,
}

/// What the orchestrator asks the caller to do next.  Paths are
/// relative to the project root.
#[derive(Debug)]
pub enum Action {
    /// Enumerate every regular file beneath the directory, in any
    /// order, without filtering anything.
    ListFiles { path: Vec<u8> },
    /// Read the file's bytes.
    ReadFile { path: Vec<u8> },
    /// Report whether a cache object already exists at this path.
    CheckObject { rel_path: Vec<u8> },
    /// Write the bytes to this cache path, via a temporary file in the
    /// same shard renamed into place.
    WriteObject { rel_path: Vec<u8>, data: Vec<u8> },
    /// Write the sidecar document at this path, replacing any
    /// previous one.
    WriteSidecar { path: Vec<u8>, data: Vec<u8> },
    /// Read the ignore file's bytes, treating a missing file as empty.
    ReadIgnore,
    /// Replace the ignore file with this content.
    WriteIgnore { data: Vec<u8> },
    /// The operation is over; take the report.
    Finish,
}

/// The phases that work on one file of the expanded set.
pub open spec fn per_file_phase(p: Phase) -> bool {
    ||| p == Phase::AwaitBytes
    ||| p == Phase::AwaitContains
    ||| p == Phase::AwaitStore
    ||| p == Phase::AwaitManifest
    ||| p == Phase::AwaitIgnore
    ||| p == Phase::AwaitIgnoreWrite
}

/// The phases in which the current file's identity has been computed.
pub open spec fn hashed_phase(p: Phase) -> bool {
    ||| p == Phase::AwaitContains
    ||| p == Phase::AwaitStore
    ||| p == Phase::AwaitManifest
    ||| p == Phase::AwaitIgnore
    ||| p == Phase::AwaitIgnoreWrite
}

/// Drives one add operation to completion.
pub struct AddOrchestrator {
    target: Vec<u8>,
    algorithm: HashAlgorithm,
    phase: Phase,
    target_is_dir: bool,
    not_found: bool,
    files: Vec<Vec<u8>>,
    idx: usize,
    cur_data: Vec<u8>,
    cur_identity: Vec<u8>,
    completed: Vec<Vec<u8>>,
    failures: Vec<FileFailure>,
}

impl AddOrchestrator {
    /// The path this add was asked to track.
    pub closed spec fn target(&self) -> Seq<u8> {
        self.target@
    }

    /// The hash algorithm threaded into the content hasher.
    pub closed spec fn algorithm(&self) -> HashAlgorithm {
        self.algorithm
    }

    /// The event the orchestrator expects next.
    pub closed spec fn phase(&self) -> Phase {
        self.phase
    }

    /// Whether the target turned out to be a directory.
    pub closed spec fn target_is_dir(&self) -> bool {
        self.target_is_dir
    }

    /// Whether validation found the target missing.
    pub closed spec fn not_found(&self) -> bool {
        self.not_found
    }

    /// The expanded, filtered set of files to track, in order.
    pub closed spec fn files(&self) -> Seq<Seq<u8>> {
        self.files.deep_view()
    }

    /// The position of the file currently in the pipeline.
    pub closed spec fn idx(&self) -> int {
        self.idx as int
    }

    /// The bytes of the file currently in the pipeline.
    pub closed spec fn cur_data(&self) -> Seq<u8> {
        self.cur_data@
    }

    /// The content identity of the file currently in the pipeline.
    pub closed spec fn cur_identity(&self) -> Seq<u8> {
        self.cur_identity@
    }

    /// The files completed so far, in completion order.
    pub closed spec fn completed(&self) -> Seq<Seq<u8>> {
        self.completed.deep_view()
    }

    /// The per-file failures recorded so far.
    pub closed spec fn failures(&self) -> Seq<FileFailure> {
        self.failures@
    }

    /// The orchestrator's invariant: the pipeline index stays within
    /// the file set, no file of the set lies inside the control
    /// directory, and in the phases after hashing the held identity is
    /// the identity of the held bytes.
    pub closed spec fn wf(&self) -> bool {
        &&& self.idx <= self.files@.len()
        &&& (per_file_phase(self.phase) ==> self.idx < self.files@.len())
        &&& forall|k: int|
            0 <= k < self.files.deep_view().len() ==> !spec_excluded(
                #[trigger] self.files.deep_view()[k],
            )
        &&& (hashed_phase(self.phase) ==> self.cur_identity@ == spec_identity(self.cur_data@)
            && self.cur_identity@.len() == 64)
    }

    /// A new orchestrator for one target path; the caller's first step
    /// is to report whether the target exists.
    pub fn new(target: Vec<u8>, algorithm: HashAlgorithm) -> (s: Self)
        ensures
            s.wf(),
            s.phase() == Phase::AwaitStat,
            s.target() == target@,
            s.algorithm() == algorithm,
            !s.not_found(),
            s.completed() == Seq::<Seq<u8>>::empty(),
            s.failures() == Seq::<FileFailure>::empty(),
    {
        let s = AddOrchestrator {
            target,
            algorithm,
            phase: Phase::AwaitStat,
            target_is_dir: false,
            not_found: false,
            files: Vec::new(),
            idx: 0,
            cur_data: Vec::new(),
            cur_identity: Vec::new(),
            completed: Vec::new(),
            failures: Vec::new(),
        };
        proof {
            assert(s.completed.deep_view() =~= Seq::<Seq<u8>>::empty());
            assert(s.files.deep_view() =~= Seq::<Seq<u8>>::empty());
        }
        s
    }

    /// The phase, for callers that drive the machine.
    pub fn current_phase(&self) -> (p: Phase)
        ensures
            p == self.phase(),
    {
        self.phase
    }

}

/// What a correctly driven machine does between files: either the next
/// file's read is requested, or the operation finishes.
pub open spec fn continues(o: AddOrchestrator, a: Action) -> bool {
    if o.idx() < o.files().len() {
        &&& o.phase() == Phase::AwaitBytes
        &&& a matches Action::ReadFile { path } && path@ == o.files()[o.idx()]
    } else {
        &&& o.phase() == Phase::Finished
        &&& a is Finish
    }
}

/// The failure list grew by exactly this one entry.
pub open spec fn failures_extended(
    pre: Seq<FileFailure>,
    post: Seq<FileFailure>,
    path: Seq<u8>,
    kind: AddErrorKind,
) -> bool {
    &&& post.len() == pre.len() + 1
    &&& post.subrange(0, pre.len() as int) == pre
    &&& post.last().path@ == path
    &&& post.last().kind == kind
}

/// The sidecar write the pipeline requests for the current file.
pub open spec fn sidecar_action(o: AddOrchestrator, a: Action) -> bool {
    &&& a matches Action::WriteSidecar { path, data }
    &&& path@ == spec_sidecar_path(o.files()[o.idx()])
    &&& data@ == spec_sidecar_doc(
        spec_algo_field(o.algorithm()),
        o.cur_identity(),
        o.files()[o.idx()],
        o.cur_data().len(),
    )
}

/// The fields that describe the job rather than its progress.
pub open spec fn same_job(a: AddOrchestrator, b: AddOrchestrator) -> bool {
    &&& a.target() == b.target()
    &&& a.algorithm() == b.algorithm()
    &&& a.target_is_dir() == b.target_is_dir()
    &&& a.not_found() == b.not_found()
}

/// The file set and pipeline position are unchanged.
pub open spec fn same_files(a: AddOrchestrator, b: AddOrchestrator) -> bool {
    &&& a.files() == b.files()
    &&& a.idx() == b.idx()
}

/// Nothing was recorded as completed or failed.
pub open spec fn same_results(a: AddOrchestrator, b: AddOrchestrator) -> bool {
    &&& a.completed() == b.completed()
    &&& a.failures() == b.failures()
}

impl AddOrchestrator {
    /// Installs the filtered file set and either starts the per-file
    /// pipeline or finishes an empty add.
    fn begin_files(&mut self, list: &Vec<Vec<u8>>) -> (a: Action)
        requires
            old(self).wf(),
        ensures
            final(self).wf(),
            final(self).files() == list.deep_view().filter(tracked_pred()),
            final(self).idx() == 0,
            continues(*final(self), a),
            same_job(*old(self), *final(self)),
            same_results(*old(self), *final(self)),
    {
        let filtered = filter_tracked(list);
        proof {
            let fl = list.deep_view().filter(tracked_pred());
            assert forall|k: int| 0 <= k < fl.len() implies !spec_excluded(#[trigger] fl[k]) by {
                list.deep_view().lemma_filter_pred(tracked_pred(), k);
            }
        }
        self.files = filtered;
        self.idx = 0;
        if self.files.len() == 0 {
            self.phase = Phase::Finished;
            Action::Finish
        } else {
            self.phase = Phase::AwaitBytes;
            let path = copy_bytes(&self.files[0]);
            proof {
                assert(self.files.deep_view()[0] =~= self.files@[0]@);
            }
            Action::ReadFile { path }
        }
    }

    /// Validation: the caller reports whether the target exists and
    /// whether it is a directory.  A missing target fails the whole
    /// add as `NotFound`; a file target becomes a one-element file
    /// set; a directory target is handed back for enumeration.
    pub fn on_stat(&mut self, exists: bool, is_dir: bool) -> (a: Action)
        requires
            old(self).wf(),
            old(self).phase() == Phase::AwaitStat,
        ensures
            final(self).wf(),
            final(self).target() == old(self).target(),
            final(self).algorithm() == old(self).algorithm(),
            same_results(*old(self), *final(self)),
            !exists ==> {
                &&& final(self).phase() == Phase::Finished
                &&& final(self).not_found()
                &&& a is Finish
            },
            exists && is_dir ==> {
                &&& final(self).phase() == Phase::AwaitList
                &&& final(self).target_is_dir()
                &&& final(self).not_found() == old(self).not_found()
                &&& a matches Action::ListFiles { path } && path@ == old(self).target()
            },
            exists && !is_dir ==> {
                &&& final(self).target_is_dir() == old(self).target_is_dir()
                &&& final(self).not_found() == old(self).not_found()
                &&& final(self).files() == seq![old(self).target()].filter(tracked_pred())
                &&& final(self).idx() == 0
                &&& continues(*final(self), a)
            },
    {
        if !exists {
            self.not_found = true;
            self.phase = Phase::Finished;
            return Action::Finish;
        }
        if is_dir {
            self.target_is_dir = true;
            self.phase = Phase::AwaitList;
            let path = copy_bytes(&self.target);
            return Action::ListFiles { path };
        }
        let mut single: Vec<Vec<u8>> = Vec::new();
        single.push(copy_bytes(&self.target));
        proof {
            assert(single.deep_view() =~~= seq![old(self).target()]);
        }
        self.begin_files(&single)
    }

    /// Expansion succeeded: the caller reports every regular file it
    /// found beneath the directory.  The control directory is filtered
    /// out here, before anything is hashed, cached, manifested or
    /// ignore-listed.
    pub fn on_listed(&mut self, paths: Vec<Vec<u8>>) -> (a: Action)
        requires
            old(self).wf(),
            old(self).phase() == Phase::AwaitList,
        ensures
            final(self).wf(),
            final(self).files() == paths.deep_view().filter(tracked_pred()),
            final(self).idx() == 0,
            continues(*final(self), a),
            same_job(*old(self), *final(self)),
            same_results(*old(self), *final(self)),
    {
        self.begin_files(&paths)
    }

    /// Expansion failed: the whole add fails with an I/O error.
    pub fn on_list_failed(&mut self) -> (a: Action)
        requires
            old(self).wf(),
            old(self).phase() == Phase::AwaitList,
        ensures
            final(self).wf(),
            final(self).phase() == Phase::Finished,
            a is Finish,
            same_job(*old(self), *final(self)),
            final(self).completed() == old(self).completed(),
            failures_extended(
                old(self).failures(),
                final(self).failures(),
                old(self).target(),
                AddErrorKind::IoError,
            ),
    {
        let path = copy_bytes(&self.target);
        self.failures.push(FileFailure { path, kind: AddErrorKind::IoError });
        self.phase = Phase::Finished;
        proof {
            assert(self.failures@.subrange(0, old(self).failures@.len() as int) =~= old(
                self,
            ).failures@);
        }
        Action::Finish
    }

    /// Moves to the next file, or finishes when the set is exhausted.
    fn advance(&mut self) -> (a: Action)
        requires
            old(self).wf(),
            old(self).idx() < old(self).files().len(),
        ensures
            final(self).wf(),
            final(self).idx() == old(self).idx() + 1,
            final(self).files() == old(self).files(),
            continues(*final(self), a),
            same_job(*old(self), *final(self)),
            same_results(*old(self), *final(self)),
    {
        let n = self.files.len();
        self.idx = self.idx + 1;
        if self.idx < n {
            self.phase = Phase::AwaitBytes;
            let path = copy_bytes(&self.files[self.idx]);
            proof {
                assert(self.files.deep_view()[self.idx as int] =~= self.files@[self.idx as int]@);
            }
            Action::ReadFile { path }
        } else {
            self.phase = Phase::Finished;
            Action::Finish
        }
    }

    /// Records a failure for the current file and continues with the
    /// remaining ones.
    fn fail_current(&mut self, kind: AddErrorKind) -> (a: Action)
        requires
            old(self).wf(),
            old(self).idx() < old(self).files().len(),
        ensures
            final(self).wf(),
            final(self).idx() == old(self).idx() + 1,
            final(self).files() == old(self).files(),
            continues(*final(self), a),
            same_job(*old(self), *final(self)),
            final(self).completed() == old(self).completed(),
            failures_extended(
                old(self).failures(),
                final(self).failures(),
                old(self).files()[old(self).idx()],
                kind,
            ),
    {
        let path = copy_bytes(&self.files[self.idx]);
        proof {
            assert(self.files.deep_view()[self.idx as int] =~= self.files@[self.idx as int]@);
        }
        self.failures.push(FileFailure { path, kind });
        proof {
            assert(self.failures@.subrange(0, old(self).failures@.len() as int) =~= old(
                self,
            ).failures@);
        }
        self.advance()
    }

    /// Requests the sidecar write for the current file.
    fn emit_sidecar(&mut self) -> (a: Action)
        requires
            old(self).wf(),
            hashed_phase(old(self).phase()),
            old(self).idx() < old(self).files().len(),
        ensures
            final(self).wf(),
            final(self).phase() == Phase::AwaitManifest,
            sidecar_action(*final(self), a),
            same_job(*old(self), *final(self)),
            same_files(*old(self), *final(self)),
            same_results(*old(self), *final(self)),
            final(self).cur_identity() == old(self).cur_identity(),
            final(self).cur_data() == old(self).cur_data(),
    {
        self.phase = Phase::AwaitManifest;
        let algo = self.algorithm.algo_field();
        let path = sidecar_path(&self.files[self.idx]);
        let data = render_sidecar(
            &algo,
            &self.cur_identity,
            &self.files[self.idx],
            self.cur_data.len() as u64,
        );
        proof {
            assert(self.files.deep_view()[self.idx as int] =~= self.files@[self.idx as int]@);
        }
        Action::WriteSidecar { path, data }
    }

    /// Hashing: the caller delivers the current file's bytes; the
    /// orchestrator computes their identity and asks whether the cache
    /// already holds that object.
    pub fn on_file_bytes(&mut self, data: Vec<u8>) -> (a: Action)
        requires
            old(self).wf(),
            old(self).phase() == Phase::AwaitBytes,
        ensures
            final(self).wf(),
            final(self).phase() == Phase::AwaitContains,
            final(self).cur_data() == data@,
            final(self).cur_identity() == spec_identity(data@),
            a matches Action::CheckObject { rel_path } && rel_path@ == spec_object_rel_path(
                spec_identity(data@),
            ),
            same_job(*old(self), *final(self)),
            same_files(*old(self), *final(self)),
            same_results(*old(self), *final(self)),
    {
        let id = identity_of(&data);
        let rel_path = object_rel_path(&id);
        self.cur_data = data;
        self.cur_identity = id;
        self.phase = Phase::AwaitContains;
        Action::CheckObject { rel_path }
    }

    /// Reading the current file failed: record it and continue.
    pub fn on_file_read_failed(&mut self) -> (a: Action)
        requires
            old(self).wf(),
            old(self).phase() == Phase::AwaitBytes,
        ensures
            final(self).wf(),
            final(self).idx() == old(self).idx() + 1,
            final(self).files() == old(self).files(),
            continues(*final(self), a),
            same_job(*old(self), *final(self)),
            final(self).completed() == old(self).completed(),
            failures_extended(
                old(self).failures(),
                final(self).failures(),
                old(self).files()[old(self).idx()],
                AddErrorKind::IoError,
            ),
    {
        self.fail_current(AddErrorKind::IoError)
    }

    /// Storing: if the object is already present the write is skipped —
    /// the existing object is authoritative — and the pipeline moves
    /// straight to the sidecar; otherwise the caller is asked to write
    /// the object.
    pub fn on_object_checked(&mut self, present: bool) -> (a: Action)
        requires
            old(self).wf(),
            old(self).phase() == Phase::AwaitContains,
        ensures
            final(self).wf(),
            same_job(*old(self), *final(self)),
            same_files(*old(self), *final(self)),
            same_results(*old(self), *final(self)),
            final(self).cur_identity() == old(self).cur_identity(),
            final(self).cur_data() == old(self).cur_data(),
            present ==> final(self).phase() == Phase::AwaitManifest && sidecar_action(
                *final(self),
                a,
            ),
            !present ==> {
                &&& final(self).phase() == Phase::AwaitStore
                &&& a matches Action::WriteObject { rel_path, data } && rel_path@
                    == spec_object_rel_path(old(self).cur_identity()) && data@ == old(
                    self,
                ).cur_data()
            },
    {
        if present {
            self.emit_sidecar()
        } else {
            self.phase = Phase::AwaitStore;
            let rel_path = object_rel_path(&self.cur_identity);
            let data = copy_bytes(&self.cur_data);
            Action::WriteObject { rel_path, data }
        }
    }

    /// The cache-object write finished: on success the sidecar is
    /// written next; on failure the file is recorded as failed and the
    /// pipeline continues.
    pub fn on_store_result(&mut self, ok: bool) -> (a: Action)
        requires
            old(self).wf(),
            old(self).phase() == Phase::AwaitStore,
        ensures
            final(self).wf(),
            same_job(*old(self), *final(self)),
            ok ==> {
                &&& final(self).phase() == Phase::AwaitManifest
                &&& sidecar_action(*final(self), a)
                &&& same_files(*old(self), *final(self))
                &&& same_results(*old(self), *final(self))
            },
            !ok ==> {
                &&& final(self).idx() == old(self).idx() + 1
                &&& final(self).files() == old(self).files()
                &&& continues(*final(self), a)
                &&& final(self).completed() == old(self).completed()
                &&& failures_extended(
                    old(self).failures(),
                    final(self).failures(),
                    old(self).files()[old(self).idx()],
                    AddErrorKind::StoreWriteFailed,
                )
            },
    {
        if ok {
            self.emit_sidecar()
        } else {
            self.fail_current(AddErrorKind::StoreWriteFailed)
        }
    }

    /// The sidecar write finished: on success the ignore file is read
    /// next; on failure the file is recorded as failed — the cache
    /// write, if it happened, stays in place, since the content is
    /// valid and a retry of the whole add is safe.
    pub fn on_manifest_result(&mut self, ok: bool) -> (a: Action)
        requires
            old(self).wf(),
            old(self).phase() == Phase::AwaitManifest,
        ensures
            final(self).wf(),
            same_job(*old(self), *final(self)),
            ok ==> {
                &&& final(self).phase() == Phase::AwaitIgnore
                &&& a is ReadIgnore
                &&& same_files(*old(self), *final(self))
                &&& same_results(*old(self), *final(self))
            },
            !ok ==> {
                &&& final(self).idx() == old(self).idx() + 1
                &&& final(self).files() == old(self).files()
                &&& continues(*final(self), a)
                &&& final(self).completed() == old(self).completed()
                &&& failures_extended(
                    old(self).failures(),
                    final(self).failures(),
                    old(self).files()[old(self).idx()],
                    AddErrorKind::ManifestWriteFailed,
                )
            },
    {
        if ok {
            self.phase = Phase::AwaitIgnore;
            Action::ReadIgnore
        } else {
            self.fail_current(AddErrorKind::ManifestWriteFailed)
        }
    }

    /// Ignore recording: the caller delivers the ignore file's current
    /// content.  If the logical path already appears — substring
    /// containment is the membership rule — nothing is written and the
    /// file is complete; otherwise the caller is asked to write the
    /// union.
    pub fn on_ignore_content(&mut self, content: Vec<u8>) -> (a: Action)
        requires
            old(self).wf(),
            old(self).phase() == Phase::AwaitIgnore,
        ensures
            final(self).wf(),
            same_job(*old(self), *final(self)),
            has_infix(content@, old(self).files()[old(self).idx()]) ==> {
                &&& final(self).idx() == old(self).idx() + 1
                &&& final(self).files() == old(self).files()
                &&& continues(*final(self), a)
                &&& final(self).completed() == old(self).completed().push(
                    old(self).files()[old(self).idx()],
                )
                &&& final(self).failures() == old(self).failures()
            },
            !has_infix(content@, old(self).files()[old(self).idx()]) ==> {
                &&& final(self).phase() == Phase::AwaitIgnoreWrite
                &&& same_files(*old(self), *final(self))
                &&& same_results(*old(self), *final(self))
                &&& a matches Action::WriteIgnore { data } && data@ == spec_record(
                    content@,
                    old(self).files()[old(self).idx()],
                )
            },
    {
        proof {
            assert(self.files.deep_view()[self.idx as int] =~= self.files@[self.idx as int]@);
        }
        let updated = record(&content, &self.files[self.idx]);
        if updated.len() == content.len() {
            proof {
                assert(has_infix(content@, old(self).files()[old(self).idx()]));
            }
            self.complete_current()
        } else {
            self.phase = Phase::AwaitIgnoreWrite;
            Action::WriteIgnore { data: updated }
        }
    }

    /// The ignore-file write finished: on success the file is
    /// complete; on failure it is recorded as failed.
    pub fn on_ignore_written(&mut self, ok: bool) -> (a: Action)
        requires
            old(self).wf(),
            old(self).phase() == Phase::AwaitIgnoreWrite,
        ensures
            final(self).wf(),
            same_job(*old(self), *final(self)),
            final(self).idx() == old(self).idx() + 1,
            final(self).files() == old(self).files(),
            continues(*final(self), a),
            ok ==> final(self).completed() == old(self).completed().push(
                old(self).files()[old(self).idx()],
            ) && final(self).failures() == old(self).failures(),
            !ok ==> final(self).completed() == old(self).completed() && failures_extended(
                old(self).failures(),
                final(self).failures(),
                old(self).files()[old(self).idx()],
                AddErrorKind::IoError,
            ),
    {
        if ok {
            self.complete_current()
        } else {
            self.fail_current(AddErrorKind::IoError)
        }
    }

    /// Marks the current file completed and moves on.
    fn complete_current(&mut self) -> (a: Action)
        requires
            old(self).wf(),
            old(self).idx() < old(self).files().len(),
        ensures
            final(self).wf(),
            final(self).idx() == old(self).idx() + 1,
            final(self).files() == old(self).files(),
            continues(*final(self), a),
            same_job(*old(self), *final(self)),
            final(self).failures() == old(self).failures(),
            final(self).completed() == old(self).completed().push(
                old(self).files()[old(self).idx()],
            ),
    {
        let path = copy_bytes(&self.files[self.idx]);
        proof {
            assert(self.files.deep_view()[self.idx as int] =~= self.files@[self.idx as int]@);
        }
        self.completed.push(path);
        proof {
            assert(self.completed.deep_view() =~~= old(self).completed.deep_view().push(
                old(self).files.deep_view()[old(self).idx()],
            ));
        }
        self.advance()
    }

    /// Takes the final report.  A missing target reports `NotFound`;
    /// a single-file add propagates its failure as the overall error;
    /// a directory add reports per-file failures in the aggregate
    /// list.
    pub fn into_report(self) -> (r: AddReport)
        requires
            self.phase() == Phase::Finished,
        ensures
            r.completed.deep_view() == self.completed(),
            r.failures@ == self.failures(),
            r.ok == (!self.not_found() && self.failures().len() == 0),
            self.not_found() ==> r.error == Some(AddErrorKind::NotFound),
            !self.not_found() && self.failures().len() == 0 ==> r.error is None,
            !self.not_found() && self.failures().len() > 0 && !self.target_is_dir()
                ==> r.error == Some(self.failures()[0].kind),
            !self.not_found() && self.failures().len() > 0 && self.target_is_dir()
                ==> r.error is None,
    {
        let AddOrchestrator { not_found, target_is_dir, completed, failures, .. } = self;
        let ok = !not_found && failures.len() == 0;
        let error = if not_found {
            Some(AddErrorKind::NotFound)
        } else if failures.len() == 0 {
            None
        } else if !target_is_dir {
            Some(failures[0].kind)
        } else {
            None
        };
        AddReport { ok, error, completed, failures }
    }
}

/// Exclusion: the orchestrator's file set never holds a path inside
/// the control directory, so no per-file action — hashing, caching,
/// manifesting or ignore recording — is ever requested for one.
pub proof fn lemma_files_unexcluded(o: AddOrchestrator, k: int)
    requires
        o.wf(),
        0 <= k < o.files().len(),
    ensures
        !spec_excluded(o.files()[k]),
{
}

} // verus!
