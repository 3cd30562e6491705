//! The bidirectional merge of one collection, run as a state machine.
//!
//! The shell scans the local directory and hands the raw entries in, then
//! reports the remote listing (or that the remote directory is missing),
//! fetches each remote file's last-modified time, performs the transfers
//! this machine asks for, and reports each success back. Every decision —
//! which names take part, which side wins, what is counted — is made here.
//! Counters move only when a transfer is reported successful, so when the
//! shell aborts on an I/O failure the counts reflect exactly the transfers
//! that completed before the abort.

use vstd::prelude::*;
use crate::local::{local_index_of, LocalEntry, LocalIndex};
use crate::names::{is_json_name, is_json_spec, json_filter, views_of};
use crate::transfer::TransferQueue;

verus! {

/// What to do with one remote filename.
#[derive(Debug, Clone, Copy, PartialEq, Eq, Structural)]
pub enum FileAction {
    /// The remote copy wins: overwrite the local file.
    Download,
    /// The local copy wins: overwrite the remote file.
    Upload,
    /// Both sides are already synchronized: no transfer.
    Keep,
}

/// A fetched remote time, carried into specifications.
pub open spec fn opt_int(t: Option<i64>) -> Option<int> {
    match t {
        Some(v) => Some(v as int),
        None => None,
    }
}

/// The arbitration rule for one remote filename against the local mapping:
/// a strictly newer side wins, equal times transfer nothing, an unknown
/// remote time transfers nothing, and a name absent locally is fetched.
pub open spec fn decide_spec(
    locals: Map<Seq<char>, int>,
    name: Seq<char>,
    remote_mtime: Option<int>,
) -> FileAction {
    if locals.dom().contains(name) {
        match remote_mtime {
            Some(t) => if t > locals[name] {
                FileAction::Download
            } else if locals[name] > t {
                FileAction::Upload
            } else {
                FileAction::Keep
            },
            None => FileAction::Keep,
        }
    } else {
        FileAction::Download
    }
}

/// Where one collection's merge pass stands.
#[derive(Debug, Clone, Copy, PartialEq, Eq, Structural)]
pub enum MergePhase {
    /// The local scan is in; the remote listing has not been reported yet.
    AwaitingListing,
    /// Remote filenames are being reconciled in listing order.
    Reconciling,
    /// The remote listing is exhausted (or the remote directory was
    /// missing); the files that exist only locally are being uploaded.
    Sweeping,
}

/// The merge of one collection: the unreconciled local mapping, the remote
/// names still to process, and the two counters.
pub struct MergeState {
    phase: MergePhase,
    locals: LocalIndex,
    remote: TransferQueue,
    uploaded: usize,
    downloaded: usize,
}

impl MergeState {
    /// The phase the pass is in.
    pub closed spec fn stage(&self) -> MergePhase {
        self.phase
    }

    /// The filename-to-time mapping of the local files not yet reconciled.
    pub closed spec fn locals_map(&self) -> Map<Seq<char>, int> {
        self.locals.as_map()
    }

    /// The filtered remote filenames not yet reconciled, in listing order.
    pub closed spec fn remote_pending(&self) -> Seq<Seq<char>> {
        self.remote.pending()
    }

    /// Files uploaded so far in this pass.
    pub closed spec fn uploads(&self) -> int {
        self.uploaded as int
    }

    /// Files downloaded so far in this pass.
    pub closed spec fn downloads(&self) -> int {
        self.downloaded as int
    }

    /// The pass's internal consistency: both sides are well-formed.
    pub closed spec fn wf(&self) -> bool {
        &&& self.locals.wf()
        &&& self.remote.wf()
    }

    /// Starts the pass from the local scan: the mapping keeps exactly the
    /// entries with the extension and a readable time (later duplicates
    /// winning), nothing is counted, and the remote side is still unknown.
    pub fn new(entries: Vec<LocalEntry>) -> (s: MergeState)
        ensures
            s.wf(),
            s.stage() is AwaitingListing,
            s.locals_map() == local_index_of(entries@),
            s.remote_pending().len() == 0,
            s.uploads() == 0,
            s.downloads() == 0,
    {
        let ghost all = entries@;
        let mut locals = LocalIndex::new();
        let mut i: usize = 0;
        while i < entries.len()
            invariant
                i <= entries.len(),
                entries@ == all,
                locals.wf(),
                locals.as_map() == local_index_of(all.take(i as int)),
            decreases entries.len() - i,
        {
            let keep = is_json_name(entries[i].name.as_str());
            match entries[i].mtime {
                Some(t) => {
                    if keep {
                        locals.insert(entries[i].name.clone(), t);
                    }
                },
                None => {},
            }
            proof {
                assert(all.take(i + 1).drop_last() =~= all.take(i as int));
                crate::local::lemma_local_index_push(all.take(i as int), all[i as int]);
                assert(all.take(i + 1) =~= all.take(i as int).push(all[i as int]));
            }
            i = i + 1;
        }
        proof {
            assert(all.take(all.len() as int) =~= all);
        }
        MergeState {
            phase: MergePhase::AwaitingListing,
            locals,
            remote: TransferQueue::from_names(Vec::new()),
            uploaded: 0,
            downloaded: 0,
        }
    }

    /// Takes the remote listing in: the filtered names, in listing order,
    /// are now to be reconciled one by one.
    pub fn on_listing(&mut self, names: Vec<String>)
        requires
            old(self).wf(),
            old(self).stage() is AwaitingListing,
        ensures
            final(self).wf(),
            final(self).stage() is Reconciling,
            final(self).remote_pending() == json_filter(views_of(names@)),
            final(self).locals_map() == old(self).locals_map(),
            final(self).uploads() == old(self).uploads(),
            final(self).downloads() == old(self).downloads(),
    {
        self.remote = TransferQueue::from_names(names);
        self.phase = MergePhase::Reconciling;
    }

    /// Takes the report that the remote directory is missing or unreadable:
    /// nothing can be reconciled remotely, so the pass moves straight to
    /// uploading every local file, with no downloads and no time lookups.
    pub fn on_listing_missing(&mut self)
        requires
            old(self).wf(),
            old(self).stage() is AwaitingListing,
        ensures
            final(self).wf(),
            final(self).stage() is Sweeping,
            final(self).locals_map() == old(self).locals_map(),
            final(self).uploads() == old(self).uploads(),
            final(self).downloads() == old(self).downloads(),
    {
        self.phase = MergePhase::Sweeping;
    }

    /// The next remote filename to reconcile, if any is left.
    pub fn current_remote(&self) -> (r: Option<String>)
        requires
            self.wf(),
            self.stage() is Reconciling,
        ensures
            r is Some <==> self.remote_pending().len() > 0,
            r matches Some(n) ==> n@ == self.remote_pending()[0] && is_json_spec(n@),
    {
        self.remote.peek()
    }

    /// The arbitration for one filename, given the fetched remote time.
    pub fn decide(&self, name: &String, remote_mtime: Option<i64>) -> (a: FileAction)
        requires
            self.wf(),
        ensures
            a == decide_spec(self.locals_map(), name@, opt_int(remote_mtime)),
    {
        match self.locals.lookup(name) {
            Some(local_time) => match remote_mtime {
                Some(remote_time) => {
                    if remote_time > local_time {
                        FileAction::Download
                    } else if local_time > remote_time {
                        FileAction::Upload
                    } else {
                        FileAction::Keep
                    }
                },
                None => FileAction::Keep,
            },
            None => FileAction::Download,
        }
    }

    /// Marks the current remote filename reconciled, after the shell has
    /// carried out the decided transfer (if any): the matching counter
    /// grows, the name leaves the local mapping, and the walk moves on.
    /// Counters never decrease.
    pub fn settle_current(&mut self, remote_mtime: Option<i64>)
        requires
            old(self).wf(),
            old(self).stage() is Reconciling,
            old(self).remote_pending().len() > 0,
            old(self).uploads() < usize::MAX,
            old(self).downloads() < usize::MAX,
        ensures
            final(self).wf(),
            final(self).stage() is Reconciling,
            final(self).remote_pending() == old(self).remote_pending().drop_first(),
            final(self).locals_map() == old(self).locals_map().remove(
                old(self).remote_pending()[0],
            ),
            final(self).uploads() == old(self).uploads() + (if decide_spec(
                old(self).locals_map(),
                old(self).remote_pending()[0],
                opt_int(remote_mtime),
            ) is Upload {
                1int
            } else {
                0int
            }),
            final(self).downloads() == old(self).downloads() + (if decide_spec(
                old(self).locals_map(),
                old(self).remote_pending()[0],
                opt_int(remote_mtime),
            ) is Download {
                1int
            } else {
                0int
            }),
    {
        let name = match self.remote.peek() {
            Some(n) => n,
            None => {
                proof {
                    assert(false);
                }
                String::new()
            },
        };
        let action = self.decide(&name, remote_mtime);
        match action {
            FileAction::Download => {
                self.downloaded = self.downloaded + 1;
            },
            FileAction::Upload => {
                self.uploaded = self.uploaded + 1;
            },
            FileAction::Keep => {},
        }
        self.locals.remove(&name);
        self.remote.record_done();
        proof {
            assert(self.remote_pending() =~= old(self).remote_pending().drop_first());
        }
    }

    /// Moves to the local-only sweep once every remote filename has been
    /// reconciled.
    pub fn begin_sweep(&mut self)
        requires
            old(self).wf(),
            old(self).stage() is Reconciling,
            old(self).remote_pending().len() == 0,
        ensures
            final(self).wf(),
            final(self).stage() is Sweeping,
            final(self).locals_map() == old(self).locals_map(),
            final(self).uploads() == old(self).uploads(),
            final(self).downloads() == old(self).downloads(),
    {
        self.phase = MergePhase::Sweeping;
    }

    /// A file that exists only locally and is still to be uploaded, or
    /// nothing once the sweep is finished.
    pub fn pending_upload(&self) -> (r: Option<String>)
        requires
            self.wf(),
            self.stage() is Sweeping,
        ensures
            r is None ==> self.locals_map() == Map::<Seq<char>, int>::empty(),
            r matches Some(n) ==> self.locals_map().dom().contains(n@) && is_json_spec(n@),
    {
        self.locals.first_name()
    }

    /// Records that the upload of a local-only file succeeded: the upload
    /// counter grows by one and the name leaves the mapping. Counters never
    /// decrease.
    pub fn settle_pending_upload(&mut self, name: &String)
        requires
            old(self).wf(),
            old(self).stage() is Sweeping,
            old(self).locals_map().dom().contains(name@),
            old(self).uploads() < usize::MAX,
        ensures
            final(self).wf(),
            final(self).stage() is Sweeping,
            final(self).locals_map() == old(self).locals_map().remove(name@),
            final(self).uploads() == old(self).uploads() + 1,
            final(self).downloads() == old(self).downloads(),
    {
        self.uploaded = self.uploaded + 1;
        self.locals.remove(name);
    }

    /// How many files this pass has uploaded.
    pub fn uploaded_count(&self) -> (n: usize)
        ensures
            n as int == self.uploads(),
    {
        self.uploaded
    }

    /// How many files this pass has downloaded.
    pub fn downloaded_count(&self) -> (n: usize)
        ensures
            n as int == self.downloads(),
    {
        self.downloaded
    }
}

} // verus!
