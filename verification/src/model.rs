//! The mathematical model of one collection's bidirectional merge, and the
//! laws the engine guarantees.
//!
//! Both sides are taken as filename-to-time mappings over the filtered
//! names, with every remote time known. A transfer copies the winning
//! side's file, so afterwards the name carries the same time on both sides.
//! The laws below are stated over the same arbitration rule, `decide_spec`,
//! that the merge state machine's contracts use for every single file.

use vstd::prelude::*;
use crate::merge::{decide_spec, FileAction};

verus! {

/// The names one merge downloads: every remote name whose arbitration,
/// against the local mapping and the name's remote time, lets the remote
/// side win — including every name that is absent locally.
pub open spec fn merge_downloads(
    locals: Map<Seq<char>, int>,
    remotes: Map<Seq<char>, int>,
) -> Set<Seq<char>> {
    remotes.dom().filter(
        |n: Seq<char>| decide_spec(locals, n, Some(remotes[n])) is Download,
    )
}

/// The names one merge uploads: every remote name whose arbitration lets
/// the local side win, together with every name that exists only locally
/// (the final sweep).
pub open spec fn merge_uploads(
    locals: Map<Seq<char>, int>,
    remotes: Map<Seq<char>, int>,
) -> Set<Seq<char>> {
    remotes.dom().filter(
        |n: Seq<char>| decide_spec(locals, n, Some(remotes[n])) is Upload,
    ).union(locals.dom().difference(remotes.dom()))
}

/// The local side after the merge: every downloaded name now carries the
/// remote time, every other name keeps its local time, and the domain has
/// grown to the union of the names. Nothing is ever deleted.
pub open spec fn local_after(
    locals: Map<Seq<char>, int>,
    remotes: Map<Seq<char>, int>,
) -> Map<Seq<char>, int> {
    Map::new(
        |n: Seq<char>| locals.dom().contains(n) || remotes.dom().contains(n),
        |n: Seq<char>| if merge_downloads(locals, remotes).contains(n) {
            remotes[n]
        } else {
            locals[n]
        },
    )
}

/// The remote side after the merge: every uploaded name now carries the
/// local time, every other name keeps its remote time, and the domain has
/// grown to the union of the names.
pub open spec fn remote_after(
    locals: Map<Seq<char>, int>,
    remotes: Map<Seq<char>, int>,
) -> Map<Seq<char>, int> {
    Map::new(
        |n: Seq<char>| locals.dom().contains(n) || remotes.dom().contains(n),
        |n: Seq<char>| if merge_uploads(locals, remotes).contains(n) {
            locals[n]
        } else {
            remotes[n]
        },
    )
}

/// The bridge from the per-file machine steps to the model sets: a listed
/// remote name, reconciled against its remote time, lands in a transfer
/// set exactly when the arbitration rule names that transfer.
pub proof fn lemma_decide_membership(
    locals: Map<Seq<char>, int>,
    remotes: Map<Seq<char>, int>,
    n: Seq<char>,
)
    requires
        remotes.dom().contains(n),
    ensures
        merge_downloads(locals, remotes).contains(n) <==> decide_spec(
            locals,
            n,
            Some(remotes[n]),
        ) is Download,
        merge_uploads(locals, remotes).contains(n) <==> decide_spec(
            locals,
            n,
            Some(remotes[n]),
        ) is Upload,
{
}

/// The bridge for the final sweep: every name that exists only locally is
/// uploaded.
pub proof fn lemma_sweep_membership(
    locals: Map<Seq<char>, int>,
    remotes: Map<Seq<char>, int>,
    n: Seq<char>,
)
    requires
        locals.dom().contains(n),
        !remotes.dom().contains(n),
    ensures
        merge_uploads(locals, remotes).contains(n),
        !merge_downloads(locals, remotes).contains(n),
{
}

/// After one merge the two sides agree exactly: both hold the union of the
/// names, and every name carries the same time on both sides.
pub proof fn lemma_merge_agreement(locals: Map<Seq<char>, int>, remotes: Map<Seq<char>, int>)
    ensures
        local_after(locals, remotes).dom() =~= locals.dom().union(remotes.dom()),
        remote_after(locals, remotes).dom() =~= locals.dom().union(remotes.dom()),
        forall|n: Seq<char>| #[trigger]
            local_after(locals, remotes).dom().contains(n) ==> local_after(locals, remotes)[n]
                == remote_after(locals, remotes)[n],
{
    let la = local_after(locals, remotes);
    let ra = remote_after(locals, remotes);
    assert forall|n: Seq<char>| #[trigger] la.dom().contains(n) implies la[n] == ra[n] by {
        if merge_downloads(locals, remotes).contains(n) {
            assert(!merge_uploads(locals, remotes).contains(n));
            assert(la[n] == remotes[n] && ra[n] == remotes[n]);
        } else if merge_uploads(locals, remotes).contains(n) {
            assert(la[n] == locals[n] && ra[n] == locals[n]);
        } else {
            if remotes.dom().contains(n) {
                let a = decide_spec(locals, n, Some(remotes[n]));
                assert(a is Keep);
                assert(locals.dom().contains(n) && locals[n] == remotes[n]);
                assert(la[n] == locals[n] && ra[n] == remotes[n]);
            } else {
                assert(locals.dom().contains(n));
                assert(merge_uploads(locals, remotes).contains(n));
                assert(false);
            }
        }
    }
}

/// Idempotence: running the merge again on the state one merge produced,
/// with no external change in between, transfers nothing in either
/// direction.
pub proof fn lemma_merge_idempotent(locals: Map<Seq<char>, int>, remotes: Map<Seq<char>, int>)
    ensures
        merge_uploads(local_after(locals, remotes), remote_after(locals, remotes))
            =~= Set::<Seq<char>>::empty(),
        merge_downloads(local_after(locals, remotes), remote_after(locals, remotes))
            =~= Set::<Seq<char>>::empty(),
{
    let la = local_after(locals, remotes);
    let ra = remote_after(locals, remotes);
    lemma_merge_agreement(locals, remotes);
    assert forall|n: Seq<char>| !(#[trigger] merge_downloads(la, ra).contains(n)) by {
        if ra.dom().contains(n) {
            assert(la.dom().contains(n));
            assert(la[n] == ra[n]);
            assert(decide_spec(la, n, Some(ra[n])) is Keep);
        }
    }
    assert forall|n: Seq<char>| !(#[trigger] merge_uploads(la, ra).contains(n)) by {
        if ra.dom().contains(n) {
            assert(la.dom().contains(n));
            assert(la[n] == ra[n]);
            assert(decide_spec(la, n, Some(ra[n])) is Keep);
        } else {
            assert(!la.dom().contains(n));
        }
    }
}

/// Tie-break: a name present on both sides with identical times is
/// transferred in neither direction.
pub proof fn lemma_tie_break(locals: Map<Seq<char>, int>, remotes: Map<Seq<char>, int>, n: Seq<char>)
    requires
        locals.dom().contains(n),
        remotes.dom().contains(n),
        locals[n] == remotes[n],
    ensures
        !merge_uploads(locals, remotes).contains(n),
        !merge_downloads(locals, remotes).contains(n),
{
    assert(decide_spec(locals, n, Some(remotes[n])) is Keep);
}

/// Newer-wins: a name present on both sides whose remote time is strictly
/// greater is downloaded exactly, and not uploaded.
pub proof fn lemma_newer_wins(locals: Map<Seq<char>, int>, remotes: Map<Seq<char>, int>, n: Seq<char>)
    requires
        locals.dom().contains(n),
        remotes.dom().contains(n),
        remotes[n] > locals[n],
    ensures
        merge_downloads(locals, remotes).contains(n),
        !merge_uploads(locals, remotes).contains(n),
{
    assert(decide_spec(locals, n, Some(remotes[n])) is Download);
}

/// Initial push: against an empty remote side, a merge uploads exactly the
/// local names, downloads nothing, and afterwards the remote side lists
/// exactly the local names with their times.
pub proof fn lemma_initial_push(locals: Map<Seq<char>, int>, remotes: Map<Seq<char>, int>)
    requires
        remotes.dom() =~= Set::<Seq<char>>::empty(),
    ensures
        merge_uploads(locals, remotes) =~= locals.dom(),
        merge_downloads(locals, remotes) =~= Set::<Seq<char>>::empty(),
        remote_after(locals, remotes).dom() =~= locals.dom(),
        forall|n: Seq<char>| #[trigger]
            locals.dom().contains(n) ==> remote_after(locals, remotes)[n] == locals[n],
{
    assert forall|n: Seq<char>| #[trigger] locals.dom().contains(n) implies remote_after(
        locals,
        remotes,
    )[n] == locals[n] by {
        assert(merge_uploads(locals, remotes).contains(n));
    }
}

/// Initial pull: against an empty local side, a merge downloads exactly the
/// remote names, uploads nothing, and afterwards the local side holds
/// exactly the remote names with their times.
pub proof fn lemma_initial_pull(locals: Map<Seq<char>, int>, remotes: Map<Seq<char>, int>)
    requires
        locals.dom() =~= Set::<Seq<char>>::empty(),
    ensures
        merge_downloads(locals, remotes) =~= remotes.dom(),
        merge_uploads(locals, remotes) =~= Set::<Seq<char>>::empty(),
        local_after(locals, remotes).dom() =~= remotes.dom(),
        forall|n: Seq<char>| #[trigger]
            remotes.dom().contains(n) ==> local_after(locals, remotes)[n] == remotes[n],
{
    assert forall|n: Seq<char>| #[trigger] remotes.dom().contains(n) implies local_after(
        locals,
        remotes,
    )[n] == remotes[n] by {
        assert(decide_spec(locals, n, Some(remotes[n])) is Download);
        assert(merge_downloads(locals, remotes).contains(n));
    }
}

/// Counted form of the initial push: with finitely many local files and an
/// empty remote side, the merge makes exactly as many uploads as there are
/// local files, and no downloads.
pub proof fn lemma_initial_push_count(locals: Map<Seq<char>, int>, remotes: Map<Seq<char>, int>)
    requires
        locals.dom().finite(),
        remotes.dom() =~= Set::<Seq<char>>::empty(),
    ensures
        merge_uploads(locals, remotes).len() == locals.dom().len(),
        merge_downloads(locals, remotes).len() == 0,
{
    lemma_initial_push(locals, remotes);
    assert(merge_uploads(locals, remotes) == locals.dom());
    assert(merge_downloads(locals, remotes) == Set::<Seq<char>>::empty());
}

/// Counted form of the initial pull: with finitely many remote files and an
/// empty local side, the merge makes exactly as many downloads as there are
/// remote files, and no uploads.
pub proof fn lemma_initial_pull_count(locals: Map<Seq<char>, int>, remotes: Map<Seq<char>, int>)
    requires
        remotes.dom().finite(),
        locals.dom() =~= Set::<Seq<char>>::empty(),
    ensures
        merge_downloads(locals, remotes).len() == remotes.dom().len(),
        merge_uploads(locals, remotes).len() == 0,
{
    lemma_initial_pull(locals, remotes);
    assert(merge_downloads(locals, remotes) == remotes.dom());
    assert(merge_uploads(locals, remotes) == Set::<Seq<char>>::empty());
}

/// Disjoint union: when no name exists on both sides, a merge uploads
/// exactly the local names, downloads exactly the remote names, and
/// afterwards both sides hold every name with its original time.
pub proof fn lemma_disjoint_union(locals: Map<Seq<char>, int>, remotes: Map<Seq<char>, int>)
    requires
        locals.dom().disjoint(remotes.dom()),
    ensures
        merge_uploads(locals, remotes) =~= locals.dom(),
        merge_downloads(locals, remotes) =~= remotes.dom(),
        local_after(locals, remotes).dom() =~= locals.dom().union(remotes.dom()),
        remote_after(locals, remotes).dom() =~= locals.dom().union(remotes.dom()),
        forall|n: Seq<char>| #[trigger]
            locals.dom().contains(n) ==> local_after(locals, remotes)[n] == locals[n]
                && remote_after(locals, remotes)[n] == locals[n],
        forall|n: Seq<char>| #[trigger]
            remotes.dom().contains(n) ==> local_after(locals, remotes)[n] == remotes[n]
                && remote_after(locals, remotes)[n] == remotes[n],
{
    assert forall|n: Seq<char>| #[trigger] merge_uploads(locals, remotes).contains(n)
        <==> locals.dom().contains(n) by {
        if remotes.dom().contains(n) {
            assert(!locals.dom().contains(n));
            assert(decide_spec(locals, n, Some(remotes[n])) is Download);
        }
    }
    assert forall|n: Seq<char>| #[trigger] merge_downloads(locals, remotes).contains(n)
        <==> remotes.dom().contains(n) by {
        if remotes.dom().contains(n) {
            assert(!locals.dom().contains(n));
            assert(decide_spec(locals, n, Some(remotes[n])) is Download);
        }
    }
    assert forall|n: Seq<char>| #[trigger] locals.dom().contains(n) implies local_after(
        locals,
        remotes,
    )[n] == locals[n] && remote_after(locals, remotes)[n] == locals[n] by {
        assert(!merge_downloads(locals, remotes).contains(n));
        assert(merge_uploads(locals, remotes).contains(n));
    }
    assert forall|n: Seq<char>| #[trigger] remotes.dom().contains(n) implies local_after(
        locals,
        remotes,
    )[n] == remotes[n] && remote_after(locals, remotes)[n] == remotes[n] by {
        assert(merge_downloads(locals, remotes).contains(n));
        assert(!merge_uploads(locals, remotes).contains(n));
    }
}

/// Counted form of the disjoint union: with finitely many files on either
/// side and no name shared, the merge uploads one file per local name and
/// downloads one file per remote name.
pub proof fn lemma_disjoint_union_count(locals: Map<Seq<char>, int>, remotes: Map<Seq<char>, int>)
    requires
        locals.dom().finite(),
        remotes.dom().finite(),
        locals.dom().disjoint(remotes.dom()),
    ensures
        merge_uploads(locals, remotes).len() == locals.dom().len(),
        merge_downloads(locals, remotes).len() == remotes.dom().len(),
{
    lemma_disjoint_union(locals, remotes);
    assert(merge_uploads(locals, remotes) == locals.dom());
    assert(merge_downloads(locals, remotes) == remotes.dom());
}

} // verus!
