//! Tree-walk filtering: of all the regular files found beneath a
//! target, the ones inside the subsystem's own control directory — at
//! any nesting depth — are excluded from tracking; nothing else is.

use vstd::prelude::*;

use crate::bytes::{append_bytes, contains_bytes, copy_bytes, has_infix};

verus! {

/// The control directory's name, as bytes: `.udv`.
pub open spec fn control_dir_name() -> Seq<u8> {
    seq![46u8, 117u8, 100u8, 118u8]
}

/// True iff the path has a component equal to the control directory's
/// name: the path padded with a separator on both ends contains
/// `/.udv/`.
pub open spec fn spec_excluded(p: Seq<u8>) -> bool {
    has_infix(seq![47u8] + p + seq![47u8], seq![47u8] + control_dir_name() + seq![47u8])
}

/// The filter the tree walk applies: keep exactly the paths that are
/// not inside the control directory.
pub open spec fn tracked_pred() -> spec_fn(Seq<u8>) -> bool {
    |p: Seq<u8>| !spec_excluded(p)
}

/// Decides whether a path lies inside the control directory.
pub fn is_excluded(path: &Vec<u8>) -> (r: bool)
    ensures
        r == spec_excluded(path@),
{
    let mut padded: Vec<u8> = Vec::new();
    padded.push(47);
    append_bytes(&mut padded, path);
    padded.push(47);
    let mut marker: Vec<u8> = Vec::new();
    marker.push(47);
    marker.push(46);
    marker.push(117);
    marker.push(100);
    marker.push(118);
    marker.push(47);
    proof {
        assert(padded@ =~= seq![47u8] + path@ + seq![47u8]);
        assert(marker@ =~= seq![47u8] + control_dir_name() + seq![47u8]);
    }
    contains_bytes(&padded, &marker)
}

/// Keeps, in order, the paths the walk may track: everything outside
/// the control directory.
pub fn filter_tracked(paths: &Vec<Vec<u8>>) -> (r: Vec<Vec<u8>>)
    ensures
        r.deep_view() == paths.deep_view().filter(tracked_pred()),
{
    let n = paths.len();
    let mut out: Vec<Vec<u8>> = Vec::new();
    let mut i: usize = 0;
    proof {
        reveal_with_fuel(Seq::<_>::filter, 2);
        assert(paths.deep_view().subrange(0, 0) =~= Seq::<Seq<u8>>::empty());
        assert(out.deep_view() =~= paths.deep_view().subrange(0, 0).filter(tracked_pred()));
    }
    while i < n
        invariant
            n == paths@.len(),
            0 <= i <= n,
            paths.deep_view().len() == n,
            out.deep_view() == paths.deep_view().subrange(0, i as int).filter(tracked_pred()),
        decreases n - i,
    {
        let ghost prev = out.deep_view();
        let excluded = is_excluded(&paths[i]);
        if !excluded {
            let item = copy_bytes(&paths[i]);
            out.push(item);
        }
        proof {
            let dv = paths.deep_view();
            let pred = tracked_pred();
            assert(dv[i as int] =~= paths@[i as int]@);
            assert(dv.subrange(0, i + 1) =~= dv.subrange(0, i as int) + seq![dv[i as int]]);
            Seq::<Seq<u8>>::filter_distributes_over_add(
                dv.subrange(0, i as int),
                seq![dv[i as int]],
                pred,
            );
            reveal_with_fuel(Seq::<_>::filter, 2);
            assert(seq![dv[i as int]].drop_last() =~= Seq::<Seq<u8>>::empty());
            if !excluded {
                assert(seq![dv[i as int]].filter(pred) =~= seq![dv[i as int]]);
                assert(out.deep_view() =~= prev + seq![dv[i as int]]);
            } else {
                assert(seq![dv[i as int]].filter(pred) =~= Seq::<Seq<u8>>::empty());
                assert(out.deep_view() =~= prev + Seq::<Seq<u8>>::empty());
            }
            assert(out.deep_view() =~= dv.subrange(0, i + 1).filter(pred));
        }
        i = i + 1;
    }
    proof {
        assert(paths.deep_view().subrange(0, n as int) =~= paths.deep_view());
    }
    out
}

/// Exclusion: a path inside the control directory never survives the
/// tree-walk filter, whatever else was enumerated beside it.
pub proof fn lemma_exclusion(paths: Seq<Seq<u8>>, p: Seq<u8>)
    requires
        spec_excluded(p),
    ensures
        !paths.filter(tracked_pred()).contains(p),
{
    let f = paths.filter(tracked_pred());
    if f.contains(p) {
        let i = choose|i: int| 0 <= i < f.len() && f[i] == p;
        paths.lemma_filter_pred(tracked_pred(), i);
    }
}

} // verus!
