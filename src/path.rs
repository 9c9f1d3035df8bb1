//! Reconstruction of closed contours from a glyph's list of outline curves.
use vstd::prelude::*;

use crate::geometry::OutlineCurve;

verus! {

/// One closed contour: curves that follow each other end to start.
/// The contour begins at the first curve's start and is closed after the last one.
#[derive(Clone, Debug)]
pub struct Contour {
    pub curves: Vec<OutlineCurve>,
}

impl View for Contour {
    type V = Seq<OutlineCurve>;

    open spec fn view(&self) -> Seq<OutlineCurve> {
        self.curves@
    }
}

/// `b` continues where `a` ends.
pub open spec fn joins(a: OutlineCurve, b: OutlineCurve) -> bool {
    a.end_point() == b.start_point()
}

/// Every curve of `c` starts where the one before it ends.
pub open spec fn chained(c: Seq<OutlineCurve>) -> bool {
    forall|j: int| 0 < j < c.len() ==> #[trigger] joins(c[j - 1], c[j])
}

/// The number of places in `s` where a curve does not start where the one before it ends.
pub open spec fn breaks(s: Seq<OutlineCurve>) -> nat
    decreases s.len(),
{
    if s.len() <= 1 {
        0
    } else {
        breaks(s.drop_last()) + if joins(s[s.len() - 2], s.last()) {
            0nat
        } else {
            1nat
        }
    }
}

pub open spec fn contour_seqs(cs: Seq<Contour>) -> Seq<Seq<OutlineCurve>> {
    cs.map_values(|c: Contour| c@)
}

/// `cs` cuts `s` into its maximal runs of joined curves: read in order they give
/// back `s`, none is empty, each is chained, and two neighbouring runs do not join.
pub open spec fn is_contour_split(s: Seq<OutlineCurve>, cs: Seq<Seq<OutlineCurve>>) -> bool {
    &&& cs.flatten() == s
    &&& forall|k: int| 0 <= k < cs.len() ==> (#[trigger] cs[k]).len() > 0 && chained(cs[k])
    &&& forall|k: int|
        0 <= k < cs.len() - 1 ==> !joins((#[trigger] cs[k]).last(), cs[k + 1].first())
}

/// Appending a chained run `b` to `a` adds one break if `b` does not continue `a`.
proof fn lemma_breaks_append(a: Seq<OutlineCurve>, b: Seq<OutlineCurve>)
    requires
        b.len() > 0,
        chained(b),
    ensures
        breaks(a + b) == breaks(a) + if a.len() > 0 && !joins(a.last(), b[0]) {
            1nat
        } else {
            0nat
        },
    decreases b.len(),
{
    let ab = a + b;
    if b.len() == 1 {
        assert(ab.drop_last() =~= a);
        if a.len() > 0 {
            assert(ab[ab.len() - 2] == a.last());
        }
    } else {
        let b0 = b.drop_last();
        assert(chained(b0)) by {
            assert forall|j: int| 0 < j < b0.len() implies #[trigger] joins(b0[j - 1], b0[j]) by {
                assert(joins(b[j - 1], b[j]));
            }
        }
        lemma_breaks_append(a, b0);
        assert(ab.drop_last() =~= a + b0);
        let j = b.len() - 1;
        assert(ab[ab.len() - 2] == b[j - 1]);
        assert(joins(b[j - 1], b[j]));
    }
}

/// The number of contours in a split is one more than the number of breaks
/// between consecutive curves, and zero for no curves: exactly one break in
/// the middle of the curve list gives exactly two contours.
pub proof fn lemma_contour_count(s: Seq<OutlineCurve>, cs: Seq<Seq<OutlineCurve>>)
    requires
        is_contour_split(s, cs),
    ensures
        cs.len() == if s.len() == 0 {
            0
        } else {
            breaks(s) + 1
        },
    decreases cs.len(),
{
    if cs.len() > 0 {
        let init = cs.drop_last();
        let run = cs.last();
        init.lemma_flatten_push(run);
        assert(init.push(run) =~= cs);
        assert(is_contour_split(init.flatten(), init)) by {
            assert forall|k: int| 0 <= k < init.len() implies (#[trigger] init[k]).len() > 0
                && chained(init[k]) by {
                assert(init[k] == cs[k]);
            }
            assert forall|k: int| 0 <= k < init.len() - 1 implies !joins(
                (#[trigger] init[k]).last(),
                init[k + 1].first(),
            ) by {
                assert(init[k] == cs[k]);
                assert(init[k + 1] == cs[k + 1]);
            }
        }
        lemma_contour_count(init.flatten(), init);
        assert(run.len() > 0 && chained(run)) by {
            assert(cs[cs.len() - 1] == run);
        }
        lemma_breaks_append(init.flatten(), run);
        if init.len() > 0 {
            let lead = init.drop_last();
            let prev = init.last();
            lead.lemma_flatten_push(prev);
            assert(lead.push(prev) =~= init);
            assert(prev.len() > 0 && cs[cs.len() - 2] == prev);
            assert(!joins(cs[cs.len() - 2].last(), cs[cs.len() - 1].first()));
            let f = init.flatten();
            assert(f.last() == prev.last()) by {
                assert(f == lead.flatten() + prev);
                assert(f[f.len() - 1] == prev[prev.len() - 1]);
            }
        } else {
            assert(init.flatten() =~= Seq::<OutlineCurve>::empty());
            assert(init.flatten() + run =~= run);
        }
    }
}

/// Splits `curves` into closed contours. A new contour begins wherever a curve
/// does not start at the end of the previous one; an empty list gives no contour.
pub fn build_contours(curves: &Vec<OutlineCurve>) -> (r: Vec<Contour>)
    ensures
        is_contour_split(curves@, contour_seqs(r@)),
{
    broadcast use Seq::lemma_flatten_push;

    let mut contours: Vec<Contour> = Vec::new();
    let mut current: Vec<OutlineCurve> = Vec::new();
    let n = curves.len();
    let mut i: usize = 0;
    while i < n
        invariant
            n == curves.len(),
            i <= n,
            (i == 0) == (current.len() == 0),
            contour_seqs(contours@).flatten() + current@ == curves@.subrange(0, i as int),
            is_contour_split(
                contour_seqs(contours@).flatten(),
                contour_seqs(contours@),
            ),
            chained(current@),
            contours.len() > 0 ==> !joins(contours@.last()@.last(), current@.first()),
            contours.len() > 0 ==> current.len() > 0,
        decreases n - i,
    {
        let c = curves[i];
        let ghost pre = contour_seqs(contours@).flatten();
        proof {
            if i > 0 {
                assert((pre + current@).len() == i);
                assert(pre.len() <= i - 1);
                assert((pre + current@)[i - 1] == current@[i - 1 - pre.len()]);
                assert(curves@.subrange(0, i as int)[i - 1] == curves@[i - 1]);
            }
        }
        if i > 0 && curves[i - 1].end() != c.start() {
            let ghost before = contour_seqs(contours@);
            let ghost run = current@;
            contours.push(Contour { curves: current });
            current = Vec::new();
            proof {
                assert(contour_seqs(contours@) =~= before.push(run));
                before.lemma_flatten_push(run);
                assert(current@ =~= Seq::<OutlineCurve>::empty());
                assert(pre + current@ =~= pre);
            }
        }
        let ghost prev = current@;
        current.push(c);
        proof {
            assert(chained(current@)) by {
                assert forall|j: int| 0 < j < current@.len() implies #[trigger] joins(
                    current@[j - 1],
                    current@[j],
                ) by {
                    if j == current@.len() - 1 {
                        assert(current@[j - 1] == prev.last());
                    } else {
                        assert(joins(prev[j - 1], prev[j]));
                    }
                }
            }
            if prev.len() > 0 {
                assert(current@.first() == prev.first());
            }
            assert(curves@.subrange(0, i + 1) =~= curves@.subrange(0, i as int).push(c));
            assert(contour_seqs(contours@).flatten() + current@ =~= (contour_seqs(
                contours@,
            ).flatten() + prev).push(c));
        }
        i += 1;
    }
    if current.len() > 0 {
        let ghost before = contour_seqs(contours@);
        let ghost run = current@;
        contours.push(Contour { curves: current });
        proof {
            assert(contour_seqs(contours@) =~= before.push(run));
            before.lemma_flatten_push(run);
        }
    }
    proof {
        assert(curves@.subrange(0, n as int) =~= curves@);
    }
    contours
}

} // verus!
