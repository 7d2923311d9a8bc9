//! Painter's algorithm: a mesh's faces ordered from far to near, those that
//! turn away from the viewer left out.

use vstd::prelude::*;
use crate::document::Polygon;
use crate::projected::ProjectedFace;
use crate::scalar::Scalar;

verus! {

/// `sorted` with `face` put in from the far end: `face` passes every face at
/// the end of `sorted` that is strictly deeper than it, and stops at the first
/// that is not.  A NaN depth is deeper than nothing and nothing is deeper than
/// it, so such a face stays where it is put and nothing passes it.
pub open spec fn insert_by_depth(sorted: Seq<ProjectedFace>, face: ProjectedFace) -> Seq<
    ProjectedFace,
>
    decreases sorted.len(),
{
    if sorted.len() > 0 && face.depth.lt(sorted.last().depth) {
        insert_by_depth(sorted.drop_last(), face).push(sorted.last())
    } else {
        sorted.push(face)
    }
}

/// The faces by ascending depth.  Faces of equal depth keep their order.
pub open spec fn depth_sorted(faces: Seq<ProjectedFace>) -> Seq<ProjectedFace>
    decreases faces.len(),
{
    if faces.len() == 0 {
        faces
    } else {
        insert_by_depth(depth_sorted(faces.drop_last()), faces.last())
    }
}

/// The faces from far to near: the order in which they are painted.
pub open spec fn draw_order(faces: Seq<ProjectedFace>) -> Seq<ProjectedFace> {
    depth_sorted(faces).reverse()
}

/// The test that a face passes to be painted.
pub open spec fn front() -> spec_fn(ProjectedFace) -> bool {
    |f: ProjectedFace| f.front_facing()
}

/// What a painted face leaves in the drawing.
pub open spec fn outline() -> spec_fn(ProjectedFace) -> Polygon {
    |f: ProjectedFace| f.outline()
}

/// The test that a face of the given depth passes.
pub open spec fn at_depth(depth: Scalar) -> spec_fn(ProjectedFace) -> bool {
    |f: ProjectedFace| f.depth.same(depth)
}

/// The faces that are painted, in the order in which they are painted.
pub open spec fn visible(faces: Seq<ProjectedFace>) -> Seq<ProjectedFace> {
    draw_order(faces).filter(front())
}

/// The polygons that a mesh leaves in the drawing.
pub open spec fn emitted(faces: Seq<ProjectedFace>) -> Seq<Polygon> {
    visible(faces).map_values(outline())
}

/// No face comes before one that is strictly less deep than it.
pub open spec fn ascending(faces: Seq<ProjectedFace>) -> bool {
    forall|i: int, j: int|
        0 <= i < j < faces.len() ==> !(#[trigger] faces[j]).depth.lt((#[trigger] faces[i]).depth)
}

/// No face comes directly before one that is strictly less deep than it.
pub open spec fn ascending_steps(faces: Seq<ProjectedFace>) -> bool {
    forall|i: int|
        0 <= i < faces.len() - 1 ==> !(#[trigger] faces[i + 1]).depth.lt(faces[i].depth)
}

/// No face comes before one that is strictly deeper than it.
pub open spec fn descending(faces: Seq<ProjectedFace>) -> bool {
    forall|i: int, j: int|
        0 <= i < j < faces.len() ==> !(#[trigger] faces[i]).depth.lt((#[trigger] faces[j]).depth)
}

/// No face comes directly before one that is strictly deeper than it.
pub open spec fn descending_steps(faces: Seq<ProjectedFace>) -> bool {
    forall|i: int|
        0 <= i < faces.len() - 1 ==> !(#[trigger] faces[i]).depth.lt(faces[i + 1].depth)
}

pub open spec fn no_nan_depth(faces: Seq<ProjectedFace>) -> bool {
    forall|i: int| 0 <= i < faces.len() ==> !(#[trigger] faces[i]).depth.nan()
}

/// Sorts the faces by ascending depth.
pub fn sort_by_depth(faces: &Vec<ProjectedFace>) -> (sorted: Vec<ProjectedFace>)
    ensures
        sorted@ == depth_sorted(faces@),
{
    let mut sorted: Vec<ProjectedFace> = Vec::new();
    let mut i: usize = 0;
    while i < faces.len()
        invariant
            i <= faces.len(),
            sorted@ == depth_sorted(faces@.take(i as int)),
        decreases faces.len() - i,
    {
        let face = faces[i];
        let ghost before = sorted@;
        sorted.push(face);
        let mut j: usize = sorted.len() - 1;
        assert(before.take(j as int) == before);
        assert(before.skip(j as int) == Seq::<ProjectedFace>::empty());
        assert(insert_by_depth(before, face) == insert_by_depth(before, face)
            + Seq::<ProjectedFace>::empty());
        while j > 0 && face.depth.less_than(&sorted[j - 1].depth)
            invariant
                j < sorted.len(),
                sorted.len() == before.len() + 1,
                sorted@.take(j as int) == before.take(j as int),
                sorted@.skip(j as int + 1) == before.skip(j as int),
                insert_by_depth(before, face) == insert_by_depth(before.take(j as int), face)
                    + before.skip(j as int),
            decreases j,
        {
            let moved = sorted[j - 1];
            proof {
                let head = before.take(j as int);
                assert(sorted@[j - 1] == sorted@.take(j as int)[j - 1]);
                assert(head.last() == moved);
                assert(head.drop_last() == before.take(j - 1));
                assert(insert_by_depth(head, face) == insert_by_depth(
                    before.take(j - 1),
                    face,
                ).push(moved));
                assert(before.skip(j - 1) == seq![moved] + before.skip(j as int));
                assert(insert_by_depth(before.take(j - 1), face).push(moved) + before.skip(
                    j as int,
                ) == insert_by_depth(before.take(j - 1), face) + before.skip(j - 1));
            }
            let ghost shifted = sorted@;
            sorted.set(j, moved);
            proof {
                assert(sorted@.take(j - 1) == shifted.take(j as int).take(j - 1));
                assert(before.take(j - 1) == before.take(j as int).take(j - 1));
                assert(sorted@.skip(j as int) == seq![moved] + shifted.skip(j as int + 1));
            }
            j -= 1;
        }
        let ghost shifted = sorted@;
        sorted.set(j, face);
        proof {
            let head = before.take(j as int);
            if j > 0 {
                assert(sorted@[j - 1] == shifted.take(j as int)[j - 1]);
                assert(head.last() == shifted[j - 1]);
            }
            assert(insert_by_depth(head, face) == head.push(face));
            assert(sorted@ == head.push(face) + before.skip(j as int)) by {
                assert(sorted@.take(j as int) == shifted.take(j as int));
                assert(sorted@.skip(j as int + 1) == shifted.skip(j as int + 1));
                assert(sorted@ == sorted@.take(j as int).push(face) + sorted@.skip(j as int + 1));
            }
            let upto = faces@.take(i as int + 1);
            assert(upto.drop_last() == faces@.take(i as int));
            assert(upto.last() == face);
        }
        i += 1;
    }
    proof {
        assert(faces@.take(faces.len() as int) == faces@);
    }
    sorted
}

/// Orders the faces from far to near.
pub fn far_to_near(faces: &Vec<ProjectedFace>) -> (ordered: Vec<ProjectedFace>)
    ensures
        ordered@ == draw_order(faces@),
{
    let sorted = sort_by_depth(faces);
    let mut ordered: Vec<ProjectedFace> = Vec::new();
    let mut k: usize = sorted.len();
    while k > 0
        invariant
            k <= sorted.len(),
            ordered.len() == sorted.len() - k,
            forall|i: int|
                0 <= i < ordered.len() ==> ordered@[i] == sorted@[sorted.len() - 1 - i],
        decreases k,
    {
        k -= 1;
        ordered.push(sorted[k]);
    }
    assert(ordered@ == sorted@.reverse());
    ordered
}

/// Putting a face in adds one face.
pub proof fn lemma_insert_len(sorted: Seq<ProjectedFace>, face: ProjectedFace)
    ensures
        insert_by_depth(sorted, face).len() == sorted.len() + 1,
    decreases sorted.len(),
{
    if sorted.len() > 0 && face.depth.lt(sorted.last().depth) {
        lemma_insert_len(sorted.drop_last(), face);
    }
}

/// Putting a face in adds that face and changes no other.
pub proof fn lemma_insert_permutes(sorted: Seq<ProjectedFace>, face: ProjectedFace)
    ensures
        insert_by_depth(sorted, face).to_multiset() == sorted.to_multiset().insert(face),
    decreases sorted.len(),
{
    broadcast use vstd::seq_lib::group_to_multiset_ensures;

    if sorted.len() > 0 && face.depth.lt(sorted.last().depth) {
        lemma_insert_permutes(sorted.drop_last(), face);
        assert(sorted == sorted.drop_last().push(sorted.last()));
        assert(insert_by_depth(sorted, face).to_multiset() =~= sorted.to_multiset().insert(face));
    }
}

/// Sorting by depth neither adds nor drops nor changes a face: the result
/// holds each face as often as the input does.
pub proof fn lemma_depth_sorted_permutes(faces: Seq<ProjectedFace>)
    ensures
        depth_sorted(faces).to_multiset() == faces.to_multiset(),
        depth_sorted(faces).len() == faces.len(),
        forall|f: ProjectedFace| depth_sorted(faces).contains(f) <==> faces.contains(f),
    decreases faces.len(),
{
    broadcast use vstd::seq_lib::group_to_multiset_ensures;

    if faces.len() > 0 {
        lemma_depth_sorted_permutes(faces.drop_last());
        lemma_insert_permutes(depth_sorted(faces.drop_last()), faces.last());
        assert(faces == faces.drop_last().push(faces.last()));
        assert(depth_sorted(faces).to_multiset() =~= faces.to_multiset());
    }
    assert(depth_sorted(faces).len() == faces.len()) by {
        faces.to_multiset_ensures();
        depth_sorted(faces).to_multiset_ensures();
    }
    assert forall|f: ProjectedFace| depth_sorted(faces).contains(f) <==> faces.contains(f) by {
        faces.to_multiset_ensures();
        depth_sorted(faces).to_multiset_ensures();
        assert(faces.contains(f) <==> faces.to_multiset().count(f) > 0);
        assert(depth_sorted(faces).contains(f) <==> depth_sorted(faces).to_multiset().count(f)
            > 0);
    }
}

/// What stands last after a face was put in: the face itself, or what stood
/// last before where the face has passed it.
pub proof fn lemma_insert_last(sorted: Seq<ProjectedFace>, face: ProjectedFace)
    ensures
        insert_by_depth(sorted, face).last() == if sorted.len() > 0 && face.depth.lt(
            sorted.last().depth,
        ) {
            sorted.last()
        } else {
            face
        },
{
}

/// Putting a face into an order without a downward step leaves no downward
/// step.
pub proof fn lemma_insert_keeps_steps(sorted: Seq<ProjectedFace>, face: ProjectedFace)
    requires
        ascending_steps(sorted),
    ensures
        ascending_steps(insert_by_depth(sorted, face)),
    decreases sorted.len(),
{
    if sorted.len() > 0 && face.depth.lt(sorted.last().depth) {
        let head = sorted.drop_last();
        assert(ascending_steps(head)) by {
            assert forall|i: int| 0 <= i < head.len() - 1 implies !(#[trigger] head[i
                + 1]).depth.lt(head[i].depth) by {
                assert(head[i + 1] == sorted[i + 1]);
            }
        }
        lemma_insert_keeps_steps(head, face);
        lemma_insert_len(head, face);
        lemma_insert_last(head, face);
        let placed = insert_by_depth(head, face);
        let out = placed.push(sorted.last());
        assert forall|i: int| 0 <= i < out.len() - 1 implies !(#[trigger] out[i + 1]).depth.lt(
            out[i].depth,
        ) by {
            if i < placed.len() - 1 {
                assert(out[i + 1] == placed[i + 1]);
            } else {
                assert(out[i] == placed.last());
                if head.len() > 0 && face.depth.lt(head.last().depth) {
                    assert(sorted[sorted.len() - 2 + 1] == sorted.last());
                }
            }
        }
    } else {
        let out = sorted.push(face);
        assert forall|i: int| 0 <= i < out.len() - 1 implies !(#[trigger] out[i + 1]).depth.lt(
            out[i].depth,
        ) by {
            if i < sorted.len() - 1 {
                assert(out[i + 1] == sorted[i + 1]);
            }
        }
    }
}

/// In the sorted order no face stands directly before one that is strictly
/// less deep, whatever the depths are.
pub proof fn lemma_depth_sorted_steps(faces: Seq<ProjectedFace>)
    ensures
        ascending_steps(depth_sorted(faces)),
    decreases faces.len(),
{
    if faces.len() > 0 {
        lemma_depth_sorted_steps(faces.drop_last());
        lemma_insert_keeps_steps(depth_sorted(faces.drop_last()), faces.last());
    }
}

/// Where no depth is a NaN, an order without a downward step is ascending
/// throughout.
pub proof fn lemma_steps_ascending(faces: Seq<ProjectedFace>)
    requires
        no_nan_depth(faces),
        ascending_steps(faces),
    ensures
        ascending(faces),
{
    assert forall|i: int, j: int| 0 <= i < j < faces.len() implies !(#[trigger] faces[j]).depth.lt(
        (#[trigger] faces[i]).depth,
    ) by {
        lemma_rank_climbs(faces, i, j);
    }
}

proof fn lemma_rank_climbs(faces: Seq<ProjectedFace>, i: int, j: int)
    requires
        no_nan_depth(faces),
        ascending_steps(faces),
        0 <= i <= j < faces.len(),
    ensures
        faces[i].depth.rank() <= faces[j].depth.rank(),
    decreases j - i,
{
    if i < j {
        lemma_rank_climbs(faces, i, j - 1);
        assert(faces[j - 1 + 1] == faces[j]);
        assert(!faces[j - 1].depth.nan());
        assert(!faces[j].depth.nan());
    }
}

/// Where no depth is a NaN, the sorted order is ascending: no face stands
/// anywhere before one that is strictly less deep.
pub proof fn lemma_depth_sorted_ascending(faces: Seq<ProjectedFace>)
    requires
        no_nan_depth(faces),
    ensures
        ascending(depth_sorted(faces)),
        no_nan_depth(depth_sorted(faces)),
{
    let sorted = depth_sorted(faces);
    lemma_depth_sorted_permutes(faces);
    assert forall|i: int| 0 <= i < sorted.len() implies !(#[trigger] sorted[i]).depth.nan() by {
        assert(sorted.contains(sorted[i]));
        assert(faces.contains(sorted[i]));
        let j = choose|j: int| 0 <= j < faces.len() && faces[j] == sorted[i];
        assert(!faces[j].depth.nan());
    }
    lemma_depth_sorted_steps(faces);
    lemma_steps_ascending(sorted);
}

/// Faces that already stand without a downward step are left as they are.
pub proof fn lemma_sorted_stays(faces: Seq<ProjectedFace>)
    requires
        ascending_steps(faces),
    ensures
        depth_sorted(faces) == faces,
    decreases faces.len(),
{
    if faces.len() > 0 {
        let head = faces.drop_last();
        assert(ascending_steps(head)) by {
            assert forall|i: int| 0 <= i < head.len() - 1 implies !(#[trigger] head[i
                + 1]).depth.lt(head[i].depth) by {
                assert(head[i + 1] == faces[i + 1]);
            }
        }
        lemma_sorted_stays(head);
        if head.len() > 0 {
            assert(faces[faces.len() - 2 + 1] == faces.last());
            assert(head.last() == faces[faces.len() - 2]);
        }
        assert(head.push(faces.last()) == faces);
    }
}

/// Sorting what is sorted changes nothing.
pub proof fn lemma_depth_sorted_idempotent(faces: Seq<ProjectedFace>)
    ensures
        depth_sorted(depth_sorted(faces)) == depth_sorted(faces),
{
    lemma_depth_sorted_steps(faces);
    lemma_sorted_stays(depth_sorted(faces));
}

/// Putting a face in leaves the faces of any one depth in their order, the
/// new face behind those that were there.
pub proof fn lemma_insert_is_stable(sorted: Seq<ProjectedFace>, face: ProjectedFace, depth: Scalar)
    ensures
        insert_by_depth(sorted, face).filter(at_depth(depth)) == if face.depth.same(depth) {
            sorted.filter(at_depth(depth)).push(face)
        } else {
            sorted.filter(at_depth(depth))
        },
    decreases sorted.len(),
{
    broadcast use Seq::lemma_filter_push;

    let p = at_depth(depth);
    if sorted.len() > 0 && face.depth.lt(sorted.last().depth) {
        let head = sorted.drop_last();
        lemma_insert_is_stable(head, face, depth);
        assert(sorted == head.push(sorted.last()));
        assert(!(p(face) && p(sorted.last())));
    }
}

/// Sorting is stable: the faces of any one depth stand in the sorted order
/// as they stood in the input.
pub proof fn lemma_depth_sorted_is_stable(faces: Seq<ProjectedFace>, depth: Scalar)
    ensures
        depth_sorted(faces).filter(at_depth(depth)) == faces.filter(at_depth(depth)),
    decreases faces.len(),
{
    broadcast use Seq::lemma_filter_push;

    if faces.len() > 0 {
        lemma_depth_sorted_is_stable(faces.drop_last(), depth);
        lemma_insert_is_stable(depth_sorted(faces.drop_last()), faces.last(), depth);
        assert(faces == faces.drop_last().push(faces.last()));
    }
}

/// The order from far to near holds each face as often as the input does.
pub proof fn lemma_draw_order_permutes(faces: Seq<ProjectedFace>)
    ensures
        draw_order(faces).to_multiset() == faces.to_multiset(),
        draw_order(faces).len() == faces.len(),
        forall|f: ProjectedFace| draw_order(faces).contains(f) <==> faces.contains(f),
{
    let sorted = depth_sorted(faces);
    let order = draw_order(faces);
    lemma_depth_sorted_permutes(faces);
    sorted.lemma_reverse_to_multiset();
    assert forall|f: ProjectedFace| order.contains(f) <==> faces.contains(f) by {
        if order.contains(f) {
            let i = choose|i: int| 0 <= i < order.len() && order[i] == f;
            assert(sorted[sorted.len() - 1 - i] == f);
            assert(sorted.contains(f));
        }
        if faces.contains(f) {
            assert(sorted.contains(f));
            let i = choose|i: int| 0 <= i < sorted.len() && sorted[i] == f;
            assert(order[sorted.len() - 1 - i] == f);
        }
    }
}

/// From far to near no face stands directly before one that is strictly
/// deeper, whatever the depths are.
pub proof fn lemma_draw_order_steps(faces: Seq<ProjectedFace>)
    ensures
        descending_steps(draw_order(faces)),
{
    let sorted = depth_sorted(faces);
    let order = draw_order(faces);
    lemma_depth_sorted_steps(faces);
    assert forall|i: int| 0 <= i < order.len() - 1 implies !(#[trigger] order[i]).depth.lt(
        order[i + 1].depth,
    ) by {
        let k = sorted.len() - 2 - i;
        assert(sorted[k + 1] == order[i]);
        assert(sorted[k] == order[i + 1]);
    }
}

/// Where no depth is a NaN, the faces are painted farthest first and nearest
/// last: no face stands anywhere before one that is strictly deeper.
pub proof fn lemma_draw_order_descending(faces: Seq<ProjectedFace>)
    requires
        no_nan_depth(faces),
    ensures
        descending(draw_order(faces)),
{
    let sorted = depth_sorted(faces);
    let order = draw_order(faces);
    lemma_depth_sorted_ascending(faces);
    assert forall|i: int, j: int| 0 <= i < j < order.len() implies !(#[trigger] order[i]).depth.lt(
        (#[trigger] order[j]).depth,
    ) by {
        assert(order[i] == sorted[sorted.len() - 1 - i]);
        assert(order[j] == sorted[sorted.len() - 1 - j]);
    }
}

/// Leaving faces out keeps the rest from far to near.
pub proof fn lemma_filter_keeps_descending(
    faces: Seq<ProjectedFace>,
    keep: spec_fn(ProjectedFace) -> bool,
)
    requires
        descending(faces),
    ensures
        descending(faces.filter(keep)),
    decreases faces.len(),
{
    broadcast use Seq::lemma_filter_push;

    reveal(Seq::filter);
    if faces.len() > 0 {
        let head = faces.drop_last();
        let kept = head.filter(keep);
        assert(descending(head)) by {
            assert forall|i: int, j: int| 0 <= i < j < head.len() implies !(#[trigger] head[i]).depth.lt(
                (#[trigger] head[j]).depth,
            ) by {
                assert(head[i] == faces[i]);
                assert(head[j] == faces[j]);
            }
        }
        lemma_filter_keeps_descending(head, keep);
        assert(faces == head.push(faces.last()));
        if keep(faces.last()) {
            let out = kept.push(faces.last());
            assert forall|i: int, j: int| 0 <= i < j < out.len() implies !(#[trigger] out[i]).depth.lt(
                (#[trigger] out[j]).depth,
            ) by {
                if j < kept.len() {
                    assert(out[i] == kept[i]);
                    assert(out[j] == kept[j]);
                } else {
                    assert(kept.contains(kept[i]));
                    head.lemma_filter_contains_rev(keep, kept[i]);
                    let k = choose|k: int| 0 <= k < head.len() && head[k] == kept[i];
                    assert(faces[k] == out[i]);
                    assert(faces[faces.len() - 1] == out[j]);
                }
            }
        }
    }
}

/// Where no depth is a NaN, the faces that are painted are painted farthest
/// first and nearest last.
pub proof fn lemma_visible_descending(faces: Seq<ProjectedFace>)
    requires
        no_nan_depth(faces),
    ensures
        descending(visible(faces)),
{
    lemma_draw_order_descending(faces);
    lemma_filter_keeps_descending(draw_order(faces), front());
}

/// The faces that are painted are the faces of the mesh that turn their front
/// to the viewer, all of them and no other.
pub proof fn lemma_visible_members(faces: Seq<ProjectedFace>)
    ensures
        forall|f: ProjectedFace|
            visible(faces).contains(f) <==> faces.contains(f) && f.front_facing(),
{
    let order = draw_order(faces);
    let shown = visible(faces);
    lemma_draw_order_permutes(faces);
    assert forall|f: ProjectedFace| shown.contains(f) <==> faces.contains(f)
        && f.front_facing() by {
        if shown.contains(f) {
            order.lemma_filter_contains_rev(front(), f);
            let i = choose|i: int| 0 <= i < shown.len() && shown[i] == f;
            order.lemma_filter_pred(front(), i);
        }
        if faces.contains(f) && f.front_facing() {
            assert(order.contains(f));
            let k = choose|k: int| 0 <= k < order.len() && order[k] == f;
            order.lemma_filter_contains(front(), k);
        }
    }
}

/// Every face with a winding greater than zero leaves its outline in the
/// drawing, and every polygon of the drawing is the outline of such a face:
/// a face with a winding of zero or less, or a NaN, leaves nothing.
pub proof fn lemma_emitted_members(faces: Seq<ProjectedFace>)
    ensures
        forall|f: ProjectedFace|
            faces.contains(f) && f.front_facing() ==> emitted(faces).contains(
                #[trigger] f.outline(),
            ),
        forall|p: Polygon| #[trigger]
            emitted(faces).contains(p) ==> exists|f: ProjectedFace|
                faces.contains(f) && f.front_facing() && p == #[trigger] f.outline(),
{
    let shown = visible(faces);
    let drawn = emitted(faces);
    lemma_visible_members(faces);
    assert forall|f: ProjectedFace| faces.contains(f) && f.front_facing() implies drawn.contains(
        #[trigger] f.outline(),
    ) by {
        assert(shown.contains(f));
        let i = choose|i: int| 0 <= i < shown.len() && shown[i] == f;
        assert(drawn[i] == f.outline());
    }
    assert forall|p: Polygon| #[trigger] drawn.contains(p) implies exists|f: ProjectedFace|
        faces.contains(f) && f.front_facing() && p == #[trigger] f.outline() by {
        let i = choose|i: int| 0 <= i < drawn.len() && drawn[i] == p;
        let f = shown[i];
        assert(shown.contains(f));
        assert(p == f.outline());
    }
}

/// Putting a face in changes the number of faces that pass a test by that
/// face alone.
pub proof fn lemma_insert_counts(
    sorted: Seq<ProjectedFace>,
    face: ProjectedFace,
    keep: spec_fn(ProjectedFace) -> bool,
)
    ensures
        insert_by_depth(sorted, face).filter(keep).len() == sorted.filter(keep).len() + if keep(
            face,
        ) {
            1int
        } else {
            0int
        },
    decreases sorted.len(),
{
    broadcast use Seq::lemma_filter_push;

    if sorted.len() > 0 && face.depth.lt(sorted.last().depth) {
        lemma_insert_counts(sorted.drop_last(), face, keep);
        assert(sorted == sorted.drop_last().push(sorted.last()));
    }
}

/// Sorting changes the number of faces that pass a test no more than turning
/// the order round does.
pub proof fn lemma_draw_order_counts(
    faces: Seq<ProjectedFace>,
    keep: spec_fn(ProjectedFace) -> bool,
)
    ensures
        depth_sorted(faces).filter(keep).len() == faces.filter(keep).len(),
        draw_order(faces).filter(keep).len() == faces.filter(keep).len(),
    decreases faces.len(),
{
    broadcast use Seq::lemma_filter_push;

    reveal(Seq::filter);
    if faces.len() > 0 {
        lemma_draw_order_counts(faces.drop_last(), keep);
        lemma_insert_counts(depth_sorted(faces.drop_last()), faces.last(), keep);
        assert(faces == faces.drop_last().push(faces.last()));
    }
    lemma_reverse_counts(depth_sorted(faces), keep);
}

proof fn lemma_reverse_counts(faces: Seq<ProjectedFace>, keep: spec_fn(ProjectedFace) -> bool)
    ensures
        faces.reverse().filter(keep).len() == faces.filter(keep).len(),
    decreases faces.len(),
{
    broadcast use Seq::lemma_filter_push;

    reveal(Seq::filter);
    if faces.len() > 0 {
        let head = faces.drop_last();
        let one = Seq::<ProjectedFace>::empty().push(faces.last());
        lemma_reverse_counts(head, keep);
        assert(faces == head.push(faces.last()));
        assert(faces.reverse() == one + head.reverse());
        Seq::filter_distributes_over_add(one, head.reverse(), keep);
    }
}

/// A mesh leaves as many polygons as it has faces with a winding greater than
/// zero, so never more than it has faces.
pub proof fn lemma_emitted_count(faces: Seq<ProjectedFace>)
    ensures
        emitted(faces).len() == faces.filter(front()).len(),
        emitted(faces).len() <= faces.len(),
{
    lemma_draw_order_counts(faces, front());
    faces.lemma_filter_len(front());
}

/// A mesh of which no face has a winding greater than zero leaves no polygon.
pub proof fn lemma_all_culled(faces: Seq<ProjectedFace>)
    requires
        forall|i: int| 0 <= i < faces.len() ==> !(#[trigger] faces[i]).front_facing(),
    ensures
        emitted(faces) == Seq::<Polygon>::empty(),
{
    let drawn = emitted(faces);
    lemma_emitted_members(faces);
    if drawn.len() > 0 {
        assert(drawn.contains(drawn[0]));
        let f = choose|f: ProjectedFace|
            faces.contains(f) && f.front_facing() && drawn[0] == #[trigger] f.outline();
        let i = choose|i: int| 0 <= i < faces.len() && faces[i] == f;
        assert(!faces[i].front_facing());
    }
}

} // verus!
