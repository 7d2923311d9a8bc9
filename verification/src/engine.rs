//! From projected shots to the drawing.

use vstd::prelude::*;
use crate::document::{Document, DocumentView, Group, GroupView, Style, PIXELS};
use crate::painter::{emitted, far_to_near, front, lemma_emitted_count, outline};
use crate::projected::{ProjectedFace, ProjectedMesh, ProjectedView};
use crate::viewport::Viewport;

verus! {

/// Renders shots: each mesh of each shot becomes one group of the drawing.
#[derive(Clone, Debug, PartialEq, Eq)]
pub struct Engine {
    pub views: Vec<ProjectedView>,
}

impl View for Engine {
    type V = Seq<Seq<Seq<ProjectedFace>>>;

    open spec fn view(&self) -> Seq<Seq<Seq<ProjectedFace>>> {
        self.views@.map_values(|v: ProjectedView| v@)
    }
}

/// The group that a mesh leaves in the drawing: plain style, and the
/// outlines of the faces that turn their front to the viewer, from far to
/// near.
pub open spec fn group_of(faces: Seq<ProjectedFace>) -> GroupView {
    GroupView { style: Style::plain(), polygons: emitted(faces) }
}

pub open spec fn grouping() -> spec_fn(Seq<ProjectedFace>) -> GroupView {
    |faces: Seq<ProjectedFace>| group_of(faces)
}

/// The drawing of the given shots: its frame is fixed, and its groups are
/// those of the meshes, shot after shot, and within a shot mesh after mesh.
pub open spec fn drawing(views: Seq<Seq<Seq<ProjectedFace>>>) -> DocumentView {
    DocumentView {
        view_box: Viewport::unit(),
        width: PIXELS,
        height: PIXELS,
        groups: views.flatten().map_values(grouping()),
    }
}

impl Engine {
    pub fn new(views: Vec<ProjectedView>) -> (engine: Engine)
        ensures
            engine.views == views,
    {
        Engine { views }
    }

    /// Draws one mesh: orders its faces from far to near, drops those whose
    /// winding is not greater than zero, and paints the rest in that order.
    pub fn create_group(&self, mesh: &ProjectedMesh) -> (group: Group)
        ensures
            group@ == group_of(mesh@),
            group@.polygons.len() <= mesh@.len(),
    {
        proof {
            lemma_emitted_count(mesh@);
        }
        let ordered = far_to_near(&mesh.faces);
        let mut group = Group::new();
        let mut k: usize = 0;
        while k < ordered.len()
            invariant
                k <= ordered.len(),
                group@.style == Style::plain(),
                group@.polygons == ordered@.take(k as int).filter(front()).map_values(outline()),
            decreases ordered.len() - k,
        {
            let face = ordered[k];
            proof {
                broadcast use Seq::lemma_filter_push;
                broadcast use Seq::lemma_push_map_commute;

                assert(ordered@.take(k as int + 1) == ordered@.take(k as int).push(face));
            }
            if face.is_front_facing() {
                group.add(face.to_polygon());
            }
            k += 1;
        }
        proof {
            reveal(Seq::filter);
            assert(ordered@.take(ordered.len() as int) == ordered@);
        }
        group
    }

    /// Draws every mesh of every shot, in the order in which they are given.
    pub fn render(&self) -> (document: Document)
        ensures
            document@ == drawing(self@),
    {
        let mut document = Document::new();
        let mut i: usize = 0;
        while i < self.views.len()
            invariant
                i <= self.views.len(),
                document@.view_box == Viewport::unit(),
                document@.width == PIXELS,
                document@.height == PIXELS,
                document@.groups == self@.take(i as int).flatten().map_values(grouping()),
            decreases self.views.len() - i,
        {
            let view = &self.views[i];
            let mut j: usize = 0;
            proof {
                assert(view@.take(0) == Seq::<Seq<ProjectedFace>>::empty());
                assert(self@.take(i as int).flatten() + view@.take(0) == self@.take(
                    i as int,
                ).flatten());
            }
            while j < view.meshes.len()
                invariant
                    j <= view.meshes.len(),
                    document@.view_box == Viewport::unit(),
                    document@.width == PIXELS,
                    document@.height == PIXELS,
                    document@.groups == (self@.take(i as int).flatten() + view@.take(
                        j as int,
                    )).map_values(grouping()),
                decreases view.meshes.len() - j,
            {
                let group = self.create_group(&view.meshes[j]);
                proof {
                    broadcast use Seq::lemma_push_map_commute;

                    let done = self@.take(i as int).flatten();
                    assert(view@[j as int] == view.meshes[j as int]@);
                    assert(view@.take(j as int + 1) == view@.take(j as int).push(view@[j as int]));
                    assert(done + view@.take(j as int + 1) == (done + view@.take(j as int)).push(
                        view@[j as int],
                    ));
                }
                document.add(group);
                j += 1;
            }
            proof {
                broadcast use Seq::lemma_flatten_push;

                assert(view@.take(view.meshes.len() as int) == view@);
                assert(self@[i as int] == view@);
                assert(self@.take(i as int + 1) == self@.take(i as int).push(view@));
            }
            i += 1;
        }
        proof {
            assert(self@.take(self.views.len() as int) == self@);
        }
        document
    }
}

/// Rendering has no memory: whoever renders the same shots gets the same
/// drawing, group for group and polygon for polygon.
pub proof fn lemma_render_repeats(first: Engine, second: Engine, a: Document, b: Document)
    requires
        first@ == second@,
        a@ == drawing(first@),
        b@ == drawing(second@),
    ensures
        a@ == b@,
{
}

/// Shots do not touch each other: a further shot leaves the groups of the
/// earlier ones as they are and lays its own over them, one for each of its
/// meshes in their order.
pub proof fn lemma_drawing_appends(views: Seq<Seq<Seq<ProjectedFace>>>, view: Seq<Seq<ProjectedFace>>)
    ensures
        drawing(views.push(view)).groups == drawing(views).groups + view.map_values(grouping()),
        drawing(views.push(view)).view_box == drawing(views).view_box,
        drawing(views.push(view)).width == drawing(views).width,
        drawing(views.push(view)).height == drawing(views).height,
{
    broadcast use Seq::lemma_flatten_push;

    assert(drawing(views.push(view)).groups =~= drawing(views).groups + view.map_values(
        grouping(),
    ));
}

/// Without a shot the drawing is an empty frame.
pub proof fn lemma_drawing_of_nothing()
    ensures
        drawing(Seq::empty()).groups == Seq::<GroupView>::empty(),
{
    assert(drawing(Seq::empty()).groups =~= Seq::<GroupView>::empty());
}

} // verus!
