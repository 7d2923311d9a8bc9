//! The drawing that rendering produces: groups of filled triangles.

use vstd::prelude::*;
use vstd::string::*;
use crate::geometry::Point2;
use crate::scalar::{Scalar, ONE_BITS};
use crate::viewport::Viewport;

verus! {

/// A filled triangle in the drawing plane.
#[derive(Clone, Copy, Debug, PartialEq, Eq)]
pub struct Polygon {
    pub points: [Point2; 3],
}

/// How the polygons of a group are painted.
#[derive(Clone, Copy, Debug, PartialEq, Eq)]
pub struct Style {
    pub fill: &'static str,
    pub fill_opacity: Scalar,
    pub stroke: &'static str,
    pub stroke_linejoin: &'static str,
    pub stroke_width: Scalar,
}

/// The polygons of one mesh as seen in one shot, in the order in which they
/// are painted: a later polygon covers an earlier one.
#[derive(Clone, Debug, PartialEq, Eq)]
pub struct Group {
    pub style: Style,
    pub polygons: Vec<Polygon>,
}

pub struct GroupView {
    pub style: Style,
    pub polygons: Seq<Polygon>,
}

impl View for Group {
    type V = GroupView;

    open spec fn view(&self) -> GroupView {
        GroupView { style: self.style, polygons: self.polygons@ }
    }
}

/// Side of the drawing in pixels.
pub const PIXELS: u32 = 512;

/// A drawing: its frame, and one group for each mesh of each shot.  A later
/// group lies over an earlier one.
#[derive(Clone, Debug, PartialEq, Eq)]
pub struct Document {
    pub view_box: Viewport,
    pub width: u32,
    pub height: u32,
    pub groups: Vec<Group>,
}

pub struct DocumentView {
    pub view_box: Viewport,
    pub width: u32,
    pub height: u32,
    pub groups: Seq<GroupView>,
}

impl View for Document {
    type V = DocumentView;

    open spec fn view(&self) -> DocumentView {
        DocumentView {
            view_box: self.view_box,
            width: self.width,
            height: self.height,
            groups: self.groups@.map_values(|g: Group| g@),
        }
    }
}

impl Polygon {
    pub fn new(a: Point2, b: Point2, c: Point2) -> (p: Polygon)
        ensures
            p.points@ == seq![a, b, c],
    {
        Polygon { points: [a, b, c] }
    }
}

/// Bit pattern of `0.005`, the nearest binary32 number to five thousandths.
pub const HAIRLINE_BITS: u32 = 0x3ba3_d70a;

impl Style {
    /// White faces with a thin black outline and rounded corners.
    pub open spec fn plain() -> Style {
        Style {
            fill: "white",
            fill_opacity: Scalar { bits: ONE_BITS },
            stroke: "black",
            stroke_linejoin: "round",
            stroke_width: Scalar { bits: HAIRLINE_BITS },
        }
    }

    pub fn new_plain() -> (s: Style)
        ensures
            s == Style::plain(),
    {
        Style {
            fill: "white",
            fill_opacity: Scalar { bits: ONE_BITS },
            stroke: "black",
            stroke_linejoin: "round",
            stroke_width: Scalar { bits: HAIRLINE_BITS },
        }
    }
}

impl Group {
    /// An empty group in the plain style.
    pub fn new() -> (g: Group)
        ensures
            g@.style == Style::plain(),
            g@.polygons == Seq::<Polygon>::empty(),
    {
        Group { style: Style::new_plain(), polygons: Vec::new() }
    }

    /// Paints `polygon` over what the group already holds.
    pub fn add(&mut self, polygon: Polygon)
        ensures
            final(self)@.style == old(self)@.style,
            final(self)@.polygons == old(self)@.polygons.push(polygon),
    {
        self.polygons.push(polygon);
    }
}

impl Document {
    /// An empty drawing: the unit square round the origin, shown on 512 by
    /// 512 pixels.
    pub fn new() -> (d: Document)
        ensures
            d@.view_box == Viewport::unit(),
            d@.width == PIXELS,
            d@.height == PIXELS,
            d@.groups == Seq::<GroupView>::empty(),
    {
        Document { view_box: Viewport::default(), width: PIXELS, height: PIXELS, groups: Vec::new() }
    }

    /// Lays `group` over what the drawing already holds.
    pub fn add(&mut self, group: Group)
        ensures
            final(self)@.view_box == old(self)@.view_box,
            final(self)@.width == old(self)@.width,
            final(self)@.height == old(self)@.height,
            final(self)@.groups == old(self)@.groups.push(group@),
    {
        self.groups.push(group);
    }
}

/// A point as a drawing names it: `x`, a comma, `y`.
pub open spec fn pair_text(x: Seq<char>, y: Seq<char>) -> Seq<char> {
    x + seq![','] + y
}

/// Points as a drawing names them: one after the other, a space between.
pub open spec fn points_text(pairs: Seq<(Seq<char>, Seq<char>)>) -> Seq<char>
    decreases pairs.len(),
{
    if pairs.len() == 0 {
        Seq::empty()
    } else if pairs.len() == 1 {
        pair_text(pairs[0].0, pairs[0].1)
    } else {
        points_text(pairs.drop_last()) + seq![' '] + pair_text(pairs.last().0, pairs.last().1)
    }
}

/// The written coordinates as plain sequences of characters.
pub open spec fn written(coordinates: Seq<(String, String)>) -> Seq<(Seq<char>, Seq<char>)> {
    coordinates.map_values(|p: (String, String)| (p.0@, p.1@))
}

/// Joins written coordinates into the value of a polygon's `points`
/// attribute.  How a number is written is the caller's choice.
pub fn points_attribute(coordinates: &Vec<(String, String)>) -> (text: String)
    ensures
        text@ == points_text(written(coordinates@)),
{
    let mut text = String::new();
    let mut i: usize = 0;
    while i < coordinates.len()
        invariant
            i <= coordinates.len(),
            text@ == points_text(written(coordinates@).take(i as int)),
        decreases coordinates.len() - i,
    {
        proof {
            reveal_strlit(" ");
            reveal_strlit(",");
            let all = written(coordinates@);
            let upto = all.take(i as int + 1);
            assert(upto.drop_last() == all.take(i as int));
            assert(upto.last() == (coordinates@[i as int].0@, coordinates@[i as int].1@));
            assert(" "@ == seq![' ']);
            assert(","@ == seq![',']);
        }
        if i > 0 {
            text.append(" ");
        }
        text.append(coordinates[i].0.as_str());
        text.append(",");
        text.append(coordinates[i].1.as_str());
        i += 1;
    }
    proof {
        assert(written(coordinates@).take(coordinates.len() as int) == written(coordinates@));
    }
    text
}

} // verus!
