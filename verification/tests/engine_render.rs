use render3d::camera::Camera;
use render3d::document::{points_attribute, Document, Group, Polygon, Style};
use render3d::engine::Engine;
use render3d::geometry::{Point2, Point3, Vector3};
use render3d::projected::{ProjectedFace, ProjectedMesh, ProjectedView};
use render3d::scalar::Scalar;
use render3d::scene::{Mesh, Scene, View};
use render3d::shapes::cube;
use render3d::viewport::Viewport;

fn scalar(x: f32) -> Scalar {
    Scalar::from_bits(x.to_bits())
}

fn flat(x: f32, y: f32) -> Point2 {
    Point2::new(scalar(x), scalar(y))
}

/// A face at the given depth whose outline starts at `(tag, 0)`.
fn shown(tag: f32, depth: f32, winding: f32) -> ProjectedFace {
    ProjectedFace::new(
        [
            Point3::new(scalar(tag), scalar(0.0), scalar(depth - 0.125)),
            Point3::new(scalar(tag + 1.0), scalar(0.5), scalar(depth)),
            Point3::new(scalar(tag), scalar(1.0), scalar(depth + 0.125)),
        ],
        scalar(depth),
        scalar(winding),
    )
}

fn outline_of(tag: f32) -> Polygon {
    Polygon::new(flat(tag, 0.0), flat(tag + 1.0, 0.5), flat(tag, 1.0))
}

fn engine_of(meshes: Vec<Vec<ProjectedFace>>) -> Engine {
    Engine::new(vec![ProjectedView::new(meshes.into_iter().map(ProjectedMesh::new).collect())])
}

#[test]
fn create_group_paints_far_faces_first() {
    let mesh = ProjectedMesh::new(vec![
        shown(0.0, 0.25, 1.0),
        shown(1.0, 0.75, 1.0),
        shown(2.0, 0.5, 1.0),
    ]);
    let group = Engine::new(Vec::new()).create_group(&mesh);
    assert_eq!(group.polygons, vec![outline_of(1.0), outline_of(2.0), outline_of(0.0)]);
}

#[test]
fn create_group_keeps_the_mapped_points() {
    let face = ProjectedFace::new(
        [
            Point3::new(scalar(-0.25), scalar(0.125), scalar(0.9)),
            Point3::new(scalar(0.375), scalar(-0.0625), scalar(0.8)),
            Point3::new(scalar(0.0), scalar(0.4375), scalar(0.7)),
        ],
        scalar(0.8),
        scalar(0.3),
    );
    let group = Engine::new(Vec::new()).create_group(&ProjectedMesh::new(vec![face]));
    assert_eq!(group.polygons.len(), 1);
    assert_eq!(
        group.polygons[0].points,
        [flat(-0.25, 0.125), flat(0.375, -0.0625), flat(0.0, 0.4375)]
    );
    assert_eq!(face.to_polygon(), group.polygons[0]);
}

#[test]
fn create_group_drops_faces_that_turn_away() {
    let mesh = ProjectedMesh::new(vec![
        shown(0.0, 0.1, 1.0),
        shown(1.0, 0.2, -1.0),
        shown(2.0, 0.3, 0.0),
        shown(3.0, 0.4, -0.0),
        shown(4.0, 0.5, f32::NAN),
        shown(5.0, 0.6, f32::NEG_INFINITY),
        shown(6.0, 0.7, f32::MIN_POSITIVE),
        shown(7.0, 0.8, f32::INFINITY),
        shown(8.0, 0.9, f32::from_bits(1)),
    ]);
    let group = Engine::new(Vec::new()).create_group(&mesh);
    assert_eq!(
        group.polygons,
        vec![outline_of(8.0), outline_of(7.0), outline_of(6.0), outline_of(0.0)]
    );
}

#[test]
fn is_front_facing_asks_for_a_winding_above_zero() {
    assert!(shown(0.0, 0.0, 0.001).is_front_facing());
    assert!(!shown(0.0, 0.0, 0.0).is_front_facing());
    assert!(!shown(0.0, 0.0, -0.001).is_front_facing());
    assert!(!shown(0.0, 0.0, f32::NAN).is_front_facing());
}

#[test]
fn create_group_of_reverse_wound_mesh_is_empty() {
    let mesh = ProjectedMesh::new(vec![
        shown(0.0, 0.1, -0.5),
        shown(1.0, 0.2, -0.25),
        shown(2.0, 0.3, -2.0),
    ]);
    let engine = Engine::new(vec![ProjectedView::new(vec![mesh.clone()])]);
    let group = engine.create_group(&mesh);
    assert!(group.polygons.is_empty());
    assert_eq!(group.style, Style::new_plain());
    let document = engine.render();
    assert_eq!(document.groups.len(), 1);
    assert!(document.groups[0].polygons.is_empty());
}

#[test]
fn create_group_of_empty_mesh_is_empty() {
    let group = Engine::new(Vec::new()).create_group(&ProjectedMesh::new(Vec::new()));
    assert_eq!(group, Group::new());
}

#[test]
fn group_style_is_plain() {
    let style = Group::new().style;
    assert_eq!(style.fill, "white");
    assert_eq!(f32::from_bits(style.fill_opacity.to_bits()), 1.0);
    assert_eq!(style.stroke, "black");
    assert_eq!(style.stroke_linejoin, "round");
    assert_eq!(f32::from_bits(style.stroke_width.to_bits()), 0.005);
    assert_eq!(style, Style::new_plain());
}

#[test]
fn group_add_paints_over_what_is_there() {
    let mut group = Group::new();
    group.add(outline_of(1.0));
    group.add(outline_of(0.0));
    assert_eq!(group.polygons, vec![outline_of(1.0), outline_of(0.0)]);
    assert_eq!(group.style, Style::new_plain());
}

#[test]
fn document_frame_is_the_unit_square_on_512_pixels() {
    let document = Document::new();
    assert_eq!(document.view_box, Viewport::default());
    assert_eq!(document.width, 512);
    assert_eq!(document.height, 512);
    assert!(document.groups.is_empty());
    assert_eq!(Engine::new(Vec::new()).render(), document);
}

#[test]
fn document_add_lays_groups_in_order() {
    let mut document = Document::new();
    let mut first = Group::new();
    first.add(outline_of(3.0));
    document.add(first.clone());
    document.add(Group::new());
    assert_eq!(document.groups, vec![first, Group::new()]);
    assert_eq!(document.width, 512);
}

#[test]
fn render_has_one_group_for_each_mesh_in_input_order() {
    let first = ProjectedView::new(vec![
        ProjectedMesh::new(vec![shown(0.0, 0.5, 1.0)]),
        ProjectedMesh::new(vec![]),
        ProjectedMesh::new(vec![shown(1.0, 0.1, 1.0), shown(2.0, 0.9, 1.0)]),
    ]);
    let second = ProjectedView::new(vec![]);
    let third = ProjectedView::new(vec![ProjectedMesh::new(vec![
        shown(3.0, 0.2, -1.0),
        shown(4.0, 0.1, 2.0),
    ])]);
    let document = Engine::new(vec![first, second, third]).render();
    let polygons: Vec<Vec<Polygon>> =
        document.groups.iter().map(|g| g.polygons.clone()).collect();
    assert_eq!(
        polygons,
        vec![
            vec![outline_of(0.0)],
            vec![],
            vec![outline_of(2.0), outline_of(1.0)],
            vec![outline_of(4.0)],
        ]
    );
    for group in &document.groups {
        assert_eq!(group.style, Style::new_plain());
    }
}

#[test]
fn render_does_not_sort_across_meshes() {
    let near = vec![shown(0.0, 0.1, 1.0)];
    let far = vec![shown(1.0, 0.9, 1.0)];
    let document = engine_of(vec![near, far]).render();
    assert_eq!(document.groups[0].polygons, vec![outline_of(0.0)]);
    assert_eq!(document.groups[1].polygons, vec![outline_of(1.0)]);
}

#[test]
fn render_twice_gives_equal_documents() {
    let meshes = vec![
        vec![shown(0.0, 0.5, 1.0), shown(1.0, 0.5, 1.0), shown(2.0, f32::NAN, 1.0)],
        vec![shown(3.0, 0.25, -1.0), shown(4.0, 0.75, 1.0)],
    ];
    let engine = engine_of(meshes.clone());
    let once = engine.render();
    let twice = engine.render();
    assert_eq!(once, twice);
    assert_eq!(engine_of(meshes).render(), once);
}

#[test]
fn points_attribute_joins_pairs_with_commas_and_spaces() {
    let pairs = vec![
        ("0".to_string(), "0".to_string()),
        ("1".to_string(), "0.5".to_string()),
        ("-0.25".to_string(), "1".to_string()),
    ];
    assert_eq!(points_attribute(&pairs), "0,0 1,0.5 -0.25,1");
}

#[test]
fn points_attribute_of_nothing_and_of_one_point() {
    assert_eq!(points_attribute(&Vec::new()), "");
    assert_eq!(points_attribute(&vec![("inf".to_string(), "NaN".to_string())]), "inf,NaN");
    assert_eq!(points_attribute(&vec![(String::new(), String::new())]), ",");
}

#[test]
fn viewport_default_is_the_unit_square() {
    let viewport = Viewport::default();
    assert_eq!(f32::from_bits(viewport.minx.to_bits()), -0.5);
    assert_eq!(f32::from_bits(viewport.miny.to_bits()), -0.5);
    assert_eq!(f32::from_bits(viewport.width.to_bits()), 1.0);
    assert_eq!(f32::from_bits(viewport.height.to_bits()), 1.0);
    assert_eq!(Viewport::new(scalar(-0.5), scalar(-0.5), scalar(1.0), scalar(1.0)), viewport);
}

fn camera_with(fovy: f32, aspect: f32, near: f32, far: f32) -> Camera {
    Camera::new(
        scalar(fovy),
        scalar(aspect),
        scalar(near),
        scalar(far),
        Point3::new(scalar(13.0), scalar(2.0), scalar(20.0)),
        Point3::new(scalar(0.0), scalar(0.0), scalar(0.0)),
        Vector3::new(scalar(0.0), scalar(1.0), scalar(0.0)),
    )
}

#[test]
fn camera_keeps_what_it_is_given() {
    let camera = camera_with(15.0, 1.0, 10.0, 100.0);
    assert_eq!(camera.fovy, scalar(15.0));
    assert_eq!(camera.aspect, scalar(1.0));
    assert_eq!(camera.near, scalar(10.0));
    assert_eq!(camera.far, scalar(100.0));
    assert_eq!(camera.eye, Point3::new(scalar(13.0), scalar(2.0), scalar(20.0)));
    assert_eq!(camera.target, Point3::new(scalar(0.0), scalar(0.0), scalar(0.0)));
    assert_eq!(camera.up, Vector3::new(scalar(0.0), scalar(1.0), scalar(0.0)));
}

#[test]
fn camera_is_well_formed_within_its_ranges() {
    assert!(camera_with(15.0, 1.0, 10.0, 100.0).is_well_formed());
    assert!(camera_with(179.0, 0.001, 1.0e-6, 1.0e30).is_well_formed());
    assert!(!camera_with(0.0, 1.0, 10.0, 100.0).is_well_formed());
    assert!(!camera_with(180.0, 1.0, 10.0, 100.0).is_well_formed());
    assert!(!camera_with(-15.0, 1.0, 10.0, 100.0).is_well_formed());
    assert!(!camera_with(15.0, 0.0, 10.0, 100.0).is_well_formed());
    assert!(!camera_with(15.0, -1.0, 10.0, 100.0).is_well_formed());
    assert!(!camera_with(15.0, 1.0, 0.0, 100.0).is_well_formed());
    assert!(!camera_with(15.0, 1.0, -1.0, 100.0).is_well_formed());
    assert!(!camera_with(15.0, 1.0, 10.0, 10.0).is_well_formed());
    assert!(!camera_with(15.0, 1.0, 100.0, 10.0).is_well_formed());
    assert!(!camera_with(f32::NAN, 1.0, 10.0, 100.0).is_well_formed());
    assert!(!camera_with(15.0, f32::NAN, 10.0, 100.0).is_well_formed());
    assert!(!camera_with(15.0, 1.0, f32::NAN, 100.0).is_well_formed());
    assert!(!camera_with(15.0, 1.0, 10.0, f32::NAN).is_well_formed());
}

#[test]
fn view_new_takes_the_default_viewport() {
    let camera = camera_with(15.0, 1.0, 10.0, 100.0);
    let mesh = Mesh::new(cube());
    assert_eq!(mesh.faces, cube());
    assert!(mesh.style.is_empty());
    let scene = Scene::new(vec![mesh.clone()]);
    assert_eq!(scene.meshes, vec![mesh]);
    let view = View::new(camera, scene.clone());
    assert_eq!(view.camera, camera);
    assert_eq!(view.scene, scene);
    assert_eq!(view.viewport, Viewport::default());
}
