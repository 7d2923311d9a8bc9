use render3d::scalar::Scalar;
use render3d::scene::Mesh;
use render3d::style::{FaceStyler, StyleMap};

fn winding(x: f32) -> Scalar {
    Scalar::from_bits(x.to_bits())
}

fn filled(colour: &str) -> StyleMap {
    vec![("fill".to_string(), colour.to_string())]
}

#[test]
fn constant_styler_gives_every_face_the_same_style() {
    let styler = FaceStyler::Constant(filled("red"));
    assert_eq!(styler.style(0, winding(1.0)), Some(&filled("red")));
    assert_eq!(styler.style(99, winding(-1.0)), Some(&filled("red")));
    assert_eq!(styler.style(usize::MAX, winding(f32::NAN)), Some(&filled("red")));
}

#[test]
fn winding_styler_tells_front_from_back() {
    let styler = FaceStyler::ByWinding { front: filled("white"), back: filled("grey") };
    assert_eq!(styler.style(0, winding(0.25)), Some(&filled("white")));
    assert_eq!(styler.style(1, winding(f32::INFINITY)), Some(&filled("white")));
    assert_eq!(styler.style(2, winding(0.0)), Some(&filled("grey")));
    assert_eq!(styler.style(3, winding(-0.0)), Some(&filled("grey")));
    assert_eq!(styler.style(4, winding(-0.25)), Some(&filled("grey")));
    assert_eq!(styler.style(5, winding(f32::NAN)), Some(&filled("grey")));
}

#[test]
fn palette_styler_looks_the_face_up() {
    let styler = FaceStyler::Palette(vec![filled("red"), filled("green"), StyleMap::new()]);
    assert_eq!(styler.style(0, winding(1.0)), Some(&filled("red")));
    assert_eq!(styler.style(1, winding(-1.0)), Some(&filled("green")));
    assert_eq!(styler.style(2, winding(1.0)), Some(&StyleMap::new()));
    assert_eq!(styler.style(3, winding(1.0)), None);
    assert_eq!(FaceStyler::Palette(Vec::new()).style(0, winding(1.0)), None);
}

#[test]
fn new_mesh_has_no_style_of_its_own() {
    let mesh = Mesh::new(Vec::new());
    assert!(mesh.faces.is_empty());
    assert!(mesh.style.is_empty());
    assert_eq!(mesh.shader, None);
}
