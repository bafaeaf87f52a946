use path_tracer::material::{MaterialKind, MATERIAL_KIND_COUNT};
use path_tracer::scene::Skybox;

#[test]
fn skybox_labels() {
    assert_eq!(Skybox::Off.label(), "None");
    assert_eq!(Skybox::Dim.label(), "Dim ambient");
    assert_eq!(Skybox::BlueGradient.label(), "Blue gradient");
}

#[test]
fn skybox_equality() {
    let sky = Skybox::Dim;
    assert!(sky == Skybox::Dim);
    assert!(sky != Skybox::BlueGradient);
}

#[test]
fn material_kind_labels_in_editor_order() {
    let labels: Vec<&str> = (0..MATERIAL_KIND_COUNT)
        .map(|i| MaterialKind::from_index(i).unwrap().label())
        .collect();
    assert_eq!(labels, vec!["Lambertian", "Metal", "Glass", "Emissive"]);
}

#[test]
fn material_kind_index_round_trip() {
    for kind in [
        MaterialKind::Lambertian,
        MaterialKind::Metal,
        MaterialKind::Glass,
        MaterialKind::Emissive,
    ] {
        assert_eq!(MaterialKind::from_index(kind.index()), Some(kind));
    }
    for i in 0..MATERIAL_KIND_COUNT {
        assert_eq!(MaterialKind::from_index(i).unwrap().index(), i);
    }
}

#[test]
fn material_kind_past_the_end() {
    assert_eq!(MaterialKind::from_index(4), None);
    assert_eq!(MaterialKind::from_index(usize::MAX), None);
}

#[test]
fn material_kind_found_by_label() {
    let kind = MaterialKind::Glass;
    let pos = (0..MATERIAL_KIND_COUNT)
        .position(|i| MaterialKind::from_index(i).unwrap().label() == kind.label())
        .unwrap_or(0);
    assert_eq!(pos, kind.index());
}
