use barnsley::transform::{AffineTransform, InverseJuliaTransform, LinearTransform, Transform, Transformable};
use barnsley::util::Color;
use ifs_editor::collection::{InvalidIndex, TransformCollection};
use ifs_editor::keyframes::{EditError, KeyframeCoordinator, Misaligned};
use ifs_editor::settings::RenderSettings;

fn color(r: f32, g: f32, b: f32) -> Color {
    Color { r, g, b }
}

fn linear(a: f32) -> Transform {
    Transform::LinearTransform(LinearTransform::new(a, 0.5, -0.5, 0.25, color(0.1, 0.2, 0.3), 1.0))
}

fn julia(r: f32) -> Transform {
    Transform::InverseJuliaTransform(InverseJuliaTransform::new(r, 1.5, color(0.4, 0.5, 0.6), 0.75))
}

fn affine(a: f32) -> Transform {
    Transform::AffineTransform(AffineTransform::new(a, 0.1, 0.2, 0.3, 0.4, 0.5, color(0.7, 0.8, 0.9), 2.0))
}

fn collection_of(ts: Vec<Transform>) -> TransformCollection {
    TransformCollection::from_vec(ts).expect("non-empty")
}

fn pair(a: Vec<Transform>, b: Vec<Transform>) -> KeyframeCoordinator {
    KeyframeCoordinator::new(vec![collection_of(a), collection_of(b)], vec![2]).expect("aligned")
}

#[test]
fn aligned_keyframes_are_accepted() {
    let k = pair(vec![linear(0.1), julia(1.0)], vec![linear(0.7), julia(2.0)]);
    assert_eq!(k.len(), 2);
    assert_eq!(k.keyframe_count(), 2);
    assert_eq!(k.step_counts(), &vec![2]);
    assert!(k.keyframe(1).transforms() == &vec![linear(0.7), julia(2.0)]);
}

#[test]
fn keyframes_of_other_lengths_are_refused() {
    let r = KeyframeCoordinator::new(
        vec![collection_of(vec![linear(0.1), julia(1.0)]), collection_of(vec![linear(0.7)])],
        vec![2],
    );
    assert!(matches!(r, Err(Misaligned)));
}

#[test]
fn keyframes_of_other_kinds_are_refused() {
    let r = KeyframeCoordinator::new(
        vec![collection_of(vec![linear(0.1), julia(1.0)]), collection_of(vec![linear(0.7), affine(0.2)])],
        vec![2],
    );
    assert!(matches!(r, Err(Misaligned)));
}

#[test]
fn step_counts_must_number_one_fewer() {
    let r = KeyframeCoordinator::new(vec![collection_of(vec![linear(0.1)]), collection_of(vec![linear(0.2)])], vec![]);
    assert!(matches!(r, Err(Misaligned)));
    let none = KeyframeCoordinator::new(vec![], vec![]);
    assert!(matches!(none, Err(Misaligned)));
}

#[test]
fn add_to_all_n_times_grows_every_keyframe() {
    let mut k = pair(vec![linear(0.1), julia(1.0)], vec![linear(0.7), julia(2.0)]);
    for i in 0..5 {
        k.add_to_all(affine(i as f32 / 10.0));
    }
    assert_eq!(k.len(), 7);
    assert_eq!(k.keyframe(0).len(), 7);
    assert_eq!(k.keyframe(1).len(), 7);
    assert!(k.keyframe(1).get(6) == affine(0.4));
}

#[test]
fn delete_from_all_keeps_lockstep() {
    let mut k = pair(vec![linear(0.1), julia(1.0), affine(0.3)], vec![linear(0.7), julia(2.0), affine(0.6)]);
    assert_eq!(k.delete_from_all(1), Ok(()));
    assert!(k.keyframe(0).transforms() == &vec![linear(0.1), affine(0.3)]);
    assert!(k.keyframe(1).transforms() == &vec![linear(0.7), affine(0.6)]);
    assert_eq!(k.delete_from_all(2), Err(InvalidIndex));
    assert_eq!(k.delete_from_all(0), Ok(()));
    assert_eq!(k.delete_from_all(0), Err(InvalidIndex));
    assert!(k.keyframe(0).transforms() == &vec![affine(0.3)]);
    assert!(k.keyframe(1).transforms() == &vec![affine(0.6)]);
}

#[test]
fn set_transform_checks_range_and_kind() {
    let mut k = pair(vec![linear(0.1), julia(1.0)], vec![linear(0.7), julia(2.0)]);
    assert_eq!(k.set_transform(0, 1, julia(2.9)), Ok(()));
    assert!(k.keyframe(0).get(1) == julia(2.9));
    assert_eq!(k.set_transform(0, 1, linear(0.3)), Err(EditError::KindMismatch));
    assert_eq!(k.set_transform(0, 2, julia(0.3)), Err(EditError::OutOfRange));
    assert_eq!(k.set_transform(2, 0, linear(0.3)), Err(EditError::OutOfRange));
    assert!(k.keyframe(0).transforms() == &vec![linear(0.1), julia(2.9)]);
}

#[test]
fn replace_keyframes_with_and_without_target() {
    let mut k = pair(vec![linear(0.1)], vec![linear(0.7)]);
    let first = collection_of(vec![julia(1.0), affine(0.2)]);
    assert_eq!(k.replace_keyframes(&first, None), Ok(()));
    assert!(k.keyframe(1).transforms() == &vec![julia(1.0), affine(0.2)]);

    let target = collection_of(vec![julia(2.0), affine(0.9)]);
    let next = collection_of(vec![julia(0.5), affine(0.5)]);
    assert_eq!(k.replace_keyframes(&next, Some(&target)), Ok(()));
    assert!(k.keyframe(0).transforms() == &vec![julia(0.5), affine(0.5)]);
    assert!(k.keyframe(1).transforms() == &vec![julia(2.0), affine(0.9)]);

    let wrong = collection_of(vec![linear(0.5)]);
    assert_eq!(k.replace_keyframes(&wrong, Some(&target)), Err(Misaligned));
    assert!(k.keyframe(0).transforms() == &vec![julia(0.5), affine(0.5)]);
}

#[test]
fn randomize_keeps_kinds_and_other_keyframes() {
    let mut k = pair(vec![linear(0.1), julia(1.0), affine(0.3)], vec![linear(0.7), julia(2.0), affine(0.6)]);
    let drawn = k.randomize_keyframe(0);
    assert_eq!(k.len(), 3);
    assert!(k.keyframe(0).transforms() == &drawn);
    let names: Vec<String> = k.keyframe(0).transforms().iter().map(|t| t.get_name()).collect();
    assert_eq!(names, vec!["LinearTransform", "InverseJuliaTransform", "AffineTransform"]);
    assert!(k.keyframe(1).transforms() == &vec![linear(0.7), julia(2.0), affine(0.6)]);
}

#[test]
fn set_keyframe_needs_the_same_shape() {
    let mut k = pair(vec![linear(0.1), julia(1.0)], vec![linear(0.7), julia(2.0)]);
    assert_eq!(k.set_keyframe(1, vec![linear(0.5), julia(0.5)]), Ok(()));
    assert!(k.keyframe(1).transforms() == &vec![linear(0.5), julia(0.5)]);
    assert_eq!(k.set_keyframe(1, vec![julia(0.5), linear(0.5)]), Err(Misaligned));
    assert_eq!(k.set_keyframe(0, vec![linear(0.5)]), Err(Misaligned));
    assert_eq!(k.set_keyframe(2, vec![linear(0.5), julia(0.5)]), Err(Misaligned));
    assert!(k.keyframe(1).transforms() == &vec![linear(0.5), julia(0.5)]);
    assert!(k.keyframe(0).transforms() == &vec![linear(0.1), julia(1.0)]);
}

#[test]
fn pair_takes_two_frames_between_keyframes() {
    let k = KeyframeCoordinator::pair(collection_of(vec![linear(0.1)]), collection_of(vec![linear(0.2)])).expect("aligned");
    assert_eq!(k.step_counts(), &vec![2]);
    assert_eq!(k.keyframe_count(), 2);
    let bad = KeyframeCoordinator::pair(collection_of(vec![linear(0.1)]), collection_of(vec![julia(0.2)]));
    assert!(matches!(bad, Err(Misaligned)));
}

#[test]
fn initial_settings() {
    assert_eq!(
        RenderSettings::initial(),
        RenderSettings { width: 1024, height: 1024, num_points: 1000, num_iterations: 1000 }
    );
}
