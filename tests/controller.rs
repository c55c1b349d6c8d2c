use barnsley::transform::{AffineTransform, InverseJuliaTransform, LinearTransform, Transform, Transformable};
use barnsley::util::Color;
use ifs_editor::collection::TransformCollection;
use ifs_editor::controller::{MyApp, TickInput, TickOutcome};
use ifs_editor::dirty::{DirtyFlags, WidgetReport};
use ifs_editor::keyframes::KeyframeCoordinator;
use ifs_editor::settings::{RenderSettings, SliderChange};

fn color(r: f32, g: f32, b: f32) -> Color {
    Color { r, g, b }
}

fn linear(a: f32) -> Transform {
    Transform::LinearTransform(LinearTransform::new(a, 0.5, -0.5, 0.25, color(0.1, 0.2, 0.3), 1.0))
}

fn julia(r: f32) -> Transform {
    Transform::InverseJuliaTransform(InverseJuliaTransform::new(r, 1.5, color(0.4, 0.5, 0.6), 0.75))
}

fn affine(a: f32) -> Transform {
    Transform::AffineTransform(AffineTransform::new(a, 0.1, 0.2, 0.3, 0.4, 0.5, color(0.7, 0.8, 0.9), 2.0))
}

fn collection_of(ts: Vec<Transform>) -> TransformCollection {
    TransformCollection::from_vec(ts).expect("non-empty")
}

fn settings() -> RenderSettings {
    RenderSettings { width: 1024, height: 1024, num_points: 1000, num_iterations: 1000 }
}

fn editor(first: Vec<Transform>, second: Vec<Transform>) -> MyApp {
    let k = KeyframeCoordinator::new(vec![collection_of(first), collection_of(second)], vec![2]).expect("aligned");
    MyApp::new(k, settings(), "empty.png".to_string(), None)
}

fn decided(outcome: &TickOutcome, render: Option<RenderSettings>, deleted: bool) {
    assert_eq!(outcome.render, render);
    assert_eq!(outcome.deleted, deleted);
}

fn quiet() -> TickInput {
    TickInput { slider_changes: vec![], reports: vec![], randomize: false, add: None }
}

fn report(changed: bool, delete_requested: bool, value: Transform) -> WidgetReport {
    WidgetReport { changed, delete_requested, value }
}

/// An editor whose first, forced render has already happened.
fn settled(first: Vec<Transform>, second: Vec<Transform>) -> MyApp {
    let mut app = editor(first, second);
    assert!(app.flags().needs_render);
    let first_tick = app.tick(&quiet());
    assert_eq!(first_tick.render, Some(settings()));
    app
}

#[test]
fn quiet_tick_does_not_render() {
    let mut app = settled(vec![linear(0.1)], vec![linear(0.2)]);
    decided(&app.tick(&quiet()), None, false);
}

#[test]
fn single_slider_change_renders_once() {
    let mut app = settled(vec![linear(0.1)], vec![linear(0.2)]);
    let mut input = quiet();
    input.slider_changes.push(SliderChange::Width(300));
    let outcome = app.tick(&input);
    let expected = RenderSettings { width: 300, ..settings() };
    decided(&outcome, Some(expected), false);
    assert!(outcome.drawn.is_none());
    assert_eq!(app.flags(), DirtyFlags { needs_render: false, delete_pending: None });
    assert_eq!(app.tick(&quiet()).render, None);
}

#[test]
fn one_changed_signal_of_two_renders() {
    let mut app = settled(vec![linear(0.1), julia(1.0)], vec![linear(0.2), julia(2.0)]);
    let mut input = quiet();
    input.reports = vec![report(false, false, linear(0.1)), report(true, false, julia(1.25))];
    let outcome = app.tick(&input);
    assert!(outcome.render.is_some());
    assert!(app.keyframes().keyframe(0).transforms() == &vec![linear(0.1), julia(1.25)]);
    assert!(app.keyframes().keyframe(1).transforms() == &vec![linear(0.2), julia(2.0)]);

    let mut both = quiet();
    both.reports = vec![report(true, false, linear(0.3)), report(true, false, julia(1.5))];
    assert!(app.tick(&both).render.is_some());
    assert!(app.keyframes().keyframe(0).transforms() == &vec![linear(0.3), julia(1.5)]);
}

#[test]
fn edit_of_other_kind_is_not_applied_but_renders() {
    let mut app = settled(vec![linear(0.1), julia(1.0)], vec![linear(0.2), julia(2.0)]);
    let mut input = quiet();
    input.reports = vec![report(true, false, affine(0.5)), report(false, false, julia(9.0))];
    assert!(app.tick(&input).render.is_some());
    assert!(app.keyframes().keyframe(0).transforms() == &vec![linear(0.1), julia(1.0)]);
}

#[test]
fn delete_request_removes_from_every_keyframe() {
    let (x, y, z) = (linear(0.1), julia(1.0), affine(0.3));
    let mut app = settled(vec![x, y, z], vec![linear(0.2), julia(2.0), affine(0.6)]);
    let mut input = quiet();
    input.reports = vec![report(false, false, x), report(false, true, y), report(false, false, z)];
    let outcome = app.tick(&input);
    decided(&outcome, Some(settings()), true);
    assert!(app.keyframes().keyframe(0).transforms() == &vec![x, z]);
    assert!(app.keyframes().keyframe(1).transforms() == &vec![linear(0.2), affine(0.6)]);
}

#[test]
fn delete_of_last_transform_is_ignored_without_render() {
    let mut app = settled(vec![linear(0.1)], vec![linear(0.2)]);
    let mut input = quiet();
    input.reports = vec![report(false, true, linear(0.1))];
    decided(&app.tick(&input), None, false);
    assert_eq!(app.keyframes().len(), 1);
    assert_eq!(app.flags(), DirtyFlags::clean());
}

#[test]
fn add_appends_to_every_keyframe_and_renders() {
    let mut app = settled(vec![linear(0.1)], vec![linear(0.2)]);
    let mut input = quiet();
    input.add = Some(affine(0.4));
    assert_eq!(app.tick(&input).render, Some(settings()));
    assert!(app.keyframes().keyframe(0).transforms() == &vec![linear(0.1), affine(0.4)]);
    assert!(app.keyframes().keyframe(1).transforms() == &vec![linear(0.2), affine(0.4)]);
}

#[test]
fn randomize_redraws_first_keyframe_only() {
    let mut app = settled(vec![linear(0.1), julia(1.0)], vec![linear(0.2), julia(2.0)]);
    let mut input = quiet();
    input.randomize = true;
    let outcome = app.tick(&input);
    assert!(outcome.render.is_some());
    let drawn = outcome.drawn.expect("randomized");
    assert!(app.keyframes().keyframe(0).transforms() == &drawn);
    let names: Vec<String> = app.keyframes().keyframe(0).transforms().iter().map(|t| t.get_name()).collect();
    assert_eq!(names, vec!["LinearTransform", "InverseJuliaTransform"]);
    assert!(app.keyframes().keyframe(1).transforms() == &vec![linear(0.2), julia(2.0)]);
}

#[test]
fn everything_in_one_tick_renders_once() {
    let mut app = settled(vec![linear(0.1), julia(1.0)], vec![linear(0.2), julia(2.0)]);
    let input = TickInput {
        slider_changes: vec![SliderChange::Points(5), SliderChange::Iterations(6)],
        reports: vec![report(true, true, linear(0.5)), report(false, false, julia(1.0))],
        randomize: false,
        add: Some(affine(0.7)),
    };
    let outcome = app.tick(&input);
    let expected = RenderSettings { num_points: 5, num_iterations: 6, ..settings() };
    decided(&outcome, Some(expected), true);
    assert!(app.keyframes().keyframe(0).transforms() == &vec![julia(1.0), affine(0.7)]);
    assert!(app.keyframes().keyframe(1).transforms() == &vec![julia(2.0), affine(0.7)]);
    assert_eq!(app.tick(&quiet()).render, None);
}

#[test]
fn add_only_ticks_append_in_order() {
    let mut app = settled(vec![linear(0.1), julia(1.0)], vec![linear(0.2), julia(2.0)]);
    let added = vec![affine(0.1), julia(0.3), linear(0.5)];
    for t in &added {
        let mut input = quiet();
        input.add = Some(*t);
        let outcome = app.tick(&input);
        decided(&outcome, Some(settings()), false);
    }
    assert_eq!(app.keyframes().len(), 5);
    let mut first = vec![linear(0.1), julia(1.0)];
    first.extend(added.iter().copied());
    let mut second = vec![linear(0.2), julia(2.0)];
    second.extend(added.iter().copied());
    assert!(app.keyframes().keyframe(0).transforms() == &first);
    assert!(app.keyframes().keyframe(1).transforms() == &second);
}

#[test]
fn randomize_then_add_and_delete_in_one_tick() {
    let mut app = settled(vec![linear(0.1), julia(1.0)], vec![linear(0.2), julia(2.0)]);
    let input = TickInput {
        slider_changes: vec![],
        reports: vec![report(false, true, linear(0.1)), report(false, false, julia(1.0))],
        randomize: true,
        add: Some(affine(0.7)),
    };
    let outcome = app.tick(&input);
    decided(&outcome, Some(settings()), true);
    let drawn = outcome.drawn.expect("randomized");
    assert_eq!(drawn.len(), 2);
    assert!(app.keyframes().keyframe(0).transforms() == &vec![drawn[1], affine(0.7)]);
    assert!(app.keyframes().keyframe(1).transforms() == &vec![julia(2.0), affine(0.7)]);
}
