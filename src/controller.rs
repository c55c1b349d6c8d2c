//! The per-tick controller: it applies a loaded configuration, the settings
//! sliders, the transform edit widgets and the structural actions to the
//! keyframes, and decides whether the raster is to be rendered again, at most
//! once per tick.
use vstd::prelude::*;
use barnsley::transform::Transform;
use crate::collection::{TransformCollection, deletable};
use crate::config::{
    ConfigMailbox, ConfigModel, ConfigRecord, config_json, config_to_json,
    parse_config, parsed_config,
};
use crate::dirty::{DirtyFlags, WidgetReport, any_changed, last_delete};
use crate::keyframes::{
    KeyframeCoordinator, Misaligned, aligned, push_to_all, reloaded,
    remove_from_all, same_shape,
};
use crate::settings::{RenderSettings, SliderChange, slid, slid_all};
use crate::transforms::transform_name;

verus! {

/// Why a configuration was not loaded. The state stays as it was.
#[derive(Debug, Clone, Copy, PartialEq, Eq, Structural)]
pub enum LoadError {
    /// The text is not a configuration.
    Parse,
    /// The configuration holds no transform.
    NoTransforms,
}

/// What the user did during one tick, gathered by the interface.
pub struct TickInput {
    /// The settings slider changes, in order.
    pub slider_changes: Vec<SliderChange>,
    /// One report per transform of the first keyframe, in traversal order.
    pub reports: Vec<WidgetReport>,
    /// Whether "randomize" was pressed.
    pub randomize: bool,
    /// The transform to append to every keyframe, where "add" was pressed.
    pub add: Option<Transform>,
}

/// What a tick decided.
pub struct TickOutcome {
    /// The settings to render the keyframes with, where a render is due.
    pub render: Option<RenderSettings>,
    /// Whether a transform was deleted from every keyframe.
    pub deleted: bool,
    /// The transforms drawn for the first keyframe, where it was randomized.
    pub drawn: Option<Vec<Transform>>,
}

/// The editor's state: the keyframes, the render settings, the output path,
/// the dirty flags, and the choice of what the keyframes after the first
/// become when a configuration is loaded.
pub struct MyApp {
    keyframes: KeyframeCoordinator,
    settings: RenderSettings,
    output_path: String,
    flags: DirtyFlags,
    load_target: Option<TransformCollection>,
}

/// The render settings that a configuration gives.
pub open spec fn settings_of(m: ConfigModel) -> RenderSettings {
    RenderSettings {
        width: m.width as usize,
        height: m.height as usize,
        num_points: m.num_points as usize,
        num_iterations: m.num_iterations as usize,
    }
}

/// Whether loading `m` succeeds: it does where `m` holds a transform.
pub open spec fn config_outcome(m: ConfigModel) -> Result<(), LoadError> {
    if m.transforms.len() == 0 {
        Err(LoadError::NoTransforms)
    } else {
        Ok(())
    }
}

/// Whether loading the text `text` succeeds.
pub open spec fn text_outcome(text: Seq<char>) -> Result<(), LoadError> {
    match parsed_config(text) {
        Some(m) => config_outcome(m),
        None => Err(LoadError::Parse),
    }
}

/// What the keyframes after the first become when `first` is loaded: the load
/// target where it has the shape of `first`; otherwise copies of `first`
/// (`None`), so that the keyframes stay aligned.
pub open spec fn target_for(first: Seq<Transform>, target: Option<Seq<Transform>>) -> Option<Seq<Transform>> {
    match target {
        Some(t) => if same_shape(t, first) {
            Some(t)
        } else {
            None
        },
        None => None,
    }
}

/// The first keyframe after the edits that the reports `rs` carry: where a
/// report says its transform changed, and the edited transform is of the
/// same kind, it takes that transform's place.
pub open spec fn edited(ks: Seq<Seq<Transform>>, rs: Seq<WidgetReport>) -> Seq<Seq<Transform>> {
    ks.update(
        0,
        Seq::new(
            ks[0].len(),
            |j: int|
                if j < rs.len() && rs[j].changed && transform_name(rs[j].value) == transform_name(
                    ks[0][j],
                ) {
                    rs[j].value
                } else {
                    ks[0][j]
                },
        ),
    )
}

/// The keyframes `ks`, with `add` appended to every keyframe where it is some.
pub open spec fn with_added(ks: Seq<Seq<Transform>>, add: Option<Transform>) -> Seq<Seq<Transform>> {
    match add {
        Some(t) => push_to_all(ks, t),
        None => ks,
    }
}

impl MyApp {
    pub closed spec fn frames(&self) -> Seq<Seq<Transform>> {
        self.keyframes@
    }

    pub closed spec fn step_seq(&self) -> Seq<usize> {
        self.keyframes.steps()
    }

    pub closed spec fn render_settings(&self) -> RenderSettings {
        self.settings
    }

    pub closed spec fn path(&self) -> Seq<char> {
        self.output_path@
    }

    pub closed spec fn dirty(&self) -> DirtyFlags {
        self.flags
    }

    pub closed spec fn target(&self) -> Option<Seq<Transform>> {
        match self.load_target {
            Some(t) => Some(t@),
            None => None,
        }
    }

    pub open spec fn wf(&self) -> bool {
        &&& aligned(self.frames())
        &&& self.step_seq().len() + 1 == self.frames().len()
    }

    /// Loading the configuration `m` took `before` to `after`.
    pub open spec fn loaded(before: MyApp, after: MyApp, m: ConfigModel) -> bool {
        &&& after.frames() == reloaded(
            before.frames().len(),
            m.transforms,
            target_for(m.transforms, before.target()),
        )
        &&& after.render_settings() == settings_of(m)
        &&& after.path() == m.path
        &&& after.dirty() == (DirtyFlags { needs_render: true, ..before.dirty() })
        &&& after.target() == before.target()
        &&& after.step_seq() == before.step_seq()
    }

    /// Loading the text `text` took `before` to `after`, with result `r`.
    pub open spec fn loaded_text(before: MyApp, after: MyApp, text: Seq<char>, r: Result<(), LoadError>) -> bool {
        &&& r == text_outcome(text)
        &&& (r is Ok ==> MyApp::loaded(before, after, parsed_config(text)->Some_0))
        &&& (r is Err ==> after == before)
    }

    /// Draining a mailbox that held `slot` took `before` to `after`, with
    /// result `r`.
    pub open spec fn drained(
        before: MyApp,
        after: MyApp,
        slot: Option<Seq<char>>,
        r: Option<Result<(), LoadError>>,
    ) -> bool {
        match slot {
            None => r is None && after == before,
            Some(text) => r matches Some(res) && MyApp::loaded_text(before, after, text, res),
        }
    }

    /// One tick with input `input` took `before` to `after`, with outcome `r`.
    pub open spec fn ticked(before: MyApp, after: MyApp, input: TickInput, r: TickOutcome) -> bool {
        let rs = input.reports@;
        let ks0 = edited(before.frames(), rs);
        let ksr = if input.randomize {
            ks0.update(0, r.drawn->Some_0@)
        } else {
            ks0
        };
        let ks1 = with_added(ksr, input.add);
        let pending = last_delete(rs, None);
        let expected = if r.deleted {
            remove_from_all(ks1, pending->Some_0 as int)
        } else {
            ks1
        };
        &&& (r.drawn is Some <==> input.randomize)
        &&& (r.drawn matches Some(d) ==> same_shape(d@, ks0[0]))
        &&& r.deleted == (pending matches Some(i) && deletable(ks1[0], i as int))
        &&& after.frames() == expected
        &&& after.render_settings() == slid_all(before.render_settings(), input.slider_changes@)
        &&& after.dirty() == (DirtyFlags { needs_render: false, delete_pending: None })
        &&& (r.render is Some <==> {
            ||| before.dirty().needs_render
            ||| input.slider_changes@.len() > 0
            ||| any_changed(rs)
            ||| input.randomize
            ||| input.add is Some
            ||| r.deleted
        })
        &&& (r.render matches Some(s) ==> s == after.render_settings())
        &&& after.target() == before.target()
        &&& after.path() == before.path()
        &&& after.step_seq() == before.step_seq()
    }

    /// An editor over `keyframes`, due to render on its first tick. Where
    /// `load_target` is some, a loaded configuration replaces the first
    /// keyframe and every other keyframe becomes `load_target`; where it is
    /// none, every keyframe becomes the loaded collection.
    pub fn new(
        keyframes: KeyframeCoordinator,
        settings: RenderSettings,
        output_path: String,
        load_target: Option<TransformCollection>,
    ) -> (r: MyApp)
        requires
            keyframes.wf(),
        ensures
            r.wf(),
            r.frames() == keyframes@,
            r.step_seq() == keyframes.steps(),
            r.render_settings() == settings,
            r.path() == output_path@,
            r.dirty() == (DirtyFlags { needs_render: true, delete_pending: None }),
            r.target() == (match load_target {
                Some(t) => Some(t@),
                None => None::<Seq<Transform>>,
            }),
    {
        MyApp {
            keyframes,
            settings,
            output_path,
            flags: DirtyFlags { needs_render: true, delete_pending: None },
            load_target,
        }
    }

    pub fn keyframes(&self) -> (r: &KeyframeCoordinator)
        ensures
            r@ == self.frames(),
            r.steps() == self.step_seq(),
    {
        &self.keyframes
    }

    pub fn settings(&self) -> (r: RenderSettings)
        ensures
            r == self.render_settings(),
    {
        self.settings
    }

    pub fn output_path(&self) -> (r: &String)
        ensures
            r@ == self.path(),
    {
        &self.output_path
    }

    pub fn flags(&self) -> (r: DirtyFlags)
        ensures
            r == self.dirty(),
    {
        self.flags
    }

    /// Loads the configuration `record`: the first keyframe becomes its
    /// transforms; the others become the load target where it has their
    /// shape, and copies of the first otherwise; the settings and output path
    /// become its own, and a render is due. Fails, changing nothing, where it
    /// holds no transform.
    pub fn apply_config(&mut self, record: ConfigRecord) -> (r: Result<(), LoadError>)
        requires
            old(self).wf(),
        ensures
            final(self).wf(),
            r is Ok <==> record@.transforms.len() > 0,
            r == config_outcome(record@),
            r is Ok ==> MyApp::loaded(*old(self), *final(self), record@),
            r is Err ==> *final(self) == *old(self),
    {
        let ghost m = record@;
        let first = match TransformCollection::from_vec(record.transforms) {
            Some(c) => c,
            None => {
                return Err(LoadError::NoTransforms);
            },
        };
        let to_target = match &self.load_target {
            Some(t) => self.keyframes.replace_keyframes(&first, Some(t)),
            None => Err(Misaligned),
        };
        match to_target {
            Ok(()) => {},
            Err(_) => {
                let _ = self.keyframes.replace_keyframes(&first, None);
            },
        }
        self.settings = RenderSettings {
            width: record.width as usize,
            height: record.height as usize,
            num_points: record.num_points as usize,
            num_iterations: record.num_iterations as usize,
        };
        self.output_path = record.path;
        self.flags.needs_render = true;
        Ok(())
    }

    /// Loads the configuration that `text` holds in JSON; see `apply_config`.
    pub fn load_config_text(&mut self, text: &str) -> (r: Result<(), LoadError>)
        requires
            old(self).wf(),
        ensures
            final(self).wf(),
            MyApp::loaded_text(*old(self), *final(self), text@, r),
    {
        match parse_config(text) {
            Ok(record) => self.apply_config(record),
            Err(_) => Err(LoadError::Parse),
        }
    }

    /// Takes the text out of `mailbox`, if any, and loads it; never waits.
    pub fn drain(&mut self, mailbox: &mut ConfigMailbox) -> (r: Option<Result<(), LoadError>>)
        requires
            old(self).wf(),
        ensures
            final(self).wf(),
            final(mailbox)@ is None,
            MyApp::drained(*old(self), *final(self), old(mailbox)@, r),
    {
        match mailbox.try_take() {
            Some(text) => Some(self.load_config_text(text.as_str())),
            None => None,
        }
    }

    /// The record that saving the current state writes.
    pub open spec fn record(&self) -> ConfigModel {
        ConfigModel {
            width: self.render_settings().width as u32,
            height: self.render_settings().height as u32,
            path: self.path(),
            num_iterations: self.render_settings().num_iterations as u32,
            num_points: self.render_settings().num_points as u32,
            transforms: self.frames()[0],
        }
    }

    /// The JSON text of the current settings, output path and first keyframe.
    pub fn config_payload(&self) -> (r: String)
        requires
            self.wf(),
        ensures
            r@ == config_json(self.record()),
    {
        let record = ConfigRecord {
            width: self.settings.width as u32,
            height: self.settings.height as u32,
            path: self.output_path.clone(),
            num_iterations: self.settings.num_iterations as u32,
            num_points: self.settings.num_points as u32,
            transforms: crate::collection::copy_transforms(self.keyframes.keyframe(0).transforms()),
        };
        config_to_json(&record)
    }

    /// One tick after the configuration mailbox has been drained: applies the
    /// slider changes and the widget edits, folds the widget reports into the
    /// dirty flags, then randomizes the first keyframe, appends a transform to
    /// every keyframe and deletes the transform last asked for, as requested,
    /// and finally says whether to render, with which settings. The flags are
    /// clear afterwards.
    pub fn tick(&mut self, input: &TickInput) -> (r: TickOutcome)
        requires
            old(self).wf(),
        ensures
            final(self).wf(),
            MyApp::ticked(*old(self), *final(self), *input, r),
    {
        self.flags.delete_pending = None;
        self.settings.apply_all(&input.slider_changes);
        if input.slider_changes.len() > 0 {
            self.flags.needs_render = true;
        }
        self.flags.absorb(&input.reports);
        self.apply_edits(&input.reports);
        let ghost after_edits = self.keyframes@;
        let drawn = if input.randomize {
            self.flags.needs_render = true;
            Some(self.keyframes.randomize_keyframe(0))
        } else {
            None
        };
        let ghost after_random = self.keyframes@;
        match input.add {
            Some(t) => {
                self.keyframes.add_to_all(t);
                self.flags.needs_render = true;
            },
            None => {},
        }
        let mut deleted = false;
        match self.flags.delete_pending {
            Some(i) => {
                match self.keyframes.delete_from_all(i) {
                    Ok(()) => {
                        deleted = true;
                        self.flags.needs_render = true;
                    },
                    Err(_) => {},
                }
            },
            None => {},
        }
        self.flags.delete_pending = None;
        let render = if self.flags.needs_render {
            self.flags.needs_render = false;
            Some(self.settings)
        } else {
            None
        };
        TickOutcome { render, deleted, drawn }
    }

    /// Applies the edits that the reports carry to the first keyframe.
    fn apply_edits(&mut self, reports: &Vec<WidgetReport>)
        requires
            old(self).wf(),
        ensures
            final(self).wf(),
            final(self).frames() == edited(old(self).frames(), reports@),
            final(self).step_seq() == old(self).step_seq(),
            final(self).settings == old(self).settings,
            final(self).output_path == old(self).output_path,
            final(self).flags == old(self).flags,
            final(self).load_target == old(self).load_target,
    {
        let ghost ks = self.keyframes@;
        let ghost rs = reports@;
        let n = self.keyframes.len();
        assert(edited_upto(ks, rs, 0) =~= ks[0]);
        assert(ks.update(0, edited_upto(ks, rs, 0)) =~= ks);
        let mut j: usize = 0;
        while j < n
            invariant
                j <= n,
                n == ks[0].len(),
                ks.len() >= 1,
                rs == reports@,
                self.wf(),
                self.keyframes.steps() == old(self).keyframes.steps(),
                self.settings == old(self).settings,
                self.output_path == old(self).output_path,
                self.flags == old(self).flags,
                self.load_target == old(self).load_target,
                self.keyframes@ == ks.update(0, edited_upto(ks, rs, j as int)),
            decreases n - j,
        {
            let ghost before = self.keyframes@;
            assert(before[0][j as int] == ks[0][j as int]);
            if j < reports.len() && reports[j].changed {
                let res = self.keyframes.set_transform(0, j, reports[j].value);
                assert(res is Ok <==> transform_name(rs[j as int].value) == transform_name(ks[0][j as int]));
            }
            proof {
                let cur = self.keyframes@;
                let want = ks.update(0, edited_upto(ks, rs, j + 1));
                assert(cur[0] =~= want[0]);
                assert(cur =~= want);
            }
            j = j + 1;
        }
        assert(edited_upto(ks, rs, n as int) =~= edited(ks, rs)[0]);
        assert(self.keyframes@ =~= edited(ks, rs));
    }
}

/// The first keyframe of `ks` with the edits of the reports before index
/// `upto` applied.
spec fn edited_upto(ks: Seq<Seq<Transform>>, rs: Seq<WidgetReport>, upto: int) -> Seq<Transform> {
    Seq::new(
        ks[0].len(),
        |i: int|
            if i < upto && i < rs.len() && rs[i].changed && transform_name(rs[i].value)
                == transform_name(ks[0][i]) {
                rs[i].value
            } else {
                ks[0][i]
            },
    )
}

/// A tick whose input holds a single settings-slider change asks for exactly
/// one render, with the changed settings, and leaves no render due.
pub proof fn lemma_slider_change_renders_once(
    before: MyApp,
    after: MyApp,
    input: TickInput,
    r: TickOutcome,
)
    requires
        before.wf(),
        input.slider_changes@.len() == 1,
        MyApp::ticked(before, after, input, r),
    ensures
        r.render == Some(after.render_settings()),
        after.render_settings() == slid(before.render_settings(), input.slider_changes@[0]),
        !after.dirty().needs_render,
{
    let cs = input.slider_changes@;
    assert(cs.drop_last().len() == 0);
    assert(slid_all(before.render_settings(), cs.drop_last()) == before.render_settings());
}

/// The widget signals of a tick are combined by logical or: one report that
/// says its transform changed is enough for the tick to render, whatever the
/// other reports say.
pub proof fn lemma_any_changed_report_renders(
    before: MyApp,
    after: MyApp,
    input: TickInput,
    r: TickOutcome,
    j: int,
)
    requires
        before.wf(),
        0 <= j < input.reports@.len(),
        input.reports@[j].changed,
        MyApp::ticked(before, after, input, r),
    ensures
        r.render is Some,
{
    assert(any_changed(input.reports@));
}

/// Once a configuration text that parses and holds transforms is in the
/// mailbox, the next drain loads it: the first keyframe
/// becomes the loaded transforms and a render is due.
pub proof fn lemma_sent_config_loaded_on_drain(
    before: MyApp,
    after: MyApp,
    slot: Option<Seq<char>>,
    text: Seq<char>,
    m: ConfigModel,
    r: Option<Result<(), LoadError>>,
)
    requires
        before.wf(),
        slot == Some(text),
        parsed_config(text) == Some(m),
        m.transforms.len() > 0,
        MyApp::drained(before, after, slot, r),
    ensures
        r == Some(Ok::<(), LoadError>(())),
        after.frames()[0] == m.transforms,
        after.dirty().needs_render,
{
}

/// A tick that only appends `v` (no widget report, no randomize; slider
/// changes are allowed) appends `v` to every keyframe.
pub proof fn lemma_add_only_tick(before: MyApp, after: MyApp, input: TickInput, r: TickOutcome, v: Transform)
    requires
        before.frames().len() >= 1,
        input.reports@.len() == 0,
        !input.randomize,
        input.add == Some(v),
        MyApp::ticked(before, after, input, r),
    ensures
        after.frames() == push_to_all(before.frames(), v),
{
    let ks = before.frames();
    assert(edited(ks, input.reports@)[0] =~= ks[0]);
    assert(edited(ks, input.reports@) =~= ks);
    assert(last_delete(input.reports@, None) is None);
}

/// Starting from aligned keyframes of `L` transforms each, `N` ticks in a row
/// that each only append one transform leave every keyframe as it was
/// followed by the appended transforms, in order: `L + N` transforms each.
pub proof fn lemma_add_only_ticks(states: Seq<MyApp>, inputs: Seq<TickInput>, outcomes: Seq<TickOutcome>)
    requires
        states.len() == inputs.len() + 1,
        outcomes.len() == inputs.len(),
        states[0].wf(),
        forall|n: int|
            0 <= n < inputs.len() ==> {
                &&& (#[trigger] inputs[n]).reports@.len() == 0
                &&& !inputs[n].randomize
                &&& inputs[n].add is Some
                &&& MyApp::ticked(states[n], states[n + 1], inputs[n], outcomes[n])
            },
    ensures
        states.last().frames().len() == states[0].frames().len(),
        forall|k: int|
            0 <= k < states[0].frames().len() ==> #[trigger] states.last().frames()[k] == states[0].frames()[k]
                + Seq::new(inputs.len(), |n: int| inputs[n].add->Some_0),
        forall|k: int|
            0 <= k < states[0].frames().len() ==> #[trigger] states.last().frames()[k].len()
                == states[0].frames()[0].len() + inputs.len(),
    decreases inputs.len(),
{
    let first = states[0].frames();
    assert(same_shape(first[0], first[0]));
    if inputs.len() == 0 {
        assert forall|k: int| 0 <= k < first.len() implies #[trigger] states.last().frames()[k] == first[k]
            + Seq::new(inputs.len(), |n: int| inputs[n].add->Some_0) by {
            assert(first[k] + Seq::new(inputs.len(), |n: int| inputs[n].add->Some_0) =~= first[k]);
        }
        assert forall|k: int| 0 <= k < first.len() implies #[trigger] states.last().frames()[k].len()
            == first[0].len() + inputs.len() by {
            assert(same_shape(first[k], first[0]));
        }
    } else {
        let n = inputs.len() - 1;
        let prefix = states.drop_last();
        let pins = inputs.drop_last();
        let pouts = outcomes.drop_last();
        assert forall|m: int| 0 <= m < pins.len() implies {
            &&& (#[trigger] pins[m]).reports@.len() == 0
            &&& !pins[m].randomize
            &&& pins[m].add is Some
            &&& MyApp::ticked(prefix[m], prefix[m + 1], pins[m], pouts[m])
        } by {
            assert(inputs[m] == pins[m]);
        }
        lemma_add_only_ticks(prefix, pins, pouts);
        let mid = states[n].frames();
        assert(prefix.last() == states[n]);
        assert(inputs[n].reports@.len() == 0);
        let v = inputs[n].add->Some_0;
        lemma_add_only_tick(states[n], states[n + 1], inputs[n], outcomes[n], v);
        assert(states.last() == states[n + 1]);
        let added = Seq::new(inputs.len(), |m: int| inputs[m].add->Some_0);
        let padded = Seq::new(pins.len(), |m: int| pins[m].add->Some_0);
        assert(added =~= padded.push(v));
        assert forall|k: int| 0 <= k < first.len() implies #[trigger] states.last().frames()[k] == first[k]
            + added by {
            assert(mid[k] == first[k] + padded);
            assert(states.last().frames()[k] == mid[k].push(v));
            assert(first[k] + added =~= (first[k] + padded).push(v));
        }
        assert forall|k: int| 0 <= k < first.len() implies #[trigger] states.last().frames()[k].len()
            == first[0].len() + inputs.len() by {
            assert(mid[k].len() == first[0].len() + pins.len());
            assert(states.last().frames()[k] == mid[k].push(v));
        }
    }
}

} // verus!
