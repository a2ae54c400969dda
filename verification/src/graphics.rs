//! The graphics orchestrator: owns the scene pool and the transition engine,
//! and exposes one `draw` call per tick. It rotates to the next eligible
//! scene on each fixed period boundary, animates a pixel migration between
//! the outgoing and incoming scene, and otherwise renders the active scene.

use vstd::prelude::*;
use crate::bitmap::{Bitmap, GRID_CELLS, GRID_WIDTH, on_grid, cell_index, deraster};
use crate::font::BlitOp;
use crate::geom::Vec2;
use crate::info::{Info, SpectrumResult};
use crate::scene::{
    SceneAmplitude, SceneKind, SceneMedia, SceneSpectrum, SceneTime, column_lit, media_blits,
    scene_condition, spec_scene_condition, time_bars_lit, time_blits,
};
use crate::transition::{all_settled, create_transition, advance_plan, step_pair, transition_plan};

verus! {

/// Length of one scene rotation period, in milliseconds.
pub const SCENE_TIME: u64 = 20_000;

/// Render ticks per migration step: the transition advances only every
/// fourth frame, so the motion stays perceptible.
pub const TRANSITION_FRAMES: u64 = 4;

/// One of the four drawables, with whatever placement state it owns.
pub enum SceneDrawable {
    Time(SceneTime),
    Media(SceneMedia),
    Spectrum(SceneSpectrum),
    Amplitude(SceneAmplitude),
}

impl SceneDrawable {
    /// Which scene this drawable renders.
    pub open spec fn kind(&self) -> SceneKind {
        match self {
            SceneDrawable::Time(_) => SceneKind::Time,
            SceneDrawable::Media(_) => SceneKind::Media,
            SceneDrawable::Spectrum(_) => SceneKind::Spectrum,
            SceneDrawable::Amplitude(_) => SceneKind::Amplitude,
        }
    }

    pub open spec fn wf(&self) -> bool {
        match self {
            SceneDrawable::Time(t) => t.wf(),
            SceneDrawable::Media(m) => m.wf(),
            SceneDrawable::Spectrum(_) => true,
            SceneDrawable::Amplitude(_) => true,
        }
    }

    /// Which scene this drawable renders.
    pub fn get_kind(&self) -> (k: SceneKind)
        ensures
            k == self.kind(),
    {
        match self {
            SceneDrawable::Time(_) => SceneKind::Time,
            SceneDrawable::Media(_) => SceneKind::Media,
            SceneDrawable::Spectrum(_) => SceneKind::Spectrum,
            SceneDrawable::Amplitude(_) => SceneKind::Amplitude,
        }
    }
}

/// Whether the cell `(x, y)` is lit when `kind` renders with the given
/// snapshots. The media scene lights no direct pixels: its content is all
/// glyphs and sprites.
pub open spec fn scene_lit(
    kind: SceneKind,
    info: Info,
    spectrum: SpectrumResult,
    x: int,
    y: int,
) -> bool {
    match kind {
        SceneKind::Time => time_bars_lit(info.second as int, x, y),
        SceneKind::Media => false,
        SceneKind::Spectrum => column_lit(spectrum.spectrum@, x, y),
        SceneKind::Amplitude => column_lit(spectrum.amplitude@, x, y),
    }
}

/// The full surface contents when `kind` renders with the given snapshots.
pub open spec fn lit_grid(kind: SceneKind, info: Info, spectrum: SpectrumResult) -> Seq<bool> {
    Seq::new(GRID_CELLS as nat, |p: int| scene_lit(
        kind, info, spectrum, p % (GRID_WIDTH as int), p / (GRID_WIDTH as int),
    ))
}

/// The blit operations `kind` emits when rendering with the given snapshot
/// at scene time `time`.
pub open spec fn scene_blits(kind: SceneKind, info: Info, time: u64) -> Seq<BlitOp> {
    match kind {
        SceneKind::Time => time_blits(info.hour, info.minute),
        SceneKind::Media => media_blits(
            info.artist@, info.song@, info.elapsed, info.duration, info.state, time,
        ),
        SceneKind::Spectrum => Seq::empty(),
        SceneKind::Amplitude => Seq::empty(),
    }
}

/// One pool slot: a drawable and the persistent surface it renders into.
pub struct SceneContainer {
    pub scene: SceneDrawable,
    pub surface: Bitmap,
}

impl SceneContainer {
    pub open spec fn wf(&self) -> bool {
        self.scene.wf() && self.surface.wf()
    }

    pub fn new(scene: SceneDrawable, surface: Bitmap) -> (r: SceneContainer)
        ensures
            r.scene == scene,
            r.surface == surface,
    {
        SceneContainer { scene, surface }
    }

    /// Render this container's scene into its surface from a cleared state
    /// and return the scene's blits.
    pub fn render(&mut self, info: &Info, spectrum: &SpectrumResult, time: u64) -> (r: Vec<
        BlitOp,
    >)
        requires
            old(self).wf(),
            info.wf(),
            spectrum.wf(),
        ensures
            final(self).wf(),
            final(self).scene == old(self).scene,
            final(self).surface@ == lit_grid(old(self).scene.kind(), *info, *spectrum),
            r@ == scene_blits(old(self).scene.kind(), *info, time),
    {
        self.surface.clear();
        let blits: Vec<BlitOp> = match &self.scene {
            SceneDrawable::Time(t) => t.draw(&mut self.surface, info),
            SceneDrawable::Media(m) => m.draw(info, time),
            SceneDrawable::Spectrum(s) => {
                s.draw(&mut self.surface, spectrum);
                Vec::new()
            },
            SceneDrawable::Amplitude(a) => {
                a.draw(&mut self.surface, spectrum);
                Vec::new()
            },
        };
        proof {
            let kind = self.scene.kind();
            assert forall|p: int| 0 <= p < GRID_CELLS
                implies self.surface@[p] == lit_grid(kind, *info, *spectrum)[p] by {
                let x = p % (GRID_WIDTH as int);
                let y = p / (GRID_WIDTH as int);
                assert(on_grid(x, y));
                assert(cell_index(x, y) == p);
            }
            assert(self.surface@ =~= lit_grid(kind, *info, *spectrum));
        }
        blits
    }

    /// Render this container's scene once and read its lit pixels back, for
    /// the capture step of a scene switch.
    pub fn get_pixels_of_scene(
        &mut self,
        info: &Info,
        spectrum: &SpectrumResult,
        time: u64,
    ) -> (r: Vec<Vec2>)
        requires
            old(self).wf(),
            info.wf(),
            spectrum.wf(),
        ensures
            final(self).wf(),
            final(self).scene == old(self).scene,
            final(self).surface@ == lit_grid(old(self).scene.kind(), *info, *spectrum),
            r@ == rendered_pixels(old(self).scene.kind(), *info, *spectrum),
    {
        let _capture_blits = self.render(info, spectrum, time);
        self.surface.derasterize_pixels()
    }
}

/// The lit pixels of the scene a container last showed, for transition
/// capture: a just-rendered copy of its surface under the given snapshots.
pub open spec fn rendered_pixels(kind: SceneKind, info: Info, spectrum: SpectrumResult) -> Seq<
    Vec2,
> {
    deraster(lit_grid(kind, info, spectrum))
}

/// `(x, y)` is an origin point of some pair of the plan.
pub open spec fn plan_origin_lit(plan: Seq<(Vec2, Vec2)>, x: int, y: int) -> bool {
    exists|k: int| 0 <= k < plan.len()
        && (#[trigger] plan[k]).0 == (Vec2 { x: x as i32, y: y as i32 })
}

/// How the stored transition evolves on one animation tick: every
/// `TRANSITION_FRAMES`-th frame the plan advances one step — and is dropped
/// once nothing moved — and on other frames it stays as it is.
pub open spec fn transition_step_rel(
    plan: Seq<(Vec2, Vec2)>,
    post: Option<Vec<(Vec2, Vec2)>>,
    frames_in_transition: u64,
    time: u64,
) -> bool {
    if frames_in_transition % TRANSITION_FRAMES == 0 {
        if all_settled(plan) {
            post is None
        } else {
            post matches Some(q) && q@ == plan.map_values(
                |p: (Vec2, Vec2)| step_pair(p, time % 2 == 1),
            )
        }
    } else {
        post matches Some(q) && q@ == plan
    }
}

/// The scene/transition orchestrator's state.
pub struct Graphics {
    pub frames_in_transition: u64,
    pub time_in_scene: u64,
    pub time: u64,
    pub scenes: Vec<SceneContainer>,
    pub current_scene: Option<SceneContainer>,
    pub transition: Option<Vec<(Vec2, Vec2)>>,
}

impl Graphics {
    /// Some slot of the pool — counting the active scene — holds the clock,
    /// whose predicate is always true; rotation can therefore always find an
    /// eligible scene.
    pub open spec fn has_clock(&self) -> bool {
        (exists|i: int| 0 <= i < self.scenes@.len()
            && (#[trigger] self.scenes@[i]).scene.kind() == SceneKind::Time)
        || (self.current_scene matches Some(c) && c.scene.kind() == SceneKind::Time)
    }

    pub open spec fn wf(&self) -> bool {
        &&& forall|i: int| 0 <= i < self.scenes@.len() ==> (#[trigger] self.scenes@[i]).wf()
        &&& (self.current_scene matches Some(c) ==> c.wf())
        &&& self.time_in_scene <= self.time
        &&& self.has_clock()
    }

    /// A fresh orchestrator: the pool holds the clock, media, spectrum and
    /// amplitude scenes in that order, no scene active yet and no transition
    /// running.
    pub fn new(time: u64) -> (r: Graphics)
        ensures
            r.wf(),
            r.frames_in_transition == 0,
            r.time_in_scene == 0,
            r.time == time,
            r.current_scene is None,
            r.transition is None,
            r.scenes@.len() == 4,
            r.scenes@[0].scene.kind() == SceneKind::Time,
            r.scenes@[1].scene.kind() == SceneKind::Media,
            r.scenes@[2].scene.kind() == SceneKind::Spectrum,
            r.scenes@[3].scene.kind() == SceneKind::Amplitude,
            forall|i: int| 0 <= i < 4
                ==> forall|p: int| 0 <= p < GRID_CELLS ==> !(#[trigger] r.scenes@[i]).surface@[p],
    {
        let mut scenes: Vec<SceneContainer> = Vec::new();
        scenes.push(SceneContainer::new(SceneDrawable::Time(SceneTime::new()), Bitmap::new()));
        scenes.push(SceneContainer::new(SceneDrawable::Media(SceneMedia::new()), Bitmap::new()));
        scenes.push(SceneContainer::new(
            SceneDrawable::Spectrum(SceneSpectrum::new()),
            Bitmap::new(),
        ));
        scenes.push(SceneContainer::new(
            SceneDrawable::Amplitude(SceneAmplitude::new()),
            Bitmap::new(),
        ));
        Graphics {
            frames_in_transition: 0,
            time_in_scene: 0,
            time,
            scenes,
            transition: None,
            current_scene: None,
        }
    }

    /// Advance the running migration by one step, using the tick parity to
    /// pick which axis moves when both still differ; drop the plan once no
    /// pair moved.
    fn perform_transition(&mut self)
        requires
            old(self).wf(),
        ensures
            final(self).wf(),
            final(self).scenes == old(self).scenes,
            final(self).current_scene == old(self).current_scene,
            final(self).time == old(self).time,
            final(self).time_in_scene == old(self).time_in_scene,
            final(self).frames_in_transition == old(self).frames_in_transition,
            match old(self).transition {
                Option::None => final(self).transition is None,
                Option::Some(p) => if all_settled(p@) {
                    final(self).transition is None
                } else {
                    final(self).transition matches Some(q) && q@ == p@.map_values(
                        |pr: (Vec2, Vec2)| step_pair(pr, old(self).time % 2 == 1),
                    )
                },
            },
    {
        if self.transition.is_some() {
            let plan = self.transition.take().unwrap();
            let odd_tick = self.time % 2 == 1;
            let (new_plan, changed) = advance_plan(&plan, odd_tick);
            self.transition = if changed {
                Some(new_plan)
            } else {
                None
            };
        }
    }

    /// Draw one animation frame of the running migration: only the pairs'
    /// current origin points are lit. Every `TRANSITION_FRAMES`-th frame the
    /// plan then advances a step.
    fn draw_transition(&mut self, frame: &mut Bitmap)
        requires
            old(self).wf(),
            old(frame).wf(),
            old(self).transition is Some,
        ensures
            final(self).wf(),
            final(frame).wf(),
            final(self).scenes == old(self).scenes,
            final(self).current_scene == old(self).current_scene,
            final(self).time == old(self).time,
            final(self).time_in_scene == old(self).time_in_scene,
            final(self).frames_in_transition == old(self).frames_in_transition,
            forall|x: int, y: int| on_grid(x, y)
                ==> final(frame)@[#[trigger] cell_index(x, y)]
                    == plan_origin_lit(old(self).transition.unwrap()@, x, y),
            transition_step_rel(
                old(self).transition.unwrap()@,
                final(self).transition,
                old(self).frames_in_transition,
                old(self).time,
            ),
    {
        frame.clear();
        let mut origins: Vec<Vec2> = Vec::new();
        match &self.transition {
            Option::Some(plan) => {
                let mut i: usize = 0;
                while i < plan.len()
                    invariant
                        i <= plan@.len(),
                        origins@.len() == i,
                        forall|k: int| 0 <= k < i
                            ==> #[trigger] origins@[k] == plan@[k].0,
                    decreases plan@.len() - i,
                {
                    origins.push(plan[i].0);
                    i = i + 1;
                }
            },
            Option::None => {},
        }
        frame.draw_points(&origins);
        proof {
            let plan = self.transition.unwrap()@;
            assert forall|x: int, y: int| on_grid(x, y)
                implies frame@[#[trigger] cell_index(x, y)]
                    == plan_origin_lit(plan, x, y) by {
                let pt = Vec2 { x: x as i32, y: y as i32 };
                if frame@[cell_index(x, y)] {
                    let k0 = choose|k: int| 0 <= k < origins@.len() && origins@[k] == pt;
                    assert(plan[k0].0 == pt);
                } else {
                    if plan_origin_lit(plan, x, y) {
                        let k0 = choose|k: int| 0 <= k < plan.len()
                            && (#[trigger] plan[k]).0 == pt;
                        assert(origins@[k0] == pt);
                    }
                }
            }
        }
        if self.frames_in_transition % TRANSITION_FRAMES == 0 {
            self.perform_transition();
        }
    }
}

/// The (drawable, surface) pairs of a container sequence.
pub open spec fn container_entries(s: Seq<SceneContainer>) -> Seq<(SceneDrawable, Seq<bool>)> {
    Seq::new(s.len(), |i: int| (s[i].scene, s[i].surface@))
}

/// The rotation pool a scene switch scans: the outgoing scene — re-rendered
/// once to capture its final pixels — at the front, then the stored pool.
pub open spec fn pool_entries(pre: Graphics, info: Info, spectrum: SpectrumResult) -> Seq<
    (SceneDrawable, Seq<bool>),
> {
    match pre.current_scene {
        Option::Some(c) => seq![(c.scene, lit_grid(c.scene.kind(), info, spectrum))]
            + container_entries(pre.scenes@),
        Option::None => container_entries(pre.scenes@),
    }
}

/// How a scene switch transforms the orchestrator: scanning the pool from
/// the back, the first scene whose predicate holds becomes active with a
/// freshly rendered surface; every scene scanned over moves to the front in
/// order; and a migration plan is built from the outgoing scene's pixels (or
/// none) to the incoming scene's pixels.
/// `next_scene_rel` with the selected pool index `j` made explicit.
pub open spec fn next_scene_rel_at(
    pre: Graphics,
    post: Graphics,
    info: Info,
    spectrum: SpectrumResult,
    j: int,
) -> bool {
    let pool = pool_entries(pre, info, spectrum);
    let old_pixels = match pre.current_scene {
        Option::Some(c) => rendered_pixels(c.scene.kind(), info, spectrum),
        Option::None => Seq::<Vec2>::empty(),
    };
    &&& 0 <= j < pool.len()
    &&& spec_scene_condition(pool[j].0.kind(), info.state)
    &&& (forall|k: int| j < k < pool.len()
        ==> !spec_scene_condition((#[trigger] pool[k]).0.kind(), info.state))
    &&& (post.current_scene matches Some(c) && c.scene == pool[j].0
        && c.surface@ == lit_grid(pool[j].0.kind(), info, spectrum))
    &&& container_entries(post.scenes@)
        == pool.subrange(j + 1, pool.len() as int) + pool.subrange(0, j)
    &&& (post.transition matches Some(t) && t@ == transition_plan(
        old_pixels,
        rendered_pixels(pool[j].0.kind(), info, spectrum),
    ))
    &&& post.time == pre.time
    &&& post.time_in_scene == pre.time_in_scene
    &&& post.frames_in_transition == pre.frames_in_transition
}

pub open spec fn next_scene_rel(
    pre: Graphics,
    post: Graphics,
    info: Info,
    spectrum: SpectrumResult,
) -> bool {
    exists|j: int| #[trigger] next_scene_rel_at(pre, post, info, spectrum, j)
}

/// The pool never selects a scene whose predicate evaluates false: whatever
/// scene a switch activates satisfies its predicate under the snapshot the
/// switch saw.
pub proof fn lemma_selected_scene_eligible(
    pre: Graphics,
    post: Graphics,
    info: Info,
    spectrum: SpectrumResult,
)
    requires
        next_scene_rel(pre, post, info, spectrum),
    ensures
        post.current_scene matches Some(c)
            && spec_scene_condition(c.scene.kind(), info.state),
{
    let j = choose|j: int| #[trigger] next_scene_rel_at(pre, post, info, spectrum, j);
}

/// The clock scene's predicate holds in every playback state, so a pool that
/// holds the clock always finds an eligible scene.
pub proof fn lemma_clock_always_eligible(state: crate::info::PlaybackState)
    ensures
        spec_scene_condition(SceneKind::Time, state),
{
}

impl Graphics {
    /// Rotate the pool to the next eligible scene: the outgoing scene is
    /// re-rendered to capture its final pixel set and returned to the front
    /// of the pool; scenes whose predicates fail are scanned over, keeping
    /// their order; the first eligible scene from the back becomes active,
    /// and a migration plan from the outgoing pixels to the incoming pixels
    /// is installed.
    #[verifier::rlimit(60)]
    pub fn next_scene(&mut self, info: &Info, spectrum: &SpectrumResult)
        requires
            old(self).wf(),
            info.wf(),
            spectrum.wf(),
        ensures
            final(self).wf(),
            next_scene_rel(*old(self), *final(self), *info, *spectrum),
    {
        let ghost pre = *self;
        let old_pixels: Vec<Vec2>;
        if self.current_scene.is_some() {
            let mut container = self.current_scene.take().unwrap();
            old_pixels = container.get_pixels_of_scene(info, spectrum, self.time_in_scene);
            self.scenes.insert(0, container);
        } else {
            old_pixels = Vec::new();
        }
        proof {
            assert(container_entries(self.scenes@) =~= pool_entries(pre, *info, *spectrum));
        }
        let ghost s0 = self.scenes@;
        let ghost n = s0.len() as int;
        proof {
            assert(n >= 1);
            assert(exists|i: int| 0 <= i < n
                && (#[trigger] s0[i]).scene.kind() == SceneKind::Time) by {
                if pre.current_scene is Some {
                    match pre.current_scene {
                        Option::Some(c) => {
                            if c.scene.kind() == SceneKind::Time {
                                assert(s0[0].scene.kind() == SceneKind::Time);
                            } else {
                                let i = choose|i: int| 0 <= i < pre.scenes@.len()
                                    && (#[trigger] pre.scenes@[i]).scene.kind()
                                        == SceneKind::Time;
                                assert(s0[i + 1].scene.kind() == SceneKind::Time);
                            }
                        },
                        Option::None => {},
                    }
                } else {
                    let i = choose|i: int| 0 <= i < pre.scenes@.len()
                        && (#[trigger] pre.scenes@[i]).scene.kind() == SceneKind::Time;
                    assert(s0[i].scene.kind() == SceneKind::Time);
                }
            }
            assert(exists|i: int| 0 <= i < n
                && spec_scene_condition((#[trigger] s0[i]).scene.kind(), info.state)) by {
                let i = choose|i: int| 0 <= i < n
                    && (#[trigger] s0[i]).scene.kind() == SceneKind::Time;
                assert(spec_scene_condition(s0[i].scene.kind(), info.state));
            }
        }
        let mut container = self.scenes.pop().unwrap();
        let ghost mut c: int = n - 1;
        let mut eligible = scene_condition(container.scene.get_kind(), info);
        while !eligible
            invariant
                0 <= c < n,
                s0.len() == n,
                container == s0[c],
                container.wf(),
                eligible == spec_scene_condition(s0[c].scene.kind(), info.state),
                self.scenes@ == s0.subrange(c + 1, n) + s0.subrange(0, c),
                self.time == pre.time,
                self.time_in_scene == pre.time_in_scene,
                self.frames_in_transition == pre.frames_in_transition,
                self.current_scene is None,
                forall|i: int| 0 <= i < n ==> (#[trigger] s0[i]).wf(),
                exists|i: int| 0 <= i <= c
                    && spec_scene_condition((#[trigger] s0[i]).scene.kind(), info.state),
                forall|k: int| c < k < n
                    ==> !spec_scene_condition((#[trigger] s0[k]).scene.kind(), info.state),
            decreases c,
        {
            proof {
                let i = choose|i: int| 0 <= i <= c
                    && spec_scene_condition((#[trigger] s0[i]).scene.kind(), info.state);
                assert(i < c);
            }
            self.scenes.insert(0, container);
            proof {
                assert(self.scenes@ =~= s0.subrange(c, n) + s0.subrange(0, c));
                assert(self.scenes@.len() == n);
                assert(self.scenes@[n - 1] == s0[c - 1]);
            }
            container = self.scenes.pop().unwrap();
            proof {
                c = c - 1;
                assert(self.scenes@ =~= s0.subrange(c + 1, n) + s0.subrange(0, c));
            }
            eligible = scene_condition(container.scene.get_kind(), info);
        }
        let new_pixels = container.get_pixels_of_scene(info, spectrum, self.time_in_scene);
        self.transition = Some(create_transition(&old_pixels, &new_pixels));
        self.current_scene = Some(container);
        proof {
            let pool = pool_entries(pre, *info, *spectrum);
            let j = c;
            assert(pool =~= container_entries(s0));
            assert(pool[j].0 == s0[j].scene);
            assert(container_entries(self.scenes@)
                =~= pool.subrange(j + 1, pool.len() as int) + pool.subrange(0, j));
            assert(old_pixels@ == match pre.current_scene {
                Option::Some(cc) => rendered_pixels(cc.scene.kind(), *info, *spectrum),
                Option::None => Seq::<Vec2>::empty(),
            });
            assert(0 <= j < pool.len());
            assert(spec_scene_condition(pool[j].0.kind(), info.state));
            assert forall|k: int| j < k < pool.len()
                implies !spec_scene_condition((#[trigger] pool[k]).0.kind(), info.state) by {
                assert(pool[k].0 == s0[k].scene);
            }
            assert(self.current_scene matches Some(cc) && cc.scene == pool[j].0
                && cc.surface@ == lit_grid(pool[j].0.kind(), *info, *spectrum));
            assert(container_entries(self.scenes@)
                == pool.subrange(j + 1, pool.len() as int) + pool.subrange(0, j));
            assert(self.transition matches Some(t) && t@ == transition_plan(
                match pre.current_scene {
                    Option::Some(cc) => rendered_pixels(cc.scene.kind(), *info, *spectrum),
                    Option::None => Seq::<Vec2>::empty(),
                },
                rendered_pixels(pool[j].0.kind(), *info, *spectrum),
            ));
            assert(next_scene_rel_at(pre, *self, *info, *spectrum, j));
            assert(next_scene_rel(pre, *self, *info, *spectrum));
            // well-formedness: the clock is still somewhere in the pool
            assert(self.has_clock()) by {
                let i = choose|i: int| 0 <= i < n
                    && (#[trigger] s0[i]).scene.kind() == SceneKind::Time;
                if i == j {
                    assert(self.current_scene matches Some(cc)
                        && cc.scene.kind() == SceneKind::Time);
                } else if i > j {
                    assert(container_entries(self.scenes@)[i - j - 1].0 == s0[i].scene);
                    assert(self.scenes@[i - j - 1].scene.kind() == SceneKind::Time);
                } else {
                    assert(container_entries(self.scenes@)[n - 1 - j + i].0 == s0[i].scene);
                    assert(self.scenes@[n - 1 - j + i].scene.kind() == SceneKind::Time);
                }
            }
            assert forall|i: int| 0 <= i < self.scenes@.len()
                implies (#[trigger] self.scenes@[i]).wf() by {
                if i < n - 1 - j {
                    assert(self.scenes@[i] == s0[j + 1 + i]);
                } else {
                    assert(self.scenes@[i] == s0[i - (n - 1 - j)]);
                }
            }
        }
    }

    /// Hand out the active scene, switching to the next one first if none is
    /// active yet (at startup).
    fn take_current_scene(&mut self, info: &Info, spectrum: &SpectrumResult) -> (r: Option<
        SceneContainer,
    >)
        requires
            old(self).wf(),
            info.wf(),
            spectrum.wf(),
        ensures
            r matches Some(c) && c.wf(),
            final(self).current_scene is None,
            forall|i: int| 0 <= i < final(self).scenes@.len()
                ==> (#[trigger] final(self).scenes@[i]).wf(),
            old(self).current_scene is Some ==> {
                &&& r == old(self).current_scene
                &&& final(self).scenes == old(self).scenes
                &&& final(self).transition == old(self).transition
                &&& final(self).time == old(self).time
                &&& final(self).time_in_scene == old(self).time_in_scene
                &&& final(self).frames_in_transition == old(self).frames_in_transition
            },
            old(self).current_scene is None ==> next_scene_rel(
                *old(self),
                Graphics { current_scene: r, ..*final(self) },
                *info,
                *spectrum,
            ) && (Graphics { current_scene: r, ..*final(self) }).wf(),
    {
        if self.current_scene.is_none() {
            self.next_scene(info, spectrum);
        }
        let ghost before = *self;
        let r = self.current_scene.take();
        proof {
            if old(self).current_scene is None {
                assert(Graphics { current_scene: r, ..*self } == before);
            }
        }
        r
    }

    /// Put the active scene back.
    fn give_current_scene_back(&mut self, container: SceneContainer)
        ensures
            *final(self) == (Graphics { current_scene: Some(container), ..*old(self) }),
    {
        self.current_scene = Some(container);
    }
}

/// One tick spent animating a running migration: the frame shows exactly the
/// plan's current origin points, no blits are emitted, the frame counter
/// advances, and the plan advances or is dropped per `transition_step_rel`.
pub open spec fn transition_frame_tick(
    pre: Graphics,
    post: Graphics,
    frame_post: Seq<bool>,
    blits: Seq<BlitOp>,
    ms: u64,
) -> bool {
    &&& pre.transition matches Some(p) && {
        &&& post.frames_in_transition == pre.frames_in_transition.wrapping_add(1)
        &&& post.time_in_scene == pre.time_in_scene
        &&& post.time == ms
        &&& post.scenes == pre.scenes
        &&& post.current_scene == pre.current_scene
        &&& (forall|x: int, y: int| on_grid(x, y)
            ==> frame_post[#[trigger] cell_index(x, y)] == plan_origin_lit(p@, x, y))
        &&& blits.len() == 0
        &&& transition_step_rel(p@, post.transition, post.frames_in_transition, pre.time)
    }
}

/// One tick spent showing the active scene: scene time accrues the elapsed
/// wall clock, the scene is rendered afresh into its surface and copied to
/// the frame, and its blits are returned. When no scene is active yet, a
/// scene switch happens first (the startup tick).
pub open spec fn scene_frame_tick(
    pre: Graphics,
    post: Graphics,
    frame_post: Seq<bool>,
    blits: Seq<BlitOp>,
    info: Info,
    spectrum: SpectrumResult,
) -> bool {
    &&& pre.transition is None
    &&& post.time_in_scene == pre.time_in_scene + (info.ms - pre.time)
    &&& post.frames_in_transition == pre.frames_in_transition
    &&& post.time == info.ms
    &&& match pre.current_scene {
        Option::Some(c) => {
            &&& (post.current_scene matches Some(c2) && c2.scene == c.scene
                && c2.surface@ == lit_grid(c.scene.kind(), info, spectrum))
            &&& post.scenes == pre.scenes
            &&& post.transition is None
            &&& frame_post == lit_grid(c.scene.kind(), info, spectrum)
            &&& blits == scene_blits(c.scene.kind(), info, post.time_in_scene)
        },
        Option::None => exists|mid: Graphics| {
            &&& #[trigger] next_scene_rel(
                Graphics {
                    time_in_scene: (pre.time_in_scene + (info.ms - pre.time)) as u64,
                    time: info.ms,
                    ..pre
                },
                mid,
                info,
                spectrum,
            )
            &&& mid.current_scene matches Some(mc) && {
                &&& (post.current_scene matches Some(c2) && c2.scene == mc.scene
                    && c2.surface@ == mc.surface@)
                &&& post.scenes == mid.scenes
                &&& post.transition == mid.transition
                &&& frame_post == lit_grid(mc.scene.kind(), info, spectrum)
                &&& blits == scene_blits(mc.scene.kind(), info, post.time_in_scene)
            }
        },
    }
}

impl Graphics {
    /// Render the active scene into its surface and copy the surface onto
    /// the frame, switching to a first scene if none is active yet.
    fn draw_scene(
        &mut self,
        frame: &mut Bitmap,
        info: &Info,
        spectrum: &SpectrumResult,
    ) -> (r: Vec<BlitOp>)
        requires
            old(self).wf(),
            old(frame).wf(),
            info.wf(),
            spectrum.wf(),
        ensures
            final(self).wf(),
            final(frame).wf(),
            final(self).time == old(self).time,
            final(self).time_in_scene == old(self).time_in_scene,
            final(self).frames_in_transition == old(self).frames_in_transition,
            match old(self).current_scene {
                Option::Some(c) => {
                    &&& (final(self).current_scene matches Some(c2) && c2.scene == c.scene
                        && c2.surface@ == lit_grid(c.scene.kind(), *info, *spectrum))
                    &&& final(self).scenes == old(self).scenes
                    &&& final(self).transition == old(self).transition
                    &&& final(frame)@ == lit_grid(c.scene.kind(), *info, *spectrum)
                    &&& r@ == scene_blits(c.scene.kind(), *info, old(self).time_in_scene)
                },
                Option::None => exists|mid: Graphics| {
                    &&& #[trigger] next_scene_rel(*old(self), mid, *info, *spectrum)
                    &&& mid.current_scene matches Some(mc) && {
                        &&& (final(self).current_scene matches Some(c2)
                            && c2.scene == mc.scene && c2.surface@ == mc.surface@)
                        &&& final(self).scenes == mid.scenes
                        &&& final(self).transition == mid.transition
                        &&& final(frame)@ == lit_grid(mc.scene.kind(), *info, *spectrum)
                        &&& r@ == scene_blits(mc.scene.kind(), *info, old(self).time_in_scene)
                    }
                },
            },
    {
        let ghost pre = *self;
        let mut container = self.take_current_scene(info, spectrum).unwrap();
        let ghost mid_state = Graphics { current_scene: Some(container), ..*self };
        frame.clear();
        let blits = container.render(info, spectrum, self.time_in_scene);
        frame.copy_from(&container.surface);
        self.give_current_scene_back(container);
        proof {
            if pre.current_scene is None {
                assert(next_scene_rel(pre, mid_state, *info, *spectrum));
                let j = choose|j: int| #[trigger] next_scene_rel_at(
                    pre, mid_state, *info, *spectrum, j);
                match mid_state.current_scene {
                    Option::Some(mc) => {
                        assert(mc.surface@ == lit_grid(mc.scene.kind(), *info, *spectrum));
                        assert(self.current_scene matches Some(c2)
                            && c2.scene == mc.scene && c2.surface@ == mc.surface@);
                    },
                    Option::None => {},
                }
            }
            assert(self.has_clock()) by {
                match self.current_scene {
                    Option::Some(c2) => {
                        if c2.scene.kind() != SceneKind::Time {
                            if pre.current_scene is Some {
                                match pre.current_scene {
                                    Option::Some(c) => {
                                        let i = choose|i: int| 0 <= i < pre.scenes@.len()
                                            && (#[trigger] pre.scenes@[i]).scene.kind()
                                                == SceneKind::Time;
                                        assert(self.scenes@[i].scene.kind()
                                            == SceneKind::Time);
                                    },
                                    Option::None => {},
                                }
                            } else {
                                assert(mid_state.wf());
                                assert(mid_state.scenes == self.scenes);
                                let i = choose|i: int| 0 <= i < mid_state.scenes@.len()
                                    && (#[trigger] mid_state.scenes@[i]).scene.kind()
                                        == SceneKind::Time;
                                assert(self.scenes@[i].scene.kind() == SceneKind::Time);
                            }
                        }
                    },
                    Option::None => {},
                }
            }
        }
        blits
    }
}

impl Graphics {
    /// One render tick. When the wall clock has crossed a rotation period
    /// boundary since the last tick, switch scenes first. Then either animate
    /// the running pixel migration or render the active scene into the frame,
    /// and finally remember the tick's time.
    pub fn draw(
        &mut self,
        frame: &mut Bitmap,
        info: &Info,
        spectrum: &SpectrumResult,
    ) -> (r: Vec<BlitOp>)
        requires
            old(self).wf(),
            old(frame).wf(),
            info.wf(),
            spectrum.wf(),
            info.ms >= old(self).time,
        ensures
            final(self).wf(),
            final(frame).wf(),
            final(self).time == info.ms,
            (info.ms % SCENE_TIME < old(self).time % SCENE_TIME) ==> exists|mid: Graphics|
                #[trigger] next_scene_rel(*old(self), mid, *info, *spectrum)
                    && transition_frame_tick(mid, *final(self), final(frame)@, r@, info.ms),
            (!(info.ms % SCENE_TIME < old(self).time % SCENE_TIME)
                && old(self).transition is Some) ==> transition_frame_tick(
                *old(self),
                *final(self),
                final(frame)@,
                r@,
                info.ms,
            ),
            (!(info.ms % SCENE_TIME < old(self).time % SCENE_TIME)
                && old(self).transition is None) ==> scene_frame_tick(
                *old(self),
                *final(self),
                final(frame)@,
                r@,
                *info,
                *spectrum,
            ),
    {
        let ghost pre = *self;
        if info.ms % SCENE_TIME < self.time % SCENE_TIME {
            self.next_scene(info, spectrum);
            proof {
                let j = choose|j: int| #[trigger] next_scene_rel_at(
                    pre, *self, *info, *spectrum, j);
                assert(self.transition is Some);
            }
        }
        let ghost mid = *self;
        let result: Vec<BlitOp>;
        if self.transition.is_some() {
            self.frames_in_transition = self.frames_in_transition.wrapping_add(1);
            self.draw_transition(frame);
            result = Vec::new();
        } else {
            let delta = info.ms - self.time;
            self.time_in_scene = self.time_in_scene + delta;
            self.time = info.ms;
            let ghost stepped = *self;
            proof {
                if pre.current_scene is None {
                    assert(stepped == (Graphics {
                        time_in_scene: (pre.time_in_scene + (info.ms - pre.time)) as u64,
                        time: info.ms,
                        ..pre
                    }));
                }
            }
            result = self.draw_scene(frame, info, spectrum);
        }
        self.time = info.ms;
        result
    }
}

impl Graphics {
    /// The kind of the active scene, if one is active.
    pub fn current_kind(&self) -> (r: Option<SceneKind>)
        ensures
            match self.current_scene {
                Option::Some(c) => r == Some(c.scene.kind()),
                Option::None => r is None,
            },
    {
        match &self.current_scene {
            Option::Some(c) => Some(c.scene.get_kind()),
            Option::None => None,
        }
    }

    /// The kinds of the pooled (inactive) scenes, front to back.
    pub fn pool_kinds(&self) -> (r: Vec<SceneKind>)
        ensures
            r@.len() == self.scenes@.len(),
            forall|i: int| 0 <= i < r@.len()
                ==> r@[i] == (#[trigger] self.scenes@[i]).scene.kind(),
    {
        let mut kinds: Vec<SceneKind> = Vec::new();
        let mut i: usize = 0;
        while i < self.scenes.len()
            invariant
                i <= self.scenes@.len(),
                kinds@.len() == i,
                forall|k: int| 0 <= k < i
                    ==> kinds@[k] == (#[trigger] self.scenes@[k]).scene.kind(),
            decreases self.scenes@.len() - i,
        {
            kinds.push(self.scenes[i].scene.get_kind());
            i = i + 1;
        }
        kinds
    }

    /// How many pairs the running migration still tracks, if one is running.
    pub fn transition_len(&self) -> (r: Option<usize>)
        ensures
            match self.transition {
                Option::Some(p) => r == Some(p@.len() as usize),
                Option::None => r is None,
            },
    {
        match &self.transition {
            Option::Some(p) => Some(p.len()),
            Option::None => None,
        }
    }
}

} // verus!
