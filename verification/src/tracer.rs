use vstd::prelude::*;
use rand::rngs::SmallRng;
use rand::SeedableRng;
use crate::camera::Camera;
use crate::hit::{Hit, HitableList, HitableShape};
use crate::material::ScatterResult;
use crate::pointlight::{LightList, PointLight};
use crate::scalar::Scalar;

verus! {

/// A path is cut off once it has bounced this often.
pub const MAX_DEPTH: i32 = 10;

/// Bit pattern of the nearest distance at which a ray may hit, one
/// thousandth.  It keeps a bounced ray off the surface that it left.
pub const T_MIN_BITS: u32 = 0x3a83_126f;

/// Bit pattern of the farthest distance at which a camera ray may hit:
/// positive infinity.
pub const T_MAX_BITS: u32 = 0x7f80_0000;

/// Seed of the generator of every path tracer.
pub const SEED: u64 = 0;

/// Calls `SmallRng::seed_from_u64`, which makes the generator that belongs
/// to the seed.  Nothing is said of its state.
#[verifier::external_body]
fn seeded_rng(seed: u64) -> SmallRng {
    SmallRng::seed_from_u64(seed)
}

pub struct PathTracer {
    pub rng: SmallRng,
    pub camera: Camera,
    pub samples: u16,
    pub world: HitableList,
    pub lights: LightList,
}

impl PathTracer {
    /// A path tracer with an empty scene and no light.
    pub fn new(camera: Camera, samples: u16) -> (tracer: PathTracer)
        ensures
            tracer.camera == camera,
            tracer.samples == samples,
            tracer.world@ == Seq::<HitableShape>::empty(),
            tracer.lights@ == Seq::<PointLight>::empty(),
    {
        PathTracer {
            camera,
            rng: seeded_rng(SEED),
            samples,
            world: HitableList::new(),
            lights: LightList::new(),
        }
    }
}

/// Where the tracing of one path stands.
#[derive(Clone, Copy, Debug, PartialEq, Eq, Structural)]
pub enum PathState {
    /// The path is being followed and has bounced `depth` times.
    Tracing { depth: i32 },
    /// The path was cut off at the depth limit: it carries no light.
    TerminatedDepth,
    /// The path left the scene: it carries the light of the sky.
    TerminatedMiss,
    /// A surface absorbed the path: it carries no light.
    TerminatedAbsorption,
}

/// What happened to a ray that was sent into the scene.
#[derive(Clone, Copy, Debug, PartialEq, Eq, Structural)]
pub enum PathEvent {
    /// It hit nothing.
    Miss,
    /// It hit a surface that absorbed it.
    Absorbed,
    /// It hit a surface that scattered it.
    Scattered,
}

impl PathState {
    /// The state of a path that is about to send its ray at `depth`.
    pub open spec fn entered(depth: int) -> PathState {
        if depth >= MAX_DEPTH {
            PathState::TerminatedDepth
        } else {
            PathState::Tracing { depth: depth as i32 }
        }
    }

    /// The state that follows `self` on `event`.  Only a path that is
    /// being traced moves; a scattered ray takes it one level deeper.
    pub open spec fn after(self, event: PathEvent) -> PathState {
        match self {
            PathState::Tracing { depth } => match event {
                PathEvent::Miss => PathState::TerminatedMiss,
                PathEvent::Absorbed => PathState::TerminatedAbsorption,
                PathEvent::Scattered => PathState::entered(depth + 1),
            },
            _ => self,
        }
    }

    pub open spec fn terminated(self) -> bool {
        !(self is Tracing)
    }

    /// The state after all of `events`, in their order.
    pub open spec fn after_all(self, events: Seq<PathEvent>) -> PathState
        decreases events.len(),
    {
        if events.len() == 0 {
            self
        } else {
            self.after_all(events.drop_last()).after(events.last())
        }
    }

    pub fn enter(depth: i32) -> (state: PathState)
        ensures
            state == PathState::entered(depth as int),
    {
        if depth >= MAX_DEPTH {
            PathState::TerminatedDepth
        } else {
            PathState::Tracing { depth }
        }
    }

    pub fn step(self, event: PathEvent) -> (state: PathState)
        ensures
            state == self.after(event),
    {
        match self {
            PathState::Tracing { depth } => match event {
                PathEvent::Miss => PathState::TerminatedMiss,
                PathEvent::Absorbed => PathState::TerminatedAbsorption,
                PathEvent::Scattered => if depth >= MAX_DEPTH - 1 {
                    PathState::TerminatedDepth
                } else {
                    PathState::Tracing { depth: depth + 1 }
                },
            },
            _ => self,
        }
    }

    pub fn is_terminated(&self) -> (r: bool)
        ensures
            r == self.terminated(),
    {
        match self {
            PathState::Tracing { .. } => false,
            _ => true,
        }
    }
}

/// What a ray met with, told from what the scene and the struck material
/// returned: a miss where nothing was hit, an absorption where the material
/// scattered nothing.
pub fn classify(hit: &Option<Hit>, scatter: &Option<ScatterResult>) -> (event: PathEvent)
    ensures
        event == match (*hit, *scatter) {
            (None, _) => PathEvent::Miss,
            (Some(_), None) => PathEvent::Absorbed,
            (Some(_), Some(_)) => PathEvent::Scattered,
        },
{
    match hit {
        None => PathEvent::Miss,
        Some(_) => match scatter {
            None => PathEvent::Absorbed,
            Some(_) => PathEvent::Scattered,
        },
    }
}

/// What a light sends to a hit point: what stands in its way, if anything
/// does, and the light that arrives if nothing does.
#[derive(Clone, Copy, Debug, PartialEq, Eq, Structural)]
pub struct LightSample {
    pub occluder: Option<Hit>,
    pub unoccluded: Scalar,
}

/// The direct light at a hit point: nothing where no light was picked or
/// where something stands between the light and the point, else what the
/// light sends.
pub fn direct_lighting(sample: Option<LightSample>) -> (light: Scalar)
    ensures
        light == match sample {
            Some(s) => if s.occluder is Some {
                Scalar { bits: 0 }
            } else {
                s.unoccluded
            },
            None => Scalar { bits: 0 },
        },
{
    match sample {
        Some(s) => if s.occluder.is_some() {
            Scalar::zero()
        } else {
            s.unoccluded
        },
        None => Scalar::zero(),
    }
}

/// A point that was drawn from the cube around the unit sphere is kept
/// unless its squared length is above one.
pub fn in_unit_sphere(squared_length: Scalar) -> (r: bool)
    ensures
        r == !(Scalar { bits: 0x3f80_0000 }).below(squared_length),
{
    !squared_length.gt(Scalar::one())
}

/// A terminated path stays as it is, whatever comes.
pub proof fn lemma_terminated_path_stays(state: PathState, events: Seq<PathEvent>)
    requires
        state.terminated(),
    ensures
        state.after_all(events) == state,
    decreases events.len(),
{
    if events.len() > 0 {
        lemma_terminated_path_stays(state, events.drop_last());
    }
}

/// While a path is traced its depth counts the events so far, each of which
/// was a scattering, and stays under the limit.
pub proof fn lemma_traced_path_counts_bounces(depth: int, events: Seq<PathEvent>)
    requires
        0 <= depth,
        PathState::entered(depth).after_all(events) is Tracing,
    ensures
        PathState::entered(depth).after_all(events) == (PathState::Tracing {
            depth: (depth + events.len()) as i32,
        }),
        depth + events.len() < MAX_DEPTH,
        forall|i: int| 0 <= i < events.len() ==> events[i] is Scattered,
    decreases events.len(),
{
    if events.len() > 0 {
        let before = PathState::entered(depth).after_all(events.drop_last());
        assert(before is Tracing);
        lemma_traced_path_counts_bounces(depth, events.drop_last());
        assert forall|i: int| 0 <= i < events.len() implies events[i] is Scattered by {
            if i < events.len() - 1 {
                assert(events.drop_last()[i] == events[i]);
            }
        }
    }
}

/// Every path ends: one that starts at `depth` is terminated after the
/// events that take it to the limit, whatever they are, and so after ten
/// events at the latest.
pub proof fn lemma_path_ends(depth: int, events: Seq<PathEvent>)
    requires
        0 <= depth,
        depth + events.len() >= MAX_DEPTH,
    ensures
        PathState::entered(depth).after_all(events).terminated(),
{
    if PathState::entered(depth).after_all(events) is Tracing {
        lemma_traced_path_counts_bounces(depth, events);
    }
}

} // verus!
