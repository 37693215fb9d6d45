//! The integrator's per-bounce decision.
//!
//! One cast of a ray ends in one of three ways: the nearest surface scatters
//! it, the nearest surface absorbs it, or it leaves the scene. The radiance
//! walk reacts to that outcome and to its remaining bounce budget; running
//! out of budget is the designed termination of the walk, not a failure.

use vstd::prelude::*;

verus! {

/// Outcome of intersecting one ray against the scene and asking the struck
/// material to scatter it.
#[derive(Clone, Copy, Debug, PartialEq, Eq, Structural)]
pub enum SurfaceEvent {
    /// A surface was struck and its material produced an outgoing ray.
    Scattered,
    /// A surface was struck and its material absorbed the ray.
    Absorbed,
    /// No surface was struck.
    Missed,
}

/// What the radiance walk does next.
#[derive(Clone, Copy, Debug, PartialEq, Eq, Structural)]
pub enum RadianceStep {
    /// Attenuate by the material's albedo and follow the scattered ray.
    Bounce,
    /// Stop and contribute black.
    Black,
    /// Stop and contribute the background gradient.
    Background,
}

/// The decision for one step of the walk: once the depth reaches the bounce
/// cap the walk emits black whatever the scene reported; below the cap a
/// scattered ray is followed, an absorbed ray emits black, and a miss emits
/// the background gradient.
pub open spec fn spec_radiance_step(
    depth: u32,
    max_bounces: u32,
    event: SurfaceEvent,
) -> RadianceStep {
    if depth >= max_bounces {
        RadianceStep::Black
    } else {
        match event {
            SurfaceEvent::Scattered => RadianceStep::Bounce,
            SurfaceEvent::Absorbed => RadianceStep::Black,
            SurfaceEvent::Missed => RadianceStep::Background,
        }
    }
}

/// Decide the next step of the radiance walk at the given depth.
pub fn radiance_step(depth: u32, max_bounces: u32, event: SurfaceEvent) -> (step: RadianceStep)
    ensures
        step == spec_radiance_step(depth, max_bounces, event),
{
    if depth >= max_bounces {
        RadianceStep::Black
    } else {
        match event {
            SurfaceEvent::Scattered => RadianceStep::Bounce,
            SurfaceEvent::Absorbed => RadianceStep::Black,
            SurfaceEvent::Missed => RadianceStep::Background,
        }
    }
}

/// Exhausting the bounce budget terminates the walk: at or past the cap the
/// step is black for every surface event, so no walk runs longer than
/// `max_bounces` steps.
pub proof fn lemma_budget_exhaustion(depth: u32, max_bounces: u32, event: SurfaceEvent)
    requires
        depth >= max_bounces,
    ensures
        spec_radiance_step(depth, max_bounces, event) == RadianceStep::Black,
{
}

/// A bounce is only ever taken strictly below the cap, so the remaining
/// budget `max_bounces - depth` strictly shrinks along the walk.
pub proof fn lemma_bounce_consumes_budget(depth: u32, max_bounces: u32, event: SurfaceEvent)
    requires
        spec_radiance_step(depth, max_bounces, event) == RadianceStep::Bounce,
    ensures
        depth < max_bounces,
        max_bounces - (depth + 1) < max_bounces - depth,
{
}

} // verus!
