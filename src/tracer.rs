use vstd::prelude::*;

verus! {

/// What the scene and the material that was hit answered for the ray being traced.
#[derive(Clone, Copy, Debug, PartialEq, Eq, Structural)]
pub enum Surface {
    /// The ray hit nothing in the scene.
    Miss,
    /// The ray hit a surface whose material absorbed it.
    Absorbed,
    /// The ray hit a surface whose material scattered it into a new ray.
    Scattered,
}

/// What the path tracer does next with the ray being traced.
#[derive(Clone, Copy, Debug, PartialEq, Eq, Structural)]
pub enum Bounce {
    /// The path ends and returns black.
    Black,
    /// The path ends and returns the sky colour of the ray's direction.
    Sky,
    /// The path goes on with the scattered ray and the remaining bounce budget.
    Follow { depth: u32 },
}

/// The next step of a path with `depth` bounces left: with none left the path
/// is black whatever the scene holds; otherwise a miss shows the sky, an
/// absorbed ray is black, and a scattered ray is followed with one bounce less.
pub open spec fn next_bounce_spec(depth: u32, surface: Surface) -> Bounce {
    if depth == 0 {
        Bounce::Black
    } else {
        match surface {
            Surface::Miss => Bounce::Sky,
            Surface::Absorbed => Bounce::Black,
            Surface::Scattered => Bounce::Follow { depth: (depth - 1) as u32 },
        }
    }
}

/// Decides the next step of a path with `depth` bounces left, given what the
/// scene answered for the current ray.
pub fn next_bounce(depth: u32, surface: Surface) -> (b: Bounce)
    ensures
        b == next_bounce_spec(depth, surface),
        depth == 0 ==> b == Bounce::Black,
        b matches Bounce::Follow { depth: d } ==> d < depth,
{
    if depth == 0 {
        Bounce::Black
    } else {
        match surface {
            Surface::Miss => Bounce::Sky,
            Surface::Absorbed => Bounce::Black,
            Surface::Scattered => Bounce::Follow { depth: depth - 1 },
        }
    }
}

/// The end of a path that starts with `depth` bounces left and meets the
/// surfaces `surfaces` in turn, as long as it is followed.
pub open spec fn path_end(depth: u32, surfaces: Seq<Surface>) -> Bounce
    decreases surfaces.len(),
{
    if surfaces.len() == 0 {
        Bounce::Follow { depth }
    } else {
        match next_bounce_spec(depth, surfaces[0]) {
            Bounce::Follow { depth: d } => path_end(d, surfaces.drop_first()),
            other => other,
        }
    }
}

/// A path that starts with `depth` bounces left has ended after `depth + 1`
/// surfaces, whatever they are: the bounce budget bounds every path.
pub proof fn lemma_path_ends_within_depth(depth: u32, surfaces: Seq<Surface>)
    requires
        surfaces.len() > depth,
    ensures
        !(path_end(depth, surfaces) is Follow),
    decreases surfaces.len(),
{
    if depth > 0 {
        match next_bounce_spec(depth, surfaces[0]) {
            Bounce::Follow { depth: d } => {
                lemma_path_ends_within_depth(d, surfaces.drop_first());
            },
            _ => {},
        }
    }
}

} // verus!
