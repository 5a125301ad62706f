use vstd::prelude::*;

verus! {

/// What one query of the scene returned for the current ray.
#[derive(Clone, Copy, Debug, PartialEq, Eq, Structural)]
pub enum Outcome {
    /// The ray hit nothing.
    Miss,
    /// The ray hit a surface whose material absorbed it.
    Absorbed,
    /// The ray hit a surface whose material sent out a new, attenuated ray.
    Scattered,
}

/// How a light path ends.
#[derive(Clone, Copy, Debug, PartialEq, Eq, Structural)]
pub enum PathEnd {
    /// The path contributes no light: the bounce budget ran out, or a surface absorbed it.
    Black,
    /// The last ray left the scene: the path takes the sky colour of that ray's direction.
    Sky,
}

/// The decision taken after one query of the scene.
#[derive(Clone, Copy, Debug, PartialEq, Eq, Structural)]
pub enum Step {
    /// The path is finished.
    End(PathEnd),
    /// Follow the scattered ray, with this many bounces left.
    Bounce(i32),
}

/// Whether a path with `depth` bounces left ends black without querying the scene.
pub open spec fn out_of_depth(depth: int) -> bool {
    depth <= 0
}

/// After a query on a path with bounces left: a miss ends in the sky, an absorption ends
/// black, a scatter goes on with one bounce fewer.
pub open spec fn step_spec(depth: i32, outcome: Outcome) -> Step
    recommends
        depth > 0,
{
    match outcome {
        Outcome::Miss => Step::End(PathEnd::Sky),
        Outcome::Absorbed => Step::End(PathEnd::Black),
        Outcome::Scattered => Step::Bounce((depth - 1) as i32),
    }
}

/// Adds `n` bounces to the count of a finished path.
pub open spec fn with_bounces(r: Option<(PathEnd, nat)>, n: nat) -> Option<(PathEnd, nat)> {
    match r {
        Some((e, k)) => Some((e, k + n)),
        None => None,
    }
}

/// How a path that starts with `depth` bounces left ends, and how many scatters it makes,
/// when the scene queries along it return `outcomes` in order; `None` while the outcomes
/// run out before the path ends.
pub open spec fn trace(depth: i32, outcomes: Seq<Outcome>) -> Option<(PathEnd, nat)>
    decreases outcomes.len(),
{
    if out_of_depth(depth as int) {
        Some((PathEnd::Black, 0))
    } else if outcomes.len() == 0 {
        None
    } else {
        match step_spec(depth, outcomes[0]) {
            Step::End(e) => Some((e, 0)),
            Step::Bounce(d) => with_bounces(trace(d, outcomes.drop_first()), 1),
        }
    }
}

/// Whether a path with `depth` bounces left must end black before the scene is queried.
pub fn is_out_of_depth(depth: i32) -> (r: bool)
    ensures
        r == out_of_depth(depth as int),
{
    depth <= 0
}

/// The decision after a scene query on a path with `depth` bounces left.
pub fn step(depth: i32, outcome: Outcome) -> (r: Step)
    requires
        depth > 0,
    ensures
        r == step_spec(depth, outcome),
{
    match outcome {
        Outcome::Miss => Step::End(PathEnd::Sky),
        Outcome::Absorbed => Step::End(PathEnd::Black),
        Outcome::Scattered => Step::Bounce(depth - 1),
    }
}

/// Follows a path of at most `max_depth` bounces through recorded query outcomes.
/// Returns how it ends and its number of scatters, or `None` when the outcomes run out first.
pub fn resolve(max_depth: i32, outcomes: &Vec<Outcome>) -> (r: Option<(PathEnd, u32)>)
    ensures
        match r {
            Some((e, n)) => trace(max_depth, outcomes@) == Some((e, n as nat)),
            None => trace(max_depth, outcomes@) is None,
        },
{
    let mut depth: i32 = max_depth;
    let mut bounces: u32 = 0;
    let mut i: usize = 0;
    assert(outcomes@.skip(0) =~= outcomes@);
    assert(with_bounces(trace(depth, outcomes@), 0) == trace(depth, outcomes@));
    while i < outcomes.len()
        invariant
            i <= outcomes@.len(),
            bounces as int == i as int,
            i > 0 ==> depth == max_depth - i,
            i > 0 ==> max_depth > 0,
            i == 0 ==> depth == max_depth,
            trace(max_depth, outcomes@) == with_bounces(
                trace(depth, outcomes@.skip(i as int)),
                bounces as nat,
            ),
        decreases outcomes@.len() - i,
    {
        if is_out_of_depth(depth) {
            return Some((PathEnd::Black, bounces));
        }
        let s = step(depth, outcomes[i]);
        assert(outcomes@.skip(i as int).drop_first() =~= outcomes@.skip(i + 1));
        match s {
            Step::End(e) => {
                return Some((e, bounces));
            },
            Step::Bounce(d) => {
                depth = d;
                bounces = bounces + 1;
                i = i + 1;
            },
        }
    }
    if is_out_of_depth(depth) {
        Some((PathEnd::Black, bounces))
    } else {
        None
    }
}

/// A path with no bounces left is black, whatever the scene would have returned: it
/// makes no scatter and reads no outcome.
pub proof fn lemma_out_of_depth_is_black(depth: i32, outcomes: Seq<Outcome>)
    requires
        depth <= 0,
    ensures
        trace(depth, outcomes) == Some((PathEnd::Black, 0nat)),
{
}

/// A path with bounces left whose first ray hits nothing takes the sky colour of that
/// first ray, with no scatter before it.
pub proof fn lemma_first_miss_is_sky(depth: i32, outcomes: Seq<Outcome>)
    requires
        depth > 0,
        outcomes.len() > 0,
        outcomes[0] == Outcome::Miss,
    ensures
        trace(depth, outcomes) == Some((PathEnd::Sky, 0nat)),
{
}

/// Recursion is bounded by the depth: a finished path makes at most `depth` scatters, and
/// one that reaches the sky makes fewer than `depth`.
pub proof fn lemma_scatters_bounded(depth: i32, outcomes: Seq<Outcome>)
    ensures
        trace(depth, outcomes) matches Some((e, n)) ==> {
            &&& n <= if depth > 0 { depth as nat } else { 0nat }
            &&& e == PathEnd::Sky ==> n < depth
        },
    decreases outcomes.len(),
{
    if !out_of_depth(depth as int) && outcomes.len() > 0 {
        if let Step::Bounce(d) = step_spec(depth, outcomes[0]) {
            lemma_scatters_bounded(d, outcomes.drop_first());
        }
    }
}

} // verus!
