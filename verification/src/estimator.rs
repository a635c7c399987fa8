//! The control of the radiance estimator: how long a light path is followed
//! and what ends it.
//!
//! The estimator follows a ray from bounce to bounce. Before each query of
//! the scene it consults its bounce budget; with none left the path is cut
//! off and contributes black. Otherwise what the ray meets decides: a miss
//! ends the path with the background, an absorbing hit ends it with black,
//! and a scattering hit sends the scattered ray on with one bounce less.

use vstd::prelude::*;

verus! {

/// What a ray met.
#[derive(Clone, Copy, Debug, PartialEq, Eq, Structural)]
pub enum Event {
    /// Nothing: the ray leaves the scene.
    Miss,
    /// A surface that absorbed it.
    Absorbed,
    /// A surface that scattered it.
    Scattered,
}

/// What a path ends with.
#[derive(Clone, Copy, Debug, PartialEq, Eq, Structural)]
pub enum Ending {
    /// The bounce budget ran out: black.
    Cutoff,
    /// The ray was absorbed: black.
    Absorbed,
    /// The ray left the scene: the background, attenuated by every bounce
    /// before.
    Background,
    /// The events ran out before the path ended.
    Open,
}

/// What follows an event.
#[derive(Clone, Copy, Debug, PartialEq, Eq, Structural)]
pub enum Step {
    /// The path ends and contributes black.
    Black,
    /// The path ends and contributes the background.
    Background,
    /// The scattered ray is followed with the budget that is left.
    Bounce(Path),
}

/// A path with its remaining bounce budget.
#[derive(Clone, Copy, Debug, PartialEq, Eq, Structural)]
pub struct Path {
    pub depth: u64,
}

/// How a path went: the number of bounces taken and what ended it.
#[derive(Clone, Copy, Debug, PartialEq, Eq, Structural)]
pub struct Outcome {
    pub bounces: u64,
    pub ending: Ending,
}

/// What follows `event` on a path with `depth` bounces left, `depth > 0`.
pub open spec fn step_spec(depth: u64, event: Event) -> Step {
    match event {
        Event::Miss => Step::Background,
        Event::Absorbed => Step::Black,
        Event::Scattered => Step::Bounce(Path { depth: (depth - 1) as u64 }),
    }
}

/// How a path with `depth` bounces left goes when its rays meet `events` in
/// turn: the number of bounces and the ending.
pub open spec fn follow_spec(depth: nat, events: Seq<Event>) -> (nat, Ending)
    decreases events.len(),
{
    if depth == 0 {
        (0, Ending::Cutoff)
    } else if events.len() == 0 {
        (0, Ending::Open)
    } else {
        match events[0] {
            Event::Miss => (0, Ending::Background),
            Event::Absorbed => (0, Ending::Absorbed),
            Event::Scattered => {
                let rest = follow_spec((depth - 1) as nat, events.drop_first());
                (rest.0 + 1, rest.1)
            },
        }
    }
}

/// Whether a path with this ending contributes black, whatever its rays met.
pub open spec fn is_black(ending: Ending) -> bool {
    ending == Ending::Cutoff || ending == Ending::Absorbed
}

impl Path {
    /// A path that may take `max_depth` bounces.
    pub fn new(max_depth: u64) -> (p: Path)
        ensures
            p.depth == max_depth,
    {
        Path { depth: max_depth }
    }

    /// The bounces that are left.
    pub fn remaining(&self) -> (d: u64)
        ensures
            d == self.depth,
    {
        self.depth
    }

    /// Whether the budget is used up: the path is cut off and contributes
    /// black, and the scene is not queried.
    pub fn exhausted(&self) -> (r: bool)
        ensures
            r == (self.depth == 0),
    {
        self.depth == 0
    }

    /// What follows when the ray of this path met `event`.
    pub fn step(self, event: Event) -> (s: Step)
        requires
            self.depth > 0,
        ensures
            s == step_spec(self.depth, event),
    {
        match event {
            Event::Miss => Step::Background,
            Event::Absorbed => Step::Black,
            Event::Scattered => Step::Bounce(Path { depth: self.depth - 1 }),
        }
    }
}

/// Follows a path of `max_depth` bounces whose rays meet `events` in turn.
pub fn follow(max_depth: u64, events: &Vec<Event>) -> (o: Outcome)
    ensures
        (o.bounces as nat, o.ending) == follow_spec(max_depth as nat, events@),
        o.bounces <= max_depth,
        o.bounces <= events@.len(),
{
    let mut path = Path::new(max_depth);
    let mut i: usize = 0;
    let mut bounces: u64 = 0;
    assert(events@.skip(0) =~= events@);
    loop
        invariant
            0 <= i <= events@.len(),
            bounces == i,
            bounces + path.depth == max_depth,
            follow_spec(max_depth as nat, events@).0 == follow_spec(
                path.depth as nat,
                events@.skip(i as int),
            ).0 + bounces,
            follow_spec(max_depth as nat, events@).1 == follow_spec(
                path.depth as nat,
                events@.skip(i as int),
            ).1,
        decreases events@.len() - i,
    {
        if path.exhausted() {
            return Outcome { bounces, ending: Ending::Cutoff };
        }
        if i >= events.len() {
            return Outcome { bounces, ending: Ending::Open };
        }
        proof {
            assert(events@.skip(i as int)[0] == events@[i as int]);
            assert(events@.skip(i as int).drop_first() =~= events@.skip(i + 1));
        }
        match path.step(events[i]) {
            Step::Black => {
                return Outcome { bounces, ending: Ending::Absorbed };
            },
            Step::Background => {
                return Outcome { bounces, ending: Ending::Background };
            },
            Step::Bounce(next) => {
                path = next;
                bounces += 1;
                i += 1;
            },
        }
    }
}

/// With no bounce left a path contributes black, whatever the ray and the
/// scene.
pub proof fn lemma_depth_zero_is_black(events: Seq<Event>)
    ensures
        follow_spec(0, events) == (0nat, Ending::Cutoff),
        is_black(follow_spec(0, events).1),
{
}

/// A path never takes more bounces than its budget, nor more than its rays
/// met surfaces.
pub proof fn lemma_bounces_bounded(depth: nat, events: Seq<Event>)
    ensures
        follow_spec(depth, events).0 <= depth,
        follow_spec(depth, events).0 <= events.len(),
    decreases events.len(),
{
    if depth > 0 && events.len() > 0 && events[0] == Event::Scattered {
        lemma_bounces_bounded((depth - 1) as nat, events.drop_first());
    }
}

/// As long as the rays keep being scattered, the path ends by cutoff after
/// exactly as many bounces as its budget allows: the recursion is bounded by
/// the budget alone.
pub proof fn lemma_scattering_ends_by_cutoff(depth: nat, events: Seq<Event>)
    requires
        depth <= events.len(),
        forall|i: int| 0 <= i < depth ==> events[i] == Event::Scattered,
    ensures
        follow_spec(depth, events) == (depth, Ending::Cutoff),
    decreases events.len(),
{
    if depth > 0 {
        let rest = events.drop_first();
        assert forall|i: int| 0 <= i < depth - 1 implies rest[i] == Event::Scattered by {
            assert(rest[i] == events[i + 1]);
        }
        lemma_scattering_ends_by_cutoff((depth - 1) as nat, rest);
    }
}

} // verus!
