//! Bounded radiance evaluation as a state machine.
//!
//! Following one camera ray through the scene alternates outside work
//! (a nearest-hit query, a material's scatter) with a decision. The caller
//! performs the work, reports what happened as a `Bounce`, and is told by
//! `Path::advance` whether to stop with the sky, stop with black, or follow
//! the scattered ray one level deeper.
use vstd::prelude::*;

verus! {

/// What the scene and the hit material reported for the ray being followed.
#[derive(Clone, Copy, Debug, PartialEq, Eq, Structural)]
pub enum Bounce {
    /// The ray left the scene without touching any surface.
    Miss,
    /// The ray hit a surface whose material absorbed it.
    Absorbed,
    /// The ray hit a surface whose material scattered it.
    Scattered,
}

/// What the radiance evaluation does next.
#[derive(Clone, Copy, Debug, PartialEq, Eq, Structural)]
pub enum Step {
    /// Stop: the result is the sky gradient seen along the current ray,
    /// times the attenuation gathered so far.
    Sky,
    /// Stop: the result is black.
    Black,
    /// Multiply the scatter's attenuation into the running product and
    /// follow the scattered ray one level deeper.
    Follow,
}

/// The decision taken at recursion depth `depth` when the bounce limit is
/// `max_depth`.
pub open spec fn step_of(depth: nat, max_depth: nat, bounce: Bounce) -> Step {
    match bounce {
        Bounce::Miss => Step::Sky,
        Bounce::Absorbed => Step::Black,
        Bounce::Scattered => if depth < max_depth {
            Step::Follow
        } else {
            Step::Black
        },
    }
}

/// The decision for one bounce: a miss shows the sky, an absorption is
/// black, and a scatter is followed only while `depth < max_depth`.
pub fn next_step(depth: u32, max_depth: u32, bounce: Bounce) -> (r: Step)
    ensures
        r == step_of(depth as nat, max_depth as nat, bounce),
{
    match bounce {
        Bounce::Miss => Step::Sky,
        Bounce::Absorbed => Step::Black,
        Bounce::Scattered => if depth < max_depth {
            Step::Follow
        } else {
            Step::Black
        },
    }
}

/// The state of one path, as seen by its contracts.
pub ghost struct PathView {
    /// Scattered rays followed so far: the recursion depth of the next query.
    pub depth: nat,
    /// The bounce limit the path was started with.
    pub max_depth: nat,
    /// Whether a stopping decision has been taken.
    pub ended: bool,
}

/// One camera ray followed through the scene, bounce by bounce.
pub struct Path {
    depth: u32,
    max_depth: u32,
    ended: bool,
}

impl View for Path {
    type V = PathView;

    closed spec fn view(&self) -> PathView {
        PathView { depth: self.depth as nat, max_depth: self.max_depth as nat, ended: self.ended }
    }
}

impl Path {
    /// A path never follows more scattered rays than its bounce limit.
    pub open spec fn wf(&self) -> bool {
        self@.depth <= self@.max_depth
    }

    /// A fresh path for a primary ray, at depth zero.
    pub fn new(max_depth: u32) -> (r: Path)
        ensures
            r.wf(),
            r@ == (PathView { depth: 0, max_depth: max_depth as nat, ended: false }),
    {
        Path { depth: 0, max_depth, ended: false }
    }

    /// Scattered rays followed so far.
    pub fn depth(&self) -> (r: u32)
        ensures
            r as nat == self@.depth,
    {
        self.depth
    }

    /// Whether the path has stopped.
    pub fn is_ended(&self) -> (r: bool)
        ensures
            r == self@.ended,
    {
        self.ended
    }

    /// Takes the decision for what the current ray met, and moves the path
    /// one level deeper when the scattered ray is to be followed.
    pub fn advance(&mut self, bounce: Bounce) -> (r: Step)
        requires
            old(self).wf(),
            !old(self)@.ended,
        ensures
            final(self).wf(),
            r == step_of(old(self)@.depth, old(self)@.max_depth, bounce),
            final(self)@.max_depth == old(self)@.max_depth,
            r == Step::Follow ==> final(self)@.depth == old(self)@.depth + 1 && !final(self)@.ended,
            r != Step::Follow ==> final(self)@.depth == old(self)@.depth && final(self)@.ended,
    {
        let r = next_step(self.depth, self.max_depth, bounce);
        if r == Step::Follow {
            self.depth = self.depth + 1;
        } else {
            self.ended = true;
        }
        r
    }
}

/// The decision taken after each bounce of a path that met `bounces` in
/// turn, starting at depth `depth`, up to and including the first stop.
pub open spec fn steps_from(depth: nat, max_depth: nat, bounces: Seq<Bounce>) -> Seq<Step>
    decreases bounces.len(),
{
    if bounces.len() == 0 {
        seq![]
    } else {
        let s = step_of(depth, max_depth, bounces[0]);
        if s == Step::Follow {
            seq![s] + steps_from(depth + 1, max_depth, bounces.drop_first())
        } else {
            seq![s]
        }
    }
}

/// A path stops with black when its first ray is scattered and the bounce
/// limit is zero, or when its first ray is absorbed.
pub proof fn lemma_black_without_bounce(depth: nat, max_depth: nat, bounce: Bounce)
    requires
        (max_depth == 0 && bounce == Bounce::Scattered) || bounce == Bounce::Absorbed,
    ensures
        step_of(depth, max_depth, bounce) == Step::Black,
{
}

/// Whatever the surfaces do, a path started at depth zero follows at most
/// `max_depth` scattered rays: it takes at most `max_depth + 1` decisions,
/// and every decision but the last is to follow.
pub proof fn lemma_path_bounded(max_depth: nat, bounces: Seq<Bounce>)
    ensures
        steps_from(0, max_depth, bounces).len() <= max_depth + 1,
        forall|i: int| 0 <= i < steps_from(0, max_depth, bounces).len() - 1
            ==> #[trigger] steps_from(0, max_depth, bounces)[i] == Step::Follow,
{
    lemma_steps_from_bounded(0, max_depth, bounces);
}

proof fn lemma_steps_from_bounded(depth: nat, max_depth: nat, bounces: Seq<Bounce>)
    requires
        depth <= max_depth,
    ensures
        steps_from(depth, max_depth, bounces).len() <= max_depth - depth + 1,
        forall|i: int| 0 <= i < steps_from(depth, max_depth, bounces).len() - 1
            ==> #[trigger] steps_from(depth, max_depth, bounces)[i] == Step::Follow,
    decreases bounces.len(),
{
    if bounces.len() > 0 {
        let s = step_of(depth, max_depth, bounces[0]);
        if s == Step::Follow {
            let rest = steps_from(depth + 1, max_depth, bounces.drop_first());
            lemma_steps_from_bounded(depth + 1, max_depth, bounces.drop_first());
            assert(steps_from(depth, max_depth, bounces) == seq![s] + rest);
            assert forall|i: int| 0 <= i < steps_from(depth, max_depth, bounces).len() - 1
                implies #[trigger] steps_from(depth, max_depth, bounces)[i] == Step::Follow by {
                if i > 0 {
                    assert(steps_from(depth, max_depth, bounces)[i] == rest[i - 1]);
                }
            }
        }
    }
}

} // verus!
