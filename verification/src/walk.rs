use vstd::prelude::*;

verus! {

/// What a visitor tells the walker after seeing a node.
#[derive(Clone, Copy, Debug, PartialEq, Eq, Structural)]
pub enum Walk {
    /// Go on with the next node.
    Continue,
    /// Abort the walk.
    Stop,
}

/// The walker's callback convention: `true` aborts the walk, `false` goes on.
pub open spec fn aborts(w: Walk) -> bool {
    w == Walk::Stop
}

/// The answer of a walk whose walker reports `done` (aborted) or not.
pub open spec fn walk_of_done(done: bool) -> Walk {
    if done {
        Walk::Stop
    } else {
        Walk::Continue
    }
}

/// The outcome of a walk, as the pair of its answer and the number of visits
/// it makes, when `answers` lists, for each sub-node that the walker hands
/// to the callback, in order, `None` for a null pointer (which is skipped
/// without a visit) or `Some(w)` for the visitor's answer `w` to that node.
pub open spec fn walk_outcome(answers: Seq<Option<Walk>>) -> (Walk, nat)
    decreases answers.len(),
{
    if answers.len() == 0 {
        (Walk::Continue, 0)
    } else {
        match answers[0] {
            None => walk_outcome(answers.drop_first()),
            Some(Walk::Stop) => (Walk::Stop, 1),
            Some(Walk::Continue) => {
                let rest = walk_outcome(answers.drop_first());
                (rest.0, rest.1 + 1)
            },
        }
    }
}

/// The number of sub-nodes that are present (not null) in `answers`.
pub open spec fn present_count(answers: Seq<Option<Walk>>) -> nat
    decreases answers.len(),
{
    if answers.len() == 0 {
        0
    } else {
        present_count(answers.drop_first()) + if answers[0] is Some {
            1nat
        } else {
            0nat
        }
    }
}

impl Walk {
    /// The value a walker callback hands back to the walker for this answer:
    /// `true` (abort) exactly for `Walk::Stop`.
    pub fn aborts_walk(self) -> (abort: bool)
        ensures
            abort == aborts(self),
    {
        match self {
            Walk::Continue => false,
            Walk::Stop => true,
        }
    }

    /// The answer a walk gives for the walker's `done` flag: `Stop` when the
    /// walker was aborted, `Continue` otherwise.
    pub fn from_done(done: bool) -> (w: Walk)
        ensures
            w == walk_of_done(done),
    {
        if !done {
            Walk::Continue
        } else {
            Walk::Stop
        }
    }
}

/// Replays a walk over the sub-nodes described by `answers` (see
/// [`walk_outcome`]): null entries are skipped, the others are visited in
/// order until one answers `Stop`. Returns the walk's answer and the number
/// of visits.
pub fn replay_walk(answers: &[Option<Walk>]) -> (r: (Walk, usize))
    ensures
        r.0 == walk_outcome(answers@).0,
        r.1 == walk_outcome(answers@).1,
{
    let n = answers.len();
    let mut visits: usize = 0;
    let mut i: usize = 0;
    assert(answers@.skip(0) =~= answers@);
    while i < n
        invariant
            n == answers@.len(),
            i <= n,
            visits <= i,
            walk_outcome(answers@).0 == walk_outcome(answers@.skip(i as int)).0,
            walk_outcome(answers@).1 == visits + walk_outcome(answers@.skip(i as int)).1,
        decreases n - i,
    {
        assert(answers@.skip(i as int).drop_first() =~= answers@.skip(i + 1));
        match answers[i] {
            None => {},
            Some(w) => {
                visits = visits + 1;
                if w.aborts_walk() {
                    return (Walk::from_done(true), visits);
                }
            },
        }
        i = i + 1;
    }
    assert(answers@.skip(n as int) =~= Seq::<Option<Walk>>::empty());
    (Walk::from_done(false), visits)
}

} // verus!
