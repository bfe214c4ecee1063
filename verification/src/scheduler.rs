//! The context scheduler: a priority collection of contexts, plus the
//! registry of in-flight call identities. Among all contexts it always
//! selects the one with the greatest recursion depth, breaking ties by the
//! smallest current instruction pointer; that total order is user-observable
//! through side-effect ordering, so it is pinned down exactly here.

use vstd::prelude::*;
use vstd::pervasive::VecAdditionalExecFns;

use crate::context::{beats, CallKey, Context};
use crate::ids::Id;

verus! {

/// The index of the scheduled context among `s[0..upto]`: the first index
/// holding the greatest recursion depth, smallest instruction pointer.
pub open spec fn spec_best(s: Seq<Context>, upto: int) -> int
    decreases upto,
{
    if upto <= 1 {
        0
    } else {
        let b = spec_best(s, upto - 1);
        if beats(s[upto - 1], s[b]) {
            upto - 1
        } else {
            b
        }
    }
}

/// The scheduled context is maximal: no context beats it, and it beats every
/// earlier context that is not of exactly equal priority. This is the
/// scheduler's ordering law: the context with the greatest recursion depth
/// runs first, and ties go to the smallest current instruction pointer.
pub proof fn lemma_best_is_max(s: Seq<Context>, upto: int)
    requires
        1 <= upto <= s.len(),
    ensures
        0 <= spec_best(s, upto) < upto,
        forall|j: int| 0 <= j < upto ==> !beats(s[j], s[spec_best(s, upto)]),
    decreases upto,
{
    if upto > 1 {
        lemma_best_is_max(s, upto - 1);
        let b = spec_best(s, upto - 1);
        assert forall|j: int| 0 <= j < upto implies !beats(s[j], s[spec_best(s, upto)]) by {
            if j < upto - 1 {
                assert(!beats(s[j], s[b]));
            }
        }
    }
}

/// All the live contexts, and the registry of call identities that have not
/// produced a return value yet.
pub struct FullContext {
    pub contexts: Vec<Context>,
    /// Indexed by [`CallKey`]: `true` while no path has returned from the
    /// call.
    pub have_not_returned: Vec<bool>,
}

impl FullContext {
    /// One fresh root context and no registered calls.
    pub fn new() -> (r: FullContext)
        ensures
            r.contexts@.len() == 1,
            r.contexts@[0].recursion_depth == 0,
            r.contexts@[0].memory == 0,
            r.contexts@[0].pos_stack@.len() == 0,
            r.contexts@[0].group_stack@ =~= seq![Id::Specific(0)],
            r.contexts@[0].registers@.len() == 0,
            r.contexts@[0].stack@.len() == 0,
            r.contexts@[0].shape_wf(),
            r.have_not_returned@.len() == 0,
    {
        let mut contexts: Vec<Context> = Vec::new();
        contexts.push(Context::root());
        FullContext { contexts, have_not_returned: Vec::new() }
    }

    /// Whether any context is left.
    pub open spec fn spec_valid(&self) -> bool {
        self.contexts@.len() > 0
    }

    /// Whether any context is left.
    pub fn valid(&self) -> (r: bool)
        ensures
            r == self.spec_valid(),
    {
        self.contexts.len() > 0
    }

    /// The index of the scheduled context.
    pub open spec fn spec_best_idx(&self) -> int {
        spec_best(self.contexts@, self.contexts@.len() as int)
    }

    /// Selects the context to run: the first one that no other context
    /// beats under the depth-then-position order.
    pub fn best_idx(&self) -> (r: usize)
        requires
            self.spec_valid(),
        ensures
            r == self.spec_best_idx(),
            0 <= r < self.contexts@.len(),
            forall|j: int|
                0 <= j < self.contexts@.len() ==> !beats(
                    #[trigger] self.contexts@[j],
                    self.contexts@[r as int],
                ),
    {
        proof {
            lemma_best_is_max(self.contexts@, self.contexts@.len() as int);
        }
        let mut best: usize = 0;
        let n = self.contexts.len();
        for i in 1..n
            invariant
                n == self.contexts@.len(),
                1 <= n,
                best < i,
                best == spec_best(self.contexts@, i as int),
        {
            let c = &self.contexts[i];
            let b = &self.contexts[best];
            let is_better = c.recursion_depth > b.recursion_depth || (c.recursion_depth
                == b.recursion_depth && {
                let cip = if c.pos_stack.len() > 0 {
                    c.ip()
                } else {
                    0
                };
                let bip = if b.pos_stack.len() > 0 {
                    b.ip()
                } else {
                    0
                };
                cip < bip
            });
            if is_better {
                best = i;
            }
        }
        best
    }

    /// A reference to the scheduled context.
    pub fn current(&self) -> (r: &Context)
        requires
            self.spec_valid(),
        ensures
            *r == self.contexts@[self.spec_best_idx()],
    {
        let i = self.best_idx();
        &self.contexts[i]
    }

    /// Removes and returns the scheduled context, so the dispatch loop can
    /// run it; it is pushed back with [`FullContext::push_context`] unless it
    /// finished or was discarded.
    pub fn take_current(&mut self) -> (r: Context)
        requires
            old(self).spec_valid(),
        ensures
            r == old(self).contexts@[old(self).spec_best_idx()],
            final(self).contexts@ == old(self).contexts@.remove(old(self).spec_best_idx()),
            final(self).have_not_returned == old(self).have_not_returned,
            forall|j: int|
                0 <= j < old(self).contexts@.len() ==> !beats(
                    #[trigger] old(self).contexts@[j],
                    r,
                ),
    {
        let i = self.best_idx();
        self.contexts.remove(i)
    }

    /// Discards the scheduled context entirely: the speculative-path abort.
    pub fn yeet_current(&mut self)
        requires
            old(self).spec_valid(),
        ensures
            final(self).contexts@ == old(self).contexts@.remove(old(self).spec_best_idx()),
            final(self).have_not_returned == old(self).have_not_returned,
    {
        let i = self.best_idx();
        self.contexts.remove(i);
    }

    /// Inserts a context as an independent runnable entity.
    pub fn push_context(&mut self, c: Context)
        ensures
            final(self).contexts@ == old(self).contexts@.push(c),
            final(self).have_not_returned == old(self).have_not_returned,
    {
        self.contexts.push(c);
    }

    /// Registers a new in-flight call identity.
    pub fn new_call_key(&mut self) -> (r: CallKey)
        ensures
            r.0 == old(self).have_not_returned@.len(),
            final(self).have_not_returned@ == old(self).have_not_returned@.push(true),
            final(self).contexts == old(self).contexts,
    {
        let r = CallKey(self.have_not_returned.len());
        self.have_not_returned.push(true);
        r
    }

    /// Records that one path of call `k` has produced a return value.
    pub fn mark_returned(&mut self, k: CallKey)
        requires
            k.0 < old(self).have_not_returned@.len(),
        ensures
            final(self).have_not_returned@ == old(self).have_not_returned@.update(
                k.0 as int,
                false,
            ),
            final(self).contexts == old(self).contexts,
    {
        self.have_not_returned.set(k.0, false);
    }
}

} // verus!
