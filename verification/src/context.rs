//! Execution contexts: one logical thread of control with its call stack,
//! per-frame register files and operand stacks, recursion and step counters,
//! and the scoping stack of grouping ids.

use vstd::prelude::*;
use vstd::pervasive::VecAdditionalExecFns;

use crate::bytecode::VarID;
use crate::ids::Id;
use crate::sources::CodeArea;
use crate::value::{FuncCoord, ValueKey};

verus! {

/// One call identity, registered when a frame is pushed and resolved when a
/// path returns from it.
#[derive(Debug, Clone, Copy, PartialEq, Eq, Structural)]
pub struct CallKey(pub usize);

/// One frame of a context's call stack.
#[derive(Debug, Clone, PartialEq)]
pub struct CallStackItem {
    pub func: FuncCoord,
    pub ip: usize,
    /// The caller's register that receives the return value; `None` pushes
    /// the value onto the caller's operand stack instead.
    pub return_dest: Option<VarID>,
    pub call_key: CallKey,
    /// Where the call was written, for call-stack attribution.
    pub call_area: Option<CodeArea>,
}

/// The largest index at which `g` occurs in `s`, or `-1` if it does not.
pub open spec fn last_idx_of(s: Seq<Id>, g: Id) -> int
    decreases s.len(),
{
    if s.len() == 0 {
        -1
    } else if s.last() == g {
        s.len() - 1
    } else {
        last_idx_of(s.drop_last(), g)
    }
}

/// `last_idx_of` really is an occurrence, and the largest one.
pub proof fn lemma_last_idx_of(s: Seq<Id>, g: Id)
    requires
        s.contains(g),
    ensures
        0 <= last_idx_of(s, g) < s.len(),
        s[last_idx_of(s, g)] == g,
        forall|t: int| last_idx_of(s, g) < t < s.len() ==> s[t] != g,
    decreases s.len(),
{
    if s.len() > 0 && s.last() != g {
        let i = choose|i: int| 0 <= i < s.len() && s[i] == g;
        assert(s.drop_last()[i] == g);
        assert(s.drop_last().contains(g));
        lemma_last_idx_of(s.drop_last(), g);
        assert forall|t: int| last_idx_of(s, g) < t < s.len() implies s[t] != g by {
            if t < s.len() - 1 {
                assert(s.drop_last()[t] == s[t]);
            }
        }
    }
}

/// One logical thread of control.
#[derive(Debug, Clone, PartialEq)]
pub struct Context {
    /// Call nesting depth; the scheduler runs deeper contexts first.
    pub recursion_depth: usize,
    /// Monotone step counter, checked against the machine's ceiling.
    pub memory: usize,
    pub pos_stack: Vec<CallStackItem>,
    /// Grouping ids delimiting object emission; never empty.
    pub group_stack: Vec<Id>,
    /// One register file per frame, parallel to `pos_stack`.
    pub registers: Vec<Vec<ValueKey>>,
    /// One operand stack per frame, parallel to `pos_stack`.
    pub stack: Vec<Vec<ValueKey>>,
}

/// Scheduling priority: `a` runs strictly before `b` when its recursion
/// depth is greater, or equal with a smaller top instruction pointer.
pub open spec fn beats(a: Context, b: Context) -> bool {
    ||| a.recursion_depth > b.recursion_depth
    ||| (a.recursion_depth == b.recursion_depth && a.top_ip() < b.top_ip())
}

impl Context {
    /// The register files and operand stacks stay parallel to the call
    /// stack, and the group stack never drains.
    pub open spec fn shape_wf(&self) -> bool {
        &&& self.registers@.len() == self.pos_stack@.len()
        &&& self.stack@.len() == self.pos_stack@.len()
        &&& self.group_stack@.len() > 0
    }

    /// Whether the context still has frames to run.
    pub open spec fn spec_runnable(&self) -> bool {
        self.pos_stack@.len() > 0
    }

    /// The top frame's instruction pointer; `0` for a finished context.
    pub open spec fn top_ip(&self) -> int {
        if self.pos_stack@.len() > 0 {
            self.pos_stack@.last().ip as int
        } else {
            0
        }
    }

    /// A fresh root context, grouped under the specific id 0.
    pub fn root() -> (r: Context)
        ensures
            r.recursion_depth == 0,
            r.memory == 0,
            r.pos_stack@.len() == 0,
            r.group_stack@ =~= seq![Id::Specific(0)],
            r.registers@.len() == 0,
            r.stack@.len() == 0,
            r.shape_wf(),
    {
        let mut group_stack: Vec<Id> = Vec::new();
        group_stack.push(Id::Specific(0));
        Context {
            recursion_depth: 0,
            memory: 0,
            pos_stack: Vec::new(),
            group_stack,
            registers: Vec::new(),
            stack: Vec::new(),
        }
    }

    /// Whether the context still has frames to run.
    pub fn runnable(&self) -> (r: bool)
        ensures
            r == self.spec_runnable(),
    {
        self.pos_stack.len() > 0
    }

    /// The top frame's instruction pointer.
    pub fn ip(&self) -> (r: usize)
        requires
            self.spec_runnable(),
        ensures
            r == self.top_ip(),
    {
        self.pos_stack[self.pos_stack.len() - 1].ip
    }

    /// Moves the top frame's instruction pointer to `pos`.
    pub fn jump(&mut self, pos: usize)
        requires
            old(self).spec_runnable(),
        ensures
            final(self).pos_stack@ == old(self).pos_stack@.update(
                old(self).pos_stack@.len() - 1,
                CallStackItem { ip: pos, ..old(self).pos_stack@.last() },
            ),
            final(self).recursion_depth == old(self).recursion_depth,
            final(self).memory == old(self).memory,
            final(self).group_stack == old(self).group_stack,
            final(self).registers == old(self).registers,
            final(self).stack == old(self).stack,
    {
        let n = self.pos_stack.len() - 1;
        let item = CallStackItem {
            func: self.pos_stack[n].func,
            ip: pos,
            return_dest: self.pos_stack[n].return_dest,
            call_key: self.pos_stack[n].call_key,
            call_area: match &self.pos_stack[n].call_area {
                Some(a) => Some(a.dup()),
                None => None,
            },
        };
        self.pos_stack.set(n, item);
    }

    /// The innermost grouping id.
    pub fn group(&self) -> (r: Id)
        requires
            self.group_stack@.len() > 0,
        ensures
            r == self.group_stack@.last(),
    {
        self.group_stack[self.group_stack.len() - 1]
    }

    /// Enters a grouping construct: pushes its id.
    pub fn set_group_and_push(&mut self, group: Id)
        ensures
            final(self).group_stack@ == old(self).group_stack@.push(group),
            final(self).recursion_depth == old(self).recursion_depth,
            final(self).memory == old(self).memory,
            final(self).pos_stack == old(self).pos_stack,
            final(self).registers == old(self).registers,
            final(self).stack == old(self).stack,
    {
        self.group_stack.push(group);
    }

    /// Leaves a grouping construct: pops exactly one id.
    pub fn pop_group(&mut self) -> (r: Id)
        requires
            old(self).group_stack@.len() > 0,
        ensures
            r == old(self).group_stack@.last(),
            final(self).group_stack@ == old(self).group_stack@.drop_last(),
            final(self).recursion_depth == old(self).recursion_depth,
            final(self).memory == old(self).memory,
            final(self).pos_stack == old(self).pos_stack,
            final(self).registers == old(self).registers,
            final(self).stack == old(self).stack,
    {
        self.group_stack.pop().unwrap()
    }

    /// Pushes a value key onto the top frame's operand stack.
    pub fn push_val(&mut self, k: ValueKey)
        requires
            old(self).spec_runnable(),
            old(self).shape_wf(),
        ensures
            final(self).stack@.len() == old(self).stack@.len(),
            forall|i: int|
                0 <= i < old(self).stack@.len() - 1 ==> final(self).stack@[i] == old(
                    self,
                ).stack@[i],
            final(self).stack@.last()@ == old(self).stack@.last()@.push(k),
            final(self).pos_stack == old(self).pos_stack,
            final(self).registers == old(self).registers,
            final(self).group_stack == old(self).group_stack,
            final(self).recursion_depth == old(self).recursion_depth,
            final(self).memory == old(self).memory,
            final(self).shape_wf(),
            final(self).spec_runnable(),
    {
        let mut top = self.stack.pop().unwrap();
        top.push(k);
        self.stack.push(top);
    }

    /// Pops a value key from the top frame's operand stack, if any.
    pub fn pop_val(&mut self) -> (r: Option<ValueKey>)
        requires
            old(self).spec_runnable(),
            old(self).shape_wf(),
        ensures
            final(self).stack@.len() == old(self).stack@.len(),
            forall|i: int|
                0 <= i < old(self).stack@.len() - 1 ==> final(self).stack@[i] == old(
                    self,
                ).stack@[i],
            old(self).stack@.last()@.len() > 0 ==> (r == Some(old(self).stack@.last()@.last())
                && final(self).stack@.last()@ == old(self).stack@.last()@.drop_last()),
            old(self).stack@.last()@.len() == 0 ==> (r is None && final(self).stack@.last()@
                == old(self).stack@.last()@),
            final(self).pos_stack == old(self).pos_stack,
            final(self).registers == old(self).registers,
            final(self).group_stack == old(self).group_stack,
            final(self).recursion_depth == old(self).recursion_depth,
            final(self).memory == old(self).memory,
            final(self).shape_wf(),
            final(self).spec_runnable(),
    {
        let mut top = self.stack.pop().unwrap();
        let r = top.pop();
        self.stack.push(top);
        r
    }

    /// The key in register `v` of the top frame.
    pub fn reg_read(&self, v: usize) -> (r: ValueKey)
        requires
            self.spec_runnable(),
            self.shape_wf(),
            v < self.registers@.last()@.len(),
        ensures
            r == self.registers@.last()@[v as int],
    {
        self.registers[self.registers.len() - 1][v]
    }

    /// Writes `k` into register `v` of the top frame.
    pub fn reg_write(&mut self, v: usize, k: ValueKey)
        requires
            old(self).spec_runnable(),
            old(self).shape_wf(),
            v < old(self).registers@.last()@.len(),
        ensures
            final(self).registers@.len() == old(self).registers@.len(),
            forall|i: int|
                0 <= i < old(self).registers@.len() - 1 ==> final(self).registers@[i] == old(
                    self,
                ).registers@[i],
            final(self).registers@.last()@ == old(self).registers@.last()@.update(v as int, k),
            final(self).pos_stack == old(self).pos_stack,
            final(self).stack == old(self).stack,
            final(self).group_stack == old(self).group_stack,
            final(self).recursion_depth == old(self).recursion_depth,
            final(self).memory == old(self).memory,
            final(self).shape_wf(),
            final(self).spec_runnable(),
    {
        let mut regs = self.registers.pop().unwrap();
        regs.set(v, k);
        self.registers.push(regs);
    }

    /// Unwinds the group stack to the marker `group`: pops entries until the
    /// marker is popped, then pushes it back, so the current grouping context
    /// survives an early exit through several nested levels.
    pub fn pop_groups_until(&mut self, group: Id)
        requires
            old(self).group_stack@.contains(group),
        ensures
            final(self).group_stack@ == old(self).group_stack@.subrange(
                0,
                last_idx_of(old(self).group_stack@, group) + 1,
            ),
            final(self).group_stack@.len() > 0,
            final(self).group_stack@.last() == group,
            final(self).recursion_depth == old(self).recursion_depth,
            final(self).memory == old(self).memory,
            final(self).pos_stack == old(self).pos_stack,
            final(self).registers == old(self).registers,
            final(self).stack == old(self).stack,
    {
        proof {
            lemma_last_idx_of(old(self).group_stack@, group);
        }
        loop
            invariant
                old(self).group_stack@.contains(group),
                self.group_stack@.len() > 0,
                self.group_stack@.len() <= old(self).group_stack@.len(),
                self.group_stack@ == old(self).group_stack@.subrange(
                    0,
                    self.group_stack@.len() as int,
                ),
                last_idx_of(old(self).group_stack@, group) < self.group_stack@.len(),
                self.recursion_depth == old(self).recursion_depth,
                self.memory == old(self).memory,
                self.pos_stack == old(self).pos_stack,
                self.registers == old(self).registers,
                self.stack == old(self).stack,
            decreases self.group_stack@.len(),
        {
            proof {
                lemma_last_idx_of(old(self).group_stack@, group);
                let n = self.group_stack@.len() as int;
                assert(old(self).group_stack@.subrange(0, n)[n - 1] == old(self).group_stack@[n
                    - 1]);
                assert(self.group_stack@.last() == old(self).group_stack@[n - 1]);
            }
            let g = self.pop_group();
            if g == group {
                proof {
                    assert(self.group_stack@.len() == last_idx_of(old(self).group_stack@, group));
                }
                self.group_stack.push(group);
                proof {
                    assert(self.group_stack@ =~= old(self).group_stack@.subrange(
                        0,
                        last_idx_of(old(self).group_stack@, group) + 1,
                    ));
                }
                return ;
            }
        }
    }
}

} // verus!
