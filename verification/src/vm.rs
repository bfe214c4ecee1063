//! The virtual machine: the dispatch loop that fetches one instruction from
//! the scheduler-selected context, executes it against the arena, and
//! advances, together with the machine state one run owns — the arena, the
//! compiled programs, the live contexts, the emitted-object list and the
//! output log. Forking, calling and returning all happen here.

use vstd::prelude::*;

use crate::arena::{
    arg_keys_bounded, clone_pass, cloned_value, keys_bounded, memo_maps, memo_ok, Arena,
};
use crate::bytecode::{code_wf, instr_wf, Code, Instruction, Operator};
use crate::context::{CallStackItem, Context};
use crate::error::{ErrorKind, RuntimeError};
use crate::ids::Id;
use crate::scheduler::FullContext;
use crate::sources::CodeArea;
use crate::value::{
    Builtin, FloatMath, FuncCoord, IterState, MacroCode, ObjKeyType, ObjectType, StoredValue,
    Value, ValueKey,
};

verus! {

/// One emitted target object: its kind and its resolved key/value fields.
/// Only scalar values pass object validation, so the record is
/// self-contained.
#[derive(Debug, Clone, PartialEq)]
pub struct TriggerObject {
    pub typ: ObjectType,
    pub params: Vec<(ObjKeyType, Value)>,
}

/// Whether a macro value's coordinates agree with the program table: its
/// function exists and its parameter and capture lists have the declared
/// lengths, so calling it can never go out of bounds.
pub open spec fn macro_value_ok(v: Value, progs: Seq<Code>) -> bool {
    v matches Value::Macro(MacroCode::Normal { func, args, captured }) ==> {
        &&& func.program < progs.len()
        &&& func.func < progs[func.program as int].funcs@.len()
        &&& args@.len() == progs[func.program as int].funcs@[func.func as int].arg_ids@.len()
        &&& captured@.len()
            == progs[func.program as int].funcs@[func.func as int].capture_ids@.len()
    }
}

/// Every value in the arena is macro-coherent.
pub open spec fn macros_ok(m: Seq<StoredValue>, progs: Seq<Code>) -> bool {
    forall|j: int| 0 <= j < m.len() ==> macro_value_ok((#[trigger] m[j]).value, progs)
}

/// Every dict in the arena has pairwise distinct entry names.
pub open spec fn dicts_ok(m: Seq<StoredValue>) -> bool {
    forall|j: int| 0 <= j < m.len() ==> crate::value::dict_names_unique((#[trigger] m[j]).value)
}

/// Dict-name uniqueness survives a cloning pass: cloning keeps every dict's
/// entry names verbatim.
pub proof fn lemma_dicts_ok_clone(
    m0: Seq<StoredValue>,
    m1: Seq<StoredValue>,
    memo: Seq<Option<ValueKey>>,
)
    requires
        clone_pass(m0, m1, memo),
        dicts_ok(m0),
        m1.len() <= usize::MAX,
    ensures
        dicts_ok(m1),
{
    assert forall|j: int| 0 <= j < m1.len() implies crate::value::dict_names_unique(
        (#[trigger] m1[j]).value,
    ) by {
        if j < m0.len() {
            assert(m1[j] == m0[j]);
        } else {
            assert(crate::arena::is_image(memo, j));
            let i = choose|i: int|
                0 <= i < memo.len() && memo[i] == Some(ValueKey(j as usize));
            assert(m1[i] == m0[i]);
            assert(crate::value::dict_names_unique(m0[i].value));
            assert(cloned_value(memo, m1[i].value, m1[j].value));
        }
    }
}

/// One frame is well-formed: its coordinates point into the program table,
/// its instruction pointer is at most the function length (equal means the
/// frame is finished), its register file has the module's declared size, all
/// its keys dereference, and its call identity is registered.
pub open spec fn frame_wf(
    item: CallStackItem,
    regs: Seq<ValueKey>,
    stk: Seq<ValueKey>,
    progs: Seq<Code>,
    mlen: int,
    nkeys: int,
) -> bool {
    &&& item.func.program < progs.len()
    &&& item.func.func < progs[item.func.program as int].funcs@.len()
    &&& item.ip
        <= progs[item.func.program as int].funcs@[item.func.func as int].instructions@.len()
    &&& regs.len() == progs[item.func.program as int].var_count
    &&& forall|i: int| 0 <= i < regs.len() ==> (#[trigger] regs[i]).0 < mlen
    &&& forall|i: int| 0 <= i < stk.len() ==> (#[trigger] stk[i]).0 < mlen
    &&& item.call_key.0 < nkeys
}

/// A context is well-formed against the machine: parallel stacks, every
/// frame well-formed, and every return destination a register of the frame
/// below.
pub open spec fn ctx_wf(c: Context, progs: Seq<Code>, mlen: int, nkeys: int) -> bool {
    &&& c.shape_wf()
    &&& forall|f: int|
        0 <= f < c.pos_stack@.len() ==> frame_wf(
            #[trigger] c.pos_stack@[f],
            c.registers@[f]@,
            c.stack@[f]@,
            progs,
            mlen,
            nkeys,
        )
    &&& forall|f: int|
        0 <= f < c.pos_stack@.len() ==> ((#[trigger] c.pos_stack@[f]).return_dest matches Some(v)
            ==> f >= 1 && v.0 < c.registers@[f - 1]@.len())
}

/// A context's well-formedness survives growing the arena and the call
/// registry.
pub proof fn lemma_ctx_wf_grow(
    c: Context,
    progs: Seq<Code>,
    mlen1: int,
    nkeys1: int,
    mlen2: int,
    nkeys2: int,
)
    requires
        ctx_wf(c, progs, mlen1, nkeys1),
        mlen1 <= mlen2,
        nkeys1 <= nkeys2,
    ensures
        ctx_wf(c, progs, mlen2, nkeys2),
{
    assert forall|f: int| 0 <= f < c.pos_stack@.len() implies frame_wf(
        #[trigger] c.pos_stack@[f],
        c.registers@[f]@,
        c.stack@[f]@,
        progs,
        mlen2,
        nkeys2,
    ) by {
        assert(frame_wf(c.pos_stack@[f], c.registers@[f]@, c.stack@[f]@, progs, mlen1, nkeys1));
    }
}

/// Macro coherence survives a cloning pass: every appended slot is the image
/// of an original one, and cloning keeps a macro's coordinates and the
/// lengths of its parameter and capture lists.
pub proof fn lemma_macros_ok_clone(
    m0: Seq<StoredValue>,
    m1: Seq<StoredValue>,
    memo: Seq<Option<ValueKey>>,
    progs: Seq<Code>,
)
    requires
        clone_pass(m0, m1, memo),
        macros_ok(m0, progs),
        m1.len() <= usize::MAX,
    ensures
        macros_ok(m1, progs),
{
    assert forall|j: int| 0 <= j < m1.len() implies macro_value_ok(
        (#[trigger] m1[j]).value,
        progs,
    ) by {
        if j < m0.len() {
            assert(m1[j] == m0[j]);
        } else {
            assert(crate::arena::is_image(memo, j));
            let i = choose|i: int|
                0 <= i < memo.len() && memo[i] == Some(ValueKey(j as usize));
            assert(m1[i] == m0[i]);
            assert(macro_value_ok(m0[i].value, progs));
            assert(cloned_value(memo, m1[i].value, m1[j].value));
        }
    }
}

/// One member table installed by `Impl`: the type it extends and its named
/// members.
#[derive(Debug, Clone, PartialEq)]
pub struct ImplEntry {
    pub typ: crate::value::ValueType,
    pub members: Vec<(String, ValueKey)>,
}

/// The entry's member keys all dereference.
pub open spec fn impl_entry_ok(e: ImplEntry, mlen: int) -> bool {
    forall|j: int| 0 <= j < e.members@.len() ==> (#[trigger] e.members@[j]).1.0 < mlen
}

/// The virtual machine: all state one run owns.
pub struct Vm {
    pub memory: Arena,
    /// The compiled programs; index 0 is the root program, the others are
    /// importable modules.
    pub programs: Vec<Code>,
    /// The builtin table; `CallBuiltin` indexes into it. The name-to-key
    /// mapping is the external compiler's business.
    pub builtins: Vec<Builtin>,
    pub contexts: FullContext,
    /// Member tables installed by `Impl`.
    pub impls: Vec<ImplEntry>,
    /// The emitted objects, in dispatch order.
    pub objects: Vec<TriggerObject>,
    /// Groups fired by `TriggerFuncCall`, in dispatch order.
    pub spawned: Vec<Id>,
    /// Lines produced by `Print`, in dispatch order.
    pub output: Vec<String>,
    /// The value of the first context whose root frame returned.
    pub result: Option<StoredValue>,
    /// The group of the most recent `EnterTriggerFunction`, pushed by
    /// `PushTriggerFn`.
    pub trigger_fn_group: Id,
    /// Counter for auto-assigned group ids.
    pub next_group: u16,
    /// Calls nested deeper than this fail their context.
    pub recursion_limit: usize,
    /// A context that executes more steps than this fails.
    pub step_limit: usize,
    /// The configurable rule for `AddObjectInTriggerContext`: when set,
    /// emitting an object from inside any trigger-function scope fails.
    pub restrict_object_add: bool,
}

impl Vm {
    /// The arena is well-formed, the shared empty value sits in slot 0, and
    /// every stored macro is coherent with the program table.
    pub open spec fn mem_ok(&self) -> bool {
        &&& self.memory.wf()
        &&& self.memory@.len() > 0
        &&& self.memory@[0].value == Value::Empty
        &&& macros_ok(self.memory@, self.programs@)
        &&& dicts_ok(self.memory@)
    }

    /// Every program is well-formed against the machine.
    pub open spec fn progs_ok(&self) -> bool {
        &&& self.programs@.len() > 0
        &&& forall|p: int|
            0 <= p < self.programs@.len() ==> code_wf(
                #[trigger] self.programs@[p],
                self.programs@.len() as int,
                self.builtins@.len() as int,
            )
    }

    /// Every live context is well-formed.
    pub open spec fn ctxs_ok(&self) -> bool {
        forall|i: int|
            0 <= i < self.contexts.contexts@.len() ==> ctx_wf(
                #[trigger] self.contexts.contexts@[i],
                self.programs@,
                self.memory@.len() as int,
                self.contexts.have_not_returned@.len() as int,
            )
    }

    /// Every installed member table points into the arena.
    pub open spec fn impls_ok(&self) -> bool {
        forall|i: int|
            0 <= i < self.impls@.len() ==> impl_entry_ok(
                #[trigger] self.impls@[i],
                self.memory@.len() as int,
            )
    }

    /// The machine invariant: everything the dispatch loop relies on.
    pub open spec fn wf(&self) -> bool {
        &&& self.mem_ok()
        &&& self.progs_ok()
        &&& self.ctxs_ok()
        &&& self.impls_ok()
    }

    /// Builds a machine over validated programs: checks every pool index and
    /// jump target, seeds the arena with the shared empty value, and sets up
    /// the root context at the first instruction of the root program's first
    /// function. Succeeds exactly when there is a root program and every
    /// program is well-formed; returns nothing otherwise.
    pub fn new(programs: Vec<Code>, builtins: Vec<Builtin>) -> (r: Option<Vm>)
        ensures
            r is Some <==> (programs@.len() > 0 && forall|p: int|
                0 <= p < programs@.len() ==> code_wf(
                    #[trigger] programs@[p],
                    programs@.len() as int,
                    builtins@.len() as int,
                )),
            r matches Some(vm) ==> {
                &&& vm.wf()
                &&& vm.contexts.spec_valid()
                &&& vm.programs == programs
                &&& vm.builtins == builtins
                &&& vm.memory@.len() == 1
                &&& vm.impls@.len() == 0
                &&& vm.objects@.len() == 0
                &&& vm.spawned@.len() == 0
                &&& vm.output@.len() == 0
                &&& vm.result is None
                &&& vm.contexts.contexts@.len() == 1
                &&& ({
                    let root = vm.contexts.contexts@[0];
                    &&& root.recursion_depth == 0
                    &&& root.memory == 0
                    &&& root.pos_stack@.len() == 1
                    &&& root.pos_stack@[0].func == (FuncCoord { program: 0, func: 0 })
                    &&& root.pos_stack@[0].ip == 0
                    &&& root.pos_stack@[0].return_dest is None
                    &&& root.group_stack@ =~= seq![Id::Specific(0)]
                    &&& root.registers@.len() == 1
                    &&& root.registers@[0]@.len() == programs@[0].var_count
                    &&& (forall|i: int|
                        0 <= i < root.registers@[0]@.len()
                            ==> (#[trigger] root.registers@[0]@[i]).0 == 0)
                    &&& root.stack@.len() == 1
                    &&& root.stack@[0]@.len() == 0
                })
            },
    {
        if programs.len() == 0 {
            return None;
        }
        let np = programs.len();
        for p in 0..np
            invariant
                np == programs@.len(),
                forall|q: int|
                    0 <= q < p ==> code_wf(
                        #[trigger] programs@[q],
                        programs@.len() as int,
                        builtins@.len() as int,
                    ),
        {
            if !programs[p].check(np, builtins.len()) {
                return None;
            }
        }
        let mut memory = Arena::new();
        let empty_key = memory.insert(
            StoredValue { value: Value::Empty, area: CodeArea::internal() },
        );
        let mut contexts = FullContext::new();
        let mut root = contexts.take_current();
        let call_key = contexts.new_call_key();
        let var_count = programs[0].var_count;
        root.pos_stack.push(
            CallStackItem {
                func: FuncCoord { program: 0, func: 0 },
                ip: 0,
                return_dest: None,
                call_key,
                call_area: None,
            },
        );
        root.registers.push(make_regs(var_count, empty_key));
        root.stack.push(Vec::new());
        contexts.push_context(root);
        let vm = Vm {
            memory,
            programs,
            builtins,
            contexts,
            impls: Vec::new(),
            objects: Vec::new(),
            spawned: Vec::new(),
            output: Vec::new(),
            result: None,
            trigger_fn_group: Id::Specific(0),
            next_group: 1,
            recursion_limit: 1000,
            step_limit: 1000000,
            restrict_object_add: false,
        };
        Some(vm)
    }

    /// Stores a value in a fresh arena slot. The machine invariant asks that
    /// the value's keys dereference and that a macro value is coherent.
    pub fn store(&mut self, v: Value, area: CodeArea) -> (r: ValueKey)
        requires
            old(self).wf(),
            keys_bounded(v, old(self).memory@.len() as int),
            macro_value_ok(v, old(self).programs@),
            crate::value::dict_names_unique(v),
        ensures
            final(self).wf(),
            final(self).memory@ == old(self).memory@.push(StoredValue { value: v, area }),
            r.0 == old(self).memory@.len(),
            final(self).programs == old(self).programs,
            final(self).builtins == old(self).builtins,
            final(self).contexts == old(self).contexts,
            final(self).impls == old(self).impls,
            final(self).objects == old(self).objects,
            final(self).spawned == old(self).spawned,
            final(self).output == old(self).output,
            final(self).result == old(self).result,
            final(self).trigger_fn_group == old(self).trigger_fn_group,
            final(self).next_group == old(self).next_group,
            final(self).recursion_limit == old(self).recursion_limit,
            final(self).step_limit == old(self).step_limit,
            final(self).restrict_object_add == old(self).restrict_object_add,
    {
        let r = self.memory.insert(StoredValue { value: v, area });
        proof {
            assert forall|i: int| 0 <= i < self.contexts.contexts@.len() implies ctx_wf(
                #[trigger] self.contexts.contexts@[i],
                self.programs@,
                self.memory@.len() as int,
                self.contexts.have_not_returned@.len() as int,
            ) by {
                lemma_ctx_wf_grow(
                    self.contexts.contexts@[i],
                    self.programs@,
                    old(self).memory@.len() as int,
                    self.contexts.have_not_returned@.len() as int,
                    self.memory@.len() as int,
                    self.contexts.have_not_returned@.len() as int,
                );
            }
            assert forall|i: int| 0 <= i < self.impls@.len() implies impl_entry_ok(
                #[trigger] self.impls@[i],
                self.memory@.len() as int,
            ) by {
                assert(impl_entry_ok(self.impls@[i], old(self).memory@.len() as int));
            }
        }
        r
    }
}

impl Vm {
    /// Forks a context: clones its full state, replacing every key in every
    /// register file and operand stack of the clone with an arena deep clone,
    /// deduplicated within the fork — register slots that held the identical
    /// key in the original hold one identical fresh key in the fork, slots
    /// that held distinct keys stay distinct, and every key of the fork is
    /// fresh. The original context is left untouched; the caller inserts the
    /// fork into the scheduler.
    pub fn fork_context(&mut self, ctx: &Context) -> (r: Context)
        requires
            old(self).wf(),
            ctx_wf(
                *ctx,
                old(self).programs@,
                old(self).memory@.len() as int,
                old(self).contexts.have_not_returned@.len() as int,
            ),
        ensures
            final(self).wf(),
            old(self).memory@.is_prefix_of(final(self).memory@),
            final(self).programs == old(self).programs,
            final(self).builtins == old(self).builtins,
            final(self).contexts == old(self).contexts,
            final(self).impls == old(self).impls,
            final(self).objects == old(self).objects,
            final(self).spawned == old(self).spawned,
            final(self).output == old(self).output,
            final(self).result == old(self).result,
            final(self).trigger_fn_group == old(self).trigger_fn_group,
            final(self).next_group == old(self).next_group,
            final(self).recursion_limit == old(self).recursion_limit,
            final(self).step_limit == old(self).step_limit,
            final(self).restrict_object_add == old(self).restrict_object_add,
            ctx_wf(
                r,
                final(self).programs@,
                final(self).memory@.len() as int,
                final(self).contexts.have_not_returned@.len() as int,
            ),
            r.recursion_depth == ctx.recursion_depth,
            r.memory == ctx.memory,
            r.pos_stack@ == ctx.pos_stack@,
            r.group_stack@ == ctx.group_stack@,
            r.registers@.len() == ctx.registers@.len(),
            r.stack@.len() == ctx.stack@.len(),
            forall|f: int|
                0 <= f < ctx.registers@.len() ==> (#[trigger] r.registers@[f])@.len()
                    == ctx.registers@[f]@.len(),
            forall|f: int|
                0 <= f < ctx.stack@.len() ==> (#[trigger] r.stack@[f])@.len()
                    == ctx.stack@[f]@.len(),
            forall|f: int, i: int|
                0 <= f < ctx.registers@.len() && 0 <= i < ctx.registers@[f]@.len()
                    ==> old(self).memory@.len() <= (#[trigger] r.registers@[f]@[i]).0
                    < final(self).memory@.len(),
            forall|f: int, i: int|
                0 <= f < ctx.stack@.len() && 0 <= i < ctx.stack@[f]@.len() ==> old(
                    self,
                ).memory@.len() <= (#[trigger] r.stack@[f]@[i]).0 < final(self).memory@.len(),
            forall|f1: int, i1: int, f2: int, i2: int|
                0 <= f1 < ctx.registers@.len() && 0 <= i1 < ctx.registers@[f1]@.len() && 0 <= f2
                    < ctx.registers@.len() && 0 <= i2 < ctx.registers@[f2]@.len() ==> ((
                ctx.registers@[f1]@[i1] == ctx.registers@[f2]@[i2]) <==> ((
                #[trigger] r.registers@[f1]@[i1]) == (#[trigger] r.registers@[f2]@[i2]))),
            exists|memo: Seq<Option<ValueKey>>|
                {
                    &&& #[trigger] clone_pass(old(self).memory@, final(self).memory@, memo)
                    &&& forall|f: int, i: int|
                        0 <= f < ctx.registers@.len() && 0 <= i < ctx.registers@[f]@.len()
                            ==> memo_maps(memo, ctx.registers@[f]@[i], #[trigger] r.registers@[f]@[i])
                    &&& forall|f: int, i: int|
                        0 <= f < ctx.stack@.len() && 0 <= i < ctx.stack@[f]@.len() ==> memo_maps(
                            memo,
                            ctx.stack@[f]@[i],
                            #[trigger] r.stack@[f]@[i],
                        )
                },
    {
        let ghost m0 = self.memory@;
        let mut memo = self.memory.fresh_memo();
        proof {
            assert(memo_ok(self.memory@, memo@));
            assert forall|f: int, i: int|
                0 <= f < ctx.registers@.len() && 0 <= i
                    < ctx.registers@[f]@.len() implies (#[trigger] ctx.registers@[f]@[i]).0
                < memo@.len() by {
                assert(frame_wf(
                    ctx.pos_stack@[f],
                    ctx.registers@[f]@,
                    ctx.stack@[f]@,
                    self.programs@,
                    m0.len() as int,
                    old(self).contexts.have_not_returned@.len() as int,
                ));
            }
            assert forall|f: int, i: int|
                0 <= f < ctx.stack@.len() && 0 <= i
                    < ctx.stack@[f]@.len() implies (#[trigger] ctx.stack@[f]@[i]).0
                < memo@.len() by {
                assert(frame_wf(
                    ctx.pos_stack@[f],
                    ctx.registers@[f]@,
                    ctx.stack@[f]@,
                    self.programs@,
                    m0.len() as int,
                    old(self).contexts.have_not_returned@.len() as int,
                ));
            }
        }
        let registers = self.memory.clone_key_table(&ctx.registers, &mut memo);
        let stack = self.memory.clone_key_table(&ctx.stack, &mut memo);
        let pos_stack = dup_call_stack(&ctx.pos_stack);
        let group_stack = dup_groups(&ctx.group_stack);
        let r = Context {
            recursion_depth: ctx.recursion_depth,
            memory: ctx.memory,
            pos_stack,
            group_stack,
            registers,
            stack,
        };
        proof {
            let memo_w = memo@;
            assert(clone_pass(m0, self.memory@, memo_w));
            self.memory.lemma_len_bound();
            lemma_macros_ok_clone(m0, self.memory@, memo_w, self.programs@);
            lemma_dicts_ok_clone(m0, self.memory@, memo_w);
            assert forall|i: int| 0 <= i < self.contexts.contexts@.len() implies ctx_wf(
                #[trigger] self.contexts.contexts@[i],
                self.programs@,
                self.memory@.len() as int,
                self.contexts.have_not_returned@.len() as int,
            ) by {
                lemma_ctx_wf_grow(
                    self.contexts.contexts@[i],
                    self.programs@,
                    m0.len() as int,
                    self.contexts.have_not_returned@.len() as int,
                    self.memory@.len() as int,
                    self.contexts.have_not_returned@.len() as int,
                );
            }
            assert forall|i: int| 0 <= i < self.impls@.len() implies impl_entry_ok(
                #[trigger] self.impls@[i],
                self.memory@.len() as int,
            ) by {
                assert(impl_entry_ok(self.impls@[i], m0.len() as int));
            }
            // The fork's keys are the memo images of the original keys:
            // fresh, and shared exactly where the originals were.
            assert forall|f: int, i: int|
                0 <= f < ctx.registers@.len() && 0 <= i
                    < ctx.registers@[f]@.len() implies m0.len() <= (
            #[trigger] r.registers@[f]@[i]).0 < self.memory@.len() by {
                assert(memo_maps(memo_w, ctx.registers@[f]@[i], r.registers@[f]@[i]));
            }
            assert forall|f: int, i: int|
                0 <= f < ctx.stack@.len() && 0 <= i < ctx.stack@[f]@.len() implies m0.len() <= (
            #[trigger] r.stack@[f]@[i]).0 < self.memory@.len() by {
                assert(memo_maps(memo_w, ctx.stack@[f]@[i], r.stack@[f]@[i]));
            }
            assert forall|f1: int, i1: int, f2: int, i2: int|
                0 <= f1 < ctx.registers@.len() && 0 <= i1 < ctx.registers@[f1]@.len() && 0 <= f2
                    < ctx.registers@.len() && 0 <= i2 < ctx.registers@[f2]@.len() implies ((
            ctx.registers@[f1]@[i1] == ctx.registers@[f2]@[i2]) <==> ((
            #[trigger] r.registers@[f1]@[i1]) == (#[trigger] r.registers@[f2]@[i2]))) by {
                assert(memo_maps(memo_w, ctx.registers@[f1]@[i1], r.registers@[f1]@[i1]));
                assert(memo_maps(memo_w, ctx.registers@[f2]@[i2], r.registers@[f2]@[i2]));
                if r.registers@[f1]@[i1] == r.registers@[f2]@[i2] {
                    assert(memo_w[ctx.registers@[f1]@[i1].0 as int] is Some);
                    assert(memo_w[ctx.registers@[f2]@[i2].0 as int] is Some);
                    assert(ctx.registers@[f1]@[i1].0 == ctx.registers@[f2]@[i2].0);
                }
            }
            // The fork is well-formed: same frames, register files of the
            // same sizes, every key fresh but dereferenceable.
            assert forall|f: int| 0 <= f < r.pos_stack@.len() implies frame_wf(
                #[trigger] r.pos_stack@[f],
                r.registers@[f]@,
                r.stack@[f]@,
                self.programs@,
                self.memory@.len() as int,
                self.contexts.have_not_returned@.len() as int,
            ) by {
                assert(frame_wf(
                    ctx.pos_stack@[f],
                    ctx.registers@[f]@,
                    ctx.stack@[f]@,
                    self.programs@,
                    m0.len() as int,
                    old(self).contexts.have_not_returned@.len() as int,
                ));
                assert forall|i: int|
                    0 <= i < r.registers@[f]@.len() implies (#[trigger] r.registers@[f]@[i]).0
                    < self.memory@.len() by {
                    assert(memo_maps(memo_w, ctx.registers@[f]@[i], r.registers@[f]@[i]));
                }
                assert forall|i: int|
                    0 <= i < r.stack@[f]@.len() implies (#[trigger] r.stack@[f]@[i]).0
                    < self.memory@.len() by {
                    assert(memo_maps(memo_w, ctx.stack@[f]@[i], r.stack@[f]@[i]));
                }
            }
        }
        r
    }
}

/// A context equal to a well-formed one everywhere but in its top register
/// file and top operand stack, whose keys all dereference, is well-formed.
pub proof fn lemma_ctx_wf_update(
    c1: Context,
    c2: Context,
    progs: Seq<Code>,
    mlen1: int,
    mlen2: int,
    nkeys: int,
)
    requires
        ctx_wf(c1, progs, mlen1, nkeys),
        mlen1 <= mlen2,
        c2.pos_stack@.len() == c1.pos_stack@.len(),
        forall|f: int|
            0 <= f < c1.pos_stack@.len() - 1 ==> c2.pos_stack@[f] == c1.pos_stack@[f],
        c1.pos_stack@.len() > 0 ==> {
            let t1 = c1.pos_stack@.last();
            let t2 = c2.pos_stack@.last();
            &&& t2.func == t1.func
            &&& t2.return_dest == t1.return_dest
            &&& t2.call_key == t1.call_key
            &&& t2.ip
                <= progs[t1.func.program as int].funcs@[t1.func.func as int].instructions@.len()
        },
        c2.group_stack@.len() > 0,
        c2.registers@.len() == c1.registers@.len(),
        c2.stack@.len() == c1.stack@.len(),
        forall|f: int| 0 <= f < c1.registers@.len() - 1 ==> c2.registers@[f] == c1.registers@[f],
        forall|f: int| 0 <= f < c1.stack@.len() - 1 ==> c2.stack@[f] == c1.stack@[f],
        c1.registers@.len() > 0 ==> {
            &&& c2.registers@.last()@.len() == c1.registers@.last()@.len()
            &&& forall|i: int|
                0 <= i < c2.registers@.last()@.len() ==> (#[trigger] c2.registers@.last()@[i]).0
                    < mlen2
            &&& forall|i: int|
                0 <= i < c2.stack@.last()@.len() ==> (#[trigger] c2.stack@.last()@[i]).0 < mlen2
        },
    ensures
        ctx_wf(c2, progs, mlen2, nkeys),
{
    assert forall|f: int| 0 <= f < c2.pos_stack@.len() implies frame_wf(
        #[trigger] c2.pos_stack@[f],
        c2.registers@[f]@,
        c2.stack@[f]@,
        progs,
        mlen2,
        nkeys,
    ) by {
        assert(frame_wf(c1.pos_stack@[f], c1.registers@[f]@, c1.stack@[f]@, progs, mlen1, nkeys));
        if f < c1.pos_stack@.len() - 1 {
            assert(c2.pos_stack@[f] == c1.pos_stack@[f]);
            assert(c2.registers@[f] == c1.registers@[f]);
            assert(c2.stack@[f] == c1.stack@[f]);
        } else {
            assert(c2.pos_stack@[f] == c2.pos_stack@.last());
            assert(c2.registers@[f] == c2.registers@.last());
            assert(c2.stack@[f] == c2.stack@.last());
        }
    }
    assert forall|f: int|
        0 <= f < c2.pos_stack@.len() implies ((#[trigger] c2.pos_stack@[f]).return_dest
        matches Some(v) ==> f >= 1 && v.0 < c2.registers@[f - 1]@.len()) by {
        if f < c1.pos_stack@.len() - 1 {
            assert(c2.pos_stack@[f] == c1.pos_stack@[f]);
        }
        if c2.pos_stack@[f].return_dest is Some {
            assert(c1.pos_stack@[f].return_dest == c2.pos_stack@[f].return_dest);
            assert(frame_wf(
                c1.pos_stack@[f - 1],
                c1.registers@[f - 1]@,
                c1.stack@[f - 1]@,
                progs,
                mlen1,
                nkeys,
            ));
        }
    }
}

/// The error `kind`, raised under `ctx`'s call stack.
pub fn raise(kind: ErrorKind, ctx: &Context) -> (r: RuntimeError)
    ensures
        r.kind == kind,
        r.call_stack@ == ctx.pos_stack@,
{
    RuntimeError::with_stack(kind, dup_call_stack(&ctx.pos_stack))
}

impl Vm {
    /// Reinserts the running context and restores the machine invariant.
    fn finish(&mut self, ctx: Context)
        requires
            old(self).wf(),
            ctx_wf(
                ctx,
                old(self).programs@,
                old(self).memory@.len() as int,
                old(self).contexts.have_not_returned@.len() as int,
            ),
        ensures
            final(self).wf(),
            final(self).contexts.contexts@ == old(self).contexts.contexts@.push(ctx),
            final(self).contexts.have_not_returned == old(self).contexts.have_not_returned,
            final(self).memory == old(self).memory,
            final(self).programs == old(self).programs,
            final(self).builtins == old(self).builtins,
            final(self).impls == old(self).impls,
            final(self).objects == old(self).objects,
            final(self).spawned == old(self).spawned,
            final(self).output == old(self).output,
            final(self).result == old(self).result,
            final(self).trigger_fn_group == old(self).trigger_fn_group,
            final(self).next_group == old(self).next_group,
            final(self).recursion_limit == old(self).recursion_limit,
            final(self).step_limit == old(self).step_limit,
            final(self).restrict_object_add == old(self).restrict_object_add,
    {
        self.contexts.push_context(ctx);
    }

    /// Stores `v` in a fresh slot, pushes its key onto the running context's
    /// operand stack and moves its instruction pointer to `next_ip`: the tail
    /// every value-producing instruction shares.
    fn push_new(&mut self, ctx: &mut Context, v: Value, area: CodeArea, next_ip: usize)
        requires
            old(self).wf(),
            ctx_wf(
                *old(ctx),
                old(self).programs@,
                old(self).memory@.len() as int,
                old(self).contexts.have_not_returned@.len() as int,
            ),
            old(ctx).spec_runnable(),
            keys_bounded(v, old(self).memory@.len() as int),
            macro_value_ok(v, old(self).programs@),
            crate::value::dict_names_unique(v),
            ({
                let t = old(ctx).pos_stack@.last();
                next_ip <= old(
                    self,
                ).programs@[t.func.program as int].funcs@[t.func.func as int].instructions@.len()
            }),
        ensures
            final(self).wf(),
            final(self).memory@ == old(self).memory@.push(StoredValue { value: v, area }),
            final(self).programs == old(self).programs,
            final(self).builtins == old(self).builtins,
            final(self).contexts == old(self).contexts,
            final(self).impls == old(self).impls,
            final(self).objects == old(self).objects,
            final(self).spawned == old(self).spawned,
            final(self).output == old(self).output,
            final(self).result == old(self).result,
            final(self).trigger_fn_group == old(self).trigger_fn_group,
            final(self).next_group == old(self).next_group,
            final(self).recursion_limit == old(self).recursion_limit,
            final(self).step_limit == old(self).step_limit,
            final(self).restrict_object_add == old(self).restrict_object_add,
            ctx_wf(
                *final(ctx),
                final(self).programs@,
                final(self).memory@.len() as int,
                final(self).contexts.have_not_returned@.len() as int,
            ),
            final(ctx).spec_runnable(),
            final(ctx).pos_stack@ == old(ctx).pos_stack@.update(
                old(ctx).pos_stack@.len() - 1,
                CallStackItem { ip: next_ip, ..old(ctx).pos_stack@.last() },
            ),
            final(ctx).registers == old(ctx).registers,
            final(ctx).group_stack == old(ctx).group_stack,
            final(ctx).recursion_depth == old(ctx).recursion_depth,
            final(ctx).memory == old(ctx).memory,
            final(ctx).stack@.len() == old(ctx).stack@.len(),
            forall|f: int|
                0 <= f < old(ctx).stack@.len() - 1 ==> final(ctx).stack@[f] == old(
                    ctx,
                ).stack@[f],
            final(ctx).stack@.last()@ == old(ctx).stack@.last()@.push(
                ValueKey(old(self).memory@.len() as usize),
            ),
    {
        let k = self.store(v, area);
        ctx.push_val(k);
        ctx.jump(next_ip);
        proof {
            self.memory.lemma_len_bound();
            lemma_ctx_wf_update(
                *old(ctx),
                *ctx,
                self.programs@,
                old(self).memory@.len() as int,
                self.memory@.len() as int,
                self.contexts.have_not_returned@.len() as int,
            );
        }
    }
}

/// The running context agrees with the machine: the machine invariant holds
/// and the context is well-formed and has a frame to run.
pub open spec fn vm_ctx_ok(vm: Vm, ctx: Context) -> bool {
    &&& vm.wf()
    &&& ctx_wf(
        ctx,
        vm.programs@,
        vm.memory@.len() as int,
        vm.contexts.have_not_returned@.len() as int,
    )
    &&& ctx.spec_runnable()
}

/// What one dispatch step guarantees: the invariant holds again, the arena,
/// object list and output only grew, a recorded result stays recorded, and
/// the programs are untouched.
pub open spec fn step_post(pre: Vm, post: Vm) -> bool {
    &&& post.wf()
    &&& pre.memory@.is_prefix_of(post.memory@)
    &&& pre.objects@.is_prefix_of(post.objects@)
    &&& pre.output@.is_prefix_of(post.output@)
    &&& pre.spawned@.is_prefix_of(post.spawned@)
    &&& (pre.result is Some ==> post.result == pre.result)
    &&& post.programs == pre.programs
    &&& post.builtins == pre.builtins
}

/// The position facts the dispatcher hands each instruction handler: `fc`
/// and `ip` name the top frame's position, the fetched instruction sits
/// there, and the frame is not finished.
pub open spec fn fetched(
    vm: Vm,
    ctx: Context,
    instr: Instruction,
    fc: FuncCoord,
    ip: usize,
    func_len: usize,
) -> bool {
    &&& ctx.pos_stack@.last().func == fc
    &&& ctx.pos_stack@.last().ip == ip
    &&& func_len
        == vm.programs@[fc.program as int].funcs@[fc.func as int].instructions@.len()
    &&& ip < func_len
    &&& instr == vm.programs@[fc.program as int].funcs@[fc.func as int].instructions@[ip as int].0
}

/// The live contexts besides the scheduled one, in scheduler order.
pub open spec fn sched_rest(vm: Vm) -> Seq<Context> {
    vm.contexts.contexts@.remove(vm.contexts.spec_best_idx())
}

/// The scheduled context with one dispatch step charged to its counter.
pub open spec fn charged(c: Context) -> Context {
    Context { memory: (c.memory + 1) as usize, ..c }
}

/// Everything but the arena and the scheduled context is untouched: the
/// emitted objects, the output, the fired groups, the recorded result, the
/// member tables, the call registry and the configuration all stay.
pub open spec fn effects_same(pre: Vm, post: Vm) -> bool {
    &&& post.impls == pre.impls
    &&& post.objects == pre.objects
    &&& post.spawned == pre.spawned
    &&& post.output == pre.output
    &&& post.result == pre.result
    &&& post.contexts.have_not_returned == pre.contexts.have_not_returned
    &&& post.trigger_fn_group == pre.trigger_fn_group
    &&& post.next_group == pre.next_group
    &&& post.recursion_limit == pre.recursion_limit
    &&& post.step_limit == pre.step_limit
    &&& post.restrict_object_add == pre.restrict_object_add
}

/// Nothing but the scheduled context is touched, the arena included.
pub open spec fn state_same(pre: Vm, post: Vm) -> bool {
    &&& effects_same(pre, post)
    &&& post.memory == pre.memory
}

/// `c2` is `c` moved to instruction `nip`: the top frame's instruction
/// pointer is updated and every frame below the top, the depth, the step
/// counter and the group stack are untouched.
pub open spec fn moved_to(c: Context, c2: Context, nip: int) -> bool {
    &&& c2.pos_stack@ == c.pos_stack@.update(
        c.pos_stack@.len() - 1,
        CallStackItem { ip: nip as usize, ..c.pos_stack@.last() },
    )
    &&& c2.recursion_depth == c.recursion_depth
    &&& c2.memory == c.memory
    &&& c2.group_stack@ == c.group_stack@
    &&& c2.registers@.len() == c.registers@.len()
    &&& c2.stack@.len() == c.stack@.len()
    &&& (forall|f: int| 0 <= f < c.registers@.len() - 1 ==> c2.registers@[f] == c.registers@[f])
    &&& (forall|f: int| 0 <= f < c.stack@.len() - 1 ==> c2.stack@[f] == c.stack@[f])
}

/// The dispatched instruction stored the one fresh value `v`, pushed its key
/// onto the scheduled context's operand stack and moved on to `nip`.
pub open spec fn fresh_pushed(pre: Vm, post: Vm, c: Context, c2: Context, v: Value, nip: int) -> bool {
    &&& effects_same(pre, post)
    &&& post.memory@.len() == pre.memory@.len() + 1
    &&& post.memory@ == pre.memory@.push(post.memory@.last())
    &&& post.memory@.last().value == v
    &&& moved_to(c, c2, nip)
    &&& c2.registers == c.registers
    &&& c2.stack@.last()@ == c.stack@.last()@.push(ValueKey(pre.memory@.len() as usize))
}

/// As [`fresh_pushed`], after popping the operand the value was computed
/// from.
pub open spec fn popped_fresh_pushed(
    pre: Vm,
    post: Vm,
    c: Context,
    c2: Context,
    v: Value,
    nip: int,
) -> bool {
    &&& effects_same(pre, post)
    &&& post.memory@.len() == pre.memory@.len() + 1
    &&& post.memory@ == pre.memory@.push(post.memory@.last())
    &&& post.memory@.last().value == v
    &&& moved_to(c, c2, nip)
    &&& c2.registers == c.registers
    &&& c2.stack@.last()@ == c.stack@.last()@.drop_last().push(
        ValueKey(pre.memory@.len() as usize),
    )
}

/// The semantics of the plain stack-local instructions, as a relation
/// between the machine `pre` with the charged scheduled context `c` and the
/// machine `post` with the reinserted successor `c2`.
pub open spec fn simple_step(pre: Vm, c: Context, instr: Instruction, post: Vm, c2: Context) -> bool {
    let ip = c.pos_stack@.last().ip as int;
    let prog = c.pos_stack@.last().func.program as int;
    let regs = c.registers@.last()@;
    let stk = c.stack@.last()@;
    match instr {
        Instruction::LoadConst(cid) => fresh_pushed(
            pre,
            post,
            c,
            c2,
            crate::bytecode::spec_from_const(pre.programs@[prog].const_register@[cid.0 as int]),
            ip + 1,
        ),
        Instruction::LoadVar(v) => {
            &&& state_same(pre, post)
            &&& moved_to(c, c2, ip + 1)
            &&& c2.registers == c.registers
            &&& c2.stack@.last()@ == stk.push(regs[v.0 as int])
        },
        Instruction::SetVar(v) | Instruction::CreateVar(v) => {
            &&& stk.len() > 0
            &&& state_same(pre, post)
            &&& moved_to(c, c2, ip + 1)
            &&& c2.stack@.last()@ == stk.drop_last()
            &&& c2.registers@.last()@ == regs.update(v.0 as int, stk.last())
        },
        Instruction::PopTop => {
            &&& stk.len() > 0
            &&& state_same(pre, post)
            &&& moved_to(c, c2, ip + 1)
            &&& c2.registers == c.registers
            &&& c2.stack@.last()@ == stk.drop_last()
        },
        Instruction::PushEmpty => {
            &&& state_same(pre, post)
            &&& moved_to(c, c2, ip + 1)
            &&& c2.registers == c.registers
            &&& c2.stack@.last()@ == stk.push(ValueKey(0))
        },
        Instruction::WrapMaybe => {
            &&& stk.len() > 0
            &&& popped_fresh_pushed(pre, post, c, c2, Value::Maybe(Some(stk.last())), ip + 1)
        },
        Instruction::PushNone => fresh_pushed(pre, post, c, c2, Value::Maybe(None), ip + 1),
        Instruction::PushAnyPattern => fresh_pushed(
            pre,
            post,
            c,
            c2,
            Value::Pattern(crate::value::Pattern::Any),
            ip + 1,
        ),
        Instruction::PushBuiltins => fresh_pushed(pre, post, c, c2, Value::Builtins, ip + 1),
        Instruction::PushTriggerFn => fresh_pushed(
            pre,
            post,
            c,
            c2,
            Value::TriggerFunction(pre.trigger_fn_group),
            ip + 1,
        ),
        Instruction::TypeOf => {
            &&& stk.len() > 0
            &&& popped_fresh_pushed(
                pre,
                post,
                c,
                c2,
                Value::TypeIndicator(
                    crate::value::spec_get_type(pre.memory@[stk.last().0 as int].value),
                ),
                ip + 1,
            )
        },
        Instruction::Jump(n) => {
            &&& state_same(pre, post)
            &&& moved_to(c, c2, n.0 as int)
            &&& c2.registers == c.registers
            &&& c2.stack@.last()@ == stk
        },
        _ => false,
    }
}

/// The semantics of the conditional jumps: `JumpIfFalse` branches on a
/// boolean, `UnwrapOrJump` takes a `Maybe` apart or jumps past the block.
pub open spec fn jump_step(pre: Vm, c: Context, instr: Instruction, post: Vm, c2: Context) -> bool {
    let ip = c.pos_stack@.last().ip as int;
    let stk = c.stack@.last()@;
    &&& stk.len() > 0
    &&& state_same(pre, post)
    &&& c2.registers == c.registers
    &&& match instr {
        Instruction::JumpIfFalse(n) => match pre.memory@[stk.last().0 as int].value {
            Value::Bool(b) => {
                &&& c2.stack@.last()@ == stk.drop_last()
                &&& moved_to(
                    c,
                    c2,
                    if b {
                        ip + 1
                    } else {
                        n.0 as int
                    },
                )
            },
            _ => false,
        },
        Instruction::UnwrapOrJump(n) => match pre.memory@[stk.last().0 as int].value {
            Value::Maybe(Some(ik)) => {
                &&& c2.stack@.last()@ == stk.drop_last().push(ik)
                &&& moved_to(c, c2, ip + 1)
            },
            Value::Maybe(None) => {
                &&& c2.stack@.last()@ == stk.drop_last()
                &&& moved_to(c, c2, n.0 as int)
            },
            _ => false,
        },
        _ => false,
    }
}

/// Where a range iterator stands after yielding `cur`: advanced by `step`
/// towards `end` and clamped there, so iteration always terminates.
pub open spec fn spec_range_next(cur: i64, end: i64, step: usize) -> i64 {
    if cur < end {
        if step <= i64::MAX as usize && cur + step <= end {
            (cur + step) as i64
        } else {
            end
        }
    } else {
        if step <= i64::MAX as usize && cur - step >= end {
            (cur - step) as i64
        } else {
            end
        }
    }
}

/// The semantics of the iterator protocol: `ToIter` stores the iterator for
/// an array, dict or range; `IterNext` either stores the advanced iterator
/// and pushes it with the next element, or jumps past the loop body when
/// exhausted.
pub open spec fn iter_step(pre: Vm, c: Context, instr: Instruction, post: Vm, c2: Context) -> bool {
    let ip = c.pos_stack@.last().ip as int;
    let stk = c.stack@.last()@;
    let mlen = pre.memory@.len() as int;
    &&& stk.len() > 0
    &&& c2.registers == c.registers
    &&& match instr {
        Instruction::ToIter => {
            &&& moved_to(c, c2, ip + 1)
            &&& effects_same(pre, post)
            &&& post.memory@.len() == mlen + 1
            &&& post.memory@ == pre.memory@.push(post.memory@.last())
            &&& c2.stack@.last()@ == stk.drop_last().push(ValueKey(mlen as usize))
            &&& match pre.memory@[stk.last().0 as int].value {
                Value::Array(ks) => post.memory@.last().value matches Value::Iterator(
                    IterState::Arr(ks2, p),
                ) && ks2@ == ks@ && p == 0,
                Value::Range(a, b, s) => post.memory@.last().value == Value::Iterator(
                    IterState::Rng(a, b, s),
                ),
                Value::Dict(es) => post.memory@.last().value matches Value::Iterator(
                    IterState::DictIt(es2, p),
                ) && es2@ == es@ && p == 0,
                _ => false,
            }
        },
        Instruction::IterNext(n) => match pre.memory@[stk.last().0 as int].value {
            Value::Iterator(st) => match st {
                IterState::Arr(ks, pos) => {
                    if pos < ks@.len() {
                        &&& effects_same(pre, post)
                        &&& post.memory@.len() == mlen + 1
                        &&& post.memory@ == pre.memory@.push(post.memory@.last())
                        &&& (post.memory@.last().value matches Value::Iterator(
                            IterState::Arr(ks2, p2),
                        ) && ks2@ == ks@ && p2 == pos + 1)
                        &&& c2.stack@.last()@ == stk.drop_last().push(
                            ValueKey(mlen as usize),
                        ).push(ks@[pos as int])
                        &&& moved_to(c, c2, ip + 1)
                    } else {
                        &&& state_same(pre, post)
                        &&& c2.stack@.last()@ == stk.drop_last()
                        &&& moved_to(c, c2, n.0 as int)
                    }
                },
                IterState::DictIt(es, pos) => {
                    if pos < es@.len() {
                        &&& effects_same(pre, post)
                        &&& post.memory@.len() == mlen + 2
                        &&& post.memory@ == pre.memory@.push(post.memory@[mlen]).push(
                            post.memory@[mlen + 1],
                        )
                        &&& (post.memory@[mlen].value matches Value::Iterator(
                            IterState::DictIt(es2, p2),
                        ) && es2@ == es@ && p2 == pos + 1)
                        &&& (post.memory@[mlen + 1].value matches Value::String(name) && name@
                            == es@[pos as int].0@)
                        &&& c2.stack@.last()@ == stk.drop_last().push(
                            ValueKey(mlen as usize),
                        ).push(ValueKey((mlen + 1) as usize))
                        &&& moved_to(c, c2, ip + 1)
                    } else {
                        &&& state_same(pre, post)
                        &&& c2.stack@.last()@ == stk.drop_last()
                        &&& moved_to(c, c2, n.0 as int)
                    }
                },
                IterState::Rng(cur, end, sp) => {
                    if sp == 0 || cur == end {
                        &&& state_same(pre, post)
                        &&& c2.stack@.last()@ == stk.drop_last()
                        &&& moved_to(c, c2, n.0 as int)
                    } else {
                        &&& effects_same(pre, post)
                        &&& post.memory@.len() == mlen + 2
                        &&& post.memory@ == pre.memory@.push(post.memory@[mlen]).push(
                            post.memory@[mlen + 1],
                        )
                        &&& post.memory@[mlen].value == Value::Iterator(
                            IterState::Rng(spec_range_next(cur, end, sp), end, sp),
                        )
                        &&& post.memory@[mlen + 1].value == Value::Int(cur)
                        &&& c2.stack@.last()@ == stk.drop_last().push(
                            ValueKey(mlen as usize),
                        ).push(ValueKey((mlen + 1) as usize))
                        &&& moved_to(c, c2, ip + 1)
                    }
                },
            },
            _ => false,
        },
        _ => false,
    }
}

/// What the operator model guarantees of the stored result of `CallOp`:
/// exact for the integer, string, array and boolean cases, a float exactly
/// on promoted numeric pairs, and equality exact on float-free operands.
/// `stk` is the operand stack before the pop: the right operand on top.
pub open spec fn callop_value(
    m: Seq<StoredValue>,
    op: Operator,
    stk: Seq<ValueKey>,
    v: Value,
) -> bool {
    match op {
        Operator::Unary(u) => {
            let a = m[stk.last().0 as int].value;
            match u {
                crate::bytecode::UnaryOp::Minus => {
                    &&& (a matches Value::Int(x) ==> v == Value::Int((0i64).wrapping_sub(x)))
                    &&& (a is Float ==> v is Float)
                    &&& (a is Int || a is Float)
                },
                crate::bytecode::UnaryOp::ExclMark => {
                    &&& (a matches Value::Bool(x) ==> v == Value::Bool(!x))
                    &&& a is Bool
                },
            }
        },
        Operator::Bin(b) => {
            let av = m[stk[stk.len() - 2].0 as int].value;
            let bv = m[stk.last().0 as int].value;
            match b {
                crate::bytecode::BinOp::Plus => {
                    &&& (av matches Value::Int(x) ==> bv matches Value::Int(y) ==> v == Value::Int(
                        x.wrapping_add(y),
                    ))
                    &&& (crate::ops::promotes(av, bv) ==> v is Float)
                    &&& (av matches Value::String(s1) ==> bv matches Value::String(s2) ==> (v
                        matches Value::String(s3) && s3@ == s1@ + s2@))
                    &&& (av matches Value::Array(k1) ==> bv matches Value::Array(k2) ==> (v
                        matches Value::Array(k3) && k3@ == k1@ + k2@))
                    &&& (crate::ops::num_pair(av, bv) || (av is String && bv is String) || (av
                        is Array && bv is Array))
                },
                crate::bytecode::BinOp::Minus => {
                    &&& (av matches Value::Int(x) ==> bv matches Value::Int(y) ==> v == Value::Int(
                        x.wrapping_sub(y),
                    ))
                    &&& (crate::ops::promotes(av, bv) ==> v is Float)
                    &&& crate::ops::num_pair(av, bv)
                },
                crate::bytecode::BinOp::Mult => {
                    &&& (av matches Value::Int(x) ==> bv matches Value::Int(y) ==> v == Value::Int(
                        x.wrapping_mul(y),
                    ))
                    &&& (crate::ops::promotes(av, bv) ==> v is Float)
                    &&& (av matches Value::Int(x) ==> bv matches Value::String(s) ==> (v
                        matches Value::String(s2) && s2@ == crate::ops::repeat_seq(
                        s@,
                        if x < 0 {
                            0
                        } else {
                            x as nat
                        },
                    )))
                    &&& (av matches Value::String(s) ==> bv matches Value::Int(x) ==> (v
                        matches Value::String(s2) && s2@ == crate::ops::repeat_seq(
                        s@,
                        if x < 0 {
                            0
                        } else {
                            x as nat
                        },
                    )))
                    &&& (crate::ops::num_pair(av, bv) || (av is Int && bv is String) || (av
                        is String && bv is Int))
                },
                crate::bytecode::BinOp::Div => {
                    &&& (av matches Value::Int(x) ==> bv matches Value::Int(y) ==> (y != 0 && !(x
                        == i64::MIN && y == -1) && v == Value::Int(x.checked_div(y)->0)))
                    &&& (crate::ops::promotes(av, bv) ==> v is Float)
                    &&& crate::ops::num_pair(av, bv)
                },
                crate::bytecode::BinOp::Mod => {
                    &&& (av matches Value::Int(x) ==> bv matches Value::Int(y) ==> (y != 0 && !(x
                        == i64::MIN && y == -1) && v == Value::Int(x.checked_rem(y)->0)))
                    &&& (crate::ops::promotes(av, bv) ==> v is Float)
                    &&& crate::ops::num_pair(av, bv)
                },
                crate::bytecode::BinOp::Pow => {
                    &&& (av is Int && bv is Int ==> v is Int)
                    &&& (crate::ops::promotes(av, bv) ==> v is Float)
                    &&& crate::ops::num_pair(av, bv)
                },
                crate::bytecode::BinOp::Gt => {
                    &&& (av matches Value::Int(x) ==> bv matches Value::Int(y) ==> v == Value::Bool(
                        x > y,
                    ))
                    &&& (crate::ops::promotes(av, bv) ==> v is Bool)
                    &&& crate::ops::num_pair(av, bv)
                },
                crate::bytecode::BinOp::Gte => {
                    &&& (av matches Value::Int(x) ==> bv matches Value::Int(y) ==> v == Value::Bool(
                        x >= y,
                    ))
                    &&& (crate::ops::promotes(av, bv) ==> v is Bool)
                    &&& crate::ops::num_pair(av, bv)
                },
                crate::bytecode::BinOp::Lt => {
                    &&& (av matches Value::Int(x) ==> bv matches Value::Int(y) ==> v == Value::Bool(
                        x < y,
                    ))
                    &&& (crate::ops::promotes(av, bv) ==> v is Bool)
                    &&& crate::ops::num_pair(av, bv)
                },
                crate::bytecode::BinOp::Lte => {
                    &&& (av matches Value::Int(x) ==> bv matches Value::Int(y) ==> v == Value::Bool(
                        x <= y,
                    ))
                    &&& (crate::ops::promotes(av, bv) ==> v is Bool)
                    &&& crate::ops::num_pair(av, bv)
                },
                crate::bytecode::BinOp::Eq => {
                    &&& v is Bool
                    &&& (crate::ops::float_free(m, stk[stk.len() - 2].0 as int)
                        && crate::ops::float_free(m, stk.last().0 as int) ==> v == Value::Bool(
                        crate::ops::spec_eq(m, stk[stk.len() - 2].0 as int, stk.last().0 as int),
                    ))
                },
                crate::bytecode::BinOp::Neq => {
                    &&& v is Bool
                    &&& (crate::ops::float_free(m, stk[stk.len() - 2].0 as int)
                        && crate::ops::float_free(m, stk.last().0 as int) ==> v == Value::Bool(
                        !crate::ops::spec_eq(m, stk[stk.len() - 2].0 as int, stk.last().0 as int),
                    ))
                },
                crate::bytecode::BinOp::Is => {
                    &&& (bv matches Value::TypeIndicator(t) ==> v == Value::Bool(
                        crate::value::spec_get_type(av) == t,
                    ))
                    &&& (bv matches Value::Pattern(p) ==> v == Value::Bool(
                        crate::value::spec_matches_pat(av, p),
                    ))
                    &&& (bv is TypeIndicator || bv is Pattern)
                },
            }
        },
    }
}

/// The semantics of `CallOp`: the operands popped, the result of the
/// operator model stored fresh, its key pushed, the pointer moved one past.
pub open spec fn callop_step(pre: Vm, c: Context, op: Operator, post: Vm, c2: Context) -> bool {
    let ip = c.pos_stack@.last().ip as int;
    let stk = c.stack@.last()@;
    &&& (op is Bin ==> stk.len() >= 2)
    &&& (op is Unary ==> stk.len() >= 1)
    &&& effects_same(pre, post)
    &&& post.memory@.len() == pre.memory@.len() + 1
    &&& post.memory@ == pre.memory@.push(post.memory@.last())
    &&& moved_to(c, c2, ip + 1)
    &&& c2.registers == c.registers
    &&& (op is Unary ==> c2.stack@.last()@ == stk.drop_last().push(
        ValueKey(pre.memory@.len() as usize),
    ))
    &&& (op is Bin ==> c2.stack@.last()@ == stk.drop_last().drop_last().push(
        ValueKey(pre.memory@.len() as usize),
    ))
    &&& callop_value(pre.memory@, op, stk, post.memory@.last().value)
}

/// The structure shared by the constructors and the member accesses: the
/// scheduled context is reinserted one instruction further, only its top
/// frame touched, the arena has only grown, and no effect is produced.
pub open spec fn produce_step(pre: Vm, c: Context, post: Vm, c2: Context) -> bool {
    let ip = c.pos_stack@.last().ip as int;
    &&& effects_same(pre, post)
    &&& pre.memory@.is_prefix_of(post.memory@)
    &&& moved_to(c, c2, ip + 1)
    &&& c2.registers@.len() == c.registers@.len()
}

/// How the scheduled context advances over `Call` or `CallBuiltin`: either
/// a builtin ran inline and the context moved one instruction, or a frame
/// was pushed for the callee, entered at its first instruction, the frame
/// below left waiting one past the call, under a freshly registered call
/// identity and within the recursion ceiling.
pub open spec fn call_step(pre: Vm, c: Context, post: Vm, c2: Context) -> bool {
    let ip = c.pos_stack@.last().ip as int;
    &&& c2.memory == c.memory
    &&& c2.group_stack@ == c.group_stack@
    &&& ({
        ||| {
            &&& c2.pos_stack@ == c.pos_stack@.update(
                c.pos_stack@.len() - 1,
                CallStackItem { ip: (ip + 1) as usize, ..c.pos_stack@.last() },
            )
            &&& c2.recursion_depth == c.recursion_depth
            &&& post.contexts.have_not_returned == pre.contexts.have_not_returned
        }
        ||| {
            &&& c2.pos_stack@.len() == c.pos_stack@.len() + 1
            &&& c2.recursion_depth == c.recursion_depth + 1
            &&& c2.recursion_depth <= pre.recursion_limit
            &&& c2.pos_stack@.last().ip == 0
            &&& c2.pos_stack@[c2.pos_stack@.len() - 2] == (CallStackItem {
                ip: (ip + 1) as usize,
                ..c.pos_stack@.last()
            })
            &&& (forall|f: int|
                0 <= f < c.pos_stack@.len() - 1 ==> c2.pos_stack@[f] == c.pos_stack@[f])
            &&& c2.pos_stack@.last().call_key.0 == pre.contexts.have_not_returned@.len()
            &&& post.contexts.have_not_returned@ == pre.contexts.have_not_returned@.push(true)
            &&& post.memory == pre.memory
        }
    })
}

/// The scheduled context after `Return` hands `rv` to the caller: the
/// finished frame popped, the depth decremented, and the value delivered
/// into the caller's return-destination register or onto its operand stack.
pub open spec fn return_step(c: Context, rv: ValueKey, c2: Context) -> bool {
    let dest = c.pos_stack@.last().return_dest;
    &&& c2.pos_stack@ == c.pos_stack@.drop_last()
    &&& c2.group_stack@ == c.group_stack@
    &&& c2.memory == c.memory
    &&& c2.recursion_depth == (if c.recursion_depth > 0 {
        (c.recursion_depth - 1) as usize
    } else {
        0usize
    })
    &&& c2.registers@.len() == c.registers@.len() - 1
    &&& c2.stack@.len() == c.stack@.len() - 1
    &&& (forall|f: int| 0 <= f < c.registers@.len() - 2 ==> c2.registers@[f] == c.registers@[f])
    &&& (forall|f: int| 0 <= f < c.stack@.len() - 2 ==> c2.stack@[f] == c.stack@[f])
    &&& (dest is None ==> {
        &&& c2.registers@ == c.registers@.drop_last()
        &&& c2.stack@.last()@ == c.stack@[c.stack@.len() - 2]@.push(rv)
    })
    &&& (dest matches Some(v) ==> {
        &&& c2.stack@ == c.stack@.drop_last()
        &&& c2.registers@.last()@ == c.registers@[c.registers@.len() - 2]@.update(v.0 as int, rv)
    })
}

/// Both halves of a fork, as they stand in the scheduler afterwards: the
/// clone `cl`, entered at the block body with every register and operand
/// key freshly deep-cloned (sharing preserved slot for slot), and the
/// otherwise untouched original `orig`, moved past the block to `over`.
pub open spec fn fork_pair(
    pre: Vm,
    c: Context,
    over: int,
    post: Vm,
    grouped: bool,
    cl: Context,
    orig: Context,
) -> bool {
    let ip = c.pos_stack@.last().ip as int;
    &&& moved_to(c, orig, over)
    &&& orig.registers == c.registers
    &&& orig.stack == c.stack
    &&& cl.pos_stack@ == c.pos_stack@.update(
        c.pos_stack@.len() - 1,
        CallStackItem { ip: (ip + 1) as usize, ..c.pos_stack@.last() },
    )
    &&& cl.recursion_depth == c.recursion_depth
    &&& cl.memory == c.memory
    &&& (if grouped {
        &&& cl.group_stack@.len() == c.group_stack@.len() + 1
        &&& cl.group_stack@.drop_last() == c.group_stack@
        &&& cl.group_stack@.last() == post.trigger_fn_group
    } else {
        cl.group_stack@ == c.group_stack@
    })
    &&& cl.registers@.len() == c.registers@.len()
    &&& cl.stack@.len() == c.stack@.len()
    &&& (forall|f: int|
        0 <= f < c.registers@.len() ==> (#[trigger] cl.registers@[f])@.len()
            == c.registers@[f]@.len())
    &&& (forall|f: int|
        0 <= f < c.stack@.len() ==> (#[trigger] cl.stack@[f])@.len() == c.stack@[f]@.len())
    &&& (forall|f: int, i: int|
        0 <= f < c.registers@.len() && 0 <= i < c.registers@[f]@.len() ==> pre.memory@.len() <= (
        #[trigger] cl.registers@[f]@[i]).0 < post.memory@.len())
    &&& (forall|f1: int, i1: int, f2: int, i2: int|
        0 <= f1 < c.registers@.len() && 0 <= i1 < c.registers@[f1]@.len() && 0 <= f2
            < c.registers@.len() && 0 <= i2 < c.registers@[f2]@.len() ==> ((c.registers@[f1]@[i1]
            == c.registers@[f2]@[i2]) <==> ((#[trigger] cl.registers@[f1]@[i1]) == (
        #[trigger] cl.registers@[f2]@[i2]))))
}

/// How the scheduled context advances over a side-effecting instruction:
/// one instruction further, or, for an import, into the imported module's
/// entry function with the frame below left waiting one past the import.
pub open spec fn effect_ctx(c: Context, instr: Instruction, c2: Context) -> bool {
    let ip = c.pos_stack@.last().ip as int;
    &&& c2.memory == c.memory
    &&& c2.group_stack@ == c.group_stack@
    &&& (instr matches Instruction::Import(..) ==> {
        &&& c2.pos_stack@.len() == c.pos_stack@.len() + 1
        &&& c2.recursion_depth == c.recursion_depth + 1
        &&& c2.pos_stack@.last().ip == 0
        &&& c2.pos_stack@[c2.pos_stack@.len() - 2] == (CallStackItem {
            ip: (ip + 1) as usize,
            ..c.pos_stack@.last()
        })
    })
    &&& (!(instr matches Instruction::Import(..)) ==> {
        &&& c2.pos_stack@ == c.pos_stack@.update(
            c.pos_stack@.len() - 1,
            CallStackItem { ip: (ip + 1) as usize, ..c.pos_stack@.last() },
        )
        &&& c2.recursion_depth == c.recursion_depth
        &&& c2.registers == c.registers
    })
}

/// `c2` is the charged context with its finished top frame unwound: the
/// frame, its register file and its operand stack popped, the depth
/// decremented — the unwinding of a frame that ran past its end.
pub open spec fn frame_popped(c: Context, c2: Context) -> bool {
    &&& c2.pos_stack@ == c.pos_stack@.drop_last()
    &&& c2.registers@ == c.registers@.drop_last()
    &&& c2.stack@ == c.stack@.drop_last()
    &&& c2.group_stack@ == c.group_stack@
    &&& c2.memory == c.memory
    &&& c2.recursion_depth == (if c.recursion_depth > 0 {
        (c.recursion_depth - 1) as usize
    } else {
        0usize
    })
}

/// How one dispatched instruction relates the machine `pre` to the machine
/// `post`, for a step that returned without error: the scheduled context's
/// charged successor `c` acts as the instruction's relation says, reinserted
/// behind the untouched rest of the scheduler.
pub open spec fn instr_rel(pre: Vm, c: Context, instr: Instruction, post: Vm) -> bool {
    let rest = sched_rest(pre);
    match instr {
        Instruction::LoadConst(..) | Instruction::LoadVar(..) | Instruction::SetVar(..)
            | Instruction::CreateVar(..) | Instruction::PopTop | Instruction::PushEmpty
            | Instruction::WrapMaybe | Instruction::PushNone | Instruction::PushAnyPattern
            | Instruction::PushBuiltins | Instruction::TypeOf | Instruction::PushTriggerFn
            | Instruction::Jump(..) => exists|c2: Context|
            post.contexts.contexts@ == rest.push(c2) && #[trigger] simple_step(
                pre,
                c,
                instr,
                post,
                c2,
            ),
        Instruction::JumpIfFalse(..) | Instruction::UnwrapOrJump(..) => exists|c2: Context|
            post.contexts.contexts@ == rest.push(c2) && #[trigger] jump_step(
                pre,
                c,
                instr,
                post,
                c2,
            ),
        Instruction::CallOp(op) => exists|c2: Context|
            post.contexts.contexts@ == rest.push(c2) && #[trigger] callop_step(
                pre,
                c,
                op,
                post,
                c2,
            ),
        Instruction::BuildArray(..) | Instruction::BuildDict(..) | Instruction::BuildMacro(..)
            | Instruction::Index | Instruction::Member(..) | Instruction::Associated(..) => exists|
            c2: Context,
        |
            post.contexts.contexts@ == rest.push(c2) && #[trigger] produce_step(pre, c, post, c2),
        Instruction::ToIter | Instruction::IterNext(..) => exists|c2: Context|
            post.contexts.contexts@ == rest.push(c2) && #[trigger] iter_step(
                pre,
                c,
                instr,
                post,
                c2,
            ),
        Instruction::Call(..) | Instruction::CallBuiltin(..) => {
            &&& post.objects == pre.objects
            &&& post.spawned == pre.spawned
            &&& post.impls == pre.impls
            &&& post.result == pre.result
            &&& post.trigger_fn_group == pre.trigger_fn_group
            &&& post.next_group == pre.next_group
            &&& pre.output@.is_prefix_of(post.output@)
            &&& pre.memory@.is_prefix_of(post.memory@)
            &&& exists|c2: Context|
                post.contexts.contexts@ == rest.push(c2) && #[trigger] call_step(pre, c, post, c2)
        },
        Instruction::Return => {
            let stk = c.stack@.last()@;
            let rv = stk.last();
            let ck = c.pos_stack@.last().call_key;
            &&& stk.len() > 0
            &&& post.memory == pre.memory
            &&& post.objects == pre.objects
            &&& post.spawned == pre.spawned
            &&& post.output == pre.output
            &&& post.impls == pre.impls
            &&& post.trigger_fn_group == pre.trigger_fn_group
            &&& post.next_group == pre.next_group
            &&& post.contexts.have_not_returned@ == pre.contexts.have_not_returned@.update(
                ck.0 as int,
                false,
            )
            &&& (c.pos_stack@.len() > 1 ==> post.result == pre.result && exists|c2: Context|
                post.contexts.contexts@ == rest.push(c2) && #[trigger] return_step(c, rv, c2))
            &&& (c.pos_stack@.len() == 1 ==> {
                &&& post.contexts.contexts@ == rest
                &&& (pre.result is Some ==> post.result == pre.result)
                &&& (pre.result is None ==> (post.result matches Some(sv)
                    && crate::value::stored_like(pre.memory@[rv.0 as int], sv)))
            })
        },
        Instruction::YeetContext => {
            &&& post.contexts.contexts@ == rest
            &&& state_same(pre, post)
        },
        Instruction::TriggerFuncCall => {
            let stk = c.stack@.last()@;
            let ip = c.pos_stack@.last().ip as int;
            &&& stk.len() > 0
            &&& post.memory == pre.memory
            &&& post.objects == pre.objects
            &&& post.output == pre.output
            &&& post.impls == pre.impls
            &&& post.result == pre.result
            &&& post.contexts.have_not_returned == pre.contexts.have_not_returned
            &&& post.trigger_fn_group == pre.trigger_fn_group
            &&& post.next_group == pre.next_group
            &&& (pre.memory@[stk.last().0 as int].value matches Value::TriggerFunction(g)
                && post.spawned@ == pre.spawned@.push(g))
            &&& exists|c2: Context|
                post.contexts.contexts@ == rest.push(c2) && #[trigger] moved_to(c, c2, ip + 1)
                    && c2.registers == c.registers && c2.stack@.last()@ == stk.drop_last()
        },
        Instruction::EnterArrowStatement(n) => {
            &&& post.objects == pre.objects
            &&& post.output == pre.output
            &&& post.impls == pre.impls
            &&& post.result == pre.result
            &&& post.spawned == pre.spawned
            &&& post.contexts.have_not_returned == pre.contexts.have_not_returned
            &&& post.trigger_fn_group == pre.trigger_fn_group
            &&& post.next_group == pre.next_group
            &&& pre.memory@.is_prefix_of(post.memory@)
            &&& exists|cl: Context, orig: Context|
                post.contexts.contexts@ == rest.push(cl).push(orig) && #[trigger] fork_pair(
                    pre,
                    c,
                    n.0 as int,
                    post,
                    false,
                    cl,
                    orig,
                )
        },
        Instruction::EnterTriggerFunction(n) => {
            &&& post.objects == pre.objects
            &&& post.output == pre.output
            &&& post.impls == pre.impls
            &&& post.result == pre.result
            &&& post.spawned == pre.spawned
            &&& post.contexts.have_not_returned == pre.contexts.have_not_returned
            &&& post.trigger_fn_group == Id::ArbitraryId(pre.next_group)
            &&& pre.memory@.is_prefix_of(post.memory@)
            &&& exists|cl: Context, orig: Context|
                post.contexts.contexts@ == rest.push(cl).push(orig) && #[trigger] fork_pair(
                    pre,
                    c,
                    n.0 as int,
                    post,
                    true,
                    cl,
                    orig,
                )
        },
        Instruction::BuildObject(..) | Instruction::BuildTrigger(..) | Instruction::AddObject
            | Instruction::Impl | Instruction::BuildInstance | Instruction::Print
            | Instruction::Import(..) => {
            &&& post.spawned == pre.spawned
            &&& post.result == pre.result
            &&& post.trigger_fn_group == pre.trigger_fn_group
            &&& post.next_group == pre.next_group
            &&& pre.memory@.is_prefix_of(post.memory@)
            &&& !(instr is BuildInstance)
            &&& (instr is AddObject ==> {
                &&& post.objects@.len() == pre.objects@.len() + 1
                &&& pre.objects@.is_prefix_of(post.objects@)
                &&& post.memory == pre.memory
            })
            &&& (!(instr is AddObject) ==> post.objects == pre.objects)
            &&& (instr is Print ==> {
                &&& post.output@.len() == pre.output@.len() + 1
                &&& pre.output@.is_prefix_of(post.output@)
                &&& post.memory == pre.memory
            })
            &&& (!(instr is Print) ==> post.output == pre.output)
            &&& (instr is Impl ==> {
                &&& post.impls@.len() == pre.impls@.len() + 1
                &&& pre.impls@.is_prefix_of(post.impls@)
                &&& post.memory == pre.memory
            })
            &&& (!(instr is Impl) ==> post.impls == pre.impls)
            &&& (instr matches Instruction::Import(..) ==> {
                &&& post.contexts.have_not_returned@ == pre.contexts.have_not_returned@.push(true)
                &&& post.memory == pre.memory
            })
            &&& (!(instr matches Instruction::Import(..))
                ==> post.contexts.have_not_returned == pre.contexts.have_not_returned)
            &&& exists|c2: Context|
                post.contexts.contexts@ == rest.push(c2) && #[trigger] effect_ctx(c, instr, c2)
        },
    }
}

/// The small-step relation of the dispatch loop: what one error-free call
/// of [`Vm::step`] does. The scheduler's maximal context was selected and
/// charged one step; every other context stays untouched at the front of
/// the scheduler; a context that was not runnable, or whose charged frame
/// had run past its function's end with no frame below, leaves the
/// scheduler; a finished frame is unwound; and otherwise the fetched
/// instruction acts as [`instr_rel`] says.
pub open spec fn step_rel(pre: Vm, post: Vm) -> bool {
    let bi = pre.contexts.spec_best_idx();
    let c0 = pre.contexts.contexts@[bi];
    let c = charged(c0);
    let rest = sched_rest(pre);
    &&& c0.memory < pre.step_limit
    &&& (!c0.spec_runnable() ==> post.contexts.contexts@ == rest && state_same(pre, post))
    &&& (c0.spec_runnable() ==> {
        let t = c0.pos_stack@.last();
        let flen =
            pre.programs@[t.func.program as int].funcs@[t.func.func as int].instructions@.len()
            as int;
        if t.ip >= flen {
            &&& state_same(pre, post)
            &&& (c0.pos_stack@.len() == 1 ==> post.contexts.contexts@ == rest)
            &&& (c0.pos_stack@.len() > 1 ==> exists|c2: Context|
                post.contexts.contexts@ == rest.push(c2) && #[trigger] frame_popped(c, c2))
        } else {
            let instr =
                pre.programs@[t.func.program as int].funcs@[t.func.func as int].instructions@[t.ip as int].0;
            instr_rel(pre, c, instr, post)
        }
    })
}

impl Vm {
    /// Executes one of the plain stack-local instructions: loads, variable
    /// reads and writes, the fixed-value pushes, `PopTop`, `TypeOf`,
    /// `WrapMaybe` and the unconditional jump.
    fn op_simple(
        &mut self,
        ctx: Context,
        instr: Instruction,
        area: CodeArea,
        fc: FuncCoord,
        ip: usize,
        func_len: usize,
    ) -> (r: Result<(), RuntimeError>)
        requires
            vm_ctx_ok(*old(self), ctx),
            fetched(*old(self), ctx, instr, fc, ip, func_len),
            instr matches Instruction::LoadConst(..) || instr matches Instruction::LoadVar(..)
                || instr matches Instruction::SetVar(..) || instr matches Instruction::CreateVar(
                ..,
            ) || instr matches Instruction::PopTop || instr matches Instruction::PushEmpty
                || instr matches Instruction::WrapMaybe || instr matches Instruction::PushNone
                || instr matches Instruction::PushAnyPattern
                || instr matches Instruction::PushBuiltins || instr matches Instruction::TypeOf
                || instr matches Instruction::PushTriggerFn || instr matches Instruction::Jump(..),
        ensures
            step_post(*old(self), *final(self)),
            r is Err ==> final(self).contexts == old(self).contexts && state_same(
                *old(self),
                *final(self),
            ),
            r is Ok ==> exists|c2: Context|
                final(self).contexts.contexts@ == old(self).contexts.contexts@.push(c2)
                    && #[trigger] simple_step(*old(self), ctx, instr, *final(self), c2),
    {
        let mut ctx = ctx;
        let ghost ctx0 = ctx;
        let ghost mlen0 = self.memory@.len();
        let ghost nkeys = self.contexts.have_not_returned@.len();
        proof {
            assert(frame_wf(
                ctx.pos_stack@.last(),
                ctx.registers@.last()@,
                ctx.stack@.last()@,
                self.programs@,
                mlen0 as int,
                nkeys as int,
            ));
            assert(instr_wf(
                instr,
                self.programs@[fc.program as int],
                func_len as int,
                self.programs@.len() as int,
                self.builtins@.len() as int,
            ));
        }
        match instr {
            Instruction::LoadConst(c) => {
                let v = Value::from_const(
                    &self.programs[fc.program].const_register[c.0 as usize],
                );
                self.push_new(&mut ctx, v, area, ip + 1);
            },
            Instruction::LoadVar(v) => {
                let k = ctx.reg_read(v.0 as usize);
                ctx.push_val(k);
                ctx.jump(ip + 1);
                proof {
                    lemma_ctx_wf_update(
                        ctx0,
                        ctx,
                        self.programs@,
                        mlen0 as int,
                        mlen0 as int,
                        nkeys as int,
                    );
                }
            },
            Instruction::SetVar(v) => {
                let k = match ctx.pop_val() {
                    Some(k) => k,
                    None => {
                        return Err(
                            raise(
                                ErrorKind::ThrownError {
                                    area,
                                    message: "operand stack underflow".to_owned(),
                                },
                                &ctx,
                            ),
                        );
                    },
                };
                ctx.reg_write(v.0 as usize, k);
                ctx.jump(ip + 1);
                proof {
                    lemma_ctx_wf_update(
                        ctx0,
                        ctx,
                        self.programs@,
                        mlen0 as int,
                        mlen0 as int,
                        nkeys as int,
                    );
                }
            },
            Instruction::CreateVar(v) => {
                let k = match ctx.pop_val() {
                    Some(k) => k,
                    None => {
                        return Err(
                            raise(
                                ErrorKind::ThrownError {
                                    area,
                                    message: "operand stack underflow".to_owned(),
                                },
                                &ctx,
                            ),
                        );
                    },
                };
                ctx.reg_write(v.0 as usize, k);
                ctx.jump(ip + 1);
                proof {
                    lemma_ctx_wf_update(
                        ctx0,
                        ctx,
                        self.programs@,
                        mlen0 as int,
                        mlen0 as int,
                        nkeys as int,
                    );
                }
            },
            Instruction::PopTop => {
                match ctx.pop_val() {
                    Some(_) => {},
                    None => {
                        return Err(
                            raise(
                                ErrorKind::ThrownError {
                                    area,
                                    message: "operand stack underflow".to_owned(),
                                },
                                &ctx,
                            ),
                        );
                    },
                };
                ctx.jump(ip + 1);
                proof {
                    lemma_ctx_wf_update(
                        ctx0,
                        ctx,
                        self.programs@,
                        mlen0 as int,
                        mlen0 as int,
                        nkeys as int,
                    );
                }
            },
            Instruction::PushEmpty => {
                ctx.push_val(ValueKey(0));
                ctx.jump(ip + 1);
                proof {
                    lemma_ctx_wf_update(
                        ctx0,
                        ctx,
                        self.programs@,
                        mlen0 as int,
                        mlen0 as int,
                        nkeys as int,
                    );
                }
            },
            Instruction::WrapMaybe => {
                let k = match ctx.pop_val() {
                    Some(k) => k,
                    None => {
                        return Err(
                            raise(
                                ErrorKind::ThrownError {
                                    area,
                                    message: "operand stack underflow".to_owned(),
                                },
                                &ctx,
                            ),
                        );
                    },
                };
                self.push_new(&mut ctx, Value::Maybe(Some(k)), area, ip + 1);
            },
            Instruction::PushNone => {
                self.push_new(&mut ctx, Value::Maybe(None), area, ip + 1);
            },
            Instruction::PushAnyPattern => {
                self.push_new(
                    &mut ctx,
                    Value::Pattern(crate::value::Pattern::Any),
                    area,
                    ip + 1,
                );
            },
            Instruction::PushBuiltins => {
                self.push_new(&mut ctx, Value::Builtins, area, ip + 1);
            },
            Instruction::PushTriggerFn => {
                let g = self.trigger_fn_group;
                self.push_new(&mut ctx, Value::TriggerFunction(g), area, ip + 1);
            },
            Instruction::TypeOf => {
                let k = match ctx.pop_val() {
                    Some(k) => k,
                    None => {
                        return Err(
                            raise(
                                ErrorKind::ThrownError {
                                    area,
                                    message: "operand stack underflow".to_owned(),
                                },
                                &ctx,
                            ),
                        );
                    },
                };
                let t = self.memory.get(k).value.get_type();
                self.push_new(&mut ctx, Value::TypeIndicator(t), area, ip + 1);
            },
            Instruction::Jump(n) => {
                ctx.jump(n.0 as usize);
                proof {
                    lemma_ctx_wf_update(
                        ctx0,
                        ctx,
                        self.programs@,
                        mlen0 as int,
                        mlen0 as int,
                        nkeys as int,
                    );
                }
            },
            _ => {
                proof {
                    assert(false);
                }
            },
        }
        let ghost cfin = ctx;
        self.finish(ctx);
        proof {
            assert(simple_step(*old(self), ctx0, instr, *self, cfin));
        }
        Ok(())
    }
}

impl Vm {
    /// Executes the conditional jumps: `JumpIfFalse` and `UnwrapOrJump`.
    fn op_jumps(
        &mut self,
        ctx: Context,
        instr: Instruction,
        area: CodeArea,
        fc: FuncCoord,
        ip: usize,
        func_len: usize,
    ) -> (r: Result<(), RuntimeError>)
        requires
            vm_ctx_ok(*old(self), ctx),
            fetched(*old(self), ctx, instr, fc, ip, func_len),
            instr matches Instruction::JumpIfFalse(..) || instr matches Instruction::UnwrapOrJump(
                ..,
            ),
        ensures
            step_post(*old(self), *final(self)),
            r is Err ==> final(self).contexts == old(self).contexts && state_same(
                *old(self),
                *final(self),
            ),
            r is Ok ==> exists|c2: Context|
                final(self).contexts.contexts@ == old(self).contexts.contexts@.push(c2)
                    && #[trigger] jump_step(*old(self), ctx, instr, *final(self), c2),
    {
        let mut ctx = ctx;
        let ghost ctx0 = ctx;
        let ghost mlen0 = self.memory@.len();
        let ghost nkeys = self.contexts.have_not_returned@.len();
        proof {
            assert(frame_wf(
                ctx.pos_stack@.last(),
                ctx.registers@.last()@,
                ctx.stack@.last()@,
                self.programs@,
                mlen0 as int,
                nkeys as int,
            ));
            assert(instr_wf(
                instr,
                self.programs@[fc.program as int],
                func_len as int,
                self.programs@.len() as int,
                self.builtins@.len() as int,
            ));
        }
        let k = match ctx.pop_val() {
            Some(k) => k,
            None => {
                return Err(
                    raise(
                        ErrorKind::ThrownError {
                            area,
                            message: "operand stack underflow".to_owned(),
                        },
                        &ctx,
                    ),
                );
            },
        };
        match instr {
            Instruction::JumpIfFalse(n) => {
                let b = match crate::ops::to_bool(self.memory.get(k)) {
                    Ok(b) => b,
                    Err(e) => {
                        return Err(raise(e, &ctx));
                    },
                };
                if b {
                    ctx.jump(ip + 1);
                } else {
                    ctx.jump(n.0 as usize);
                }
            },
            Instruction::UnwrapOrJump(n) => {
                proof {
                    assert(keys_bounded(self.memory@[k.0 as int].value, k.0 as int));
                }
                let inner = match &self.memory.get(k).value {
                    Value::Maybe(Some(inner)) => Some(*inner),
                    Value::Maybe(None) => None,
                    _ => {
                        let sv = self.memory.get(k);
                        return Err(
                            raise(
                                ErrorKind::TypeMismatch {
                                    v: (sv.value.get_type(), sv.area.dup()),
                                    area,
                                    expected: crate::value::ValueType::Maybe,
                                },
                                &ctx,
                            ),
                        );
                    },
                };
                match inner {
                    Some(ik) => {
                        ctx.push_val(ik);
                        ctx.jump(ip + 1);
                    },
                    None => {
                        ctx.jump(n.0 as usize);
                    },
                }
            },
            _ => {
                proof {
                    assert(false);
                }
            },
        }
        proof {
            lemma_ctx_wf_update(
                ctx0,
                ctx,
                self.programs@,
                mlen0 as int,
                mlen0 as int,
                nkeys as int,
            );
        }
        let ghost cfin = ctx;
        self.finish(ctx);
        proof {
            assert(jump_step(*old(self), ctx0, instr, *self, cfin));
        }
        Ok(())
    }

    /// Executes `CallOp`: pops the operands, applies the operator model, and
    /// pushes the result.
    #[verifier::rlimit(50)]
    fn op_callop<F: FloatMath>(
        &mut self,
        ctx: Context,
        op: Operator,
        area: CodeArea,
        fc: FuncCoord,
        ip: usize,
        func_len: usize,
        fm: &F,
    ) -> (r: Result<(), RuntimeError>)
        requires
            vm_ctx_ok(*old(self), ctx),
            fetched(*old(self), ctx, Instruction::CallOp(op), fc, ip, func_len),
        ensures
            step_post(*old(self), *final(self)),
            r is Err ==> final(self).contexts == old(self).contexts && state_same(
                *old(self),
                *final(self),
            ),
            r is Ok ==> exists|c2: Context|
                final(self).contexts.contexts@ == old(self).contexts.contexts@.push(c2)
                    && #[trigger] callop_step(*old(self), ctx, op, *final(self), c2),
    {
        let mut ctx = ctx;
        let ghost ctx0 = ctx;
        let ghost mlen0 = self.memory@.len();
        let ghost nkeys = self.contexts.have_not_returned@.len();
        proof {
            assert(frame_wf(
                ctx.pos_stack@.last(),
                ctx.registers@.last()@,
                ctx.stack@.last()@,
                self.programs@,
                mlen0 as int,
                nkeys as int,
            ));
        }
        let sv: StoredValue = match op {
            Operator::Unary(u) => {
                let ka = match ctx.pop_val() {
                    Some(k) => k,
                    None => {
                        return Err(
                            raise(
                                ErrorKind::ThrownError {
                                    area,
                                    message: "operand stack underflow".to_owned(),
                                },
                                &ctx,
                            ),
                        );
                    },
                };
                let res = match u {
                    crate::bytecode::UnaryOp::Minus => crate::ops::unary_negate(
                        self.memory.get(ka),
                        area,
                        fm,
                    ),
                    crate::bytecode::UnaryOp::ExclMark => crate::ops::unary_not(
                        self.memory.get(ka),
                        area,
                    ),
                };
                match res {
                    Ok(sv) => sv,
                    Err(e) => {
                        return Err(raise(e, &ctx));
                    },
                }
            },
            Operator::Bin(b) => {
                let kb = match ctx.pop_val() {
                    Some(k) => k,
                    None => {
                        return Err(
                            raise(
                                ErrorKind::ThrownError {
                                    area,
                                    message: "operand stack underflow".to_owned(),
                                },
                                &ctx,
                            ),
                        );
                    },
                };
                let ka = match ctx.pop_val() {
                    Some(k) => k,
                    None => {
                        return Err(
                            raise(
                                ErrorKind::ThrownError {
                                    area,
                                    message: "operand stack underflow".to_owned(),
                                },
                                &ctx,
                            ),
                        );
                    },
                };
                proof {
                    assert(keys_bounded(self.memory@[ka.0 as int].value, ka.0 as int));
                    assert(keys_bounded(self.memory@[kb.0 as int].value, kb.0 as int));
                }
                match b {
                    crate::bytecode::BinOp::Eq => crate::ops::eq(&self.memory, ka, kb, area, fm),
                    crate::bytecode::BinOp::Neq => crate::ops::not_eq(
                        &self.memory,
                        ka,
                        kb,
                        area,
                        fm,
                    ),
                    _ => {
                        let res = match b {
                            crate::bytecode::BinOp::Plus => crate::ops::plus(
                                self.memory.get(ka),
                                self.memory.get(kb),
                                area,
                                fm,
                            ),
                            crate::bytecode::BinOp::Minus => crate::ops::minus(
                                self.memory.get(ka),
                                self.memory.get(kb),
                                area,
                                fm,
                            ),
                            crate::bytecode::BinOp::Mult => crate::ops::mult(
                                self.memory.get(ka),
                                self.memory.get(kb),
                                area,
                                fm,
                            ),
                            crate::bytecode::BinOp::Div => crate::ops::div(
                                self.memory.get(ka),
                                self.memory.get(kb),
                                area,
                                fm,
                            ),
                            crate::bytecode::BinOp::Mod => crate::ops::modulo(
                                self.memory.get(ka),
                                self.memory.get(kb),
                                area,
                                fm,
                            ),
                            crate::bytecode::BinOp::Pow => crate::ops::pow(
                                self.memory.get(ka),
                                self.memory.get(kb),
                                area,
                                fm,
                            ),
                            crate::bytecode::BinOp::Gt => crate::ops::greater(
                                self.memory.get(ka),
                                self.memory.get(kb),
                                area,
                                fm,
                            ),
                            crate::bytecode::BinOp::Gte => crate::ops::greater_eq(
                                self.memory.get(ka),
                                self.memory.get(kb),
                                area,
                                fm,
                            ),
                            crate::bytecode::BinOp::Lt => crate::ops::lesser(
                                self.memory.get(ka),
                                self.memory.get(kb),
                                area,
                                fm,
                            ),
                            crate::bytecode::BinOp::Lte => crate::ops::lesser_eq(
                                self.memory.get(ka),
                                self.memory.get(kb),
                                area,
                                fm,
                            ),
                            crate::bytecode::BinOp::Is => crate::ops::is_op(
                                self.memory.get(ka),
                                self.memory.get(kb),
                                area,
                            ),
                            // Eq and Neq were dispatched before this match,
                            // so no operator is left for this arm
                            _ => {
                                proof {
                                    assert(false);
                                }
                                return Err(
                                    raise(
                                        ErrorKind::ThrownError {
                                            area: CodeArea::internal(),
                                            message: "unreachable".to_owned(),
                                        },
                                        &ctx,
                                    ),
                                );
                            },
                        };
                        let sv = match res {
                            Ok(sv) => sv,
                            Err(e) => {
                                return Err(raise(e, &ctx));
                            },
                        };
                        proof {
                            assert(keys_bounded(sv.value, self.memory@.len() as int)) by {
                                let av = self.memory@[ka.0 as int].value;
                                let bv = self.memory@[kb.0 as int].value;
                                if av is Array && bv is Array && b is Plus {
                                    let k1 = av->Array_0;
                                    let k2 = bv->Array_0;
                                    let k3 = sv.value->Array_0;
                                    assert(k3@ == k1@ + k2@);
                                    assert forall|i: int|
                                        0 <= i < k3@.len() implies (#[trigger] k3@[i]).0
                                        < self.memory@.len() by {
                                        if i < k1@.len() {
                                            assert(k3@[i] == k1@[i]);
                                        } else {
                                            assert(k3@[i] == k2@[i - k1@.len()]);
                                        }
                                    }
                                }
                            }
                        }
                        sv
                    },
                }
            },
        };
        proof {
            assert(keys_bounded(sv.value, self.memory@.len() as int));
            assert(macro_value_ok(sv.value, self.programs@));
        }
        self.push_new(&mut ctx, sv.value, sv.area, ip + 1);
        let ghost cfin = ctx;
        self.finish(ctx);
        proof {
            match op {
                Operator::Unary(..) => {
                    assert(callop_value(old(self).memory@, op, ctx0.stack@.last()@, sv.value));
                },
                Operator::Bin(..) => {
                    assert(callop_value(old(self).memory@, op, ctx0.stack@.last()@, sv.value));
                },
            }
            assert(moved_to(ctx0, cfin, ip + 1));
            assert(callop_step(*old(self), ctx0, op, *self, cfin));
        }
        Ok(())
    }

    /// Executes the iterator protocol: `ToIter` converts an array, dict or
    /// range into an iterator value; `IterNext` pops the iterator and either
    /// pushes the advanced iterator and the next element, or jumps past the
    /// loop body when exhausted. A dict iterator yields its key strings; a
    /// range with step `0` is exhausted at once.
    fn op_iter(
        &mut self,
        ctx: Context,
        instr: Instruction,
        area: CodeArea,
        fc: FuncCoord,
        ip: usize,
        func_len: usize,
    ) -> (r: Result<(), RuntimeError>)
        requires
            vm_ctx_ok(*old(self), ctx),
            fetched(*old(self), ctx, instr, fc, ip, func_len),
            instr matches Instruction::ToIter || instr matches Instruction::IterNext(..),
        ensures
            step_post(*old(self), *final(self)),
            r is Err ==> final(self).contexts == old(self).contexts && state_same(
                *old(self),
                *final(self),
            ),
            r is Ok ==> exists|c2: Context|
                final(self).contexts.contexts@ == old(self).contexts.contexts@.push(c2)
                    && #[trigger] iter_step(*old(self), ctx, instr, *final(self), c2),
    {
        let mut ctx = ctx;
        let ghost ctx0 = ctx;
        let ghost mlen0 = self.memory@.len();
        let ghost nkeys = self.contexts.have_not_returned@.len();
        proof {
            assert(frame_wf(
                ctx.pos_stack@.last(),
                ctx.registers@.last()@,
                ctx.stack@.last()@,
                self.programs@,
                mlen0 as int,
                nkeys as int,
            ));
            assert(instr_wf(
                instr,
                self.programs@[fc.program as int],
                func_len as int,
                self.programs@.len() as int,
                self.builtins@.len() as int,
            ));
        }
        let k = match ctx.pop_val() {
            Some(k) => k,
            None => {
                return Err(
                    raise(
                        ErrorKind::ThrownError {
                            area,
                            message: "operand stack underflow".to_owned(),
                        },
                        &ctx,
                    ),
                );
            },
        };
        proof {
            assert(keys_bounded(self.memory@[k.0 as int].value, k.0 as int));
        }
        match instr {
            Instruction::ToIter => {
                let st = match &self.memory.get(k).value {
                    Value::Array(ks) => IterState::Arr(crate::value::dup_keys(ks), 0),
                    Value::Range(a, b, s) => IterState::Rng(*a, *b, *s),
                    Value::Dict(es) => IterState::DictIt(crate::value::dup_entries(es), 0),
                    _ => {
                        let sv = self.memory.get(k);
                        return Err(
                            raise(
                                ErrorKind::CannotIterate {
                                    v: (sv.value.get_type(), sv.area.dup()),
                                    area,
                                },
                                &ctx,
                            ),
                        );
                    },
                };
                self.push_new(&mut ctx, Value::Iterator(st), area, ip + 1);
                let ghost cfin = ctx;
                self.finish(ctx);
                proof {
                    assert(iter_step(*old(self), ctx0, instr, *self, cfin));
                }
            },
            Instruction::IterNext(n) => {
                let st = match &self.memory.get(k).value {
                    Value::Iterator(st) => st.dup(),
                    _ => {
                        let sv = self.memory.get(k);
                        return Err(
                            raise(
                                ErrorKind::CannotIterate {
                                    v: (sv.value.get_type(), sv.area.dup()),
                                    area,
                                },
                                &ctx,
                            ),
                        );
                    },
                };
                match st {
                    IterState::Arr(ks, pos) => {
                        if pos < ks.len() {
                            let elem = ks[pos];
                            let it_k = self.store(
                                Value::Iterator(IterState::Arr(ks, pos + 1)),
                                area.dup(),
                            );
                            ctx.push_val(it_k);
                            ctx.push_val(elem);
                            ctx.jump(ip + 1);
                        } else {
                            ctx.jump(n.0 as usize);
                        }
                    },
                    IterState::DictIt(es, pos) => {
                        if pos < es.len() {
                            let name = es[pos].0.clone();
                            let it_k = self.store(
                                Value::Iterator(IterState::DictIt(es, pos + 1)),
                                area.dup(),
                            );
                            ctx.push_val(it_k);
                            let el_k = self.store(Value::String(name), area.dup());
                            ctx.push_val(el_k);
                            ctx.jump(ip + 1);
                        } else {
                            ctx.jump(n.0 as usize);
                        }
                    },
                    IterState::Rng(cur, end, st_) => {
                        if st_ == 0 || cur == end {
                            ctx.jump(n.0 as usize);
                        } else {
                            let next: i64 = if cur < end {
                                if st_ <= (i64::MAX as usize) {
                                    match cur.checked_add(st_ as i64) {
                                        Some(nx) => if nx > end {
                                            end
                                        } else {
                                            nx
                                        },
                                        None => end,
                                    }
                                } else {
                                    end
                                }
                            } else {
                                if st_ <= (i64::MAX as usize) {
                                    match cur.checked_sub(st_ as i64) {
                                        Some(nx) => if nx < end {
                                            end
                                        } else {
                                            nx
                                        },
                                        None => end,
                                    }
                                } else {
                                    end
                                }
                            };
                            let it_k = self.store(
                                Value::Iterator(IterState::Rng(next, end, st_)),
                                area.dup(),
                            );
                            ctx.push_val(it_k);
                            let el_k = self.store(Value::Int(cur), area.dup());
                            ctx.push_val(el_k);
                            ctx.jump(ip + 1);
                        }
                    },
                }
                proof {
                    self.memory.lemma_len_bound();
                    lemma_ctx_wf_update(
                        ctx0,
                        ctx,
                        self.programs@,
                        mlen0 as int,
                        self.memory@.len() as int,
                        nkeys as int,
                    );
                }
                let ghost cfin = ctx;
                self.finish(ctx);
                proof {
                    assert(iter_step(*old(self), ctx0, instr, *self, cfin));
                }
            },
            _ => {
                proof {
                    assert(false);
                }
            },
        }
        Ok(())
    }
}

/// A copy of a macro-build parameter list.
fn dup_params(v: &Vec<(String, bool, bool)>) -> (r: Vec<(String, bool, bool)>)
    ensures
        r@ == v@,
{
    let mut r: Vec<(String, bool, bool)> = Vec::new();
    let n = v.len();
    for i in 0..n
        invariant
            n == v@.len(),
            r@ == v@.subrange(0, i as int),
    {
        r.push((v[i].0.clone(), v[i].1, v[i].2));
    }
    proof {
        assert(r@ =~= v@);
    }
    r
}

impl Vm {
    /// Pops `cnt` keys from the running context's operand stack, last pushed
    /// first.
    #[verifier::loop_isolation(false)]
    fn pop_many(&self, ctx: &mut Context, cnt: usize, area: &CodeArea) -> (r: Result<
        Vec<ValueKey>,
        RuntimeError,
    >)
        requires
            self.wf(),
            ctx_wf(
                *old(ctx),
                self.programs@,
                self.memory@.len() as int,
                self.contexts.have_not_returned@.len() as int,
            ),
            old(ctx).spec_runnable(),
        ensures
            ctx_wf(
                *final(ctx),
                self.programs@,
                self.memory@.len() as int,
                self.contexts.have_not_returned@.len() as int,
            ),
            final(ctx).spec_runnable(),
            final(ctx).pos_stack == old(ctx).pos_stack,
            final(ctx).registers == old(ctx).registers,
            final(ctx).group_stack == old(ctx).group_stack,
            final(ctx).recursion_depth == old(ctx).recursion_depth,
            final(ctx).memory == old(ctx).memory,
            final(ctx).stack@.len() == old(ctx).stack@.len(),
            forall|f: int|
                0 <= f < old(ctx).stack@.len() - 1 ==> final(ctx).stack@[f] == old(
                    ctx,
                ).stack@[f],
            r matches Ok(ks) ==> ks@.len() == cnt && forall|i: int|
                0 <= i < cnt ==> (#[trigger] ks@[i]).0 < self.memory@.len(),
    {
        let ghost ctx0 = *ctx;
        let mut r: Vec<ValueKey> = Vec::new();
        proof {
            assert(frame_wf(
                ctx.pos_stack@.last(),
                ctx.registers@.last()@,
                ctx.stack@.last()@,
                self.programs@,
                self.memory@.len() as int,
                self.contexts.have_not_returned@.len() as int,
            ));
        }
        for t in 0..cnt
            invariant
                ctx.pos_stack == ctx0.pos_stack,
                ctx.registers == ctx0.registers,
                ctx.group_stack == ctx0.group_stack,
                ctx.recursion_depth == ctx0.recursion_depth,
                ctx.memory == ctx0.memory,
                ctx.stack@.len() == ctx0.stack@.len(),
                forall|f: int| 0 <= f < ctx0.stack@.len() - 1 ==> ctx.stack@[f] == ctx0.stack@[f],
                ctx.shape_wf(),
                ctx.spec_runnable(),
                forall|i: int|
                    0 <= i < ctx.stack@.last()@.len() ==> (#[trigger] ctx.stack@.last()@[i]).0
                        < self.memory@.len(),
                r@.len() == t,
                forall|i: int| 0 <= i < t ==> (#[trigger] r@[i]).0 < self.memory@.len(),
        {
            let k = match ctx.pop_val() {
                Some(k) => k,
                None => {
                    proof {
                        lemma_ctx_wf_update(
                            ctx0,
                            *ctx,
                            self.programs@,
                            self.memory@.len() as int,
                            self.memory@.len() as int,
                            self.contexts.have_not_returned@.len() as int,
                        );
                    }
                    return Err(
                        raise(
                            ErrorKind::ThrownError {
                                area: area.dup(),
                                message: "operand stack underflow".to_owned(),
                            },
                            ctx,
                        ),
                    );
                },
            };
            r.push(k);
        }
        proof {
            lemma_ctx_wf_update(
                ctx0,
                *ctx,
                self.programs@,
                self.memory@.len() as int,
                self.memory@.len() as int,
                self.contexts.have_not_returned@.len() as int,
            );
        }
        Ok(r)
    }

    /// Executes the constructors: `BuildArray`, `BuildDict` and
    /// `BuildMacro`.
    fn op_build(
        &mut self,
        ctx: Context,
        instr: Instruction,
        area: CodeArea,
        fc: FuncCoord,
        ip: usize,
        func_len: usize,
    ) -> (r: Result<(), RuntimeError>)
        requires
            vm_ctx_ok(*old(self), ctx),
            fetched(*old(self), ctx, instr, fc, ip, func_len),
            instr matches Instruction::BuildArray(..) || instr matches Instruction::BuildDict(..)
                || instr matches Instruction::BuildMacro(..),
        ensures
            step_post(*old(self), *final(self)),
            r is Err ==> final(self).contexts == old(self).contexts && state_same(
                *old(self),
                *final(self),
            ),
            r is Ok ==> exists|c2: Context|
                final(self).contexts.contexts@ == old(self).contexts.contexts@.push(c2)
                    && #[trigger] produce_step(*old(self), ctx, *final(self), c2),
    {
        let mut ctx = ctx;
        let ghost ctx0 = ctx;
        let ghost mlen0 = self.memory@.len();
        proof {
            assert(instr_wf(
                instr,
                self.programs@[fc.program as int],
                func_len as int,
                self.programs@.len() as int,
                self.builtins@.len() as int,
            ));
        }
        match instr {
            Instruction::BuildArray(n) => {
                let elems = match self.pop_many(&mut ctx, n.0 as usize, &area) {
                    Ok(e) => e,
                    Err(e) => {
                        return Err(e);
                    },
                };
                let mut arr: Vec<ValueKey> = Vec::new();
                let mut i = elems.len();
                while i > 0
                    invariant
                        i <= elems@.len(),
                        forall|t: int|
                            0 <= t < elems@.len() ==> (#[trigger] elems@[t]).0 < mlen0,
                        forall|t: int| 0 <= t < arr@.len() ==> (#[trigger] arr@[t]).0 < mlen0,
                    decreases i,
                {
                    i = i - 1;
                    arr.push(elems[i]);
                }
                self.push_new(&mut ctx, Value::Array(arr), area, ip + 1);
            },
            Instruction::BuildDict(kid) => {
                let nnames = self.programs[fc.program].keys_register[kid.0 as usize].len();
                let elems = match self.pop_many(&mut ctx, nnames, &area) {
                    Ok(e) => e,
                    Err(e) => {
                        return Err(e);
                    },
                };
                let mut entries: Vec<(String, ValueKey)> = Vec::new();
                for j in 0..nnames
                    invariant
                        nnames == self.programs@[fc.program as int].keys_register@[kid.0 as int]@.len(),
                        fc.program < self.programs@.len(),
                        kid.0 < self.programs@[fc.program as int].keys_register@.len(),
                        elems@.len() == nnames,
                        forall|t: int|
                            0 <= t < elems@.len() ==> (#[trigger] elems@[t]).0 < mlen0,
                        forall|t: int|
                            0 <= t < entries@.len() ==> (#[trigger] entries@[t]).1.0 < mlen0,
                        forall|u: int, w: int|
                            0 <= u < w < entries@.len() ==> (#[trigger] entries@[u]).0@ != (
                            #[trigger] entries@[w]).0@,
                {
                    let name = self.programs[fc.program].keys_register[kid.0 as usize][j].clone();
                    let value = elems[nnames - 1 - j];
                    // later entries for the same name overwrite earlier ones,
                    // so dict keys stay unique
                    let mut found = false;
                    let ne = entries.len();
                    for t in 0..ne
                        invariant
                            ne == entries@.len(),
                            forall|u: int|
                                0 <= u < entries@.len() ==> (#[trigger] entries@[u]).1.0 < mlen0,
                            forall|u: int, w: int|
                                0 <= u < w < entries@.len() ==> (#[trigger] entries@[u]).0@ != (
                                #[trigger] entries@[w]).0@,
                            value.0 < mlen0,
                            !found ==> forall|u: int|
                                0 <= u < t ==> (#[trigger] entries@[u]).0@ != name@,
                        decreases ne - t,
                    {
                        if !found && entries[t].0 == name {
                            entries.set(t, (name.clone(), value));
                            found = true;
                        }
                    }
                    if !found {
                        entries.push((name, value));
                    }
                }
                proof {
                    assert(crate::value::dict_names_unique(Value::Dict(entries)));
                }
                self.push_new(&mut ctx, Value::Dict(entries), area, ip + 1);
            },
            Instruction::BuildMacro(bid) => {
                let mb_func = self.programs[fc.program].macro_build_register[bid.0 as usize].func;
                let params = dup_params(
                    &self.programs[fc.program].macro_build_register[bid.0 as usize].params,
                );
                let mut rev_args: Vec<crate::value::ArgData> = Vec::new();
                let mut i = params.len();
                let ghost ctx1 = ctx;
                while i > 0
                    invariant
                        self.wf(),
                        self.memory@.len() == mlen0,
                        ctx_wf(
                            ctx,
                            self.programs@,
                            mlen0 as int,
                            self.contexts.have_not_returned@.len() as int,
                        ),
                        ctx.spec_runnable(),
                        ctx.pos_stack == ctx1.pos_stack,
                        ctx.registers == ctx1.registers,
                        ctx.group_stack == ctx1.group_stack,
                        ctx.recursion_depth == ctx1.recursion_depth,
                        ctx.memory == ctx1.memory,
                        ctx.stack@.len() == ctx1.stack@.len(),
                        forall|f: int|
                            0 <= f < ctx1.stack@.len() - 1 ==> ctx.stack@[f] == ctx1.stack@[f],
                        i <= params@.len(),
                        rev_args@.len() + i == params@.len(),
                        forall|t: int|
                            0 <= t < rev_args@.len() ==> arg_keys_bounded(
                                #[trigger] rev_args@[t],
                                mlen0 as int,
                            ),
                    decreases i,
                {
                    i = i - 1;
                    let pattern = if params[i].2 {
                        match self.pop_many(&mut ctx, 1, &area) {
                            Ok(ks) => Some(ks[0]),
                            Err(e) => {
                                return Err(e);
                            },
                        }
                    } else {
                        None
                    };
                    let default = if params[i].1 {
                        match self.pop_many(&mut ctx, 1, &area) {
                            Ok(ks) => Some(ks[0]),
                            Err(e) => {
                                return Err(e);
                            },
                        }
                    } else {
                        None
                    };
                    rev_args.push(
                        crate::value::ArgData { name: params[i].0.clone(), default, pattern },
                    );
                }
                let mut args: Vec<crate::value::ArgData> = Vec::new();
                let mut i2 = rev_args.len();
                while i2 > 0
                    invariant
                        i2 <= rev_args@.len(),
                        args@.len() + i2 == rev_args@.len(),
                        forall|t: int|
                            0 <= t < rev_args@.len() ==> arg_keys_bounded(
                                #[trigger] rev_args@[t],
                                mlen0 as int,
                            ),
                        forall|t: int|
                            0 <= t < args@.len() ==> arg_keys_bounded(
                                #[trigger] args@[t],
                                mlen0 as int,
                            ),
                    decreases i2,
                {
                    i2 = i2 - 1;
                    let a = &rev_args[i2];
                    args.push(
                        crate::value::ArgData {
                            name: a.name.clone(),
                            default: a.default,
                            pattern: a.pattern,
                        },
                    );
                }
                let ncap = self.programs[fc.program].funcs[mb_func].capture_ids.len();
                let mut captured: Vec<ValueKey> = Vec::new();
                for j in 0..ncap
                    invariant
                        self.wf(),
                        self.memory@.len() == mlen0,
                        ctx_wf(
                            ctx,
                            self.programs@,
                            mlen0 as int,
                            self.contexts.have_not_returned@.len() as int,
                        ),
                        ctx.spec_runnable(),
                        fc.program < self.programs@.len(),
                        mb_func < self.programs@[fc.program as int].funcs@.len(),
                        ncap
                            == self.programs@[fc.program as int].funcs@[mb_func as int].capture_ids@.len(),
                        ctx.pos_stack@.last().func == fc,
                        captured@.len() == j,
                        forall|t: int|
                            0 <= t < captured@.len() ==> (#[trigger] captured@[t]).0 < mlen0,
                {
                    proof {
                        assert(code_wf(
                            self.programs@[fc.program as int],
                            self.programs@.len() as int,
                            self.builtins@.len() as int,
                        ));
                        assert(frame_wf(
                            ctx.pos_stack@.last(),
                            ctx.registers@.last()@,
                            ctx.stack@.last()@,
                            self.programs@,
                            mlen0 as int,
                            self.contexts.have_not_returned@.len() as int,
                        ));
                    }
                    let cap = self.programs[fc.program].funcs[mb_func].capture_ids[j];
                    let k = ctx.reg_read(cap.0 as usize);
                    captured.push(k);
                }
                let v = Value::Macro(
                    MacroCode::Normal {
                        func: FuncCoord { program: fc.program, func: mb_func },
                        args,
                        captured,
                    },
                );
                proof {
                    assert(code_wf(
                        self.programs@[fc.program as int],
                        self.programs@.len() as int,
                        self.builtins@.len() as int,
                    ));
                    assert(macro_value_ok(v, self.programs@));
                }
                self.push_new(&mut ctx, v, area, ip + 1);
            },
            _ => {
                proof {
                    assert(false);
                }
            },
        }
        let ghost cfin = ctx;
        self.finish(ctx);
        proof {
            assert(produce_step(*old(self), ctx0, *self, cfin));
        }
        Ok(())
    }
}

/// The pattern denoted by a value, if any: a type indicator denotes the
/// pattern matching exactly that type, a pattern denotes itself.
pub open spec fn spec_to_pat_opt(v: Value) -> Option<crate::value::Pattern> {
    match v {
        Value::TypeIndicator(t) => Some(crate::value::Pattern::Type(t)),
        Value::Pattern(p) => Some(p),
        _ => None,
    }
}

/// Whether parameter `p`, bound to the value behind `k`, is satisfied: its
/// pattern (if any) denotes a pattern that admits the value.
pub open spec fn pattern_admits(m: Seq<StoredValue>, p: crate::value::ArgData, k: ValueKey) -> bool {
    p.pattern matches Some(pk) ==> {
        &&& pk.0 < m.len()
        &&& k.0 < m.len()
        &&& spec_to_pat_opt(m[pk.0 as int].value) matches Some(pat) && crate::value::spec_matches_pat(
            m[k.0 as int].value,
            pat,
        )
    }
}

/// Whether a call binds: no more positional arguments than parameters,
/// every unfilled parameter has a default, and every parameter's pattern
/// admits the value it receives.
pub open spec fn binds_ok(
    m: Seq<StoredValue>,
    params: Seq<crate::value::ArgData>,
    args: Seq<ValueKey>,
) -> bool {
    &&& args.len() <= params.len()
    &&& forall|i: int| args.len() <= i < params.len() ==> (#[trigger] params[i]).default is Some
    &&& forall|i: int|
        0 <= i < params.len() ==> pattern_admits(
            m,
            #[trigger] params[i],
            if i < args.len() {
                args[i]
            } else {
                params[i].default->0
            },
        )
}

/// Binds a call's positional arguments to a macro's parameters: positional
/// values first, defaults for the rest. Fails with `TooManyArguments` when
/// there are more arguments than parameters, `ArgumentNotSatisfied` when an
/// unfilled parameter has no default, and `ArgumentPatternMismatch` (or the
/// conversion error of a non-pattern pattern value) when a parameter's
/// pattern rejects its value; it succeeds exactly when [`binds_ok`] holds.
#[verifier::loop_isolation(false)]
pub fn bind_args(
    mem: &Arena,
    params: &Vec<crate::value::ArgData>,
    args: &Vec<ValueKey>,
    call_area: &CodeArea,
    def_area: &CodeArea,
) -> (r: Result<Vec<ValueKey>, ErrorKind>)
    requires
        mem.wf(),
        forall|i: int| 0 <= i < args@.len() ==> (#[trigger] args@[i]).0 < mem@.len(),
        forall|i: int|
            0 <= i < params@.len() ==> arg_keys_bounded(#[trigger] params@[i], mem@.len() as int),
    ensures
        args@.len() > params@.len() ==> r == Result::<Vec<ValueKey>, ErrorKind>::Err(
            ErrorKind::TooManyArguments {
                call_area: *call_area,
                macro_def_area: *def_area,
                macro_arg_amount: params@.len() as usize,
                call_arg_amount: args@.len() as usize,
            },
        ),
        r matches Ok(ks) ==> {
            &&& ks@.len() == params@.len()
            &&& forall|i: int| 0 <= i < ks@.len() ==> (#[trigger] ks@[i]).0 < mem@.len()
            &&& forall|i: int| 0 <= i < args@.len() ==> ks@[i] == #[trigger] args@[i]
            &&& forall|i: int|
                args@.len() <= i < params@.len() ==> ((#[trigger] params@[i]).default
                    matches Some(d) && ks@[i] == d)
        },
        r is Ok <==> binds_ok(mem@, params@, args@),
{
    proof {
        vstd::std_specs::vec::axiom_spec_len(params);
        vstd::std_specs::vec::axiom_spec_len(args);
    }
    if args.len() > params.len() {
        return Err(
            ErrorKind::TooManyArguments {
                call_area: call_area.dup(),
                macro_def_area: def_area.dup(),
                macro_arg_amount: params.len(),
                call_arg_amount: args.len(),
            },
        );
    }
    let mut ks: Vec<ValueKey> = Vec::new();
    let n = params.len();
    for i in 0..n
        invariant
            ks@.len() == i,
            forall|t: int| 0 <= t < i && t < args@.len() ==> ks@[t] == #[trigger] args@[t],
            forall|t: int|
                args@.len() <= t < i ==> ((#[trigger] params@[t]).default matches Some(d)
                    && ks@[t] == d),
            forall|t: int| 0 <= t < i ==> (#[trigger] ks@[t]).0 < mem@.len(),
            forall|t: int|
                args@.len() <= t < i ==> (#[trigger] params@[t]).default is Some,
            forall|t: int|
                0 <= t < i ==> pattern_admits(
                    mem@,
                    #[trigger] params@[t],
                    if t < args@.len() {
                        args@[t]
                    } else {
                        params@[t].default->0
                    },
                ),
    {
        let k: ValueKey = if i < args.len() {
            args[i]
        } else {
            match params[i].default {
                Some(d) => d,
                None => {
                    return Err(
                        ErrorKind::ArgumentNotSatisfied {
                            call_area: call_area.dup(),
                            macro_def_area: def_area.dup(),
                            arg_name: params[i].name.clone(),
                        },
                    );
                },
            }
        };
        match params[i].pattern {
            Some(pk) => {
                let pat = match crate::ops::to_pat(mem.get(pk)) {
                    Ok(pat) => pat,
                    Err(e) => {
                        return Err(e);
                    },
                };
                if !mem.get(k).value.matches_pat(&pat) {
                    let vsv = mem.get(k);
                    return Err(
                        ErrorKind::ArgumentPatternMismatch {
                            call_area: call_area.dup(),
                            macro_def_area: def_area.dup(),
                            arg_name: params[i].name.clone(),
                            pattern: pat,
                            v: (vsv.value.get_type(), vsv.area.dup()),
                        },
                    );
                }
            },
            None => {},
        }
        ks.push(k);
    }
    Ok(ks)
}

impl Vm {
    /// Executes `Index`, `Member` and `Associated`: container and member
    /// resolution, including the member tables installed by `Impl`.
    fn op_access(
        &mut self,
        ctx: Context,
        instr: Instruction,
        area: CodeArea,
        fc: FuncCoord,
        ip: usize,
        func_len: usize,
    ) -> (r: Result<(), RuntimeError>)
        requires
            vm_ctx_ok(*old(self), ctx),
            fetched(*old(self), ctx, instr, fc, ip, func_len),
            instr matches Instruction::Index || instr matches Instruction::Member(..)
                || instr matches Instruction::Associated(..),
        ensures
            step_post(*old(self), *final(self)),
            r is Err ==> final(self).contexts == old(self).contexts && state_same(
                *old(self),
                *final(self),
            ),
            r is Ok ==> exists|c2: Context|
                final(self).contexts.contexts@ == old(self).contexts.contexts@.push(c2)
                    && #[trigger] produce_step(*old(self), ctx, *final(self), c2),
    {
        let mut ctx = ctx;
        let ghost ctx0 = ctx;
        let ghost mlen0 = self.memory@.len();
        let ghost nkeys = self.contexts.have_not_returned@.len();
        proof {
            assert(frame_wf(
                ctx.pos_stack@.last(),
                ctx.registers@.last()@,
                ctx.stack@.last()@,
                self.programs@,
                mlen0 as int,
                nkeys as int,
            ));
            assert(instr_wf(
                instr,
                self.programs@[fc.program as int],
                func_len as int,
                self.programs@.len() as int,
                self.builtins@.len() as int,
            ));
        }
        match instr {
            Instruction::Index => {
                let ik = match ctx.pop_val() {
                    Some(k) => k,
                    None => {
                        return Err(
                            raise(
                                ErrorKind::ThrownError {
                                    area,
                                    message: "operand stack underflow".to_owned(),
                                },
                                &ctx,
                            ),
                        );
                    },
                };
                let bk = match ctx.pop_val() {
                    Some(k) => k,
                    None => {
                        return Err(
                            raise(
                                ErrorKind::ThrownError {
                                    area,
                                    message: "operand stack underflow".to_owned(),
                                },
                                &ctx,
                            ),
                        );
                    },
                };
                proof {
                    assert(keys_bounded(self.memory@[bk.0 as int].value, bk.0 as int));
                }
                let picked: ValueKey = match (&self.memory.get(bk).value, &self.memory.get(
                    ik,
                ).value) {
                    (Value::Array(ks), Value::Int(n)) => {
                        let len = ks.len();
                        let eff: usize = if *n >= 0 {
                            if (*n as u64) < (len as u64) {
                                *n as usize
                            } else {
                                return Err(
                                    raise(
                                        ErrorKind::IndexOutOfBounds {
                                            len,
                                            index: *n,
                                            area,
                                            typ: crate::value::ValueType::Array,
                                        },
                                        &ctx,
                                    ),
                                );
                            }
                        } else {
                            let mag: u64 = ((-(*n + 1)) as u64) + 1;
                            if mag <= (len as u64) {
                                len - (mag as usize)
                            } else {
                                return Err(
                                    raise(
                                        ErrorKind::IndexOutOfBounds {
                                            len,
                                            index: *n,
                                            area,
                                            typ: crate::value::ValueType::Array,
                                        },
                                        &ctx,
                                    ),
                                );
                            }
                        };
                        ks[eff]
                    },
                    (Value::Dict(es), Value::String(s)) => {
                        match crate::ops::dict_get(es, s) {
                            Some(k2) => {
                                proof {
                                    crate::ops::lemma_dict_get_found(es@, s@);
                                }
                                k2
                            },
                            None => {
                                return Err(
                                    raise(
                                        ErrorKind::NonexistentMember {
                                            area,
                                            member: s.clone(),
                                            base_type: crate::value::ValueType::Dict,
                                        },
                                        &ctx,
                                    ),
                                );
                            },
                        }
                    },
                    (bv, iv) => {
                        let bsv = self.memory.get(bk);
                        let isv = self.memory.get(ik);
                        return Err(
                            raise(
                                ErrorKind::InvalidIndex {
                                    base: (bv.get_type(), bsv.area.dup()),
                                    index: (iv.get_type(), isv.area.dup()),
                                    area,
                                },
                                &ctx,
                            ),
                        );
                    },
                };
                ctx.push_val(picked);
                ctx.jump(ip + 1);
            },
            Instruction::Member(mid) => {
                let bk = match ctx.pop_val() {
                    Some(k) => k,
                    None => {
                        return Err(
                            raise(
                                ErrorKind::ThrownError {
                                    area,
                                    message: "operand stack underflow".to_owned(),
                                },
                                &ctx,
                            ),
                        );
                    },
                };
                let name = self.programs[fc.program].member_register[mid.0 as usize].clone();
                proof {
                    assert(keys_bounded(self.memory@[bk.0 as int].value, bk.0 as int));
                }
                let base_type = self.memory.get(bk).value.get_type();
                let found: Option<ValueKey> = match &self.memory.get(bk).value {
                    Value::Dict(es) => {
                        match crate::ops::dict_get(es, &name) {
                            Some(k2) => {
                                proof {
                                    crate::ops::lemma_dict_get_found(es@, name@);
                                }
                                Some(k2)
                            },
                            None => None,
                        }
                    },
                    _ => {
                        let mut found: Option<ValueKey> = None;
                        let ni = self.impls.len();
                        for t in 0..ni
                            invariant
                                ni == self.impls@.len(),
                                self.impls_ok(),
                                self.memory@.len() == mlen0,
                                found matches Some(k2) ==> k2.0 < mlen0,
                        {
                            if self.impls[t].typ == base_type {
                                match crate::ops::dict_get(&self.impls[t].members, &name) {
                                    Some(k2) => {
                                        proof {
                                            crate::ops::lemma_dict_get_found(
                                                self.impls@[t as int].members@,
                                                name@,
                                            );
                                            assert(impl_entry_ok(
                                                self.impls@[t as int],
                                                mlen0 as int,
                                            ));
                                        }
                                        found = Some(k2);
                                    },
                                    None => {},
                                }
                            }
                        }
                        found
                    },
                };
                match found {
                    Some(k2) => {
                        // a member table entry that is not a macro cannot be
                        // used as a method on a non-dict value
                        if !(base_type == crate::value::ValueType::Dict) {
                            let msv = self.memory.get(k2);
                            if !(msv.value.get_type() == crate::value::ValueType::Macro) {
                                return Err(
                                    raise(
                                        ErrorKind::NotAMethod {
                                            area,
                                            def_area: msv.area.dup(),
                                            member_name: name,
                                            member_type: msv.value.get_type(),
                                            base_type,
                                        },
                                        &ctx,
                                    ),
                                );
                            }
                        }
                        ctx.push_val(k2);
                        ctx.jump(ip + 1);
                    },
                    None => {
                        return Err(
                            raise(
                                ErrorKind::NonexistentMember { area, member: name, base_type },
                                &ctx,
                            ),
                        );
                    },
                }
            },
            Instruction::Associated(mid) => {
                let bk = match ctx.pop_val() {
                    Some(k) => k,
                    None => {
                        return Err(
                            raise(
                                ErrorKind::ThrownError {
                                    area,
                                    message: "operand stack underflow".to_owned(),
                                },
                                &ctx,
                            ),
                        );
                    },
                };
                let name = self.programs[fc.program].member_register[mid.0 as usize].clone();
                let t = match &self.memory.get(bk).value {
                    Value::TypeIndicator(t) => *t,
                    _ => {
                        let sv = self.memory.get(bk);
                        return Err(
                            raise(
                                ErrorKind::TypeMismatch {
                                    v: (sv.value.get_type(), sv.area.dup()),
                                    area,
                                    expected: crate::value::ValueType::TypeIndicator,
                                },
                                &ctx,
                            ),
                        );
                    },
                };
                let mut found: Option<ValueKey> = None;
                let ni = self.impls.len();
                for u in 0..ni
                    invariant
                        ni == self.impls@.len(),
                        self.impls_ok(),
                        self.memory@.len() == mlen0,
                        found matches Some(k2) ==> k2.0 < mlen0,
                {
                    if self.impls[u].typ == t {
                        match crate::ops::dict_get(&self.impls[u].members, &name) {
                            Some(k2) => {
                                proof {
                                    crate::ops::lemma_dict_get_found(
                                        self.impls@[u as int].members@,
                                        name@,
                                    );
                                    assert(impl_entry_ok(self.impls@[u as int], mlen0 as int));
                                }
                                found = Some(k2);
                            },
                            None => {},
                        }
                    }
                }
                match found {
                    Some(k2) => {
                        ctx.push_val(k2);
                        ctx.jump(ip + 1);
                    },
                    None => {
                        return Err(
                            raise(
                                ErrorKind::NonexistentAssociatedMember {
                                    area,
                                    member: name,
                                    base_type: t,
                                },
                                &ctx,
                            ),
                        );
                    },
                }
            },
            _ => {
                proof {
                    assert(false);
                }
            },
        }
        proof {
            lemma_ctx_wf_update(
                ctx0,
                ctx,
                self.programs@,
                mlen0 as int,
                mlen0 as int,
                nkeys as int,
            );
        }
        let ghost cfin = ctx;
        self.finish(ctx);
        proof {
            assert(self.memory@.is_prefix_of(self.memory@)) by {
                assert(self.memory@.subrange(0, self.memory@.len() as int) =~= self.memory@);
            }
            assert(produce_step(*old(self), ctx0, *self, cfin));
        }
        Ok(())
    }
}

impl Vm {
    /// Runs one builtin directly against the arena, without pushing a
    /// bytecode frame, and returns the key of its result.
    fn run_builtin<F: FloatMath>(
        &mut self,
        ctx: &Context,
        b: Builtin,
        args: &Vec<ValueKey>,
        area: &CodeArea,
        fm: &F,
    ) -> (r: Result<ValueKey, RuntimeError>)
        requires
            old(self).wf(),
            forall|i: int| 0 <= i < args@.len() ==> (#[trigger] args@[i]).0 < old(self).memory@.len(),
        ensures
            final(self).wf(),
            final(self).memory == old(self).memory,
            final(self).programs == old(self).programs,
            final(self).builtins == old(self).builtins,
            final(self).contexts == old(self).contexts,
            final(self).impls == old(self).impls,
            final(self).objects == old(self).objects,
            final(self).spawned == old(self).spawned,
            old(self).output@.is_prefix_of(final(self).output@),
            final(self).result == old(self).result,
            final(self).trigger_fn_group == old(self).trigger_fn_group,
            final(self).next_group == old(self).next_group,
            final(self).recursion_limit == old(self).recursion_limit,
            final(self).step_limit == old(self).step_limit,
            final(self).restrict_object_add == old(self).restrict_object_add,
            r matches Ok(k) ==> k.0 < final(self).memory@.len(),
            r is Err ==> final(self).output == old(self).output,
    {
        let arity: usize = match b {
            Builtin::Print => 1,
            Builtin::Assert => 1,
            Builtin::AssertEq => 2,
        };
        if args.len() > arity {
            return Err(
                raise(
                    ErrorKind::TooManyArguments {
                        call_area: area.dup(),
                        macro_def_area: CodeArea::internal(),
                        macro_arg_amount: arity,
                        call_arg_amount: args.len(),
                    },
                    ctx,
                ),
            );
        }
        if args.len() < arity {
            return Err(
                raise(
                    ErrorKind::ArgumentNotSatisfied {
                        call_area: area.dup(),
                        macro_def_area: CodeArea::internal(),
                        arg_name: "value".to_owned(),
                    },
                    ctx,
                ),
            );
        }
        match b {
            Builtin::Print => {
                let line = crate::display::runtime_display(&self.memory, args[0], fm);
                self.output.push(line);
            },
            Builtin::Assert => {
                let ok = match crate::ops::to_bool(self.memory.get(args[0])) {
                    Ok(v) => v,
                    Err(e) => {
                        return Err(raise(e, ctx));
                    },
                };
                if !ok {
                    return Err(raise(ErrorKind::AssertionFailed { area: area.dup() }, ctx));
                }
            },
            Builtin::AssertEq => {
                let equal = crate::ops::equality(&self.memory, args[0], args[1], fm);
                if !equal {
                    let left = crate::display::runtime_display(&self.memory, args[0], fm);
                    let right = crate::display::runtime_display(&self.memory, args[1], fm);
                    return Err(
                        raise(
                            ErrorKind::EqAssertionFailed { area: area.dup(), left, right },
                            ctx,
                        ),
                    );
                }
            },
        }
        Ok(ValueKey(0))
    }

    /// Executes `Call` and `CallBuiltin`: binds the arguments and pushes a
    /// new frame for a bytecode macro, or invokes a builtin directly. More
    /// positional arguments than parameters fail with `TooManyArguments`
    /// carrying the call site and the macro's definition area.
    fn op_call<F: FloatMath>(
        &mut self,
        ctx: Context,
        instr: Instruction,
        area: CodeArea,
        fc: FuncCoord,
        ip: usize,
        func_len: usize,
        fm: &F,
    ) -> (r: Result<(), RuntimeError>)
        requires
            vm_ctx_ok(*old(self), ctx),
            fetched(*old(self), ctx, instr, fc, ip, func_len),
            instr matches Instruction::Call(..) || instr matches Instruction::CallBuiltin(..),
        ensures
            step_post(*old(self), *final(self)),
            r is Err ==> final(self).contexts == old(self).contexts && state_same(
                *old(self),
                *final(self),
            ),
            r is Ok ==> {
                &&& final(self).objects == old(self).objects
                &&& final(self).spawned == old(self).spawned
                &&& final(self).impls == old(self).impls
                &&& final(self).result == old(self).result
                &&& final(self).trigger_fn_group == old(self).trigger_fn_group
                &&& final(self).next_group == old(self).next_group
                &&& old(self).output@.is_prefix_of(final(self).output@)
                &&& old(self).memory@.is_prefix_of(final(self).memory@)
                &&& exists|c2: Context|
                    final(self).contexts.contexts@ == old(self).contexts.contexts@.push(c2)
                        && #[trigger] call_step(*old(self), ctx, *final(self), c2)
            },
    {
        let mut ctx = ctx;
        let ghost ctx0 = ctx;
        let ghost mlen0 = self.memory@.len();
        let ghost nkeys0 = self.contexts.have_not_returned@.len();
        proof {
            assert(instr_wf(
                instr,
                self.programs@[fc.program as int],
                func_len as int,
                self.programs@.len() as int,
                self.builtins@.len() as int,
            ));
        }
        match instr {
            Instruction::CallBuiltin(bk) => {
                let b = self.builtins[bk.0 as usize];
                let arity: usize = match b {
                    Builtin::Print => 1,
                    Builtin::Assert => 1,
                    Builtin::AssertEq => 2,
                };
                let rev = match self.pop_many(&mut ctx, arity, &area) {
                    Ok(ks) => ks,
                    Err(e) => {
                        return Err(e);
                    },
                };
                let mut args: Vec<ValueKey> = Vec::new();
                let mut i = rev.len();
                while i > 0
                    invariant
                        i <= rev@.len(),
                        forall|t: int| 0 <= t < rev@.len() ==> (#[trigger] rev@[t]).0 < mlen0,
                        forall|t: int| 0 <= t < args@.len() ==> (#[trigger] args@[t]).0 < mlen0,
                    decreases i,
                {
                    i = i - 1;
                    args.push(rev[i]);
                }
                let rk = match self.run_builtin(&ctx, b, &args, &area, fm) {
                    Ok(k) => k,
                    Err(e) => {
                        return Err(e);
                    },
                };
                ctx.push_val(rk);
                ctx.jump(ip + 1);
                proof {
                    lemma_ctx_wf_update(
                        ctx0,
                        ctx,
                        self.programs@,
                        mlen0 as int,
                        self.memory@.len() as int,
                        nkeys0 as int,
                    );
                }
                let ghost cfin = ctx;
                self.finish(ctx);
                proof {
                    assert(call_step(*old(self), ctx0, *self, cfin));
                }
                Ok(())
            },
            Instruction::Call(n) => {
                let argc = n.0 as usize;
                let rev = match self.pop_many(&mut ctx, argc, &area) {
                    Ok(ks) => ks,
                    Err(e) => {
                        return Err(e);
                    },
                };
                let mut args: Vec<ValueKey> = Vec::new();
                let mut i = rev.len();
                while i > 0
                    invariant
                        i <= rev@.len(),
                        forall|t: int| 0 <= t < rev@.len() ==> (#[trigger] rev@[t]).0 < mlen0,
                        forall|t: int| 0 <= t < args@.len() ==> (#[trigger] args@[t]).0 < mlen0,
                    decreases i,
                {
                    i = i - 1;
                    args.push(rev[i]);
                }
                let mk = match ctx.pop_val() {
                    Some(k) => k,
                    None => {
                        return Err(
                            raise(
                                ErrorKind::ThrownError {
                                    area,
                                    message: "operand stack underflow".to_owned(),
                                },
                                &ctx,
                            ),
                        );
                    },
                };
                proof {
                    assert(keys_bounded(self.memory@[mk.0 as int].value, mk.0 as int));
                    assert(macro_value_ok(self.memory@[mk.0 as int].value, self.programs@));
                }
                let def_area = self.memory.get(mk).area.dup();
                let code = match &self.memory.get(mk).value {
                    Value::Macro(MacroCode::Normal { func, args: margs, captured }) => Some(
                        (*func, crate::value::dup_args(margs), crate::value::dup_keys(captured)),
                    ),
                    Value::Macro(MacroCode::Builtin(b)) => {
                        let b = *b;
                        let rk = match self.run_builtin(&ctx, b, &args, &area, fm) {
                            Ok(k) => k,
                            Err(e) => {
                                return Err(e);
                            },
                        };
                        ctx.push_val(rk);
                        ctx.jump(ip + 1);
                        proof {
                            lemma_ctx_wf_update(
                                ctx0,
                                ctx,
                                self.programs@,
                                mlen0 as int,
                                self.memory@.len() as int,
                                nkeys0 as int,
                            );
                        }
                        let ghost cfin = ctx;
                        self.finish(ctx);
                        proof {
                            assert(call_step(*old(self), ctx0, *self, cfin));
                        }
                        return Ok(());
                    },
                    _ => None,
                };
                let (mfunc, margs, captured) = match code {
                    Some(t) => t,
                    None => {
                        let sv = self.memory.get(mk);
                        return Err(
                            raise(
                                ErrorKind::TypeMismatch {
                                    v: (sv.value.get_type(), sv.area.dup()),
                                    area,
                                    expected: crate::value::ValueType::Macro,
                                },
                                &ctx,
                            ),
                        );
                    },
                };
                let bound = match bind_args(&self.memory, &margs, &args, &area, &def_area) {
                    Ok(ks) => ks,
                    Err(e) => {
                        return Err(raise(e, &ctx));
                    },
                };
                if ctx.recursion_depth >= self.recursion_limit {
                    return Err(
                        raise(
                            ErrorKind::ThrownError {
                                area,
                                message: "recursion limit exceeded".to_owned(),
                            },
                            &ctx,
                        ),
                    );
                }
                let var_count = self.programs[mfunc.program].var_count;
                let mut regs = make_regs(var_count, ValueKey(0));
                let na = margs.len();
                proof {
                    assert(code_wf(
                        self.programs@[mfunc.program as int],
                        self.programs@.len() as int,
                        self.builtins@.len() as int,
                    ));
                }
                for j in 0..na
                    invariant
                        na == margs@.len(),
                        bound@.len() == na,
                        mfunc.program < self.programs@.len(),
                        mfunc.func < self.programs@[mfunc.program as int].funcs@.len(),
                        na
                            == self.programs@[mfunc.program as int].funcs@[mfunc.func as int].arg_ids@.len(),
                        var_count == self.programs@[mfunc.program as int].var_count,
                        code_wf(
                            self.programs@[mfunc.program as int],
                            self.programs@.len() as int,
                            self.builtins@.len() as int,
                        ),
                        regs@.len() == var_count,
                        forall|t: int| 0 <= t < bound@.len() ==> (#[trigger] bound@[t]).0 < mlen0,
                        forall|t: int| 0 <= t < regs@.len() ==> (#[trigger] regs@[t]).0 < mlen0,
                {
                    let rid = self.programs[mfunc.program].funcs[mfunc.func].arg_ids[j];
                    regs.set(rid.0 as usize, bound[j]);
                }
                let nc = captured.len();
                proof {
                    assert(nc
                        == self.programs@[mfunc.program as int].funcs@[mfunc.func as int].capture_ids@.len());
                }
                for j in 0..nc
                    invariant
                        nc == captured@.len(),
                        mfunc.program < self.programs@.len(),
                        mfunc.func < self.programs@[mfunc.program as int].funcs@.len(),
                        nc
                            == self.programs@[mfunc.program as int].funcs@[mfunc.func as int].capture_ids@.len(),
                        var_count == self.programs@[mfunc.program as int].var_count,
                        code_wf(
                            self.programs@[mfunc.program as int],
                            self.programs@.len() as int,
                            self.builtins@.len() as int,
                        ),
                        regs@.len() == var_count,
                        forall|t: int|
                            0 <= t < captured@.len() ==> (#[trigger] captured@[t]).0 < mlen0,
                        forall|t: int| 0 <= t < regs@.len() ==> (#[trigger] regs@[t]).0 < mlen0,
                {
                    let cid = self.programs[mfunc.program].funcs[mfunc.func].capture_ids[j];
                    regs.set(cid.0 as usize, captured[j]);
                }
                ctx.jump(ip + 1);
                let ghost ctx2 = ctx;
                proof {
                    lemma_ctx_wf_update(
                        ctx0,
                        ctx,
                        self.programs@,
                        mlen0 as int,
                        mlen0 as int,
                        nkeys0 as int,
                    );
                }
                let ck = self.contexts.new_call_key();
                ctx.recursion_depth = ctx.recursion_depth + 1;
                ctx.pos_stack.push(
                    CallStackItem {
                        func: mfunc,
                        ip: 0,
                        return_dest: None,
                        call_key: ck,
                        call_area: Some(area.dup()),
                    },
                );
                ctx.registers.push(regs);
                ctx.stack.push(Vec::new());
                proof {
                    let progs = self.programs@;
                    let mlen = self.memory@.len() as int;
                    let nkeys = self.contexts.have_not_returned@.len() as int;
                    assert forall|i2: int|
                        0 <= i2 < self.contexts.contexts@.len() implies ctx_wf(
                        #[trigger] self.contexts.contexts@[i2],
                        progs,
                        mlen,
                        nkeys,
                    ) by {
                        lemma_ctx_wf_grow(
                            self.contexts.contexts@[i2],
                            progs,
                            mlen,
                            nkeys0 as int,
                            mlen,
                            nkeys,
                        );
                    }
                    lemma_ctx_wf_grow(ctx2, progs, mlen, nkeys0 as int, mlen, nkeys);
                    assert forall|f: int| 0 <= f < ctx.pos_stack@.len() implies frame_wf(
                        #[trigger] ctx.pos_stack@[f],
                        ctx.registers@[f]@,
                        ctx.stack@[f]@,
                        progs,
                        mlen,
                        nkeys,
                    ) by {
                        if f < ctx.pos_stack@.len() - 1 {
                            assert(ctx.pos_stack@[f] == ctx2.pos_stack@[f]);
                            assert(ctx.registers@[f] == ctx2.registers@[f]);
                            assert(ctx.stack@[f] == ctx2.stack@[f]);
                            assert(frame_wf(
                                ctx2.pos_stack@[f],
                                ctx2.registers@[f]@,
                                ctx2.stack@[f]@,
                                progs,
                                mlen,
                                nkeys,
                            ));
                        }
                    }
                    assert forall|f: int|
                        0 <= f < ctx.pos_stack@.len() implies ((
                    #[trigger] ctx.pos_stack@[f]).return_dest matches Some(v) ==> f >= 1 && v.0
                        < ctx.registers@[f - 1]@.len()) by {
                        if f < ctx.pos_stack@.len() - 1 {
                            assert(ctx.pos_stack@[f] == ctx2.pos_stack@[f]);
                            if ctx.pos_stack@[f].return_dest is Some {
                                assert(ctx.registers@[f - 1] == ctx2.registers@[f - 1]);
                            }
                        }
                    }
                    assert(ctx_wf(ctx, progs, mlen, nkeys));
                }
                let ghost cfin = ctx;
                self.finish(ctx);
                proof {
                    assert(call_step(*old(self), ctx0, *self, cfin));
                }
                Ok(())
            },
            _ => {
                proof {
                    assert(false);
                }
                Ok(())
            },
        }
    }

    /// Executes `Return`: pops the return value and the frame, resolves the
    /// call identity, and hands the value to the caller — onto its operand
    /// stack, or into its return-destination register when the frame names
    /// one. A context whose last frame returns records the machine's result
    /// (first writer wins) and leaves the scheduler.
    fn op_return(
        &mut self,
        ctx: Context,
        area: CodeArea,
        fc: FuncCoord,
        ip: usize,
        func_len: usize,
    ) -> (r: Result<(), RuntimeError>)
        requires
            vm_ctx_ok(*old(self), ctx),
            fetched(*old(self), ctx, Instruction::Return, fc, ip, func_len),
        ensures
            step_post(*old(self), *final(self)),
            r is Err ==> final(self).contexts == old(self).contexts && state_same(
                *old(self),
                *final(self),
            ),
            r is Ok ==> {
                let stk = ctx.stack@.last()@;
                let rv = stk.last();
                let ck = ctx.pos_stack@.last().call_key;
                &&& stk.len() > 0
                &&& final(self).memory == old(self).memory
                &&& final(self).objects == old(self).objects
                &&& final(self).spawned == old(self).spawned
                &&& final(self).output == old(self).output
                &&& final(self).impls == old(self).impls
                &&& final(self).trigger_fn_group == old(self).trigger_fn_group
                &&& final(self).next_group == old(self).next_group
                &&& final(self).contexts.have_not_returned@ == old(
                    self,
                ).contexts.have_not_returned@.update(ck.0 as int, false)
                &&& (ctx.pos_stack@.len() > 1 ==> final(self).result == old(self).result
                    && exists|c2: Context|
                    final(self).contexts.contexts@ == old(self).contexts.contexts@.push(c2)
                        && #[trigger] return_step(ctx, rv, c2))
                &&& (ctx.pos_stack@.len() == 1 ==> {
                    &&& final(self).contexts.contexts@ == old(self).contexts.contexts@
                    &&& (old(self).result is Some ==> final(self).result == old(self).result)
                    &&& (old(self).result is None ==> (final(self).result matches Some(sv)
                        && crate::value::stored_like(old(self).memory@[rv.0 as int], sv)))
                })
            },
    {
        let mut ctx = ctx;
        let ghost ctx0 = ctx;
        let ghost mlen0 = self.memory@.len();
        let ghost nkeys = self.contexts.have_not_returned@.len();
        let rv = match ctx.pop_val() {
            Some(k) => k,
            None => {
                return Err(
                    raise(
                        ErrorKind::ThrownError {
                            area,
                            message: "operand stack underflow".to_owned(),
                        },
                        &ctx,
                    ),
                );
            },
        };
        proof {
            assert(frame_wf(
                ctx0.pos_stack@.last(),
                ctx0.registers@.last()@,
                ctx0.stack@.last()@,
                self.programs@,
                mlen0 as int,
                nkeys as int,
            ));
        }
        let frame = ctx.pos_stack.pop().unwrap();
        let _regs = ctx.registers.pop().unwrap();
        let _stk = ctx.stack.pop().unwrap();
        self.contexts.mark_returned(frame.call_key);
        if ctx.recursion_depth > 0 {
            ctx.recursion_depth = ctx.recursion_depth - 1;
        }
        proof {
            let progs = self.programs@;
            let nk2 = self.contexts.have_not_returned@.len() as int;
            assert forall|f: int| 0 <= f < ctx.pos_stack@.len() implies frame_wf(
                #[trigger] ctx.pos_stack@[f],
                ctx.registers@[f]@,
                ctx.stack@[f]@,
                progs,
                mlen0 as int,
                nk2,
            ) by {
                assert(ctx.pos_stack@[f] == ctx0.pos_stack@[f]);
                assert(ctx.registers@[f] == ctx0.registers@[f]);
                assert(f < ctx0.stack@.len() - 1);
                assert(frame_wf(
                    ctx0.pos_stack@[f],
                    ctx0.registers@[f]@,
                    ctx0.stack@[f]@,
                    progs,
                    mlen0 as int,
                    nkeys as int,
                ));
            }
            assert forall|f: int|
                0 <= f < ctx.pos_stack@.len() implies ((
            #[trigger] ctx.pos_stack@[f]).return_dest matches Some(v) ==> f >= 1 && v.0
                < ctx.registers@[f - 1]@.len()) by {
                assert(ctx.pos_stack@[f] == ctx0.pos_stack@[f]);
            }
        }
        if ctx.pos_stack.len() == 0 {
            if self.result.is_none() {
                self.result = Some(self.memory.get(rv).dup());
            }
            proof {
                assert(rv == ctx0.stack@.last()@.last());
            }
            return Ok(());
        }
        match frame.return_dest {
            None => {
                ctx.push_val(rv);
            },
            Some(v) => {
                proof {
                    assert(ctx0.pos_stack@[ctx0.pos_stack@.len() - 1].return_dest == Some(v));
                }
                ctx.reg_write(v.0 as usize, rv);
            },
        }
        proof {
            let progs = self.programs@;
            let nk2 = self.contexts.have_not_returned@.len() as int;
            assert(ctx_wf(ctx, progs, mlen0 as int, nk2)) by {
                assert forall|f: int| 0 <= f < ctx.pos_stack@.len() implies frame_wf(
                    #[trigger] ctx.pos_stack@[f],
                    ctx.registers@[f]@,
                    ctx.stack@[f]@,
                    progs,
                    mlen0 as int,
                    nk2,
                ) by {
                    assert(ctx.pos_stack@[f] == ctx0.pos_stack@[f]);
                    assert(frame_wf(
                        ctx0.pos_stack@[f],
                        ctx0.registers@[f]@,
                        ctx0.stack@[f]@,
                        progs,
                        mlen0 as int,
                        nkeys as int,
                    ));
                    if f < ctx.pos_stack@.len() - 1 {
                        assert(ctx.registers@[f] == ctx0.registers@[f]);
                        assert(ctx.stack@[f] == ctx0.stack@[f]);
                    }
                }
                assert forall|f: int|
                    0 <= f < ctx.pos_stack@.len() implies ((
                #[trigger] ctx.pos_stack@[f]).return_dest matches Some(v2) ==> f >= 1 && v2.0
                    < ctx.registers@[f - 1]@.len()) by {
                    assert(ctx.pos_stack@[f] == ctx0.pos_stack@[f]);
                    if ctx.pos_stack@[f].return_dest is Some {
                        if f < ctx.pos_stack@.len() - 1 {
                            assert(ctx.registers@[f - 1] == ctx0.registers@[f - 1]);
                        } else {
                            assert(ctx.registers@[f - 1]@.len() == ctx0.registers@[f
                                - 1]@.len());
                        }
                    }
                }
            }
        }
        let ghost cfin = ctx;
        self.finish(ctx);
        proof {
            if ctx0.pos_stack@.last().return_dest is Some {
                assert(cfin.stack@ =~= ctx0.stack@.drop_last());
            }
            assert(return_step(ctx0, ctx0.stack@.last()@.last(), cfin));
        }
        Ok(())
    }
}

/// Whether a value may sit in a target-object field: only self-contained
/// scalars and target-runtime references pass.
pub open spec fn spec_obj_scalar(v: Value) -> bool {
    match v {
        Value::Int(..) => true,
        Value::Float(..) => true,
        Value::Bool(..) => true,
        Value::String(..) => true,
        Value::Group(..) => true,
        Value::Color(..) => true,
        Value::Block(..) => true,
        Value::Item(..) => true,
        Value::TriggerFunction(..) => true,
        _ => false,
    }
}

/// Whether a value may sit in a target-object field.
pub fn is_obj_scalar(v: &Value) -> (r: bool)
    ensures
        r == spec_obj_scalar(*v),
{
    match v {
        Value::Int(..) => true,
        Value::Float(..) => true,
        Value::Bool(..) => true,
        Value::String(..) => true,
        Value::Group(..) => true,
        Value::Color(..) => true,
        Value::Block(..) => true,
        Value::Item(..) => true,
        Value::TriggerFunction(..) => true,
        _ => false,
    }
}

impl Vm {
    /// Executes the context-affecting instructions: the two fork forms and
    /// `TriggerFuncCall`. `EnterArrowStatement(n)` forks; the fork runs the
    /// detached block while the original continues at `n`.
    /// `EnterTriggerFunction(n)` also assigns a fresh arbitrary group that
    /// the forked body runs under and that the following `PushTriggerFn`
    /// wraps into the trigger-function value. `TriggerFuncCall` fires a
    /// trigger function's group, recorded in dispatch order.
    fn op_fork(
        &mut self,
        ctx: Context,
        instr: Instruction,
        area: CodeArea,
        fc: FuncCoord,
        ip: usize,
        func_len: usize,
    ) -> (r: Result<(), RuntimeError>)
        requires
            vm_ctx_ok(*old(self), ctx),
            fetched(*old(self), ctx, instr, fc, ip, func_len),
            instr matches Instruction::EnterArrowStatement(..) || instr
                matches Instruction::EnterTriggerFunction(..) || instr
                matches Instruction::TriggerFuncCall,
        ensures
            step_post(*old(self), *final(self)),
            r is Err ==> final(self).contexts == old(self).contexts && state_same(
                *old(self),
                *final(self),
            ),
            r is Ok ==> {
                let stk = ctx.stack@.last()@;
                let ip = ctx.pos_stack@.last().ip as int;
                &&& final(self).objects == old(self).objects
                &&& final(self).output == old(self).output
                &&& final(self).impls == old(self).impls
                &&& final(self).result == old(self).result
                &&& final(self).contexts.have_not_returned == old(self).contexts.have_not_returned
                &&& old(self).memory@.is_prefix_of(final(self).memory@)
                &&& (instr matches Instruction::TriggerFuncCall ==> {
                    &&& stk.len() > 0
                    &&& (old(self).memory@[stk.last().0 as int].value matches Value::TriggerFunction(
                        g,
                    ) && final(self).spawned@ == old(self).spawned@.push(g))
                    &&& final(self).memory == old(self).memory
                    &&& final(self).trigger_fn_group == old(self).trigger_fn_group
                    &&& final(self).next_group == old(self).next_group
                    &&& exists|c2: Context|
                        final(self).contexts.contexts@ == old(self).contexts.contexts@.push(c2)
                            && #[trigger] moved_to(ctx, c2, ip + 1) && c2.registers == ctx.registers
                            && c2.stack@.last()@ == stk.drop_last()
                })
                &&& (instr matches Instruction::EnterArrowStatement(n) ==> {
                    &&& final(self).spawned == old(self).spawned
                    &&& final(self).trigger_fn_group == old(self).trigger_fn_group
                    &&& final(self).next_group == old(self).next_group
                    &&& exists|cl: Context, orig: Context|
                        final(self).contexts.contexts@ == old(self).contexts.contexts@.push(
                            cl,
                        ).push(orig) && #[trigger] fork_pair(
                            *old(self),
                            ctx,
                            n.0 as int,
                            *final(self),
                            false,
                            cl,
                            orig,
                        )
                })
                &&& (instr matches Instruction::EnterTriggerFunction(n) ==> {
                    &&& final(self).spawned == old(self).spawned
                    &&& final(self).trigger_fn_group == Id::ArbitraryId(old(self).next_group)
                    &&& exists|cl: Context, orig: Context|
                        final(self).contexts.contexts@ == old(self).contexts.contexts@.push(
                            cl,
                        ).push(orig) && #[trigger] fork_pair(
                            *old(self),
                            ctx,
                            n.0 as int,
                            *final(self),
                            true,
                            cl,
                            orig,
                        )
                })
            },
    {
        let mut ctx = ctx;
        let ghost ctx0 = ctx;
        let ghost mlen0 = self.memory@.len();
        let ghost nkeys = self.contexts.have_not_returned@.len();
        proof {
            assert(instr_wf(
                instr,
                self.programs@[fc.program as int],
                func_len as int,
                self.programs@.len() as int,
                self.builtins@.len() as int,
            ));
        }
        match instr {
            Instruction::TriggerFuncCall => {
                let k = match ctx.pop_val() {
                    Some(k) => k,
                    None => {
                        return Err(
                            raise(
                                ErrorKind::ThrownError {
                                    area,
                                    message: "operand stack underflow".to_owned(),
                                },
                                &ctx,
                            ),
                        );
                    },
                };
                proof {
                    assert(frame_wf(
                        ctx0.pos_stack@.last(),
                        ctx0.registers@.last()@,
                        ctx0.stack@.last()@,
                        self.programs@,
                        mlen0 as int,
                        nkeys as int,
                    ));
                }
                let g = match &self.memory.get(k).value {
                    Value::TriggerFunction(g) => *g,
                    _ => {
                        let sv = self.memory.get(k);
                        return Err(
                            raise(
                                ErrorKind::TypeMismatch {
                                    v: (sv.value.get_type(), sv.area.dup()),
                                    area,
                                    expected: crate::value::ValueType::TriggerFunction,
                                },
                                &ctx,
                            ),
                        );
                    },
                };
                self.spawned.push(g);
                ctx.jump(ip + 1);
                proof {
                    lemma_ctx_wf_update(
                        ctx0,
                        ctx,
                        self.programs@,
                        mlen0 as int,
                        mlen0 as int,
                        nkeys as int,
                    );
                }
                let ghost cfin = ctx;
                self.finish(ctx);
                proof {
                    assert(moved_to(ctx0, cfin, ip + 1));
                }
            },
            Instruction::EnterArrowStatement(n) => {
                let mut clone = self.fork_context(&ctx);
                clone.jump(ip + 1);
                ctx.jump(n.0 as usize);
                let ghost cl0 = clone;
                proof {
                    lemma_ctx_wf_update(
                        cl0,
                        clone,
                        self.programs@,
                        self.memory@.len() as int,
                        self.memory@.len() as int,
                        nkeys as int,
                    );
                    self.memory.lemma_len_bound();
                    lemma_ctx_wf_update(
                        ctx0,
                        ctx,
                        self.programs@,
                        mlen0 as int,
                        self.memory@.len() as int,
                        nkeys as int,
                    );
                }
                let ghost clfin = clone;
                let ghost cfin = ctx;
                self.contexts.push_context(clone);
                self.finish(ctx);
                proof {
                    assert(fork_pair(
                        *old(self),
                        ctx0,
                        n.0 as int,
                        *self,
                        false,
                        clfin,
                        cfin,
                    ));
                }
            },
            Instruction::EnterTriggerFunction(n) => {
                let g = Id::ArbitraryId(self.next_group);
                self.next_group = self.next_group.wrapping_add(1);
                self.trigger_fn_group = g;
                let mut clone = self.fork_context(&ctx);
                clone.jump(ip + 1);
                clone.set_group_and_push(g);
                ctx.jump(n.0 as usize);
                let ghost cl0 = clone;
                proof {
                    assert(ctx_wf(
                        clone,
                        self.programs@,
                        self.memory@.len() as int,
                        self.contexts.have_not_returned@.len() as int,
                    )) by {
                        lemma_ctx_wf_update(
                            cl0,
                            clone,
                            self.programs@,
                            self.memory@.len() as int,
                            self.memory@.len() as int,
                            nkeys as int,
                        );
                    }
                    self.memory.lemma_len_bound();
                    lemma_ctx_wf_update(
                        ctx0,
                        ctx,
                        self.programs@,
                        mlen0 as int,
                        self.memory@.len() as int,
                        nkeys as int,
                    );
                }
                let ghost clfin = clone;
                let ghost cfin = ctx;
                self.contexts.push_context(clone);
                self.finish(ctx);
                proof {
                    assert(clfin.group_stack@.drop_last() =~= ctx0.group_stack@);
                    assert(fork_pair(
                        *old(self),
                        ctx0,
                        n.0 as int,
                        *self,
                        true,
                        clfin,
                        cfin,
                    ));
                }
            },
            _ => {
                proof {
                    assert(false);
                }
            },
        }
        Ok(())
    }

    /// Executes the side-effecting and remaining instructions: object
    /// assembly and emission, member-table installation, instance
    /// construction, printing, and imports.
    fn op_effects<F: FloatMath>(
        &mut self,
        ctx: Context,
        instr: Instruction,
        area: CodeArea,
        fc: FuncCoord,
        ip: usize,
        func_len: usize,
        fm: &F,
    ) -> (r: Result<(), RuntimeError>)
        requires
            vm_ctx_ok(*old(self), ctx),
            fetched(*old(self), ctx, instr, fc, ip, func_len),
            instr matches Instruction::BuildObject(..) || instr matches Instruction::BuildTrigger(
                ..,
            ) || instr matches Instruction::AddObject || instr matches Instruction::Impl || instr
                matches Instruction::BuildInstance || instr matches Instruction::Print || instr
                matches Instruction::Import(..),
        ensures
            step_post(*old(self), *final(self)),
            r is Err ==> final(self).contexts == old(self).contexts && state_same(
                *old(self),
                *final(self),
            ),
            r is Ok ==> {
                &&& final(self).spawned == old(self).spawned
                &&& final(self).result == old(self).result
                &&& final(self).trigger_fn_group == old(self).trigger_fn_group
                &&& final(self).next_group == old(self).next_group
                &&& old(self).memory@.is_prefix_of(final(self).memory@)
                &&& !(instr is BuildInstance)
                &&& (instr is AddObject ==> {
                    &&& final(self).objects@.len() == old(self).objects@.len() + 1
                    &&& old(self).objects@.is_prefix_of(final(self).objects@)
                    &&& final(self).memory == old(self).memory
                })
                &&& (!(instr is AddObject) ==> final(self).objects == old(self).objects)
                &&& (instr is Print ==> {
                    &&& final(self).output@.len() == old(self).output@.len() + 1
                    &&& old(self).output@.is_prefix_of(final(self).output@)
                    &&& final(self).memory == old(self).memory
                })
                &&& (!(instr is Print) ==> final(self).output == old(self).output)
                &&& (instr is Impl ==> {
                    &&& final(self).impls@.len() == old(self).impls@.len() + 1
                    &&& old(self).impls@.is_prefix_of(final(self).impls@)
                    &&& final(self).memory == old(self).memory
                })
                &&& (!(instr is Impl) ==> final(self).impls == old(self).impls)
                &&& (instr matches Instruction::Import(..) ==> {
                    &&& final(self).contexts.have_not_returned@ == old(
                        self,
                    ).contexts.have_not_returned@.push(true)
                    &&& final(self).memory == old(self).memory
                })
                &&& (!(instr matches Instruction::Import(..))
                    ==> final(self).contexts.have_not_returned == old(
                    self,
                ).contexts.have_not_returned)
                &&& exists|c2: Context|
                    final(self).contexts.contexts@ == old(self).contexts.contexts@.push(c2)
                        && #[trigger] effect_ctx(ctx, instr, c2)
            },
    {
        let mut ctx = ctx;
        let ghost ctx0 = ctx;
        let ghost mlen0 = self.memory@.len();
        let ghost nkeys0 = self.contexts.have_not_returned@.len();
        proof {
            assert(instr_wf(
                instr,
                self.programs@[fc.program as int],
                func_len as int,
                self.programs@.len() as int,
                self.builtins@.len() as int,
            ));
        }
        match instr {
            Instruction::BuildObject(n) | Instruction::BuildTrigger(n) => {
                let typ = match instr {
                    Instruction::BuildObject(..) => ObjectType::Object,
                    _ => ObjectType::Trigger,
                };
                let cnt = n.0 as usize;
                let elems = match self.pop_many(&mut ctx, 2 * cnt, &area) {
                    Ok(e) => e,
                    Err(e) => {
                        return Err(e);
                    },
                };
                let mut params: Vec<(ObjKeyType, ValueKey)> = Vec::new();
                for j in 0..cnt
                    invariant
                        cnt <= 0xFFFF,
                        elems@.len() == 2 * cnt,
                        forall|t: int| 0 <= t < elems@.len() ==> (#[trigger] elems@[t]).0 < mlen0,
                        self.memory@.len() == mlen0,
                        self.wf(),
                        forall|t: int|
                            0 <= t < params@.len() ==> (#[trigger] params@[t]).1.0 < mlen0,
                {
                    let key_k = elems[2 * (cnt - 1 - j) + 1];
                    let val_k = elems[2 * (cnt - 1 - j)];
                    let okey: ObjKeyType = match &self.memory.get(key_k).value {
                        Value::Int(kn) => {
                            if 0 <= *kn && *kn <= 255 {
                                ObjKeyType::Num(*kn as u8)
                            } else {
                                let line = crate::display::runtime_display(
                                    &self.memory,
                                    key_k,
                                    fm,
                                );
                                let ksv = self.memory.get(key_k);
                                return Err(
                                    raise(
                                        ErrorKind::InvalidObjectValue {
                                            v: (line, ksv.area.dup()),
                                            area,
                                        },
                                        &ctx,
                                    ),
                                );
                            }
                        },
                        _ => {
                            let line = crate::display::runtime_display(&self.memory, key_k, fm);
                            let ksv = self.memory.get(key_k);
                            return Err(
                                raise(
                                    ErrorKind::InvalidObjectValue {
                                        v: (line, ksv.area.dup()),
                                        area,
                                    },
                                    &ctx,
                                ),
                            );
                        },
                    };
                    if !is_obj_scalar(&self.memory.get(val_k).value) {
                        let line = crate::display::runtime_display(&self.memory, val_k, fm);
                        let vsv = self.memory.get(val_k);
                        return Err(
                            raise(
                                ErrorKind::InvalidObjectValue { v: (line, vsv.area.dup()), area },
                                &ctx,
                            ),
                        );
                    }
                    params.push((okey, val_k));
                }
                self.push_new(&mut ctx, Value::Object(typ, params), area, ip + 1);
                let ghost cfin = ctx;
                self.finish(ctx);
                proof {
                    assert(effect_ctx(ctx0, instr, cfin));
                }
            },
            Instruction::AddObject => {
                let k = match ctx.pop_val() {
                    Some(k) => k,
                    None => {
                        return Err(
                            raise(
                                ErrorKind::ThrownError {
                                    area,
                                    message: "operand stack underflow".to_owned(),
                                },
                                &ctx,
                            ),
                        );
                    },
                };
                proof {
                    assert(frame_wf(
                        ctx0.pos_stack@.last(),
                        ctx0.registers@.last()@,
                        ctx0.stack@.last()@,
                        self.programs@,
                        mlen0 as int,
                        nkeys0 as int,
                    ));
                    assert(keys_bounded(self.memory@[k.0 as int].value, k.0 as int));
                }
                if self.restrict_object_add && ctx.group_stack.len() > 1 {
                    return Err(raise(ErrorKind::AddObjectInTriggerContext { area }, &ctx));
                }
                let (typ, ps) = match &self.memory.get(k).value {
                    Value::Object(t, ps) => (*t, crate::value::dup_obj_params(ps)),
                    _ => {
                        let sv = self.memory.get(k);
                        return Err(
                            raise(
                                ErrorKind::TypeMismatch {
                                    v: (sv.value.get_type(), sv.area.dup()),
                                    area,
                                    expected: crate::value::ValueType::Object,
                                },
                                &ctx,
                            ),
                        );
                    },
                };
                let mut params: Vec<(ObjKeyType, Value)> = Vec::new();
                let np = ps.len();
                for j in 0..np
                    invariant
                        np == ps@.len(),
                        forall|t: int| 0 <= t < ps@.len() ==> (#[trigger] ps@[t]).1.0 < mlen0,
                        self.memory@.len() == mlen0,
                        self.wf(),
                {
                    let vk = ps[j].1;
                    if !is_obj_scalar(&self.memory.get(vk).value) {
                        let line = crate::display::runtime_display(&self.memory, vk, fm);
                        let vsv = self.memory.get(vk);
                        return Err(
                            raise(
                                ErrorKind::InvalidObjectValue { v: (line, vsv.area.dup()), area },
                                &ctx,
                            ),
                        );
                    }
                    params.push((ps[j].0, self.memory.get(vk).value.dup()));
                }
                self.objects.push(TriggerObject { typ, params });
                ctx.jump(ip + 1);
                proof {
                    lemma_ctx_wf_update(
                        ctx0,
                        ctx,
                        self.programs@,
                        mlen0 as int,
                        mlen0 as int,
                        nkeys0 as int,
                    );
                }
                let ghost cfin = ctx;
                self.finish(ctx);
                proof {
                    assert(effect_ctx(ctx0, instr, cfin));
                }
            },
            Instruction::Impl => {
                let members_k = match ctx.pop_val() {
                    Some(k) => k,
                    None => {
                        return Err(
                            raise(
                                ErrorKind::ThrownError {
                                    area,
                                    message: "operand stack underflow".to_owned(),
                                },
                                &ctx,
                            ),
                        );
                    },
                };
                let type_k = match ctx.pop_val() {
                    Some(k) => k,
                    None => {
                        return Err(
                            raise(
                                ErrorKind::ThrownError {
                                    area,
                                    message: "operand stack underflow".to_owned(),
                                },
                                &ctx,
                            ),
                        );
                    },
                };
                proof {
                    assert(frame_wf(
                        ctx0.pos_stack@.last(),
                        ctx0.registers@.last()@,
                        ctx0.stack@.last()@,
                        self.programs@,
                        mlen0 as int,
                        nkeys0 as int,
                    ));
                    assert(keys_bounded(self.memory@[members_k.0 as int].value, members_k.0 as int));
                }
                let t = match &self.memory.get(type_k).value {
                    Value::TypeIndicator(t) => *t,
                    _ => {
                        let sv = self.memory.get(type_k);
                        return Err(
                            raise(
                                ErrorKind::TypeMismatch {
                                    v: (sv.value.get_type(), sv.area.dup()),
                                    area,
                                    expected: crate::value::ValueType::TypeIndicator,
                                },
                                &ctx,
                            ),
                        );
                    },
                };
                let members = match &self.memory.get(members_k).value {
                    Value::Dict(es) => crate::value::dup_entries(es),
                    _ => {
                        let sv = self.memory.get(members_k);
                        return Err(
                            raise(
                                ErrorKind::TypeMismatch {
                                    v: (sv.value.get_type(), sv.area.dup()),
                                    area,
                                    expected: crate::value::ValueType::Dict,
                                },
                                &ctx,
                            ),
                        );
                    },
                };
                self.impls.push(ImplEntry { typ: t, members });
                ctx.jump(ip + 1);
                proof {
                    lemma_ctx_wf_update(
                        ctx0,
                        ctx,
                        self.programs@,
                        mlen0 as int,
                        mlen0 as int,
                        nkeys0 as int,
                    );
                }
                let ghost cfin = ctx;
                self.finish(ctx);
                proof {
                    assert(effect_ctx(ctx0, instr, cfin));
                }
            },
            Instruction::BuildInstance => {
                let _fields_k = match ctx.pop_val() {
                    Some(k) => k,
                    None => {
                        return Err(
                            raise(
                                ErrorKind::ThrownError {
                                    area,
                                    message: "operand stack underflow".to_owned(),
                                },
                                &ctx,
                            ),
                        );
                    },
                };
                let type_k = match ctx.pop_val() {
                    Some(k) => k,
                    None => {
                        return Err(
                            raise(
                                ErrorKind::ThrownError {
                                    area,
                                    message: "operand stack underflow".to_owned(),
                                },
                                &ctx,
                            ),
                        );
                    },
                };
                match &self.memory.get(type_k).value {
                    Value::TypeIndicator(t) => {
                        // every type the core can denote is builtin: custom
                        // type tables belong to the external compiler
                        return Err(
                            raise(
                                ErrorKind::CannotInstanceBuiltinType { area, typ: *t },
                                &ctx,
                            ),
                        );
                    },
                    _ => {
                        let sv = self.memory.get(type_k);
                        return Err(
                            raise(
                                ErrorKind::TypeMismatch {
                                    v: (sv.value.get_type(), sv.area.dup()),
                                    area,
                                    expected: crate::value::ValueType::TypeIndicator,
                                },
                                &ctx,
                            ),
                        );
                    },
                };
            },
            Instruction::Print => {
                let k = match ctx.pop_val() {
                    Some(k) => k,
                    None => {
                        return Err(
                            raise(
                                ErrorKind::ThrownError {
                                    area,
                                    message: "operand stack underflow".to_owned(),
                                },
                                &ctx,
                            ),
                        );
                    },
                };
                proof {
                    assert(frame_wf(
                        ctx0.pos_stack@.last(),
                        ctx0.registers@.last()@,
                        ctx0.stack@.last()@,
                        self.programs@,
                        mlen0 as int,
                        nkeys0 as int,
                    ));
                }
                let line = crate::display::runtime_display(&self.memory, k, fm);
                self.output.push(line);
                ctx.jump(ip + 1);
                proof {
                    lemma_ctx_wf_update(
                        ctx0,
                        ctx,
                        self.programs@,
                        mlen0 as int,
                        mlen0 as int,
                        nkeys0 as int,
                    );
                }
                let ghost cfin = ctx;
                self.finish(ctx);
                proof {
                    assert(effect_ctx(ctx0, instr, cfin));
                }
            },
            Instruction::Import(iid) => {
                let target = self.programs[fc.program].import_register[iid.0 as usize];
                if ctx.recursion_depth >= self.recursion_limit {
                    return Err(
                        raise(
                            ErrorKind::ThrownError {
                                area,
                                message: "recursion limit exceeded".to_owned(),
                            },
                            &ctx,
                        ),
                    );
                }
                proof {
                    assert(code_wf(
                        self.programs@[target as int],
                        self.programs@.len() as int,
                        self.builtins@.len() as int,
                    ));
                }
                let var_count = self.programs[target].var_count;
                let regs = make_regs(var_count, ValueKey(0));
                ctx.jump(ip + 1);
                let ghost ctx2 = ctx;
                proof {
                    lemma_ctx_wf_update(
                        ctx0,
                        ctx,
                        self.programs@,
                        mlen0 as int,
                        mlen0 as int,
                        nkeys0 as int,
                    );
                }
                let ck = self.contexts.new_call_key();
                ctx.recursion_depth = ctx.recursion_depth + 1;
                ctx.pos_stack.push(
                    CallStackItem {
                        func: FuncCoord { program: target, func: 0 },
                        ip: 0,
                        return_dest: None,
                        call_key: ck,
                        call_area: Some(area.dup()),
                    },
                );
                ctx.registers.push(regs);
                ctx.stack.push(Vec::new());
                proof {
                    let progs = self.programs@;
                    let mlen = self.memory@.len() as int;
                    let nkeys = self.contexts.have_not_returned@.len() as int;
                    assert forall|i2: int|
                        0 <= i2 < self.contexts.contexts@.len() implies ctx_wf(
                        #[trigger] self.contexts.contexts@[i2],
                        progs,
                        mlen,
                        nkeys,
                    ) by {
                        lemma_ctx_wf_grow(
                            self.contexts.contexts@[i2],
                            progs,
                            mlen,
                            nkeys0 as int,
                            mlen,
                            nkeys,
                        );
                    }
                    lemma_ctx_wf_grow(ctx2, progs, mlen, nkeys0 as int, mlen, nkeys);
                    assert forall|f: int| 0 <= f < ctx.pos_stack@.len() implies frame_wf(
                        #[trigger] ctx.pos_stack@[f],
                        ctx.registers@[f]@,
                        ctx.stack@[f]@,
                        progs,
                        mlen,
                        nkeys,
                    ) by {
                        if f < ctx.pos_stack@.len() - 1 {
                            assert(ctx.pos_stack@[f] == ctx2.pos_stack@[f]);
                            assert(ctx.registers@[f] == ctx2.registers@[f]);
                            assert(ctx.stack@[f] == ctx2.stack@[f]);
                            assert(frame_wf(
                                ctx2.pos_stack@[f],
                                ctx2.registers@[f]@,
                                ctx2.stack@[f]@,
                                progs,
                                mlen,
                                nkeys,
                            ));
                        }
                    }
                    assert forall|f: int|
                        0 <= f < ctx.pos_stack@.len() implies ((
                    #[trigger] ctx.pos_stack@[f]).return_dest matches Some(v) ==> f >= 1 && v.0
                        < ctx.registers@[f - 1]@.len()) by {
                        if f < ctx.pos_stack@.len() - 1 {
                            assert(ctx.pos_stack@[f] == ctx2.pos_stack@[f]);
                            if ctx.pos_stack@[f].return_dest is Some {
                                assert(ctx.registers@[f - 1] == ctx2.registers@[f - 1]);
                            }
                        }
                    }
                    assert(ctx_wf(ctx, progs, mlen, nkeys));
                }
                let ghost cfin = ctx;
                self.finish(ctx);
                proof {
                    assert(effect_ctx(ctx0, instr, cfin));
                }
            },
            _ => {
                proof {
                    assert(false);
                }
            },
        }
        Ok(())
    }
}

impl Vm {
    /// One step of the dispatch loop: selects the context to run, fetches
    /// the instruction at its `(function, ip)`, executes it against the
    /// arena, and advances. A context whose top frame has run past its
    /// function's last instruction is unwound one frame; one whose call
    /// stack empties leaves the scheduler; one that exceeds the step ceiling
    /// fails. The unwinding is itself a scheduled step: a frame that ends
    /// without `Return` waits one turn with its pointer at the function's
    /// length — which the scheduler's tie-break reads — before it is popped,
    /// as [`step_rel`] states. An error aborts the raising context's
    /// remaining instructions and is returned to the host, carrying the
    /// active call stack.
    pub fn step<F: FloatMath>(&mut self, fm: &F) -> (r: Result<(), RuntimeError>)
        requires
            old(self).wf(),
            old(self).contexts.spec_valid(),
        ensures
            step_post(*old(self), *final(self)),
            r is Err ==> final(self).contexts.contexts@ == sched_rest(*old(self)),
            r is Ok ==> step_rel(*old(self), *final(self)),
    {
        let ghost bi = self.contexts.spec_best_idx();
        let mut ctx = self.contexts.take_current();
        let ghost nkeys0 = self.contexts.have_not_returned@.len();
        let ghost mlen0 = self.memory@.len();
        proof {
            crate::scheduler::lemma_best_is_max(
                old(self).contexts.contexts@,
                old(self).contexts.contexts@.len() as int,
            );
            assert(ctx_wf(
                old(self).contexts.contexts@[bi],
                self.programs@,
                mlen0 as int,
                nkeys0 as int,
            ));
            old(self).contexts.contexts@.remove_ensures(bi);
            assert forall|i: int| 0 <= i < self.contexts.contexts@.len() implies ctx_wf(
                #[trigger] self.contexts.contexts@[i],
                self.programs@,
                mlen0 as int,
                nkeys0 as int,
            ) by {
                if i < bi {
                    assert(self.contexts.contexts@[i] == old(self).contexts.contexts@[i]);
                    assert(ctx_wf(
                        old(self).contexts.contexts@[i],
                        self.programs@,
                        mlen0 as int,
                        nkeys0 as int,
                    ));
                } else {
                    assert(self.contexts.contexts@[i] == old(self).contexts.contexts@[i + 1]);
                    assert(ctx_wf(
                        old(self).contexts.contexts@[i + 1],
                        self.programs@,
                        mlen0 as int,
                        nkeys0 as int,
                    ));
                }
            }
        }
        if ctx.memory >= self.step_limit {
            return Err(
                raise(
                    ErrorKind::ThrownError {
                        area: CodeArea::internal(),
                        message: "step ceiling exceeded".to_owned(),
                    },
                    &ctx,
                ),
            );
        }
        ctx.memory = ctx.memory + 1;
        proof {
            assert(ctx == charged(old(self).contexts.contexts@[bi]));
        }
        if !ctx.runnable() {
            return Ok(());
        }
        let ghost ctx0 = ctx;
        proof {
            assert(frame_wf(
                ctx.pos_stack@.last(),
                ctx.registers@.last()@,
                ctx.stack@.last()@,
                self.programs@,
                mlen0 as int,
                nkeys0 as int,
            ));
        }
        let nf = ctx.pos_stack.len();
        let fcs = ctx.pos_stack[nf - 1].func;
        let func_len = self.programs[fcs.program].funcs[fcs.func].instructions.len();
        let ip = ctx.ip();
        if ip >= func_len {
            // the frame ran past its last instruction: it is finished
            let _f = ctx.pos_stack.pop().unwrap();
            let _r = ctx.registers.pop().unwrap();
            let _s = ctx.stack.pop().unwrap();
            if ctx.recursion_depth > 0 {
                ctx.recursion_depth = ctx.recursion_depth - 1;
            }
            proof {
                assert forall|f: int| 0 <= f < ctx.pos_stack@.len() implies frame_wf(
                    #[trigger] ctx.pos_stack@[f],
                    ctx.registers@[f]@,
                    ctx.stack@[f]@,
                    self.programs@,
                    mlen0 as int,
                    nkeys0 as int,
                ) by {
                    assert(ctx.pos_stack@[f] == ctx0.pos_stack@[f]);
                    assert(ctx.registers@[f] == ctx0.registers@[f]);
                    assert(ctx.stack@[f] == ctx0.stack@[f]);
                    assert(frame_wf(
                        ctx0.pos_stack@[f],
                        ctx0.registers@[f]@,
                        ctx0.stack@[f]@,
                        self.programs@,
                        mlen0 as int,
                        nkeys0 as int,
                    ));
                }
                assert forall|f: int|
                    0 <= f < ctx.pos_stack@.len() implies ((
                #[trigger] ctx.pos_stack@[f]).return_dest matches Some(v) ==> f >= 1 && v.0
                    < ctx.registers@[f - 1]@.len()) by {
                    assert(ctx.pos_stack@[f] == ctx0.pos_stack@[f]);
                }
            }
            proof {
                assert(ctx.pos_stack@ =~= ctx0.pos_stack@.drop_last());
                assert(ctx.registers@ =~= ctx0.registers@.drop_last());
                assert(ctx.stack@ =~= ctx0.stack@.drop_last());
            }
            if ctx.pos_stack.len() == 0 {
                return Ok(());
            }
            let ghost cfin = ctx;
            self.finish(ctx);
            proof {
                assert(frame_popped(ctx0, cfin));
            }
            return Ok(());
        }
        let instr = self.programs[fcs.program].funcs[fcs.func].instructions[ip].0;
        let span = self.programs[fcs.program].funcs[fcs.func].instructions[ip].1;
        let area = self.programs[fcs.program].source.area(span);
        let ghost mid = *self;
        let r = match instr {
            Instruction::LoadConst(..) | Instruction::LoadVar(..) | Instruction::SetVar(..)
                | Instruction::CreateVar(..) | Instruction::PopTop | Instruction::PushEmpty
                | Instruction::WrapMaybe | Instruction::PushNone | Instruction::PushAnyPattern
                | Instruction::PushBuiltins | Instruction::TypeOf | Instruction::PushTriggerFn
                | Instruction::Jump(..) => self.op_simple(ctx, instr, area, fcs, ip, func_len),
            Instruction::JumpIfFalse(..) | Instruction::UnwrapOrJump(..) => self.op_jumps(
                ctx,
                instr,
                area,
                fcs,
                ip,
                func_len,
            ),
            Instruction::CallOp(op) => self.op_callop(ctx, op, area, fcs, ip, func_len, fm),
            Instruction::BuildArray(..) | Instruction::BuildDict(..) | Instruction::BuildMacro(
                ..,
            ) => self.op_build(ctx, instr, area, fcs, ip, func_len),
            Instruction::Index | Instruction::Member(..) | Instruction::Associated(..) => self
                .op_access(ctx, instr, area, fcs, ip, func_len),
            Instruction::Call(..) | Instruction::CallBuiltin(..) => self.op_call(
                ctx,
                instr,
                area,
                fcs,
                ip,
                func_len,
                fm,
            ),
            Instruction::Return => self.op_return(ctx, area, fcs, ip, func_len),
            Instruction::ToIter | Instruction::IterNext(..) => self.op_iter(
                ctx,
                instr,
                area,
                fcs,
                ip,
                func_len,
            ),
            Instruction::EnterArrowStatement(..) | Instruction::EnterTriggerFunction(..)
                | Instruction::TriggerFuncCall => self.op_fork(ctx, instr, area, fcs, ip, func_len),
            Instruction::YeetContext => {
                // the speculative-path abort: the context is discarded
                Ok(())
            },
            Instruction::BuildObject(..) | Instruction::BuildTrigger(..)
                | Instruction::AddObject | Instruction::Impl | Instruction::BuildInstance
                | Instruction::Print | Instruction::Import(..) => self.op_effects(
                ctx,
                instr,
                area,
                fcs,
                ip,
                func_len,
                fm,
            ),
        };
        proof {
            let prev = *old(self);
            let rest = sched_rest(prev);
            let post = *self;
            if r is Ok {
                match instr {
                    Instruction::LoadConst(..) | Instruction::LoadVar(..)
                        | Instruction::SetVar(..) | Instruction::CreateVar(..)
                        | Instruction::PopTop | Instruction::PushEmpty | Instruction::WrapMaybe
                        | Instruction::PushNone | Instruction::PushAnyPattern
                        | Instruction::PushBuiltins | Instruction::TypeOf
                        | Instruction::PushTriggerFn | Instruction::Jump(..) => {
                        let c2 = choose|c2: Context|
                            post.contexts.contexts@ == mid.contexts.contexts@.push(c2)
                                && #[trigger] simple_step(mid, ctx0, instr, post, c2);
                        assert(simple_step(prev, ctx0, instr, post, c2));
                    },
                    Instruction::JumpIfFalse(..) | Instruction::UnwrapOrJump(..) => {
                        let c2 = choose|c2: Context|
                            post.contexts.contexts@ == mid.contexts.contexts@.push(c2)
                                && #[trigger] jump_step(mid, ctx0, instr, post, c2);
                        assert(jump_step(prev, ctx0, instr, post, c2));
                    },
                    Instruction::CallOp(op) => {
                        let c2 = choose|c2: Context|
                            post.contexts.contexts@ == mid.contexts.contexts@.push(c2)
                                && #[trigger] callop_step(mid, ctx0, op, post, c2);
                        assert(callop_step(prev, ctx0, op, post, c2));
                    },
                    Instruction::BuildArray(..) | Instruction::BuildDict(..)
                        | Instruction::BuildMacro(..) | Instruction::Index
                        | Instruction::Member(..) | Instruction::Associated(..) => {
                        let c2 = choose|c2: Context|
                            post.contexts.contexts@ == mid.contexts.contexts@.push(c2)
                                && #[trigger] produce_step(mid, ctx0, post, c2);
                        assert(produce_step(prev, ctx0, post, c2));
                    },
                    Instruction::ToIter | Instruction::IterNext(..) => {
                        let c2 = choose|c2: Context|
                            post.contexts.contexts@ == mid.contexts.contexts@.push(c2)
                                && #[trigger] iter_step(mid, ctx0, instr, post, c2);
                        assert(iter_step(prev, ctx0, instr, post, c2));
                    },
                    Instruction::Call(..) | Instruction::CallBuiltin(..) => {
                        let c2 = choose|c2: Context|
                            post.contexts.contexts@ == mid.contexts.contexts@.push(c2)
                                && #[trigger] call_step(mid, ctx0, post, c2);
                        assert(call_step(prev, ctx0, post, c2));
                    },
                    Instruction::Return => {
                        if ctx0.pos_stack@.len() > 1 {
                            let c2 = choose|c2: Context|
                                post.contexts.contexts@ == mid.contexts.contexts@.push(c2)
                                    && #[trigger] return_step(
                                    ctx0,
                                    ctx0.stack@.last()@.last(),
                                    c2,
                                );
                            assert(post.contexts.contexts@ == rest.push(c2));
                        }
                    },
                    Instruction::TriggerFuncCall => {
                        let c2 = choose|c2: Context|
                            post.contexts.contexts@ == mid.contexts.contexts@.push(c2)
                                && #[trigger] moved_to(ctx0, c2, ctx0.pos_stack@.last().ip + 1)
                                && c2.registers == ctx0.registers && c2.stack@.last()@
                                == ctx0.stack@.last()@.drop_last();
                        assert(post.contexts.contexts@ == rest.push(c2));
                    },
                    Instruction::EnterArrowStatement(n) => {
                        let (cl, orig) = choose|cl: Context, orig: Context|
                            post.contexts.contexts@ == mid.contexts.contexts@.push(cl).push(orig)
                                && #[trigger] fork_pair(mid, ctx0, n.0 as int, post, false, cl, orig);
                        assert(fork_pair(prev, ctx0, n.0 as int, post, false, cl, orig));
                    },
                    Instruction::EnterTriggerFunction(n) => {
                        let (cl, orig) = choose|cl: Context, orig: Context|
                            post.contexts.contexts@ == mid.contexts.contexts@.push(cl).push(orig)
                                && #[trigger] fork_pair(mid, ctx0, n.0 as int, post, true, cl, orig);
                        assert(fork_pair(prev, ctx0, n.0 as int, post, true, cl, orig));
                    },
                    Instruction::YeetContext => {
                        assert(post.contexts.contexts@ == rest);
                    },
                    Instruction::BuildObject(..) | Instruction::BuildTrigger(..)
                        | Instruction::AddObject | Instruction::Impl
                        | Instruction::BuildInstance | Instruction::Print
                        | Instruction::Import(..) => {
                        let c2 = choose|c2: Context|
                            post.contexts.contexts@ == mid.contexts.contexts@.push(c2)
                                && #[trigger] effect_ctx(ctx0, instr, c2);
                        assert(post.contexts.contexts@ == rest.push(c2));
                    },
                }
                assert(instr_rel(prev, ctx0, instr, post));
                assert(step_rel(prev, post));
            }
        }
        r
    }

    /// Runs the dispatch loop until every context has finished, an error
    /// aborts the run, or the step budget is exhausted — the budget is how a
    /// host bounds a run, since programs need not terminate. An error-free
    /// run reaches its final state from the initial one by iterated dispatch
    /// steps ([`runs_n`] over [`step_rel`]), and yields no value only after
    /// the whole budget was actually spent. On completion the returned value
    /// is the recorded result — the value of the first context whose root
    /// frame returned — or the empty value when no context returned one.
    pub fn run<F: FloatMath>(&mut self, fm: &F, max_steps: usize) -> (r: Result<
        Option<StoredValue>,
        RuntimeError,
    >)
        requires
            old(self).wf(),
        ensures
            final(self).wf(),
            old(self).objects@.is_prefix_of(final(self).objects@),
            old(self).output@.is_prefix_of(final(self).output@),
            old(self).spawned@.is_prefix_of(final(self).spawned@),
            r is Ok ==> exists|n: nat|
                n <= max_steps && #[trigger] runs_n(*old(self), *final(self), n),
            r matches Ok(Some(sv)) ==> {
                &&& !final(self).contexts.spec_valid()
                &&& (final(self).result matches Some(x) ==> crate::value::stored_like(x, sv))
                &&& (final(self).result is None ==> sv.value == Value::Empty)
            },
            r matches Ok(None) ==> final(self).contexts.spec_valid() && runs_n(
                *old(self),
                *final(self),
                max_steps as nat,
            ),
    {
        let mut steps = max_steps;
        while steps > 0
            invariant
                self.wf(),
                steps <= max_steps,
                old(self).objects@.is_prefix_of(self.objects@),
                old(self).output@.is_prefix_of(self.output@),
                old(self).spawned@.is_prefix_of(self.spawned@),
                runs_n(*old(self), *self, (max_steps - steps) as nat),
            decreases steps,
        {
            if !self.contexts.valid() {
                let out = match &self.result {
                    Some(sv) => sv.dup(),
                    None => StoredValue { value: Value::Empty, area: CodeArea::internal() },
                };
                return Ok(Some(out));
            }
            let ghost before = *self;
            match self.step(fm) {
                Ok(()) => {},
                Err(e) => {
                    return Err(e);
                },
            }
            proof {
                lemma_runs_extend(*old(self), before, *self, (max_steps - steps) as nat);
            }
            steps = steps - 1;
        }
        if !self.contexts.valid() {
            let out = match &self.result {
                Some(sv) => sv.dup(),
                None => StoredValue { value: Value::Empty, area: CodeArea::internal() },
            };
            return Ok(Some(out));
        }
        Ok(None)
    }
}

/// `post` is reached from `pre` by `n` error-free dispatch steps, each one
/// taken on a machine that still had a context to run: the reflexive,
/// `n`-fold composition of [`step_rel`].
pub open spec fn runs_n(pre: Vm, post: Vm, n: nat) -> bool
    decreases n,
{
    if n == 0 {
        post == pre
    } else {
        exists|mid: Vm|
            runs_n(pre, mid, (n - 1) as nat) && mid.contexts.spec_valid() && #[trigger] step_rel(
                mid,
                post,
            )
    }
}

/// One more error-free step extends an iterated run.
pub proof fn lemma_runs_extend(a: Vm, b: Vm, c: Vm, n: nat)
    requires
        runs_n(a, b, n),
        b.contexts.spec_valid(),
        step_rel(b, c),
    ensures
        runs_n(a, c, n + 1),
{
    assert(runs_n(a, b, ((n + 1) - 1) as nat));
}

impl Vm {
    /// Splits the scheduled context: inserts a fork of it — deep-cloned
    /// registers and operand stacks, sharing preserved, every key fresh —
    /// into the scheduler as an independent runnable entity, leaving the
    /// original untouched. One cloning pass maps the whole fork: every fresh
    /// key's value is the key-mapped copy of the original's, so the cloned
    /// value graph is isomorphic to the original's, sharing included.
    pub fn split_current_context(&mut self)
        requires
            old(self).wf(),
            old(self).contexts.spec_valid(),
        ensures
            final(self).wf(),
            final(self).contexts.contexts@.len() == old(self).contexts.contexts@.len() + 1,
            old(self).memory@.is_prefix_of(final(self).memory@),
            ({
                let orig = old(self).contexts.contexts@[old(self).contexts.spec_best_idx()];
                let clone = final(self).contexts.contexts@.last();
                &&& final(self).contexts.contexts@[final(self).contexts.contexts@.len() - 2]
                    == orig
                &&& clone.recursion_depth == orig.recursion_depth
                &&& clone.memory == orig.memory
                &&& clone.pos_stack@ == orig.pos_stack@
                &&& clone.group_stack@ == orig.group_stack@
                &&& clone.registers@.len() == orig.registers@.len()
                &&& clone.stack@.len() == orig.stack@.len()
                &&& forall|f: int|
                    0 <= f < orig.registers@.len() ==> (#[trigger] clone.registers@[f])@.len()
                        == orig.registers@[f]@.len()
                &&& forall|f: int|
                    0 <= f < orig.stack@.len() ==> (#[trigger] clone.stack@[f])@.len()
                        == orig.stack@[f]@.len()
                &&& forall|f: int, i: int|
                    0 <= f < orig.registers@.len() && 0 <= i < orig.registers@[f]@.len() ==> old(
                        self,
                    ).memory@.len() <= (#[trigger] clone.registers@[f]@[i]).0
                        < final(self).memory@.len()
                &&& forall|f: int, i: int|
                    0 <= f < orig.stack@.len() && 0 <= i < orig.stack@[f]@.len() ==> old(
                        self,
                    ).memory@.len() <= (#[trigger] clone.stack@[f]@[i]).0
                        < final(self).memory@.len()
                &&& forall|f1: int, i1: int, f2: int, i2: int|
                    0 <= f1 < orig.registers@.len() && 0 <= i1 < orig.registers@[f1]@.len() && 0
                        <= f2 < orig.registers@.len() && 0 <= i2 < orig.registers@[f2]@.len()
                        ==> ((orig.registers@[f1]@[i1] == orig.registers@[f2]@[i2]) <==> ((
                    #[trigger] clone.registers@[f1]@[i1]) == (#[trigger] clone.registers@[f2]@[i2])))
                &&& exists|memo: Seq<Option<ValueKey>>|
                    {
                        &&& #[trigger] clone_pass(old(self).memory@, final(self).memory@, memo)
                        &&& forall|f: int, i: int|
                            0 <= f < orig.registers@.len() && 0 <= i < orig.registers@[f]@.len()
                                ==> memo_maps(
                                memo,
                                orig.registers@[f]@[i],
                                #[trigger] clone.registers@[f]@[i],
                            )
                        &&& forall|f: int, i: int|
                            0 <= f < orig.stack@.len() && 0 <= i < orig.stack@[f]@.len()
                                ==> memo_maps(
                                memo,
                                orig.stack@[f]@[i],
                                #[trigger] clone.stack@[f]@[i],
                            )
                    }
            }),
    {
        let ctx = self.contexts.take_current();
        proof {
            crate::scheduler::lemma_best_is_max(
                old(self).contexts.contexts@,
                old(self).contexts.contexts@.len() as int,
            );
            assert(ctx_wf(
                old(self).contexts.contexts@[old(self).contexts.spec_best_idx()],
                self.programs@,
                self.memory@.len() as int,
                self.contexts.have_not_returned@.len() as int,
            ));
            old(self).contexts.contexts@.remove_ensures(old(self).contexts.spec_best_idx());
            assert forall|i: int| 0 <= i < self.contexts.contexts@.len() implies ctx_wf(
                #[trigger] self.contexts.contexts@[i],
                self.programs@,
                self.memory@.len() as int,
                self.contexts.have_not_returned@.len() as int,
            ) by {
                let bi = old(self).contexts.spec_best_idx();
                if i < bi {
                    assert(self.contexts.contexts@[i] == old(self).contexts.contexts@[i]);
                    assert(ctx_wf(
                        old(self).contexts.contexts@[i],
                        self.programs@,
                        self.memory@.len() as int,
                        self.contexts.have_not_returned@.len() as int,
                    ));
                } else {
                    assert(self.contexts.contexts@[i] == old(self).contexts.contexts@[i + 1]);
                    assert(ctx_wf(
                        old(self).contexts.contexts@[i + 1],
                        self.programs@,
                        self.memory@.len() as int,
                        self.contexts.have_not_returned@.len() as int,
                    ));
                }
            }
        }
        let clone = self.fork_context(&ctx);
        self.contexts.push_context(ctx);
        self.contexts.push_context(clone);
    }
}

/// A register file of `n` slots, each holding `fill`.
pub fn make_regs(n: usize, fill: ValueKey) -> (r: Vec<ValueKey>)
    ensures
        r@.len() == n,
        forall|i: int| 0 <= i < n ==> (#[trigger] r@[i]) == fill,
{
    let mut r: Vec<ValueKey> = Vec::new();
    for i in 0..n
        invariant
            r@.len() == i,
            forall|t: int| 0 <= t < i ==> (#[trigger] r@[t]) == fill,
    {
        r.push(fill);
    }
    r
}

/// A copy of one call-stack frame.
pub fn dup_frame(item: &CallStackItem) -> (r: CallStackItem)
    ensures
        r == *item,
{
    CallStackItem {
        func: item.func,
        ip: item.ip,
        return_dest: item.return_dest,
        call_key: item.call_key,
        call_area: match &item.call_area {
            Some(a) => Some(a.dup()),
            None => None,
        },
    }
}

/// A copy of a call stack, for attaching to an error.
pub fn dup_call_stack(v: &Vec<CallStackItem>) -> (r: Vec<CallStackItem>)
    ensures
        r@ == v@,
{
    let mut r: Vec<CallStackItem> = Vec::new();
    let n = v.len();
    for i in 0..n
        invariant
            n == v@.len(),
            r@ == v@.subrange(0, i as int),
    {
        r.push(dup_frame(&v[i]));
    }
    proof {
        assert(r@ =~= v@);
    }
    r
}

/// A copy of a group stack.
pub fn dup_groups(v: &Vec<Id>) -> (r: Vec<Id>)
    ensures
        r@ == v@,
{
    let mut r: Vec<Id> = Vec::new();
    let n = v.len();
    for i in 0..n
        invariant
            n == v@.len(),
            r@ == v@.subrange(0, i as int),
    {
        r.push(v[i]);
    }
    proof {
        assert(r@ =~= v@);
    }
    r
}

} // verus!
