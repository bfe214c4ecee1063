//! The value arena: a generational-key store holding every runtime value.
//! Slots are append-only within a run, and every container stored at slot `i`
//! references only keys below `i`, so each value graph is well-founded: no
//! key can ever point at a freed or not-yet-filled slot, and recursion over a
//! value graph terminates.

use vstd::prelude::*;
use vstd::pervasive::VecAdditionalExecFns;

use crate::value::{ArgData, IterState, MacroCode, ObjKeyType, StoredValue, Value, ValueKey};

verus! {

/// Whether one macro parameter's keys all lie below `n`.
pub open spec fn arg_keys_bounded(a: ArgData, n: int) -> bool {
    &&& (a.default matches Some(k) ==> k.0 < n)
    &&& (a.pattern matches Some(k) ==> k.0 < n)
}

/// Whether every key held directly by `v` lies below `n`.
pub open spec fn keys_bounded(v: Value, n: int) -> bool {
    match v {
        Value::Array(ks) => forall|i: int|
            0 <= i < ks@.len() ==> (#[trigger] ks@[i]).0 < n,
        Value::Dict(es) => forall|i: int|
            0 <= i < es@.len() ==> (#[trigger] es@[i]).1.0 < n,
        Value::Maybe(o) => (o matches Some(k) ==> k.0 < n),
        Value::Macro(mc) => match mc {
            MacroCode::Normal { func: _, args, captured } => {
                &&& forall|i: int|
                    0 <= i < args@.len() ==> arg_keys_bounded(#[trigger] args@[i], n)
                &&& forall|i: int|
                    0 <= i < captured@.len() ==> (#[trigger] captured@[i]).0 < n
            },
            MacroCode::Builtin(..) => true,
        },
        Value::Object(_, ps) => forall|i: int|
            0 <= i < ps@.len() ==> (#[trigger] ps@[i]).1.0 < n,
        Value::Iterator(st) => match st {
            IterState::Arr(ks, _) => forall|i: int|
                0 <= i < ks@.len() ==> (#[trigger] ks@[i]).0 < n,
            IterState::DictIt(es, _) => forall|i: int|
                0 <= i < es@.len() ==> (#[trigger] es@[i]).1.0 < n,
            IterState::Rng(..) => true,
        },
        _ => true,
    }
}

/// `memo` sends key `a` to key `b`.
pub open spec fn memo_maps(memo: Seq<Option<ValueKey>>, a: ValueKey, b: ValueKey) -> bool {
    &&& a.0 < memo.len()
    &&& memo[a.0 as int] == Some(b)
}

/// `memo` sends the optional key `a` to the optional key `b`.
pub open spec fn memo_maps_opt(
    memo: Seq<Option<ValueKey>>,
    a: Option<ValueKey>,
    b: Option<ValueKey>,
) -> bool {
    match a {
        None => b is None,
        Some(x) => b matches Some(y) && memo_maps(memo, x, y),
    }
}

/// `b` is the image of the macro parameter `a` under `memo`.
pub open spec fn cloned_arg(memo: Seq<Option<ValueKey>>, a: ArgData, b: ArgData) -> bool {
    &&& b.name == a.name
    &&& memo_maps_opt(memo, a.default, b.default)
    &&& memo_maps_opt(memo, a.pattern, b.pattern)
}

/// `b` is a copy of `a` in which every directly held key has been replaced
/// by its image under `memo`; everything else is equal.
pub open spec fn cloned_value(memo: Seq<Option<ValueKey>>, a: Value, b: Value) -> bool {
    match a {
        Value::Array(ks) => {
            &&& b matches Value::Array(ks2)
            &&& ks2@.len() == ks@.len()
            &&& forall|i: int|
                0 <= i < ks@.len() ==> memo_maps(memo, ks@[i], #[trigger] ks2@[i])
        },
        Value::Dict(es) => {
            &&& b matches Value::Dict(es2)
            &&& es2@.len() == es@.len()
            &&& forall|i: int| 0 <= i < es@.len() ==> {
                &&& (#[trigger] es2@[i]).0 == es@[i].0
                &&& memo_maps(memo, es@[i].1, es2@[i].1)
            }
        },
        Value::Maybe(o) => {
            &&& b matches Value::Maybe(o2)
            &&& memo_maps_opt(memo, o, o2)
        },
        Value::Macro(mc) => match mc {
            MacroCode::Normal { func, args, captured } => {
                &&& b matches Value::Macro(MacroCode::Normal {
                    func: func2,
                    args: args2,
                    captured: captured2,
                })
                &&& func2 == func
                &&& args2@.len() == args@.len()
                &&& forall|i: int|
                    0 <= i < args@.len() ==> cloned_arg(memo, args@[i], #[trigger] args2@[i])
                &&& captured2@.len() == captured@.len()
                &&& forall|i: int|
                    0 <= i < captured@.len()
                        ==> memo_maps(memo, captured@[i], #[trigger] captured2@[i])
            },
            MacroCode::Builtin(..) => b == a,
        },
        Value::Object(t, ps) => {
            &&& b matches Value::Object(t2, ps2)
            &&& t2 == t
            &&& ps2@.len() == ps@.len()
            &&& forall|i: int| 0 <= i < ps@.len() ==> {
                &&& (#[trigger] ps2@[i]).0 == ps@[i].0
                &&& memo_maps(memo, ps@[i].1, ps2@[i].1)
            }
        },
        Value::Iterator(st) => match st {
            IterState::Arr(ks, pos) => {
                &&& b matches Value::Iterator(IterState::Arr(ks2, pos2))
                &&& pos2 == pos
                &&& ks2@.len() == ks@.len()
                &&& forall|i: int|
                    0 <= i < ks@.len() ==> memo_maps(memo, ks@[i], #[trigger] ks2@[i])
            },
            IterState::DictIt(es, pos) => {
                &&& b matches Value::Iterator(IterState::DictIt(es2, pos2))
                &&& pos2 == pos
                &&& es2@.len() == es@.len()
                &&& forall|i: int| 0 <= i < es@.len() ==> {
                    &&& (#[trigger] es2@[i]).0 == es@[i].0
                    &&& memo_maps(memo, es@[i].1, es2@[i].1)
                }
            },
            IterState::Rng(..) => b == a,
        },
        _ => b == a,
    }
}

/// Slot `v` of `m` is the image of some original slot under `memo`.
pub open spec fn is_image(memo: Seq<Option<ValueKey>>, v: int) -> bool {
    exists|j: int| 0 <= j < memo.len() && memo[j] == Some(ValueKey(v as usize))
}

/// The memo table of a cloning pass over `m` is coherent: every recorded
/// image is a fresh slot (at or above the pass base `memo.len()`) holding a
/// key-mapped copy of its original, distinct originals have distinct images,
/// and every slot in the fresh region is such an image.
pub open spec fn memo_ok(m: Seq<StoredValue>, memo: Seq<Option<ValueKey>>) -> bool {
    &&& memo.len() <= m.len()
    &&& forall|j: int| 0 <= j < memo.len() && (#[trigger] memo[j]) is Some ==> {
        let v = memo[j]->0;
        &&& memo.len() <= v.0 < m.len()
        &&& m[v.0 as int].area == m[j].area
        &&& cloned_value(memo, m[j].value, m[v.0 as int].value)
    }
    &&& forall|j1: int, j2: int|
        0 <= j1 < memo.len() && 0 <= j2 < memo.len() && #[trigger] memo[j1] is Some
            && #[trigger] memo[j2] is Some && memo[j1] == memo[j2] ==> j1 == j2
    &&& forall|v: int| memo.len() <= v < m.len() ==> #[trigger] is_image(memo, v)
}

/// `m1` extends `m0` by one complete cloning pass whose memo table is
/// `memo`: the original slots are untouched and every appended slot is the
/// image of an original one.
pub open spec fn clone_pass(
    m0: Seq<StoredValue>,
    m1: Seq<StoredValue>,
    memo: Seq<Option<ValueKey>>,
) -> bool {
    &&& memo.len() == m0.len()
    &&& m0.is_prefix_of(m1)
    &&& memo_ok(m1, memo)
}

/// A memo table entry that was `Some` before an update stays what it was, so
/// every key-mapping fact about a value survives adding one new entry.
proof fn lemma_cloned_value_update(
    memo: Seq<Option<ValueKey>>,
    idx: int,
    nv: Option<ValueKey>,
    a: Value,
    b: Value,
)
    requires
        0 <= idx < memo.len(),
        memo[idx] is None,
        cloned_value(memo, a, b),
    ensures
        cloned_value(memo.update(idx, nv), a, b),
{
    let m2 = memo.update(idx, nv);
    match a {
        Value::Array(ks) => match b {
            Value::Array(ks2) => {
                assert forall|i: int| 0 <= i < ks@.len() implies memo_maps(
                    m2,
                    ks@[i],
                    #[trigger] ks2@[i],
                ) by {
                    assert(memo_maps(memo, ks@[i], ks2@[i]));
                }
            },
            _ => {},
        },
        Value::Dict(es) => match b {
            Value::Dict(es2) => {
                assert forall|i: int| 0 <= i < es@.len() implies (#[trigger] es2@[i]).0 == es@[i].0
                    && memo_maps(m2, es@[i].1, es2@[i].1) by {
                    assert(memo_maps(memo, es@[i].1, es2@[i].1));
                }
            },
            _ => {},
        },
        Value::Maybe(o) => match b {
            Value::Maybe(o2) => {
                if o is Some {
                    assert(memo_maps(memo, o->0, o2->0));
                }
            },
            _ => {},
        },
        Value::Macro(mc) => match mc {
            MacroCode::Normal { func: _, args, captured } => match b {
                Value::Macro(MacroCode::Normal { func: _, args: args2, captured: captured2 }) => {
                    assert forall|i: int| 0 <= i < args@.len() implies cloned_arg(
                        m2,
                        args@[i],
                        #[trigger] args2@[i],
                    ) by {
                        assert(cloned_arg(memo, args@[i], args2@[i]));
                        if args@[i].default is Some {
                            assert(memo_maps(memo, args@[i].default->0, args2@[i].default->0));
                        }
                        if args@[i].pattern is Some {
                            assert(memo_maps(memo, args@[i].pattern->0, args2@[i].pattern->0));
                        }
                    }
                    assert forall|i: int| 0 <= i < captured@.len() implies memo_maps(
                        m2,
                        captured@[i],
                        #[trigger] captured2@[i],
                    ) by {
                        assert(memo_maps(memo, captured@[i], captured2@[i]));
                    }
                },
                _ => {},
            },
            MacroCode::Builtin(..) => {},
        },
        Value::Object(_, ps) => match b {
            Value::Object(_, ps2) => {
                assert forall|i: int| 0 <= i < ps@.len() implies (#[trigger] ps2@[i]).0 == ps@[i].0
                    && memo_maps(m2, ps@[i].1, ps2@[i].1) by {
                    assert(memo_maps(memo, ps@[i].1, ps2@[i].1));
                }
            },
            _ => {},
        },
        Value::Iterator(st) => match st {
            IterState::Arr(ks, _) => match b {
                Value::Iterator(IterState::Arr(ks2, _)) => {
                    assert forall|i: int| 0 <= i < ks@.len() implies memo_maps(
                        m2,
                        ks@[i],
                        #[trigger] ks2@[i],
                    ) by {
                        assert(memo_maps(memo, ks@[i], ks2@[i]));
                    }
                },
                _ => {},
            },
            IterState::DictIt(es, _) => match b {
                Value::Iterator(IterState::DictIt(es2, _)) => {
                    assert forall|i: int| 0 <= i < es@.len() implies (#[trigger] es2@[i]).0
                        == es@[i].0 && memo_maps(m2, es@[i].1, es2@[i].1) by {
                        assert(memo_maps(memo, es@[i].1, es2@[i].1));
                    }
                },
                _ => {},
            },
            IterState::Rng(..) => {},
        },
        _ => {},
    }
}

/// The generational-key store. Everything at runtime lives here; registers,
/// stacks and containers hold only [`ValueKey`]s into it.
pub struct Arena {
    slots: Vec<StoredValue>,
}

impl View for Arena {
    type V = Seq<StoredValue>;

    closed spec fn view(&self) -> Seq<StoredValue> {
        self.slots@
    }
}

impl Arena {
    /// Every slot references only earlier slots, so all value graphs are
    /// well-founded.
    pub open spec fn wf(&self) -> bool {
        forall|i: int| 0 <= i < self@.len() ==> keys_bounded((#[trigger] self@[i]).value, i)
    }

    /// Whether `k` is dereferenceable.
    pub open spec fn has_key(&self, k: ValueKey) -> bool {
        k.0 < self@.len()
    }

    /// Slot indices fit a machine word.
    pub proof fn lemma_len_bound(&self)
        ensures
            self@.len() <= usize::MAX,
    {
        vstd::std_specs::vec::axiom_spec_len(&self.slots);
    }

    /// An empty arena.
    pub fn new() -> (r: Arena)
        ensures
            r@ == Seq::<StoredValue>::empty(),
            r.wf(),
    {
        Arena { slots: Vec::new() }
    }

    /// The number of slots ever created.
    pub fn len(&self) -> (r: usize)
        ensures
            r == self@.len(),
    {
        self.slots.len()
    }

    /// The stored value behind `k`.
    pub fn get(&self, k: ValueKey) -> (r: &StoredValue)
        requires
            self.has_key(k),
        ensures
            *r == self@[k.0 as int],
    {
        &self.slots[k.0]
    }

    /// Clones the value graph reachable from `k`, recording every cloned key
    /// in `memo`, so that sub-structure shared inside one pass stays shared
    /// in the clone. Entries above `k` are never touched, which is what
    /// makes the memo table of an enclosing pass stable.
    pub(crate) fn clone_rec(&mut self, k: ValueKey, memo: &mut Vec<Option<ValueKey>>) -> (r: ValueKey)
        requires
            old(self).wf(),
            memo_ok(old(self)@, old(memo)@),
            k.0 < old(memo)@.len(),
        ensures
            final(self).wf(),
            old(self)@.is_prefix_of(final(self)@),
            final(memo)@.len() == old(memo)@.len(),
            forall|j: int|
                0 <= j < old(memo)@.len() && (#[trigger] old(memo)@[j]) is Some
                    ==> final(memo)@[j] == old(memo)@[j],
            forall|j: int|
                k.0 < j < old(memo)@.len() ==> #[trigger] final(memo)@[j] == old(memo)@[j],
            memo_ok(final(self)@, final(memo)@),
            final(memo)@[k.0 as int] == Some(r),
        decreases k.0,
    {
        if let Some(existing) = memo[k.0] {
            return existing;
        }
        let sv = self.get(k).dup();
        let area = sv.area;
        let ghost orig = self@[k.0 as int].value;
        let nv: Value = match sv.value {
            Value::Array(ks) => {
                let mut nks: Vec<ValueKey> = Vec::new();
                let n = ks.len();
                proof {
                    assert(keys_bounded(orig, k.0 as int));
                }
                for i in 0..n
                    invariant
                        self.wf(),
                        memo_ok(self@, memo@),
                        memo@.len() == old(memo)@.len(),
                        old(self)@.is_prefix_of(self@),
                        forall|j: int|
                            0 <= j < old(memo)@.len() && (#[trigger] old(memo)@[j]) is Some
                                ==> memo@[j] == old(memo)@[j],
                        forall|j: int|
                            k.0 <= j < old(memo)@.len() ==> #[trigger] memo@[j] == old(memo)@[j],
                        k.0 < memo@.len(),
                        orig matches Value::Array(oks) && oks@ == ks@,
                        n == ks@.len(),
                        forall|t: int| 0 <= t < ks@.len() ==> (#[trigger] ks@[t]).0 < k.0,
                        nks@.len() == i,
                        forall|t: int|
                            0 <= t < i ==> memo_maps(memo@, ks@[t], #[trigger] nks@[t]),
                {
                    let c = self.clone_rec(ks[i], memo);
                    nks.push(c);
                }
                Value::Array(nks)
            },
            Value::Dict(es) => {
                let mut nes: Vec<(String, ValueKey)> = Vec::new();
                let n = es.len();
                proof {
                    assert(keys_bounded(orig, k.0 as int));
                }
                for i in 0..n
                    invariant
                        self.wf(),
                        memo_ok(self@, memo@),
                        memo@.len() == old(memo)@.len(),
                        old(self)@.is_prefix_of(self@),
                        forall|j: int|
                            0 <= j < old(memo)@.len() && (#[trigger] old(memo)@[j]) is Some
                                ==> memo@[j] == old(memo)@[j],
                        forall|j: int|
                            k.0 <= j < old(memo)@.len() ==> #[trigger] memo@[j] == old(memo)@[j],
                        k.0 < memo@.len(),
                        orig matches Value::Dict(oes) && oes@ == es@,
                        n == es@.len(),
                        forall|t: int| 0 <= t < es@.len() ==> (#[trigger] es@[t]).1.0 < k.0,
                        nes@.len() == i,
                        forall|t: int|
                            0 <= t < i ==> {
                                &&& (#[trigger] nes@[t]).0 == es@[t].0
                                &&& memo_maps(memo@, es@[t].1, nes@[t].1)
                            },
                {
                    let name = es[i].0.clone();
                    let c = self.clone_rec(es[i].1, memo);
                    nes.push((name, c));
                }
                Value::Dict(nes)
            },
            Value::Maybe(o) => match o {
                Some(inner) => {
                    proof {
                        assert(keys_bounded(orig, k.0 as int));
                    }
                    let c = self.clone_rec(inner, memo);
                    Value::Maybe(Some(c))
                },
                None => Value::Maybe(None),
            },
            Value::Macro(MacroCode::Normal { func, args, captured }) => {
                let mut nargs: Vec<ArgData> = Vec::new();
                let na = args.len();
                proof {
                    assert(keys_bounded(orig, k.0 as int));
                }
                for i in 0..na
                    invariant
                        self.wf(),
                        memo_ok(self@, memo@),
                        memo@.len() == old(memo)@.len(),
                        old(self)@.is_prefix_of(self@),
                        forall|j: int|
                            0 <= j < old(memo)@.len() && (#[trigger] old(memo)@[j]) is Some
                                ==> memo@[j] == old(memo)@[j],
                        forall|j: int|
                            k.0 <= j < old(memo)@.len() ==> #[trigger] memo@[j] == old(memo)@[j],
                        k.0 < memo@.len(),
                        na == args@.len(),
                        forall|t: int|
                            0 <= t < args@.len() ==> arg_keys_bounded(#[trigger] args@[t], k.0 as int),
                        nargs@.len() == i,
                        forall|t: int|
                            0 <= t < i ==> cloned_arg(memo@, args@[t], #[trigger] nargs@[t]),
                {
                    let a = &args[i];
                    let name = a.name.clone();
                    let default = match a.default {
                        Some(d) => Some(self.clone_rec(d, memo)),
                        None => None,
                    };
                    proof {
                        assert(arg_keys_bounded(args@[i as int], k.0 as int));
                    }
                    let pattern = match a.pattern {
                        Some(p) => Some(self.clone_rec(p, memo)),
                        None => None,
                    };
                    nargs.push(ArgData { name, default, pattern });
                }
                let mut ncap: Vec<ValueKey> = Vec::new();
                let nc = captured.len();
                for i in 0..nc
                    invariant
                        self.wf(),
                        memo_ok(self@, memo@),
                        memo@.len() == old(memo)@.len(),
                        old(self)@.is_prefix_of(self@),
                        forall|j: int|
                            0 <= j < old(memo)@.len() && (#[trigger] old(memo)@[j]) is Some
                                ==> memo@[j] == old(memo)@[j],
                        forall|j: int|
                            k.0 <= j < old(memo)@.len() ==> #[trigger] memo@[j] == old(memo)@[j],
                        k.0 < memo@.len(),
                        nc == captured@.len(),
                        forall|t: int| 0 <= t < captured@.len() ==> (#[trigger] captured@[t]).0 < k.0,
                        nargs@.len() == args@.len(),
                        forall|t: int|
                            0 <= t < args@.len() ==> cloned_arg(memo@, args@[t], #[trigger] nargs@[t]),
                        ncap@.len() == i,
                        forall|t: int|
                            0 <= t < i ==> memo_maps(memo@, captured@[t], #[trigger] ncap@[t]),
                {
                    let c = self.clone_rec(captured[i], memo);
                    ncap.push(c);
                }
                Value::Macro(MacroCode::Normal { func, args: nargs, captured: ncap })
            },
            Value::Object(t, ps) => {
                let mut nps: Vec<(ObjKeyType, ValueKey)> = Vec::new();
                let n = ps.len();
                proof {
                    assert(keys_bounded(orig, k.0 as int));
                }
                for i in 0..n
                    invariant
                        self.wf(),
                        memo_ok(self@, memo@),
                        memo@.len() == old(memo)@.len(),
                        old(self)@.is_prefix_of(self@),
                        forall|j: int|
                            0 <= j < old(memo)@.len() && (#[trigger] old(memo)@[j]) is Some
                                ==> memo@[j] == old(memo)@[j],
                        forall|j: int|
                            k.0 <= j < old(memo)@.len() ==> #[trigger] memo@[j] == old(memo)@[j],
                        k.0 < memo@.len(),
                        n == ps@.len(),
                        forall|t: int| 0 <= t < ps@.len() ==> (#[trigger] ps@[t]).1.0 < k.0,
                        nps@.len() == i,
                        forall|t: int|
                            0 <= t < i ==> {
                                &&& (#[trigger] nps@[t]).0 == ps@[t].0
                                &&& memo_maps(memo@, ps@[t].1, nps@[t].1)
                            },
                {
                    let key = ps[i].0;
                    let c = self.clone_rec(ps[i].1, memo);
                    nps.push((key, c));
                }
                Value::Object(t, nps)
            },
            Value::Iterator(IterState::Arr(ks, pos)) => {
                let mut nks: Vec<ValueKey> = Vec::new();
                let n = ks.len();
                proof {
                    assert(keys_bounded(orig, k.0 as int));
                }
                for i in 0..n
                    invariant
                        self.wf(),
                        memo_ok(self@, memo@),
                        memo@.len() == old(memo)@.len(),
                        old(self)@.is_prefix_of(self@),
                        forall|j: int|
                            0 <= j < old(memo)@.len() && (#[trigger] old(memo)@[j]) is Some
                                ==> memo@[j] == old(memo)@[j],
                        forall|j: int|
                            k.0 <= j < old(memo)@.len() ==> #[trigger] memo@[j] == old(memo)@[j],
                        k.0 < memo@.len(),
                        n == ks@.len(),
                        forall|t: int| 0 <= t < ks@.len() ==> (#[trigger] ks@[t]).0 < k.0,
                        nks@.len() == i,
                        forall|t: int|
                            0 <= t < i ==> memo_maps(memo@, ks@[t], #[trigger] nks@[t]),
                {
                    let c = self.clone_rec(ks[i], memo);
                    nks.push(c);
                }
                Value::Iterator(IterState::Arr(nks, pos))
            },
            Value::Iterator(IterState::DictIt(es, pos)) => {
                let mut nes: Vec<(String, ValueKey)> = Vec::new();
                let n = es.len();
                proof {
                    assert(keys_bounded(orig, k.0 as int));
                }
                for i in 0..n
                    invariant
                        self.wf(),
                        memo_ok(self@, memo@),
                        memo@.len() == old(memo)@.len(),
                        old(self)@.is_prefix_of(self@),
                        forall|j: int|
                            0 <= j < old(memo)@.len() && (#[trigger] old(memo)@[j]) is Some
                                ==> memo@[j] == old(memo)@[j],
                        forall|j: int|
                            k.0 <= j < old(memo)@.len() ==> #[trigger] memo@[j] == old(memo)@[j],
                        k.0 < memo@.len(),
                        n == es@.len(),
                        forall|t: int| 0 <= t < es@.len() ==> (#[trigger] es@[t]).1.0 < k.0,
                        nes@.len() == i,
                        forall|t: int|
                            0 <= t < i ==> {
                                &&& (#[trigger] nes@[t]).0 == es@[t].0
                                &&& memo_maps(memo@, es@[t].1, nes@[t].1)
                            },
                {
                    let name = es[i].0.clone();
                    let c = self.clone_rec(es[i].1, memo);
                    nes.push((name, c));
                }
                Value::Iterator(IterState::DictIt(nes, pos))
            },
            other => other,
        };
        proof {
            assert(cloned_value(memo@, self@[k.0 as int].value, nv));
            assert(keys_bounded(nv, self@.len() as int));
        }
        let ghost memo_pre = memo@;
        let ghost m_pre = self@;
        let r = self.insert(StoredValue { value: nv, area });
        memo.set(k.0, Some(r));
        proof {
            let m = self@;
            let mm = memo@;
            assert forall|j: int| 0 <= j < mm.len() && (#[trigger] mm[j]) is Some implies {
                let v = mm[j]->0;
                &&& mm.len() <= v.0 < m.len()
                &&& m[v.0 as int].area == m[j].area
                &&& cloned_value(mm, m[j].value, m[v.0 as int].value)
            } by {
                if j == k.0 as int {
                    lemma_cloned_value_update(
                        memo_pre,
                        k.0 as int,
                        Some(r),
                        m[j].value,
                        m[r.0 as int].value,
                    );
                } else {
                    assert(memo_pre[j] == mm[j]);
                    let v = mm[j]->0;
                    assert(cloned_value(memo_pre, m_pre[j].value, m_pre[v.0 as int].value));
                    lemma_cloned_value_update(
                        memo_pre,
                        k.0 as int,
                        Some(r),
                        m[j].value,
                        m[v.0 as int].value,
                    );
                }
            }
            assert forall|v: int| mm.len() <= v < m.len() implies #[trigger] is_image(mm, v) by {
                if v == r.0 as int {
                    assert(mm[k.0 as int] == Some(ValueKey(v as usize)));
                } else {
                    assert(is_image(memo_pre, v));
                    let j = choose|j: int|
                        0 <= j < memo_pre.len() && memo_pre[j] == Some(ValueKey(v as usize));
                    assert(mm[j] == Some(ValueKey(v as usize)));
                }
            }
            assert(memo_ok(m, mm));
        }
        r
    }

    /// A memo table for a new cloning pass: one empty entry per existing
    /// slot.
    pub(crate) fn fresh_memo(&self) -> (r: Vec<Option<ValueKey>>)
        ensures
            r@.len() == self@.len(),
            forall|j: int| 0 <= j < r@.len() ==> (#[trigger] r@[j]) is None,
    {
        let mut m: Vec<Option<ValueKey>> = Vec::new();
        let n = self.slots.len();
        for i in 0..n
            invariant
                m@.len() == i,
                forall|j: int| 0 <= j < i ==> (#[trigger] m@[j]) is None,
        {
            m.push(None);
        }
        m
    }

    /// Produces a fully independent copy of the value graph reachable from
    /// `k`: every reachable slot is duplicated exactly once, so sub-structure
    /// shared inside the original stays shared (and nothing more is shared)
    /// in the clone, and every new key lies in the freshly appended region.
    pub fn deep_clone(&mut self, k: ValueKey) -> (r: ValueKey)
        requires
            old(self).wf(),
            old(self).has_key(k),
        ensures
            final(self).wf(),
            old(self)@.is_prefix_of(final(self)@),
            old(self)@.len() <= r.0 < final(self)@.len(),
            exists|memo: Seq<Option<ValueKey>>|
                #[trigger] clone_pass(old(self)@, final(self)@, memo) && memo[k.0 as int] == Some(
                    r,
                ),
    {
        let mut memo = self.fresh_memo();
        let r = self.clone_rec(k, &mut memo);
        proof {
            assert(clone_pass(old(self)@, self@, memo@));
        }
        r
    }

    /// Clones the value graphs reachable from every key of `keys` in one
    /// pass: a key that occurs twice in `keys` is cloned once, so the result
    /// list shares keys exactly where the input list did, and every result
    /// key is fresh.
    pub fn deep_clone_keys(&mut self, keys: &Vec<ValueKey>) -> (r: Vec<ValueKey>)
        requires
            old(self).wf(),
            forall|i: int| 0 <= i < keys@.len() ==> (#[trigger] keys@[i]).0 < old(self)@.len(),
        ensures
            final(self).wf(),
            old(self)@.is_prefix_of(final(self)@),
            r@.len() == keys@.len(),
            forall|i: int|
                0 <= i < r@.len()
                    ==> old(self)@.len() <= (#[trigger] r@[i]).0 < final(self)@.len(),
            forall|i: int, j: int|
                0 <= i < keys@.len() && 0 <= j < keys@.len() ==> ((keys@[i] == keys@[j]) <==> (
                #[trigger] r@[i]) == (#[trigger] r@[j])),
            exists|memo: Seq<Option<ValueKey>>|
                #[trigger] clone_pass(old(self)@, final(self)@, memo) && forall|i: int|
                    0 <= i < keys@.len() ==> memo_maps(memo, keys@[i], #[trigger] r@[i]),
    {
        let mut memo = self.fresh_memo();
        let mut r: Vec<ValueKey> = Vec::new();
        let n = keys.len();
        for i in 0..n
            invariant
                self.wf(),
                memo_ok(self@, memo@),
                memo@.len() == old(self)@.len(),
                old(self)@.is_prefix_of(self@),
                n == keys@.len(),
                forall|t: int| 0 <= t < keys@.len() ==> (#[trigger] keys@[t]).0 < old(self)@.len(),
                r@.len() == i,
                forall|t: int| 0 <= t < i ==> memo_maps(memo@, keys@[t], #[trigger] r@[t]),
        {
            let c = self.clone_rec(keys[i], &mut memo);
            r.push(c);
        }
        proof {
            assert(clone_pass(old(self)@, self@, memo@));
            assert forall|i: int, j: int|
                0 <= i < keys@.len() && 0 <= j < keys@.len() implies ((keys@[i] == keys@[j]) <==> (
            #[trigger] r@[i]) == (#[trigger] r@[j])) by {
                assert(memo_maps(memo@, keys@[i], r@[i]));
                assert(memo_maps(memo@, keys@[j], r@[j]));
                if r@[i] == r@[j] {
                    assert(memo@[keys@[i].0 as int] is Some);
                    assert(memo@[keys@[j].0 as int] is Some);
                    assert(keys@[i].0 == keys@[j].0);
                }
            }
        }
        r
    }

    /// Clones every key of a per-frame key table through one shared memo
    /// pass, so that keys shared anywhere across the table share their clone.
    /// The caller owns the pass: `memo` must be coherent, and stays so.
    pub(crate) fn clone_key_table(
        &mut self,
        table: &Vec<Vec<ValueKey>>,
        memo: &mut Vec<Option<ValueKey>>,
    ) -> (r: Vec<Vec<ValueKey>>)
        requires
            old(self).wf(),
            memo_ok(old(self)@, old(memo)@),
            forall|f: int, i: int|
                0 <= f < table@.len() && 0 <= i < table@[f]@.len()
                    ==> (#[trigger] table@[f]@[i]).0 < old(memo)@.len(),
        ensures
            final(self).wf(),
            old(self)@.is_prefix_of(final(self)@),
            final(memo)@.len() == old(memo)@.len(),
            forall|j: int|
                0 <= j < old(memo)@.len() && (#[trigger] old(memo)@[j]) is Some
                    ==> final(memo)@[j] == old(memo)@[j],
            memo_ok(final(self)@, final(memo)@),
            r@.len() == table@.len(),
            forall|f: int|
                0 <= f < table@.len() ==> (#[trigger] r@[f])@.len() == table@[f]@.len(),
            forall|f: int, i: int|
                0 <= f < table@.len() && 0 <= i < table@[f]@.len() ==> memo_maps(
                    final(memo)@,
                    table@[f]@[i],
                    #[trigger] r@[f]@[i],
                ),
    {
        let mut r: Vec<Vec<ValueKey>> = Vec::new();
        let nf = table.len();
        for f in 0..nf
            invariant
                self.wf(),
                memo_ok(self@, memo@),
                memo@.len() == old(memo)@.len(),
                old(self)@.is_prefix_of(self@),
                forall|j: int|
                    0 <= j < old(memo)@.len() && (#[trigger] old(memo)@[j]) is Some
                        ==> memo@[j] == old(memo)@[j],
                forall|g: int, i: int|
                    0 <= g < table@.len() && 0 <= i < table@[g]@.len()
                        ==> (#[trigger] table@[g]@[i]).0 < old(memo)@.len(),
                nf == table@.len(),
                r@.len() == f,
                forall|g: int|
                    0 <= g < f ==> (#[trigger] r@[g])@.len() == table@[g]@.len(),
                forall|g: int, i: int|
                    0 <= g < f && 0 <= i < table@[g]@.len() ==> memo_maps(
                        memo@,
                        table@[g]@[i],
                        #[trigger] r@[g]@[i],
                    ),
        {
            let row = &table[f];
            let mut nrow: Vec<ValueKey> = Vec::new();
            let m = row.len();
            for i in 0..m
                invariant
                    self.wf(),
                    memo_ok(self@, memo@),
                    memo@.len() == old(memo)@.len(),
                    old(self)@.is_prefix_of(self@),
                    forall|j: int|
                        0 <= j < old(memo)@.len() && (#[trigger] old(memo)@[j]) is Some
                            ==> memo@[j] == old(memo)@[j],
                    forall|g: int, i2: int|
                        0 <= g < table@.len() && 0 <= i2 < table@[g]@.len()
                            ==> (#[trigger] table@[g]@[i2]).0 < old(memo)@.len(),
                    nf == table@.len(),
                    f < nf,
                    row@ == table@[f as int]@,
                    m == row@.len(),
                    r@.len() == f,
                    forall|g: int|
                        0 <= g < f ==> (#[trigger] r@[g])@.len() == table@[g]@.len(),
                    forall|g: int, i2: int|
                        0 <= g < f && 0 <= i2 < table@[g]@.len() ==> memo_maps(
                            memo@,
                            table@[g]@[i2],
                            #[trigger] r@[g]@[i2],
                        ),
                    nrow@.len() == i,
                    forall|t: int|
                        0 <= t < i ==> memo_maps(memo@, row@[t], #[trigger] nrow@[t]),
            {
                let c = self.clone_rec(row[i], memo);
                nrow.push(c);
            }
            r.push(nrow);
        }
        r
    }

    /// Stores `sv` in a fresh slot and returns its key. The value may only
    /// reference keys that already exist, which keeps the arena well-formed.
    pub fn insert(&mut self, sv: StoredValue) -> (r: ValueKey)
        requires
            old(self).wf(),
            keys_bounded(sv.value, old(self)@.len() as int),
        ensures
            final(self).wf(),
            final(self)@ == old(self)@.push(sv),
            r.0 == old(self)@.len(),
            final(self).has_key(r),
    {
        let r = ValueKey(self.slots.len());
        self.slots.push(sv);
        r
    }
}

/// The clone of a slot is a key-mapped copy of it: same area, same value
/// shape, every directly held key replaced by its image under the pass's
/// memo table. The memo table is the isomorphism between the original value
/// graph and its clone.
pub proof fn lemma_clone_structure(
    m0: Seq<StoredValue>,
    m1: Seq<StoredValue>,
    memo: Seq<Option<ValueKey>>,
    k: ValueKey,
    r: ValueKey,
)
    requires
        clone_pass(m0, m1, memo),
        k.0 < m0.len(),
        memo[k.0 as int] == Some(r),
    ensures
        m0.len() <= r.0 < m1.len(),
        m1[r.0 as int].area == m0[k.0 as int].area,
        cloned_value(memo, m0[k.0 as int].value, m1[r.0 as int].value),
{
    assert(m1[k.0 as int] == m0[k.0 as int]);
}

/// Deep-cloning an array keeps sharing: the clone of a slot holding an array
/// holds an array of the same length whose entries are fresh keys, and two
/// entries of the clone are equal exactly where the corresponding entries of
/// the original were. In particular, cloning an array whose two slots hold
/// one shared key yields an array whose two slots again hold one shared key,
/// distinct from every original key.
pub proof fn lemma_clone_array_sharing(
    m0: Seq<StoredValue>,
    m1: Seq<StoredValue>,
    memo: Seq<Option<ValueKey>>,
    k: ValueKey,
    r: ValueKey,
)
    requires
        clone_pass(m0, m1, memo),
        k.0 < m0.len(),
        memo[k.0 as int] == Some(r),
        m0[k.0 as int].value is Array,
    ensures
        m0.len() <= r.0 < m1.len(),
        m1[r.0 as int].value is Array,
        ({
            let ks = m0[k.0 as int].value->Array_0;
            let ks2 = m1[r.0 as int].value->Array_0;
            &&& ks2@.len() == ks@.len()
            &&& forall|i: int|
                0 <= i < ks2@.len() ==> m0.len() <= (#[trigger] ks2@[i]).0 < m1.len()
            &&& forall|i: int, j: int|
                0 <= i < ks@.len() && 0 <= j < ks@.len() ==> ((ks@[i] == ks@[j]) <==> (
                #[trigger] ks2@[i]) == (#[trigger] ks2@[j]))
        }),
{
    assert(m1[k.0 as int] == m0[k.0 as int]);
    assert(cloned_value(memo, m1[k.0 as int].value, m1[r.0 as int].value));
    let ks = m0[k.0 as int].value->Array_0;
    let ks2 = m1[r.0 as int].value->Array_0;
    assert forall|i: int| 0 <= i < ks2@.len() implies m0.len() <= (#[trigger] ks2@[i]).0
        < m1.len() by {
        assert(memo_maps(memo, ks@[i], ks2@[i]));
    }
    assert forall|i: int, j: int|
        0 <= i < ks@.len() && 0 <= j < ks@.len() implies ((ks@[i] == ks@[j]) <==> (
    #[trigger] ks2@[i]) == (#[trigger] ks2@[j])) by {
        assert(memo_maps(memo, ks@[i], ks2@[i]));
        assert(memo_maps(memo, ks@[j], ks2@[j]));
        if ks2@[i] == ks2@[j] {
            assert(memo[ks@[i].0 as int] is Some);
            assert(memo[ks@[j].0 as int] is Some);
            assert(ks@[i].0 == ks@[j].0);
        }
    }
}

} // verus!
