//! Diagnostic rendering of runtime values: what `Print` emits and what
//! assertion failures embed in their labels. The text of a float is the
//! embedder's, so the rendering contracts hold on float-free values: there
//! [`runtime_display`] produces exactly [`spec_render`].

use vstd::prelude::*;

use crate::arena::{keys_bounded, Arena};
use crate::ids::Id;
use crate::value::{
    ArgData, Builtin, FloatMath, IterState, MacroCode, ObjectType, StoredValue, Value, ValueKey,
};

verus! {

/// The character string of one decimal digit.
pub open spec fn spec_digit_str(d: nat) -> Seq<char> {
    if d == 0 {
        "0"@
    } else if d == 1 {
        "1"@
    } else if d == 2 {
        "2"@
    } else if d == 3 {
        "3"@
    } else if d == 4 {
        "4"@
    } else if d == 5 {
        "5"@
    } else if d == 6 {
        "6"@
    } else if d == 7 {
        "7"@
    } else if d == 8 {
        "8"@
    } else {
        "9"@
    }
}

/// The decimal digits of `n`, most significant first.
pub open spec fn spec_digits(n: nat) -> Seq<char>
    decreases n,
{
    if n < 10 {
        spec_digit_str(n)
    } else {
        spec_digits(n / 10) + spec_digit_str(n % 10)
    }
}

/// The decimal rendering of `n`: its digits, behind a minus sign when it is
/// negative.
pub open spec fn spec_int_str(n: int) -> Seq<char> {
    if n < 0 {
        "-"@ + spec_digits((0 - n) as nat)
    } else {
        spec_digits(n as nat)
    }
}

/// The little-endian digit list `ds` read back most significant first.
pub open spec fn spec_rev_digits(ds: Seq<u64>) -> Seq<char>
    decreases ds.len(),
{
    if ds.len() == 0 {
        Seq::empty()
    } else {
        spec_digit_str(ds.last() as nat) + spec_rev_digits(ds.drop_last())
    }
}

/// The rendering of a target-runtime id before its class letter: its
/// number, or `?` while not yet assigned.
pub open spec fn spec_id_str(id: Id) -> Seq<char> {
    match id {
        Id::Specific(n) => spec_int_str(n as int),
        Id::ArbitraryId(..) => "?"@,
    }
}

/// The first `i` names of a parameter list, joined with `", "`.
pub open spec fn spec_join_names(args: Seq<ArgData>, i: int) -> Seq<char>
    decreases i,
{
    if i <= 0 || i > args.len() {
        Seq::empty()
    } else if i == 1 {
        args[0].name@
    } else {
        spec_join_names(args, i - 1) + ", "@ + args[i - 1].name@
    }
}

/// The values behind the first `i` keys of `ks`, rendered and joined with
/// `", "`.
pub open spec fn spec_join(m: Seq<StoredValue>, ks: Seq<ValueKey>, k: int, i: int) -> Seq<char>
    decreases k, 0int, i,
{
    if i <= 0 || i > ks.len() {
        Seq::empty()
    } else {
        let e = if ks[i - 1].0 < k {
            spec_render(m, ks[i - 1].0 as int)
        } else {
            Seq::empty()
        };
        if i == 1 {
            e
        } else {
            spec_join(m, ks, k, i - 1) + ", "@ + e
        }
    }
}

/// The first `i` entries of a dict, rendered `name: value` and joined with
/// `", "`.
pub open spec fn spec_join_dict(
    m: Seq<StoredValue>,
    es: Seq<(String, ValueKey)>,
    k: int,
    i: int,
) -> Seq<char>
    decreases k, 0int, i,
{
    if i <= 0 || i > es.len() {
        Seq::empty()
    } else {
        let e = if es[i - 1].1.0 < k {
            spec_render(m, es[i - 1].1.0 as int)
        } else {
            Seq::empty()
        };
        let one = es[i - 1].0@ + ": "@ + e;
        if i == 1 {
            one
        } else {
            spec_join_dict(m, es, k, i - 1) + ", "@ + one
        }
    }
}

/// The rendering of the value behind slot `k` of `m`: what
/// [`runtime_display`] produces on float-free values. The arena is
/// well-founded, so the recursion descends along keys. On a float the
/// definition is arbitrary — its text belongs to the embedder.
pub open spec fn spec_render(m: Seq<StoredValue>, k: int) -> Seq<char>
    decreases k, 1int, 0int,
{
    if 0 <= k < m.len() && keys_bounded(m[k].value, k) {
        match m[k].value {
            Value::Int(n) => spec_int_str(n as int),
            Value::Float(..) => Seq::empty(),
            Value::Bool(b) => if b {
                "true"@
            } else {
                "false"@
            },
            Value::String(s) => s@,
            Value::Array(ks) => "["@ + spec_join(m, ks@, k, ks@.len() as int) + "]"@,
            Value::Dict(es) => "{"@ + spec_join_dict(m, es@, k, es@.len() as int) + "}"@,
            Value::Group(id) => spec_id_str(id) + "g"@,
            Value::Color(id) => spec_id_str(id) + "c"@,
            Value::Block(id) => spec_id_str(id) + "b"@,
            Value::Item(id) => spec_id_str(id) + "i"@,
            Value::Builtins => "$"@,
            Value::Range(a, b, st) => spec_int_str(a as int) + ".."@ + (if st != 1 {
                spec_int_str(st as i64 as int) + ".."@
            } else {
                Seq::empty()
            }) + spec_int_str(b as int),
            Value::Maybe(o) => match o {
                Some(kk) => if kk.0 < k {
                    "("@ + spec_render(m, kk.0 as int) + ")?"@
                } else {
                    Seq::empty()
                },
                None => "?"@,
            },
            Value::Empty => "()"@,
            Value::Macro(mc) => match mc {
                MacroCode::Normal { args, .. } => "("@ + spec_join_names(
                    args@,
                    args@.len() as int,
                ) + ") {...}"@,
                MacroCode::Builtin(b) => match b {
                    Builtin::Print => "<builtin: print>"@,
                    Builtin::Assert => "<builtin: assert>"@,
                    Builtin::AssertEq => "<builtin: assert_eq>"@,
                },
            },
            Value::TriggerFunction(..) => "!{...}"@,
            Value::TypeIndicator(t) => crate::value::spec_type_name(t),
            Value::Pattern(p) => match p {
                crate::value::Pattern::Any => "_"@,
                crate::value::Pattern::Type(t) => crate::value::spec_type_name(t),
            },
            Value::Object(t, ..) => match t {
                ObjectType::Object => "obj {...}"@,
                ObjectType::Trigger => "trigger {...}"@,
            },
            Value::Iterator(st) => match st {
                IterState::Arr(..) => "<array iterator>"@,
                IterState::DictIt(..) => "<dictionary iterator>"@,
                IterState::Rng(..) => "<range iterator>"@,
            },
        }
    } else {
        Seq::empty()
    }
}

/// The decimal rendering of a nonzero magnitude `m0`, digit loop shared by
/// the signed and unsigned entry points: collects the digits little-endian,
/// then writes them back most significant first after `head`.
fn digits_onto(head: String, m0: u64) -> (r: String)
    requires
        m0 > 0,
    ensures
        r@ == head@ + spec_digits(m0 as nat),
{
    let mut m: u64 = m0;
    let mut digits: Vec<u64> = Vec::new();
    proof {
        assert(spec_digits(m0 as nat) =~= spec_digits(m as nat) + spec_rev_digits(digits@));
    }
    while m > 0
        invariant
            forall|i: int| 0 <= i < digits@.len() ==> #[trigger] digits@[i] < 10,
            spec_digits(m0 as nat) == (if m > 0 {
                spec_digits(m as nat)
            } else {
                Seq::<char>::empty()
            }) + spec_rev_digits(digits@),
        decreases m,
    {
        let ghost dsold = digits@;
        let ghost mold = m;
        let d = m % 10;
        digits.push(d);
        m = m / 10;
        proof {
            assert(digits@.drop_last() =~= dsold);
            assert(spec_rev_digits(digits@) == spec_digit_str(d as nat) + spec_rev_digits(dsold));
            if mold >= 10 {
                assert(spec_digits(mold as nat) == spec_digits((mold / 10) as nat)
                    + spec_digit_str((mold % 10) as nat));
                assert((spec_digits((mold / 10) as nat) + spec_digit_str(d as nat))
                    + spec_rev_digits(dsold) =~= spec_digits((mold / 10) as nat) + (spec_digit_str(
                    d as nat,
                ) + spec_rev_digits(dsold)));
            } else {
                assert(spec_digits(mold as nat) == spec_digit_str(mold as nat));
                assert(Seq::<char>::empty() + (spec_digit_str(d as nat) + spec_rev_digits(dsold))
                    =~= spec_digits(mold as nat) + spec_rev_digits(dsold));
            }
        }
    }
    let mut s = head;
    let ghost sign = s@;
    let mut i = digits.len();
    proof {
        assert(digits@.take(i as int) =~= digits@);
        assert(s@ + spec_rev_digits(digits@.take(i as int)) =~= sign + spec_rev_digits(digits@));
    }
    while i > 0
        invariant
            i <= digits@.len(),
            forall|t: int| 0 <= t < digits@.len() ==> #[trigger] digits@[t] < 10,
            s@ + spec_rev_digits(digits@.take(i as int)) == sign + spec_rev_digits(digits@),
        decreases i,
    {
        let ghost sold = s@;
        i = i - 1;
        match digits[i] {
            0 => s.append("0"),
            1 => s.append("1"),
            2 => s.append("2"),
            3 => s.append("3"),
            4 => s.append("4"),
            5 => s.append("5"),
            6 => s.append("6"),
            7 => s.append("7"),
            8 => s.append("8"),
            _ => s.append("9"),
        }
        proof {
            let ds = digits@;
            assert(ds.take(i + 1).drop_last() =~= ds.take(i as int));
            assert(ds.take(i + 1).last() == ds[i as int]);
            assert(spec_rev_digits(ds.take(i + 1)) == spec_digit_str(ds[i as int] as nat)
                + spec_rev_digits(ds.take(i as int)));
            assert(s@ == sold + spec_digit_str(ds[i as int] as nat));
            assert(s@ + spec_rev_digits(ds.take(i as int)) =~= sold + (spec_digit_str(
                ds[i as int] as nat,
            ) + spec_rev_digits(ds.take(i as int))));
        }
    }
    proof {
        assert(digits@.take(0) =~= Seq::<u64>::empty());
        assert(s@ + spec_rev_digits(digits@.take(0)) =~= s@);
        assert(Seq::<char>::empty() + spec_rev_digits(digits@) =~= spec_rev_digits(digits@));
    }
    s
}

/// The decimal rendering of `n`.
pub fn int_to_string(n: i64) -> (r: String)
    ensures
        r@ == spec_int_str(n as int),
{
    if n == 0 {
        return "0".to_owned();
    }
    if n < 0 {
        let m: u64 = ((-(n + 1)) as u64) + 1;
        proof {
            assert(m as nat == (0 - n as int) as nat);
        }
        digits_onto("-".to_owned(), m)
    } else {
        digits_onto(String::new(), n as u64)
    }
}

/// The decimal rendering of `n`.
pub fn usize_to_string(n: usize) -> (r: String)
    ensures
        r@ == spec_int_str(n as int),
{
    if n == 0 {
        return "0".to_owned();
    }
    digits_onto(String::new(), n as u64)
}

/// The rendering of a target-runtime id: its number (or `?` while not yet
/// assigned) followed by the class letter.
pub fn id_display(id: Id, class: &str) -> (r: String)
    ensures
        r@ == spec_id_str(id) + class@,
{
    let mut s = match id {
        Id::Specific(n) => int_to_string(n as i64),
        Id::ArbitraryId(_) => "?".to_owned(),
    };
    s.append(class);
    s
}

/// The rendering of the value behind `k`: exactly [`spec_render`] wherever
/// no float is reachable from `k`; the embedder renders the floats.
pub fn runtime_display<F: FloatMath>(mem: &Arena, k: ValueKey, fm: &F) -> (r: String)
    requires
        mem.wf(),
        mem.has_key(k),
    ensures
        crate::ops::float_free(mem@, k.0 as int) ==> r@ == spec_render(mem@, k.0 as int),
    decreases k.0,
{
    proof {
        assert(keys_bounded(mem@[k.0 as int].value, k.0 as int));
    }
    let sv = mem.get(k);
    match &sv.value {
        Value::Int(n) => int_to_string(*n),
        Value::Float(f) => fm.display(*f),
        Value::Bool(b) => if *b {
            "true".to_owned()
        } else {
            "false".to_owned()
        },
        Value::String(st) => st.clone(),
        Value::Array(ks) => {
            let mut s = "[".to_owned();
            let n = ks.len();
            for i in 0..n
                invariant
                    mem.wf(),
                    k.0 < mem@.len(),
                    mem@[k.0 as int].value matches Value::Array(ks2) && ks2@ == ks@,
                    n == ks@.len(),
                    forall|t: int| 0 <= t < ks@.len() ==> (#[trigger] ks@[t]).0 < k.0,
                    crate::ops::float_free(mem@, k.0 as int) ==> s@ == "["@ + spec_join(
                        mem@,
                        ks@,
                        k.0 as int,
                        i as int,
                    ),
            {
                if i > 0 {
                    s.append(", ");
                }
                let e = runtime_display(mem, ks[i], fm);
                s.append(e.as_str());
                proof {
                    if crate::ops::float_free(mem@, k.0 as int) {
                        assert(crate::ops::float_free(mem@, ks@[i as int].0 as int));
                        assert(e@ == spec_render(mem@, ks@[i as int].0 as int));
                        if i == 0 {
                            assert(s@ =~= "["@ + spec_join(mem@, ks@, k.0 as int, i + 1));
                        } else {
                            assert(spec_join(mem@, ks@, k.0 as int, i + 1) == spec_join(
                                mem@,
                                ks@,
                                k.0 as int,
                                i as int,
                            ) + ", "@ + e@);
                            assert(s@ =~= "["@ + spec_join(mem@, ks@, k.0 as int, i + 1));
                        }
                    }
                }
            }
            s.append("]");
            proof {
                if crate::ops::float_free(mem@, k.0 as int) {
                    assert(s@ =~= spec_render(mem@, k.0 as int));
                }
            }
            s
        },
        Value::Dict(es) => {
            let mut s = "{".to_owned();
            let n = es.len();
            for i in 0..n
                invariant
                    mem.wf(),
                    k.0 < mem@.len(),
                    mem@[k.0 as int].value matches Value::Dict(es2) && es2@ == es@,
                    n == es@.len(),
                    forall|t: int| 0 <= t < es@.len() ==> (#[trigger] es@[t]).1.0 < k.0,
                    crate::ops::float_free(mem@, k.0 as int) ==> s@ == "{"@ + spec_join_dict(
                        mem@,
                        es@,
                        k.0 as int,
                        i as int,
                    ),
            {
                if i > 0 {
                    s.append(", ");
                }
                s.append(es[i].0.as_str());
                s.append(": ");
                let e = runtime_display(mem, es[i].1, fm);
                s.append(e.as_str());
                proof {
                    if crate::ops::float_free(mem@, k.0 as int) {
                        assert(crate::ops::float_free(mem@, es@[i as int].1.0 as int));
                        assert(e@ == spec_render(mem@, es@[i as int].1.0 as int));
                        if i == 0 {
                            assert(s@ =~= "{"@ + spec_join_dict(mem@, es@, k.0 as int, i + 1));
                        } else {
                            assert(spec_join_dict(mem@, es@, k.0 as int, i + 1) == spec_join_dict(
                                mem@,
                                es@,
                                k.0 as int,
                                i as int,
                            ) + ", "@ + (es@[i as int].0@ + ": "@ + e@));
                            assert(s@ =~= "{"@ + spec_join_dict(mem@, es@, k.0 as int, i + 1));
                        }
                    }
                }
            }
            s.append("}");
            proof {
                if crate::ops::float_free(mem@, k.0 as int) {
                    assert(s@ =~= spec_render(mem@, k.0 as int));
                }
            }
            s
        },
        Value::Group(id) => id_display(*id, "g"),
        Value::Color(id) => id_display(*id, "c"),
        Value::Block(id) => id_display(*id, "b"),
        Value::Item(id) => id_display(*id, "i"),
        Value::Builtins => "$".to_owned(),
        Value::Range(a, b, st) => {
            let mut s = int_to_string(*a);
            s.append("..");
            if *st != 1 {
                s.append(int_to_string(*st as i64).as_str());
                s.append("..");
            }
            s.append(int_to_string(*b).as_str());
            proof {
                assert(s@ =~= spec_render(mem@, k.0 as int));
            }
            s
        },
        Value::Maybe(o) => match o {
            Some(kk) => {
                let mut s = "(".to_owned();
                let e = runtime_display(mem, *kk, fm);
                s.append(e.as_str());
                s.append(")?");
                proof {
                    assert(kk.0 < k.0);
                    if crate::ops::float_free(mem@, k.0 as int) {
                        assert(crate::ops::float_free(mem@, kk.0 as int));
                        assert(e@ == spec_render(mem@, kk.0 as int));
                        assert(spec_render(mem@, k.0 as int) == "("@ + spec_render(
                            mem@,
                            kk.0 as int,
                        ) + ")?"@);
                        assert(s@ =~= spec_render(mem@, k.0 as int));
                    }
                }
                s
            },
            None => "?".to_owned(),
        },
        Value::Empty => "()".to_owned(),
        Value::Macro(MacroCode::Normal { args, .. }) => {
            let mut s = "(".to_owned();
            let n = args.len();
            for i in 0..n
                invariant
                    n == args@.len(),
                    s@ == "("@ + spec_join_names(args@, i as int),
            {
                if i > 0 {
                    s.append(", ");
                }
                s.append(args[i].name.as_str());
                proof {
                    assert(s@ =~= "("@ + spec_join_names(args@, i + 1));
                }
            }
            s.append(") {...}");
            proof {
                assert(mem@[k.0 as int].value matches Value::Macro(MacroCode::Normal {
                    args: a2,
                    ..
                }) && a2@ == args@);
                assert(s@ =~= spec_render(mem@, k.0 as int));
            }
            s
        },
        Value::Macro(MacroCode::Builtin(b)) => match b {
            Builtin::Print => "<builtin: print>".to_owned(),
            Builtin::Assert => "<builtin: assert>".to_owned(),
            Builtin::AssertEq => "<builtin: assert_eq>".to_owned(),
        },
        Value::TriggerFunction(_) => "!{...}".to_owned(),
        Value::TypeIndicator(t) => t.to_str().to_owned(),
        Value::Pattern(p) => p.to_str().to_owned(),
        Value::Object(t, _) => match t {
            ObjectType::Object => "obj {...}".to_owned(),
            ObjectType::Trigger => "trigger {...}".to_owned(),
        },
        Value::Iterator(st) => match st {
            IterState::Arr(..) => "<array iterator>".to_owned(),
            IterState::DictIt(..) => "<dictionary iterator>".to_owned(),
            IterState::Rng(..) => "<range iterator>".to_owned(),
        },
    }
}

} // verus!
