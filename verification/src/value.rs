//! The tagged runtime value union, its type tags, and the patterns values can
//! be matched against. Containers never hold values directly: they hold
//! arena keys, so aliasing stays representable.

use vstd::prelude::*;

use crate::ids::{Id, IDClass};
use crate::sources::CodeArea;

verus! {

/// An opaque, stable handle into the value arena. Slot `n` of the arena is
/// reached through `ValueKey(n)`; the arena is append-only, so a key never
/// dangles once issued.
#[derive(Debug, Clone, Copy, PartialEq, Eq, Structural)]
pub struct ValueKey(pub usize);

/// The bit pattern of a 64-bit IEEE 754 number. The verified core never
/// computes with these bits: every float operation is delegated to the
/// embedder through [`FloatMath`], and the core only routes the results.
#[derive(Debug, Clone, Copy, PartialEq, Eq, Structural)]
pub struct FloatBits(pub u64);

/// Floating-point arithmetic supplied by the embedder. The core treats the
/// results as opaque: no contract constrains them, so everything proved about
/// the machine holds for any implementation.
pub trait FloatMath {
    /// The float with the same numeric value as `n`.
    fn of_int(&self, n: i64) -> FloatBits;

    /// `a + b`.
    fn add(&self, a: FloatBits, b: FloatBits) -> FloatBits;

    /// `a - b`.
    fn sub(&self, a: FloatBits, b: FloatBits) -> FloatBits;

    /// `a * b`.
    fn mul(&self, a: FloatBits, b: FloatBits) -> FloatBits;

    /// `a / b`.
    fn div(&self, a: FloatBits, b: FloatBits) -> FloatBits;

    /// `a % b` (remainder).
    fn rem(&self, a: FloatBits, b: FloatBits) -> FloatBits;

    /// `a` raised to the power `b`.
    fn pow(&self, a: FloatBits, b: FloatBits) -> FloatBits;

    /// `-a`.
    fn neg(&self, a: FloatBits) -> FloatBits;

    /// `floor(a ^ b)` truncated to an integer, for the integer power
    /// operator.
    fn ipow(&self, a: i64, b: i64) -> i64;

    /// Numeric equality of two floats.
    fn eq(&self, a: FloatBits, b: FloatBits) -> bool;

    /// Numeric equality of an integer and a float.
    fn eq_int(&self, n: i64, f: FloatBits) -> bool;

    /// `a < b`.
    fn lt(&self, a: FloatBits, b: FloatBits) -> bool;

    /// `a <= b`.
    fn le(&self, a: FloatBits, b: FloatBits) -> bool;

    /// `a > b`.
    fn gt(&self, a: FloatBits, b: FloatBits) -> bool;

    /// `a >= b`.
    fn ge(&self, a: FloatBits, b: FloatBits) -> bool;

    /// The decimal rendering of `a`, for diagnostics.
    fn display(&self, a: FloatBits) -> String;
}

/// One parameter of a user-defined macro: its name, an optional default
/// value and an optional pattern, both as arena keys.
#[derive(Debug, Clone, PartialEq, Eq)]
pub struct ArgData {
    pub name: String,
    pub default: Option<ValueKey>,
    pub pattern: Option<ValueKey>,
}

/// The identity of one native (non-bytecode) function. Builtins run directly
/// against the arena, without pushing a bytecode frame.
#[derive(Debug, Clone, Copy, PartialEq, Eq, Structural)]
pub enum Builtin {
    /// Renders one value and appends it to the machine's output log.
    Print,
    /// Fails the run with `AssertionFailed` unless its argument is `true`.
    Assert,
    /// Fails the run with `EqAssertionFailed` unless its two arguments are
    /// structurally equal.
    AssertEq,
}

/// The coordinate of one bytecode function: which compiled program it lives
/// in, and its index in that program's function table.
#[derive(Debug, Clone, Copy, PartialEq, Eq, Structural)]
pub struct FuncCoord {
    pub program: usize,
    pub func: usize,
}

/// The body of a macro value: either a bytecode closure or a builtin tag.
#[derive(Debug, Clone, PartialEq, Eq)]
pub enum MacroCode {
    Normal { func: FuncCoord, args: Vec<ArgData>, captured: Vec<ValueKey> },
    Builtin(Builtin),
}

/// The state of a running iterator, produced by `ToIter` and advanced by
/// `IterNext`. Iterator values are immutable like every arena value: each
/// step allocates the advanced state anew.
#[derive(Debug, Clone, PartialEq, Eq)]
pub enum IterState {
    /// Remaining elements of an array, by position.
    Arr(Vec<ValueKey>, usize),
    /// Remaining entries of a dict, by position; each step yields the key
    /// string.
    DictIt(Vec<(String, ValueKey)>, usize),
    /// A counting iterator: current position, exclusive end, step.
    Rng(i64, i64, usize),
}

/// The runtime value union. Containers hold [`ValueKey`]s, never values.
#[derive(Debug, Clone, PartialEq, Eq)]
pub enum Value {
    Int(i64),
    Float(FloatBits),
    Bool(bool),
    String(String),
    /// Ordered sequence of keys.
    Array(Vec<ValueKey>),
    /// Name-to-key mapping; the names are unique.
    Dict(Vec<(String, ValueKey)>),
    Group(Id),
    Color(Id),
    Block(Id),
    Item(Id),
    /// The singleton value exposing the builtin table.
    Builtins,
    /// `start`, exclusive `end`, `step`.
    Range(i64, i64, usize),
    Maybe(Option<ValueKey>),
    Empty,
    Macro(MacroCode),
    /// A deferred block: calling it fires the group it was bound to.
    TriggerFunction(Id),
    TypeIndicator(ValueType),
    Pattern(Pattern),
    /// A not-yet-emitted target object: its kind and its key/value fields.
    Object(ObjectType, Vec<(ObjKeyType, ValueKey)>),
    /// A running iterator.
    Iterator(IterState),
}

/// Whether an assembled object is a free-standing object or a trigger.
#[derive(Debug, Clone, Copy, PartialEq, Eq, Structural)]
pub enum ObjectType {
    Object,
    Trigger,
}

/// One field key of a target object: a name from the compile-time object-key
/// table, or a raw numeric key.
#[derive(Debug, Clone, Copy, PartialEq, Eq, Structural)]
pub enum ObjKeyType {
    /// Index into the external object-key name table.
    Name(u16),
    /// A raw numeric object key.
    Num(u8),
}

/// The type tag of a value.
#[derive(Debug, Clone, Copy, PartialEq, Eq, Structural)]
pub enum ValueType {
    Int,
    Float,
    Bool,
    String,
    Array,
    Dict,
    Group,
    Color,
    Block,
    Item,
    Builtins,
    Range,
    Maybe,
    Empty,
    Macro,
    TriggerFunction,
    TypeIndicator,
    Pattern,
    Object,
    Iterator,
}

impl ValueType {
    /// The source-syntax name of the type, `@`-prefixed.
    pub fn to_str(&self) -> (r: &'static str)
        ensures
            r@ == spec_type_name(*self),
    {
        proof {
            reveal_type_names();
        }
        match self {
            ValueType::Int => "@int",
            ValueType::Float => "@float",
            ValueType::Bool => "@bool",
            ValueType::String => "@string",
            ValueType::Array => "@array",
            ValueType::Dict => "@dictionary",
            ValueType::Group => "@group",
            ValueType::Color => "@color",
            ValueType::Block => "@block",
            ValueType::Item => "@item",
            ValueType::Builtins => "@builtins",
            ValueType::Range => "@range",
            ValueType::Maybe => "@maybe",
            ValueType::Empty => "@empty",
            ValueType::Macro => "@macro",
            ValueType::TriggerFunction => "@trigger_function",
            ValueType::TypeIndicator => "@type_indicator",
            ValueType::Pattern => "@pattern",
            ValueType::Object => "@object",
            ValueType::Iterator => "@iterator",
        }
    }
}

/// The characters of the `@`-name of `t`.
pub open spec fn spec_type_name(t: ValueType) -> Seq<char> {
    match t {
        ValueType::Int => "@int"@,
        ValueType::Float => "@float"@,
        ValueType::Bool => "@bool"@,
        ValueType::String => "@string"@,
        ValueType::Array => "@array"@,
        ValueType::Dict => "@dictionary"@,
        ValueType::Group => "@group"@,
        ValueType::Color => "@color"@,
        ValueType::Block => "@block"@,
        ValueType::Item => "@item"@,
        ValueType::Builtins => "@builtins"@,
        ValueType::Range => "@range"@,
        ValueType::Maybe => "@maybe"@,
        ValueType::Empty => "@empty"@,
        ValueType::Macro => "@macro"@,
        ValueType::TriggerFunction => "@trigger_function"@,
        ValueType::TypeIndicator => "@type_indicator"@,
        ValueType::Pattern => "@pattern"@,
        ValueType::Object => "@object"@,
        ValueType::Iterator => "@iterator"@,
    }
}

/// Reveals every type-name literal, so `spec_type_name` can be related to
/// revealed strings in proofs.
pub proof fn reveal_type_names()
{
    reveal_strlit("@int");
    reveal_strlit("@float");
    reveal_strlit("@bool");
    reveal_strlit("@string");
    reveal_strlit("@array");
    reveal_strlit("@dictionary");
    reveal_strlit("@group");
    reveal_strlit("@color");
    reveal_strlit("@block");
    reveal_strlit("@item");
    reveal_strlit("@builtins");
    reveal_strlit("@range");
    reveal_strlit("@maybe");
    reveal_strlit("@empty");
    reveal_strlit("@macro");
    reveal_strlit("@trigger_function");
    reveal_strlit("@type_indicator");
    reveal_strlit("@pattern");
    reveal_strlit("@object");
    reveal_strlit("@iterator");
}

/// A pattern a value can be tested against with the `is` operator: anything,
/// or exactly one type.
#[derive(Debug, Clone, Copy, PartialEq, Eq, Structural)]
pub enum Pattern {
    Any,
    Type(ValueType),
}

impl Pattern {
    /// The source-syntax rendering of the pattern.
    pub fn to_str(&self) -> (r: &'static str)
        ensures
            *self matches Pattern::Any ==> r@ == "_"@,
            *self matches Pattern::Type(t) ==> r@ == spec_type_name(t),
    {
        match self {
            Pattern::Any => "_",
            Pattern::Type(t) => t.to_str(),
        }
    }
}

/// A dict's entry names are pairwise distinct. Dict construction
/// deduplicates (a later entry for the same name overwrites the earlier
/// one), so this holds of every dict the machine ever stores, and it is
/// what lets dict equality read entry sets as key sets.
pub open spec fn dict_names_unique(v: Value) -> bool {
    v matches Value::Dict(es) ==> forall|i: int, j: int|
        0 <= i < j < es@.len() ==> (#[trigger] es@[i]).0@ != (#[trigger] es@[j]).0@
}

/// The type tag of `v`.
pub open spec fn spec_get_type(v: Value) -> ValueType {
    match v {
        Value::Int(..) => ValueType::Int,
        Value::Float(..) => ValueType::Float,
        Value::Bool(..) => ValueType::Bool,
        Value::String(..) => ValueType::String,
        Value::Array(..) => ValueType::Array,
        Value::Dict(..) => ValueType::Dict,
        Value::Group(..) => ValueType::Group,
        Value::Color(..) => ValueType::Color,
        Value::Block(..) => ValueType::Block,
        Value::Item(..) => ValueType::Item,
        Value::Builtins => ValueType::Builtins,
        Value::Range(..) => ValueType::Range,
        Value::Maybe(..) => ValueType::Maybe,
        Value::Empty => ValueType::Empty,
        Value::Macro(..) => ValueType::Macro,
        Value::TriggerFunction(..) => ValueType::TriggerFunction,
        Value::TypeIndicator(..) => ValueType::TypeIndicator,
        Value::Pattern(..) => ValueType::Pattern,
        Value::Object(..) => ValueType::Object,
        Value::Iterator(..) => ValueType::Iterator,
    }
}

/// Whether `v` matches `pat`: everything matches `Any`, and a type pattern
/// matches exactly the values of that type.
pub open spec fn spec_matches_pat(v: Value, pat: Pattern) -> bool {
    match pat {
        Pattern::Any => true,
        Pattern::Type(t) => spec_get_type(v) == t,
    }
}

impl Value {
    /// The type tag of this value.
    pub fn get_type(&self) -> (r: ValueType)
        ensures
            r == spec_get_type(*self),
    {
        match self {
            Value::Int(..) => ValueType::Int,
            Value::Float(..) => ValueType::Float,
            Value::Bool(..) => ValueType::Bool,
            Value::String(..) => ValueType::String,
            Value::Array(..) => ValueType::Array,
            Value::Dict(..) => ValueType::Dict,
            Value::Group(..) => ValueType::Group,
            Value::Color(..) => ValueType::Color,
            Value::Block(..) => ValueType::Block,
            Value::Item(..) => ValueType::Item,
            Value::Builtins => ValueType::Builtins,
            Value::Range(..) => ValueType::Range,
            Value::Maybe(..) => ValueType::Maybe,
            Value::Empty => ValueType::Empty,
            Value::Macro(..) => ValueType::Macro,
            Value::TriggerFunction(..) => ValueType::TriggerFunction,
            Value::TypeIndicator(..) => ValueType::TypeIndicator,
            Value::Pattern(..) => ValueType::Pattern,
            Value::Object(..) => ValueType::Object,
            Value::Iterator(..) => ValueType::Iterator,
        }
    }

    /// This value paired with the area it was produced at.
    pub fn into_stored(self, area: CodeArea) -> (r: StoredValue)
        ensures
            r.value == self,
            r.area == area,
    {
        StoredValue { value: self, area }
    }

    /// Whether `self` matches `pat`.
    pub fn matches_pat(&self, pat: &Pattern) -> (r: bool)
        ensures
            r == spec_matches_pat(*self, *pat),
    {
        match pat {
            Pattern::Any => true,
            Pattern::Type(t) => self.get_type() == *t,
        }
    }
}

/// A value together with the source area where it was produced; the area is
/// used for diagnostics only.
#[derive(Debug, Clone, PartialEq, Eq)]
pub struct StoredValue {
    pub value: Value,
    pub area: CodeArea,
}

/// `b` is the same iterator state as `a`, comparing the held containers by
/// content.
pub open spec fn iter_like(a: IterState, b: IterState) -> bool {
    match a {
        IterState::Arr(ks, pos) => {
            &&& b matches IterState::Arr(ks2, pos2)
            &&& pos2 == pos
            &&& ks2@ == ks@
        },
        IterState::DictIt(es, pos) => {
            &&& b matches IterState::DictIt(es2, pos2)
            &&& pos2 == pos
            &&& es2@ == es@
        },
        IterState::Rng(..) => b == a,
    }
}

/// `b` is the same value as `a`, comparing the held containers by content.
/// Two values related this way are indistinguishable to the machine; the
/// relation is needed because a rebuilt container is not the same `Vec` in
/// the logic even when it holds the same elements.
pub open spec fn value_like(a: Value, b: Value) -> bool {
    match a {
        Value::Array(ks) => b matches Value::Array(ks2) && ks2@ == ks@,
        Value::Dict(es) => b matches Value::Dict(es2) && es2@ == es@,
        Value::Macro(mc) => match mc {
            MacroCode::Normal { func, args, captured } => {
                &&& b matches Value::Macro(MacroCode::Normal {
                    func: func2,
                    args: args2,
                    captured: captured2,
                })
                &&& func2 == func
                &&& args2@ == args@
                &&& captured2@ == captured@
            },
            MacroCode::Builtin(..) => b == a,
        },
        Value::Object(t, ps) => b matches Value::Object(t2, ps2) && t2 == t && ps2@ == ps@,
        Value::Iterator(st) => b matches Value::Iterator(st2) && iter_like(st, st2),
        _ => b == a,
    }
}

/// `b` is the same stored value as `a`, containers compared by content.
pub open spec fn stored_like(a: StoredValue, b: StoredValue) -> bool {
    &&& value_like(a.value, b.value)
    &&& b.area == a.area
}

impl StoredValue {
    /// A copy of this stored value.
    pub fn dup(&self) -> (r: StoredValue)
        ensures
            stored_like(*self, r),
    {
        StoredValue { value: self.value.dup(), area: self.area.dup() }
    }
}

/// A copy of a key list.
pub fn dup_keys(v: &Vec<ValueKey>) -> (r: Vec<ValueKey>)
    ensures
        r@ == v@,
{
    let mut r: Vec<ValueKey> = Vec::new();
    for i in 0..v.len()
        invariant
            r@ == v@.subrange(0, i as int),
    {
        r.push(v[i]);
    }
    proof {
        assert(r@ =~= v@);
    }
    r
}

/// A copy of a dict entry list.
pub fn dup_entries(v: &Vec<(String, ValueKey)>) -> (r: Vec<(String, ValueKey)>)
    ensures
        r@ == v@,
{
    let mut r: Vec<(String, ValueKey)> = Vec::new();
    for i in 0..v.len()
        invariant
            r@ == v@.subrange(0, i as int),
    {
        r.push((v[i].0.clone(), v[i].1));
    }
    proof {
        assert(r@ =~= v@);
    }
    r
}

/// A copy of a macro parameter list.
pub fn dup_args(v: &Vec<ArgData>) -> (r: Vec<ArgData>)
    ensures
        r@ == v@,
{
    let mut r: Vec<ArgData> = Vec::new();
    for i in 0..v.len()
        invariant
            r@ == v@.subrange(0, i as int),
    {
        r.push(ArgData { name: v[i].name.clone(), default: v[i].default, pattern: v[i].pattern });
    }
    proof {
        assert(r@ =~= v@);
    }
    r
}

/// A copy of an object parameter list.
pub fn dup_obj_params(v: &Vec<(ObjKeyType, ValueKey)>) -> (r: Vec<(ObjKeyType, ValueKey)>)
    ensures
        r@ == v@,
{
    let mut r: Vec<(ObjKeyType, ValueKey)> = Vec::new();
    for i in 0..v.len()
        invariant
            r@ == v@.subrange(0, i as int),
    {
        r.push(v[i]);
    }
    proof {
        assert(r@ =~= v@);
    }
    r
}

impl IterState {
    /// A copy of this iterator state.
    pub fn dup(&self) -> (r: IterState)
        ensures
            iter_like(*self, r),
    {
        match self {
            IterState::Arr(ks, pos) => IterState::Arr(dup_keys(ks), *pos),
            IterState::DictIt(es, pos) => IterState::DictIt(dup_entries(es), *pos),
            IterState::Rng(a, b, s) => IterState::Rng(*a, *b, *s),
        }
    }
}

impl Value {
    /// A copy of this value. Copies share the keys of the original: the
    /// values behind the keys are not duplicated.
    pub fn dup(&self) -> (r: Value)
        ensures
            value_like(*self, r),
    {
        match self {
            Value::Int(n) => Value::Int(*n),
            Value::Float(f) => Value::Float(*f),
            Value::Bool(b) => Value::Bool(*b),
            Value::String(s) => Value::String(s.clone()),
            Value::Array(ks) => Value::Array(dup_keys(ks)),
            Value::Dict(es) => Value::Dict(dup_entries(es)),
            Value::Group(id) => Value::Group(*id),
            Value::Color(id) => Value::Color(*id),
            Value::Block(id) => Value::Block(*id),
            Value::Item(id) => Value::Item(*id),
            Value::Builtins => Value::Builtins,
            Value::Range(a, b, s) => Value::Range(*a, *b, *s),
            Value::Maybe(o) => Value::Maybe(*o),
            Value::Empty => Value::Empty,
            Value::Macro(MacroCode::Normal { func, args, captured }) => Value::Macro(
                MacroCode::Normal {
                    func: *func,
                    args: dup_args(args),
                    captured: dup_keys(captured),
                },
            ),
            Value::Macro(MacroCode::Builtin(b)) => Value::Macro(MacroCode::Builtin(*b)),
            Value::TriggerFunction(id) => Value::TriggerFunction(*id),
            Value::TypeIndicator(t) => Value::TypeIndicator(*t),
            Value::Pattern(p) => Value::Pattern(*p),
            Value::Object(t, ps) => Value::Object(*t, dup_obj_params(ps)),
            Value::Iterator(st) => Value::Iterator(st.dup()),
        }
    }
}

} // verus!
