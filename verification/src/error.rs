//! The closed taxonomy of runtime failures. Every error carries the source
//! areas its diagnostic labels point at, and the call stack that was active
//! when it was raised, so a renderer needs nothing from the machine state.

use vstd::prelude::*;

use crate::bytecode::{BinOp, UnaryOp};
use crate::context::CallStackItem;
use crate::sources::CodeArea;
use crate::value::{Pattern, ValueType};

verus! {

/// What failed, with the data its diagnostic labels need. Type/area pairs
/// describe an offending value: its type tag and where it was produced.
#[derive(Debug, PartialEq)]
pub enum ErrorKind {
    /// An operator was applied to an unsupported type combination.
    InvalidOperands { a: (ValueType, CodeArea), b: (ValueType, CodeArea), op: BinOp, area: CodeArea },
    /// A unary operator was applied to an unsupported type.
    InvalidUnaryOperand { v: (ValueType, CodeArea), op: UnaryOp, area: CodeArea },
    /// A value was used where a specific type was required.
    TypeMismatch { v: (ValueType, CodeArea), area: CodeArea, expected: ValueType },
    /// An explicit conversion between incompatible types.
    CannotConvertType { v: (ValueType, CodeArea), to: ValueType, area: CodeArea },
    /// Iteration was requested over a non-iterable value.
    CannotIterate { v: (ValueType, CodeArea), area: CodeArea },
    /// An instance of a type that forbids user instancing.
    CannotInstanceBuiltinType { area: CodeArea, typ: ValueType },
    /// A value supplied for a target-object field failed that field's domain
    /// validation.
    InvalidObjectValue { v: (String, CodeArea), area: CodeArea },
    /// More positional arguments than the macro has parameters.
    TooManyArguments {
        call_area: CodeArea,
        macro_def_area: CodeArea,
        macro_arg_amount: usize,
        call_arg_amount: usize,
    },
    /// A keyword argument that names no parameter.
    InvalidKeywordArgument { call_area: CodeArea, macro_def_area: CodeArea, arg_name: String },
    /// A parameter with neither an argument nor a default.
    ArgumentNotSatisfied { call_area: CodeArea, macro_def_area: CodeArea, arg_name: String },
    /// An argument that fails its parameter's pattern.
    ArgumentPatternMismatch {
        call_area: CodeArea,
        macro_def_area: CodeArea,
        arg_name: String,
        pattern: Pattern,
        v: (ValueType, CodeArea),
    },
    /// Member resolution failed on a value.
    NonexistentMember { area: CodeArea, member: String, base_type: ValueType },
    /// A private member was accessed from outside.
    PrivateMemberAccess { area: CodeArea, member: String },
    /// Associated-member resolution failed on a type.
    NonexistentAssociatedMember { area: CodeArea, member: String, base_type: ValueType },
    /// An associated function without a `self` argument was called as a
    /// method.
    AssociatedNotAMethod {
        area: CodeArea,
        def_area: CodeArea,
        func_name: String,
        base_type: ValueType,
    },
    /// A member implemented on a type is not a method.
    NotAMethod {
        area: CodeArea,
        def_area: CodeArea,
        member_name: String,
        member_type: ValueType,
        base_type: ValueType,
    },
    /// A type that does not exist in this module.
    NonexistentTypeMember { area: CodeArea, name: String },
    /// A private type was accessed from outside.
    PrivateType { area: CodeArea, name: String },
    /// A base/index type combination that cannot be indexed.
    InvalidIndex { base: (ValueType, CodeArea), index: (ValueType, CodeArea), area: CodeArea },
    /// An index outside the container's bounds.
    IndexOutOfBounds { len: usize, index: i64, area: CodeArea, typ: ValueType },
    /// A failed runtime assertion.
    AssertionFailed { area: CodeArea },
    /// A failed runtime equality assertion, with both sides rendered.
    EqAssertionFailed { area: CodeArea, left: String, right: String },
    /// An object emission from a context where it is structurally disallowed.
    AddObjectInTriggerContext { area: CodeArea },
    /// A user-raised error with a message; also used for machine-integrity
    /// conditions that the closed taxonomy has no kind of its own for.
    ThrownError { area: CodeArea, message: String },
}

/// A runtime failure: its kind and the call stack active when it was raised.
/// Failures are fail-fast and non-recoverable within the raising context.
#[derive(Debug, PartialEq)]
pub struct RuntimeError {
    pub kind: ErrorKind,
    pub call_stack: Vec<CallStackItem>,
}

impl RuntimeError {
    /// Wraps an error kind with the call stack it was raised under.
    pub fn with_stack(kind: ErrorKind, call_stack: Vec<CallStackItem>) -> (r: RuntimeError)
        ensures
            r.kind == kind,
            r.call_stack == call_stack,
    {
        RuntimeError { kind, call_stack }
    }

    /// The headline message of the error.
    pub fn message(&self) -> (r: &'static str)
        ensures
            r@ == spec_message(self.kind),
    {
        self.kind.message()
    }

    /// The diagnostic labels of the error, for a renderer.
    pub fn labels(&self) -> (r: Vec<(CodeArea, String)>)
        ensures
            r@.len() == spec_label_count(self.kind),
            forall|i: int|
                0 <= i < r@.len() ==> (#[trigger] r@[i]).0 == spec_label_areas(self.kind)[i],
            self.kind matches ErrorKind::ThrownError { message, .. } ==> r@[0].1@ == message@,
    {
        self.kind.labels()
    }
}

impl ErrorKind {
    /// The headline message of the error kind.
    pub fn message(&self) -> (r: &'static str)
        ensures
            r@ == spec_message(*self),
    {
        proof {
            reveal_messages();
        }
        match self {
            ErrorKind::InvalidOperands { .. } => "Invalid operands",
            ErrorKind::InvalidUnaryOperand { .. } => "Invalid unary operand",
            ErrorKind::TypeMismatch { .. } => "Type mismatch",
            ErrorKind::CannotConvertType { .. } => "Cannot convert between types",
            ErrorKind::CannotIterate { .. } => "Cannot iterate",
            ErrorKind::CannotInstanceBuiltinType { .. } => "Cannot instance builtin type",
            ErrorKind::InvalidObjectValue { .. } => "Invalid object value",
            ErrorKind::TooManyArguments { .. } => "Too many arguments",
            ErrorKind::InvalidKeywordArgument { .. } => "Invalid keyword argument",
            ErrorKind::ArgumentNotSatisfied { .. } => "Argument not satisfied",
            ErrorKind::ArgumentPatternMismatch { .. } => "Argument pattern mismatch",
            ErrorKind::NonexistentMember { .. } => "Nonexistent member",
            ErrorKind::PrivateMemberAccess { .. } => "Tried to access private member",
            ErrorKind::NonexistentAssociatedMember { .. } => "Nonexistent associated member",
            ErrorKind::AssociatedNotAMethod { .. } => "Associated function is not method",
            ErrorKind::NotAMethod { .. } => "Associated member is not method",
            ErrorKind::NonexistentTypeMember { .. } => "Nonexistent type member",
            ErrorKind::PrivateType { .. } => "Tried to access private type",
            ErrorKind::InvalidIndex { .. } => "Invalid index",
            ErrorKind::IndexOutOfBounds { .. } => "Index out of bounds",
            ErrorKind::AssertionFailed { .. } => "Assertion failed",
            ErrorKind::EqAssertionFailed { .. } => "Equality assertion failed",
            ErrorKind::AddObjectInTriggerContext { .. } => "Added object in runtime context",
            ErrorKind::ThrownError { .. } => "Runtime Error",
        }
    }
}

/// The source areas of each error kind's diagnostic labels, in display
/// order: which field of the kind each label points at.
pub open spec fn spec_label_areas(k: ErrorKind) -> Seq<CodeArea> {
    match k {
        ErrorKind::InvalidOperands { a, b, area, .. } => seq![area, a.1, b.1],
        ErrorKind::InvalidUnaryOperand { v, area, .. } => seq![area, v.1],
        ErrorKind::TypeMismatch { v, area, .. } => seq![area, v.1],
        ErrorKind::CannotConvertType { v, area, .. } => seq![area, v.1],
        ErrorKind::CannotIterate { v, area } => seq![area, v.1],
        ErrorKind::CannotInstanceBuiltinType { area, .. } => seq![area],
        ErrorKind::InvalidObjectValue { v, area } => seq![v.1, area],
        ErrorKind::TooManyArguments { call_area, macro_def_area, .. } => seq![
            call_area,
            macro_def_area,
        ],
        ErrorKind::InvalidKeywordArgument { call_area, macro_def_area, .. } => seq![
            call_area,
            macro_def_area,
        ],
        ErrorKind::ArgumentNotSatisfied { call_area, macro_def_area, .. } => seq![
            call_area,
            macro_def_area,
        ],
        ErrorKind::ArgumentPatternMismatch { call_area, macro_def_area, v, .. } => seq![
            call_area,
            macro_def_area,
            v.1,
        ],
        ErrorKind::NonexistentMember { area, .. } => seq![area],
        ErrorKind::PrivateMemberAccess { area, .. } => seq![area],
        ErrorKind::NonexistentAssociatedMember { area, .. } => seq![area],
        ErrorKind::AssociatedNotAMethod { area, def_area, .. } => seq![area, def_area],
        ErrorKind::NotAMethod { area, def_area, .. } => seq![area, def_area],
        ErrorKind::NonexistentTypeMember { area, .. } => seq![area],
        ErrorKind::PrivateType { area, .. } => seq![area],
        ErrorKind::InvalidIndex { base, index, area } => seq![area, base.1, index.1],
        ErrorKind::IndexOutOfBounds { area, .. } => seq![area],
        ErrorKind::AssertionFailed { area } => seq![area],
        ErrorKind::EqAssertionFailed { area, .. } => seq![area],
        ErrorKind::AddObjectInTriggerContext { area } => seq![area],
        ErrorKind::ThrownError { area, .. } => seq![area],
    }
}

/// How many diagnostic labels each error kind renders.
pub open spec fn spec_label_count(k: ErrorKind) -> int {
    match k {
        ErrorKind::InvalidOperands { .. } => 3,
        ErrorKind::InvalidUnaryOperand { .. } => 2,
        ErrorKind::TypeMismatch { .. } => 2,
        ErrorKind::CannotConvertType { .. } => 2,
        ErrorKind::CannotIterate { .. } => 2,
        ErrorKind::CannotInstanceBuiltinType { .. } => 1,
        ErrorKind::InvalidObjectValue { .. } => 2,
        ErrorKind::TooManyArguments { .. } => 2,
        ErrorKind::InvalidKeywordArgument { .. } => 2,
        ErrorKind::ArgumentNotSatisfied { .. } => 2,
        ErrorKind::ArgumentPatternMismatch { .. } => 3,
        ErrorKind::NonexistentMember { .. } => 1,
        ErrorKind::PrivateMemberAccess { .. } => 1,
        ErrorKind::NonexistentAssociatedMember { .. } => 1,
        ErrorKind::AssociatedNotAMethod { .. } => 2,
        ErrorKind::NotAMethod { .. } => 2,
        ErrorKind::NonexistentTypeMember { .. } => 1,
        ErrorKind::PrivateType { .. } => 1,
        ErrorKind::InvalidIndex { .. } => 3,
        ErrorKind::IndexOutOfBounds { .. } => 1,
        ErrorKind::AssertionFailed { .. } => 1,
        ErrorKind::EqAssertionFailed { .. } => 1,
        ErrorKind::AddObjectInTriggerContext { .. } => 1,
        ErrorKind::ThrownError { .. } => 1,
    }
}

impl ErrorKind {
    /// The diagnostic labels: each source area paired with the text a
    /// renderer shows there, in display order. Each label points at the area
    /// named by [`spec_label_areas`]; the texts are built here so a caller
    /// needs nothing from the machine state to render the error.
    pub fn labels(&self) -> (r: Vec<(CodeArea, String)>)
        ensures
            r@.len() == spec_label_count(*self),
            forall|i: int|
                0 <= i < r@.len() ==> (#[trigger] r@[i]).0 == spec_label_areas(*self)[i],
            *self matches ErrorKind::ThrownError { message, .. } ==> r@[0].1@ == message@,
    {
        let mut r: Vec<(CodeArea, String)> = Vec::new();
        match self {
            ErrorKind::InvalidOperands { a, b, op, area } => {
                let mut s = "Invalid operands for `".to_owned();
                s.append(op.to_str());
                s.append("` operator");
                r.push((area.dup(), s));
                let mut s = "This is of type ".to_owned();
                s.append(a.0.to_str());
                r.push((a.1.dup(), s));
                let mut s = "This is of type ".to_owned();
                s.append(b.0.to_str());
                r.push((b.1.dup(), s));
            },
            ErrorKind::InvalidUnaryOperand { v, op, area } => {
                let mut s = "Invalid operand for `".to_owned();
                s.append(op.to_str());
                s.append("` unary operator");
                r.push((area.dup(), s));
                let mut s = "This is of type ".to_owned();
                s.append(v.0.to_str());
                r.push((v.1.dup(), s));
            },
            ErrorKind::TypeMismatch { v, area, expected } => {
                let mut s = "Expected ".to_owned();
                s.append(expected.to_str());
                s.append(", found ");
                s.append(v.0.to_str());
                r.push((area.dup(), s));
                let mut s = "Value defined as ".to_owned();
                s.append(v.0.to_str());
                s.append(" here");
                r.push((v.1.dup(), s));
            },
            ErrorKind::CannotConvertType { v, to, area } => {
                let mut s = "Cannot convert ".to_owned();
                s.append(v.0.to_str());
                s.append(" to ");
                s.append(to.to_str());
                r.push((area.dup(), s));
                let mut s = "This is of type ".to_owned();
                s.append(v.0.to_str());
                r.push((v.1.dup(), s));
            },
            ErrorKind::CannotIterate { v, area } => {
                let mut s = "Cannot iterate over ".to_owned();
                s.append(v.0.to_str());
                r.push((area.dup(), s));
                let mut s = "Value defined as ".to_owned();
                s.append(v.0.to_str());
                s.append(" here");
                r.push((v.1.dup(), s));
            },
            ErrorKind::CannotInstanceBuiltinType { area, typ } => {
                let mut s = "Cannot instance builtin type ".to_owned();
                s.append(typ.to_str());
                r.push((area.dup(), s));
            },
            ErrorKind::InvalidObjectValue { v, area } => {
                let mut s = v.0.clone();
                s.append(" is not a valid object value");
                r.push((v.1.dup(), s));
                r.push((area.dup(), "Object key used here".to_owned()));
            },
            ErrorKind::TooManyArguments {
                call_area,
                macro_def_area,
                macro_arg_amount,
                call_arg_amount,
            } => {
                let mut s = "Received ".to_owned();
                s.append(crate::display::usize_to_string(*call_arg_amount).as_str());
                s.append(" arguments, expected ");
                s.append(crate::display::usize_to_string(*macro_arg_amount).as_str());
                r.push((call_area.dup(), s));
                let mut s = "Macro defined to take ".to_owned();
                s.append(crate::display::usize_to_string(*macro_arg_amount).as_str());
                s.append(" arguments here");
                r.push((macro_def_area.dup(), s));
            },
            ErrorKind::InvalidKeywordArgument { call_area, macro_def_area, arg_name } => {
                let mut s = "Keyword argument `".to_owned();
                s.append(arg_name.as_str());
                s.append("` is invalid");
                r.push((call_area.dup(), s));
                r.push((macro_def_area.dup(), "Macro defined here".to_owned()));
            },
            ErrorKind::ArgumentNotSatisfied { call_area, macro_def_area, arg_name } => {
                let mut s = "Argument `".to_owned();
                s.append(arg_name.as_str());
                s.append("` not satisfied");
                r.push((call_area.dup(), s));
                r.push((macro_def_area.dup(), "Macro defined here".to_owned()));
            },
            ErrorKind::ArgumentPatternMismatch {
                call_area,
                macro_def_area,
                arg_name,
                pattern,
                v,
            } => {
                r.push((call_area.dup(), "Call occurred here".to_owned()));
                let mut s = "Argument `".to_owned();
                s.append(arg_name.as_str());
                s.append("` was defined as taking ");
                s.append(pattern.to_str());
                s.append(" here");
                r.push((macro_def_area.dup(), s));
                let mut s = "This `".to_owned();
                s.append(v.0.to_str());
                s.append("` is not ");
                s.append(pattern.to_str());
                r.push((v.1.dup(), s));
            },
            ErrorKind::NonexistentMember { area, member, base_type } => {
                let mut s = "Member `".to_owned();
                s.append(member.as_str());
                s.append("` does not exist on this ");
                s.append(base_type.to_str());
                r.push((area.dup(), s));
            },
            ErrorKind::PrivateMemberAccess { area, member } => {
                let mut s = "Member `".to_owned();
                s.append(member.as_str());
                s.append("` is private");
                r.push((area.dup(), s));
            },
            ErrorKind::NonexistentAssociatedMember { area, member, base_type } => {
                let mut s = "Associated member `".to_owned();
                s.append(member.as_str());
                s.append("` does not exist on ");
                s.append(base_type.to_str());
                r.push((area.dup(), s));
            },
            ErrorKind::AssociatedNotAMethod { area, def_area, func_name, base_type } => {
                let mut s = "Associated function `".to_owned();
                s.append(func_name.as_str());
                s.append("` is not a method, because it does not have a `self` argument");
                r.push((area.dup(), s));
                let mut s = "Associated function defined on type ".to_owned();
                s.append(base_type.to_str());
                s.append(" here");
                r.push((def_area.dup(), s));
            },
            ErrorKind::NotAMethod { area, def_area, member_name, member_type, base_type } => {
                let mut s = "Member `".to_owned();
                s.append(member_name.as_str());
                s.append("` implemented on type ");
                s.append(base_type.to_str());
                s.append(" is not a method");
                r.push((area.dup(), s));
                let mut s = "Member defined as ".to_owned();
                s.append(member_type.to_str());
                s.append(" here");
                r.push((def_area.dup(), s));
            },
            ErrorKind::NonexistentTypeMember { area, name } => {
                let mut s = "Type @".to_owned();
                s.append(name.as_str());
                s.append(" does not exist in this module");
                r.push((area.dup(), s));
            },
            ErrorKind::PrivateType { area, name } => {
                let mut s = "Type @".to_owned();
                s.append(name.as_str());
                s.append(" is private");
                r.push((area.dup(), s));
            },
            ErrorKind::InvalidIndex { base, index, area } => {
                let mut s = base.0.to_str().to_owned();
                s.append(" cannot be indexed by ");
                s.append(index.0.to_str());
                r.push((area.dup(), s));
                let mut s = "This is of type ".to_owned();
                s.append(base.0.to_str());
                r.push((base.1.dup(), s));
                let mut s = "This is of type ".to_owned();
                s.append(index.0.to_str());
                r.push((index.1.dup(), s));
            },
            ErrorKind::IndexOutOfBounds { len, index, area, typ } => {
                let mut s = "Index ".to_owned();
                s.append(crate::display::int_to_string(*index).as_str());
                s.append(" is out of bounds for this ");
                s.append(typ.to_str());
                s.append(" of length ");
                s.append(crate::display::usize_to_string(*len).as_str());
                r.push((area.dup(), s));
            },
            ErrorKind::AssertionFailed { area } => {
                r.push((area.dup(), "Assertion happened here".to_owned()));
            },
            ErrorKind::EqAssertionFailed { area, left, right } => {
                let mut s = left.clone();
                s.append(" is not equal to ");
                s.append(right.as_str());
                r.push((area.dup(), s));
            },
            ErrorKind::AddObjectInTriggerContext { area } => {
                r.push((area.dup(), "Cannot add this object at runtime".to_owned()));
            },
            ErrorKind::ThrownError { area, message } => {
                r.push((area.dup(), message.clone()));
            },
        }
        r
    }
}

/// The characters of the headline message of `k`.
pub open spec fn spec_message(k: ErrorKind) -> Seq<char> {
    match k {
        ErrorKind::InvalidOperands { .. } => "Invalid operands"@,
        ErrorKind::InvalidUnaryOperand { .. } => "Invalid unary operand"@,
        ErrorKind::TypeMismatch { .. } => "Type mismatch"@,
        ErrorKind::CannotConvertType { .. } => "Cannot convert between types"@,
        ErrorKind::CannotIterate { .. } => "Cannot iterate"@,
        ErrorKind::CannotInstanceBuiltinType { .. } => "Cannot instance builtin type"@,
        ErrorKind::InvalidObjectValue { .. } => "Invalid object value"@,
        ErrorKind::TooManyArguments { .. } => "Too many arguments"@,
        ErrorKind::InvalidKeywordArgument { .. } => "Invalid keyword argument"@,
        ErrorKind::ArgumentNotSatisfied { .. } => "Argument not satisfied"@,
        ErrorKind::ArgumentPatternMismatch { .. } => "Argument pattern mismatch"@,
        ErrorKind::NonexistentMember { .. } => "Nonexistent member"@,
        ErrorKind::PrivateMemberAccess { .. } => "Tried to access private member"@,
        ErrorKind::NonexistentAssociatedMember { .. } => "Nonexistent associated member"@,
        ErrorKind::AssociatedNotAMethod { .. } => "Associated function is not method"@,
        ErrorKind::NotAMethod { .. } => "Associated member is not method"@,
        ErrorKind::NonexistentTypeMember { .. } => "Nonexistent type member"@,
        ErrorKind::PrivateType { .. } => "Tried to access private type"@,
        ErrorKind::InvalidIndex { .. } => "Invalid index"@,
        ErrorKind::IndexOutOfBounds { .. } => "Index out of bounds"@,
        ErrorKind::AssertionFailed { .. } => "Assertion failed"@,
        ErrorKind::EqAssertionFailed { .. } => "Equality assertion failed"@,
        ErrorKind::AddObjectInTriggerContext { .. } => "Added object in runtime context"@,
        ErrorKind::ThrownError { .. } => "Runtime Error"@,
    }
}

/// Reveals every headline-message literal.
pub proof fn reveal_messages()
{
    reveal_strlit("Invalid operands");
    reveal_strlit("Invalid unary operand");
    reveal_strlit("Type mismatch");
    reveal_strlit("Cannot convert between types");
    reveal_strlit("Cannot iterate");
    reveal_strlit("Cannot instance builtin type");
    reveal_strlit("Invalid object value");
    reveal_strlit("Too many arguments");
    reveal_strlit("Invalid keyword argument");
    reveal_strlit("Argument not satisfied");
    reveal_strlit("Argument pattern mismatch");
    reveal_strlit("Nonexistent member");
    reveal_strlit("Tried to access private member");
    reveal_strlit("Nonexistent associated member");
    reveal_strlit("Associated function is not method");
    reveal_strlit("Associated member is not method");
    reveal_strlit("Nonexistent type member");
    reveal_strlit("Tried to access private type");
    reveal_strlit("Invalid index");
    reveal_strlit("Index out of bounds");
    reveal_strlit("Assertion failed");
    reveal_strlit("Equality assertion failed");
    reveal_strlit("Added object in runtime context");
    reveal_strlit("Runtime Error");
}

} // verus!
