use spwn_core::bytecode::{BinOp, InstrNum, Instruction, UnaryOp};
use spwn_core::context::CallStackItem;
use spwn_core::error::{ErrorKind, RuntimeError};
use spwn_core::sources::{hyperlink, CodeArea, CodeSpan, Spannable, Spanned, SpwnSource};
use spwn_core::value::{Pattern, Value, ValueType};

#[test]
fn spans_extend_and_have_fixed_internal_forms() {
    let a = CodeSpan { start: 3, end: 7 };
    let b = CodeSpan { start: 9, end: 12 };
    assert_eq!(a.extend(b), CodeSpan { start: 3, end: 12 });
    assert_eq!(CodeSpan::internal(), CodeSpan { start: 0, end: 0 });
    assert_eq!(CodeSpan::invalid(), CodeSpan { start: 0, end: 1 });
}

#[test]
fn sources_make_areas_and_labels() {
    let src = SpwnSource::File("level.spwn".to_string());
    let area = src.area(CodeSpan { start: 1, end: 4 });
    assert_eq!(area.src, src);
    assert_eq!(area.span, CodeSpan { start: 1, end: 4 });
    assert_eq!(area.name(), "level.spwn".to_string());
    let (name, span) = area.label();
    assert_eq!(name, "level.spwn".to_string());
    assert_eq!(span, CodeSpan { start: 1, end: 4 });
    let internal = CodeArea::internal();
    assert_eq!(internal.name(), "<internal>".to_string());
}

#[test]
fn hyperlink_wraps_text_in_osc8() {
    let s = hyperlink("a.spwn", Some("name"));
    assert_eq!(s, "\u{1b}]8;;a.spwn\u{1b}\\name\u{1b}]8;;\u{1b}\\");
    let s = hyperlink("a.spwn", None);
    assert_eq!(s, "\u{1b}]8;;a.spwn\u{1b}\\a.spwn\u{1b}]8;;\u{1b}\\");
    let src = SpwnSource::File("x".to_string());
    assert_eq!(src.hyperlink(), "\u{1b}]8;;x\u{1b}\\x\u{1b}]8;;\u{1b}\\");
}

#[test]
fn spanned_values_split_extend_and_map() {
    let s = 5i64.spanned(CodeSpan { start: 2, end: 3 });
    assert_eq!(s.value, 5);
    let e = s.extended(CodeSpan { start: 8, end: 9 });
    assert_eq!(e.span, CodeSpan { start: 2, end: 9 });
    let m: Spanned<i64> = e.apply_fn(|x| x + 1);
    assert_eq!(m.value, 6);
    assert_eq!(m.span, CodeSpan { start: 2, end: 9 });
    let (v, sp) = m.split();
    assert_eq!(v, 6);
    assert_eq!(sp, CodeSpan { start: 2, end: 9 });
}

#[test]
fn modify_num_patches_jump_offsets() {
    let mut i = Instruction::Jump(InstrNum(0));
    i.modify_num(42);
    assert_eq!(i, Instruction::Jump(InstrNum(42)));
    let mut i = Instruction::BuildArray(InstrNum(3));
    i.modify_num(9);
    assert_eq!(i, Instruction::BuildArray(InstrNum(9)));
    let mut i = Instruction::EnterTriggerFunction(InstrNum(1));
    i.modify_num(7);
    assert_eq!(i, Instruction::EnterTriggerFunction(InstrNum(7)));
}

#[test]
fn type_names_are_at_prefixed() {
    assert_eq!(ValueType::Int.to_str(), "@int");
    assert_eq!(ValueType::Dict.to_str(), "@dictionary");
    assert_eq!(ValueType::TriggerFunction.to_str(), "@trigger_function");
    assert_eq!(Pattern::Any.to_str(), "_");
    assert_eq!(Pattern::Type(ValueType::Float).to_str(), "@float");
}

#[test]
fn operator_spellings() {
    assert_eq!(BinOp::Plus.to_str(), "+");
    assert_eq!(BinOp::Neq.to_str(), "!=");
    assert_eq!(BinOp::Is.to_str(), "is");
    assert_eq!(UnaryOp::ExclMark.to_str(), "!");
}

#[test]
fn value_type_tags() {
    assert_eq!(Value::Int(1).get_type(), ValueType::Int);
    assert_eq!(Value::Maybe(None).get_type(), ValueType::Maybe);
    assert_eq!(Value::Builtins.get_type(), ValueType::Builtins);
}

#[test]
fn error_messages_are_stable() {
    let area = CodeArea::internal();
    let e = RuntimeError::with_stack(
        ErrorKind::InvalidOperands {
            a: (ValueType::Int, CodeArea::internal()),
            b: (ValueType::Bool, CodeArea::internal()),
            op: BinOp::Plus,
            area,
        },
        Vec::<CallStackItem>::new(),
    );
    assert_eq!(e.message(), "Invalid operands");
    assert_eq!(
        ErrorKind::TooManyArguments {
            call_area: CodeArea::internal(),
            macro_def_area: CodeArea::internal(),
            macro_arg_amount: 2,
            call_arg_amount: 3,
        }
        .message(),
        "Too many arguments"
    );
    assert_eq!(
        ErrorKind::AddObjectInTriggerContext { area: CodeArea::internal() }.message(),
        "Added object in runtime context"
    );
}

#[test]
fn int_rendering_covers_signs_and_zero() {
    assert_eq!(spwn_core::display::int_to_string(0), "0");
    assert_eq!(spwn_core::display::int_to_string(507), "507");
    assert_eq!(spwn_core::display::int_to_string(-12), "-12");
    assert_eq!(
        spwn_core::display::int_to_string(i64::MIN),
        "-9223372036854775808"
    );
}

#[test]
fn error_labels_point_at_the_right_areas() {
    let src = SpwnSource::File("level.spwn".to_string());
    let op_area = src.area(CodeSpan { start: 10, end: 11 });
    let a_area = src.area(CodeSpan { start: 0, end: 1 });
    let b_area = src.area(CodeSpan { start: 4, end: 5 });
    let e = ErrorKind::InvalidOperands {
        a: (ValueType::Int, a_area.clone()),
        b: (ValueType::Bool, b_area.clone()),
        op: BinOp::Plus,
        area: op_area.clone(),
    };
    let labels = e.labels();
    assert_eq!(labels.len(), 3);
    assert_eq!(labels[0].0, op_area);
    assert_eq!(labels[0].1, "Invalid operands for `+` operator");
    assert_eq!(labels[1].0, a_area);
    assert_eq!(labels[1].1, "This is of type @int");
    assert_eq!(labels[2].0, b_area);
    assert_eq!(labels[2].1, "This is of type @bool");
    let e = ErrorKind::IndexOutOfBounds {
        len: 4,
        index: -1,
        area: op_area.clone(),
        typ: ValueType::Array,
    };
    let labels = e.labels();
    assert_eq!(labels.len(), 1);
    assert_eq!(
        labels[0].1,
        "Index -1 is out of bounds for this @array of length 4"
    );
}
