use spwn_core::context::{CallKey, CallStackItem, Context};
use spwn_core::ids::Id;
use spwn_core::scheduler::FullContext;
use spwn_core::value::{FuncCoord, ValueKey};

fn ctx_at(depth: usize, ip: usize) -> Context {
    let mut c = Context::root();
    c.recursion_depth = depth;
    c.pos_stack.push(CallStackItem {
        func: FuncCoord { program: 0, func: 0 },
        ip,
        return_dest: None,
        call_key: CallKey(0),
        call_area: None,
    });
    c.registers.push(vec![ValueKey(0)]);
    c.stack.push(Vec::new());
    c
}

#[test]
fn pop_order_is_deepest_first_then_smallest_ip() {
    let mut sched = FullContext::new();
    // drop the fresh root so only the three probes remain
    let _ = sched.take_current();
    sched.push_context(ctx_at(0, 5));
    sched.push_context(ctx_at(1, 2));
    sched.push_context(ctx_at(1, 0));
    let a = sched.take_current();
    assert_eq!((a.recursion_depth, a.ip()), (1, 0));
    let b = sched.take_current();
    assert_eq!((b.recursion_depth, b.ip()), (1, 2));
    let c = sched.take_current();
    assert_eq!((c.recursion_depth, c.ip()), (0, 5));
    assert!(!sched.valid());
}

#[test]
fn current_selects_without_removing() {
    let mut sched = FullContext::new();
    let _ = sched.take_current();
    sched.push_context(ctx_at(2, 9));
    sched.push_context(ctx_at(3, 4));
    assert_eq!(sched.current().recursion_depth, 3);
    assert_eq!(sched.current().recursion_depth, 3);
    let t = sched.take_current();
    assert_eq!((t.recursion_depth, t.ip()), (3, 4));
    assert_eq!(sched.current().recursion_depth, 2);
}

#[test]
fn call_registry_tracks_returns() {
    let mut sched = FullContext::new();
    let k0 = sched.new_call_key();
    let k1 = sched.new_call_key();
    assert_eq!(k0, CallKey(0));
    assert_eq!(k1, CallKey(1));
    assert_eq!(sched.have_not_returned, vec![true, true]);
    sched.mark_returned(k0);
    assert_eq!(sched.have_not_returned, vec![false, true]);
}

#[test]
fn group_stack_unwinds_to_marker() {
    let mut c = Context::root();
    c.set_group_and_push(Id::Specific(7));
    c.set_group_and_push(Id::ArbitraryId(1));
    c.set_group_and_push(Id::ArbitraryId(2));
    c.pop_groups_until(Id::Specific(7));
    assert_eq!(c.group(), Id::Specific(7));
    assert_eq!(c.group_stack, vec![Id::Specific(0), Id::Specific(7)]);
    // leaving a grouping construct pops exactly one id
    let g = c.pop_group();
    assert_eq!(g, Id::Specific(7));
    assert_eq!(c.group(), Id::Specific(0));
}
