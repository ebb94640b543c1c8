//! The arena allocator's region discipline and the exception bridge's
//! save/restore bracketing.

use pg_extend::pg_alloc::{MemPool, PgAllocator, PgMemoryContext, PERMANENT_REGIONS};
use pg_extend::pg_guard::{
    guard_pg, unwind_action, ExceptionStack, GuestOutcome, GuestUnwind, HandlerAction,
    JumpContext,
};

#[test]
fn test_allocate() {
    let mut pool = MemPool::startup();
    let top = PgMemoryContext::top();
    let child = top.create_with_defaults(&mut pool, "work");
    let h = child.palloc(&mut pool, 16);
    assert_eq!(pool.chunks[h].data.as_ref().unwrap().len(), 16);
    let z = child.palloc0(&mut pool, 4);
    assert_eq!(pool.chunks[z].data.as_ref().unwrap(), &vec![0u8; 4]);
    PgMemoryContext::pfree(&mut pool, h);
    assert!(pool.chunks[h].data.is_none());
    assert!(pool.chunks[z].data.is_some());
}

#[test]
fn test_reset_frees_subtree_but_keeps_regions() {
    let mut pool = MemPool::startup();
    let top = PgMemoryContext::top();
    let parent = top.create_with_defaults(&mut pool, "parent");
    let child = parent.create_with_defaults(&mut pool, "child");
    let in_parent = parent.palloc(&mut pool, 1);
    let in_child = child.palloc(&mut pool, 1);
    let in_top = top.palloc(&mut pool, 1);

    parent.reset_only(&mut pool);
    assert!(pool.chunks[in_parent].data.is_none());
    assert!(pool.chunks[in_child].data.is_some());

    let in_parent2 = parent.palloc(&mut pool, 1);
    parent.reset(&mut pool);
    assert!(pool.chunks[in_parent2].data.is_none());
    assert!(pool.chunks[in_child].data.is_none());
    assert!(pool.chunks[in_top].data.is_some());
    assert!(pool.regions[child.memcxt].alive);
}

#[test]
fn test_delete_tears_down_subtree() {
    let mut pool = MemPool::startup();
    let top = PgMemoryContext::top();
    let parent = top.create_with_defaults(&mut pool, "parent");
    let child = parent.create_with_defaults(&mut pool, "child");
    let pm = parent.memcxt;
    let cm = child.memcxt;
    let in_child = child.palloc(&mut pool, 1);
    parent.delete(&mut pool);
    assert!(!pool.regions[pm].alive);
    assert!(!pool.regions[cm].alive);
    assert!(pool.chunks[in_child].data.is_none());
    // The permanent regions survive.
    for i in 0..PERMANENT_REGIONS {
        assert!(pool.regions[i].alive);
    }
}

#[test]
fn test_switch_and_restore() {
    let mut pool = MemPool::startup();
    let top = PgMemoryContext::top();
    let mut work = top.create_with_defaults(&mut pool, "work");
    let before = pool.current;
    work.switch_to(&mut pool);
    assert_eq!(pool.current, work.memcxt);
    work.restore(&mut pool);
    assert_eq!(pool.current, before);
}

#[test]
fn test_exec_in_context_restores_current() {
    let mut pool = MemPool::startup();
    let top = PgMemoryContext::top();
    let work = top.create_with_defaults(&mut pool, "work");
    let target = work.memcxt;
    let before = pool.current;
    let (pool2, seen) = work.exec_in_context(pool, move |p: MemPool| {
        let seen = p.current;
        (p, seen)
    });
    assert_eq!(seen, target);
    assert_eq!(pool2.current, before);
}

#[test]
fn test_allocator_exec_restores_current() {
    let mut pool = MemPool::startup();
    let top = PgMemoryContext::top();
    let work = top.create_with_defaults(&mut pool, "work");
    let alloc_handle = PgAllocator::from_raw(work.memcxt);
    let before = pool.current;
    let (pool2, ()) = alloc_handle.exec(pool, |p: MemPool| (p, ()));
    assert_eq!(pool2.current, before);
    assert_eq!(PgAllocator::current_context(&pool2).context, before);
}

#[test]
fn test_guarded_call_normal_return() {
    let st = ExceptionStack::startup();
    let (st, r) = guard_pg(st, |s: ExceptionStack| (s, GuestOutcome::<i32>::Normal(7)));
    assert_eq!(r, Ok(7));
    assert_eq!(st.targets.len(), 0);
    assert_eq!(st.saves, 1);
    assert_eq!(st.restores, 1);
}

#[test]
fn test_guarded_call_host_jump_becomes_signal() {
    let st = ExceptionStack::startup();
    let (st, r) = guard_pg(st, |s: ExceptionStack| (s, GuestOutcome::<i32>::HostJump(3)));
    assert_eq!(r, Err(GuestUnwind::HostSignal(JumpContext { jump_value: 3 })));
    assert_eq!(st.targets.len(), 0);
    assert_eq!(st.saves, st.restores);
}

#[test]
fn test_guarded_call_fault_propagates_after_restore() {
    let st = ExceptionStack::startup();
    let (st, r) = guard_pg(st, |s: ExceptionStack| {
        (s, GuestOutcome::<i32>::Fault(String::from("boom")))
    });
    assert_eq!(r, Err(GuestUnwind::GuestFault(String::from("boom"))));
    assert_eq!(st.targets.len(), 0);
    assert_eq!(st.saves, st.restores);
}

#[test]
fn test_nested_guarded_calls_balance_saves_and_restores() {
    let st = ExceptionStack::startup();
    // An outer guarded call whose body runs two further guarded calls, the
    // second of which observes a host jump.
    let (st, r) = guard_pg(st, |s: ExceptionStack| {
        let (s, a) = guard_pg(s, |s2: ExceptionStack| (s2, GuestOutcome::<i32>::Normal(1)));
        assert_eq!(a, Ok(1));
        let (s, b) = guard_pg(s, |s2: ExceptionStack| (s2, GuestOutcome::<i32>::HostJump(9)));
        match b {
            Err(GuestUnwind::HostSignal(j)) => (s, GuestOutcome::<i32>::HostJump(j.jump_value)),
            _ => panic!("expected a host signal"),
        }
    });
    assert_eq!(r, Err(GuestUnwind::HostSignal(JumpContext { jump_value: 9 })));
    // Three installs, three restores, and the target stack is back where
    // it started: every guarded call restored the prior target exactly
    // once, whatever its outcome.
    assert_eq!(st.saves, 3);
    assert_eq!(st.restores, 3);
    assert_eq!(st.targets.len(), 0);
}

#[test]
fn test_exec_with_guard_restores_region_and_target() {
    let mut pool = MemPool::startup();
    let top = PgMemoryContext::top();
    let work = top.create_with_defaults(&mut pool, "work");
    let alloc_handle = PgAllocator::from_raw(work.memcxt);
    let st = ExceptionStack::startup();
    let before = pool.current;
    let (pool2, st2, r) = alloc_handle.exec_with_guard(
        pool,
        st,
        |p: MemPool, s: ExceptionStack| {
            let seen = p.current;
            (p, s, GuestOutcome::Normal(seen))
        },
    );
    assert_eq!(r, Ok(work.memcxt));
    assert_eq!(pool2.current, before);
    assert_eq!(st2.targets.len(), 0);
    assert_eq!(st2.saves, 1);
    assert_eq!(st2.restores, 1);
}

#[test]
fn test_unwind_action_rejumps_host_signals() {
    let a = unwind_action(&GuestUnwind::HostSignal(JumpContext { jump_value: 5 }));
    assert_eq!(a, HandlerAction::Rejump(5));
    let b = unwind_action(&GuestUnwind::GuestFault(String::from("panic in extension")));
    assert_eq!(b, HandlerAction::ReportError);
}
