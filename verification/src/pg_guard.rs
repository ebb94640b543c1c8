//! The bridge between the host's non-local-exit error mechanism and guest
//! unwinding.
//!
//! When a host routine signals an error, the host transfers control to a
//! saved execution point — its current exception target — without unwinding
//! guest stack frames. Every call into a host routine capable of signaling
//! must therefore run under [`guard_pg`], which installs a fresh target,
//! runs the call, and restores the prior target on every exit path: normal
//! return, host non-local exit, and guest unwind alike.
//!
//! Control flow is represented as data here: the stack of installed targets
//! is an explicit [`ExceptionStack`] value, and what the guarded code did is
//! a [`GuestOutcome`]. A host non-local exit observed by the bridge becomes
//! a guest-level [`GuestUnwind::HostSignal`] carrying the host's jump code,
//! which nested guarded scopes re-raise outward until the process-wide
//! handler (modeled by [`unwind_action`]) gives it back to the host.

use vstd::prelude::*;

use crate::pg_alloc::{MemPool, PgAllocator};

verus! {

/// The jump code carried by a host non-local exit.
#[derive(Clone, Copy, PartialEq, Eq, Structural, Debug)]
pub struct JumpContext {
    /// The host's jump code; non-zero for a genuine exit.
    pub jump_value: i32,
}

/// A guest-level unwind as classified by the bridge.
#[derive(PartialEq, Eq, Debug)]
pub enum GuestUnwind {
    /// A wrapped host jump code. Always re-raised to the host, never
    /// swallowed.
    HostSignal(JumpContext),
    /// Any other unexpected guest unwind; defensive, should not occur.
    GuestFault(String),
}

/// What a piece of guarded guest code did: returned a value, was interrupted
/// by a host non-local exit with a jump code, or unwound with a guest fault.
pub enum GuestOutcome<R> {
    /// The code ran to completion.
    Normal(R),
    /// The host performed a non-local exit while the code ran.
    HostJump(i32),
    /// The code itself unwound unexpectedly.
    Fault(String),
}

/// The host's exception-target state: the stack of installed targets, a
/// source of fresh target names, and counters of how many targets were ever
/// installed (saves) and taken back down (restores).
///
/// The counters let the save/restore discipline be stated exactly: a
/// well-bracketed computation takes down exactly the targets it installed.
pub struct ExceptionStack {
    /// The installed exception targets, innermost last.
    pub targets: Vec<u64>,
    /// The next fresh target name.
    pub next_target: u64,
    /// How many targets have ever been installed.
    pub saves: u64,
    /// How many targets have ever been restored.
    pub restores: u64,
}

impl ExceptionStack {
    /// Counters in their sane relation: nothing was restored that was never
    /// installed.
    pub open spec fn wf(self) -> bool {
        self.restores <= self.saves
    }

    /// A fresh state with no guest target installed.
    pub fn startup() -> (r: ExceptionStack)
        ensures
            r.wf(),
            r.targets@.len() == 0,
            r.saves == 0,
            r.restores == 0,
    {
        ExceptionStack { targets: Vec::new(), next_target: 0, saves: 0, restores: 0 }
    }

    /// `self` is `prior` with one fresh target installed on top.
    pub open spec fn is_install_of(self, prior: ExceptionStack) -> bool {
        &&& self.targets@ == prior.targets@.push(prior.next_target)
        &&& self.next_target == prior.next_target + 1
        &&& self.saves == prior.saves + 1
        &&& self.restores == prior.restores
    }

    /// `self` differs from `prior` by a balanced run of nested guarded
    /// calls: the target stack is back to what it was, and exactly as many
    /// targets were restored as were installed in between.
    pub open spec fn balanced_after(self, prior: ExceptionStack) -> bool {
        &&& self.targets@ == prior.targets@
        &&& self.saves >= prior.saves
        &&& self.saves - prior.saves == self.restores - prior.restores
        &&& self.next_target >= prior.next_target
        &&& self.next_target <= u64::MAX - 1
        &&& self.saves <= u64::MAX - 1
    }
}

/// Guard one call into the host (or a larger stretch of guest code making
/// host calls): install a fresh exception target, run `f`, and restore the
/// prior target on every exit path.
///
/// `f` receives the state with the fresh target installed, and must itself
/// be well-bracketed — any nesting of `guard_pg` is. Whatever `f`'s outcome,
/// the prior target is restored exactly once: the returned stack carries
/// `f`'s installs plus this call's, and `f`'s restores plus this call's.
///
/// A host non-local exit during `f` resumes at the installed target; the
/// bridge then restores the prior target, issues a full memory fence (the
/// host manipulates the stack directly, so reordering around the resumption
/// point is unsafe; the fence has no observable effect in this model) and
/// raises [`GuestUnwind::HostSignal`] with the host's jump code. A guest
/// fault is passed on as [`GuestUnwind::GuestFault`], again after the
/// restore.
pub fn guard_pg<R, F: FnOnce(ExceptionStack) -> (ExceptionStack, GuestOutcome<R>)>(
    st: ExceptionStack,
    f: F,
) -> (r: (ExceptionStack, Result<R, GuestUnwind>))
    requires
        st.wf(),
        st.saves <= u64::MAX - 1,
        st.next_target <= u64::MAX - 1,
        forall|s: ExceptionStack| s.is_install_of(st) ==> call_requires(f, (s,)),
        forall|s: ExceptionStack, s2: ExceptionStack, out: GuestOutcome<R>|
            s.is_install_of(st) && #[trigger] call_ensures(f, (s,), (s2, out))
                ==> s2.balanced_after(s),
    ensures
        r.0.wf(),
        r.0.targets@ == st.targets@,
        r.0.saves > st.saves,
        r.0.saves - st.saves == r.0.restores - st.restores,
        r.0.next_target > st.next_target,
        exists|s: ExceptionStack, s2: ExceptionStack, out: GuestOutcome<R>|
            {
                &&& s.is_install_of(st)
                &&& #[trigger] call_ensures(f, (s,), (s2, out))
                &&& r.0.saves == s2.saves
                &&& r.0.restores == s2.restores + 1
                &&& r.0.next_target == s2.next_target
                &&& match out {
                    GuestOutcome::Normal(v) => r.1 == Ok::<R, GuestUnwind>(v),
                    GuestOutcome::HostJump(code) => r.1 == Err::<R, GuestUnwind>(
                        GuestUnwind::HostSignal(JumpContext { jump_value: code }),
                    ),
                    GuestOutcome::Fault(m) => r.1 == Err::<R, GuestUnwind>(
                        GuestUnwind::GuestFault(m),
                    ),
                }
            },
{
    let mut s = st;
    let fresh = s.next_target;
    s.targets.push(fresh);
    s.next_target = fresh + 1;
    s.saves = s.saves + 1;
    let ghost installed = s;
    proof {
        assert(installed.is_install_of(st));
    }
    let (mut s2, out) = f(s);
    proof {
        assert(s2.balanced_after(installed));
    }
    s2.targets.pop();
    s2.restores = s2.restores + 1;
    match out {
        GuestOutcome::Normal(v) => (s2, Ok(v)),
        GuestOutcome::HostJump(code) => (
            s2,
            Err(GuestUnwind::HostSignal(JumpContext { jump_value: code })),
        ),
        GuestOutcome::Fault(m) => (s2, Err(GuestUnwind::GuestFault(m))),
    }
}

impl PgAllocator {
    /// Run `f` with this allocator's region current and under a fresh
    /// exception target: both the prior current region and the prior
    /// target are restored on every exit path, normal or unwinding.
    pub fn exec_with_guard<
        R,
        F: FnOnce(MemPool, ExceptionStack) -> (MemPool, ExceptionStack, GuestOutcome<R>),
    >(&self, pool: MemPool, st: ExceptionStack, f: F) -> (r: (
        MemPool,
        ExceptionStack,
        Result<R, GuestUnwind>,
    ))
        requires
            pool.wf(),
            self.valid(pool),
            st.wf(),
            st.saves <= u64::MAX - 1,
            st.next_target <= u64::MAX - 1,
            forall|s: ExceptionStack|
                s.is_install_of(st) ==> call_requires(
                    f,
                    (MemPool { current: self.context, ..pool }, s),
                ),
            forall|s: ExceptionStack, q: MemPool, s2: ExceptionStack, out: GuestOutcome<R>|
                s.is_install_of(st) && #[trigger] call_ensures(
                    f,
                    (MemPool { current: self.context, ..pool }, s),
                    (q, s2, out),
                ) ==> s2.balanced_after(s) && pool.current < q.regions.len() && q.regions[
                pool.current as int].alive,
        ensures
            r.0.current == pool.current,
            r.1.wf(),
            r.1.targets@ == st.targets@,
            r.1.saves > st.saves,
            r.1.saves - st.saves == r.1.restores - st.restores,
            exists|s: ExceptionStack, q: MemPool, s2: ExceptionStack, out: GuestOutcome<R>|
                {
                    &&& s.is_install_of(st)
                    &&& #[trigger] call_ensures(
                        f,
                        (MemPool { current: self.context, ..pool }, s),
                        (q, s2, out),
                    )
                    &&& r.0 == (MemPool { current: pool.current, ..q })
                    &&& r.1.saves == s2.saves
                    &&& r.1.restores == s2.restores + 1
                    &&& match out {
                        GuestOutcome::Normal(v) => r.2 == Ok::<R, GuestUnwind>(v),
                        GuestOutcome::HostJump(code) => r.2 == Err::<R, GuestUnwind>(
                            GuestUnwind::HostSignal(JumpContext { jump_value: code }),
                        ),
                        GuestOutcome::Fault(m) => r.2 == Err::<R, GuestUnwind>(
                            GuestUnwind::GuestFault(m),
                        ),
                    }
                },
    {
        let saved = pool.current;
        let mut p = pool;
        p.current = self.context;
        let mut s = st;
        let fresh = s.next_target;
        s.targets.push(fresh);
        s.next_target = fresh + 1;
        s.saves = s.saves + 1;
        let ghost installed = s;
        proof {
            assert(installed.is_install_of(st));
        }
        let (mut q, mut s2, out) = f(p, s);
        proof {
            assert(s2.balanced_after(installed));
        }
        q.current = saved;
        s2.targets.pop();
        s2.restores = s2.restores + 1;
        let res = match out {
            GuestOutcome::Normal(v) => Ok(v),
            GuestOutcome::HostJump(code) => Err(
                GuestUnwind::HostSignal(JumpContext { jump_value: code }),
            ),
            GuestOutcome::Fault(m) => Err(GuestUnwind::GuestFault(m)),
        };
        (q, s2, res)
    }
}

/// What the process-wide exception handler decides once an unwind reaches
/// the outermost guest frame.
#[derive(Clone, Copy, PartialEq, Eq, Structural, Debug)]
pub enum HandlerAction {
    /// Re-issue the host's non-local exit with this jump code, so that
    /// nested guarded scopes propagate outward correctly.
    Rejump(i32),
    /// Report the payload to the host at a severity that itself triggers a
    /// non-local exit.
    ReportError,
}

/// The process-wide handler's decision. A wrapped host jump code is given
/// back to the host as the same non-local exit; anything else is reported to
/// the host at error severity.
///
/// Either action ends in a host non-local exit, so the handler never returns
/// normally to the unwinding guest code — returning after the host was left
/// in an undefined state would itself be a fatal bridge defect.
pub fn unwind_action(payload: &GuestUnwind) -> (a: HandlerAction)
    ensures
        match payload {
            GuestUnwind::HostSignal(j) => a == HandlerAction::Rejump(j.jump_value),
            GuestUnwind::GuestFault(_) => a == HandlerAction::ReportError,
        },
{
    match payload {
        GuestUnwind::HostSignal(j) => HandlerAction::Rejump(j.jump_value),
        GuestUnwind::GuestFault(_) => HandlerAction::ReportError,
    }
}

/// Balance composes: a balanced run followed by another balanced run is
/// balanced. With [`guard_pg`]'s contract this gives the bracketing law for
/// arbitrary nestings and sequences of guarded calls: across any of them,
/// the exception-target stack returns to its prior state and the number of
/// restores grows exactly as much as the number of saves.
pub proof fn lemma_balanced_compose(a: ExceptionStack, b: ExceptionStack, c: ExceptionStack)
    requires
        b.balanced_after(a),
        c.balanced_after(b),
    ensures
        c.balanced_after(a),
{
}

} // verus!
