//! A model of the fixed, priority-based interrupt task scheduler and its
//! priority-ceiling lock protocol.
//!
//! The firmware has four tasks: `button_click` (external interrupt),
//! `play_ringtone` (spawned by `button_click`), `frame_tick` (frame-timer
//! interrupt) and `sound_tick` (sound-timer interrupt, the only task above
//! base priority). Each declares the resources it touches; a resource shared
//! across priority levels may be touched by a lower-priority task only inside
//! a critical section that raises the effective priority to the resource's
//! ceiling. This module models the scheduler's state — which tasks are
//! pending, which are active, which ceilings are held — and proves the
//! guarantees the firmware relies on: a task never runs reentrantly, equal
//! priorities never preempt one another, and a held ceiling excludes every
//! task that shares the resource.

use vstd::prelude::*;

verus! {

/// The firmware's fixed task set.
#[derive(Clone, Copy, Debug, PartialEq, Eq, Structural)]
pub enum TaskId {
    /// Button edge interrupt: spawns `PlayRingtone`, clears the pending edge.
    ButtonClick,
    /// Software-spawned: picks the next ringtone and starts the player.
    PlayRingtone,
    /// Frame-timer interrupt: advances playback, sets the pins when idle.
    FrameTick,
    /// Sound-timer interrupt: toggles the pins, acknowledges the player.
    SoundTick,
}

/// The shared resources the tasks declare.
#[derive(Clone, Copy, Debug, PartialEq, Eq, Structural)]
pub enum ResourceId {
    /// The player state machine.
    PlayerState,
    /// The left eye LED output.
    LeftEye,
    /// The right eye LED output.
    RightEye,
    /// The buzzer output.
    Buzzer,
    /// The external-interrupt pending register.
    ExtiPending,
    /// The rotating index into the ringtone table.
    RotationCounter,
}

/// Each task's static priority. Only the sound task runs above the base
/// level, so the audible square wave never waits for anything else.
pub open spec fn task_prio(t: TaskId) -> int {
    match t {
        TaskId::ButtonClick => 1,
        TaskId::PlayRingtone => 1,
        TaskId::FrameTick => 1,
        TaskId::SoundTick => 2,
    }
}

/// The statically declared resource-access sets.
pub open spec fn task_uses(t: TaskId, r: ResourceId) -> bool {
    match t {
        TaskId::ButtonClick => r == ResourceId::ExtiPending || r == ResourceId::RotationCounter,
        TaskId::PlayRingtone => r == ResourceId::PlayerState,
        TaskId::FrameTick => r == ResourceId::PlayerState || r == ResourceId::LeftEye || r
            == ResourceId::RightEye || r == ResourceId::Buzzer,
        TaskId::SoundTick => r == ResourceId::PlayerState || r == ResourceId::LeftEye || r
            == ResourceId::RightEye || r == ResourceId::Buzzer,
    }
}

/// Each resource's priority ceiling: the highest static priority among the
/// tasks that share it.
pub open spec fn ceiling(r: ResourceId) -> int {
    match r {
        ResourceId::PlayerState => 2,
        ResourceId::LeftEye => 2,
        ResourceId::RightEye => 2,
        ResourceId::Buzzer => 2,
        ResourceId::ExtiPending => 1,
        ResourceId::RotationCounter => 1,
    }
}

/// The ceilings are correct: no task that uses a resource outranks the
/// resource's ceiling.
pub proof fn lemma_ceiling_correct(t: TaskId, r: ResourceId)
    ensures
        task_uses(t, r) ==> task_prio(t) <= ceiling(r),
{
}

/// One started-but-unfinished task: which task it is and the ceilings of the
/// critical sections it currently holds, innermost last.
pub struct ActiveTask {
    pub task: TaskId,
    pub locks: Vec<u8>,
}

/// The mathematical content of an active task.
#[verifier::ext_equal]
pub ghost struct FrameV {
    pub task: TaskId,
    pub locks: Seq<u8>,
}

impl View for ActiveTask {
    type V = FrameV;

    open spec fn view(&self) -> FrameV {
        FrameV { task: self.task, locks: self.locks@ }
    }
}

/// The largest of `floor` and the elements of `s`.
pub open spec fn seq_max_or(s: Seq<u8>, floor: int) -> int
    decreases s.len(),
{
    if s.len() == 0 {
        floor
    } else {
        let m = seq_max_or(s.drop_last(), floor);
        if s.last() > m {
            s.last() as int
        } else {
            m
        }
    }
}

/// `seq_max_or` dominates its floor and every element.
pub proof fn lemma_seq_max_or(s: Seq<u8>, floor: int)
    ensures
        seq_max_or(s, floor) >= floor,
        forall|k: int| 0 <= k < s.len() ==> s[k] <= seq_max_or(s, floor),
    decreases s.len(),
{
    if s.len() > 0 {
        lemma_seq_max_or(s.drop_last(), floor);
        assert(forall|k: int| 0 <= k < s.len() - 1 ==> s[k] == s.drop_last()[k]);
    }
}

/// A task's effective priority: its static priority, raised by the ceilings
/// it holds.
pub open spec fn frame_prio(f: ActiveTask) -> int {
    seq_max_or(f.locks@, task_prio(f.task))
}

/// A ceiling a task may hold: that of some resource it declares.
pub open spec fn lock_ok(t: TaskId, c: u8) -> bool {
    exists|r: ResourceId| task_uses(t, r) && ceiling(r) == c
}

/// The scheduler's state: which tasks await execution (each has a pending
/// queue of capacity one) and the stack of started tasks, the running one on
/// top, each with the ceilings it holds.
pub struct Sched {
    pub pending_button: bool,
    pub pending_play: bool,
    pub pending_frame: bool,
    pub pending_sound: bool,
    pub stack: Vec<ActiveTask>,
}

impl Sched {
    /// Whether `t` awaits execution.
    pub open spec fn spec_pending(self, t: TaskId) -> bool {
        match t {
            TaskId::ButtonClick => self.pending_button,
            TaskId::PlayRingtone => self.pending_play,
            TaskId::FrameTick => self.pending_frame,
            TaskId::SoundTick => self.pending_sound,
        }
    }

    /// The processor's current effective priority: that of the running task,
    /// or 0 when nothing runs.
    pub open spec fn exec_prio(self) -> int {
        if self.stack@.len() == 0 {
            0
        } else {
            frame_prio(self.stack@.last())
        }
    }

    /// The scheduler's invariant: every active task's effective priority
    /// lies strictly below the static priority of each task above it (so the
    /// stack records a legitimate chain of preemptions), and every held
    /// ceiling belongs to a resource its holder declares.
    pub open spec fn wf(self) -> bool {
        &&& forall|i: int, j: int|
            0 <= i < j < self.stack@.len() ==> frame_prio(#[trigger] self.stack@[i]) < task_prio(
                #[trigger] self.stack@[j].task,
            )
        &&& forall|i: int, k: int|
            0 <= i < self.stack@.len() && 0 <= k < self.stack@[i].locks@.len() ==> lock_ok(
                self.stack@[i].task,
                #[trigger] self.stack@[i].locks@[k],
            )
    }

    /// The task stack's mathematical content.
    pub open spec fn stack_view(self) -> Seq<FrameV> {
        self.stack@.map_values(|f: ActiveTask| f@)
    }

    /// Whether the scheduler would dispatch `t` now: it is pending and
    /// strictly outranks the current effective priority.
    pub open spec fn can_start(self, t: TaskId) -> bool {
        self.spec_pending(t) && task_prio(t) > self.exec_prio()
    }

    /// The scheduler after power-on reset: nothing pending, nothing active.
    pub fn new() -> (s: Sched)
        ensures
            s.wf(),
            !s.spec_pending(TaskId::ButtonClick),
            !s.spec_pending(TaskId::PlayRingtone),
            !s.spec_pending(TaskId::FrameTick),
            !s.spec_pending(TaskId::SoundTick),
            s.stack@.len() == 0,
    {
        Sched {
            pending_button: false,
            pending_play: false,
            pending_frame: false,
            pending_sound: false,
            stack: Vec::new(),
        }
    }

    /// Whether `t` awaits execution.
    pub fn is_pending(&self, t: TaskId) -> (b: bool)
        ensures
            b == self.spec_pending(t),
    {
        match t {
            TaskId::ButtonClick => self.pending_button,
            TaskId::PlayRingtone => self.pending_play,
            TaskId::FrameTick => self.pending_frame,
            TaskId::SoundTick => self.pending_sound,
        }
    }

    fn set_pending(&mut self, t: TaskId, v: bool)
        ensures
            final(self).spec_pending(t) == v,
            forall|u: TaskId| u != t ==> final(self).spec_pending(u) == old(self).spec_pending(u),
            final(self).stack == old(self).stack,
    {
        match t {
            TaskId::ButtonClick => self.pending_button = v,
            TaskId::PlayRingtone => self.pending_play = v,
            TaskId::FrameTick => self.pending_frame = v,
            TaskId::SoundTick => self.pending_sound = v,
        }
    }

    /// A hardware interrupt arrives for `t`: it becomes pending; re-raising
    /// while already pending coalesces, the hardware keeps at most one.
    pub fn interrupt(&mut self, t: TaskId)
        requires
            old(self).wf(),
        ensures
            final(self).wf(),
            final(self).spec_pending(t),
            forall|u: TaskId| u != t ==> final(self).spec_pending(u) == old(self).spec_pending(u),
            final(self).stack == old(self).stack,
    {
        self.set_pending(t, true);
    }

    /// One task asks the scheduler to run `t`: the pending queue has
    /// capacity one, so spawning an already-pending task fails, and the
    /// caller must treat that as a fatal configuration error.
    pub fn spawn(&mut self, t: TaskId) -> (ok: bool)
        requires
            old(self).wf(),
        ensures
            final(self).wf(),
            ok == !old(self).spec_pending(t),
            final(self).spec_pending(t),
            forall|u: TaskId| u != t ==> final(self).spec_pending(u) == old(self).spec_pending(u),
            final(self).stack == old(self).stack,
    {
        let was = self.is_pending(t);
        self.set_pending(t, true);
        !was
    }

    /// A task's current effective priority.
    fn frame_prio_exec(f: &ActiveTask) -> (m: u8)
        requires
            task_prio(f.task) <= 2,
            forall|k: int| 0 <= k < f.locks@.len() ==> #[trigger] f.locks@[k] <= 2,
        ensures
            m == frame_prio(*f),
    {
        let mut m: u8 = match f.task {
            TaskId::ButtonClick => 1,
            TaskId::PlayRingtone => 1,
            TaskId::FrameTick => 1,
            TaskId::SoundTick => 2,
        };
        let mut k: usize = 0;
        proof {
            assert(f.locks@.take(0) =~= Seq::<u8>::empty());
        }
        while k < f.locks.len()
            invariant
                k <= f.locks@.len(),
                m == seq_max_or(f.locks@.take(k as int), task_prio(f.task)),
                forall|i: int| 0 <= i < f.locks@.len() ==> #[trigger] f.locks@[i] <= 2,
                m <= 2,
            decreases f.locks@.len() - k,
        {
            proof {
                assert(f.locks@.take(k + 1).drop_last() =~= f.locks@.take(k as int));
                assert(f.locks@.take(k + 1).last() == f.locks@[k as int]);
            }
            if f.locks[k] > m {
                m = f.locks[k];
            }
            k += 1;
        }
        proof {
            assert(f.locks@.take(f.locks@.len() as int) =~= f.locks@);
        }
        m
    }

    /// True of a scheduler state whose priorities all stay in the machine's
    /// small range; every reachable state satisfies it.
    pub open spec fn prio_bounded(self) -> bool {
        forall|i: int, k: int|
            0 <= i < self.stack@.len() && 0 <= k < self.stack@[i].locks@.len()
                ==> #[trigger] self.stack@[i].locks@[k] <= 2
    }

    /// Dispatches `t` if the scheduler would: pending tasks start only when
    /// they strictly outrank the running priority, so a lower- or
    /// equal-priority pending task waits.
    pub fn try_start(&mut self, t: TaskId) -> (started: bool)
        requires
            old(self).wf(),
            old(self).prio_bounded(),
        ensures
            final(self).wf(),
            final(self).prio_bounded(),
            started == old(self).can_start(t),
            started ==> final(self).stack@.len() == old(self).stack@.len() + 1
                && final(self).stack@.last().task == t
                && final(self).stack@.last().locks@.len() == 0
                && final(self).stack@.subrange(0, old(self).stack@.len() as int) == old(
                self,
            ).stack@ && !final(self).spec_pending(t)
                && (forall|u: TaskId| u != t ==> final(self).spec_pending(u) == old(
                self,
            ).spec_pending(u)),
            !started ==> *final(self) == *old(self),
    {
        if !self.is_pending(t) {
            return false;
        }
        let prio: u8 = match t {
            TaskId::ButtonClick => 1,
            TaskId::PlayRingtone => 1,
            TaskId::FrameTick => 1,
            TaskId::SoundTick => 2,
        };
        let cur: u8 = if self.stack.len() == 0 {
            0
        } else {
            let n = self.stack.len();
            Self::frame_prio_exec(&self.stack[n - 1])
        };
        if prio <= cur {
            return false;
        }
        let ghost old_stack = self.stack@;
        self.set_pending(t, false);
        self.stack.push(ActiveTask { task: t, locks: Vec::new() });
        proof {
            let ns = self.stack@;
            assert(ns.last().locks@ =~= Seq::<u8>::empty());
            assert(frame_prio(ns.last()) == task_prio(t));
            assert(ns.subrange(0, old_stack.len() as int) =~= old_stack);
            assert forall|i: int, j: int| 0 <= i < j < ns.len() implies frame_prio(
                #[trigger] ns[i],
            ) < task_prio(#[trigger] ns[j].task) by {
                if j < ns.len() - 1 {
                    assert(ns[i] == old_stack[i] && ns[j] == old_stack[j]);
                } else {
                    assert(ns[j].task == t);
                    if i == ns.len() - 2 {
                        assert(frame_prio(ns[i]) == old(self).exec_prio());
                    } else {
                        lemma_seq_max_or(old_stack[old_stack.len() - 1].locks@, task_prio(
                            old_stack[old_stack.len() - 1].task,
                        ));
                        assert(frame_prio(ns[i]) < task_prio(
                            old_stack[old_stack.len() - 1].task,
                        ));
                        assert(task_prio(old_stack[old_stack.len() - 1].task) <= frame_prio(
                            old_stack[old_stack.len() - 1],
                        ));
                    }
                }
            }
        }
        true
    }

    /// The running task enters a critical section on `r`, raising its
    /// effective priority to the resource's ceiling.
    pub fn lock(&mut self, r: ResourceId)
        requires
            old(self).wf(),
            old(self).prio_bounded(),
            old(self).stack@.len() > 0,
            task_uses(old(self).stack@.last().task, r),
        ensures
            final(self).wf(),
            final(self).prio_bounded(),
            final(self).stack@.len() == old(self).stack@.len(),
            final(self).stack@.last().task == old(self).stack@.last().task,
            final(self).stack@.last().locks@ == old(self).stack@.last().locks@.push(
                ceiling(r) as u8,
            ),
            final(self).stack@.subrange(0, old(self).stack@.len() - 1) == old(
                self,
            ).stack@.subrange(0, old(self).stack@.len() - 1),
            final(self).exec_prio() >= ceiling(r),
            final(self).stack_view().len() == old(self).stack_view().len(),
            final(self).stack_view().last().task == old(self).stack_view().last().task,
            final(self).stack_view().last().locks == old(self).stack_view().last().locks.push(
                ceiling(r) as u8,
            ),
            final(self).stack_view().subrange(0, old(self).stack@.len() - 1) == old(
                self,
            ).stack_view().subrange(0, old(self).stack@.len() - 1),
            forall|u: TaskId| final(self).spec_pending(u) == old(self).spec_pending(u),
    {
        let c: u8 = match r {
            ResourceId::PlayerState => 2,
            ResourceId::LeftEye => 2,
            ResourceId::RightEye => 2,
            ResourceId::Buzzer => 2,
            ResourceId::ExtiPending => 1,
            ResourceId::RotationCounter => 1,
        };
        let ghost old_stack = self.stack@;
        let mut top = match self.stack.pop() {
            Some(f) => f,
            None => {
                proof {
                    assert(false);
                }
                ActiveTask { task: TaskId::ButtonClick, locks: Vec::new() }
            },
        };
        top.locks.push(c);
        self.stack.push(top);
        proof {
            let ns = self.stack@;
            assert(ns.subrange(0, old_stack.len() - 1) =~= old_stack.subrange(
                0,
                old_stack.len() - 1,
            ));
            assert(ns.last().locks@ == old_stack.last().locks@.push(c));
            assert(ns.last().locks@.drop_last() =~= old_stack.last().locks@);
            assert(frame_prio(ns.last()) >= c);
            assert forall|i: int, j: int| 0 <= i < j < ns.len() implies frame_prio(
                #[trigger] ns[i],
            ) < task_prio(#[trigger] ns[j].task) by {
                assert(ns[i] == old_stack[i]);
                assert(ns[j].task == old_stack[j].task);
            }
            assert forall|i: int, k: int|
                0 <= i < ns.len() && 0 <= k < ns[i].locks@.len() implies lock_ok(
                ns[i].task,
                #[trigger] ns[i].locks@[k],
            ) by {
                if i < ns.len() - 1 {
                    assert(ns[i] == old_stack[i]);
                } else {
                    if k < ns[i].locks@.len() - 1 {
                        assert(ns[i].locks@[k] == old_stack[i].locks@[k]);
                    } else {
                        assert(task_uses(ns[i].task, r) && ceiling(r) == c);
                    }
                }
            }
            assert(self.stack_view().subrange(0, old_stack.len() - 1) =~~= old(
                self,
            ).stack_view().subrange(0, old_stack.len() - 1));
        }
    }

    /// The running task leaves its innermost critical section, restoring the
    /// effective priority it had before.
    pub fn unlock(&mut self)
        requires
            old(self).wf(),
            old(self).prio_bounded(),
            old(self).stack@.len() > 0,
            old(self).stack@.last().locks@.len() > 0,
        ensures
            final(self).wf(),
            final(self).prio_bounded(),
            final(self).stack@.len() == old(self).stack@.len(),
            final(self).stack@.last().task == old(self).stack@.last().task,
            final(self).stack@.last().locks@ == old(self).stack@.last().locks@.drop_last(),
            final(self).stack@.subrange(0, old(self).stack@.len() - 1) == old(
                self,
            ).stack@.subrange(0, old(self).stack@.len() - 1),
            final(self).stack_view().len() == old(self).stack_view().len(),
            final(self).stack_view().last().task == old(self).stack_view().last().task,
            final(self).stack_view().last().locks == old(
                self,
            ).stack_view().last().locks.drop_last(),
            final(self).stack_view().subrange(0, old(self).stack@.len() - 1) == old(
                self,
            ).stack_view().subrange(0, old(self).stack@.len() - 1),
            forall|u: TaskId| final(self).spec_pending(u) == old(self).spec_pending(u),
    {
        let ghost old_stack = self.stack@;
        let mut top = match self.stack.pop() {
            Some(f) => f,
            None => {
                proof {
                    assert(false);
                }
                ActiveTask { task: TaskId::ButtonClick, locks: Vec::new() }
            },
        };
        let _ = top.locks.pop();
        self.stack.push(top);
        proof {
            let ns = self.stack@;
            assert(ns.subrange(0, old_stack.len() - 1) =~= old_stack.subrange(
                0,
                old_stack.len() - 1,
            ));
            assert(ns.last().locks@ =~= old_stack.last().locks@.drop_last());
            lemma_seq_max_or(old_stack.last().locks@, task_prio(old_stack.last().task));
            assert forall|i: int, j: int| 0 <= i < j < ns.len() implies frame_prio(
                #[trigger] ns[i],
            ) < task_prio(#[trigger] ns[j].task) by {
                assert(ns[i] == old_stack[i]);
                assert(ns[j].task == old_stack[j].task);
            }
            assert forall|i: int, k: int|
                0 <= i < ns.len() && 0 <= k < ns[i].locks@.len() implies lock_ok(
                ns[i].task,
                #[trigger] ns[i].locks@[k],
            ) by {
                if i < ns.len() - 1 {
                    assert(ns[i] == old_stack[i]);
                } else {
                    assert(ns[i].locks@[k] == old_stack[i].locks@[k]);
                }
            }
            assert(self.stack_view().subrange(0, old_stack.len() - 1) =~~= old(
                self,
            ).stack_view().subrange(0, old_stack.len() - 1));
        }
    }

    /// The running task returns. It must have left every critical section;
    /// whatever it preempted resumes.
    pub fn finish(&mut self)
        requires
            old(self).wf(),
            old(self).prio_bounded(),
            old(self).stack@.len() > 0,
            old(self).stack@.last().locks@.len() == 0,
        ensures
            final(self).wf(),
            final(self).prio_bounded(),
            final(self).stack@ == old(self).stack@.drop_last(),
            forall|u: TaskId| final(self).spec_pending(u) == old(self).spec_pending(u),
    {
        let _ = self.stack.pop();
        proof {
            assert(self.stack@ =~= old(self).stack@.drop_last());
            assert(forall|i: int|
                0 <= i < self.stack@.len() ==> #[trigger] self.stack@[i] == old(self).stack@[i]);
        }
    }
}

/// A `lock`/`unlock` pair restores the task stack exactly: `before`, `mid`
/// and `after` are the stack before the lock, between the two, and after the
/// unlock.
pub proof fn lemma_lock_roundtrip(
    before: Seq<FrameV>,
    mid: Seq<FrameV>,
    after: Seq<FrameV>,
    c: u8,
)
    requires
        before.len() > 0,
        mid.len() == before.len(),
        after.len() == before.len(),
        mid.last().task == before.last().task,
        mid.last().locks == before.last().locks.push(c),
        mid.subrange(0, before.len() - 1) == before.subrange(0, before.len() - 1),
        after.last().task == mid.last().task,
        after.last().locks == mid.last().locks.drop_last(),
        after.subrange(0, before.len() - 1) == mid.subrange(0, before.len() - 1),
    ensures
        after == before,
{
    assert forall|i: int| 0 <= i < before.len() implies after[i] =~~= before[i] by {
        if i < before.len() - 1 {
            assert(after.subrange(0, before.len() - 1)[i] == before.subrange(
                0,
                before.len() - 1,
            )[i]);
        } else {
            assert(after[i] == after.last());
            assert(before[i] == before.last());
            assert(after[i].task == before[i].task);
            assert(after[i].locks =~= before[i].locks);
        }
    }
    assert(after =~~= before);
}

/// Tasks never run reentrantly: while a task is anywhere on the stack, the
/// scheduler will not dispatch it again.
pub proof fn lemma_no_reentry(s: Sched, t: TaskId, i: int)
    requires
        s.wf(),
        0 <= i < s.stack@.len(),
        s.stack@[i].task == t,
    ensures
        !s.can_start(t),
{
    lemma_seq_max_or(s.stack@[i].locks@, task_prio(t));
    if i < s.stack@.len() - 1 {
        lemma_seq_max_or(s.stack@[s.stack@.len() - 1].locks@, task_prio(
            s.stack@[s.stack@.len() - 1].task,
        ));
        assert(frame_prio(s.stack@[i]) < task_prio(s.stack@[s.stack@.len() - 1].task));
    }
}

/// Tasks of equal static priority never preempt each other: while one runs,
/// a pending peer waits.
pub proof fn lemma_peer_no_preempt(s: Sched, u: TaskId)
    requires
        s.wf(),
        s.stack@.len() > 0,
        task_prio(u) == task_prio(s.stack@.last().task),
    ensures
        !s.can_start(u),
{
    lemma_seq_max_or(s.stack@.last().locks@, task_prio(s.stack@.last().task));
}

/// The ceiling protocol's exclusion: while the running task holds the
/// ceiling of a resource, no task that shares that resource can start. In
/// particular, while `frame_tick` holds the player's ceiling to update the
/// tone, `sound_tick` cannot run, so it never observes a half-updated tone.
pub proof fn lemma_ceiling_excludes(s: Sched, k: int, r: ResourceId, u: TaskId)
    requires
        s.wf(),
        s.stack@.len() > 0,
        0 <= k < s.stack@.last().locks@.len(),
        s.stack@.last().locks@[k] == ceiling(r),
        task_uses(u, r),
    ensures
        !s.can_start(u),
{
    lemma_seq_max_or(s.stack@.last().locks@, task_prio(s.stack@.last().task));
    lemma_ceiling_correct(u, r);
}

} // verus!
