use vstd::prelude::*;
use crate::aspace::IsolationMode;
use crate::error::LoadError;
use crate::image::{AppDescriptor, declared_count, offset_of, parse_container, size_at, well_formed};

verus! {

/// Where the loader stands.
#[derive(Debug, Clone, Copy, PartialEq, Eq, Structural)]
pub enum Phase {
    /// Created, nothing done yet.
    Ready,
    /// Waiting for the current application's domain to be active.
    Activating,
    /// Waiting for the current application's code to be in the window.
    Copying,
    /// Control has been handed to the current application.
    Transferring,
    /// Every application ran; nothing further is defined.
    Idle,
    /// An application asked for termination; the whole loader stops.
    Halted,
    /// Loading was abandoned on a fatal condition.
    Failed,
}

/// What the surrounding system reports back to the loader.
#[derive(Debug, Clone, Copy, PartialEq, Eq, Structural)]
pub enum Event {
    Start,
    Activated,
    Copied,
    Returned,
    Terminated,
}

/// What the loader asks the surrounding system to do next.
#[derive(Debug, Clone, Copy, PartialEq, Eq, Structural)]
pub enum Action {
    /// Activate the domain with this tag, then flush translations.
    Activate(usize),
    /// Copy `size` container bytes from `source_offset` into the window.
    Copy { source_offset: usize, size: usize },
    /// Jump to the window, passing the service table's base address.
    Jump,
    /// All applications are done.
    Finished,
    /// End the whole process as a deliberate shutdown.
    Halt,
    /// End the process, reporting the error.
    Abort(LoadError),
    /// The event changes nothing; wait for the next one.
    Wait,
}

/// Phase and action on reaching the copy of application `i`.
pub open spec fn copy_step(apps: Seq<AppDescriptor>, capacity: nat, i: int) -> (Phase, Action) {
    if apps[i].size > capacity {
        (Phase::Failed, Action::Abort(LoadError::WindowOverflow))
    } else {
        (
            Phase::Copying,
            Action::Copy { source_offset: apps[i].source_offset, size: apps[i].size as usize },
        )
    }
}

/// Phase and action on reaching application `i`.
pub open spec fn begin_step(apps: Seq<AppDescriptor>, mode: IsolationMode, capacity: nat, i: int) -> (
    Phase,
    Action,
) {
    if i >= apps.len() {
        (Phase::Idle, Action::Finished)
    } else if mode == IsolationMode::PerAppDomain {
        (Phase::Activating, Action::Activate(apps[i].index as usize))
    } else {
        copy_step(apps, capacity, i)
    }
}

/// Whether the loader can still act.
pub open spec fn is_running(p: Phase) -> bool {
    p != Phase::Idle && p != Phase::Halted && p != Phase::Failed
}

/// The next phase, cursor and action after `ev`.
pub open spec fn transition(
    apps: Seq<AppDescriptor>,
    mode: IsolationMode,
    capacity: nat,
    phase: Phase,
    cursor: nat,
    ev: Event,
) -> (Phase, nat, Action) {
    if ev == Event::Terminated && is_running(phase) {
        (Phase::Halted, cursor, Action::Halt)
    } else if phase == Phase::Ready && ev == Event::Start {
        let (p, a) = begin_step(apps, mode, capacity, 0);
        (p, 0, a)
    } else if phase == Phase::Activating && ev == Event::Activated {
        let (p, a) = copy_step(apps, capacity, cursor as int);
        (p, cursor, a)
    } else if phase == Phase::Copying && ev == Event::Copied {
        (Phase::Transferring, cursor, Action::Jump)
    } else if phase == Phase::Transferring && ev == Event::Returned {
        let (p, a) = begin_step(apps, mode, capacity, cursor as int + 1);
        (p, cursor + 1, a)
    } else {
        (phase, cursor, Action::Wait)
    }
}

/// The load/execute state machine over a container's applications.
pub struct Loader {
    apps: Vec<AppDescriptor>,
    mode: IsolationMode,
    window_capacity: usize,
    phase: Phase,
    cursor: usize,
}

impl Loader {
    pub closed spec fn apps(&self) -> Seq<AppDescriptor> {
        self.apps@
    }

    pub closed spec fn mode(&self) -> IsolationMode {
        self.mode
    }

    pub closed spec fn capacity(&self) -> nat {
        self.window_capacity as nat
    }

    pub closed spec fn phase_spec(&self) -> Phase {
        self.phase
    }

    /// Index of the application being handled.
    pub closed spec fn cursor_spec(&self) -> nat {
        self.cursor as nat
    }

    pub open spec fn wf(&self) -> bool {
        &&& self.cursor_spec() <= self.apps().len()
        &&& (self.phase_spec() == Phase::Activating || self.phase_spec() == Phase::Copying
            || self.phase_spec() == Phase::Transferring) ==> self.cursor_spec() < self.apps().len()
    }

    /// A loader for `apps`, in `mode`, with a window of `window_capacity` bytes.
    pub fn new(apps: Vec<AppDescriptor>, mode: IsolationMode, window_capacity: usize) -> (r: Loader)
        ensures
            r.wf(),
            r.apps() == apps@,
            r.mode() == mode,
            r.capacity() == window_capacity,
            r.phase_spec() == Phase::Ready,
            r.cursor_spec() == 0,
    {
        Loader { apps, mode, window_capacity, phase: Phase::Ready, cursor: 0 }
    }

    /// A loader for the applications of container `b`.
    pub fn from_container(b: &[u8], mode: IsolationMode, window_capacity: usize) -> (r: Result<
        Loader,
        LoadError,
    >)
        ensures
            r is Ok <==> well_formed(b@),
            r is Err ==> r == Err::<Loader, LoadError>(LoadError::MalformedContainer),
            r matches Ok(l) ==> {
                &&& l.wf()
                &&& l.apps().len() == declared_count(b@)
                &&& forall|i: int|
                    #![trigger l.apps()[i]]
                    0 <= i < l.apps().len() ==> {
                        &&& l.apps()[i].index == i
                        &&& l.apps()[i].size == size_at(b@, i)
                        &&& l.apps()[i].source_offset == offset_of(b@, declared_count(b@), i)
                    }
                &&& l.mode() == mode
                &&& l.capacity() == window_capacity
                &&& l.phase_spec() == Phase::Ready
                &&& l.cursor_spec() == 0
            },
    {
        match parse_container(b) {
            Ok(apps) => Ok(Loader::new(apps, mode, window_capacity)),
            Err(e) => Err(e),
        }
    }

    pub fn phase(&self) -> (r: Phase)
        ensures
            r == self.phase_spec(),
    {
        self.phase
    }

    pub fn cursor(&self) -> (r: usize)
        ensures
            r == self.cursor_spec(),
    {
        self.cursor
    }

    fn begin(&mut self, i: usize) -> (a: Action)
        requires
            i <= old(self).apps().len(),
        ensures
            final(self).wf(),
            final(self).apps() == old(self).apps(),
            final(self).mode() == old(self).mode(),
            final(self).capacity() == old(self).capacity(),
            final(self).cursor_spec() == i,
            (final(self).phase_spec(), a) == begin_step(
                old(self).apps(),
                old(self).mode(),
                old(self).capacity(),
                i as int,
            ),
    {
        self.cursor = i;
        if i >= self.apps.len() {
            self.phase = Phase::Idle;
            Action::Finished
        } else {
            match self.mode {
                IsolationMode::PerAppDomain => {
                    self.phase = Phase::Activating;
                    Action::Activate(self.apps[i].index as usize)
                },
                IsolationMode::SingleWindow => self.copy(),
            }
        }
    }

    fn copy(&mut self) -> (a: Action)
        requires
            old(self).cursor_spec() < old(self).apps().len(),
        ensures
            final(self).wf(),
            final(self).apps() == old(self).apps(),
            final(self).mode() == old(self).mode(),
            final(self).capacity() == old(self).capacity(),
            final(self).cursor_spec() == old(self).cursor_spec(),
            (final(self).phase_spec(), a) == copy_step(
                old(self).apps(),
                old(self).capacity(),
                old(self).cursor_spec() as int,
            ),
    {
        let d = self.apps[self.cursor];
        if d.size as usize > self.window_capacity {
            self.phase = Phase::Failed;
            Action::Abort(LoadError::WindowOverflow)
        } else {
            self.phase = Phase::Copying;
            Action::Copy { source_offset: d.source_offset, size: d.size as usize }
        }
    }

    /// Advances on `ev` and says what to do next.
    pub fn step(&mut self, ev: Event) -> (a: Action)
        requires
            old(self).wf(),
        ensures
            final(self).wf(),
            final(self).apps() == old(self).apps(),
            final(self).mode() == old(self).mode(),
            final(self).capacity() == old(self).capacity(),
            (final(self).phase_spec(), final(self).cursor_spec(), a) == transition(
                old(self).apps(),
                old(self).mode(),
                old(self).capacity(),
                old(self).phase_spec(),
                old(self).cursor_spec(),
                ev,
            ),
    {
        let running = match self.phase {
            Phase::Idle | Phase::Halted | Phase::Failed => false,
            _ => true,
        };
        match (self.phase, ev) {
            (_, Event::Terminated) if running => {
                self.phase = Phase::Halted;
                Action::Halt
            },
            (Phase::Ready, Event::Start) => self.begin(0),
            (Phase::Activating, Event::Activated) => self.copy(),
            (Phase::Copying, Event::Copied) => {
                self.phase = Phase::Transferring;
                Action::Jump
            },
            (Phase::Transferring, Event::Returned) => {
                let n = self.apps.len();
                assert(self.cursor < n);
                let next = self.cursor + 1;
                self.begin(next)
            },
            _ => Action::Wait,
        }
    }
}

/// Once halted, no event moves the loader: its cursor never advances past
/// the application that asked for termination.
pub proof fn lemma_halt_is_final(
    apps: Seq<AppDescriptor>,
    mode: IsolationMode,
    capacity: nat,
    phase: Phase,
    cursor: nat,
    ev: Event,
    ev2: Event,
)
    requires
        is_running(phase),
    ensures
        transition(apps, mode, capacity, phase, cursor, Event::Terminated) == (
            Phase::Halted,
            cursor,
            Action::Halt,
        ),
        transition(apps, mode, capacity, Phase::Halted, cursor, ev2) == (
            Phase::Halted,
            cursor,
            Action::Wait,
        ),
{
}

/// A container with no applications finishes at once, with no copy and no
/// transfer.
pub proof fn lemma_empty_finishes(mode: IsolationMode, capacity: nat)
    ensures
        transition(Seq::<AppDescriptor>::empty(), mode, capacity, Phase::Ready, 0, Event::Start)
            == (Phase::Idle, 0nat, Action::Finished),
{
}

/// With a domain per application and descriptors numbered in order, the
/// loader activates domain 0 first, moves from application `i` to domain
/// `i + 1` when `i` returns, and finishes after the last one: each domain
/// is activated once, in order.
pub proof fn lemma_activation_order(apps: Seq<AppDescriptor>, capacity: nat, i: int)
    requires
        forall|k: int| 0 <= k < apps.len() ==> #[trigger] apps[k].index == k,
        0 <= i < apps.len(),
    ensures
        transition(apps, IsolationMode::PerAppDomain, capacity, Phase::Ready, 0, Event::Start) == (
            Phase::Activating,
            0nat,
            Action::Activate(0),
        ),
        i + 1 < apps.len() ==> transition(
            apps,
            IsolationMode::PerAppDomain,
            capacity,
            Phase::Transferring,
            i as nat,
            Event::Returned,
        ) == (Phase::Activating, (i + 1) as nat, Action::Activate((i + 1) as usize)),
        i + 1 == apps.len() ==> transition(
            apps,
            IsolationMode::PerAppDomain,
            capacity,
            Phase::Transferring,
            i as nat,
            Event::Returned,
        ) == (Phase::Idle, (i + 1) as nat, Action::Finished),
{
    assert(apps[0].index == 0);
    if i + 1 < apps.len() {
        assert(apps[i + 1].index == i + 1);
    }
}

/// An application exactly as large as the window is copied; one a byte
/// larger aborts loading with an overflow, before any copy, and nothing
/// moves the loader afterwards.
pub proof fn lemma_window_bound_in_loader(
    apps: Seq<AppDescriptor>,
    mode: IsolationMode,
    capacity: nat,
    i: int,
    ev: Event,
)
    requires
        0 <= i < apps.len(),
    ensures
        apps[i].size == capacity ==> copy_step(apps, capacity, i) == (
            Phase::Copying,
            Action::Copy { source_offset: apps[i].source_offset, size: apps[i].size as usize },
        ),
        apps[i].size == capacity + 1 ==> copy_step(apps, capacity, i) == (
            Phase::Failed,
            Action::Abort(LoadError::WindowOverflow),
        ),
        transition(apps, mode, capacity, Phase::Failed, i as nat, ev) == (
            Phase::Failed,
            i as nat,
            Action::Wait,
        ),
{
}

} // verus!
