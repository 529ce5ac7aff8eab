//! The registry of targets and the two steps that change it: deciding the
//! targets one by one, in the order of their rows, and applying the
//! outcomes of the mount attempts as they come in, in any order. Each step
//! hands back what has to be written to the terminal.

use crate::cursor::{move_sequence, Cursor};
use crate::host::{decided_status, mount_path_of, status_line, Host, HostView, MountJob};
use crate::snapshot::MountSnapshot;
use crate::status::{may_become, Status, StatusView};
use vstd::prelude::*;
use vstd::string::*;

verus! {

/// How many of the targets are pending.
pub open spec fn pending_count(hosts: Seq<HostView>) -> nat
    decreases hosts.len(),
{
    if hosts.len() == 0 {
        0
    } else {
        pending_count(hosts.drop_last()) + if hosts.last().status is Pending {
            1nat
        } else {
            0nat
        }
    }
}

/// Whether the snapshot has nothing mounted where `host` is to be mounted
/// below `base`, so that a mount attempt is needed.
pub open spec fn needs_mount(
    host: HostView,
    base: Seq<char>,
    snapshot: Map<Seq<char>, Seq<char>>,
) -> bool {
    !snapshot.contains_key(mount_path_of(base, host.local))
}

/// How many of the first `n` targets need a mount attempt.
pub open spec fn absent_count(
    hosts: Seq<HostView>,
    base: Seq<char>,
    snapshot: Map<Seq<char>, Seq<char>>,
    n: nat,
) -> nat
    decreases n,
{
    if n == 0 {
        0
    } else {
        absent_count(hosts, base, snapshot, (n - 1) as nat) + if needs_mount(
            hosts[n - 1],
            base,
            snapshot,
        ) {
            1nat
        } else {
            0nat
        }
    }
}

/// Changing the status of one target changes the number of pending ones by
/// what that target adds to it.
pub proof fn lemma_pending_update(hosts: Seq<HostView>, i: int, host: HostView)
    requires
        0 <= i < hosts.len(),
    ensures
        pending_count(hosts.update(i, host)) + (if hosts[i].status is Pending {
            1nat
        } else {
            0nat
        }) == pending_count(hosts) + (if host.status is Pending {
            1nat
        } else {
            0nat
        }),
    decreases hosts.len(),
{
    let last = hosts.len() - 1;
    if i == last {
        assert(hosts.update(i, host).drop_last() == hosts.drop_last());
    } else {
        assert(hosts.update(i, host).drop_last() == hosts.drop_last().update(i, host));
        lemma_pending_update(hosts.drop_last(), i, host);
    }
}

/// No target is pending exactly when the number of pending targets is 0.
pub proof fn lemma_none_pending(hosts: Seq<HostView>)
    ensures
        pending_count(hosts) == 0 <==> forall|i: int|
            0 <= i < hosts.len() ==> !((#[trigger] hosts[i]).status is Pending),
    decreases hosts.len(),
{
    if hosts.len() > 0 {
        let front = hosts.drop_last();
        lemma_none_pending(front);
        if pending_count(hosts) == 0 {
            assert forall|i: int| 0 <= i < hosts.len() implies !((
            #[trigger] hosts[i]).status is Pending) by {
                if i < front.len() {
                    assert(front[i] == hosts[i]);
                }
            }
        }
        if forall|i: int| 0 <= i < hosts.len() ==> !((#[trigger] hosts[i]).status is Pending) {
            assert forall|i: int| 0 <= i < front.len() implies !((
            #[trigger] front[i]).status is Pending) by {
                assert(front[i] == hosts[i]);
            }
            assert(!(hosts[hosts.len() - 1].status is Pending));
        }
    }
}

/// Which targets need a mount attempt depends on their names alone.
pub proof fn lemma_absent_same_names(
    before: Seq<HostView>,
    after: Seq<HostView>,
    base: Seq<char>,
    snapshot: Map<Seq<char>, Seq<char>>,
    n: nat,
)
    requires
        n <= before.len() == after.len(),
        forall|i: int| 0 <= i < n ==> before[i].local == after[i].local,
    ensures
        absent_count(before, base, snapshot, n) == absent_count(after, base, snapshot, n),
    decreases n,
{
    if n > 0 {
        lemma_absent_same_names(before, after, base, snapshot, (n - 1) as nat);
    }
}

/// At most `n` of the first `n` targets need a mount attempt.
pub proof fn lemma_absent_bound(
    hosts: Seq<HostView>,
    base: Seq<char>,
    snapshot: Map<Seq<char>, Seq<char>>,
    n: nat,
)
    ensures
        absent_count(hosts, base, snapshot, n) <= n,
    decreases n,
{
    if n > 0 {
        lemma_absent_bound(hosts, base, snapshot, (n - 1) as nat);
    }
}

/// What a decided target may look like: where the snapshot has something
/// on its mount point, the status that the snapshot decided, for good;
/// where it has nothing, pending or the outcome of the mount attempt.
pub open spec fn settled(host: HostView, base: Seq<char>, snapshot: Map<Seq<char>, Seq<char>>) -> bool {
    let at = mount_path_of(base, host.local);
    if snapshot.contains_key(at) {
        host.status == decided_status(snapshot, at, host.remote)
    } else {
        host.status is Pending || host.status.is_outcome()
    }
}

/// Whether each target stands on the row of its place in the list.
pub open spec fn well_numbered(hosts: Seq<HostView>) -> bool {
    forall|i: int| 0 <= i < hosts.len() ==> (#[trigger] hosts[i]).y == i
}

/// Whether nothing has been decided for any target.
pub open spec fn all_undecided(hosts: Seq<HostView>) -> bool {
    forall|i: int| 0 <= i < hosts.len() ==> (#[trigger] hosts[i]).status is Unknown
}

/// A breach of the rules of the registry. None of them is an outcome of a
/// run; each shows a mistake in the program that drives the registry.
#[derive(Debug, Clone, Copy, PartialEq, Eq, Structural)]
pub enum Fault {
    /// There are more targets than rows.
    TooManyHosts,
    /// A target does not stand on the row of its place in the list.
    Misnumbered,
    /// A target that was handed in as new has a status already.
    AlreadyDecided,
    /// An outcome came in before every target was decided.
    DispatchUnfinished,
    /// An outcome came in for a row that no target stands on.
    UnknownRow,
    /// An outcome came in for a target that awaits none.
    NotPending,
    /// What came in as an outcome is neither mounted nor failed.
    NotAnOutcome,
}

/// The registry with its texts as sequences of characters.
pub struct RegistryView {
    /// The targets, in the order of their rows.
    pub hosts: Seq<HostView>,
    /// The directory below which the targets are mounted.
    pub base: Seq<char>,
    /// What was mounted where before the run.
    pub snapshot: Map<Seq<char>, Seq<char>>,
    /// How many targets have been decided: those on the rows below this.
    pub decided: nat,
    /// How many mount attempts were handed out.
    pub launched: nat,
    /// How many outcomes were applied.
    pub received: nat,
    /// The cursor of the view.
    pub cursor: Cursor,
}

impl RegistryView {
    /// What holds of a registry at any time.
    pub open spec fn wf(self) -> bool {
        &&& self.hosts.len() <= i32::MAX
        &&& self.decided <= self.hosts.len()
        &&& well_numbered(self.hosts)
        &&& forall|i: int|
            self.decided <= i < self.hosts.len() ==> (#[trigger] self.hosts[i]).status is Unknown
        &&& forall|i: int|
            0 <= i < self.decided ==> settled(#[trigger] self.hosts[i], self.base, self.snapshot)
        &&& self.launched == absent_count(self.hosts, self.base, self.snapshot, self.decided)
        &&& pending_count(self.hosts) + self.received == self.launched
        &&& self.cursor.max_y == self.hosts.len()
        &&& 0 <= self.cursor.cur_y <= self.hosts.len()
    }

    /// Whether every target has been decided.
    pub open spec fn all_decided(self) -> bool {
        self.decided == self.hosts.len()
    }

    /// How many outcomes are still awaited.
    pub open spec fn outstanding(self) -> nat {
        (self.launched - self.received) as nat
    }

    /// Whether the run is over: every target decided, every outcome applied.
    pub open spec fn done(self) -> bool {
        self.all_decided() && self.received == self.launched
    }
}

/// The targets of a list, each by its view.
pub open spec fn views(hosts: Seq<Host>) -> Seq<HostView> {
    hosts.map_values(|h: Host| h@)
}

/// The registry of a run: the targets with their status, the base
/// directory and the snapshot they are decided against, and the cursor of
/// the terminal view.
pub struct Registry {
    hosts: Vec<Host>,
    base: String,
    mounts: MountSnapshot,
    next: usize,
    launched: usize,
    received: usize,
    cursor: Cursor,
}

impl View for Registry {
    type V = RegistryView;

    closed spec fn view(&self) -> RegistryView {
        RegistryView {
            hosts: views(self.hosts@),
            base: self.base@,
            snapshot: self.mounts@,
            decided: self.next as nat,
            launched: self.launched as nat,
            received: self.received as nat,
            cursor: self.cursor,
        }
    }
}

/// What deciding a target hands back: what to write to the terminal, and
/// the mount attempt to launch, if the target needs one.
#[derive(Debug, Clone, PartialEq, Eq)]
pub struct Dispatch {
    pub output: String,
    pub job: Option<MountJob>,
}

/// A target once it is decided against the snapshot.
pub open spec fn dispatched(
    target: HostView,
    base: Seq<char>,
    snapshot: Map<Seq<char>, Seq<char>>,
) -> HostView {
    HostView {
        status: decided_status(snapshot, mount_path_of(base, target.local), target.remote),
        ..target
    }
}

/// Why an outcome cannot be applied, if it cannot: not before every target
/// is decided, only to a row that a target stands on, only to a target that
/// is pending, and only a status that is mounted or failed.
pub open spec fn completion_fault(registry: RegistryView, row: int, status: StatusView) -> Option<
    Fault,
> {
    if !registry.all_decided() {
        Some(Fault::DispatchUnfinished)
    } else if !(0 <= row < registry.hosts.len()) {
        Some(Fault::UnknownRow)
    } else if !(registry.hosts[row].status is Pending) {
        Some(Fault::NotPending)
    } else if !status.is_outcome() {
        Some(Fault::NotAnOutcome)
    } else {
        None
    }
}

/// Why a list of targets cannot start a run, if it cannot.
pub open spec fn intake_fault(hosts: Seq<HostView>) -> Option<Fault> {
    if hosts.len() > i32::MAX {
        Some(Fault::TooManyHosts)
    } else if !well_numbered(hosts) {
        Some(Fault::Misnumbered)
    } else if !all_undecided(hosts) {
        Some(Fault::AlreadyDecided)
    } else {
        None
    }
}

/// The registry at the start of a run.
pub open spec fn fresh(
    hosts: Seq<HostView>,
    base: Seq<char>,
    snapshot: Map<Seq<char>, Seq<char>>,
) -> RegistryView {
    RegistryView {
        hosts,
        base,
        snapshot,
        decided: 0,
        launched: 0,
        received: 0,
        cursor: Cursor { cur_y: hosts.len() as i32, max_y: hosts.len() as i32 },
    }
}

impl Registry {
    /// What holds of a registry at any time.
    pub open spec fn wf(&self) -> bool {
        self@.wf()
    }

    /// Starts a run on the targets `hosts`, to be mounted below `base` and
    /// decided against `mounts`. The targets must be undecided, each on the
    /// row of its place in the list, and no more than there are rows.
    pub fn new(hosts: Vec<Host>, base: String, mounts: MountSnapshot) -> (result: Result<
        Registry,
        Fault,
    >)
        ensures
            match result {
                Ok(registry) => {
                    &&& intake_fault(views(hosts@)) is None
                    &&& registry@ == fresh(views(hosts@), base@, mounts@)
                    &&& registry.wf()
                },
                Err(fault) => intake_fault(views(hosts@)) == Some(fault),
            },
    {
        let n = hosts.len();
        if n > 2147483647 {
            return Err(Fault::TooManyHosts);
        }
        let mut i: usize = 0;
        while i < n
            invariant
                i <= n == hosts.len() <= i32::MAX,
                forall|k: int| 0 <= k < i ==> (#[trigger] views(hosts@)[k]).y == k,
            decreases n - i,
        {
            if hosts[i].y != i as i32 {
                assert(views(hosts@)[i as int].y != i);
                return Err(Fault::Misnumbered);
            }
            i = i + 1;
        }
        i = 0;
        while i < n
            invariant
                i <= n == hosts.len() <= i32::MAX,
                well_numbered(views(hosts@)),
                forall|k: int| 0 <= k < i ==> (#[trigger] views(hosts@)[k]).status is Unknown,
            decreases n - i,
        {
            match hosts[i].status {
                Status::Unknown => {},
                _ => {
                    assert(!(views(hosts@)[i as int].status is Unknown));
                    return Err(Fault::AlreadyDecided);
                },
            }
            i = i + 1;
        }
        let cursor = Cursor::new(n as i32);
        let registry = Registry { hosts, base, mounts, next: 0, launched: 0, received: 0, cursor };
        proof {
            lemma_none_pending(registry@.hosts);
        }
        Ok(registry)
    }

    /// Decides the next target, in the order of the rows, and hands back
    /// its status line and the mount attempt to launch for it, if one is
    /// needed. Gives `None`, and changes nothing, once every target is
    /// decided.
    pub fn dispatch_next(&mut self) -> (step: Option<Dispatch>)
        requires
            old(self).wf(),
        ensures
            final(self).wf(),
            match step {
                None => old(self)@.all_decided() && final(self)@ == old(self)@,
                Some(dispatch) => {
                    let was = old(self)@;
                    let row = was.decided as int;
                    let target = was.hosts[row];
                    let decided = dispatched(target, was.base, was.snapshot);
                    &&& !was.all_decided()
                    &&& final(self)@ == (RegistryView {
                        hosts: was.hosts.update(row, decided),
                        decided: was.decided + 1,
                        launched: was.launched + if needs_mount(target, was.base, was.snapshot) {
                            1nat
                        } else {
                            0nat
                        },
                        ..was
                    })
                    &&& may_become(target.status, decided.status)
                    &&& !(decided.status is Unknown)
                    &&& dispatch.output@ == status_line(decided) + "\n"@
                    &&& dispatch.job is Some <==> needs_mount(target, was.base, was.snapshot)
                    &&& dispatch.job matches Some(job) ==> job.row == row && job.remote@
                        == target.remote && job.at@ == mount_path_of(was.base, target.local)
                },
            },
    {
        if self.next >= self.hosts.len() {
            return None;
        }
        let row = self.next;
        let ghost was = self@;
        let ghost target = was.hosts[row as int];
        assert(target.status is Unknown);
        assert(self.hosts[row as int]@ == target);
        let job = self.hosts[row].check_and_spawn(self.base.as_str(), &self.mounts);
        let mut output = self.hosts[row].print();
        output.append("\n");
        self.next = row + 1;
        proof {
            lemma_absent_bound(was.hosts, was.base, was.snapshot, was.decided);
        }
        if job.is_some() {
            self.launched = self.launched + 1;
        }
        proof {
            let decided = dispatched(target, was.base, was.snapshot);
            assert(self.hosts[row as int]@ == decided);
            assert(self@.hosts =~= was.hosts.update(row as int, decided));
            lemma_pending_update(was.hosts, row as int, decided);
            lemma_absent_same_names(was.hosts, self@.hosts, was.base, was.snapshot, was.decided);
            assert forall|i: int| 0 <= i < self@.decided implies settled(
                #[trigger] self@.hosts[i],
                self@.base,
                self@.snapshot,
            ) by {
                if i < row {
                    assert(self@.hosts[i] == was.hosts[i]);
                }
            }
        }
        Some(Dispatch { output, job })
    }

    /// Applies the outcome of the mount attempt for `row` and hands back
    /// what has to be written to the terminal: the movement of the cursor
    /// to that row, the new status line and its newline. The cursor then
    /// stands on the row below. An outcome that breaks the rules changes
    /// nothing.
    pub fn complete(&mut self, row: i32, status: Status) -> (result: Result<String, Fault>)
        requires
            old(self).wf(),
        ensures
            final(self).wf(),
            match result {
                Ok(output) => {
                    let was = old(self)@;
                    let done = (HostView { status: status@, ..was.hosts[row as int] });
                    &&& completion_fault(was, row as int, status@) is None
                    &&& final(self)@ == (RegistryView {
                        hosts: was.hosts.update(row as int, done),
                        received: was.received + 1,
                        cursor: (Cursor { cur_y: (row + 1) as i32, max_y: was.cursor.max_y }),
                        ..was
                    })
                    &&& may_become(was.hosts[row as int].status, status@)
                    &&& output@ == move_sequence(was.cursor.cur_y as int, row as int) + status_line(
                        done,
                    ) + "\n"@
                    &&& row == was.cursor.cur_y ==> output@ == status_line(done) + "\n"@
                },
                Err(fault) => {
                    &&& completion_fault(old(self)@, row as int, status@) == Some(fault)
                    &&& final(self)@ == old(self)@
                },
            },
    {
        let n = self.hosts.len();
        if self.next < n {
            return Err(Fault::DispatchUnfinished);
        }
        if row < 0 || row as usize >= n {
            return Err(Fault::UnknownRow);
        }
        let at = row as usize;
        let ghost was = self@;
        assert(self.hosts[at as int]@ == was.hosts[at as int]);
        if !self.hosts[at].status.is_pending() {
            return Err(Fault::NotPending);
        }
        if !status.is_outcome() {
            return Err(Fault::NotAnOutcome);
        }
        self.hosts[at].status = status;
        assert(self.hosts[at as int].y == row);
        let output = self.cursor.render(&self.hosts[at]);
        proof {
            lemma_absent_bound(was.hosts, was.base, was.snapshot, was.decided);
            lemma_none_pending(was.hosts);
        }
        self.received = self.received + 1;
        proof {
            let done = HostView { status: status@, ..was.hosts[at as int] };
            assert(self.hosts[at as int]@ == done);
            assert(self@.hosts =~= was.hosts.update(at as int, done));
            lemma_pending_update(was.hosts, at as int, done);
            lemma_absent_same_names(was.hosts, self@.hosts, was.base, was.snapshot, was.decided);
            assert forall|i: int| 0 <= i < self@.decided implies settled(
                #[trigger] self@.hosts[i],
                self@.base,
                self@.snapshot,
            ) by {
                if i != at {
                    assert(self@.hosts[i] == was.hosts[i]);
                } else {
                    assert(settled(was.hosts[i], was.base, was.snapshot));
                }
            }
        }
        Ok(output)
    }

    /// Ends the run on the terminal: moves the cursor below the last row
    /// and hands back what has to be written for it.
    pub fn finish(&mut self) -> (output: String)
        requires
            old(self).wf(),
        ensures
            final(self).wf(),
            final(self)@ == (RegistryView {
                cursor: (Cursor { cur_y: old(self)@.cursor.max_y, max_y: old(self)@.cursor.max_y }),
                ..old(self)@
            }),
            output@ == move_sequence(
                old(self)@.cursor.cur_y as int,
                old(self)@.hosts.len() as int,
            ),
    {
        self.cursor.max_out()
    }

    /// The targets, in the order of their rows.
    pub fn targets(&self) -> (hosts: &Vec<Host>)
        ensures
            views(hosts@) == self@.hosts,
    {
        &self.hosts
    }

    /// The cursor of the view.
    pub fn cursor(&self) -> (cursor: Cursor)
        ensures
            cursor == self@.cursor,
    {
        self.cursor
    }

    /// How many outcomes are still awaited.
    pub fn outstanding(&self) -> (n: usize)
        requires
            self.wf(),
        ensures
            n == self@.outstanding(),
            n == pending_count(self@.hosts),
    {
        self.launched - self.received
    }

    /// Whether the run is over: every target is decided and no outcome is
    /// awaited any more.
    pub fn is_done(&self) -> (done: bool)
        requires
            self.wf(),
        ensures
            done == self@.done(),
    {
        self.next == self.hosts.len() && self.received == self.launched
    }
}

/// When a run is over, every target is mounted, flagged or failed: none is
/// undecided and none is pending.
pub proof fn lemma_done_is_terminal(registry: RegistryView)
    requires
        registry.wf(),
        registry.done(),
    ensures
        forall|i: int|
            0 <= i < registry.hosts.len() ==> (#[trigger] registry.hosts[i]).status.is_terminal(),
{
    lemma_none_pending(registry.hosts);
    assert forall|i: int| 0 <= i < registry.hosts.len() implies (
    #[trigger] registry.hosts[i]).status.is_terminal() by {
        assert(settled(registry.hosts[i], registry.base, registry.snapshot));
        assert(!(registry.hosts[i].status is Pending));
    }
}

/// Once every target is decided, as many mount attempts were handed out as
/// targets have nothing on their mount point in the snapshot, and as many
/// outcomes are awaited as targets are pending. The run is over exactly
/// when that many outcomes were applied, which is exactly when every target
/// is mounted, flagged or failed.
pub proof fn lemma_outcomes_awaited(registry: RegistryView)
    requires
        registry.wf(),
        registry.all_decided(),
    ensures
        registry.launched == absent_count(
            registry.hosts,
            registry.base,
            registry.snapshot,
            registry.hosts.len(),
        ),
        registry.received <= registry.launched,
        registry.outstanding() == pending_count(registry.hosts),
        registry.done() <==> registry.received == registry.launched,
        registry.done() <==> forall|i: int|
            0 <= i < registry.hosts.len() ==> (#[trigger] registry.hosts[i]).status.is_terminal(),
{
    lemma_none_pending(registry.hosts);
    if registry.done() {
        lemma_done_is_terminal(registry);
    }
    if forall|i: int|
        0 <= i < registry.hosts.len() ==> (#[trigger] registry.hosts[i]).status.is_terminal() {
        assert forall|i: int| 0 <= i < registry.hosts.len() implies !((
        #[trigger] registry.hosts[i]).status is Pending) by {
            assert(registry.hosts[i].status.is_terminal());
        }
    }
}

/// A decided target on whose mount point the snapshot has something is
/// mounted where that is the declared source, and flagged with a reason
/// that holds the source found there otherwise; no outcome changes that.
pub proof fn lemma_resolved_by_snapshot(registry: RegistryView, row: int)
    requires
        registry.wf(),
        0 <= row < registry.decided,
        !needs_mount(registry.hosts[row], registry.base, registry.snapshot),
    ensures
        ({
            let target = registry.hosts[row];
            let found = registry.snapshot[mount_path_of(registry.base, target.local)];
            if found == target.remote {
                target.status is Okay
            } else {
                target.status == StatusView::Warned(crate::host::warn_reason(found))
            }
        }),
{
    assert(settled(registry.hosts[row], registry.base, registry.snapshot));
}

/// A decided target on whose mount point the snapshot has nothing is
/// pending until the outcome of its mount attempt is applied, and mounted
/// or failed from then on.
pub proof fn lemma_resolved_by_attempt(registry: RegistryView, row: int)
    requires
        registry.wf(),
        0 <= row < registry.decided,
        needs_mount(registry.hosts[row], registry.base, registry.snapshot),
    ensures
        registry.hosts[row].status is Pending || registry.hosts[row].status.is_outcome(),
{
    assert(settled(registry.hosts[row], registry.base, registry.snapshot));
}

} // verus!
