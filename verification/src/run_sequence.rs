//! The order in which a set of containers is brought up: everything is checked,
//! then built, then created, then started, and what was created is undone if
//! creating or starting fails in the middle.

use vstd::prelude::*;

verus! {

/// What is to be done next. The indices are those of the names that are run.
#[derive(Clone, Copy, PartialEq, Eq, Structural, Debug)]
pub enum RunAction {
    /// The names are checked
    CheckNames,
    /// The logs directory is acquired
    AcquireLog,
    /// The file that a dockerfile is written to is acquired
    WriteFile(usize),
    /// The container is prechecked
    Precheck(usize),
    /// The builds are planned
    PlanBuilds,
    /// The planned build with that number is run
    Build(usize),
    /// The docker network is created, if it is not active
    CreateNetwork,
    /// The container is created
    Create(usize),
    /// The container is started
    Start(usize),
    /// The container is terminated, with all the following ones before `until`
    Undo { i: usize, until: usize },
    /// Everything is running
    Finished,
    /// An error is returned
    Failed,
}

/// The bringing up of a set of containers.
pub struct RunSequence {
    /// The number of names
    pub n: usize,
    /// The number of builds, once they are planned
    pub builds: usize,
    pub action: RunAction,
}

/// The creation of the container at `i`, or the start of all if there is none.
pub open spec fn create_at(n: int, i: int) -> RunAction {
    if i < n {
        RunAction::Create(i as usize)
    } else {
        start_at(n, 0)
    }
}

/// The start of the container at `i`, or the end if there is none.
pub open spec fn start_at(n: int, i: int) -> RunAction {
    if i < n {
        RunAction::Start(i as usize)
    } else {
        RunAction::Finished
    }
}

/// The undoing of the container at `i`, or the end if there is none.
pub open spec fn undo_at(i: int, until: int) -> RunAction {
    if i < until {
        RunAction::Undo { i: i as usize, until: until as usize }
    } else {
        RunAction::Failed
    }
}

/// What is done after an action, `ok` being whether it succeeded.
pub open spec fn after_action(n: int, builds: int, action: RunAction, ok: bool) -> RunAction {
    match action {
        RunAction::Create(i) => if ok {
            create_at(n, i + 1)
        } else {
            undo_at(0, i as int)
        },
        RunAction::Start(i) => if ok {
            start_at(n, i + 1)
        } else {
            undo_at(0, n)
        },
        RunAction::Undo { i, until } => undo_at(i + 1, until as int),
        RunAction::Finished => RunAction::Finished,
        RunAction::Failed => RunAction::Failed,
        _ => if !ok {
            RunAction::Failed
        } else {
            match action {
                RunAction::CheckNames => RunAction::AcquireLog,
                RunAction::AcquireLog => if n > 0 {
                    RunAction::WriteFile(0)
                } else {
                    RunAction::PlanBuilds
                },
                RunAction::WriteFile(i) => if i + 1 < n {
                    RunAction::WriteFile((i + 1) as usize)
                } else {
                    RunAction::Precheck(0)
                },
                RunAction::Precheck(i) => if i + 1 < n {
                    RunAction::Precheck((i + 1) as usize)
                } else {
                    RunAction::PlanBuilds
                },
                RunAction::PlanBuilds => if builds > 0 {
                    RunAction::Build(0)
                } else {
                    RunAction::CreateNetwork
                },
                RunAction::Build(i) => if i + 1 < builds {
                    RunAction::Build((i + 1) as usize)
                } else {
                    RunAction::CreateNetwork
                },
                _ => create_at(n, 0),
            }
        },
    }
}

/// The indices of an action are those of names or builds.
pub open spec fn in_range(n: int, builds: int, action: RunAction) -> bool {
    match action {
        RunAction::WriteFile(i) => i < n,
        RunAction::Precheck(i) => i < n,
        RunAction::Build(i) => i < builds,
        RunAction::Create(i) => i < n,
        RunAction::Start(i) => i < n,
        RunAction::Undo { i, until } => i < until <= n,
        _ => true,
    }
}

impl RunSequence {
    /// The indices of the action are those of names or builds.
    pub open spec fn wf(self) -> bool {
        in_range(self.n as int, self.builds as int, self.action)
    }

    /// Begins the bringing up of `n` containers
    pub fn new(n: usize) -> (r: Self)
        ensures
            r.wf(),
            r == (RunSequence { n, builds: 0, action: RunAction::CheckNames }),
    {
        RunSequence { n, builds: 0, action: RunAction::CheckNames }
    }

    /// The builds were planned, `builds` is their number
    pub fn planned(&mut self, builds: usize)
        requires
            old(self).action is PlanBuilds,
        ensures
            final(self).wf(),
            *final(self) == (RunSequence {
                builds,
                action: after_action(
                    old(self).n as int,
                    builds as int,
                    RunAction::PlanBuilds,
                    true,
                ),
                ..*old(self)
            }),
    {
        self.builds = builds;
        if builds > 0 {
            self.action = RunAction::Build(0);
        } else {
            self.action = RunAction::CreateNetwork;
        }
    }

    /// The action was performed, `ok` being whether it succeeded
    pub fn done(&mut self, ok: bool)
        requires
            old(self).wf(),
        ensures
            final(self).wf(),
            *final(self) == (RunSequence {
                action: after_action(
                    old(self).n as int,
                    old(self).builds as int,
                    old(self).action,
                    ok,
                ),
                ..*old(self)
            }),
    {
        let n: usize = self.n;
        let action: RunAction = match self.action {
            RunAction::Finished => RunAction::Finished,
            RunAction::Failed => RunAction::Failed,
            RunAction::Undo { i, until } => {
                if i + 1 < until {
                    RunAction::Undo { i: i + 1, until }
                } else {
                    RunAction::Failed
                }
            },
            RunAction::Create(i) => {
                if ok {
                    if i + 1 < n {
                        RunAction::Create(i + 1)
                    } else {
                        RunAction::Start(0)
                    }
                } else if i > 0 {
                    RunAction::Undo { i: 0, until: i }
                } else {
                    RunAction::Failed
                }
            },
            RunAction::Start(i) => {
                if ok {
                    if i + 1 < n {
                        RunAction::Start(i + 1)
                    } else {
                        RunAction::Finished
                    }
                } else {
                    RunAction::Undo { i: 0, until: n }
                }
            },
            RunAction::CheckNames => {
                if ok {
                    RunAction::AcquireLog
                } else {
                    RunAction::Failed
                }
            },
            RunAction::AcquireLog => {
                if !ok {
                    RunAction::Failed
                } else if n > 0 {
                    RunAction::WriteFile(0)
                } else {
                    RunAction::PlanBuilds
                }
            },
            RunAction::WriteFile(i) => {
                if !ok {
                    RunAction::Failed
                } else if i + 1 < n {
                    RunAction::WriteFile(i + 1)
                } else {
                    RunAction::Precheck(0)
                }
            },
            RunAction::Precheck(i) => {
                if !ok {
                    RunAction::Failed
                } else if i + 1 < n {
                    RunAction::Precheck(i + 1)
                } else {
                    RunAction::PlanBuilds
                }
            },
            RunAction::PlanBuilds => {
                if !ok {
                    RunAction::Failed
                } else if self.builds > 0 {
                    RunAction::Build(0)
                } else {
                    RunAction::CreateNetwork
                }
            },
            RunAction::Build(i) => {
                if !ok {
                    RunAction::Failed
                } else if i + 1 < self.builds {
                    RunAction::Build(i + 1)
                } else {
                    RunAction::CreateNetwork
                }
            },
            RunAction::CreateNetwork => {
                if !ok {
                    RunAction::Failed
                } else if n > 0 {
                    RunAction::Create(0)
                } else {
                    RunAction::Finished
                }
            },
        };
        self.action = action;
    }
}

/// What a run has done to the containers.
#[verifier::ext_equal]
pub struct RunTrace {
    /// What is done next
    pub action: RunAction,
    /// The containers whose dockerfiles got a file to be written to, if needed
    pub written: Set<int>,
    /// The containers that were prechecked
    pub prechecked: Set<int>,
    /// The builds that were run
    pub built: Set<int>,
    /// The docker network was created
    pub networked: bool,
    /// The containers that were created
    pub created: Set<int>,
    /// The containers that were started
    pub started: Set<int>,
    /// The containers that were terminated
    pub undone: Set<int>,
}

/// What a run has done after as many actions as `oks` has elements, each saying
/// whether the action succeeded.
pub open spec fn run_trace(n: int, builds: int, oks: Seq<bool>) -> RunTrace
    decreases oks.len(),
{
    if oks.len() == 0 {
        RunTrace {
            action: RunAction::CheckNames,
            written: Set::empty(),
            prechecked: Set::empty(),
            built: Set::empty(),
            networked: false,
            created: Set::empty(),
            started: Set::empty(),
            undone: Set::empty(),
        }
    } else {
        let before = run_trace(n, builds, oks.drop_last());
        let ok = oks.last();
        RunTrace {
            action: after_action(n, builds, before.action, ok),
            written: if before.action is WriteFile && ok {
                before.written.insert(before.action->WriteFile_0 as int)
            } else {
                before.written
            },
            prechecked: if before.action is Precheck && ok {
                before.prechecked.insert(before.action->Precheck_0 as int)
            } else {
                before.prechecked
            },
            built: if before.action is Build && ok {
                before.built.insert(before.action->Build_0 as int)
            } else {
                before.built
            },
            networked: before.networked || (before.action is CreateNetwork && ok),
            created: if before.action is Create && ok {
                before.created.insert(before.action->Create_0 as int)
            } else {
                before.created
            },
            started: if before.action is Start && ok {
                before.started.insert(before.action->Start_0 as int)
            } else {
                before.started
            },
            undone: if before.action is Undo {
                before.undone.insert(before.action->i as int)
            } else {
                before.undone
            },
        }
    }
}

/// The indices below `n`.
pub open spec fn below(n: int) -> Set<int> {
    Set::new(|i: int| 0 <= i < n)
}

proof fn lemma_trace(n: int, builds: int, oks: Seq<bool>)
    requires
        0 <= n <= usize::MAX,
        0 <= builds <= usize::MAX,
    ensures
        ({
            let t = run_trace(n, builds, oks);
            &&& in_range(n, builds, t.action)
            &&& match t.action {
                RunAction::CheckNames | RunAction::AcquireLog => t.written == below(0)
                    && t.prechecked == below(0) && t.built == below(0) && !t.networked,
                RunAction::WriteFile(i) => t.written == below(i as int) && t.prechecked
                    == below(0) && t.built == below(0) && !t.networked,
                RunAction::Precheck(i) => t.written == below(n) && t.prechecked == below(
                    i as int,
                ) && t.built == below(0) && !t.networked,
                RunAction::PlanBuilds => t.written == below(n) && t.prechecked == below(n)
                    && t.built == below(0) && !t.networked,
                RunAction::Build(i) => t.written == below(n) && t.prechecked == below(n)
                    && t.built == below(i as int) && !t.networked,
                RunAction::CreateNetwork => t.written == below(n) && t.prechecked == below(n)
                    && t.built == below(builds) && !t.networked,
                RunAction::Failed => true,
                _ => t.written == below(n) && t.prechecked == below(n) && t.built == below(builds)
                    && t.networked,
            }
            &&& match t.action {
                RunAction::Create(i) => t.created == below(i as int) && t.started == below(0)
                    && t.undone == below(0),
                RunAction::Start(i) => t.created == below(n) && t.started == below(i as int)
                    && t.undone == below(0),
                RunAction::Undo { i, until } => t.created == below(until as int) && t.undone
                    == below(i as int),
                RunAction::Finished => t.created == below(n) && t.started == below(n) && t.undone
                    == below(0),
                RunAction::Failed => t.created == t.undone,
                _ => t.created == below(0) && t.started == below(0) && t.undone == below(0),
            }
        }),
    decreases oks.len(),
{
    let t = run_trace(n, builds, oks);
    if oks.len() > 0 {
        lemma_trace(n, builds, oks.drop_last());
        let b = run_trace(n, builds, oks.drop_last());
        match b.action {
            RunAction::AcquireLog => {
                assert(n == 0 ==> below(n) =~= below(0));
            },
            RunAction::WriteFile(i) => {
                assert(below(i + 1) =~= below(i as int).insert(i as int));
                assert(i + 1 >= n ==> below(i + 1) =~= below(n));
            },
            RunAction::Precheck(i) => {
                assert(below(i + 1) =~= below(i as int).insert(i as int));
                assert(i + 1 >= n ==> below(i + 1) =~= below(n));
            },
            RunAction::PlanBuilds => {
                assert(builds == 0 ==> below(builds) =~= below(0));
            },
            RunAction::Build(i) => {
                assert(below(i + 1) =~= below(i as int).insert(i as int));
                assert(i + 1 >= builds ==> below(i + 1) =~= below(builds));
            },
            RunAction::Create(i) => {
                assert(below(i + 1) =~= below(i as int).insert(i as int));
                assert(i + 1 >= n ==> below(i + 1) =~= below(n));
                assert(i == 0 ==> below(i as int) =~= below(0));
            },
            RunAction::Start(i) => {
                assert(below(i + 1) =~= below(i as int).insert(i as int));
                assert(i + 1 >= n ==> below(i + 1) =~= below(n));
            },
            RunAction::Undo { i, until } => {
                assert(below(i + 1) =~= below(i as int).insert(i as int));
                assert(i + 1 >= until ==> below(i + 1) =~= below(until as int));
            },
            RunAction::CreateNetwork => {
                assert(n == 0 ==> below(n) =~= below(0));
            },
            _ => {},
        }
    } else {
        assert(below(0) =~= Set::empty());
    }
}

/// If a run succeeds then every container was created and started and none was
/// terminated; if it fails then every container that had been created was
/// terminated again, and no other.
pub proof fn run_is_all_or_nothing(n: int, builds: int, oks: Seq<bool>)
    requires
        0 <= n <= usize::MAX,
        0 <= builds <= usize::MAX,
    ensures
        ({
            let t = run_trace(n, builds, oks);
            &&& t.action is Finished ==> t.created == below(n) && t.started == below(n)
                && t.undone == Set::<int>::empty()
            &&& t.action is Failed ==> t.undone == t.created
        }),
{
    lemma_trace(n, builds, oks);
    assert(below(0) =~= Set::empty());
}

/// No container is started before all are created, and none is created before all
/// the checks and builds have succeeded: the docker network is only created once
/// every container was prechecked and every planned build was run, and containers
/// are only created, started and undone once there is the network.
pub proof fn run_phases_are_ordered(n: int, builds: int, oks: Seq<bool>)
    requires
        0 <= n <= usize::MAX,
        0 <= builds <= usize::MAX,
    ensures
        ({
            let t = run_trace(n, builds, oks);
            &&& t.action is Start ==> t.created == below(n)
            &&& t.action is Precheck || t.action is PlanBuilds || t.action is Build ==> t.written
                == below(n)
            &&& t.action is PlanBuilds || t.action is Build ==> t.prechecked == below(n)
            &&& t.action is CreateNetwork || t.action is Create || t.action is Start
                || t.action is Undo || t.action is Finished ==> t.written == below(n)
                && t.prechecked == below(n) && t.built == below(builds)
            &&& t.action is Create || t.action is Start || t.action is Undo || t.action is Finished
                ==> t.networked
            &&& t.action is CheckNames || t.action is AcquireLog || t.action is WriteFile
                || t.action is Precheck || t.action is PlanBuilds || t.action is Build
                || t.action is CreateNetwork ==> t.created == Set::<int>::empty() && t.started
                == Set::<int>::empty()
        }),
{
    lemma_trace(n, builds, oks);
    assert(below(0) =~= Set::empty());
}

/// A run in which everything succeeds consists of exactly these actions: the names
/// are checked, the logs directory is acquired, for each container a file is
/// acquired, each container is prechecked, the builds are planned and run, the
/// network is created, each container is created, then each is started. Nothing is
/// done twice or left out.
pub proof fn successful_run_is_this_list_of_actions(n: int, builds: int, oks: Seq<bool>)
    requires
        0 <= n <= usize::MAX,
        0 <= builds <= usize::MAX,
        forall|i: int| 0 <= i < oks.len() ==> #[trigger] oks[i],
    ensures
        ({
            let k = oks.len() as int;
            let a = run_trace(n, builds, oks).action;
            let planned = 2 + 2 * n;
            let network = planned + 1 + builds;
            &&& k == 0 ==> a is CheckNames
            &&& k == 1 ==> a is AcquireLog
            &&& 2 <= k < 2 + n ==> a == RunAction::WriteFile((k - 2) as usize)
            &&& 2 + n <= k < planned ==> a == RunAction::Precheck((k - 2 - n) as usize)
            &&& k == planned ==> a is PlanBuilds
            &&& planned < k < network ==> a == RunAction::Build((k - planned - 1) as usize)
            &&& k == network ==> a is CreateNetwork
            &&& network < k <= network + n ==> a == RunAction::Create((k - network - 1) as usize)
            &&& network + n < k <= network + 2 * n ==> a == RunAction::Start(
                (k - network - n - 1) as usize,
            )
            &&& k > network + 2 * n ==> a is Finished
        }),
    decreases oks.len(),
{
    if oks.len() > 0 {
        let before = oks.drop_last();
        assert forall|i: int| 0 <= i < before.len() implies #[trigger] before[i] by {
            assert(oks[i]);
        }
        assert(oks[oks.len() - 1]);
        successful_run_is_this_list_of_actions(n, builds, before);
    }
}

/// What follows an action that fails, after all before it succeeded: if it was the
/// creation of a container, those that were created before it are terminated one
/// by one, if it was the start of one, all of them are, then the run fails; whatever
/// else fails ends the run at once.
pub proof fn failed_run_terminates_what_was_created(
    n: int,
    builds: int,
    oks: Seq<bool>,
    undone: Seq<bool>,
)
    requires
        0 <= n <= usize::MAX,
        0 <= builds <= usize::MAX,
        forall|i: int| 0 <= i < oks.len() ==> #[trigger] oks[i],
        oks.len() < 4 + 4 * n + builds,
    ensures
        ({
            let failing = run_trace(n, builds, oks).action;
            let a = run_trace(n, builds, oks.push(false) + undone).action;
            let count = match failing {
                RunAction::Create(i) => i as int,
                RunAction::Start(_) => n,
                _ => 0,
            };
            if undone.len() < count {
                a == (RunAction::Undo { i: undone.len() as usize, until: count as usize })
            } else {
                a is Failed
            }
        }),
    decreases undone.len(),
{
    lemma_trace(n, builds, oks);
    successful_run_is_this_list_of_actions(n, builds, oks);
    if undone.len() == 0 {
        assert(oks.push(false) + undone =~= oks.push(false));
        assert(oks.push(false).drop_last() =~= oks);
    } else {
        assert((oks.push(false) + undone).drop_last() =~= oks.push(false) + undone.drop_last());
        failed_run_terminates_what_was_created(n, builds, oks, undone.drop_last());
    }
}

/// A bound on the number of actions that are left.
pub open spec fn actions_left(n: int, builds: int, action: RunAction) -> int {
    match action {
        RunAction::CheckNames => 5 * n + builds + 4,
        RunAction::AcquireLog => 5 * n + builds + 3,
        RunAction::WriteFile(i) => 5 * n + builds + 2 - i,
        RunAction::Precheck(i) => 4 * n + builds + 2 - i,
        RunAction::PlanBuilds => 3 * n + builds + 2,
        RunAction::Build(i) => 3 * n + builds - i + 1,
        RunAction::CreateNetwork => 3 * n + 1,
        RunAction::Create(i) => 3 * n - i,
        RunAction::Start(i) => 2 * n - i,
        RunAction::Undo { i, until } => until - i,
        RunAction::Finished => 0,
        RunAction::Failed => 0,
    }
}

/// A run always comes to an end, whatever succeeds: each action brings it closer.
pub proof fn run_comes_to_an_end(n: int, builds: int, action: RunAction, ok: bool)
    requires
        0 <= n <= usize::MAX,
        0 <= builds <= usize::MAX,
        in_range(n, builds, action),
        !(action is Finished),
        !(action is Failed),
    ensures
        in_range(n, builds, after_action(n, builds, action, ok)),
        0 <= actions_left(n, builds, after_action(n, builds, action, ok)) < actions_left(
            n,
            builds,
            action,
        ),
{
}

} // verus!
