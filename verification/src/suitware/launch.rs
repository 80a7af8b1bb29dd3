//! The launch of a Suitware application, as a state machine.
//!
//! Starting an application initializes every plugin in order, then, for each
//! system in order, initializes it, runs it until it asks to stop, and ends it;
//! then the start returns `Ok(())`. The caller performs each action and hands
//! back what came of it; the machine says what to do next.
use vstd::prelude::*;

use super::NextState;

verus! {

/// What the caller does next.
#[derive(Clone, Copy, Debug, PartialEq, Eq, Structural)]
pub enum LaunchAction {
    /// Call `init` on the plugin at this position.
    InitPlugin(usize),
    /// Call `init` on the system at this position.
    InitSystem(usize),
    /// Await `run` of the system at this position.
    RunSystem(usize),
    /// Call `end` on the system at this position.
    EndSystem(usize),
    /// The start is over and returns `Ok(())`.
    Finish,
}

/// What came of the last action.
#[derive(Clone, Copy, Debug, PartialEq, Eq, Structural)]
pub enum LaunchEvent {
    /// An `init` or an `end` returned.
    Completed,
    /// A run returned this state.
    Ran(NextState),
}

/// The launch of an application with `plugins` plugins and `systems` systems,
/// at the action last handed out.
pub struct Launch {
    plugins: usize,
    systems: usize,
    current: LaunchAction,
}

/// The first action once the plugins are done: the first system's `init`, or
/// the end when there is no system.
pub open spec fn begin_systems(systems: nat) -> LaunchAction {
    if systems > 0 {
        LaunchAction::InitSystem(0)
    } else {
        LaunchAction::Finish
    }
}

/// The first action of a launch.
pub open spec fn first_action(plugins: nat, systems: nat) -> LaunchAction {
    if plugins > 0 {
        LaunchAction::InitPlugin(0)
    } else {
        begin_systems(systems)
    }
}

/// Whether `event` is what `action` gives back: a run gives its state, the
/// other actions complete.
pub open spec fn fits(action: LaunchAction, event: LaunchEvent) -> bool {
    match action {
        LaunchAction::RunSystem(_) => event is Ran,
        LaunchAction::Finish => false,
        _ => event is Completed,
    }
}

/// The action that follows `action` once `event` came of it.
pub open spec fn next_action(plugins: nat, systems: nat, action: LaunchAction, event: LaunchEvent) -> LaunchAction {
    match action {
        LaunchAction::InitPlugin(j) => if j + 1 < plugins {
            LaunchAction::InitPlugin((j + 1) as usize)
        } else {
            begin_systems(systems)
        },
        LaunchAction::InitSystem(i) => LaunchAction::RunSystem(i),
        LaunchAction::RunSystem(i) => if event == LaunchEvent::Ran(NextState::Continue) {
            LaunchAction::RunSystem(i)
        } else {
            LaunchAction::EndSystem(i)
        },
        LaunchAction::EndSystem(i) => if i + 1 < systems {
            LaunchAction::InitSystem((i + 1) as usize)
        } else {
            LaunchAction::Finish
        },
        LaunchAction::Finish => LaunchAction::Finish,
    }
}

/// Every position that an action names is that of an existing plugin or system.
pub open spec fn in_bounds(plugins: nat, systems: nat, action: LaunchAction) -> bool {
    match action {
        LaunchAction::InitPlugin(j) => j < plugins,
        LaunchAction::InitSystem(i) => i < systems,
        LaunchAction::RunSystem(i) => i < systems,
        LaunchAction::EndSystem(i) => i < systems,
        LaunchAction::Finish => true,
    }
}

/// How far a launch has come: the plugin inits first, then three steps for
/// each system, then the end.
pub open spec fn progress(plugins: nat, action: LaunchAction) -> nat {
    match action {
        LaunchAction::InitPlugin(j) => j as nat,
        LaunchAction::InitSystem(i) => plugins + 3 * (i as nat),
        LaunchAction::RunSystem(i) => plugins + 3 * (i as nat) + 1,
        LaunchAction::EndSystem(i) => plugins + 3 * (i as nat) + 2,
        LaunchAction::Finish => 0,
    }
}

/// The action reached from `action` after the events, in order.
pub open spec fn drive(plugins: nat, systems: nat, action: LaunchAction, events: Seq<LaunchEvent>) -> LaunchAction
    decreases events.len(),
{
    if events.len() == 0 {
        action
    } else {
        drive(plugins, systems, next_action(plugins, systems, action, events[0]), events.drop_first())
    }
}

/// `count` completions.
pub open spec fn completions(count: nat) -> Seq<LaunchEvent> {
    Seq::new(count, |k: int| LaunchEvent::Completed)
}

/// What one system gives back: its `init` completes, its runs continue
/// `continues` times and then stop, its `end` completes.
pub open spec fn system_events(continues: nat) -> Seq<LaunchEvent> {
    seq![LaunchEvent::Completed]
        + Seq::new(continues, |k: int| LaunchEvent::Ran(NextState::Continue))
        + seq![LaunchEvent::Ran(NextState::Stop), LaunchEvent::Completed]
}

/// What the systems from position `from` on give back, where system `i`
/// continues `continues[i]` times.
pub open spec fn systems_events(continues: Seq<nat>, from: nat) -> Seq<LaunchEvent>
    decreases continues.len() - from,
{
    if from >= continues.len() {
        Seq::empty()
    } else {
        system_events(continues[from as int]) + systems_events(continues, from + 1)
    }
}

impl Launch {
    /// The number of plugins.
    pub closed spec fn plugin_count(&self) -> nat {
        self.plugins as nat
    }

    /// The number of systems.
    pub closed spec fn system_count(&self) -> nat {
        self.systems as nat
    }

    /// The action last handed out.
    pub closed spec fn current(&self) -> LaunchAction {
        self.current
    }

    /// Starts a launch and hands out its first action.
    pub fn new(plugins: usize, systems: usize) -> (started: (Launch, LaunchAction))
        ensures
            started.0.plugin_count() == plugins,
            started.0.system_count() == systems,
            started.1 == first_action(plugins as nat, systems as nat),
            started.0.current() == started.1,
            in_bounds(plugins as nat, systems as nat, started.1),
    {
        let first = if plugins > 0 {
            LaunchAction::InitPlugin(0)
        } else if systems > 0 {
            LaunchAction::InitSystem(0)
        } else {
            LaunchAction::Finish
        };
        (Launch { plugins, systems, current: first }, first)
    }

    /// Takes what came of the last action and hands out the next one.
    pub fn step(&mut self, event: LaunchEvent) -> (action: LaunchAction)
        requires
            in_bounds(old(self).plugin_count(), old(self).system_count(), old(self).current()),
            fits(old(self).current(), event),
        ensures
            action == next_action(old(self).plugin_count(), old(self).system_count(), old(self).current(), event),
            final(self).current() == action,
            final(self).plugin_count() == old(self).plugin_count(),
            final(self).system_count() == old(self).system_count(),
            in_bounds(final(self).plugin_count(), final(self).system_count(), action),
    {
        let next = match self.current {
            LaunchAction::InitPlugin(j) => if j + 1 < self.plugins {
                LaunchAction::InitPlugin(j + 1)
            } else if self.systems > 0 {
                LaunchAction::InitSystem(0)
            } else {
                LaunchAction::Finish
            },
            LaunchAction::InitSystem(i) => LaunchAction::RunSystem(i),
            LaunchAction::RunSystem(i) => match event {
                LaunchEvent::Ran(NextState::Continue) => LaunchAction::RunSystem(i),
                _ => LaunchAction::EndSystem(i),
            },
            LaunchAction::EndSystem(i) => if i + 1 < self.systems {
                LaunchAction::InitSystem(i + 1)
            } else {
                LaunchAction::Finish
            },
            LaunchAction::Finish => LaunchAction::Finish,
        };
        self.current = next;
        next
    }
}

/// Each step keeps the positions in bounds and moves the launch forward: no
/// action comes before one that was already handed out, and only a run that
/// continues repeats an action. In particular every plugin is initialized
/// before any system is touched, and a system is never touched again once a
/// later one was.
pub proof fn lemma_step_moves_forward(plugins: nat, systems: nat, action: LaunchAction, event: LaunchEvent)
    requires
        plugins <= usize::MAX,
        systems <= usize::MAX,
        in_bounds(plugins, systems, action),
        fits(action, event),
    ensures
        in_bounds(plugins, systems, next_action(plugins, systems, action, event)),
        next_action(plugins, systems, action, event) is Finish
            || progress(plugins, action) < progress(plugins, next_action(plugins, systems, action, event))
            || (action is RunSystem && event == LaunchEvent::Ran(NextState::Continue)
                && next_action(plugins, systems, action, event) == action),
        action is InitPlugin ==> progress(plugins, action) < plugins,
        !(action is InitPlugin) && !(action is Finish) ==> progress(plugins, action) >= plugins,
{
}

/// Driving over two runs of events is driving over the first, then the second.
pub proof fn lemma_drive_append(plugins: nat, systems: nat, action: LaunchAction, first: Seq<LaunchEvent>, second: Seq<LaunchEvent>)
    ensures
        drive(plugins, systems, action, first + second)
            == drive(plugins, systems, drive(plugins, systems, action, first), second),
    decreases first.len(),
{
    if first.len() > 0 {
        assert((first + second).drop_first() =~= first.drop_first() + second);
        lemma_drive_append(plugins, systems, next_action(plugins, systems, action, first[0]), first.drop_first(), second);
    } else {
        assert(first + second =~= second);
    }
}

/// The plugin inits: from the plugin at position `from`, as many completions as
/// plugins remain lead to the systems.
pub proof fn lemma_plugins_complete(plugins: nat, systems: nat, from: nat)
    requires
        from < plugins,
        plugins <= usize::MAX,
    ensures
        drive(plugins, systems, LaunchAction::InitPlugin(from as usize), completions((plugins - from) as nat))
            == begin_systems(systems),
    decreases plugins - from,
{
    let events = completions((plugins - from) as nat);
    assert(events[0] == LaunchEvent::Completed);
    let next = next_action(plugins, systems, LaunchAction::InitPlugin(from as usize), events[0]);
    assert(drive(plugins, systems, LaunchAction::InitPlugin(from as usize), events)
        == drive(plugins, systems, next, events.drop_first()));
    if from + 1 < plugins {
        assert(next == LaunchAction::InitPlugin((from + 1) as usize));
        assert(events.drop_first() =~= completions((plugins - (from + 1)) as nat));
        lemma_plugins_complete(plugins, systems, from + 1);
    } else {
        assert(next == begin_systems(systems));
        assert(events.drop_first() =~= Seq::<LaunchEvent>::empty());
        assert(drive(plugins, systems, next, events.drop_first()) == next);
    }
}

/// A system that continues: its init leads to a run, and the run is repeated
/// while it asks to continue.
pub proof fn lemma_runs_repeat(plugins: nat, systems: nat, i: usize, continues: nat)
    ensures
        drive(plugins, systems, LaunchAction::RunSystem(i), Seq::new(continues, |k: int| LaunchEvent::Ran(NextState::Continue)))
            == LaunchAction::RunSystem(i),
    decreases continues,
{
    let events = Seq::new(continues, |k: int| LaunchEvent::Ran(NextState::Continue));
    if continues > 0 {
        assert(events.drop_first() =~= Seq::new((continues - 1) as nat, |k: int| LaunchEvent::Ran(NextState::Continue)));
        lemma_runs_repeat(plugins, systems, i, (continues - 1) as nat);
    }
}

/// One system, whatever the number of runs that continue, is initialized, run
/// until it stops, ended, and then the launch moves to the next system, or
/// ends after the last.
pub proof fn lemma_system_completes(plugins: nat, systems: nat, i: usize, continues: nat)
    requires
        i < systems,
        systems <= usize::MAX,
    ensures
        drive(plugins, systems, LaunchAction::InitSystem(i), seq![LaunchEvent::Completed])
            == LaunchAction::RunSystem(i),
        drive(plugins, systems, LaunchAction::InitSystem(i), system_events(continues))
            == (if i + 1 < systems { LaunchAction::InitSystem((i + 1) as usize) } else { LaunchAction::Finish }),
{
    let init = seq![LaunchEvent::Completed];
    let runs = Seq::new(continues, |k: int| LaunchEvent::Ran(NextState::Continue));
    let tail = seq![LaunchEvent::Ran(NextState::Stop), LaunchEvent::Completed];
    let last = seq![LaunchEvent::Completed];
    let none = Seq::<LaunchEvent>::empty();
    assert(init.drop_first() =~= none);
    assert(drive(plugins, systems, LaunchAction::RunSystem(i), none) == LaunchAction::RunSystem(i));
    assert(drive(plugins, systems, LaunchAction::InitSystem(i), init)
        == drive(plugins, systems, LaunchAction::RunSystem(i), init.drop_first()));
    assert(system_events(continues) == init + runs + tail);
    lemma_drive_append(plugins, systems, LaunchAction::InitSystem(i), init + runs, tail);
    lemma_drive_append(plugins, systems, LaunchAction::InitSystem(i), init, runs);
    lemma_runs_repeat(plugins, systems, i, continues);
    assert(tail.drop_first() =~= last);
    assert(last.drop_first() =~= none);
    let after = if i + 1 < systems { LaunchAction::InitSystem((i + 1) as usize) } else { LaunchAction::Finish };
    assert(drive(plugins, systems, after, none) == after);
    assert(drive(plugins, systems, LaunchAction::EndSystem(i), last)
        == drive(plugins, systems, after, last.drop_first()));
    assert(drive(plugins, systems, LaunchAction::RunSystem(i), tail)
        == drive(plugins, systems, LaunchAction::EndSystem(i), tail.drop_first()));
}

/// The systems from position `from` on, each run until it stops, bring the
/// launch to its end.
pub proof fn lemma_systems_complete(plugins: nat, continues: Seq<nat>, from: nat)
    requires
        from < continues.len(),
        continues.len() <= usize::MAX,
    ensures
        drive(plugins, continues.len(), LaunchAction::InitSystem(from as usize), systems_events(continues, from))
            == LaunchAction::Finish,
    decreases continues.len() - from,
{
    let systems = continues.len();
    lemma_system_completes(plugins, systems, from as usize, continues[from as int]);
    lemma_drive_append(
        plugins,
        systems,
        LaunchAction::InitSystem(from as usize),
        system_events(continues[from as int]),
        systems_events(continues, from + 1),
    );
    if from + 1 < systems {
        lemma_systems_complete(plugins, continues, from + 1);
    } else {
        assert(systems_events(continues, from + 1) =~= Seq::<LaunchEvent>::empty());
    }
}

/// A whole launch: with every plugin's init completing and every system run
/// until it stops (system `i` continuing `continues[i]` times), the launch
/// hands out `Finish`, that is, the start returns `Ok(())`.
pub proof fn lemma_launch_finishes(plugins: nat, continues: Seq<nat>)
    requires
        plugins <= usize::MAX,
        continues.len() <= usize::MAX,
    ensures
        drive(
            plugins,
            continues.len(),
            first_action(plugins, continues.len()),
            completions(plugins) + systems_events(continues, 0),
        ) == LaunchAction::Finish,
{
    let systems = continues.len();
    lemma_drive_append(plugins, systems, first_action(plugins, systems), completions(plugins), systems_events(continues, 0));
    if plugins > 0 {
        lemma_plugins_complete(plugins, systems, 0);
    } else {
        assert(completions(plugins) =~= Seq::<LaunchEvent>::empty());
    }
    if systems > 0 {
        lemma_systems_complete(plugins, continues, 0);
    } else {
        assert(systems_events(continues, 0) =~= Seq::<LaunchEvent>::empty());
    }
}

/// Every plugin is initialized, in order, whatever the number of systems: the
/// `k`-th completion of the launch's plugin inits hands out the init of plugin
/// `k`, for every `k` below the number of plugins, so no system action and no
/// end comes before all of them.
pub proof fn lemma_plugins_in_order(plugins: nat, systems: nat, k: nat)
    requires
        k < plugins,
        plugins <= usize::MAX,
        systems <= usize::MAX,
    ensures
        drive(plugins, systems, first_action(plugins, systems), completions(k)) == LaunchAction::InitPlugin(k as usize),
    decreases k,
{
    if k == 0 {
        assert(completions(0) =~= Seq::<LaunchEvent>::empty());
    } else {
        lemma_plugins_in_order(plugins, systems, (k - 1) as nat);
        assert(completions(k) =~= completions((k - 1) as nat) + seq![LaunchEvent::Completed]);
        lemma_drive_append(
            plugins,
            systems,
            first_action(plugins, systems),
            completions((k - 1) as nat),
            seq![LaunchEvent::Completed],
        );
        let before = LaunchAction::InitPlugin((k - 1) as usize);
        let after = next_action(plugins, systems, before, LaunchEvent::Completed);
        assert(after == LaunchAction::InitPlugin(k as usize));
        assert(seq![LaunchEvent::Completed].drop_first() =~= Seq::<LaunchEvent>::empty());
        assert(drive(plugins, systems, after, Seq::<LaunchEvent>::empty()) == after);
        assert(drive(plugins, systems, before, seq![LaunchEvent::Completed])
            == drive(plugins, systems, after, seq![LaunchEvent::Completed].drop_first()));
    }
}

} // verus!
