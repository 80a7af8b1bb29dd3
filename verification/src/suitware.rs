//! Suitware: an application made of systems, periodic tasks and plugins.
pub mod launch;
pub mod mqtt;
pub mod protocol;
pub mod systems;
pub mod server;

use vstd::prelude::*;

verus! {

broadcast use vstd::std_specs::hash::group_hash_axioms;

/// What a system's run asks for next.
#[derive(Clone, Copy, Debug, PartialEq, Eq, Structural)]
pub enum NextState {
    /// Run the system again.
    Continue,
    /// The system is done: end it.
    Stop,
}

/// Work that an application runs periodically.
pub trait Task {
    fn run(&self);
}

/// An extension that an application initializes before its systems run.
pub trait Plugin {
    fn init(&self);
}

/// The periodic tasks of an application, by period in nanoseconds.
struct TaskPool<T> {
    tasks: std::collections::HashMap<u128, T>,
}

/// An application: its systems in the order they were added, its tasks by
/// period, and its plugins in the order they were added.
///
/// The kinds of system, task and plugin are parameters: an application holds
/// boxed trait objects of them.
pub struct Suitware<S, T, P> {
    systems: Vec<S>,
    tasks: TaskPool<T>,
    plugins: Vec<P>,
}

impl<S, T, P> Suitware<S, T, P> {
    /// The systems, in the order they were added.
    pub closed spec fn systems(&self) -> Seq<S> {
        self.systems@
    }

    /// The tasks, by period in nanoseconds.
    pub closed spec fn tasks(&self) -> Map<u128, T> {
        self.tasks.tasks@
    }

    /// The plugins, in the order they were added.
    pub closed spec fn plugins(&self) -> Seq<P> {
        self.plugins@
    }

    /// Creates a new, blank app.
    pub fn new() -> (app: Self)
        ensures
            app.systems() == Seq::<S>::empty(),
            app.tasks() == Map::<u128, T>::empty(),
            app.plugins() == Seq::<P>::empty(),
    {
        Suitware {
            systems: Vec::new(),
            tasks: TaskPool { tasks: std::collections::HashMap::new() },
            plugins: Vec::new(),
        }
    }

    /// Adds a system after those already added.
    pub fn add_system(self, system: S) -> (app: Self)
        ensures
            app.systems() == self.systems().push(system),
            app.tasks() == self.tasks(),
            app.plugins() == self.plugins(),
    {
        let mut app = self;
        app.systems.push(system);
        app
    }

    /// Adds a task that runs every `period_nanos` nanoseconds; a task already
    /// registered with the same period is replaced.
    pub fn add_task(self, task: T, period_nanos: u128) -> (app: Self)
        ensures
            app.systems() == self.systems(),
            app.tasks() == self.tasks().insert(period_nanos, task),
            app.plugins() == self.plugins(),
    {
        let mut app = self;
        app.tasks.tasks.insert(period_nanos, task);
        app
    }

    /// Adds a plugin after those already added.
    pub fn add_plugin(self, plugin: P) -> (app: Self)
        ensures
            app.systems() == self.systems(),
            app.tasks() == self.tasks(),
            app.plugins() == self.plugins().push(plugin),
    {
        let mut app = self;
        app.plugins.push(plugin);
        app
    }

    /// Takes the application apart for its launch: its systems, its tasks by
    /// period in nanoseconds, and its plugins.
    pub fn into_parts(self) -> (parts: (Vec<S>, std::collections::HashMap<u128, T>, Vec<P>))
        ensures
            parts.0@ == self.systems(),
            parts.1@ == self.tasks(),
            parts.2@ == self.plugins(),
    {
        (self.systems, self.tasks.tasks, self.plugins)
    }
}

} // verus!
