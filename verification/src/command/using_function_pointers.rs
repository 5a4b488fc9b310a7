//! Migrations as pairs of plain functions that return their statement.

use vstd::prelude::*;
use vstd::string::*;

verus! {

/// A migration: the function that gives the statement making the change,
/// and the function that gives the statement taking it back.
pub struct Command<E, R> {
    execute: E,
    rollback: R,
}

/// The migrations of a schema, oldest first.
pub struct Schema<E, R> {
    commands: Vec<Command<E, R>>,
}

impl<E: Fn() -> String, R: Fn() -> String> View for Schema<E, R> {
    type V = Seq<(E, R)>;

    /// The migrations, oldest first, each as its two functions.
    closed spec fn view(&self) -> Seq<(E, R)> {
        Seq::new(self.commands@.len(), |i: int| (self.commands@[i].execute, self.commands@[i].rollback))
    }
}

impl<E: Fn() -> String, R: Fn() -> String> Schema<E, R> {
    /// Whether every function of every migration can be called.
    pub open spec fn wf(&self) -> bool {
        forall|i: int|
            0 <= i < self@.len() ==> call_requires((#[trigger] self@[i]).0, ()) && call_requires(
                self@[i].1,
                (),
            )
    }

    /// A schema without migrations.
    pub fn new() -> (schema: Self)
        ensures
            schema.wf(),
            schema@.len() == 0,
    {
        Self { commands: Vec::new() }
    }

    /// Adds the migration made of `execute` and `rollback` as the newest.
    pub fn add_migration(&mut self, execute: E, rollback: R)
        requires
            old(self).wf(),
            call_requires(execute, ()),
            call_requires(rollback, ()),
        ensures
            final(self).wf(),
            final(self)@ == old(self)@.push((execute, rollback)),
    {
        self.commands.push(Command { execute, rollback });
        assert(self@ =~= old(self)@.push((execute, rollback)));
    }

    /// What the first function of every migration returns, oldest migration
    /// first.
    pub fn execute(&self) -> (out: Vec<String>)
        requires
            self.wf(),
        ensures
            out@.len() == self@.len(),
            forall|i: int| 0 <= i < out@.len() ==> call_ensures(self@[i].0, (), #[trigger] out@[i]),
    {
        let mut out: Vec<String> = Vec::new();
        let mut i: usize = 0;
        while i < self.commands.len()
            invariant
                self.wf(),
                i <= self.commands@.len(),
                out@.len() == i,
                forall|j: int| 0 <= j < out@.len() ==> call_ensures(self@[j].0, (), #[trigger] out@[j]),
            decreases self.commands@.len() - i,
        {
            assert(call_requires(self@[i as int].0, ()));
            let text = (self.commands[i].execute)();
            out.push(text);
            i += 1;
        }
        out
    }

    /// What the second function of every migration returns, newest
    /// migration first.
    pub fn rollback(&self) -> (out: Vec<String>)
        requires
            self.wf(),
        ensures
            out@.len() == self@.len(),
            forall|i: int|
                0 <= i < out@.len() ==> call_ensures(
                    self@[self@.len() - 1 - i].1,
                    (),
                    #[trigger] out@[i],
                ),
    {
        let n = self.commands.len();
        let mut out: Vec<String> = Vec::new();
        let mut i: usize = 0;
        while i < n
            invariant
                self.wf(),
                i <= n,
                n == self.commands@.len(),
                out@.len() == i,
                forall|j: int|
                    0 <= j < out@.len() ==> call_ensures(self@[n - 1 - j].1, (), #[trigger] out@[j]),
            decreases n - i,
        {
            assert(call_requires(self@[n - 1 - i].1, ()));
            let text = (self.commands[n - 1 - i].rollback)();
            out.push(text);
            i += 1;
        }
        out
    }
}

/// The statement that adds the field.
pub fn add_field() -> (text: String)
    ensures
        text@ == "add field"@,
{
    "add field".to_owned()
}

/// The statement that removes the field.
pub fn remove_field() -> (text: String)
    ensures
        text@ == "remove field"@,
{
    "remove field".to_owned()
}

} // verus!
