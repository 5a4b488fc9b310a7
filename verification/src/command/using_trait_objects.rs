//! Migrations as objects of a trait.

use vstd::prelude::*;

verus! {

/// One change to a schema, and the change that takes it back.
pub trait Migration {
    /// Whether `text` is a statement that makes this change. A migration
    /// that says nothing allows every text.
    open spec fn executes(&self, text: Seq<char>) -> bool {
        true
    }

    /// Whether `text` is a statement that takes this change back. A
    /// migration that says nothing allows every text.
    open spec fn rolls_back(&self, text: Seq<char>) -> bool {
        true
    }

    /// The statement that makes the change.
    fn execute(&self) -> (text: &str)
        ensures
            self.executes(text@),
    ;

    /// The statement that takes the change back.
    fn rollback(&self) -> (text: &str)
        ensures
            self.rolls_back(text@),
    ;
}

/// Creates the table.
pub struct CreateTable;

impl Migration for CreateTable {
    open spec fn executes(&self, text: Seq<char>) -> bool {
        text == "create table"@
    }

    open spec fn rolls_back(&self, text: Seq<char>) -> bool {
        text == "drop table"@
    }

    fn execute(&self) -> (text: &str) {
        "create table"
    }

    fn rollback(&self) -> (text: &str) {
        "drop table"
    }
}

/// Adds the field.
pub struct AddField;

impl Migration for AddField {
    open spec fn executes(&self, text: Seq<char>) -> bool {
        text == "add field"@
    }

    open spec fn rolls_back(&self, text: Seq<char>) -> bool {
        text == "remove field"@
    }

    fn execute(&self) -> (text: &str) {
        "add field"
    }

    fn rollback(&self) -> (text: &str) {
        "remove field"
    }
}

/// The migrations of a schema, oldest first.
pub struct Schema {
    commands: Vec<Box<dyn Migration>>,
}

impl View for Schema {
    type V = Seq<Box<dyn Migration>>;

    /// The migrations, oldest first.
    closed spec fn view(&self) -> Seq<Box<dyn Migration>> {
        self.commands@
    }
}

impl Schema {
    /// A schema without migrations.
    pub fn new() -> (schema: Self)
        ensures
            schema@.len() == 0,
    {
        Self { commands: Vec::new() }
    }

    /// Adds `cmd` as the newest migration.
    pub fn add_migration(&mut self, cmd: Box<dyn Migration>)
        ensures
            final(self)@ == old(self)@.push(cmd),
    {
        self.commands.push(cmd);
    }

    /// The statements that make every change, oldest migration first.
    pub fn execute(&self) -> (out: Vec<&str>)
        ensures
            out@.len() == self@.len(),
            forall|i: int| 0 <= i < out@.len() ==> self@[i].executes((#[trigger] out@[i])@),
    {
        let mut out: Vec<&str> = Vec::new();
        let mut i: usize = 0;
        while i < self.commands.len()
            invariant
                i <= self.commands@.len(),
                out@.len() == i,
                forall|j: int| 0 <= j < out@.len() ==> self.commands@[j].executes((#[trigger] out@[j])@),
            decreases self.commands@.len() - i,
        {
            out.push(self.commands[i].execute());
            i += 1;
        }
        out
    }

    /// The statements that take every change back, newest migration first.
    pub fn rollback(&self) -> (out: Vec<&str>)
        ensures
            out@.len() == self@.len(),
            forall|i: int|
                0 <= i < out@.len() ==> self@[self@.len() - 1 - i].rolls_back((#[trigger] out@[i])@),
    {
        let n = self.commands.len();
        let mut out: Vec<&str> = Vec::new();
        let mut i: usize = 0;
        while i < n
            invariant
                i <= n,
                n == self.commands@.len(),
                out@.len() == i,
                forall|j: int|
                    0 <= j < out@.len() ==> self.commands@[n - 1 - j].rolls_back((#[trigger] out@[j])@),
            decreases n - i,
        {
            out.push(self.commands[n - 1 - i].rollback());
            i += 1;
        }
        out
    }
}

} // verus!
