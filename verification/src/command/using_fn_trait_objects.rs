//! Migrations as two lists of callable objects, one to execute and one to
//! roll back.

use vstd::prelude::*;

verus! {

/// The migrations of a schema, oldest first: what executes them, and what
/// rolls them back.
pub struct Schema<E, R> {
    executes: Vec<E>,
    rollbacks: Vec<R>,
}

impl<'a, E: Fn() -> &'a str, R: Fn() -> &'a str> Schema<E, R> {
    /// What executes the migrations, oldest first.
    pub closed spec fn executes(&self) -> Seq<E> {
        self.executes@
    }

    /// What rolls the migrations back, oldest first.
    pub closed spec fn rollbacks(&self) -> Seq<R> {
        self.rollbacks@
    }

    /// Whether everything the schema holds can be called.
    pub open spec fn wf(&self) -> bool {
        &&& forall|i: int| 0 <= i < self.executes().len() ==> call_requires(#[trigger] self.executes()[i], ())
        &&& forall|i: int|
            0 <= i < self.rollbacks().len() ==> call_requires(#[trigger] self.rollbacks()[i], ())
    }

    /// A schema without migrations.
    pub fn new() -> (schema: Self)
        ensures
            schema.wf(),
            schema.executes().len() == 0,
            schema.rollbacks().len() == 0,
    {
        Self { executes: Vec::new(), rollbacks: Vec::new() }
    }

    /// Adds the migration made of `execute` and `rollback` as the newest.
    pub fn add_migration(&mut self, execute: E, rollback: R)
        requires
            old(self).wf(),
            call_requires(execute, ()),
            call_requires(rollback, ()),
        ensures
            final(self).wf(),
            final(self).executes() == old(self).executes().push(execute),
            final(self).rollbacks() == old(self).rollbacks().push(rollback),
    {
        self.executes.push(execute);
        self.rollbacks.push(rollback);
        proof {
            assert forall|i: int| 0 <= i < self.executes().len() implies call_requires(
                #[trigger] self.executes()[i],
                (),
            ) by {
                if i < old(self).executes().len() {
                    assert(self.executes()[i] == old(self).executes()[i]);
                }
            }
            assert forall|i: int| 0 <= i < self.rollbacks().len() implies call_requires(
                #[trigger] self.rollbacks()[i],
                (),
            ) by {
                if i < old(self).rollbacks().len() {
                    assert(self.rollbacks()[i] == old(self).rollbacks()[i]);
                }
            }
        }
    }

    /// What executing every migration returns, oldest migration first.
    pub fn execute(&self) -> (out: Vec<&'a str>)
        requires
            self.wf(),
        ensures
            out@.len() == self.executes().len(),
            forall|i: int| 0 <= i < out@.len() ==> call_ensures(self.executes()[i], (), #[trigger] out@[i]),
    {
        let mut out: Vec<&'a str> = Vec::new();
        let mut i: usize = 0;
        while i < self.executes.len()
            invariant
                self.wf(),
                i <= self.executes@.len(),
                out@.len() == i,
                forall|j: int|
                    0 <= j < out@.len() ==> call_ensures(self.executes()[j], (), #[trigger] out@[j]),
            decreases self.executes@.len() - i,
        {
            assert(call_requires(self.executes()[i as int], ()));
            let text = (self.executes[i])();
            out.push(text);
            i += 1;
        }
        out
    }

    /// What rolling every migration back returns, newest migration first.
    pub fn rollback(&self) -> (out: Vec<&'a str>)
        requires
            self.wf(),
        ensures
            out@.len() == self.rollbacks().len(),
            forall|i: int|
                0 <= i < out@.len() ==> call_ensures(
                    self.rollbacks()[self.rollbacks().len() - 1 - i],
                    (),
                    #[trigger] out@[i],
                ),
    {
        let n = self.rollbacks.len();
        let mut out: Vec<&'a str> = Vec::new();
        let mut i: usize = 0;
        while i < n
            invariant
                self.wf(),
                i <= n,
                n == self.rollbacks@.len(),
                out@.len() == i,
                forall|j: int|
                    0 <= j < out@.len() ==> call_ensures(self.rollbacks()[n - 1 - j], (), #[trigger] out@[j]),
            decreases n - i,
        {
            assert(call_requires(self.rollbacks()[n - 1 - i], ()));
            let text = (self.rollbacks[n - 1 - i])();
            out.push(text);
            i += 1;
        }
        out
    }
}

/// The statement that adds the field.
pub fn add_field() -> (text: &'static str)
    ensures
        text@ == "add field"@,
{
    "add field"
}

/// The statement that removes the field.
pub fn remove_field() -> (text: &'static str)
    ensures
        text@ == "remove field"@,
{
    "remove field"
}

} // verus!
