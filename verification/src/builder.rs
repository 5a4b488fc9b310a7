//! Building a value step by step.

use vstd::prelude::*;

verus! {

/// A named thing.
#[derive(Debug)]
pub struct Foo {
    bar: String,
}

impl View for Foo {
    type V = Seq<char>;

    /// The name.
    closed spec fn view(&self) -> Seq<char> {
        self.bar@
    }
}

impl Foo {
    /// A builder that has no name yet.
    pub fn builder() -> (b: FooBuilder)
        ensures
            b@ == Seq::<char>::empty(),
    {
        FooBuilder::default()
    }
}

/// Collects what a `Foo` is made of.
pub struct FooBuilder {
    bar: String,
}

impl View for FooBuilder {
    type V = Seq<char>;

    /// The name given so far.
    closed spec fn view(&self) -> Seq<char> {
        self.bar@
    }
}

impl Default for FooBuilder {
    fn default() -> (b: FooBuilder)
        ensures
            b@ == Seq::<char>::empty(),
    {
        FooBuilder { bar: String::new() }
    }
}

impl FooBuilder {
    /// A builder that has no name yet.
    pub fn new() -> (b: FooBuilder)
        ensures
            b@ == Seq::<char>::empty(),
    {
        FooBuilder::default()
    }

    /// The builder with its name set to `bar`; a name given before is dropped.
    pub fn name(self, bar: String) -> (b: FooBuilder)
        ensures
            b@ == bar@,
    {
        let mut builder = self;
        builder.bar = bar;
        builder
    }

    /// The `Foo` with the name given last, or the empty name if none was.
    pub fn build(self) -> (foo: Foo)
        ensures
            foo@ == self@,
    {
        Foo { bar: self.bar }
    }
}

} // verus!
