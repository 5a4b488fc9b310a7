//! A history of commands that can be run again, shortened by one, or
//! cleared. Running a command yields the lines it draws; showing them is
//! left to the caller.

use vstd::prelude::*;
use vstd::string::*;
use crate::text::{decimal, push_decimal};

verus! {

/// The texts of `lines`, in order.
pub open spec fn texts(lines: Seq<String>) -> Seq<Seq<char>> {
    Seq::new(lines.len(), |i: int| lines[i]@)
}

/// Something that can be run.
pub trait Command {
    /// Whether running this command may yield `lines`. A command that says
    /// nothing allows everything.
    open spec fn executes(&self, lines: Seq<Seq<char>>) -> bool {
        true
    }

    /// Runs the command and returns the lines it drew, in order.
    fn execute(&self) -> (lines: Vec<String>)
        ensures
            self.executes(texts(lines@)),
    ;
}

/// Whether each of the commands of `stack` may yield the lines that `parts`
/// holds at its place.
pub open spec fn yields(stack: Seq<Box<dyn Command>>, parts: Seq<Seq<Seq<char>>>) -> bool {
    &&& parts.len() == stack.len()
    &&& forall|i: int| 0 <= i < stack.len() ==> stack[i].executes(#[trigger] parts[i])
}

/// Whether running the commands of `stack`, oldest first, may yield `lines`:
/// what each of them yields, one after the other.
pub open spec fn ran(stack: Seq<Box<dyn Command>>, lines: Seq<Seq<char>>) -> bool {
    exists|parts: Seq<Seq<Seq<char>>>| #[trigger] yields(stack, parts) && lines == parts.flatten()
}

/// A command made of commands: running it runs them all, oldest first.
pub struct MacroCommand {
    stack: Vec<Box<dyn Command>>,
}

impl View for MacroCommand {
    type V = Seq<Box<dyn Command>>;

    /// The commands, oldest first.
    closed spec fn view(&self) -> Seq<Box<dyn Command>> {
        self.stack@
    }
}

impl MacroCommand {
    /// A history without commands.
    pub fn new() -> (history: Self)
        ensures
            history@.len() == 0,
    {
        Self { stack: Vec::new() }
    }

    /// Adds `cmd` as the newest command.
    pub fn append(&mut self, cmd: Box<dyn Command>)
        ensures
            final(self)@ == old(self)@.push(cmd),
    {
        self.stack.push(cmd);
    }

    /// Drops the newest command, if there is one.
    pub fn undo(&mut self)
        ensures
            final(self)@ == if old(self)@.len() == 0 {
                old(self)@
            } else {
                old(self)@.drop_last()
            },
    {
        self.stack.pop();
    }

    /// Drops every command.
    pub fn clear(&mut self)
        ensures
            final(self)@.len() == 0,
    {
        self.stack.clear();
    }
}

impl Command for MacroCommand {
    open spec fn executes(&self, lines: Seq<Seq<char>>) -> bool {
        ran(self@, lines)
    }

    fn execute(&self) -> (lines: Vec<String>) {
        let mut lines: Vec<String> = Vec::new();
        let ghost mut parts: Seq<Seq<Seq<char>>> = Seq::empty();
        let mut i: usize = 0;
        assert(texts(lines@) =~= parts.flatten());
        while i < self.stack.len()
            invariant
                i <= self.stack@.len(),
                parts.len() == i,
                forall|j: int| 0 <= j < i ==> self@[j].executes(#[trigger] parts[j]),
                texts(lines@) == parts.flatten(),
            decreases self.stack@.len() - i,
        {
            let ghost before = texts(lines@);
            let mut drawn = self.stack[i].execute();
            let ghost last = texts(drawn@);
            lines.append(&mut drawn);
            proof {
                assert(texts(lines@) =~= before + last);
                parts.lemma_flatten_push(last);
                parts = parts.push(last);
            }
            i += 1;
        }
        assert(yields(self@, parts));
        lines
    }
}

/// Something that can be drawn on.
pub trait Drawable {
    /// Whether drawing at (`x`, `y`) may yield the line `text`. A drawable
    /// that says nothing allows everything.
    open spec fn draws(&self, x: u32, y: u32, text: Seq<char>) -> bool {
        true
    }

    /// Draws at (`x`, `y`) and returns the line that shows it.
    fn draw(&self, x: u32, y: u32) -> (text: String)
        ensures
            self.draws(x, y, text@),
    ;
}

/// The command that draws one point on its drawable.
pub struct DrawCommand<D: Drawable> {
    drawable: Box<D>,
    x: u32,
    y: u32,
}

impl<D: Drawable> DrawCommand<D> {
    /// What the command draws on.
    pub closed spec fn drawable(&self) -> Box<D> {
        self.drawable
    }

    /// The point the command draws.
    pub closed spec fn point(&self) -> (u32, u32) {
        (self.x, self.y)
    }

    /// The command that draws the point (`x`, `y`) on `drawable`.
    pub fn new(drawable: Box<D>, x: u32, y: u32) -> (cmd: Self)
        ensures
            cmd.drawable() == drawable,
            cmd.point() == (x, y),
    {
        Self { drawable, x, y }
    }
}

impl<D: Drawable> Command for DrawCommand<D> {
    open spec fn executes(&self, lines: Seq<Seq<char>>) -> bool {
        lines.len() == 1 && self.drawable().draws(self.point().0, self.point().1, lines[0])
    }

    fn execute(&self) -> (lines: Vec<String>) {
        let mut lines: Vec<String> = Vec::new();
        lines.push(self.drawable.draw(self.x, self.y));
        assert(texts(lines@)[0] == lines@[0]@);
        lines
    }
}

/// The line a canvas shows for the point (`x`, `y`).
pub open spec fn canvas_line(x: u32, y: u32) -> Seq<char> {
    "draw(x:"@ + decimal(x as nat) + ", y:"@ + decimal(y as nat) + ")"@
}

/// A canvas that shows each point drawn as a line of text.
#[derive(Clone)]
pub struct DrawCanvas;

impl DrawCanvas {
    /// A canvas.
    pub fn new() -> Self {
        Self
    }
}

impl Drawable for DrawCanvas {
    open spec fn draws(&self, x: u32, y: u32, text: Seq<char>) -> bool {
        text == canvas_line(x, y)
    }

    fn draw(&self, x: u32, y: u32) -> (text: String) {
        let mut text = String::new();
        text.append("draw(x:");
        push_decimal(&mut text, x as u64);
        text.append(", y:");
        push_decimal(&mut text, y as u64);
        text.append(")");
        assert(text@ =~= canvas_line(x, y));
        text
    }
}

} // verus!
