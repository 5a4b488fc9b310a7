//! Persistence of game objects by double dispatch: every kind of object
//! accepts a visitor and calls the one operation that matches its own kind.

use vstd::prelude::*;
use vstd::string::*;
use crate::items::Bow;
use crate::player::Player;
use crate::numeral::{is_numeral, lemma_numeral_is_one_line};
use crate::text::{
    lemma_decimal_is_one_line, lemma_one_line_concat, lemma_two_lines, line_breaks,
    push_signed_decimal, signed_decimal,
};

verus! {

/// Why persisting failed.
#[derive(Debug, PartialEq, Eq)]
pub enum IoError {
    /// The save directory could not be created.
    DirectoryProvision(String),
    /// A file could not be opened for writing.
    FileOpen(String),
    /// An opened file could not be written in full.
    Write(String),
}

/// A game object of any known kind.
#[derive(Debug)]
pub enum Entity {
    Player(Player),
    Bow(Bow),
}

/// One operation for each kind of game object. An operation may change the
/// visitor; how, and what it returns, is the visitor's own relation.
pub trait GameObjectVisitor: Sized {
    /// What an operation hands back.
    type Output;

    /// Whether visiting `player` may take the visitor from `self` to `after`
    /// and return `output`. A visitor that says nothing allows everything.
    open spec fn visits_player(&self, player: &Player, after: &Self, output: Self::Output) -> bool {
        true
    }

    /// Whether visiting `bow` may take the visitor from `self` to `after` and
    /// return `output`. A visitor that says nothing allows everything.
    open spec fn visits_bow(&self, bow: &Bow, after: &Self, output: Self::Output) -> bool {
        true
    }

    fn visit_player(&mut self, player: &Player) -> (output: Self::Output)
        ensures
            old(self).visits_player(player, final(self), output),
    ;

    fn visit_bow(&mut self, bow: &Bow) -> (output: Self::Output)
        ensures
            old(self).visits_bow(bow, final(self), output),
    ;
}

/// Whether one call of the operation that matches the kind of `entity`, on
/// `entity` itself, may take the visitor from `before` to `after` and return
/// `output`.
pub open spec fn dispatched<V: GameObjectVisitor>(
    entity: Entity,
    before: V,
    after: V,
    output: V::Output,
) -> bool {
    match entity {
        Entity::Player(player) => before.visits_player(&player, &after, output),
        Entity::Bow(bow) => before.visits_bow(&bow, &after, output),
    }
}

/// What can accept a visitor.
pub trait GameObject {
    /// The object with its kind.
    spec fn entity(&self) -> Entity;

    /// Calls the visitor's operation for this object's own kind, once, and
    /// returns what it returned.
    fn accept<V: GameObjectVisitor>(&self, visitor: &mut V) -> (output: V::Output)
        ensures
            dispatched(self.entity(), *old(visitor), *final(visitor), output),
    ;
}

impl GameObject for Entity {
    open spec fn entity(&self) -> Entity {
        *self
    }

    fn accept<V: GameObjectVisitor>(&self, visitor: &mut V) -> (output: V::Output) {
        match self {
            Entity::Player(player) => player.accept(visitor),
            Entity::Bow(bow) => bow.accept(visitor),
        }
    }
}

/// Whether the visitor may go from `before` to `after` by accepting the first
/// `n` of `objects` one after the other, in order, every one with success.
pub open spec fn accepted_through<T: GameObject, V: GameObjectVisitor<Output = Result<(), IoError>>>(
    objects: Seq<T>,
    n: int,
    before: V,
    after: V,
) -> bool
    decreases n,
{
    if n <= 0 {
        after == before
    } else {
        exists|mid: V|
            accepted_through(objects, n - 1, before, mid) && #[trigger] dispatched(
                objects[n - 1].entity(),
                mid,
                after,
                Ok(()),
            )
    }
}

/// Whether the visitor may go from `before` to `after` by accepting the
/// objects before the one at `k` with success and then failing with `error`
/// on the one at `k`.
pub open spec fn failed_at<T: GameObject, V: GameObjectVisitor<Output = Result<(), IoError>>>(
    objects: Seq<T>,
    k: int,
    before: V,
    after: V,
    error: IoError,
) -> bool {
    &&& 0 <= k < objects.len()
    &&& exists|mid: V|
        accepted_through(objects, k, before, mid) && #[trigger] dispatched(
            objects[k].entity(),
            mid,
            after,
            Err(error),
        )
}

/// Hands every object to `visitor`, in the order given, and stops at the
/// first failure, which it returns. The objects after a failed one are never
/// handed over, and what was done before it is not undone.
pub fn save_all<T: GameObject, V: GameObjectVisitor<Output = Result<(), IoError>>>(
    objects: &[T],
    visitor: &mut V,
) -> (r: Result<(), IoError>)
    ensures
        match r {
            Ok(_) => accepted_through(objects@, objects@.len() as int, *old(visitor), *final(visitor)),
            Err(error) => exists|k: int| failed_at(objects@, k, *old(visitor), *final(visitor), error),
        },
{
    let mut i: usize = 0;
    while i < objects.len()
        invariant
            i <= objects@.len(),
            accepted_through(objects@, i as int, *old(visitor), *visitor),
        decreases objects@.len() - i,
    {
        let ghost mid = *visitor;
        let outcome = objects[i].accept(visitor);
        match outcome {
            Ok(_) => {
                proof {
                    assert(outcome->Ok_0 == ());
                    assert(dispatched(objects@[i + 1 - 1].entity(), mid, *visitor, Ok(())));
                }
            },
            Err(error) => {
                proof {
                    assert(dispatched(objects@[i as int].entity(), mid, *visitor, Err(error)));
                    assert(failed_at(objects@, i as int, *old(visitor), *visitor, error));
                }
                return Err(error);
            },
        }
        i += 1;
    }
    Ok(())
}

/// How a file is to be opened.
#[derive(Debug, PartialEq, Eq)]
pub struct OpenPlan {
    /// Where the file lies.
    pub path: String,
    /// Open it for writing.
    pub write: bool,
    /// Create it if it is absent.
    pub create: bool,
    /// Empty it if it is present.
    pub truncate: bool,
}

/// One file to be replaced as a whole: open it as `file` says, write all of
/// `content`, close it.
#[derive(Debug, PartialEq, Eq)]
pub struct FileWrite {
    pub file: OpenPlan,
    pub content: String,
}

/// The path of the file that holds the objects named `struct_name` under
/// `save_dir`.
pub open spec fn file_path(save_dir: Seq<char>, struct_name: Seq<char>) -> Seq<char> {
    save_dir + "/"@ + struct_name + ".txt"@
}

/// One line of a saved file, without its line break: the label, a colon, a
/// space and the value.
pub open spec fn field_line(label: Seq<char>, value: Seq<char>) -> Seq<char> {
    label + ": "@ + value
}

/// What the file of a player holds: its position, then its health.
pub open spec fn player_content(player: Player) -> Seq<char> {
    field_line("Position"@, "["@ + player.position.0@ + ", "@ + player.position.1@ + "]"@) + "\n"@
        + field_line("Health"@, signed_decimal(player.health as int))
}

/// What the file of a bow holds: its damage, then its range.
pub open spec fn bow_content(bow: Bow) -> Seq<char> {
    field_line("Damage"@, signed_decimal(bow.damage as int)) + "\n"@ + field_line(
        "Range"@,
        bow.range@,
    )
}

/// The name under which objects of the kind of `entity` are filed: the name
/// of the kind in lower case.
pub open spec fn kind_name(entity: Entity) -> Seq<char> {
    match entity {
        Entity::Player(_) => "player"@,
        Entity::Bow(_) => "bow"@,
    }
}

/// What the file of `entity` holds.
pub open spec fn content_of(entity: Entity) -> Seq<char> {
    match entity {
        Entity::Player(player) => player_content(player),
        Entity::Bow(bow) => bow_content(bow),
    }
}

/// Whether `a` and `b` are objects of one kind.
pub open spec fn same_kind(a: Entity, b: Entity) -> bool {
    (a is Player && b is Player) || (a is Bow && b is Bow)
}

/// The files of a disk, each path with what the file holds, after `w` has
/// been performed on `files` with success: the file of `w` holds the content
/// of `w` and nothing else, and every other file is as it was.
pub open spec fn performed(files: Map<Seq<char>, Seq<char>>, w: FileWrite) -> Map<
    Seq<char>,
    Seq<char>,
>
    recommends
        w.file.write && w.file.create && w.file.truncate,
{
    files.insert(w.file.path@, w.content@)
}

/// Saves each game object as a text file of its own under one directory:
/// one labelled field per line, in the order the object declares them.
///
/// The saver decides which file is replaced and what goes into it. Touching
/// the disk is left to the caller, who performs each [`FileWrite`] it is
/// handed.
#[derive(Debug)]
pub struct TxtFileSaver {
    save_dir: String,
}

impl View for TxtFileSaver {
    type V = Seq<char>;

    /// The directory the files go to.
    closed spec fn view(&self) -> Seq<char> {
        self.save_dir@
    }
}

impl TxtFileSaver {
    /// The saver for `save_dir`, given what creating that directory and its
    /// parents came to. A directory that could not be created yields no saver.
    pub fn new(save_dir: &str, provisioned: Result<(), String>) -> (r: Result<TxtFileSaver, IoError>)
        ensures
            match provisioned {
                Ok(_) => r matches Ok(saver) && saver@ == save_dir@,
                Err(reason) => r == Err::<TxtFileSaver, IoError>(IoError::DirectoryProvision(reason)),
            },
    {
        match provisioned {
            Ok(_) => {
                let txt_file_saver = TxtFileSaver { save_dir: save_dir.to_owned() };
                Ok(txt_file_saver)
            },
            Err(reason) => Err(IoError::DirectoryProvision(reason)),
        }
    }

    /// How the file of the objects named `struct_name` is opened: for
    /// writing, created if absent, emptied if present.
    pub fn open_file(&self, struct_name: &str) -> (plan: OpenPlan)
        ensures
            plan.path@ == file_path(self@, struct_name@),
            plan.write,
            plan.create,
            plan.truncate,
    {
        let mut filename = self.save_dir.clone();
        filename.append("/");
        filename.append(struct_name);
        filename.append(".txt");
        OpenPlan { path: filename, write: true, create: true, truncate: true }
    }

    /// The write that leaves `content`, and nothing else, in the file of the
    /// objects named `struct_name`.
    pub fn write_to_file(&self, struct_name: &str, content: String) -> (w: FileWrite)
        ensures
            w.file.path@ == file_path(self@, struct_name@),
            w.file.write,
            w.file.create,
            w.file.truncate,
            w.content == content,
    {
        let file = self.open_file(struct_name);
        FileWrite { file, content }
    }
}

impl GameObjectVisitor for TxtFileSaver {
    type Output = FileWrite;

    open spec fn visits_player(&self, player: &Player, after: &Self, output: FileWrite) -> bool {
        &&& after == self
        &&& output.file.path@ == file_path(self@, "player"@)
        &&& output.file.write && output.file.create && output.file.truncate
        &&& output.content@ == player_content(*player)
    }

    open spec fn visits_bow(&self, bow: &Bow, after: &Self, output: FileWrite) -> bool {
        &&& after == self
        &&& output.file.path@ == file_path(self@, "bow"@)
        &&& output.file.write && output.file.create && output.file.truncate
        &&& output.content@ == bow_content(*bow)
    }

    fn visit_player(&mut self, player: &Player) -> (output: FileWrite) {
        let mut content = String::new();
        content.append("Position");
        content.append(": ");
        content.append("[");
        content.append(player.position.0.as_str());
        content.append(", ");
        content.append(player.position.1.as_str());
        content.append("]");
        content.append("\n");
        content.append("Health");
        content.append(": ");
        push_signed_decimal(&mut content, player.health);
        assert(content@ =~= player_content(*player));
        self.write_to_file("player", content)
    }

    fn visit_bow(&mut self, bow: &Bow) -> (output: FileWrite) {
        let mut content = String::new();
        content.append("Damage");
        content.append(": ");
        push_signed_decimal(&mut content, bow.damage);
        content.append("\n");
        content.append("Range");
        content.append(": ");
        content.append(bow.range.as_str());
        assert(content@ =~= bow_content(*bow));
        self.write_to_file("bow", content)
    }
}

/// Whether every real-valued field of `entity` holds the text of a number,
/// as every such field of an object at run time does.
pub open spec fn fields_are_numerals(entity: Entity) -> bool {
    match entity {
        Entity::Player(player) => is_numeral(player.position.0@) && is_numeral(player.position.1@),
        Entity::Bow(bow) => is_numeral(bow.range@),
    }
}

/// A saved file has one line for each field of its object and no line break
/// after the last: two fields, one line break.
pub proof fn lemma_one_line_per_field(entity: Entity)
    requires
        fields_are_numerals(entity),
    ensures
        line_breaks(content_of(entity)) == 1,
{
    reveal_strlit("Position");
    reveal_strlit("Health");
    reveal_strlit("Damage");
    reveal_strlit("Range");
    reveal_strlit(": ");
    reveal_strlit("[");
    reveal_strlit(", ");
    reveal_strlit("]");
    reveal_strlit("\n");
    assert("\n"@ =~= seq!['\n']);
    match entity {
        Entity::Player(player) => {
            let x = player.position.0@;
            let y = player.position.1@;
            let health = signed_decimal(player.health as int);
            lemma_numeral_is_one_line(x);
            lemma_numeral_is_one_line(y);
            lemma_decimal_is_one_line(player.health as int);
            lemma_one_line_concat("["@, x);
            lemma_one_line_concat("["@ + x, ", "@);
            lemma_one_line_concat("["@ + x + ", "@, y);
            lemma_one_line_concat("["@ + x + ", "@ + y, "]"@);
            lemma_one_line_concat("Position"@, ": "@);
            lemma_one_line_concat("Position"@ + ": "@, "["@ + x + ", "@ + y + "]"@);
            lemma_one_line_concat("Health"@, ": "@);
            lemma_one_line_concat("Health"@ + ": "@, health);
            lemma_two_lines(
                field_line("Position"@, "["@ + x + ", "@ + y + "]"@),
                field_line("Health"@, health),
            );
        },
        Entity::Bow(bow) => {
            let damage = signed_decimal(bow.damage as int);
            lemma_numeral_is_one_line(bow.range@);
            lemma_decimal_is_one_line(bow.damage as int);
            lemma_one_line_concat("Damage"@, ": "@);
            lemma_one_line_concat("Damage"@ + ": "@, damage);
            lemma_one_line_concat("Range"@, ": "@);
            lemma_one_line_concat("Range"@ + ": "@, bow.range@);
            lemma_two_lines(field_line("Damage"@, damage), field_line("Range"@, bow.range@));
        },
    }
}

/// A saver files every object under the name of its kind, with the whole
/// of its content, in a file that is emptied first.
pub proof fn lemma_saver_files_by_kind(saver: TxtFileSaver, entity: Entity, after: TxtFileSaver, w: FileWrite)
    requires
        dispatched(entity, saver, after, w),
    ensures
        after == saver,
        w.file.path@ == file_path(saver@, kind_name(entity)),
        w.file.write && w.file.create && w.file.truncate,
        w.content@ == content_of(entity),
{
}

/// Saving an object after another of its kind leaves the later one's content
/// in their file and nothing of the earlier one's: each save replaces the
/// file as a whole.
pub proof fn lemma_later_save_replaces_earlier(
    saver: TxtFileSaver,
    first: Entity,
    second: Entity,
    w1: FileWrite,
    w2: FileWrite,
    files: Map<Seq<char>, Seq<char>>,
)
    requires
        same_kind(first, second),
        dispatched(first, saver, saver, w1),
        dispatched(second, saver, saver, w2),
    ensures
        w2.file.path@ == w1.file.path@,
        performed(performed(files, w1), w2) == performed(files, w2),
        performed(performed(files, w1), w2)[w1.file.path@] == content_of(second),
{
    assert(performed(performed(files, w1), w2) =~= performed(files, w2));
}

/// Objects of different kinds are saved to different files, so that saving
/// one never touches what was saved of the other.
pub proof fn lemma_kinds_have_files_of_their_own(
    saver: TxtFileSaver,
    a: Entity,
    b: Entity,
    wa: FileWrite,
    wb: FileWrite,
    files: Map<Seq<char>, Seq<char>>,
)
    requires
        !same_kind(a, b),
        dispatched(a, saver, saver, wa),
        dispatched(b, saver, saver, wb),
    ensures
        wa.file.path@ != wb.file.path@,
        performed(performed(files, wa), wb)[wa.file.path@] == content_of(a),
{
    reveal_strlit("player");
    reveal_strlit("bow");
    reveal_strlit("/");
    reveal_strlit(".txt");
    let dir = saver@.len() as int;
    let pa = wa.file.path@;
    let pb = wb.file.path@;
    assert(kind_name(a)[0] != kind_name(b)[0]);
    assert(pa[dir + 1] == kind_name(a)[0]);
    assert(pb[dir + 1] == kind_name(b)[0]);
}

} // verus!
