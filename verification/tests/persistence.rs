use patterns::items::Bow;
use patterns::numeral::Numeral;
use patterns::persistence::{
    save_all, Entity, FileWrite, GameObject, GameObjectVisitor, IoError, OpenPlan, TxtFileSaver,
};
use patterns::player::Player;

fn bow(damage: i32, range: f32) -> Bow {
    Bow { damage, range: Numeral::parse(&format!("{}", range)).unwrap() }
}

fn player(x: f32, y: f32, health: i32) -> Player {
    Player {
        position: (
            Numeral::parse(&format!("{}", x)).unwrap(),
            Numeral::parse(&format!("{}", y)).unwrap(),
        ),
        health,
    }
}

fn saver(dir: &str) -> TxtFileSaver {
    TxtFileSaver::new(dir, Ok(())).unwrap()
}

/// Records which operation fired, and fails where it is told to.
struct Spy {
    fired: Vec<&'static str>,
    fail_at: Option<usize>,
}

impl Spy {
    fn outcome(&mut self, kind: &'static str) -> Result<(), IoError> {
        let call = self.fired.len();
        self.fired.push(kind);
        if self.fail_at == Some(call) {
            Err(IoError::Write(format!("disk full at call {}", call)))
        } else {
            Ok(())
        }
    }
}

impl GameObjectVisitor for Spy {
    type Output = Result<(), IoError>;

    fn visit_player(&mut self, _player: &Player) -> Result<(), IoError> {
        self.outcome("player")
    }

    fn visit_bow(&mut self, _bow: &Bow) -> Result<(), IoError> {
        self.outcome("bow")
    }
}

/// A directory held in memory: performs each write as its plan says.
struct MemoryDisk {
    saver: TxtFileSaver,
    files: Vec<(String, String)>,
}

impl MemoryDisk {
    fn perform(&mut self, w: FileWrite) -> Result<(), IoError> {
        assert!(w.file.write);
        match self.files.iter_mut().find(|f| f.0 == w.file.path) {
            Some(file) => {
                if w.file.truncate {
                    file.1.clear();
                }
                file.1.push_str(&w.content);
                Ok(())
            }
            None => {
                if !w.file.create {
                    return Err(IoError::FileOpen(w.file.path));
                }
                self.files.push((w.file.path, w.content));
                Ok(())
            }
        }
    }

    fn read(&self, path: &str) -> Option<&str> {
        self.files.iter().find(|f| f.0 == path).map(|f| f.1.as_str())
    }
}

impl GameObjectVisitor for MemoryDisk {
    type Output = Result<(), IoError>;

    fn visit_player(&mut self, player: &Player) -> Result<(), IoError> {
        let w = self.saver.visit_player(player);
        self.perform(w)
    }

    fn visit_bow(&mut self, bow: &Bow) -> Result<(), IoError> {
        let w = self.saver.visit_bow(bow);
        self.perform(w)
    }
}

#[test]
fn bow_fires_the_bow_operation_only() {
    let mut spy = Spy { fired: Vec::new(), fail_at: None };
    assert_eq!(bow(12, 18.3).accept(&mut spy), Ok(()));
    assert_eq!(spy.fired, vec!["bow"]);
}

#[test]
fn player_fires_the_player_operation_only() {
    let mut spy = Spy { fired: Vec::new(), fail_at: None };
    assert_eq!(player(50.0, 50.0, 100).accept(&mut spy), Ok(()));
    assert_eq!(spy.fired, vec!["player"]);
}

#[test]
fn entity_fires_the_operation_of_what_it_holds() {
    let mut spy = Spy { fired: Vec::new(), fail_at: None };
    assert_eq!(Entity::Bow(bow(1, 2.0)).accept(&mut spy), Ok(()));
    assert_eq!(Entity::Player(player(0.0, 0.0, 1)).accept(&mut spy), Ok(()));
    assert_eq!(spy.fired, vec!["bow", "player"]);
}

#[test]
fn accept_returns_what_the_operation_returned() {
    let mut spy = Spy { fired: Vec::new(), fail_at: Some(0) };
    assert_eq!(
        bow(1, 1.0).accept(&mut spy),
        Err(IoError::Write(String::from("disk full at call 0")))
    );
}

#[test]
fn bow_file_content_is_exact() {
    let mut s = saver("save_files");
    let w = bow(12, 18.3).accept(&mut s);
    assert_eq!(w.content, "Damage: 12\nRange: 18.3");
    assert_eq!(
        w.file,
        OpenPlan { path: String::from("save_files/bow.txt"), write: true, create: true, truncate: true }
    );
}

#[test]
fn player_file_content_is_exact() {
    let mut s = saver("save_files");
    let w = player(50.0, 50.0, 100).accept(&mut s);
    assert_eq!(w.content, "Position: [50, 50]\nHealth: 100");
    assert_eq!(w.file.path, "save_files/player.txt");
    assert!(w.file.write && w.file.create && w.file.truncate);
}

#[test]
fn negative_and_fractional_fields_are_written_as_they_are() {
    let mut s = saver("d");
    let w = player(-1.5, 0.25, -7).accept(&mut s);
    assert_eq!(w.content, "Position: [-1.5, 0.25]\nHealth: -7");
    let w = bow(i32::MIN, 0.0).accept(&mut s);
    assert_eq!(w.content, "Damage: -2147483648\nRange: 0");
    let w = bow(i32::MAX, 1.0).accept(&mut s);
    assert_eq!(w.content, "Damage: 2147483647\nRange: 1");
}

#[test]
fn file_exists_with_exact_content_after_accept() {
    let mut disk = MemoryDisk { saver: saver("fresh"), files: Vec::new() };
    assert_eq!(disk.read("fresh/bow.txt"), None);
    assert_eq!(bow(12, 18.3).accept(&mut disk), Ok(()));
    assert_eq!(disk.read("fresh/bow.txt"), Some("Damage: 12\nRange: 18.3"));
    assert_eq!(disk.files.len(), 1);
}

#[test]
fn second_save_of_a_kind_replaces_the_first() {
    let mut disk = MemoryDisk { saver: saver("dir"), files: Vec::new() };
    assert_eq!(bow(120000, 18.25).accept(&mut disk), Ok(()));
    assert_eq!(bow(3, 4.5).accept(&mut disk), Ok(()));
    assert_eq!(disk.read("dir/bow.txt"), Some("Damage: 3\nRange: 4.5"));
    assert_eq!(disk.files.len(), 1);
}

#[test]
fn kinds_are_saved_to_files_of_their_own() {
    let mut disk = MemoryDisk { saver: saver("dir"), files: Vec::new() };
    let objects = vec![Entity::Player(player(50.0, 50.0, 100)), Entity::Bow(bow(12, 18.3))];
    assert_eq!(save_all(&objects, &mut disk), Ok(()));
    assert_eq!(disk.read("dir/player.txt"), Some("Position: [50, 50]\nHealth: 100"));
    assert_eq!(disk.read("dir/bow.txt"), Some("Damage: 12\nRange: 18.3"));
    assert_eq!(disk.files.len(), 2);
}

#[test]
fn save_all_visits_in_order() {
    let mut spy = Spy { fired: Vec::new(), fail_at: None };
    let objects = vec![
        Entity::Bow(bow(1, 1.0)),
        Entity::Player(player(0.0, 0.0, 1)),
        Entity::Bow(bow(2, 2.0)),
    ];
    assert_eq!(save_all(&objects, &mut spy), Ok(()));
    assert_eq!(spy.fired, vec!["bow", "player", "bow"]);
}

#[test]
fn save_all_stops_at_the_first_failure() {
    let mut spy = Spy { fired: Vec::new(), fail_at: Some(1) };
    let objects = vec![
        Entity::Player(player(0.0, 0.0, 1)),
        Entity::Bow(bow(1, 1.0)),
        Entity::Player(player(9.0, 9.0, 9)),
    ];
    assert_eq!(
        save_all(&objects, &mut spy),
        Err(IoError::Write(String::from("disk full at call 1")))
    );
    assert_eq!(spy.fired, vec!["player", "bow"]);
}

#[test]
fn save_all_of_nothing_does_nothing() {
    let mut spy = Spy { fired: Vec::new(), fail_at: Some(0) };
    let objects: Vec<Entity> = Vec::new();
    assert_eq!(save_all(&objects, &mut spy), Ok(()));
    assert!(spy.fired.is_empty());
}

#[test]
fn save_all_takes_objects_of_one_kind() {
    let mut disk = MemoryDisk { saver: saver("dir"), files: Vec::new() };
    let bows = vec![bow(1, 1.0), bow(2, 2.0)];
    assert_eq!(save_all(&bows, &mut disk), Ok(()));
    assert_eq!(disk.read("dir/bow.txt"), Some("Damage: 2\nRange: 2"));
}

#[test]
fn saver_is_not_built_when_the_directory_failed() {
    let r = TxtFileSaver::new("/no/such", Err(String::from("permission denied")));
    assert_eq!(r.err(), Some(IoError::DirectoryProvision(String::from("permission denied"))));
}

#[test]
fn open_file_names_the_file_after_the_struct() {
    let s = saver("a/b");
    assert_eq!(
        s.open_file("thing"),
        OpenPlan { path: String::from("a/b/thing.txt"), write: true, create: true, truncate: true }
    );
}

#[test]
fn write_to_file_carries_the_content_unchanged() {
    let s = saver("dir");
    let w = s.write_to_file("note", String::from("one\ntwo"));
    assert_eq!(w.file, s.open_file("note"));
    assert_eq!(w.content, "one\ntwo");
}

#[test]
fn failures_of_different_stages_differ() {
    assert_ne!(IoError::FileOpen(String::from("x")), IoError::Write(String::from("x")));
    assert_ne!(IoError::DirectoryProvision(String::from("x")), IoError::FileOpen(String::from("x")));
}
