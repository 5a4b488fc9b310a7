use patterns::history::{Command, DrawCanvas, DrawCommand, Drawable, MacroCommand};

struct Tagged(&'static str);

impl Drawable for Tagged {
    fn draw(&self, x: u32, y: u32) -> String {
        format!("{}@{},{}", self.0, x, y)
    }
}

#[test]
fn canvas_shows_the_point() {
    assert_eq!(DrawCanvas::new().draw(1, 2), "draw(x:1, y:2)");
    assert_eq!(DrawCanvas::new().draw(0, 4294967295), "draw(x:0, y:4294967295)");
}

#[test]
fn draw_command_draws_its_point_once() {
    let cmd = DrawCommand::new(Box::new(DrawCanvas::new()), 3, 4);
    assert_eq!(cmd.execute(), vec!["draw(x:3, y:4)"]);
}

#[test]
fn draw_command_draws_on_what_it_was_given() {
    let cmd = DrawCommand::new(Box::new(Tagged("t")), 5, 6);
    assert_eq!(cmd.execute(), vec!["t@5,6"]);
}

#[test]
fn history_runs_undoes_and_clears() {
    let mut history = MacroCommand::new();
    let canvas = Box::new(DrawCanvas::new());

    let cmd1 = Box::new(DrawCommand::new(canvas.clone(), 1, 1));
    let cmd2 = Box::new(DrawCommand::new(canvas.clone(), 2, 2));

    history.append(cmd1);
    history.append(cmd2);
    assert_eq!(history.execute(), vec!["draw(x:1, y:1)", "draw(x:2, y:2)"]);

    history.undo();
    assert_eq!(history.execute(), vec!["draw(x:1, y:1)"]);

    history.clear();
    assert!(history.execute().is_empty());
}

#[test]
fn undo_of_an_empty_history_leaves_it_empty() {
    let mut history = MacroCommand::new();
    history.undo();
    assert!(history.execute().is_empty());
}

#[test]
fn history_within_a_history_runs_in_place() {
    let mut inner = MacroCommand::new();
    inner.append(Box::new(DrawCommand::new(Box::new(DrawCanvas::new()), 2, 2)));
    inner.append(Box::new(DrawCommand::new(Box::new(DrawCanvas::new()), 3, 3)));
    let mut outer = MacroCommand::new();
    outer.append(Box::new(DrawCommand::new(Box::new(DrawCanvas::new()), 1, 1)));
    outer.append(Box::new(inner));
    outer.append(Box::new(DrawCommand::new(Box::new(DrawCanvas::new()), 4, 4)));
    assert_eq!(
        outer.execute(),
        vec!["draw(x:1, y:1)", "draw(x:2, y:2)", "draw(x:3, y:3)", "draw(x:4, y:4)"]
    );
}
