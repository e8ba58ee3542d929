use console_game::game::{Game, Input, Root};
use console_game::term::DrawCommand;

fn type_text(game: &mut Game, s: &str) {
    for c in s.chars() {
        assert!(!game.update(Input::Char(c), 24));
    }
}

fn printed(commands: &[DrawCommand]) -> Vec<String> {
    commands
        .iter()
        .filter_map(|c| match c {
            DrawCommand::Print(s) => Some(s.clone()),
            _ => None,
        })
        .collect()
}

#[test]
fn submit_runs_the_command() {
    let mut game = Game::new(Root::new(0));
    type_text(&mut game, "add(5)");
    game.update(Input::Enter, 24);
    type_text(&mut game, "coins");
    game.update(Input::Enter, 24);
    assert_eq!(game.root().coins, 5);
    let out = game.draw(80, 24);
    assert_eq!(
        printed(&out),
        vec!["~ add(5)", "5", "~ coins", "5", &"-".repeat(80), "~ "]
    );
    assert_eq!(out[0], DrawCommand::Clear);
    assert_eq!(out[out.len() - 1], DrawCommand::MoveTo(2, 23));
}

#[test]
fn errors_are_shown_as_lines() {
    let mut game = Game::new(Root::new(0));
    for cmd in ["$", "f(", "nope"] {
        type_text(&mut game, cmd);
        game.update(Input::Enter, 24);
    }
    let out = game.draw(80, 24);
    assert_eq!(
        &printed(&out)[..6],
        &[
            "~ $",
            "Unexpected char '$' at 0",
            "~ f(",
            "Expected ')' but got none",
            "~ nope",
            "Did not find property 'nope' on Root",
        ]
    );
}

#[test]
fn escape_asks_to_close() {
    let mut game = Game::new(Root::new(0));
    assert!(game.update(Input::Esc, 24));
    assert!(!game.update(Input::Other, 24));
}

#[test]
fn editing_at_the_cursor() {
    let mut game = Game::new(Root::new(0));
    type_text(&mut game, "cins");
    game.update(Input::Left, 24);
    game.update(Input::Left, 24);
    game.update(Input::Left, 24);
    type_text(&mut game, "o");
    game.update(Input::Char('é'), 24);
    let out = game.draw(80, 24);
    let p = printed(&out);
    assert_eq!(p[p.len() - 1], "~ coins");
    assert_eq!(out[out.len() - 1], DrawCommand::MoveTo(4, 23));
    game.update(Input::Backspace, 24);
    game.update(Input::Delete, 24);
    game.update(Input::Right, 24);
    let out = game.draw(80, 24);
    let p = printed(&out);
    assert_eq!(p[p.len() - 1], "~ cns");
    assert_eq!(out[out.len() - 1], DrawCommand::MoveTo(4, 23));
}

#[test]
fn scrolling_is_bounded() {
    let mut game = Game::new(Root::new(0));
    for _ in 0..5 {
        game.fixed_update();
    }
    // 5 rows leave 3 for lines: at most 2 lines back.
    for _ in 0..4 {
        game.update(Input::ScrollUp, 5);
    }
    let out = game.draw(20, 5);
    assert_eq!(printed(&out)[..3], ["X seconds", "X seconds", "X seconds"]);
    game.update(Input::ScrollDown, 5);
    game.update(Input::ScrollDown, 5);
    game.update(Input::ScrollDown, 5);
    let out = game.draw(20, 5);
    assert_eq!(out.len(), 2 + 3 * 2 + 2 + 3);
}

#[test]
fn long_lines_wrap_when_drawn() {
    let mut game = Game::new(Root::new(0));
    type_text(&mut game, "abcdefgh");
    game.update(Input::Enter, 24);
    let out = game.draw(4, 24);
    assert_eq!(printed(&out)[..4], ["~ ab", "cdef", "gh", "Did "]);
    assert_eq!(out[2], DrawCommand::MoveTo(0, 0));
    assert_eq!(out[4], DrawCommand::MoveTo(0, 1));
}

#[test]
fn typing_stops_at_the_longest_command() {
    let mut game = Game::new(Root::new(0));
    for _ in 0..65535 {
        game.update(Input::Char('a'), 24);
    }
    let out = game.draw(80, 24);
    assert_eq!(out[out.len() - 1], DrawCommand::MoveTo(65535, 23));
    let p = printed(&out);
    assert_eq!(p[p.len() - 1].len(), 2 + 65533);
}
