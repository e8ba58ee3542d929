use console_game::term::{DrawCommand, Term, WrapMode};

fn mv(x: u16, y: u16) -> DrawCommand {
    DrawCommand::MoveTo(x, y)
}

fn pr(s: &str) -> DrawCommand {
    DrawCommand::Print(s.to_string())
}

#[test]
fn print_queues_move_and_text() {
    let mut term = Term::new();
    term.print("hi", 3, 4);
    assert_eq!(term.flush(), vec![mv(3, 4), pr("hi")]);
    assert_eq!(term.flush(), vec![]);
}

#[test]
fn clear_blanks_and_homes() {
    let mut term = Term::new();
    term.clear();
    term.write("x");
    term.move_cursor(1, 2);
    assert_eq!(
        term.flush(),
        vec![DrawCommand::Clear, mv(0, 0), pr("x"), mv(1, 2)]
    );
}

#[test]
fn print_wrap_normal_splits_rows() {
    let mut term = Term::new();
    term.print_wrap("abcdefghij", 2, 5, 4, WrapMode::Normal);
    assert_eq!(
        term.flush(),
        vec![mv(2, 5), pr("abcd"), mv(2, 6), pr("efgh"), mv(2, 7), pr("ij")]
    );
}

#[test]
fn print_wrap_cut_keeps_first_row() {
    let mut term = Term::new();
    term.print_wrap("abcdefghij", 0, 0, 4, WrapMode::Cut);
    assert_eq!(term.flush(), vec![mv(0, 0), pr("abcd")]);
}

#[test]
fn print_wrap_empty_text_draws_nothing() {
    let mut term = Term::new();
    term.print_wrap("", 0, 0, 4, WrapMode::Normal);
    assert_eq!(term.flush(), vec![]);
}

#[test]
fn print_wrap_exact_multiple() {
    let mut term = Term::new();
    term.print_wrap("abcd", 0, 1, 2, WrapMode::Normal);
    assert_eq!(term.flush(), vec![mv(0, 1), pr("ab"), mv(0, 2), pr("cd")]);
}

#[test]
fn print_wrap_stops_at_last_row() {
    let mut term = Term::new();
    term.print_wrap("abcdef", 0, 65534, 2, WrapMode::Normal);
    assert_eq!(term.flush(), vec![mv(0, 65534), pr("ab"), mv(0, 65535), pr("cd")]);
}

#[test]
fn horizontal_and_vertical_lines() {
    let mut term = Term::new();
    term.line('-', 1, 2, 3, false);
    assert_eq!(term.flush(), vec![mv(1, 2), pr("---")]);
    term.line('|', 1, 2, 3, true);
    assert_eq!(
        term.flush(),
        vec![mv(1, 2), pr("|"), mv(1, 3), pr("|"), mv(1, 4), pr("|")]
    );
}

#[test]
fn border_rect_draws_four_sides() {
    let mut term = Term::new();
    term.border_rect('#', 0, 0, 2, 1);
    assert_eq!(
        term.flush(),
        vec![
            mv(0, 0),
            pr("##"),
            mv(0, 1),
            pr("##"),
            mv(0, 0),
            pr("#"),
            mv(2, 0),
            pr("#"),
        ]
    );
}

#[test]
fn fill_rect_draws_rows() {
    let mut term = Term::new();
    term.fill_rect('*', 1, 1, 2, 2);
    assert_eq!(term.flush(), vec![mv(1, 1), pr("**"), mv(1, 2), pr("**")]);
}
