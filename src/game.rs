use vstd::prelude::*;

use crate::game_object::{
    handle_error_text, not_found_message, value_text, GameObject, HandleError, HandleErrorView,
    Value,
};
use crate::lexer::{lex, lexer_error_text, Lexer};
use crate::parser::{parse_tokens, parser_error_text, Arg, Instruction, InstructionView, Parser};
use crate::term::{
    commands_view, row_commands, row_limit, wrap_commands, DrawCommand, DrawView, Term, WrapMode,
};
use crate::text::push_char;

verus! {

/// Whether a string holds exactly the text `lit`.
pub fn is_text(s: &String, lit: &str) -> (r: bool)
    ensures
        r == (s@ == lit@),
{
    let other = String::from_str(lit);
    *s == other
}

/// The root object of the game state: what every command acts on first.
#[derive(Debug, Clone, PartialEq, Eq)]
pub struct Root {
    pub coins: i64,
}

pub open spec fn handle_result_view(r: Result<Value, HandleError>) -> Result<Value, HandleErrorView> {
    match r {
        Ok(v) => Ok(v),
        Err(e) => Err(e@),
    }
}

/// What `Root` does with an instruction: its coins afterwards and its answer.
/// `coins` answers the coin count; `add(n)` adds `n` (wrapping at the bounds of `i64`)
/// and answers the new count; anything else is not found.
pub open spec fn root_step(coins: i64, i: InstructionView) -> (i64, Result<Value, HandleErrorView>) {
    match i {
        InstructionView::Access(key, _) => if key == "coins"@ {
            (coins, Ok(Value::IntValue(coins)))
        } else {
            (coins, Err(HandleErrorView::NotFound(not_found_message("Root"@, i))))
        },
        InstructionView::FunctionCall(name, args) => if name == "add"@ {
            if args.len() == 0 {
                (coins, Err(HandleErrorView::WrongArgType("Int"@, 0)))
            } else {
                let Arg::Int(amount) = args[0];
                let sum = coins.wrapping_add(amount);
                (sum, Ok(Value::IntValue(sum)))
            }
        } else {
            (coins, Err(HandleErrorView::NotFound(not_found_message("Root"@, i))))
        },
    }
}

impl Root {
    /// A root holding `coins` coins.
    pub fn new(coins: i64) -> (r: Root)
        ensures
            r.coins == coins,
    {
        Root { coins }
    }
}

impl GameObject for Root {
    fn handle(&mut self, instruction: Instruction) -> (r: Result<Value, HandleError>)
        ensures
            (final(self).coins, handle_result_view(r)) == root_step(old(self).coins, instruction@),
    {
        match &instruction {
            Instruction::Access(key, _) => {
                if is_text(key, "coins") {
                    return Ok(Value::IntValue(self.coins));
                }
            },
            Instruction::FunctionCall(name, args) => {
                if is_text(name, "add") {
                    if args.len() == 0 {
                        return Err(HandleError::WrongArgType(String::from_str("Int"), 0));
                    }
                    let Arg::Int(amount) = args[0];
                    self.coins = self.coins.wrapping_add(amount);
                    return Ok(Value::IntValue(self.coins));
                }
            },
        }
        self.return_err(String::from_str("Root"), instruction)
    }
}

/// What a command line does to a root holding `coins` coins: the coins afterwards and
/// the line shown in reply. The first failing stage (tokens, parse, handling) gives the reply.
pub open spec fn command_outcome(command: Seq<char>, coins: i64) -> (i64, Seq<char>) {
    match lex(command) {
        Err(e) => (coins, lexer_error_text(e)),
        Ok(ts) => match parse_tokens(ts) {
            Err(e) => (coins, parser_error_text(e)),
            Ok(i) => {
                let (after, r) = root_step(coins, i);
                match r {
                    Ok(v) => (after, value_text(v)),
                    Err(e) => (after, handle_error_text(e)),
                }
            },
        },
    }
}

/// Longest command line that can be typed: the cursor column, two past its end at most,
/// must fit in a `u16`.
pub const MAX_COMMAND_LEN: usize = 0xfffd;

/// A key or mouse event, as the console sees it.
#[derive(Debug, Clone, Copy, PartialEq, Eq, Structural)]
pub enum Input {
    Esc,
    Left,
    Right,
    Char(char),
    Backspace,
    Delete,
    Enter,
    ScrollUp,
    ScrollDown,
    Other,
}

/// The state of the console, as values.
pub struct GameView {
    /// The command line being typed.
    pub command: Seq<char>,
    /// The lines shown above the command line, oldest first.
    pub lines: Seq<Seq<char>>,
    /// How many characters the cursor stands before the end of the command line.
    pub cursor_offset: u16,
    /// How many lines the view is scrolled back.
    pub scroll_offset: u16,
    pub coins: i64,
}

pub open spec fn lines_view(ls: Seq<String>) -> Seq<Seq<char>> {
    ls.map_values(|l: String| l@)
}

/// A line of the console that shows a command as typed.
pub open spec fn echo_line(command: Seq<char>) -> Seq<char> {
    "~ "@ + command
}

pub open spec fn with_scroll(g: GameView, s: u16) -> GameView {
    GameView { command: g.command, lines: g.lines, cursor_offset: g.cursor_offset, scroll_offset: s, coins: g.coins }
}

pub open spec fn with_command(g: GameView, command: Seq<char>, cursor: u16) -> GameView {
    GameView { command, lines: g.lines, cursor_offset: cursor, scroll_offset: g.scroll_offset, coins: g.coins }
}

pub open spec fn scrolled_down(g: GameView) -> GameView {
    with_scroll(g, if g.scroll_offset > 0 { (g.scroll_offset - 1) as u16 } else { 0 })
}

/// Scrolling back one line, with `rows` rows on the screen, two of them for the command line
/// and its border; never further back than the oldest line.
pub open spec fn scrolled_up(g: GameView, rows: u16) -> GameView {
    let height = rows - 2;
    let s = if g.lines.len() <= height {
        0
    } else {
        let most = g.lines.len() - height;
        let next = g.scroll_offset + 1;
        let t = if next <= most { next } else { most };
        if t <= 0xffff { t } else { 0xffff }
    };
    with_scroll(g, s as u16)
}

pub open spec fn cursor_moved_left(g: GameView) -> GameView {
    if g.cursor_offset >= g.command.len() {
        g
    } else {
        with_command(g, g.command, (g.cursor_offset + 1) as u16)
    }
}

pub open spec fn cursor_moved_right(g: GameView) -> GameView {
    if g.cursor_offset == 0 {
        g
    } else {
        with_command(g, g.command, (g.cursor_offset - 1) as u16)
    }
}

/// Typing `c` at the cursor; characters that are not ASCII are ignored, and so is typing
/// on a full command line.
pub open spec fn char_typed(g: GameView, c: char) -> GameView {
    if (c as u32) >= 128 || g.command.len() >= MAX_COMMAND_LEN {
        g
    } else {
        with_command(g, g.command.insert(g.command.len() - g.cursor_offset, c), g.cursor_offset)
    }
}

pub open spec fn char_removed_before(g: GameView) -> GameView {
    if g.command.len() - g.cursor_offset == 0 {
        g
    } else {
        with_command(g, g.command.remove(g.command.len() - g.cursor_offset - 1), g.cursor_offset)
    }
}

pub open spec fn char_removed_at(g: GameView) -> GameView {
    if g.cursor_offset == 0 {
        g
    } else {
        with_command(
            g,
            g.command.remove(g.command.len() - g.cursor_offset),
            (g.cursor_offset - 1) as u16,
        )
    }
}

/// Submitting the command line: it is echoed, carried out, and the reply is shown under it.
pub open spec fn submitted(g: GameView) -> GameView {
    let (coins, reply) = command_outcome(g.command, g.coins);
    GameView {
        command: seq![],
        lines: g.lines.push(echo_line(g.command)).push(reply),
        cursor_offset: 0,
        scroll_offset: 0,
        coins,
    }
}

/// The state after `input`, with `rows` rows on the screen.
pub open spec fn input_step(g: GameView, input: Input, rows: u16) -> GameView {
    match input {
        Input::Left => cursor_moved_left(g),
        Input::Right => cursor_moved_right(g),
        Input::Char(c) => char_typed(g, c),
        Input::Backspace => char_removed_before(g),
        Input::Delete => char_removed_at(g),
        Input::Enter => submitted(g),
        Input::ScrollUp => scrolled_up(g, rows),
        Input::ScrollDown => scrolled_down(g),
        _ => g,
    }
}

/// The lines that fit in `height` rows when scrolled back `scroll` lines, oldest first.
pub open spec fn visible_lines(lines: Seq<Seq<char>>, scroll: nat, height: nat) -> Seq<Seq<char>> {
    let hi = if lines.len() > scroll {
        lines.len() - scroll
    } else {
        0
    };
    let lo = if hi > height {
        hi - height
    } else {
        0
    };
    lines.subrange(lo, hi)
}

/// The first `n` of `lines`, each from the left edge of its own row on, wrapped at `width`.
pub open spec fn lines_commands(lines: Seq<Seq<char>>, width: u16, n: nat) -> Seq<DrawView>
    decreases n,
{
    if n == 0 {
        seq![]
    } else {
        let i = n - 1;
        lines_commands(lines, width, i as nat) + wrap_commands(
            lines[i],
            0,
            i,
            width as nat,
            row_limit(WrapMode::Normal, lines[i].len(), i as u16),
        )
    }
}

/// A full redraw of the console on a screen of `width` columns and `rows` rows: the lines,
/// a border, the command line, and the cursor placed in it.
pub open spec fn draw_commands(g: GameView, width: u16, rows: u16) -> Seq<DrawView> {
    let vis = visible_lines(g.lines, g.scroll_offset as nat, (rows - 2) as nat);
    seq![DrawView::Clear, DrawView::MoveTo(0, 0)] + lines_commands(vis, width, vis.len())
        + row_commands('-', 0, (rows - 2) as u16, width) + seq![
        DrawView::MoveTo(0, (rows - 1) as u16),
        DrawView::Print(echo_line(g.command)),
        DrawView::MoveTo((2 + g.command.len() - g.cursor_offset) as u16, (rows - 1) as u16),
    ]
}

/// The console: a command line, the lines above it, and the root object commands act on.
pub struct Game {
    term: Term,
    command_buffer: Vec<char>,
    line_buffer: Vec<String>,
    cursor_offset: u16,
    scroll_offset: u16,
    root: Root,
}

impl View for Game {
    type V = GameView;

    closed spec fn view(&self) -> GameView {
        GameView {
            command: self.command_buffer@,
            lines: lines_view(self.line_buffer@),
            cursor_offset: self.cursor_offset,
            scroll_offset: self.scroll_offset,
            coins: self.root.coins,
        }
    }
}

/// A string holding `chars`.
fn string_of(chars: &Vec<char>) -> (r: String)
    ensures
        r@ == chars@,
{
    let mut s = String::new();
    let mut i: usize = 0;
    while i < chars.len()
        invariant
            i <= chars.len(),
            s@ == chars@.take(i as int),
        decreases chars.len() - i,
    {
        push_char(&mut s, chars[i]);
        i = i + 1;
        assert(s@ =~= chars@.take(i as int));
    }
    assert(chars@.take(chars.len() as int) =~= chars@);
    s
}

impl Game {
    /// Whether the state is consistent: the cursor lies within the command line, which
    /// fits its bound.
    pub closed spec fn wf(&self) -> bool {
        &&& self.cursor_offset <= self.command_buffer.len()
        &&& self.command_buffer.len() <= MAX_COMMAND_LEN
    }

    /// The draw commands queued since the last draw.
    pub closed spec fn screen(&self) -> Seq<DrawView> {
        self.term@
    }

    /// A console with an empty command line and no lines, acting on `root`.
    pub fn new(root: Root) -> (r: Game)
        ensures
            r.wf(),
            r@ == (GameView {
                command: seq![],
                lines: seq![],
                cursor_offset: 0,
                scroll_offset: 0,
                coins: root.coins,
            }),
            r.screen() == Seq::<DrawView>::empty(),
    {
        let r = Game {
            term: Term::new(),
            command_buffer: Vec::new(),
            line_buffer: Vec::new(),
            cursor_offset: 0,
            scroll_offset: 0,
            root,
        };
        assert(r@.lines =~= Seq::<Seq<char>>::empty());
        assert(r@.command =~= Seq::<char>::empty());
        r
    }

    /// The root object that commands act on.
    pub fn root(&self) -> (r: &Root)
        ensures
            r.coins == self@.coins,
    {
        &self.root
    }

    fn scroll_down(&mut self)
        requires
            old(self).wf(),
        ensures
            final(self).wf(),
            final(self)@ == scrolled_down(old(self)@),
            final(self).screen() == old(self).screen(),
    {
        if self.scroll_offset != 0 {
            self.scroll_offset = self.scroll_offset - 1;
        }
    }

    fn scroll_up(&mut self, rows: u16)
        requires
            old(self).wf(),
            rows >= 2,
        ensures
            final(self).wf(),
            final(self)@ == scrolled_up(old(self)@, rows),
            final(self).screen() == old(self).screen(),
    {
        let height = (rows - 2) as usize;
        let len = self.line_buffer.len();
        if len <= height {
            self.scroll_offset = 0;
        } else {
            let most = len - height;
            let next = self.scroll_offset as usize + 1;
            let t = if next <= most {
                next
            } else {
                most
            };
            self.scroll_offset = if t <= 0xffff {
                t as u16
            } else {
                0xffff
            };
        }
    }

    fn cursor_left(&mut self)
        requires
            old(self).wf(),
        ensures
            final(self).wf(),
            final(self)@ == cursor_moved_left(old(self)@),
            final(self).screen() == old(self).screen(),
    {
        if self.cursor_offset as usize >= self.command_buffer.len() {
            return;
        }
        self.cursor_offset = self.cursor_offset + 1;
    }

    fn cursor_right(&mut self)
        requires
            old(self).wf(),
        ensures
            final(self).wf(),
            final(self)@ == cursor_moved_right(old(self)@),
            final(self).screen() == old(self).screen(),
    {
        if self.cursor_offset == 0 {
            return;
        }
        self.cursor_offset = self.cursor_offset - 1;
    }

    fn char_at_cursor(&mut self, c: char)
        requires
            old(self).wf(),
        ensures
            final(self).wf(),
            final(self)@ == char_typed(old(self)@, c),
            final(self).screen() == old(self).screen(),
    {
        if (c as u32) >= 128 || self.command_buffer.len() >= MAX_COMMAND_LEN {
            return;
        }
        let at = self.command_buffer.len() - self.cursor_offset as usize;
        self.command_buffer.insert(at, c);
    }

    fn remove_char_before(&mut self)
        requires
            old(self).wf(),
        ensures
            final(self).wf(),
            final(self)@ == char_removed_before(old(self)@),
            final(self).screen() == old(self).screen(),
    {
        if self.command_buffer.len() - self.cursor_offset as usize == 0 {
            return;
        }
        let at = self.command_buffer.len() - self.cursor_offset as usize - 1;
        self.command_buffer.remove(at);
    }

    fn remove_char_at(&mut self)
        requires
            old(self).wf(),
        ensures
            final(self).wf(),
            final(self)@ == char_removed_at(old(self)@),
            final(self).screen() == old(self).screen(),
    {
        if self.cursor_offset == 0 {
            return;
        }
        let at = self.command_buffer.len() - self.cursor_offset as usize;
        self.command_buffer.remove(at);
        self.cursor_offset = self.cursor_offset - 1;
    }

    fn submit_command(&mut self)
        requires
            old(self).wf(),
        ensures
            final(self).wf(),
            final(self)@ == submitted(old(self)@),
            final(self).screen() == old(self).screen(),
    {
        self.cursor_offset = 0;
        self.scroll_offset = 0;
        let command = string_of(&self.command_buffer);
        let mut echo = String::new();
        echo.append("~ ");
        echo.append(command.as_str());
        self.line_buffer.push(echo);
        self.command_buffer.clear();
        let reply = match Lexer::tokenize(command.as_str()) {
            Err(e) => e.text(),
            Ok(tokens) => match Parser::parse(tokens) {
                Err(e) => e.text(),
                Ok(instruction) => match self.root.handle(instruction) {
                    Ok(v) => v.text(),
                    Err(e) => e.text(),
                },
            },
        };
        self.line_buffer.push(reply);
        proof {
            let g = old(self)@;
            assert(final(self)@.lines =~= g.lines.push(echo_line(g.command)).push(
                command_outcome(g.command, g.coins).1,
            ));
            assert(final(self)@.command =~= Seq::<char>::empty());
        }
    }

    /// Acts on one input, with `rows` rows on the screen. Answers whether the console
    /// should close, which `Esc` asks for.
    pub fn update(&mut self, input: Input, rows: u16) -> (r: bool)
        requires
            old(self).wf(),
            rows >= 2,
        ensures
            final(self).wf(),
            r == (input == Input::Esc),
            final(self)@ == input_step(old(self)@, input, rows),
            final(self).screen() == old(self).screen(),
    {
        match input {
            Input::Esc => {
                return true;
            },
            Input::Left => self.cursor_left(),
            Input::Right => self.cursor_right(),
            Input::Char(c) => self.char_at_cursor(c),
            Input::Backspace => self.remove_char_before(),
            Input::Delete => self.remove_char_at(),
            Input::Enter => self.submit_command(),
            Input::ScrollUp => self.scroll_up(rows),
            Input::ScrollDown => self.scroll_down(),
            Input::Other => {},
        }
        false
    }

    /// Adds the line that marks a tick of the fixed clock.
    pub fn fixed_update(&mut self)
        requires
            old(self).wf(),
        ensures
            final(self).wf(),
            final(self)@ == (GameView { lines: old(self)@.lines.push("X seconds"@), ..old(self)@ }),
            final(self).screen() == old(self).screen(),
    {
        self.line_buffer.push(String::from_str("X seconds"));
        assert(final(self)@.lines =~= old(self)@.lines.push("X seconds"@));
    }

    /// Redraws the console on a screen of `width` columns and `rows` rows, and hands out
    /// everything queued for the screen, this redraw last.
    pub fn draw(&mut self, width: u16, rows: u16) -> (r: Vec<DrawCommand>)
        requires
            old(self).wf(),
            width > 0,
            rows >= 2,
        ensures
            final(self).wf(),
            final(self)@ == old(self)@,
            commands_view(r@) == old(self).screen() + draw_commands(old(self)@, width, rows),
            final(self).screen() == Seq::<DrawView>::empty(),
    {
        let ghost g = self@;
        let ghost before = self.term@;
        self.term.clear();
        let height = (rows - 2) as usize;
        let len = self.line_buffer.len();
        let scroll = self.scroll_offset as usize;
        let hi = if len > scroll {
            len - scroll
        } else {
            0
        };
        let lo = if hi > height {
            hi - height
        } else {
            0
        };
        let ghost vis = visible_lines(g.lines, g.scroll_offset as nat, (rows - 2) as nat);
        let mut i: usize = lo;
        assert(before + seq![DrawView::Clear, DrawView::MoveTo(0, 0)] + seq![] =~= self.term@);
        while i < hi
            invariant
                lo <= i <= hi <= len,
                hi - lo <= height,
                height == rows - 2,
                len == self.line_buffer.len(),
                width > 0,
                self@ == g,
                self.wf(),
                vis == lines_view(self.line_buffer@).subrange(lo as int, hi as int),
                self.term@ == before + seq![DrawView::Clear, DrawView::MoveTo(0, 0)]
                    + lines_commands(vis, width, (i - lo) as nat),
            decreases hi - i,
        {
            let row = (i - lo) as u16;
            self.term.print_wrap(self.line_buffer[i].as_str(), 0, row, width, WrapMode::Normal);
            i = i + 1;
            assert(vis[(i - lo) - 1] == self.line_buffer@[i - 1]@);
            assert(self.term@ =~= before + seq![DrawView::Clear, DrawView::MoveTo(0, 0)]
                + lines_commands(vis, width, (i - lo) as nat));
        }
        self.term.line('-', 0, rows - 2, width, false);
        let command = string_of(&self.command_buffer);
        let mut echo = String::new();
        echo.append("~ ");
        echo.append(command.as_str());
        self.term.print(echo.as_str(), 0, rows - 1);
        let column = 2 + self.command_buffer.len() as u16 - self.cursor_offset;
        self.term.move_cursor(column, rows - 1);
        proof {
            assert(self.term@ =~= before + draw_commands(g, width, rows));
        }
        self.term.flush()
    }
}

} // verus!
