//! What the screen shows: the boards, the pieces on and beside them, and the
//! texts around them, cell by cell.
use crate::board::{spec_wf, BOARD_HEIGHT, BOARD_WIDTH};
use crate::game::{Game, GameModel};
use crate::player::{Player, PlayerModel};
use crate::tetromino::{Color, Piece, Tetromino, TetrominoVariant};
use crate::Mode;
use vstd::prelude::*;

verus! {

/// How far the two boards of a game with an opponent stand from the middle.
pub const BOARD_MP_OFFSET: i32 = 30;

/// A colour of the screen.
#[derive(Clone, Copy, Debug, PartialEq, Eq, Structural)]
pub enum Tint {
    /// The colour of a cell of the engine.
    Cell(Color),
    White,
    /// The colour of the frame of a board in a row of the screen: the
    /// renderer picks it by the board's player and the time.
    Frame(usize, u16),
}

/// How a character is painted.
#[derive(Clone, Copy, Debug, PartialEq, Eq, Structural)]
pub enum Paint {
    Plain,
    /// In bold, in a colour.
    Bold(Tint),
    /// In a colour.
    With(Tint),
    /// On a ground of a colour.
    On(Tint),
}

/// What one cell of the screen shows.
#[derive(Clone, Copy, Debug, PartialEq, Eq, Structural)]
pub struct Glyph {
    pub symbol: char,
    pub paint: Paint,
}

/// A text on the screen: it starts at column `x` of row `y`.
#[derive(Debug, PartialEq, Eq)]
pub struct TextOverlay {
    pub x: i32,
    pub y: i32,
    pub content: Vec<char>,
    pub paint: Paint,
}

/// What a `TextOverlay` stands for.
pub struct Caption {
    pub x: int,
    pub y: int,
    pub content: Seq<char>,
    pub paint: Paint,
}

impl View for TextOverlay {
    type V = Caption;

    open spec fn view(&self) -> Caption {
        Caption { x: self.x as int, y: self.y as int, content: self.content@, paint: self.paint }
    }
}

/// What each of `overlays` stands for.
pub open spec fn spec_captions(overlays: Seq<TextOverlay>) -> Seq<Caption> {
    Seq::new(overlays.len(), |i: int| overlays[i]@)
}

/// The character for a digit.
pub open spec fn spec_digit(digit: int) -> char {
    if digit == 0 {
        '0'
    } else if digit == 1 {
        '1'
    } else if digit == 2 {
        '2'
    } else if digit == 3 {
        '3'
    } else if digit == 4 {
        '4'
    } else if digit == 5 {
        '5'
    } else if digit == 6 {
        '6'
    } else if digit == 7 {
        '7'
    } else if digit == 8 {
        '8'
    } else {
        '9'
    }
}

/// The digits of a number, the first of them first.
pub open spec fn spec_digits(number: nat) -> Seq<char>
    decreases number,
{
    if number < 10 {
        seq![spec_digit(number as int)]
    } else {
        spec_digits(number / 10).push(spec_digit((number % 10) as int))
    }
}

/// The character for a digit.
fn digit(value: u8) -> (symbol: char)
    requires
        value < 10,
    ensures
        symbol == spec_digit(value as int),
{
    match value {
        0 => '0',
        1 => '1',
        2 => '2',
        3 => '3',
        4 => '4',
        5 => '5',
        6 => '6',
        7 => '7',
        8 => '8',
        _ => '9',
    }
}

/// Appends the digits of `number` to `text`.
pub fn push_digits(text: &mut Vec<char>, number: u128)
    ensures
        final(text)@ == old(text)@ + spec_digits(number as nat),
    decreases number,
{
    if number < 10 {
        text.push(digit(number as u8));
        assert(text@ =~= old(text)@ + spec_digits(number as nat));
    } else {
        push_digits(text, number / 10);
        text.push(digit((number % 10) as u8));
        assert(text@ =~= old(text)@ + spec_digits(number as nat));
    }
}

/// Appends the characters `more` to `text`.
pub fn push_text(text: &mut Vec<char>, more: &[char])
    ensures
        final(text)@ == old(text)@ + more@,
{
    let mut i: usize = 0;
    while i < more.len()
        invariant
            i <= more@.len(),
            text@ == old(text)@ + more@.take(i as int),
        decreases more@.len() - i,
    {
        text.push(more[i]);
        i += 1;
        assert(text@ =~= old(text)@ + more@.take(i as int));
    }
    assert(more@.take(more@.len() as int) =~= more@);
}

/// The columns between which each board stands on a screen `width` columns
/// wide: one board in the middle, or two to the sides of it.
pub open spec fn spec_board_x(width: u16, is_multiplayer: bool) -> Seq<(int, int)> {
    let left = width / 2 - BOARD_WIDTH;
    let right = width / 2 + BOARD_WIDTH + 2;
    if is_multiplayer {
        seq![
            (left - BOARD_MP_OFFSET, right - BOARD_MP_OFFSET),
            (left + BOARD_MP_OFFSET, right + BOARD_MP_OFFSET),
        ]
    } else {
        seq![(left, right)]
    }
}

/// What the numbers of `columns` are over the integers.
pub open spec fn spec_columns(columns: Seq<(i32, i32)>) -> Seq<(int, int)> {
    Seq::new(columns.len(), |i: int| (columns[i].0 as int, columns[i].1 as int))
}

/// What the texts show beside board `index`, whose columns are `board_x`,
/// of its player: the title over it, the headings of the queue and of the
/// held piece, and the points, the level and the lines.
pub open spec fn spec_board_captions(index: int, board_x: (int, int), player: PlayerModel) -> Seq<
    Caption,
> {
    let combo = if player.score.combo > 0 {
        seq!['x'] + spec_digits(player.score.combo as nat)
    } else {
        Seq::empty()
    };
    seq![
        Caption {
            x: board_x.0 + (board_x.1 - board_x.0) / 2 - 3,
            y: 0,
            content: seq!['T', 'E', 'T', 'R', 'I', 'S'],
            paint: Paint::Bold(Tint::Frame(index as usize, 0)),
        },
        Caption {
            x: board_x.1 + 1,
            y: 2,
            content: seq!['N', 'E', 'X', 'T', ':'],
            paint: Paint::Plain,
        },
        Caption {
            x: board_x.0 - 9,
            y: 2,
            content: seq!['H', 'O', 'L', 'D', ':'],
            paint: Paint::Plain,
        },
        Caption {
            x: board_x.1 + 1,
            y: 17,
            content: seq!['S', 'C', 'O', 'R', 'E', ':', ' '] + spec_digits(
                player.score.score as nat,
            ) + seq![' '] + combo,
            paint: Paint::Plain,
        },
        Caption {
            x: board_x.1 + 1,
            y: 18,
            content: seq!['L', 'E', 'V', 'E', 'L', ':', ' '] + spec_digits(
                player.score.level as nat,
            ),
            paint: Paint::Plain,
        },
        Caption {
            x: board_x.1 + 1,
            y: 19,
            content: seq!['L', 'I', 'N', 'E', 'S', ':', ' '] + spec_digits(
                player.score.lines as nat,
            ),
            paint: Paint::Plain,
        },
    ]
}

/// What the topmost of the first `upto` of `captions` shows at `(x, y)`, if
/// any of them reaches there: a later text covers an earlier one.
pub open spec fn spec_caption_glyph(captions: Seq<Caption>, upto: int, x: int, y: int) -> Option<
    Glyph,
>
    decreases upto,
{
    if upto <= 0 {
        None
    } else {
        let caption = captions[upto - 1];
        if caption.y == y && caption.x <= x < caption.x + caption.content.len() {
            Some(Glyph { symbol: caption.content[x - caption.x], paint: caption.paint })
        } else {
            spec_caption_glyph(captions, upto - 1, x, y)
        }
    }
}

/// The player that board `index` is of: the local player for the first
/// board, the opponent for the second.
pub open spec fn spec_seated(game: GameModel, index: int) -> Option<PlayerModel> {
    if index == 0 {
        Some(game.player)
    } else if index == 1 {
        game.opponent
    } else {
        None
    }
}

/// What the frame of a board and the dots of its ground show at `(x, y)`,
/// for a board between the columns `board_x` and the rows `board_y` of a
/// screen whose middle column is `middle`.
pub open spec fn spec_frame_symbol(board_x: (int, int), board_y: (int, int), middle: int, x: int, y: int)
    -> Option<char> {
    if board_x.0 <= x <= board_x.1 - 1 && board_y.0 <= y <= board_y.1 - 1 {
        Some(
            if x == board_x.0 && y == 0 {
                '╔'
            } else if x == board_x.0 && y == board_y.1 - 1 {
                '╚'
            } else if x == board_x.1 - 1 && y == board_y.0 {
                '╗'
            } else if x == board_x.1 - 1 && y == board_y.1 - 1 {
                '╝'
            } else if x == board_x.0 || x == board_x.1 - 1 {
                '║'
            } else if y == board_y.0 || y == board_y.1 - 1 {
                '═'
            } else if x % 2 != middle % 2 {
                '.'
            } else {
                ' '
            },
        )
    } else {
        None
    }
}

/// What the pieces and the settled cells of `player` show at `(x, y)`, for
/// the board between the columns `board_x` and the rows `board_y`. What is
/// named later covers what is named earlier: the preview of the landing, the
/// falling piece, the settled cells, the held piece to the left, and the
/// pieces of the queue to the right.
pub open spec fn spec_player_glyph(
    board_x: (int, int),
    board_y: (int, int),
    player: PlayerModel,
    x: int,
    y: int,
) -> Option<Glyph> {
    let falling = Tint::Cell(player.falling.color);
    let inside = board_x.0 < x < board_x.1 - 1 && board_y.0 < y < board_y.1 - 1;
    let row = board_y.1 - 2 - y;
    let column = (x - board_x.0 - 1) / 2;
    let previewed = if inside && (player.ghost_piece matches Some(ghost) && ghost.covers(
        x,
        board_y.1 - y - 2,
        board_x.0,
        0,
    )) {
        Some(Glyph { symbol: '░', paint: Paint::With(falling) })
    } else {
        None
    };
    let fallen = if inside && player.falling.covers(x, board_y.1 - y - 2, board_x.0, 0) {
        Some(
            if player.locking {
                Glyph { symbol: '▓', paint: Paint::With(falling) }
            } else {
                Glyph { symbol: ' ', paint: Paint::On(falling) }
            },
        )
    } else {
        previewed
    };
    let settled = if inside && 0 <= row < player.board.len() && 0 <= column
        < player.board[row].len() && player.board[row][column] is Some {
        Some(
            if player.clearing.contains(row as usize) {
                Glyph { symbol: '▓', paint: Paint::With(Tint::White) }
            } else {
                Glyph { symbol: ' ', paint: Paint::On(Tint::Cell(player.board[row][column]->0)) }
            },
        )
    } else {
        fallen
    };
    let held = if player.holding matches Some(holding) && holding.covers(x, y, board_x.0 - 11, 4) {
        Some(Glyph { symbol: ' ', paint: Paint::On(Tint::Cell(player.holding->0.color)) })
    } else {
        settled
    };
    spec_queue_glyph(board_x, player.bag.next, player.bag.next.len() as int, x, y, held)
}

/// What the first `upto` pieces of the queue `next` show at `(x, y)` to the
/// right of the board between the columns `board_x`, each three rows under
/// the one before; `under` where none of them reaches there.
pub open spec fn spec_queue_glyph(
    board_x: (int, int),
    next: Seq<TetrominoVariant>,
    upto: int,
    x: int,
    y: int,
    under: Option<Glyph>,
) -> Option<Glyph>
    decreases upto,
{
    if upto <= 0 {
        under
    } else if next[upto - 1].spawn().covers(x, y, board_x.1, upto * 3 + 1) {
        Some(Glyph { symbol: ' ', paint: Paint::On(Tint::Cell(next[upto - 1].color())) })
    } else {
        spec_queue_glyph(board_x, next, upto - 1, x, y, under)
    }
}

/// The layout of the screen, and the count of the frames drawn on it.
#[derive(Debug, PartialEq, Eq)]
pub struct Display {
    pub frame_count: u64,
    pub fps: u64,
    pub terminal_size: (u16, u16),
    /// The columns between which each board stands.
    pub board_x: Vec<(i32, i32)>,
    /// The rows between which the boards stand.
    pub board_y: (i32, i32),
    pub is_multiplayer: bool,
}

/// What the screen is asked to show beside the boards.
#[derive(Clone, Copy, Debug, PartialEq, Eq, Structural)]
pub struct Readouts {
    /// Whether the count of frames a second is shown.
    pub display_frame_rate: bool,
    /// Whether the time that the peer takes to answer is shown.
    pub display_ping: bool,
    /// The time that the peer takes to answer, in milliseconds.
    pub rtt: u128,
}

impl Display {
    /// The columns of board `index` over the integers.
    pub open spec fn columns(&self, index: int) -> (int, int) {
        (self.board_x@[index].0 as int, self.board_x@[index].1 as int)
    }

    /// The rows of the boards over the integers.
    pub open spec fn rows(&self) -> (int, int) {
        (self.board_y.0 as int, self.board_y.1 as int)
    }

    /// The texts of the screen: those beside each board that has a player,
    /// then the frames a second and the time of the peer where they are
    /// asked for, then the last lines of `log`, up to six, from the foot of
    /// the screen up.
    pub open spec fn spec_captions(&self, game: GameModel, readouts: Readouts, log: Seq<Seq<char>>)
        -> Seq<Caption> {
        self.spec_board_captions(game, self.board_x@.len() as int) + (if readouts.display_frame_rate {
            seq![
                Caption {
                    x: 0,
                    y: 0,
                    content: spec_digits(self.fps as nat) + seq![' ', 'f', 'p', 's'],
                    paint: Paint::Plain,
                },
            ]
        } else {
            Seq::empty()
        }) + (if readouts.display_ping && self.is_multiplayer {
            seq![
                Caption {
                    x: 0,
                    y: if readouts.display_frame_rate {
                        1
                    } else {
                        0
                    },
                    content: spec_digits(readouts.rtt as nat) + seq![' ', 'm', 's'],
                    paint: Paint::Plain,
                },
            ]
        } else {
            Seq::empty()
        }) + self.spec_log_captions(
            log,
            if log.len() < 6 {
                log.len() as int
            } else {
                6
            },
        )
    }

    /// The texts beside the first `upto` boards.
    pub open spec fn spec_board_captions(&self, game: GameModel, upto: int) -> Seq<Caption>
        decreases upto,
    {
        if upto <= 0 {
            Seq::empty()
        } else {
            self.spec_board_captions(game, upto - 1) + (match spec_seated(game, upto - 1) {
                Some(player) => spec_board_captions(upto - 1, self.columns(upto - 1), player),
                None => Seq::empty(),
            })
        }
    }

    /// The last `upto` lines of `log` as texts, the last of them in the last
    /// row of the screen and each one before it a row higher.
    pub open spec fn spec_log_captions(&self, log: Seq<Seq<char>>, upto: int) -> Seq<Caption>
        decreases upto,
    {
        if upto <= 0 {
            Seq::empty()
        } else {
            self.spec_log_captions(log, upto - 1).push(
                Caption {
                    x: 0,
                    y: self.terminal_size.1 - (upto - 1) - 1,
                    content: log[log.len() - (upto - 1) - 1],
                    paint: Paint::Plain,
                },
            )
        }
    }

    /// What the pieces and the settled cells of the first `upto` boards show
    /// at `(x, y)`: a later board covers an earlier one.
    pub open spec fn spec_pieces_glyph(&self, game: GameModel, upto: int, x: int, y: int) -> Option<
        Glyph,
    >
        decreases upto,
    {
        if upto <= 0 {
            None
        } else {
            let here = match spec_seated(game, upto - 1) {
                Some(player) => spec_player_glyph(self.columns(upto - 1), self.rows(), player, x, y),
                None => None,
            };
            match here {
                Some(glyph) => Some(glyph),
                None => self.spec_pieces_glyph(game, upto - 1, x, y),
            }
        }
    }

    /// What the frames of the first `upto` boards show at `(x, y)`: a later
    /// board covers an earlier one.
    pub open spec fn spec_board_glyph(&self, game: GameModel, upto: int, x: int, y: int) -> Option<
        Glyph,
    >
        decreases upto,
    {
        if upto <= 0 {
            None
        } else {
            let here = match spec_seated(game, upto - 1) {
                Some(player) => spec_frame_symbol(
                    self.columns(upto - 1),
                    self.rows(),
                    (self.terminal_size.0 / 2) as int,
                    x,
                    y,
                ),
                None => None,
            };
            match here {
                Some(symbol) => Some(
                    Glyph {
                        symbol,
                        paint: Paint::With(Tint::Frame((upto - 1) as usize, y as u16)),
                    },
                ),
                None => self.spec_board_glyph(game, upto - 1, x, y),
            }
        }
    }

    /// What the screen shows at `(x, y)`: a text where one reaches there,
    /// else a piece or a settled cell, else the frame of a board, else nothing.
    pub open spec fn spec_cell(
        &self,
        game: GameModel,
        captions: Seq<Caption>,
        x: int,
        y: int,
    ) -> Glyph {
        match spec_caption_glyph(captions, captions.len() as int, x, y) {
            Some(glyph) => glyph,
            None => match self.spec_pieces_glyph(game, self.board_x@.len() as int, x, y) {
                Some(glyph) => glyph,
                None => match self.spec_board_glyph(game, self.board_x@.len() as int, x, y) {
                    Some(glyph) => glyph,
                    None => Glyph { symbol: ' ', paint: Paint::Plain },
                },
            },
        }
    }
}

/// What the lines of `log` hold.
pub open spec fn spec_lines(log: Seq<Vec<char>>) -> Seq<Seq<char>> {
    Seq::new(log.len(), |i: int| log[i]@)
}

/// The player that board `index` is of.
pub fn seated(game: &Game, index: usize) -> (player: Option<&Player>)
    ensures
        match player {
            Some(player) => spec_seated(game@, index as int) == Some(player@),
            None => spec_seated(game@, index as int) is None,
        },
{
    if index == 0 {
        Some(&game.player)
    } else if index == 1 {
        match &game.opponent {
            Some(opponent) => Some(opponent),
            None => None,
        }
    } else {
        None
    }
}

/// What the topmost of `overlays` shows at `(x, y)`, if any of them reaches there.
pub fn caption_glyph(overlays: &Vec<TextOverlay>, x: i32, y: i32) -> (glyph: Option<Glyph>)
    ensures
        glyph == spec_caption_glyph(
            spec_captions(overlays@),
            overlays@.len() as int,
            x as int,
            y as int,
        ),
{
    let ghost captions = spec_captions(overlays@);
    let mut i: usize = overlays.len();
    while i > 0
        invariant
            i <= overlays@.len(),
            captions == spec_captions(overlays@),
            spec_caption_glyph(captions, overlays@.len() as int, x as int, y as int)
                == spec_caption_glyph(captions, i as int, x as int, y as int),
        decreases i,
    {
        i -= 1;
        let overlay = &overlays[i];
        assert(captions[i as int] == overlay@);
        if overlay.y == y && overlay.x <= x && ((x as i64 - overlay.x as i64) as u64)
            < overlay.content.len() as u64 {
            let at: usize = (x as i64 - overlay.x as i64) as usize;
            return Some(Glyph { symbol: overlay.content[at], paint: overlay.paint });
        }
    }
    None
}

impl Display {
    /// There are at most two boards, and they stand on or near the screen.
    pub open spec fn wf(&self) -> bool {
        &&& self.board_x@.len() <= 2
        &&& -0x10000 <= self.board_y.0 <= 0x10000
        &&& -0x10000 <= self.board_y.1 <= 0x10000
        &&& forall|i: int|
            0 <= i < self.board_x@.len() ==> -0x10000 <= (#[trigger] self.board_x@[i]).0
                <= self.board_x@[i].1 <= 0x10000
    }

    /// Whether there are at most two boards, and they stand on or near the screen.
    pub fn is_wf(&self) -> (ok: bool)
        ensures
            ok == self.wf(),
    {
        if self.board_x.len() > 2 || self.board_y.0 < -0x10000 || self.board_y.0 > 0x10000
            || self.board_y.1 < -0x10000 || self.board_y.1 > 0x10000 {
            return false;
        }
        let mut i: usize = 0;
        while i < self.board_x.len()
            invariant
                i <= self.board_x@.len(),
                forall|k: int|
                    0 <= k < i ==> -0x10000 <= (#[trigger] self.board_x@[k]).0
                        <= self.board_x@[k].1 <= 0x10000,
            decreases self.board_x@.len() - i,
        {
            let columns = self.board_x[i];
            if columns.0 < -0x10000 || columns.0 > columns.1 || columns.1 > 0x10000 {
                return false;
            }
            i += 1;
        }
        true
    }

    /// The columns between which each board stands on a screen `width`
    /// columns wide.
    pub fn calc_board_x(width: u16, is_multiplayer: bool) -> (board_x: Vec<(i32, i32)>)
        ensures
            spec_columns(board_x@) == spec_board_x(width, is_multiplayer),
            board_x@.len() <= 2,
            forall|i: int|
                0 <= i < board_x@.len() ==> -0x10000 <= (#[trigger] board_x@[i]).0 <= board_x@[i].1
                    <= 0x10000,
    {
        let left: i32 = (width / 2) as i32 - BOARD_WIDTH;
        let right: i32 = (width / 2) as i32 + BOARD_WIDTH + 2;
        let first: (i32, i32) = (left - BOARD_MP_OFFSET, right - BOARD_MP_OFFSET);
        let second: (i32, i32) = (left + BOARD_MP_OFFSET, right + BOARD_MP_OFFSET);
        let board_x = if is_multiplayer {
            vec![first, second]
        } else {
            vec![(left, right)]
        };
        assert(spec_columns(board_x@) =~= spec_board_x(width, is_multiplayer));
        board_x
    }

    /// The layout of a game of `mode` on a terminal of the size `terminal_size`:
    /// one board for a game without an opponent and two for one with.
    pub fn new(mode: Mode, terminal_size: (u16, u16)) -> (display: Display)
        ensures
            display.is_multiplayer == (mode != Mode::Singleplayer),
            display.terminal_size == terminal_size,
            spec_columns(display.board_x@) == spec_board_x(
                terminal_size.0,
                mode != Mode::Singleplayer,
            ),
            display.board_y == (0i32, (BOARD_HEIGHT + 2) as i32),
            display.frame_count == 0,
            display.fps == 0,
            display.wf(),
    {
        let is_multiplayer = match mode {
            Mode::Singleplayer => false,
            _ => true,
        };
        Display {
            frame_count: 0,
            fps: 0,
            terminal_size,
            board_x: Display::calc_board_x(terminal_size.0, is_multiplayer),
            board_y: (0, BOARD_HEIGHT + 2),
            is_multiplayer,
        }
    }

    /// Lays the screen out anew for a terminal of the size `terminal_size`.
    pub fn resize(&mut self, terminal_size: (u16, u16))
        requires
            old(self).wf(),
        ensures
            final(self).terminal_size == terminal_size,
            spec_columns(final(self).board_x@) == spec_board_x(
                terminal_size.0,
                old(self).is_multiplayer,
            ),
            final(self).board_y == old(self).board_y,
            final(self).is_multiplayer == old(self).is_multiplayer,
            final(self).frame_count == old(self).frame_count,
            final(self).fps == old(self).fps,
            final(self).wf(),
    {
        self.terminal_size = terminal_size;
        self.board_x = Display::calc_board_x(terminal_size.0, self.is_multiplayer);
    }

    /// A second is over: the frames counted in it are the frames a second,
    /// and the count starts anew.
    pub fn calc_fps(&mut self)
        ensures
            final(self).fps == old(self).frame_count,
            final(self).frame_count == 0,
            final(self).terminal_size == old(self).terminal_size,
            final(self).board_x == old(self).board_x,
            final(self).board_y == old(self).board_y,
            final(self).is_multiplayer == old(self).is_multiplayer,
    {
        self.fps = self.frame_count;
        self.frame_count = 0;
    }

    /// A frame was drawn: it is counted where the frames a second are shown.
    pub fn count_frame(&mut self, display_frame_rate: bool)
        requires
            old(self).frame_count < u64::MAX,
        ensures
            final(self).frame_count == old(self).frame_count + (if display_frame_rate {
                1int
            } else {
                0int
            }),
            final(self).fps == old(self).fps,
            final(self).terminal_size == old(self).terminal_size,
            final(self).board_x == old(self).board_x,
            final(self).board_y == old(self).board_y,
            final(self).is_multiplayer == old(self).is_multiplayer,
    {
        if display_frame_rate {
            self.frame_count = self.frame_count + 1;
        }
    }

    /// The texts beside board `index` of its player.
    fn board_overlays(index: usize, board_x: (i32, i32), player: &Player) -> (overlays: Vec<
        TextOverlay,
    >)
        requires
            -0x10000 <= board_x.0 <= board_x.1 <= 0x10000,
        ensures
            spec_captions(overlays@) == spec_board_captions(
                index as int,
                (board_x.0 as int, board_x.1 as int),
                player@,
            ),
    {
        let mut score: Vec<char> = Vec::new();
        push_text(&mut score, &['S', 'C', 'O', 'R', 'E', ':', ' ']);
        push_digits(&mut score, player.score.score as u128);
        score.push(' ');
        if player.score.combo > 0 {
            score.push('x');
            push_digits(&mut score, player.score.combo as u128);
        }
        let mut level: Vec<char> = Vec::new();
        push_text(&mut level, &['L', 'E', 'V', 'E', 'L', ':', ' ']);
        push_digits(&mut level, player.score.level as u128);
        let mut lines: Vec<char> = Vec::new();
        push_text(&mut lines, &['L', 'I', 'N', 'E', 'S', ':', ' ']);
        push_digits(&mut lines, player.score.lines as u128);
        let middle: i32 = board_x.0 + (board_x.1 - board_x.0) / 2 - 3;
        let right: i32 = board_x.1 + 1;
        let left: i32 = board_x.0 - 9;
        let title = TextOverlay {
            x: middle,
            y: 0,
            content: vec!['T', 'E', 'T', 'R', 'I', 'S'],
            paint: Paint::Bold(Tint::Frame(index, 0)),
        };
        let next = TextOverlay {
            x: right,
            y: 2,
            content: vec!['N', 'E', 'X', 'T', ':'],
            paint: Paint::Plain,
        };
        let hold = TextOverlay {
            x: left,
            y: 2,
            content: vec!['H', 'O', 'L', 'D', ':'],
            paint: Paint::Plain,
        };
        let overlays = vec![
            title,
            next,
            hold,
            TextOverlay { x: right, y: 17, content: score, paint: Paint::Plain },
            TextOverlay { x: right, y: 18, content: level, paint: Paint::Plain },
            TextOverlay { x: right, y: 19, content: lines, paint: Paint::Plain },
        ];
        proof {
            let want = spec_board_captions(
                index as int,
                (board_x.0 as int, board_x.1 as int),
                player@,
            );
            let have = spec_captions(overlays@);
            assert(have.len() == 6);
            assert(have[0].content =~= want[0].content);
            assert(have[1].content =~= want[1].content);
            assert(have[2].content =~= want[2].content);
            assert(have[3].content =~= want[3].content);
            assert(have[4].content =~= want[4].content);
            assert(have[5].content =~= want[5].content);
            assert(have[0] == want[0]);
            assert(have[1] == want[1]);
            assert(have[2] == want[2]);
            assert(have[3] == want[3]);
            assert(have[4] == want[4]);
            assert(have[5] == want[5]);
            assert(have =~= want);
        }
        overlays
    }

    /// The texts of the screen.
    pub fn init_text_overlays(&self, game: &Game, readouts: Readouts, log: &Vec<Vec<char>>) -> (overlays:
        Vec<TextOverlay>)
        requires
            self.wf(),
        ensures
            spec_captions(overlays@) == self.spec_captions(game@, readouts, spec_lines(log@)),
    {
        let mut overlays: Vec<TextOverlay> = Vec::new();
        let mut index: usize = 0;
        assert(spec_captions(overlays@) =~= self.spec_board_captions(game@, 0));
        while index < self.board_x.len()
            invariant
                self.wf(),
                index <= self.board_x@.len(),
                spec_captions(overlays@) == self.spec_board_captions(game@, index as int),
            decreases self.board_x@.len() - index,
        {
            let ghost before = spec_captions(overlays@);
            match seated(game, index) {
                Some(player) => {
                    let mut more = Display::board_overlays(index, self.board_x[index], player);
                    let ghost added = spec_captions(more@);
                    overlays.append(&mut more);
                    assert(spec_captions(overlays@) =~= before + added);
                },
                None => {
                    assert(spec_captions(overlays@) =~= before + Seq::<Caption>::empty());
                },
            }
            index += 1;
        }
        let ghost boards = spec_captions(overlays@);
        if readouts.display_frame_rate {
            let mut content: Vec<char> = Vec::new();
            push_digits(&mut content, self.fps as u128);
            push_text(&mut content, &[' ', 'f', 'p', 's']);
            overlays.push(TextOverlay { x: 0, y: 0, content, paint: Paint::Plain });
        }
        let ghost with_rate = spec_captions(overlays@);
        if readouts.display_ping && self.is_multiplayer {
            let mut content: Vec<char> = Vec::new();
            push_digits(&mut content, readouts.rtt);
            push_text(&mut content, &[' ', 'm', 's']);
            let y: i32 = if readouts.display_frame_rate {
                1
            } else {
                0
            };
            overlays.push(TextOverlay { x: 0, y, content, paint: Paint::Plain });
        }
        let ghost with_ping = spec_captions(overlays@);
        let shown: usize = if log.len() < 6 {
            log.len()
        } else {
            6
        };
        let mut i: usize = 0;
        proof {
            assert(with_rate =~= boards + (if readouts.display_frame_rate {
                seq![
                    Caption {
                        x: 0,
                        y: 0,
                        content: spec_digits(self.fps as nat) + seq![' ', 'f', 'p', 's'],
                        paint: Paint::Plain,
                    },
                ]
            } else {
                Seq::empty()
            }));
            assert(with_ping =~= with_rate + (if readouts.display_ping && self.is_multiplayer {
                seq![
                    Caption {
                        x: 0,
                        y: if readouts.display_frame_rate {
                            1
                        } else {
                            0
                        },
                        content: spec_digits(readouts.rtt as nat) + seq![' ', 'm', 's'],
                        paint: Paint::Plain,
                    },
                ]
            } else {
                Seq::empty()
            }));
            assert(spec_captions(overlays@) =~= with_ping + self.spec_log_captions(
                spec_lines(log@),
                0,
            ));
        }
        while i < shown
            invariant
                i <= shown <= log@.len(),
                shown <= 6,
                spec_captions(overlays@) == with_ping + self.spec_log_captions(
                    spec_lines(log@),
                    i as int,
                ),
            decreases shown - i,
        {
            let ghost before = spec_captions(overlays@);
            let line = &log[log.len() - i - 1];
            let mut content: Vec<char> = Vec::new();
            push_text(&mut content, line.as_slice());
            assert(content@ =~= line@);
            let y: i32 = self.terminal_size.1 as i32 - i as i32 - 1;
            let overlay = TextOverlay { x: 0, y, content, paint: Paint::Plain };
            let ghost caption = overlay@;
            overlays.push(overlay);
            i += 1;
            proof {
                let lines = spec_lines(log@);
                assert(lines[lines.len() - (i - 1) - 1] == line@);
                assert(spec_captions(overlays@) =~= before.push(caption));
                assert(self.spec_log_captions(lines, i as int) =~= self.spec_log_captions(
                    lines,
                    i - 1,
                ).push(caption));
                assert(spec_captions(overlays@) =~= with_ping + self.spec_log_captions(
                    lines,
                    i as int,
                ));
            }
        }
        overlays
    }
}

/// What the frame of a board and the dots of its ground show at `(x, y)`.
pub fn frame_symbol(board_x: (i32, i32), board_y: (i32, i32), middle: u16, x: u16, y: u16) -> (symbol:
    Option<char>)
    requires
        -0x10000 <= board_x.0 <= board_x.1 <= 0x10000,
        -0x10000 <= board_y.0 <= 0x10000,
        -0x10000 <= board_y.1 <= 0x10000,
    ensures
        symbol == spec_frame_symbol(
            (board_x.0 as int, board_x.1 as int),
            (board_y.0 as int, board_y.1 as int),
            middle as int,
            x as int,
            y as int,
        ),
{
    let column: i32 = x as i32;
    let row: i32 = y as i32;
    if board_x.0 <= column && column <= board_x.1 - 1 && board_y.0 <= row && row <= board_y.1 - 1 {
        Some(
            if column == board_x.0 && row == 0 {
                '╔'
            } else if column == board_x.0 && row == board_y.1 - 1 {
                '╚'
            } else if column == board_x.1 - 1 && row == board_y.0 {
                '╗'
            } else if column == board_x.1 - 1 && row == board_y.1 - 1 {
                '╝'
            } else if column == board_x.0 || column == board_x.1 - 1 {
                '║'
            } else if row == board_y.0 || row == board_y.1 - 1 {
                '═'
            } else if x % 2 != middle % 2 {
                '.'
            } else {
                ' '
            },
        )
    } else {
        None
    }
}

/// What the pieces of the queue `next` show at `(x, y)` to the right of the
/// board between the columns `board_x`; `under` where none reaches there.
pub fn queue_glyph(
    board_x: (i32, i32),
    next: &Vec<TetrominoVariant>,
    x: u16,
    y: u16,
    under: Option<Glyph>,
) -> (glyph: Option<Glyph>)
    requires
        -0x10000 <= board_x.0 <= board_x.1 <= 0x10000,
        next@.len() <= 0x10000,
    ensures
        glyph == spec_queue_glyph(
            (board_x.0 as int, board_x.1 as int),
            next@,
            next@.len() as int,
            x as int,
            y as int,
            under,
        ),
{
    let ghost columns = (board_x.0 as int, board_x.1 as int);
    let mut i: usize = next.len();
    while i > 0
        invariant
            i <= next@.len() <= 0x10000,
            columns == (board_x.0 as int, board_x.1 as int),
            -0x10000 <= board_x.0 <= board_x.1 <= 0x10000,
            spec_queue_glyph(columns, next@, next@.len() as int, x as int, y as int, under)
                == spec_queue_glyph(columns, next@, i as int, x as int, y as int, under),
        decreases i,
    {
        let piece = Tetromino::new(next[i - 1]);
        let row: i32 = i as i32 * 3 + 1;
        if piece.covers(x as i32, y as i32, board_x.1, row) {
            return Some(Glyph { symbol: ' ', paint: Paint::On(Tint::Cell(piece.color)) });
        }
        i -= 1;
    }
    under
}

/// What the pieces and the settled cells of `player` show at `(x, y)`, for
/// the board between the columns `board_x` and the rows `board_y`.
pub fn player_glyph(board_x: (i32, i32), board_y: (i32, i32), player: &Player, x: u16, y: u16) -> (glyph:
    Option<Glyph>)
    requires
        -0x10000 <= board_x.0 <= board_x.1 <= 0x10000,
        -0x10000 <= board_y.0 <= 0x10000,
        -0x10000 <= board_y.1 <= 0x10000,
        player@.bag.next.len() <= 0x10000,
    ensures
        glyph == spec_player_glyph(
            (board_x.0 as int, board_x.1 as int),
            (board_y.0 as int, board_y.1 as int),
            player@,
            x as int,
            y as int,
        ),
{
    let column: i32 = x as i32;
    let row: i32 = y as i32;
    let falling = Tint::Cell(player.falling.color);
    let inside = board_x.0 < column && column < board_x.1 - 1 && board_y.0 < row && row
        < board_y.1 - 1;
    let mut content: Option<Glyph> = None;
    if inside {
        match &player.ghost_piece {
            Some(ghost) => {
                if ghost.covers(column, board_y.1 - row - 2, board_x.0, 0) {
                    content = Some(Glyph { symbol: '░', paint: Paint::With(falling) });
                }
            },
            None => {},
        }
        if player.falling.covers(column, board_y.1 - row - 2, board_x.0, 0) {
            content = Some(
                if player.locking {
                    Glyph { symbol: '▓', paint: Paint::With(falling) }
                } else {
                    Glyph { symbol: ' ', paint: Paint::On(falling) }
                },
            );
        }
        let j: i64 = (board_y.1 - 2 - row) as i64;
        let k: i64 = ((column - board_x.0 - 1) / 2) as i64;
        match player.board.cell(k, j) {
            Some(color) => {
                content = Some(
                    if player.clearing.contains(&(j as usize)) {
                        Glyph { symbol: '▓', paint: Paint::With(Tint::White) }
                    } else {
                        Glyph { symbol: ' ', paint: Paint::On(Tint::Cell(color)) }
                    },
                );
            },
            None => {},
        }
    }
    match &player.holding {
        Some(holding) => {
            if holding.covers(column, row, board_x.0 - 11, 4) {
                content = Some(Glyph { symbol: ' ', paint: Paint::On(Tint::Cell(holding.color)) });
            }
        },
        None => {},
    }
    queue_glyph(board_x, &player.bag.next, x, y, content)
}

impl Display {
    /// What the pieces and the settled cells of the boards show at `(x, y)`.
    pub fn render_tetromino(&self, game: &Game, x: u16, y: u16) -> (glyph: Option<Glyph>)
        requires
            self.wf(),
            game@.wf(),
        ensures
            glyph == self.spec_pieces_glyph(
                game@,
                self.board_x@.len() as int,
                x as int,
                y as int,
            ),
    {
        let mut index: usize = self.board_x.len();
        while index > 0
            invariant
                self.wf(),
                game@.wf(),
                index <= self.board_x@.len(),
                self.spec_pieces_glyph(game@, self.board_x@.len() as int, x as int, y as int)
                    == self.spec_pieces_glyph(game@, index as int, x as int, y as int),
            decreases index,
        {
            index -= 1;
            match seated(game, index) {
                Some(player) => {
                    let here = player_glyph(self.board_x[index], self.board_y, player, x, y);
                    match here {
                        Some(glyph) => {
                            return Some(glyph);
                        },
                        None => {},
                    }
                },
                None => {},
            }
        }
        None
    }

    /// What the frames of the boards show at `(x, y)`.
    pub fn render_board(&self, game: &Game, x: u16, y: u16) -> (glyph: Option<Glyph>)
        requires
            self.wf(),
        ensures
            glyph == self.spec_board_glyph(game@, self.board_x@.len() as int, x as int, y as int),
    {
        let mut index: usize = self.board_x.len();
        while index > 0
            invariant
                self.wf(),
                index <= self.board_x@.len(),
                self.spec_board_glyph(game@, self.board_x@.len() as int, x as int, y as int)
                    == self.spec_board_glyph(game@, index as int, x as int, y as int),
            decreases index,
        {
            index -= 1;
            match seated(game, index) {
                Some(_player) => {
                    let here = frame_symbol(
                        self.board_x[index],
                        self.board_y,
                        self.terminal_size.0 / 2,
                        x,
                        y,
                    );
                    match here {
                        Some(symbol) => {
                            return Some(
                                Glyph { symbol, paint: Paint::With(Tint::Frame(index, y)) },
                            );
                        },
                        None => {},
                    }
                },
                None => {},
            }
        }
        None
    }

    /// What the screen shows, row by row from the top and cell by cell from
    /// the left: at each cell a text where one reaches there, else a piece or
    /// a settled cell, else the frame of a board, else nothing.
    pub fn construct_frame(&self, game: &Game, readouts: Readouts, log: &Vec<Vec<char>>) -> (frame:
        Vec<Vec<Glyph>>)
        requires
            self.wf(),
            game@.wf(),
        ensures
            frame@.len() == self.terminal_size.1,
            forall|y: int|
                0 <= y < frame@.len() ==> (#[trigger] frame@[y])@.len() == self.terminal_size.0,
            forall|x: int, y: int|
                0 <= y < self.terminal_size.1 && 0 <= x < self.terminal_size.0 ==> (
                #[trigger] frame@[y]@[x]) == self.spec_cell(
                    game@,
                    self.spec_captions(game@, readouts, spec_lines(log@)),
                    x,
                    y,
                ),
    {
        let overlays = self.init_text_overlays(game, readouts, log);
        let ghost captions = self.spec_captions(game@, readouts, spec_lines(log@));
        let width = self.terminal_size.0;
        let height = self.terminal_size.1;
        let mut frame: Vec<Vec<Glyph>> = Vec::new();
        let mut y: u16 = 0;
        while y < height
            invariant
                self.wf(),
                game@.wf(),
                width == self.terminal_size.0,
                height == self.terminal_size.1,
                y <= height,
                captions == spec_captions(overlays@),
                frame@.len() == y,
                forall|r: int| 0 <= r < y ==> (#[trigger] frame@[r])@.len() == width,
                forall|c: int, r: int|
                    0 <= r < y && 0 <= c < width ==> (#[trigger] frame@[r]@[c]) == self.spec_cell(
                        game@,
                        captions,
                        c,
                        r,
                    ),
            decreases height - y,
        {
            let mut row: Vec<Glyph> = Vec::new();
            let mut x: u16 = 0;
            while x < width
                invariant
                    self.wf(),
                    game@.wf(),
                    width == self.terminal_size.0,
                    x <= width,
                    y < height,
                    captions == spec_captions(overlays@),
                    row@.len() == x,
                    forall|c: int|
                        0 <= c < x ==> (#[trigger] row@[c]) == self.spec_cell(
                            game@,
                            captions,
                            c,
                            y as int,
                        ),
                decreases width - x,
            {
                let cell = match caption_glyph(&overlays, x as i32, y as i32) {
                    Some(glyph) => glyph,
                    None => match self.render_tetromino(game, x, y) {
                        Some(glyph) => glyph,
                        None => match self.render_board(game, x, y) {
                            Some(glyph) => glyph,
                            None => Glyph { symbol: ' ', paint: Paint::Plain },
                        },
                    },
                };
                row.push(cell);
                x += 1;
            }
            frame.push(row);
            y += 1;
        }
        frame
    }
}

} // verus!
