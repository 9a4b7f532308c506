//! The user interface of a player: what the keys do, what is drawn where,
//! and what a player remembers of the map. The device that draws and reads
//! keys is behind `UIBackend`. The interface keeps a record of all that it
//! asks of the device, and its functions say what they add to that record.

use vstd::prelude::*;
use vstd::string::StringExecFns;
use crate::chance::pick_below;
use crate::clock::{elapsed_ns, start, time_left};
use crate::game::{Game, Guard, Status};
use crate::map::{Point, Tile, TileMap};
use crate::net::{MsgToClient, MsgToServer};

verus! {

/// A key that the game knows.
#[derive(Debug, Clone, Copy, PartialEq, Eq, Structural)]
pub enum Key {
    Tab,
    Left,
    Down,
    Up,
    Right,
    Char(char),
}

/// A colour of the display.
#[derive(Debug, Clone, Copy, PartialEq, Eq, Structural)]
pub enum Colour {
    Black,
    Red,
    Green,
    Yellow,
    Blue,
    Magenta,
    Cyan,
    White,
    Grey,
    Reset,
}

/// A failure of the display or of the keyboard.
#[derive(Debug)]
pub struct UiError {
    pub message: String,
}

/// A device that draws text at a place and reads keys. Its methods promise
/// nothing: whatever a backend does, the interface keeps its own state.
pub trait UIBackend: Sized {
    /// Initialise the user interface
    fn new() -> Result<Self, UiError>;

    /// Draw to the display of the user interface
    fn draw(&mut self, pos: Point, str: &str, fg: Colour, bg: Colour) -> Result<(), UiError>;

    /// Flush display of the user interface
    fn flush(&mut self) -> Result<(), UiError>;

    /// Clear display of the user interface
    fn clear(&mut self) -> Result<(), UiError>;

    /// Receive input from the user interface, waiting at most `timeout`
    /// milliseconds
    fn input(&mut self, timeout: u64) -> Result<Option<Key>, UiError>;

    /// Current size of the display of the user interface
    fn size(&self) -> Point;

    /// Print a message to the bottom of the display
    fn message(&mut self, msg: &str) -> Result<(), UiError>;

    /// De-initialise the user interface
    fn reset(&mut self);
}

/// Where the map cell `pos` is drawn on a display of the given size: as it
/// is where no cell is the centre, else shifted so that the centre cell
/// comes to the middle of the display. The bottom row is kept for
/// messages. `None` where that place is off the display.
pub open spec fn placed(size: Point, centre: Option<Point>, pos: Point) -> Option<Point> {
    let x: int = match centre {
        Some(c) => pos.0 + size.0 / 2 - c.0,
        None => pos.0 as int,
    };
    let y: int = match centre {
        Some(c) => pos.1 + (size.1 - 1) / 2 - c.1,
        None => pos.1 as int,
    };
    if size.1 > 0 && 0 <= x < size.0 && 0 <= y < size.1 - 1 {
        Some((x as u8, y as u8))
    } else {
        None
    }
}

/// Centre view of map on desired point
pub fn map_to_display(size: Point, centre: Option<Point>, pos: Point) -> (r: Option<Point>)
    ensures
        r == placed(size, centre, pos),
{
    if size.1 == 0 {
        return None;
    }
    let width: i32 = size.0 as i32;
    let rows: i32 = size.1 as i32 - 1;
    let (x, y): (i32, i32) = match centre {
        Some(c) => (pos.0 as i32 + width / 2 - c.0 as i32, pos.1 as i32 + rows / 2 - c.1 as i32),
        None => (pos.0 as i32, pos.1 as i32),
    };
    if 0 <= x && x < width && 0 <= y && y < rows {
        Some((x as u8, y as u8))
    } else {
        None
    }
}

/// The first guard after `from`, going round, that is in play; `from`
/// itself where none is.
pub open spec fn next_guard(guards: Seq<Guard>, from: int, found: int) -> bool {
    let n = guards.len() as int;
    if exists|k: int| 1 <= k <= n && (#[trigger] guards[(from + k) % n]) is Some {
        exists|k: int|
            1 <= k <= n && found == (from + k) % n && (#[trigger] guards[(from + k) % n]) is Some
                && forall|j: int| 1 <= j < k ==> (#[trigger] guards[(from + j) % n]) is None
    } else {
        found == from
    }
}

/// Counting on by one modulo `n` goes to the next remainder, and from the
/// last one back to 0.
pub proof fn lemma_succ_mod(a: int, n: int)
    requires
        n > 0,
    ensures
        (a + 1) % n == (if a % n + 1 == n { 0 } else { a % n + 1 }),
{
    vstd::arithmetic::div_mod::lemma_fundamental_div_mod(a, n);
    let q = a / n;
    let r = a % n;
    if r + 1 == n {
        assert(a + 1 == (q + 1) * n + 0) by (nonlinear_arith)
            requires
                a == n * q + r,
                r + 1 == n,
        ;
        vstd::arithmetic::div_mod::lemma_fundamental_div_mod_converse(a + 1, n, q + 1, 0);
    } else {
        assert(a + 1 == q * n + (r + 1)) by (nonlinear_arith)
            requires
                a == n * q + r,
        ;
        vstd::arithmetic::div_mod::lemma_fundamental_div_mod_converse(a + 1, n, q, r + 1);
    }
}

/// The first guard in play, or 0 where none is.
pub open spec fn first_guard(guards: Seq<Guard>, found: int) -> bool {
    if exists|i: int| 0 <= i < guards.len() && (#[trigger] guards[i]) is Some {
        &&& 0 <= found < guards.len()
        &&& guards[found] is Some
        &&& forall|j: int| 0 <= j < found ==> (#[trigger] guards[j]) is None
    } else {
        found == 0
    }
}

/// The text that draws a tile.
pub fn tile_text(tile: Tile) -> (s: &'static str)
    ensures
        s@ == seq![tile.glyph()],
{
    proof {
        reveal_strlit(".");
        reveal_strlit("#");
    }
    let s = match tile {
        Tile::Floor => ".",
        Tile::Wall => "#",
    };
    assert(s@ =~= seq![tile.glyph()]);
    s
}

/// The status line of a turn, as `format!` writes it from the four numbers.
pub uninterp spec fn status_text(attackers: usize, guards: usize, actions: isize, seconds: u64) -> Seq<
    char,
>;

/// Formats the status line of a turn with `format!`, whose result depends
/// on the four numbers alone.
#[verifier::external_body]
fn status_line(attackers: usize, guards: usize, actions: isize, seconds: u64) -> (s: String)
    ensures
        s@ == status_text(attackers, guards, actions, seconds),
{
    format!(
        "Your turn! Attackers: {}, Guards: {}, Actions: {}, Turn Time: {}s",
        attackers, guards, actions, seconds
    )
}

/// The line that counts the guards still to be placed, as `format!`
/// writes it from the number.
pub uninterp spec fn placing_text(remaining: usize) -> Seq<char>;

/// Formats the line that counts the guards still to be placed, with
/// `format!`, whose result depends on the number alone.
#[verifier::external_body]
fn placing_line(remaining: usize) -> (s: String)
    ensures
        s@ == placing_text(remaining),
{
    format!("{} guards remaining to place", remaining)
}

/// What is left of a turn.
#[derive(Debug, Clone, Copy)]
pub struct TurnState {
    /// Actions that the player may still take.
    pub actions: isize,
    /// Actions in a row, up to now, that the player has spent in sight.
    pub exposed: isize,
}

/// Something that the interface has asked of its backend.
pub enum Asked {
    Clear,
    Flush,
    Reset,
    /// To draw `text` at `pos` of the display.
    Draw { pos: Point, text: Seq<char>, fg: Colour, bg: Colour },
    /// To print `text` in the bottom row.
    Message { text: Seq<char> },
    /// To wait `timeout` milliseconds for a key; `got` is the key that came.
    Input { timeout: u64, got: Option<Key> },
}

/// `after` is `before` with at least `more` further entries.
pub open spec fn grown(before: Seq<Asked>, after: Seq<Asked>, more: int) -> bool {
    &&& after.len() >= before.len() + more
    &&& forall|i: int| 0 <= i < before.len() ==> #[trigger] after[i] == before[i]
}

/// What is asked to draw `text` for the map cell `pos`: one drawing where
/// the cell is on the display, nothing where it is not.
pub open spec fn put(
    size: Point,
    centre: Option<Point>,
    pos: Point,
    text: Seq<char>,
    fg: Colour,
    bg: Colour,
) -> Seq<Asked> {
    match placed(size, centre, pos) {
        Some(p) => seq![Asked::Draw { pos: p, text, fg, bg }],
        None => Seq::empty(),
    }
}

/// The interface of one player.
pub struct UserInterface<T: UIBackend> {
    backend: T,
    centre: Option<Point>,
    seen: Vec<(Point, Tile)>,
    guard: usize,
    /// All that has been asked of the backend, oldest first.
    asked: Ghost<Seq<Asked>>,
}

impl<T: UIBackend> UserInterface<T> {
    /// The cell in the middle of the display, if any.
    pub closed spec fn centre(&self) -> Option<Point> {
        self.centre
    }

    /// The floor cells seen so far.
    pub closed spec fn seen(&self) -> Seq<(Point, Tile)> {
        self.seen@
    }

    /// The guard that the keys steer.
    pub closed spec fn guard(&self) -> int {
        self.guard as int
    }

    /// All that the interface has asked of its backend, oldest first.
    pub closed spec fn asked(&self) -> Seq<Asked> {
        self.asked@
    }

    /// The backend.
    pub closed spec fn device(&self) -> T {
        self.backend
    }

    /// No cell is remembered twice.
    pub closed spec fn wf(&self) -> bool {
        self.seen@.no_duplicates()
    }

    /// The interface has the same centre, memory and guard as `other`.
    pub open spec fn same_state(&self, other: &Self) -> bool {
        &&& self.centre() == other.centre()
        &&& self.seen() == other.seen()
        &&& self.guard() == other.guard()
    }

    pub fn new(backend: T) -> (ui: Self)
        ensures
            ui.wf(),
            ui.centre() is None,
            ui.seen().len() == 0,
            ui.guard() == 0,
            ui.asked().len() == 0,
            ui.device() == backend,
    {
        UserInterface { backend, centre: None, seen: Vec::new(), guard: 0, asked: Ghost(Seq::empty()) }
    }

    /// Asks the backend to clear the display.
    fn ask_clear(&mut self) -> (r: Result<(), UiError>)
        ensures
            final(self).same_state(old(self)),
            final(self).wf() == old(self).wf(),
            final(self).asked() == old(self).asked().push(Asked::Clear),
            grown(old(self).asked(), final(self).asked(), 1),
    {
        let r = self.backend.clear();
        self.asked = Ghost(self.asked@.push(Asked::Clear));
        r
    }

    /// Asks the backend to flush the display.
    fn ask_flush(&mut self) -> (r: Result<(), UiError>)
        ensures
            final(self).same_state(old(self)),
            final(self).wf() == old(self).wf(),
            final(self).asked() == old(self).asked().push(Asked::Flush),
            grown(old(self).asked(), final(self).asked(), 1),
    {
        let r = self.backend.flush();
        self.asked = Ghost(self.asked@.push(Asked::Flush));
        r
    }

    /// Asks the backend to draw `text` at `pos` of the display.
    fn ask_draw(&mut self, pos: Point, text: &str, fg: Colour, bg: Colour) -> (r: Result<
        (),
        UiError,
    >)
        ensures
            final(self).same_state(old(self)),
            final(self).wf() == old(self).wf(),
            final(self).asked() == old(self).asked().push(
                Asked::Draw { pos, text: text@, fg, bg },
            ),
            grown(old(self).asked(), final(self).asked(), 1),
    {
        let r = self.backend.draw(pos, text, fg, bg);
        self.asked = Ghost(self.asked@.push(Asked::Draw { pos, text: text@, fg, bg }));
        r
    }

    /// Asks the backend to print `text` in the bottom row.
    fn ask_message(&mut self, text: &str) -> (r: Result<(), UiError>)
        ensures
            final(self).same_state(old(self)),
            final(self).wf() == old(self).wf(),
            final(self).asked() == old(self).asked().push(Asked::Message { text: text@ }),
            grown(old(self).asked(), final(self).asked(), 1),
    {
        let r = self.backend.message(text);
        self.asked = Ghost(self.asked@.push(Asked::Message { text: text@ }));
        r
    }

    /// Asks the backend for a key.
    fn ask_input(&mut self, timeout: u64) -> (r: Result<Option<Key>, UiError>)
        ensures
            final(self).same_state(old(self)),
            final(self).wf() == old(self).wf(),
            final(self).asked() == old(self).asked().push(
                Asked::Input {
                    timeout,
                    got: match r {
                        Ok(k) => k,
                        Err(_) => None,
                    },
                },
            ),
            grown(old(self).asked(), final(self).asked(), 1),
    {
        let r = self.backend.input(timeout);
        let ghost got = match r {
            Ok(k) => k,
            Err(_) => None,
        };
        self.asked = Ghost(self.asked@.push(Asked::Input { timeout, got }));
        r
    }

    /// The guard that the keys steer.
    pub fn selected(&self) -> (g: usize)
        ensures
            g == self.guard(),
    {
        self.guard
    }

    /// Steers the first guard that is in play.
    pub fn select_first(&mut self, game: &Game)
        requires
            old(self).wf(),
        ensures
            final(self).wf(),
            final(self).centre() == old(self).centre(),
            final(self).seen() == old(self).seen(),
            final(self).asked() == old(self).asked(),
            first_guard(game.guards@, final(self).guard()),
    {
        let mut i: usize = 0;
        while i < game.guards.len()
            invariant
                i <= game.guards@.len(),
                *self == *old(self),
                self.wf(),
                forall|j: int| 0 <= j < i ==> (#[trigger] game.guards@[j]) is None,
            decreases game.guards@.len() - i,
        {
            if game.guards[i].is_some() {
                self.guard = i;
                return ;
            }
            i += 1;
        }
        self.guard = 0;
    }

    /// Steers the next guard that is in play, going round.
    pub fn select_next(&mut self, game: &Game)
        requires
            old(self).wf(),
        ensures
            final(self).wf(),
            final(self).centre() == old(self).centre(),
            final(self).seen() == old(self).seen(),
            final(self).asked() == old(self).asked(),
            next_guard(game.guards@, old(self).guard(), final(self).guard()),
    {
        let n = game.guards.len();
        if n == 0 {
            return ;
        }
        let mut at: usize = self.guard % n;
        let mut k: usize = 0;
        while k < n
            invariant
                k <= n,
                n == game.guards@.len(),
                n > 0,
                at < n,
                at == (self.guard + k) % (n as int),
                *self == *old(self),
                self.wf(),
                forall|j: int|
                    1 <= j <= k ==> (#[trigger] game.guards@[(self.guard + j) % (n as int)]) is None,
            decreases n - k,
        {
            proof {
                lemma_succ_mod(self.guard + k, n as int);
            }
            at = if at + 1 == n { 0 } else { at + 1 };
            k += 1;
            if game.guards[at].is_some() {
                assert(game.guards@[(self.guard + k) % (n as int)] is Some);
                self.guard = at;
                return ;
            }
        }
    }

    /// What a key does on the defender's turn, and how many actions it
    /// costs: the arrows move the selected guard, the brackets turn it,
    /// Tab selects the next guard for nothing, `.` passes, the space bar
    /// sets `set`, `q` quits and uses up the turn; any other key does
    /// nothing and costs nothing.
    pub fn defender(&mut self, game: &mut Game, key: Key, set: &mut bool) -> (cost: isize)
        requires
            old(self).wf(),
            old(game).map.wf(),
        ensures
            final(self).wf(),
            final(self).centre() == old(self).centre(),
            final(self).seen() == old(self).seen(),
            final(self).asked() == old(self).asked(),
            final(game).positions == old(game).positions,
            final(game).address == old(game).address,
            final(game).targets == old(game).targets,
            final(game).map == old(game).map,
            final(game).config == old(game).config,
            final(game).player == old(game).player,
            final(game).defender == old(game).defender,
            final(game).guards@.len() == old(game).guards@.len(),
            key == Key::Tab ==> cost == 0 && *final(game) == *old(game) && next_guard(
                old(game).guards@,
                old(self).guard(),
                final(self).guard(),
            ),
            key != Key::Tab ==> final(self).guard() == old(self).guard(),
            key == Key::Char('q') ==> final(game).quit == Status::Quit && cost == old(
                game,
            ).config.defender_actions,
            key != Key::Char('q') ==> final(game).quit == old(game).quit,
            *final(set) == (*old(set) || key == Key::Char(' ')),
            steers(key) ==> cost == 1 && final(game).guards@ == steered(
                *old(game),
                old(self).guard(),
                key,
            ),
            !steers(key) ==> final(game).guards == old(game).guards,
            key == Key::Char('.') || key == Key::Char(' ') ==> cost == 1,
            key is Char && !steers(key) && key != Key::Char('.') && key != Key::Char(' ') && key
                != Key::Char('q') ==> cost == 0,
            cost == key_cost(*old(game), true, key),
            pressed(*old(game), *final(game), true, old(self).guard(), key),
    {
        let g = self.guard;
        let live = g < game.guards.len();
        match key {
            Key::Tab => {
                self.select_next(game);
                return 0;
            },
            Key::Left => {
                if live {
                    game.move_guard(g, -1, 0);
                }
            },
            Key::Right => {
                if live {
                    game.move_guard(g, 1, 0);
                }
            },
            Key::Up => {
                if live {
                    game.move_guard(g, 0, -1);
                }
            },
            Key::Down => {
                if live {
                    game.move_guard(g, 0, 1);
                }
            },
            Key::Char(c) => {
                if c == 'q' {
                    game.quit = Status::Quit;
                    return game.config.defender_actions;
                } else if c == '[' {
                    if live {
                        game.rotate_guard(g, false);
                    }
                } else if c == ']' {
                    if live {
                        game.rotate_guard(g, true);
                    }
                } else if c == '.' {
                } else if c == ' ' {
                    *set = true;
                } else {
                    return 0;
                }
            },
        }
        1
    }

    /// What a key does on an attacker's turn, and how many actions it
    /// costs: the arrows move the player, `.` passes, Tab does nothing
    /// for one action, `q` quits and uses up the turn; any other key does
    /// nothing and costs nothing.
    pub fn player(&self, game: &mut Game, key: Key) -> (cost: isize)
        requires
            old(game).map.wf(),
            old(game).player < old(game).positions@.len(),
        ensures
            final(game).address == old(game).address,
            final(game).guards == old(game).guards,
            final(game).targets == old(game).targets,
            final(game).map == old(game).map,
            final(game).config == old(game).config,
            final(game).player == old(game).player,
            final(game).defender == old(game).defender,
            key == Key::Char('q') ==> final(game).quit == Status::Quit && cost == old(
                game,
            ).config.attacker_actions,
            key != Key::Char('q') ==> final(game).quit == old(game).quit,
            final(game).positions@ == walked(*old(game), key),
            key is Char ==> cost == (if key == Key::Char('q') {
                old(game).config.attacker_actions
            } else if key == Key::Char('.') {
                1
            } else {
                0
            }),
            !(key is Char) ==> cost == 1,
            cost == key_cost(*old(game), false, key),
            pressed(*old(game), *final(game), false, 0, key),
    {
        assert(arrow(key) == (0int, 0int) ==> walked(*old(game), key) =~= old(game).positions@);
        match key {
            Key::Tab => {},
            Key::Left => {
                game.move_player(-1, 0);
            },
            Key::Right => {
                game.move_player(1, 0);
            },
            Key::Up => {
                game.move_player(0, -1);
            },
            Key::Down => {
                game.move_player(0, 1);
            },
            Key::Char(c) => {
                if c == 'q' {
                    game.quit = Status::Quit;
                    return game.config.attacker_actions;
                } else if c == '.' {
                } else {
                    return 0;
                }
            },
        }
        1
    }
}

/// One of the cells is at `pos`.
pub open spec fn holds(cells: Seq<(Point, Tile)>, pos: Point) -> bool {
    exists|i: int| 0 <= i < cells.len() && (#[trigger] cells[i]).0 == pos
}

/// One of the cells is at `pos`.
pub fn holds_cell(cells: &Vec<(Point, Tile)>, pos: Point) -> (found: bool)
    ensures
        found == holds(cells@, pos),
{
    let mut i: usize = 0;
    while i < cells.len()
        invariant
            i <= cells@.len(),
            forall|j: int| 0 <= j < i ==> (#[trigger] cells@[j]).0 != pos,
        decreases cells@.len() - i,
    {
        let c = cells[i];
        if c.0.0 == pos.0 && c.0.1 == pos.1 {
            return true;
        }
        i += 1;
    }
    false
}

/// How many of the slots hold something.
pub open spec fn filled<A>(slots: Seq<Option<A>>) -> nat
    decreases slots.len(),
{
    if slots.len() == 0 {
        0
    } else {
        filled(slots.drop_last()) + if slots.last() is Some {
            1nat
        } else {
            0nat
        }
    }
}

/// The text of a line of the title screen.
pub open spec fn splash_text(i: int) -> Seq<char> {
    if i == 0 {
        "██   ██  █████  ███    ██ ███████  ██████"@
    } else if i == 1 {
        "██   ██ ██   ██ ████   ██    ███  ██    ██"@
    } else if i == 2 {
        "███████ ███████ ██ ██  ██   ███   ██    ██"@
    } else if i == 3 {
        "██   ██ ██   ██ ██  ██ ██  ███    ██    ██"@
    } else if i == 4 {
        "██   ██ ██   ██ ██   ████ ███████  ██████"@
    } else if i == 6 {
        "Version: 0.1.0"@
    } else {
        ""@
    }
}

/// A line of the title screen.
pub fn splash_line(i: usize) -> (line: &'static str)
    ensures
        line@ == splash_text(i as int),
{
    if i == 0 {
        "██   ██  █████  ███    ██ ███████  ██████"
    } else if i == 1 {
        "██   ██ ██   ██ ████   ██    ███  ██    ██"
    } else if i == 2 {
        "███████ ███████ ██ ██  ██   ███   ██    ██"
    } else if i == 3 {
        "██   ██ ██   ██ ██  ██ ██  ███    ██    ██"
    } else if i == 4 {
        "██   ██ ██   ██ ██   ████ ███████  ██████"
    } else if i == 6 {
        "Version: 0.1.0"
    } else {
        ""
    }
}

/// Number of lines of the title screen.
pub const SPLASH_LINES: usize = 7;

/// What the title screen asks of the backend.
pub open spec fn splash_plan() -> Seq<Asked> {
    seq![Asked::Clear] + Seq::new(
        SPLASH_LINES as nat,
        |i: int|
            Asked::Draw {
                pos: (5u8, (5 + i) as u8),
                text: splash_text(i),
                fg: Colour::Red,
                bg: Colour::Reset,
            },
    ) + seq![Asked::Flush]
}

/// The drawings of an `@` at each of the places.
pub open spec fn marks_plan(marks: Seq<Point>) -> Seq<Asked> {
    Seq::new(
        marks.len(),
        |i: int|
            Asked::Draw { pos: marks[i], text: "@"@, fg: Colour::Magenta, bg: Colour::Reset },
    )
}

/// What the idle screen asks of the backend after the key: the marks,
/// then the message that tells the player to wait.
pub open spec fn idle_plan(size: Point, marks: Seq<Point>) -> Seq<Asked> {
    marks_plan(marks).push(Asked::Message { text: "Waiting for other players..."@ })
}

/// The drawings of the cells' tiles, in the cells' order.
pub open spec fn tiles_plan(
    size: Point,
    centre: Option<Point>,
    cells: Seq<(Point, Tile)>,
    fg: Colour,
    bg: Colour,
) -> Seq<Asked>
    decreases cells.len(),
{
    if cells.len() == 0 {
        Seq::empty()
    } else {
        tiles_plan(size, centre, cells.drop_last(), fg, bg) + put(
            size,
            centre,
            cells.last().0,
            seq![cells.last().1.glyph()],
            fg,
            bg,
        )
    }
}

/// Drawing one cell more adds its drawing to those of the cells before.
pub proof fn lemma_tiles_plan_step(
    size: Point,
    centre: Option<Point>,
    cells: Seq<(Point, Tile)>,
    i: int,
    fg: Colour,
    bg: Colour,
)
    requires
        0 <= i < cells.len(),
    ensures
        tiles_plan(size, centre, cells.take(i + 1), fg, bg) == tiles_plan(
            size,
            centre,
            cells.take(i),
            fg,
            bg,
        ) + put(size, centre, cells[i].0, seq![cells[i].1.glyph()], fg, bg),
{
    assert(cells.take(i + 1).drop_last() =~= cells.take(i));
}

/// What is asked for the first cells is the beginning of what is asked
/// for all of them.
pub proof fn lemma_tiles_plan_begins(
    size: Point,
    centre: Option<Point>,
    cells: Seq<(Point, Tile)>,
    i: int,
    fg: Colour,
    bg: Colour,
)
    requires
        0 <= i <= cells.len(),
    ensures
        grown(
            tiles_plan(size, centre, cells.take(i), fg, bg),
            tiles_plan(size, centre, cells, fg, bg),
            0,
        ),
    decreases cells.len(),
{
    if i == cells.len() {
        assert(cells.take(i) =~= cells);
    } else {
        assert(cells.drop_last().take(i) =~= cells.take(i));
        lemma_tiles_plan_begins(size, centre, cells.drop_last(), i, fg, bg);
    }
}

/// Where `x` is the beginning of `y`, `a + x` is the beginning of `a + y`.
pub proof fn lemma_grown_after(a: Seq<Asked>, x: Seq<Asked>, y: Seq<Asked>)
    requires
        grown(x, y, 0),
    ensures
        grown(a + x, a + y, 0),
{
    assert forall|i: int| 0 <= i < (a + x).len() implies #[trigger] (a + y)[i] == (a + x)[i] by {
        if i >= a.len() {
            assert(y[i - a.len()] == x[i - a.len()]);
        }
    }
}

/// Where what has been asked since `a` is the beginning of `part` after
/// `head`, and `part` is the beginning of `whole`, it is the beginning of
/// any plan that is made of `head`, `whole` and more.
pub proof fn lemma_begins_within(
    a: Seq<Asked>,
    head: Seq<Asked>,
    part: Seq<Asked>,
    whole: Seq<Asked>,
    tail: Seq<Asked>,
    plan: Seq<Asked>,
    now: Seq<Asked>,
)
    requires
        grown(now, (a + head) + part, 0),
        grown(part, whole, 0),
        plan =~= head + whole + tail,
    ensures
        grown(now, a + plan, 0),
{
    assert forall|i: int| 0 <= i < now.len() implies #[trigger] (a + plan)[i] == now[i] by {
        assert(((a + head) + part)[i] == now[i]);
        if i >= a.len() + head.len() {
            assert(whole[i - a.len() - head.len()] == part[i - a.len() - head.len()]);
        }
    }
}

/// What is asked for the first players is the beginning of what is asked
/// for all of them.
pub proof fn lemma_players_plan_begins(
    size: Point,
    centre: Option<Point>,
    positions: Seq<Option<Point>>,
    i: int,
    pos: Point,
    text: Seq<char>,
    fg: Colour,
    bg: Colour,
)
    requires
        0 <= i <= positions.len(),
    ensures
        grown(
            players_plan(size, centre, positions.take(i), pos, text, fg, bg),
            players_plan(size, centre, positions, pos, text, fg, bg),
            0,
        ),
    decreases positions.len(),
{
    if i == positions.len() {
        assert(positions.take(i) =~= positions);
    } else {
        assert(positions.drop_last().take(i) =~= positions.take(i));
        lemma_players_plan_begins(size, centre, positions.drop_last(), i, pos, text, fg, bg);
    }
}

/// The drawings of `text` for every player that stands on `pos`.
pub open spec fn players_plan(
    size: Point,
    centre: Option<Point>,
    positions: Seq<Option<Point>>,
    pos: Point,
    text: Seq<char>,
    fg: Colour,
    bg: Colour,
) -> Seq<Asked>
    decreases positions.len(),
{
    if positions.len() == 0 {
        Seq::empty()
    } else {
        players_plan(size, centre, positions.drop_last(), pos, text, fg, bg) + (
        if positions.last() == Some(pos) {
            put(size, centre, pos, text, fg, bg)
        } else {
            Seq::empty()
        })
    }
}

impl<T: UIBackend> UserInterface<T> {
    /// Print a message to the bottom of the display
    pub fn message(&mut self, str: &str) -> (r: Result<(), UiError>)
        ensures
            final(self).same_state(old(self)),
            final(self).wf() == old(self).wf(),
            final(self).asked() == old(self).asked().push(Asked::Message { text: str@ }),
    {
        self.ask_message(str)
    }

    /// De-initialise the user interface
    pub fn reset(&mut self)
        ensures
            final(self).same_state(old(self)),
            final(self).wf() == old(self).wf(),
            final(self).asked() == old(self).asked().push(Asked::Reset),
    {
        self.backend.reset();
        self.asked = Ghost(self.asked@.push(Asked::Reset));
    }

    /// The backend, to read keys from. What is done with it is not counted
    /// as asked by the interface.
    pub fn backend(&mut self) -> (b: &mut T)
        ensures
            *b == old(self).device(),
            final(self).device() == *final(b),
            final(self).same_state(old(self)),
            final(self).wf() == old(self).wf(),
            final(self).asked() == old(self).asked(),
    {
        &mut self.backend
    }

    /// Splash screen: the display is cleared, the lines of the title are
    /// drawn one below the other, and the display is flushed. Where the
    /// backend fails, the rest is not asked.
    pub fn splash(&mut self) -> (r: Result<(), UiError>)
        ensures
            final(self).same_state(old(self)),
            final(self).wf() == old(self).wf(),
            r is Ok ==> final(self).asked() == old(self).asked() + splash_plan(),
            r is Err ==> grown(old(self).asked(), final(self).asked(), 1),
            grown(old(self).asked(), final(self).asked(), 0),
            exists|n: int|
                1 <= n <= splash_plan().len() && final(self).asked() == old(self).asked()
                    + #[trigger] splash_plan().take(n),
    {
        let cleared = self.ask_clear();
        assert(self.asked() =~= old(self).asked() + splash_plan().take(1));
        cleared?;
        let mut i: usize = 0;
        while i < SPLASH_LINES
            invariant
                i <= SPLASH_LINES,
                self.same_state(old(self)),
                self.wf() == old(self).wf(),
                grown(old(self).asked(), self.asked(), 1),
                self.asked() == old(self).asked() + splash_plan().take(1 + i),
            decreases SPLASH_LINES - i,
        {
            let drawn = self.ask_draw((5, 5 + i as u8), splash_line(i), Colour::Red, Colour::Reset);
            i += 1;
            assert(self.asked() =~= old(self).asked() + splash_plan().take(1 + i));
            drawn?;
        }
        let r = self.ask_flush();
        assert(self.asked() =~= old(self).asked() + splash_plan());
        assert(splash_plan().take(splash_plan().len() as int) =~= splash_plan());
        r
    }

    /// Idle screen: a key is waited for, and `q` means that the player
    /// wants to leave. Else, once the game has begun and the display has
    /// room, an `@` is drawn for every four columns, each at a place of
    /// the display drawn at random, and the player is told to wait.
    pub fn idle(&mut self, begun: bool) -> (r: Result<bool, UiError>)
        ensures
            final(self).same_state(old(self)),
            final(self).wf() == old(self).wf(),
            grown(old(self).asked(), final(self).asked(), 1),
            final(self).asked()[old(self).asked().len() as int] is Input,
            final(self).asked()[old(self).asked().len() as int]->timeout == 100,
            r is Ok ==> r.unwrap() == (final(self).asked()[old(self).asked().len() as int]->got
                == Some(Key::Char('q'))),
            r == Ok::<bool, UiError>(true) ==> final(self).asked().len() == old(self).asked().len()
                + 1,
            r == Ok::<bool, UiError>(false) ==> exists|size: Point, marks: Seq<Point>|
                #![trigger idle_plan(size, marks)]
                {
                    &&& marks.len() == (if begun && size.1 >= 2 {
                        size.0 as int / 4
                    } else {
                        0
                    })
                    &&& forall|i: int|
                        0 <= i < marks.len() ==> (#[trigger] marks[i]).0 < size.0 && marks[i].1
                            < size.1 - 1
                    &&& final(self).asked().skip(old(self).asked().len() as int + 1) == idle_plan(
                        size,
                        marks,
                    )
                },
    {
        // Consume accidental input
        let key = self.ask_input(100)?;
        if let Some(Key::Char('q')) = key {
            return Ok(true);
        }
        let ghost base = self.asked();
        let size = self.backend.size();
        let ghost mut marks: Seq<Point> = Seq::empty();
        if begun && size.1 >= 2 {
            let count: u8 = size.0 / 4;
            let mut i: u8 = 0;
            while i < count
                invariant
                    i <= count,
                    count == size.0 / 4,
                    size.1 >= 2,
                    self.same_state(old(self)),
                    self.wf() == old(self).wf(),
                    marks.len() == i,
                    forall|j: int|
                        0 <= j < marks.len() ==> (#[trigger] marks[j]).0 < size.0 && marks[j].1
                            < size.1 - 1,
                    self.asked() == base + marks_plan(marks),
                    grown(old(self).asked(), self.asked(), 1),
                    self.asked()[old(self).asked().len() as int] == (Asked::Input {
                        timeout: 100,
                        got: key,
                    }),
                    base == old(self).asked().push(Asked::Input { timeout: 100, got: key }),
                decreases count - i,
            {
                let x = pick_below(size.0 as usize);
                let y = pick_below((size.1 - 1) as usize);
                self.ask_draw((x as u8, y as u8), "@", Colour::Magenta, Colour::Reset)?;
                i += 1;
                proof {
                    marks = marks.push((x as u8, y as u8));
                    assert(self.asked() =~= base + marks_plan(marks));
                }
            }
        }
        assert(self.asked() =~= base + marks_plan(marks));
        self.ask_message("Waiting for other players...")?;
        proof {
            assert(self.asked().skip(old(self).asked().len() as int + 1) =~= idle_plan(size, marks));
        }
        Ok(false)
    }

    /// Display game status: the numbers of attackers and of guards in
    /// play, the actions and the seconds left, in the bottom row.
    pub fn status(&mut self, game: &Game, ap: isize, seconds: u64) -> (r: Result<(), UiError>)
        ensures
            final(self).same_state(old(self)),
            final(self).wf() == old(self).wf(),
            final(self).asked() == old(self).asked().push(
                Asked::Message {
                    text: status_text(
                        filled(game.positions@) as usize,
                        filled(game.guards@) as usize,
                        ap,
                        seconds,
                    ),
                },
            ),
    {
        let attackers = count_filled(&game.positions);
        let guards = count_filled(&game.guards);
        let line = status_line(attackers, guards, ap, seconds);
        self.ask_message(line.as_str())
    }

    /// Centre view of map on desired point: where the cell `pos` is drawn
    /// on a display of the size that the backend tells.
    pub fn map_to_display(&self, pos: Point) -> (r: Option<Point>)
        ensures
            exists|size: Point| r == #[trigger] placed(size, self.centre(), pos),
    {
        map_to_display(self.backend.size(), self.centre, pos)
    }

    /// Draws `text` where the map cell `pos` is on a display of the given
    /// size, if it is.
    fn draw_at(&mut self, size: Point, pos: Point, text: &str, fg: Colour, bg: Colour) -> (r:
        Result<(), UiError>)
        ensures
            final(self).same_state(old(self)),
            final(self).wf() == old(self).wf(),
            final(self).asked() == old(self).asked() + put(
                size,
                old(self).centre(),
                pos,
                text@,
                fg,
                bg,
            ),
            r is Err ==> grown(old(self).asked(), final(self).asked(), 1),
            grown(old(self).asked(), final(self).asked(), 0),
    {
        match map_to_display(size, self.centre, pos) {
            Some(p) => self.ask_draw(p, text, fg, bg),
            None => {
                assert(self.asked() =~= old(self).asked() + Seq::<Asked>::empty());
                Ok(())
            },
        }
    }

    /// Draws the cells seen so far, in the order in which they were seen.
    fn draw_seen(&mut self, size: Point) -> (r: Result<(), UiError>)
        ensures
            final(self).same_state(old(self)),
            final(self).wf() == old(self).wf(),
            r is Ok ==> final(self).asked() == old(self).asked() + tiles_plan(
                size,
                old(self).centre(),
                old(self).seen(),
                Colour::Grey,
                Colour::Reset,
            ),
            r is Err ==> grown(old(self).asked(), final(self).asked(), 1),
            grown(old(self).asked(), final(self).asked(), 0),
            grown(
                final(self).asked(),
                old(self).asked() + tiles_plan(
                    size,
                    old(self).centre(),
                    old(self).seen(),
                    Colour::Grey,
                    Colour::Reset,
                ),
                0,
            ),
    {
        let mut i: usize = 0;
        assert(self.asked() =~= old(self).asked() + tiles_plan(
            size,
            self.centre(),
            self.seen().take(0),
            Colour::Grey,
            Colour::Reset,
        ));
        while i < self.seen.len()
            invariant
                i <= self.seen@.len(),
                self.same_state(old(self)),
                self.wf() == old(self).wf(),
                grown(old(self).asked(), self.asked(), 0),
                self.asked() == old(self).asked() + tiles_plan(
                    size,
                    self.centre(),
                    self.seen().take(i as int),
                    Colour::Grey,
                    Colour::Reset,
                ),
            decreases self.seen@.len() - i,
        {
            let (pos, tile) = self.seen[i];
            let drawn = self.draw_at(size, pos, tile_text(tile), Colour::Grey, Colour::Reset);
            proof {
                lemma_tiles_plan_step(
                    size,
                    self.centre(),
                    self.seen(),
                    i as int,
                    Colour::Grey,
                    Colour::Reset,
                );
                lemma_tiles_plan_begins(
                    size,
                    self.centre(),
                    self.seen(),
                    i + 1,
                    Colour::Grey,
                    Colour::Reset,
                );
                lemma_grown_after(
                    old(self).asked(),
                    tiles_plan(
                        size,
                        self.centre(),
                        self.seen().take(i + 1),
                        Colour::Grey,
                        Colour::Reset,
                    ),
                    tiles_plan(size, self.centre(), self.seen(), Colour::Grey, Colour::Reset),
                );
                assert(self.asked() =~= old(self).asked() + tiles_plan(
                    size,
                    self.centre(),
                    self.seen().take(i + 1),
                    Colour::Grey,
                    Colour::Reset,
                ));
            }
            drawn?;
            i += 1;
            assert(self.asked() =~= old(self).asked() + tiles_plan(
                size,
                self.centre(),
                self.seen().take(i as int),
                Colour::Grey,
                Colour::Reset,
            ));
        }
        assert(self.seen().take(i as int) =~= self.seen());
        Ok(())
    }

    /// Draws the whole map, row by row.
    fn draw_map(&mut self, size: Point, map: &TileMap) -> (r: Result<(), UiError>)
        requires
            map.wf(),
        ensures
            final(self).same_state(old(self)),
            final(self).wf() == old(self).wf(),
            r is Ok ==> final(self).asked() == old(self).asked() + tiles_plan(
                size,
                old(self).centre(),
                map.cells_from(0),
                Colour::Grey,
                Colour::Reset,
            ),
            r is Err ==> grown(old(self).asked(), final(self).asked(), 1),
            grown(old(self).asked(), final(self).asked(), 0),
            grown(
                final(self).asked(),
                old(self).asked() + tiles_plan(
                    size,
                    old(self).centre(),
                    map.cells_from(0),
                    Colour::Grey,
                    Colour::Reset,
                ),
                0,
            ),
    {
        let mut tiles = map.tiles();
        let ghost all = map.cells_from(0);
        let ghost mut k: int = 0;
        assert(all.skip(0) =~= all);
        assert(self.asked() =~= old(self).asked() + tiles_plan(
            size,
            self.centre(),
            all.take(0),
            Colour::Grey,
            Colour::Reset,
        ));
        loop
            invariant
                tiles.wf(),
                all == map.cells_from(0),
                0 <= k <= all.len(),
                tiles.remaining() == all.skip(k),
                self.same_state(old(self)),
                self.wf() == old(self).wf(),
                grown(old(self).asked(), self.asked(), 0),
                self.asked() == old(self).asked() + tiles_plan(
                    size,
                    self.centre(),
                    all.take(k),
                    Colour::Grey,
                    Colour::Reset,
                ),
            decreases tiles.remaining().len(),
        {
            match tiles.next() {
                Some((pos, tile)) => {
                    assert((pos, tile) == all[k]);
                    let drawn = self.draw_at(
                        size,
                        pos,
                        tile_text(tile),
                        Colour::Grey,
                        Colour::Reset,
                    );
                    proof {
                        lemma_tiles_plan_step(
                            size,
                            self.centre(),
                            all,
                            k,
                            Colour::Grey,
                            Colour::Reset,
                        );
                        lemma_tiles_plan_begins(
                            size,
                            self.centre(),
                            all,
                            k + 1,
                            Colour::Grey,
                            Colour::Reset,
                        );
                        lemma_grown_after(
                            old(self).asked(),
                            tiles_plan(size, self.centre(), all.take(k + 1), Colour::Grey, Colour::Reset),
                            tiles_plan(size, self.centre(), all, Colour::Grey, Colour::Reset),
                        );
                        assert(all.skip(k).skip(1) =~= all.skip(k + 1));
                        k = k + 1;
                        assert(self.asked() =~= old(self).asked() + tiles_plan(
                            size,
                            self.centre(),
                            all.take(k),
                            Colour::Grey,
                            Colour::Reset,
                        ));
                    }
                    drawn?;
                },
                None => {
                    assert(all.skip(k).len() == all.len() - k);
                    assert(all.take(k) =~= all);
                    return Ok(());
                },
            }
        }
    }

    /// Draws `text` at the place of every player that stands on `pos`.
    fn draw_players_at(
        &mut self,
        size: Point,
        game: &Game,
        pos: Point,
        text: &str,
        fg: Colour,
        bg: Colour,
    ) -> (r: Result<(), UiError>)
        ensures
            final(self).same_state(old(self)),
            final(self).wf() == old(self).wf(),
            r is Ok ==> final(self).asked() == old(self).asked() + players_plan(
                size,
                old(self).centre(),
                game.positions@,
                pos,
                text@,
                fg,
                bg,
            ),
            r is Err ==> grown(old(self).asked(), final(self).asked(), 1),
            grown(old(self).asked(), final(self).asked(), 0),
            grown(
                final(self).asked(),
                old(self).asked() + players_plan(
                    size,
                    old(self).centre(),
                    game.positions@,
                    pos,
                    text@,
                    fg,
                    bg,
                ),
                0,
            ),
    {
        let mut i: usize = 0;
        assert(self.asked() =~= old(self).asked() + players_plan(
            size,
            self.centre(),
            game.positions@.take(0),
            pos,
            text@,
            fg,
            bg,
        ));
        while i < game.positions.len()
            invariant
                i <= game.positions@.len(),
                self.same_state(old(self)),
                self.wf() == old(self).wf(),
                grown(old(self).asked(), self.asked(), 0),
                self.asked() == old(self).asked() + players_plan(
                    size,
                    self.centre(),
                    game.positions@.take(i as int),
                    pos,
                    text@,
                    fg,
                    bg,
                ),
            decreases game.positions@.len() - i,
        {
            let mut drawn: Result<(), UiError> = Ok(());
            if let Some(p) = game.positions[i] {
                if p.0 == pos.0 && p.1 == pos.1 {
                    drawn = self.draw_at(size, p, text, fg, bg);
                }
            }
            proof {
                assert(game.positions@.take(i + 1).drop_last() =~= game.positions@.take(i as int));
                assert(self.asked() =~= old(self).asked() + players_plan(
                    size,
                    self.centre(),
                    game.positions@.take(i + 1),
                    pos,
                    text@,
                    fg,
                    bg,
                ));
                lemma_players_plan_begins(
                    size,
                    self.centre(),
                    game.positions@,
                    i + 1,
                    pos,
                    text@,
                    fg,
                    bg,
                );
                lemma_grown_after(
                    old(self).asked(),
                    players_plan(size, self.centre(), game.positions@.take(i + 1), pos, text@, fg, bg),
                    players_plan(size, self.centre(), game.positions@, pos, text@, fg, bg),
                );
            }
            drawn?;
            i += 1;
        }
        assert(game.positions@.take(i as int) =~= game.positions@);
        Ok(())
    }

    /// Adds the cells to those seen so far.
    pub fn remember(&mut self, cells: &Vec<(Point, Tile)>)
        requires
            old(self).wf(),
        ensures
            final(self).wf(),
            final(self).centre() == old(self).centre(),
            final(self).guard() == old(self).guard(),
            final(self).asked() == old(self).asked(),
            forall|s: (Point, Tile)|
                #![trigger final(self).seen().contains(s)]
                #![trigger old(self).seen().contains(s)]
                #![trigger cells@.contains(s)]
                final(self).seen().contains(s) <==> old(self).seen().contains(s)
                    || cells@.contains(s),
    {
        let mut i: usize = 0;
        while i < cells.len()
            invariant
                i <= cells@.len(),
                self.wf(),
                self.centre() == old(self).centre(),
                self.guard() == old(self).guard(),
                self.asked() == old(self).asked(),
                forall|s: (Point, Tile)|
                    self.seen().contains(s) <==> old(self).seen().contains(s) || exists|j: int|
                        0 <= j < i && cells@[j] == s,
            decreases cells@.len() - i,
        {
            let ghost before = self.seen@;
            crate::cone::insert_unique(&mut self.seen, cells[i]);
            proof {
                assert forall|s: (Point, Tile)|
                    self.seen().contains(s) <==> old(self).seen().contains(s) || exists|j: int|
                        0 <= j < i + 1 && cells@[j] == s by {
                    if before.contains(s) && !old(self).seen().contains(s) {
                        let j = choose|j: int| 0 <= j < i && cells@[j] == s;
                        assert(0 <= j < i + 1 && cells@[j] == s);
                    }
                    if s == cells@[i as int] {
                        assert(0 <= i < i + 1 && cells@[i as int] == s);
                    }
                }
            }
            i += 1;
        }
        proof {
            assert forall|s: (Point, Tile)|
                self.seen().contains(s) <==> old(self).seen().contains(s) || cells@.contains(
                    s,
                ) by {
                if cells@.contains(s) {
                    let j = choose|j: int| 0 <= j < cells@.len() && cells@[j] == s;
                    assert(0 <= j < i && cells@[j] == s);
                }
            }
        }
    }

    /// Draws every guard in play, the selected one on yellow.
    fn draw_guards(&mut self, size: Point, game: &Game) -> (r: Result<(), UiError>)
        ensures
            final(self).same_state(old(self)),
            final(self).wf() == old(self).wf(),
            r is Ok ==> final(self).asked() == old(self).asked() + guards_plan(
                size,
                old(self).centre(),
                game.guards@,
                old(self).guard(),
                game.guards@.len() as int,
            ),
            r is Err ==> grown(old(self).asked(), final(self).asked(), 1),
            grown(old(self).asked(), final(self).asked(), 0),
            grown(
                final(self).asked(),
                old(self).asked() + guards_plan(
                    size,
                    old(self).centre(),
                    game.guards@,
                    old(self).guard(),
                    game.guards@.len() as int,
                ),
                0,
            ),
    {
        let mut g: usize = 0;
        assert(self.asked() =~= old(self).asked() + guards_plan(
            size,
            self.centre(),
            game.guards@,
            self.guard(),
            0,
        ));
        while g < game.guards.len()
            invariant
                g <= game.guards@.len(),
                self.same_state(old(self)),
                self.wf() == old(self).wf(),
                grown(old(self).asked(), self.asked(), 0),
                self.asked() == old(self).asked() + guards_plan(
                    size,
                    self.centre(),
                    game.guards@,
                    self.guard(),
                    g as int,
                ),
            decreases game.guards@.len() - g,
        {
            let mut drawn: Result<(), UiError> = Ok(());
            if let Some((pos, _)) = game.guards[g] {
                let bg = if g == self.guard {
                    Colour::Yellow
                } else {
                    Colour::Reset
                };
                drawn = self.draw_at(size, pos, "G", Colour::Red, bg);
            }
            g += 1;
            assert(self.asked() =~= old(self).asked() + guards_plan(
                size,
                self.centre(),
                game.guards@,
                self.guard(),
                g as int,
            ));
            proof {
                lemma_guards_plan_begins(
                    size,
                    self.centre(),
                    game.guards@,
                    self.guard(),
                    g as int,
                    game.guards@.len() as int,
                );
                lemma_grown_after(
                    old(self).asked(),
                    guards_plan(size, self.centre(), game.guards@, self.guard(), g as int),
                    guards_plan(
                        size,
                        self.centre(),
                        game.guards@,
                        self.guard(),
                        game.guards@.len() as int,
                    ),
                );
            }
            drawn?;
        }
        Ok(())
    }

    /// Draws every guard in play that stands on `pos`.
    fn draw_guards_at(&mut self, size: Point, game: &Game, pos: Point) -> (r: Result<(), UiError>)
        ensures
            final(self).same_state(old(self)),
            final(self).wf() == old(self).wf(),
            r is Ok ==> final(self).asked() == old(self).asked() + guards_at_plan(
                size,
                old(self).centre(),
                game.guards@,
                pos,
                game.guards@.len() as int,
            ),
            r is Err ==> grown(old(self).asked(), final(self).asked(), 1),
            grown(old(self).asked(), final(self).asked(), 0),
            grown(
                final(self).asked(),
                old(self).asked() + guards_at_plan(
                    size,
                    old(self).centre(),
                    game.guards@,
                    pos,
                    game.guards@.len() as int,
                ),
                0,
            ),
    {
        let mut g: usize = 0;
        assert(self.asked() =~= old(self).asked() + guards_at_plan(
            size,
            self.centre(),
            game.guards@,
            pos,
            0,
        ));
        while g < game.guards.len()
            invariant
                g <= game.guards@.len(),
                self.same_state(old(self)),
                self.wf() == old(self).wf(),
                grown(old(self).asked(), self.asked(), 0),
                self.asked() == old(self).asked() + guards_at_plan(
                    size,
                    self.centre(),
                    game.guards@,
                    pos,
                    g as int,
                ),
            decreases game.guards@.len() - g,
        {
            let mut drawn: Result<(), UiError> = Ok(());
            if let Some((gp, _)) = game.guards[g] {
                if gp.0 == pos.0 && gp.1 == pos.1 {
                    drawn = self.draw_at(size, gp, "G", Colour::Red, Colour::Reset);
                }
            }
            g += 1;
            assert(self.asked() =~= old(self).asked() + guards_at_plan(
                size,
                self.centre(),
                game.guards@,
                pos,
                g as int,
            ));
            proof {
                lemma_guards_at_plan_begins(
                    size,
                    self.centre(),
                    game.guards@,
                    pos,
                    g as int,
                    game.guards@.len() as int,
                );
                lemma_grown_after(
                    old(self).asked(),
                    guards_at_plan(size, self.centre(), game.guards@, pos, g as int),
                    guards_at_plan(size, self.centre(), game.guards@, pos, game.guards@.len() as int),
                );
            }
            drawn?;
        }
        Ok(())
    }

    /// Draws for the defender a cell that a guard sees: its tile on red,
    /// and an `A` for every player that stands on it.
    fn draw_watch_cell(&mut self, size: Point, game: &Game, cell: (Point, Tile)) -> (r: Result<
        (),
        UiError,
    >)
        ensures
            final(self).same_state(old(self)),
            final(self).wf() == old(self).wf(),
            r is Err ==> grown(old(self).asked(), final(self).asked(), 1),
            carried(
                old(self).asked(),
                final(self).asked(),
                watch_cell(size, old(self).centre(), cell, game.positions@),
                r is Ok,
            ),
            grown(old(self).asked(), final(self).asked(), 0),
            grown(
                final(self).asked(),
                old(self).asked() + watch_cell(size, old(self).centre(), cell, game.positions@),
                0,
            ),
    {
        let (pos, tile) = cell;
        let ghost centre = self.centre();
        let ghost a0 = self.asked();
        let ghost none = Seq::<Asked>::empty();
        let ghost d1 = put(size, centre, pos, seq![tile.glyph()], Colour::Reset, Colour::Red);
        let ghost d2 = players_plan(
            size,
            centre,
            game.positions@,
            pos,
            "A"@,
            Colour::Blue,
            Colour::White,
        );
        let ghost plan = watch_cell(size, centre, cell, game.positions@);
        proof {
            reveal_strlit("A");
        }
        let first = self.draw_at(size, pos, tile_text(tile), Colour::Reset, Colour::Red);
        proof {
            assert(self.asked() =~= (a0 + none) + d1);
            lemma_begins_within(a0, none, d1, d1, d2, plan, self.asked());
        }
        first?;
        assert(self.asked() == a0 + d1);
        let second = self.draw_players_at(size, game, pos, "A", Colour::Blue, Colour::White);
        proof {
            lemma_begins_within(a0, d1, d2, d2, none, plan, self.asked());
        }
        second?;
        assert(self.asked() =~= a0 + plan);
        Ok(())
    }

    /// Draws for the attacker a cell that it sees: the tile in green,
    /// again on red where a guard sees the cell too, the guards and the
    /// players that stand on it, and an `X` where it is the target.
    fn draw_sight_cell(
        &mut self,
        size: Point,
        game: &Game,
        watched: &Vec<(Point, Tile)>,
        cell: (Point, Tile),
    ) -> (r: Result<(), UiError>)
        requires
            game.player < game.targets@.len(),
        ensures
            final(self).same_state(old(self)),
            final(self).wf() == old(self).wf(),
            r is Err ==> grown(old(self).asked(), final(self).asked(), 1),
            carried(
                old(self).asked(),
                final(self).asked(),
                sight_cell(size, old(self).centre(), cell, watched@, *game),
                r is Ok,
            ),
            grown(old(self).asked(), final(self).asked(), 0),
            grown(
                final(self).asked(),
                old(self).asked() + sight_cell(size, old(self).centre(), cell, watched@, *game),
                0,
            ),
    {
        let (pos, tile) = cell;
        let ghost centre = self.centre();
        let ghost a0 = self.asked();
        let ghost none = Seq::<Asked>::empty();
        let ghost d1 = put(size, centre, pos, seq![tile.glyph()], Colour::Green, Colour::Reset);
        let ghost d2 = if holds(watched@, pos) {
            put(size, centre, pos, seq![tile.glyph()], Colour::Reset, Colour::Red)
        } else {
            Seq::<Asked>::empty()
        };
        let ghost d3 = guards_at_plan(size, centre, game.guards@, pos, game.guards@.len() as int);
        let ghost d4 = players_plan(
            size,
            centre,
            game.positions@,
            pos,
            "A"@,
            Colour::Yellow,
            Colour::Reset,
        );
        let ghost d5 = if game.targets@[game.player as int] == Some(pos) {
            put(size, centre, pos, "X"@, Colour::Green, Colour::Reset)
        } else {
            Seq::<Asked>::empty()
        };
        let ghost plan = sight_cell(size, centre, cell, watched@, *game);
        proof {
            reveal_strlit("A");
            reveal_strlit("X");
            assert(plan == d1 + d2 + d3 + d4 + d5);
        }
        let first = self.draw_at(size, pos, tile_text(tile), Colour::Green, Colour::Reset);
        proof {
            assert(self.asked() =~= (a0 + none) + d1);
            lemma_begins_within(a0, none, d1, d1, d2 + d3 + d4 + d5, plan, self.asked());
        }
        first?;
        let mut second: Result<(), UiError> = Ok(());
        if holds_cell(watched, pos) {
            second = self.draw_at(size, pos, tile_text(tile), Colour::Reset, Colour::Red);
        }
        proof {
            assert(self.asked() =~= (a0 + d1) + d2);
            lemma_begins_within(a0, d1, d2, d2, d3 + d4 + d5, plan, self.asked());
        }
        second?;
        assert(self.asked() =~= a0 + (d1 + d2));
        let third = self.draw_guards_at(size, game, pos);
        proof {
            lemma_begins_within(a0, d1 + d2, d3, d3, d4 + d5, plan, self.asked());
        }
        third?;
        assert(self.asked() =~= a0 + (d1 + d2 + d3));
        let fourth = self.draw_players_at(size, game, pos, "A", Colour::Yellow, Colour::Reset);
        proof {
            lemma_begins_within(a0, d1 + d2 + d3, d4, d4, d5, plan, self.asked());
        }
        fourth?;
        assert(self.asked() =~= a0 + (d1 + d2 + d3 + d4));
        let mut fifth: Result<(), UiError> = Ok(());
        if let Some(t) = game.targets[game.player] {
            if t.0 == pos.0 && t.1 == pos.1 {
                fifth = self.draw_at(size, pos, "X", Colour::Green, Colour::Reset);
            }
        }
        proof {
            assert(self.asked() =~= (a0 + (d1 + d2 + d3 + d4)) + d5);
            lemma_begins_within(a0, d1 + d2 + d3 + d4, d5, d5, none, plan, self.asked());
        }
        fifth?;
        assert(self.asked() =~= a0 + plan);
        Ok(())
    }

    /// Display current game state on terminal
    pub fn display(&mut self, game: &Game, defender: bool) -> (r: Result<(), UiError>)
        requires
            old(self).wf(),
            game.wf(),
        ensures
            final(self).wf(),
            final(self).guard() == old(self).guard(),
            kept(old(self).seen(), final(self).seen()),
            r is Ok ==> final(self).centre() == (if defender {
                game.guard_cell(old(self).guard())
            } else {
                game.positions@[game.player as int]
            }),
            r is Ok ==> (if defender {
                learned_watch(*game, old(self).seen(), final(self).seen())
            } else {
                learned_sight(*game, old(self).seen(), final(self).seen())
            }),
            if defender {
                shown_to_defender(
                    *game,
                    old(self).seen(),
                    old(self).guard(),
                    false,
                    old(self).asked(),
                    final(self).asked(),
                    r is Ok,
                )
            } else {
                shown_to_attacker(
                    *game,
                    old(self).seen(),
                    old(self).asked(),
                    final(self).asked(),
                    r is Ok,
                )
            },
            grown(old(self).asked(), final(self).asked(), 1),
            final(self).asked()[old(self).asked().len() as int] == Asked::Clear,
    {
        if defender {
            self.display_defender(game, false)
        } else {
            self.display_attacker(game)
        }
    }

    /// Display current game state on terminal for defender: the display
    /// is cleared and centred on the selected guard; then the map is
    /// drawn, all of it if `full` and else what has been seen of it; then
    /// every cell in a guard's cone, with the players that stand on it;
    /// then the guards; then the display is flushed. The cells in the
    /// guards' cones are remembered as seen. Where the backend fails, the
    /// rest is not asked.
    pub fn display_defender(&mut self, game: &Game, full: bool) -> (r: Result<(), UiError>)
        requires
            old(self).wf(),
            game.map.wf(),
            game.config.cone_fits(),
        ensures
            final(self).wf(),
            final(self).guard() == old(self).guard(),
            kept(old(self).seen(), final(self).seen()),
            r is Ok ==> final(self).centre() == game.guard_cell(old(self).guard()),
            r is Ok ==> learned_watch(*game, old(self).seen(), final(self).seen()),
            shown_to_defender(
                *game,
                old(self).seen(),
                old(self).guard(),
                full,
                old(self).asked(),
                final(self).asked(),
                r is Ok,
            ),
            grown(old(self).asked(), final(self).asked(), 1),
            final(self).asked()[old(self).asked().len() as int] == Asked::Clear,
    {
        let size = self.backend.size();
        let visible = game.watched();
        let ghost a0 = self.asked();
        let ghost none = Seq::<Asked>::empty();
        let ghost centre = game.guard_cell(self.guard());
        let ghost first = map_drawn(*game, self.seen(), full);
        let ghost c = seq![Asked::Clear];
        let ghost t = tiles_plan(size, centre, first, Colour::Grey, Colour::Reset);
        let ghost w = watch_plan(size, centre, visible@, game.positions@);
        let ghost g = guards_plan(
            size,
            centre,
            game.guards@,
            self.guard(),
            game.guards@.len() as int,
        );
        let ghost f = seq![Asked::Flush];
        let ghost plan = defender_plan(size, centre, first, visible@, *game, self.guard());
        assert(plan == c + t + w + g + f);
        let cleared = self.ask_clear();
        proof {
            assert(self.asked() =~= (a0 + none) + c);
            lemma_begins_within(a0, none, c, c, t + w + g + f, plan, self.asked());
        }
        cleared?;
        self.centre = if self.guard < game.guards.len() {
            match game.guards[self.guard] {
                Some((p, _)) => Some(p),
                None => None,
            }
        } else {
            None
        };
        assert(self.asked() =~= a0 + c);
        let mapped = if full {
            self.draw_map(size, &game.map)
        } else {
            self.draw_seen(size)
        };
        proof {
            lemma_begins_within(a0, c, t, t, w + g + f, plan, self.asked());
        }
        mapped?;
        assert(self.seen() == old(self).seen());
        self.remember(&visible);
        let ghost now = *self;
        proof {
            assert forall|s: (Point, Tile)|
                now.seen().contains(s) <==> old(self).seen().contains(s) || game.watched_cell(
                    s,
                ) by {
                assert(visible@.contains(s) <==> game.watched_cell(s));
            }
            assert forall|s: (Point, Tile)| old(self).seen().contains(s) implies now.seen().contains(
                s,
            ) by {
                assert(now.seen().contains(s) <==> old(self).seen().contains(s)
                    || visible@.contains(s));
            }
        }
        let mut i: usize = 0;
        assert(self.asked() =~= (a0 + (c + t)) + watch_plan(
            size,
            centre,
            visible@.take(0),
            game.positions@,
        ));
        while i < visible.len()
            invariant
                i <= visible@.len(),
                self.same_state(&now),
                self.wf(),
                now.guard() == old(self).guard(),
                kept(old(self).seen(), now.seen()),
                centre == now.centre(),
                a0 == old(self).asked(),
                c == seq![Asked::Clear],
                w == watch_plan(size, centre, visible@, game.positions@),
                plan =~= (c + t) + w + (g + f),
                visible@.no_duplicates(),
                forall|s: (Point, Tile)|
                    #![trigger visible@.contains(s)]
                    visible@.contains(s) <==> game.watched_cell(s),
                plan == defender_plan(
                    size,
                    game.guard_cell(old(self).guard()),
                    map_drawn(*game, old(self).seen(), full),
                    visible@,
                    *game,
                    old(self).guard(),
                ),
                grown(a0, self.asked(), 1),
                self.asked()[a0.len() as int] == Asked::Clear,
                grown(self.asked(), a0 + plan, 0),
                self.asked() == (a0 + (c + t)) + watch_plan(
                    size,
                    centre,
                    visible@.take(i as int),
                    game.positions@,
                ),
            decreases visible@.len() - i,
        {
            let ghost wi = watch_plan(size, centre, visible@.take(i as int), game.positions@);
            let ghost wn = watch_plan(size, centre, visible@.take(i + 1), game.positions@);
            let drawn = self.draw_watch_cell(size, game, visible[i]);
            proof {
                assert(visible@.take(i + 1).drop_last() =~= visible@.take(i as int));
                assert(wn == wi + watch_cell(size, centre, visible@[i as int], game.positions@));
                lemma_watch_plan_begins(size, centre, visible@, game.positions@, i + 1);
                assert(((a0 + (c + t)) + wi) + watch_cell(
                    size,
                    centre,
                    visible@[i as int],
                    game.positions@,
                ) =~= (a0 + (c + t)) + wn);
                lemma_begins_within(a0, c + t, wn, w, g + f, plan, self.asked());
            }
            drawn?;
            assert(self.asked() =~= (a0 + (c + t)) + wn);
            i += 1;
        }
        assert(visible@.take(i as int) =~= visible@);
        assert(self.asked() =~= a0 + (c + t + w));
        let guarded = self.draw_guards(size, game);
        proof {
            lemma_begins_within(a0, c + t + w, g, g, f, plan, self.asked());
        }
        guarded?;
        let r = self.ask_flush();
        proof {
            assert(self.asked() =~= a0 + plan);
        }
        r
    }

    /// Display current game state on terminal for attacker: the display
    /// is cleared and centred on the player; then what has been seen of
    /// the map is drawn; then every cell that the player sees, marked
    /// where a guard sees it too, with the guards and players that stand
    /// on it and the player's target; then the player; then the display
    /// is flushed. The cells that the player sees are remembered as
    /// seen. Where the backend fails, the rest is not asked.
    pub fn display_attacker(&mut self, game: &Game) -> (r: Result<(), UiError>)
        requires
            old(self).wf(),
            game.wf(),
        ensures
            final(self).wf(),
            final(self).guard() == old(self).guard(),
            kept(old(self).seen(), final(self).seen()),
            r is Ok ==> final(self).centre() == game.positions@[game.player as int],
            r is Ok ==> learned_sight(*game, old(self).seen(), final(self).seen()),
            shown_to_attacker(
                *game,
                old(self).seen(),
                old(self).asked(),
                final(self).asked(),
                r is Ok,
            ),
            grown(old(self).asked(), final(self).asked(), 1),
            final(self).asked()[old(self).asked().len() as int] == Asked::Clear,
    {
        let size = self.backend.size();
        let watched = game.watched();
        let visible = match game.positions[game.player] {
            Some(pos) => game.look_around(pos),
            None => Vec::new(),
        };
        let ghost a0 = self.asked();
        let ghost none = Seq::<Asked>::empty();
        let ghost centre = game.positions@[game.player as int];
        let ghost c = seq![Asked::Clear];
        let ghost t = tiles_plan(size, centre, self.seen(), Colour::Grey, Colour::Reset);
        let ghost w = sight_plan(size, centre, visible@, watched@, *game);
        let ghost me = match game.positions@[game.player as int] {
            Some(pos) => put(size, centre, pos, "A"@, Colour::Cyan, Colour::Reset),
            None => Seq::<Asked>::empty(),
        };
        let ghost f = seq![Asked::Flush];
        let ghost plan = attacker_plan(size, centre, self.seen(), visible@, watched@, *game);
        proof {
            assert(plan == c + t + w + me + f);
            assert forall|s: (Point, Tile)| visible@.contains(s) <==> game.in_sight(s) by {
                if game.positions@[game.player as int] is None {
                    if visible@.contains(s) {
                        let j = choose|j: int| 0 <= j < visible@.len() && visible@[j] == s;
                    }
                }
            }
        }
        let cleared = self.ask_clear();
        proof {
            assert(self.asked() =~= (a0 + none) + c);
            lemma_begins_within(a0, none, c, c, t + w + me + f, plan, self.asked());
        }
        cleared?;
        self.centre = game.positions[game.player];
        assert(self.asked() =~= a0 + c);
        let mapped = self.draw_seen(size);
        proof {
            lemma_begins_within(a0, c, t, t, w + me + f, plan, self.asked());
        }
        mapped?;
        assert(self.seen() == old(self).seen());
        self.remember(&visible);
        let ghost now = *self;
        proof {
            assert forall|s: (Point, Tile)|
                now.seen().contains(s) <==> old(self).seen().contains(s) || game.in_sight(s) by {
                assert(visible@.contains(s) <==> game.in_sight(s));
            }
            assert forall|s: (Point, Tile)| old(self).seen().contains(s) implies now.seen().contains(
                s,
            ) by {
                assert(now.seen().contains(s) <==> old(self).seen().contains(s)
                    || visible@.contains(s));
            }
        }
        let mut i: usize = 0;
        assert(self.asked() =~= (a0 + (c + t)) + sight_plan(
            size,
            centre,
            visible@.take(0),
            watched@,
            *game,
        ));
        while i < visible.len()
            invariant
                i <= visible@.len(),
                game.wf(),
                self.same_state(&now),
                self.wf(),
                now.guard() == old(self).guard(),
                kept(old(self).seen(), now.seen()),
                centre == now.centre(),
                a0 == old(self).asked(),
                c == seq![Asked::Clear],
                w == sight_plan(size, centre, visible@, watched@, *game),
                plan =~= (c + t) + w + (me + f),
                visible@.no_duplicates(),
                forall|s: (Point, Tile)|
                    #![trigger visible@.contains(s)]
                    visible@.contains(s) <==> game.in_sight(s),
                forall|s: (Point, Tile)|
                    #![trigger watched@.contains(s)]
                    watched@.contains(s) <==> game.watched_cell(s),
                plan == attacker_plan(
                    size,
                    game.positions@[game.player as int],
                    old(self).seen(),
                    visible@,
                    watched@,
                    *game,
                ),
                grown(a0, self.asked(), 1),
                self.asked()[a0.len() as int] == Asked::Clear,
                grown(self.asked(), a0 + plan, 0),
                self.asked() == (a0 + (c + t)) + sight_plan(
                    size,
                    centre,
                    visible@.take(i as int),
                    watched@,
                    *game,
                ),
            decreases visible@.len() - i,
        {
            let ghost wi = sight_plan(size, centre, visible@.take(i as int), watched@, *game);
            let ghost wn = sight_plan(size, centre, visible@.take(i + 1), watched@, *game);
            let drawn = self.draw_sight_cell(size, game, &watched, visible[i]);
            proof {
                assert(visible@.take(i + 1).drop_last() =~= visible@.take(i as int));
                assert(wn == wi + sight_cell(size, centre, visible@[i as int], watched@, *game));
                lemma_sight_plan_begins(size, centre, visible@, watched@, *game, i + 1);
                assert(((a0 + (c + t)) + wi) + sight_cell(
                    size,
                    centre,
                    visible@[i as int],
                    watched@,
                    *game,
                ) =~= (a0 + (c + t)) + wn);
                lemma_begins_within(a0, c + t, wn, w, me + f, plan, self.asked());
            }
            drawn?;
            assert(self.asked() =~= (a0 + (c + t)) + wn);
            i += 1;
        }
        assert(visible@.take(i as int) =~= visible@);
        assert(self.asked() =~= a0 + (c + t + w));
        let mut mine: Result<(), UiError> = Ok(());
        if let Some(pos) = game.positions[game.player] {
            proof {
                reveal_strlit("A");
            }
            mine = self.draw_at(size, pos, "A", Colour::Cyan, Colour::Reset);
        }
        proof {
            assert(self.asked() =~= (a0 + (c + t + w)) + me);
            lemma_begins_within(a0, c + t + w, me, me, f, plan, self.asked());
        }
        mine?;
        let r = self.ask_flush();
        proof {
            assert(self.asked() =~= a0 + plan);
        }
        r
    }
}

/// The drawings of the guards in play among the first `n`: a `G` each,
/// on yellow for the selected guard.
pub open spec fn guards_plan(
    size: Point,
    centre: Option<Point>,
    guards: Seq<Guard>,
    selected: int,
    n: int,
) -> Seq<Asked>
    decreases n,
{
    if n <= 0 {
        Seq::empty()
    } else {
        guards_plan(size, centre, guards, selected, n - 1) + (match guards[n - 1] {
            Some((p, _)) => put(
                size,
                centre,
                p,
                "G"@,
                Colour::Red,
                if n - 1 == selected {
                    Colour::Yellow
                } else {
                    Colour::Reset
                },
            ),
            None => Seq::empty(),
        })
    }
}

/// The drawings of the guards among the first `n` that stand on `pos`.
pub open spec fn guards_at_plan(
    size: Point,
    centre: Option<Point>,
    guards: Seq<Guard>,
    pos: Point,
    n: int,
) -> Seq<Asked>
    decreases n,
{
    if n <= 0 {
        Seq::empty()
    } else {
        guards_at_plan(size, centre, guards, pos, n - 1) + (match guards[n - 1] {
            Some((p, _)) => if p == pos {
                put(size, centre, p, "G"@, Colour::Red, Colour::Reset)
            } else {
                Seq::empty()
            },
            None => Seq::empty(),
        })
    }
}

/// What is asked for the first guards is the beginning of what is asked
/// for more of them.
pub proof fn lemma_guards_plan_begins(
    size: Point,
    centre: Option<Point>,
    guards: Seq<Guard>,
    selected: int,
    n: int,
    m: int,
)
    requires
        0 <= n <= m,
    ensures
        grown(
            guards_plan(size, centre, guards, selected, n),
            guards_plan(size, centre, guards, selected, m),
            0,
        ),
    decreases m,
{
    if n < m {
        lemma_guards_plan_begins(size, centre, guards, selected, n, m - 1);
    }
}

/// What is asked for the first guards on a cell is the beginning of what
/// is asked for more of them.
pub proof fn lemma_guards_at_plan_begins(
    size: Point,
    centre: Option<Point>,
    guards: Seq<Guard>,
    pos: Point,
    n: int,
    m: int,
)
    requires
        0 <= n <= m,
    ensures
        grown(
            guards_at_plan(size, centre, guards, pos, n),
            guards_at_plan(size, centre, guards, pos, m),
            0,
        ),
    decreases m,
{
    if n < m {
        lemma_guards_at_plan_begins(size, centre, guards, pos, n, m - 1);
    }
}

/// What the defender is shown of the first cells is the beginning of
/// what it is shown of all of them.
pub proof fn lemma_watch_plan_begins(
    size: Point,
    centre: Option<Point>,
    visible: Seq<(Point, Tile)>,
    positions: Seq<Option<Point>>,
    i: int,
)
    requires
        0 <= i <= visible.len(),
    ensures
        grown(
            watch_plan(size, centre, visible.take(i), positions),
            watch_plan(size, centre, visible, positions),
            0,
        ),
    decreases visible.len(),
{
    if i == visible.len() {
        assert(visible.take(i) =~= visible);
    } else {
        assert(visible.drop_last().take(i) =~= visible.take(i));
        lemma_watch_plan_begins(size, centre, visible.drop_last(), positions, i);
    }
}

/// What the attacker is shown of the first cells is the beginning of
/// what it is shown of all of them.
pub proof fn lemma_sight_plan_begins(
    size: Point,
    centre: Option<Point>,
    visible: Seq<(Point, Tile)>,
    watched: Seq<(Point, Tile)>,
    game: Game,
    i: int,
)
    requires
        0 <= i <= visible.len(),
    ensures
        grown(
            sight_plan(size, centre, visible.take(i), watched, game),
            sight_plan(size, centre, visible, watched, game),
            0,
        ),
    decreases visible.len(),
{
    if i == visible.len() {
        assert(visible.take(i) =~= visible);
    } else {
        assert(visible.drop_last().take(i) =~= visible.take(i));
        lemma_sight_plan_begins(size, centre, visible.drop_last(), watched, game, i);
    }
}

/// What the defender is shown of the cells that the guards see: each
/// cell's tile on red, and an `A` for every player that stands on it.
pub open spec fn watch_plan(
    size: Point,
    centre: Option<Point>,
    visible: Seq<(Point, Tile)>,
    positions: Seq<Option<Point>>,
) -> Seq<Asked>
    decreases visible.len(),
{
    if visible.len() == 0 {
        Seq::empty()
    } else {
        watch_plan(size, centre, visible.drop_last(), positions) + watch_cell(
            size,
            centre,
            visible.last(),
            positions,
        )
    }
}

/// What the defender is shown of one cell that a guard sees: the tile on
/// red, and an `A` for every player that stands on it.
pub open spec fn watch_cell(
    size: Point,
    centre: Option<Point>,
    cell: (Point, Tile),
    positions: Seq<Option<Point>>,
) -> Seq<Asked> {
    put(size, centre, cell.0, seq![cell.1.glyph()], Colour::Reset, Colour::Red) + players_plan(
        size,
        centre,
        positions,
        cell.0,
        "A"@,
        Colour::Blue,
        Colour::White,
    )
}

/// All that a display for the defender asks of the backend.
pub open spec fn defender_plan(
    size: Point,
    centre: Option<Point>,
    first: Seq<(Point, Tile)>,
    visible: Seq<(Point, Tile)>,
    game: Game,
    selected: int,
) -> Seq<Asked> {
    seq![Asked::Clear] + tiles_plan(size, centre, first, Colour::Grey, Colour::Reset) + watch_plan(
        size,
        centre,
        visible,
        game.positions@,
    ) + guards_plan(size, centre, game.guards@, selected, game.guards@.len() as int)
        + seq![Asked::Flush]
}

/// The cells of the map that a display for the defender draws first: all
/// of them if `full`, else those seen.
pub open spec fn map_drawn(game: Game, seen: Seq<(Point, Tile)>, full: bool) -> Seq<(Point, Tile)> {
    if full {
        game.map.cells_from(0)
    } else {
        seen
    }
}

/// The record of what was asked has grown from `before` to `after` by a
/// display for the defender with guard `guard` selected: for some size
/// of the display and some order of the cells that the guards see, by
/// the plan of such a display, or, unless `whole`, by a beginning of it.
pub open spec fn shown_to_defender(
    game: Game,
    seen: Seq<(Point, Tile)>,
    guard: int,
    full: bool,
    before: Seq<Asked>,
    after: Seq<Asked>,
    whole: bool,
) -> bool {
    exists|size: Point, visible: Seq<(Point, Tile)>|
        {
            &&& visible.no_duplicates()
            &&& forall|s: (Point, Tile)|
                #![trigger visible.contains(s)]
                visible.contains(s) <==> game.watched_cell(s)
            &&& carried(
                before,
                after,
                #[trigger] defender_plan(
                    size,
                    game.guard_cell(guard),
                    map_drawn(game, seen, full),
                    visible,
                    game,
                    guard,
                ),
                whole,
            )
        }
}

/// The record has grown from `before` to `after` by the plan: by all of
/// it if `whole`, else by a beginning of it.
pub open spec fn carried(before: Seq<Asked>, after: Seq<Asked>, plan: Seq<Asked>, whole: bool) -> bool {
    if whole {
        after == before + plan
    } else {
        grown(before, after, 0) && grown(after, before + plan, 0)
    }
}

/// What the attacker is shown of one cell that it sees: the tile in
/// green, again on red where a guard sees the cell too, a `G` for every
/// guard and an `A` for every player on it, and an `X` on the target.
pub open spec fn sight_cell(
    size: Point,
    centre: Option<Point>,
    cell: (Point, Tile),
    watched: Seq<(Point, Tile)>,
    game: Game,
) -> Seq<Asked> {
    put(size, centre, cell.0, seq![cell.1.glyph()], Colour::Green, Colour::Reset) + (
    if holds(watched, cell.0) {
        put(size, centre, cell.0, seq![cell.1.glyph()], Colour::Reset, Colour::Red)
    } else {
        Seq::empty()
    }) + guards_at_plan(size, centre, game.guards@, cell.0, game.guards@.len() as int)
        + players_plan(
        size,
        centre,
        game.positions@,
        cell.0,
        "A"@,
        Colour::Yellow,
        Colour::Reset,
    ) + (if game.targets@[game.player as int] == Some(cell.0) {
        put(size, centre, cell.0, "X"@, Colour::Green, Colour::Reset)
    } else {
        Seq::empty()
    })
}

/// What the attacker is shown of the cells that it sees, cell by cell.
pub open spec fn sight_plan(
    size: Point,
    centre: Option<Point>,
    visible: Seq<(Point, Tile)>,
    watched: Seq<(Point, Tile)>,
    game: Game,
) -> Seq<Asked>
    decreases visible.len(),
{
    if visible.len() == 0 {
        Seq::empty()
    } else {
        sight_plan(size, centre, visible.drop_last(), watched, game) + sight_cell(
            size,
            centre,
            visible.last(),
            watched,
            game,
        )
    }
}

/// All that a display for an attacker asks of the backend.
pub open spec fn attacker_plan(
    size: Point,
    centre: Option<Point>,
    seen: Seq<(Point, Tile)>,
    visible: Seq<(Point, Tile)>,
    watched: Seq<(Point, Tile)>,
    game: Game,
) -> Seq<Asked> {
    seq![Asked::Clear] + tiles_plan(size, centre, seen, Colour::Grey, Colour::Reset) + sight_plan(
        size,
        centre,
        visible,
        watched,
        game,
    ) + (match game.positions@[game.player as int] {
        Some(pos) => put(size, centre, pos, "A"@, Colour::Cyan, Colour::Reset),
        None => Seq::empty(),
    }) + seq![Asked::Flush]
}

/// The record of what was asked has grown from `before` to `after` by a
/// display for this side's attacker: for some size of the display and
/// some order of the cells that the player and the guards see, by the
/// plan of such a display, or, unless `whole`, by a beginning of it.
pub open spec fn shown_to_attacker(
    game: Game,
    seen: Seq<(Point, Tile)>,
    before: Seq<Asked>,
    after: Seq<Asked>,
    whole: bool,
) -> bool {
    exists|size: Point, visible: Seq<(Point, Tile)>, watched: Seq<(Point, Tile)>|
        {
            &&& visible.no_duplicates()
            &&& forall|s: (Point, Tile)|
                #![trigger visible.contains(s)]
                visible.contains(s) <==> game.in_sight(s)
            &&& forall|s: (Point, Tile)|
                #![trigger watched.contains(s)]
                watched.contains(s) <==> game.watched_cell(s)
            &&& carried(
                before,
                after,
                #[trigger] attacker_plan(
                    size,
                    game.positions@[game.player as int],
                    seen,
                    visible,
                    watched,
                    game,
                ),
                whole,
            )
        }
}

/// The actions that a side may take in a turn.
pub open spec fn budget(game: Game, defender: bool) -> isize {
    if defender {
        game.config.defender_actions
    } else {
        game.config.attacker_actions
    }
}

/// What is said where the backend has been asked too often.
pub fn gave_up() -> (s: String)
    ensures
        s@ == "no key came"@,
{
    String::from_str("no key came")
}

/// The slots of `n` players none of whom is shown.
pub fn hidden(n: usize) -> (slots: Vec<Option<Point>>)
    ensures
        slots@ == Seq::new(n as nat, |i: int| None::<Point>),
{
    let mut slots: Vec<Option<Point>> = Vec::new();
    let mut i: usize = 0;
    while i < n
        invariant
            i <= n,
            slots@ == Seq::new(i as nat, |i: int| None::<Point>),
        decreases n - i,
    {
        slots.push(None);
        i += 1;
        assert(slots@ =~= Seq::new(i as nat, |i: int| None::<Point>));
    }
    slots
}

impl<T: UIBackend> UserInterface<T> {
    /// Opens a turn: the keys steer the first guard in play, the side
    /// has its full budget of actions and has not been seen yet.
    pub fn begin_turn(&mut self, game: &Game, defender: bool) -> (state: TurnState)
        requires
            old(self).wf(),
        ensures
            final(self).wf(),
            final(self).centre() == old(self).centre(),
            final(self).seen() == old(self).seen(),
            final(self).asked() == old(self).asked(),
            first_guard(game.guards@, final(self).guard()),
            state.actions == budget(*game, defender),
            state.exposed == 0,
    {
        self.select_first(game);
        TurnState {
            actions: if defender {
                game.config.defender_actions
            } else {
                game.config.attacker_actions
            },
            exposed: 0,
        }
    }

    /// Whether the turn waits for another key: while actions are left,
    /// and, for an attacker, while its player is in play.
    pub fn turn_open(game: &Game, defender: bool, state: &TurnState) -> (open: bool)
        requires
            game.player < game.positions@.len(),
        ensures
            open == (state.actions > 0 && (defender || game.positions@[game.player as int]
                is Some)),
    {
        state.actions > 0 && (defender || game.positions[game.player].is_some())
    }

    /// Takes one key of a turn: does what the key stands for and charges
    /// its cost, takes out the guards that the player has walked into,
    /// counts the action toward the player's detection, draws the game,
    /// and lets an attacker that stands on its target leave. Tells
    /// whether the turn goes on: it does while actions are left, unless
    /// the attacker has just left by its target. Where drawing fails, the
    /// game is left as it was drawn.
    pub fn take_key(
        &mut self,
        game: &mut Game,
        defender: bool,
        key: Key,
        state: &mut TurnState,
    ) -> (r: Result<bool, UiError>)
        requires
            old(self).wf(),
            old(game).wf(),
            0 < old(state).actions <= budget(*old(game), defender),
        ensures
            final(self).wf(),
            kept(old(self).seen(), final(self).seen()),
            final(game).wf(),
            grown(old(self).asked(), final(self).asked(), 1),
            final(state).actions == old(state).actions - key_cost(*old(game), defender, key),
            exists|a: Game, b: Game, c: Game|
                {
                    &&& #[trigger] key_taken(
                        *old(game),
                        a,
                        b,
                        c,
                        defender,
                        old(self).guard(),
                        key,
                        old(state).exposed as int,
                    )
                    &&& final(state).exposed == b.exposure(old(state).exposed as int)
                    &&& r is Err ==> *final(game) == c
                    &&& r is Ok ==> final(self).centre() == (if defender {
                        c.guard_cell(final(self).guard())
                    } else {
                        c.positions@[c.player as int]
                    })
                    &&& r is Ok ==> (if defender {
                        learned_watch(c, old(self).seen(), final(self).seen())
                    } else {
                        learned_sight(c, old(self).seen(), final(self).seen())
                    })
                    &&& r is Ok ==> (if defender {
                        shown_to_defender(
                            c,
                            old(self).seen(),
                            final(self).guard(),
                            false,
                            old(self).asked(),
                            final(self).asked(), true,
                        )
                    } else {
                        shown_to_attacker(c, old(self).seen(), old(self).asked(), final(self).asked(), true)
                    })
                    &&& r is Ok ==> c.with_positions(
                        if !defender && c.arrived() {
                            c.positions@.update(c.player as int, None)
                        } else {
                            c.positions@
                        },
                        *final(game),
                    )
                    &&& r is Ok ==> r.unwrap() == (final(state).actions > 0 && (defender
                        || !c.arrived()))
                },
    {
        let mut set = true;
        let cost = if defender {
            self.defender(game, key, &mut set)
        } else {
            self.player(game, key)
        };
        state.actions = state.actions - cost;
        let ghost a = *game;
        game.overrun_guards();
        let ghost b = *game;
        state.exposed = game.detect(state.exposed);
        let ghost c = *game;
        assert(key_taken(
            *old(game),
            a,
            b,
            c,
            defender,
            old(self).guard(),
            key,
            old(state).exposed as int,
        ));
        self.display(game, defender)?;
        if !defender {
            if game.exfiltrate() {
                return Ok(false);
            }
        }
        Ok(state.actions > 0)
    }

    /// Event loop to get user input: a turn of this side's player. Keys
    /// are taken from the backend until the budget of actions is used up,
    /// the time of the turn is over, an attacker is out of play, or the
    /// backend has been asked as often as a 64-bit counter counts.
    pub fn input(&mut self, game: &mut Game, defender: bool) -> (r: Result<(), UiError>)
        requires
            old(self).wf(),
            old(game).wf(),
        ensures
            final(self).wf(),
            kept(old(self).seen(), final(self).seen()),
            final(game).wf(),
            final(game).address == old(game).address,
            final(game).config == old(game).config,
            final(game).map == old(game).map,
            final(game).targets == old(game).targets,
            final(game).player == old(game).player,
            final(game).defender == old(game).defender,
            final(game).positions@.len() == old(game).positions@.len(),
            final(game).guards@.len() == old(game).guards@.len(),
            final(game).quit == old(game).quit || final(game).quit == Status::Quit,
            grown(old(self).asked(), final(self).asked(), 0),
            r is Err ==> grown(old(self).asked(), final(self).asked(), 1),
            budget(*old(game), defender) <= 0 ==> final(self).asked() == old(self).asked(),
            final(self).asked().len() == old(self).asked().len() ==> r is Ok && *final(game)
                == *old(game) && final(self).centre() == old(self).centre() && final(self).seen()
                == old(self).seen() && first_guard(old(game).guards@, final(self).guard()),
    {
        let timer = start();
        let mut state = self.begin_turn(game, defender);
        let mut polls: u64 = u64::MAX;
        while polls > 0 && state.actions > 0
            invariant
                self.wf(),
                kept(old(self).seen(), self.seen()),
                game.wf(),
                state.actions <= budget(*game, defender),
                game.address == old(game).address,
                game.config == old(game).config,
                game.map == old(game).map,
                game.targets == old(game).targets,
                game.player == old(game).player,
                game.defender == old(game).defender,
                game.positions@.len() == old(game).positions@.len(),
                game.guards@.len() == old(game).guards@.len(),
                game.quit == old(game).quit || game.quit == Status::Quit,
                grown(old(self).asked(), self.asked(), 0),
                budget(*old(game), defender) <= 0 ==> self.asked() == old(self).asked(),
                self.asked().len() == old(self).asked().len() ==> *game == *old(game)
                    && self.centre() == old(self).centre() && self.seen() == old(self).seen()
                    && first_guard(old(game).guards@, self.guard()),
            decreases polls,
        {
            polls = polls - 1;
            match time_left(game.config.turn_time, elapsed_ns(&timer)) {
                Some(remaining) => {
                    self.status(game, state.actions, remaining)?;
                },
                None => {
                    break ;
                },
            }
            if !Self::turn_open(game, defender, &state) {
                break ;
            }
            if let Some(k) = self.ask_input(game.config.input_timeout)? {
                let on = self.take_key(game, defender, k, &mut state)?;
                if !on {
                    break ;
                }
            }
        }
        Ok(())
    }

    /// Event loop to for placing guard positions: the defender places as
    /// many guards as the configuration asks for, one at each press of
    /// the space bar, and the game's guards become those placed, in the
    /// order of placing. Where the backend fails, or has been asked as
    /// often as a 64-bit counter counts, the game is left as the placing
    /// stood.
    pub fn place_guards(&mut self, game: &mut Game) -> (r: Result<(), UiError>)
        requires
            old(self).wf(),
            old(game).map.wf(),
            old(game).config.cone_fits(),
        ensures
            final(self).wf(),
            kept(old(self).seen(), final(self).seen()),
            final(game).address == old(game).address,
            final(game).config == old(game).config,
            final(game).map == old(game).map,
            final(game).targets == old(game).targets,
            final(game).player == old(game).player,
            final(game).defender == old(game).defender,
            final(game).quit == old(game).quit || final(game).quit == Status::Quit,
            r is Ok ==> final(game).positions == old(game).positions,
            r is Ok ==> final(game).guards@.len() == old(game).config.num_guards,
            grown(old(self).asked(), final(self).asked(), 1),
            final(self).asked()[old(self).asked().len() as int] == Asked::Clear,
    {
        let mut remaining: usize = game.config.num_guards;
        let mut chosen: Vec<Guard> = Vec::new();
        let players = self.begin_placing(game)?;
        let mut polls: u64 = u64::MAX;
        while remaining > 0
            invariant
                self.wf(),
                kept(old(self).seen(), self.seen()),
                game.map.wf(),
                game.config.cone_fits(),
                chosen@.len() + remaining == game.config.num_guards,
                players == old(game).positions,
                game.address == old(game).address,
                game.config == old(game).config,
                game.map == old(game).map,
                game.targets == old(game).targets,
                game.player == old(game).player,
                game.defender == old(game).defender,
                game.quit == old(game).quit || game.quit == Status::Quit,
                grown(old(self).asked(), self.asked(), 1),
                self.asked()[old(self).asked().len() as int] == Asked::Clear,
            decreases polls,
        {
            if polls == 0 {
                return Err(UiError { message: gave_up() });
            }
            polls = polls - 1;
            let line = placing_line(remaining);
            self.message(line.as_str())?;
            if let Some(k) = self.ask_input(game.config.input_timeout)? {
                if self.place_key(game, k, &mut chosen)? {
                    remaining = remaining - 1;
                }
            }
        }
        Self::finish_placing(game, chosen, players);
        Ok(())
    }

    /// Opens the placing of the guards: the players are hidden from the
    /// defender, who is shown the whole map. Gives the players'
    /// positions, to be put back by `finish_placing`.
    pub fn begin_placing(&mut self, game: &mut Game) -> (r: Result<Vec<Option<Point>>, UiError>)
        requires
            old(self).wf(),
            old(game).map.wf(),
            old(game).config.cone_fits(),
        ensures
            final(self).wf(),
            kept(old(self).seen(), final(self).seen()),
            final(self).guard() == 0,
            grown(old(self).asked(), final(self).asked(), 1),
            final(self).asked()[old(self).asked().len() as int] == Asked::Clear,
            r is Ok ==> shown_to_defender(
                *final(game),
                old(self).seen(),
                0,
                true,
                old(self).asked(),
                final(self).asked(), true,
            ),
            r is Ok ==> r.unwrap() == old(game).positions,
            r is Ok ==> final(self).centre() == old(game).guard_cell(0),
            r is Ok ==> learned_watch(*final(game), old(self).seen(), final(self).seen()),
            r is Ok ==> old(game).with_positions(
                Seq::new(old(game).config.players as nat, |i: int| None::<Point>),
                *final(game),
            ),
            r is Err ==> final(game).positions == old(game).positions,
            r is Err ==> old(game).with_positions(old(game).positions@, *final(game)),
    {
        self.guard = 0;
        let mut players = hidden(game.config.players);
        std::mem::swap(&mut players, &mut game.positions);
        match self.display_defender(game, true) {
            Ok(()) => Ok(players),
            Err(e) => {
                game.positions = players;
                Err(e)
            },
        }
    }

    /// Takes one key while the guards are placed. The space bar places
    /// the selected guard as it stands: it is added to `chosen`, leaves
    /// the guards that are still to be placed, and the first of those
    /// is selected. Any other key does what it does on the defender's
    /// turn. Tells whether a guard was placed.
    pub fn place_key(&mut self, game: &mut Game, key: Key, chosen: &mut Vec<Guard>) -> (r: Result<
        bool,
        UiError,
    >)
        requires
            old(self).wf(),
            old(game).map.wf(),
            old(game).config.cone_fits(),
        ensures
            final(self).wf(),
            kept(old(self).seen(), final(self).seen()),
            final(game).address == old(game).address,
            final(game).config == old(game).config,
            final(game).map == old(game).map,
            final(game).targets == old(game).targets,
            final(game).positions == old(game).positions,
            final(game).player == old(game).player,
            final(game).defender == old(game).defender,
            final(game).guards@.len() == old(game).guards@.len(),
            key == Key::Char(' ') ==> final(chosen)@ == old(chosen)@.push(
                old(game).guard_slot(old(self).guard()),
            ) && final(game).guards@ == old(game).guards_without(old(self).guard())
                && first_guard(final(game).guards@, final(self).guard()),
            key != Key::Char(' ') ==> final(chosen)@ == old(chosen)@ && pressed(
                *old(game),
                *final(game),
                true,
                old(self).guard(),
                key,
            ),
            key != Key::Tab && key != Key::Char(' ') ==> final(self).guard() == old(self).guard(),
            final(game).quit == (if key == Key::Char('q') {
                Status::Quit
            } else {
                old(game).quit
            }),
            grown(old(self).asked(), final(self).asked(), 1),
            r is Ok ==> shown_to_defender(
                *final(game),
                old(self).seen(),
                final(self).guard(),
                true,
                old(self).asked(),
                final(self).asked(), true,
            ),
            r is Ok ==> r.unwrap() == (key == Key::Char(' ')),
            r is Ok ==> final(self).centre() == final(game).guard_cell(final(self).guard()),
            r is Ok ==> learned_watch(*final(game), old(self).seen(), final(self).seen()),
    {
        let mut done = false;
        let _ = self.defender(game, key, &mut done);
        if done {
            if self.guard < game.guards.len() {
                chosen.push(game.guards[self.guard]);
                game.guards.set(self.guard, None);
            } else {
                chosen.push(None);
            }
            assert(game.guards@ =~= old(game).guards_without(old(self).guard()));
            self.select_first(game);
        }
        self.display_defender(game, true)?;
        Ok(done)
    }

    /// Closes the placing of the guards: the guards are those that were
    /// chosen, and the players are back where they were.
    pub fn finish_placing(game: &mut Game, chosen: Vec<Guard>, players: Vec<Option<Point>>)
        ensures
            final(game).guards == chosen,
            final(game).positions == players,
            final(game).address == old(game).address,
            final(game).config == old(game).config,
            final(game).map == old(game).map,
            final(game).targets == old(game).targets,
            final(game).quit == old(game).quit,
            final(game).player == old(game).player,
            final(game).defender == old(game).defender,
    {
        game.guards = chosen;
        game.positions = players;
    }
}

impl Game {
    /// What guard slot `guard` holds; nothing where there is no such slot.
    pub open spec fn guard_slot(&self, guard: int) -> Guard {
        if 0 <= guard < self.guards@.len() {
            self.guards@[guard]
        } else {
            None
        }
    }

    /// The guards with slot `guard` emptied.
    pub open spec fn guards_without(&self, guard: int) -> Seq<Guard> {
        if 0 <= guard < self.guards@.len() {
            self.guards@.update(guard, None)
        } else {
            self.guards@
        }
    }

    /// The guards after this side's attacker has pressed `key` and walked
    /// into those on its new cell; with them the players' positions that
    /// the key leads to.
    pub open spec fn guards_after_key(&self, key: Key) -> (Seq<Guard>, Seq<Option<Point>>) {
        let positions = walked(*self, key);
        (
            Seq::new(
                self.guards@.len(),
                |i: int|
                    match (positions[self.player as int], self.guards@[i]) {
                        (Some(p), Some((g, _))) => if g == p {
                            None
                        } else {
                            self.guards@[i]
                        },
                        _ => self.guards@[i],
                    },
            ),
            positions,
        )
    }

    /// Client-side turn processing: lets the player take a turn and
    /// gives the update to send.
    pub fn play<T: UIBackend>(&mut self, defender: bool, ui: &mut UserInterface<T>) -> (r: Result<
        MsgToServer,
        UiError,
    >)
        requires
            old(ui).wf(),
            old(self).wf(),
        ensures
            final(ui).wf(),
            final(self).wf(),
            final(self).config == old(self).config,
            final(self).map == old(self).map,
            final(self).targets == old(self).targets,
            final(self).player == old(self).player,
            final(self).defender == old(self).defender,
            r is Ok ==> r.unwrap().new == final(self).positions@[final(self).player as int],
            r is Ok ==> r.unwrap().guards@ == final(self).guards@,
            r is Ok ==> r.unwrap().quit == final(self).quit,
            final(self).quit == old(self).quit || final(self).quit == Status::Quit,
            grown(old(ui).asked(), final(ui).asked(), 0),
            r is Err ==> grown(old(ui).asked(), final(ui).asked(), 1),
            budget(*old(self), defender) <= 0 ==> final(ui).asked() == old(ui).asked(),
            final(ui).asked().len() == old(ui).asked().len() ==> r is Ok && *final(self) == *old(
                self,
            ) && first_guard(old(self).guards@, final(ui).guard()),
    {
        ui.input(self, defender)?;
        Ok(self.report())
    }

    /// Guard placement for defending player: lets the defender place the
    /// guards and gives the update to send.
    pub fn place_guards<T: UIBackend>(&mut self, ui: &mut UserInterface<T>) -> (r: Result<
        MsgToServer,
        UiError,
    >)
        requires
            old(ui).wf(),
            old(self).wf(),
        ensures
            final(ui).wf(),
            final(self).config == old(self).config,
            final(self).map == old(self).map,
            final(self).targets == old(self).targets,
            final(self).player == old(self).player,
            final(self).defender == old(self).defender,
            r is Ok ==> final(self).positions == old(self).positions,
            r is Ok ==> final(self).guards@.len() == old(self).config.num_guards,
            r is Ok ==> r.unwrap().new == final(self).positions@[final(self).player as int],
            r is Ok ==> r.unwrap().guards@ == final(self).guards@,
            r is Ok ==> r.unwrap().quit == final(self).quit,
            final(self).quit == old(self).quit || final(self).quit == Status::Quit,
            grown(old(ui).asked(), final(ui).asked(), 1),
            final(ui).asked()[old(ui).asked().len() as int] == Asked::Clear,
    {
        ui.place_guards(self)?;
        Ok(self.report())
    }

    /// Client-side turn processing: mirrors what the server sent and
    /// draws it.
    pub fn display<T: UIBackend>(&mut self, ui: &mut UserInterface<T>, msg: &MsgToClient) -> (r:
        Result<(), UiError>)
        requires
            old(ui).wf(),
            old(self).map.wf(),
            old(self).config.cone_fits(),
            old(self).player < msg.positions@.len() <= old(self).targets@.len(),
        ensures
            final(self).positions@ == msg.positions@,
            final(self).guards@ == msg.guards@,
            final(self).quit == msg.quit,
            final(self).address == old(self).address,
            final(self).config == old(self).config,
            final(self).defender == old(self).defender,
            final(self).player == old(self).player,
            final(self).targets == old(self).targets,
            final(self).map == old(self).map,
            final(ui).wf(),
            final(ui).guard() == old(ui).guard(),
            kept(old(ui).seen(), final(ui).seen()),
            r is Ok ==> (if msg.defender {
                learned_watch(*final(self), old(ui).seen(), final(ui).seen())
            } else {
                learned_sight(*final(self), old(ui).seen(), final(ui).seen())
            }),
            r is Ok ==> (if msg.defender {
                shown_to_defender(
                    *final(self),
                    old(ui).seen(),
                    old(ui).guard(),
                    false,
                    old(ui).asked(),
                    final(ui).asked(), true,
                )
            } else {
                shown_to_attacker(*final(self), old(ui).seen(), old(ui).asked(), final(ui).asked(), true)
            }),
            grown(old(ui).asked(), final(ui).asked(), 1),
            final(ui).asked()[old(ui).asked().len() as int] == Asked::Clear,
    {
        self.positions = crate::game::copy_slots(&msg.positions);
        self.guards = crate::game::copy_guards(&msg.guards);
        self.quit = msg.quit;
        ui.display(self, msg.defender)
    }
}

/// Nothing that was seen before is forgotten after.
pub open spec fn kept(before: Seq<(Point, Tile)>, after: Seq<(Point, Tile)>) -> bool {
    forall|s: (Point, Tile)|
        #![trigger before.contains(s)]
        #![trigger after.contains(s)]
        before.contains(s) ==> after.contains(s)
}

/// What is seen after is what was seen before and what the guards see.
pub open spec fn learned_watch(
    game: Game,
    before: Seq<(Point, Tile)>,
    after: Seq<(Point, Tile)>,
) -> bool {
    forall|s: (Point, Tile)|
        #![trigger after.contains(s)]
        #![trigger before.contains(s)]
        #![trigger game.watched_cell(s)]
        after.contains(s) <==> before.contains(s) || game.watched_cell(s)
}

/// What is seen after is what was seen before and what this side's
/// player sees.
pub open spec fn learned_sight(
    game: Game,
    before: Seq<(Point, Tile)>,
    after: Seq<(Point, Tile)>,
) -> bool {
    forall|s: (Point, Tile)|
        #![trigger after.contains(s)]
        #![trigger before.contains(s)]
        #![trigger game.in_sight(s)]
        after.contains(s) <==> before.contains(s) || game.in_sight(s)
}

/// Counts the slots that hold something.
pub fn count_filled<A>(slots: &Vec<Option<A>>) -> (n: usize)
    ensures
        n == filled(slots@),
{
    let mut n: usize = 0;
    let mut i: usize = 0;
    while i < slots.len()
        invariant
            i <= slots@.len(),
            n <= i,
            n == filled(slots@.take(i as int)),
        decreases slots@.len() - i,
    {
        assert(slots@.take(i + 1).drop_last() =~= slots@.take(i as int));
        if slots[i].is_some() {
            n += 1;
        }
        i += 1;
    }
    assert(slots@.take(slots@.len() as int) =~= slots@);
    n
}

impl Game {
    /// The cell that guard `guard` stands on, if there is such a guard
    /// and it is in play.
    pub open spec fn guard_cell(&self, guard: int) -> Option<Point> {
        if 0 <= guard < self.guards@.len() {
            match self.guards@[guard] {
                Some((p, _)) => Some(p),
                None => None,
            }
        } else {
            None
        }
    }

    /// This side's player is in play and the cell lies in one of the four
    /// cones that open from where it stands.
    pub open spec fn in_sight(&self, s: (Point, Tile)) -> bool {
        match self.positions@[self.player as int] {
            Some(pos) => self.in_view(pos, s),
            None => false,
        }
    }
}

/// What a key costs in actions: a key that moves, turns or passes costs
/// one, Tab costs the defender nothing and an attacker one, `q` uses up
/// the side's whole budget, and a key that means nothing costs nothing.
pub open spec fn key_cost(game: Game, defender: bool, key: Key) -> int {
    match key {
        Key::Tab => if defender {
            0
        } else {
            1
        },
        Key::Char(c) => if c == 'q' {
            budget(game, defender) as int
        } else if c == '.' || (defender && (c == '[' || c == ']' || c == ' ')) {
            1
        } else {
            0
        },
        _ => 1,
    }
}

/// `after` is the game `before` with the key pressed, on the defender's
/// turn with guard `guard` selected, or on an attacker's turn.
pub open spec fn pressed(before: Game, after: Game, defender: bool, guard: int, key: Key) -> bool {
    &&& after.address == before.address
    &&& after.config == before.config
    &&& after.map == before.map
    &&& after.targets == before.targets
    &&& after.player == before.player
    &&& after.defender == before.defender
    &&& after.quit == (if key == Key::Char('q') {
        Status::Quit
    } else {
        before.quit
    })
    &&& after.guards@ == (if defender && steers(key) {
        steered(before, guard, key)
    } else {
        before.guards@
    })
    &&& after.positions@ == (if defender {
        before.positions@
    } else {
        walked(before, key)
    })
}

/// The first steps of a key of a turn: `a` is the game `before` with the
/// key pressed, `b` is `a` without the guards that this side's player
/// stands on, and `c` is `b` without the player if it is caught after
/// `exposed` actions in sight.
pub open spec fn key_taken(
    before: Game,
    a: Game,
    b: Game,
    c: Game,
    defender: bool,
    guard: int,
    key: Key,
    exposed: int,
) -> bool {
    &&& pressed(before, a, defender, guard, key)
    &&& a.with_guards(a.guards_left(), b)
    &&& b.with_positions(
        if b.caught(exposed) {
            b.positions@.update(b.player as int, None)
        } else {
            b.positions@
        },
        c,
    )
}

/// The key moves or turns the selected guard.
pub open spec fn steers(key: Key) -> bool {
    key == Key::Left || key == Key::Right || key == Key::Up || key == Key::Down || key
        == Key::Char('[') || key == Key::Char(']')
}

/// The step that an arrow key stands for.
pub open spec fn arrow(key: Key) -> (int, int) {
    match key {
        Key::Left => (-1, 0),
        Key::Right => (1, 0),
        Key::Up => (0, -1),
        Key::Down => (0, 1),
        _ => (0, 0),
    }
}

/// The guards after a key that steers guard `guard`: an arrow moves it if
/// it can go there, a bracket turns it, `[` counter-clockwise and `]`
/// clockwise. A guard that is out of play, or is not there, stays so.
pub open spec fn steered(game: Game, guard: int, key: Key) -> Seq<Guard> {
    if 0 <= guard < game.guards@.len() {
        match game.guards@[guard] {
            Some((p, dir)) => game.guards@.update(
                guard,
                Some(
                    if key is Char {
                        (p, dir.turned(key == Key::Char(']')))
                    } else {
                        (crate::game::stepped(game.map, p, arrow(key).0, arrow(key).1), dir)
                    },
                ),
            ),
            None => game.guards@,
        }
    } else {
        game.guards@
    }
}

/// The players' positions after a key on an attacker's turn: an arrow
/// moves this side's player if it can go there.
pub open spec fn walked(game: Game, key: Key) -> Seq<Option<Point>> {
    match game.positions@[game.player as int] {
        Some(p) => game.positions@.update(
            game.player as int,
            Some(crate::game::stepped(game.map, p, arrow(key).0, arrow(key).1)),
        ),
        None => game.positions@,
    }
}

} // verus!

