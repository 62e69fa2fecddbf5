//! Players, messages, dice, the cell grid, and the game state that the roll
//! action updates.

use vstd::prelude::*;
use crate::FIELD_SIZE;

verus! {

/// One of the two players that may own a cell.
#[derive(Debug, Clone, Copy, PartialEq, Eq, Structural)]
pub enum Player {
    Player1,
    Player2,
}

/// The two dice values of the last roll.
#[derive(Debug, Clone, Copy, PartialEq, Eq, Structural)]
pub struct Dices(pub u8, pub u8);

impl Dices {
    /// Both dice show a face between one and six.
    pub open spec fn wf(self) -> bool {
        &&& 1 <= self.0 <= 6
        &&& 1 <= self.1 <= 6
    }
}

/// An event the game reacts to: a dice roll, or a (currently ignored)
/// change of a cell's owner.
#[derive(Debug, Clone, Copy)]
pub enum Message {
    ThrowDices,
    ChangeOwner { player: Player, x: usize, y: usize },
}

/// Builds the message that asks for cell `(x, y)` to change owner.
pub fn color_changed(player: Player, x: usize, y: usize) -> (r: Message)
    ensures
        r == (Message::ChangeOwner { player, x, y }),
{
    Message::ChangeOwner { player, x, y }
}

/// Window title of the game.
pub fn title() -> (r: &'static str)
    ensures
        r@ == "Dice wars"@,
{
    "Dice wars"
}

/// The dice pair derived from one byte: the high four bits give the first
/// die, the low four bits the second, each reduced modulo six and shifted to
/// `1 ..= 6`.
pub open spec fn spec_dices_from_byte(b: u8) -> Dices {
    Dices((((b >> 4) % 6 + 1) as u8), ((b % 6 + 1) as u8))
}

/// Derives the two dice values from one random byte.
pub fn dices_from_byte(byte: u8) -> (d: Dices)
    ensures
        d == spec_dices_from_byte(byte),
        d.wf(),
{
    let d1 = (byte >> 4) % 6 + 1;
    let d2 = byte % 6 + 1;
    Dices(d1, d2)
}

/// Relies on rand::random: a value drawn from the thread-local generator;
/// nothing is promised of it beyond its type.
pub assume_specification<T>[ rand::random::<T> ]() -> (r: T)
    where
        rand::distributions::Standard: rand::distributions::Distribution<T>,
;

/// The owners of all grid cells, row-major, always exactly
/// `FIELD_SIZE * FIELD_SIZE` entries.
#[derive(Debug, Clone)]
pub struct Cells {
    owners: Vec<Option<Player>>,
}

impl View for Cells {
    type V = Seq<Option<Player>>;

    closed spec fn view(&self) -> Seq<Option<Player>> {
        self.owners@
    }
}

impl Cells {
    /// The grid holds one owner entry per cell.
    pub open spec fn wf(self) -> bool {
        self@.len() == FIELD_SIZE * FIELD_SIZE
    }

    /// A fresh grid with every cell unowned.
    pub fn new() -> (c: Cells)
        ensures
            c.wf(),
            forall|k: int| 0 <= k < c@.len() ==> c@[k] is None,
    {
        let mut owners: Vec<Option<Player>> = Vec::new();
        let mut k: usize = 0;
        while k < FIELD_SIZE * FIELD_SIZE
            invariant
                owners@.len() == k,
                k <= FIELD_SIZE * FIELD_SIZE,
                forall|m: int| 0 <= m < k ==> owners@[m] is None,
            decreases FIELD_SIZE * FIELD_SIZE - k,
        {
            owners.push(None);
            k = k + 1;
        }
        Cells { owners }
    }

    /// The owner of cell `(i, j)`.
    pub fn owner(&self, i: usize, j: usize) -> (r: Option<Player>)
        requires
            self.wf(),
            i < FIELD_SIZE,
            j < FIELD_SIZE,
        ensures
            r == self@[i * FIELD_SIZE + j],
    {
        self.owners[i * FIELD_SIZE + j]
    }
}

/// The whole game state: the last roll, the cell owners, and whose turn it
/// is.
#[derive(Debug, Clone)]
pub struct GameState {
    pub dices: Option<Dices>,
    pub cells: Cells,
    pub current_player: Player,
}

impl GameState {
    /// The grid is well-formed and any recorded roll is within range.
    pub open spec fn wf(self) -> bool {
        &&& self.cells.wf()
        &&& match self.dices {
            Some(d) => d.wf(),
            None => true,
        }
    }

    /// The initial state: no roll yet, every cell unowned, player one to
    /// move.
    pub fn new() -> (s: GameState)
        ensures
            s.wf(),
            s.dices is None,
            s.current_player == Player::Player1,
            forall|k: int| 0 <= k < s.cells@.len() ==> s.cells@[k] is None,
    {
        GameState { dices: None, cells: Cells::new(), current_player: Player::Player1 }
    }

    /// Records the roll that the given byte derives; nothing else changes.
    pub fn apply_roll(&mut self, byte: u8)
        ensures
            final(self).dices == Some(spec_dices_from_byte(byte)),
            final(self).cells == old(self).cells,
            final(self).current_player == old(self).current_player,
            old(self).wf() ==> final(self).wf(),
    {
        self.dices = Some(dices_from_byte(byte));
    }

    /// Applies a message: a dice-roll message replaces the last roll with one
    /// derived from a fresh random byte; any other message leaves the state
    /// unchanged.
    pub fn update(&mut self, message: Message)
        ensures
            final(self).cells == old(self).cells,
            final(self).current_player == old(self).current_player,
            old(self).wf() ==> final(self).wf(),
            (match message {
                Message::ThrowDices => exists|b: u8|
                    final(self).dices == Some(spec_dices_from_byte(b)),
                Message::ChangeOwner { .. } => final(self).dices == old(self).dices,
            }),
            message matches Message::ThrowDices ==> (final(self).dices matches Some(d)
                && d.wf()),
    {
        match message {
            Message::ThrowDices => {
                let byte: u8 = rand::random();
                self.apply_roll(byte);
            },
            _ => {},
        }
    }
}

} // verus!
