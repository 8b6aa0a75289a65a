//! Renderer-neutral gameplay views: local pending moves, board, rack, scores and turn.
use crate::game::{
    BoardTile, Coordinate, GameState, GameStatus, PlayerId, PremiumSquare, RuleProfile, Tile,
    TileFace,
};
use crate::order::{self, players_keys, squares_keys};
use crate::text::{self, decimal_text, join, joined};
use std::collections::BTreeMap;
use vstd::prelude::*;

verus! {

/// Premium kind shown on one board square.
#[derive(Debug, Clone, Copy, PartialEq, Eq, Structural)]
pub enum PremiumView {
    DoubleLetter,
    TripleLetter,
    DoubleWord,
    TripleWord,
}

/// A tile that a viewer has put on a square but not submitted, with the letter of a blank.
pub type PendingPlacement = (u16, Coordinate, Option<char>);

/// Local pending placements, which no other viewer sees.
#[derive(Debug, Clone, PartialEq, Eq)]
pub struct PendingMoveView {
    pub placements: Vec<PendingPlacement>,
    pub selected_tile: Option<u16>,
}

/// Invalid local interaction.
#[derive(Debug, Clone, Copy, PartialEq, Eq, Structural)]
pub enum PendingMoveError {
    NoTileSelected,
    OccupiedCoordinate,
    TileNotPlaced,
    InvalidBlankLetter,
}

impl PendingMoveError {
    pub open spec fn message_of(self) -> Seq<char> {
        match self {
            PendingMoveError::NoTileSelected => "select a rack tile first"@,
            PendingMoveError::OccupiedCoordinate => "the local board square is already occupied"@,
            PendingMoveError::TileNotPlaced => "the tile is not locally placed"@,
            PendingMoveError::InvalidBlankLetter => "blank letters must be ASCII letters"@,
        }
    }

    pub fn message(self) -> (message: &'static str)
        ensures
            message@ == self.message_of(),
    {
        match self {
            PendingMoveError::NoTileSelected => "select a rack tile first",
            PendingMoveError::OccupiedCoordinate => "the local board square is already occupied",
            PendingMoveError::TileNotPlaced => "the tile is not locally placed",
            PendingMoveError::InvalidBlankLetter => "blank letters must be ASCII letters",
        }
    }
}

/// Whether a placement lies on this square.
pub open spec fn occupied(placements: Seq<PendingPlacement>, square: Coordinate) -> bool {
    exists|i: int| 0 <= i < placements.len() && (#[trigger] placements[i]).1 == square
}

/// The place of a tile's first placement, or the number of placements where it has none.
pub open spec fn place_of(placements: Seq<PendingPlacement>, tile: u16) -> int
    decreases placements.len(),
{
    if placements.len() == 0 || placements[0].0 == tile {
        0
    } else {
        1 + place_of(placements.skip(1), tile)
    }
}

/// The placements after a tile was put on a square: its first placement moves, or a new one is
/// added at the end.
pub open spec fn with_placement(
    placements: Seq<PendingPlacement>,
    tile: u16,
    square: Coordinate,
    blank_letter: Option<char>,
) -> Seq<PendingPlacement> {
    let place = place_of(placements, tile);
    if place < placements.len() {
        placements.update(place, (placements[place].0, square, blank_letter))
    } else {
        placements.push((tile, square, blank_letter))
    }
}

/// The placements of every other tile, in their order.
pub open spec fn without_tile(placements: Seq<PendingPlacement>, tile: u16) -> Seq<
    PendingPlacement,
>
    decreases placements.len(),
{
    if placements.len() == 0 {
        Seq::empty()
    } else if placements.last().0 == tile {
        without_tile(placements.drop_last(), tile)
    } else {
        without_tile(placements.drop_last(), tile).push(placements.last())
    }
}

/// Whether a character is an ASCII letter.
pub open spec fn is_ascii_letter(character: char) -> bool {
    'a' <= character <= 'z' || 'A' <= character <= 'Z'
}

/// The upper-case form of an ASCII letter.
pub open spec fn upper_letter(character: char) -> char {
    if 'a' <= character <= 'z' {
        (character as u8 - 32) as u8 as char
    } else {
        character
    }
}

fn ascii_upper(character: char) -> (upper: char)
    requires
        is_ascii_letter(character),
    ensures
        upper == upper_letter(character),
{
    if 'a' <= character && character <= 'z' {
        (character as u8 - 32) as char
    } else {
        character
    }
}

proof fn place_of_bounds(placements: Seq<PendingPlacement>, tile: u16)
    ensures
        0 <= place_of(placements, tile) <= placements.len(),
        place_of(placements, tile) < placements.len() ==> placements[place_of(placements, tile)].0
            == tile,
        forall|i: int|
            0 <= i < place_of(placements, tile) ==> (#[trigger] placements[i]).0 != tile,
    decreases placements.len(),
{
    if placements.len() > 0 && placements[0].0 != tile {
        place_of_bounds(placements.skip(1), tile);
        let rest = placements.skip(1);
        assert forall|i: int| 0 <= i < place_of(placements, tile) implies (
        #[trigger] placements[i]).0 != tile by {
            if i > 0 {
                assert(rest[i - 1] == placements[i]);
            }
        }
        if place_of(rest, tile) < rest.len() {
            assert(rest[place_of(rest, tile)] == placements[place_of(placements, tile)]);
        }
    }
}

proof fn place_of_unique(placements: Seq<PendingPlacement>, tile: u16, place: int)
    requires
        0 <= place <= placements.len(),
        place < placements.len() ==> placements[place].0 == tile,
        forall|i: int| 0 <= i < place ==> (#[trigger] placements[i]).0 != tile,
    ensures
        place_of(placements, tile) == place,
{
    place_of_bounds(placements, tile);
    let found = place_of(placements, tile);
    if found < place {
        assert(placements[found].0 != tile);
    } else if found > place {
        assert(placements[place].0 != tile);
    }
}

impl Default for PendingMoveView {
    /// No placements and no selection.
    fn default() -> (pending: PendingMoveView)
        ensures
            pending.placements@ == Seq::<PendingPlacement>::empty(),
            pending.selected_tile is None,
    {
        PendingMoveView { placements: Vec::new(), selected_tile: None }
    }
}

impl PendingMoveView {
    /// Selects one rack tile as the next to place.
    pub fn select_tile(&mut self, tile_id: u16)
        ensures
            final(self).selected_tile == Some(tile_id),
            final(self).placements@ == old(self).placements@,
    {
        self.selected_tile = Some(tile_id);
    }

    fn place(&self, tile_id: u16) -> (place: usize)
        ensures
            place == place_of(self.placements@, tile_id),
            place <= self.placements@.len(),
    {
        let mut at: usize = 0;
        while at < self.placements.len() && self.placements[at].0 != tile_id
            invariant
                at <= self.placements@.len(),
                forall|i: int|
                    0 <= i < at ==> (#[trigger] self.placements@[i]).0 != tile_id,
            decreases self.placements@.len() - at,
        {
            at = at + 1;
        }
        proof {
            place_of_unique(self.placements@, tile_id, at as int);
        }
        at
    }

    /// Places the selected tile on a locally unoccupied square.
    pub fn place_selected(&mut self, coordinate: Coordinate, blank_letter: Option<char>) -> (placed:
        Result<(), PendingMoveError>)
        ensures
            match old(self).selected_tile {
                None => placed == Err::<(), PendingMoveError>(PendingMoveError::NoTileSelected),
                Some(_) => if occupied(old(self).placements@, coordinate) {
                    placed == Err::<(), PendingMoveError>(PendingMoveError::OccupiedCoordinate)
                } else {
                    placed is Ok
                },
            },
            match placed {
                Ok(_) => final(self).selected_tile is None && final(self).placements@
                    == with_placement(
                    old(self).placements@,
                    old(self).selected_tile->0,
                    coordinate,
                    blank_letter,
                ),
                Err(_) => *final(self) == *old(self),
            },
    {
        let tile_id: u16 = match self.selected_tile {
            Some(tile_id) => tile_id,
            None => return Err(PendingMoveError::NoTileSelected),
        };
        let mut at: usize = 0;
        while at < self.placements.len()
            invariant
                at <= self.placements@.len(),
                *self == *old(self),
                self.selected_tile == Some(tile_id),
                forall|i: int|
                    0 <= i < at ==> (#[trigger] self.placements@[i]).1 != coordinate,
            decreases self.placements@.len() - at,
        {
            if self.placements[at].1 == coordinate {
                assert(self.placements@[at as int].1 == coordinate);
                return Err(PendingMoveError::OccupiedCoordinate);
            }
            at = at + 1;
        }
        let place: usize = self.place(tile_id);
        if place < self.placements.len() {
            let placed: u16 = self.placements[place].0;
            self.placements.set(place, (placed, coordinate, blank_letter));
        } else {
            self.placements.push((tile_id, coordinate, blank_letter));
        }
        self.selected_tile = None;
        Ok(())
    }

    /// Takes a tile's placements back and selects it again; whether there were any.
    pub fn unplace(&mut self, tile_id: u16) -> (removed: bool)
        ensures
            removed == (place_of(old(self).placements@, tile_id) < old(self).placements@.len()),
            final(self).placements@ == without_tile(old(self).placements@, tile_id),
            final(self).selected_tile == if removed {
                Some(tile_id)
            } else {
                old(self).selected_tile
            },
    {
        let removed = self.place(tile_id) < self.placements.len();
        let mut kept: Vec<PendingPlacement> = Vec::new();
        let mut at: usize = 0;
        assert(self.placements@.take(0) =~= Seq::empty());
        while at < self.placements.len()
            invariant
                at <= self.placements@.len(),
                *self == *old(self),
                kept@ == without_tile(self.placements@.take(at as int), tile_id),
            decreases self.placements@.len() - at,
        {
            let ghost more = self.placements@.take(at + 1);
            assert(more.drop_last() =~= self.placements@.take(at as int));
            assert(more.last() == self.placements@[at as int]);
            if self.placements[at].0 != tile_id {
                kept.push(self.placements[at]);
            }
            at = at + 1;
        }
        assert(self.placements@.take(at as int) =~= self.placements@);
        self.placements = kept;
        if removed {
            self.selected_tile = Some(tile_id);
        }
        removed
    }

    /// Gives a locally placed blank its letter, in upper case.
    pub fn select_blank_letter(&mut self, tile_id: u16, letter: char) -> (selected: Result<
        (),
        PendingMoveError,
    >)
        ensures
            selected == (if !is_ascii_letter(letter) {
                Err::<(), PendingMoveError>(PendingMoveError::InvalidBlankLetter)
            } else if place_of(old(self).placements@, tile_id) >= old(self).placements@.len() {
                Err(PendingMoveError::TileNotPlaced)
            } else {
                Ok(())
            }),
            final(self).selected_tile == old(self).selected_tile,
            final(self).placements@ == if selected is Ok {
                let place = place_of(old(self).placements@, tile_id);
                let placed = old(self).placements@[place];
                old(self).placements@.update(
                    place,
                    (placed.0, placed.1, Some(upper_letter(letter))),
                )
            } else {
                old(self).placements@
            },
    {
        if !('a' <= letter && letter <= 'z' || 'A' <= letter && letter <= 'Z') {
            return Err(PendingMoveError::InvalidBlankLetter);
        }
        let place: usize = self.place(tile_id);
        if place >= self.placements.len() {
            return Err(PendingMoveError::TileNotPlaced);
        }
        let placed: PendingPlacement = self.placements[place];
        self.placements.set(place, (placed.0, placed.1, Some(ascii_upper(letter))));
        Ok(())
    }

    /// The rack turned so that the requested tile comes first, or as it was where it has no such
    /// tile.
    pub fn reorder_rack(rack: &Vec<RackTile>, tile_id: u16) -> (reordered: Vec<RackTile>)
        ensures
            reordered@ == rack_from(rack@, tile_id),
    {
        let mut place: usize = 0;
        while place < rack.len() && rack[place].0 != tile_id
            invariant
                place <= rack@.len(),
                forall|i: int| 0 <= i < place ==> (#[trigger] rack@[i]).0 != tile_id,
            decreases rack@.len() - place,
        {
            place = place + 1;
        }
        proof {
            rack_place_unique(rack@, tile_id, place as int);
        }
        if place == rack.len() {
            place = 0;
        }
        let mut reordered: Vec<RackTile> = Vec::new();
        let mut at: usize = place;
        while at < rack.len()
            invariant
                place <= at <= rack@.len(),
                reordered@ == rack@.subrange(place as int, at as int),
            decreases rack@.len() - at,
        {
            reordered.push(rack[at]);
            at = at + 1;
            assert(reordered@ =~= rack@.subrange(place as int, at as int));
        }
        assert(rack@.subrange(place as int, at as int) =~= rack@.skip(place as int));
        at = 0;
        while at < place
            invariant
                at <= place <= rack@.len(),
                reordered@ == rack@.skip(place as int) + rack@.take(at as int),
            decreases place - at,
        {
            reordered.push(rack[at]);
            at = at + 1;
            assert(reordered@ =~= rack@.skip(place as int) + rack@.take(at as int));
        }
        assert(reordered@ =~= rack_from(rack@, tile_id));
        reordered
    }
}

/// A rack tile as shown: its number, its letter (a blank is a space) and its points.
pub type RackTile = (u16, char, u8);

/// The place of the first rack tile with this number, or the rack's size where it has none.
pub open spec fn rack_place(rack: Seq<RackTile>, tile: u16) -> int
    decreases rack.len(),
{
    if rack.len() == 0 || rack[0].0 == tile {
        0
    } else {
        1 + rack_place(rack.skip(1), tile)
    }
}

/// The rack turned so that `tile` comes first.
pub open spec fn rack_from(rack: Seq<RackTile>, tile: u16) -> Seq<RackTile> {
    let place = rack_place(rack, tile);
    if place < rack.len() {
        rack.skip(place) + rack.take(place)
    } else {
        rack
    }
}

proof fn rack_place_unique(rack: Seq<RackTile>, tile: u16, place: int)
    requires
        0 <= place <= rack.len(),
        place < rack.len() ==> rack[place].0 == tile,
        forall|i: int| 0 <= i < place ==> (#[trigger] rack[i]).0 != tile,
    ensures
        rack_place(rack, tile) == place,
    decreases rack.len(),
{
    if place > 0 {
        assert(rack[0].0 != tile);
        let rest = rack.skip(1);
        assert forall|i: int| 0 <= i < place - 1 implies (#[trigger] rest[i]).0 != tile by {
            assert(rest[i] == rack[i + 1]);
        }
        rack_place_unique(rest, tile, place - 1);
    }
}

/// Turning a rack keeps its tiles.
pub proof fn reordering_keeps_tiles(rack: Seq<RackTile>, tile: u16)
    ensures
        rack_from(rack, tile).to_multiset() == rack.to_multiset(),
{
    broadcast use vstd::seq_lib::group_to_multiset_ensures;

    let place = rack_place(rack, tile);
    rack_place_bounds(rack, tile);
    if place < rack.len() {
        assert(rack =~= rack.take(place) + rack.skip(place));
        vstd::seq_lib::lemma_multiset_commutative(rack.take(place), rack.skip(place));
        vstd::seq_lib::lemma_multiset_commutative(rack.skip(place), rack.take(place));
        assert(rack_from(rack, tile).to_multiset() =~= rack.to_multiset());
    }
}

proof fn rack_place_bounds(rack: Seq<RackTile>, tile: u16)
    ensures
        0 <= rack_place(rack, tile) <= rack.len(),
        rack_place(rack, tile) < rack.len() ==> rack[rack_place(rack, tile)].0 == tile,
    decreases rack.len(),
{
    if rack.len() > 0 && rack[0].0 != tile {
        rack_place_bounds(rack.skip(1), tile);
    }
}

/// A requested tile that the rack holds comes first.
pub proof fn requested_tile_comes_first(rack: Seq<RackTile>, tile: u16)
    requires
        exists|i: int| 0 <= i < rack.len() && (#[trigger] rack[i]).0 == tile,
    ensures
        rack_from(rack, tile).len() > 0,
        rack_from(rack, tile)[0].0 == tile,
{
    rack_place_bounds(rack, tile);
    if rack_place(rack, tile) >= rack.len() {
        rack_place_misses(rack, tile);
    }
}

proof fn rack_place_misses(rack: Seq<RackTile>, tile: u16)
    ensures
        forall|i: int| 0 <= i < rack_place(rack, tile) && i < rack.len() ==> (
        #[trigger] rack[i]).0 != tile,
    decreases rack.len(),
{
    if rack.len() > 0 && rack[0].0 != tile {
        let rest = rack.skip(1);
        rack_place_misses(rest, tile);
        assert forall|i: int|
            0 <= i < rack_place(rack, tile) && i < rack.len() implies (#[trigger] rack[i]).0
            != tile by {
            if i > 0 {
                assert(rest[i - 1] == rack[i]);
            }
        }
    }
}

/// Taking a newly placed tile back restores the placements.
pub proof fn placing_is_reversible(
    placements: Seq<PendingPlacement>,
    tile: u16,
    square: Coordinate,
    blank_letter: Option<char>,
)
    requires
        place_of(placements, tile) >= placements.len(),
    ensures
        without_tile(with_placement(placements, tile, square, blank_letter), tile) == placements,
{
    place_of_bounds(placements, tile);
    let more = placements.push((tile, square, blank_letter));
    assert(more.drop_last() =~= placements);
    without_missing_tile(placements, tile);
}

proof fn without_missing_tile(placements: Seq<PendingPlacement>, tile: u16)
    requires
        forall|i: int| 0 <= i < placements.len() ==> (#[trigger] placements[i]).0 != tile,
    ensures
        without_tile(placements, tile) == placements,
    decreases placements.len(),
{
    if placements.len() > 0 {
        without_missing_tile(placements.drop_last(), tile);
        assert(placements.drop_last().push(placements.last()) =~= placements);
    }
}

/// What one seated viewer sees of a game: neither the bag nor another rack.
#[derive(Debug, Clone, PartialEq, Eq)]
pub struct GameView {
    pub board: Vec<(Coordinate, char, u8)>,
    pub premiums: Vec<(Coordinate, PremiumView)>,
    pub board_size: u8,
    pub start: Coordinate,
    pub rack: Vec<RackTile>,
    pub scores: Vec<(PlayerId, u32)>,
    pub active_player: PlayerId,
    pub status: GameStatus,
    pub winner: Option<PlayerId>,
    pub revision: u64,
}

/// The mathematical content of a [`GameView`].
#[verifier::ext_equal]
pub struct SeenGame {
    pub board: Seq<(Coordinate, char, u8)>,
    pub premiums: Seq<(Coordinate, PremiumView)>,
    pub board_size: u8,
    pub start: Coordinate,
    pub rack: Seq<RackTile>,
    pub scores: Seq<(PlayerId, u32)>,
    pub active_player: PlayerId,
    pub status: GameStatus,
    pub winner: Option<PlayerId>,
    pub revision: u64,
}

impl View for GameView {
    type V = SeenGame;

    open spec fn view(&self) -> SeenGame {
        SeenGame {
            board: self.board@,
            premiums: self.premiums@,
            board_size: self.board_size,
            start: self.start,
            rack: self.rack@,
            scores: self.scores@,
            active_player: self.active_player,
            status: self.status,
            winner: self.winner,
            revision: self.revision,
        }
    }
}

pub open spec fn premium_view_of(premium: PremiumSquare) -> PremiumView {
    match premium {
        PremiumSquare::Letter(factor) => if factor == 2 {
            PremiumView::DoubleLetter
        } else {
            PremiumView::TripleLetter
        },
        PremiumSquare::Word(factor) => if factor == 2 {
            PremiumView::DoubleWord
        } else {
            PremiumView::TripleWord
        },
    }
}

fn premium_view(premium: PremiumSquare) -> (view: PremiumView)
    ensures
        view == premium_view_of(premium),
{
    match premium {
        PremiumSquare::Letter(factor) => if factor == 2 {
            PremiumView::DoubleLetter
        } else {
            PremiumView::TripleLetter
        },
        PremiumSquare::Word(factor) => if factor == 2 {
            PremiumView::DoubleWord
        } else {
            PremiumView::TripleWord
        },
    }
}

/// The committed tiles, by column and then by row.
pub open spec fn seen_board(board: Map<u16, BoardTile>) -> Seq<(Coordinate, char, u8)> {
    let keys = order::ascending_squares(board.dom());
    Seq::new(
        keys.len(),
        |i: int|
            (
                Coordinate::spec_from_key(keys[i]),
                board[keys[i]].letter,
                board[keys[i]].tile.points,
            ),
    )
}

/// The premium squares, by column and then by row.
pub open spec fn seen_premiums(premiums: Map<u16, PremiumSquare>) -> Seq<
    (Coordinate, PremiumView),
> {
    let keys = order::ascending_squares(premiums.dom());
    Seq::new(
        keys.len(),
        |i: int| (Coordinate::spec_from_key(keys[i]), premium_view_of(premiums[keys[i]])),
    )
}

pub open spec fn seen_tile(tile: Tile) -> RackTile {
    (
        tile.id,
        match tile.face {
            TileFace::Letter(letter) => letter,
            TileFace::Blank => ' ',
        },
        tile.points,
    )
}

/// A rack in its own order.
pub open spec fn seen_rack(rack: Seq<Tile>) -> Seq<RackTile> {
    Seq::new(rack.len(), |i: int| seen_tile(rack[i]))
}

/// The scores, by player identity.
pub open spec fn seen_scores(scores: Map<PlayerId, u32>) -> Seq<(PlayerId, u32)> {
    let keys = order::ascending_players(scores.dom());
    Seq::new(keys.len(), |i: int| (keys[i], scores[keys[i]]))
}

/// What `viewer` sees of a game under its complete rules.
pub open spec fn seen_game(state: GameState, viewer: PlayerId, profile: RuleProfile) -> SeenGame {
    SeenGame {
        board: seen_board(state.board@),
        premiums: seen_premiums(profile.premiums@),
        board_size: profile.board_size,
        start: profile.start,
        rack: seen_rack(state.racks@[viewer]@),
        scores: seen_scores(state.scores@),
        active_player: state.active_player,
        status: state.status,
        winner: state.winner,
        revision: state.revision,
    }
}

fn view_board(board: &BTreeMap<u16, BoardTile>) -> (seen: Vec<(Coordinate, char, u8)>)
    ensures
        seen@ == seen_board(board@),
{
    broadcast use vstd::std_specs::btree::group_btree_axioms;

    let keys = squares_keys(board);
    let mut seen: Vec<(Coordinate, char, u8)> = Vec::new();
    let mut at: usize = 0;
    while at < keys.len()
        invariant
            at <= keys@.len(),
            keys@ == order::ascending_squares(board@.dom()),
            order::lists_squares(keys@, board@.dom()),
            seen@ == seen_board(board@).take(at as int),
        decreases keys@.len() - at,
    {
        let key: u16 = keys[at];
        assert(keys@.to_set().contains(key)) by {
            assert(keys@.contains(keys@[at as int]));
        }
        match board.get(&key) {
            Some(tile) => {
                seen.push((Coordinate::from_key(key), tile.letter, tile.tile.points));
            },
            None => {
                assert(false);
            },
        }
        at = at + 1;
        assert(seen@ =~= seen_board(board@).take(at as int));
    }
    assert(seen_board(board@).take(at as int) =~= seen_board(board@));
    seen
}

fn view_premiums(premiums: &BTreeMap<u16, PremiumSquare>) -> (seen: Vec<(Coordinate, PremiumView)>)
    ensures
        seen@ == seen_premiums(premiums@),
{
    broadcast use vstd::std_specs::btree::group_btree_axioms;

    let keys = squares_keys(premiums);
    let mut seen: Vec<(Coordinate, PremiumView)> = Vec::new();
    let mut at: usize = 0;
    while at < keys.len()
        invariant
            at <= keys@.len(),
            keys@ == order::ascending_squares(premiums@.dom()),
            order::lists_squares(keys@, premiums@.dom()),
            seen@ == seen_premiums(premiums@).take(at as int),
        decreases keys@.len() - at,
    {
        let key: u16 = keys[at];
        assert(keys@.to_set().contains(key)) by {
            assert(keys@.contains(keys@[at as int]));
        }
        match premiums.get(&key) {
            Some(premium) => {
                seen.push((Coordinate::from_key(key), premium_view(*premium)));
            },
            None => {
                assert(false);
            },
        }
        at = at + 1;
        assert(seen@ =~= seen_premiums(premiums@).take(at as int));
    }
    assert(seen_premiums(premiums@).take(at as int) =~= seen_premiums(premiums@));
    seen
}

fn view_rack(rack: &Vec<Tile>) -> (seen: Vec<RackTile>)
    ensures
        seen@ == seen_rack(rack@),
{
    let mut seen: Vec<RackTile> = Vec::new();
    let mut at: usize = 0;
    while at < rack.len()
        invariant
            at <= rack@.len(),
            seen@ == seen_rack(rack@).take(at as int),
        decreases rack@.len() - at,
    {
        let tile: Tile = rack[at];
        let letter: char = match tile.face {
            TileFace::Letter(letter) => letter,
            TileFace::Blank => ' ',
        };
        seen.push((tile.id, letter, tile.points));
        at = at + 1;
        assert(seen@ =~= seen_rack(rack@).take(at as int));
    }
    assert(seen_rack(rack@).take(at as int) =~= seen_rack(rack@));
    seen
}

fn view_scores(scores: &BTreeMap<PlayerId, u32>) -> (seen: Vec<(PlayerId, u32)>)
    ensures
        seen@ == seen_scores(scores@),
{
    broadcast use vstd::std_specs::btree::group_btree_axioms;

    let keys = players_keys(scores);
    let mut seen: Vec<(PlayerId, u32)> = Vec::new();
    let mut at: usize = 0;
    while at < keys.len()
        invariant
            at <= keys@.len(),
            keys@ == order::ascending_players(scores@.dom()),
            order::lists_players(keys@, scores@.dom()),
            seen@ == seen_scores(scores@).take(at as int),
        decreases keys@.len() - at,
    {
        let key: PlayerId = keys[at];
        assert(keys@.to_set().contains(key)) by {
            assert(keys@.contains(keys@[at as int]));
        }
        match scores.get(&key) {
            Some(score) => {
                seen.push((key, *score));
            },
            None => {
                assert(false);
            },
        }
        at = at + 1;
        assert(seen@ =~= seen_scores(scores@).take(at as int));
    }
    assert(seen_scores(scores@).take(at as int) =~= seen_scores(scores@));
    seen
}

/// Projects canonical state for one seated viewer; nothing for anyone else, or where the game's
/// rules are not known.
pub fn game_view(state: &GameState, viewer: PlayerId, profile: Option<&RuleProfile>) -> (view:
    Option<GameView>)
    requires
        state.players@.contains(viewer) ==> state.racks@.contains_key(viewer),
    ensures
        match view {
            Some(view) => state.players@.contains(viewer) && profile is Some && view@ == seen_game(
                *state,
                viewer,
                *profile->0,
            ),
            None => !state.players@.contains(viewer) || profile is None,
        },
{
    broadcast use vstd::std_specs::btree::group_btree_axioms;

    let mut at: usize = 0;
    while at < state.players.len() && state.players[at] != viewer
        invariant
            at <= state.players@.len(),
            forall|i: int| 0 <= i < at ==> #[trigger] state.players@[i] != viewer,
        decreases state.players@.len() - at,
    {
        at = at + 1;
    }
    if at == state.players.len() {
        return None;
    }
    assert(state.players@[at as int] == viewer);
    let profile = match profile {
        Some(profile) => profile,
        None => return None,
    };
    let rack = match state.racks.get(&viewer) {
        Some(rack) => view_rack(rack),
        None => return None,
    };
    Some(
        GameView {
            board: view_board(&state.board),
            premiums: view_premiums(&profile.premiums),
            board_size: profile.board_size,
            start: profile.start,
            rack,
            scores: view_scores(&state.scores),
            active_player: state.active_player,
            status: state.status,
            winner: state.winner,
            revision: state.revision,
        },
    )
}

/// What a viewer sees does not depend on the bag or on anyone else's rack.
pub proof fn view_hides_bag_and_other_racks(
    left: GameState,
    right: GameState,
    viewer: PlayerId,
    profile: RuleProfile,
)
    requires
        left.board@ == right.board@,
        left.racks@[viewer]@ == right.racks@[viewer]@,
        left.scores@ == right.scores@,
        left.active_player == right.active_player,
        left.status == right.status,
        left.winner == right.winner,
        left.revision == right.revision,
    ensures
        seen_game(left, viewer, profile) == seen_game(right, viewer, profile),
{
}

/// The label of a premium kind.
pub open spec fn premium_label_of(premium: PremiumView) -> Seq<char> {
    match premium {
        PremiumView::DoubleLetter => "Double letter"@,
        PremiumView::TripleLetter => "Triple letter"@,
        PremiumView::DoubleWord => "Double word"@,
        PremiumView::TripleWord => "Triple word"@,
    }
}

pub fn premium_label(premium: PremiumView) -> (label: &'static str)
    ensures
        label@ == premium_label_of(premium),
{
    match premium {
        PremiumView::DoubleLetter => "Double letter",
        PremiumView::TripleLetter => "Triple letter",
        PremiumView::DoubleWord => "Double word",
        PremiumView::TripleWord => "Triple word",
    }
}

/// The label of a tile.
pub fn tile_label(id: u16) -> (label: String)
    ensures
        label@ == "Tile "@ + text::decimal(id as nat),
{
    joined("Tile ", decimal_text(id as u64).as_str())
}

/// One pending placement as text: tile, square and blank letter.
pub open spec fn placement_text_of(placement: PendingPlacement) -> Seq<char> {
    text::decimal(placement.0 as nat) + "@"@ + text::decimal(placement.1.x as nat) + ","@
        + text::decimal(placement.1.y as nat) + ":"@ + seq![
        match placement.2 {
            Some(letter) => letter,
            None => ' ',
        },
    ]
}

fn placement_text(placement: PendingPlacement) -> (shown: String)
    ensures
        shown@ == placement_text_of(placement),
{
    let mut shown = decimal_text(placement.0 as u64).concat("@").concat(
        decimal_text(placement.1.x as u64).as_str(),
    ).concat(",").concat(decimal_text(placement.1.y as u64).as_str()).concat(":");
    shown.push(
        match placement.2 {
            Some(letter) => letter,
            None => ' ',
        },
    );
    assert(shown@ =~= placement_text_of(placement));
    shown
}

/// All pending placements as text, in their order.
pub open spec fn pending_text_of(placements: Seq<PendingPlacement>) -> Seq<char> {
    text::joined_with(
        Seq::new(placements.len(), |i: int| placement_text_of(placements[i])),
        " "@,
    )
}

/// The text that shows local pending placements.
pub fn pending_text(pending: &PendingMoveView) -> (shown: String)
    ensures
        shown@ == pending_text_of(pending.placements@),
{
    let mut parts: Vec<String> = Vec::new();
    let ghost wanted = Seq::new(
        pending.placements@.len(),
        |i: int| placement_text_of(pending.placements@[i]),
    );
    let mut at: usize = 0;
    while at < pending.placements.len()
        invariant
            at <= pending.placements@.len(),
            wanted == Seq::new(
                pending.placements@.len(),
                |i: int| placement_text_of(pending.placements@[i]),
            ),
            parts@.len() == at,
            text::texts_view(parts@) == wanted.take(at as int),
        decreases pending.placements@.len() - at,
    {
        let ghost before = parts@;
        parts.push(placement_text(pending.placements[at]));
        assert(text::texts_view(parts@) =~= text::texts_view(before).push(
            parts@[at as int]@,
        ));
        assert(wanted.take(at + 1) =~= wanted.take(at as int).push(wanted[at as int]));
        at = at + 1;
    }
    assert(wanted.take(at as int) =~= wanted);
    join(&parts, " ")
}

/// How one board square is shown.
#[derive(Debug, Clone, PartialEq, Eq)]
pub struct BoardCell {
    pub background: &'static str,
    pub label: String,
    pub color: &'static str,
    /// The points of the tile on the square.
    pub points: Option<u8>,
}

/// The mathematical content of a [`BoardCell`].
#[verifier::ext_equal]
pub struct CellView {
    pub background: Seq<char>,
    pub label: Seq<char>,
    pub color: Seq<char>,
    pub points: Option<u8>,
}

impl View for BoardCell {
    type V = CellView;

    open spec fn view(&self) -> CellView {
        CellView {
            background: self.background@,
            label: self.label@,
            color: self.color@,
            points: self.points,
        }
    }
}

/// The tile shown on a square: the last one listed there.
pub open spec fn tile_on(board: Seq<(Coordinate, char, u8)>, square: Coordinate) -> Option<
    (char, u8),
>
    decreases board.len(),
{
    if board.len() == 0 {
        None
    } else if board.last().0 == square {
        Some((board.last().1, board.last().2))
    } else {
        tile_on(board.drop_last(), square)
    }
}

/// The premium shown on a square: the last one listed there.
pub open spec fn premium_on(premiums: Seq<(Coordinate, PremiumView)>, square: Coordinate) -> Option<
    PremiumView,
>
    decreases premiums.len(),
{
    if premiums.len() == 0 {
        None
    } else if premiums.last().0 == square {
        Some(premiums.last().1)
    } else {
        premium_on(premiums.drop_last(), square)
    }
}

/// How a square is shown: its tile, else the start square, else its premium.
pub open spec fn cell_of(view: SeenGame, square: Coordinate) -> CellView {
    match tile_on(view.board, square) {
        Some((letter, points)) => CellView {
            background: "#f2d79b"@,
            label: seq![letter],
            color: "#2e291f"@,
            points: Some(points),
        },
        None => {
            let (background, label, color) = if square == view.start {
                ("#e79b9b"@, "★"@, "#6b3535"@)
            } else {
                match premium_on(view.premiums, square) {
                    Some(PremiumView::DoubleLetter) => ("#b9dbe8"@, "DL"@, "#31596a"@),
                    Some(PremiumView::TripleLetter) => ("#77b6d1"@, "TL"@, "#173f52"@),
                    Some(PremiumView::DoubleWord) => ("#e9b2b2"@, "DW"@, "#743d3d"@),
                    Some(PremiumView::TripleWord) => ("#d87f7f"@, "TW"@, "#ffffff"@),
                    None => ("#ede6d4"@, Seq::<char>::empty(), "#756f64"@),
                }
            };
            CellView { background, label, color, points: None }
        },
    }
}

fn find_tile(board: &Vec<(Coordinate, char, u8)>, square: Coordinate) -> (found: Option<(char, u8)>)
    ensures
        found == tile_on(board@, square),
{
    let mut end: usize = board.len();
    assert(board@.take(end as int) =~= board@);
    while end > 0
        invariant
            end <= board@.len(),
            tile_on(board@, square) == tile_on(board@.take(end as int), square),
        decreases end,
    {
        assert(board@.take(end as int).drop_last() =~= board@.take(end - 1));
        assert(board@.take(end as int).last() == board@[end - 1]);
        end = end - 1;
        if board[end].0 == square {
            return Some((board[end].1, board[end].2));
        }
    }
    None
}

fn find_premium(premiums: &Vec<(Coordinate, PremiumView)>, square: Coordinate) -> (found: Option<
    PremiumView,
>)
    ensures
        found == premium_on(premiums@, square),
{
    let mut end: usize = premiums.len();
    assert(premiums@.take(end as int) =~= premiums@);
    while end > 0
        invariant
            end <= premiums@.len(),
            premium_on(premiums@, square) == premium_on(premiums@.take(end as int), square),
        decreases end,
    {
        assert(premiums@.take(end as int).drop_last() =~= premiums@.take(end - 1));
        assert(premiums@.take(end as int).last() == premiums@[end - 1]);
        end = end - 1;
        if premiums[end].0 == square {
            return Some(premiums[end].1);
        }
    }
    None
}

/// How one square of a viewed board is shown.
pub fn board_cell(view: &GameView, square: Coordinate) -> (cell: BoardCell)
    ensures
        cell@ == cell_of(view@, square),
{
    if let Some((letter, points)) = find_tile(&view.board, square) {
        let mut label = String::new();
        label.push(letter);
        assert(label@ =~= seq![letter]);
        return BoardCell { background: "#f2d79b", label, color: "#2e291f", points: Some(points) };
    }
    let (background, label, color): (&'static str, &'static str, &'static str) = if square
        == view.start {
        ("#e79b9b", "★", "#6b3535")
    } else {
        match find_premium(&view.premiums, square) {
            Some(PremiumView::DoubleLetter) => ("#b9dbe8", "DL", "#31596a"),
            Some(PremiumView::TripleLetter) => ("#77b6d1", "TL", "#173f52"),
            Some(PremiumView::DoubleWord) => ("#e9b2b2", "DW", "#743d3d"),
            Some(PremiumView::TripleWord) => ("#d87f7f", "TW", "#ffffff"),
            None => ("#ede6d4", "", "#756f64"),
        }
    };
    proof {
        reveal_strlit("");
        assert(""@ =~= Seq::<char>::empty());
    }
    BoardCell { background, label: label.to_owned(), color, points: None }
}

/// The face shown for a rack letter; a blank shows a question mark.
pub fn rack_face(letter: char) -> (face: char)
    ensures
        face == if letter == ' ' {
            '?'
        } else {
            letter
        },
{
    if letter == ' ' {
        '?'
    } else {
        letter
    }
}

/// The first score listed for `viewer` or, where `own` is not set, for anyone else; 0 where there
/// is none.
pub open spec fn first_score(scores: Seq<(PlayerId, u32)>, viewer: PlayerId, own: bool) -> u32
    decreases scores.len(),
{
    if scores.len() == 0 {
        0
    } else if (scores[0].0 == viewer) == own {
        scores[0].1
    } else {
        first_score(scores.skip(1), viewer, own)
    }
}

fn find_score(scores: &Vec<(PlayerId, u32)>, viewer: PlayerId, own: bool) -> (score: u32)
    ensures
        score == first_score(scores@, viewer, own),
{
    let mut at: usize = 0;
    assert(scores@.skip(0) =~= scores@);
    while at < scores.len()
        invariant
            at <= scores@.len(),
            first_score(scores@, viewer, own) == first_score(scores@.skip(at as int), viewer, own),
        decreases scores@.len() - at,
    {
        assert(scores@.skip(at as int).skip(1) =~= scores@.skip(at + 1));
        assert(scores@.skip(at as int)[0] == scores@[at as int]);
        if (scores[at].0 == viewer) == own {
            return scores[at].1;
        }
        at = at + 1;
    }
    0
}

/// The viewer's score and the opponent's.
pub fn score_status(view: &GameView, viewer: PlayerId) -> (scores: (u32, u32))
    ensures
        scores.0 == first_score(view.scores@, viewer, true),
        scores.1 == first_score(view.scores@, viewer, false),
{
    (find_score(&view.scores, viewer, true), find_score(&view.scores, viewer, false))
}

/// Whose turn it is, as the viewer reads it.
pub open spec fn turn_text_of(view: SeenGame, viewer: PlayerId) -> Seq<char> {
    if view.status == GameStatus::Completed {
        "Game complete"@
    } else if view.active_player == viewer {
        "Your turn"@
    } else {
        "Waiting for opponent"@
    }
}

/// The turn status with its background and text color; the viewer's own turn stands out.
pub fn viewer_turn(view: &GameView, viewer: PlayerId) -> (shown: (
    &'static str,
    &'static str,
    &'static str,
))
    ensures
        shown.0@ == turn_text_of(view@, viewer),
        (shown.1@, shown.2@) == if view.status == GameStatus::Active && view.active_player
            == viewer {
            ("#2f8a57"@, "#ffffff"@)
        } else {
            ("#e5e1d7"@, "#526057"@)
        },
{
    if view.status == GameStatus::Completed {
        ("Game complete", "#e5e1d7", "#526057")
    } else if view.active_player == viewer {
        ("Your turn", "#2f8a57", "#ffffff")
    } else {
        ("Waiting for opponent", "#e5e1d7", "#526057")
    }
}

} // verus!
