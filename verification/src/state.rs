//! The turn-sequenced game state: board, bags, whose turn it is, a drawn tile
//! awaiting placement, and the no-progress counter used for tie detection.

use rand::rngs::StdRng;
use vstd::prelude::*;

use crate::bag::{DiscardBag, TileBag};
use crate::board::Board;
use crate::board_setup::{setup, DukeInitialLocation, FootmenSetup};
use crate::coordinates::Coordinates;
use crate::game_board::{
    map_apply_action, map_apply_ok, map_classify, map_duke_at, map_duke_coords, map_flip_tile,
    map_has_duke,
    map_is_guard, map_is_valid_placement, map_placement_cell_free, map_possible_ok,
    spec_absolute_offset, spec_placed_for, on_board, AppliedPubAction, BoardMove, DukeOffset,
    GameBoard, PossibleMove, TileMap, WithNewTiles,
};
use crate::tile::{Owner, PlacedTile, Tile};
use crate::tile_side::TileAction;

verus! {

/// Consecutive moves without a capture or a placement before a game is tied.
pub const MAX_MOVES_WITHOUT_CAPTURE_OR_PLACEMENT: usize = 10;

/// A move requested through the public interface.
#[derive(Debug, Clone, PartialEq, Eq, Structural)]
pub enum GameMove {
    PlaceNewTile(DukeOffset),
    PullAndPlay(DukeOffset),
    ApplyNonCommandTileAction { src: Coordinates, dst: Coordinates },
}

/// Why drawing a new tile is currently allowed or blocked.
#[derive(Debug, PartialEq, Eq, Clone, Copy, Structural)]
pub enum CanPullNewTileResult {
    EmptyBag,
    NoSpaceNearDuke,
    DukeAlwaysInGuard,
    OK,
}

#[derive(Debug, PartialEq, Eq, Clone, Copy, Structural)]
pub enum GameResult {
    Tie,
    Ongoing,
    Won(Owner),
}

#[derive(Debug, Clone, PartialEq, Eq)]
pub struct GameState {
    board: GameBoard,
    pulled_tile: Option<Tile>,
    current_player_turn: Owner,
    top_player_bag: TileBag,
    top_player_discard: DiscardBag,
    bottom_player_bag: TileBag,
    bottom_player_discard: DiscardBag,
    moves_without_capture_or_placement_stack: Vec<usize>,
}

/// A bag whose tiles are well formed and hold no duke.
pub open spec fn spec_bag_wf(b: TileBag) -> bool {
    forall|i: int|
        0 <= i < b.spec_tiles().len() ==> (#[trigger] b.spec_tiles()[i]).wf()
            && b.spec_tiles()[i].spec_name() != "Duke"@
}


/// Two states observably alike: same board content, drawn tile, turn, bags,
/// discards and counters.
pub open spec fn same_state(a: GameState, b: GameState) -> bool {
    &&& a.spec_map() == b.spec_map()
    &&& a.spec_pulled() == b.spec_pulled()
    &&& a.spec_turn() == b.spec_turn()
    &&& a.spec_top_bag() == b.spec_top_bag()
    &&& a.spec_bottom_bag() == b.spec_bottom_bag()
    &&& a.spec_top_discard() == b.spec_top_discard()
    &&& a.spec_bottom_discard() == b.spec_bottom_discard()
    &&& a.spec_stack() == b.spec_stack()
}

impl GameState {
    pub closed spec fn spec_game_board(self) -> GameBoard {
        self.board
    }

    /// The board's tile map.
    pub open spec fn spec_map(self) -> TileMap {
        self.spec_game_board().spec_tiles_map()
    }

    pub closed spec fn spec_pulled(self) -> Option<Tile> {
        self.pulled_tile
    }

    pub closed spec fn spec_turn(self) -> Owner {
        self.current_player_turn
    }

    pub closed spec fn spec_top_bag(self) -> TileBag {
        self.top_player_bag
    }

    pub closed spec fn spec_bottom_bag(self) -> TileBag {
        self.bottom_player_bag
    }

    pub open spec fn spec_bag_of(self, o: Owner) -> TileBag {
        match o {
            Owner::TopPlayer => self.spec_top_bag(),
            Owner::BottomPlayer => self.spec_bottom_bag(),
        }
    }

    pub closed spec fn spec_top_discard(self) -> DiscardBag {
        self.top_player_discard
    }

    pub closed spec fn spec_bottom_discard(self) -> DiscardBag {
        self.bottom_player_discard
    }

    /// The no-progress counters, one frame per undoable move layer.
    pub closed spec fn spec_stack(self) -> Seq<usize> {
        self.moves_without_capture_or_placement_stack@
    }

    /// A playable state: a well-formed board holding both dukes, bags and any
    /// drawn tile well formed and duke-free, and at least one counter frame.
    pub open spec fn wf(self) -> bool {
        &&& self.spec_game_board().wf()
        &&& map_has_duke(self.spec_map(), Owner::TopPlayer)
        &&& map_has_duke(self.spec_map(), Owner::BottomPlayer)
        &&& self.spec_stack().len() >= 1
        &&& spec_bag_wf(self.spec_top_bag())
        &&& spec_bag_wf(self.spec_bottom_bag())
        &&& match self.spec_pulled() {
            Some(t) => t.wf() && t.spec_name() != "Duke"@,
            None => true,
        }
    }

    pub fn board(&self) -> (r: &Board<PlacedTile>)
        ensures
            *r == self.spec_game_board().spec_board(),
    {
        self.board.get_board()
    }

    pub fn pulled_tile(&self) -> (r: &Option<Tile>)
        ensures
            *r == self.spec_pulled(),
    {
        &self.pulled_tile
    }

    pub fn current_player_turn(&self) -> (r: Owner)
        ensures
            r == self.spec_turn(),
    {
        self.current_player_turn
    }

    pub fn top_player_bag(&self) -> (r: &TileBag)
        ensures
            *r == self.spec_top_bag(),
    {
        &self.top_player_bag
    }

    pub fn bottom_player_bag(&self) -> (r: &TileBag)
        ensures
            *r == self.spec_bottom_bag(),
    {
        &self.bottom_player_bag
    }

    pub fn player_1_discard(&self) -> (r: &DiscardBag)
        ensures
            *r == self.spec_top_discard(),
    {
        &self.top_player_discard
    }

    pub fn player_2_discard(&self) -> (r: &DiscardBag)
        ensures
            *r == self.spec_bottom_discard(),
    {
        &self.bottom_player_discard
    }

    pub fn discard_bag_for(&self, o: Owner) -> (r: &DiscardBag)
        ensures
            o == Owner::TopPlayer ==> *r == self.spec_top_discard(),
            o == Owner::BottomPlayer ==> *r == self.spec_bottom_discard(),
    {
        match o {
            Owner::TopPlayer => &self.top_player_discard,
            Owner::BottomPlayer => &self.bottom_player_discard,
        }
    }

    pub fn bag_for_current_player(&self) -> (r: &TileBag)
        ensures
            *r == self.spec_bag_of(self.spec_turn()),
    {
        match self.current_player_turn {
            Owner::TopPlayer => &self.top_player_bag,
            Owner::BottomPlayer => &self.bottom_player_bag,
        }
    }

    pub fn bag_for_other_player(&self) -> (r: &TileBag)
        ensures
            *r == self.spec_bag_of(self.spec_turn().spec_next()),
    {
        match self.current_player_turn {
            Owner::TopPlayer => &self.bottom_player_bag,
            Owner::BottomPlayer => &self.top_player_bag,
        }
    }

    pub fn get(&self, c: Coordinates) -> (r: Option<&PlacedTile>)
        requires
            self.wf(),
            on_board(c),
        ensures
            match r {
                Some(t) => self.spec_map().dom().contains(c) && self.spec_map()[c] == *t,
                None => !self.spec_map().dom().contains(c),
            },
    {
        self.board.get(c)
    }

    /// A state built around an existing board, with empty bags.
    pub fn from_board(board: GameBoard, current_player: Owner) -> (r: GameState)
        requires
            board.wf(),
            map_has_duke(board.spec_tiles_map(), Owner::TopPlayer),
            map_has_duke(board.spec_tiles_map(), Owner::BottomPlayer),
        ensures
            r.wf(),
            r.spec_game_board() == board,
            r.spec_turn() == current_player,
            r.spec_pulled() is None,
            r.spec_top_bag().spec_tiles().len() == 0,
            r.spec_bottom_bag().spec_tiles().len() == 0,
            r.spec_stack() == seq![0usize],
    {
        GameState::from_board_with_bag(board, current_player, TileBag::empty())
    }

    /// A state built around an existing board, with the same bag for both
    /// players.
    pub fn from_board_with_bag(board: GameBoard, current_player_turn: Owner, bag: TileBag) -> (r:
        GameState)
        requires
            board.wf(),
            map_has_duke(board.spec_tiles_map(), Owner::TopPlayer),
            map_has_duke(board.spec_tiles_map(), Owner::BottomPlayer),
            spec_bag_wf(bag),
        ensures
            r.wf(),
            r.spec_game_board() == board,
            r.spec_turn() == current_player_turn,
            r.spec_pulled() is None,
            r.spec_top_bag().spec_tiles().len() == bag.spec_tiles().len(),
            forall|i: int|
                0 <= i < bag.spec_tiles().len() ==> (#[trigger] r.spec_top_bag().spec_tiles()[i])@
                    == bag.spec_tiles()[i]@,
            r.spec_bottom_bag() == bag,
            r.spec_top_discard().spec_tiles().len() == 0,
            r.spec_bottom_discard().spec_tiles().len() == 0,
            r.spec_stack() == seq![0usize],
    {
        let top_bag = bag.duplicate();
        let mut stack: Vec<usize> = Vec::new();
        stack.push(0);
        proof {
            assert(stack@ =~= seq![0usize]);
        }
        GameState {
            board,
            current_player_turn,
            pulled_tile: None,
            top_player_bag: top_bag,
            top_player_discard: DiscardBag::empty(),
            bottom_player_bag: bag,
            bottom_player_discard: DiscardBag::empty(),
            moves_without_capture_or_placement_stack: stack,
        }
    }

    /// A fresh game: standard opening rows, a copy of the base bag for each
    /// player, top player to move.
    pub fn new(
        base_bag: &TileBag,
        player_1_setup: (DukeInitialLocation, FootmenSetup),
        player_2_setup: (DukeInitialLocation, FootmenSetup),
    ) -> (r: GameState)
        requires
            spec_bag_wf(*base_bag),
        ensures
            r.wf(),
            r.spec_turn() == Owner::TopPlayer,
            r.spec_pulled() is None,
            r.spec_stack() == seq![0usize],
            crate::board_setup::spec_opening(r.spec_map(), player_1_setup, player_2_setup),
            r.spec_top_bag().spec_tiles().len() == base_bag.spec_tiles().len(),
            forall|i: int|
                0 <= i < base_bag.spec_tiles().len() ==> (
                #[trigger] r.spec_top_bag().spec_tiles()[i])@ == base_bag.spec_tiles()[i]@,
            r.spec_bottom_bag().spec_tiles().len() == base_bag.spec_tiles().len(),
            forall|i: int|
                0 <= i < base_bag.spec_tiles().len() ==> (
                #[trigger] r.spec_bottom_bag().spec_tiles()[i])@ == base_bag.spec_tiles()[i]@,
            r.spec_top_discard().spec_tiles().len() == 0,
            r.spec_bottom_discard().spec_tiles().len() == 0,
    {
        let board = setup(player_1_setup, player_2_setup);
        GameState::from_board_with_bag(board, Owner::TopPlayer, base_bag.duplicate())
    }

    pub fn duke_coordinate(&self, o: Owner) -> (r: Coordinates)
        requires
            self.wf(),
        ensures
            r == map_duke_coords(self.spec_map(), o),
    {
        proof {
            assert(map_has_duke(self.spec_map(), o));
        }
        self.board.duke_coordinates(o)
    }

    pub fn current_duke_coordinate(&self) -> (r: Coordinates)
        requires
            self.wf(),
        ensures
            r == map_duke_coords(self.spec_map(), self.spec_turn()),
    {
        self.duke_coordinate(self.current_player_turn)
    }

    pub fn empty_spaces_near_current_duke(&self) -> (r: Vec<Coordinates>)
        requires
            self.wf(),
        ensures
            forall|i: int|
                #![trigger r@[i]]
                0 <= i < r@.len() ==> exists|offset: DukeOffset|
                    #![auto]
                    spec_absolute_offset(offset, map_duke_coords(self.spec_map(), self.spec_turn()))
                        == Some(r@[i]) && !self.spec_map().dom().contains(r@[i]),
            forall|offset: DukeOffset|
                #[trigger] map_placement_cell_free(self.spec_map(), self.spec_turn(), offset)
                    ==> exists|i: int|
                    0 <= i < r@.len() && Some(#[trigger] r@[i]) == spec_absolute_offset(
                        offset,
                        map_duke_coords(self.spec_map(), self.spec_turn()),
                    ),
    {
        let r = self.board.empty_spaces_near_current_duke(self.current_player_turn);
        proof {
            assert forall|i: int| #![trigger r@[i]] 0 <= i < r@.len() implies exists|
                off2: DukeOffset,
            |
                #![auto]
                spec_absolute_offset(off2, map_duke_coords(self.spec_map(), self.spec_turn()))
                    == Some(r@[i]) && !self.spec_map().dom().contains(r@[i]) by {
                let off = choose|off: DukeOffset|
                    #![auto]
                    spec_absolute_offset(
                        off,
                        map_duke_coords(self.spec_game_board().spec_tiles_map(), self.spec_turn()),
                    ) == Some(r@[i]) && !self.spec_game_board().spec_tiles_map().dom().contains(
                        r@[i],
                    );
                assert(spec_absolute_offset(
                    off,
                    map_duke_coords(self.spec_map(), self.spec_turn()),
                ) == Some(r@[i]));
            }
        }
        r
    }

    pub fn get_tiles_for_owner(&self, o: Owner) -> (r: Vec<(Coordinates, &PlacedTile)>)
        requires
            self.wf(),
        ensures
            forall|i: int|
                0 <= i < r@.len() ==> {
                    &&& self.spec_map().dom().contains((#[trigger] r@[i]).0)
                    &&& self.spec_map()[r@[i].0] == *r@[i].1
                    &&& r@[i].1.owner == o
                },
            forall|c: Coordinates|
                #[trigger] self.spec_map().dom().contains(c) && self.spec_map()[c].owner == o
                    ==> exists|i: int| 0 <= i < r@.len() && (#[trigger] r@[i]).0 == c,
            forall|i: int, j: int| 0 <= i < j < r@.len() ==> r@[i].0 != r@[j].0,
    {
        self.board.get_tiles_for(o)
    }

    pub fn get_tiles_for_current_owner(&self) -> (r: Vec<(Coordinates, &PlacedTile)>)
        requires
            self.wf(),
        ensures
            forall|i: int|
                0 <= i < r@.len() ==> {
                    &&& self.spec_map().dom().contains((#[trigger] r@[i]).0)
                    &&& self.spec_map()[r@[i].0] == *r@[i].1
                    &&& r@[i].1.owner == self.spec_turn()
                },
    {
        self.get_tiles_for_owner(self.current_player_turn)
    }

    /// Every guard-safe move of the tile at `src`.
    pub fn get_legal_moves(&mut self, src: Coordinates) -> (r: Vec<(Coordinates, TileAction)>)
        requires
            old(self).wf(),
            on_board(src),
            old(self).spec_map().dom().contains(src),
        ensures
            final(self).wf(),
            same_state(*old(self), *final(self)),
            forall|i: int|
                0 <= i < r@.len() ==> {
                    &&& crate::game_board::map_move_enabled(
                        old(self).spec_map(),
                        src,
                        (#[trigger] r@[i]).0,
                        r@[i].1,
                    )
                    &&& !map_is_guard(
                        map_apply_action(old(self).spec_map(), src, r@[i].0),
                        old(self).spec_map()[src].owner,
                    )
                },
            forall|dst: Coordinates, a: TileAction|
                crate::game_board::map_move_enabled(old(self).spec_map(), src, dst, a)
                    && !map_is_guard(
                    map_apply_action(old(self).spec_map(), src, dst),
                    old(self).spec_map()[src].owner,
                ) ==> exists|i: int| 0 <= i < r@.len() && (#[trigger] r@[i]) == (dst, a),
            r@.no_duplicates(),
    {
        proof {
            assert(map_has_duke(self.spec_map(), self.spec_map()[src].owner)) by {
                let t = self.spec_map()[src];
                assert(t.owner == Owner::TopPlayer || t.owner == Owner::BottomPlayer);
            }
        }
        self.board.get_legal_moves(src)
    }

    /// Every move of the tile at `src`, ignoring guard safety.
    pub fn get_legal_moves_ignoring_guard(&self, src: Coordinates) -> (r: Vec<
        (Coordinates, TileAction),
    >)
        requires
            self.wf(),
            on_board(src),
            self.spec_map().dom().contains(src),
        ensures
            forall|i: int|
                0 <= i < r@.len() ==> crate::game_board::map_move_enabled(
                    self.spec_map(),
                    src,
                    (#[trigger] r@[i]).0,
                    r@[i].1,
                ),
            forall|dst: Coordinates, a: TileAction|
                crate::game_board::map_move_enabled(self.spec_map(), src, dst, a) ==> exists|i: int|
                    0 <= i < r@.len() && (#[trigger] r@[i]) == (dst, a),
            r@.no_duplicates(),
    {
        self.board.get_legal_moves_ignoring_guard(src)
    }

    /// Whether placing a drawn tile at the square the offset names is allowed
    /// for the player to move.
    pub fn is_valid_placement(&mut self, offset: DukeOffset) -> (r: bool)
        requires
            old(self).wf(),
        ensures
            final(self).wf(),
            same_state(*old(self), *final(self)),
            r == map_is_valid_placement(old(self).spec_map(), old(self).spec_turn(), offset),
    {
        let owner = self.current_player_turn;
        self.board.is_valid_placement(owner, offset)
    }

    /// Why a draw is currently allowed or blocked: the bag may be empty,
    /// every square next to the duke may be taken, or every free square may
    /// leave the duke in guard.
    pub open spec fn spec_can_pull(self) -> CanPullNewTileResult {
        if self.spec_bag_of(self.spec_turn()).spec_tiles().len() == 0 {
            CanPullNewTileResult::EmptyBag
        } else if !(exists|offset: DukeOffset|
        #[trigger] map_placement_cell_free(self.spec_map(), self.spec_turn(), offset)) {
            CanPullNewTileResult::NoSpaceNearDuke
        } else if !(exists|offset: DukeOffset|
        #[trigger] map_is_valid_placement(self.spec_map(), self.spec_turn(), offset)) {
            CanPullNewTileResult::DukeAlwaysInGuard
        } else {
            CanPullNewTileResult::OK
        }
    }

    pub fn can_pull_tile_from_bag(&mut self) -> (r: CanPullNewTileResult)
        requires
            old(self).wf(),
        ensures
            final(self).wf(),
            same_state(*old(self), *final(self)),
            r == old(self).spec_can_pull(),
    {
        let ghost m = self.spec_map();
        let ghost turn = self.spec_turn();
        if self.bag_for_current_player().is_empty() {
            return CanPullNewTileResult::EmptyBag;
        }
        if !self.board.can_place_new_tile_near_duke(self.current_player_turn) {
            return CanPullNewTileResult::NoSpaceNearDuke;
        }
        let offsets = DukeOffset::all();
        let mut k: usize = 0;
        let mut any = false;
        while k < 4
            invariant
                self.wf(),
                same_state(*old(self), *self),
                m == self.spec_map(),
                turn == self.spec_turn(),
                offsets@ == seq![
                    DukeOffset::Top,
                    DukeOffset::Bottom,
                    DukeOffset::Left,
                    DukeOffset::Right,
                ],
                k <= 4,
                any ==> exists|offset: DukeOffset|
                    #[trigger] map_is_valid_placement(m, turn, offset),
                !any ==> forall|j: int|
                    0 <= j < k ==> !map_is_valid_placement(m, turn, #[trigger] offsets@[j]),
            decreases 4 - k,
        {
            let offset = offsets[k];
            if self.is_valid_placement(offset) {
                any = true;
            }
            k = k + 1;
        }
        if any {
            CanPullNewTileResult::OK
        } else {
            proof {
                if exists|offset: DukeOffset|
                    #[trigger] map_is_valid_placement(m, turn, offset) {
                    let offset = choose|offset: DukeOffset|
                        #[trigger] map_is_valid_placement(m, turn, offset);
                    assert(offset == DukeOffset::Top || offset == DukeOffset::Bottom || offset
                        == DukeOffset::Left || offset == DukeOffset::Right);
                    assert(offset == offsets@[0] || offset == offsets@[1] || offset == offsets@[2]
                        || offset == offsets@[3]);
                    assert(false);
                }
            }
            CanPullNewTileResult::DukeAlwaysInGuard
        }
    }

    pub fn can_pull_tile_from_bag_bool(&mut self) -> (r: bool)
        requires
            old(self).wf(),
        ensures
            final(self).wf(),
            same_state(*old(self), *final(self)),
            r == (old(self).spec_can_pull() == CanPullNewTileResult::OK),
    {
        let c = self.can_pull_tile_from_bag();
        c == CanPullNewTileResult::OK
    }

    /// Draws a uniformly random tile from the current player's bag into the
    /// pending placement slot.
    pub fn pull_tile_from_bag(&mut self, rng: &mut StdRng)
        requires
            old(self).wf(),
            old(self).spec_can_pull() == CanPullNewTileResult::OK,
            old(self).spec_pulled() is None,
        ensures
            final(self).wf(),
            final(self).spec_game_board() == old(self).spec_game_board(),
            final(self).spec_turn() == old(self).spec_turn(),
            final(self).spec_stack() == old(self).spec_stack(),
            final(self).spec_top_discard() == old(self).spec_top_discard(),
            final(self).spec_bottom_discard() == old(self).spec_bottom_discard(),
            exists|i: int|
                #![trigger old(self).spec_bag_of(old(self).spec_turn()).spec_tiles()[i]]
                ({
                    let bag0 = old(self).spec_bag_of(old(self).spec_turn()).spec_tiles();
                    &&& 0 <= i < bag0.len()
                    &&& final(self).spec_pulled() == Some(bag0[i])
                    &&& final(self).spec_bag_of(old(self).spec_turn()).spec_tiles() == bag0.remove(
                        i,
                    )
                }),
            final(self).spec_bag_of(old(self).spec_turn().spec_next()) == old(self).spec_bag_of(
                old(self).spec_turn().spec_next(),
            ),
    {
        let result = match self.current_player_turn {
            Owner::TopPlayer => self.top_player_bag.pull(rng),
            Owner::BottomPlayer => self.bottom_player_bag.pull(rng),
        };
        match result {
            Some(t) => {
                self.pulled_tile = Some(t);
            },
            None => {
                proof {
                    assert(false);
                }
            },
        }
    }
}


impl GameState {
    /// Whether a requested move is allowed right now: placements need a
    /// drawn tile (or a drawable one) and a valid square; actions need an
    /// owned tile, an applicable action, and guard safety.
    pub open spec fn spec_can_make(self, gm: GameMove) -> bool {
        match gm {
            GameMove::PlaceNewTile(o) => self.spec_pulled() is Some && map_is_valid_placement(
                self.spec_map(),
                self.spec_turn(),
                o,
            ),
            GameMove::PullAndPlay(o) => self.spec_pulled() is None && self.spec_can_pull()
                == CanPullNewTileResult::OK && map_is_valid_placement(
                self.spec_map(),
                self.spec_turn(),
                o,
            ),
            GameMove::ApplyNonCommandTileAction { src, dst } => {
                &&& self.spec_pulled() is None
                &&& on_board(src)
                &&& on_board(dst)
                &&& self.spec_map().dom().contains(src)
                &&& self.spec_map()[src].owner == self.spec_turn()
                &&& map_classify(self.spec_map(), src, dst) != AppliedPubAction::Invalid
                &&& !map_is_guard(
                    map_apply_action(self.spec_map(), src, dst),
                    self.spec_turn(),
                )
            },
        }
    }

    pub fn can_make_a_move(&mut self, game_move: &GameMove) -> (r: bool)
        requires
            old(self).wf(),
        ensures
            final(self).wf(),
            same_state(*old(self), *final(self)),
            r == old(self).spec_can_make(*game_move),
    {
        match game_move {
            GameMove::PlaceNewTile(o) => {
                let waiting = match &self.pulled_tile {
                    Some(_) => true,
                    None => false,
                };
                waiting && self.is_valid_placement(*o)
            },
            GameMove::PullAndPlay(o) => {
                let waiting = match &self.pulled_tile {
                    Some(_) => true,
                    None => false,
                };
                if waiting {
                    return false;
                }
                self.can_pull_tile_from_bag_bool() && self.is_valid_placement(*o)
            },
            GameMove::ApplyNonCommandTileAction { src, dst } => {
                let waiting = match &self.pulled_tile {
                    Some(_) => true,
                    None => false,
                };
                if waiting {
                    return false;
                }
                if !(src.x < 6 && src.y < 6 && dst.x < 6 && dst.y < 6) {
                    return false;
                }
                let turn = self.current_player_turn;
                let owned: bool = match self.board.get(*src) {
                    Some(t) => t.owner == turn,
                    None => false,
                };
                if !owned {
                    return false;
                }
                if !self.board.can_move(*src, *dst) {
                    return false;
                }
                self.board.does_not_put_in_guard(*src, *dst, turn)
            },
        }
    }

    /// Carries out a requested move. Callers must have validated it, and an
    /// action may not capture a duke (a reachable opponent never offers one).
    /// The turn passes to the other player.
    pub fn make_a_move(&mut self, game_move: GameMove, rng: &mut StdRng)
        requires
            old(self).wf(),
            old(self).spec_can_make(game_move),
            old(self).spec_stack().last() < usize::MAX,
            match game_move {
                GameMove::ApplyNonCommandTileAction { src, dst } => !(old(
                    self,
                ).spec_map().dom().contains(dst) && old(self).spec_map()[dst].tile.spec_name()
                    == "Duke"@),
                _ => true,
            },
        ensures
            final(self).wf(),
            final(self).spec_turn() == old(self).spec_turn().spec_next(),
            final(self).spec_pulled() is None,
            final(self).spec_top_discard() == old(self).spec_top_discard(),
            final(self).spec_bottom_discard() == old(self).spec_bottom_discard(),
            match game_move {
                GameMove::PlaceNewTile(o) => {
                    &&& exists|p: PlacedTile|
                        #[trigger] spec_placed_for(
                            old(self).spec_pulled().unwrap(),
                            old(self).spec_turn(),
                            p,
                        ) && final(self).spec_map() == old(self).spec_map().insert(
                            spec_absolute_offset(
                                o,
                                map_duke_coords(old(self).spec_map(), old(self).spec_turn()),
                            ).unwrap(),
                            p,
                        )
                    &&& final(self).spec_stack() == old(self).spec_stack().push(0)
                    &&& final(self).spec_top_bag() == old(self).spec_top_bag()
                    &&& final(self).spec_bottom_bag() == old(self).spec_bottom_bag()
                },
                GameMove::PullAndPlay(o) => {
                    &&& exists|i: int, p: PlacedTile|
                        #![trigger spec_placed_for(
                            old(self).spec_bag_of(old(self).spec_turn()).spec_tiles()[i],
                            old(self).spec_turn(),
                            p,
                        )]
                        ({
                            let bag0 = old(self).spec_bag_of(old(self).spec_turn()).spec_tiles();
                            &&& 0 <= i < bag0.len()
                            &&& spec_placed_for(bag0[i], old(self).spec_turn(), p)
                            &&& final(self).spec_map() == old(self).spec_map().insert(
                                spec_absolute_offset(
                                    o,
                                    map_duke_coords(old(self).spec_map(), old(self).spec_turn()),
                                ).unwrap(),
                                p,
                            )
                            &&& final(self).spec_bag_of(old(self).spec_turn()).spec_tiles()
                                == bag0.remove(i)
                        })
                    &&& final(self).spec_stack() == old(self).spec_stack().push(0).push(0)
                    &&& final(self).spec_bag_of(old(self).spec_turn().spec_next()) == old(
                        self,
                    ).spec_bag_of(old(self).spec_turn().spec_next())
                },
                GameMove::ApplyNonCommandTileAction { src, dst } => {
                    &&& final(self).spec_map() == map_apply_action(old(self).spec_map(), src, dst)
                    &&& final(self).spec_top_bag() == old(self).spec_top_bag()
                    &&& final(self).spec_bottom_bag() == old(self).spec_bottom_bag()
                    &&& final(self).spec_stack() == (if old(self).spec_map().dom().contains(dst) {
                        old(self).spec_stack().push(0)
                    } else {
                        old(self).spec_stack().update(
                            old(self).spec_stack().len() - 1,
                            (old(self).spec_stack().last() + 1) as usize,
                        )
                    })
                },
            },
        decreases (match game_move {
            GameMove::PullAndPlay(_) => 1int,
            _ => 0int,
        }),
    {
        match game_move {
            GameMove::PullAndPlay(o) => {
                self.moves_without_capture_or_placement_stack.push(0);
                self.pull_tile_from_bag(rng);
                let ghost mid = *self;
                self.make_a_move(GameMove::PlaceNewTile(o), rng);
                proof {
                    let bag0 = old(self).spec_bag_of(old(self).spec_turn()).spec_tiles();
                    let i = choose|i: int|
                        #![trigger bag0[i]]
                        0 <= i < bag0.len() && mid.spec_pulled() == Some(bag0[i])
                            && mid.spec_bag_of(old(self).spec_turn()).spec_tiles() == bag0.remove(
                            i,
                        );
                    let p = choose|p: PlacedTile|
                        #[trigger] spec_placed_for(mid.spec_pulled().unwrap(), mid.spec_turn(), p)
                            && self.spec_map() == mid.spec_map().insert(
                            spec_absolute_offset(
                                o,
                                map_duke_coords(mid.spec_map(), mid.spec_turn()),
                            ).unwrap(),
                            p,
                        );
                    assert(spec_placed_for(bag0[i], old(self).spec_turn(), p));
                    assert(self.spec_stack() =~= old(self).spec_stack().push(0).push(0));
                }
            },
            GameMove::PlaceNewTile(o) => {
                self.moves_without_capture_or_placement_stack.push(0);
                let tile = match self.pulled_tile.take() {
                    Some(t) => t,
                    None => unreached(),
                };
                proof {
                    reveal(map_is_valid_placement);
                }
                self.board.make_a_move(
                    BoardMove::PlaceNewTile(tile, o, self.current_player_turn),
                );
                self.current_player_turn = self.current_player_turn.next_player();
                proof {
                    reveal(map_is_valid_placement);
                    let m0 = old(self).spec_map();
                    let turn = old(self).spec_turn();
                    let c = spec_absolute_offset(o, map_duke_coords(m0, turn)).unwrap();
                    assert(!m0.dom().contains(c));
                    let p = choose|p: PlacedTile|
                        #[trigger] spec_placed_for(old(self).spec_pulled().unwrap(), turn, p)
                            && self.spec_map() == m0.insert(c, p);
                    assert forall|o2: Owner|
                        map_has_duke(m0, o2) implies map_has_duke(self.spec_map(), o2) by {
                        let d = choose|d: Coordinates| map_duke_at(m0, d, o2);
                        assert(map_duke_at(m0, d, o2));
                        assert(d != c);
                        assert(map_duke_at(self.spec_map(), d, o2));
                    }
                    assert(self.spec_stack() =~= old(self).spec_stack().push(0));
                }
            },
            GameMove::ApplyNonCommandTileAction { src, dst } => {
                let capture: bool = match self.board.get(dst) {
                    Some(_) => true,
                    None => false,
                };
                if capture {
                    self.moves_without_capture_or_placement_stack.push(0);
                } else {
                    let last = self.moves_without_capture_or_placement_stack.len() - 1;
                    let v = self.moves_without_capture_or_placement_stack[last];
                    self.moves_without_capture_or_placement_stack.set(last, v + 1);
                }
                self.board.make_a_move(BoardMove::ApplyNonCommandTileAction { src, dst });
                self.current_player_turn = self.current_player_turn.next_player();
                proof {
                    let m0 = old(self).spec_map();
                    let turn = old(self).spec_turn();
                    crate::game_board::lemma_apply_keeps_duke(m0, src, dst, turn);
                    crate::game_board::lemma_classify_valid_facts(m0, src, dst);
                    let other = turn.spec_next();
                    let d = choose|d: Coordinates| map_duke_at(m0, d, other);
                    assert(map_duke_at(m0, d, other));
                    assert(d != src);
                    assert(d != dst);
                    assert(map_duke_at(self.spec_map(), d, other));
                    if !m0.dom().contains(dst) {
                        assert(self.spec_stack() =~= old(self).spec_stack().update(
                            old(self).spec_stack().len() - 1,
                            (old(self).spec_stack().last() + 1) as usize,
                        ));
                    }
                }
            },
        }
    }
}


impl GameState {
    /// A game is tied once the top counter frame reaches the no-progress
    /// threshold.
    pub fn is_tie(&self) -> (r: bool)
        requires
            self.wf(),
        ensures
            r == (self.spec_stack().last() >= MAX_MOVES_WITHOUT_CAPTURE_OR_PLACEMENT),
    {
        let last = self.moves_without_capture_or_placement_stack.len() - 1;
        self.moves_without_capture_or_placement_stack[last]
            >= MAX_MOVES_WITHOUT_CAPTURE_OR_PLACEMENT
    }

    /// Every move the current player may pick (placements included whenever
    /// their bag holds a tile).
    pub fn all_valid_game_moves_for_current_player(&mut self) -> (r: Vec<PossibleMove>)
        requires
            old(self).wf(),
        ensures
            final(self).wf(),
            same_state(*old(self), *final(self)),
            forall|i: int|
                0 <= i < r@.len() ==> map_possible_ok(
                    old(self).spec_map(),
                    old(self).spec_turn(),
                    #[trigger] r@[i],
                    old(self).spec_bag_of(old(self).spec_turn()).spec_tiles().len() > 0,
                    true,
                ),
            forall|offset: DukeOffset|
                old(self).spec_bag_of(old(self).spec_turn()).spec_tiles().len() > 0
                    && #[trigger] map_is_valid_placement(
                    old(self).spec_map(),
                    old(self).spec_turn(),
                    offset,
                ) ==> exists|i: int|
                    0 <= i < r@.len() && (#[trigger] r@[i]) == PossibleMove::PlaceNewTile(
                        offset,
                        old(self).spec_turn(),
                    ),
            forall|src: Coordinates, dst: Coordinates|
                on_board(src) && on_board(dst) && #[trigger] map_apply_ok(
                    old(self).spec_map(),
                    src,
                    dst,
                    old(self).spec_turn(),
                    true,
                ) ==> exists|i: int|
                    0 <= i < r@.len() && ((#[trigger] r@[i]) matches
                        PossibleMove::ApplyNonCommandTileAction { src: s2, dst: d2, capturing: _ }
                        && s2 == src && d2 == dst),
    {
        let o = self.current_player_turn;
        self.all_valid_game_moves_for(o)
    }

    /// Every move `o` may pick, with placements when the current player's bag
    /// holds a tile.
    pub fn all_valid_game_moves_for(&mut self, o: Owner) -> (r: Vec<PossibleMove>)
        requires
            old(self).wf(),
        ensures
            final(self).wf(),
            same_state(*old(self), *final(self)),
            forall|i: int|
                0 <= i < r@.len() ==> map_possible_ok(
                    old(self).spec_map(),
                    o,
                    #[trigger] r@[i],
                    old(self).spec_bag_of(o).spec_tiles().len() > 0,
                    true,
                ),
            forall|offset: DukeOffset|
                old(self).spec_bag_of(o).spec_tiles().len() > 0
                    && #[trigger] map_is_valid_placement(old(self).spec_map(), o, offset)
                    ==> exists|i: int|
                    0 <= i < r@.len() && (#[trigger] r@[i]) == PossibleMove::PlaceNewTile(
                        offset,
                        o,
                    ),
            forall|src: Coordinates, dst: Coordinates|
                on_board(src) && on_board(dst) && #[trigger] map_apply_ok(
                    old(self).spec_map(),
                    src,
                    dst,
                    o,
                    true,
                ) ==> exists|i: int|
                    0 <= i < r@.len() && ((#[trigger] r@[i]) matches
                        PossibleMove::ApplyNonCommandTileAction { src: s2, dst: d2, capturing: _ }
                        && s2 == src && d2 == dst),
    {
        let with_new = WithNewTiles(
            match o {
                Owner::TopPlayer => self.top_player_bag.non_empty(),
                Owner::BottomPlayer => self.bottom_player_bag.non_empty(),
            },
        );
        self.board.all_valid_moves(o, with_new)
    }

    /// Every move `o` may pick ignoring guard safety.
    pub fn all_valid_game_moves_for_ignoring_guard(&mut self, o: Owner) -> (r: Vec<PossibleMove>)
        requires
            old(self).wf(),
        ensures
            final(self).wf(),
            same_state(*old(self), *final(self)),
            forall|i: int|
                0 <= i < r@.len() ==> map_possible_ok(
                    old(self).spec_map(),
                    o,
                    #[trigger] r@[i],
                    old(self).spec_bag_of(o).spec_tiles().len() > 0,
                    false,
                ),
    {
        let with_new = WithNewTiles(
            match o {
                Owner::TopPlayer => self.top_player_bag.non_empty(),
                Owner::BottomPlayer => self.bottom_player_bag.non_empty(),
            },
        );
        self.board.all_valid_moves_ignoring_guard(o, with_new)
    }

    /// Whether the game has ended: the player to move has no move at all, or
    /// the tie threshold was reached.
    pub fn is_over(&mut self) -> (r: bool)
        requires
            old(self).wf(),
        ensures
            final(self).wf(),
            same_state(*old(self), *final(self)),
            r == (old(self).spec_stack().last() >= MAX_MOVES_WITHOUT_CAPTURE_OR_PLACEMENT
                || !old(self).spec_has_any_move()),
    {
        if self.is_tie() {
            return true;
        }
        let moves = self.all_valid_game_moves_for_current_player();
        proof {
            if moves@.len() > 0 {
                assert(map_possible_ok(
                    old(self).spec_map(),
                    old(self).spec_turn(),
                    moves@[0],
                    old(self).spec_bag_of(old(self).spec_turn()).spec_tiles().len() > 0,
                    true,
                ));
            }
            if old(self).spec_has_any_move() && moves@.len() == 0 {
                assert(false);
            }
        }
        moves.len() == 0
    }

    /// Whether the player to move has any move at all.
    pub open spec fn spec_has_any_move(self) -> bool {
        ||| (exists|offset: DukeOffset|
            self.spec_bag_of(self.spec_turn()).spec_tiles().len() > 0
                && #[trigger] map_is_valid_placement(self.spec_map(), self.spec_turn(), offset))
        ||| (exists|src: Coordinates, dst: Coordinates|
            on_board(src) && on_board(dst) && #[trigger] map_apply_ok(
                self.spec_map(),
                src,
                dst,
                self.spec_turn(),
                true,
            ))
    }

    /// The game's outcome: a tie once the no-progress threshold is reached,
    /// a win for the other player when the player to move has no move at all,
    /// and otherwise still ongoing.
    pub fn game_result(&mut self) -> (r: GameResult)
        requires
            old(self).wf(),
        ensures
            final(self).wf(),
            same_state(*old(self), *final(self)),
            r == (if old(self).spec_stack().last() >= MAX_MOVES_WITHOUT_CAPTURE_OR_PLACEMENT {
                GameResult::Tie
            } else if !old(self).spec_has_any_move() {
                GameResult::Won(old(self).spec_turn().spec_next())
            } else {
                GameResult::Ongoing
            }),
    {
        if self.is_tie() {
            GameResult::Tie
        } else if self.is_over() {
            GameResult::Won(self.current_player_turn.next_player())
        } else {
            GameResult::Ongoing
        }
    }
}


impl GameState {
    /// The reversal descriptor for a move about to be made, remembering what
    /// currently stands at an action's destination.
    pub fn to_undo(&self, mv: &GameMove) -> (r: PossibleMove)
        requires
            self.wf(),
            match *mv {
                GameMove::ApplyNonCommandTileAction { src, dst } => on_board(dst),
                _ => true,
            },
        ensures
            match *mv {
                GameMove::PlaceNewTile(o) => r == PossibleMove::PlaceNewTile(o, self.spec_turn()),
                GameMove::PullAndPlay(o) => r == PossibleMove::PlaceNewTile(o, self.spec_turn()),
                GameMove::ApplyNonCommandTileAction { src, dst } => (r matches
                    PossibleMove::ApplyNonCommandTileAction { src: s2, dst: d2, capturing } && s2
                    == src && d2 == dst && (match capturing {
                    Some(ct) => self.spec_map().dom().contains(dst) && ct@ == self.spec_map()[dst]@
                        && ct.wf(),
                    None => !self.spec_map().dom().contains(dst),
                })),
            },
    {
        match mv {
            GameMove::PlaceNewTile(o) => PossibleMove::PlaceNewTile(*o, self.current_player_turn),
            GameMove::PullAndPlay(o) => PossibleMove::PlaceNewTile(*o, self.current_player_turn),
            GameMove::ApplyNonCommandTileAction { src, dst } => {
                let capturing: Option<PlacedTile> = match self.board.get(*dst) {
                    Some(t) => Some(t.duplicate()),
                    None => None,
                };
                PossibleMove::ApplyNonCommandTileAction { src: *src, dst: *dst, capturing }
            },
        }
    }

    /// Reverses a completed move: the turn goes back, the counter frames are
    /// rewound, the board mutation is inverted, and an undone placement
    /// returns its tile (unmirrored) to the mover's bag.
    pub fn undo(&mut self, mv: PossibleMove)
        requires
            old(self).wf(),
            match mv {
                PossibleMove::PlaceNewTile(offset, owner) => {
                    &&& owner == old(self).spec_turn().spec_next()
                    &&& old(self).spec_stack().len() >= 3
                    &&& match spec_absolute_offset(
                        offset,
                        map_duke_coords(old(self).spec_map(), owner),
                    ) {
                        Some(c) => old(self).spec_map().dom().contains(c) && old(
                            self,
                        ).spec_map()[c].owner == owner && old(self).spec_map()[c].tile.spec_name()
                            != "Duke"@,
                        None => false,
                    }
                },
                PossibleMove::ApplyNonCommandTileAction { src, dst, capturing } => {
                    &&& on_board(src)
                    &&& on_board(dst)
                    &&& src != dst
                    &&& match capturing {
                        Some(ct) => ct.wf() && ct.tile.spec_name() != "Duke"@ && old(
                            self,
                        ).spec_stack().len() >= 2,
                        None => old(self).spec_stack().last() >= 1,
                    }
                    &&& if old(self).spec_map().dom().contains(dst) {
                        !old(self).spec_map().dom().contains(src) && old(
                            self,
                        ).spec_map()[dst].owner == old(self).spec_turn().spec_next()
                    } else {
                        old(self).spec_map().dom().contains(src) && capturing is Some && old(
                            self,
                        ).spec_map()[src].owner == old(self).spec_turn().spec_next()
                    }
                },
            },
        ensures
            final(self).wf(),
            final(self).spec_turn() == old(self).spec_turn().spec_next(),
            final(self).spec_pulled() == old(self).spec_pulled(),
            final(self).spec_top_discard() == old(self).spec_top_discard(),
            final(self).spec_bottom_discard() == old(self).spec_bottom_discard(),
            match mv {
                PossibleMove::PlaceNewTile(offset, owner) => {
                    let c = spec_absolute_offset(
                        offset,
                        map_duke_coords(old(self).spec_map(), owner),
                    ).unwrap();
                    &&& final(self).spec_map() == old(self).spec_map().remove(c)
                    &&& final(self).spec_stack() == old(self).spec_stack().drop_last().drop_last()
                    &&& exists|t: Tile|
                        #![trigger old(self).spec_bag_of(owner).spec_tiles().push(t)]
                        ({
                            let placed = old(self).spec_map()[c];
                            &&& final(self).spec_bag_of(owner).spec_tiles() == old(
                                self,
                            ).spec_bag_of(owner).spec_tiles().push(t)
                            &&& t.wf()
                            &&& (placed.owner == Owner::BottomPlayer ==> t == placed.tile)
                            &&& (placed.owner == Owner::TopPlayer ==> crate::tile::spec_mirrored(
                                placed.tile,
                                t,
                            ))
                        })
                    &&& final(self).spec_bag_of(owner.spec_next()) == old(self).spec_bag_of(
                        owner.spec_next(),
                    )
                },
                PossibleMove::ApplyNonCommandTileAction { src, dst, capturing } => {
                    &&& final(self).spec_top_bag() == old(self).spec_top_bag()
                    &&& final(self).spec_bottom_bag() == old(self).spec_bottom_bag()
                    &&& final(self).spec_stack() == (match capturing {
                        Some(_) => old(self).spec_stack().drop_last(),
                        None => old(self).spec_stack().update(
                            old(self).spec_stack().len() - 1,
                            (old(self).spec_stack().last() - 1) as usize,
                        ),
                    })
                    &&& if old(self).spec_map().dom().contains(dst) {
                        final(self).spec_map() == (match capturing {
                            Some(ct) => old(self).spec_map().remove(dst).insert(
                                src,
                                map_flip_tile(old(self).spec_map()[dst]),
                            ).insert(dst, ct),
                            None => old(self).spec_map().remove(dst).insert(
                                src,
                                map_flip_tile(old(self).spec_map()[dst]),
                            ),
                        })
                    } else {
                        final(self).spec_map() == old(self).spec_map().insert(
                            src,
                            map_flip_tile(old(self).spec_map()[src]),
                        ).insert(dst, capturing.unwrap())
                    }
                },
            },
    {
        self.current_player_turn = self.current_player_turn.next_player();
        match &mv {
            PossibleMove::PlaceNewTile(_, _) => {
                self.moves_without_capture_or_placement_stack.pop();
                self.moves_without_capture_or_placement_stack.pop();
                proof {
                    assert(self.spec_stack() =~= old(
                        self,
                    ).spec_stack().drop_last().drop_last());
                }
            },
            PossibleMove::ApplyNonCommandTileAction { capturing, .. } => {
                match capturing {
                    Some(_) => {
                        self.moves_without_capture_or_placement_stack.pop();
                        proof {
                            assert(self.spec_stack() =~= old(self).spec_stack().drop_last());
                        }
                    },
                    None => {
                        let last = self.moves_without_capture_or_placement_stack.len() - 1;
                        let v = self.moves_without_capture_or_placement_stack[last];
                        self.moves_without_capture_or_placement_stack.set(last, v - 1);
                    },
                }
            },
        }
        proof {
            match mv {
                PossibleMove::PlaceNewTile(offset, owner) => {
                    assert(map_has_duke(self.board.spec_tiles_map(), owner));
                },
                PossibleMove::ApplyNonCommandTileAction { .. } => (),
            }
        }
        proof {
            old(self).spec_game_board().lemma_wf_map();
        }
        let ghost mv0 = mv;
        let returned = self.board.undo(mv);
        match returned {
            Some(t) => {
                proof {
                    assert(t.wf());
                }
                let tile = match t.owner {
                    Owner::TopPlayer => t.tile.flip_vertical(),
                    Owner::BottomPlayer => t.tile,
                };
                proof {
                    assert(tile.spec_name() != "Duke"@);
                }
                match self.current_player_turn {
                    Owner::TopPlayer => self.top_player_bag.push(tile),
                    Owner::BottomPlayer => self.bottom_player_bag.push(tile),
                }
                proof {
                    assert(self.spec_bag_of(self.spec_turn()).spec_tiles() == old(
                        self,
                    ).spec_bag_of(self.spec_turn()).spec_tiles().push(tile));
                    let other = old(self).spec_turn().spec_next();
                    assert forall|o2: Owner|
                        map_has_duke(old(self).spec_map(), o2) implies map_has_duke(
                        self.spec_map(),
                        o2,
                    ) by {
                        let d = choose|d: Coordinates| map_duke_at(old(self).spec_map(), d, o2);
                        assert(map_duke_at(old(self).spec_map(), d, o2));
                        assert(map_duke_at(self.spec_map(), d, o2));
                    }
                }
            },
            None => {
                proof {
                    match mv0 {
                        PossibleMove::ApplyNonCommandTileAction { src, dst, capturing } => {
                            assert forall|o2: Owner|
                                map_has_duke(old(self).spec_map(), o2) implies map_has_duke(
                                self.spec_map(),
                                o2,
                            ) by {
                                let d = choose|d: Coordinates|
                                    map_duke_at(old(self).spec_map(), d, o2);
                                assert(map_duke_at(old(self).spec_map(), d, o2));
                                if old(self).spec_map().dom().contains(dst) {
                                    if d == dst {
                                        assert(map_duke_at(self.spec_map(), src, o2));
                                    } else {
                                        assert(d != src);
                                        assert(map_duke_at(self.spec_map(), d, o2));
                                    }
                                } else {
                                    if d == src {
                                        assert(map_duke_at(self.spec_map(), src, o2));
                                    } else {
                                        assert(d != dst);
                                        assert(map_duke_at(self.spec_map(), d, o2));
                                    }
                                }
                            }
                        },
                        PossibleMove::PlaceNewTile(..) => (),
                    }
                }
            },
        }
    }
}


impl GameState {
    /// A playable copy of this state: the same position, bags and counters by
    /// content.
    pub fn duplicate(&self) -> (r: GameState)
        requires
            self.wf(),
        ensures
            r.wf(),
            r.spec_turn() == self.spec_turn(),
            r.spec_pulled() is Some <==> self.spec_pulled() is Some,
            r.spec_stack() == self.spec_stack(),
    {
        let board = self.board.duplicate();
        proof {
            assert forall|o2: Owner|
                map_has_duke(self.spec_map(), o2) implies map_has_duke(
                board.spec_tiles_map(),
                o2,
            ) by {
                let d = choose|d: Coordinates| map_duke_at(self.spec_map(), d, o2);
                assert(map_duke_at(self.spec_map(), d, o2));
                assert(map_duke_at(board.spec_tiles_map(), d, o2));
            }
        }
        let pulled: Option<Tile> = match &self.pulled_tile {
            Some(t) => Some(t.duplicate()),
            None => None,
        };
        let mut stack: Vec<usize> = Vec::new();
        let mut i: usize = 0;
        while i < self.moves_without_capture_or_placement_stack.len()
            invariant
                i <= self.spec_stack().len(),
                stack@ == self.spec_stack().take(i as int),
            decreases self.spec_stack().len() - i,
        {
            stack.push(self.moves_without_capture_or_placement_stack[i]);
            proof {
                assert(stack@ =~= self.spec_stack().take(i + 1 as int));
            }
            i = i + 1;
        }
        proof {
            assert(stack@ =~= self.spec_stack());
        }
        GameState {
            board,
            pulled_tile: pulled,
            current_player_turn: self.current_player_turn,
            top_player_bag: self.top_player_bag.duplicate(),
            top_player_discard: self.top_player_discard.duplicate(),
            bottom_player_bag: self.bottom_player_bag.duplicate(),
            bottom_player_discard: self.bottom_player_discard.duplicate(),
            moves_without_capture_or_placement_stack: stack,
        }
    }
}


/// A requested move stays equally allowed on observably alike states.
pub proof fn lemma_can_make_same(gm: GameMove, s1: GameState, s2: GameState)
    requires
        same_state(s1, s2),
    ensures
        s1.spec_can_make(gm) == s2.spec_can_make(gm),
{
}

impl GameState {
    /// Whether placing a drawn tile at the square the offset names is allowed
    /// for the given player.
    pub fn is_valid_placement_for(&mut self, o: Owner, offset: DukeOffset) -> (r: bool)
        requires
            old(self).wf(),
        ensures
            final(self).wf(),
            same_state(*old(self), *final(self)),
            r == map_is_valid_placement(old(self).spec_map(), o, offset),
    {
        proof {
            assert(map_has_duke(self.spec_map(), o)) by {
                assert(o == Owner::TopPlayer || o == Owner::BottomPlayer);
            }
        }
        self.board.is_valid_placement(o, offset)
    }

    /// Whether the top no-progress counter can still grow.
    pub fn counter_below_limit(&self) -> (r: bool)
        requires
            self.wf(),
        ensures
            r == (self.spec_stack().last() < usize::MAX),
    {
        let last = self.moves_without_capture_or_placement_stack.len() - 1;
        self.moves_without_capture_or_placement_stack[last] < usize::MAX
    }
}

} // verus!
