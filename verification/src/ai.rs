//! Artificial players: a uniformly random player, integer board heuristics
//! with exact values, and a depth-bounded alpha-beta (negamax) player.

use rand::rngs::StdRng;
use vstd::prelude::*;

use crate::coordinates::Coordinates;
use crate::game_board::{
    map_apply_action, map_is_guard, map_is_valid_placement, map_move_enabled, map_possible_ok,
    DukeOffset, PossibleMove, TileMap,
};
use crate::rng::random_below;
use crate::state::{same_state, GameMove, GameState};
use crate::tile::Owner;
use crate::tile_side::TileAction;

verus! {

/// Counts are capped here so scores stay far from the integer limits.
pub const SCORE_CAP: usize = 1_000_000;

/// A value capped at [`SCORE_CAP`].
pub open spec fn spec_capped(v: int) -> int {
    if v <= SCORE_CAP as int {
        v
    } else {
        SCORE_CAP as int
    }
}

/// The guard-safe moves of the tile at `src`, as a set of tagged squares.
pub open spec fn spec_legal_move_set(m: TileMap, src: Coordinates) -> Set<
    (Coordinates, TileAction),
> {
    Set::new(
        |p: (Coordinates, TileAction)|
            map_move_enabled(m, src, p.0, p.1) && !map_is_guard(
                map_apply_action(m, src, p.0),
                m[src].owner,
            ),
    )
}

/// The squares held by `o`'s tiles.
pub open spec fn spec_owned_squares(m: TileMap, o: Owner) -> Set<Coordinates> {
    Set::new(|c: Coordinates| m.dom().contains(c) && m[c].owner == o)
}

/// The board square with scan index `i`, rows first.
pub open spec fn spec_square(i: int) -> Coordinates {
    Coordinates { x: (i % 6) as u16, y: (i / 6) as u16 }
}

/// The capped guard-safe move counts of `o`'s tiles on the first `i` squares.
pub open spec fn spec_mobility_upto(m: TileMap, o: Owner, i: int) -> int
    decreases i,
{
    if i <= 0 {
        0
    } else {
        spec_mobility_upto(m, o, i - 1) + (if m.dom().contains(spec_square(i - 1)) && m[spec_square(
            i - 1,
        )].owner == o {
            spec_capped(spec_legal_move_set(m, spec_square(i - 1)).len() as int)
        } else {
            0
        })
    }
}

/// How many of the four placement offsets are valid for `o`.
pub open spec fn spec_placement_count(m: TileMap, o: Owner) -> int {
    (if map_is_valid_placement(m, o, DukeOffset::Top) {
        1int
    } else {
        0
    }) + (if map_is_valid_placement(m, o, DukeOffset::Bottom) {
        1int
    } else {
        0
    }) + (if map_is_valid_placement(m, o, DukeOffset::Left) {
        1int
    } else {
        0
    }) + (if map_is_valid_placement(m, o, DukeOffset::Right) {
        1int
    } else {
        0
    })
}

/// The board features a heuristic player scores, as plain integers.
#[derive(Debug, PartialEq, Eq, Clone, Copy, Hash, Structural)]
pub enum Heuristics {
    DukeMovementOptions,
    TotalTilesOnBoard,
    TotalMovementOptions,
    DiscardedUnits,
}

/// The feature's value for `o` on a position: the duke's guard-safe move
/// count; ten points per tile on the board; the total guard-safe move count
/// plus the valid placements whenever `o`'s bag holds a tile; or fifteen
/// points against per discarded tile. Counts are capped at [`SCORE_CAP`].
pub open spec fn spec_feature_value(
    h: Heuristics,
    o: Owner,
    m: TileMap,
    bag_len: int,
    discard_len: int,
) -> int {
    match h {
        Heuristics::DukeMovementOptions => spec_capped(
            spec_legal_move_set(m, crate::game_board::map_duke_coords(m, o)).len() as int,
        ),
        Heuristics::TotalTilesOnBoard => 10 * spec_capped(spec_owned_squares(m, o).len() as int),
        Heuristics::TotalMovementOptions => spec_capped(
            spec_mobility_upto(m, o, 36) + (if bag_len > 0 {
                spec_placement_count(m, o)
            } else {
                0
            }),
        ),
        Heuristics::DiscardedUnits => -15 * spec_capped(discard_len),
    }
}

/// The feature's value for `o` in a game state.
pub open spec fn spec_feature_of(h: Heuristics, o: Owner, s: GameState) -> int {
    spec_feature_value(
        h,
        o,
        s.spec_map(),
        s.spec_bag_of(o).spec_tiles().len() as int,
        match o {
            Owner::TopPlayer => s.spec_top_discard().spec_tiles().len() as int,
            Owner::BottomPlayer => s.spec_bottom_discard().spec_tiles().len() as int,
        },
    )
}

/// The summed per-feature advantages of `owner` over the opponent.
pub open spec fn spec_heuristic_sum(hs: Seq<Heuristics>, owner: Owner, s: GameState) -> int
    decreases hs.len(),
{
    if hs.len() == 0 {
        0
    } else {
        spec_heuristic_sum(hs.drop_last(), owner, s) + (spec_feature_of(hs.last(), owner, s)
            - spec_feature_of(hs.last(), owner.spec_next(), s))
    }
}

/// A duplicate-free list enumerating exactly a set has the set's size.
proof fn lemma_count_by_list<A>(s: Seq<A>, set: Set<A>)
    requires
        s.no_duplicates(),
        forall|a: A| #[trigger] set.contains(a) <==> s.contains(a),
    ensures
        set.finite(),
        set.len() == s.len(),
{
    broadcast use vstd::seq_lib::seq_to_set_is_finite;

    s.unique_seq_to_set();
    assert(s.to_set() =~= set);
}

impl GameState {
    /// The capped number of guard-safe moves of the tile at `src`.
    fn capped_move_count(&mut self, src: Coordinates) -> (r: usize)
        requires
            old(self).wf(),
            crate::game_board::on_board(src),
            old(self).spec_map().dom().contains(src),
        ensures
            final(self).wf(),
            same_state(*old(self), *final(self)),
            r as int == spec_capped(
                spec_legal_move_set(old(self).spec_map(), src).len() as int,
            ),
    {
        let ghost m = self.spec_map();
        let moves = self.get_legal_moves(src);
        proof {
            assert forall|p: (Coordinates, TileAction)| #[trigger]
            spec_legal_move_set(m, src).contains(p) <==> moves@.contains(p) by {
                if spec_legal_move_set(m, src).contains(p) {
                    let i = choose|i: int| 0 <= i < moves@.len() && (#[trigger] moves@[i]) == p;
                    assert(moves@[i] == p);
                }
                if moves@.contains(p) {
                    let i = choose|i: int| 0 <= i < moves@.len() && (#[trigger] moves@[i]) == p;
                    assert(map_move_enabled(m, src, moves@[i].0, moves@[i].1));
                }
            }
            lemma_count_by_list(moves@, spec_legal_move_set(m, src));
        }
        if moves.len() <= SCORE_CAP {
            moves.len()
        } else {
            SCORE_CAP
        }
    }
}

impl Heuristics {
    /// The feature's score for one player; see [`spec_feature_value`].
    pub fn evaluate_for_owner(&self, o: Owner, gs: &mut GameState) -> (r: i64)
        requires
            old(gs).wf(),
        ensures
            final(gs).wf(),
            same_state(*old(gs), *final(gs)),
            r as int == spec_feature_of(*self, o, *old(gs)),
            -15_000_000 <= r <= 37_000_000,
    {
        let ghost m = gs.spec_map();
        match self {
            Heuristics::DukeMovementOptions => {
                proof {
                    gs.spec_game_board().lemma_wf_map();
                    assert(crate::game_board::map_has_duke(gs.spec_map(), o)) by {
                        assert(o == Owner::TopPlayer || o == Owner::BottomPlayer);
                    }
                }
                let duke = gs.duke_coordinate(o);
                proof {
                    crate::game_board::lemma_first_duke_exists(gs.spec_map(), o);
                    assert(gs.spec_map().dom().contains(duke));
                }
                let n = gs.capped_move_count(duke);
                n as i64
            },
            Heuristics::TotalTilesOnBoard => {
                let tiles = gs.get_tiles_for_owner(o);
                proof {
                    let ghost cs = Seq::new(tiles@.len(), |i: int| tiles@[i].0);
                    assert forall|c: Coordinates| #[trigger]
                    spec_owned_squares(m, o).contains(c) <==> cs.contains(c) by {
                        if spec_owned_squares(m, o).contains(c) {
                            let i = choose|i: int|
                                0 <= i < tiles@.len() && (#[trigger] tiles@[i]).0 == c;
                            assert(cs[i] == c);
                        }
                        if cs.contains(c) {
                            let i = choose|i: int| 0 <= i < cs.len() && (#[trigger] cs[i]) == c;
                            assert(tiles@[i].0 == c);
                        }
                    }
                    assert forall|i: int, j: int| 0 <= i < j < cs.len() implies #[trigger] cs[i]
                        != #[trigger] cs[j] by {
                        assert(tiles@[i].0 != tiles@[j].0);
                    }
                    assert(cs.no_duplicates());
                    lemma_count_by_list(cs, spec_owned_squares(m, o));
                }
                let n: i64 = if tiles.len() <= SCORE_CAP {
                    tiles.len() as i64
                } else {
                    SCORE_CAP as i64
                };
                10 * n
            },
            Heuristics::TotalMovementOptions => {
                let bag_non_empty = match o {
                    Owner::TopPlayer => gs.top_player_bag().non_empty(),
                    Owner::BottomPlayer => gs.bottom_player_bag().non_empty(),
                };
                let mut total: usize = 0;
                let mut i: usize = 0;
                while i < 36
                    invariant
                        gs.wf(),
                        same_state(*old(gs), *gs),
                        m == gs.spec_map(),
                        i <= 36,
                        total == spec_mobility_upto(m, o, i as int),
                        total <= i * SCORE_CAP,
                    decreases 36 - i,
                {
                    let sq = Coordinates { x: (i % 6) as u16, y: (i / 6) as u16 };
                    proof {
                        assert(sq == spec_square(i as int));
                        assert(crate::game_board::on_board(sq)) by {
                            assert(i / 6 < 6);
                        }
                    }
                    let owned: bool = match gs.get(sq) {
                        Some(t) => t.owner == o,
                        None => false,
                    };
                    if owned {
                        let n = gs.capped_move_count(sq);
                        proof {
                            assert((i + 1) * SCORE_CAP == i * SCORE_CAP + SCORE_CAP)
                                by (nonlinear_arith);
                        }
                        total = total + n;
                    } else {
                        proof {
                            assert((i + 1) * SCORE_CAP >= i * SCORE_CAP) by (nonlinear_arith);
                        }
                    }
                    i = i + 1;
                }
                let placements: usize = if bag_non_empty {
                    let a = if gs.is_valid_placement_for(o, DukeOffset::Top) {
                        1
                    } else {
                        0
                    };
                    let b = if gs.is_valid_placement_for(o, DukeOffset::Bottom) {
                        1
                    } else {
                        0
                    };
                    let c = if gs.is_valid_placement_for(o, DukeOffset::Left) {
                        1
                    } else {
                        0
                    };
                    let d = if gs.is_valid_placement_for(o, DukeOffset::Right) {
                        1
                    } else {
                        0
                    };
                    a + b + c + d
                } else {
                    0
                };
                let sum = total + placements;
                let r: i64 = if sum <= SCORE_CAP {
                    sum as i64
                } else {
                    SCORE_CAP as i64
                };
                r
            },
            Heuristics::DiscardedUnits => {
                let n = gs.discard_bag_for(o).len();
                let capped: i64 = if n <= SCORE_CAP {
                    n as i64
                } else {
                    SCORE_CAP as i64
                };
                -(15 * capped)
            },
        }
    }

    /// The feature's advantage for `owner` over the opponent.
    pub fn difference(&self, owner: Owner, gs: &mut GameState) -> (r: i64)
        requires
            old(gs).wf(),
        ensures
            final(gs).wf(),
            same_state(*old(gs), *final(gs)),
            r as int == spec_feature_of(*self, owner, *old(gs)) - spec_feature_of(
                *self,
                owner.spec_next(),
                *old(gs),
            ),
            -52_000_000 <= r <= 52_000_000,
    {
        let own = self.evaluate_for_owner(owner, gs);
        proof {
            lemma_feature_same(*self, owner.spec_next(), *old(gs), *gs);
        }
        let other = self.evaluate_for_owner(owner.next_player(), gs);
        own - other
    }
}

/// The feature value is the same on observably alike states.
proof fn lemma_feature_same(h: Heuristics, o: Owner, s1: GameState, s2: GameState)
    requires
        same_state(s1, s2),
    ensures
        spec_feature_of(h, o, s1) == spec_feature_of(h, o, s2),
{
}

/// The summed advantage is the same on observably alike states.
proof fn lemma_sum_same(hs: Seq<Heuristics>, o: Owner, s1: GameState, s2: GameState)
    requires
        same_state(s1, s2),
    ensures
        spec_heuristic_sum(hs, o, s1) == spec_heuristic_sum(hs, o, s2),
    decreases hs.len(),
{
    if hs.len() > 0 {
        lemma_sum_same(hs.drop_last(), o, s1, s2);
        lemma_feature_same(hs.last(), o, s1, s2);
        lemma_feature_same(hs.last(), o.spec_next(), s1, s2);
    }
}

/// Sum of the configured features' advantages for `owner`.
pub fn evaluate(heuristics: &Vec<Heuristics>, owner: Owner, gs: &mut GameState) -> (r: i64)
    requires
        old(gs).wf(),
        heuristics@.len() <= 1000,
    ensures
        final(gs).wf(),
        same_state(*old(gs), *final(gs)),
        r as int == spec_heuristic_sum(heuristics@, owner, *old(gs)),
{
    let mut r: i64 = 0;
    let mut i: usize = 0;
    while i < heuristics.len()
        invariant
            gs.wf(),
            same_state(*old(gs), *gs),
            i <= heuristics@.len(),
            heuristics@.len() <= 1000,
            r as int == spec_heuristic_sum(heuristics@.take(i as int), owner, *old(gs)),
            -52_000_000 * (i as int) <= r as int <= 52_000_000 * (i as int),
        decreases heuristics@.len() - i,
    {
        let h = heuristics[i];
        let ghost before = *gs;
        let d = h.difference(owner, gs);
        proof {
            lemma_feature_same(h, owner, before, *old(gs));
            lemma_feature_same(h, owner.spec_next(), before, *old(gs));
            assert(heuristics@.take(i + 1 as int).drop_last() =~= heuristics@.take(i as int));
            assert(heuristics@.take(i + 1 as int).last() == h);
        }
        proof {
            assert(52_000_000 * ((i + 1) as int) == 52_000_000 * (i as int) + 52_000_000)
                by (nonlinear_arith);
            assert(-52_000_000 * ((i + 1) as int) == -52_000_000 * (i as int) - 52_000_000)
                by (nonlinear_arith);
            assert(52_000_000 * (i as int) <= 52_000_000_000) by (nonlinear_arith)
                requires
                    0 <= i <= 1000,
            ;
        }
        r = r + d;
        i = i + 1;
    }
    proof {
        assert(heuristics@.take(heuristics@.len() as int) =~= heuristics@);
    }
    r
}


/// No guard-safe move of the player to move captures a duke; true whenever
/// the opponent's last move passed the guard check.
pub open spec fn spec_no_duke_capture(m: TileMap, turn: Owner) -> bool {
    forall|src: Coordinates, dst: Coordinates|
        crate::game_board::on_board(src) && crate::game_board::on_board(dst)
            && #[trigger] crate::game_board::map_apply_ok(m, src, dst, turn, true) ==> !(
        m.dom().contains(dst) && m[dst].tile.spec_name() == "Duke"@)
}

/// Applies an already chosen valid move to the live state and hands back its
/// undo descriptor.
fn apply_chosen_move(gs: &mut GameState, rng: &mut StdRng, mv: PossibleMove) -> (r: PossibleMove)
    requires
        old(gs).wf(),
        old(gs).spec_pulled() is None,
        old(gs).spec_stack().last() < usize::MAX,
        map_possible_ok(
            old(gs).spec_map(),
            old(gs).spec_turn(),
            mv,
            old(gs).spec_bag_of(old(gs).spec_turn()).spec_tiles().len() > 0,
            true,
        ),
        spec_no_duke_capture(old(gs).spec_map(), old(gs).spec_turn()),
    ensures
        final(gs).wf(),
        final(gs).spec_turn() == old(gs).spec_turn().spec_next(),
{
    let ghost m = gs.spec_map();
    let ghost turn = gs.spec_turn();
    let game_move: GameMove = match &mv {
        PossibleMove::PlaceNewTile(offset, _) => GameMove::PullAndPlay(*offset),
        PossibleMove::ApplyNonCommandTileAction { src, dst, .. } => {
            GameMove::ApplyNonCommandTileAction { src: *src, dst: *dst }
        },
    };
    let undo = gs.to_undo(&game_move);
    proof {
        reveal(map_is_valid_placement);
        match game_move {
            GameMove::PullAndPlay(offset) => {
                assert(map_is_valid_placement(m, turn, offset));
                assert(crate::game_board::map_placement_cell_free(m, turn, offset));
                assert(gs.spec_can_pull() == crate::state::CanPullNewTileResult::OK) by {
                    assert(crate::game_board::map_placement_cell_free(m, turn, offset));
                    assert(map_is_valid_placement(m, turn, offset));
                }
            },
            GameMove::ApplyNonCommandTileAction { src, dst } => {
                assert(crate::game_board::map_apply_ok(m, src, dst, turn, true));
                let a = choose|a: TileAction| map_move_enabled(m, src, dst, a);
                assert(map_move_enabled(m, src, dst, a));
            },
            GameMove::PlaceNewTile(..) => {
                assert(false);
            },
        }
        assert(gs.spec_can_make(game_move));
    }
    gs.make_a_move(game_move, rng);
    undo
}

/// A player picking uniformly among all valid moves.
pub struct StupidSyncAi {}

impl StupidSyncAi {
    /// A uniformly random valid move for the current player.
    pub fn get_next_move(&self, rng: &mut StdRng, gs: &mut GameState) -> (r: PossibleMove)
        requires
            old(gs).wf(),
            old(gs).spec_has_any_move(),
        ensures
            final(gs).wf(),
            same_state(*old(gs), *final(gs)),
            map_possible_ok(
                old(gs).spec_map(),
                old(gs).spec_turn(),
                r,
                old(gs).spec_bag_of(old(gs).spec_turn()).spec_tiles().len() > 0,
                true,
            ),
    {
        let mut moves = gs.all_valid_game_moves_for_current_player();
        proof {
            if moves@.len() == 0 {
                assert(false);
            }
        }
        let i = random_below(rng, moves.len());
        moves.remove(i)
    }

    /// Picks a move and applies it to the live state, handing back its undo
    /// descriptor.
    pub fn play_next_move(&self, rng: &mut StdRng, gs: &mut GameState) -> (r: PossibleMove)
        requires
            old(gs).wf(),
            old(gs).spec_has_any_move(),
            old(gs).spec_pulled() is None,
            old(gs).spec_stack().last() < usize::MAX,
            spec_no_duke_capture(old(gs).spec_map(), old(gs).spec_turn()),
        ensures
            final(gs).wf(),
            final(gs).spec_turn() == old(gs).spec_turn().spec_next(),
    {
        let mv = self.get_next_move(rng, gs);
        apply_chosen_move(gs, rng, mv)
    }
}

/// A score beyond any heuristic value, marking a lost position.
pub const WIN_SCORE: i64 = 1_000_000_000;

/// A depth-bounded negamax player over the configured heuristics, with a
/// random tie-break at the root.
pub struct HeuristicAlphaBetaPlayer {
    pub max_depth: u32,
    pub heuristics: Vec<Heuristics>,
}

impl HeuristicAlphaBetaPlayer {
    /// A player scoring with every feature, searching `max_depth` plies.
    pub fn all_heuristics_with_max_depth(max_depth: u32) -> (r: HeuristicAlphaBetaPlayer)
        ensures
            r.max_depth == max_depth,
            r.heuristics@ == seq![
                Heuristics::DukeMovementOptions,
                Heuristics::TotalTilesOnBoard,
                Heuristics::TotalMovementOptions,
                Heuristics::DiscardedUnits,
            ],
    {
        let mut heuristics: Vec<Heuristics> = Vec::new();
        heuristics.push(Heuristics::DukeMovementOptions);
        heuristics.push(Heuristics::TotalTilesOnBoard);
        heuristics.push(Heuristics::TotalMovementOptions);
        heuristics.push(Heuristics::DiscardedUnits);
        proof {
            assert(heuristics@ =~= seq![
                Heuristics::DukeMovementOptions,
                Heuristics::TotalTilesOnBoard,
                Heuristics::TotalMovementOptions,
                Heuristics::DiscardedUnits,
            ]);
        }
        HeuristicAlphaBetaPlayer { max_depth, heuristics }
    }

    /// Negamax value of the position for the player to move, searching
    /// `depth` plies on copies of the state. A position with no moves left
    /// scores as lost; a move onto a duke's square is skipped (a guard-checked
    /// opponent never offers one).
    fn negamax(&self, gs: &mut GameState, rng: &mut StdRng, depth: u32, alpha: i64, beta: i64)
        -> (r: i64)
        requires
            old(gs).wf(),
            self.heuristics@.len() <= 1000,
            -WIN_SCORE <= alpha <= WIN_SCORE,
            -WIN_SCORE <= beta <= WIN_SCORE,
        ensures
            final(gs).wf(),
            same_state(*old(gs), *final(gs)),
        decreases depth, 1int,
    {
        let moves = gs.all_valid_game_moves_for_current_player();
        if moves.len() == 0 {
            // The player to move has no move at all and loses.
            return -WIN_SCORE;
        }
        if depth == 0 {
            return evaluate(&self.heuristics, gs.current_player_turn(), gs);
        }
        let mut best: i64 = -WIN_SCORE;
        let mut alpha = alpha;
        let mut i: usize = 0;
        while i < moves.len()
            invariant
                gs.wf(),
                same_state(*old(gs), *gs),
                self.heuristics@.len() <= 1000,
                i <= moves@.len(),
                depth >= 1,
                -WIN_SCORE <= best <= WIN_SCORE,
                -WIN_SCORE <= alpha <= WIN_SCORE,
                -WIN_SCORE <= beta <= WIN_SCORE,
            decreases moves@.len() - i,
        {
            let value = self.search_move(gs, rng, &moves[i], depth, alpha, beta);
            if value > best {
                best = value;
            }
            if best > alpha {
                alpha = best;
            }
            if alpha >= beta {
                return best;
            }
            i = i + 1;
        }
        best
    }

    /// The negamax value of one candidate move, tried on a copy of the state.
    fn search_move(
        &self,
        gs: &mut GameState,
        rng: &mut StdRng,
        mv: &PossibleMove,
        depth: u32,
        alpha: i64,
        beta: i64,
    ) -> (r: i64)
        requires
            old(gs).wf(),
            self.heuristics@.len() <= 1000,
            depth >= 1,
            -WIN_SCORE <= alpha <= WIN_SCORE,
            -WIN_SCORE <= beta <= WIN_SCORE,
        ensures
            final(gs).wf(),
            same_state(*old(gs), *final(gs)),
            -WIN_SCORE <= r <= WIN_SCORE,
        decreases depth, 0int,
    {
        let game_move: GameMove = match mv {
            PossibleMove::PlaceNewTile(offset, _) => GameMove::PullAndPlay(*offset),
            PossibleMove::ApplyNonCommandTileAction { src, dst, .. } => {
                GameMove::ApplyNonCommandTileAction { src: *src, dst: *dst }
            },
        };
        let mut child = gs.duplicate();
        // The preconditions of `make_a_move` are re-established on the copy.
        let ghost checked = child;
        if !child.can_make_a_move(&game_move) {
            return -WIN_SCORE;
        }
        if let GameMove::ApplyNonCommandTileAction { dst, .. } = game_move {
            if !(dst.x < 6 && dst.y < 6) {
                return -WIN_SCORE;
            }
            let captures_duke: bool = match child.get(dst) {
                Some(t) => crate::units::is_duke(&t.tile),
                None => false,
            };
            if captures_duke {
                return -WIN_SCORE;
            }
        }
        let stack_ok = child.counter_below_limit();
        if !stack_ok {
            return -WIN_SCORE;
        }
        proof {
            crate::state::lemma_can_make_same(game_move, checked, child);
        }
        child.make_a_move(game_move, rng);
        let v = self.negamax(&mut child, rng, depth - 1, -beta, -alpha);
        if v <= -WIN_SCORE {
            WIN_SCORE
        } else if v >= WIN_SCORE {
            -WIN_SCORE
        } else {
            -v
        }
    }

    /// The best move found by the search; ties at the root break uniformly at
    /// random.
    pub fn get_next_move(&self, rng: &mut StdRng, gs: &mut GameState) -> (r: PossibleMove)
        requires
            old(gs).wf(),
            old(gs).spec_has_any_move(),
            self.heuristics@.len() <= 1000,
        ensures
            final(gs).wf(),
            same_state(*old(gs), *final(gs)),
            map_possible_ok(
                old(gs).spec_map(),
                old(gs).spec_turn(),
                r,
                old(gs).spec_bag_of(old(gs).spec_turn()).spec_tiles().len() > 0,
                true,
            ),
    {
        let mut moves = gs.all_valid_game_moves_for_current_player();
        proof {
            if moves@.len() == 0 {
                assert(false);
            }
        }
        let depth = if self.max_depth >= 1 {
            self.max_depth
        } else {
            1
        };
        let mut best_value: i64 = -WIN_SCORE - 1;
        let mut best_indices: Vec<usize> = Vec::new();
        let mut i: usize = 0;
        while i < moves.len()
            invariant
                gs.wf(),
                same_state(*old(gs), *gs),
                self.heuristics@.len() <= 1000,
                moves@.len() > 0,
                i <= moves@.len(),
                depth >= 1,
                forall|k: int| 0 <= k < best_indices@.len() ==> (#[trigger] best_indices@[k]) < i,
                best_value > -WIN_SCORE - 2,
                best_value > -WIN_SCORE - 1 ==> best_indices@.len() > 0,
                i > 0 ==> best_value >= -WIN_SCORE,
            decreases moves@.len() - i,
        {
            let value = self.search_move(gs, rng, &moves[i], depth, -WIN_SCORE, WIN_SCORE);
            if value > best_value {
                best_value = value;
                best_indices = Vec::new();
                best_indices.push(i);
            } else if value == best_value {
                best_indices.push(i);
            }
            i = i + 1;
        }
        proof {
            if best_indices@.len() == 0 {
                assert(false);
            }
        }
        let pick = random_below(rng, best_indices.len());
        let chosen = best_indices[pick];
        proof {
            assert(best_indices@[pick as int] < moves@.len());
        }
        moves.remove(chosen)
    }

    /// Picks the searched best move and applies it to the live state, handing
    /// back its undo descriptor.
    pub fn play_next_move(&self, rng: &mut StdRng, gs: &mut GameState) -> (r: PossibleMove)
        requires
            old(gs).wf(),
            old(gs).spec_has_any_move(),
            old(gs).spec_pulled() is None,
            old(gs).spec_stack().last() < usize::MAX,
            self.heuristics@.len() <= 1000,
            spec_no_duke_capture(old(gs).spec_map(), old(gs).spec_turn()),
        ensures
            final(gs).wf(),
            final(gs).spec_turn() == old(gs).spec_turn().spec_next(),
    {
        let mv = self.get_next_move(rng, gs);
        apply_chosen_move(gs, rng, mv)
    }
}

} // verus!
