//! The built-in tile roster.
//!
//! Each unit is authored from the bottom player's perspective as a pair of
//! tile sides, written out cell by cell. The duke is the key tile: a player
//! with no legal moves at all loses the game.

use vstd::prelude::*;

use crate::offset::{HorizontalOffset, Offsets, VerticalOffset};
use crate::tile::{Owner, PlacedTile, Tile};
use crate::tile_side::{
    lemma_list_unit_row_is, side_grid_is, spec_cells_ok, TileAction, TileSide,
};

verus! {

/// Whether a tile is the duke, which it is exactly when it carries the duke's
/// name.
pub fn is_duke(t: &Tile) -> (r: bool)
    ensures
        r == (t.spec_name() == "Duke"@),
{
    let duke_name: String = "Duke".to_owned();
    *t.get_name() == duke_name
}

/// The cells of the first side of the duke.
pub open spec fn duke_cells_a() -> Seq<(Offsets, TileAction)> {
    seq![
        (Offsets { x: HorizontalOffset::Left, y: VerticalOffset::Center }, TileAction::Slide),
        (Offsets { x: HorizontalOffset::Right, y: VerticalOffset::Center }, TileAction::Slide),
        (Offsets { x: HorizontalOffset::Center, y: VerticalOffset::Center }, TileAction::Unit),
    ]
}

fn duke_side_a() -> (r: TileSide)
    ensures
        r.valid_shape(),
        side_grid_is(r, duke_cells_a()),
{
    let mut cells: Vec<(Offsets, TileAction)> = Vec::new();
    cells.push((Offsets { x: HorizontalOffset::Left, y: VerticalOffset::Center }, TileAction::Slide));
    cells.push((Offsets { x: HorizontalOffset::Right, y: VerticalOffset::Center }, TileAction::Slide));
    cells.push((Offsets { x: HorizontalOffset::Center, y: VerticalOffset::Center }, TileAction::Unit));
    proof {
        assert(cells@ =~= duke_cells_a());
        lemma_list_unit_row_is(duke_cells_a(), 2);
        assert(spec_cells_ok(duke_cells_a()));
    }
    TileSide::build_side(cells)
}

/// The cells of the second side of the duke.
pub open spec fn duke_cells_b() -> Seq<(Offsets, TileAction)> {
    seq![
        (Offsets { x: HorizontalOffset::Center, y: VerticalOffset::Top }, TileAction::Slide),
        (Offsets { x: HorizontalOffset::Center, y: VerticalOffset::Bottom }, TileAction::Slide),
        (Offsets { x: HorizontalOffset::Center, y: VerticalOffset::Center }, TileAction::Unit),
    ]
}

fn duke_side_b() -> (r: TileSide)
    ensures
        r.valid_shape(),
        side_grid_is(r, duke_cells_b()),
{
    let mut cells: Vec<(Offsets, TileAction)> = Vec::new();
    cells.push((Offsets { x: HorizontalOffset::Center, y: VerticalOffset::Top }, TileAction::Slide));
    cells.push((Offsets { x: HorizontalOffset::Center, y: VerticalOffset::Bottom }, TileAction::Slide));
    cells.push((Offsets { x: HorizontalOffset::Center, y: VerticalOffset::Center }, TileAction::Unit));
    proof {
        assert(cells@ =~= duke_cells_b());
        lemma_list_unit_row_is(duke_cells_b(), 2);
        assert(spec_cells_ok(duke_cells_b()));
    }
    TileSide::build_side(cells)
}

pub fn duke() -> (r: Tile)
    ensures
        r.wf(),
        r.spec_name() == "Duke"@,
        side_grid_is(r.spec_side_a(), duke_cells_a()),
        side_grid_is(r.spec_side_b(), duke_cells_b()),
{
    Tile::new(duke_side_a(), duke_side_b(), "Duke")
}

/// The cells of the first side of the bowman.
pub open spec fn bowman_cells_a() -> Seq<(Offsets, TileAction)> {
    seq![
        (Offsets { x: HorizontalOffset::Center, y: VerticalOffset::Top }, TileAction::Move),
        (Offsets { x: HorizontalOffset::Center, y: VerticalOffset::FarBottom }, TileAction::Jump),
        (Offsets { x: HorizontalOffset::Left, y: VerticalOffset::Center }, TileAction::Move),
        (Offsets { x: HorizontalOffset::Right, y: VerticalOffset::Center }, TileAction::Move),
        (Offsets { x: HorizontalOffset::FarLeft, y: VerticalOffset::Center }, TileAction::Jump),
        (Offsets { x: HorizontalOffset::FarRight, y: VerticalOffset::Center }, TileAction::Jump),
        (Offsets { x: HorizontalOffset::Center, y: VerticalOffset::Center }, TileAction::Unit),
    ]
}

fn bowman_side_a() -> (r: TileSide)
    ensures
        r.valid_shape(),
        side_grid_is(r, bowman_cells_a()),
{
    let mut cells: Vec<(Offsets, TileAction)> = Vec::new();
    cells.push((Offsets { x: HorizontalOffset::Center, y: VerticalOffset::Top }, TileAction::Move));
    cells.push((Offsets { x: HorizontalOffset::Center, y: VerticalOffset::FarBottom }, TileAction::Jump));
    cells.push((Offsets { x: HorizontalOffset::Left, y: VerticalOffset::Center }, TileAction::Move));
    cells.push((Offsets { x: HorizontalOffset::Right, y: VerticalOffset::Center }, TileAction::Move));
    cells.push((Offsets { x: HorizontalOffset::FarLeft, y: VerticalOffset::Center }, TileAction::Jump));
    cells.push((Offsets { x: HorizontalOffset::FarRight, y: VerticalOffset::Center }, TileAction::Jump));
    cells.push((Offsets { x: HorizontalOffset::Center, y: VerticalOffset::Center }, TileAction::Unit));
    proof {
        assert(cells@ =~= bowman_cells_a());
        lemma_list_unit_row_is(bowman_cells_a(), 6);
        assert(spec_cells_ok(bowman_cells_a()));
    }
    TileSide::build_side(cells)
}

/// The cells of the second side of the bowman.
pub open spec fn bowman_cells_b() -> Seq<(Offsets, TileAction)> {
    seq![
        (Offsets { x: HorizontalOffset::Center, y: VerticalOffset::Top }, TileAction::Move),
        (Offsets { x: HorizontalOffset::Center, y: VerticalOffset::FarTop }, TileAction::Strike),
        (Offsets { x: HorizontalOffset::Left, y: VerticalOffset::Top }, TileAction::Strike),
        (Offsets { x: HorizontalOffset::Right, y: VerticalOffset::Top }, TileAction::Strike),
        (Offsets { x: HorizontalOffset::Left, y: VerticalOffset::Bottom }, TileAction::Move),
        (Offsets { x: HorizontalOffset::Right, y: VerticalOffset::Bottom }, TileAction::Move),
        (Offsets { x: HorizontalOffset::Center, y: VerticalOffset::Center }, TileAction::Unit),
    ]
}

fn bowman_side_b() -> (r: TileSide)
    ensures
        r.valid_shape(),
        side_grid_is(r, bowman_cells_b()),
{
    let mut cells: Vec<(Offsets, TileAction)> = Vec::new();
    cells.push((Offsets { x: HorizontalOffset::Center, y: VerticalOffset::Top }, TileAction::Move));
    cells.push((Offsets { x: HorizontalOffset::Center, y: VerticalOffset::FarTop }, TileAction::Strike));
    cells.push((Offsets { x: HorizontalOffset::Left, y: VerticalOffset::Top }, TileAction::Strike));
    cells.push((Offsets { x: HorizontalOffset::Right, y: VerticalOffset::Top }, TileAction::Strike));
    cells.push((Offsets { x: HorizontalOffset::Left, y: VerticalOffset::Bottom }, TileAction::Move));
    cells.push((Offsets { x: HorizontalOffset::Right, y: VerticalOffset::Bottom }, TileAction::Move));
    cells.push((Offsets { x: HorizontalOffset::Center, y: VerticalOffset::Center }, TileAction::Unit));
    proof {
        assert(cells@ =~= bowman_cells_b());
        lemma_list_unit_row_is(bowman_cells_b(), 6);
        assert(spec_cells_ok(bowman_cells_b()));
    }
    TileSide::build_side(cells)
}

pub fn bowman() -> (r: Tile)
    ensures
        r.wf(),
        r.spec_name() == "Bowman"@,
        side_grid_is(r.spec_side_a(), bowman_cells_a()),
        side_grid_is(r.spec_side_b(), bowman_cells_b()),
{
    Tile::new(bowman_side_a(), bowman_side_b(), "Bowman")
}

/// The cells of the first side of the footman.
pub open spec fn footman_cells_a() -> Seq<(Offsets, TileAction)> {
    seq![
        (Offsets { x: HorizontalOffset::Left, y: VerticalOffset::Center }, TileAction::Move),
        (Offsets { x: HorizontalOffset::Right, y: VerticalOffset::Center }, TileAction::Move),
        (Offsets { x: HorizontalOffset::Center, y: VerticalOffset::Top }, TileAction::Move),
        (Offsets { x: HorizontalOffset::Center, y: VerticalOffset::Bottom }, TileAction::Move),
        (Offsets { x: HorizontalOffset::Center, y: VerticalOffset::Center }, TileAction::Unit),
    ]
}

fn footman_side_a() -> (r: TileSide)
    ensures
        r.valid_shape(),
        side_grid_is(r, footman_cells_a()),
{
    let mut cells: Vec<(Offsets, TileAction)> = Vec::new();
    cells.push((Offsets { x: HorizontalOffset::Left, y: VerticalOffset::Center }, TileAction::Move));
    cells.push((Offsets { x: HorizontalOffset::Right, y: VerticalOffset::Center }, TileAction::Move));
    cells.push((Offsets { x: HorizontalOffset::Center, y: VerticalOffset::Top }, TileAction::Move));
    cells.push((Offsets { x: HorizontalOffset::Center, y: VerticalOffset::Bottom }, TileAction::Move));
    cells.push((Offsets { x: HorizontalOffset::Center, y: VerticalOffset::Center }, TileAction::Unit));
    proof {
        assert(cells@ =~= footman_cells_a());
        lemma_list_unit_row_is(footman_cells_a(), 4);
        assert(spec_cells_ok(footman_cells_a()));
    }
    TileSide::build_side(cells)
}

/// The cells of the second side of the footman.
pub open spec fn footman_cells_b() -> Seq<(Offsets, TileAction)> {
    seq![
        (Offsets { x: HorizontalOffset::Left, y: VerticalOffset::Top }, TileAction::Move),
        (Offsets { x: HorizontalOffset::Right, y: VerticalOffset::Top }, TileAction::Move),
        (Offsets { x: HorizontalOffset::Left, y: VerticalOffset::Bottom }, TileAction::Move),
        (Offsets { x: HorizontalOffset::Right, y: VerticalOffset::Bottom }, TileAction::Move),
        (Offsets { x: HorizontalOffset::Center, y: VerticalOffset::FarTop }, TileAction::Move),
        (Offsets { x: HorizontalOffset::Center, y: VerticalOffset::Center }, TileAction::Unit),
    ]
}

fn footman_side_b() -> (r: TileSide)
    ensures
        r.valid_shape(),
        side_grid_is(r, footman_cells_b()),
{
    let mut cells: Vec<(Offsets, TileAction)> = Vec::new();
    cells.push((Offsets { x: HorizontalOffset::Left, y: VerticalOffset::Top }, TileAction::Move));
    cells.push((Offsets { x: HorizontalOffset::Right, y: VerticalOffset::Top }, TileAction::Move));
    cells.push((Offsets { x: HorizontalOffset::Left, y: VerticalOffset::Bottom }, TileAction::Move));
    cells.push((Offsets { x: HorizontalOffset::Right, y: VerticalOffset::Bottom }, TileAction::Move));
    cells.push((Offsets { x: HorizontalOffset::Center, y: VerticalOffset::FarTop }, TileAction::Move));
    cells.push((Offsets { x: HorizontalOffset::Center, y: VerticalOffset::Center }, TileAction::Unit));
    proof {
        assert(cells@ =~= footman_cells_b());
        lemma_list_unit_row_is(footman_cells_b(), 5);
        assert(spec_cells_ok(footman_cells_b()));
    }
    TileSide::build_side(cells)
}

pub fn footman() -> (r: Tile)
    ensures
        r.wf(),
        r.spec_name() == "Footman"@,
        side_grid_is(r.spec_side_a(), footman_cells_a()),
        side_grid_is(r.spec_side_b(), footman_cells_b()),
{
    Tile::new(footman_side_a(), footman_side_b(), "Footman")
}

/// The cells of the first side of the dragoon.
pub open spec fn dragoon_cells_a() -> Seq<(Offsets, TileAction)> {
    seq![
        (Offsets { x: HorizontalOffset::Left, y: VerticalOffset::Center }, TileAction::Move),
        (Offsets { x: HorizontalOffset::Right, y: VerticalOffset::Center }, TileAction::Move),
        (Offsets { x: HorizontalOffset::FarLeft, y: VerticalOffset::FarTop }, TileAction::Strike),
        (Offsets { x: HorizontalOffset::FarRight, y: VerticalOffset::FarTop }, TileAction::Strike),
        (Offsets { x: HorizontalOffset::Center, y: VerticalOffset::FarTop }, TileAction::Strike),
        (Offsets { x: HorizontalOffset::Center, y: VerticalOffset::Center }, TileAction::Unit),
    ]
}

fn dragoon_side_a() -> (r: TileSide)
    ensures
        r.valid_shape(),
        side_grid_is(r, dragoon_cells_a()),
{
    let mut cells: Vec<(Offsets, TileAction)> = Vec::new();
    cells.push((Offsets { x: HorizontalOffset::Left, y: VerticalOffset::Center }, TileAction::Move));
    cells.push((Offsets { x: HorizontalOffset::Right, y: VerticalOffset::Center }, TileAction::Move));
    cells.push((Offsets { x: HorizontalOffset::FarLeft, y: VerticalOffset::FarTop }, TileAction::Strike));
    cells.push((Offsets { x: HorizontalOffset::FarRight, y: VerticalOffset::FarTop }, TileAction::Strike));
    cells.push((Offsets { x: HorizontalOffset::Center, y: VerticalOffset::FarTop }, TileAction::Strike));
    cells.push((Offsets { x: HorizontalOffset::Center, y: VerticalOffset::Center }, TileAction::Unit));
    proof {
        assert(cells@ =~= dragoon_cells_a());
        lemma_list_unit_row_is(dragoon_cells_a(), 5);
        assert(spec_cells_ok(dragoon_cells_a()));
    }
    TileSide::build_side(cells)
}

/// The cells of the second side of the dragoon.
pub open spec fn dragoon_cells_b() -> Seq<(Offsets, TileAction)> {
    seq![
        (Offsets { x: HorizontalOffset::Center, y: VerticalOffset::Top }, TileAction::Move),
        (Offsets { x: HorizontalOffset::Center, y: VerticalOffset::FarTop }, TileAction::Move),
        (Offsets { x: HorizontalOffset::Left, y: VerticalOffset::FarTop }, TileAction::Jump),
        (Offsets { x: HorizontalOffset::Right, y: VerticalOffset::FarTop }, TileAction::Jump),
        (Offsets { x: HorizontalOffset::Left, y: VerticalOffset::Bottom }, TileAction::Slide),
        (Offsets { x: HorizontalOffset::Right, y: VerticalOffset::Bottom }, TileAction::Slide),
        (Offsets { x: HorizontalOffset::Center, y: VerticalOffset::Center }, TileAction::Unit),
    ]
}

fn dragoon_side_b() -> (r: TileSide)
    ensures
        r.valid_shape(),
        side_grid_is(r, dragoon_cells_b()),
{
    let mut cells: Vec<(Offsets, TileAction)> = Vec::new();
    cells.push((Offsets { x: HorizontalOffset::Center, y: VerticalOffset::Top }, TileAction::Move));
    cells.push((Offsets { x: HorizontalOffset::Center, y: VerticalOffset::FarTop }, TileAction::Move));
    cells.push((Offsets { x: HorizontalOffset::Left, y: VerticalOffset::FarTop }, TileAction::Jump));
    cells.push((Offsets { x: HorizontalOffset::Right, y: VerticalOffset::FarTop }, TileAction::Jump));
    cells.push((Offsets { x: HorizontalOffset::Left, y: VerticalOffset::Bottom }, TileAction::Slide));
    cells.push((Offsets { x: HorizontalOffset::Right, y: VerticalOffset::Bottom }, TileAction::Slide));
    cells.push((Offsets { x: HorizontalOffset::Center, y: VerticalOffset::Center }, TileAction::Unit));
    proof {
        assert(cells@ =~= dragoon_cells_b());
        lemma_list_unit_row_is(dragoon_cells_b(), 6);
        assert(spec_cells_ok(dragoon_cells_b()));
    }
    TileSide::build_side(cells)
}

pub fn dragoon() -> (r: Tile)
    ensures
        r.wf(),
        r.spec_name() == "Dragoon"@,
        side_grid_is(r.spec_side_a(), dragoon_cells_a()),
        side_grid_is(r.spec_side_b(), dragoon_cells_b()),
{
    Tile::new(dragoon_side_a(), dragoon_side_b(), "Dragoon")
}

/// The cells of the first side of the assassin.
pub open spec fn assassin_cells_a() -> Seq<(Offsets, TileAction)> {
    seq![
        (Offsets { x: HorizontalOffset::FarLeft, y: VerticalOffset::FarBottom }, TileAction::JumpSlide),
        (Offsets { x: HorizontalOffset::FarRight, y: VerticalOffset::FarBottom }, TileAction::JumpSlide),
        (Offsets { x: HorizontalOffset::Center, y: VerticalOffset::FarTop }, TileAction::JumpSlide),
        (Offsets { x: HorizontalOffset::Center, y: VerticalOffset::Center }, TileAction::Unit),
    ]
}

fn assassin_side_a() -> (r: TileSide)
    ensures
        r.valid_shape(),
        side_grid_is(r, assassin_cells_a()),
{
    let mut cells: Vec<(Offsets, TileAction)> = Vec::new();
    cells.push((Offsets { x: HorizontalOffset::FarLeft, y: VerticalOffset::FarBottom }, TileAction::JumpSlide));
    cells.push((Offsets { x: HorizontalOffset::FarRight, y: VerticalOffset::FarBottom }, TileAction::JumpSlide));
    cells.push((Offsets { x: HorizontalOffset::Center, y: VerticalOffset::FarTop }, TileAction::JumpSlide));
    cells.push((Offsets { x: HorizontalOffset::Center, y: VerticalOffset::Center }, TileAction::Unit));
    proof {
        assert(cells@ =~= assassin_cells_a());
        lemma_list_unit_row_is(assassin_cells_a(), 3);
        assert(spec_cells_ok(assassin_cells_a()));
    }
    TileSide::build_side(cells)
}

/// The cells of the second side of the assassin.
pub open spec fn assassin_cells_b() -> Seq<(Offsets, TileAction)> {
    seq![
        (Offsets { x: HorizontalOffset::FarLeft, y: VerticalOffset::FarTop }, TileAction::JumpSlide),
        (Offsets { x: HorizontalOffset::FarRight, y: VerticalOffset::FarTop }, TileAction::JumpSlide),
        (Offsets { x: HorizontalOffset::Center, y: VerticalOffset::FarBottom }, TileAction::JumpSlide),
        (Offsets { x: HorizontalOffset::Center, y: VerticalOffset::Center }, TileAction::Unit),
    ]
}

fn assassin_side_b() -> (r: TileSide)
    ensures
        r.valid_shape(),
        side_grid_is(r, assassin_cells_b()),
{
    let mut cells: Vec<(Offsets, TileAction)> = Vec::new();
    cells.push((Offsets { x: HorizontalOffset::FarLeft, y: VerticalOffset::FarTop }, TileAction::JumpSlide));
    cells.push((Offsets { x: HorizontalOffset::FarRight, y: VerticalOffset::FarTop }, TileAction::JumpSlide));
    cells.push((Offsets { x: HorizontalOffset::Center, y: VerticalOffset::FarBottom }, TileAction::JumpSlide));
    cells.push((Offsets { x: HorizontalOffset::Center, y: VerticalOffset::Center }, TileAction::Unit));
    proof {
        assert(cells@ =~= assassin_cells_b());
        lemma_list_unit_row_is(assassin_cells_b(), 3);
        assert(spec_cells_ok(assassin_cells_b()));
    }
    TileSide::build_side(cells)
}

pub fn assassin() -> (r: Tile)
    ensures
        r.wf(),
        r.spec_name() == "Assassin"@,
        side_grid_is(r.spec_side_a(), assassin_cells_a()),
        side_grid_is(r.spec_side_b(), assassin_cells_b()),
{
    Tile::new(assassin_side_a(), assassin_side_b(), "Assassin")
}

/// The cells of the first side of the champion.
pub open spec fn champion_cells_a() -> Seq<(Offsets, TileAction)> {
    seq![
        (Offsets { x: HorizontalOffset::Left, y: VerticalOffset::Center }, TileAction::Move),
        (Offsets { x: HorizontalOffset::Right, y: VerticalOffset::Center }, TileAction::Move),
        (Offsets { x: HorizontalOffset::Center, y: VerticalOffset::Top }, TileAction::Move),
        (Offsets { x: HorizontalOffset::Center, y: VerticalOffset::Bottom }, TileAction::Move),
        (Offsets { x: HorizontalOffset::FarLeft, y: VerticalOffset::Center }, TileAction::Jump),
        (Offsets { x: HorizontalOffset::FarRight, y: VerticalOffset::Center }, TileAction::Jump),
        (Offsets { x: HorizontalOffset::Center, y: VerticalOffset::FarTop }, TileAction::Jump),
        (Offsets { x: HorizontalOffset::Center, y: VerticalOffset::FarBottom }, TileAction::Jump),
        (Offsets { x: HorizontalOffset::Center, y: VerticalOffset::Center }, TileAction::Unit),
    ]
}

fn champion_side_a() -> (r: TileSide)
    ensures
        r.valid_shape(),
        side_grid_is(r, champion_cells_a()),
{
    let mut cells: Vec<(Offsets, TileAction)> = Vec::new();
    cells.push((Offsets { x: HorizontalOffset::Left, y: VerticalOffset::Center }, TileAction::Move));
    cells.push((Offsets { x: HorizontalOffset::Right, y: VerticalOffset::Center }, TileAction::Move));
    cells.push((Offsets { x: HorizontalOffset::Center, y: VerticalOffset::Top }, TileAction::Move));
    cells.push((Offsets { x: HorizontalOffset::Center, y: VerticalOffset::Bottom }, TileAction::Move));
    cells.push((Offsets { x: HorizontalOffset::FarLeft, y: VerticalOffset::Center }, TileAction::Jump));
    cells.push((Offsets { x: HorizontalOffset::FarRight, y: VerticalOffset::Center }, TileAction::Jump));
    cells.push((Offsets { x: HorizontalOffset::Center, y: VerticalOffset::FarTop }, TileAction::Jump));
    cells.push((Offsets { x: HorizontalOffset::Center, y: VerticalOffset::FarBottom }, TileAction::Jump));
    cells.push((Offsets { x: HorizontalOffset::Center, y: VerticalOffset::Center }, TileAction::Unit));
    proof {
        assert(cells@ =~= champion_cells_a());
        lemma_list_unit_row_is(champion_cells_a(), 8);
        assert(spec_cells_ok(champion_cells_a()));
    }
    TileSide::build_side(cells)
}

/// The cells of the second side of the champion.
pub open spec fn champion_cells_b() -> Seq<(Offsets, TileAction)> {
    seq![
        (Offsets { x: HorizontalOffset::Left, y: VerticalOffset::Center }, TileAction::Strike),
        (Offsets { x: HorizontalOffset::Right, y: VerticalOffset::Center }, TileAction::Strike),
        (Offsets { x: HorizontalOffset::Center, y: VerticalOffset::Top }, TileAction::Strike),
        (Offsets { x: HorizontalOffset::Center, y: VerticalOffset::Bottom }, TileAction::Strike),
        (Offsets { x: HorizontalOffset::FarLeft, y: VerticalOffset::Center }, TileAction::Jump),
        (Offsets { x: HorizontalOffset::FarRight, y: VerticalOffset::Center }, TileAction::Jump),
        (Offsets { x: HorizontalOffset::Center, y: VerticalOffset::FarTop }, TileAction::Jump),
        (Offsets { x: HorizontalOffset::Center, y: VerticalOffset::FarBottom }, TileAction::Jump),
        (Offsets { x: HorizontalOffset::Center, y: VerticalOffset::Center }, TileAction::Unit),
    ]
}

fn champion_side_b() -> (r: TileSide)
    ensures
        r.valid_shape(),
        side_grid_is(r, champion_cells_b()),
{
    let mut cells: Vec<(Offsets, TileAction)> = Vec::new();
    cells.push((Offsets { x: HorizontalOffset::Left, y: VerticalOffset::Center }, TileAction::Strike));
    cells.push((Offsets { x: HorizontalOffset::Right, y: VerticalOffset::Center }, TileAction::Strike));
    cells.push((Offsets { x: HorizontalOffset::Center, y: VerticalOffset::Top }, TileAction::Strike));
    cells.push((Offsets { x: HorizontalOffset::Center, y: VerticalOffset::Bottom }, TileAction::Strike));
    cells.push((Offsets { x: HorizontalOffset::FarLeft, y: VerticalOffset::Center }, TileAction::Jump));
    cells.push((Offsets { x: HorizontalOffset::FarRight, y: VerticalOffset::Center }, TileAction::Jump));
    cells.push((Offsets { x: HorizontalOffset::Center, y: VerticalOffset::FarTop }, TileAction::Jump));
    cells.push((Offsets { x: HorizontalOffset::Center, y: VerticalOffset::FarBottom }, TileAction::Jump));
    cells.push((Offsets { x: HorizontalOffset::Center, y: VerticalOffset::Center }, TileAction::Unit));
    proof {
        assert(cells@ =~= champion_cells_b());
        lemma_list_unit_row_is(champion_cells_b(), 8);
        assert(spec_cells_ok(champion_cells_b()));
    }
    TileSide::build_side(cells)
}

pub fn champion() -> (r: Tile)
    ensures
        r.wf(),
        r.spec_name() == "Champion"@,
        side_grid_is(r.spec_side_a(), champion_cells_a()),
        side_grid_is(r.spec_side_b(), champion_cells_b()),
{
    Tile::new(champion_side_a(), champion_side_b(), "Champion")
}

/// The cells of the first side of the general.
pub open spec fn general_cells_a() -> Seq<(Offsets, TileAction)> {
    seq![
        (Offsets { x: HorizontalOffset::Center, y: VerticalOffset::Top }, TileAction::Move),
        (Offsets { x: HorizontalOffset::Center, y: VerticalOffset::Bottom }, TileAction::Move),
        (Offsets { x: HorizontalOffset::FarLeft, y: VerticalOffset::Center }, TileAction::Move),
        (Offsets { x: HorizontalOffset::FarRight, y: VerticalOffset::Center }, TileAction::Move),
        (Offsets { x: HorizontalOffset::Left, y: VerticalOffset::FarTop }, TileAction::Jump),
        (Offsets { x: HorizontalOffset::Right, y: VerticalOffset::FarTop }, TileAction::Jump),
        (Offsets { x: HorizontalOffset::Center, y: VerticalOffset::Center }, TileAction::Unit),
    ]
}

fn general_side_a() -> (r: TileSide)
    ensures
        r.valid_shape(),
        side_grid_is(r, general_cells_a()),
{
    let mut cells: Vec<(Offsets, TileAction)> = Vec::new();
    cells.push((Offsets { x: HorizontalOffset::Center, y: VerticalOffset::Top }, TileAction::Move));
    cells.push((Offsets { x: HorizontalOffset::Center, y: VerticalOffset::Bottom }, TileAction::Move));
    cells.push((Offsets { x: HorizontalOffset::FarLeft, y: VerticalOffset::Center }, TileAction::Move));
    cells.push((Offsets { x: HorizontalOffset::FarRight, y: VerticalOffset::Center }, TileAction::Move));
    cells.push((Offsets { x: HorizontalOffset::Left, y: VerticalOffset::FarTop }, TileAction::Jump));
    cells.push((Offsets { x: HorizontalOffset::Right, y: VerticalOffset::FarTop }, TileAction::Jump));
    cells.push((Offsets { x: HorizontalOffset::Center, y: VerticalOffset::Center }, TileAction::Unit));
    proof {
        assert(cells@ =~= general_cells_a());
        lemma_list_unit_row_is(general_cells_a(), 6);
        assert(spec_cells_ok(general_cells_a()));
    }
    TileSide::build_side(cells)
}

/// The cells of the second side of the general.
pub open spec fn general_cells_b() -> Seq<(Offsets, TileAction)> {
    seq![
        (Offsets { x: HorizontalOffset::Center, y: VerticalOffset::Top }, TileAction::Move),
        (Offsets { x: HorizontalOffset::FarLeft, y: VerticalOffset::Center }, TileAction::Move),
        (Offsets { x: HorizontalOffset::FarRight, y: VerticalOffset::Center }, TileAction::Move),
        (Offsets { x: HorizontalOffset::Left, y: VerticalOffset::FarTop }, TileAction::Jump),
        (Offsets { x: HorizontalOffset::Right, y: VerticalOffset::FarTop }, TileAction::Jump),
        (Offsets { x: HorizontalOffset::Left, y: VerticalOffset::Center }, TileAction::Command),
        (Offsets { x: HorizontalOffset::Right, y: VerticalOffset::Center }, TileAction::Command),
        (Offsets { x: HorizontalOffset::Center, y: VerticalOffset::Bottom }, TileAction::Command),
        (Offsets { x: HorizontalOffset::Left, y: VerticalOffset::Bottom }, TileAction::Command),
        (Offsets { x: HorizontalOffset::Right, y: VerticalOffset::Bottom }, TileAction::Command),
        (Offsets { x: HorizontalOffset::Center, y: VerticalOffset::Center }, TileAction::Unit),
    ]
}

fn general_side_b() -> (r: TileSide)
    ensures
        r.valid_shape(),
        side_grid_is(r, general_cells_b()),
{
    let mut cells: Vec<(Offsets, TileAction)> = Vec::new();
    cells.push((Offsets { x: HorizontalOffset::Center, y: VerticalOffset::Top }, TileAction::Move));
    cells.push((Offsets { x: HorizontalOffset::FarLeft, y: VerticalOffset::Center }, TileAction::Move));
    cells.push((Offsets { x: HorizontalOffset::FarRight, y: VerticalOffset::Center }, TileAction::Move));
    cells.push((Offsets { x: HorizontalOffset::Left, y: VerticalOffset::FarTop }, TileAction::Jump));
    cells.push((Offsets { x: HorizontalOffset::Right, y: VerticalOffset::FarTop }, TileAction::Jump));
    cells.push((Offsets { x: HorizontalOffset::Left, y: VerticalOffset::Center }, TileAction::Command));
    cells.push((Offsets { x: HorizontalOffset::Right, y: VerticalOffset::Center }, TileAction::Command));
    cells.push((Offsets { x: HorizontalOffset::Center, y: VerticalOffset::Bottom }, TileAction::Command));
    cells.push((Offsets { x: HorizontalOffset::Left, y: VerticalOffset::Bottom }, TileAction::Command));
    cells.push((Offsets { x: HorizontalOffset::Right, y: VerticalOffset::Bottom }, TileAction::Command));
    cells.push((Offsets { x: HorizontalOffset::Center, y: VerticalOffset::Center }, TileAction::Unit));
    proof {
        assert(cells@ =~= general_cells_b());
        lemma_list_unit_row_is(general_cells_b(), 10);
        assert(spec_cells_ok(general_cells_b()));
    }
    TileSide::build_side(cells)
}

pub fn general() -> (r: Tile)
    ensures
        r.wf(),
        r.spec_name() == "General"@,
        side_grid_is(r.spec_side_a(), general_cells_a()),
        side_grid_is(r.spec_side_b(), general_cells_b()),
{
    Tile::new(general_side_a(), general_side_b(), "General")
}

/// The cells of the first side of the marshall.
pub open spec fn marshall_cells_a() -> Seq<(Offsets, TileAction)> {
    seq![
        (Offsets { x: HorizontalOffset::FarLeft, y: VerticalOffset::FarTop }, TileAction::Jump),
        (Offsets { x: HorizontalOffset::FarRight, y: VerticalOffset::FarTop }, TileAction::Jump),
        (Offsets { x: HorizontalOffset::Left, y: VerticalOffset::Center }, TileAction::Slide),
        (Offsets { x: HorizontalOffset::Right, y: VerticalOffset::Center }, TileAction::Slide),
        (Offsets { x: HorizontalOffset::Center, y: VerticalOffset::FarBottom }, TileAction::Jump),
        (Offsets { x: HorizontalOffset::Center, y: VerticalOffset::Center }, TileAction::Unit),
    ]
}

fn marshall_side_a() -> (r: TileSide)
    ensures
        r.valid_shape(),
        side_grid_is(r, marshall_cells_a()),
{
    let mut cells: Vec<(Offsets, TileAction)> = Vec::new();
    cells.push((Offsets { x: HorizontalOffset::FarLeft, y: VerticalOffset::FarTop }, TileAction::Jump));
    cells.push((Offsets { x: HorizontalOffset::FarRight, y: VerticalOffset::FarTop }, TileAction::Jump));
    cells.push((Offsets { x: HorizontalOffset::Left, y: VerticalOffset::Center }, TileAction::Slide));
    cells.push((Offsets { x: HorizontalOffset::Right, y: VerticalOffset::Center }, TileAction::Slide));
    cells.push((Offsets { x: HorizontalOffset::Center, y: VerticalOffset::FarBottom }, TileAction::Jump));
    cells.push((Offsets { x: HorizontalOffset::Center, y: VerticalOffset::Center }, TileAction::Unit));
    proof {
        assert(cells@ =~= marshall_cells_a());
        lemma_list_unit_row_is(marshall_cells_a(), 5);
        assert(spec_cells_ok(marshall_cells_a()));
    }
    TileSide::build_side(cells)
}

/// The cells of the second side of the marshall.
pub open spec fn marshall_cells_b() -> Seq<(Offsets, TileAction)> {
    seq![
        (Offsets { x: HorizontalOffset::Left, y: VerticalOffset::Center }, TileAction::Move),
        (Offsets { x: HorizontalOffset::Right, y: VerticalOffset::Center }, TileAction::Move),
        (Offsets { x: HorizontalOffset::FarLeft, y: VerticalOffset::Center }, TileAction::Move),
        (Offsets { x: HorizontalOffset::FarRight, y: VerticalOffset::Center }, TileAction::Move),
        (Offsets { x: HorizontalOffset::Left, y: VerticalOffset::Bottom }, TileAction::Move),
        (Offsets { x: HorizontalOffset::Right, y: VerticalOffset::Bottom }, TileAction::Move),
        (Offsets { x: HorizontalOffset::Center, y: VerticalOffset::Top }, TileAction::Command),
        (Offsets { x: HorizontalOffset::Left, y: VerticalOffset::Top }, TileAction::Command),
        (Offsets { x: HorizontalOffset::Right, y: VerticalOffset::Top }, TileAction::Command),
        (Offsets { x: HorizontalOffset::Center, y: VerticalOffset::Center }, TileAction::Unit),
    ]
}

fn marshall_side_b() -> (r: TileSide)
    ensures
        r.valid_shape(),
        side_grid_is(r, marshall_cells_b()),
{
    let mut cells: Vec<(Offsets, TileAction)> = Vec::new();
    cells.push((Offsets { x: HorizontalOffset::Left, y: VerticalOffset::Center }, TileAction::Move));
    cells.push((Offsets { x: HorizontalOffset::Right, y: VerticalOffset::Center }, TileAction::Move));
    cells.push((Offsets { x: HorizontalOffset::FarLeft, y: VerticalOffset::Center }, TileAction::Move));
    cells.push((Offsets { x: HorizontalOffset::FarRight, y: VerticalOffset::Center }, TileAction::Move));
    cells.push((Offsets { x: HorizontalOffset::Left, y: VerticalOffset::Bottom }, TileAction::Move));
    cells.push((Offsets { x: HorizontalOffset::Right, y: VerticalOffset::Bottom }, TileAction::Move));
    cells.push((Offsets { x: HorizontalOffset::Center, y: VerticalOffset::Top }, TileAction::Command));
    cells.push((Offsets { x: HorizontalOffset::Left, y: VerticalOffset::Top }, TileAction::Command));
    cells.push((Offsets { x: HorizontalOffset::Right, y: VerticalOffset::Top }, TileAction::Command));
    cells.push((Offsets { x: HorizontalOffset::Center, y: VerticalOffset::Center }, TileAction::Unit));
    proof {
        assert(cells@ =~= marshall_cells_b());
        lemma_list_unit_row_is(marshall_cells_b(), 9);
        assert(spec_cells_ok(marshall_cells_b()));
    }
    TileSide::build_side(cells)
}

pub fn marshall() -> (r: Tile)
    ensures
        r.wf(),
        r.spec_name() == "Marshall"@,
        side_grid_is(r.spec_side_a(), marshall_cells_a()),
        side_grid_is(r.spec_side_b(), marshall_cells_b()),
{
    Tile::new(marshall_side_a(), marshall_side_b(), "Marshall")
}

/// The cells of the first side of the priest.
pub open spec fn priest_cells_a() -> Seq<(Offsets, TileAction)> {
    seq![
        (Offsets { x: HorizontalOffset::Left, y: VerticalOffset::Top }, TileAction::Slide),
        (Offsets { x: HorizontalOffset::Right, y: VerticalOffset::Top }, TileAction::Slide),
        (Offsets { x: HorizontalOffset::Left, y: VerticalOffset::Bottom }, TileAction::Slide),
        (Offsets { x: HorizontalOffset::Right, y: VerticalOffset::Bottom }, TileAction::Slide),
        (Offsets { x: HorizontalOffset::Center, y: VerticalOffset::Center }, TileAction::Unit),
    ]
}

fn priest_side_a() -> (r: TileSide)
    ensures
        r.valid_shape(),
        side_grid_is(r, priest_cells_a()),
{
    let mut cells: Vec<(Offsets, TileAction)> = Vec::new();
    cells.push((Offsets { x: HorizontalOffset::Left, y: VerticalOffset::Top }, TileAction::Slide));
    cells.push((Offsets { x: HorizontalOffset::Right, y: VerticalOffset::Top }, TileAction::Slide));
    cells.push((Offsets { x: HorizontalOffset::Left, y: VerticalOffset::Bottom }, TileAction::Slide));
    cells.push((Offsets { x: HorizontalOffset::Right, y: VerticalOffset::Bottom }, TileAction::Slide));
    cells.push((Offsets { x: HorizontalOffset::Center, y: VerticalOffset::Center }, TileAction::Unit));
    proof {
        assert(cells@ =~= priest_cells_a());
        lemma_list_unit_row_is(priest_cells_a(), 4);
        assert(spec_cells_ok(priest_cells_a()));
    }
    TileSide::build_side(cells)
}

/// The cells of the second side of the priest.
pub open spec fn priest_cells_b() -> Seq<(Offsets, TileAction)> {
    seq![
        (Offsets { x: HorizontalOffset::Left, y: VerticalOffset::Top }, TileAction::Move),
        (Offsets { x: HorizontalOffset::Right, y: VerticalOffset::Top }, TileAction::Move),
        (Offsets { x: HorizontalOffset::Left, y: VerticalOffset::Bottom }, TileAction::Move),
        (Offsets { x: HorizontalOffset::Right, y: VerticalOffset::Bottom }, TileAction::Move),
        (Offsets { x: HorizontalOffset::FarLeft, y: VerticalOffset::FarTop }, TileAction::Jump),
        (Offsets { x: HorizontalOffset::FarRight, y: VerticalOffset::FarTop }, TileAction::Jump),
        (Offsets { x: HorizontalOffset::FarLeft, y: VerticalOffset::FarBottom }, TileAction::Jump),
        (Offsets { x: HorizontalOffset::FarRight, y: VerticalOffset::FarBottom }, TileAction::Jump),
        (Offsets { x: HorizontalOffset::Center, y: VerticalOffset::Center }, TileAction::Unit),
    ]
}

fn priest_side_b() -> (r: TileSide)
    ensures
        r.valid_shape(),
        side_grid_is(r, priest_cells_b()),
{
    let mut cells: Vec<(Offsets, TileAction)> = Vec::new();
    cells.push((Offsets { x: HorizontalOffset::Left, y: VerticalOffset::Top }, TileAction::Move));
    cells.push((Offsets { x: HorizontalOffset::Right, y: VerticalOffset::Top }, TileAction::Move));
    cells.push((Offsets { x: HorizontalOffset::Left, y: VerticalOffset::Bottom }, TileAction::Move));
    cells.push((Offsets { x: HorizontalOffset::Right, y: VerticalOffset::Bottom }, TileAction::Move));
    cells.push((Offsets { x: HorizontalOffset::FarLeft, y: VerticalOffset::FarTop }, TileAction::Jump));
    cells.push((Offsets { x: HorizontalOffset::FarRight, y: VerticalOffset::FarTop }, TileAction::Jump));
    cells.push((Offsets { x: HorizontalOffset::FarLeft, y: VerticalOffset::FarBottom }, TileAction::Jump));
    cells.push((Offsets { x: HorizontalOffset::FarRight, y: VerticalOffset::FarBottom }, TileAction::Jump));
    cells.push((Offsets { x: HorizontalOffset::Center, y: VerticalOffset::Center }, TileAction::Unit));
    proof {
        assert(cells@ =~= priest_cells_b());
        lemma_list_unit_row_is(priest_cells_b(), 8);
        assert(spec_cells_ok(priest_cells_b()));
    }
    TileSide::build_side(cells)
}

pub fn priest() -> (r: Tile)
    ensures
        r.wf(),
        r.spec_name() == "Priest"@,
        side_grid_is(r.spec_side_a(), priest_cells_a()),
        side_grid_is(r.spec_side_b(), priest_cells_b()),
{
    Tile::new(priest_side_a(), priest_side_b(), "Priest")
}

/// The cells of the first side of the longbowman.
pub open spec fn longbowman_cells_a() -> Seq<(Offsets, TileAction)> {
    seq![
        (Offsets { x: HorizontalOffset::Center, y: VerticalOffset::Bottom }, TileAction::Unit),
        (Offsets { x: HorizontalOffset::Center, y: VerticalOffset::Center }, TileAction::Move),
        (Offsets { x: HorizontalOffset::Center, y: VerticalOffset::FarBottom }, TileAction::Move),
        (Offsets { x: HorizontalOffset::Left, y: VerticalOffset::Bottom }, TileAction::Move),
        (Offsets { x: HorizontalOffset::Right, y: VerticalOffset::Bottom }, TileAction::Move),
    ]
}

fn longbowman_side_a() -> (r: TileSide)
    ensures
        r.valid_shape(),
        side_grid_is(r, longbowman_cells_a()),
{
    let mut cells: Vec<(Offsets, TileAction)> = Vec::new();
    cells.push((Offsets { x: HorizontalOffset::Center, y: VerticalOffset::Bottom }, TileAction::Unit));
    cells.push((Offsets { x: HorizontalOffset::Center, y: VerticalOffset::Center }, TileAction::Move));
    cells.push((Offsets { x: HorizontalOffset::Center, y: VerticalOffset::FarBottom }, TileAction::Move));
    cells.push((Offsets { x: HorizontalOffset::Left, y: VerticalOffset::Bottom }, TileAction::Move));
    cells.push((Offsets { x: HorizontalOffset::Right, y: VerticalOffset::Bottom }, TileAction::Move));
    proof {
        assert(cells@ =~= longbowman_cells_a());
        lemma_list_unit_row_is(longbowman_cells_a(), 0);
        assert(spec_cells_ok(longbowman_cells_a()));
    }
    TileSide::build_side(cells)
}

/// The cells of the second side of the longbowman.
pub open spec fn longbowman_cells_b() -> Seq<(Offsets, TileAction)> {
    seq![
        (Offsets { x: HorizontalOffset::Center, y: VerticalOffset::Bottom }, TileAction::Unit),
        (Offsets { x: HorizontalOffset::Left, y: VerticalOffset::FarBottom }, TileAction::Move),
        (Offsets { x: HorizontalOffset::Right, y: VerticalOffset::FarBottom }, TileAction::Move),
        (Offsets { x: HorizontalOffset::Center, y: VerticalOffset::Top }, TileAction::Strike),
        (Offsets { x: HorizontalOffset::Center, y: VerticalOffset::FarTop }, TileAction::Strike),
    ]
}

fn longbowman_side_b() -> (r: TileSide)
    ensures
        r.valid_shape(),
        side_grid_is(r, longbowman_cells_b()),
{
    let mut cells: Vec<(Offsets, TileAction)> = Vec::new();
    cells.push((Offsets { x: HorizontalOffset::Center, y: VerticalOffset::Bottom }, TileAction::Unit));
    cells.push((Offsets { x: HorizontalOffset::Left, y: VerticalOffset::FarBottom }, TileAction::Move));
    cells.push((Offsets { x: HorizontalOffset::Right, y: VerticalOffset::FarBottom }, TileAction::Move));
    cells.push((Offsets { x: HorizontalOffset::Center, y: VerticalOffset::Top }, TileAction::Strike));
    cells.push((Offsets { x: HorizontalOffset::Center, y: VerticalOffset::FarTop }, TileAction::Strike));
    proof {
        assert(cells@ =~= longbowman_cells_b());
        lemma_list_unit_row_is(longbowman_cells_b(), 0);
        assert(spec_cells_ok(longbowman_cells_b()));
    }
    TileSide::build_side(cells)
}

pub fn longbowman() -> (r: Tile)
    ensures
        r.wf(),
        r.spec_name() == "Longbowman"@,
        side_grid_is(r.spec_side_a(), longbowman_cells_a()),
        side_grid_is(r.spec_side_b(), longbowman_cells_b()),
{
    Tile::new(longbowman_side_a(), longbowman_side_b(), "Longbowman")
}

/// The cells of the first side of the knight.
pub open spec fn knight_cells_a() -> Seq<(Offsets, TileAction)> {
    seq![
        (Offsets { x: HorizontalOffset::Left, y: VerticalOffset::Center }, TileAction::Move),
        (Offsets { x: HorizontalOffset::Right, y: VerticalOffset::Center }, TileAction::Move),
        (Offsets { x: HorizontalOffset::Center, y: VerticalOffset::Bottom }, TileAction::Move),
        (Offsets { x: HorizontalOffset::Center, y: VerticalOffset::FarBottom }, TileAction::Move),
        (Offsets { x: HorizontalOffset::Left, y: VerticalOffset::FarTop }, TileAction::Jump),
        (Offsets { x: HorizontalOffset::Right, y: VerticalOffset::FarTop }, TileAction::Jump),
        (Offsets { x: HorizontalOffset::Center, y: VerticalOffset::Center }, TileAction::Unit),
    ]
}

fn knight_side_a() -> (r: TileSide)
    ensures
        r.valid_shape(),
        side_grid_is(r, knight_cells_a()),
{
    let mut cells: Vec<(Offsets, TileAction)> = Vec::new();
    cells.push((Offsets { x: HorizontalOffset::Left, y: VerticalOffset::Center }, TileAction::Move));
    cells.push((Offsets { x: HorizontalOffset::Right, y: VerticalOffset::Center }, TileAction::Move));
    cells.push((Offsets { x: HorizontalOffset::Center, y: VerticalOffset::Bottom }, TileAction::Move));
    cells.push((Offsets { x: HorizontalOffset::Center, y: VerticalOffset::FarBottom }, TileAction::Move));
    cells.push((Offsets { x: HorizontalOffset::Left, y: VerticalOffset::FarTop }, TileAction::Jump));
    cells.push((Offsets { x: HorizontalOffset::Right, y: VerticalOffset::FarTop }, TileAction::Jump));
    cells.push((Offsets { x: HorizontalOffset::Center, y: VerticalOffset::Center }, TileAction::Unit));
    proof {
        assert(cells@ =~= knight_cells_a());
        lemma_list_unit_row_is(knight_cells_a(), 6);
        assert(spec_cells_ok(knight_cells_a()));
    }
    TileSide::build_side(cells)
}

/// The cells of the second side of the knight.
pub open spec fn knight_cells_b() -> Seq<(Offsets, TileAction)> {
    seq![
        (Offsets { x: HorizontalOffset::Center, y: VerticalOffset::Top }, TileAction::Slide),
        (Offsets { x: HorizontalOffset::Left, y: VerticalOffset::Bottom }, TileAction::Move),
        (Offsets { x: HorizontalOffset::Right, y: VerticalOffset::Bottom }, TileAction::Move),
        (Offsets { x: HorizontalOffset::FarLeft, y: VerticalOffset::FarBottom }, TileAction::Move),
        (Offsets { x: HorizontalOffset::FarRight, y: VerticalOffset::FarBottom }, TileAction::Move),
        (Offsets { x: HorizontalOffset::Center, y: VerticalOffset::Center }, TileAction::Unit),
    ]
}

fn knight_side_b() -> (r: TileSide)
    ensures
        r.valid_shape(),
        side_grid_is(r, knight_cells_b()),
{
    let mut cells: Vec<(Offsets, TileAction)> = Vec::new();
    cells.push((Offsets { x: HorizontalOffset::Center, y: VerticalOffset::Top }, TileAction::Slide));
    cells.push((Offsets { x: HorizontalOffset::Left, y: VerticalOffset::Bottom }, TileAction::Move));
    cells.push((Offsets { x: HorizontalOffset::Right, y: VerticalOffset::Bottom }, TileAction::Move));
    cells.push((Offsets { x: HorizontalOffset::FarLeft, y: VerticalOffset::FarBottom }, TileAction::Move));
    cells.push((Offsets { x: HorizontalOffset::FarRight, y: VerticalOffset::FarBottom }, TileAction::Move));
    cells.push((Offsets { x: HorizontalOffset::Center, y: VerticalOffset::Center }, TileAction::Unit));
    proof {
        assert(cells@ =~= knight_cells_b());
        lemma_list_unit_row_is(knight_cells_b(), 5);
        assert(spec_cells_ok(knight_cells_b()));
    }
    TileSide::build_side(cells)
}

pub fn knight() -> (r: Tile)
    ensures
        r.wf(),
        r.spec_name() == "Knight"@,
        side_grid_is(r.spec_side_a(), knight_cells_a()),
        side_grid_is(r.spec_side_b(), knight_cells_b()),
{
    Tile::new(knight_side_a(), knight_side_b(), "Knight")
}

/// The cells of the first side of the pikeman.
pub open spec fn pikeman_cells_a() -> Seq<(Offsets, TileAction)> {
    seq![
        (Offsets { x: HorizontalOffset::Left, y: VerticalOffset::Top }, TileAction::Move),
        (Offsets { x: HorizontalOffset::Right, y: VerticalOffset::Top }, TileAction::Move),
        (Offsets { x: HorizontalOffset::FarLeft, y: VerticalOffset::FarTop }, TileAction::Move),
        (Offsets { x: HorizontalOffset::FarRight, y: VerticalOffset::FarTop }, TileAction::Move),
        (Offsets { x: HorizontalOffset::Center, y: VerticalOffset::Center }, TileAction::Unit),
    ]
}

fn pikeman_side_a() -> (r: TileSide)
    ensures
        r.valid_shape(),
        side_grid_is(r, pikeman_cells_a()),
{
    let mut cells: Vec<(Offsets, TileAction)> = Vec::new();
    cells.push((Offsets { x: HorizontalOffset::Left, y: VerticalOffset::Top }, TileAction::Move));
    cells.push((Offsets { x: HorizontalOffset::Right, y: VerticalOffset::Top }, TileAction::Move));
    cells.push((Offsets { x: HorizontalOffset::FarLeft, y: VerticalOffset::FarTop }, TileAction::Move));
    cells.push((Offsets { x: HorizontalOffset::FarRight, y: VerticalOffset::FarTop }, TileAction::Move));
    cells.push((Offsets { x: HorizontalOffset::Center, y: VerticalOffset::Center }, TileAction::Unit));
    proof {
        assert(cells@ =~= pikeman_cells_a());
        lemma_list_unit_row_is(pikeman_cells_a(), 4);
        assert(spec_cells_ok(pikeman_cells_a()));
    }
    TileSide::build_side(cells)
}

/// The cells of the second side of the pikeman.
pub open spec fn pikeman_cells_b() -> Seq<(Offsets, TileAction)> {
    seq![
        (Offsets { x: HorizontalOffset::Center, y: VerticalOffset::Top }, TileAction::Move),
        (Offsets { x: HorizontalOffset::Center, y: VerticalOffset::Bottom }, TileAction::Move),
        (Offsets { x: HorizontalOffset::Center, y: VerticalOffset::FarBottom }, TileAction::Move),
        (Offsets { x: HorizontalOffset::Left, y: VerticalOffset::FarTop }, TileAction::Strike),
        (Offsets { x: HorizontalOffset::Right, y: VerticalOffset::FarTop }, TileAction::Strike),
        (Offsets { x: HorizontalOffset::Center, y: VerticalOffset::Center }, TileAction::Unit),
    ]
}

fn pikeman_side_b() -> (r: TileSide)
    ensures
        r.valid_shape(),
        side_grid_is(r, pikeman_cells_b()),
{
    let mut cells: Vec<(Offsets, TileAction)> = Vec::new();
    cells.push((Offsets { x: HorizontalOffset::Center, y: VerticalOffset::Top }, TileAction::Move));
    cells.push((Offsets { x: HorizontalOffset::Center, y: VerticalOffset::Bottom }, TileAction::Move));
    cells.push((Offsets { x: HorizontalOffset::Center, y: VerticalOffset::FarBottom }, TileAction::Move));
    cells.push((Offsets { x: HorizontalOffset::Left, y: VerticalOffset::FarTop }, TileAction::Strike));
    cells.push((Offsets { x: HorizontalOffset::Right, y: VerticalOffset::FarTop }, TileAction::Strike));
    cells.push((Offsets { x: HorizontalOffset::Center, y: VerticalOffset::Center }, TileAction::Unit));
    proof {
        assert(cells@ =~= pikeman_cells_b());
        lemma_list_unit_row_is(pikeman_cells_b(), 5);
        assert(spec_cells_ok(pikeman_cells_b()));
    }
    TileSide::build_side(cells)
}

pub fn pikeman() -> (r: Tile)
    ensures
        r.wf(),
        r.spec_name() == "Pikeman"@,
        side_grid_is(r.spec_side_a(), pikeman_cells_a()),
        side_grid_is(r.spec_side_b(), pikeman_cells_b()),
{
    Tile::new(pikeman_side_a(), pikeman_side_b(), "Pikeman")
}

/// The cells of the first side of the wizard.
pub open spec fn wizard_cells_a() -> Seq<(Offsets, TileAction)> {
    seq![
        (Offsets { x: HorizontalOffset::Left, y: VerticalOffset::Center }, TileAction::Move),
        (Offsets { x: HorizontalOffset::Right, y: VerticalOffset::Center }, TileAction::Move),
        (Offsets { x: HorizontalOffset::Center, y: VerticalOffset::Top }, TileAction::Move),
        (Offsets { x: HorizontalOffset::Center, y: VerticalOffset::Bottom }, TileAction::Move),
        (Offsets { x: HorizontalOffset::Left, y: VerticalOffset::Top }, TileAction::Move),
        (Offsets { x: HorizontalOffset::Right, y: VerticalOffset::Top }, TileAction::Move),
        (Offsets { x: HorizontalOffset::Left, y: VerticalOffset::Bottom }, TileAction::Move),
        (Offsets { x: HorizontalOffset::Right, y: VerticalOffset::Bottom }, TileAction::Move),
        (Offsets { x: HorizontalOffset::Center, y: VerticalOffset::Center }, TileAction::Unit),
    ]
}

fn wizard_side_a() -> (r: TileSide)
    ensures
        r.valid_shape(),
        side_grid_is(r, wizard_cells_a()),
{
    let mut cells: Vec<(Offsets, TileAction)> = Vec::new();
    cells.push((Offsets { x: HorizontalOffset::Left, y: VerticalOffset::Center }, TileAction::Move));
    cells.push((Offsets { x: HorizontalOffset::Right, y: VerticalOffset::Center }, TileAction::Move));
    cells.push((Offsets { x: HorizontalOffset::Center, y: VerticalOffset::Top }, TileAction::Move));
    cells.push((Offsets { x: HorizontalOffset::Center, y: VerticalOffset::Bottom }, TileAction::Move));
    cells.push((Offsets { x: HorizontalOffset::Left, y: VerticalOffset::Top }, TileAction::Move));
    cells.push((Offsets { x: HorizontalOffset::Right, y: VerticalOffset::Top }, TileAction::Move));
    cells.push((Offsets { x: HorizontalOffset::Left, y: VerticalOffset::Bottom }, TileAction::Move));
    cells.push((Offsets { x: HorizontalOffset::Right, y: VerticalOffset::Bottom }, TileAction::Move));
    cells.push((Offsets { x: HorizontalOffset::Center, y: VerticalOffset::Center }, TileAction::Unit));
    proof {
        assert(cells@ =~= wizard_cells_a());
        lemma_list_unit_row_is(wizard_cells_a(), 8);
        assert(spec_cells_ok(wizard_cells_a()));
    }
    TileSide::build_side(cells)
}

/// The cells of the second side of the wizard.
pub open spec fn wizard_cells_b() -> Seq<(Offsets, TileAction)> {
    seq![
        (Offsets { x: HorizontalOffset::FarLeft, y: VerticalOffset::Center }, TileAction::Jump),
        (Offsets { x: HorizontalOffset::FarRight, y: VerticalOffset::Center }, TileAction::Jump),
        (Offsets { x: HorizontalOffset::Center, y: VerticalOffset::FarTop }, TileAction::Jump),
        (Offsets { x: HorizontalOffset::Center, y: VerticalOffset::FarBottom }, TileAction::Jump),
        (Offsets { x: HorizontalOffset::FarLeft, y: VerticalOffset::FarTop }, TileAction::Jump),
        (Offsets { x: HorizontalOffset::FarRight, y: VerticalOffset::FarTop }, TileAction::Jump),
        (Offsets { x: HorizontalOffset::FarLeft, y: VerticalOffset::FarBottom }, TileAction::Jump),
        (Offsets { x: HorizontalOffset::FarRight, y: VerticalOffset::FarBottom }, TileAction::Jump),
        (Offsets { x: HorizontalOffset::Center, y: VerticalOffset::Center }, TileAction::Unit),
    ]
}

fn wizard_side_b() -> (r: TileSide)
    ensures
        r.valid_shape(),
        side_grid_is(r, wizard_cells_b()),
{
    let mut cells: Vec<(Offsets, TileAction)> = Vec::new();
    cells.push((Offsets { x: HorizontalOffset::FarLeft, y: VerticalOffset::Center }, TileAction::Jump));
    cells.push((Offsets { x: HorizontalOffset::FarRight, y: VerticalOffset::Center }, TileAction::Jump));
    cells.push((Offsets { x: HorizontalOffset::Center, y: VerticalOffset::FarTop }, TileAction::Jump));
    cells.push((Offsets { x: HorizontalOffset::Center, y: VerticalOffset::FarBottom }, TileAction::Jump));
    cells.push((Offsets { x: HorizontalOffset::FarLeft, y: VerticalOffset::FarTop }, TileAction::Jump));
    cells.push((Offsets { x: HorizontalOffset::FarRight, y: VerticalOffset::FarTop }, TileAction::Jump));
    cells.push((Offsets { x: HorizontalOffset::FarLeft, y: VerticalOffset::FarBottom }, TileAction::Jump));
    cells.push((Offsets { x: HorizontalOffset::FarRight, y: VerticalOffset::FarBottom }, TileAction::Jump));
    cells.push((Offsets { x: HorizontalOffset::Center, y: VerticalOffset::Center }, TileAction::Unit));
    proof {
        assert(cells@ =~= wizard_cells_b());
        lemma_list_unit_row_is(wizard_cells_b(), 8);
        assert(spec_cells_ok(wizard_cells_b()));
    }
    TileSide::build_side(cells)
}

pub fn wizard() -> (r: Tile)
    ensures
        r.wf(),
        r.spec_name() == "Wizard"@,
        side_grid_is(r.spec_side_a(), wizard_cells_a()),
        side_grid_is(r.spec_side_b(), wizard_cells_b()),
{
    Tile::new(wizard_side_a(), wizard_side_b(), "Wizard")
}

/// Places a freshly built tile for an owner.
pub fn place_tile(o: Owner, t: Tile) -> (r: PlacedTile)
    requires
        t.wf(),
    ensures
        r.wf(),
        r.owner == o,
        r.current_side == crate::tile::CurrentSide::Initial,
        r.tile.spec_name() == t.spec_name(),
        o == Owner::BottomPlayer ==> r.tile == t,
        o == Owner::TopPlayer ==> crate::tile::spec_mirrored(t, r.tile),
{
    PlacedTile::new(o, t)
}

/// Places a freshly built tile for an owner, already turned to its flipped
/// side.
pub fn place_tile_flipped(o: Owner, t: Tile) -> (r: PlacedTile)
    requires
        t.wf(),
    ensures
        r.wf(),
        r.owner == o,
        r.current_side == crate::tile::CurrentSide::Flipped,
        r.tile.spec_name() == t.spec_name(),
        o == Owner::BottomPlayer ==> r.tile == t,
        o == Owner::TopPlayer ==> crate::tile::spec_mirrored(t, r.tile),
{
    let mut p = PlacedTile::new(o, t);
    p.flip();
    p
}

} // verus!
