use vstd::prelude::*;

use crate::moves::Side;

verus! {

// The quarter-turn tables. For each side, one clockwise quarter turn moves the
// piece found at slot `cycle[i]` into slot `i`, twisting corners by `twist[i]`
// thirds and flipping edges when `flip[i]` is one. Corner slots are numbered
// 0..8 (top layer 0..4, bottom layer 4..8), edge slots 0..12 (top 0..4,
// middle 4..8, bottom 8..12).

/// Corner slot sources for one clockwise quarter turn of a side.
pub open spec fn corner_cycle(s: Side) -> Seq<u8> {
    match s {
        Side::UP => seq![1u8, 2, 3, 0, 4, 5, 6, 7],
        Side::DOWN => seq![0u8, 1, 2, 3, 7, 4, 5, 6],
        Side::FRONT => seq![3u8, 1, 2, 7, 0, 5, 6, 4],
        Side::BACK => seq![0u8, 5, 1, 3, 4, 6, 2, 7],
        Side::RIGHT => seq![4u8, 0, 2, 3, 5, 1, 6, 7],
        Side::LEFT => seq![0u8, 1, 6, 2, 4, 5, 7, 3],
    }
}

/// Corner orientation deltas for one clockwise quarter turn of a side.
pub open spec fn corner_twist(s: Side) -> Seq<u8> {
    match s {
        Side::UP => seq![0u8, 0, 0, 0, 0, 0, 0, 0],
        Side::DOWN => seq![0u8, 0, 0, 0, 0, 0, 0, 0],
        Side::FRONT => seq![1u8, 0, 0, 2, 2, 0, 0, 1],
        Side::BACK => seq![0u8, 2, 1, 0, 0, 1, 2, 0],
        Side::RIGHT => seq![2u8, 1, 0, 0, 1, 2, 0, 0],
        Side::LEFT => seq![0u8, 0, 2, 1, 0, 0, 1, 2],
    }
}

/// Edge slot sources for one clockwise quarter turn of a side.
pub open spec fn edge_cycle(s: Side) -> Seq<u8> {
    match s {
        Side::UP => seq![1u8, 2, 3, 0, 4, 5, 6, 7, 8, 9, 10, 11],
        Side::DOWN => seq![0u8, 1, 2, 3, 4, 5, 6, 7, 11, 8, 9, 10],
        Side::FRONT => seq![7u8, 1, 2, 3, 0, 5, 6, 8, 4, 9, 10, 11],
        Side::BACK => seq![0u8, 1, 5, 3, 4, 10, 2, 7, 8, 9, 6, 11],
        Side::RIGHT => seq![0u8, 4, 2, 3, 9, 1, 6, 7, 8, 5, 10, 11],
        Side::LEFT => seq![0u8, 1, 2, 6, 4, 5, 11, 3, 8, 9, 10, 7],
    }
}

/// Edge orientation deltas for one clockwise quarter turn of a side.
pub open spec fn edge_flip(s: Side) -> Seq<u8> {
    match s {
        Side::UP => seq![0u8, 0, 0, 0, 0, 0, 0, 0, 0, 0, 0, 0],
        Side::DOWN => seq![0u8, 0, 0, 0, 0, 0, 0, 0, 0, 0, 0, 0],
        Side::FRONT => seq![1u8, 0, 0, 0, 1, 0, 0, 1, 1, 0, 0, 0],
        Side::BACK => seq![0u8, 0, 1, 0, 0, 1, 1, 0, 0, 0, 1, 0],
        Side::RIGHT => seq![0u8, 0, 0, 0, 0, 0, 0, 0, 0, 0, 0, 0],
        Side::LEFT => seq![0u8, 0, 0, 0, 0, 0, 0, 0, 0, 0, 0, 0],
    }
}

// The precomputed tables for a half turn and for a counter-clockwise turn
// of each side: the square and the cube of the quarter-turn cycle. Half
// turns change no orientations; counter-clockwise turns change them exactly
// as the clockwise ones do.

/// Corner slot sources for a half turn of a side.
pub open spec fn corner_cycle_two(s: Side) -> Seq<u8> {
    match s {
        Side::UP => seq![2u8, 3, 0, 1, 4, 5, 6, 7],
        Side::DOWN => seq![0u8, 1, 2, 3, 6, 7, 4, 5],
        Side::FRONT => seq![7u8, 1, 2, 4, 3, 5, 6, 0],
        Side::BACK => seq![0u8, 6, 5, 3, 4, 2, 1, 7],
        Side::RIGHT => seq![5u8, 4, 2, 3, 1, 0, 6, 7],
        Side::LEFT => seq![0u8, 1, 7, 6, 4, 5, 3, 2],
    }
}

/// Corner slot sources for a counter-clockwise quarter turn of a side.
pub open spec fn corner_cycle_left(s: Side) -> Seq<u8> {
    match s {
        Side::UP => seq![3u8, 0, 1, 2, 4, 5, 6, 7],
        Side::DOWN => seq![0u8, 1, 2, 3, 5, 6, 7, 4],
        Side::FRONT => seq![4u8, 1, 2, 0, 7, 5, 6, 3],
        Side::BACK => seq![0u8, 2, 6, 3, 4, 1, 5, 7],
        Side::RIGHT => seq![1u8, 5, 2, 3, 0, 4, 6, 7],
        Side::LEFT => seq![0u8, 1, 3, 7, 4, 5, 2, 6],
    }
}

/// Edge slot sources for a half turn of a side.
pub open spec fn edge_cycle_two(s: Side) -> Seq<u8> {
    match s {
        Side::UP => seq![2u8, 3, 0, 1, 4, 5, 6, 7, 8, 9, 10, 11],
        Side::DOWN => seq![0u8, 1, 2, 3, 4, 5, 6, 7, 10, 11, 8, 9],
        Side::FRONT => seq![8u8, 1, 2, 3, 7, 5, 6, 4, 0, 9, 10, 11],
        Side::BACK => seq![0u8, 1, 10, 3, 4, 6, 5, 7, 8, 9, 2, 11],
        Side::RIGHT => seq![0u8, 9, 2, 3, 5, 4, 6, 7, 8, 1, 10, 11],
        Side::LEFT => seq![0u8, 1, 2, 11, 4, 5, 7, 6, 8, 9, 10, 3],
    }
}

/// Edge slot sources for a counter-clockwise quarter turn of a side.
pub open spec fn edge_cycle_left(s: Side) -> Seq<u8> {
    match s {
        Side::UP => seq![3u8, 0, 1, 2, 4, 5, 6, 7, 8, 9, 10, 11],
        Side::DOWN => seq![0u8, 1, 2, 3, 4, 5, 6, 7, 9, 10, 11, 8],
        Side::FRONT => seq![4u8, 1, 2, 3, 8, 5, 6, 0, 7, 9, 10, 11],
        Side::BACK => seq![0u8, 1, 6, 3, 4, 2, 10, 7, 8, 9, 5, 11],
        Side::RIGHT => seq![0u8, 5, 2, 3, 1, 9, 6, 7, 8, 4, 10, 11],
        Side::LEFT => seq![0u8, 1, 2, 7, 4, 5, 3, 11, 8, 9, 10, 6],
    }
}

/// No orientation change on corners: the half-turn delta row.
pub open spec fn zeros8() -> Seq<u8> {
    seq![0u8, 0, 0, 0, 0, 0, 0, 0]
}

/// No orientation change on edges: the half-turn delta row.
pub open spec fn zeros12() -> Seq<u8> {
    seq![0u8, 0, 0, 0, 0, 0, 0, 0, 0, 0, 0, 0]
}

/// Every table entry is in range: cycle entries name valid slots, corner
/// twists are thirds, edge flips are bits.
pub proof fn lemma_tables_bounded(s: Side)
    ensures
        corner_cycle(s).len() == 8,
        corner_twist(s).len() == 8,
        edge_cycle(s).len() == 12,
        edge_flip(s).len() == 12,
        forall|i: int| 0 <= i < 8 ==> #[trigger] corner_cycle(s)[i] < 8,
        forall|i: int| 0 <= i < 8 ==> #[trigger] corner_twist(s)[i] < 3,
        forall|i: int| 0 <= i < 12 ==> #[trigger] edge_cycle(s)[i] < 12,
        forall|i: int| 0 <= i < 12 ==> #[trigger] edge_flip(s)[i] < 2,
{
}

/// Each cycle is a permutation of its slots: distinct slots come from
/// distinct sources.
pub proof fn lemma_cycles_injective(s: Side)
    ensures
        forall|i: int, j: int|
            0 <= i < 8 && 0 <= j < 8 && i != j ==> corner_cycle(s)[i] != corner_cycle(s)[j],
        forall|i: int, j: int|
            0 <= i < 12 && 0 <= j < 12 && i != j ==> edge_cycle(s)[i] != edge_cycle(s)[j],
{
}

pub(crate) fn corner_cycle_row(s: Side) -> (r: [u8; 8])
    ensures
        r@ =~= corner_cycle(s),
{
    match s {
        Side::UP => [1, 2, 3, 0, 4, 5, 6, 7],
        Side::DOWN => [0, 1, 2, 3, 7, 4, 5, 6],
        Side::FRONT => [3, 1, 2, 7, 0, 5, 6, 4],
        Side::BACK => [0, 5, 1, 3, 4, 6, 2, 7],
        Side::RIGHT => [4, 0, 2, 3, 5, 1, 6, 7],
        Side::LEFT => [0, 1, 6, 2, 4, 5, 7, 3],
    }
}

pub(crate) fn corner_twist_row(s: Side) -> (r: [u8; 8])
    ensures
        r@ =~= corner_twist(s),
{
    match s {
        Side::UP => [0, 0, 0, 0, 0, 0, 0, 0],
        Side::DOWN => [0, 0, 0, 0, 0, 0, 0, 0],
        Side::FRONT => [1, 0, 0, 2, 2, 0, 0, 1],
        Side::BACK => [0, 2, 1, 0, 0, 1, 2, 0],
        Side::RIGHT => [2, 1, 0, 0, 1, 2, 0, 0],
        Side::LEFT => [0, 0, 2, 1, 0, 0, 1, 2],
    }
}

pub(crate) fn edge_cycle_row(s: Side) -> (r: [u8; 12])
    ensures
        r@ =~= edge_cycle(s),
{
    match s {
        Side::UP => [1, 2, 3, 0, 4, 5, 6, 7, 8, 9, 10, 11],
        Side::DOWN => [0, 1, 2, 3, 4, 5, 6, 7, 11, 8, 9, 10],
        Side::FRONT => [7, 1, 2, 3, 0, 5, 6, 8, 4, 9, 10, 11],
        Side::BACK => [0, 1, 5, 3, 4, 10, 2, 7, 8, 9, 6, 11],
        Side::RIGHT => [0, 4, 2, 3, 9, 1, 6, 7, 8, 5, 10, 11],
        Side::LEFT => [0, 1, 2, 6, 4, 5, 11, 3, 8, 9, 10, 7],
    }
}

pub(crate) fn edge_flip_row(s: Side) -> (r: [u8; 12])
    ensures
        r@ =~= edge_flip(s),
{
    match s {
        Side::FRONT => [1, 0, 0, 0, 1, 0, 0, 1, 1, 0, 0, 0],
        Side::BACK => [0, 0, 1, 0, 0, 1, 1, 0, 0, 0, 1, 0],
        _ => [0, 0, 0, 0, 0, 0, 0, 0, 0, 0, 0, 0],
    }
}

/// Every half-turn and counter-clockwise table entry names a valid slot.
pub proof fn lemma_two_left_tables_bounded(s: Side)
    ensures
        corner_cycle_two(s).len() == 8,
        corner_cycle_left(s).len() == 8,
        edge_cycle_two(s).len() == 12,
        edge_cycle_left(s).len() == 12,
        forall|i: int| 0 <= i < 8 ==> #[trigger] corner_cycle_two(s)[i] < 8,
        forall|i: int| 0 <= i < 8 ==> #[trigger] corner_cycle_left(s)[i] < 8,
        forall|i: int| 0 <= i < 12 ==> #[trigger] edge_cycle_two(s)[i] < 12,
        forall|i: int| 0 <= i < 12 ==> #[trigger] edge_cycle_left(s)[i] < 12,
        forall|i: int| 0 <= i < 8 ==> #[trigger] zeros8()[i] < 3,
        forall|i: int| 0 <= i < 12 ==> #[trigger] zeros12()[i] < 2,
{
}

pub(crate) fn corner_cycle_two_row(s: Side) -> (r: [u8; 8])
    ensures
        r@ =~= corner_cycle_two(s),
{
    match s {
        Side::UP => [2, 3, 0, 1, 4, 5, 6, 7],
        Side::DOWN => [0, 1, 2, 3, 6, 7, 4, 5],
        Side::FRONT => [7, 1, 2, 4, 3, 5, 6, 0],
        Side::BACK => [0, 6, 5, 3, 4, 2, 1, 7],
        Side::RIGHT => [5, 4, 2, 3, 1, 0, 6, 7],
        Side::LEFT => [0, 1, 7, 6, 4, 5, 3, 2],
    }
}

pub(crate) fn corner_cycle_left_row(s: Side) -> (r: [u8; 8])
    ensures
        r@ =~= corner_cycle_left(s),
{
    match s {
        Side::UP => [3, 0, 1, 2, 4, 5, 6, 7],
        Side::DOWN => [0, 1, 2, 3, 5, 6, 7, 4],
        Side::FRONT => [4, 1, 2, 0, 7, 5, 6, 3],
        Side::BACK => [0, 2, 6, 3, 4, 1, 5, 7],
        Side::RIGHT => [1, 5, 2, 3, 0, 4, 6, 7],
        Side::LEFT => [0, 1, 3, 7, 4, 5, 2, 6],
    }
}

pub(crate) fn edge_cycle_two_row(s: Side) -> (r: [u8; 12])
    ensures
        r@ =~= edge_cycle_two(s),
{
    match s {
        Side::UP => [2, 3, 0, 1, 4, 5, 6, 7, 8, 9, 10, 11],
        Side::DOWN => [0, 1, 2, 3, 4, 5, 6, 7, 10, 11, 8, 9],
        Side::FRONT => [8, 1, 2, 3, 7, 5, 6, 4, 0, 9, 10, 11],
        Side::BACK => [0, 1, 10, 3, 4, 6, 5, 7, 8, 9, 2, 11],
        Side::RIGHT => [0, 9, 2, 3, 5, 4, 6, 7, 8, 1, 10, 11],
        Side::LEFT => [0, 1, 2, 11, 4, 5, 7, 6, 8, 9, 10, 3],
    }
}

pub(crate) fn edge_cycle_left_row(s: Side) -> (r: [u8; 12])
    ensures
        r@ =~= edge_cycle_left(s),
{
    match s {
        Side::UP => [3, 0, 1, 2, 4, 5, 6, 7, 8, 9, 10, 11],
        Side::DOWN => [0, 1, 2, 3, 4, 5, 6, 7, 9, 10, 11, 8],
        Side::FRONT => [4, 1, 2, 3, 8, 5, 6, 0, 7, 9, 10, 11],
        Side::BACK => [0, 1, 6, 3, 4, 2, 10, 7, 8, 9, 5, 11],
        Side::RIGHT => [0, 5, 2, 3, 1, 9, 6, 7, 8, 4, 10, 11],
        Side::LEFT => [0, 1, 2, 7, 4, 5, 3, 11, 8, 9, 10, 6],
    }
}

pub(crate) fn zeros8_row() -> (r: [u8; 8])
    ensures
        r@ =~= zeros8(),
{
    [0; 8]
}

pub(crate) fn zeros12_row() -> (r: [u8; 12])
    ensures
        r@ =~= zeros12(),
{
    [0; 12]
}

} // verus!
