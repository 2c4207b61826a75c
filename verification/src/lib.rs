//! A model of the 3x3x3 twisty puzzle and a bounded breadth-first solver
//! over it. Configurations are permutation and orientation arrays, moves act
//! on them through fixed transition tables, and the solver walks the
//! resulting group graph ply by ply until it meets the solved configuration
//! or exhausts its depth bound. Every operation carries a contract, and the
//! group laws of the model are stated and proved alongside it.

pub mod color;
pub mod cube;
pub mod fast_move;
pub mod laws;
pub mod moves;
pub mod piece;
pub mod render;
pub mod sequence;
pub mod simple_move;
pub mod solver;
pub mod tables;
