//! Sparse voxel storage and the decisions of a column-by-column terrain generator.
//!
//! [`blocs`] holds the voxel kinds, the positions and the store of columns; [`gen`] holds
//! the tables of conditions, their text form, and the generator that lays soil and asks
//! for vegetation. Numbers that are fractions elsewhere are in fixed point here: see
//! [`gen::UNIT`].

pub mod blocs;
pub mod gen;
