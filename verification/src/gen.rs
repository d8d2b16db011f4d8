//! Nearest-condition tables and the terrain generator that fills columns from them.

pub mod earth_gen;
pub mod fields;
pub mod load;
pub mod table;

pub use earth_gen::{pos_to_range, Earth, Planting, Soils, Trees, WATER_H};
pub use fields::{height_of, Fields, CHUNK_S2, UNIT};
pub use load::{parse_fixed, DataFormatError, Label, Malformed};
pub use table::{isqrt, squared_distance, Condition, ConditionTable};
