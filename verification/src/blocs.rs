//! Voxels, positions, and the sparse store of vertical columns.

pub mod bloc;
pub mod col;
pub mod cols;
pub mod pos;
pub mod tree;

pub use bloc::Bloc;
pub use col::{Col, COL_LEN};
pub use cols::Blocs;
pub use pos::{BlocPos, BlocPos2d, ColPos, ColedPos, ColedPos2d, Realm};
pub use pos::{CHUNK_S1, CHUNK_S1I, MAX_GEN_HEIGHT};
pub use tree::Tree;
