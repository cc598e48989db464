pub mod mock_instantiate;
pub mod mock_marker;
pub mod provenance_utilities;
pub mod settlement;
pub mod testing;
pub mod to;
pub mod validate;
