pub mod cpt;
pub mod foundation;
pub mod loads;
pub mod masw;
pub mod point_load_test;
pub mod soil_profile;
pub mod spt;
