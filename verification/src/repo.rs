pub mod hashmap_repository;
pub mod store;
pub mod tag_data_repository;
pub mod unittest_repository;
