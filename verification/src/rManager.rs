pub mod rManager_header;
pub mod rManager;
pub mod cleanup_cache;
