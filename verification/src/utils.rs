pub mod version_parser;
pub mod binSearch;
pub mod get_local_path_to_cache;
pub mod is_asset_tdb;
pub mod local_version;
pub mod find_game_conf_by_steam_id;
