use std::path::PathBuf;
use vent_engine::assets::io::{AssetsLoader, FileAssetReader};
use vent_engine::assets::pool::AssetPool;
use vent_engine::assets::project::VentApplicationProject;

#[test]
fn pool_add_get_remove() {
    let mut pool: AssetPool<u32> = AssetPool::new();
    pool.add_asset("tree".to_string(), 1);
    pool.add_asset("rock".to_string(), 2);
    assert_eq!(pool.get_asset("tree"), Some(&1));
    assert_eq!(pool.get_asset("rock"), Some(&2));
    assert_eq!(pool.get_asset("lake"), None);
    assert_eq!(pool.remove_asset("tree"), Some(1));
    assert_eq!(pool.get_asset("tree"), None);
    assert_eq!(pool.get_asset("rock"), Some(&2));
    assert_eq!(pool.remove_asset("tree"), None);
}

#[test]
fn pool_add_replaces_same_name() {
    let mut pool: AssetPool<&str> = AssetPool::new();
    pool.add_asset("shader".to_string(), "old");
    pool.add_asset("shader".to_string(), "new");
    assert_eq!(pool.remove_asset("shader"), Some("new"));
    assert_eq!(pool.get_asset("shader"), None);
}

#[test]
fn reader_keeps_its_root() {
    let reader = FileAssetReader::from_root(PathBuf::from("/tmp/assets"));
    assert_eq!(reader.root_path(), &PathBuf::from("/tmp/assets"));
}

#[test]
fn loader_starts_empty() {
    let _loader: AssetsLoader<Vec<u8>> = AssetsLoader::new();
    let _default: AssetsLoader<Vec<u8>> = AssetsLoader::default();
}

#[test]
fn project_file_path_appends_file_name() {
    assert_eq!(
        VentApplicationProject::project_file_path("games/demo"),
        "games/demo/project.vent"
    );
    assert_eq!(VentApplicationProject::project_file_path(""), "/project.vent");
    let p = VentApplicationProject { name: "Demo".to_string(), version: "1.0".to_string() };
    assert_eq!(p.name, "Demo");
}
