use edgefs::cache::find_project_root;
use edgefs::cache::mode_of_flag;
use edgefs::cache::resolve_cache_location;
use edgefs::cache::PmMode;
use edgefs::memory_fs::MockFileSystem;
use edgefs::paths::FsPath;

fn path_of(segments: &[&str]) -> FsPath {
    let mut p = FsPath::root();
    for seg in segments {
        p = p.child(seg.to_string());
    }
    p
}

fn tree_with_manifest_at_proj() -> MockFileSystem {
    let mut fs = MockFileSystem::new();
    assert!(fs.write("/proj/package.json", b"{}").is_ok());
    fs
}

#[test]
fn default_mode_selects_node_modules_under_the_project_root() {
    let fs = tree_with_manifest_at_proj();
    let start = path_of(&["proj", "sub", "deep"]);
    let loc = resolve_cache_location(&fs, &start, mode_of_flag(None));
    assert_eq!(loc.cache_dir.to_text(), "/proj/node_modules/.cache/webpack".to_string());
    assert_eq!(loc.lockfile.to_text(), "/proj/node_modules/.cache/webpack/lockfile.json".to_string());
}

#[test]
fn mode_one_selects_the_pnp_layout() {
    let fs = tree_with_manifest_at_proj();
    let start = path_of(&["proj", "sub", "deep"]);
    let flag = "1".to_string();
    let loc = resolve_cache_location(&fs, &start, mode_of_flag(Some(&flag)));
    assert_eq!(loc.cache_dir.to_text(), "/proj/.pnp/.cache/webpack".to_string());
    assert_eq!(loc.lockfile.to_text(), "/proj/.pnp/.cache/webpack/lockfile.json".to_string());
}

#[test]
fn mode_three_selects_the_yarn_layout() {
    let fs = tree_with_manifest_at_proj();
    let start = path_of(&["proj", "sub", "deep"]);
    let flag = "3".to_string();
    let loc = resolve_cache_location(&fs, &start, mode_of_flag(Some(&flag)));
    assert_eq!(loc.cache_dir.to_text(), "/proj/.yarn/.cache/webpack".to_string());
}

#[test]
fn unrecognized_mode_selects_the_default_layout() {
    let fs = tree_with_manifest_at_proj();
    let start = path_of(&["proj"]);
    let flag = "2".to_string();
    let loc = resolve_cache_location(&fs, &start, mode_of_flag(Some(&flag)));
    assert_eq!(loc.cache_dir.to_text(), "/proj/node_modules/.cache/webpack".to_string());
}

#[test]
fn no_manifest_anywhere_falls_back_under_the_starting_directory() {
    let fs = MockFileSystem::new();
    let start = path_of(&["some", "where"]);
    let loc = resolve_cache_location(&fs, &start, mode_of_flag(None));
    assert_eq!(loc.cache_dir.to_text(), "/some/where/.cache/webpack".to_string());
    assert_eq!(loc.lockfile.to_text(), "/some/where/.cache/webpack/lockfile.json".to_string());
}

#[test]
fn fallback_ignores_the_mode_flag() {
    let fs = MockFileSystem::new();
    let start = path_of(&["some", "where"]);
    let flag = "1".to_string();
    let loc = resolve_cache_location(&fs, &start, mode_of_flag(Some(&flag)));
    assert_eq!(loc.cache_dir.to_text(), "/some/where/.cache/webpack".to_string());
}

#[test]
fn the_walk_checks_the_starting_directory_first() {
    let mut fs = MockFileSystem::new();
    assert!(fs.write("/proj/package.json", b"{}").is_ok());
    assert!(fs.write("/proj/inner/package.json", b"{}").is_ok());
    let start = path_of(&["proj", "inner"]);
    let root = find_project_root(&fs, &start).unwrap();
    assert_eq!(root.to_text(), "/proj/inner".to_string());
}

#[test]
fn the_walk_reaches_the_filesystem_root() {
    let mut fs = MockFileSystem::new();
    assert!(fs.write("/package.json", b"{}").is_ok());
    let start = path_of(&["a", "b"]);
    let root = find_project_root(&fs, &start).unwrap();
    assert_eq!(root.to_text(), "/".to_string());
    let loc = resolve_cache_location(&fs, &start, PmMode::Standard);
    assert_eq!(loc.cache_dir.to_text(), "/node_modules/.cache/webpack".to_string());
}

#[test]
fn a_manifest_below_the_start_is_not_seen() {
    let mut fs = MockFileSystem::new();
    assert!(fs.write("/proj/sub/package.json", b"{}").is_ok());
    let start = path_of(&["proj"]);
    assert!(find_project_root(&fs, &start).is_none());
}

#[test]
fn mode_parsing_maps_flags_to_layouts() {
    assert_eq!(mode_of_flag(None), PmMode::Standard);
    assert_eq!(mode_of_flag(Some(&"1".to_string())), PmMode::Pnp);
    assert_eq!(mode_of_flag(Some(&"3".to_string())), PmMode::Yarn);
    assert_eq!(mode_of_flag(Some(&"".to_string())), PmMode::Standard);
    assert_eq!(mode_of_flag(Some(&"13".to_string())), PmMode::Standard);
}

#[test]
fn resolution_is_repeatable_from_the_same_inputs() {
    let fs = tree_with_manifest_at_proj();
    let start = path_of(&["proj", "sub"]);
    let first = resolve_cache_location(&fs, &start, PmMode::Pnp);
    let second = resolve_cache_location(&fs, &start, PmMode::Pnp);
    assert_eq!(first.cache_dir.to_text(), second.cache_dir.to_text());
    assert_eq!(first.lockfile.to_text(), second.lockfile.to_text());
}

#[test]
fn starting_at_the_filesystem_root_without_a_manifest_falls_back_under_it() {
    let fs = MockFileSystem::new();
    let start = FsPath::root();
    let loc = resolve_cache_location(&fs, &start, PmMode::Standard);
    assert_eq!(loc.cache_dir.to_text(), "/.cache/webpack".to_string());
}
