use std::path::PathBuf;

use tule_desktop::harness::{
    display_name_for_root, display_name_from_basename, DEFAULT_ROOT_DISPLAY_NAME,
};
use tule_desktop::source_draft::lossless_basename;

#[test]
fn basename_is_the_final_component() {
    let path = PathBuf::from("/home/user/projects/notes.md");
    assert_eq!(lossless_basename(&path), Some("notes.md".to_string()));
}

#[test]
fn basename_is_missing_for_a_bare_root() {
    assert_eq!(lossless_basename(&PathBuf::from("/")), None);
    assert_eq!(lossless_basename(&PathBuf::from("/home/..")), None);
}

#[test]
fn run_root_display_name_is_the_folder_name() {
    assert_eq!(display_name_for_root(&PathBuf::from("/work/run-root-a")), "run-root-a");
    assert_eq!(display_name_for_root(&PathBuf::from("/work/alpha/")), "alpha");
}

#[test]
fn run_root_display_name_falls_back_without_a_final_component() {
    assert_eq!(display_name_for_root(&PathBuf::from("/")), DEFAULT_ROOT_DISPLAY_NAME);
    assert_eq!(DEFAULT_ROOT_DISPLAY_NAME, "run-root");
}

#[test]
fn display_name_from_basename_prefers_the_name() {
    assert_eq!(display_name_from_basename(Some("proj".to_string())), "proj");
    assert_eq!(display_name_from_basename(None), "run-root");
}
