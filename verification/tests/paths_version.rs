use rnix_shell::paths::{check_path_within, rename_allowed};
use rnix_shell::version::{get_rnix_api_version, get_rnix_version};

#[test]
fn escaping_path_is_rejected_before_the_filesystem() {
    assert!(!check_path_within(&b"../../etc".to_vec()));
    assert!(!rename_allowed(&b"../../etc".to_vec(), &b"notes".to_vec()));
    assert!(!rename_allowed(&b"notes".to_vec(), &b"../../etc".to_vec()));
}

#[test]
fn contained_paths_are_accepted() {
    assert!(check_path_within(&b"notes".to_vec()));
    assert!(check_path_within(&b"a/b/c".to_vec()));
    assert!(check_path_within(&b"./a".to_vec()));
    assert!(check_path_within(&b"a/../b".to_vec()));
    assert!(rename_allowed(&b"a/b".to_vec(), &b"c".to_vec()));
}

#[test]
fn any_step_above_the_namespace_is_rejected() {
    assert!(!check_path_within(&b"..".to_vec()));
    assert!(!check_path_within(&b"a/../../b".to_vec()));
    assert!(!check_path_within(&b"../a/b/c/d".to_vec()));
    // Stepping back inside afterwards does not make it legal.
    assert!(!check_path_within(&b"../a".to_vec()));
}

#[test]
fn dot_and_empty_components_do_not_move_the_walk() {
    assert!(check_path_within(&b"a//b".to_vec()));
    assert!(check_path_within(&b"a/./b".to_vec()));
    assert!(!check_path_within(&b"a/.././../b".to_vec()));
}

#[test]
fn version_strings_are_reported() {
    assert_eq!(get_rnix_version().version, "1.0.0");
    assert_eq!(get_rnix_api_version().version, "1.0.0");
}
