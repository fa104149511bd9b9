use dscode::files::{
    check_create_file, check_create_folder, check_delete_file, check_delete_folder, check_rename, file_search_hit,
    get_file_language, is_skipped_entry, plan_directory_listing, search_query, DirEntry,
};

fn entry(name: &str, is_dir: bool) -> DirEntry {
    DirEntry { name: name.to_string(), path: format!("/root/{}", name), is_dir, children: None }
}

#[test]
fn hidden_and_build_entries_are_skipped() {
    assert!(is_skipped_entry(".git"));
    assert!(is_skipped_entry("node_modules"));
    assert!(is_skipped_entry("target"));
    assert!(!is_skipped_entry("src"));
}

#[test]
fn listings_put_directories_first_then_names_without_case() {
    let nodes = plan_directory_listing(vec![
        entry("b.txt", false),
        entry("Zeta", true),
        entry(".env", false),
        entry("A.md", false),
        entry("alpha", true),
        entry("node_modules", true),
    ]);
    let names: Vec<&str> = nodes.iter().map(|n| n.name.as_str()).collect();
    assert_eq!(names, vec!["alpha", "Zeta", "A.md", "b.txt"]);
    assert_eq!(nodes[0].node_type, "directory");
    assert_eq!(nodes[3].node_type, "file");
    assert_eq!(nodes[3].path, "/root/b.txt");
}

#[test]
fn languages_come_from_extensions() {
    assert_eq!(get_file_language("src/main.rs".to_string()), Ok("rust".to_string()));
    assert_eq!(get_file_language("a/b.tsx".to_string()), Ok("typescript".to_string()));
    assert_eq!(get_file_language("x.HPP".to_string()), Ok("plaintext".to_string()));
    assert_eq!(get_file_language("Makefile".to_string()), Ok("plaintext".to_string()));
    assert_eq!(get_file_language(".bashrc".to_string()), Ok("plaintext".to_string()));
    assert_eq!(get_file_language("notes.markdown".to_string()), Ok("markdown".to_string()));
}

#[test]
fn file_search_matches_names_without_case() {
    let q = search_query("READ");
    assert_eq!(q, "read");
    let hit = file_search_hit("ReadMe.md".to_string(), "/p/ReadMe.md".to_string(), false, &q).unwrap();
    assert_eq!(hit.node_type, "file");
    assert!(file_search_hit("other.md".to_string(), "/p/other.md".to_string(), false, &q).is_none());
    assert!(file_search_hit(".readme".to_string(), "/p/.readme".to_string(), false, &q).is_none());
}

#[test]
fn file_operations_check_what_exists() {
    assert_eq!(check_create_file(true), Err("File already exists".to_string()));
    assert_eq!(check_create_file(false), Ok(()));
    assert_eq!(check_create_folder(true), Err("Folder already exists".to_string()));
    assert_eq!(check_delete_file(false, false), Err("File does not exist".to_string()));
    assert_eq!(check_delete_file(true, true), Err("Path is a directory, not a file".to_string()));
    assert_eq!(check_delete_folder(true, false), Err("Path is not a directory".to_string()));
    assert_eq!(check_delete_folder(false, true), Err("Folder does not exist".to_string()));
    assert_eq!(check_rename(false, false), Err("Path does not exist".to_string()));
    assert_eq!(check_rename(true, true), Err("Destination path already exists".to_string()));
    assert_eq!(check_rename(true, false), Ok(()));
}
