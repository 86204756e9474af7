use bundle_repo::filelist::{group_files_by_directory, split_path, structure_steps, StructureStep};

#[test]
fn test_group_files_by_directory() {
    let files = vec![
        "file1.txt".to_string(),
        "src/file2.rs".to_string(),
        "src/nested/file3.rs".to_string(),
        "src/nested/deep/file4.rs".to_string(),
    ];

    let file_tree = group_files_by_directory(files);

    assert_eq!(file_tree.folder_node.files, vec!["file1.txt"]);

    let src_folder = file_tree.folder_node.subfolder("src").unwrap();
    assert_eq!(src_folder.files, vec!["file2.rs"]);

    let nested_folder = src_folder.subfolder("nested").unwrap();
    assert_eq!(nested_folder.files, vec!["file3.rs"]);

    let deep_folder = nested_folder.subfolder("deep").unwrap();
    assert_eq!(deep_folder.files, vec!["file4.rs"]);

    assert_eq!(file_tree.file_paths.len(), 4);
    assert!(file_tree.file_paths.contains(&"file1.txt".to_string()));
    assert!(file_tree.file_paths.contains(&"src/file2.rs".to_string()));
    assert!(file_tree.file_paths.contains(&"src/nested/file3.rs".to_string()));
    assert!(file_tree.file_paths.contains(&"src/nested/deep/file4.rs".to_string()));
}

#[test]
fn ordered_paths_keep_order_and_duplicates() {
    let files = vec![
        "b.txt".to_string(),
        "a/x.rs".to_string(),
        "b.txt".to_string(),
    ];
    let tree = group_files_by_directory(files.clone());
    assert_eq!(tree.file_paths, files);
    assert_eq!(tree.folder_node.files, vec!["b.txt", "b.txt"]);
}

#[test]
fn every_path_is_reachable_through_the_tree() {
    let files = vec![
        "z/one.rs".to_string(),
        "a/two.rs".to_string(),
        "a/b/three.rs".to_string(),
    ];
    let tree = group_files_by_directory(files);
    for path in &tree.file_paths {
        let parts = split_path(path);
        let mut node = &tree.folder_node;
        for folder in &parts[..parts.len() - 1] {
            node = node.subfolder(folder).unwrap();
        }
        assert!(node.files.contains(&parts[parts.len() - 1]));
    }
}

#[test]
fn subfolders_are_sorted_and_unique() {
    let files = vec![
        "zeta/1".to_string(),
        "alpha/2".to_string(),
        "mid/3".to_string(),
        "alpha/4".to_string(),
    ];
    let tree = group_files_by_directory(files);
    let names: Vec<&str> = tree
        .folder_node
        .subfolders
        .iter()
        .map(|s| s.name.as_str())
        .collect();
    assert_eq!(names, vec!["alpha", "mid", "zeta"]);
    assert_eq!(tree.folder_node.subfolder("alpha").unwrap().files, vec!["2", "4"]);
    assert!(tree.folder_node.subfolder("beta").is_none());
}

#[test]
fn empty_list_and_empty_paths() {
    let tree = group_files_by_directory(vec![]);
    assert!(tree.file_paths.is_empty());
    assert!(tree.folder_node.files.is_empty());
    let tree = group_files_by_directory(vec!["".to_string(), "a//b".to_string()]);
    assert_eq!(tree.file_paths, vec!["a//b"]);
    assert_eq!(tree.folder_node.subfolder("a").unwrap().files, vec!["b"]);
}

#[test]
fn split_path_drops_empty_components() {
    assert_eq!(split_path("a//b/"), vec!["a", "b"]);
    assert_eq!(split_path("file.txt"), vec!["file.txt"]);
    assert!(split_path("").is_empty());
}

#[test]
fn structure_steps_visit_files_then_sorted_folders() {
    let tree = group_files_by_directory(vec![
        "b/x".to_string(),
        "top".to_string(),
        "a/y".to_string(),
        "a/c/z".to_string(),
    ]);
    let steps: Vec<String> = structure_steps(&tree.folder_node)
        .iter()
        .map(|s| match s {
            StructureStep::File(n) => format!("file {}", n),
            StructureStep::OpenFolder(n) => format!("open {}", n),
            StructureStep::CloseFolder => "close".to_string(),
        })
        .collect();
    assert_eq!(
        steps,
        vec![
            "file top", "open a", "file y", "open c", "file z", "close", "close", "open b",
            "file x", "close"
        ]
    );
}

#[test]
fn duplicate_paths_fill_each_folder_in_order() {
    let tree = group_files_by_directory(vec![
        "a.txt".to_string(),
        "a.txt".to_string(),
        "d/b.rs".to_string(),
        "d/b.rs".to_string(),
    ]);
    assert_eq!(tree.file_paths, vec!["a.txt", "a.txt", "d/b.rs", "d/b.rs"]);
    assert_eq!(tree.folder_node.files, vec!["a.txt", "a.txt"]);
    assert_eq!(tree.folder_node.subfolders.len(), 1);
    assert_eq!(tree.folder_node.subfolder("d").unwrap().files, vec!["b.rs", "b.rs"]);
}

#[test]
fn dot_components_name_the_folder_they_stand_in() {
    assert_eq!(split_path("./a/./b"), vec!["a", "b"]);
    let tree = group_files_by_directory(vec!["./src/./x.rs".to_string()]);
    assert_eq!(tree.folder_node.subfolder("src").unwrap().files, vec!["x.rs"]);
}
