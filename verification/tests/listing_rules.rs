use btrls::entry::{
    entry_from_meta, is_hidden, is_special_file, needs_tree_sizes, starts_with_dot, EntryMeta,
    EntryType, FileEntry,
};
use btrls::stamp::Timestamp;
use btrls::listing::{
    get_data, get_files, getting_file_info, leave_hidden, map_data, map_dir_data, map_file_data,
    only_hidden, retain_visible, Visibility,
};

fn file(name: &str, len: u64) -> EntryMeta {
    EntryMeta {
        name: Some(name.to_string()),
        is_dir: false,
        len,
        tree_sizes: Vec::new(),
        modified: Some(Timestamp { secs: 1_704_103_200, nanos: 0, offset: 0 }),
        read_only: false,
        executable: false,
    }
}

fn dir(name: &str, tree_sizes: Vec<u64>) -> EntryMeta {
    EntryMeta {
        name: Some(name.to_string()),
        is_dir: true,
        len: 4096,
        tree_sizes,
        modified: Some(Timestamp { secs: 1_704_195_000, nanos: 0, offset: 0 }),
        read_only: false,
        executable: false,
    }
}

fn row(name: &str, e_type: EntryType, hidden: bool) -> FileEntry {
    FileEntry {
        e_type,
        name: name.to_string(),
        len_bytes: "1.00 B".to_string(),
        modified: String::new(),
        read_only: false,
        hidden,
        is_exec: false,
    }
}

fn names(rows: &[FileEntry]) -> Vec<String> {
    rows.iter().map(|r| r.name.clone()).collect()
}

fn sample_directory() -> Option<Vec<Option<EntryMeta>>> {
    Some(vec![
        Some(file("a.txt", 100)),
        Some(dir("sub", vec![5, 7])),
        Some(file(".secret", 10)),
    ])
}

#[test]
fn dotted_names_are_hidden_except_the_special_one() {
    assert!(is_hidden(".secret"));
    assert!(is_hidden(".git"));
    assert!(is_hidden("."));
    assert!(!is_hidden(".gitignore"));
    assert!(!is_hidden("a.txt"));
    assert!(!is_hidden(""));
    assert!(is_hidden(".gitignore2"));
    assert!(is_special_file(".gitignore"));
    assert!(!is_special_file("gitignore"));
    assert!(starts_with_dot(".gitignore"));
    assert!(!starts_with_dot("x."));
}

#[test]
fn a_file_row_shows_its_own_size() {
    let entry = entry_from_meta(&file("a.txt", 100), true, false);
    assert_eq!(entry.e_type, EntryType::File);
    assert_eq!(entry.name, "a.txt");
    assert_eq!(entry.len_bytes, "100.00 B");
    assert_eq!(entry.modified, "Jan  1 2024 10:00");
    assert!(!entry.read_only);
    assert!(!entry.hidden);
    assert!(!entry.is_exec);
}

#[test]
fn a_directory_row_shows_inode_size_or_tree_total() {
    let meta = dir("sub", vec![1024, 1024]);
    assert_eq!(entry_from_meta(&meta, false, false).len_bytes, "4.00 KB");
    assert_eq!(entry_from_meta(&meta, true, false).len_bytes, "2.00 KB");
    assert_eq!(entry_from_meta(&meta, false, true).len_bytes, "4096");
    assert_eq!(entry_from_meta(&meta, true, true).len_bytes, "2048");
    assert_eq!(entry_from_meta(&meta, true, true).e_type, EntryType::Dir);
}

#[test]
fn tree_sizes_are_needed_for_directories_on_request() {
    assert!(needs_tree_sizes(true, true));
    assert!(!needs_tree_sizes(true, false));
    assert!(!needs_tree_sizes(false, true));
    assert!(!needs_tree_sizes(false, false));
}

#[test]
fn a_file_never_shows_a_tree_total() {
    let mut meta = file("a.txt", 100);
    meta.tree_sizes = vec![1, 2, 3];
    assert_eq!(entry_from_meta(&meta, true, true).len_bytes, "100");
}

#[test]
fn missing_name_and_time_have_their_fallbacks() {
    let mut meta = file("x", 1);
    meta.name = None;
    meta.modified = None;
    meta.read_only = true;
    meta.executable = true;
    let entry = entry_from_meta(&meta, false, false);
    assert_eq!(entry.name, "unknown name");
    assert_eq!(entry.modified, "");
    assert!(entry.read_only);
    assert!(entry.is_exec);
    assert!(!entry.hidden);
}

#[test]
fn hidden_flag_follows_the_name() {
    assert!(entry_from_meta(&file(".secret", 10), false, false).hidden);
    assert!(!entry_from_meta(&file(".gitignore", 10), false, false).hidden);
    assert!(entry_from_meta(&dir(".cache", vec![]), false, false).hidden);
}

#[test]
fn directories_are_inserted_at_the_directory_index() {
    let mut data = vec![row("d0", EntryType::Dir, false), row("f0", EntryType::File, false)];
    let mut dir_index = 1;
    map_dir_data(&dir("d1", vec![]), &mut data, &mut dir_index, false, false);
    assert_eq!(names(&data), ["d0", "d1", "f0"]);
    assert_eq!(dir_index, 2);
    map_dir_data(&file("f1", 1), &mut data, &mut dir_index, false, false);
    assert_eq!(names(&data), ["d0", "d1", "f0"]);
    assert_eq!(dir_index, 2);
}

#[test]
fn files_are_appended_at_the_end() {
    let mut data = vec![row("d0", EntryType::Dir, false), row("f0", EntryType::File, false)];
    map_file_data(&file("f1", 1), &mut data, false);
    assert_eq!(names(&data), ["d0", "f0", "f1"]);
    map_file_data(&dir("d1", vec![]), &mut data, false);
    assert_eq!(names(&data), ["d0", "f0", "f1"]);
}

#[test]
fn map_data_files_either_kind() {
    let mut data = Vec::new();
    let mut dir_index = 0;
    map_data(&file("f0", 1), &mut data, &mut dir_index, false, false);
    map_data(&dir("d0", vec![]), &mut data, &mut dir_index, false, false);
    map_data(&file("f1", 1), &mut data, &mut dir_index, false, false);
    map_data(&dir("d1", vec![]), &mut data, &mut dir_index, false, false);
    assert_eq!(names(&data), ["d0", "d1", "f0", "f1"]);
    assert_eq!(dir_index, 2);
}

#[test]
fn assembled_listing_has_directories_first_in_enumeration_order() {
    let listing = Some(vec![
        Some(file("f0", 1)),
        Some(dir("d0", vec![])),
        None,
        Some(file("f1", 2)),
        Some(dir("d1", vec![])),
        Some(dir("d2", vec![])),
        Some(file("f2", 3)),
    ]);
    let rows = get_files(&listing, false, false);
    assert_eq!(names(&rows), ["d0", "d1", "d2", "f0", "f1", "f2"]);
    let first_file = rows.iter().position(|r| r.e_type == EntryType::File).unwrap();
    assert!(rows[first_file..].iter().all(|r| r.e_type == EntryType::File));
    assert!(rows[..first_file].iter().all(|r| r.e_type == EntryType::Dir));
}

#[test]
fn unreadable_entries_are_left_out() {
    let listing = Some(vec![None, Some(file("a", 1)), None]);
    assert_eq!(names(&get_files(&listing, false, false)), ["a"]);
}

#[test]
fn a_directory_that_cannot_be_opened_lists_nothing() {
    assert!(get_files(&None, false, false).is_empty());
    assert!(get_files(&Some(Vec::new()), true, true).is_empty());
}

#[test]
fn default_mode_leaves_hidden_rows_out() {
    let rows = vec![
        row("sub", EntryType::Dir, false),
        row(".secret", EntryType::File, true),
        row(".gitignore", EntryType::File, true),
        row("a.txt", EntryType::File, false),
    ];
    assert_eq!(names(&leave_hidden(rows.into_iter())), ["sub", ".gitignore", "a.txt"]);
}

#[test]
fn hidden_only_mode_keeps_the_hidden_rows() {
    let rows = vec![
        row("sub", EntryType::Dir, false),
        row(".secret", EntryType::File, true),
        row(".gitignore", EntryType::File, false),
        row(".cache", EntryType::Dir, true),
    ];
    assert_eq!(names(&only_hidden(rows.into_iter())), [".secret", ".cache"]);
}

#[test]
fn filters_take_any_iterator_of_rows() {
    let rows = vec![
        row("a", EntryType::File, false),
        row(".b", EntryType::File, true),
        row("c", EntryType::File, false),
    ];
    assert_eq!(names(&leave_hidden(rows.clone().into_iter().rev())), ["c", "a"]);
    assert_eq!(names(&only_hidden(rows.into_iter().skip(1))), [".b"]);
    assert!(leave_hidden(std::iter::empty()).is_empty());
}

#[test]
fn show_all_mode_passes_the_listing_through() {
    let rows = vec![
        row("sub", EntryType::Dir, false),
        row(".secret", EntryType::File, true),
        row("a.txt", EntryType::File, false),
    ];
    assert_eq!(
        names(&retain_visible(rows.into_iter(), Visibility::ShowAll)),
        ["sub", ".secret", "a.txt"]
    );
}

#[test]
fn hidden_only_is_within_show_all_and_apart_from_default() {
    let rows = || {
        vec![
            row("sub", EntryType::Dir, false),
            row(".secret", EntryType::File, true),
            row(".gitignore", EntryType::File, true),
            row("a.txt", EntryType::File, false),
            row(".cache", EntryType::Dir, true),
        ]
    };
    let all = names(&retain_visible(rows().into_iter(), Visibility::ShowAll));
    let hidden = names(&retain_visible(rows().into_iter(), Visibility::HiddenOnly));
    let default = names(&retain_visible(rows().into_iter(), Visibility::Default));
    for name in &hidden {
        assert!(all.contains(name));
        assert!(!default.contains(name) || name == ".gitignore");
    }
    assert_eq!(hidden, [".secret", ".gitignore", ".cache"]);
    assert_eq!(default, ["sub", ".gitignore", "a.txt"]);
}

#[test]
fn default_listing_of_the_sample_directory() {
    let rows = get_data(&sample_directory(), false, false, false, false).unwrap();
    assert_eq!(names(&rows), ["sub", "a.txt"]);
    assert_eq!(rows[0].e_type, EntryType::Dir);
    assert_eq!(rows[1].e_type, EntryType::File);
    assert_eq!(rows[1].len_bytes, "100.00 B");
}

#[test]
fn all_listing_of_the_sample_directory() {
    let rows = get_data(&sample_directory(), true, false, false, false).unwrap();
    assert_eq!(names(&rows), ["sub", "a.txt", ".secret"]);
    assert!(rows[2].hidden);
    assert_eq!(rows[2].len_bytes, "10.00 B");
}

#[test]
fn the_sample_directory_in_every_enumeration_order() {
    let entries = [file("a.txt", 100), dir("sub", vec![5, 7]), file(".secret", 10)];
    let orders = [[0, 1, 2], [0, 2, 1], [1, 0, 2], [1, 2, 0], [2, 0, 1], [2, 1, 0]];
    for order in orders {
        let listing = Some(order.iter().map(|&i| Some(entries[i].clone())).collect());
        let shown = get_data(&listing, false, false, false, false).unwrap();
        assert_eq!(names(&shown), ["sub", "a.txt"]);
        assert_eq!(shown[0].e_type, EntryType::Dir);
        assert_eq!(shown[1].e_type, EntryType::File);
        let hidden = get_data(&listing, false, true, false, false).unwrap();
        assert_eq!(names(&hidden), [".secret"]);
        let all = get_data(&listing, true, false, false, false).unwrap();
        let secret_first = order.iter().position(|&i| i == 2) < order.iter().position(|&i| i == 0);
        if secret_first {
            assert_eq!(names(&all), ["sub", ".secret", "a.txt"]);
        } else {
            assert_eq!(names(&all), ["sub", "a.txt", ".secret"]);
        }
    }
}

#[test]
fn hidden_only_listing_of_the_sample_directory() {
    let rows = get_data(&sample_directory(), false, true, false, false).unwrap();
    assert_eq!(names(&rows), [".secret"]);
    let rows = get_data(&sample_directory(), true, true, false, false).unwrap();
    assert_eq!(names(&rows), [".secret"]);
}

#[test]
fn size_flags_reach_the_rows() {
    let rows = get_data(&sample_directory(), false, false, true, true).unwrap();
    assert_eq!(rows[0].len_bytes, "12");
    assert_eq!(rows[1].len_bytes, "100");
    let rows = get_data(&sample_directory(), false, false, true, false).unwrap();
    assert_eq!(rows[0].len_bytes, "12.00 B");
}

#[test]
fn an_empty_result_is_an_error() {
    let message = "No Files or Directories found!".to_string();
    assert_eq!(get_data(&None, false, false, false, false).unwrap_err(), message);
    assert_eq!(get_data(&Some(vec![None]), true, false, false, false).unwrap_err(), message);
    let only_hidden_files = Some(vec![Some(file(".a", 1)), Some(file(".b", 2))]);
    assert_eq!(get_data(&only_hidden_files, false, false, false, false).unwrap_err(), message);
    let no_hidden_files = Some(vec![Some(file("a", 1))]);
    assert_eq!(get_data(&no_hidden_files, false, true, false, false).unwrap_err(), message);
}

#[test]
fn file_info_of_a_missing_path_is_not_found() {
    assert_eq!(getting_file_info(&None).unwrap_err(), "No such file found");
}

#[test]
fn file_info_of_a_path_without_a_name_is_not_found() {
    let mut meta = dir("x", vec![]);
    meta.name = None;
    assert_eq!(getting_file_info(&Some(meta)).unwrap_err(), "No such file found");
}

#[test]
fn file_info_shows_a_file_of_any_name() {
    let rows = getting_file_info(&Some(file("File Not Found!", 1))).unwrap();
    assert_eq!(rows.len(), 1);
    assert_eq!(rows[0].name, "File Not Found!");
    assert_eq!(rows[0].e_type, EntryType::File);
    assert_eq!(rows[0].len_bytes, "1.00 B");
    let rows = getting_file_info(&Some(file("unknown name", 2))).unwrap();
    assert_eq!(rows[0].name, "unknown name");
}

#[test]
fn file_info_is_one_row_with_a_human_readable_size() {
    let rows = getting_file_info(&Some(file("notes.md", 2048))).unwrap();
    assert_eq!(rows.len(), 1);
    assert_eq!(rows[0].name, "notes.md");
    assert_eq!(rows[0].e_type, EntryType::File);
    assert_eq!(rows[0].len_bytes, "2.00 KB");
    let rows = getting_file_info(&Some(dir(".config", vec![1, 2]))).unwrap();
    assert_eq!(rows[0].e_type, EntryType::Dir);
    assert_eq!(rows[0].len_bytes, "4.00 KB");
    assert!(rows[0].hidden);
}
