use btrls::walk::{size_step, tree_step, SizeProbe, SizeStep, TreeChild, TreeWalk};

fn walk(depth: u32, count: u32, head: &str, show_hidden: bool) -> TreeWalk {
    TreeWalk { depth, count, head: head.to_string(), show_hidden }
}

fn child(name: &str, is_dir: bool) -> TreeChild {
    TreeChild { name: Some(name.to_string()), is_dir: Some(is_dir), executable: false }
}

#[test]
fn a_file_is_printed_with_the_branch_glyph() {
    let visit = tree_step(&walk(1, 0, "", false), &child("a.txt", false)).unwrap();
    assert_eq!(visit.line, "├──> a.txt");
    assert!(visit.descend.is_none());
}

#[test]
fn an_executable_is_marked_with_a_star() {
    let mut script = child("run.sh", false);
    script.executable = true;
    let visit = tree_step(&walk(1, 1, "│    ", false), &script).unwrap();
    assert_eq!(visit.line, "│    ├──> *run.sh");
}

#[test]
fn a_directory_within_the_limit_is_entered() {
    let visit = tree_step(&walk(2, 0, "", true), &child("src", true)).unwrap();
    assert_eq!(visit.line, "├──> src");
    let next = visit.descend.unwrap();
    assert_eq!(next.depth, 2);
    assert_eq!(next.count, 1);
    assert_eq!(next.head, "│    ");
    assert!(next.show_hidden);
    let deeper = tree_step(&next, &child("bin", true)).unwrap();
    assert_eq!(deeper.line, "│    ├──> bin");
    let last = deeper.descend.unwrap();
    assert_eq!(last.count, 2);
    assert_eq!(last.head, "│    │    ");
    let bottom = tree_step(&last, &child("obj", true)).unwrap();
    assert_eq!(bottom.line, "│    │    ├──> obj");
    assert!(bottom.descend.is_none());
}

#[test]
fn with_depth_zero_nothing_is_entered() {
    let visit = tree_step(&walk(0, 0, "", false), &child("src", true)).unwrap();
    assert_eq!(visit.line, "├──> src");
    assert!(visit.descend.is_none());
}

#[test]
fn a_walk_past_its_limit_enters_nothing() {
    let visit = tree_step(&walk(1, 5, "", false), &child("src", true)).unwrap();
    assert!(visit.descend.is_none());
    let visit = tree_step(&walk(u32::MAX, u32::MAX, "", false), &child("src", true)).unwrap();
    assert!(visit.descend.is_none());
}

#[test]
fn hidden_children_are_skipped_unless_asked_for() {
    assert!(tree_step(&walk(1, 0, "", false), &child(".git", true)).is_none());
    assert!(tree_step(&walk(1, 0, "", false), &child(".env", false)).is_none());
    let visit = tree_step(&walk(1, 0, "", true), &child(".git", true)).unwrap();
    assert_eq!(visit.line, "├──> .git");
    assert!(visit.descend.is_some());
}

#[test]
fn the_special_name_is_printed_in_either_mode() {
    let visit = tree_step(&walk(1, 0, "", false), &child(".gitignore", false)).unwrap();
    assert_eq!(visit.line, "├──> .gitignore");
}

#[test]
fn a_child_without_metadata_is_skipped() {
    let unreadable = TreeChild { name: Some("x".to_string()), is_dir: None, executable: true };
    assert!(tree_step(&walk(3, 0, "", true), &unreadable).is_none());
}

#[test]
fn a_name_that_is_not_text_has_a_stand_in() {
    let odd = TreeChild { name: None, is_dir: Some(false), executable: false };
    let visit = tree_step(&walk(1, 0, "", false), &odd).unwrap();
    assert_eq!(visit.line, "├──> Cannot unwrap filename");
}

#[test]
fn size_walk_counts_files_and_enters_directories() {
    assert_eq!(size_step(SizeProbe::File(0)), SizeStep::Count(0));
    assert_eq!(size_step(SizeProbe::File(1234)), SizeStep::Count(1234));
    assert_eq!(size_step(SizeProbe::Directory), SizeStep::Descend);
}

#[test]
fn size_walk_passes_over_links_and_unreadable_paths() {
    assert_eq!(size_step(SizeProbe::Symlink), SizeStep::Skip);
    assert_eq!(size_step(SizeProbe::Other), SizeStep::Skip);
    assert_eq!(size_step(SizeProbe::Unreadable), SizeStep::Skip);
}
