use manga_reader::siblings::{select_folder_entries, sibling_step, FolderEntry, SiblingOutcome};

fn entry(name: &str, is_dir: bool) -> FolderEntry {
    FolderEntry { name: name.to_string(), is_dir }
}

#[test]
fn folder_listing_keeps_containers_and_visible_dirs_in_natural_order() {
    let items = select_folder_entries(vec![
        entry("vol10.cbz", false),
        entry("notes.txt", false),
        entry("vol2.cbz", false),
        entry(".hidden", true),
        entry("extras", true),
        entry("vol1.zip", false),
        entry("scan.pdf", false),
    ]);
    assert_eq!(items, vec!["extras", "scan.pdf", "vol1.zip", "vol2.cbz", "vol10.cbz"]);
}

#[test]
fn sibling_step_moves_one_entry_each_way() {
    let items: Vec<String> = ["a.zip", "b.zip", "c.zip"].iter().map(|s| s.to_string()).collect();
    assert_eq!(sibling_step(&items, &"b.zip".to_string(), true), SiblingOutcome::Open(2));
    assert_eq!(sibling_step(&items, &"b.zip".to_string(), false), SiblingOutcome::Open(0));
}

#[test]
fn no_sibling_past_either_end() {
    let items: Vec<String> = ["a.zip", "b.zip"].iter().map(|s| s.to_string()).collect();
    assert_eq!(sibling_step(&items, &"b.zip".to_string(), true), SiblingOutcome::NoMore);
    assert_eq!(sibling_step(&items, &"a.zip".to_string(), false), SiblingOutcome::NoMore);
    assert_eq!(
        sibling_step(&items, &"zz.zip".to_string(), true),
        SiblingOutcome::NotListed
    );
}

#[test]
fn lone_source_has_no_neighbours() {
    let items: Vec<String> = vec!["only.cbz".to_string()];
    assert_eq!(sibling_step(&items, &"only.cbz".to_string(), true), SiblingOutcome::NoMore);
    assert_eq!(sibling_step(&items, &"only.cbz".to_string(), false), SiblingOutcome::NoMore);
}
