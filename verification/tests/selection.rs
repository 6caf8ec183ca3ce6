use treeframe::export::select_export;
use treeframe::select::{remove_excluded, select_columns};

fn names(list: &[&str]) -> Vec<String> {
    list.iter().map(|s| s.to_string()).collect()
}

#[test]
fn without_lists_every_listed_branch_is_selected_in_listed_order() {
    assert_eq!(select_columns(names(&["c", "a", "b"]), None, None), names(&["c", "a", "b"]));
}

#[test]
fn inclusion_list_is_used_as_given() {
    assert_eq!(
        select_columns(names(&["a", "b", "c"]), Some(names(&["c", "missing", "a"])), None),
        names(&["c", "missing", "a"])
    );
}

#[test]
fn exclusion_is_applied_after_inclusion() {
    assert_eq!(
        select_columns(names(&["a", "b", "c"]), Some(names(&["a", "b"])), Some(names(&["b"]))),
        names(&["a"])
    );
}

#[test]
fn exclusion_alone_removes_from_the_listed_branches() {
    assert_eq!(
        select_columns(names(&["a", "b", "c"]), None, Some(names(&["b", "zzz"]))),
        names(&["a", "c"])
    );
}

#[test]
fn empty_inclusion_list_selects_nothing() {
    assert_eq!(select_columns(names(&["a", "b"]), Some(Vec::new()), None), Vec::<String>::new());
    assert_eq!(
        select_columns(names(&["a", "b"]), Some(Vec::new()), Some(names(&["a"]))),
        Vec::<String>::new()
    );
}

#[test]
fn tree_without_branches_selects_nothing() {
    assert_eq!(select_columns(Vec::new(), None, None), Vec::<String>::new());
    assert_eq!(select_columns(Vec::new(), None, Some(names(&["a"]))), Vec::<String>::new());
}

#[test]
fn excluded_name_is_removed_wherever_it_occurs() {
    assert_eq!(
        remove_excluded(names(&["x", "y", "x", "z", "x"]), &names(&["x"])),
        names(&["y", "z"])
    );
    assert_eq!(remove_excluded(names(&["x", "y"]), &Vec::new()), names(&["x", "y"]));
}

#[test]
fn export_selects_the_inclusion_list_or_all() {
    assert_eq!(select_export(names(&["a", "b"]), None), names(&["a", "b"]));
    assert_eq!(select_export(names(&["a", "b"]), Some(names(&["b", "q"]))), names(&["b", "q"]));
    assert_eq!(select_export(names(&["a", "b"]), Some(Vec::new())), Vec::<String>::new());
}
