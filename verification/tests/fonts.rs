use winshell::fonts::{get_system_fonts, str_lex_le};

fn strings(names: &[&str]) -> Vec<String> {
    names.iter().map(|n| n.to_string()).collect()
}

#[test]
fn duplicate_family_collapses() {
    let families = strings(&["Arial", "Arial", "Helvetica"]);
    assert_eq!(get_system_fonts(&families), strings(&["Arial", "Helvetica"]));
}

#[test]
fn empty_catalog_gives_empty_list() {
    let families: Vec<String> = Vec::new();
    assert_eq!(get_system_fonts(&families), Vec::<String>::new());
}

#[test]
fn unsorted_catalog_is_sorted() {
    let families = strings(&["Zapfino", "Arial", "Zapfino", "Menlo", "Arial"]);
    assert_eq!(get_system_fonts(&families), strings(&["Arial", "Menlo", "Zapfino"]));
}

#[test]
fn all_equal_families_give_one_entry() {
    let families = strings(&["Courier", "Courier", "Courier"]);
    assert_eq!(get_system_fonts(&families), strings(&["Courier"]));
}

#[test]
fn order_is_by_code_point() {
    // 'B' (66) sorts before 'a' (97), and a prefix sorts before its extension.
    let families = strings(&["arial", "Bodoni", "Ari", "Arial"]);
    assert_eq!(get_system_fonts(&families), strings(&["Ari", "Arial", "Bodoni", "arial"]));
}

#[test]
fn single_family_kept() {
    let families = strings(&["Helvetica"]);
    assert_eq!(get_system_fonts(&families), strings(&["Helvetica"]));
}

#[test]
fn lex_le_on_prefixes_and_empty() {
    assert!(str_lex_le("", ""));
    assert!(str_lex_le("", "A"));
    assert!(!str_lex_le("A", ""));
    assert!(str_lex_le("Ari", "Arial"));
    assert!(!str_lex_le("Arial", "Ari"));
    assert!(str_lex_le("Arial", "Arial"));
    assert!(str_lex_le("B", "a"));
    assert!(!str_lex_le("a", "B"));
}
