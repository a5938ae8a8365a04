use roadmap_tools::catalog::{determine_workspace_member, Project};
use roadmap_tools::detect::{
    count_code_lines, filename_from_lowercase, get_project_filename, is_project_implemented,
    locate_project_file, FileMatch,
};

fn project(number: u32, title: &str) -> Project {
    Project {
        number,
        title: title.to_string(),
        description: String::new(),
        completed: false,
        workspace_member: determine_workspace_member(number),
    }
}

fn names(v: &[&str]) -> Vec<String> {
    v.iter().map(|s| s.to_string()).collect()
}

#[test]
fn canonical_filenames() {
    assert_eq!(get_project_filename(5, "Temp Converter"), "05_temp_converter.rs");
    assert_eq!(get_project_filename(12, "Guess-The-Number!"), "12_guess_the_number.rs");
    assert_eq!(get_project_filename(101, "Sort & Search"), "101_sort__search.rs");
    assert_eq!(get_project_filename(0, ""), "00_.rs");
    assert_eq!(get_project_filename(7, "Café Menu"), "07_café_menu.rs");
}

#[test]
fn filename_from_lowercase_title() {
    assert_eq!(filename_from_lowercase(3, "simple calculator"), "03_simple_calculator.rs");
    assert_eq!(filename_from_lowercase(42, "a-b c.d"), "42_a_b_cd.rs");
}

#[test]
fn exact_match_wins() {
    let p = project(5, "Temp Converter");
    let entries = names(&["05_other.rs", "05_temp_converter.rs"]);
    match locate_project_file(&p, true, &entries) {
        FileMatch::Exact(f) => assert_eq!(f, "05_temp_converter.rs"),
        _ => panic!("expected an exact match"),
    }
    assert!(is_project_implemented(&p, true, &entries));
}

#[test]
fn prefix_match_when_renamed() {
    let p = project(5, "Temperature Converter");
    let entries = names(&["04_io.rs", "05_temp.txt", "05_temp_converter.rs", "05_z.rs"]);
    match locate_project_file(&p, false, &entries) {
        FileMatch::Prefix(f) => assert_eq!(f, "05_temp_converter.rs"),
        _ => panic!("expected a prefix match"),
    }
    assert!(is_project_implemented(&p, false, &entries));
}

#[test]
fn no_match_without_file() {
    let p = project(5, "Temp Converter");
    let entries = names(&["04_io.rs", "50_big.rs", "5_short.rs"]);
    assert!(matches!(locate_project_file(&p, false, &entries), FileMatch::NoMatch));
    assert!(!is_project_implemented(&p, false, &entries));
    assert!(!is_project_implemented(&p, false, &Vec::new()));
}

#[test]
fn no_member_is_never_implemented() {
    let p = project(200, "Out Of Range");
    let entries = names(&["200_out_of_range.rs"]);
    assert!(matches!(locate_project_file(&p, true, &entries), FileMatch::NoMatch));
    assert!(!is_project_implemented(&p, true, &entries));
}

#[test]
fn counts_code_lines() {
    let src = "use std::io;\n\n/// Doc\n// comment\nfn main() {\n    let x = 1; // trailing\n    \n}\n";
    assert_eq!(count_code_lines(src), 3);
    assert_eq!(count_code_lines(""), 0);
    assert_eq!(count_code_lines("use\r\nuses x;\r\n  use a;"), 2);
    assert_eq!(count_code_lines("fn a() {}"), 1);
}
