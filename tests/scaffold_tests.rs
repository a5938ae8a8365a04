use roadmap_tools::catalog::{determine_workspace_member, Project};
use roadmap_tools::scaffold::{
    filter_projects, find_next_project, generate_template, plan_scaffold, ScaffoldError,
};

fn project(number: u32, title: &str, description: &str, completed: bool) -> Project {
    Project {
        number,
        title: title.to_string(),
        description: description.to_string(),
        completed,
        workspace_member: determine_workspace_member(number),
    }
}

#[test]
fn template_text() {
    let p = project(5, "Temp Converter", "Convert between Celsius and Fahrenheit", false);
    let expected = "/// Project 5: Temp Converter\n/// Level 1: First Steps\n/// Convert between Celsius and Fahrenheit\n\nfn main() {\n    // Implement the project logic here\n    // Description: Convert between Celsius and Fahrenheit\n    \n    println!(\"Temp Converter\");\n}\n";
    assert_eq!(generate_template(&p), expected);
}

#[test]
fn scaffold_for_missing_file() {
    let p = project(5, "Temp Converter", "Convert between Celsius and Fahrenheit", false);
    let plan = plan_scaffold(&p, false, false).ok().unwrap();
    assert_eq!(plan.member, "basic-projects");
    assert_eq!(plan.filename, "05_temp_converter.rs");
    assert!(plan.contents.contains("Temp Converter"));
    assert!(plan.contents.contains("Convert between Celsius and Fahrenheit"));
    assert!(plan.contents.contains("Level 1: First Steps"));
}

#[test]
fn scaffold_refuses_existing_file() {
    let p = project(5, "Temp Converter", "d", false);
    assert!(matches!(plan_scaffold(&p, true, false), Err(ScaffoldError::AlreadyExists)));
    assert!(plan_scaffold(&p, true, true).is_ok());
}

#[test]
fn scaffold_needs_member() {
    let p = project(151, "Beyond", "d", false);
    assert!(matches!(plan_scaffold(&p, false, false), Err(ScaffoldError::NoWorkspaceMember)));
}

#[test]
fn next_project_skips_done_and_implemented() {
    let ps = vec![
        project(1, "A", "a", true),
        project(2, "B", "b", false),
        project(3, "C", "c", false),
    ];
    assert_eq!(find_next_project(&ps, &vec![false, true, false]), Some(2));
    assert_eq!(find_next_project(&ps, &vec![false, false, false]), Some(1));
    assert_eq!(find_next_project(&ps, &vec![true, true, true]), None);
}

#[test]
fn listing_filters() {
    let ps = vec![
        project(1, "A", "a", true),
        project(16, "B", "b", false),
        project(31, "C", "c", false),
        project(46, "D", "d", false),
    ];
    let implemented = vec![true, false, true, false];
    assert_eq!(filter_projects(&ps, &implemented, false, None, None), vec![1, 2, 3]);
    assert_eq!(filter_projects(&ps, &implemented, true, None, None), vec![0, 2]);
    assert_eq!(filter_projects(&ps, &implemented, false, Some(2), None), vec![1]);
    assert_eq!(filter_projects(&ps, &implemented, false, None, Some("basic-projects")), vec![1, 3]);
    assert_eq!(filter_projects(&ps, &implemented, true, Some(3), Some("ownership-projects")), vec![2]);
    assert!(filter_projects(&ps, &implemented, false, Some(7), None).is_empty());
}
