use roadmap_tools::catalog::parse_projects;
use roadmap_tools::detect::is_project_implemented;
use roadmap_tools::ledger::{update_progress_data, Date, ProgressData, ProjectStatus};
use roadmap_tools::scaffold::plan_scaffold;

#[test]
fn temp_converter_without_file() {
    let catalog = parse_projects("- [ ] 5. **Temp Converter** - Convert between Celsius and Fahrenheit\n")
        .ok()
        .unwrap();
    assert_eq!(catalog.len(), 1);
    let p = &catalog[0];
    assert_eq!(p.workspace_member, Some("basic-projects".to_string()));
    let implemented = is_project_implemented(p, false, &vec!["04_io.rs".to_string()]);
    assert!(!implemented);

    let today = Date { day: 739_100 };
    let mut data = ProgressData::new(today);
    let statuses = vec![ProjectStatus { number: p.number, implemented, lines_of_code: 0 }];
    update_progress_data(&mut data, &statuses, today);
    assert!(data.projects.is_empty());

    let plan = plan_scaffold(p, false, false).ok().unwrap();
    assert_eq!(plan.filename, "05_temp_converter.rs");
    assert!(plan.contents.contains("Temp Converter"));
    assert!(plan.contents.contains("Convert between Celsius and Fahrenheit"));
    assert!(plan.contents.contains("fn main()"));
}
