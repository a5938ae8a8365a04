use roadmap_tools::catalog::{
    determine_workspace_member, get_level_info, get_level_name, get_project_level,
    parse_project_line, parse_projects, render_project_line, CatalogError, Project,
};

fn project(number: u32, title: &str, description: &str, completed: bool) -> Project {
    Project {
        number,
        title: title.to_string(),
        description: description.to_string(),
        completed,
        workspace_member: determine_workspace_member(number),
    }
}

#[test]
fn parses_open_entry() {
    let p = parse_project_line("- [ ] 5. **Temp Converter** - Convert between Celsius and Fahrenheit")
        .unwrap();
    assert_eq!(p.number, 5);
    assert_eq!(p.title, "Temp Converter");
    assert_eq!(p.description, "Convert between Celsius and Fahrenheit");
    assert!(!p.completed);
    assert_eq!(p.workspace_member, Some("basic-projects".to_string()));
}

#[test]
fn parses_completed_entry_with_glyph() {
    let p = parse_project_line("- [x] 32. 🔒 **Borrow Rules** - Play with references  ").unwrap();
    assert_eq!(p.number, 32);
    assert_eq!(p.title, "Borrow Rules");
    assert_eq!(p.description, "Play with references");
    assert!(p.completed);
    assert_eq!(p.workspace_member, Some("ownership-projects".to_string()));
}

#[test]
fn parses_indented_entry_and_trims_fields() {
    let p = parse_project_line("   - [ ] 140. **  Paint App ** -  Draw things ").unwrap();
    assert_eq!(p.number, 140);
    assert_eq!(p.title, "Paint App");
    assert_eq!(p.description, "Draw things");
    assert_eq!(p.workspace_member, Some("desktop-projects".to_string()));
}

#[test]
fn entry_outside_every_member_has_none() {
    let p = parse_project_line("- [ ] 151. **Beyond** - Past the roadmap").unwrap();
    assert_eq!(p.workspace_member, None);
}

#[test]
fn skips_malformed_lines() {
    assert!(parse_project_line("# Rust roadmap").is_none());
    assert!(parse_project_line("- [ ] 5. Temp Converter - no bold title").is_none());
    assert!(parse_project_line("- [y] 5. **Temp** - wrong mark").is_none());
    assert!(parse_project_line("- [ ] 5. **Temp** - ").is_none());
    assert!(parse_project_line("- [ ] five. **Temp** - not a number").is_none());
    assert!(parse_project_line("- [ ] 5. abc **Temp** - ASCII glyph").is_none());
    assert!(parse_project_line("- [ ] 99999999999. **Huge** - does not fit").is_none());
    assert!(parse_project_line("").is_none());
}

#[test]
fn parses_document_in_order() {
    let doc = "# Roadmap\n\n- [x] 1. 👋 **Hello World** - Print a greeting\n\
               some prose\r\n- [ ] 2. **Greeting** - Greet by name\r\n- [ ] 31. **Moves** - Ownership moves";
    let projects = parse_projects(doc).ok().unwrap();
    assert_eq!(projects.len(), 3);
    assert_eq!(projects[0].number, 1);
    assert!(projects[0].completed);
    assert_eq!(projects[0].title, "Hello World");
    assert_eq!(projects[1].number, 2);
    assert_eq!(projects[1].description, "Greet by name");
    assert_eq!(projects[2].number, 31);
    assert_eq!(projects[2].workspace_member, Some("ownership-projects".to_string()));
}

#[test]
fn document_without_entries_is_refused() {
    assert!(matches!(parse_projects("# Nothing here\n- [ ] not an entry"), Err(CatalogError::NoProjects)));
    assert!(matches!(parse_projects(""), Err(CatalogError::NoProjects)));
}

#[test]
fn rendered_line_parses_back() {
    let record = project(17, "Vector Stats", "Mean, median and mode", true);
    let line = render_project_line(&record);
    assert_eq!(line, "- [x] 17. **Vector Stats** - Mean, median and mode");
    let parsed = parse_project_line(&line).unwrap();
    assert_eq!(parsed.number, record.number);
    assert_eq!(parsed.title, record.title);
    assert_eq!(parsed.description, record.description);
    assert_eq!(parsed.completed, record.completed);
    assert_eq!(parsed.workspace_member, record.workspace_member);
}

#[test]
fn member_table() {
    assert_eq!(determine_workspace_member(0), None);
    assert_eq!(determine_workspace_member(1), Some("basic-projects".to_string()));
    assert_eq!(determine_workspace_member(30), Some("basic-projects".to_string()));
    assert_eq!(determine_workspace_member(31), Some("ownership-projects".to_string()));
    assert_eq!(determine_workspace_member(45), Some("ownership-projects".to_string()));
    assert_eq!(determine_workspace_member(46), Some("basic-projects".to_string()));
    assert_eq!(determine_workspace_member(66), Some("advanced-projects".to_string()));
    assert_eq!(determine_workspace_member(110), Some("advanced-projects".to_string()));
    assert_eq!(determine_workspace_member(111), Some("web-projects".to_string()));
    assert_eq!(determine_workspace_member(126), Some("desktop-projects".to_string()));
    assert_eq!(determine_workspace_member(141), Some("advanced-projects".to_string()));
    assert_eq!(determine_workspace_member(150), Some("advanced-projects".to_string()));
    assert_eq!(determine_workspace_member(151), None);
}

#[test]
fn member_is_stable_across_calls() {
    for n in [0u32, 1, 29, 44, 77, 120, 133, 149, 200, u32::MAX] {
        assert_eq!(determine_workspace_member(n), determine_workspace_member(n));
    }
}

#[test]
fn level_tables() {
    assert_eq!(get_project_level(0), 0);
    assert_eq!(get_project_level(15), 1);
    assert_eq!(get_project_level(16), 2);
    assert_eq!(get_project_level(100), 6);
    assert_eq!(get_project_level(150), 10);
    assert_eq!(get_project_level(151), 0);
    assert_eq!(get_level_name(1), "First Steps");
    assert_eq!(get_level_name(9), "Graphics, GUI & Desktop Apps");
    assert_eq!(get_level_name(11), "Unknown Level");
    assert_eq!(get_level_info(9), ("Graphics & Desktop Apps", (126, 140)));
    assert_eq!(get_level_info(0), ("Unknown", (0, 0)));
}
