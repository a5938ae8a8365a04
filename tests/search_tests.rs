use roadmap_tools::search::{
    collect_matches,
    search_in_workspace_member, shortcut_pattern, DefinitionKind, Matcher, SearchError,
    SourceFile,
};

fn file(path: &str, content: &str) -> SourceFile {
    SourceFile { path: path.to_string(), content: content.to_string() }
}

#[test]
fn finds_function_definition() {
    let m = Matcher::new(r"fn\s+\w+\s*\(", false).ok().unwrap();
    let files = vec![file("src/bin/01_hello.rs", "// hello\n\nfn main() {\n    println!(\"hi\");\n}\n")];
    let found = search_in_workspace_member(&m, "basic-projects", &files);
    assert_eq!(found.len(), 1);
    assert_eq!(found[0].line_number, 3);
    assert_eq!(found[0].file_path, "src/bin/01_hello.rs");
    assert_eq!(found[0].line_content, "fn main() {");
    assert_eq!(found[0].workspace, "basic-projects");
}

#[test]
fn matches_in_file_then_line_order() {
    let m = Matcher::new("let", false).ok().unwrap();
    let files = vec![
        file("src/a.rs", "let a = 1;\nlet b = 2;\r\nfn f() {}"),
        file("src/b.rs", "x\nlet c = 3;"),
        file("src/c.rs", ""),
    ];
    let found = search_in_workspace_member(&m, "web-projects", &files);
    let got: Vec<(String, usize)> = found.iter().map(|f| (f.file_path.clone(), f.line_number)).collect();
    assert_eq!(
        got,
        vec![("src/a.rs".to_string(), 1), ("src/a.rs".to_string(), 2), ("src/b.rs".to_string(), 2)]
    );
    assert_eq!(found[1].line_content, "let b = 2;");
}

#[test]
fn case_setting_is_honoured() {
    let files = vec![file("src/lib.rs", "struct Point;\nSTRUCT X")];
    let exact = Matcher::new("struct", false).ok().unwrap();
    assert_eq!(search_in_workspace_member(&exact, "m", &files).len(), 1);
    let loose = Matcher::new("struct", true).ok().unwrap();
    assert_eq!(search_in_workspace_member(&loose, "m", &files).len(), 2);
}

#[test]
fn anchors_apply_per_line() {
    let m = Matcher::new("^}$", false).ok().unwrap();
    let files = vec![file("src/main.rs", "fn main() {\n}\n    }\n")];
    let found = search_in_workspace_member(&m, "m", &files);
    assert_eq!(found.len(), 1);
    assert_eq!(found[0].line_number, 2);
}

#[test]
fn tools_member_is_skipped() {
    let m = Matcher::new("fn", false).ok().unwrap();
    let files = vec![file("src/lib.rs", "fn a() {}")];
    assert!(search_in_workspace_member(&m, "tools", &files).is_empty());
}

#[test]
fn invalid_pattern_is_reported() {
    match Matcher::new("fn(", false) {
        Err(SearchError::InvalidPattern(msg)) => assert!(!msg.is_empty()),
        Ok(_) => panic!("pattern should not compile"),
    }
    assert!(Matcher::new("fn(", true).is_err());
    assert!(Matcher::new("fn\\(", false).is_ok());
}

#[test]
fn matcher_is_match() {
    let m = Matcher::new("a|b", false).ok().unwrap();
    assert!(m.is_match("xxb"));
    assert!(!m.is_match("xyz"));
}

#[test]
fn shortcut_patterns() {
    assert_eq!(shortcut_pattern(DefinitionKind::Struct), r"struct\s+\w+");
    assert_eq!(shortcut_pattern(DefinitionKind::Function), r"fn\s+\w+\s*\(");
    assert_eq!(shortcut_pattern(DefinitionKind::Trait), r"trait\s+\w+");
    assert_eq!(shortcut_pattern(DefinitionKind::Enum), r"enum\s+\w+");
    let m = Matcher::new(shortcut_pattern(DefinitionKind::Enum), false).ok().unwrap();
    assert!(m.is_match("pub enum Color {"));
}

#[test]
fn collects_flagged_lines() {
    let lines: Vec<String> = vec!["a".to_string(), "b".to_string(), "c".to_string()];
    let found = collect_matches("m", "src/x.rs", &lines, &vec![false, true, true]);
    assert_eq!(found.len(), 2);
    assert_eq!(found[0].line_number, 2);
    assert_eq!(found[0].line_content, "b");
    assert_eq!(found[1].line_number, 3);
    assert_eq!(found[1].file_path, "src/x.rs");
    assert_eq!(found[1].workspace, "m");
    assert!(collect_matches("m", "p", &lines, &vec![false, false, false]).is_empty());
}
