use roadmap_tools::catalog::{determine_workspace_member, Project};
use roadmap_tools::dashboard::{
    get_encouragement, get_motivation_quote, get_rank_title, level_progress, workspace_breakdown,
};
use roadmap_tools::ledger::{Date, ProgressData, ProjectProgress};

fn project(number: u32) -> Project {
    Project {
        number,
        title: format!("P{}", number),
        description: String::new(),
        completed: false,
        workspace_member: determine_workspace_member(number),
    }
}

#[test]
fn rank_titles() {
    assert_eq!(get_rank_title(0), "Rust Rookie");
    assert_eq!(get_rank_title(10), "Rust Rookie");
    assert_eq!(get_rank_title(11), "Code Apprentice");
    assert_eq!(get_rank_title(65), "Syntax Warrior");
    assert_eq!(get_rank_title(100), "Memory Guardian");
    assert_eq!(get_rank_title(149), "Systems Architect");
    assert_eq!(get_rank_title(150), "Rust Legend");
}

#[test]
fn motivation_messages() {
    assert!(get_encouragement(0).contains("Great start"));
    assert!(get_encouragement(150).contains("LEGENDARY"));
    assert!(get_motivation_quote(0).contains("prevents entire classes of bugs"));
    assert_eq!(get_motivation_quote(6), get_motivation_quote(1));
}

#[test]
fn level_progress_counts() {
    let ps = vec![project(1), project(2), project(15), project(16), project(200)];
    let mut data = ProgressData::new(Date { day: 1000 });
    let done = ProjectProgress { completed_date: Date { day: 1000 }, lines_of_code: 3, time_spent_minutes: None };
    data.projects.push((2, done));
    data.projects.push((16, done));
    assert_eq!(level_progress(&ps, &data, 1), (1, 3));
    assert_eq!(level_progress(&ps, &data, 2), (1, 1));
    assert_eq!(level_progress(&ps, &data, 3), (0, 0));
}

#[test]
fn member_breakdown_in_order_of_appearance() {
    let ps = vec![project(31), project(1), project(32), project(2), project(200), project(47)];
    let mut data = ProgressData::new(Date { day: 1000 });
    let done = ProjectProgress { completed_date: Date { day: 1000 }, lines_of_code: 3, time_spent_minutes: None };
    data.projects.push((1, done));
    data.projects.push((32, done));
    data.projects.push((47, done));
    let rows = workspace_breakdown(&ps, &data);
    let got: Vec<(String, usize, usize)> = rows.iter().map(|r| (r.name.clone(), r.completed, r.total)).collect();
    assert_eq!(
        got,
        vec![
            ("ownership-projects".to_string(), 1, 2),
            ("basic-projects".to_string(), 2, 3),
        ]
    );
}
