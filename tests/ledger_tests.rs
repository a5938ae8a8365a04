use roadmap_tools::ledger::{
    calculate_level, calculate_total_xp, calculate_xp_to_next_level, previous_day,
    update_progress_data, Date, ProgressData, MAX_TRACKED, ProjectProgress, ProjectStatus, StreakData,
};

const TODAY: Date = Date { day: 739_000 };

fn day(offset: i32) -> Date {
    Date { day: TODAY.day + offset }
}

fn status(number: u32, implemented: bool, lines_of_code: u32) -> ProjectStatus {
    ProjectStatus { number, implemented, lines_of_code }
}

fn entry(date: Date, lines_of_code: u32) -> ProjectProgress {
    ProjectProgress { completed_date: date, lines_of_code, time_spent_minutes: None }
}

#[test]
fn xp_tables() {
    assert_eq!(calculate_total_xp(0), 0);
    assert_eq!(calculate_total_xp(10), 100);
    assert_eq!(calculate_total_xp(29), 290);
    assert_eq!(calculate_total_xp(30), 400);
    assert_eq!(calculate_total_xp(65), 900);
    assert_eq!(calculate_total_xp(100), 1500);
    assert_eq!(calculate_total_xp(150), 2500);
    assert_eq!(calculate_level(0), 1);
    assert_eq!(calculate_level(99), 1);
    assert_eq!(calculate_level(100), 2);
    assert_eq!(calculate_level(400), 3);
    assert_eq!(calculate_level(4099), 9);
    assert_eq!(calculate_level(4100), 10);
    assert_eq!(calculate_xp_to_next_level(1, 0), 100);
    assert_eq!(calculate_xp_to_next_level(3, 400), 100);
    assert_eq!(calculate_xp_to_next_level(10, 5000), 0);
    assert_eq!(calculate_xp_to_next_level(1, 150), 0);
}

#[test]
fn thirty_entries_give_bronze_bonus() {
    assert_eq!(calculate_total_xp(30), 300 + 100);
    assert_eq!(calculate_level(calculate_total_xp(30)), 3);
    let mut data = ProgressData::new(day(-10));
    for n in 1..=30u32 {
        data.projects.push((n, entry(day(-10), 5)));
    }
    update_progress_data(&mut data, &Vec::new(), TODAY);
    assert_eq!(data.xp.total, 400);
    assert_eq!(data.xp.level, 3);
    assert_eq!(data.xp.xp_to_next_level, 100);
}

#[test]
fn fresh_ledger() {
    let data = ProgressData::new(TODAY);
    assert_eq!(data.streak.current, 0);
    assert_eq!(data.streak.best, 0);
    assert_eq!(data.xp.level, 1);
    assert_eq!(data.xp.xp_to_next_level, 100);
    assert!(data.projects.is_empty());
    assert_eq!(data.stats.coding_velocity_trend, "starting");
    assert!(data.is_well_formed());
    let default = ProgressData::default();
    assert!(default.projects.is_empty());
    assert_eq!(default.xp.total, 0);
}

#[test]
fn xp_follows_entry_count() {
    let mut data = ProgressData::new(TODAY);
    update_progress_data(&mut data, &Vec::new(), TODAY);
    assert_eq!(data.xp.level, 1);
    assert_eq!(data.xp.total, 0);
    let statuses: Vec<ProjectStatus> = (1..=10u32).map(|n| status(n, true, 1)).collect();
    update_progress_data(&mut data, &statuses, TODAY);
    assert_eq!(data.projects.len(), 10);
    assert_eq!(data.xp.total, 100);
    assert_eq!(data.xp.level, 2);
    assert_eq!(data.xp.xp_to_next_level, 150);
}

#[test]
fn unimplemented_project_adds_no_entry() {
    let mut data = ProgressData::new(day(-3));
    update_progress_data(&mut data, &vec![status(5, false, 0)], TODAY);
    assert!(data.projects.is_empty());
    assert_eq!(data.stats.total_lines_of_code, 0);
    assert_eq!(data.streak.current, 0);
}

#[test]
fn new_implementation_is_tracked_once() {
    let mut data = ProgressData::new(day(-5));
    let statuses = vec![status(5, true, 40), status(6, false, 0), status(7, true, 60)];
    update_progress_data(&mut data, &statuses, TODAY);
    assert_eq!(data.projects.len(), 2);
    assert_eq!(data.projects[0].0, 5);
    assert_eq!(data.projects[0].1.completed_date, TODAY);
    assert_eq!(data.projects[0].1.lines_of_code, 40);
    assert_eq!(data.projects[1].0, 7);
    assert_eq!(data.stats.total_lines_of_code, 100);
    assert_eq!(data.stats.projects_this_week, 2);
    assert_eq!(data.streak.current, 1);
    assert_eq!(data.streak.best, 1);
    assert_eq!(data.streak.last_activity, TODAY);
    // Later counts do not replace the recorded ones.
    let recount = vec![status(5, true, 999), status(7, true, 60)];
    update_progress_data(&mut data, &recount, TODAY);
    assert_eq!(data.projects.len(), 2);
    assert_eq!(data.stats.total_lines_of_code, 100);
}

#[test]
fn streak_extends_from_yesterday() {
    let mut data = ProgressData::new(day(-1));
    data.streak = StreakData { current: 4, best: 4, last_activity: day(-1) };
    data.projects.push((3, entry(TODAY, 10)));
    update_progress_data(&mut data, &vec![status(3, true, 10)], TODAY);
    assert_eq!(data.streak.current, 5);
    assert_eq!(data.streak.best, 5);
    assert_eq!(data.streak.last_activity, TODAY);
}

#[test]
fn streak_restarts_after_gap() {
    let mut data = ProgressData::new(day(-3));
    data.streak = StreakData { current: 4, best: 9, last_activity: day(-3) };
    update_progress_data(&mut data, &vec![status(8, true, 10)], TODAY);
    assert_eq!(data.streak.current, 1);
    assert_eq!(data.streak.best, 9);
}

#[test]
fn quiet_day_after_yesterday_keeps_streak() {
    let mut data = ProgressData::new(day(-1));
    data.streak = StreakData { current: 3, best: 3, last_activity: day(-1) };
    update_progress_data(&mut data, &Vec::new(), TODAY);
    assert_eq!(data.streak.current, 3);
    assert_eq!(data.streak.last_activity, day(-1));
}

#[test]
fn quiet_day_after_gap_breaks_streak() {
    let mut data = ProgressData::new(day(-2));
    data.streak = StreakData { current: 3, best: 7, last_activity: day(-2) };
    update_progress_data(&mut data, &Vec::new(), TODAY);
    assert_eq!(data.streak.current, 0);
    assert_eq!(data.streak.best, 7);
    assert!(data.streak.best >= data.streak.current);
}

#[test]
fn week_counts_last_seven_days() {
    let mut data = ProgressData::new(day(-30));
    data.projects.push((1, entry(day(-8), 1)));
    data.projects.push((2, entry(day(-7), 1)));
    data.projects.push((3, entry(day(-6), 1)));
    data.projects.push((4, entry(day(-1), 1)));
    data.projects.push((5, entry(TODAY, 1)));
    data.projects.push((6, entry(day(1), 1)));
    update_progress_data(&mut data, &Vec::new(), TODAY);
    assert_eq!(data.stats.projects_this_week, 3);
}

#[test]
fn second_run_same_day_changes_nothing() {
    let mut data = ProgressData::new(day(-4));
    data.projects.push((1, entry(day(-4), 12)));
    let statuses = vec![status(1, true, 12), status(2, true, 30), status(3, false, 0)];
    update_progress_data(&mut data, &statuses, TODAY);
    let first = (data.projects.clone(), data.streak.current, data.streak.best, data.xp.total,
        data.stats.total_lines_of_code, data.stats.projects_this_week);
    update_progress_data(&mut data, &statuses, TODAY);
    let second = (data.projects.clone(), data.streak.current, data.streak.best, data.xp.total,
        data.stats.total_lines_of_code, data.stats.projects_this_week);
    assert_eq!(first.0.len(), second.0.len());
    for (a, b) in first.0.iter().zip(second.0.iter()) {
        assert_eq!(a.0, b.0);
        assert_eq!(a.1.completed_date, b.1.completed_date);
        assert_eq!(a.1.lines_of_code, b.1.lines_of_code);
    }
    assert_eq!(first.1, second.1);
    assert_eq!(first.2, second.2);
    assert_eq!(first.3, second.3);
    assert_eq!(first.4, second.4);
    assert_eq!(first.5, second.5);
    assert_eq!(second.1, 1);
}

#[test]
fn well_formedness_check() {
    let mut data = ProgressData::new(TODAY);
    data.projects.push((1, entry(TODAY, 1)));
    assert!(data.is_well_formed());
    data.projects.push((1, entry(TODAY, 2)));
    assert!(!data.is_well_formed());
    let mut bad = ProgressData::new(TODAY);
    bad.streak.current = 2;
    assert!(!bad.is_well_formed());
    assert!(bad.tracks(1) == false);
    assert!(data.tracks(1));
}

#[test]
fn day_before() {
    assert_eq!(previous_day(Date { day: 10 }), Date { day: 9 });
    assert_eq!(previous_day(Date { day: i32::MIN }), Date { day: i32::MIN });
}

#[test]
fn xp_at_largest_tracked_count() {
    let n = MAX_TRACKED as u32;
    assert_eq!(calculate_total_xp(n), 4_294_967_290);
    assert_eq!(calculate_level(calculate_total_xp(n)), 10);
    assert_eq!(calculate_level(u32::MAX), 10);
    assert_eq!(calculate_xp_to_next_level(10, u32::MAX), 0);
}

#[test]
fn second_run_same_day_keeps_extended_streak() {
    let mut data = ProgressData::new(day(-1));
    data.streak = StreakData { current: 4, best: 4, last_activity: day(-1) };
    data.projects.push((3, entry(TODAY, 10)));
    let statuses = vec![status(3, true, 10)];
    update_progress_data(&mut data, &statuses, TODAY);
    assert_eq!(data.streak.current, 5);
    update_progress_data(&mut data, &statuses, TODAY);
    assert_eq!(data.streak.current, 5);
    assert_eq!(data.streak.best, 5);
    assert_eq!(data.streak.last_activity, TODAY);
    assert_eq!(data.projects.len(), 1);
}

#[test]
fn first_run_starts_streak() {
    let mut data = ProgressData::new(TODAY);
    update_progress_data(&mut data, &vec![status(5, true, 12)], TODAY);
    assert_eq!(data.projects.len(), 1);
    assert_eq!(data.streak.current, 1);
    assert_eq!(data.streak.best, 1);
    assert_eq!(data.streak.last_activity, TODAY);
    let next_day = day(1);
    update_progress_data(&mut data, &vec![status(5, true, 12), status(6, true, 3)], next_day);
    assert_eq!(data.streak.current, 2);
    assert_eq!(data.streak.best, 2);
    update_progress_data(&mut data, &vec![status(5, true, 12), status(6, true, 3)], next_day);
    assert_eq!(data.streak.current, 2);
}
