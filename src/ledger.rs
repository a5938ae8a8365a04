//! The progress ledger: streak, experience and per-project statistics,
//! reconciled once per run against which projects are implemented.
use vstd::prelude::*;

verus! {

/// A calendar day, as its number of days from the common era (the first
/// of January of year 1 is day 1).
#[derive(PartialEq, Eq, Structural, Clone, Copy, Debug)]
pub struct Date {
    pub day: i32,
}

/// The day before `d`; the earliest day has none and stands for itself.
pub open spec fn day_before(d: Date) -> Date {
    if d.day > i32::MIN {
        Date { day: (d.day - 1) as i32 }
    } else {
        d
    }
}

/// Relies on chrono's `Local::now` and `Datelike::num_days_from_ce`: the
/// local date now, as a day number. Nothing is known of which day it is.
#[verifier::external_body]
pub(crate) fn local_today() -> (r: Date) {
    Date { day: chrono::Datelike::num_days_from_ce(&chrono::Local::now().date_naive()) }
}

#[derive(Clone, Copy, Debug)]
pub struct StreakData {
    pub current: u32,
    pub best: u32,
    pub last_activity: Date,
}

#[derive(Clone, Copy, Debug)]
pub struct XpData {
    pub total: u32,
    pub level: u32,
    pub xp_to_next_level: u32,
}

/// What the ledger keeps of one implemented project.
#[derive(Clone, Copy, Debug)]
pub struct ProjectProgress {
    pub completed_date: Date,
    pub lines_of_code: u32,
    pub time_spent_minutes: Option<u32>,
}

/// Aggregate statistics. The average number of lines per project is
/// `total_lines_of_code` over the number of tracked projects.
pub struct Stats {
    pub total_lines_of_code: u32,
    pub projects_this_week: u32,
    pub coding_velocity_trend: String,
}

/// The persisted progress document. `projects` maps a project number to
/// its progress, one pair per number; a run appends the projects it starts
/// tracking. The pairs are a vector rather than a `HashMap` so that the
/// counts over them (today, this week) and the lookups are proved over an
/// ordered sequence, and so that a run's result does not depend on the
/// order in which a map is walked.
pub struct ProgressData {
    pub streak: StreakData,
    pub xp: XpData,
    pub projects: Vec<(u32, ProjectProgress)>,
    pub stats: Stats,
}

/// The mathematical content of a progress document.
pub struct Ledger {
    pub streak: StreakData,
    pub xp: XpData,
    pub projects: Seq<(u32, ProjectProgress)>,
    pub total_lines_of_code: u32,
    pub projects_this_week: u32,
    pub coding_velocity_trend: Seq<char>,
}

impl View for ProgressData {
    type V = Ledger;

    open spec fn view(&self) -> Ledger {
        Ledger {
            streak: self.streak,
            xp: self.xp,
            projects: self.projects@,
            total_lines_of_code: self.stats.total_lines_of_code,
            projects_this_week: self.stats.projects_this_week,
            coding_velocity_trend: self.stats.coding_velocity_trend@,
        }
    }
}

/// What one run found of one catalog project: whether it is implemented,
/// and the lines of code of its file, counted when it is implemented and not
/// yet tracked (otherwise unused).
#[derive(Clone, Copy, Debug)]
pub struct ProjectStatus {
    pub number: u32,
    pub implemented: bool,
    pub lines_of_code: u32,
}

/// The largest number of tracked projects whose experience fits in 32 bits.
pub const MAX_TRACKED: usize = 429_496_629;

/// Experience for `n` completed projects: ten each, plus a milestone bonus
/// at 30, 65, 100 and 150 projects.
pub open spec fn total_xp(n: nat) -> nat {
    n * 10 + if n >= 150 {
        1000nat
    } else if n >= 100 {
        500nat
    } else if n >= 65 {
        250nat
    } else if n >= 30 {
        100nat
    } else {
        0nat
    }
}

/// The level reached with `xp` experience.
pub open spec fn level_of(xp: nat) -> nat {
    if xp < 100 {
        1
    } else if xp < 250 {
        2
    } else if xp < 500 {
        3
    } else if xp < 850 {
        4
    } else if xp < 1300 {
        5
    } else if xp < 1850 {
        6
    } else if xp < 2500 {
        7
    } else if xp < 3250 {
        8
    } else if xp < 4100 {
        9
    } else {
        10
    }
}

/// The experience at which `level` ends; at the top level, `xp` itself.
pub open spec fn level_end(level: nat, xp: nat) -> nat {
    if level == 1 {
        100
    } else if level == 2 {
        250
    } else if level == 3 {
        500
    } else if level == 4 {
        850
    } else if level == 5 {
        1300
    } else if level == 6 {
        1850
    } else if level == 7 {
        2500
    } else if level == 8 {
        3250
    } else if level == 9 {
        4100
    } else {
        xp
    }
}

/// Experience still needed to leave `level`, none when it is already past.
pub open spec fn xp_to_next(level: nat, xp: nat) -> nat {
    if level_end(level, xp) >= xp {
        (level_end(level, xp) - xp) as nat
    } else {
        0
    }
}

/// The experience state of a ledger with `n` tracked projects.
pub open spec fn xp_for(n: nat) -> XpData {
    XpData {
        total: total_xp(n) as u32,
        level: level_of(total_xp(n)) as u32,
        xp_to_next_level: xp_to_next(level_of(total_xp(n)), total_xp(n)) as u32,
    }
}

pub fn calculate_total_xp(completed_projects: u32) -> (r: u32)
    requires
        completed_projects <= MAX_TRACKED,
    ensures
        r == total_xp(completed_projects as nat),
{
    let base_xp = completed_projects * 10;
    let milestone_bonus: u32 = if completed_projects >= 150 {
        1000
    } else if completed_projects >= 100 {
        500
    } else if completed_projects >= 65 {
        250
    } else if completed_projects >= 30 {
        100
    } else {
        0
    };
    base_xp + milestone_bonus
}

pub fn calculate_level(total_xp: u32) -> (r: u32)
    ensures
        r == level_of(total_xp as nat),
{
    if total_xp < 100 {
        1
    } else if total_xp < 250 {
        2
    } else if total_xp < 500 {
        3
    } else if total_xp < 850 {
        4
    } else if total_xp < 1300 {
        5
    } else if total_xp < 1850 {
        6
    } else if total_xp < 2500 {
        7
    } else if total_xp < 3250 {
        8
    } else if total_xp < 4100 {
        9
    } else {
        10
    }
}

pub fn calculate_xp_to_next_level(level: u32, current_xp: u32) -> (r: u32)
    ensures
        r == xp_to_next(level as nat, current_xp as nat),
{
    let next_level_xp: u32 = if level == 1 {
        100
    } else if level == 2 {
        250
    } else if level == 3 {
        500
    } else if level == 4 {
        850
    } else if level == 5 {
        1300
    } else if level == 6 {
        1850
    } else if level == 7 {
        2500
    } else if level == 8 {
        3250
    } else if level == 9 {
        4100
    } else {
        current_xp
    };
    next_level_xp.saturating_sub(current_xp)
}

/// The progress of project `n` in `ps`: that of its last pair.
pub open spec fn lookup(ps: Seq<(u32, ProjectProgress)>, n: u32) -> Option<ProjectProgress>
    decreases ps.len(),
{
    if ps.len() == 0 {
        None
    } else if ps.last().0 == n {
        Some(ps.last().1)
    } else {
        lookup(ps.drop_last(), n)
    }
}

/// No project number appears twice in `ps`.
pub open spec fn keys_unique(ps: Seq<(u32, ProjectProgress)>) -> bool {
    forall|i: int, j: int| 0 <= i < j < ps.len() ==> #[trigger] ps[i].0 != #[trigger] ps[j].0
}

/// What one status does to the tracked projects: an implemented project
/// that is not tracked yet is added, dated `today`.
pub open spec fn absorb(ps: Seq<(u32, ProjectProgress)>, s: ProjectStatus, today: Date) -> Seq<
    (u32, ProjectProgress),
> {
    if s.implemented && lookup(ps, s.number) is None {
        ps.push(
            (
                s.number,
                ProjectProgress {
                    completed_date: today,
                    lines_of_code: s.lines_of_code,
                    time_spent_minutes: None,
                },
            ),
        )
    } else {
        ps
    }
}

/// The tracked projects once every status of `ss` is absorbed, in order.
pub open spec fn projects_after(ps: Seq<(u32, ProjectProgress)>, ss: Seq<ProjectStatus>, today: Date) -> Seq<
    (u32, ProjectProgress),
>
    decreases ss.len(),
{
    if ss.len() == 0 {
        ps
    } else {
        absorb(projects_after(ps, ss.drop_last(), today), ss.last(), today)
    }
}

/// The lines of code of a tracked project, none when it is not tracked.
pub open spec fn lines_of(p: Option<ProjectProgress>) -> nat {
    match p {
        Some(p) => p.lines_of_code as nat,
        None => 0,
    }
}

/// The lines of code of the implemented projects of `ss`, each taken from
/// the tracked projects once its status is absorbed.
pub open spec fn lines_after(ps: Seq<(u32, ProjectProgress)>, ss: Seq<ProjectStatus>, today: Date) -> nat
    decreases ss.len(),
{
    if ss.len() == 0 {
        0
    } else {
        lines_after(ps, ss.drop_last(), today) + if ss.last().implemented {
            lines_of(lookup(projects_after(ps, ss, today), ss.last().number))
        } else {
            0
        }
    }
}

/// How many tracked projects were completed on `d`.
pub open spec fn count_on(ps: Seq<(u32, ProjectProgress)>, d: Date) -> nat
    decreases ps.len(),
{
    if ps.len() == 0 {
        0
    } else {
        count_on(ps.drop_last(), d) + if ps.last().1.completed_date == d {
            1nat
        } else {
            0nat
        }
    }
}

/// How many tracked projects were completed from day `first` to day `last`,
/// both included.
pub open spec fn count_between(ps: Seq<(u32, ProjectProgress)>, first: int, last: int) -> nat
    decreases ps.len(),
{
    if ps.len() == 0 {
        0
    } else {
        count_between(ps.drop_last(), first, last) + if first <= ps.last().1.completed_date.day
            <= last {
            1nat
        } else {
            0nat
        }
    }
}

/// The streak after a run on `today`, `active` telling whether some tracked
/// project was completed today. An active day already counted (the last
/// activity is today) keeps the streak, counting today when it was still
/// empty (as in a fresh ledger); otherwise it extends a streak whose last
/// activity was the day before and starts a new one. A day without activity
/// breaks the streak only once the last activity is older than the day
/// before.
pub open spec fn next_streak(s: StreakData, active: bool, today: Date) -> StreakData {
    if active && s.last_activity == today {
        let current = if s.current == 0 {
            1u32
        } else {
            s.current
        };
        StreakData {
            current,
            best: if s.best >= current {
                s.best
            } else {
                current
            },
            last_activity: today,
        }
    } else if active {
        let current = if s.last_activity == day_before(today) {
            if s.current < u32::MAX {
                (s.current + 1) as u32
            } else {
                s.current
            }
        } else {
            1u32
        };
        StreakData {
            current,
            best: if s.best >= current {
                s.best
            } else {
                current
            },
            last_activity: today,
        }
    } else if s.last_activity.day < day_before(today).day {
        StreakData { current: 0, ..s }
    } else {
        s
    }
}

/// The ledger after one reconciling run on `today` with the catalog's
/// statuses `ss`.
pub open spec fn reconciled(l: Ledger, ss: Seq<ProjectStatus>, today: Date) -> Ledger {
    let ps = projects_after(l.projects, ss, today);
    let lines = lines_after(l.projects, ss, today);
    Ledger {
        streak: next_streak(l.streak, count_on(ps, today) > 0, today),
        xp: xp_for(ps.len()),
        projects: ps,
        total_lines_of_code: if lines <= u32::MAX {
            lines as u32
        } else {
            u32::MAX
        },
        projects_this_week: count_between(ps, today.day - 6, today.day as int) as u32,
        coding_velocity_trend: l.coding_velocity_trend,
    }
}

/// A ledger's invariant: one pair per project number, a best streak no
/// shorter than the current one, and few enough projects for their
/// experience to fit in 32 bits.
pub open spec fn ledger_wf(l: Ledger) -> bool {
    &&& keys_unique(l.projects)
    &&& l.streak.best >= l.streak.current
    &&& l.projects.len() <= MAX_TRACKED
}

proof fn lemma_lookup_at(ps: Seq<(u32, ProjectProgress)>, n: u32, j: int)
    requires
        0 <= j < ps.len(),
        ps[j].0 == n,
        forall|k: int| j < k < ps.len() ==> #[trigger] ps[k].0 != n,
    ensures
        lookup(ps, n) == Some(ps[j].1),
    decreases ps.len(),
{
    if j < ps.len() - 1 {
        assert(ps.last().0 != n);
        let q = ps.drop_last();
        assert forall|k: int| j < k < q.len() implies #[trigger] q[k].0 != n by {
            assert(q[k] == ps[k]);
        }
        lemma_lookup_at(q, n, j);
    }
}

proof fn lemma_lookup_absent(ps: Seq<(u32, ProjectProgress)>, n: u32)
    ensures
        lookup(ps, n) is None <==> forall|k: int| 0 <= k < ps.len() ==> #[trigger] ps[k].0 != n,
    decreases ps.len(),
{
    if ps.len() > 0 {
        let q = ps.drop_last();
        lemma_lookup_absent(q, n);
        if lookup(ps, n) is None {
            assert forall|k: int| 0 <= k < ps.len() implies #[trigger] ps[k].0 != n by {
                if k < ps.len() - 1 {
                    assert(q[k] == ps[k]);
                }
            }
        } else {
            if ps.last().0 != n {
                let k = choose|k: int| 0 <= k < q.len() && #[trigger] q[k].0 == n;
                assert(ps[k] == q[k]);
            }
        }
    }
}

/// Index of the pair of project `n` in `ps`, the last one if several.
fn find_project(ps: &Vec<(u32, ProjectProgress)>, n: u32) -> (r: Option<usize>)
    ensures
        match r {
            Some(j) => j < ps.len() && ps@[j as int].0 == n && lookup(ps@, n) == Some(
                ps@[j as int].1,
            ),
            None => lookup(ps@, n) is None,
        },
{
    let mut k = ps.len();
    while k > 0
        invariant
            k <= ps.len(),
            forall|m: int| k <= m < ps.len() ==> #[trigger] ps@[m].0 != n,
        decreases k,
    {
        if ps[k - 1].0 == n {
            proof {
                lemma_lookup_at(ps@, n, k - 1);
            }
            return Some(k - 1);
        }
        k = k - 1;
    }
    proof {
        lemma_lookup_absent(ps@, n);
    }
    None
}

/// How many tracked projects were completed on `d`.
fn count_completed_on(ps: &Vec<(u32, ProjectProgress)>, d: Date) -> (r: u32)
    requires
        ps.len() <= MAX_TRACKED,
    ensures
        r == count_on(ps@, d),
{
    let mut c: u32 = 0;
    let mut i: usize = 0;
    while i < ps.len()
        invariant
            i <= ps.len() <= MAX_TRACKED,
            c == count_on(ps@.take(i as int), d),
            c <= i,
        decreases ps.len() - i,
    {
        assert(ps@.take(i + 1).drop_last() =~= ps@.take(i as int));
        if ps[i].1.completed_date == d {
            c = c + 1;
        }
        i = i + 1;
    }
    assert(ps@.take(ps.len() as int) =~= ps@);
    c
}

/// How many tracked projects were completed from day `first` to day `last`.
fn count_completed_between(ps: &Vec<(u32, ProjectProgress)>, first: i64, last: i64) -> (r: u32)
    requires
        ps.len() <= MAX_TRACKED,
    ensures
        r == count_between(ps@, first as int, last as int),
{
    let mut c: u32 = 0;
    let mut i: usize = 0;
    while i < ps.len()
        invariant
            i <= ps.len() <= MAX_TRACKED,
            c == count_between(ps@.take(i as int), first as int, last as int),
            c <= i,
        decreases ps.len() - i,
    {
        assert(ps@.take(i + 1).drop_last() =~= ps@.take(i as int));
        let day = ps[i].1.completed_date.day as i64;
        if first <= day && day <= last {
            c = c + 1;
        }
        i = i + 1;
    }
    assert(ps@.take(ps.len() as int) =~= ps@);
    c
}

/// The day before `d`, or `d` itself when it is the earliest day.
pub fn previous_day(d: Date) -> (r: Date)
    ensures
        r == day_before(d),
{
    if d.day > i32::MIN {
        Date { day: d.day - 1 }
    } else {
        d
    }
}

/// The streak after a run on `today`.
fn update_streak(s: StreakData, active: bool, today: Date) -> (r: StreakData)
    ensures
        r == next_streak(s, active, today),
{
    let yesterday = previous_day(today);
    if active && s.last_activity == today {
        let current = if s.current == 0 {
            1
        } else {
            s.current
        };
        StreakData {
            current,
            best: if s.best >= current {
                s.best
            } else {
                current
            },
            last_activity: today,
        }
    } else if active {
        let current = if s.last_activity == yesterday {
            s.current.saturating_add(1)
        } else {
            1
        };
        StreakData {
            current,
            best: if s.best >= current {
                s.best
            } else {
                current
            },
            last_activity: today,
        }
    } else if s.last_activity.day < yesterday.day {
        StreakData { current: 0, best: s.best, last_activity: s.last_activity }
    } else {
        s
    }
}

proof fn lemma_absorb_keeps_unique(ps: Seq<(u32, ProjectProgress)>, s: ProjectStatus, today: Date)
    requires
        keys_unique(ps),
    ensures
        keys_unique(absorb(ps, s, today)),
        absorb(ps, s, today).len() <= ps.len() + 1,
{
    if s.implemented && lookup(ps, s.number) is None {
        lemma_lookup_absent(ps, s.number);
        let q = absorb(ps, s, today);
        assert forall|i: int, j: int| 0 <= i < j < q.len() implies #[trigger] q[i].0
            != #[trigger] q[j].0 by {
            if j == ps.len() {
                assert(q[i] == ps[i]);
            } else {
                assert(q[i] == ps[i]);
                assert(q[j] == ps[j]);
            }
        }
    }
}

/// Reconcile the ledger with the catalog on `today`: track each implemented
/// project that is not tracked yet, dated today with its counted lines;
/// total the lines of the implemented projects (saturating at `u32::MAX`);
/// update the streak; recompute experience from the number of tracked
/// projects; count the projects completed in the last seven days.
pub fn update_progress_data(progress_data: &mut ProgressData, statuses: &Vec<ProjectStatus>, today: Date)
    requires
        ledger_wf(old(progress_data)@),
        old(progress_data).projects.len() + statuses.len() <= MAX_TRACKED,
    ensures
        final(progress_data)@ == reconciled(old(progress_data)@, statuses@, today),
        ledger_wf(final(progress_data)@),
        final(progress_data).streak.best >= final(progress_data).streak.current,
{
    let ghost start = progress_data.projects@;
    let mut total_lines: u32 = 0;
    let mut i: usize = 0;
    while i < statuses.len()
        invariant
            i <= statuses.len(),
            start.len() + statuses.len() <= MAX_TRACKED,
            progress_data.streak == old(progress_data).streak,
            progress_data.stats.coding_velocity_trend@ == old(
                progress_data,
            ).stats.coding_velocity_trend@,
            progress_data.streak.best >= progress_data.streak.current,
            progress_data.projects@ == projects_after(start, statuses@.take(i as int), today),
            keys_unique(progress_data.projects@),
            progress_data.projects.len() <= start.len() + i,
            total_lines == if lines_after(start, statuses@.take(i as int), today) <= u32::MAX {
                lines_after(start, statuses@.take(i as int), today)
            } else {
                u32::MAX as nat
            },
        decreases statuses.len() - i,
    {
        let s = statuses[i];
        let ghost ps0 = progress_data.projects@;
        proof {
            let t = statuses@.take(i + 1);
            assert(t.drop_last() =~= statuses@.take(i as int));
            assert(t.last() == s);
            lemma_absorb_keeps_unique(ps0, s, today);
        }
        let found = find_project(&progress_data.projects, s.number);
        let lines: u32 = match found {
            Some(j) => progress_data.projects[j].1.lines_of_code,
            None => s.lines_of_code,
        };
        if s.implemented {
            if found.is_none() {
                progress_data.projects.push(
                    (
                        s.number,
                        ProjectProgress {
                            completed_date: today,
                            lines_of_code: s.lines_of_code,
                            time_spent_minutes: None,
                        },
                    ),
                );
                assert(progress_data.projects@.drop_last() =~= ps0);
            }
            total_lines = total_lines.saturating_add(lines);
        }
        i = i + 1;
    }
    assert(statuses@.take(statuses.len() as int) =~= statuses@);
    let active = count_completed_on(&progress_data.projects, today) > 0;
    progress_data.streak = update_streak(progress_data.streak, active, today);
    let completed_projects = progress_data.projects.len() as u32;
    let total = calculate_total_xp(completed_projects);
    let level = calculate_level(total);
    progress_data.xp = XpData {
        total,
        level,
        xp_to_next_level: calculate_xp_to_next_level(level, total),
    };
    progress_data.stats.total_lines_of_code = total_lines;
    progress_data.stats.projects_this_week = count_completed_between(
        &progress_data.projects,
        today.day as i64 - 6,
        today.day as i64,
    );
}

proof fn lemma_absorb_keeps_lookup(ps: Seq<(u32, ProjectProgress)>, s: ProjectStatus, today: Date, n: u32)
    requires
        lookup(ps, n) is Some,
    ensures
        lookup(absorb(ps, s, today), n) == lookup(ps, n),
{
    let q = absorb(ps, s, today);
    if q != ps {
        assert(q.drop_last() =~= ps);
    }
}

proof fn lemma_absorb_tracks(ps: Seq<(u32, ProjectProgress)>, s: ProjectStatus, today: Date)
    requires
        s.implemented,
    ensures
        lookup(absorb(ps, s, today), s.number) is Some,
{
    let q = absorb(ps, s, today);
    if q != ps {
        assert(q.last().0 == s.number);
    }
}

proof fn lemma_prefix_step(ps: Seq<(u32, ProjectProgress)>, ss: Seq<ProjectStatus>, today: Date, m: int)
    requires
        0 <= m < ss.len(),
    ensures
        projects_after(ps, ss.take(m + 1), today) == absorb(
            projects_after(ps, ss.take(m), today),
            ss[m],
            today,
        ),
{
    assert(ss.take(m + 1).drop_last() =~= ss.take(m));
    assert(ss.take(m + 1).last() == ss[m]);
}

/// Once tracked after a prefix of the statuses, a project keeps its
/// progress through the rest.
proof fn lemma_prefix_keeps_lookup(ps: Seq<(u32, ProjectProgress)>, ss: Seq<ProjectStatus>, today: Date, n: u32, m: int)
    requires
        0 <= m <= ss.len(),
        lookup(projects_after(ps, ss.take(m), today), n) is Some,
    ensures
        lookup(projects_after(ps, ss, today), n) == lookup(
            projects_after(ps, ss.take(m), today),
            n,
        ),
    decreases ss.len() - m,
{
    if m == ss.len() {
        assert(ss.take(m) =~= ss);
    } else {
        lemma_prefix_step(ps, ss, today, m);
        lemma_absorb_keeps_lookup(projects_after(ps, ss.take(m), today), ss[m], today, n);
        lemma_prefix_keeps_lookup(ps, ss, today, n, m + 1);
    }
}

/// Every implemented project of the statuses is tracked once they are
/// absorbed.
proof fn lemma_implemented_tracked(ps: Seq<(u32, ProjectProgress)>, ss: Seq<ProjectStatus>, today: Date, k: int)
    requires
        0 <= k < ss.len(),
        ss[k].implemented,
    ensures
        lookup(projects_after(ps, ss, today), ss[k].number) is Some,
{
    lemma_prefix_step(ps, ss, today, k);
    lemma_absorb_tracks(projects_after(ps, ss.take(k), today), ss[k], today);
    lemma_prefix_keeps_lookup(ps, ss, today, ss[k].number, k + 1);
}

/// Statuses whose implemented projects are all tracked change nothing.
proof fn lemma_absorb_all_tracked(ps: Seq<(u32, ProjectProgress)>, ss: Seq<ProjectStatus>, today: Date)
    requires
        forall|k: int|
            0 <= k < ss.len() && #[trigger] ss[k].implemented ==> lookup(ps, ss[k].number) is Some,
    ensures
        projects_after(ps, ss, today) == ps,
    decreases ss.len(),
{
    if ss.len() > 0 {
        let q = ss.drop_last();
        assert forall|k: int| 0 <= k < q.len() && #[trigger] q[k].implemented implies lookup(
            ps,
            q[k].number,
        ) is Some by {
            assert(q[k] == ss[k]);
        }
        lemma_absorb_all_tracked(ps, q, today);
        if ss.last().implemented {
            assert(lookup(ps, ss[ss.len() - 1].number) is Some);
        }
    }
}

proof fn lemma_second_pass_lines(ps: Seq<(u32, ProjectProgress)>, ss: Seq<ProjectStatus>, today: Date, m: int)
    requires
        0 <= m <= ss.len(),
    ensures
        lines_after(projects_after(ps, ss, today), ss.take(m), today) == lines_after(
            ps,
            ss.take(m),
            today,
        ),
    decreases m,
{
    let ps1 = projects_after(ps, ss, today);
    if m > 0 {
        lemma_second_pass_lines(ps, ss, today, m - 1);
        let t = ss.take(m);
        assert(t.drop_last() =~= ss.take(m - 1));
        assert(t.last() == ss[m - 1]);
        let n = ss[m - 1].number;
        if ss[m - 1].implemented {
            assert forall|k: int| 0 <= k < t.len() && #[trigger] t[k].implemented implies lookup(
                ps1,
                t[k].number,
            ) is Some by {
                assert(t[k] == ss[k]);
                lemma_implemented_tracked(ps, ss, today, k);
            }
            lemma_absorb_all_tracked(ps1, t, today);
            assert(t[m - 1] == ss[m - 1]);
            lemma_implemented_tracked(ps, t, today, m - 1);
            lemma_prefix_keeps_lookup(ps, ss, today, n, m);
        }
    }
}

/// Reconciling twice on the same day with the same statuses gives the same
/// ledger as reconciling once: no project is tracked twice and no streak is
/// extended twice.
pub proof fn lemma_reconcile_idempotent(l: Ledger, ss: Seq<ProjectStatus>, today: Date)
    ensures
        reconciled(reconciled(l, ss, today), ss, today) == reconciled(l, ss, today),
{
    let r1 = reconciled(l, ss, today);
    let ps1 = projects_after(l.projects, ss, today);
    assert forall|k: int| 0 <= k < ss.len() && #[trigger] ss[k].implemented implies lookup(
        ps1,
        ss[k].number,
    ) is Some by {
        lemma_implemented_tracked(l.projects, ss, today, k);
    }
    lemma_absorb_all_tracked(ps1, ss, today);
    lemma_second_pass_lines(l.projects, ss, today, ss.len() as int);
    assert(ss.take(ss.len() as int) =~= ss);
}

/// Every reconciliation leaves the best streak at least as long as the
/// current one.
pub proof fn lemma_best_streak_bounds_current(l: Ledger, ss: Seq<ProjectStatus>, today: Date)
    requires
        l.streak.best >= l.streak.current,
    ensures
        reconciled(l, ss, today).streak.best >= reconciled(l, ss, today).streak.current,
{
}

/// A fresh ledger on `today`: no streak, level 1, nothing tracked.
pub open spec fn fresh_ledger(today: Date) -> Ledger {
    Ledger {
        streak: StreakData { current: 0, best: 0, last_activity: today },
        xp: XpData { total: 0, level: 1, xp_to_next_level: 100 },
        projects: seq![],
        total_lines_of_code: 0,
        projects_this_week: 0,
        coding_velocity_trend: "starting"@,
    }
}

impl ProgressData {
    /// The ledger of a first run on `today`.
    pub fn new(today: Date) -> (r: ProgressData)
        ensures
            r@ == fresh_ledger(today),
            ledger_wf(r@),
    {
        ProgressData {
            streak: StreakData { current: 0, best: 0, last_activity: today },
            xp: XpData { total: 0, level: 1, xp_to_next_level: 100 },
            projects: Vec::new(),
            stats: Stats {
                total_lines_of_code: 0,
                projects_this_week: 0,
                coding_velocity_trend: "starting".to_string(),
            },
        }
    }

    /// Whether a loaded ledger meets the invariant that reconciling needs.
    pub fn is_well_formed(&self) -> (r: bool)
        ensures
            r == ledger_wf(self@),
    {
        if self.streak.best < self.streak.current || self.projects.len() > MAX_TRACKED {
            return false;
        }
        let n = self.projects.len();
        let mut j: usize = 0;
        while j < n
            invariant
                j <= n == self.projects.len(),
                forall|a: int, b: int|
                    0 <= a < b < j ==> #[trigger] self.projects@[a].0 != #[trigger] self.projects@[b].0,
            decreases n - j,
        {
            let mut i: usize = 0;
            while i < j
                invariant
                    i <= j < n == self.projects.len(),
                    forall|a: int| 0 <= a < i ==> #[trigger] self.projects@[a].0 != self.projects@[j as int].0,
                decreases j - i,
            {
                if self.projects[i].0 == self.projects[j].0 {
                    return false;
                }
                i = i + 1;
            }
            j = j + 1;
        }
        true
    }

    /// Whether project `number` is tracked.
    pub fn tracks(&self, number: u32) -> (r: bool)
        ensures
            r == (lookup(self.projects@, number) is Some),
    {
        find_project(&self.projects, number).is_some()
    }
}

impl Default for ProgressData {
    /// The ledger of a first run today.
    fn default() -> (r: ProgressData)
        ensures
            r@ == fresh_ledger(r.streak.last_activity),
    {
        ProgressData::new(local_today())
    }
}

/// The cached experience of a ledger agrees with itself: the level is that
/// of the total, and the experience still needed is that of the level and
/// the total.
pub proof fn lemma_xp_consistent(n: nat)
    requires
        n <= MAX_TRACKED,
    ensures
        xp_for(n).total == total_xp(n),
        xp_for(n).level == level_of(xp_for(n).total as nat),
        xp_for(n).xp_to_next_level == xp_to_next(
            xp_for(n).level as nat,
            xp_for(n).total as nat,
        ),
{
}

} // verus!
