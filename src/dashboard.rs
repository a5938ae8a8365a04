//! What the progress dashboard shows, apart from its layout: rank titles,
//! encouragement, and per-level and per-member progress.
use vstd::prelude::*;
use crate::catalog::{get_project_level, level_of_project, Project};
use crate::ledger::{lookup, ProgressData, ProjectProgress};
use crate::text::same_text;

verus! {

/// The rank title earned with `completed` projects in the ledger.
pub open spec fn rank_title(completed: usize) -> Seq<char> {
    if completed <= 10 {
        "Rust Rookie"@
    } else if completed <= 30 {
        "Code Apprentice"@
    } else if completed <= 65 {
        "Syntax Warrior"@
    } else if completed <= 100 {
        "Memory Guardian"@
    } else if completed <= 149 {
        "Systems Architect"@
    } else {
        "Rust Legend"@
    }
}

/// The rank title earned with `completed` projects in the ledger.
pub fn get_rank_title(completed: usize) -> (r: &'static str)
    ensures
        r@ == rank_title(completed),
{
    if completed <= 10 {
        "Rust Rookie"
    } else if completed <= 30 {
        "Code Apprentice"
    } else if completed <= 65 {
        "Syntax Warrior"
    } else if completed <= 100 {
        "Memory Guardian"
    } else if completed <= 149 {
        "Systems Architect"
    } else {
        "Rust Legend"
    }
}

/// The encouragement shown with `completed` projects in the ledger.
pub open spec fn encouragement(completed: usize) -> Seq<char> {
    if completed <= 10 {
        "🌱 Great start! Every expert was once a beginner."@
    } else if completed <= 30 {
        "🔥 You're on fire! The basics are becoming second nature."@
    } else if completed <= 65 {
        "⚡ Impressive progress! Ownership concepts are clicking."@
    } else if completed <= 100 {
        "🚀 You're in the advanced zone! Nothing can stop you now."@
    } else if completed <= 149 {
        "💎 Almost there! You're becoming a Rust systems architect!"@
    } else {
        "🏆 LEGENDARY! You've mastered the ultimate systems language!"@
    }
}

/// The encouragement shown with `completed` projects in the ledger.
pub fn get_encouragement(completed: usize) -> (r: &'static str)
    ensures
        r@ == encouragement(completed),
{
    if completed <= 10 {
        "🌱 Great start! Every expert was once a beginner."
    } else if completed <= 30 {
        "🔥 You're on fire! The basics are becoming second nature."
    } else if completed <= 65 {
        "⚡ Impressive progress! Ownership concepts are clicking."
    } else if completed <= 100 {
        "🚀 You're in the advanced zone! Nothing can stop you now."
    } else if completed <= 149 {
        "💎 Almost there! You're becoming a Rust systems architect!"
    } else {
        "🏆 LEGENDARY! You've mastered the ultimate systems language!"
    }
}

/// The quote shown with `completed` projects in the ledger: the quotes take
/// turns, one more project moving to the next.
pub open spec fn motivation_quote(completed: usize) -> Seq<char> {
    let k = completed % 5;
    if k == 0 {
        "\"Rust doesn't just prevent bugs, it prevents entire classes of bugs.\" - Keep coding! 🦀"@
    } else if k == 1 {
        "\"The borrow checker is your friend, not your enemy.\" - You're getting stronger! 💪"@
    } else if k == 2 {
        "\"Every compilation error is a learning opportunity.\" - You're leveling up! ⬆️"@
    } else if k == 3 {
        "\"Rust makes you a better systems programmer.\" - Keep pushing forward! 🚀"@
    } else {
        "\"Memory safety without garbage collection - you're mastering the impossible!\" ⚡"@
    }
}

/// The quote shown with `completed` projects in the ledger.
pub fn get_motivation_quote(completed: usize) -> (r: &'static str)
    ensures
        r@ == motivation_quote(completed),
{
    let k = completed % 5;
    if k == 0 {
        "\"Rust doesn't just prevent bugs, it prevents entire classes of bugs.\" - Keep coding! 🦀"
    } else if k == 1 {
        "\"The borrow checker is your friend, not your enemy.\" - You're getting stronger! 💪"
    } else if k == 2 {
        "\"Every compilation error is a learning opportunity.\" - You're leveling up! ⬆️"
    } else if k == 3 {
        "\"Rust makes you a better systems programmer.\" - Keep pushing forward! 🚀"
    } else {
        "\"Memory safety without garbage collection - you're mastering the impossible!\" ⚡"
    }
}

/// How many of `ps` are of `level`, and how many of those are tracked in
/// `ledger`.
pub open spec fn level_counts(ps: Seq<Project>, level: u32, ledger: Seq<(u32, ProjectProgress)>) -> (nat, nat)
    decreases ps.len(),
{
    if ps.len() == 0 {
        (0, 0)
    } else {
        let (done, all) = level_counts(ps.drop_last(), level, ledger);
        let p = ps.last();
        if level_of_project(p.number) == level {
            (
                if lookup(ledger, p.number) is Some {
                    done + 1
                } else {
                    done
                },
                all + 1,
            )
        } else {
            (done, all)
        }
    }
}

/// Of the catalog's projects of `level`: how many are ledger by the
/// ledger, and how many there are.
pub fn level_progress(projects: &Vec<Project>, data: &ProgressData, level: u32) -> (r: (
    usize,
    usize,
))
    ensures
        (r.0 as nat, r.1 as nat) == level_counts(projects@, level, data.projects@),
{
    let mut done: usize = 0;
    let mut all: usize = 0;
    let mut i: usize = 0;
    while i < projects.len()
        invariant
            i <= projects.len(),
            (done as nat, all as nat) == level_counts(projects@.take(i as int), level, data.projects@),
            done <= all <= i,
        decreases projects.len() - i,
    {
        assert(projects@.take(i + 1).drop_last() =~= projects@.take(i as int));
        let n = projects[i].number;
        if get_project_level(n) == level {
            if data.tracks(n) {
                done = done + 1;
            }
            all = all + 1;
        }
        i = i + 1;
    }
    assert(projects@.take(projects.len() as int) =~= projects@);
    (done, all)
}

/// Progress within one workspace member.
pub struct MemberProgress {
    pub name: String,
    /// How many of the member's projects the ledger tracks.
    pub completed: usize,
    /// How many projects of the catalog belong to the member.
    pub total: usize,
}

/// The workspace members of `ps`, each once, in order of first appearance.
pub open spec fn members_seen(ps: Seq<Project>) -> Seq<Seq<char>>
    decreases ps.len(),
{
    if ps.len() == 0 {
        seq![]
    } else {
        let prev = members_seen(ps.drop_last());
        match ps.last().workspace_member {
            Some(m) => if prev.contains(m@) {
                prev
            } else {
                prev.push(m@)
            },
            None => prev,
        }
    }
}

/// How many of `ps` belong to member `name` and are tracked in `ledger`,
/// and how many belong to it.
pub open spec fn member_counts(ps: Seq<Project>, name: Seq<char>, ledger: Seq<(u32, ProjectProgress)>) -> (nat, nat)
    decreases ps.len(),
{
    if ps.len() == 0 {
        (0, 0)
    } else {
        let (done, all) = member_counts(ps.drop_last(), name, ledger);
        let p = ps.last();
        if p.workspace_member is Some && p.workspace_member->Some_0@ == name {
            (
                if lookup(ledger, p.number) is Some {
                    done + 1
                } else {
                    done
                },
                all + 1,
            )
        } else {
            (done, all)
        }
    }
}

/// Whether `r` describes, in order, each member of `ps` with its counts.
pub open spec fn breakdown_of(r: Seq<MemberProgress>, ps: Seq<Project>, ledger: Seq<(u32, ProjectProgress)>) -> bool {
    &&& r.len() == members_seen(ps).len()
    &&& forall|k: int|
        0 <= k < r.len() ==> #[trigger] r[k].name@ == members_seen(ps)[k] && (
        r[k].completed as nat,
        r[k].total as nat,
    ) == member_counts(ps, r[k].name@, ledger)
}

proof fn lemma_members_seen_distinct(ps: Seq<Project>)
    ensures
        forall|a: int, b: int|
            0 <= a < b < members_seen(ps).len() ==> #[trigger] members_seen(ps)[a]
                != #[trigger] members_seen(ps)[b],
    decreases ps.len(),
{
    if ps.len() > 0 {
        let prev = members_seen(ps.drop_last());
        lemma_members_seen_distinct(ps.drop_last());
        match ps.last().workspace_member {
            Some(m) => {
                if !prev.contains(m@) {
                    let cur = members_seen(ps);
                    assert forall|a: int, b: int| 0 <= a < b < cur.len() implies #[trigger] cur[a]
                        != #[trigger] cur[b] by {
                        if b == prev.len() {
                            assert(cur[a] == prev[a]);
                        } else {
                            assert(cur[a] == prev[a]);
                            assert(cur[b] == prev[b]);
                        }
                    }
                }
            },
            None => {},
        }
    }
}

/// For each workspace member of the catalog, in order of first appearance
/// (a vector rather than a map, so that the order is fixed and each member's
/// row is found by its place):
/// how many of its projects the ledger tracks, and how many it has.
pub fn workspace_breakdown(projects: &Vec<Project>, data: &ProgressData) -> (r: Vec<MemberProgress>)
    ensures
        breakdown_of(r@, projects@, data.projects@),
{
    let mut r: Vec<MemberProgress> = Vec::new();
    let mut i: usize = 0;
    while i < projects.len()
        invariant
            i <= projects.len(),
            breakdown_of(r@, projects@.take(i as int), data.projects@),
            forall|k: int| 0 <= k < r.len() ==> #[trigger] r@[k].total <= i,
            forall|k: int| 0 <= k < r.len() ==> #[trigger] r@[k].completed <= r@[k].total,
        decreases projects.len() - i,
    {
        let ghost prev = projects@.take(i as int);
        let ghost next = projects@.take(i + 1);
        proof {
            assert(next.drop_last() =~= prev);
            assert(next.last() == projects@[i as int]);
            lemma_members_seen_distinct(prev);
        }
        let p = &projects[i];
        match &p.workspace_member {
            None => {
                assert forall|k: int| 0 <= k < r.len() implies #[trigger] r@[k].name@ == members_seen(next)[k]
                    && (r@[k].completed as nat, r@[k].total as nat) == member_counts(next, r@[k].name@, data.projects@) by {}
            },
            Some(m) => {
                let tracked_now = data.tracks(p.number);
                let mut j: usize = 0;
                while j < r.len() && !same_text(r[j].name.as_str(), m.as_str())
                    invariant
                        j <= r.len(),
                        forall|k: int| 0 <= k < j ==> #[trigger] r@[k].name@ != m@,
                    decreases r.len() - j,
                {
                    j = j + 1;
                }
                let ghost before = r@;
                if j < r.len() {
                    assert(r@[j as int].name@ == m@);
                    assert(members_seen(prev).contains(m@));
                    let old_entry = &r[j];
                    let entry = MemberProgress {
                        name: old_entry.name.clone(),
                        completed: if tracked_now {
                            old_entry.completed + 1
                        } else {
                            old_entry.completed
                        },
                        total: old_entry.total + 1,
                    };
                    r.set(j, entry);
                    assert forall|k: int| 0 <= k < r.len() implies #[trigger] r@[k].name@
                        == members_seen(next)[k] && (r@[k].completed as nat, r@[k].total as nat)
                        == member_counts(next, r@[k].name@, data.projects@) by {
                        if k != j {
                            assert(r@[k] == before[k]);
                            assert(before[k].name@ != m@);
                        }
                    }
                } else {
                    assert(!members_seen(prev).contains(m@)) by {
                        if members_seen(prev).contains(m@) {
                            let k = choose|k: int| 0 <= k < members_seen(prev).len() && members_seen(prev)[k] == m@;
                            assert(r@[k].name@ == m@);
                        }
                    }
                    r.push(
                        MemberProgress {
                            name: m.clone(),
                            completed: if tracked_now {
                                1
                            } else {
                                0
                            },
                            total: 1,
                        },
                    );
                    assert forall|k: int| 0 <= k < r.len() implies #[trigger] r@[k].name@
                        == members_seen(next)[k] && (r@[k].completed as nat, r@[k].total as nat)
                        == member_counts(next, r@[k].name@, data.projects@) by {
                        if k < before.len() {
                            assert(r@[k] == before[k]);
                            assert(before[k].name@ != m@);
                        } else {
                            assert(member_counts(prev, m@, data.projects@) == (0nat, 0nat)) by {
                                lemma_member_counts_absent(prev, m@, data.projects@);
                            }
                        }
                    }
                }
            },
        }
        i = i + 1;
    }
    assert(projects@.take(projects.len() as int) =~= projects@);
    r
}

proof fn lemma_member_counts_absent(ps: Seq<Project>, name: Seq<char>, ledger: Seq<(u32, ProjectProgress)>)
    requires
        !members_seen(ps).contains(name),
    ensures
        member_counts(ps, name, ledger) == (0nat, 0nat),
    decreases ps.len(),
{
    if ps.len() > 0 {
        let prev = members_seen(ps.drop_last());
        assert(!prev.contains(name)) by {
            if prev.contains(name) {
                let k = choose|k: int| 0 <= k < prev.len() && prev[k] == name;
                assert(members_seen(ps)[k] == name);
            }
        }
        lemma_member_counts_absent(ps.drop_last(), name, ledger);
        match ps.last().workspace_member {
            Some(m) => {
                if m@ == name {
                    assert(members_seen(ps).contains(name)) by {
                        if !prev.contains(m@) {
                            assert(members_seen(ps)[prev.len() as int] == m@);
                        }
                    }
                }
            },
            None => {},
        }
    }
}

} // verus!
