//! Starter files for new projects, and the choice of which project comes
//! next.
use vstd::prelude::*;
use crate::catalog::{get_level_name, get_project_level, level_name, level_of_project, Project};
use crate::detect::{get_project_filename, lower_of, project_filename};
use crate::text::{decimal, push_decimal, push_str, same_text, string_of};

verus! {

/// The starter file of project `n` with the given title and description: a
/// header naming the project, its level and its description, then a `main`
/// with a placeholder body that mentions the description and prints the
/// title.
pub open spec fn template(n: u32, title: Seq<char>, description: Seq<char>) -> Seq<char> {
    let level = level_of_project(n);
    "/// Project "@ + decimal(n as nat) + ": "@ + title + "\n/// Level "@ + decimal(level as nat)
        + ": "@ + level_name(level) + "\n/// "@ + description
        + "\n\nfn main() {\n    // Implement the project logic here\n    // Description: "@
        + description + "\n    \n    println!(\""@ + title + "\");\n}\n"@
}

/// The starter file of a project.
pub fn generate_template(project: &Project) -> (r: String)
    ensures
        r@ == template(project.number, project.title@, project.description@),
{
    let level = get_project_level(project.number);
    let mut out: Vec<char> = Vec::new();
    push_str(&mut out, "/// Project ");
    push_decimal(project.number, &mut out);
    push_str(&mut out, ": ");
    push_str(&mut out, project.title.as_str());
    push_str(&mut out, "\n/// Level ");
    push_decimal(level, &mut out);
    push_str(&mut out, ": ");
    push_str(&mut out, get_level_name(level));
    push_str(&mut out, "\n/// ");
    push_str(&mut out, project.description.as_str());
    push_str(
        &mut out,
        "\n\nfn main() {\n    // Implement the project logic here\n    // Description: ",
    );
    push_str(&mut out, project.description.as_str());
    push_str(&mut out, "\n    \n    println!(\"");
    push_str(&mut out, project.title.as_str());
    push_str(&mut out, "\");\n}\n");
    let r = string_of(&out);
    assert(r@ =~= template(project.number, project.title@, project.description@));
    r
}

/// Why a starter file is not written.
pub enum ScaffoldError {
    /// The project's number lies in no workspace member's range.
    NoWorkspaceMember,
    /// A file with the canonical name already exists.
    AlreadyExists,
}

/// A starter file to write: `<member>/src/bin/<filename>`.
pub struct ScaffoldPlan {
    pub member: String,
    pub filename: String,
    pub contents: String,
}

/// Plan the starter file of a project. `file_exists` tells whether a file
/// with the canonical name exists; it is replaced only when `overwrite` is
/// set.
pub fn plan_scaffold(project: &Project, file_exists: bool, overwrite: bool) -> (r: Result<
    ScaffoldPlan,
    ScaffoldError,
>)
    ensures
        project.workspace_member is None ==> r is Err && r->Err_0 is NoWorkspaceMember,
        project.workspace_member is Some && file_exists && !overwrite ==> r is Err
            && r->Err_0 is AlreadyExists,
        project.workspace_member is Some && (!file_exists || overwrite) ==> r is Ok && r->Ok_0.member@
            == project.workspace_member->Some_0@ && r->Ok_0.filename@ == project_filename(
            project.number,
            lower_of(project.title@),
        ) && r->Ok_0.contents@ == template(
            project.number,
            project.title@,
            project.description@,
        ),
{
    match &project.workspace_member {
        None => Err(ScaffoldError::NoWorkspaceMember),
        Some(member) => {
            if file_exists && !overwrite {
                Err(ScaffoldError::AlreadyExists)
            } else {
                Ok(
                    ScaffoldPlan {
                        member: member.clone(),
                        filename: get_project_filename(project.number, project.title.as_str()),
                        contents: generate_template(project),
                    },
                )
            }
        },
    }
}

/// Whether project `i` of a catalog is still to do: neither checked off nor
/// implemented.
pub open spec fn is_pending(projects: Seq<Project>, implemented: Seq<bool>, i: int) -> bool {
    !projects[i].completed && !implemented[i]
}

/// The first project that is neither checked off nor implemented;
/// `implemented` tells, for each project, whether it is.
pub fn find_next_project(projects: &Vec<Project>, implemented: &Vec<bool>) -> (r: Option<usize>)
    requires
        implemented.len() == projects.len(),
    ensures
        match r {
            Some(i) => i < projects.len() && is_pending(projects@, implemented@, i as int)
                && forall|j: int| 0 <= j < i ==> !is_pending(projects@, implemented@, j),
            None => forall|j: int|
                0 <= j < projects.len() ==> !is_pending(projects@, implemented@, j),
        },
{
    let mut i: usize = 0;
    while i < projects.len()
        invariant
            i <= projects.len() == implemented.len(),
            forall|j: int| 0 <= j < i ==> !is_pending(projects@, implemented@, j),
        decreases projects.len() - i,
    {
        if !projects[i].completed && !implemented[i] {
            return Some(i);
        }
        i = i + 1;
    }
    None
}

/// Whether project `i` passes a listing's filters: implemented ones when
/// `implemented_only`, else those not checked off; of `level` and of
/// `member` when they are given.
pub open spec fn selected(
    projects: Seq<Project>,
    implemented: Seq<bool>,
    implemented_only: bool,
    level: Option<u32>,
    member: Option<Seq<char>>,
    i: int,
) -> bool {
    &&& if implemented_only {
        implemented[i]
    } else {
        !projects[i].completed
    }
    &&& match level {
        Some(l) => level_of_project(projects[i].number) == l,
        None => true,
    }
    &&& match member {
        Some(m) => projects[i].workspace_member is Some && projects[i].workspace_member->Some_0@
            == m,
        None => true,
    }
}

/// The contents of an optional string slice.
pub open spec fn str_opt_view(o: Option<&str>) -> Option<Seq<char>> {
    match o {
        Some(s) => Some(s@),
        None => None,
    }
}

/// The indices, in order, of the projects that pass a listing's filters.
pub fn filter_projects(
    projects: &Vec<Project>,
    implemented: &Vec<bool>,
    implemented_only: bool,
    level: Option<u32>,
    member: Option<&str>,
) -> (r: Vec<usize>)
    requires
        implemented.len() == projects.len(),
    ensures
        forall|k: int| 0 <= k < r.len() ==> #[trigger] r@[k] < projects.len(),
        forall|k: int, m: int| 0 <= k < m < r.len() ==> #[trigger] r@[k] < #[trigger] r@[m],
        forall|i: int|
            0 <= i < projects.len() ==> (r@.contains(i as usize) <==> #[trigger] selected(
                projects@,
                implemented@,
                implemented_only,
                level,
                str_opt_view(member),
                i,
            )),
{
    let ghost mv = str_opt_view(member);
    let mut r: Vec<usize> = Vec::new();
    let mut i: usize = 0;
    while i < projects.len()
        invariant
            i <= projects.len() == implemented.len(),
            mv == str_opt_view(member),
            forall|k: int| 0 <= k < r.len() ==> #[trigger] r@[k] < i,
            forall|k: int, m: int| 0 <= k < m < r.len() ==> #[trigger] r@[k] < #[trigger] r@[m],
            forall|j: int|
                0 <= j < i ==> (r@.contains(j as usize) <==> #[trigger] selected(
                    projects@,
                    implemented@,
                    implemented_only,
                    level,
                    mv,
                    j,
                )),
        decreases projects.len() - i,
    {
        let p = &projects[i];
        let status_ok = if implemented_only {
            implemented[i]
        } else {
            !p.completed
        };
        let level_ok = match level {
            Some(l) => get_project_level(p.number) == l,
            None => true,
        };
        let member_ok = match member {
            Some(m) => match &p.workspace_member {
                Some(w) => same_text(w.as_str(), m),
                None => false,
            },
            None => true,
        };
        let ghost before = r@;
        if status_ok && level_ok && member_ok {
            r.push(i);
        }
        assert forall|j: int| 0 <= j <= i implies (r@.contains(j as usize) <==> selected(
            projects@,
            implemented@,
            implemented_only,
            level,
            mv,
            j,
        )) by {
            if j < i {
                if r@.contains(j as usize) {
                    let k = choose|k: int| 0 <= k < r.len() && r@[k] == j as usize;
                    if k < before.len() {
                        assert(before[k] == r@[k]);
                    }
                } else if before.contains(j as usize) {
                    let k = choose|k: int| 0 <= k < before.len() && before[k] == j as usize;
                    assert(r@[k] == before[k]);
                }
            } else {
                if r@.contains(j as usize) && r@.len() == before.len() {
                    let k = choose|k: int| 0 <= k < r.len() && r@[k] == j as usize;
                    assert(before[k] < i);
                }
                if r@.len() > before.len() {
                    assert(r@[before.len() as int] == i);
                }
            }
        }
        i = i + 1;
    }
    r
}

} // verus!
