//! The project catalog: checklist lines parsed into project records, and the
//! fixed tables that place a project number in a workspace member and a level.
use vstd::prelude::*;
use crate::text::{
    chars_of, copy_range, decimal, digits_value, lemma_decimal_digits, pieces, push_all,
    push_decimal, split_pieces, string_of, trim, trim_chars, views,
};

verus! {

/// Workspace member information: a member's name and the path of its
/// directory.
#[derive(Clone, Debug)]
pub struct WorkspaceMember {
    pub name: String,
    pub path: String,
}

/// Project information parsed from the checklist.
#[derive(Clone, Debug)]
pub struct Project {
    pub number: u32,
    pub title: String,
    pub description: String,
    pub completed: bool,
    pub workspace_member: Option<String>,
}

/// The contents of an optional string.
pub open spec fn opt_view(o: Option<String>) -> Option<Seq<char>> {
    match o {
        Some(s) => Some(s@),
        None => None,
    }
}

/// The workspace member that holds the projects numbered `n`.
pub open spec fn member_of(n: u32) -> Option<Seq<char>> {
    if (1 <= n <= 30) || (46 <= n <= 65) {
        Some("basic-projects"@)
    } else if 31 <= n <= 45 {
        Some("ownership-projects"@)
    } else if (66 <= n <= 110) || (141 <= n <= 150) {
        Some("advanced-projects"@)
    } else if 111 <= n <= 125 {
        Some("web-projects"@)
    } else if 126 <= n <= 140 {
        Some("desktop-projects"@)
    } else {
        None
    }
}

/// A project's workspace member is a function of its number alone: any two
/// results for the same number name the same member.
pub proof fn lemma_member_depends_on_number(n: u32, a: Option<String>, b: Option<String>)
    requires
        opt_view(a) == member_of(n),
        opt_view(b) == member_of(n),
    ensures
        opt_view(a) == opt_view(b),
{
}

/// Determine which workspace member a project belongs to based on project
/// number.
pub fn determine_workspace_member(project_number: u32) -> (r: Option<String>)
    ensures
        opt_view(r) == member_of(project_number),
{
    let n = project_number;
    if (1 <= n && n <= 30) || (46 <= n && n <= 65) {
        Some("basic-projects".to_string())
    } else if 31 <= n && n <= 45 {
        Some("ownership-projects".to_string())
    } else if (66 <= n && n <= 110) || (141 <= n && n <= 150) {
        Some("advanced-projects".to_string())
    } else if 111 <= n && n <= 125 {
        Some("web-projects".to_string())
    } else if 126 <= n && n <= 140 {
        Some("desktop-projects".to_string())
    } else {
        None
    }
}

/// A character allowed in the decorative glyph before a title: anything
/// outside ASCII.
pub open spec fn is_glyph(c: char) -> bool {
    c as u32 > 0x7F
}

/// End of the run of ASCII digits in `s` that starts at `i`.
pub open spec fn digit_run(s: Seq<char>, i: int) -> int
    decreases s.len() - i,
{
    if 0 <= i < s.len() && '0' <= s[i] <= '9' {
        digit_run(s, i + 1)
    } else {
        i
    }
}

/// End of the run of glyph characters in `s` that starts at `i`.
pub open spec fn glyph_run(s: Seq<char>, i: int) -> int
    decreases s.len() - i,
{
    if 0 <= i < s.len() && is_glyph(s[i]) {
        glyph_run(s, i + 1)
    } else {
        i
    }
}

/// End of the run of characters other than `*` in `s` that starts at `i`.
pub open spec fn title_run(s: Seq<char>, i: int) -> int
    decreases s.len() - i,
{
    if 0 <= i < s.len() && s[i] != '*' {
        title_run(s, i + 1)
    } else {
        i
    }
}

/// The fields of a checklist entry: the completion flag, the number, the
/// title and the description.
pub type Fields = (bool, nat, Seq<char>, Seq<char>);

/// The entry that starts at `p` in `line`, if one does:
/// `- [ ] <digits>. <glyph> **<title>** - <description>`, with `x` in place
/// of the blank for a completed one, the glyph and the space after it
/// optional, a title of one or more characters other than `*`, a description
/// of one or more characters up to the end of the line, and a number that
/// fits in 32 bits. Title and description are trimmed.
pub open spec fn entry_at(line: Seq<char>, p: int) -> Option<Fields> {
    let n = line.len() as int;
    let q = p + 6;
    let d = digit_run(line, q);
    let r = d + 2;
    let g = glyph_run(line, r);
    let t = if g > r { g + 1 } else { r };
    let e = title_run(line, t + 2);
    if !(0 <= p && q <= n && line[p] == '-' && line[p + 1] == ' ' && line[p + 2] == '[' && (
    line[p + 3] == ' ' || line[p + 3] == 'x') && line[p + 4] == ']' && line[p + 5] == ' ') {
        None
    } else if d == q || !(r <= n && line[d] == '.' && line[d + 1] == ' ') {
        None
    } else if g > r && !(g < n && line[g] == ' ') {
        None
    } else if !(n - t >= 2 && line[t] == '*' && line[t + 1] == '*') {
        None
    } else if e == t + 2 || !(n - e > 5 && line[e] == '*' && line[e + 1] == '*' && line[e + 2]
        == ' ' && line[e + 3] == '-' && line[e + 4] == ' ') {
        None
    } else if digits_value(line.subrange(q, d)) > u32::MAX {
        None
    } else {
        Some(
            (
                line[p + 3] == 'x',
                digits_value(line.subrange(q, d)),
                trim(line.subrange(t + 2, e)),
                trim(line.subrange(e + 5, n)),
            ),
        )
    }
}

/// The first entry in `line` that starts at or after `p`.
pub open spec fn first_entry_from(line: Seq<char>, p: int) -> Option<Fields>
    decreases line.len() - p,
{
    if p < 0 || p >= line.len() {
        None
    } else if entry_at(line, p) is Some {
        entry_at(line, p)
    } else {
        first_entry_from(line, p + 1)
    }
}

/// The entry that a checklist line holds: the leftmost one.
pub open spec fn line_entry(line: Seq<char>) -> Option<Fields> {
    first_entry_from(line, 0)
}

/// The fields of a project record.
pub open spec fn fields_of(p: Project) -> Fields {
    (p.completed, p.number as nat, p.title@, p.description@)
}

/// A record of `f` with its workspace member.
pub open spec fn is_record_of(p: Project, f: Fields) -> bool {
    &&& fields_of(p) == f
    &&& opt_view(p.workspace_member) == member_of(p.number)
}

fn digit_run_exec(s: &Vec<char>, i: usize) -> (r: usize)
    requires
        i <= s.len(),
    ensures
        r as int == digit_run(s@, i as int),
        i <= r <= s.len(),
{
    let mut j = i;
    while j < s.len() && '0' <= s[j] && s[j] <= '9'
        invariant
            i <= j <= s.len(),
            digit_run(s@, j as int) == digit_run(s@, i as int),
        decreases s.len() - j,
    {
        j = j + 1;
    }
    j
}

fn glyph_run_exec(s: &Vec<char>, i: usize) -> (r: usize)
    requires
        i <= s.len(),
    ensures
        r as int == glyph_run(s@, i as int),
        i <= r <= s.len(),
{
    let mut j = i;
    while j < s.len() && (s[j] as u32) > 0x7F
        invariant
            i <= j <= s.len(),
            glyph_run(s@, j as int) == glyph_run(s@, i as int),
        decreases s.len() - j,
    {
        j = j + 1;
    }
    j
}

fn title_run_exec(s: &Vec<char>, i: usize) -> (r: usize)
    requires
        i <= s.len(),
    ensures
        r as int == title_run(s@, i as int),
        i <= r <= s.len(),
{
    let mut j = i;
    while j < s.len() && s[j] != '*'
        invariant
            i <= j <= s.len(),
            title_run(s@, j as int) == title_run(s@, i as int),
        decreases s.len() - j,
    {
        j = j + 1;
    }
    j
}

/// The smallest value that a project number cannot take.
const NUMBER_LIMIT: u64 = 0x1_0000_0000;

/// The value of the digits `s[lo..hi]`, or `None` when it exceeds `u32::MAX`.
fn digits_u32(s: &Vec<char>, lo: usize, hi: usize) -> (r: Option<u32>)
    requires
        lo <= hi <= s.len(),
        forall|k: int| lo <= k < hi ==> '0' <= #[trigger] s@[k] <= '9',
    ensures
        match r {
            Some(v) => v as nat == digits_value(s@.subrange(lo as int, hi as int)),
            None => digits_value(s@.subrange(lo as int, hi as int)) > u32::MAX,
        },
{
    let mut v: u64 = 0;
    let mut i = lo;
    assert(s@.subrange(lo as int, lo as int) =~= Seq::<char>::empty());
    while i < hi
        invariant
            lo <= i <= hi <= s.len(),
            forall|k: int| lo <= k < hi ==> '0' <= #[trigger] s@[k] <= '9',
            v <= NUMBER_LIMIT,
            v as nat == if digits_value(s@.subrange(lo as int, i as int)) < NUMBER_LIMIT {
                digits_value(s@.subrange(lo as int, i as int))
            } else {
                NUMBER_LIMIT as nat
            },
        decreases hi - i,
    {
        let c = s[i];
        let dv = (c as u32 - 48) as u64;
        let ghost prev = s@.subrange(lo as int, i as int);
        let ghost next = s@.subrange(lo as int, i + 1);
        assert(next.drop_last() =~= prev);
        assert(next.last() == c);
        assert(digits_value(next) == digits_value(prev) * 10 + dv);
        if v * 10 + dv < NUMBER_LIMIT {
            v = v * 10 + dv;
        } else {
            v = NUMBER_LIMIT;
        }
        i = i + 1;
    }
    if v < NUMBER_LIMIT {
        Some(v as u32)
    } else {
        None
    }
}

/// The entry that starts at `p` in `line`, if one does.
fn entry_at_exec(line: &Vec<char>, p: usize) -> (r: Option<Project>)
    requires
        p <= line.len(),
    ensures
        match r {
            Some(rec) => entry_at(line@, p as int) == Some(fields_of(rec)) && opt_view(
                rec.workspace_member,
            ) == member_of(rec.number),
            None => entry_at(line@, p as int) is None,
        },
{
    let n = line.len();
    if !(n - p >= 6 && line[p] == '-' && line[p + 1] == ' ' && line[p + 2] == '[' && (line[p + 3]
        == ' ' || line[p + 3] == 'x') && line[p + 4] == ']' && line[p + 5] == ' ') {
        return None;
    }
    let q = p + 6;
    let d = digit_run_exec(line, q);
    if d == q || !(n - d >= 2 && line[d] == '.' && line[d + 1] == ' ') {
        return None;
    }
    let r = d + 2;
    let g = glyph_run_exec(line, r);
    if g > r && !(g < n && line[g] == ' ') {
        return None;
    }
    let t = if g > r {
        g + 1
    } else {
        r
    };
    if !(n - t >= 2 && line[t] == '*' && line[t + 1] == '*') {
        return None;
    }
    let e = title_run_exec(line, t + 2);
    if e == t + 2 || !(n - e > 5 && line[e] == '*' && line[e + 1] == '*' && line[e + 2] == ' '
        && line[e + 3] == '-' && line[e + 4] == ' ') {
        return None;
    }
    proof {
        lemma_digit_run_digits(line@, q as int);
    }
    let number = match digits_u32(line, q, d) {
        Some(v) => v,
        None => {
            return None;
        },
    };
    let title = trim_chars(&copy_range(line, t + 2, e));
    let description = trim_chars(&copy_range(line, e + 5, n));
    Some(
        Project {
            number,
            title: string_of(&title),
            description: string_of(&description),
            completed: line[p + 3] == 'x',
            workspace_member: determine_workspace_member(number),
        },
    )
}

proof fn lemma_digit_run_digits(s: Seq<char>, i: int)
    requires
        0 <= i <= s.len(),
    ensures
        i <= digit_run(s, i) <= s.len(),
        forall|k: int| i <= k < digit_run(s, i) ==> '0' <= #[trigger] s[k] <= '9',
    decreases s.len() - i,
{
    if i < s.len() && '0' <= s[i] <= '9' {
        lemma_digit_run_digits(s, i + 1);
    }
}

/// The project record that a checklist line holds, if it holds one: the
/// leftmost entry of the form
/// `- [ ] <number>. <glyph> **<title>** - <description>`.
pub fn parse_project_line(line: &str) -> (r: Option<Project>)
    ensures
        match r {
            Some(rec) => line_entry(line@) == Some(fields_of(rec)) && opt_view(
                rec.workspace_member,
            ) == member_of(rec.number),
            None => line_entry(line@) is None,
        },
{
    let chars = chars_of(line);
    parse_line_chars(&chars)
}

fn parse_line_chars(line: &Vec<char>) -> (r: Option<Project>)
    ensures
        match r {
            Some(rec) => line_entry(line@) == Some(fields_of(rec)) && opt_view(
                rec.workspace_member,
            ) == member_of(rec.number),
            None => line_entry(line@) is None,
        },
{
    let mut p: usize = 0;
    while p < line.len()
        invariant
            p <= line.len(),
            first_entry_from(line@, p as int) == line_entry(line@),
        decreases line.len() - p,
    {
        match entry_at_exec(line, p) {
            Some(rec) => {
                return Some(rec);
            },
            None => {},
        }
        p = p + 1;
    }
    None
}

/// Why a checklist yields no catalog.
pub enum CatalogError {
    /// The checklist document is missing or cannot be read. Parsing never
    /// gives it: it is the error of the caller that reads the document.
    NotFound,
    /// The checklist document holds no project entry.
    NoProjects,
}

/// The entries of a sequence of lines, in order.
pub open spec fn entries_of(lines: Seq<Seq<char>>) -> Seq<Fields>
    decreases lines.len(),
{
    if lines.len() == 0 {
        seq![]
    } else {
        entries_of(lines.drop_last()) + match line_entry(lines.last()) {
            Some(f) => seq![f],
            None => seq![],
        }
    }
}

/// The catalog that a checklist document holds: the entry of each line that
/// holds one, in document order.
pub open spec fn catalog(content: Seq<char>) -> Seq<Fields> {
    entries_of(pieces(content))
}

/// Whether `v` holds, in order, a record of each of `fs`.
pub open spec fn records_of(v: Seq<Project>, fs: Seq<Fields>) -> bool {
    &&& v.len() == fs.len()
    &&& forall|i: int| 0 <= i < v.len() ==> is_record_of(#[trigger] v[i], fs[i])
}

/// Parse the project records of a checklist document, in document order.
/// Lines that hold no entry are skipped; a document with no entry at all is
/// refused.
pub fn parse_projects(content: &str) -> (r: Result<Vec<Project>, CatalogError>)
    ensures
        match r {
            Ok(v) => catalog(content@).len() > 0 && records_of(v@, catalog(content@)),
            Err(e) => e is NoProjects && catalog(content@).len() == 0,
        },
{
    let chars = chars_of(content);
    let lines = split_pieces(&chars);
    let mut projects: Vec<Project> = Vec::new();
    let mut i: usize = 0;
    while i < lines.len()
        invariant
            i <= lines.len(),
            views(lines@) == pieces(content@),
            records_of(projects@, entries_of(views(lines@).take(i as int))),
        decreases lines.len() - i,
    {
        let ghost before = projects@;
        proof {
            assert(views(lines@).take(i + 1).drop_last() =~= views(lines@).take(i as int));
            assert(views(lines@).take(i + 1).last() == lines@[i as int]@);
        }
        match parse_line_chars(&lines[i]) {
            Some(rec) => {
                projects.push(rec);
            },
            None => {},
        }
        i = i + 1;
    }
    assert(views(lines@).take(lines.len() as int) =~= views(lines@));
    if projects.len() == 0 {
        Err(CatalogError::NoProjects)
    } else {
        Ok(projects)
    }
}

/// A checklist line that holds the given fields, with no glyph.
pub open spec fn rendered(completed: bool, number: nat, title: Seq<char>, description: Seq<
    char,
>) -> Seq<char> {
    seq!['-', ' ', '[', if completed { 'x' } else { ' ' }, ']', ' '] + decimal(number) + seq![
        '.',
        ' ',
        '*',
        '*',
    ] + title + seq!['*', '*', ' ', '-', ' '] + description
}

/// The checklist line of a project record.
pub fn render_project_line(project: &Project) -> (r: String)
    ensures
        r@ == rendered(
            project.completed,
            project.number as nat,
            project.title@,
            project.description@,
        ),
{
    let mut out: Vec<char> = Vec::new();
    out.push('-');
    out.push(' ');
    out.push('[');
    out.push(
        if project.completed {
            'x'
        } else {
            ' '
        },
    );
    out.push(']');
    out.push(' ');
    push_decimal(project.number, &mut out);
    out.push('.');
    out.push(' ');
    out.push('*');
    out.push('*');
    push_all(&mut out, &chars_of(project.title.as_str()));
    out.push('*');
    out.push('*');
    out.push(' ');
    out.push('-');
    out.push(' ');
    push_all(&mut out, &chars_of(project.description.as_str()));
    let r = string_of(&out);
    assert(r@ =~= rendered(
        project.completed,
        project.number as nat,
        project.title@,
        project.description@,
    ));
    r
}

proof fn lemma_digit_run_to(s: Seq<char>, i: int, j: int)
    requires
        0 <= i <= j <= s.len(),
        forall|k: int| i <= k < j ==> '0' <= #[trigger] s[k] <= '9',
        j == s.len() || !('0' <= s[j] <= '9'),
    ensures
        digit_run(s, i) == j,
    decreases j - i,
{
    if i < j {
        lemma_digit_run_to(s, i + 1, j);
    }
}

proof fn lemma_title_run_to(s: Seq<char>, i: int, j: int)
    requires
        0 <= i <= j <= s.len(),
        forall|k: int| i <= k < j ==> #[trigger] s[k] != '*',
        j == s.len() || s[j] == '*',
    ensures
        title_run(s, i) == j,
    decreases j - i,
{
    if i < j {
        lemma_title_run_to(s, i + 1, j);
    }
}

/// A title with no `*` and a description, both non-empty and without
/// surrounding white space, survive rendering then parsing: the line holds
/// exactly the fields it was rendered from.
pub proof fn lemma_parse_rendered(completed: bool, number: u32, title: Seq<char>, description: Seq<
    char,
>)
    requires
        title.len() > 0,
        forall|i: int| 0 <= i < title.len() ==> title[i] != '*',
        trim(title) == title,
        description.len() > 0,
        trim(description) == description,
    ensures
        line_entry(rendered(completed, number as nat, title, description)) == Some(
            (completed, number as nat, title, description),
        ),
{
    let line = rendered(completed, number as nat, title, description);
    let digits = decimal(number as nat);
    lemma_decimal_digits(number as nat);
    let d: int = 6 + digits.len() as int;
    let t: int = d + 2;
    let e: int = t + 2 + title.len() as int;
    assert(line.subrange(6, d as int) =~= digits);
    assert(line[d as int] == '.');
    assert forall|k: int| 6 <= k < d implies '0' <= #[trigger] line[k] <= '9' by {
        assert(line[k] == digits[k - 6]);
    }
    lemma_digit_run_to(line, 6, d as int);
    assert(glyph_run(line, t as int) == t);
    assert(line.subrange(t + 2, e as int) =~= title);
    assert forall|k: int| t + 2 <= k < e implies #[trigger] line[k] != '*' by {
        assert(line[k] == title[k - t - 2]);
    }
    lemma_title_run_to(line, t + 2, e as int);
    assert(line.subrange(e + 5, line.len() as int) =~= description);
    assert(entry_at(line, 0) == Some((completed, number as nat, title, description)));
}

/// A checklist line that holds the given fields, with a decorative glyph
/// between the number and the title.
pub open spec fn rendered_with_glyph(
    completed: bool,
    number: nat,
    glyph: Seq<char>,
    title: Seq<char>,
    description: Seq<char>,
) -> Seq<char> {
    seq!['-', ' ', '[', if completed { 'x' } else { ' ' }, ']', ' '] + decimal(number) + seq![
        '.',
        ' ',
    ] + glyph + seq![' ', '*', '*'] + title + seq!['*', '*', ' ', '-', ' '] + description
}

proof fn lemma_glyph_run_to(s: Seq<char>, i: int, j: int)
    requires
        0 <= i <= j <= s.len(),
        forall|k: int| i <= k < j ==> is_glyph(#[trigger] s[k]),
        j == s.len() || !is_glyph(s[j]),
    ensures
        glyph_run(s, i) == j,
    decreases j - i,
{
    if i < j {
        lemma_glyph_run_to(s, i + 1, j);
    }
}

/// The same holds of a line with a decorative glyph: parsing gives back
/// exactly the fields it was rendered from.
pub proof fn lemma_parse_rendered_with_glyph(
    completed: bool,
    number: u32,
    glyph: Seq<char>,
    title: Seq<char>,
    description: Seq<char>,
)
    requires
        glyph.len() > 0,
        forall|i: int| 0 <= i < glyph.len() ==> is_glyph(#[trigger] glyph[i]),
        title.len() > 0,
        forall|i: int| 0 <= i < title.len() ==> title[i] != '*',
        trim(title) == title,
        description.len() > 0,
        trim(description) == description,
    ensures
        line_entry(rendered_with_glyph(completed, number as nat, glyph, title, description))
            == Some((completed, number as nat, title, description)),
{
    let line = rendered_with_glyph(completed, number as nat, glyph, title, description);
    let digits = decimal(number as nat);
    lemma_decimal_digits(number as nat);
    let d: int = 6 + digits.len() as int;
    let r: int = d + 2;
    let g: int = r + glyph.len() as int;
    let t: int = g + 1;
    let e: int = t + 2 + title.len() as int;
    assert(line.subrange(6, d as int) =~= digits);
    assert(line[d as int] == '.');
    assert forall|k: int| 6 <= k < d implies '0' <= #[trigger] line[k] <= '9' by {
        assert(line[k] == digits[k - 6]);
    }
    lemma_digit_run_to(line, 6, d as int);
    assert forall|k: int| r <= k < g implies is_glyph(#[trigger] line[k]) by {
        assert(line[k] == glyph[k - r]);
    }
    assert(line[g] == ' ');
    lemma_glyph_run_to(line, r, g);
    assert(line[t] == '*' && line[t + 1] == '*');
    assert(line.subrange(t + 2, e as int) =~= title);
    assert forall|k: int| t + 2 <= k < e implies #[trigger] line[k] != '*' by {
        assert(line[k] == title[k - t - 2]);
    }
    lemma_title_run_to(line, t + 2, e as int);
    assert(line.subrange(e + 5, line.len() as int) =~= description);
    assert(entry_at(line, 0) == Some((completed, number as nat, title, description)));
}

/// The level (1 to 10) of project `n`; 0 when it lies outside every level.
pub open spec fn level_of_project(n: u32) -> u32 {
    if 1 <= n <= 15 {
        1
    } else if 16 <= n <= 30 {
        2
    } else if 31 <= n <= 45 {
        3
    } else if 46 <= n <= 65 {
        4
    } else if 66 <= n <= 85 {
        5
    } else if 86 <= n <= 100 {
        6
    } else if 101 <= n <= 110 {
        7
    } else if 111 <= n <= 125 {
        8
    } else if 126 <= n <= 140 {
        9
    } else if 141 <= n <= 150 {
        10
    } else {
        0
    }
}

/// The level of a project, from its number.
pub fn get_project_level(project_number: u32) -> (r: u32)
    ensures
        r == level_of_project(project_number),
{
    let n = project_number;
    if 1 <= n && n <= 15 {
        1
    } else if 16 <= n && n <= 30 {
        2
    } else if 31 <= n && n <= 45 {
        3
    } else if 46 <= n && n <= 65 {
        4
    } else if 66 <= n && n <= 85 {
        5
    } else if 86 <= n && n <= 100 {
        6
    } else if 101 <= n && n <= 110 {
        7
    } else if 111 <= n && n <= 125 {
        8
    } else if 126 <= n && n <= 140 {
        9
    } else if 141 <= n && n <= 150 {
        10
    } else {
        0
    }
}

/// The name of a level, as project files and listings show it.
pub open spec fn level_name(level: u32) -> Seq<char> {
    if level == 1 {
        "First Steps"@
    } else if level == 2 {
        "Basic Data Structures"@
    } else if level == 3 {
        "Ownership & Borrowing"@
    } else if level == 4 {
        "Structs & Enums"@
    } else if level == 5 {
        "Traits & Generics"@
    } else if level == 6 {
        "Error Handling"@
    } else if level == 7 {
        "Collections & Algorithms"@
    } else if level == 8 {
        "Concurrency & Async"@
    } else if level == 9 {
        "Graphics, GUI & Desktop Apps"@
    } else if level == 10 {
        "Masterpiece Projects"@
    } else {
        "Unknown Level"@
    }
}

/// The name of a level.
pub fn get_level_name(level: u32) -> (r: &'static str)
    ensures
        r@ == level_name(level),
{
    if level == 1 {
        "First Steps"
    } else if level == 2 {
        "Basic Data Structures"
    } else if level == 3 {
        "Ownership & Borrowing"
    } else if level == 4 {
        "Structs & Enums"
    } else if level == 5 {
        "Traits & Generics"
    } else if level == 6 {
        "Error Handling"
    } else if level == 7 {
        "Collections & Algorithms"
    } else if level == 8 {
        "Concurrency & Async"
    } else if level == 9 {
        "Graphics, GUI & Desktop Apps"
    } else if level == 10 {
        "Masterpiece Projects"
    } else {
        "Unknown Level"
    }
}

/// The dashboard's name of a level and its range of project numbers.
pub open spec fn level_info(level: u32) -> (Seq<char>, (u32, u32)) {
    if level == 1 {
        ("First Steps"@, (1, 15))
    } else if level == 2 {
        ("Basic Data Structures"@, (16, 30))
    } else if level == 3 {
        ("Ownership & Borrowing"@, (31, 45))
    } else if level == 4 {
        ("Structs & Enums"@, (46, 65))
    } else if level == 5 {
        ("Traits & Generics"@, (66, 85))
    } else if level == 6 {
        ("Error Handling"@, (86, 100))
    } else if level == 7 {
        ("Collections & Algorithms"@, (101, 110))
    } else if level == 8 {
        ("Concurrency & Async"@, (111, 125))
    } else if level == 9 {
        ("Graphics & Desktop Apps"@, (126, 140))
    } else if level == 10 {
        ("Masterpiece Projects"@, (141, 150))
    } else {
        ("Unknown"@, (0, 0))
    }
}

/// The dashboard's name of a level and its range of project numbers.
pub fn get_level_info(level: u32) -> (r: (&'static str, (u32, u32)))
    ensures
        (r.0@, r.1) == level_info(level),
{
    if level == 1 {
        ("First Steps", (1, 15))
    } else if level == 2 {
        ("Basic Data Structures", (16, 30))
    } else if level == 3 {
        ("Ownership & Borrowing", (31, 45))
    } else if level == 4 {
        ("Structs & Enums", (46, 65))
    } else if level == 5 {
        ("Traits & Generics", (66, 85))
    } else if level == 6 {
        ("Error Handling", (86, 100))
    } else if level == 7 {
        ("Collections & Algorithms", (101, 110))
    } else if level == 8 {
        ("Concurrency & Async", (111, 125))
    } else if level == 9 {
        ("Graphics & Desktop Apps", (126, 140))
    } else if level == 10 {
        ("Masterpiece Projects", (141, 150))
    } else {
        ("Unknown", (0, 0))
    }
}

} // verus!
