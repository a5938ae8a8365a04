//! Where a project's source file is expected, whether it exists, and how
//! many lines of code it holds.
use vstd::prelude::*;
use crate::catalog::Project;
use crate::text::{
    chars_of, ends_with_chars, has_prefix, has_suffix, lemma_lines_len, lines, padded2,
    push_decimal, starts_with_chars, string_of, text_lines, trim, trim_chars, views, views_of,
};

verus! {

/// What `str::to_lowercase` makes of a string.
pub uninterp spec fn lower_of(s: Seq<char>) -> Seq<char>;

/// Whether `char::is_alphanumeric` holds of a character.
pub uninterp spec fn alnum(c: char) -> bool;

/// Relies on `str::to_lowercase`: the lowercase mapping of a string, which
/// depends on its characters alone.
#[verifier::external_body]
fn lowercase(s: &str) -> (r: String)
    ensures
        r@ == lower_of(s@),
{
    s.to_lowercase()
}

/// Relies on `char::is_alphanumeric`: alphabetic or numeric in Unicode's
/// terms; among ASCII characters, exactly the letters and digits.
#[verifier::external_body]
fn is_alphanumeric(c: char) -> (r: bool)
    ensures
        r == alnum(c),
        (c as u32) < 128 ==> (r <==> (('a' <= c <= 'z') || ('A' <= c <= 'Z') || ('0' <= c
            <= '9'))),
{
    c.is_alphanumeric()
}

/// A title character once spaces and hyphens become underscores.
pub open spec fn underscored(c: char) -> char {
    if c == ' ' || c == '-' {
        '_'
    } else {
        c
    }
}

/// Whether a character stays in a file name: an underscore, or a letter
/// or digit (for ASCII, exactly `a`-`z`, `A`-`Z` and `0`-`9`).
pub open spec fn kept(c: char) -> bool {
    if (c as u32) < 128 {
        ('a' <= c <= 'z') || ('A' <= c <= 'Z') || ('0' <= c <= '9') || c == '_'
    } else {
        alnum(c)
    }
}

/// A lowercase title made fit for a file name: spaces and hyphens become
/// underscores, then everything but letters, digits and underscores goes.
pub open spec fn clean_title(s: Seq<char>) -> Seq<char>
    decreases s.len(),
{
    if s.len() == 0 {
        seq![]
    } else {
        let c = underscored(s.last());
        clean_title(s.drop_last()) + if kept(c) {
            seq![c]
        } else {
            seq![]
        }
    }
}

/// The prefix that every source file of project `n` has: its number with
/// two digits at least, then an underscore.
pub open spec fn number_prefix(n: u32) -> Seq<char> {
    padded2(n as nat).push('_')
}

/// The source file extension.
pub open spec fn source_ext() -> Seq<char> {
    seq!['.', 'r', 's']
}

/// The canonical file name of project `n` whose title, lowercased, is
/// `lowered`.
pub open spec fn project_filename(n: u32, lowered: Seq<char>) -> Seq<char> {
    number_prefix(n) + clean_title(lowered) + source_ext()
}

/// Appends the number prefix of project `n` to `out`.
fn push_number_prefix(n: u32, out: &mut Vec<char>)
    ensures
        final(out)@ == old(out)@ + number_prefix(n),
{
    if n < 10 {
        out.push('0');
    }
    push_decimal(n, out);
    out.push('_');
    assert(final(out)@ =~= old(out)@ + number_prefix(n));
}

/// The canonical file name of project `project_number` from its title once
/// lowercased.
pub fn filename_from_lowercase(project_number: u32, lowered: &str) -> (r: String)
    ensures
        r@ == project_filename(project_number, lowered@),
{
    let chars = chars_of(lowered);
    let mut out: Vec<char> = Vec::new();
    push_number_prefix(project_number, &mut out);
    let ghost base = out@;
    let mut i: usize = 0;
    while i < chars.len()
        invariant
            i <= chars.len(),
            chars@ == lowered@,
            out@ == base + clean_title(chars@.take(i as int)),
        decreases chars.len() - i,
    {
        let c = if chars[i] == ' ' || chars[i] == '-' {
            '_'
        } else {
            chars[i]
        };
        proof {
            assert(chars@.take(i + 1).drop_last() =~= chars@.take(i as int));
        }
        if c == '_' || is_alphanumeric(c) {
            out.push(c);
        }
        i = i + 1;
        assert(out@ =~= base + clean_title(chars@.take(i as int)));
    }
    assert(chars@.take(chars.len() as int) =~= chars@);
    out.push('.');
    out.push('r');
    out.push('s');
    let r = string_of(&out);
    assert(r@ =~= project_filename(project_number, lowered@));
    r
}

/// Get the expected binary filename for a project:
/// `<number, two digits at least>_<cleaned lowercase title>.rs`.
pub fn get_project_filename(project_number: u32, title: &str) -> (r: String)
    ensures
        r@ == project_filename(project_number, lower_of(title@)),
{
    let lowered = lowercase(title);
    filename_from_lowercase(project_number, lowered.as_str())
}

/// Whether a directory entry is a source file of project `n`.
pub open spec fn is_source_of(name: Seq<char>, n: u32) -> bool {
    has_prefix(name, number_prefix(n)) && has_suffix(name, source_ext())
}

/// Whether the entries before index `i` hold no source file of project `n`.
pub open spec fn none_before(entries: Seq<Seq<char>>, n: u32, i: int) -> bool {
    forall|j: int| 0 <= j < i ==> !is_source_of(#[trigger] entries[j], n)
}

/// How a project's source file was found.
pub enum FileMatch {
    /// A file with the canonical name exists.
    Exact(String),
    /// The first directory entry with the project's number prefix and the
    /// source extension.
    Prefix(String),
    /// No file was found, or the project has no workspace member.
    NoMatch,
}

/// Find a project's source file among the entries of its member's
/// binaries directory. `exact_exists` tells whether a file with the
/// canonical name exists there; `entries` are the directory's file names in
/// the order the directory lists them (none when it does not exist).
pub fn locate_project_file(project: &Project, exact_exists: bool, entries: &Vec<String>) -> (r:
    FileMatch)
    ensures
        project.workspace_member is None ==> r is NoMatch,
        project.workspace_member is Some && exact_exists ==> r == FileMatch::Exact(
            r->Exact_0,
        ) && r->Exact_0@ == project_filename(project.number, lower_of(project.title@)),
        project.workspace_member is Some && !exact_exists ==> match r {
            FileMatch::Exact(_) => false,
            FileMatch::Prefix(f) => exists|i: int|
                0 <= i < entries.len() && entries@[i]@ == f@ && is_source_of(f@, project.number)
                    && none_before(views_of(entries@), project.number, i),
            FileMatch::NoMatch => none_before(
                views_of(entries@),
                project.number,
                entries.len() as int,
            ),
        },
{
    if project.workspace_member.is_none() {
        return FileMatch::NoMatch;
    }
    if exact_exists {
        return FileMatch::Exact(get_project_filename(project.number, project.title.as_str()));
    }
    let mut prefix: Vec<char> = Vec::new();
    push_number_prefix(project.number, &mut prefix);
    let mut ext: Vec<char> = Vec::new();
    ext.push('.');
    ext.push('r');
    ext.push('s');
    assert(ext@ =~= source_ext());
    let mut i: usize = 0;
    while i < entries.len()
        invariant
            i <= entries.len(),
            project.workspace_member is Some,
            !exact_exists,
            prefix@ == number_prefix(project.number),
            ext@ == source_ext(),
            none_before(views_of(entries@), project.number, i as int),
        decreases entries.len() - i,
    {
        let name = chars_of(entries[i].as_str());
        if starts_with_chars(&name, &prefix) && ends_with_chars(&name, &ext) {
            return FileMatch::Prefix(entries[i].clone());
        }
        i = i + 1;
    }
    FileMatch::NoMatch
}

/// Whether a project counts as implemented: it has a workspace member, and
/// a file with the canonical name exists or some directory entry has the
/// project's number prefix and the source extension.
pub open spec fn implemented(project: Project, exact_exists: bool, entries: Seq<Seq<char>>) -> bool {
    &&& project.workspace_member is Some
    &&& (exact_exists || exists|i: int|
        0 <= i < entries.len() && is_source_of(#[trigger] entries[i], project.number))
}

/// The detector's cases: a file with the canonical name makes a project
/// implemented whatever else the directory holds; so does, failing that, a
/// file with the project's number prefix and the source extension; with
/// neither it is not implemented; and a project without a workspace member
/// never is.
pub proof fn lemma_detection_cases(project: Project, exact_exists: bool, entries: Seq<Seq<char>>)
    ensures
        project.workspace_member is Some && exact_exists ==> implemented(
            project,
            exact_exists,
            entries,
        ),
        project.workspace_member is Some && (exists|i: int|
            0 <= i < entries.len() && is_source_of(#[trigger] entries[i], project.number))
            ==> implemented(project, exact_exists, entries),
        project.workspace_member is Some && !exact_exists && (forall|i: int|
            0 <= i < entries.len() ==> !is_source_of(#[trigger] entries[i], project.number))
            ==> !implemented(project, exact_exists, entries),
        project.workspace_member is None ==> !implemented(project, exact_exists, entries),
{
}

/// Check if a project has been implemented, from what its member's binaries
/// directory holds (see `locate_project_file`).
pub fn is_project_implemented(project: &Project, exact_exists: bool, entries: &Vec<String>) -> (r:
    bool)
    ensures
        r == implemented(*project, exact_exists, views_of(entries@)),
{
    let m = locate_project_file(project, exact_exists, entries);
    match m {
        FileMatch::NoMatch => {
            proof {
                if project.workspace_member is Some && !exact_exists {
                    assert forall|i: int| 0 <= i < entries.len() implies !is_source_of(
                        #[trigger] views_of(entries@)[i],
                        project.number,
                    ) by {}
                }
            }
            false
        },
        FileMatch::Exact(_) => true,
        FileMatch::Prefix(f) => {
            proof {
                let i = choose|i: int|
                    0 <= i < entries.len() && entries@[i]@ == f@ && is_source_of(
                        f@,
                        project.number,
                    ) && none_before(views_of(entries@), project.number, i);
                assert(views_of(entries@)[i] == f@);
            }
            true
        },
    }
}

/// Whether a trimmed line counts as code: not empty, not a comment, not an
/// import.
pub open spec fn is_code(t: Seq<char>) -> bool {
    &&& t.len() > 0
    &&& !has_prefix(t, seq!['/', '/'])
    &&& !has_prefix(t, seq!['u', 's', 'e', ' '])
}

/// How many of `ls` count as code once trimmed.
pub open spec fn code_line_count(ls: Seq<Seq<char>>) -> nat
    decreases ls.len(),
{
    if ls.len() == 0 {
        0
    } else {
        code_line_count(ls.drop_last()) + if is_code(trim(ls.last())) {
            1nat
        } else {
            0nat
        }
    }
}

/// Count the lines of code in a source file's text: lines that, trimmed,
/// are not empty, not a `//` comment and not a `use ` import.
pub fn count_code_lines(content: &str) -> (r: u32)
    requires
        content@.len() <= u32::MAX,
    ensures
        r == code_line_count(lines(content@)),
{
    let chars = chars_of(content);
    let ls = text_lines(&chars);
    proof {
        lemma_lines_len(content@, 0, 0);
    }
    let slash: Vec<char> = vec!['/', '/'];
    let import: Vec<char> = vec!['u', 's', 'e', ' '];
    assert(slash@ =~= seq!['/', '/']);
    assert(import@ =~= seq!['u', 's', 'e', ' ']);
    let mut count: u32 = 0;
    let mut i: usize = 0;
    while i < ls.len()
        invariant
            i <= ls.len() <= u32::MAX,
            views(ls@) == lines(content@),
            slash@ == seq!['/', '/'],
            import@ == seq!['u', 's', 'e', ' '],
            count == code_line_count(views(ls@).take(i as int)),
            count <= i,
        decreases ls.len() - i,
    {
        proof {
            assert(views(ls@).take(i + 1).drop_last() =~= views(ls@).take(i as int));
            assert(views(ls@).take(i + 1).last() == ls@[i as int]@);
        }
        let t = trim_chars(&ls[i]);
        if t.len() > 0 && !starts_with_chars(&t, &slash) && !starts_with_chars(&t, &import) {
            count = count + 1;
        }
        i = i + 1;
    }
    assert(views(ls@).take(ls.len() as int) =~= views(ls@));
    count
}

} // verus!
