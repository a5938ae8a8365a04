//! Searching the source files of workspace members for a pattern.
use vstd::prelude::*;
use crate::text::{chars_of, lines, string_of, text_lines, views, views_of};

verus! {

#[verifier::external_type_specification]
#[verifier::external_body]
pub struct ExRegex(regex::Regex);

#[verifier::external_type_specification]
#[verifier::external_body]
pub struct ExRegexError(regex::Error);

/// Whether the regular expression `pattern`, compiled with case ignored or
/// not, matches somewhere in `line`.
pub uninterp spec fn regex_matches(pattern: Seq<char>, case_insensitive: bool, line: Seq<char>) -> bool;

/// Whether the regular expression `pattern` compiles, with case ignored or
/// not.
pub uninterp spec fn regex_compiles(pattern: Seq<char>, case_insensitive: bool) -> bool;

/// Relies on regex's `RegexBuilder::new`, `case_insensitive` and `build`:
/// compiles `pattern`, or fails on one it cannot compile; which of the two
/// depends on the pattern and the case setting alone.
#[verifier::external_body]
fn compile_regex(pattern: &str, case_insensitive: bool) -> (r: Result<regex::Regex, regex::Error>)
    ensures
        r is Ok <==> regex_compiles(pattern@, case_insensitive),
{
    regex::RegexBuilder::new(pattern).case_insensitive(case_insensitive).build()
}

/// Relies on regex's `Error` as `Display`: a description of why a pattern
/// did not compile.
#[verifier::external_body]
fn regex_error_message(e: &regex::Error) -> (r: String) {
    e.to_string()
}

/// A compiled search pattern. Its regex is always the one compiled from
/// `pattern` with `case_insensitive`.
pub struct Matcher {
    pattern: String,
    case_insensitive: bool,
    regex: regex::Regex,
}

/// Relies on regex's `Regex::is_match`: whether the regex of `m`, compiled
/// from its pattern and case setting, matches somewhere in `line`.
#[verifier::external_body]
fn regex_is_match(m: &Matcher, line: &str) -> (r: bool)
    ensures
        r == regex_matches(m.pattern@, m.case_insensitive, line@),
{
    m.regex.is_match(line)
}

/// Why a search cannot run.
pub enum SearchError {
    /// The pattern is not a valid regular expression; the message says why.
    InvalidPattern(String),
}

impl Matcher {
    /// Compile `pattern`, ignoring case when asked; fails exactly on a
    /// pattern that does not compile.
    pub fn new(pattern: &str, case_insensitive: bool) -> (r: Result<Matcher, SearchError>)
        ensures
            r is Ok <==> regex_compiles(pattern@, case_insensitive),
            r is Ok ==> r->Ok_0.pattern() == pattern@ && r->Ok_0.case_insensitive()
                == case_insensitive,
    {
        match compile_regex(pattern, case_insensitive) {
            Ok(regex) => Ok(Matcher { pattern: pattern.to_string(), case_insensitive, regex }),
            Err(e) => Err(SearchError::InvalidPattern(regex_error_message(&e))),
        }
    }

    pub closed spec fn pattern(&self) -> Seq<char> {
        self.pattern@
    }

    pub closed spec fn case_insensitive(&self) -> bool {
        self.case_insensitive
    }

    /// Whether the pattern matches somewhere in `line`.
    pub fn is_match(&self, line: &str) -> (r: bool)
        ensures
            r == regex_matches(self.pattern(), self.case_insensitive(), line@),
    {
        regex_is_match(self, line)
    }
}

/// The kinds of definition that have a built-in pattern.
pub enum DefinitionKind {
    Struct,
    Function,
    Trait,
    Enum,
}

/// The built-in pattern that finds definitions of a kind.
pub fn shortcut_pattern(kind: DefinitionKind) -> (r: &'static str)
    ensures
        r@ == match kind {
            DefinitionKind::Struct => "struct\\s+\\w+"@,
            DefinitionKind::Function => "fn\\s+\\w+\\s*\\("@,
            DefinitionKind::Trait => "trait\\s+\\w+"@,
            DefinitionKind::Enum => "enum\\s+\\w+"@,
        },
{
    match kind {
        DefinitionKind::Struct => "struct\\s+\\w+",
        DefinitionKind::Function => "fn\\s+\\w+\\s*\\(",
        DefinitionKind::Trait => "trait\\s+\\w+",
        DefinitionKind::Enum => "enum\\s+\\w+",
    }
}

/// One line that matched.
#[derive(Clone, Debug)]
pub struct SearchMatch {
    /// The file's path relative to its workspace member.
    pub file_path: String,
    /// The line's number, from 1.
    pub line_number: usize,
    pub line_content: String,
    /// The workspace member's name.
    pub workspace: String,
}

/// A source file of a workspace member: its path relative to the member,
/// and its text.
pub struct SourceFile {
    pub path: String,
    pub content: String,
}

/// A matching line: the file's path, the line's number from 1, its text.
pub type Hit = (Seq<char>, nat, Seq<char>);

/// The lines of `ls` whose flag in `flags` is set, with their numbers from
/// 1, each paired with `path`.
pub open spec fn flagged_hits(ls: Seq<Seq<char>>, flags: Seq<bool>, path: Seq<char>) -> Seq<Hit>
    decreases ls.len(),
{
    if ls.len() == 0 {
        seq![]
    } else {
        flagged_hits(ls.drop_last(), flags.take(ls.len() - 1), path) + if flags[ls.len() - 1] {
            seq![(path, ls.len() as nat, ls.last())]
        } else {
            seq![]
        }
    }
}

/// For each line of `ls`, whether the pattern matches it.
pub open spec fn match_flags(ls: Seq<Seq<char>>, pattern: Seq<char>, ci: bool) -> Seq<bool> {
    Seq::new(ls.len(), |k: int| regex_matches(pattern, ci, ls[k]))
}

/// The lines of `ls` that the pattern matches, with their numbers from 1,
/// each paired with `path`.
pub open spec fn line_hits(ls: Seq<Seq<char>>, pattern: Seq<char>, ci: bool, path: Seq<char>) -> Seq<Hit> {
    flagged_hits(ls, match_flags(ls, pattern, ci), path)
}

/// The matching lines of the files `fs` (path and text), file after file.
pub open spec fn file_hits(fs: Seq<(Seq<char>, Seq<char>)>, pattern: Seq<char>, ci: bool) -> Seq<Hit>
    decreases fs.len(),
{
    if fs.len() == 0 {
        seq![]
    } else {
        file_hits(fs.drop_last(), pattern, ci) + line_hits(
            lines(fs.last().1),
            pattern,
            ci,
            fs.last().0,
        )
    }
}

/// The path and text of each source file.
pub open spec fn files_view(fs: Seq<SourceFile>) -> Seq<(Seq<char>, Seq<char>)> {
    fs.map_values(|f: SourceFile| (f.path@, f.content@))
}

/// The hit that a match reports.
pub open spec fn hit_of(m: SearchMatch) -> Hit {
    (m.file_path@, m.line_number as nat, m.line_content@)
}

/// Whether `ms` reports exactly `hits`, in order, all in member `member`.
pub open spec fn reports(ms: Seq<SearchMatch>, hits: Seq<Hit>, member: Seq<char>) -> bool {
    &&& ms.len() == hits.len()
    &&& forall|k: int|
        0 <= k < ms.len() ==> hit_of(#[trigger] ms[k]) == hits[k] && ms[k].workspace@ == member
}

/// The matches of one file of member `member` at `path` whose lines are
/// `lines`, `matched` telling for each line whether the pattern matches it:
/// one per matched line, in order, with its number from 1.
pub fn collect_matches(member: &str, path: &str, lines: &Vec<String>, matched: &Vec<bool>) -> (r:
    Vec<SearchMatch>)
    requires
        matched.len() == lines.len(),
    ensures
        reports(r@, flagged_hits(views_of(lines@), matched@, path@), member@),
{
    let ghost all = views_of(lines@);
    let mut out: Vec<SearchMatch> = Vec::new();
    let mut i: usize = 0;
    while i < lines.len()
        invariant
            i <= lines.len() == matched.len(),
            all == views_of(lines@),
            reports(out@, flagged_hits(all.take(i as int), matched@.take(i as int), path@), member@),
        decreases lines.len() - i,
    {
        let ghost before = out@;
        proof {
            let t = all.take(i + 1);
            assert(t.drop_last() =~= all.take(i as int));
            assert(matched@.take(i + 1).take(i as int) =~= matched@.take(i as int));
            assert(t.last() == lines@[i as int]@);
            assert(matched@.take(i + 1)[i as int] == matched@[i as int]);
        }
        if matched[i] {
            out.push(
                SearchMatch {
                    file_path: path.to_string(),
                    line_number: i + 1,
                    line_content: lines[i].clone(),
                    workspace: member.to_string(),
                },
            );
            assert forall|k: int| 0 <= k < before.len() implies out@[k] == before[k] by {}
        }
        i = i + 1;
    }
    assert(all.take(lines.len() as int) =~= all);
    assert(matched@.take(lines.len() as int) =~= matched@);
    out
}

/// The matches of one file of member `member`.
fn search_file(m: &Matcher, member: &str, file: &SourceFile) -> (r: Vec<SearchMatch>)
    ensures
        reports(
            r@,
            line_hits(lines(file.content@), m.pattern(), m.case_insensitive(), file.path@),
            member@,
        ),
{
    let chars = chars_of(file.content.as_str());
    let ls = text_lines(&chars);
    let ghost all = views(ls@);
    let mut texts: Vec<String> = Vec::new();
    let mut matched: Vec<bool> = Vec::new();
    let mut i: usize = 0;
    while i < ls.len()
        invariant
            i <= ls.len(),
            all == views(ls@),
            texts.len() == i,
            matched.len() == i,
            views_of(texts@) == all.take(i as int),
            matched@ == match_flags(all, m.pattern(), m.case_insensitive()).take(i as int),
        decreases ls.len() - i,
    {
        let line = string_of(&ls[i]);
        let hit = m.is_match(line.as_str());
        let ghost t0 = views_of(texts@);
        texts.push(line);
        matched.push(hit);
        assert(views_of(texts@) =~= t0.push(line@));
        assert(views_of(texts@) =~= all.take(i + 1));
        assert(matched@ =~= match_flags(all, m.pattern(), m.case_insensitive()).take(i + 1));
        i = i + 1;
    }
    assert(views_of(texts@) =~= all);
    assert(matched@ =~= match_flags(all, m.pattern(), m.case_insensitive()));
    collect_matches(member, file.path.as_str(), &texts, &matched)
}

/// Whether a member is the one that holds these tools, which is never
/// searched.
pub open spec fn is_tools_member(name: Seq<char>) -> bool {
    name == seq!['t', 'o', 'o', 'l', 's']
}

/// Every line of the member's source files that matches, file after file
/// and line after line; nothing for the member that holds these tools.
pub fn search_in_workspace_member(m: &Matcher, member: &str, files: &Vec<SourceFile>) -> (r: Vec<
    SearchMatch,
>)
    ensures
        is_tools_member(member@) ==> r.len() == 0,
        !is_tools_member(member@) ==> reports(
            r@,
            file_hits(files_view(files@), m.pattern(), m.case_insensitive()),
            member@,
        ),
{
    let mut out: Vec<SearchMatch> = Vec::new();
    let name = chars_of(member);
    if name.len() == 5 && name[0] == 't' && name[1] == 'o' && name[2] == 'o' && name[3] == 'l'
        && name[4] == 's' {
        assert(name@ =~= seq!['t', 'o', 'o', 'l', 's']);
        return out;
    }
    assert(!is_tools_member(member@)) by {
        if is_tools_member(member@) {
            assert(name@[0] == 't');
        }
    }
    let ghost fs = files_view(files@);
    let mut i: usize = 0;
    while i < files.len()
        invariant
            i <= files.len(),
            fs == files_view(files@),
            reports(out@, file_hits(fs.take(i as int), m.pattern(), m.case_insensitive()), member@),
        decreases files.len() - i,
    {
        let ghost before = out@;
        proof {
            let t = fs.take(i + 1);
            assert(t.drop_last() =~= fs.take(i as int));
            assert(t.last() == (files@[i as int].path@, files@[i as int].content@));
        }
        let mut found = search_file(m, member, &files[i]);
        let ghost fv = found@;
        out.append(&mut found);
        proof {
            let a = file_hits(fs.take(i as int), m.pattern(), m.case_insensitive());
            let b = line_hits(
                lines(files@[i as int].content@),
                m.pattern(),
                m.case_insensitive(),
                files@[i as int].path@,
            );
            assert(file_hits(fs.take(i + 1), m.pattern(), m.case_insensitive()) == a + b);
            assert(out@.len() == (a + b).len());
            assert forall|k: int| 0 <= k < out@.len() implies hit_of(#[trigger] out@[k]) == (a
                + b)[k] && out@[k].workspace@ == member@ by {
                if k >= before.len() {
                    assert(out@[k] == fv[k - before.len()]);
                }
            }
        }
        i = i + 1;
    }
    assert(fs.take(files.len() as int) =~= fs);
    out
}

} // verus!
