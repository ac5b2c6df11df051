//! The search tools' own logic: the grep tool's per-file matching with
//! context lines and its report, and the glob tool's pattern
//! normalisation, result selection and report. Walking the directory
//! tree and reading files is left to the caller; regular expressions and
//! globs are compiled and matched by the `regex` and `globset` crates.
use vstd::prelude::*;
use crate::files::{newest_first, sort_newest_first, FileEntry};
use crate::paths::{std_strip_prefix, strip_prefix};
use crate::text::{
    chars_of, contains, decimal, lines, lines_of, push_chars, push_decimal, push_str, starts_with,
    starts_with_chars, string_of, string_views, views, find_char,
};

verus! {

// ---------------------------------------------------------------------------
// Outside matchers
// ---------------------------------------------------------------------------

#[verifier::external_type_specification]
#[verifier::external_body]
pub struct ExRegex(regex::Regex);

#[verifier::external_type_specification]
#[verifier::external_body]
pub struct ExGlobMatcher(globset::GlobMatcher);

/// What `RegexBuilder::build` makes of a pattern with the given case
/// sensitivity: success, or the error's message.
pub uninterp spec fn regex_build(pattern: Seq<char>, case_insensitive: bool) -> Result<(), Seq<char>>;

/// Whether the regular expression built from the pattern and case
/// sensitivity matches somewhere in `line` (`Regex::is_match`).
pub uninterp spec fn regex_is_match(pattern: Seq<char>, case_insensitive: bool, line: Seq<char>) -> bool;

/// What `Glob::new` makes of a pattern: success, or the error's message.
pub uninterp spec fn glob_build(pattern: Seq<char>) -> Result<(), Seq<char>>;

/// Whether the compiled glob matches the path (`GlobMatcher::is_match`).
pub uninterp spec fn glob_is_match(pattern: Seq<char>, path: Seq<char>) -> bool;

/// A compiled regular expression with the pattern it was built from.
pub struct LineMatcher {
    regex: regex::Regex,
    pattern: String,
    case_insensitive: bool,
}

impl LineMatcher {
    /// The pattern and case sensitivity it was built from.
    pub closed spec fn source(&self) -> (Seq<char>, bool) {
        (self.pattern@, self.case_insensitive)
    }
}

/// Builds a matcher with `RegexBuilder` (case-insensitive as asked); the
/// contract names the outcome, and a built matcher remembers its source.
#[verifier::external_body]
fn build_line_matcher(pattern: &str, case_insensitive: bool) -> (r: Result<LineMatcher, String>)
    ensures
        match r {
            Ok(m) => regex_build(pattern@, case_insensitive) is Ok && m.source() == (
                pattern@,
                case_insensitive,
            ),
            Err(e) => regex_build(pattern@, case_insensitive) == Err::<(), Seq<char>>(e@),
        },
{
    match regex::RegexBuilder::new(pattern).case_insensitive(case_insensitive).build() {
        Ok(regex) => Ok(LineMatcher { regex, pattern: pattern.to_string(), case_insensitive }),
        Err(e) => Err(e.to_string()),
    }
}

/// `Regex::is_match` on a line; the contract names the result.
#[verifier::external_body]
fn line_matches(m: &LineMatcher, line: &str) -> (b: bool)
    ensures
        b == regex_is_match(m.source().0, m.source().1, line@),
{
    m.regex.is_match(line)
}

/// A compiled glob with the pattern it was built from.
pub struct PathMatcher {
    matcher: globset::GlobMatcher,
    pattern: String,
}

impl PathMatcher {
    /// The pattern it was built from.
    pub closed spec fn source(&self) -> Seq<char> {
        self.pattern@
    }
}

/// Builds a glob matcher (`Glob::new`, then `compile_matcher`); the
/// contract names the outcome.
#[verifier::external_body]
fn build_path_matcher(pattern: &str) -> (r: Result<PathMatcher, String>)
    ensures
        match r {
            Ok(m) => glob_build(pattern@) is Ok && m.source() == pattern@,
            Err(e) => glob_build(pattern@) == Err::<(), Seq<char>>(e@),
        },
{
    match globset::Glob::new(pattern) {
        Ok(g) => Ok(PathMatcher { matcher: g.compile_matcher(), pattern: pattern.to_string() }),
        Err(e) => Err(e.to_string()),
    }
}

/// `GlobMatcher::is_match` on a path; the contract names the result.
#[verifier::external_body]
fn path_matches(m: &PathMatcher, path: &str) -> (b: bool)
    ensures
        b == glob_is_match(m.source(), path@),
{
    m.matcher.is_match(path)
}

// ---------------------------------------------------------------------------
// Grep
// ---------------------------------------------------------------------------

/// The grep tool's parameters.
#[derive(Debug, Clone)]
pub struct GrepToolInput {
    /// The regular expression to search for.
    pub pattern: String,
    /// The directory to search (default `.`).
    pub path: Option<String>,
    /// A glob on file names that selects the files searched.
    pub name_glob: Option<String>,
    /// Lines of context before and after each match.
    pub context_lines: usize,
    /// Whether to ignore case.
    pub case_insensitive: bool,
}

/// The default number of context lines.
pub const DEFAULT_CONTEXT_LINES: usize = 2;

/// A matching line with its context.
#[derive(Debug, Clone)]
pub struct GrepMatch {
    pub path: String,
    /// 1-based line number.
    pub line_number: usize,
    pub line_content: String,
    pub context_before: Vec<String>,
    pub context_after: Vec<String>,
}

/// A search ready to run: the compiled pattern, the optional file-name
/// filter, the directory and the context width.
pub struct GrepSearch {
    matcher: LineMatcher,
    name_filter: Option<PathMatcher>,
    root: String,
    context: usize,
}

impl GrepSearch {
    /// The search's pattern and case sensitivity.
    pub closed spec fn pattern(&self) -> (Seq<char>, bool) {
        self.matcher.source()
    }

    /// The directory searched.
    pub closed spec fn root(&self) -> Seq<char> {
        self.root@
    }

    /// The number of context lines around a match.
    pub closed spec fn context(&self) -> nat {
        self.context as nat
    }

    /// The file-name filter's pattern, if any.
    pub closed spec fn name_filter_pattern(&self) -> Option<Seq<char>> {
        match self.name_filter {
            Some(m) => Some(m.source()),
            None => None,
        }
    }
}

/// Why a search could not be set up.
#[derive(Debug, Clone, PartialEq)]
pub enum GrepSetupError {
    /// The pattern is not a valid regular expression: the message is the
    /// whole error text.
    InvalidPattern(String),
    /// The file-name glob does not compile: the glob and the glob
    /// compiler's message.
    InvalidNameGlob { glob: String, error: String },
}

/// A setup error by its texts.
pub enum SetupErrorView {
    InvalidPattern(Seq<char>),
    InvalidNameGlob(Seq<char>, Seq<char>),
}

/// The view of a setup error.
pub open spec fn setup_error_view(e: GrepSetupError) -> SetupErrorView {
    match e {
        GrepSetupError::InvalidPattern(m) => SetupErrorView::InvalidPattern(m@),
        GrepSetupError::InvalidNameGlob { glob, error } => SetupErrorView::InvalidNameGlob(
            glob@,
            error@,
        ),
    }
}

/// The error for a search that cannot be set up: the pattern is checked
/// first, then the file-name glob.
pub open spec fn grep_setup_error(input: GrepToolInput) -> Option<SetupErrorView> {
    match regex_build(input.pattern@, input.case_insensitive) {
        Err(e) => Some(SetupErrorView::InvalidPattern("Invalid regex pattern: "@ + e)),
        Ok(_) => match input.name_glob {
            Some(p) => match glob_build(p@) {
                Err(e) => Some(SetupErrorView::InvalidNameGlob(p@, e)),
                Ok(_) => None,
            },
            None => None,
        },
    }
}

impl GrepSearch {
    /// Prepares a search: compiles the pattern (case-insensitively where
    /// asked) and the file-name glob, and settles the directory (default
    /// `.`).
    pub fn new(input: &GrepToolInput) -> (r: Result<GrepSearch, GrepSetupError>)
        ensures
            match r {
                Ok(s) => {
                    &&& grep_setup_error(*input) is None
                    &&& s.pattern() == (input.pattern@, input.case_insensitive)
                    &&& s.name_filter_pattern() == match input.name_glob {
                        Some(p) => Some(p@),
                        None => None,
                    }
                    &&& s.root() == match input.path {
                        Some(p) => p@,
                        None => "."@,
                    }
                    &&& s.context() == input.context_lines
                },
                Err(e) => grep_setup_error(*input) == Some(setup_error_view(e)),
            },
    {
        let matcher = match build_line_matcher(input.pattern.as_str(), input.case_insensitive) {
            Ok(m) => m,
            Err(e) => {
                let mut m = "Invalid regex pattern: ".to_string();
                push_str(&mut m, e.as_str());
                return Err(GrepSetupError::InvalidPattern(m));
            },
        };
        let name_filter = match &input.name_glob {
            Some(p) => match build_path_matcher(p.as_str()) {
                Ok(m) => Some(m),
                Err(e) => {
                    return Err(GrepSetupError::InvalidNameGlob { glob: p.clone(), error: e });
                },
            },
            None => None,
        };
        let search_path = match &input.path {
            Some(p) => p.clone(),
            None => ".".to_string(),
        };
        Ok(GrepSearch { matcher, name_filter, root: search_path, context: input.context_lines })
    }

    /// The directory to search.
    pub fn search_path(&self) -> (p: &str)
        ensures
            p@ == self.root(),
    {
        self.root.as_str()
    }

    /// Whether a file with this name is searched: every file without a
    /// file-name glob, else those whose name (empty where it has none)
    /// matches it.
    pub fn wants_file(&self, file_name: Option<&str>) -> (b: bool)
        ensures
            b == match self.name_filter_pattern() {
                None => true,
                Some(p) => glob_is_match(
                    p,
                    match file_name {
                        Some(n) => n@,
                        None => Seq::<char>::empty(),
                    },
                ),
            },
    {
        match &self.name_filter {
            None => true,
            Some(m) => match file_name {
                Some(n) => path_matches(m, n),
                None => {
                    let empty = String::new();
                    path_matches(m, empty.as_str())
                },
            },
        }
    }
}

/// The lines `index - count .. index` (from the first line at the
/// start).
pub open spec fn before_lines(ls: Seq<Seq<char>>, index: int, count: int) -> Seq<Seq<char>> {
    let start = if index >= count {
        index - count
    } else {
        0
    };
    ls.subrange(start, index)
}

/// The lines `index + 1 .. index + 1 + count` (up to the last line).
pub open spec fn after_lines(ls: Seq<Seq<char>>, index: int, count: int) -> Seq<Seq<char>> {
    let end = if index + 1 + count < ls.len() {
        index + 1 + count
    } else {
        ls.len() as int
    };
    ls.subrange(index + 1, end)
}

/// The lines of `ls[from..to]` as strings.
fn line_strings(ls: &Vec<Vec<char>>, from: usize, to: usize) -> (r: Vec<String>)
    requires
        from <= to <= ls@.len(),
    ensures
        string_views(r@) == views(ls@).subrange(from as int, to as int),
{
    let mut r: Vec<String> = Vec::new();
    let mut i: usize = from;
    while i < to
        invariant
            from <= i <= to <= ls@.len(),
            string_views(r@) == views(ls@).subrange(from as int, i as int),
        decreases to - i,
    {
        let s = string_of(ls[i].as_slice());
        let ghost before = r@;
        r.push(s);
        assert(string_views(r@) == string_views(before).push(s@));
        assert(views(ls@).subrange(from as int, i + 1) == views(ls@).subrange(from as int, i as int).push(
            ls@[i as int]@,
        ));
        i = i + 1;
    }
    r
}

/// Up to `count` lines before line `index`.
pub fn context_before(ls: &Vec<Vec<char>>, index: usize, count: usize) -> (r: Vec<String>)
    requires
        index <= ls@.len(),
    ensures
        string_views(r@) == before_lines(views(ls@), index as int, count as int),
{
    let start = index.saturating_sub(count);
    line_strings(ls, start, index)
}

/// Up to `count` lines after line `index`.
pub fn context_after(ls: &Vec<Vec<char>>, index: usize, count: usize) -> (r: Vec<String>)
    requires
        index < ls@.len(),
        index + 1 + count <= usize::MAX,
    ensures
        string_views(r@) == after_lines(views(ls@), index as int, count as int),
{
    let end = if index + 1 + count < ls.len() {
        index + 1 + count
    } else {
        ls.len()
    };
    line_strings(ls, index + 1, end)
}

/// A match by its values: path, line number, line, context before and
/// after.
pub type MatchView = (Seq<char>, nat, Seq<char>, Seq<Seq<char>>, Seq<Seq<char>>);

/// The view of a match.
pub open spec fn match_view(m: GrepMatch) -> MatchView {
    (
        m.path@,
        m.line_number as nat,
        m.line_content@,
        string_views(m.context_before@),
        string_views(m.context_after@),
    )
}

/// The matches in one file's lines from line `i` on, each with `count`
/// lines of context.
pub open spec fn matches_from(
    path: Seq<char>,
    ls: Seq<Seq<char>>,
    pattern: (Seq<char>, bool),
    count: nat,
    i: int,
) -> Seq<MatchView>
    decreases ls.len() - i,
{
    if i < 0 || i >= ls.len() {
        seq![]
    } else {
        (if regex_is_match(pattern.0, pattern.1, ls[i]) {
            seq![
                (
                    path,
                    (i + 1) as nat,
                    ls[i],
                    before_lines(ls, i, count as int),
                    after_lines(ls, i, count as int),
                ),
            ]
        } else {
            seq![]
        }) + matches_from(path, ls, pattern, count, i + 1)
    }
}

impl GrepSearch {
    /// The matching lines of one file's content, in order, each with its
    /// 1-based number and the context lines around it.
    pub fn matches_in(&self, path: &str, content: &str) -> (r: Vec<GrepMatch>)
        requires
            lines(content@).len() + 1 + self.context() <= usize::MAX,
        ensures
            r@.map_values(|m: GrepMatch| match_view(m)) == matches_from(
                path@,
                lines(content@),
                self.pattern(),
                self.context() as nat,
                0,
            ),
            forall|k: int|
                0 <= k < r@.len() ==> (#[trigger] r@[k]).context_before@.len() <= r@[k].line_number
                    && r@[k].line_number + 1 + r@[k].context_after@.len() <= usize::MAX,
    {
        let ls = lines_of(content);
        let ghost lv = views(ls@);
        let ghost pat = self.pattern();
        let ghost count = self.context() as nat;
        let mut out: Vec<GrepMatch> = Vec::new();
        let mut i: usize = 0;
        while i < ls.len()
            invariant
                i <= ls@.len(),
                lv == views(ls@),
                lv == lines(content@),
                pat == self.pattern(),
                count == self.context(),
                ls@.len() + 1 + self.context() <= usize::MAX,
                out@.map_values(|m: GrepMatch| match_view(m)) + matches_from(
                    path@,
                    lv,
                    pat,
                    count,
                    i as int,
                ) == matches_from(path@, lv, pat, count, 0),
                forall|k: int|
                    0 <= k < out@.len() ==> (#[trigger] out@[k]).context_before@.len()
                        <= out@[k].line_number && out@[k].line_number + 1
                        + out@[k].context_after@.len() <= usize::MAX,
            decreases ls.len() - i,
        {
            let line = string_of(ls[i].as_slice());
            assert(line@ == lv[i as int]);
            let ghost rest = matches_from(path@, lv, pat, count, i + 1);
            if line_matches(&self.matcher, line.as_str()) {
                let before = context_before(&ls, i, self.context);
                let after = context_after(&ls, i, self.context);
                let m = GrepMatch {
                    path: path.to_string(),
                    line_number: i + 1,
                    line_content: line,
                    context_before: before,
                    context_after: after,
                };
                let ghost mv = match_view(m);
                let ghost prev = out@;
                out.push(m);
                assert(out@.map_values(|m: GrepMatch| match_view(m)) == prev.map_values(
                    |m: GrepMatch| match_view(m),
                ).push(mv));
                assert(prev.map_values(|m: GrepMatch| match_view(m)).push(mv) + rest
                    == prev.map_values(|m: GrepMatch| match_view(m)) + (seq![mv] + rest));
                proof {
                    let k = out@.len() - 1;
                    assert(out@[k] == m);
                    assert(string_views(m.context_before@).len() == m.context_before@.len());
                    assert(string_views(m.context_after@).len() == m.context_after@.len());
                }
            } else {
                assert(Seq::<MatchView>::empty() + rest == rest);
            }
            i = i + 1;
        }
        out
    }
}

/// How many results a report shows: all, or `max` where there are more.
pub open spec fn shown_count(total: nat, max: nat) -> nat {
    if total < max {
        total
    } else {
        max
    }
}

/// Numbered context lines, the first numbered `first`.
pub open spec fn context_text(ctx: Seq<Seq<char>>, first: int) -> Seq<char>
    decreases ctx.len(),
{
    if ctx.len() == 0 {
        seq![]
    } else {
        context_text(ctx.drop_last(), first) + "  "@ + decimal((first + ctx.len() - 1) as nat)
            + ": "@ + ctx.last() + "\n"@
    }
}

/// One match as the report shows it: the context before, the matching
/// line marked with `>`, the context after, and a separator.
pub open spec fn match_text(m: MatchView) -> Seq<char> {
    context_text(m.3, m.1 - m.3.len()) + "> "@ + m.0 + ":"@ + decimal(m.1) + ": "@ + m.2 + "\n"@
        + context_text(m.4, (m.1 + 1) as int) + "---\n"@
}

/// The matches as the report shows them, in order.
pub open spec fn matches_text(ms: Seq<MatchView>) -> Seq<char>
    decreases ms.len(),
{
    if ms.len() == 0 {
        seq![]
    } else {
        matches_text(ms.drop_last()) + match_text(ms.last())
    }
}

/// The grep report: a header with the count, the first `max` matches,
/// and a note on how many were left out.
pub open spec fn grep_report(ms: Seq<MatchView>, max: nat) -> Seq<char> {
    let total = ms.len();
    let shown = shown_count(total, max);
    if total == 0 {
        "No matches found."@
    } else {
        (if shown == total {
            "[grep] Found "@ + decimal(total) + " result(s):\n\n"@
        } else {
            "[grep] Showing "@ + decimal(shown) + " of "@ + decimal(total) + " result(s):\n\n"@
        }) + matches_text(ms.take(shown as int)) + if total > shown {
            "\n["@ + decimal((total - shown) as nat)
                + " more result(s) not shown. Narrow your search with a more specific pattern or add file filters.]\n"@
        } else {
            seq![]
        }
    }
}

/// Appends numbered context lines.
fn push_context(out: &mut String, ctx: &Vec<String>, first: usize)
    requires
        first + ctx@.len() <= usize::MAX,
    ensures
        final(out)@ == old(out)@ + context_text(string_views(ctx@), first as int),
{
    let ghost cv = string_views(ctx@);
    let mut i: usize = 0;
    while i < ctx.len()
        invariant
            i <= ctx@.len(),
            first + ctx@.len() <= usize::MAX,
            cv == string_views(ctx@),
            out@ == old(out)@ + context_text(cv.take(i as int), first as int),
        decreases ctx.len() - i,
    {
        push_str(out, "  ");
        push_decimal(out, (first + i) as u64);
        push_str(out, ": ");
        push_str(out, ctx[i].as_str());
        push_str(out, "\n");
        assert(cv.take(i + 1).drop_last() == cv.take(i as int));
        assert(cv.take(i + 1).last() == ctx@[i as int]@);
        i = i + 1;
    }
    assert(cv.take(ctx@.len() as int) == cv);
}

/// Appends one match as the report shows it.
fn push_match(out: &mut String, m: &GrepMatch)
    requires
        m.context_before@.len() <= m.line_number,
        m.line_number + 1 + m.context_after@.len() <= usize::MAX,
    ensures
        final(out)@ == old(out)@ + match_text(match_view(*m)),
{
    let first = m.line_number - m.context_before.len();
    push_context(out, &m.context_before, first);
    push_str(out, "> ");
    push_str(out, m.path.as_str());
    push_str(out, ":");
    push_decimal(out, m.line_number as u64);
    push_str(out, ": ");
    push_str(out, m.line_content.as_str());
    push_str(out, "\n");
    push_context(out, &m.context_after, m.line_number + 1);
    push_str(out, "---\n");
    assert(string_views(m.context_before@).len() == m.context_before@.len());
}

/// Formats grep matches for the model, showing at most `max_results`.
pub fn format_grep_results(matches: &[GrepMatch], max_results: usize) -> (s: String)
    requires
        forall|k: int|
            0 <= k < matches@.len() ==> (#[trigger] matches@[k]).context_before@.len()
                <= matches@[k].line_number && matches@[k].line_number + 1
                + matches@[k].context_after@.len() <= usize::MAX,
    ensures
        s@ == grep_report(matches@.map_values(|m: GrepMatch| match_view(m)), max_results as nat),
{
    let ghost mv = matches@.map_values(|m: GrepMatch| match_view(m));
    if matches.len() == 0 {
        return "No matches found.".to_string();
    }
    let total = matches.len();
    let shown: usize = if total < max_results {
        total
    } else {
        max_results
    };
    let mut out = if shown == total {
        let mut h = "[grep] Found ".to_string();
        push_decimal(&mut h, total as u64);
        push_str(&mut h, " result(s):\n\n");
        h
    } else {
        let mut h = "[grep] Showing ".to_string();
        push_decimal(&mut h, shown as u64);
        push_str(&mut h, " of ");
        push_decimal(&mut h, total as u64);
        push_str(&mut h, " result(s):\n\n");
        h
    };
    let ghost head = out@;
    let mut i: usize = 0;
    while i < shown
        invariant
            i <= shown <= matches@.len(),
            mv == matches@.map_values(|m: GrepMatch| match_view(m)),
            forall|k: int|
                0 <= k < matches@.len() ==> (#[trigger] matches@[k]).context_before@.len()
                    <= matches@[k].line_number && matches@[k].line_number + 1
                    + matches@[k].context_after@.len() <= usize::MAX,
            out@ == head + matches_text(mv.take(i as int)),
        decreases shown - i,
    {
        let ghost v = match_view(matches@[i as int]);
        assert(mv[i as int] == v);
        push_match(&mut out, &matches[i]);
        proof {
            assert(mv.take(i + 1).drop_last() == mv.take(i as int));
            assert(mv.take(i + 1).last() == v);
        }
        i = i + 1;
    }
    if total > shown {
        push_str(&mut out, "\n[");
        push_decimal(&mut out, (total - shown) as u64);
        push_str(
            &mut out,
            " more result(s) not shown. Narrow your search with a more specific pattern or add file filters.]\n",
        );
    } else {
        assert(out@ == out@ + Seq::<char>::empty());
    }
    out
}


// ---------------------------------------------------------------------------
// Glob
// ---------------------------------------------------------------------------

/// The glob tool's parameters.
#[derive(Debug, Clone)]
pub struct GlobToolInput {
    /// The glob to match paths against.
    pub pattern: String,
    /// The directory to search (default `.`).
    pub path: Option<String>,
    /// The most results to return.
    pub limit: usize,
}

/// The default result limit of a glob search.
pub const DEFAULT_GLOB_LIMIT: usize = 100;

/// A glob written by a model, made recursive: without a separator and not
/// starting with `**`, it gets a `**/` prefix; a leading `./` is dropped.
pub open spec fn normalized_glob(p: Seq<char>) -> Seq<char> {
    let q = if !p.contains('/') && !starts_with(p, "**"@) {
        "**/"@ + p
    } else {
        p
    };
    if starts_with(q, "./"@) {
        q.skip(2)
    } else {
        q
    }
}

/// Normalises a model-written glob so that a bare `*.rs` matches
/// recursively.
pub fn normalize_glob_pattern(pattern: &str) -> (r: String)
    ensures
        r@ == normalized_glob(pattern@),
{
    let cs = chars_of(pattern);
    let slash = find_char(cs.as_slice(), '/');
    let stars = chars_of("**");
    let q: Vec<char> = if slash == cs.len() && !starts_with_chars(cs.as_slice(), stars.as_slice()) {
        let mut q = chars_of("**/");
        let mut i: usize = 0;
        let ghost head = q@;
        while i < cs.len()
            invariant
                i <= cs@.len(),
                q@ == head + cs@.take(i as int),
            decreases cs.len() - i,
        {
            q.push(cs[i]);
            i = i + 1;
            assert(cs@.take(i as int) == cs@.take(i - 1).push(cs@[i - 1]));
        }
        assert(cs@.take(cs@.len() as int) == cs@);
        q
    } else {
        cs
    };
    let dot = chars_of("./");
    proof {
        reveal_strlit("./");
        assert(dot@.len() == 2);
    }
    if starts_with_chars(q.as_slice(), dot.as_slice()) {
        let mut r = String::new();
        push_chars(&mut r, q.as_slice(), 2, q.len());
        assert(q@.subrange(2, q@.len() as int) == q@.skip(2));
        r
    } else {
        string_of(q.as_slice())
    }
}

/// A glob search ready to run: the compiled glob and the directory.
pub struct GlobSearch {
    matcher: PathMatcher,
    root: String,
}

impl GlobSearch {
    /// The glob's pattern.
    pub closed spec fn pattern(&self) -> Seq<char> {
        self.matcher.source()
    }

    /// The directory searched.
    pub closed spec fn root(&self) -> Seq<char> {
        self.root@
    }

    /// Prepares a glob search from the tool's parameters (the pattern as
    /// given, the directory defaulting to `.`).
    pub fn new(input: &GlobToolInput) -> (r: Result<GlobSearch, String>)
        ensures
            match r {
                Ok(s) => {
                    &&& glob_build(input.pattern@) is Ok
                    &&& s.pattern() == input.pattern@
                    &&& s.root() == match input.path {
                        Some(p) => p@,
                        None => "."@,
                    }
                },
                Err(e) => match glob_build(input.pattern@) {
                    Err(m) => e@ == "Invalid glob pattern '"@ + input.pattern@ + "': "@ + m,
                    Ok(_) => false,
                },
            },
    {
        match build_path_matcher(input.pattern.as_str()) {
            Ok(matcher) => {
                let root = match &input.path {
                    Some(p) => p.clone(),
                    None => ".".to_string(),
                };
                Ok(GlobSearch { matcher, root })
            },
            Err(e) => {
                let mut m = "Invalid glob pattern '".to_string();
                push_str(&mut m, input.pattern.as_str());
                push_str(&mut m, "': ");
                push_str(&mut m, e.as_str());
                Err(m)
            },
        }
    }

    /// The directory to search.
    pub fn search_path(&self) -> (p: &str)
        ensures
            p@ == self.root(),
    {
        self.root.as_str()
    }

    /// Whether a path found under the search directory is a result: its
    /// path relative to the directory (the path itself where it is not
    /// under it) is not empty and matches the glob.
    pub fn selects(&self, path: &str) -> (b: bool)
        ensures
            b == ({
                let rel = match std_strip_prefix(path@, self.root()) {
                    Some(r) => r,
                    None => path@,
                };
                rel.len() > 0 && glob_is_match(self.pattern(), rel)
            }),
    {
        let rel = match strip_prefix(path, self.root.as_str()) {
            Some(r) => r,
            None => path.to_string(),
        };
        if rel.as_str().is_empty() {
            return false;
        }
        path_matches(&self.matcher, rel.as_str())
    }
}

/// The results kept: newest first, at most `limit`.
pub fn select_glob_results(found: &[FileEntry], limit: usize) -> (r: Vec<FileEntry>)
    ensures
        newest_first(r@),
        r@.len() == shown_count(found@.len(), limit as nat),
        exists|all: Seq<FileEntry>|
            all.len() == found@.len() && newest_first(all) && (forall|k: int|
                #[trigger] crate::files::at_recency(all, k) == crate::files::at_recency(found@, k))
                && r@ == all.take(r@.len() as int),
{
    let mut sorted = sort_newest_first(found);
    let ghost all = sorted@;
    if limit < sorted.len() {
        sorted.truncate(limit);
    }
    proof {
        assert(sorted@ == all.take(sorted@.len() as int));
        assert forall|a: int, b: int| 0 <= a < b < sorted@.len() implies crate::files::recency(
            #[trigger] sorted@[a],
        ) >= crate::files::recency(#[trigger] sorted@[b]) by {
            assert(sorted@[a] == all[a] && sorted@[b] == all[b]);
        }
    }
    sorted
}

/// The text of a size: bytes below 1 KiB, else KiB below 1 MiB, else
/// MiB, the latter two with one decimal rounded to nearest (ties to even).
pub open spec fn size_text(bytes: nat) -> Seq<char> {
    if bytes < 1024 {
        decimal(bytes) + "B"@
    } else {
        let unit: nat = if bytes < 1024 * 1024 {
            1024
        } else {
            1024 * 1024
        };
        let q = (bytes * 10) / unit;
        let rem = (bytes * 10) % unit;
        let t: nat = if 2 * rem > unit || (2 * rem == unit && q % 2 == 1) {
            q + 1
        } else {
            q
        };
        decimal(t / 10) + "."@ + decimal(t % 10) + if bytes < 1024 * 1024 {
            "KB"@
        } else {
            "MB"@
        }
    }
}

/// The size of a file as reports show it.
pub fn format_file_size(bytes: u64) -> (s: String)
    ensures
        s@ == size_text(bytes as nat),
{
    let mut s = String::new();
    if bytes < 1024 {
        push_decimal(&mut s, bytes);
        push_str(&mut s, "B");
        return s;
    }
    let unit: u128 = if bytes < 1024 * 1024 {
        1024
    } else {
        1024 * 1024
    };
    let b = bytes as u128;
    let q = (b * 10) / unit;
    let rem = (b * 10) % unit;
    let t: u128 = if 2 * rem > unit || (2 * rem == unit && q % 2 == 1) {
        q + 1
    } else {
        q
    };
    assert(t / 10 <= u64::MAX) by (nonlinear_arith)
        requires
            t <= q + 1,
            q == (b as int * 10) / (unit as int),
            unit >= 1024,
            b <= u64::MAX,
    ;
    push_decimal(&mut s, (t / 10) as u64);
    push_str(&mut s, ".");
    push_decimal(&mut s, (t % 10) as u64);
    if bytes < 1024 * 1024 {
        push_str(&mut s, "KB");
    } else {
        push_str(&mut s, "MB");
    }
    s
}

/// How long ago a file was modified, from its modification time in
/// nanoseconds and the current time in seconds: `just now` within the
/// hour, hours within the day, days after that; `unknown` without a time.
pub open spec fn age_text(modified: Option<u128>, now_secs: u64) -> Seq<char> {
    match modified {
        None => "unknown"@,
        Some(ns) => {
            let secs = ns / 1_000_000_000;
            let hours: nat = if now_secs >= secs {
                ((now_secs - secs) / 3600) as nat
            } else {
                0
            };
            if hours < 1 {
                "just now"@
            } else if hours < 24 {
                decimal(hours) + "h ago"@
            } else {
                decimal(hours / 24) + "d ago"@
            }
        },
    }
}

/// One result line.
pub open spec fn glob_line(e: FileEntry, now_secs: u64) -> Seq<char> {
    "  "@ + e.path@ + " ("@ + size_text(e.size as nat) + ", "@ + age_text(e.modified, now_secs)
        + ")\n"@
}

/// The result lines, in order.
pub open spec fn glob_lines(es: Seq<FileEntry>, now_secs: u64) -> Seq<char>
    decreases es.len(),
{
    if es.len() == 0 {
        seq![]
    } else {
        glob_lines(es.drop_last(), now_secs) + glob_line(es.last(), now_secs)
    }
}

/// The glob report: a header with the count, the first `limit` files
/// with their sizes and ages, and a note on how many were left out.
pub open spec fn glob_report(es: Seq<FileEntry>, limit: nat, now_secs: u64) -> Seq<char> {
    let total = es.len();
    let shown = shown_count(total, limit);
    if total == 0 {
        "No files matched the pattern."@
    } else {
        (if shown == total {
            "[glob] Found "@ + decimal(total) + " file(s):\n\n"@
        } else {
            "[glob] Showing "@ + decimal(shown) + " of "@ + decimal(total) + " file(s):\n\n"@
        }) + glob_lines(es.take(shown as int), now_secs) + if total > shown {
            "\n["@ + decimal((total - shown) as nat)
                + " more file(s) not shown. Use a more specific pattern or reduce the search scope.]\n"@
        } else {
            seq![]
        }
    }
}

/// Appends how long ago a file was modified.
fn push_age(s: &mut String, modified: Option<u128>, now_secs: u64)
    ensures
        final(s)@ == old(s)@ + age_text(modified, now_secs),
{
    match modified {
        None => push_str(s, "unknown"),
        Some(ns) => {
            let secs: u128 = ns / 1_000_000_000;
            let now = now_secs as u128;
            let hours: u128 = if now >= secs {
                (now - secs) / 3600
            } else {
                0
            };
            if hours < 1 {
                push_str(s, "just now");
            } else if hours < 24 {
                push_decimal(s, hours as u64);
                push_str(s, "h ago");
            } else {
                push_decimal(s, (hours / 24) as u64);
                push_str(s, "d ago");
            }
        },
    }
}

/// Formats glob results for the model, showing at most `limit`, with
/// ages counted from `now_secs`.
pub fn format_glob_results(results: &[FileEntry], limit: usize, now_secs: u64) -> (s: String)
    ensures
        s@ == glob_report(results@, limit as nat, now_secs),
{
    if results.len() == 0 {
        return "No files matched the pattern.".to_string();
    }
    let total = results.len();
    let shown: usize = if total < limit {
        total
    } else {
        limit
    };
    let mut out = if shown == total {
        let mut h = "[glob] Found ".to_string();
        push_decimal(&mut h, total as u64);
        push_str(&mut h, " file(s):\n\n");
        h
    } else {
        let mut h = "[glob] Showing ".to_string();
        push_decimal(&mut h, shown as u64);
        push_str(&mut h, " of ");
        push_decimal(&mut h, total as u64);
        push_str(&mut h, " file(s):\n\n");
        h
    };
    let ghost head = out@;
    let mut i: usize = 0;
    while i < shown
        invariant
            i <= shown <= results@.len(),
            out@ == head + glob_lines(results@.take(i as int), now_secs),
        decreases shown - i,
    {
        let e = &results[i];
        push_str(&mut out, "  ");
        push_str(&mut out, e.path.as_str());
        push_str(&mut out, " (");
        let size = format_file_size(e.size);
        push_str(&mut out, size.as_str());
        push_str(&mut out, ", ");
        push_age(&mut out, e.modified, now_secs);
        push_str(&mut out, ")\n");
        assert(results@.take(i + 1).drop_last() == results@.take(i as int));
        assert(results@.take(i + 1).last() == *e);
        i = i + 1;
    }
    if total > shown {
        push_str(&mut out, "\n[");
        push_decimal(&mut out, (total - shown) as u64);
        push_str(
            &mut out,
            " more file(s) not shown. Use a more specific pattern or reduce the search scope.]\n",
        );
    } else {
        assert(out@ == out@ + Seq::<char>::empty());
    }
    out
}

// ---------------------------------------------------------------------------
// The tools
// ---------------------------------------------------------------------------

/// The grep tool: regular-expression search over file contents.
#[derive(Debug, Clone, Copy)]
pub struct GrepTool {
    /// The most matches a report shows.
    pub max_results: usize,
}

impl GrepTool {
    /// The tool, showing up to 50 matches.
    pub fn new() -> (t: GrepTool)
        ensures
            t.max_results == 50,
    {
        GrepTool { max_results: 50 }
    }

    /// The tool's name.
    pub fn name(&self) -> (s: &'static str)
        ensures
            s@ == "grep"@,
    {
        "grep"
    }

    /// The tool's description for the model.
    pub fn description(&self) -> (s: &'static str)
        ensures
            s@ == "Search file contents using regex patterns. Returns matching lines with surrounding context. Use this to find function definitions, error messages, imports, and any text pattern across the codebase. For finding files by name, use the glob tool instead."@,
    {
        "Search file contents using regex patterns. Returns matching lines with surrounding context. Use this to find function definitions, error messages, imports, and any text pattern across the codebase. For finding files by name, use the glob tool instead."
    }
}

/// The glob tool: file discovery by name pattern.
#[derive(Debug, Clone, Copy)]
pub struct GlobTool {
    /// The most files a report shows.
    pub max_results: usize,
}

impl GlobTool {
    /// The tool, showing up to 100 files.
    pub fn new() -> (t: GlobTool)
        ensures
            t.max_results == 100,
    {
        GlobTool { max_results: 100 }
    }

    /// The tool's name.
    pub fn name(&self) -> (s: &'static str)
        ensures
            s@ == "glob"@,
    {
        "glob"
    }

    /// The tool's description for the model.
    pub fn description(&self) -> (s: &'static str)
        ensures
            s@ == "Find files by name pattern using glob syntax. Supports ** for recursive matching, {a,b} for alternatives, and ? for single characters. Use this to discover project structure, find test files, locate configs, or identify all files of a specific type. For searching file contents, use the grep tool instead."@,
    {
        "Find files by name pattern using glob syntax. Supports ** for recursive matching, {a,b} for alternatives, and ? for single characters. Use this to discover project structure, find test files, locate configs, or identify all files of a specific type. For searching file contents, use the grep tool instead."
    }
}

} // verus!
