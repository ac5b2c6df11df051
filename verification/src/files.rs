//! The file tools' own logic: numbered reads of line ranges, normalised
//! writes and their summaries, directory listings (ignored directories,
//! the base-directory boundary, newest-first order) and the shape of
//! their results. The file system itself is read and written by the
//! caller.
use vstd::prelude::*;
use vstd::utf8::encode_utf8;
use crate::paths::{
    part_view, path_parts, path_starts_with, std_path_parts, std_path_starts_with,
    std_strip_prefix, strip_prefix, PathPart,
};
use crate::text::{
    chars_of, decimal, join, lines, lines_of, pad_left, push_chars, push_decimal,
    push_padded_decimal, push_str, str_eq, string_of, views,
};

verus! {

// ---------------------------------------------------------------------------
// Files by recency
// ---------------------------------------------------------------------------

/// A file found by a listing or a search: its path, its modification time
/// in nanoseconds since the Unix epoch (where known) and its size.
#[derive(Debug)]
pub struct FileEntry {
    pub path: String,
    pub modified: Option<u128>,
    pub size: u64,
}

impl FileEntry {
    /// An equal copy.
    pub fn duplicate(&self) -> (e: FileEntry)
        ensures
            e == *self,
    {
        FileEntry { path: self.path.clone(), modified: self.modified, size: self.size }
    }
}

/// The time a file is ordered by: its modification time, or the epoch
/// where unknown.
pub open spec fn recency(e: FileEntry) -> int {
    match e.modified {
        Some(t) => t as int,
        None => 0,
    }
}

/// Whether the files are in newest-first order.
pub open spec fn newest_first(s: Seq<FileEntry>) -> bool {
    forall|i: int, j: int| 0 <= i < j < s.len() ==> recency(#[trigger] s[i]) >= recency(#[trigger] s[j])
}

/// The files of `s` with recency `k`, in their order in `s`.
pub open spec fn at_recency(s: Seq<FileEntry>, k: int) -> Seq<FileEntry> {
    s.filter(|e: FileEntry| recency(e) == k)
}

/// The recency of a file, computed.
fn recency_of(e: &FileEntry) -> (k: u128)
    ensures
        k == recency(*e),
{
    match e.modified {
        Some(t) => t,
        None => 0,
    }
}

proof fn lemma_filter_insert(s: Seq<FileEntry>, p: int, x: FileEntry, k: int)
    requires
        0 <= p <= s.len(),
        forall|j: int| p <= j < s.len() ==> recency(#[trigger] s[j]) < recency(x),
    ensures
        at_recency(s.insert(p, x), k) == if k == recency(x) {
            at_recency(s, k).push(x)
        } else {
            at_recency(s, k)
        },
{
    let f = |e: FileEntry| recency(e) == k;
    let a = s.take(p);
    let b = s.skip(p);
    assert(s == a + b);
    assert(s.insert(p, x) == a.push(x) + b);
    Seq::filter_distributes_over_add(a, b, f);
    Seq::filter_distributes_over_add(a.push(x), b, f);
    a.lemma_filter_push(x, f);
    if k == recency(x) {
        assert(b.filter(f) == Seq::<FileEntry>::empty()) by {
            b.lemma_filter_len(f);
            if b.filter(f).len() > 0 {
                let e = b.filter(f)[0];
                b.lemma_filter_pred(f, 0);
                assert(b.filter(f).contains(e));
                b.lemma_filter_contains_rev(f, e);
                assert(b.contains(e));
                let j = choose|j: int| 0 <= j < b.len() && b[j] == e;
                assert(b[j] == s[p + j]);
            }
        }
    }
}

/// The files in newest-first order; files of equal recency keep their
/// order (`sort_by` on the modification times, which is stable).
pub fn sort_newest_first(files: &[FileEntry]) -> (r: Vec<FileEntry>)
    ensures
        r@.len() == files@.len(),
        newest_first(r@),
        forall|k: int| #[trigger] at_recency(r@, k) == at_recency(files@, k),
{
    let mut out: Vec<FileEntry> = Vec::new();
    let mut i: usize = 0;
    while i < files.len()
        invariant
            i <= files@.len(),
            out@.len() == i,
            newest_first(out@),
            forall|k: int| #[trigger] at_recency(out@, k) == at_recency(files@.take(i as int), k),
        decreases files.len() - i,
    {
        let x = files[i].duplicate();
        let kx = recency_of(&x);
        let mut p: usize = 0;
        while p < out.len() && recency_of(&out[p]) >= kx
            invariant
                p <= out@.len(),
                forall|j: int| 0 <= j < p ==> recency(#[trigger] out@[j]) >= kx,
            decreases out.len() - p,
        {
            p = p + 1;
        }
        let ghost before = out@;
        proof {
            assert forall|j: int| p <= j < before.len() implies recency(#[trigger] before[j]) < recency(x) by {
                if p < before.len() {
                    assert(recency(before[p as int]) < kx);
                    if j > p {
                        assert(recency(before[p as int]) >= recency(before[j]));
                    }
                }
            }
            assert forall|k: int| #[trigger] at_recency(before.insert(p as int, x), k) == at_recency(
                files@.take(i + 1),
                k,
            ) by {
                lemma_filter_insert(before, p as int, x, k);
                assert(files@.take(i + 1) == files@.take(i as int).push(files@[i as int]));
                files@.take(i as int).lemma_filter_push(files@[i as int], |e: FileEntry| recency(e) == k);
            }
        }
        out.insert(p, x);
        proof {
            assert(out@ == before.insert(p as int, x));
            assert forall|a: int, b: int| 0 <= a < b < out@.len() implies recency(#[trigger] out@[a])
                >= recency(#[trigger] out@[b]) by {
                if b < p {
                    assert(out@[a] == before[a] && out@[b] == before[b]);
                } else if b == p {
                    assert(out@[a] == before[a]);
                } else if a < p {
                    assert(out@[a] == before[a] && out@[b] == before[b - 1]);
                    assert(recency(before[b - 1]) < kx);
                } else if a == p {
                    assert(out@[b] == before[b - 1]);
                } else {
                    assert(out@[a] == before[a - 1] && out@[b] == before[b - 1]);
                }
            }
        }
        i = i + 1;
    }
    assert(files@.take(files@.len() as int) == files@);
    out
}

// ---------------------------------------------------------------------------
// Listing
// ---------------------------------------------------------------------------

/// The most files a listing shows.
pub const LIST_LIMIT: usize = 100;

/// Directory names that listings skip.
pub open spec fn ignored_dirs() -> Seq<Seq<char>> {
    seq![
        ".git"@,
        "node_modules"@,
        "target"@,
        "__pycache__"@,
        ".next"@,
        "dist"@,
        "build"@,
        ".cache"@,
    ]
}

/// Whether some normal component of the path is an ignored directory.
pub open spec fn in_ignored_dir(path: Seq<char>) -> bool {
    exists|i: int|
        0 <= i < std_path_parts(path).len() && #[trigger] std_path_parts(path)[i] is Some
            && ignored_dirs().contains(std_path_parts(path)[i]->0)
}

/// Whether a name is one of the ignored directories.
fn is_ignored_name(name: &str) -> (b: bool)
    ensures
        b == ignored_dirs().contains(name@),
{
    let names = [".git", "node_modules", "target", "__pycache__", ".next", "dist", "build", ".cache"];
    let mut i: usize = 0;
    while i < 8
        invariant
            i <= 8,
            names@.map_values(|n: &str| n@) == ignored_dirs(),
            forall|j: int| 0 <= j < i ==> ignored_dirs()[j] != name@,
        decreases 8 - i,
    {
        if str_eq(names[i], name) {
            assert(ignored_dirs()[i as int] == name@);
            return true;
        }
        i = i + 1;
    }
    false
}

/// Whether any normal component of `path` is an ignored directory.
pub fn is_in_ignored_dir(path: &str) -> (b: bool)
    ensures
        b == in_ignored_dir(path@),
{
    let parts = path_parts(path);
    let ghost pv = parts@.map_values(|p: PathPart| part_view(p));
    let mut i: usize = 0;
    while i < parts.len()
        invariant
            i <= parts@.len(),
            pv == parts@.map_values(|p: PathPart| part_view(p)),
            pv == std_path_parts(path@),
            forall|j: int| 0 <= j < i ==> !(pv[j] is Some && ignored_dirs().contains(pv[j]->0)),
        decreases parts.len() - i,
    {
        match &parts[i] {
            PathPart::Normal(n) => {
                if is_ignored_name(n.as_str()) {
                    assert(pv[i as int] == Some(n@));
                    return true;
                }
                assert(pv[i as int] == Some(n@));
            },
            PathPart::Other => {
                assert(pv[i as int] is None);
            },
        }
        i = i + 1;
    }
    false
}

/// Whether a matched path belongs in a listing: not a directory, not in
/// an ignored directory, and (where it can be resolved) inside the base.
pub open spec fn listed(is_dir: bool, path: Seq<char>, canonical: Option<Seq<char>>, base: Seq<char>) -> bool {
    !is_dir && !in_ignored_dir(path) && match canonical {
        Some(c) => std_path_starts_with(c, base),
        None => true,
    }
}

/// Whether a matched path belongs in a listing; `canonical` is its
/// resolved form, where it could be resolved.
pub fn keep_listed(is_dir: bool, path: &str, canonical: Option<&str>, base: &str) -> (b: bool)
    ensures
        b == listed(
            is_dir,
            path@,
            match canonical {
                Some(c) => Some(c@),
                None => None,
            },
            base@,
        ),
{
    if is_dir {
        return false;
    }
    if is_in_ignored_dir(path) {
        return false;
    }
    match canonical {
        Some(c) => path_starts_with(c, base),
        None => true,
    }
}

/// How a listed path is shown: relative to the base where possible.
pub open spec fn shown_path(path: Seq<char>, base: Seq<char>) -> Seq<char> {
    match std_strip_prefix(path, base) {
        Some(r) => r,
        None => path,
    }
}

/// The listing report: the files newest first, at most `LIST_LIMIT`,
/// each shown relative to the base.
pub open spec fn listing_report(pattern: Seq<char>, base: Seq<char>, shown: Seq<Seq<char>>) -> Seq<char> {
    if shown.len() == 0 {
        "No files found matching pattern '"@ + pattern + "'"@
    } else {
        "Found "@ + decimal(shown.len()) + " file(s) matching '"@ + pattern + "':\n"@ + join(
            shown,
            "\n"@,
        )
    }
}

/// Orders the listed files newest first, keeps the first `LIST_LIMIT`,
/// and reports them relative to `base` (the resolved base directory);
/// `pattern` is the pattern as the user gave it. The returned sequence is
/// the shown files in order.
pub fn list_report(pattern: &str, base: &str, files: &[FileEntry]) -> (r: (String, Ghost<Seq<FileEntry>>))
    ensures
        newest_first(r.1@),
        r.1@.len() <= LIST_LIMIT,
        r.1@.len() == if files@.len() < LIST_LIMIT { files@.len() } else { LIST_LIMIT as nat },
        exists|all: Seq<FileEntry>|
            all.len() == files@.len() && newest_first(all) && (forall|k: int|
                #[trigger] at_recency(all, k) == at_recency(files@, k)) && r.1@ == all.take(
                r.1@.len() as int,
            ),
        r.0@ == listing_report(
            pattern@,
            base@,
            r.1@.map_values(|e: FileEntry| shown_path(e.path@, base@)),
        ),
{
    let sorted = sort_newest_first(files);
    let n: usize = if sorted.len() < LIST_LIMIT { sorted.len() } else { LIST_LIMIT };
    let ghost kept = sorted@.take(n as int);
    assert(kept == sorted@.take(kept.len() as int));
    let ghost shown = kept.map_values(|e: FileEntry| shown_path(e.path@, base@));
    if n == 0 {
        let mut s = "No files found matching pattern '".to_string();
        push_str(&mut s, pattern);
        push_str(&mut s, "'");
        return (s, Ghost(kept));
    }
    let mut s = "Found ".to_string();
    push_decimal(&mut s, n as u64);
    push_str(&mut s, " file(s) matching '");
    push_str(&mut s, pattern);
    push_str(&mut s, "':\n");
    let ghost head = s@;
    let mut i: usize = 0;
    while i < n
        invariant
            i <= n <= sorted@.len(),
            kept == sorted@.take(n as int),
            shown == kept.map_values(|e: FileEntry| shown_path(e.path@, base@)),
            s@ == head + join(shown.take(i as int), "\n"@),
        decreases n - i,
    {
        let p = &sorted[i].path;
        let rel = match strip_prefix(p.as_str(), base) {
            Some(r) => r,
            None => p.clone(),
        };
        assert(rel@ == shown[i as int]);
        if i > 0 {
            push_str(&mut s, "\n");
        }
        push_str(&mut s, rel.as_str());
        proof {
            let prev = shown.take(i as int);
            let next = shown.take(i + 1);
            assert(next.drop_last() == prev);
            assert(next.last() == rel@);
            if i == 0 {
                assert(next.len() == 1);
                assert(join(next, "\n"@) == next[0]);
                assert(prev.len() == 0);
            }
        }
        i = i + 1;
    }
    assert(shown.take(n as int) == shown);
    proof {
        assert forall|a: int, b: int| 0 <= a < b < kept.len() implies recency(#[trigger] kept[a])
            >= recency(#[trigger] kept[b]) by {
            assert(kept[a] == sorted@[a] && kept[b] == sorted@[b]);
        }
    }
    (s, Ghost(kept))
}


// ---------------------------------------------------------------------------
// Reading
// ---------------------------------------------------------------------------

/// The first line index read: one before the 1-based offset (default 1),
/// at most the number of lines.
pub open spec fn read_start(total: nat, offset: Option<usize>) -> nat {
    let off: nat = match offset {
        Some(o) => o as nat,
        None => 1,
    };
    let s: nat = if off >= 1 {
        (off - 1) as nat
    } else {
        0
    };
    if s < total {
        s
    } else {
        total
    }
}

/// One past the last line index read: `limit` lines from the start, at
/// most to the end.
pub open spec fn read_end(total: nat, start: nat, limit: Option<usize>) -> nat {
    match limit {
        Some(l) => if start + (l as nat) < total {
            start + (l as nat)
        } else {
            total
        },
        None => total,
    }
}

/// The lines `start..end` of `ls`, each numbered (right-aligned in four
/// columns) and followed by a tab.
pub open spec fn numbered(ls: Seq<Seq<char>>, start: nat, end: nat) -> Seq<Seq<char>> {
    Seq::new(
        (end - start) as nat,
        |i: int| pad_left(decimal((start + i + 1) as nat), 4) + "\t"@ + ls[start + i],
    )
}

/// What reading a file shows: its numbered lines in the requested range,
/// with a header naming the range when an offset past the first line or
/// a limit was given.
pub open spec fn read_view(content: Seq<char>, offset: Option<usize>, limit: Option<usize>) -> Seq<
    char,
> {
    let ls = lines(content);
    let total = ls.len();
    let start = read_start(total, offset);
    let end = read_end(total, start, limit);
    let body = join(numbered(ls, start, end), "\n"@);
    let ranged = match offset {
        Some(o) => o > 1,
        None => false,
    } || limit is Some;
    if ranged {
        "[Showing lines "@ + decimal(start + 1) + "-"@ + decimal(end) + " of "@ + decimal(total)
            + " total]\n"@ + body
    } else {
        body
    }
}

/// Whether a limit can be added to the start line without overflow.
pub open spec fn read_fits(content: Seq<char>, offset: Option<usize>, limit: Option<usize>) -> bool {
    match limit {
        Some(l) => read_start(lines(content).len(), offset) + l <= usize::MAX,
        None => true,
    }
}

/// The numbered lines of a file's content in the requested range:
/// `offset` is the first line (1-based, default 1), `limit` the most
/// lines to show (default all).
pub fn render_read(content: &str, offset: Option<usize>, limit: Option<usize>) -> (r: String)
    requires
        read_fits(content@, offset, limit),
    ensures
        r@ == read_view(content@, offset, limit),
{
    let ls = lines_of(content);
    let ghost lv = views(ls@);
    let total = ls.len();
    let off: usize = match offset {
        Some(o) => o,
        None => 1,
    };
    let s0: usize = if off >= 1 {
        off - 1
    } else {
        0
    };
    let start: usize = if s0 < total {
        s0
    } else {
        total
    };
    let end: usize = match limit {
        Some(l) => if start + l < total {
            start + l
        } else {
            total
        },
        None => total,
    };
    let ghost nl = numbered(lv, start as nat, end as nat);
    let mut body = String::new();
    let mut i: usize = start;
    while i < end
        invariant
            start <= i <= end <= total,
            total == ls@.len(),
            lv == views(ls@),
            nl == numbered(lv, start as nat, end as nat),
            body@ == join(nl.take(i - start), "\n"@),
        decreases end - i,
    {
        if i > start {
            push_str(&mut body, "\n");
        }
        let ghost before = body@;
        push_padded_decimal(&mut body, (i + 1) as u64, 4);
        push_str(&mut body, "\t");
        push_chars(&mut body, ls[i].as_slice(), 0, ls[i].len());
        proof {
            let k: int = i - start;
            assert(ls@[i as int]@.subrange(0, ls@[i as int]@.len() as int) == ls@[i as int]@);
            assert(lv[i as int] == ls@[i as int]@);
            assert(nl[k] == pad_left(decimal((i + 1) as nat), 4) + "\t"@ + lv[i as int]);
            let prev = nl.take(k);
            let next = nl.take(k + 1);
            assert(next.drop_last() == prev);
            assert(next.last() == nl[k]);
            if i == start {
                assert(next.len() == 1);
                assert(join(next, "\n"@) == next[0]);
            }
        }
        i = i + 1;
    }
    assert(nl.take(end - start) == nl);
    let ranged = off > 1 || limit.is_some();
    if ranged {
        let mut r = "[Showing lines ".to_string();
        push_decimal(&mut r, (start + 1) as u64);
        push_str(&mut r, "-");
        push_decimal(&mut r, end as u64);
        push_str(&mut r, " of ");
        push_decimal(&mut r, total as u64);
        push_str(&mut r, " total]\n");
        push_str(&mut r, body.as_str());
        r
    } else {
        body
    }
}

// ---------------------------------------------------------------------------
// Writing
// ---------------------------------------------------------------------------

/// `s` with every `"\r\n"` replaced by `"\n"`, left to right.
pub open spec fn crlf_to_lf(s: Seq<char>) -> Seq<char>
    decreases s.len(),
{
    if s.len() < 2 {
        s
    } else if s[0] == '\r' && s[1] == '\n' {
        seq!['\n'] + crlf_to_lf(s.skip(2))
    } else {
        seq![s[0]] + crlf_to_lf(s.skip(1))
    }
}

/// The content as written: Unix line endings, and a final line break
/// unless the content is empty.
pub open spec fn written_content(content: Seq<char>) -> Seq<char> {
    let n = crlf_to_lf(content);
    if n.len() == 0 || n.last() == '\n' {
        n
    } else {
        n.push('\n')
    }
}

/// Whether a text holds a CR LF pair.
pub open spec fn has_crlf(s: Seq<char>) -> bool {
    exists|i: int| 0 <= i < s.len() - 1 && #[trigger] s[i] == '\r' && s[i + 1] == '\n'
}

/// A text without CR LF pairs is left as it is by the line-ending
/// normalisation.
proof fn lemma_crlf_free_unchanged(s: Seq<char>)
    requires
        !has_crlf(s),
    ensures
        crlf_to_lf(s) == s,
    decreases s.len(),
{
    if s.len() >= 2 {
        assert(!(s[0] == '\r' && s[1] == '\n'));
        let t = s.skip(1);
        assert forall|i: int| 0 <= i < t.len() - 1 implies !(#[trigger] t[i] == '\r' && t[i + 1] == '\n') by {
            assert(t[i] == s[i + 1] && t[i + 1] == s[i + 2]);
        }
        lemma_crlf_free_unchanged(t);
        assert(seq![s[0]] + t =~= s);
    }
}

/// Written content is empty only for empty content, and otherwise ends
/// with a line break.
pub proof fn law_written_content_ends_with_line_break(content: Seq<char>)
    ensures
        (written_content(content).len() == 0) <==> (content.len() == 0),
        written_content(content).len() > 0 ==> written_content(content).last() == '\n',
{
    if content.len() >= 2 {
        if content[0] == '\r' && content[1] == '\n' {
            assert(crlf_to_lf(content)[0] == '\n');
        } else {
            assert(crlf_to_lf(content)[0] == content[0]);
        }
    }
}

/// Normalising written content again changes nothing, as long as the
/// written content holds no CR LF pair. (A lone CR before a CR LF pair, or
/// a final CR, leaves one: `"\r\r\n"` is written as `"\r\n"`, which a
/// second pass turns into `"\n"`.)
pub proof fn law_normalizing_again_changes_nothing(content: Seq<char>)
    requires
        !has_crlf(written_content(content)),
    ensures
        written_content(written_content(content)) == written_content(content),
{
    let w = written_content(content);
    lemma_crlf_free_unchanged(w);
    law_written_content_ends_with_line_break(content);
}

/// The content to write: line endings normalised to `"\n"`, and a final
/// line break added where missing.
pub fn normalize_content(content: &str) -> (r: String)
    ensures
        r@ == written_content(content@),
{
    let cs = chars_of(content);
    let mut out: Vec<char> = Vec::new();
    let mut i: usize = 0;
    assert(cs@.skip(0) == cs@);
    assert(out@ + crlf_to_lf(cs@) == crlf_to_lf(cs@));
    while i < cs.len()
        invariant
            i <= cs@.len(),
            cs@ == content@,
            out@ + crlf_to_lf(cs@.skip(i as int)) == crlf_to_lf(cs@),
        decreases cs.len() - i,
    {
        let ghost rest = cs@.skip(i as int);
        if i + 1 < cs.len() && cs[i] == '\r' && cs[i + 1] == '\n' {
            assert(rest.skip(2) == cs@.skip(i + 2));
            out.push('\n');
            assert(out@ + crlf_to_lf(cs@.skip(i + 2)) == crlf_to_lf(cs@)) by {
                assert(crlf_to_lf(rest) == seq!['\n'] + crlf_to_lf(rest.skip(2)));
            }
            i = i + 2;
        } else {
            assert(rest.skip(1) == cs@.skip(i + 1));
            out.push(cs[i]);
            assert(out@ + crlf_to_lf(cs@.skip(i + 1)) == crlf_to_lf(cs@)) by {
                assert(crlf_to_lf(rest) == seq![rest[0]] + crlf_to_lf(rest.skip(1)));
            }
            i = i + 1;
        }
    }
    assert(cs@.skip(i as int).len() == 0);
    assert(out@ == crlf_to_lf(cs@));
    let n = out.len();
    if n > 0 && out[n - 1] != '\n' {
        out.push('\n');
    }
    string_of(out.as_slice())
}

/// The number of bytes of the UTF-8 encoding of `s`.
pub open spec fn byte_count(s: Seq<char>) -> nat {
    encode_utf8(s).len()
}

/// The summary of a write: whether the file was created or updated, its
/// path, and its line and byte counts.
pub open spec fn write_summary_view(existed: bool, path: Seq<char>, written: Seq<char>) -> Seq<char> {
    (if existed {
        "Updated"@
    } else {
        "Created"@
    }) + " "@ + path + " ("@ + decimal(lines(written).len()) + " lines, "@ + decimal(
        (byte_count(written) as usize) as nat,
    ) + " bytes)"@
}

/// The summary of a write of `written` to `path`.
pub fn write_summary(existed: bool, path: &str, written: &str) -> (r: String)
    ensures
        r@ == write_summary_view(existed, path@, written@),
{
    let line_count = lines_of(written).len();
    let bytes = written.len();
    let mut r = if existed {
        "Updated".to_string()
    } else {
        "Created".to_string()
    };
    push_str(&mut r, " ");
    push_str(&mut r, path);
    push_str(&mut r, " (");
    push_decimal(&mut r, line_count as u64);
    push_str(&mut r, " lines, ");
    push_decimal(&mut r, bytes as u64);
    push_str(&mut r, " bytes)");
    r
}

// ---------------------------------------------------------------------------
// The base-directory boundary
// ---------------------------------------------------------------------------

/// The error for a path that resolves outside the base directory.
pub open spec fn outside_message(requested: Seq<char>, resolved: Seq<char>, base: Seq<char>) -> Seq<
    char,
> {
    "Path '"@ + requested + "' resolves to '"@ + resolved + "' which is outside the allowed directory '"@
        + base + "'"@
}

/// Checks that the resolved form of a requested path lies under the
/// resolved base directory.
pub fn check_within_base(requested: &str, resolved: &str, base: &str) -> (r: Result<(), String>)
    ensures
        r is Ok <==> std_path_starts_with(resolved@, base@),
        match r {
            Err(m) => m@ == outside_message(requested@, resolved@, base@),
            Ok(_) => true,
        },
{
    if path_starts_with(resolved, base) {
        Ok(())
    } else {
        let mut m = "Path '".to_string();
        push_str(&mut m, requested);
        push_str(&mut m, "' resolves to '");
        push_str(&mut m, resolved);
        push_str(&mut m, "' which is outside the allowed directory '");
        push_str(&mut m, base);
        push_str(&mut m, "'");
        Err(m)
    }
}

/// How a tool's result is shown: its output, or the error marked
/// `[ERROR]`.
pub fn format_result(r: &Result<String, String>) -> (s: String)
    ensures
        s@ == match r {
            Ok(o) => o@,
            Err(e) => "[ERROR] "@ + e@,
        },
{
    match r {
        Ok(o) => o.clone(),
        Err(e) => {
            let mut s = "[ERROR] ".to_string();
            push_str(&mut s, e.as_str());
            s
        },
    }
}

// ---------------------------------------------------------------------------
// The tools
// ---------------------------------------------------------------------------

/// Reads a file under the base directory, with line numbers.
#[derive(Debug, Clone)]
pub struct ReadFileTool {
    pub base_dir: String,
}

impl ReadFileTool {
    /// The tool, confined to `base_dir`.
    pub fn new(base_dir: &str) -> (t: ReadFileTool)
        ensures
            t.base_dir@ == base_dir@,
    {
        ReadFileTool { base_dir: base_dir.to_string() }
    }

    /// The tool's name.
    pub fn name(&self) -> (s: &'static str)
        ensures
            s@ == "read_file"@,
    {
        "read_file"
    }

    /// The tool's description for the model.
    pub fn description(&self) -> (s: &'static str)
        ensures
            s@ == "Read the contents of a file at the given path. Returns the file contents with line numbers. Optionally specify offset and limit to read a specific range of lines."@,
    {
        "Read the contents of a file at the given path. Returns the file contents with line numbers. Optionally specify offset and limit to read a specific range of lines."
    }
}

/// Writes a whole file under the base directory.
#[derive(Debug, Clone)]
pub struct WriteFileTool {
    pub base_dir: String,
}

impl WriteFileTool {
    /// The tool, confined to `base_dir`.
    pub fn new(base_dir: &str) -> (t: WriteFileTool)
        ensures
            t.base_dir@ == base_dir@,
    {
        WriteFileTool { base_dir: base_dir.to_string() }
    }

    /// The tool's name.
    pub fn name(&self) -> (s: &'static str)
        ensures
            s@ == "write_file"@,
    {
        "write_file"
    }

    /// The tool's description for the model.
    pub fn description(&self) -> (s: &'static str)
        ensures
            s@ == "Write content to a file at the given path. Creates the file if it does not exist. Creates parent directories as needed. Overwrites the file if it already exists."@,
    {
        "Write content to a file at the given path. Creates the file if it does not exist. Creates parent directories as needed. Overwrites the file if it already exists."
    }
}

/// Lists the files under the base directory that match a glob pattern.
#[derive(Debug, Clone)]
pub struct ListDirectoryTool {
    pub base_dir: String,
}

impl ListDirectoryTool {
    /// The tool, confined to `base_dir`.
    pub fn new(base_dir: &str) -> (t: ListDirectoryTool)
        ensures
            t.base_dir@ == base_dir@,
    {
        ListDirectoryTool { base_dir: base_dir.to_string() }
    }

    /// The tool's name.
    pub fn name(&self) -> (s: &'static str)
        ensures
            s@ == "list_directory"@,
    {
        "list_directory"
    }

    /// The tool's description for the model.
    pub fn description(&self) -> (s: &'static str)
        ensures
            s@ == "List files in a directory. Provide a glob pattern like '**/*.rs' to find all Rust files or 'src/*.toml' for TOML files under src/. Results are sorted by modification time (most recent first). Defaults to listing all files in the project root if no pattern is given."@,
    {
        "List files in a directory. Provide a glob pattern like '**/*.rs' to find all Rust files or 'src/*.toml' for TOML files under src/. Results are sorted by modification time (most recent first). Defaults to listing all files in the project root if no pattern is given."
    }
}

/// Finds the tool a call names among the registered tools' names: the
/// first with that name, or the error that no tool has it.
pub fn find_tool(names: &[&str], name: &str) -> (r: Result<usize, String>)
    ensures
        match r {
            Ok(i) => i < names@.len() && names@[i as int]@ == name@ && forall|j: int|
                0 <= j < i ==> (#[trigger] names@[j])@ != name@,
            Err(m) => m@ == "Unknown tool: "@ + name@ && forall|j: int|
                0 <= j < names@.len() ==> (#[trigger] names@[j])@ != name@,
        },
{
    let mut i: usize = 0;
    while i < names.len()
        invariant
            i <= names@.len(),
            forall|j: int| 0 <= j < i ==> (#[trigger] names@[j])@ != name@,
        decreases names.len() - i,
    {
        if str_eq(names[i], name) {
            return Ok(i);
        }
        i = i + 1;
    }
    let mut m = "Unknown tool: ".to_string();
    push_str(&mut m, name);
    Err(m)
}

} // verus!
