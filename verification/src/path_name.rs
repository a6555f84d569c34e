//! The final component of a Windows executable path, as `Path::file_name`
//! reads it on Windows.
//!
//! A path may open with a prefix: a drive (`C:`), a UNC share
//! (`\\server\share`), a device namespace (`\\.\NAME`) or a verbatim prefix
//! (`\\?\C:`, `\\?\UNC\server\share`, `\\?\NAME`). The prefix is not a
//! component, and one separator right after it is the root. Outside verbatim
//! paths `\` and `/` both separate components and `.` components are skipped;
//! in verbatim paths only `\` separates and a final `.` is no file name.
//! Repeated and trailing separators are ignored, and a path ending in `..` has
//! no file name.
use vstd::prelude::*;
use crate::text::{chars_of, push_char, string_of_range};

verus! {

pub open spec fn is_separator(c: char) -> bool {
    c == '\\' || c == '/'
}

/// Whether `c` separates components: in verbatim paths only `\` does.
pub open spec fn separates(verbatim: bool, c: char) -> bool {
    c == '\\' || (!verbatim && c == '/')
}

pub open spec fn is_ascii_letter(c: char) -> bool {
    ('a' <= c && c <= 'z') || ('A' <= c && c <= 'Z')
}

/// The index of the first separator at or after `from`, or the length of `p`.
pub open spec fn component_end(p: Seq<char>, from: int, verbatim: bool) -> int
    decreases p.len() - from,
{
    if from >= p.len() {
        p.len() as int
    } else if separates(verbatim, p[from]) {
        from
    } else {
        component_end(p, from + 1, verbatim)
    }
}

/// The path opens with `\\?\` exactly.
pub open spec fn prefix_is_verbatim(p: Seq<char>) -> bool {
    p.len() >= 4 && p[0] == '\\' && p[1] == '\\' && p[2] == '?' && p[3] == '\\'
}

/// The path opens with `\\?\UNC` and a separator.
pub open spec fn is_verbatim_unc(p: Seq<char>) -> bool {
    prefix_is_verbatim(p) && p.len() >= 8 && p[4] == 'U' && p[5] == 'N' && p[6] == 'C'
        && is_separator(p[7])
}

/// The path opens with `\\?\X:`, followed by its end or `\`.
pub open spec fn is_verbatim_disk(p: Seq<char>) -> bool {
    prefix_is_verbatim(p) && p.len() >= 6 && is_ascii_letter(p[4]) && p[5] == ':' && (p.len()
        == 6 || p[6] == '\\')
}

/// The path opens with two separators (and is not verbatim).
pub open spec fn opens_with_two_separators(p: Seq<char>) -> bool {
    p.len() >= 2 && is_separator(p[0]) && is_separator(p[1])
}

/// The path opens with `\\.` and a separator: the device namespace.
pub open spec fn is_device_namespace(p: Seq<char>) -> bool {
    opens_with_two_separators(p) && p.len() >= 4 && p[2] == '.' && is_separator(p[3])
}

/// The length of a verbatim UNC prefix `\\?\UNC\server\share`: the share and
/// the separator before it count only when the share is not empty.
pub open spec fn verbatim_unc_len(p: Seq<char>) -> int {
    let server_end = component_end(p, 8, true);
    let share_end = component_end(p, server_end + 1, true);
    if server_end < p.len() && share_end > server_end + 1 {
        share_end
    } else {
        server_end
    }
}

/// The length of a UNC prefix `\\server\share`, or 0 when the server or the
/// share is empty (then the path has no prefix).
pub open spec fn unc_len(p: Seq<char>) -> int {
    let server_end = component_end(p, 2, false);
    let share_end = component_end(p, server_end + 1, false);
    if server_end > 2 && server_end < p.len() && share_end > server_end + 1 {
        share_end
    } else {
        0
    }
}

/// The length of the path's prefix (0 when it has none).
pub open spec fn prefix_len(p: Seq<char>) -> int {
    if prefix_is_verbatim(p) {
        if is_verbatim_unc(p) {
            verbatim_unc_len(p)
        } else if is_verbatim_disk(p) {
            6
        } else {
            component_end(p, 4, true)
        }
    } else if opens_with_two_separators(p) {
        if is_device_namespace(p) {
            component_end(p, 4, false)
        } else {
            unc_len(p)
        }
    } else if p.len() >= 2 && is_ascii_letter(p[0]) && p[1] == ':' {
        2
    } else {
        0
    }
}

/// Where the components start: after the prefix and the root separator.
pub open spec fn body_start(p: Seq<char>) -> int {
    let n = prefix_len(p);
    if n < p.len() && is_separator(p[n]) {
        n + 1
    } else {
        n
    }
}

/// The longest suffix of `p` that holds no separator.
pub open spec fn trailing_segment(p: Seq<char>, verbatim: bool) -> Seq<char>
    decreases p.len(),
{
    if p.len() == 0 || separates(verbatim, p.last()) {
        seq![]
    } else {
        trailing_segment(p.drop_last(), verbatim).push(p.last())
    }
}

/// The last component of the components `p`, or `None` when there is none or
/// it is `..` (or, in a verbatim path, `.`).
pub open spec fn final_component(p: Seq<char>, verbatim: bool) -> Option<Seq<char>>
    decreases p.len(),
{
    if p.len() == 0 {
        None
    } else if separates(verbatim, p.last()) {
        final_component(p.drop_last(), verbatim)
    } else {
        let seg = trailing_segment(p, verbatim);
        if seg == seq!['.'] && !verbatim {
            final_component(p.take(p.len() - 1), verbatim)
        } else if seg == seq!['.'] || seg == seq!['.', '.'] {
            None
        } else {
            Some(seg)
        }
    }
}

/// The file name of a Windows path.
pub open spec fn file_name(p: Seq<char>) -> Option<Seq<char>> {
    final_component(p.skip(body_start(p)), prefix_is_verbatim(p))
}

/// The name shown for a process whose executable is at `path`.
pub open spec fn spec_process_name(path: Seq<char>) -> Seq<char> {
    match file_name(path) {
        Some(name) => if name.len() > 0 {
            name
        } else {
            unknown_name()
        },
        None => unknown_name(),
    }
}

pub open spec fn unknown_name() -> Seq<char> {
    seq!['U', 'n', 'k', 'n', 'o', 'w', 'n']
}

proof fn lemma_component_end_bounds(p: Seq<char>, from: int, verbatim: bool)
    requires
        0 <= from,
    ensures
        from <= p.len() ==> from <= component_end(p, from, verbatim) <= p.len(),
        from > p.len() ==> component_end(p, from, verbatim) == p.len(),
    decreases p.len() - from,
{
    if from < p.len() && !separates(verbatim, p[from]) {
        lemma_component_end_bounds(p, from + 1, verbatim);
    }
}

proof fn lemma_trailing_segment_facts(p: Seq<char>, verbatim: bool)
    ensures
        trailing_segment(p, verbatim).len() <= p.len(),
        trailing_segment(p, verbatim) == p.subrange(
            p.len() - trailing_segment(p, verbatim).len(),
            p.len() as int,
        ),
        forall|i: int|
            0 <= i < trailing_segment(p, verbatim).len() ==> !separates(
                verbatim,
                #[trigger] trailing_segment(p, verbatim)[i],
            ),
    decreases p.len(),
{
    if p.len() > 0 && !separates(verbatim, p.last()) {
        lemma_trailing_segment_facts(p.drop_last(), verbatim);
        let t = trailing_segment(p.drop_last(), verbatim);
        assert(trailing_segment(p, verbatim) =~= p.subrange(p.len() - t.len() - 1, p.len() as int));
    } else if p.len() > 0 {
        assert(p.subrange(p.len() as int, p.len() as int) =~= seq![]);
    } else {
        assert(p.subrange(0, 0) =~= seq![]);
    }
}

/// A segment `p[start..end]` holding no separator and preceded by a separator
/// (or the start) is the trailing segment of `p[..end]`.
proof fn lemma_trailing_segment_is(p: Seq<char>, start: int, end: int, verbatim: bool)
    requires
        0 <= start <= end <= p.len(),
        forall|i: int| start <= i < end ==> !separates(verbatim, #[trigger] p[i]),
        start == 0 || separates(verbatim, p[start - 1]),
    ensures
        trailing_segment(p.take(end), verbatim) == p.subrange(start, end),
    decreases end - start,
{
    if end == start {
        if start > 0 {
            assert(p.take(end).last() == p[start - 1]);
        }
        assert(p.subrange(start, end) =~= seq![]);
    } else {
        lemma_trailing_segment_is(p, start, end - 1, verbatim);
        assert(p.take(end).drop_last() =~= p.take(end - 1));
        assert(p.subrange(start, end) =~= p.subrange(start, end - 1).push(p[end - 1]));
    }
}

fn is_sep(c: char) -> (r: bool)
    ensures
        r == is_separator(c),
{
    c == '\\' || c == '/'
}

fn separates_exec(c: char, verbatim: bool) -> (r: bool)
    ensures
        r == separates(verbatim, c),
{
    c == '\\' || (!verbatim && c == '/')
}

fn is_letter(c: char) -> (r: bool)
    ensures
        r == is_ascii_letter(c),
{
    ('a' <= c && c <= 'z') || ('A' <= c && c <= 'Z')
}

fn find_component_end(chars: &Vec<char>, from: usize, verbatim: bool) -> (r: usize)
    requires
        from <= chars.len(),
    ensures
        r == component_end(chars@, from as int, verbatim),
        from <= r <= chars.len(),
{
    let mut i = from;
    while i < chars.len() && !separates_exec(chars[i], verbatim)
        invariant
            from <= i <= chars.len(),
            component_end(chars@, i as int, verbatim) == component_end(
                chars@,
                from as int,
                verbatim,
            ),
        decreases chars.len() - i,
    {
        i += 1;
    }
    i
}

/// The length of the path's prefix, and whether the path is verbatim.
fn path_prefix(chars: &Vec<char>) -> (r: (usize, bool))
    ensures
        r.0 == prefix_len(chars@),
        r.1 == prefix_is_verbatim(chars@),
        r.0 <= chars.len(),
{
    let n = chars.len();
    let verbatim = n >= 4 && chars[0] == '\\' && chars[1] == '\\' && chars[2] == '?' && chars[3]
        == '\\';
    if verbatim {
        if n >= 8 && chars[4] == 'U' && chars[5] == 'N' && chars[6] == 'C' && is_sep(chars[7]) {
            let server_end = find_component_end(chars, 8, true);
            if server_end < n {
                let share_end = find_component_end(chars, server_end + 1, true);
                if share_end > server_end + 1 {
                    return (share_end, true);
                }
            } else {
                proof {
                    lemma_component_end_bounds(chars@, server_end + 1, true);
                }
            }
            (server_end, true)
        } else if n >= 6 && is_letter(chars[4]) && chars[5] == ':' && (n == 6 || chars[6]
            == '\\') {
            (6, true)
        } else {
            (find_component_end(chars, 4, true), true)
        }
    } else if n >= 2 && is_sep(chars[0]) && is_sep(chars[1]) {
        if n >= 4 && chars[2] == '.' && is_sep(chars[3]) {
            (find_component_end(chars, 4, false), false)
        } else {
            let server_end = find_component_end(chars, 2, false);
            if server_end > 2 && server_end < n {
                let share_end = find_component_end(chars, server_end + 1, false);
                if share_end > server_end + 1 {
                    return (share_end, false);
                }
            }
            (0, false)
        }
    } else if n >= 2 && is_letter(chars[0]) && chars[1] == ':' {
        (2, false)
    } else {
        (0, false)
    }
}

/// The last component of `chars[begin..]`, as a range of `chars`.
fn file_name_chars(chars: &Vec<char>, begin: usize, verbatim: bool) -> (r: Option<(usize, usize)>)
    requires
        begin <= chars.len(),
    ensures
        match r {
            Some((s, e)) => begin <= s <= e <= chars.len() && final_component(
                chars@.skip(begin as int),
                verbatim,
            ) == Some(chars@.subrange(s as int, e as int)),
            None => final_component(chars@.skip(begin as int), verbatim) is None,
        },
{
    let ghost p = chars@.skip(begin as int);
    let mut end: usize = chars.len();
    assert(p.take(end - begin) =~= p);
    loop
        invariant
            begin <= end <= chars.len(),
            p == chars@.skip(begin as int),
            final_component(p, verbatim) == final_component(p.take(end - begin), verbatim),
        decreases end - begin,
    {
        let ghost end0 = end;
        while end > begin && separates_exec(chars[end - 1], verbatim)
            invariant
                begin <= end <= end0 <= chars.len(),
                p == chars@.skip(begin as int),
                final_component(p, verbatim) == final_component(p.take(end - begin), verbatim),
            decreases end - begin,
        {
            assert(p.take(end - begin).drop_last() =~= p.take(end - 1 - begin));
            end -= 1;
        }
        if end == begin {
            return None;
        }
        let mut start = end;
        while start > begin && !separates_exec(chars[start - 1], verbatim)
            invariant
                begin <= start <= end <= end0 <= chars.len(),
                forall|i: int| start <= i < end ==> !separates(verbatim, #[trigger] chars@[i]),
            decreases start - begin,
        {
            start -= 1;
        }
        proof {
            let q = p.take(end - begin);
            assert(q.last() == chars@[end - 1]);
            lemma_trailing_segment_is(p, start - begin, end - begin, verbatim);
            assert(p.subrange(start - begin, end - begin) =~= chars@.subrange(
                start as int,
                end as int,
            ));
        }
        let len = end - start;
        if len == 1 && chars[start] == '.' {
            assert(chars@.subrange(start as int, end as int) =~= seq!['.']);
            if verbatim {
                return None;
            }
            proof {
                let q = p.take(end - begin);
                assert(q.take(q.len() - 1) =~= p.take(start - begin));
            }
            end = start;
        } else if len == 2 && chars[start] == '.' && chars[start + 1] == '.' {
            assert(chars@.subrange(start as int, end as int) =~= seq!['.', '.']);
            return None;
        } else {
            proof {
                let seg = chars@.subrange(start as int, end as int);
                if len == 1 {
                    assert(seg[0] != '.');
                    assert(seg != seq!['.']);
                    assert(seg != seq!['.', '.']);
                } else if len == 2 {
                    assert(seg[0] != '.' || seg[1] != '.');
                    assert(seg != seq!['.', '.']);
                    assert(seg != seq!['.']);
                } else {
                    assert(seg.len() != 1 && seg.len() != 2);
                    assert(seg != seq!['.']);
                    assert(seg != seq!['.', '.']);
                }
            }
            return Some((start, end));
        }
    }
}

/// The file name of the executable at `path` (`explorer.exe` for
/// `C:\Windows\explorer.exe`), or `Unknown` when the path has none.
pub fn process_name_from_path(path: &str) -> (r: String)
    ensures
        r@ == spec_process_name(path@),
{
    let chars = chars_of(path);
    let (n, verbatim) = path_prefix(&chars);
    let begin: usize = if n < chars.len() && is_sep(chars[n]) {
        n + 1
    } else {
        n
    };
    assert(begin == body_start(chars@));
    match file_name_chars(&chars, begin, verbatim) {
        Some((s, e)) => {
            if e > s {
                string_of_range(&chars, s, e)
            } else {
                unknown()
            }
        },
        None => unknown(),
    }
}

fn unknown() -> (r: String)
    ensures
        r@ == unknown_name(),
{
    let mut r = String::new();
    push_char(&mut r, 'U');
    push_char(&mut r, 'n');
    push_char(&mut r, 'k');
    push_char(&mut r, 'n');
    push_char(&mut r, 'o');
    push_char(&mut r, 'w');
    push_char(&mut r, 'n');
    assert(r@ =~= unknown_name());
    r
}

/// A process name never holds a backslash: `\` separates components in every
/// kind of path.
pub proof fn lemma_process_name_has_no_backslash(path: Seq<char>)
    ensures
        forall|i: int|
            0 <= i < spec_process_name(path).len() ==> #[trigger] spec_process_name(path)[i]
                != '\\',
{
    let v = prefix_is_verbatim(path);
    lemma_final_component_has_no_separator(path.skip(body_start(path)), v);
    assert(unknown_name()[0] != '\\');
}

proof fn lemma_final_component_has_no_separator(p: Seq<char>, verbatim: bool)
    ensures
        final_component(p, verbatim) matches Some(s) ==> forall|i: int|
            0 <= i < s.len() ==> !separates(verbatim, #[trigger] s[i]),
    decreases p.len(),
{
    if p.len() == 0 {
    } else if separates(verbatim, p.last()) {
        lemma_final_component_has_no_separator(p.drop_last(), verbatim);
    } else {
        lemma_trailing_segment_facts(p, verbatim);
        if trailing_segment(p, verbatim) == seq!['.'] && !verbatim {
            lemma_final_component_has_no_separator(p.take(p.len() - 1), verbatim);
        }
    }
}

/// A path `dir\name` whose directory does not open with a separator (a
/// drive path, a relative path, or a path rooted at `\`) has the process name
/// `name`, when `name` is not empty, holds neither `\` nor `/`, and is not `.`
/// or `..`: only those separators end a component, so spaces, dots and every
/// other character stay in the name.
pub proof fn lemma_process_name_is_last_component(dir: Seq<char>, name: Seq<char>)
    requires
        dir.len() == 0 || (dir[0] != '\\' && dir[0] != '/'),
        name.len() > 0,
        forall|i: int| 0 <= i < name.len() ==> #[trigger] name[i] != '\\' && name[i] != '/',
        name != seq!['.'],
        name != seq!['.', '.'],
    ensures
        spec_process_name(dir + seq!['\\'] + name) == name,
{
    let p = dir + seq!['\\'] + name;
    let d = dir.len() as int;
    assert(p[d] == '\\');
    assert(!prefix_is_verbatim(p) && !opens_with_two_separators(p)) by {
        if d == 0 {
            assert(p[0] == '\\');
            assert(p.len() >= 2 ==> !is_separator(p[1]) || true);
            assert(p[1] == name[0]);
        } else {
            assert(p[0] == dir[0]);
        }
    }
    let n = prefix_len(p);
    assert(n <= d) by {
        if p.len() >= 2 && is_ascii_letter(p[0]) && p[1] == ':' {
            if d < 2 {
                assert(p[d] == '\\');
            }
        }
    }
    let b = body_start(p);
    assert(b <= d + 1);
    let q = p.skip(b);
    let start = q.len() - name.len();
    assert(0 <= start);
    assert forall|i: int| start <= i < q.len() implies !separates(false, #[trigger] q[i]) by {
        assert(q[i] == name[i - start]);
    }
    if start > 0 {
        assert(q[start - 1] == p[d]);
    }
    lemma_trailing_segment_is(q, start, q.len() as int, false);
    assert(q.take(q.len() as int) =~= q);
    assert(q.subrange(start, q.len() as int) =~= name);
    assert(q.last() == name.last());
    if name.len() == 1 && name[0] == '.' {
        assert(name =~= seq!['.']);
    } else if name.len() == 2 && name[0] == '.' && name[1] == '.' {
        assert(name =~= seq!['.', '.']);
    }
    assert(file_name(p) == Some(name));
}

} // verus!
