//! Grouping the listed windows by application and ordering the groups.
use vstd::prelude::*;
use crate::text::{
    ascii_lower, chars_of, lemma_lex_irreflexive, lemma_lex_total,
    lemma_lex_transitive, lex_less, lowercase_all, text_less, to_ascii_lowercase,
};
use crate::window_manager::{
    display_name, inspect_window, records_probe, spec_display_name, texts, window_admitted,
    AppGroup, WindowInfo, WindowProbe,
};

verus! {

// ---------------------------------------------------------------------------
// The model
// ---------------------------------------------------------------------------

/// The grouping key of a window: its executable path in ASCII lower case.
pub open spec fn group_key(w: WindowInfo) -> Seq<char> {
    ascii_lower(w.exe_path@)
}

pub open spec fn is_main_window(w: WindowInfo, main_hwnd: Option<String>) -> bool {
    match main_hwnd {
        Some(m) => w.hwnd@ == m@,
        None => false,
    }
}

/// The windows that are listed: all but the switcher's own main window, in
/// enumeration order.
pub open spec fn listed_windows(ws: Seq<WindowInfo>, main_hwnd: Option<String>) -> Seq<WindowInfo> {
    ws.filter(|w: WindowInfo| !is_main_window(w, main_hwnd))
}

/// The windows of `ws` with grouping key `key`, in the order of `ws`.
pub open spec fn members(ws: Seq<WindowInfo>, key: Seq<char>) -> Seq<WindowInfo> {
    ws.filter(|w: WindowInfo| group_key(w) == key)
}

pub open spec fn rank(w: WindowInfo) -> int {
    w.last_active_rank as int
}

/// `output` is `input` reordered through the positions `p` (`output[k]` is
/// `input[p[k]]`), by ascending rank, windows of equal rank keeping their
/// order.
pub open spec fn is_rank_order(input: Seq<WindowInfo>, output: Seq<WindowInfo>, p: Seq<int>) -> bool {
    &&& p.len() == output.len()
    &&& forall|k: int| 0 <= k < p.len() ==> 0 <= #[trigger] p[k] < input.len()
    &&& forall|k: int| 0 <= k < p.len() ==> #[trigger] output[k] == input[p[k]]
    &&& forall|k: int, l: int| 0 <= k < l < p.len() ==> #[trigger] p[k] != #[trigger] p[l]
    &&& forall|k: int, l: int|
        0 <= k < l < p.len() ==> rank(#[trigger] output[k]) <= rank(#[trigger] output[l])
    &&& forall|k: int, l: int|
        0 <= k < l < p.len() && rank(#[trigger] output[k]) == rank(#[trigger] output[l]) ==> p[k]
            < p[l]
}

/// `output` is the stable sort of `input` by rank.
pub open spec fn rank_sorted_stably(input: Seq<WindowInfo>, output: Seq<WindowInfo>) -> bool {
    &&& output.len() == input.len()
    &&& exists|p: Seq<int>| is_rank_order(input, output, p)
}

/// `g` is the group of its key among the listed windows `ws`: it holds the
/// windows of that key sorted by rank, and is named after, and points at, the
/// first of them in enumeration order.
pub open spec fn is_group_of(ws: Seq<WindowInfo>, g: AppGroup) -> bool {
    let m = members(ws, g.group_id@);
    &&& m.len() > 0
    &&& g.app_name@ == spec_display_name(m[0].process_name@)
    &&& g.exe_path@ == m[0].exe_path@
    &&& g.active_window_hwnd matches Some(h) && h@ == m[0].hwnd@
    &&& rank_sorted_stably(m, g.windows@)
}

/// The rank of a group: that of its most recently active window.
pub open spec fn group_rank(g: AppGroup) -> int {
    rank(g.windows@[0])
}

/// Groups are ordered by rank, then by application name, then by key.
pub open spec fn group_before(a: AppGroup, b: AppGroup) -> bool {
    ||| group_rank(a) < group_rank(b)
    ||| group_rank(a) == group_rank(b) && lex_less(a.app_name@, b.app_name@)
    ||| group_rank(a) == group_rank(b) && a.app_name@ == b.app_name@ && lex_less(
        a.group_id@,
        b.group_id@,
    )
}

// ---------------------------------------------------------------------------
// Lemmas
// ---------------------------------------------------------------------------

proof fn lemma_members_push(ws: Seq<WindowInfo>, w: WindowInfo, key: Seq<char>)
    ensures
        members(ws.push(w), key) == if group_key(w) == key {
            members(ws, key).push(w)
        } else {
            members(ws, key)
        },
{
    reveal(Seq::filter);
    assert(ws.push(w).drop_last() =~= ws);
}

proof fn lemma_listed_push(ws: Seq<WindowInfo>, w: WindowInfo, main_hwnd: Option<String>)
    ensures
        listed_windows(ws.push(w), main_hwnd) == if !is_main_window(w, main_hwnd) {
            listed_windows(ws, main_hwnd).push(w)
        } else {
            listed_windows(ws, main_hwnd)
        },
{
    reveal(Seq::filter);
    assert(ws.push(w).drop_last() =~= ws);
}

proof fn lemma_members_empty(ws: Seq<WindowInfo>, key: Seq<char>)
    requires
        forall|i: int| 0 <= i < ws.len() ==> group_key(#[trigger] ws[i]) != key,
    ensures
        members(ws, key).len() == 0,
    decreases ws.len(),
{
    reveal(Seq::filter);
    if ws.len() > 0 {
        lemma_members_empty(ws.drop_last(), key);
    }
}

proof fn lemma_group_before_irreflexive(a: AppGroup)
    ensures
        !group_before(a, a),
{
    lemma_lex_irreflexive(a.app_name@);
    lemma_lex_irreflexive(a.group_id@);
}

proof fn lemma_group_before_total(a: AppGroup, b: AppGroup)
    requires
        a.group_id@ != b.group_id@,
    ensures
        group_before(a, b) || group_before(b, a),
{
    if group_rank(a) == group_rank(b) {
        if a.app_name@ != b.app_name@ {
            lemma_lex_total(a.app_name@, b.app_name@);
        } else {
            lemma_lex_total(a.group_id@, b.group_id@);
        }
    }
}

proof fn lemma_group_before_transitive(a: AppGroup, b: AppGroup, c: AppGroup)
    requires
        group_before(a, b),
        group_before(b, c),
    ensures
        group_before(a, c),
{
    if group_rank(a) == group_rank(b) && group_rank(b) == group_rank(c) {
        if lex_less(a.app_name@, b.app_name@) && lex_less(b.app_name@, c.app_name@) {
            lemma_lex_transitive(a.app_name@, b.app_name@, c.app_name@);
        } else if lex_less(a.app_name@, b.app_name@) {
        } else if lex_less(b.app_name@, c.app_name@) {
        } else {
            lemma_lex_transitive(a.group_id@, b.group_id@, c.group_id@);
        }
    }
}

// ---------------------------------------------------------------------------
// Sorting the windows of a group
// ---------------------------------------------------------------------------

/// The windows sorted by rank; windows of equal rank keep their order.
pub fn sort_windows_by_rank(v: Vec<WindowInfo>) -> (r: Vec<WindowInfo>)
    ensures
        rank_sorted_stably(v@, r@),
{
    let ghost input = v@;
    let mut rest = v;
    let mut r: Vec<WindowInfo> = Vec::new();
    let ghost mut p: Seq<int> = seq![];
    let n = rest.len();
    let mut j: usize = 0;
    while j < n
        invariant
            n == input.len(),
            j <= n,
            rest@ == input.skip(j as int),
            r.len() == j,
            is_rank_order(input, r@, p),
            forall|k: int| 0 <= k < p.len() ==> #[trigger] p[k] < j,
        decreases n - j,
    {
        assert(rest@[0] == input[j as int]);
        let x = rest.remove(0);
        assert(rest@ =~= input.skip(j + 1));
        let mut pos: usize = 0;
        while pos < r.len() && r[pos].last_active_rank <= x.last_active_rank
            invariant
                pos <= r.len(),
                forall|k: int| 0 <= k < pos ==> rank(#[trigger] r@[k]) <= rank(x),
            decreases r.len() - pos,
        {
            pos += 1;
        }
        let ghost old_r = r@;
        let ghost old_p = p;
        r.insert(pos, x);
        proof {
            p = old_p.insert(pos as int, j as int);
            old_r.insert_ensures(pos as int, x);
            old_p.insert_ensures(pos as int, j as int);
            assert forall|k: int| 0 <= k < p.len() implies 0 <= #[trigger] p[k] < input.len() && p[k]
                < j + 1 && r@[k] == input[p[k]] by {
                if k < pos {
                    assert(p[k] == old_p[k]);
                } else if k > pos {
                    assert(p[k] == old_p[k - 1]);
                    assert(r@[k] == old_r[k - 1]);
                }
            }
            assert forall|k: int, l: int| 0 <= k < l < p.len() implies rank(#[trigger] r@[k]) <= rank(
                #[trigger] r@[l],
            ) && (rank(r@[k]) == rank(r@[l]) ==> p[k] < p[l]) && p[k] != p[l] by {
                if l < pos {
                    assert(r@[k] == old_r[k] && r@[l] == old_r[l]);
                    assert(p[k] == old_p[k] && p[l] == old_p[l]);
                } else if l == pos {
                    assert(r@[k] == old_r[k]);
                    assert(p[k] == old_p[k]);
                } else if k == pos {
                    assert(r@[l] == old_r[l - 1]);
                    assert(p[l] == old_p[l - 1]);
                    assert(rank(old_r[pos as int]) > rank(x));
                    if l - 1 > pos {
                        assert(rank(old_r[pos as int]) <= rank(old_r[l - 1]));
                    }
                } else if k < pos {
                    assert(r@[k] == old_r[k] && r@[l] == old_r[l - 1]);
                    assert(p[k] == old_p[k] && p[l] == old_p[l - 1]);
                } else {
                    assert(r@[k] == old_r[k - 1] && r@[l] == old_r[l - 1]);
                    assert(p[k] == old_p[k - 1] && p[l] == old_p[l - 1]);
                }
            }
        }
        j += 1;
    }
    assert(is_rank_order(input, r@, p));
    r
}

// ---------------------------------------------------------------------------
// Ordering the groups
// ---------------------------------------------------------------------------

fn group_before_exec(a: &AppGroup, b: &AppGroup) -> (r: bool)
    requires
        a.windows.len() > 0,
        b.windows.len() > 0,
    ensures
        r == group_before(*a, *b),
{
    let ra = a.windows[0].last_active_rank;
    let rb = b.windows[0].last_active_rank;
    if ra < rb {
        return true;
    }
    if ra > rb {
        return false;
    }
    let an = chars_of(a.app_name.as_str());
    let bn = chars_of(b.app_name.as_str());
    if text_less(&an, &bn) {
        return true;
    }
    if a.app_name != b.app_name {
        return false;
    }
    let ak = chars_of(a.group_id.as_str());
    let bk = chars_of(b.group_id.as_str());
    text_less(&ak, &bk)
}

/// The groups in `group_before` order. Requires every group to hold a window
/// and the keys to be distinct.
fn sort_groups(v: Vec<AppGroup>) -> (r: Vec<AppGroup>)
    requires
        forall|i: int| 0 <= i < v.len() ==> (#[trigger] v@[i]).windows.len() > 0,
        forall|i: int, j: int|
            0 <= i < j < v.len() ==> (#[trigger] v@[i]).group_id@ != (#[trigger] v@[j]).group_id@,
    ensures
        is_reordering(v@, r@),
        forall|i: int, j: int| 0 <= i < j < r.len() ==> group_before(#[trigger] r@[i], #[trigger] r@[j]),
{
    let ghost input = v@;
    let mut rest = v;
    let mut r: Vec<AppGroup> = Vec::new();
    let ghost mut p: Seq<int> = seq![];
    let n = rest.len();
    let mut j: usize = 0;
    while j < n
        invariant
            n == input.len(),
            j <= n,
            rest@ == input.skip(j as int),
            forall|i: int| 0 <= i < input.len() ==> (#[trigger] input[i]).windows.len() > 0,
            forall|i: int, k: int|
                0 <= i < k < input.len() ==> (#[trigger] input[i]).group_id@ != (
                #[trigger] input[k]).group_id@,
            r.len() == j,
            p.len() == j,
            forall|k: int| 0 <= k < j ==> 0 <= #[trigger] p[k] < j,
            forall|k: int| 0 <= k < j ==> #[trigger] r@[k] == input[p[k]],
            forall|k: int, l: int| 0 <= k < l < j ==> #[trigger] p[k] != #[trigger] p[l],
            forall|k: int, l: int| 0 <= k < l < j ==> group_before(#[trigger] r@[k], #[trigger] r@[l]),
        decreases n - j,
    {
        assert(rest@[0] == input[j as int]);
        let x = rest.remove(0);
        assert(rest@ =~= input.skip(j + 1));
        let mut pos: usize = 0;
        while pos < r.len() && group_before_exec(&r[pos], &x)
            invariant
                pos <= r.len() == j,
                p.len() == j,
                n == input.len(),
                j < n,
                x == input[j as int],
                x.windows.len() > 0,
                forall|k: int| 0 <= k < j ==> #[trigger] r@[k] == input[p[k]],
                forall|k: int| 0 <= k < j ==> 0 <= #[trigger] p[k] < j,
                forall|i: int| 0 <= i < input.len() ==> (#[trigger] input[i]).windows.len() > 0,
                forall|k: int| 0 <= k < pos ==> group_before(#[trigger] r@[k], x),
            decreases r.len() - pos,
        {
            pos += 1;
        }
        proof {
            if pos < r.len() {
                let q = p[pos as int];
                assert(r@[pos as int] == input[q]);
                assert(q != j);
                lemma_group_before_total(r@[pos as int], x);
            }
        }
        let ghost old_r = r@;
        let ghost old_p = p;
        r.insert(pos, x);
        proof {
            p = old_p.insert(pos as int, j as int);
            old_r.insert_ensures(pos as int, x);
            old_p.insert_ensures(pos as int, j as int);
            assert forall|k: int| 0 <= k < j + 1 implies 0 <= #[trigger] p[k] < j + 1 && r@[k]
                == input[p[k]] by {
                if k < pos {
                    assert(p[k] == old_p[k]);
                } else if k > pos {
                    assert(p[k] == old_p[k - 1]);
                    assert(r@[k] == old_r[k - 1]);
                }
            }
            assert forall|k: int, l: int| 0 <= k < l < j + 1 implies #[trigger] p[k] != #[trigger] p[l]
                && group_before(r@[k], r@[l]) by {
                if l < pos {
                    assert(r@[k] == old_r[k] && r@[l] == old_r[l]);
                    assert(p[k] == old_p[k] && p[l] == old_p[l]);
                } else if l == pos {
                    assert(r@[k] == old_r[k]);
                    assert(p[k] == old_p[k]);
                } else if k == pos {
                    assert(r@[l] == old_r[l - 1]);
                    assert(p[l] == old_p[l - 1]);
                    if l - 1 > pos {
                        assert(group_before(old_r[pos as int], old_r[l - 1]));
                        lemma_group_before_transitive(x, old_r[pos as int], old_r[l - 1]);
                    }
                } else if k < pos {
                    assert(r@[k] == old_r[k] && r@[l] == old_r[l - 1]);
                    assert(p[k] == old_p[k] && p[l] == old_p[l - 1]);
                } else {
                    assert(r@[k] == old_r[k - 1] && r@[l] == old_r[l - 1]);
                    assert(p[k] == old_p[k - 1] && p[l] == old_p[l - 1]);
                }
            }
        }
        j += 1;
    }
    proof {
        lemma_reordering(input, r@, p);
        assert(is_reordering(input, r@));
    }
    r
}

proof fn lemma_reordering(a: Seq<AppGroup>, b: Seq<AppGroup>, p: Seq<int>)
    requires
        b.len() == a.len(),
        p.len() == a.len(),
        forall|k: int| 0 <= k < p.len() ==> 0 <= #[trigger] p[k] < a.len(),
        forall|k: int| 0 <= k < p.len() ==> #[trigger] b[k] == a[p[k]],
        forall|k: int, l: int| 0 <= k < l < p.len() ==> #[trigger] p[k] != #[trigger] p[l],
    ensures
        is_reordering(a, b),
{
    assert forall|i: int| 0 <= i < b.len() implies occurs_in(#[trigger] b[i], a) by {
        assert(b[i] == a[p[i]]);
    }
    assert forall|k: int| 0 <= k < a.len() implies occurs_in(#[trigger] a[k], b) by {
        lemma_injective_onto(p, a.len() as int, k);
        let i = choose|i: int| 0 <= i < p.len() && p[i] == k;
        assert(b[i] == a[k]);
    }
}

/// `x` occurs in `s`.
pub open spec fn occurs_in(x: AppGroup, s: Seq<AppGroup>) -> bool {
    exists|k: int| 0 <= k < s.len() && s[k] == x
}

/// `b` holds the elements of `a`, each element of either occurring in the other.
pub open spec fn is_reordering(a: Seq<AppGroup>, b: Seq<AppGroup>) -> bool {
    &&& b.len() == a.len()
    &&& forall|i: int| 0 <= i < b.len() ==> occurs_in(#[trigger] b[i], a)
    &&& forall|k: int| 0 <= k < a.len() ==> occurs_in(#[trigger] a[k], b)
}

/// An injective map of `0..n` into `0..n` reaches every value.
proof fn lemma_injective_onto(p: Seq<int>, n: int, target: int)
    requires
        p.len() == n,
        0 <= target < n,
        forall|k: int| 0 <= k < n ==> 0 <= #[trigger] p[k] < n,
        forall|k: int, l: int| 0 <= k < l < n ==> #[trigger] p[k] != #[trigger] p[l],
    ensures
        exists|i: int| 0 <= i < n && p[i] == target,
{
    if !(exists|i: int| 0 <= i < n && p[i] == target) {
        // the values avoid `target`, so `n` values fit in `n - 1` places
        let s = Set::new(|v: int| 0 <= v < n && v != target);
        let img = Set::new(|v: int| exists|i: int| 0 <= i < n && p[i] == v);
        assert(img.subset_of(s));
        lemma_image_size(p, n);
        vstd::set_lib::lemma_int_range(0, n);
        assert(s =~= vstd::set_lib::set_int_range(0, n).remove(target));
        vstd::set_lib::lemma_len_subset(img, s);
    }
}

proof fn lemma_image_size(p: Seq<int>, n: int)
    requires
        p.len() == n,
        n >= 0,
        forall|k: int, l: int| 0 <= k < l < n ==> #[trigger] p[k] != #[trigger] p[l],
    ensures
        Set::new(|v: int| exists|i: int| 0 <= i < n && p[i] == v).finite(),
        Set::new(|v: int| exists|i: int| 0 <= i < n && p[i] == v).len() == n,
    decreases n,
{
    let img = Set::new(|v: int| exists|i: int| 0 <= i < n && p[i] == v);
    if n == 0 {
        assert(img =~= Set::empty());
    } else {
        let q = p.drop_last();
        lemma_image_size(q, n - 1);
        let img_q = Set::new(|v: int| exists|i: int| 0 <= i < n - 1 && q[i] == v);
        assert(img =~= img_q.insert(p[n - 1])) by {
            assert forall|v: int| img.contains(v) implies img_q.insert(p[n - 1]).contains(v) by {
                let i = choose|i: int| 0 <= i < n && p[i] == v;
                if i < n - 1 {
                    assert(q[i] == v);
                }
            }
            assert forall|v: int| img_q.insert(p[n - 1]).contains(v) implies img.contains(v) by {
                if v != p[n - 1] {
                    let i = choose|i: int| 0 <= i < n - 1 && q[i] == v;
                    assert(p[i] == v);
                }
            }
        }
        assert(!img_q.contains(p[n - 1])) by {
            if img_q.contains(p[n - 1]) {
                let i = choose|i: int| 0 <= i < n - 1 && q[i] == p[n - 1];
                assert(p[i] == q[i]);
            }
        }
    }
}

// ---------------------------------------------------------------------------
// Building the groups
// ---------------------------------------------------------------------------

/// Some group of `gs` has the key `key`.
pub open spec fn has_group(gs: Seq<AppGroup>, key: Seq<char>) -> bool {
    exists|i: int| 0 <= i < gs.len() && gs[i].group_id@ == key
}

/// `g` holds, in enumeration order, the windows of its key among `ws`.
spec fn collected_group(ws: Seq<WindowInfo>, g: AppGroup) -> bool {
    let m = members(ws, g.group_id@);
    &&& m.len() > 0
    &&& g.windows@ == m
    &&& g.app_name@ == spec_display_name(m[0].process_name@)
    &&& g.exe_path@ == m[0].exe_path@
    &&& g.active_window_hwnd matches Some(h) && h@ == m[0].hwnd@
}

spec fn distinct_keys(gs: Seq<AppGroup>) -> bool {
    forall|i: int, j: int|
        0 <= i < j < gs.len() ==> (#[trigger] gs[i]).group_id@ != (#[trigger] gs[j]).group_id@
}

/// Collects the windows into groups in order of first appearance, each
/// group's windows in enumeration order.
fn collect_groups(windows: Vec<WindowInfo>, main_hwnd: &Option<String>) -> (r: Vec<AppGroup>)
    ensures
        forall|i: int|
            0 <= i < r.len() ==> collected_group(
                listed_windows(windows@, *main_hwnd),
                #[trigger] r@[i],
            ),
        distinct_keys(r@),
        forall|k: int|
            0 <= k < listed_windows(windows@, *main_hwnd).len() ==> has_group(
                r@,
                group_key(#[trigger] listed_windows(windows@, *main_hwnd)[k]),
            ),
{
    let ghost orig = windows@;
    let ghost main = *main_hwnd;
    let mut rest = windows;
    let mut groups: Vec<AppGroup> = Vec::new();
    let n = rest.len();
    let mut j: usize = 0;
    assert(orig.take(0) =~= seq![]);
    assert(listed_windows(orig.take(0), main) =~= seq![]) by {
        reveal(Seq::filter);
    }
    while j < n
        invariant
            n == orig.len(),
            j <= n,
            main == *main_hwnd,
            rest@ == orig.skip(j as int),
            forall|i: int|
                0 <= i < groups.len() ==> collected_group(
                    listed_windows(orig.take(j as int), main),
                    #[trigger] groups@[i],
                ),
            distinct_keys(groups@),
            forall|k: int|
                0 <= k < listed_windows(orig.take(j as int), main).len() ==> has_group(
                    groups@,
                    group_key(#[trigger] listed_windows(orig.take(j as int), main)[k]),
                ),
        decreases n - j,
    {
        let ghost lw = listed_windows(orig.take(j as int), main);
        assert(rest@[0] == orig[j as int]);
        let w = rest.remove(0);
        assert(rest@ =~= orig.skip(j + 1));
        proof {
            assert(orig.take(j + 1) =~= orig.take(j as int).push(w));
            lemma_listed_push(orig.take(j as int), w, main);
        }
        let is_main = match main_hwnd {
            Some(m) => w.hwnd == *m,
            None => false,
        };
        if is_main {
            assert(listed_windows(orig.take(j + 1), main) == lw);
        } else {
            let ghost lw2 = lw.push(w);
            assert(listed_windows(orig.take(j + 1), main) == lw2);
            let key = to_ascii_lowercase(w.exe_path.as_str());
            assert(key@ == group_key(w));
            let mut idx: usize = 0;
            while idx < groups.len() && groups[idx].group_id != key
                invariant
                    idx <= groups.len(),
                    forall|i: int| 0 <= i < idx ==> (#[trigger] groups@[i]).group_id@ != key@,
                decreases groups.len() - idx,
            {
                idx += 1;
            }
            let ghost old_groups = groups@;
            if idx < groups.len() {
                let mut g = groups.remove(idx);
                let ghost old_g = g;
                g.windows.push(w);
                groups.insert(idx, g);
                proof {
                    old_groups.remove_ensures(idx as int);
                    old_groups.remove(idx as int).insert_ensures(idx as int, g);
                    assert forall|i: int| 0 <= i < groups.len() implies collected_group(
                        lw2,
                        #[trigger] groups@[i],
                    ) by {
                        let gi = groups@[i];
                        assert(gi == if i == idx {
                            g
                        } else {
                            old_groups[i]
                        });
                        lemma_members_push(lw, w, gi.group_id@);
                        if i != idx {
                            assert(old_groups[i].group_id@ != old_groups[idx as int].group_id@);
                            assert(collected_group(lw, old_groups[i]));
                        } else {
                            assert(collected_group(lw, old_g));
                            assert(g.windows@ == old_g.windows@.push(w));
                        }
                    }
                    assert forall|a: int, b: int| 0 <= a < b < groups.len() implies (
                    #[trigger] groups@[a]).group_id@ != (#[trigger] groups@[b]).group_id@ by {
                        assert(groups@[a].group_id == old_groups[a].group_id);
                        assert(groups@[b].group_id == old_groups[b].group_id);
                    }
                    assert forall|k: int| 0 <= k < lw2.len() implies has_group(
                        groups@,
                        group_key(#[trigger] lw2[k]),
                    ) by {
                        if k < lw.len() {
                            assert(lw2[k] == lw[k]);
                            assert(has_group(old_groups, group_key(lw[k])));
                            let i = choose|i: int|
                                0 <= i < old_groups.len() && old_groups[i].group_id@ == group_key(
                                    lw[k],
                                );
                            assert(groups@[i].group_id == old_groups[i].group_id);
                        } else {
                            assert(groups@[idx as int].group_id@ == key@);
                        }
                    }
                }
            } else {
                let app_name = display_name(&w);
                let exe_path = w.exe_path.clone();
                let hwnd = w.hwnd.clone();
                let mut members_vec: Vec<WindowInfo> = Vec::new();
                members_vec.push(w);
                let g = AppGroup {
                    group_id: key,
                    app_name,
                    exe_path,
                    windows: members_vec,
                    active_window_hwnd: Some(hwnd),
                };
                groups.push(g);
                proof {
                    assert forall|k: int| 0 <= k < lw.len() implies group_key(#[trigger] lw[k])
                        != g.group_id@ by {
                        assert(has_group(old_groups, group_key(lw[k])));
                        let i = choose|i: int|
                            0 <= i < old_groups.len() && old_groups[i].group_id@ == group_key(
                                lw[k],
                            );
                        assert(old_groups[i].group_id@ != key@);
                    }
                    lemma_members_empty(lw, g.group_id@);
                    lemma_members_push(lw, w, g.group_id@);
                    assert(members(lw, g.group_id@) =~= seq![]);
                    assert(members(lw2, g.group_id@) =~= seq![w]);
                    assert(g.windows@ =~= seq![w]);
                    assert forall|i: int| 0 <= i < groups.len() implies collected_group(
                        lw2,
                        #[trigger] groups@[i],
                    ) by {
                        if i < old_groups.len() {
                            assert(groups@[i] == old_groups[i]);
                            assert(collected_group(lw, old_groups[i]));
                            lemma_members_push(lw, w, old_groups[i].group_id@);
                        }
                    }
                    assert forall|a: int, b: int| 0 <= a < b < groups.len() implies (
                    #[trigger] groups@[a]).group_id@ != (#[trigger] groups@[b]).group_id@ by {
                        if b == old_groups.len() {
                            assert(groups@[a] == old_groups[a]);
                        } else {
                            assert(groups@[a] == old_groups[a]);
                            assert(groups@[b] == old_groups[b]);
                        }
                    }
                    assert forall|k: int| 0 <= k < lw2.len() implies has_group(
                        groups@,
                        group_key(#[trigger] lw2[k]),
                    ) by {
                        if k < lw.len() {
                            assert(lw2[k] == lw[k]);
                            assert(has_group(old_groups, group_key(lw[k])));
                            let i = choose|i: int|
                                0 <= i < old_groups.len() && old_groups[i].group_id@ == group_key(
                                    lw[k],
                                );
                            assert(groups@[i] == old_groups[i]);
                        } else {
                            assert(groups@[old_groups.len() as int].group_id@ == key@);
                        }
                    }
                }
            }
        }
        j += 1;
    }
    assert(orig.take(n as int) =~= orig);
    groups
}

/// Sorts the windows of every group by rank.
fn sort_group_windows(groups: Vec<AppGroup>, Ghost(ws): Ghost<Seq<WindowInfo>>) -> (r: Vec<AppGroup>)
    requires
        forall|i: int| 0 <= i < groups.len() ==> collected_group(ws, #[trigger] groups@[i]),
        distinct_keys(groups@),
    ensures
        r.len() == groups.len(),
        forall|i: int| 0 <= i < r.len() ==> is_group_of(ws, #[trigger] r@[i]),
        forall|i: int| 0 <= i < r.len() ==> (#[trigger] r@[i]).windows.len() > 0,
        forall|i: int| 0 <= i < r.len() ==> (#[trigger] r@[i]).group_id == groups@[i].group_id,
        distinct_keys(r@),
{
    let ghost input = groups@;
    let mut rest = groups;
    let mut r: Vec<AppGroup> = Vec::new();
    let n = rest.len();
    let mut j: usize = 0;
    while j < n
        invariant
            n == input.len(),
            j <= n,
            rest@ == input.skip(j as int),
            forall|i: int| 0 <= i < n ==> collected_group(ws, #[trigger] input[i]),
            r.len() == j,
            forall|i: int| 0 <= i < j ==> is_group_of(ws, #[trigger] r@[i]),
            forall|i: int| 0 <= i < j ==> (#[trigger] r@[i]).windows.len() > 0,
            forall|i: int| 0 <= i < j ==> (#[trigger] r@[i]).group_id == input[i].group_id,
        decreases n - j,
    {
        assert(rest@[0] == input[j as int]);
        let g = rest.remove(0);
        assert(rest@ =~= input.skip(j + 1));
        assert(collected_group(ws, g));
        let AppGroup { group_id, app_name, exe_path, windows, active_window_hwnd } = g;
        let sorted = sort_windows_by_rank(windows);
        r.push(AppGroup { group_id, app_name, exe_path, windows: sorted, active_window_hwnd });
        j += 1;
    }
    r
}

/// The listed windows grouped by application.
///
/// All windows but the main window `main_hwnd` are listed. Windows whose
/// executable paths agree up to ASCII case form one group, keyed by the
/// lower-cased path; the group holds them by rank (ties in enumeration order)
/// and is named after, and points at, the first of them in enumeration order.
/// Groups come by the rank of their first window, then by name, then by key.
pub fn list_groups(windows: Vec<WindowInfo>, main_hwnd: Option<String>) -> (r: Vec<AppGroup>)
    ensures
        is_grouping(listed_windows(windows@, main_hwnd), r@),
        forall|i: int|
            0 <= i < r.len() ==> is_group_of(listed_windows(windows@, main_hwnd), #[trigger] r@[i]),
        forall|i: int, j: int|
            0 <= i < j < r.len() ==> group_before(#[trigger] r@[i], #[trigger] r@[j]),
        forall|i: int, j: int|
            0 <= i < j < r.len() ==> (#[trigger] r@[i]).group_id@ != (#[trigger] r@[j]).group_id@,
        forall|k: int|
            0 <= k < listed_windows(windows@, main_hwnd).len() ==> has_group(
                r@,
                group_key(#[trigger] listed_windows(windows@, main_hwnd)[k]),
            ),
{
    let ghost ws = listed_windows(windows@, main_hwnd);
    let collected = collect_groups(windows, &main_hwnd);
    let grouped = sort_group_windows(collected, Ghost(ws));
    let r = sort_groups(grouped);
    proof {
        let g = grouped@;
        assert forall|i: int| 0 <= i < r.len() implies is_group_of(ws, #[trigger] r@[i]) by {
            assert(occurs_in(r@[i], g));
        }
        assert forall|i: int, j: int| 0 <= i < j < r.len() implies (#[trigger] r@[i]).group_id@
            != (#[trigger] r@[j]).group_id@ by {
            assert(occurs_in(r@[i], g));
            assert(occurs_in(r@[j], g));
            let a = choose|k: int| 0 <= k < g.len() && g[k] == r@[i];
            let b = choose|k: int| 0 <= k < g.len() && g[k] == r@[j];
            if r@[i].group_id@ == r@[j].group_id@ {
                if a != b {
                    if a < b {
                        assert(g[a].group_id@ != g[b].group_id@);
                    } else {
                        assert(g[b].group_id@ != g[a].group_id@);
                    }
                }
                lemma_group_before_irreflexive(r@[i]);
            }
        }
        assert forall|k: int| 0 <= k < ws.len() implies has_group(r@, group_key(#[trigger] ws[k])) by {
            assert(has_group(collected@, group_key(ws[k])));
            let i = choose|i: int|
                0 <= i < collected@.len() && collected@[i].group_id@ == group_key(ws[k]);
            assert(g[i].group_id == collected@[i].group_id);
            assert(occurs_in(g[i], r@));
            let x = choose|x: int| 0 <= x < r@.len() && r@[x] == g[i];
            assert(r@[x].group_id@ == group_key(ws[k]));
        }
    }
    r
}

// ---------------------------------------------------------------------------
// Every listed window is in exactly one group
// ---------------------------------------------------------------------------

/// `gs` is a grouping of the listed windows `ws` as `list_groups` returns it.
pub open spec fn is_grouping(ws: Seq<WindowInfo>, gs: Seq<AppGroup>) -> bool {
    &&& forall|i: int| 0 <= i < gs.len() ==> is_group_of(ws, #[trigger] gs[i])
    &&& forall|i: int, j: int|
        0 <= i < j < gs.len() ==> (#[trigger] gs[i]).group_id@ != (#[trigger] gs[j]).group_id@
    &&& forall|k: int| 0 <= k < ws.len() ==> has_group(gs, group_key(#[trigger] ws[k]))
}

proof fn lemma_members_contains(ws: Seq<WindowInfo>, key: Seq<char>, w: WindowInfo)
    ensures
        members(ws, key).contains(w) <==> (ws.contains(w) && group_key(w) == key),
    decreases ws.len(),
{
    reveal(Seq::filter);
    if ws.len() > 0 {
        lemma_members_contains(ws.drop_last(), key, w);
        let m = members(ws, key);
        let m0 = members(ws.drop_last(), key);
        assert(ws =~= ws.drop_last().push(ws.last()));
        if m.contains(w) {
            let i = choose|i: int| 0 <= i < m.len() && m[i] == w;
            if group_key(ws.last()) == key && i == m.len() - 1 {
                assert(ws[ws.len() - 1] == w);
            } else {
                assert(m0[i] == w);
                let j = choose|j: int| 0 <= j < ws.drop_last().len() && ws.drop_last()[j] == w;
                assert(ws[j] == w);
            }
        }
        if ws.contains(w) && group_key(w) == key {
            let j = choose|j: int| 0 <= j < ws.len() && ws[j] == w;
            if j == ws.len() - 1 {
                assert(m[m.len() - 1] == w);
            } else {
                assert(ws.drop_last()[j] == w);
                let i = choose|i: int| 0 <= i < m0.len() && m0[i] == w;
                assert(m[i] == w);
            }
        }
    }
}

proof fn lemma_sorted_contains(input: Seq<WindowInfo>, output: Seq<WindowInfo>, w: WindowInfo)
    requires
        rank_sorted_stably(input, output),
    ensures
        output.contains(w) <==> input.contains(w),
{
    let p = choose|p: Seq<int>| is_rank_order(input, output, p);
    if output.contains(w) {
        let k = choose|k: int| 0 <= k < output.len() && output[k] == w;
        assert(input[p[k]] == w);
    }
    if input.contains(w) {
        let j = choose|j: int| 0 <= j < input.len() && input[j] == w;
        lemma_injective_onto(p, input.len() as int, j);
        let k = choose|k: int| 0 <= k < p.len() && p[k] == j;
        assert(output[k] == w);
    }
}

/// Every listed window is among the windows of exactly one group: the group
/// of its executable path.
pub proof fn lemma_window_in_exactly_one_group(
    ws: Seq<WindowInfo>,
    gs: Seq<AppGroup>,
    w: WindowInfo,
    i: int,
)
    requires
        is_grouping(ws, gs),
        ws.contains(w),
        0 <= i < gs.len(),
    ensures
        gs[i].windows@.contains(w) <==> gs[i].group_id@ == group_key(w),
        exists|j: int| 0 <= j < gs.len() && gs[j].windows@.contains(w),
{
    let g = gs[i];
    assert(is_group_of(ws, g));
    lemma_sorted_contains(members(ws, g.group_id@), g.windows@, w);
    lemma_members_contains(ws, g.group_id@, w);
    let k = choose|k: int| 0 <= k < ws.len() && ws[k] == w;
    assert(has_group(gs, group_key(ws[k])));
    let j = choose|j: int| 0 <= j < gs.len() && gs[j].group_id@ == group_key(ws[k]);
    assert(is_group_of(ws, gs[j]));
    lemma_sorted_contains(members(ws, gs[j].group_id@), gs[j].windows@, w);
    lemma_members_contains(ws, gs[j].group_id@, w);
}

// ---------------------------------------------------------------------------
// From the probed windows to the groups
// ---------------------------------------------------------------------------

/// Excluded process names in ASCII lower case.
pub open spec fn lowered_names(names: Seq<String>) -> Seq<Seq<char>> {
    names.map_values(|s: String| ascii_lower(s@))
}

/// The probes of the windows that are listed, in enumeration order.
pub open spec fn admitted_probes(
    probes: Seq<WindowProbe>,
    self_pid: u32,
    excluded: Seq<Seq<char>>,
    current_desktop_only: bool,
) -> Seq<WindowProbe> {
    probes.filter(|p: WindowProbe| window_admitted(p, self_pid, excluded, current_desktop_only))
}

/// `ws` are the records of the admitted probes, each ranked by its position.
pub open spec fn records_of(ws: Seq<WindowInfo>, admitted: Seq<WindowProbe>) -> bool {
    &&& ws.len() == admitted.len()
    &&& forall|k: int| 0 <= k < ws.len() ==> records_probe(#[trigger] ws[k], admitted[k], k)
}

/// The groups are in the order `list_groups` gives them.
pub open spec fn groups_in_order(gs: Seq<AppGroup>) -> bool {
    forall|i: int, j: int| 0 <= i < j < gs.len() ==> group_before(#[trigger] gs[i], #[trigger] gs[j])
}

/// A listed window belongs to a known process other than the switcher, whose
/// name in lower case is not excluded.
pub open spec fn from_admitted_process(w: WindowInfo, self_pid: u32, excluded: Seq<Seq<char>>) -> bool {
    &&& w.pid != 0
    &&& w.pid != self_pid
    &&& !excluded.contains(ascii_lower(w.process_name@))
}

proof fn lemma_admitted_push(
    probes: Seq<WindowProbe>,
    p: WindowProbe,
    self_pid: u32,
    excluded: Seq<Seq<char>>,
    current_desktop_only: bool,
)
    ensures
        admitted_probes(probes.push(p), self_pid, excluded, current_desktop_only) == if window_admitted(
            p,
            self_pid,
            excluded,
            current_desktop_only,
        ) {
            admitted_probes(probes, self_pid, excluded, current_desktop_only).push(p)
        } else {
            admitted_probes(probes, self_pid, excluded, current_desktop_only)
        },
{
    reveal(Seq::filter);
    assert(probes.push(p).drop_last() =~= probes);
}

proof fn lemma_filter_subset<A>(s: Seq<A>, pred: spec_fn(A) -> bool, x: A)
    requires
        s.filter(pred).contains(x),
    ensures
        s.contains(x),
    decreases s.len(),
{
    reveal(Seq::filter);
    if s.len() > 0 {
        let f = s.filter(pred);
        let f0 = s.drop_last().filter(pred);
        let i = choose|i: int| 0 <= i < f.len() && f[i] == x;
        if pred(s.last()) && i == f.len() - 1 {
            assert(s[s.len() - 1] == x);
        } else {
            assert(f0[i] == x);
            lemma_filter_subset(s.drop_last(), pred, x);
            let j = choose|j: int| 0 <= j < s.drop_last().len() && s.drop_last()[j] == x;
            assert(s[j] == x);
        }
    }
}

/// The records of the probed windows that are listed, in enumeration order,
/// each ranked by the number of windows listed before it. `excluded_processes`
/// are compared in ASCII lower case.
pub fn collect_windows(
    probes: &Vec<WindowProbe>,
    self_pid: u32,
    excluded_processes: &Vec<String>,
    current_desktop_only: bool,
) -> (r: Vec<WindowInfo>)
    ensures
        records_of(
            r@,
            admitted_probes(
                probes@,
                self_pid,
                lowered_names(excluded_processes@),
                current_desktop_only,
            ),
        ),
{
    let lowered = lowercase_all(excluded_processes);
    let ghost ex = lowered_names(excluded_processes@);
    assert(texts(lowered@) =~= ex);
    let mut windows: Vec<WindowInfo> = Vec::new();
    let mut i: usize = 0;
    assert(probes@.take(0) =~= seq![]);
    assert(admitted_probes(probes@.take(0), self_pid, ex, current_desktop_only) =~= seq![]) by {
        reveal(Seq::filter);
    }
    while i < probes.len()
        invariant
            i <= probes.len(),
            texts(lowered@) == ex,
            ex == lowered_names(excluded_processes@),
            records_of(
                windows@,
                admitted_probes(probes@.take(i as int), self_pid, ex, current_desktop_only),
            ),
        decreases probes.len() - i,
    {
        proof {
            lemma_admitted_push(probes@.take(i as int), probes@[i as int], self_pid, ex, current_desktop_only);
            assert(probes@.take(i + 1) =~= probes@.take(i as int).push(probes@[i as int]));
        }
        let rank = windows.len();
        match inspect_window(&probes[i], self_pid, &lowered, current_desktop_only, rank) {
            Some(w) => {
                windows.push(w);
            },
            None => {},
        }
        i += 1;
    }
    assert(probes@.take(probes.len() as int) =~= probes@);
    windows
}

/// The groups the switcher shows for the probed windows, in enumeration
/// order: the windows that are admitted (see `window_admitted`; the excluded
/// names compared in ASCII lower case), each ranked by its position among
/// them, grouped and ordered as `list_groups` does, without the switcher's own
/// main window; thumbnails are left for the caller to capture. No listed
/// window belongs to the switcher's process, to an unknown process, or to an
/// excluded one.
pub fn window_groups(
    probes: &Vec<WindowProbe>,
    self_pid: u32,
    excluded_processes: &Vec<String>,
    current_desktop_only: bool,
    main_hwnd: Option<String>,
) -> (r: Vec<AppGroup>)
    ensures
        exists|ws: Seq<WindowInfo>|
            #[trigger] records_of(
                ws,
                admitted_probes(
                    probes@,
                    self_pid,
                    lowered_names(excluded_processes@),
                    current_desktop_only,
                ),
            ) && is_grouping(listed_windows(ws, main_hwnd), r@) && groups_in_order(r@),
        forall|i: int, j: int|
            0 <= i < r.len() && 0 <= j < r@[i].windows.len() ==> from_admitted_process(
                #[trigger] r@[i].windows@[j],
                self_pid,
                lowered_names(excluded_processes@),
            ),
{
    let windows = collect_windows(probes, self_pid, excluded_processes, current_desktop_only);
    let ghost ws = windows@;
    let ghost ex = lowered_names(excluded_processes@);
    let ghost adm = admitted_probes(probes@, self_pid, ex, current_desktop_only);
    let r = list_groups(windows, main_hwnd);
    proof {
        let listed = listed_windows(ws, main_hwnd);
        assert forall|i: int, j: int|
            0 <= i < r.len() && 0 <= j < r@[i].windows.len() implies from_admitted_process(
            #[trigger] r@[i].windows@[j],
            self_pid,
            ex,
        ) by {
            let g = r@[i];
            let w = g.windows@[j];
            assert(is_group_of(listed, g));
            assert(g.windows@.contains(w));
            lemma_sorted_contains(members(listed, g.group_id@), g.windows@, w);
            lemma_members_contains(listed, g.group_id@, w);
            lemma_filter_subset(ws, |x: WindowInfo| !is_main_window(x, main_hwnd), w);
            let k = choose|k: int| 0 <= k < ws.len() && ws[k] == w;
            assert(records_probe(ws[k], adm[k], k));
            probes@.lemma_filter_pred(
                |p: WindowProbe| window_admitted(p, self_pid, ex, current_desktop_only),
                k,
            );
        }
        assert(records_of(ws, adm));
        assert(groups_in_order(r@));
    }
    r
}

} // verus!
