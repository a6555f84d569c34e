//! What the switcher keeps between two listings: each window's thumbnail,
//! captured again only when the window's size or title changed, and each
//! executable's icon, extracted once.
use vstd::prelude::*;
use crate::text::same_text;

verus! {

// ---------------------------------------------------------------------------
// Thumbnails
// ---------------------------------------------------------------------------

/// A thumbnail with the size and title of the window when it was captured.
pub struct CachedThumbnail {
    pub hwnd: isize,
    pub width: i32,
    pub height: i32,
    pub title: String,
    pub thumbnail: String,
}

/// Width, height, title and thumbnail of a cached capture.
pub open spec fn capture_of(e: CachedThumbnail) -> (i32, i32, Seq<char>, Seq<char>) {
    (e.width, e.height, e.title@, e.thumbnail@)
}

/// The capture of `hwnd`: that of the last entry for it.
pub open spec fn thumbnail_lookup(es: Seq<CachedThumbnail>, hwnd: isize) -> Option<
    (i32, i32, Seq<char>, Seq<char>),
>
    decreases es.len(),
{
    if es.len() == 0 {
        None
    } else if es.last().hwnd == hwnd {
        Some(capture_of(es.last()))
    } else {
        thumbnail_lookup(es.drop_last(), hwnd)
    }
}

/// Entries whose window satisfies `keep`.
pub open spec fn window_kept(keep: spec_fn(isize) -> bool) -> spec_fn(CachedThumbnail) -> bool {
    |e: CachedThumbnail| keep(e.hwnd)
}

/// The thumbnails of windows, by window handle.
pub struct ThumbnailCache {
    entries: Vec<CachedThumbnail>,
}

impl ThumbnailCache {
    pub closed spec fn contents(&self) -> Map<isize, (i32, i32, Seq<char>, Seq<char>)> {
        Map::new(
            |h: isize| thumbnail_lookup(self.entries@, h) is Some,
            |h: isize| thumbnail_lookup(self.entries@, h).unwrap(),
        )
    }
}

impl View for ThumbnailCache {
    type V = Map<isize, (i32, i32, Seq<char>, Seq<char>)>;

    open spec fn view(&self) -> Map<isize, (i32, i32, Seq<char>, Seq<char>)> {
        self.contents()
    }
}

/// The thumbnail that can be shown again for a window of the given size and
/// title: the cached one, when it was captured at that size and title.
pub open spec fn reusable_thumbnail(
    cache: Map<isize, (i32, i32, Seq<char>, Seq<char>)>,
    hwnd: isize,
    width: i32,
    height: i32,
    title: Seq<char>,
) -> Option<Seq<char>> {
    if cache.dom().contains(hwnd) && cache[hwnd].0 == width && cache[hwnd].1 == height
        && cache[hwnd].2 == title {
        Some(cache[hwnd].3)
    } else {
        None
    }
}

proof fn lemma_thumbnail_filter_push(
    es: Seq<CachedThumbnail>,
    e: CachedThumbnail,
    keep: spec_fn(isize) -> bool,
)
    ensures
        es.push(e).filter(window_kept(keep)) == if keep(e.hwnd) {
            es.filter(window_kept(keep)).push(e)
        } else {
            es.filter(window_kept(keep))
        },
{
    reveal(Seq::filter);
    assert(es.push(e).drop_last() =~= es);
}

proof fn lemma_thumbnail_lookup_filter(es: Seq<CachedThumbnail>, keep: spec_fn(isize) -> bool, h: isize)
    ensures
        thumbnail_lookup(es.filter(window_kept(keep)), h) == if keep(h) {
            thumbnail_lookup(es, h)
        } else {
            None
        },
    decreases es.len(),
{
    reveal(Seq::filter);
    if es.len() > 0 {
        lemma_thumbnail_lookup_filter(es.drop_last(), keep, h);
        let f0 = es.drop_last().filter(window_kept(keep));
        let e = es.last();
        if keep(e.hwnd) {
            assert(es.filter(window_kept(keep)) == f0.push(e));
            assert(f0.push(e).last() == e);
            assert(f0.push(e).drop_last() =~= f0);
        } else {
            assert(es.filter(window_kept(keep)) == f0);
        }
    }
}

fn copy_thumbnail(e: &CachedThumbnail) -> (r: CachedThumbnail)
    ensures
        r == *e,
{
    CachedThumbnail {
        hwnd: e.hwnd,
        width: e.width,
        height: e.height,
        title: e.title.clone(),
        thumbnail: e.thumbnail.clone(),
    }
}

/// Whether `h` is among `handles`.
fn holds_handle(handles: &Vec<isize>, h: isize) -> (r: bool)
    ensures
        r == handles@.contains(h),
{
    let mut i: usize = 0;
    while i < handles.len()
        invariant
            i <= handles.len(),
            forall|j: int| 0 <= j < i ==> handles@[j] != h,
        decreases handles.len() - i,
    {
        if handles[i] == h {
            return true;
        }
        i += 1;
    }
    false
}

impl ThumbnailCache {
    /// An empty cache.
    pub fn new() -> (r: ThumbnailCache)
        ensures
            r@ == Map::<isize, (i32, i32, Seq<char>, Seq<char>)>::empty(),
    {
        let r = ThumbnailCache { entries: Vec::new() };
        assert(r@ =~= Map::<isize, (i32, i32, Seq<char>, Seq<char>)>::empty());
        r
    }

    /// The cached thumbnail of the window, when it was captured at the same
    /// size and title; `None` when the window must be captured (again).
    pub fn cached(&self, hwnd: isize, width: i32, height: i32, title: &str) -> (r: Option<String>)
        ensures
            match reusable_thumbnail(self@, hwnd, width, height, title@) {
                Some(t) => r matches Some(x) && x@ == t,
                None => r is None,
            },
    {
        let ghost es = self.entries@;
        let mut i = self.entries.len();
        assert(es.take(i as int) =~= es);
        while i > 0
            invariant
                i <= self.entries.len(),
                es == self.entries@,
                thumbnail_lookup(es, hwnd) == thumbnail_lookup(es.take(i as int), hwnd),
            decreases i,
        {
            let e = &self.entries[i - 1];
            assert(es.take(i as int).last() == es[i - 1]);
            assert(es.take(i as int).drop_last() =~= es.take(i - 1));
            if e.hwnd == hwnd {
                if e.width == width && e.height == height && same_text(e.title.as_str(), title) {
                    return Some(e.thumbnail.clone());
                }
                return None;
            }
            i -= 1;
        }
        None
    }

    /// Keeps the capture of the window, in place of any earlier one.
    pub fn store(&mut self, hwnd: isize, width: i32, height: i32, title: String, thumbnail: String)
        ensures
            final(self)@ == old(self)@.insert(hwnd, (width, height, title@, thumbnail@)),
    {
        let ghost es = self.entries@;
        let ghost keep = |x: isize| x != hwnd;
        let mut kept = self.kept_entries(Ghost(keep), hwnd, None);
        let e = CachedThumbnail { hwnd, width, height, title, thumbnail };
        let ghost v = capture_of(e);
        kept.push(e);
        self.entries = kept;
        proof {
            assert forall|h: isize| #![trigger thumbnail_lookup(self.entries@, h)]
                thumbnail_lookup(self.entries@, h) == if h == hwnd {
                    Some(v)
                } else {
                    thumbnail_lookup(es, h)
                } by {
                lemma_thumbnail_lookup_filter(es, keep, h);
                assert(self.entries@.drop_last() =~= es.filter(window_kept(keep)));
            }
            assert(self@ =~= old(self)@.insert(hwnd, v));
        }
    }

    /// Forgets the windows that are not among `live`.
    pub fn retain_windows(&mut self, live: &Vec<isize>)
        ensures
            final(self)@ == old(self)@.restrict(live@.to_set()),
    {
        let ghost es = self.entries@;
        let ghost keep = |x: isize| live@.contains(x);
        let kept = self.kept_entries(Ghost(keep), 0, Some(live));
        self.entries = kept;
        proof {
            assert forall|h: isize| #![trigger thumbnail_lookup(self.entries@, h)]
                thumbnail_lookup(self.entries@, h) == if live@.contains(h) {
                    thumbnail_lookup(es, h)
                } else {
                    None
                } by {
                lemma_thumbnail_lookup_filter(es, keep, h);
            }
            assert(self@ =~= old(self)@.restrict(live@.to_set()));
        }
    }

    /// The entries whose window is kept: those not of `hwnd` when `live` is
    /// `None`, those among `live` otherwise.
    fn kept_entries(
        &self,
        Ghost(keep): Ghost<spec_fn(isize) -> bool>,
        hwnd: isize,
        live: Option<&Vec<isize>>,
    ) -> (r: Vec<CachedThumbnail>)
        requires
            forall|x: isize|
                #[trigger] keep(x) == match live {
                    Some(l) => l@.contains(x),
                    None => x != hwnd,
                },
        ensures
            r@ == self.entries@.filter(window_kept(keep)),
    {
        let ghost es = self.entries@;
        let mut kept: Vec<CachedThumbnail> = Vec::new();
        let mut i: usize = 0;
        assert(es.take(0).filter(window_kept(keep)) =~= seq![]) by {
            reveal(Seq::filter);
        }
        while i < self.entries.len()
            invariant
                i <= self.entries.len(),
                es == self.entries@,
                kept@ == es.take(i as int).filter(window_kept(keep)),
                forall|x: isize|
                    #[trigger] keep(x) == match live {
                        Some(l) => l@.contains(x),
                        None => x != hwnd,
                    },
            decreases self.entries.len() - i,
        {
            let e = &self.entries[i];
            proof {
                lemma_thumbnail_filter_push(es.take(i as int), es[i as int], keep);
                assert(es.take(i + 1) =~= es.take(i as int).push(es[i as int]));
            }
            let keeps = match live {
                Some(l) => holds_handle(l, e.hwnd),
                None => e.hwnd != hwnd,
            };
            if keeps {
                kept.push(copy_thumbnail(e));
            }
            i += 1;
        }
        assert(es.take(es.len() as int) =~= es);
        kept
    }
}

/// A capture is shown again as long as the window keeps its size and title,
/// and another window's capture does not change it.
pub proof fn lemma_thumbnail_reused_until_changed(
    cache: Map<isize, (i32, i32, Seq<char>, Seq<char>)>,
    hwnd: isize,
    width: i32,
    height: i32,
    title: Seq<char>,
    thumbnail: Seq<char>,
    other: isize,
    now_width: i32,
    now_height: i32,
    now_title: Seq<char>,
)
    ensures
        reusable_thumbnail(
            cache.insert(hwnd, (width, height, title, thumbnail)),
            hwnd,
            now_width,
            now_height,
            now_title,
        ) == if now_width == width && now_height == height && now_title == title {
            Some(thumbnail)
        } else {
            None
        },
        other != hwnd ==> reusable_thumbnail(
            cache.insert(hwnd, (width, height, title, thumbnail)),
            other,
            now_width,
            now_height,
            now_title,
        ) == reusable_thumbnail(cache, other, now_width, now_height, now_title),
{
}

// ---------------------------------------------------------------------------
// Icons
// ---------------------------------------------------------------------------

/// The icon extracted from an executable (`None` when it had none).
pub struct CachedIcon {
    pub exe_path: String,
    pub icon: Option<String>,
}

pub open spec fn icon_text(icon: Option<String>) -> Option<Seq<char>> {
    match icon {
        Some(s) => Some(s@),
        None => None,
    }
}

/// The icon of the executable at `exe_path`: that of the last entry for it.
pub open spec fn icon_lookup(es: Seq<CachedIcon>, exe_path: Seq<char>) -> Option<Option<Seq<char>>>
    decreases es.len(),
{
    if es.len() == 0 {
        None
    } else if es.last().exe_path@ == exe_path {
        Some(icon_text(es.last().icon))
    } else {
        icon_lookup(es.drop_last(), exe_path)
    }
}

/// Entries of executables other than `exe_path`.
pub open spec fn other_executable(exe_path: Seq<char>) -> spec_fn(CachedIcon) -> bool {
    |e: CachedIcon| e.exe_path@ != exe_path
}

/// The icons of executables, by executable path, each extracted once.
pub struct IconCache {
    entries: Vec<CachedIcon>,
}

impl IconCache {
    pub closed spec fn contents(&self) -> Map<Seq<char>, Option<Seq<char>>> {
        Map::new(
            |p: Seq<char>| icon_lookup(self.entries@, p) is Some,
            |p: Seq<char>| icon_lookup(self.entries@, p).unwrap(),
        )
    }
}

impl View for IconCache {
    type V = Map<Seq<char>, Option<Seq<char>>>;

    open spec fn view(&self) -> Map<Seq<char>, Option<Seq<char>>> {
        self.contents()
    }
}

proof fn lemma_icon_lookup_without(es: Seq<CachedIcon>, exe_path: Seq<char>, p: Seq<char>)
    ensures
        icon_lookup(es.filter(other_executable(exe_path)), p) == if p != exe_path {
            icon_lookup(es, p)
        } else {
            None
        },
    decreases es.len(),
{
    reveal(Seq::filter);
    if es.len() > 0 {
        lemma_icon_lookup_without(es.drop_last(), exe_path, p);
        let f0 = es.drop_last().filter(other_executable(exe_path));
        let e = es.last();
        if e.exe_path@ != exe_path {
            assert(es.filter(other_executable(exe_path)) == f0.push(e));
            assert(f0.push(e).last() == e);
            assert(f0.push(e).drop_last() =~= f0);
        } else {
            assert(es.filter(other_executable(exe_path)) == f0);
        }
    }
}

fn copy_icon(icon: &Option<String>) -> (r: Option<String>)
    ensures
        r == *icon,
{
    match icon {
        Some(s) => Some(s.clone()),
        None => None,
    }
}

impl IconCache {
    /// An empty cache.
    pub fn new() -> (r: IconCache)
        ensures
            r@ == Map::<Seq<char>, Option<Seq<char>>>::empty(),
    {
        let r = IconCache { entries: Vec::new() };
        assert(r@ =~= Map::<Seq<char>, Option<Seq<char>>>::empty());
        r
    }

    /// The icon kept for the executable (`Some(None)` when it has none), or
    /// `None` when it has not been extracted yet.
    pub fn icon_for(&self, exe_path: &str) -> (r: Option<Option<String>>)
        ensures
            match r {
                Some(icon) => self@.dom().contains(exe_path@) && self@[exe_path@] == icon_text(
                    icon,
                ),
                None => !self@.dom().contains(exe_path@),
            },
    {
        let ghost es = self.entries@;
        let mut i = self.entries.len();
        assert(es.take(i as int) =~= es);
        while i > 0
            invariant
                i <= self.entries.len(),
                es == self.entries@,
                icon_lookup(es, exe_path@) == icon_lookup(es.take(i as int), exe_path@),
            decreases i,
        {
            let e = &self.entries[i - 1];
            assert(es.take(i as int).last() == es[i - 1]);
            assert(es.take(i as int).drop_last() =~= es.take(i - 1));
            if same_text(e.exe_path.as_str(), exe_path) {
                return Some(copy_icon(&e.icon));
            }
            i -= 1;
        }
        None
    }

    /// Keeps the icon of the executable, in place of any earlier one.
    pub fn store(&mut self, exe_path: String, icon: Option<String>)
        ensures
            final(self)@ == old(self)@.insert(exe_path@, icon_text(icon)),
    {
        let ghost es = self.entries@;
        let ghost key = exe_path@;
        let mut kept: Vec<CachedIcon> = Vec::new();
        let mut i: usize = 0;
        assert(es.take(0).filter(other_executable(key)) =~= seq![]) by {
            reveal(Seq::filter);
        }
        while i < self.entries.len()
            invariant
                i <= self.entries.len(),
                es == self.entries@,
                key == exe_path@,
                kept@ == es.take(i as int).filter(other_executable(key)),
            decreases self.entries.len() - i,
        {
            let e = &self.entries[i];
            proof {
                reveal(Seq::filter);
                assert(es.take(i + 1) =~= es.take(i as int).push(es[i as int]));
                assert(es.take(i + 1).drop_last() =~= es.take(i as int));
            }
            if !same_text(e.exe_path.as_str(), exe_path.as_str()) {
                kept.push(CachedIcon { exe_path: e.exe_path.clone(), icon: copy_icon(&e.icon) });
            }
            i += 1;
        }
        assert(es.take(es.len() as int) =~= es);
        let ghost v = icon_text(icon);
        kept.push(CachedIcon { exe_path, icon });
        self.entries = kept;
        proof {
            assert forall|p: Seq<char>| #![trigger icon_lookup(self.entries@, p)]
                icon_lookup(self.entries@, p) == if p == key {
                    Some(v)
                } else {
                    icon_lookup(es, p)
                } by {
                lemma_icon_lookup_without(es, key, p);
                assert(self.entries@.drop_last() =~= es.filter(other_executable(key)));
            }
            assert(self@ =~= old(self)@.insert(key, v));
        }
    }
}

/// An executable's icon, once stored, is what the cache gives for it until
/// it is stored again; storing another executable's icon does not change it.
pub proof fn lemma_icon_kept(
    cache: Map<Seq<char>, Option<Seq<char>>>,
    exe_path: Seq<char>,
    icon: Option<Seq<char>>,
    other: Seq<char>,
    other_icon: Option<Seq<char>>,
)
    requires
        other != exe_path,
    ensures
        cache.insert(exe_path, icon).insert(other, other_icon).dom().contains(exe_path),
        cache.insert(exe_path, icon).insert(other, other_icon)[exe_path] == icon,
{
}

} // verus!
