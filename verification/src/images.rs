use vstd::prelude::*;
use vstd::string::{StrSliceExecFns, StringExecFns};

verus! {

broadcast use vstd::string::group_string_axioms;

/// A downloaded image, by its address, with the size in cells (width,
/// height) that its drawing protocol was made for, if one was made.
pub struct LoadedImage {
    pub url: String,
    pub cover_size: Option<(u16, u16)>,
}

/// What the image cache knows: the addresses being downloaded and the images
/// that arrived, with the cover size each was last prepared for. The pixels
/// and the terminal protocols stay with the program that draws them.
pub struct ImageCache {
    font_size: (u16, u16),
    pending: Vec<String>,
    loaded: Vec<LoadedImage>,
}

/// The cache as plain values.
pub struct CacheView {
    pub font_size: (u16, u16),
    pub pending: Seq<Seq<char>>,
    pub loaded: Seq<(Seq<char>, Option<(u16, u16)>)>,
}

/// What drawing an image's cover at a size needs.
#[derive(Debug, Clone, Copy, PartialEq, Eq, Structural)]
pub enum CoverPlan {
    /// The image has not arrived: nothing to draw.
    NotLoaded,
    /// The area is too small to hold any pixel: nothing to draw.
    TooSmall,
    /// The protocol made for this size can be drawn again.
    Reuse,
    /// The image has to be resized to fill this many pixels and a new
    /// protocol made for it.
    Rebuild { px_w: u32, px_h: u32 },
}

/// The index of the first entry for `u`, or -1.
pub open spec fn find_url(s: Seq<(Seq<char>, Option<(u16, u16)>)>, u: Seq<char>) -> int
    decreases s.len(),
{
    if s.len() == 0 {
        -1
    } else if find_url(s.drop_last(), u) >= 0 {
        find_url(s.drop_last(), u)
    } else if s.last().0 == u {
        s.len() - 1
    } else {
        -1
    }
}

/// The cover size recorded for `u`: `None` when `u` has not arrived,
/// `Some(None)` when no protocol was made for it yet.
pub open spec fn lookup(s: Seq<(Seq<char>, Option<(u16, u16)>)>, u: Seq<char>) -> Option<
    Option<(u16, u16)>,
> {
    let j = find_url(s, u);
    if j >= 0 {
        Some(s[j].1)
    } else {
        None
    }
}

/// `s` without the entries equal to `u`.
pub open spec fn without(s: Seq<Seq<char>>, u: Seq<char>) -> Seq<Seq<char>>
    decreases s.len(),
{
    if s.len() == 0 {
        s
    } else if s.last() == u {
        without(s.drop_last(), u)
    } else {
        without(s.drop_last(), u).push(s.last())
    }
}

/// `s` with `u` recorded for `size`: its entry replaced, or one added.
pub open spec fn recorded(
    s: Seq<(Seq<char>, Option<(u16, u16)>)>,
    u: Seq<char>,
    size: Option<(u16, u16)>,
) -> Seq<(Seq<char>, Option<(u16, u16)>)> {
    let j = find_url(s, u);
    if j >= 0 {
        s.update(j, (u, size))
    } else {
        s.push((u, size))
    }
}

/// The pixels of `cells` cells of `px` pixels each, one cell being left out
/// at the edge (but at least one kept).
pub open spec fn cover_pixels(cells: u16, px: u16) -> int {
    let c = if cells > 1 {
        cells - 1
    } else {
        1
    };
    c * px
}

impl CacheView {
    /// A download of `u` starts: it is neither under way nor arrived.
    pub open spec fn starts_fetch(self, u: Seq<char>) -> bool {
        !self.pending.contains(u) && lookup(self.loaded, u) is None
    }

    /// The cache after asking for `u`.
    pub open spec fn fetched(self, u: Seq<char>) -> CacheView {
        if self.starts_fetch(u) {
            CacheView { pending: self.pending.push(u), ..self }
        } else {
            self
        }
    }

    /// The cache after the image at `u` arrived.
    pub open spec fn inserted(self, u: Seq<char>) -> CacheView {
        CacheView {
            pending: without(self.pending, u),
            loaded: recorded(self.loaded, u, None),
            ..self
        }
    }

    /// The cache after a protocol was made for `u` at `w` by `h` cells.
    pub open spec fn sized(self, u: Seq<char>, w: u16, h: u16) -> CacheView {
        if lookup(self.loaded, u) is Some {
            CacheView { loaded: recorded(self.loaded, u, Some((w, h))), ..self }
        } else {
            self
        }
    }

    /// What drawing the cover of `u` at `w` by `h` cells needs.
    pub open spec fn cover_plan(self, u: Seq<char>, w: u16, h: u16) -> CoverPlan {
        match lookup(self.loaded, u) {
            None => CoverPlan::NotLoaded,
            Some(size) => if size == Some((w, h)) {
                CoverPlan::Reuse
            } else {
                let px_w = cover_pixels(w, self.font_size.0);
                let px_h = cover_pixels(h, self.font_size.1);
                if px_w == 0 || px_h == 0 {
                    CoverPlan::TooSmall
                } else {
                    CoverPlan::Rebuild { px_w: px_w as u32, px_h: px_h as u32 }
                }
            },
        }
    }
}

/// The texts of some strings.
pub open spec fn url_list(v: Seq<String>) -> Seq<Seq<char>> {
    v.map_values(|t: String| t@)
}

/// The entries of some loaded images, as plain values.
pub open spec fn loaded_list(v: Seq<LoadedImage>) -> Seq<(Seq<char>, Option<(u16, u16)>)> {
    v.map_values(|e: LoadedImage| (e.url@, e.cover_size))
}

impl View for ImageCache {
    type V = CacheView;

    closed spec fn view(&self) -> CacheView {
        CacheView {
            font_size: self.font_size,
            pending: url_list(self.pending@),
            loaded: loaded_list(self.loaded@),
        }
    }
}

proof fn lemma_find_prefix(s: Seq<(Seq<char>, Option<(u16, u16)>)>, k: int, u: Seq<char>)
    requires
        0 <= k <= s.len(),
        find_url(s.take(k), u) >= 0,
    ensures
        find_url(s, u) == find_url(s.take(k), u),
    decreases s.len() - k,
{
    if k < s.len() {
        assert(s.take(k + 1).drop_last() =~= s.take(k));
        lemma_find_prefix(s, k + 1, u);
    } else {
        assert(s.take(k) =~= s);
    }
}

proof fn lemma_find_bounds(s: Seq<(Seq<char>, Option<(u16, u16)>)>, u: Seq<char>)
    ensures
        -1 <= find_url(s, u) < s.len(),
        find_url(s, u) >= 0 ==> s[find_url(s, u)].0 == u,
    decreases s.len(),
{
    if s.len() > 0 {
        lemma_find_bounds(s.drop_last(), u);
    }
}

proof fn lemma_find_after_record(
    s: Seq<(Seq<char>, Option<(u16, u16)>)>,
    u: Seq<char>,
    size: Option<(u16, u16)>,
    v: Seq<char>,
)
    ensures
        find_url(recorded(s, u, size), v) == (if v == u {
            if find_url(s, u) >= 0 {
                find_url(s, u)
            } else {
                s.len() as int
            }
        } else {
            find_url(s, v)
        }),
{
    lemma_find_bounds(s, u);
    let j = find_url(s, u);
    if j >= 0 {
        lemma_find_update(s, j, (u, size), v);
    } else {
        let t = s.push((u, size));
        assert(t.drop_last() =~= s);
    }
}

proof fn lemma_find_update(
    s: Seq<(Seq<char>, Option<(u16, u16)>)>,
    j: int,
    e: (Seq<char>, Option<(u16, u16)>),
    v: Seq<char>,
)
    requires
        0 <= j < s.len(),
        s[j].0 == e.0,
    ensures
        find_url(s.update(j, e), v) == find_url(s, v),
    decreases s.len(),
{
    let t = s.update(j, e);
    if j < s.len() - 1 {
        assert(t.drop_last() =~= s.drop_last().update(j, e));
        lemma_find_update(s.drop_last(), j, e, v);
    } else {
        assert(t.drop_last() =~= s.drop_last());
    }
}

impl ImageCache {
    /// An empty cache for a terminal whose cells are `font_size` pixels
    /// (width, height).
    pub fn new(font_size: (u16, u16)) -> (r: Self)
        ensures
            r@.font_size == font_size,
            r@.pending.len() == 0,
            r@.loaded.len() == 0,
    {
        let r = ImageCache { font_size, pending: Vec::new(), loaded: Vec::new() };
        assert(url_list(r.pending@) =~= Seq::<Seq<char>>::empty());
        assert(loaded_list(r.loaded@) =~= Seq::<(Seq<char>, Option<(u16, u16)>)>::empty());
        r
    }

    fn is_pending(&self, url: &String) -> (r: bool)
        ensures
            r == self@.pending.contains(url@),
    {
        let ghost p = url_list(self.pending@);
        let mut i: usize = 0;
        while i < self.pending.len()
            invariant
                i <= self.pending.len(),
                p == url_list(self.pending@),
                forall|k: int| 0 <= k < i ==> p[k] != url@,
            decreases self.pending.len() - i,
        {
            if self.pending[i] == *url {
                assert(p[i as int] == url@);
                return true;
            }
            i += 1;
        }
        false
    }

    fn find_loaded(&self, url: &String) -> (r: Option<usize>)
        ensures
            match r {
                Some(j) => find_url(self@.loaded, url@) == j as int,
                None => find_url(self@.loaded, url@) == -1,
            },
    {
        let ghost l = loaded_list(self.loaded@);
        let mut i: usize = 0;
        while i < self.loaded.len()
            invariant
                i <= self.loaded.len(),
                l == loaded_list(self.loaded@),
                find_url(l.take(i as int), url@) == -1,
            decreases self.loaded.len() - i,
        {
            assert(l.take(i + 1).drop_last() =~= l.take(i as int));
            if self.loaded[i].url == *url {
                assert(find_url(l.take(i + 1), url@) == i);
                proof {
                    lemma_find_prefix(l, i + 1, url@);
                }
                return Some(i);
            }
            i += 1;
        }
        assert(l.take(i as int) =~= l);
        None
    }

    /// Asks for the image at `url`; true when its download is to start (it is
    /// neither under way nor arrived), and it is then marked as under way.
    pub fn fetch(&mut self, url: &str) -> (r: bool)
        ensures
            r == old(self)@.starts_fetch(url@),
            final(self)@ == old(self)@.fetched(url@),
    {
        let key = String::from_str(url);
        if self.is_pending(&key) {
            return false;
        }
        match self.find_loaded(&key) {
            Some(_) => false,
            None => {
                let ghost before = url_list(self.pending@);
                self.pending.push(key);
                assert(url_list(self.pending@) =~= before.push(url@));
                true
            },
        }
    }

    /// Takes the image that arrived for `url`: it is no longer under way, and
    /// no protocol is made for it yet.
    pub fn insert(&mut self, url: &str)
        ensures
            final(self)@ == old(self)@.inserted(url@),
    {
        let key = String::from_str(url);
        let ghost p = url_list(self.pending@);
        let mut kept: Vec<String> = Vec::new();
        let mut i: usize = 0;
        while i < self.pending.len()
            invariant
                i <= self.pending.len(),
                p == url_list(self.pending@),
                key@ == url@,
                url_list(kept@) == without(p.take(i as int), url@),
            decreases self.pending.len() - i,
        {
            assert(p.take(i + 1).drop_last() =~= p.take(i as int));
            assert(p.take(i + 1).last() == p[i as int]);
            let ghost before = url_list(kept@);
            let same = self.pending[i] == key;
            assert(p[i as int] == self.pending@[i as int]@);
            assert(same == (p[i as int] == url@));
            if !same {
                kept.push(self.pending[i].clone());
                assert(url_list(kept@) =~= before.push(p[i as int]));
            }
            assert(url_list(kept@) == without(p.take(i + 1), url@));
            i += 1;
        }
        assert(p.take(i as int) =~= p);
        self.pending = kept;
        self.record(key, None);
    }

    /// Records that a protocol was made for `url` at `w` by `h` cells.
    pub fn set_cover_size(&mut self, url: &str, w: u16, h: u16)
        ensures
            final(self)@ == old(self)@.sized(url@, w, h),
    {
        let key = String::from_str(url);
        match self.find_loaded(&key) {
            Some(_) => self.record(key, Some((w, h))),
            None => {},
        }
    }

    fn record(&mut self, url: String, size: Option<(u16, u16)>)
        ensures
            final(self)@ == (CacheView {
                loaded: recorded(old(self)@.loaded, url@, size),
                ..old(self)@
            }),
    {
        let ghost l = loaded_list(self.loaded@);
        proof {
            lemma_find_bounds(l, url@);
        }
        match self.find_loaded(&url) {
            Some(j) => {
                self.loaded.set(j, LoadedImage { url, cover_size: size });
                assert(loaded_list(self.loaded@) =~= l.update(j as int, (url@, size)));
            },
            None => {
                self.loaded.push(LoadedImage { url, cover_size: size });
                assert(loaded_list(self.loaded@) =~= l.push((url@, size)));
            },
        }
    }

    /// What drawing the cover of `url` at `w` by `h` cells needs: nothing
    /// when it has not arrived or the area holds no pixel, the protocol
    /// already made when it was made for this size, and otherwise a resize to
    /// fill the area less one cell each way (at least one cell).
    pub fn get_cover(&self, url: &str, w: u16, h: u16) -> (r: CoverPlan)
        ensures
            r == self@.cover_plan(url@, w, h),
    {
        let key = String::from_str(url);
        match self.find_loaded(&key) {
            None => CoverPlan::NotLoaded,
            Some(j) => {
                proof {
                    lemma_find_bounds(self@.loaded, url@);
                }
                let size = self.loaded[j].cover_size;
                let same = match size {
                    Some((sw, sh)) => sw == w && sh == h,
                    None => false,
                };
                if same {
                    CoverPlan::Reuse
                } else {
                    let cw: u16 = if w > 1 {
                        w - 1
                    } else {
                        1
                    };
                    let ch: u16 = if h > 1 {
                        h - 1
                    } else {
                        1
                    };
                    let fw = self.font_size.0 as u32;
                    let fh = self.font_size.1 as u32;
                    assert(cw * fw <= 0xffff * 0xffff) by (nonlinear_arith)
                        requires
                            cw <= 0xffff,
                            fw <= 0xffff,
                    ;
                    assert(ch * fh <= 0xffff * 0xffff) by (nonlinear_arith)
                        requires
                            ch <= 0xffff,
                            fh <= 0xffff,
                    ;
                    let px_w = cw as u32 * fw;
                    let px_h = ch as u32 * fh;
                    if px_w == 0 || px_h == 0 {
                        CoverPlan::TooSmall
                    } else {
                        CoverPlan::Rebuild { px_w, px_h }
                    }
                }
            },
        }
    }
}

/// Once asked for, an image is not asked for again.
pub proof fn law_fetch_once(v: CacheView, u: Seq<char>)
    ensures
        !v.fetched(u).starts_fetch(u),
{
    if v.starts_fetch(u) {
        assert(v.fetched(u).pending.last() == u);
        assert(v.fetched(u).pending.contains(u));
    }
}

/// An image that arrived is not asked for again.
pub proof fn law_arrived_not_fetched(v: CacheView, u: Seq<char>)
    ensures
        !v.inserted(u).starts_fetch(u),
        !v.inserted(u).pending.contains(u),
{
    lemma_find_after_record(v.loaded, u, None, u);
    lemma_find_bounds(v.loaded, u);
    lemma_without(v.pending, u);
}

proof fn lemma_without(s: Seq<Seq<char>>, u: Seq<char>)
    ensures
        !without(s, u).contains(u),
        forall|x: Seq<char>| x != u ==> (#[trigger] without(s, u).contains(x) <==> s.contains(x)),
    decreases s.len(),
{
    if s.len() > 0 {
        lemma_without(s.drop_last(), u);
        let t = s.drop_last();
        assert forall|x: Seq<char>| #[trigger] s.contains(x) <==> t.contains(x) || x == s.last() by {
            if s.contains(x) {
                let i = choose|i: int| 0 <= i < s.len() && s[i] == x;
                if i < s.len() - 1 {
                    assert(t[i] == x);
                }
            }
            if t.contains(x) {
                let i = choose|i: int| 0 <= i < t.len() && t[i] == x;
                assert(s[i] == x);
            }
            if x == s.last() {
                assert(s[s.len() - 1] == x);
            }
        }
        if s.last() != u {
            let w = without(t, u);
            assert forall|x: Seq<char>| #[trigger] w.push(s.last()).contains(x) <==> w.contains(x)
                || x == s.last() by {
                if w.push(s.last()).contains(x) {
                    let i = choose|i: int| 0 <= i < w.len() + 1 && w.push(s.last())[i] == x;
                    if i < w.len() {
                        assert(w[i] == x);
                    }
                }
                if w.contains(x) {
                    let i = choose|i: int| 0 <= i < w.len() && w[i] == x;
                    assert(w.push(s.last())[i] == x);
                }
                if x == s.last() {
                    assert(w.push(s.last())[w.len() as int] == x);
                }
            }
        }
    }
}

/// Once a protocol was made for a size, drawing at that size reuses it.
pub proof fn law_sized_cover_is_reused(v: CacheView, u: Seq<char>, w: u16, h: u16)
    requires
        lookup(v.loaded, u) is Some,
    ensures
        v.sized(u, w, h).cover_plan(u, w, h) == CoverPlan::Reuse,
{
    lemma_find_after_record(v.loaded, u, Some((w, h)), u);
    lemma_find_bounds(v.loaded, u);
}

} // verus!
