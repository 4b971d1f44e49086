use vstd::prelude::*;

use crate::sorting::Tag;
use crate::{
    Config, ImageData, ImageInfo, LoadedImageAndThumb, Metadata, PreloadImage, PRELOAD_IN_FLIGHT,
};

verus! {

// ---------------------------------------------------------------------------
// Counting entries by load state
// ---------------------------------------------------------------------------
/// Number of entries among `s[0..n]` that satisfy `p`.
pub open spec fn count_to(s: Seq<ImageInfo>, p: spec_fn(ImageInfo) -> bool, n: int) -> nat
    decreases n,
{
    if n <= 0 {
        0nat
    } else {
        count_to(s, p, n - 1) + (if 0 <= n - 1 < s.len() && p(s[n - 1]) {
            1nat
        } else {
            0nat
        })
    }
}

pub open spec fn count_loading_to(s: Seq<ImageInfo>, n: int) -> nat {
    count_to(s, |e: ImageInfo| e.data is Loading, n)
}

/// Number of entries of `s` whose load state is `Loading`.
pub open spec fn count_loading(s: Seq<ImageInfo>) -> nat {
    count_loading_to(s, s.len() as int)
}

pub open spec fn count_loaded(s: Seq<ImageInfo>) -> nat {
    count_to(s, |e: ImageInfo| e.data is Loaded, s.len() as int)
}

pub open spec fn count_not_loading(s: Seq<ImageInfo>) -> nat {
    count_to(s, |e: ImageInfo| e.data is NotLoading, s.len() as int)
}

pub open spec fn count_failed(s: Seq<ImageInfo>) -> nat {
    count_to(s, |e: ImageInfo| e.data is Failed, s.len() as int)
}

/// Updating one entry shifts a prefix count by at most the entry's own
/// contribution.
pub proof fn lemma_count_to_update(
    s: Seq<ImageInfo>,
    p: spec_fn(ImageInfo) -> bool,
    j: int,
    v: ImageInfo,
    n: int,
)
    requires
        0 <= j < s.len(),
    ensures
        count_to(s.update(j, v), p, n) == count_to(s, p, n) + (if j < n && p(v) {
            1int
        } else {
            0int
        }) - (if j < n && p(s[j]) {
            1int
        } else {
            0int
        }),
    decreases n,
{
    if n > 0 {
        lemma_count_to_update(s, p, j, v, n - 1);
    }
}

/// A segment without matching entries does not change the count.
pub proof fn lemma_count_to_zero_segment(
    s: Seq<ImageInfo>,
    p: spec_fn(ImageInfo) -> bool,
    m: int,
    n: int,
)
    requires
        m <= n,
        forall|i: int| m <= i < n && 0 <= i < s.len() ==> !p(#[trigger] s[i]),
    ensures
        count_to(s, p, n) == count_to(s, p, m),
    decreases n - m,
{
    if n > m {
        lemma_count_to_zero_segment(s, p, m, n - 1);
    }
}

// ---------------------------------------------------------------------------
// The prefetch window and the marking of entries
// ---------------------------------------------------------------------------
pub open spec fn min_int(a: int, b: int) -> int {
    if a <= b {
        a
    } else {
        b
    }
}

/// First index of the initial preload range: up to
/// `min(back, PRELOAD_IN_FLIGHT / 2)` entries before `index`.
pub open spec fn initial_from(index: int, back: int) -> int {
    let b = min_int(back, PRELOAD_IN_FLIGHT as int / 2);
    if index >= b {
        index - b
    } else {
        0
    }
}

/// One past the last index of the initial preload range: bounded by the
/// forward window, the list length and the in-flight budget.
pub open spec fn initial_to(from: int, index: int, front: int, len: int) -> int {
    min_int(min_int(index + front + 1, len), from + PRELOAD_IN_FLIGHT as int)
}

/// Index `i` lies within the prefetch window around `curr`.
pub open spec fn in_window(curr: int, back: int, front: int, i: int) -> bool {
    curr - back <= i <= curr + front
}

/// Entry `i` may be issued next: it is in the window and not yet requested.
pub open spec fn preload_candidate(
    s: Seq<ImageInfo>,
    curr: int,
    back: int,
    front: int,
    i: int,
) -> bool {
    &&& 0 <= i < s.len()
    &&& s[i].data is NotLoading
    &&& in_window(curr, back, front, i)
}

/// Position of index `i` in the interleaved scan: the scan starts at the
/// current entry itself and alternates between the two directions, so round
/// `d` probes `curr + d` and then `curr - 1 - d`.
pub open spec fn scan_rank(curr: int, i: int) -> int {
    if i >= curr {
        2 * (i - curr)
    } else {
        2 * (curr - 1 - i) + 1
    }
}

/// Entry `i` is the first candidate in interleaved scan order.
pub open spec fn first_candidate(
    s: Seq<ImageInfo>,
    curr: int,
    back: int,
    front: int,
    i: int,
) -> bool {
    &&& preload_candidate(s, curr, back, front, i)
    &&& forall|j: int|
        preload_candidate(s, curr, back, front, j) ==> scan_rank(curr, i) <= scan_rank(curr, j)
}

/// Entry `i` is the first not-yet-requested entry of `s[start..end]`.
pub open spec fn forward_first(s: Seq<ImageInfo>, start: int, end: int, i: int) -> bool {
    &&& start <= i < end <= s.len()
    &&& s[i].data is NotLoading
    &&& forall|j: int| start <= j < i ==> !((#[trigger] s[j]).data is NotLoading)
}

/// `s` with entry `i` marked as being loaded.
pub open spec fn marked_loading(s: Seq<ImageInfo>, i: int) -> Seq<ImageInfo> {
    s.update(
        i,
        ImageInfo {
            path: s[i].path,
            data: PreloadImage::Loading(s[i].path),
            metadata: s[i].metadata,
        },
    )
}

/// Entry `j` is the first entry of `s` whose path is `p`.
pub open spec fn first_path_match(s: Seq<ImageInfo>, p: Seq<char>, j: int) -> bool {
    &&& 0 <= j < s.len()
    &&& s[j].path@ == p
    &&& forall|k: int| 0 <= k < j ==> (#[trigger] s[k]).path@ != p
}

/// `s` with entry `j` holding the decoded image and thumbnail.
pub open spec fn loaded_applied(
    s: Seq<ImageInfo>,
    j: int,
    image: ImageData,
    thumb: ImageData,
) -> Seq<ImageInfo> {
    s.update(
        j,
        ImageInfo {
            path: s[j].path,
            data: PreloadImage::Loaded(LoadedImageAndThumb { image, thumb }),
            metadata: s[j].metadata,
        },
    )
}

/// `s` with entry `j` marked as failed.
pub open spec fn failed_applied(s: Seq<ImageInfo>, j: int) -> Seq<ImageInfo> {
    s.update(
        j,
        ImageInfo { path: s[j].path, data: PreloadImage::Failed, metadata: s[j].metadata },
    )
}

/// Entry `k` is the first entry of `ps` equal to `p`.
pub open spec fn first_str_match(ps: Seq<String>, p: Seq<char>, k: int) -> bool {
    &&& 0 <= k < ps.len()
    &&& ps[k]@ == p
    &&& forall|m: int| 0 <= m < k ==> (#[trigger] ps[m])@ != p
}

/// The tag of the first entry of `s` whose path is `p`, if any.
pub open spec fn spec_tag_of(s: Seq<ImageInfo>, p: Seq<char>) -> Option<Tag>
    decreases s.len(),
{
    if s.len() == 0 {
        None
    } else if s[0].path@ == p {
        s[0].metadata.tag
    } else {
        spec_tag_of(s.drop_first(), p)
    }
}

pub proof fn lemma_spec_tag_of_match(s: Seq<ImageInfo>, p: Seq<char>, j: int)
    requires
        first_path_match(s, p, j),
    ensures
        spec_tag_of(s, p) == s[j].metadata.tag,
    decreases s.len(),
{
    if j > 0 {
        assert(first_path_match(s.drop_first(), p, j - 1));
        lemma_spec_tag_of_match(s.drop_first(), p, j - 1);
    }
}

pub proof fn lemma_spec_tag_of_absent(s: Seq<ImageInfo>, p: Seq<char>)
    requires
        forall|k: int| 0 <= k < s.len() ==> (#[trigger] s[k]).path@ != p,
    ensures
        spec_tag_of(s, p) is None,
    decreases s.len(),
{
    if s.len() > 0 {
        lemma_spec_tag_of_absent(s.drop_first(), p);
    }
}

/// A list that contains `p` somewhere contains a first occurrence of `p`.
pub proof fn lemma_first_str_match_exists(ps: Seq<String>, p: Seq<char>)
    requires
        exists|k: int| 0 <= k < ps.len() && (#[trigger] ps[k])@ == p,
    ensures
        exists|k: int| first_str_match(ps, p, k),
    decreases ps.len(),
{
    let k0 = choose|k: int| 0 <= k < ps.len() && (#[trigger] ps[k])@ == p;
    if ps[0]@ == p {
        assert(first_str_match(ps, p, 0));
    } else {
        assert(0 <= k0 - 1 < ps.drop_first().len() && ps.drop_first()[k0 - 1]@ == p);
        lemma_first_str_match_exists(ps.drop_first(), p);
        let k1 = choose|k: int| first_str_match(ps.drop_first(), p, k);
        assert(ps[k1 + 1]@ == ps.drop_first()[k1]@);
        assert forall|m: int| 0 <= m < k1 + 1 implies (#[trigger] ps[m])@ != p by {
            if m > 0 {
                assert(ps.drop_first()[m - 1]@ != p);
            }
        };
        assert(first_str_match(ps, p, k1 + 1));
    }
}

/// Tag preservation across refresh: if the rebuilt list carries, for each of
/// the new paths, the tag that the previous list held under that path, then
/// any path present in the new listing keeps its previous tag.
pub proof fn lemma_rebuild_preserves_tag(
    prev: Seq<ImageInfo>,
    rebuilt: Seq<ImageInfo>,
    ps: Seq<String>,
    p: Seq<char>,
)
    requires
        rebuilt.len() == ps.len(),
        forall|i: int| 0 <= i < rebuilt.len() ==> (#[trigger] rebuilt[i]).path@ == ps[i]@,
        forall|i: int|
            0 <= i < rebuilt.len() ==> (#[trigger] rebuilt[i]).metadata.tag == spec_tag_of(
                prev,
                ps[i]@,
            ),
        exists|k: int| 0 <= k < ps.len() && (#[trigger] ps[k])@ == p,
    ensures
        spec_tag_of(rebuilt, p) == spec_tag_of(prev, p),
{
    lemma_first_str_match_exists(ps, p);
    let k = choose|k: int| first_str_match(ps, p, k);
    assert(first_path_match(rebuilt, p, k));
    lemma_spec_tag_of_match(rebuilt, p, k);
}

/// How one round of chained prefetching relates the list before (`pre`) and
/// after (`post`): the first candidate in interleaved scan order, if any, is
/// marked as loading and its path returned; otherwise nothing changes.
pub open spec fn schedule_rel(
    pre: Seq<ImageInfo>,
    post: Seq<ImageInfo>,
    r: Option<String>,
    curr: int,
    back: int,
    front: int,
) -> bool {
    if exists|i: int| preload_candidate(pre, curr, back, front, i) {
        exists|i: int|
            {
                &&& #[trigger] first_candidate(pre, curr, back, front, i)
                &&& r == Some(pre[i].path)
                &&& post == marked_loading(pre, i)
            }
    } else {
        r is None && post == pre
    }
}

/// `post` differs from `pre` only by entries that moved from `NotLoading` to
/// `Loading`; paths and tags are untouched. In particular no entry leaves the
/// `Loaded` state.
pub open spec fn only_marks_loading(pre: Seq<ImageInfo>, post: Seq<ImageInfo>) -> bool {
    &&& post.len() == pre.len()
    &&& forall|i: int|
        0 <= i < pre.len() ==> {
            &&& (#[trigger] post[i]).path == pre[i].path
            &&& post[i].metadata == pre[i].metadata
            &&& (post[i].data == pre[i].data || (pre[i].data is NotLoading
                && post[i].data is Loading))
        }
}

/// Monotone load states: a navigation or scheduling step — anything related
/// by `only_marks_loading` — leaves every `Loaded` entry exactly as it was;
/// only a rebuild resets entries.
pub proof fn lemma_loaded_entries_survive(pre: Seq<ImageInfo>, post: Seq<ImageInfo>, i: int)
    requires
        only_marks_loading(pre, post),
        0 <= i < pre.len(),
        pre[i].data is Loaded,
    ensures
        post[i] == pre[i],
{
}

// ---------------------------------------------------------------------------
// The windowed list
// ---------------------------------------------------------------------------
/// The ordered list of entries, the current position and the prefetch-window
/// parameters.
#[derive(Debug)]
pub struct PathList {
    pub paths: Vec<ImageInfo>,
    pub index: usize,
    pub preload_back_num: usize,
    pub preload_front_num: usize,
}

/// Diagnostic totals of the entries by load state.
pub struct ImageStateCounts {
    pub loaded: usize,
    pub loading: usize,
    pub not_loading: usize,
    pub failed: usize,
}

impl PathList {
    /// The current position is a valid index whenever the list is non-empty.
    pub open spec fn wf(self) -> bool {
        if self.paths@.len() == 0 {
            self.index == 0
        } else {
            self.index < self.paths@.len()
        }
    }

    pub fn new(paths: Vec<String>, preload_back_num: usize, preload_front_num: usize) -> (r: Self)
        ensures
            r.wf(),
            r.index == 0,
            r.preload_back_num == preload_back_num,
            r.preload_front_num == preload_front_num,
            r.paths@.len() == paths@.len(),
            forall|i: int|
                0 <= i < paths@.len() ==> {
                    &&& (#[trigger] r.paths@[i]).path@ == paths@[i]@
                    &&& r.paths@[i].data is NotLoading
                    &&& r.paths@[i].metadata.tag is None
                },
    {
        let mut infos: Vec<ImageInfo> = Vec::new();
        let mut i: usize = 0;
        while i < paths.len()
            invariant
                i <= paths@.len(),
                infos@.len() == i,
                forall|k: int|
                    0 <= k < i ==> {
                        &&& (#[trigger] infos@[k]).path@ == paths@[k]@
                        &&& infos@[k].data is NotLoading
                        &&& infos@[k].metadata.tag is None
                    },
            decreases paths@.len() - i,
        {
            let p = paths[i].clone();
            infos.push(
                ImageInfo { path: p, data: PreloadImage::NotLoading, metadata: Metadata { tag: None } },
            );
            i = i + 1;
        }
        PathList { paths: infos, index: 0, preload_back_num, preload_front_num }
    }

    pub fn get_counts(&self) -> (r: ImageStateCounts)
        ensures
            r.loaded == count_loaded(self.paths@),
            r.loading == count_loading(self.paths@),
            r.not_loading == count_not_loading(self.paths@),
            r.failed == count_failed(self.paths@),
            r.loaded + r.loading + r.not_loading + r.failed == self.paths@.len(),
    {
        let mut loaded: usize = 0;
        let mut loading: usize = 0;
        let mut not_loading: usize = 0;
        let mut failed: usize = 0;
        let mut i: usize = 0;
        while i < self.paths.len()
            invariant
                i <= self.paths@.len(),
                loaded == count_to(self.paths@, |e: ImageInfo| e.data is Loaded, i as int),
                loading == count_loading_to(self.paths@, i as int),
                not_loading == count_to(self.paths@, |e: ImageInfo| e.data is NotLoading, i as int),
                failed == count_to(self.paths@, |e: ImageInfo| e.data is Failed, i as int),
                loaded + loading + not_loading + failed == i,
            decreases self.paths@.len() - i,
        {
            match self.paths[i].data {
                PreloadImage::Loaded(_) => {
                    loaded = loaded + 1;
                },
                PreloadImage::Loading(_) => {
                    loading = loading + 1;
                },
                PreloadImage::NotLoading => {
                    not_loading = not_loading + 1;
                },
                PreloadImage::Failed => {
                    failed = failed + 1;
                },
            }
            i = i + 1;
        }
        ImageStateCounts { loaded, loading, not_loading, failed }
    }

    /// Number of entries currently in flight; used to enforce the in-flight cap.
    fn count_loading_now(&self) -> (r: usize)
        ensures
            r == count_loading(self.paths@),
    {
        let mut loading: usize = 0;
        let mut i: usize = 0;
        while i < self.paths.len()
            invariant
                i <= self.paths@.len(),
                loading <= i,
                loading == count_loading_to(self.paths@, i as int),
            decreases self.paths@.len() - i,
        {
            match self.paths[i].data {
                PreloadImage::Loading(_) => {
                    loading = loading + 1;
                },
                _ => {},
            }
            i = i + 1;
        }
        loading
    }

    /// Marks up to `PRELOAD_IN_FLIGHT` entries around the current position as
    /// loading and returns their paths, biased forward: the range starts at
    /// most `min(preload_back_num, PRELOAD_IN_FLIGHT / 2)` entries back.
    pub fn get_initial_preload_images(&mut self) -> (r: Vec<String>)
        requires
            old(self).wf(),
            forall|i: int|
                0 <= i < old(self).paths@.len() ==> (#[trigger] old(self).paths@[i]).data
                    is NotLoading,
        ensures
            final(self).wf(),
            final(self).index == old(self).index,
            final(self).preload_back_num == old(self).preload_back_num,
            final(self).preload_front_num == old(self).preload_front_num,
            final(self).paths@.len() == old(self).paths@.len(),
            only_marks_loading(old(self).paths@, final(self).paths@),
            ({
                let from = initial_from(old(self).index as int, old(self).preload_back_num as int);
                let to = initial_to(
                    from,
                    old(self).index as int,
                    old(self).preload_front_num as int,
                    old(self).paths@.len() as int,
                );
                &&& r@.len() == to - from
                &&& forall|k: int|
                    0 <= k < to - from ==> r@[k] == (#[trigger] old(self).paths@[from + k]).path
                &&& forall|i: int|
                    from <= i < to ==> (#[trigger] final(self).paths@[i]) == (ImageInfo {
                        path: old(self).paths@[i].path,
                        data: PreloadImage::Loading(old(self).paths@[i].path),
                        metadata: old(self).paths@[i].metadata,
                    })
                &&& forall|i: int|
                    0 <= i < old(self).paths@.len() && !(from <= i < to)
                        ==> (#[trigger] final(self).paths@[i]) == old(self).paths@[i]
                &&& count_loading(final(self).paths@) == to - from
                &&& count_loading(final(self).paths@) <= PRELOAD_IN_FLIGHT
            }),
    {
        let len = self.paths.len();
        let half = PRELOAD_IN_FLIGHT / 2;
        let b = if self.preload_back_num < half {
            self.preload_back_num
        } else {
            half
        };
        let from = if self.index >= b {
            self.index - b
        } else {
            0
        };
        let mut to = len;
        if self.preload_front_num <= usize::MAX - self.index - 1 {
            let cand = self.index + self.preload_front_num + 1;
            if cand < to {
                to = cand;
            }
        }
        if PRELOAD_IN_FLIGHT <= usize::MAX - from {
            let cand = from + PRELOAD_IN_FLIGHT;
            if cand < to {
                to = cand;
            }
        }
        assert(from == initial_from(old(self).index as int, old(self).preload_back_num as int));
        assert(to == initial_to(
            from as int,
            old(self).index as int,
            old(self).preload_front_num as int,
            len as int,
        ));
        proof {
            lemma_count_to_zero_segment(
                self.paths@,
                |e: ImageInfo| e.data is Loading,
                0,
                from as int,
            );
        }
        let mut out: Vec<String> = Vec::new();
        let mut i: usize = from;
        while i < to
            invariant
                from <= i <= to,
                to <= self.paths@.len(),
                self.paths@.len() == old(self).paths@.len(),
                self.index == old(self).index,
                self.preload_back_num == old(self).preload_back_num,
                self.preload_front_num == old(self).preload_front_num,
                forall|i0: int|
                    0 <= i0 < old(self).paths@.len() ==> (#[trigger] old(self).paths@[i0]).data
                        is NotLoading,
                out@.len() == i - from,
                forall|k: int|
                    0 <= k < i - from ==> out@[k] == (#[trigger] old(self).paths@[from + k]).path,
                forall|j: int|
                    from <= j < i ==> (#[trigger] self.paths@[j]) == (ImageInfo {
                        path: old(self).paths@[j].path,
                        data: PreloadImage::Loading(old(self).paths@[j].path),
                        metadata: old(self).paths@[j].metadata,
                    }),
                forall|j: int|
                    0 <= j < old(self).paths@.len() && !(from <= j < i) ==> (#[trigger] self
                        .paths@[j]) == old(self).paths@[j],
                count_loading_to(self.paths@, i as int) == i - from,
            decreases to - i,
        {
            let ghost s_pre = self.paths@;
            let p = self.paths[i].path.clone();
            self.paths[i].data = PreloadImage::Loading(p.clone());
            out.push(p);
            proof {
                lemma_count_to_update(
                    s_pre,
                    |e: ImageInfo| e.data is Loading,
                    i as int,
                    self.paths@[i as int],
                    i as int,
                );
            }
            i = i + 1;
        }
        proof {
            lemma_count_to_zero_segment(
                self.paths@,
                |e: ImageInfo| e.data is Loading,
                to as int,
                self.paths@.len() as int,
            );
        }
        out
    }

    /// Advances the current position by one. Issues at most one new load:
    /// the first not-yet-requested entry of the forward window, and only if
    /// the in-flight cap is not yet reached.
    pub fn step_right(&mut self, config: &Config) -> (r: Option<String>)
        requires
            old(self).wf(),
        ensures
            final(self).wf(),
            final(self).preload_back_num == old(self).preload_back_num,
            final(self).preload_front_num == old(self).preload_front_num,
            only_marks_loading(old(self).paths@, final(self).paths@),
            old(self).paths@.len() == 0 || old(self).index == old(self).paths@.len() - 1
                ==> *final(self) == *old(self) && r is None,
            old(self).paths@.len() > 0 && old(self).index < old(self).paths@.len() - 1 ==> {
                let curr = old(self).index + 1;
                let end = min_int(
                    curr + config.preload_front_num,
                    old(self).paths@.len() as int - 1,
                ) + 1;
                &&& final(self).index == curr
                &&& count_loading(old(self).paths@) >= PRELOAD_IN_FLIGHT
                    ==> r is None && final(self).paths@ == old(self).paths@
                &&& count_loading(old(self).paths@) < PRELOAD_IN_FLIGHT ==> {
                    if exists|i: int| forward_first(old(self).paths@, curr, end, i) {
                        exists|i: int|
                            {
                                &&& #[trigger] forward_first(old(self).paths@, curr, end, i)
                                &&& r == Some(old(self).paths@[i].path)
                                &&& final(self).paths@ == marked_loading(old(self).paths@, i)
                            }
                    } else {
                        r is None && final(self).paths@ == old(self).paths@
                    }
                }
            },
            count_loading(final(self).paths@) <= count_loading(old(self).paths@) + 1,
            count_loading(old(self).paths@) <= PRELOAD_IN_FLIGHT
                ==> count_loading(final(self).paths@) <= PRELOAD_IN_FLIGHT,
    {
        if self.paths.len() == 0 {
            return None;
        }
        if self.index == self.paths.len() - 1 {
            return None;
        }
        self.index = self.index + 1;
        let c = self.count_loading_now();
        if c >= PRELOAD_IN_FLIGHT {
            return None;
        }
        self.preload_next_right(config)
    }

    /// Issues the first not-yet-requested entry of `[index, index + front]`,
    /// clamped to the list bounds.
    fn preload_next_right(&mut self, config: &Config) -> (r: Option<String>)
        requires
            old(self).wf(),
            old(self).paths@.len() > 0,
        ensures
            final(self).wf(),
            final(self).index == old(self).index,
            final(self).preload_back_num == old(self).preload_back_num,
            final(self).preload_front_num == old(self).preload_front_num,
            only_marks_loading(old(self).paths@, final(self).paths@),
            ({
                let curr = old(self).index as int;
                let end = min_int(
                    curr + config.preload_front_num,
                    old(self).paths@.len() as int - 1,
                ) + 1;
                if exists|i: int| forward_first(old(self).paths@, curr, end, i) {
                    exists|i: int|
                        {
                            &&& #[trigger] forward_first(old(self).paths@, curr, end, i)
                            &&& r == Some(old(self).paths@[i].path)
                            &&& final(self).paths@ == marked_loading(old(self).paths@, i)
                        }
                } else {
                    r is None && final(self).paths@ == old(self).paths@
                }
            }),
            count_loading(final(self).paths@) <= count_loading(old(self).paths@) + 1,
    {
        let len = self.paths.len();
        let curr = self.index;
        let end = if config.preload_front_num >= len - 1 - curr {
            len
        } else {
            curr + config.preload_front_num + 1
        };
        assert(end == min_int(
            curr + config.preload_front_num,
            self.paths@.len() as int - 1,
        ) + 1);
        let mut i: usize = curr;
        while i < end
            invariant
                curr <= i <= end <= self.paths@.len(),
                *self == *old(self),
                old(self).wf(),
                old(self).paths@.len() > 0,
                curr == old(self).index,
                end == min_int(
                    curr + config.preload_front_num,
                    old(self).paths@.len() as int - 1,
                ) + 1,
                forall|j: int| curr <= j < i ==> !((#[trigger] self.paths@[j]).data is NotLoading),
            decreases end - i,
        {
            let is_cold = matches!(self.paths[i].data, PreloadImage::NotLoading);
            if is_cold {
                let ghost s_pre = self.paths@;
                let p = self.paths[i].path.clone();
                self.paths[i].data = PreloadImage::Loading(p.clone());
                proof {
                    assert(forward_first(s_pre, curr as int, end as int, i as int));
                    assert(self.paths@ == marked_loading(s_pre, i as int));
                    lemma_count_to_update(
                        s_pre,
                        |e: ImageInfo| e.data is Loading,
                        i as int,
                        self.paths@[i as int],
                        s_pre.len() as int,
                    );
                }
                return Some(p);
            }
            i = i + 1;
        }
        None
    }

    /// Moves the current position back by one. Issues at most one new load:
    /// the entry `preload_back_num` places behind the new position, if it is
    /// in bounds, cold, and the in-flight cap is not yet reached.
    pub fn step_left(&mut self, config: &Config) -> (r: Option<String>)
        requires
            old(self).wf(),
        ensures
            final(self).wf(),
            final(self).preload_back_num == old(self).preload_back_num,
            final(self).preload_front_num == old(self).preload_front_num,
            only_marks_loading(old(self).paths@, final(self).paths@),
            old(self).paths@.len() == 0 || old(self).index == 0 ==> *final(self) == *old(self)
                && r is None,
            old(self).paths@.len() > 0 && old(self).index > 0 ==> {
                let curr = old(self).index - 1;
                let back = config.preload_back_num as int;
                &&& final(self).index == curr
                &&& count_loading(old(self).paths@) >= PRELOAD_IN_FLIGHT
                    ==> r is None && final(self).paths@ == old(self).paths@
                &&& count_loading(old(self).paths@) < PRELOAD_IN_FLIGHT ==> {
                    if curr >= back && old(self).paths@[curr - back].data is NotLoading {
                        &&& r == Some(old(self).paths@[curr - back].path)
                        &&& final(self).paths@ == marked_loading(old(self).paths@, curr - back)
                    } else {
                        r is None && final(self).paths@ == old(self).paths@
                    }
                }
            },
            count_loading(final(self).paths@) <= count_loading(old(self).paths@) + 1,
            count_loading(old(self).paths@) <= PRELOAD_IN_FLIGHT
                ==> count_loading(final(self).paths@) <= PRELOAD_IN_FLIGHT,
    {
        if self.paths.len() == 0 {
            return None;
        }
        if self.index == 0 {
            return None;
        }
        self.index = self.index - 1;
        let c = self.count_loading_now();
        if c >= PRELOAD_IN_FLIGHT {
            return None;
        }
        if self.index >= config.preload_back_num {
            let j = self.index - config.preload_back_num;
            let is_cold = matches!(self.paths[j].data, PreloadImage::NotLoading);
            if is_cold {
                let ghost s_pre = self.paths@;
                let p = self.paths[j].path.clone();
                self.paths[j].data = PreloadImage::Loading(p.clone());
                proof {
                    assert(self.paths@ == marked_loading(s_pre, j as int));
                    lemma_count_to_update(
                        s_pre,
                        |e: ImageInfo| e.data is Loading,
                        j as int,
                        self.paths@[j as int],
                        s_pre.len() as int,
                    );
                }
                return Some(p);
            }
        }
        None
    }

    pub fn prev(&self) -> (r: Option<&ImageInfo>)
        requires
            self.wf(),
        ensures
            self.index == 0 ==> r is None,
            self.index > 0 ==> (r matches Some(e) && *e == self.paths@[self.index - 1]),
    {
        if self.index == 0 {
            None
        } else {
            Some(&self.paths[self.index - 1])
        }
    }

    pub fn current(&self) -> (r: &ImageInfo)
        requires
            self.wf(),
            self.paths@.len() > 0,
        ensures
            *r == self.paths@[self.index as int],
    {
        &self.paths[self.index]
    }

    pub fn next(&self) -> (r: Option<&ImageInfo>)
        requires
            self.wf(),
        ensures
            self.index + 1 < self.paths@.len() ==> (r matches Some(e) && *e == self.paths@[
                self.index + 1
            ]),
            self.index + 1 >= self.paths@.len() ==> r is None,
    {
        let len = self.paths.len();
        if len > 0 && self.index < len - 1 {
            Some(&self.paths[self.index + 1])
        } else {
            None
        }
    }

    pub fn current_mut(&mut self) -> (r: &mut ImageInfo)
        requires
            old(self).wf(),
            old(self).paths@.len() > 0,
        ensures
            *r == old(self).paths@[old(self).index as int],
            final(self).paths@ == old(self).paths@.update(old(self).index as int, *final(r)),
            final(self).index == old(self).index,
            final(self).preload_back_num == old(self).preload_back_num,
            final(self).preload_front_num == old(self).preload_front_num,
    {
        &mut self.paths[self.index]
    }

    /// The tag of the entry at `path`, or `None` when the path is unknown or
    /// untagged.
    pub fn tag_of(&self, path: &str) -> (r: Option<Tag>)
        ensures
            r == spec_tag_of(self.paths@, path@),
    {
        let owned: String = path.to_owned();
        let len = self.paths.len();
        let mut j: usize = 0;
        while j < len
            invariant
                j <= len,
                len == self.paths@.len(),
                owned@ == path@,
                forall|k: int| 0 <= k < j ==> (#[trigger] self.paths@[k]).path@ != path@,
            decreases len - j,
        {
            if self.paths[j].path == owned {
                proof {
                    assert(first_path_match(self.paths@, path@, j as int));
                    lemma_spec_tag_of_match(self.paths@, path@, j as int);
                }
                return self.paths[j].metadata.tag;
            }
            j = j + 1;
        }
        proof {
            lemma_spec_tag_of_absent(self.paths@, path@);
        }
        None
    }

    /// Integrates a finished decode: the first entry at `path` (if any — a
    /// stale completion finds none and changes nothing) becomes `Loaded`, and
    /// one round of chained prefetching follows.
    pub fn image_preload_complete(
        &mut self,
        path: &str,
        image: ImageData,
        thumb: ImageData,
        config: &Config,
    ) -> (r: Option<String>)
        requires
            old(self).wf(),
        ensures
            final(self).wf(),
            final(self).index == old(self).index,
            final(self).preload_back_num == old(self).preload_back_num,
            final(self).preload_front_num == old(self).preload_front_num,
            final(self).paths@.len() == old(self).paths@.len(),
            forall|i: int|
                0 <= i < old(self).paths@.len() ==> {
                    &&& (#[trigger] final(self).paths@[i]).path == old(self).paths@[i].path
                    &&& final(self).paths@[i].metadata == old(self).paths@[i].metadata
                },
            forall|i: int|
                0 <= i < old(self).paths@.len() && (#[trigger] old(self).paths@[i]).data is Loaded
                    ==> final(self).paths@[i].data is Loaded,
            ({
                let curr = old(self).index as int;
                let back = config.preload_back_num as int;
                let front = config.preload_front_num as int;
                if exists|j: int| first_path_match(old(self).paths@, path@, j) {
                    exists|j: int|
                        {
                            &&& #[trigger] first_path_match(old(self).paths@, path@, j)
                            &&& schedule_rel(
                                loaded_applied(old(self).paths@, j, image, thumb),
                                final(self).paths@,
                                r,
                                curr,
                                back,
                                front,
                            )
                        }
                } else {
                    schedule_rel(
                        old(self).paths@,
                        final(self).paths@,
                        r,
                        curr,
                        back,
                        front,
                    )
                }
            }),
    {
        let owned: String = path.to_owned();
        let len = self.paths.len();
        let mut found: Option<usize> = None;
        let mut j: usize = 0;
        while j < len
            invariant_except_break
                found is None,
            invariant
                j <= len,
                len == self.paths@.len(),
                *self == *old(self),
                owned@ == path@,
                forall|k: int| 0 <= k < j ==> (#[trigger] self.paths@[k]).path@ != path@,
            ensures
                *self == *old(self),
                found matches Some(j0) ==> first_path_match(old(self).paths@, path@, j0 as int),
                found is None ==> forall|k: int|
                    0 <= k < old(self).paths@.len() ==> (#[trigger] old(
                        self,
                    ).paths@[k]).path@ != path@,
            decreases len - j,
        {
            if self.paths[j].path == owned {
                found = Some(j);
                break;
            }
            j = j + 1;
        }
        match found {
            Some(i) => {
                self.paths[i].data = PreloadImage::Loaded(LoadedImageAndThumb { image, thumb });
                proof {
                    assert(self.paths@ == loaded_applied(
                        old(self).paths@,
                        i as int,
                        image,
                        thumb,
                    ));
                }
            },
            None => {},
        }
        schedule_next_preload_image_after_one_finished(self, config)
    }

    /// Records a failed decode: the first entry at `path` (if any) becomes
    /// `Failed`. It no longer counts against the in-flight budget and is not
    /// retried.
    pub fn image_preload_failed(&mut self, path: &str)
        requires
            old(self).wf(),
        ensures
            final(self).wf(),
            final(self).index == old(self).index,
            final(self).preload_back_num == old(self).preload_back_num,
            final(self).preload_front_num == old(self).preload_front_num,
            ({
                if exists|j: int| first_path_match(old(self).paths@, path@, j) {
                    exists|j: int|
                        {
                            &&& #[trigger] first_path_match(old(self).paths@, path@, j)
                            &&& final(self).paths@ == failed_applied(old(self).paths@, j)
                        }
                } else {
                    final(self).paths@ == old(self).paths@
                }
            }),
    {
        let owned: String = path.to_owned();
        let len = self.paths.len();
        let mut j: usize = 0;
        while j < len
            invariant
                j <= len,
                len == self.paths@.len(),
                *self == *old(self),
                old(self).wf(),
                owned@ == path@,
                forall|k: int| 0 <= k < j ==> (#[trigger] self.paths@[k]).path@ != path@,
            decreases len - j,
        {
            if self.paths[j].path == owned {
                proof {
                    assert(first_path_match(self.paths@, path@, j as int));
                }
                self.paths[j].data = PreloadImage::Failed;
                return ;
            }
            j = j + 1;
        }
    }

    /// Builds a fresh list for a new directory listing: every entry starts
    /// cold, tags carry over by path, and the current position moves to the
    /// previously current path, or to the start when that path is gone.
    pub fn rebuild(&self, new_paths: Vec<String>) -> (r: PathList)
        requires
            self.wf(),
        ensures
            r.wf(),
            r.preload_back_num == self.preload_back_num,
            r.preload_front_num == self.preload_front_num,
            r.paths@.len() == new_paths@.len(),
            forall|i: int|
                0 <= i < new_paths@.len() ==> {
                    &&& (#[trigger] r.paths@[i]).path == new_paths@[i]
                    &&& r.paths@[i].data is NotLoading
                    &&& r.paths@[i].metadata.tag == spec_tag_of(self.paths@, new_paths@[i]@)
                },
            self.paths@.len() == 0 ==> r.index == 0,
            self.paths@.len() > 0 ==> {
                let cur = self.paths@[self.index as int].path@;
                if exists|k: int| 0 <= k < new_paths@.len() && (#[trigger] new_paths@[k])@ == cur {
                    first_str_match(new_paths@, cur, r.index as int)
                } else {
                    r.index == 0
                }
            },
    {
        let mut infos: Vec<ImageInfo> = Vec::new();
        let mut i: usize = 0;
        while i < new_paths.len()
            invariant
                i <= new_paths@.len(),
                infos@.len() == i,
                forall|k: int|
                    0 <= k < i ==> {
                        &&& (#[trigger] infos@[k]).path == new_paths@[k]
                        &&& infos@[k].data is NotLoading
                        &&& infos@[k].metadata.tag == spec_tag_of(self.paths@, new_paths@[k]@)
                    },
            decreases new_paths@.len() - i,
        {
            let p = new_paths[i].clone();
            let tag = self.tag_of(p.as_str());
            infos.push(
                ImageInfo { path: p, data: PreloadImage::NotLoading, metadata: Metadata { tag } },
            );
            i = i + 1;
        }
        let mut index: usize = 0;
        if self.paths.len() > 0 {
            let mut k: usize = 0;
            while k < new_paths.len()
                invariant_except_break
                    index == 0,
                invariant
                    k <= new_paths@.len(),
                    self.wf(),
                    self.paths@.len() > 0,
                    forall|m: int|
                        0 <= m < k ==> (#[trigger] new_paths@[m])@ != self.paths@[
                            self.index as int
                        ].path@,
                ensures
                    ({
                        let cur = self.paths@[self.index as int].path@;
                        if exists|k0: int|
                            0 <= k0 < new_paths@.len() && (#[trigger] new_paths@[k0])@ == cur {
                            first_str_match(new_paths@, cur, index as int)
                        } else {
                            index == 0
                        }
                    }),
                decreases new_paths@.len() - k,
            {
                if new_paths[k] == self.paths[self.index].path {
                    index = k;
                    proof {
                        assert(first_str_match(
                            new_paths@,
                            self.paths@[self.index as int].path@,
                            k as int,
                        ));
                    }
                    break;
                }
                k = k + 1;
            }
        }
        PathList {
            paths: infos,
            index,
            preload_back_num: self.preload_back_num,
            preload_front_num: self.preload_front_num,
        }
    }
}

/// Finds the first preload candidate in interleaved scan order: round `d`
/// probes `curr + d` first, then `curr - 1 - d`.
fn find_interleaved_candidate(paths: &Vec<ImageInfo>, curr: usize, back: usize, front: usize) -> (r:
    Option<usize>)
    requires
        curr < paths@.len(),
    ensures
        r matches Some(i) ==> first_candidate(
            paths@,
            curr as int,
            back as int,
            front as int,
            i as int,
        ),
        r is None ==> !(exists|i: int|
            preload_candidate(paths@, curr as int, back as int, front as int, i)),
{
    let len = paths.len();
    let mut d: usize = 0;
    let mut res: Option<usize> = None;
    while (d <= front && d < len - curr) || (d < back && d < curr)
        invariant_except_break
            res is None,
        invariant
            curr < len,
            len == paths@.len(),
            forall|j: int|
                curr <= j < len && j - curr < d ==> !(#[trigger] preload_candidate(
                    paths@,
                    curr as int,
                    back as int,
                    front as int,
                    j,
                )),
            forall|j: int|
                0 <= j < curr && curr - 1 - j < d ==> !(#[trigger] preload_candidate(
                    paths@,
                    curr as int,
                    back as int,
                    front as int,
                    j,
                )),
        ensures
            res matches Some(i) ==> first_candidate(
                paths@,
                curr as int,
                back as int,
                front as int,
                i as int,
            ),
            res is None ==> !((d <= front && d < len - curr) || (d < back && d < curr)),
        decreases front + back + 2 - d,
    {
        if d <= front && d < len - curr {
            let i = curr + d;
            if matches!(paths[i].data, PreloadImage::NotLoading) {
                res = Some(i);
                proof {
                    assert(preload_candidate(
                        paths@,
                        curr as int,
                        back as int,
                        front as int,
                        i as int,
                    ));
                    assert forall|j: int|
                        preload_candidate(
                            paths@,
                            curr as int,
                            back as int,
                            front as int,
                            j,
                        ) implies scan_rank(curr as int, i as int) <= scan_rank(
                        curr as int,
                        j,
                    ) by {};
                }
                break;
            }
        }
        if d < back && d < curr {
            let i = curr - 1 - d;
            if matches!(paths[i].data, PreloadImage::NotLoading) {
                res = Some(i);
                proof {
                    assert(preload_candidate(
                        paths@,
                        curr as int,
                        back as int,
                        front as int,
                        i as int,
                    ));
                    assert forall|j: int|
                        preload_candidate(
                            paths@,
                            curr as int,
                            back as int,
                            front as int,
                            j,
                        ) implies scan_rank(curr as int, i as int) <= scan_rank(
                        curr as int,
                        j,
                    ) by {};
                }
                break;
            }
        }
        d = d + 1;
    }
    proof {
        if res is None {
            assert forall|j: int|
                !preload_candidate(paths@, curr as int, back as int, front as int, j) by {
                if preload_candidate(paths@, curr as int, back as int, front as int, j) {
                    if j >= curr {
                        assert(j - curr < d);
                    } else {
                        assert(curr - 1 - j < d);
                    }
                }
            };
        }
    }
    res
}

/// One round of chained prefetching: marks and returns the first candidate
/// of the window in interleaved scan order, beginning at the current entry.
pub fn schedule_next_preload_image_after_one_finished(
    pathlist: &mut PathList,
    config: &Config,
) -> (r: Option<String>)
    requires
        old(pathlist).wf(),
    ensures
        final(pathlist).wf(),
        final(pathlist).index == old(pathlist).index,
        final(pathlist).preload_back_num == old(pathlist).preload_back_num,
        final(pathlist).preload_front_num == old(pathlist).preload_front_num,
        only_marks_loading(old(pathlist).paths@, final(pathlist).paths@),
        schedule_rel(
            old(pathlist).paths@,
            final(pathlist).paths@,
            r,
            old(pathlist).index as int,
            config.preload_back_num as int,
            config.preload_front_num as int,
        ),
        count_loading(final(pathlist).paths@) <= count_loading(old(pathlist).paths@) + 1,
{
    if pathlist.paths.len() == 0 {
        return None;
    }
    let found = find_interleaved_candidate(
        &pathlist.paths,
        pathlist.index,
        config.preload_back_num,
        config.preload_front_num,
    );
    match found {
        Some(i) => {
            let ghost s_pre = pathlist.paths@;
            let p = pathlist.paths[i].path.clone();
            pathlist.paths[i].data = PreloadImage::Loading(p.clone());
            proof {
                assert(pathlist.paths@ == marked_loading(s_pre, i as int));
                lemma_count_to_update(
                    s_pre,
                    |e: ImageInfo| e.data is Loading,
                    i as int,
                    pathlist.paths@[i as int],
                    s_pre.len() as int,
                );
            }
            Some(p)
        },
        None => None,
    }
}

pub fn is_loading(image: &ImageInfo) -> (r: bool)
    ensures
        r == (image.data is Loading),
{
    matches!(image.data, PreloadImage::Loading(_))
}

pub fn is_loaded(image: &ImageInfo) -> (r: bool)
    ensures
        r == (image.data is Loaded),
{
    matches!(image.data, PreloadImage::Loaded(_))
}

pub fn is_not_loading(image: &ImageInfo) -> (r: bool)
    ensures
        r == (image.data is NotLoading),
{
    matches!(image.data, PreloadImage::NotLoading)
}

} // verus!
