//! Scene assembly: star and playlist icons under each track, the track
//! pills and hitboxes, and the per-frame `create_scene` walk that ties
//! the layout engine, the interaction state and the particle system
//! together.

use crate::cache::StrMap;
use crate::config::{config_wf, Config, PANEL_EXTENSION, PANEL_START};
use crate::geom::{move_towards, moved_towards, rect_contains, Point, Rect};
use crate::interaction::{
    interaction_wf, DragTarget, IconHitbox, InteractionState, TrackHitbox,
};
use crate::render::{BackgroundPill, IconInstance, TrackRender};
use crate::state::{has_track, state_wf, CondensedPlaylist, PlaybackState, Track};
use crate::tdiv;
use crate::timeline::{
    advance_offset, drag_offset_ms, layout_entries_of, layout_tracks, playback_elapsed,
    spec_drag_offset, spec_elapsed, spec_smoothed, spec_target_ms, stack_past_tracks, stack_rec,
    sum_prefix_duration, QUEUE_LIMIT, TRACK_SPACING_MS,
};
use crate::{app_wf, CantusApp};
use vstd::prelude::*;
use vstd::string::StrSliceExecFns;

verus! {

/// Icon size on screen, in millipixels.
pub const ICON_SIZE: i64 = 20_000;

/// Lexicographic order on character sequences, by code point.
pub open spec fn chars_lt(a: Seq<char>, b: Seq<char>) -> bool
    decreases a.len(),
{
    if b.len() == 0 {
        false
    } else if a.len() == 0 {
        true
    } else if (a[0] as u32) < (b[0] as u32) {
        true
    } else if (a[0] as u32) > (b[0] as u32) {
        false
    } else {
        chars_lt(a.drop_first(), b.drop_first())
    }
}

/// Compare two strings lexicographically by code point.
pub fn str_lt(a: &String, b: &String) -> (r: bool)
    ensures
        r == chars_lt(a@, b@),
{
    let an: usize = a.as_str().unicode_len();
    let bn: usize = b.as_str().unicode_len();
    proof {
        assert(a@.skip(0) =~= a@);
        assert(b@.skip(0) =~= b@);
    }
    let mut i: usize = 0;
    while i < an && i < bn
        invariant
            an == a@.len(),
            bn == b@.len(),
            0 <= i <= an,
            i <= bn,
            chars_lt(a@, b@) == chars_lt(a@.skip(i as int), b@.skip(i as int)),
        decreases an - i,
    {
        let ca = a.as_str().get_char(i);
        let cb = b.as_str().get_char(i);
        proof {
            assert(a@.skip(i as int)[0] == a@[i as int]);
            assert(b@.skip(i as int)[0] == b@[i as int]);
            assert(a@.skip(i as int).drop_first() =~= a@.skip(i + 1));
            assert(b@.skip(i as int).drop_first() =~= b@.skip(i + 1));
        }
        if (ca as u32) < (cb as u32) {
            return true;
        }
        if (ca as u32) > (cb as u32) {
            return false;
        }
        i = i + 1;
    }
    proof {
        if i == an {
            assert(a@.skip(i as int).len() == 0);
        } else {
            assert(b@.skip(i as int).len() == 0);
        }
    }
    i >= an && i < bn
}

/// One icon under a track: a star slot or a playlist toggle.
#[derive(Clone, Copy)]
pub enum IconEntry {
    Star { index: u8 },
    Playlist { playlist_index: usize, contained: bool },
}

/// The names of the playlists, as views.
pub open spec fn playlist_names(playlists: Seq<CondensedPlaylist>) -> Seq<Seq<char>> {
    playlists.map_values(|p: CondensedPlaylist| p.name@)
}

/// Playlist-icon ordering: contained playlists first, then by name.
pub open spec fn pl_lt(names: Seq<Seq<char>>, x: (usize, bool), y: (usize, bool)) -> bool {
    (x.1 && !y.1) || (x.1 == y.1 && chars_lt(names[x.0 as int], names[y.0 as int]))
}

/// Stable sorted insert for playlist-icon entries.
pub open spec fn pl_insert(names: Seq<Seq<char>>, s: Seq<(usize, bool)>, x: (usize, bool)) -> Seq<
    (usize, bool),
>
    decreases s.len(),
{
    if s.len() == 0 {
        seq![x]
    } else if pl_lt(names, x, s[0]) {
        seq![x] + s
    } else {
        seq![s[0]] + pl_insert(names, s.drop_first(), x)
    }
}

/// Stable insertion sort of playlist-icon entries.
pub open spec fn pl_sort(names: Seq<Seq<char>>, s: Seq<(usize, bool)>) -> Seq<(usize, bool)>
    decreases s.len(),
{
    if s.len() == 0 {
        Seq::empty()
    } else {
        pl_insert(names, pl_sort(names, s.drop_last()), s.last())
    }
}

/// Inserting at the first position whose element the new one precedes is
/// the sorted insert.
proof fn lemma_pl_insert_at(
    names: Seq<Seq<char>>,
    s: Seq<(usize, bool)>,
    x: (usize, bool),
    p: int,
)
    requires
        0 <= p <= s.len(),
        forall|j: int| 0 <= j < p ==> !pl_lt(names, x, #[trigger] s[j]),
        p < s.len() ==> pl_lt(names, x, s[p]),
    ensures
        pl_insert(names, s, x) == s.subrange(0, p) + seq![x] + s.subrange(p, s.len() as int),
    decreases s.len(),
{
    if s.len() == 0 {
        assert(pl_insert(names, s, x) =~= s.subrange(0, p) + seq![x] + s.subrange(
            p,
            s.len() as int,
        ));
    } else if p == 0 {
        assert(pl_lt(names, x, s[0]));
        assert(pl_insert(names, s, x) =~= s.subrange(0, 0) + seq![x] + s.subrange(
            0,
            s.len() as int,
        ));
    } else {
        assert(!pl_lt(names, x, s[0]));
        assert forall|j: int| 0 <= j < p - 1 implies !pl_lt(
            names,
            x,
            #[trigger] s.drop_first()[j],
        ) by {
            assert(s.drop_first()[j] == s[j + 1]);
        }
        if p - 1 < s.drop_first().len() {
            assert(s.drop_first()[p - 1] == s[p]);
        }
        lemma_pl_insert_at(names, s.drop_first(), x, p - 1);
        assert(pl_insert(names, s, x) =~= s.subrange(0, p) + seq![x] + s.subrange(
            p,
            s.len() as int,
        ));
    }
}

/// Sorted insert grows the sequence by one.
proof fn lemma_pl_insert_len(names: Seq<Seq<char>>, s: Seq<(usize, bool)>, x: (usize, bool))
    ensures
        pl_insert(names, s, x).len() == s.len() + 1,
    decreases s.len(),
{
    if s.len() > 0 && !pl_lt(names, x, s[0]) {
        lemma_pl_insert_len(names, s.drop_first(), x);
    }
}

/// Sorting preserves length.
proof fn lemma_pl_sort_len(names: Seq<Seq<char>>, s: Seq<(usize, bool)>)
    ensures
        pl_sort(names, s).len() == s.len(),
    decreases s.len(),
{
    if s.len() > 0 {
        lemma_pl_sort_len(names, s.drop_last());
        lemma_pl_insert_len(names, pl_sort(names, s.drop_last()), s.last());
    }
}

/// Sort playlist-icon entries: contained first, then by name, stably.
pub fn sort_playlist_entries(playlists: &Vec<CondensedPlaylist>, items: Vec<(usize, bool)>) -> (r:
    Vec<(usize, bool)>)
    requires
        forall|k: int| 0 <= k < items@.len() ==> (#[trigger] items@[k]).0 < playlists@.len(),
    ensures
        r@ == pl_sort(playlist_names(playlists@), items@),
        r@.len() == items@.len(),
        forall|k: int| 0 <= k < r@.len() ==> (#[trigger] r@[k]).0 < playlists@.len(),
{
    proof {
        lemma_pl_sort_len(playlist_names(playlists@), items@);
    }
    let ghost names = playlist_names(playlists@);
    let mut r: Vec<(usize, bool)> = Vec::new();
    let mut i: usize = 0;
    while i < items.len()
        invariant
            forall|k: int| 0 <= k < items@.len() ==> (#[trigger] items@[k]).0 < playlists@.len(),
            names == playlist_names(playlists@),
            0 <= i <= items@.len(),
            r@ == pl_sort(names, items@.take(i as int)),
            forall|k: int| 0 <= k < r@.len() ==> (#[trigger] r@[k]).0 < playlists@.len(),
        decreases items@.len() - i,
    {
        let x = items[i];
        let mut p: usize = 0;
        let mut found: bool = false;
        while p < r.len() && !found
            invariant
                forall|k: int| 0 <= k < r@.len() ==> (#[trigger] r@[k]).0 < playlists@.len(),
                names == playlist_names(playlists@),
                x.0 < playlists@.len(),
                0 <= p <= r@.len(),
                forall|j: int| 0 <= j < p ==> !pl_lt(names, x, #[trigger] r@[j]),
                found ==> p < r@.len() && pl_lt(names, x, r@[p as int]),
            decreases r@.len() - p + (if found {
                0int
            } else {
                1int
            }),
        {
            let y = r[p];
            let before = (x.1 && !y.1) || (x.1 == y.1 && str_lt(
                &playlists[x.0].name,
                &playlists[y.0].name,
            ));
            proof {
                assert(names[x.0 as int] == playlists@[x.0 as int].name@);
                assert(names[y.0 as int] == playlists@[y.0 as int].name@);
            }
            if before {
                found = true;
            } else {
                p = p + 1;
            }
        }
        let ghost r_pre = r@;
        r.insert(p, x);
        proof {
            lemma_pl_insert_at(names, r_pre, x, p as int);
            assert(r@ =~= r_pre.subrange(0, p as int) + seq![x] + r_pre.subrange(
                p as int,
                r_pre.len() as int,
            ));
            assert(items@.take(i + 1).drop_last() =~= items@.take(i as int));
            assert(items@.take(i + 1).last() == items@[i as int]);
        }
        i = i + 1;
    }
    proof {
        assert(items@.take(items@.len() as int) =~= items@);
    }
    r
}

/// The playlist icons a track shows, in playlist order before sorting:
/// playlists without a rating slot that contain the track or are
/// revealed by hover.
pub open spec fn selected_playlists(
    playlists: Seq<CondensedPlaylist>,
    track_id: Seq<char>,
    hovered: bool,
    n: int,
) -> Seq<(usize, bool)>
    decreases n,
    when 0 <= n <= playlists.len()
{
    if n <= 0 {
        Seq::empty()
    } else {
        let rest = selected_playlists(playlists, track_id, hovered, n - 1);
        let p = playlists[n - 1];
        if p.rating_index is None {
            let contained = has_track(p, track_id);
            if contained || hovered {
                rest.push(((n - 1) as usize, contained))
            } else {
                rest
            }
        } else {
            rest
        }
    }
}

/// The rating (one past the slot's star pairs) the track currently
/// holds: one more than the rating slot of the first rating playlist
/// containing it, or zero.
pub open spec fn track_rating_of(
    playlists: Seq<CondensedPlaylist>,
    track_id: Seq<char>,
    n: int,
) -> u8
    decreases n,
    when 0 <= n <= playlists.len()
{
    if n <= 0 {
        0
    } else {
        let head = track_rating_of(playlists, track_id, n - 1);
        if head != 0 {
            head
        } else {
            let p = playlists[n - 1];
            if p.rating_index is Some && has_track(p, track_id) {
                (p.rating_index->0 + 1) as u8
            } else {
                0
            }
        }
    }
}

/// Find the track's current rating.
pub fn track_rating(playlists: &Vec<CondensedPlaylist>, track_id: &String) -> (r: u8)
    requires
        forall|k: int|
            0 <= k < playlists@.len() ==> crate::state::playlist_wf(#[trigger] playlists@[k]),
    ensures
        r == track_rating_of(playlists@, track_id@, playlists@.len() as int),
        r <= 10,
{
    let mut i: usize = 0;
    while i < playlists.len()
        invariant
            forall|k: int|
                0 <= k < playlists@.len() ==> crate::state::playlist_wf(#[trigger] playlists@[k]),
            0 <= i <= playlists@.len(),
            track_rating_of(playlists@, track_id@, i as int) == 0,
        decreases playlists@.len() - i,
    {
        let p = &playlists[i];
        let is_rating = p.rating_index.is_some();
        if is_rating && p.contains_track(track_id) {
            let idx: u8 = match p.rating_index {
                Some(r) => r,
                None => 0,
            };
            proof {
                lemma_track_rating_found(playlists@, track_id@, i as int, playlists@.len() as int);
            }
            return idx + 1;
        }
        i = i + 1;
    }
    0
}

/// Once a prefix scan finds the first rating playlist containing the
/// track, the whole scan reports its slot.
proof fn lemma_track_rating_found(
    playlists: Seq<CondensedPlaylist>,
    track_id: Seq<char>,
    i: int,
    n: int,
)
    requires
        0 <= i < n <= playlists.len(),
        track_rating_of(playlists, track_id, i) == 0,
        playlists[i].rating_index is Some,
        has_track(playlists[i], track_id),
        crate::state::playlist_wf(playlists[i]),
    ensures
        track_rating_of(playlists, track_id, n) == playlists[i].rating_index->0 + 1,
    decreases n,
{
    if n - 1 > i {
        lemma_track_rating_found(playlists, track_id, i, n - 1);
    }
}

/// The list of icons under a track: five stars when ratings are on, then
/// the selected playlists sorted contained-first by name; when the track
/// is too narrow for them all, hover-revealed playlists drop out.
pub open spec fn icon_entries_of(
    playlists: Seq<CondensedPlaylist>,
    track_id: Seq<char>,
    hovered: bool,
    width: i64,
    ratings_enabled: bool,
) -> Seq<IconEntry> {
    let stars: Seq<IconEntry> = if ratings_enabled {
        Seq::new(5, |i: int| IconEntry::Star { index: i as u8 })
    } else {
        Seq::empty()
    };
    let pls = pl_sort(
        playlist_names(playlists),
        selected_playlists(playlists, track_id, hovered, playlists.len() as int),
    ).map_values(
        |e: (usize, bool)| IconEntry::Playlist { playlist_index: e.0, contained: e.1 },
    );
    let all = stars + pls;
    if width < ICON_SIZE * all.len() {
        stars + pls.filter(|e: IconEntry| e matches IconEntry::Playlist { contained: true, .. })
    } else {
        all
    }
}

/// How many entries count for spacing: stars and contained playlists.
pub open spec fn spacing_count(entries: Seq<IconEntry>) -> int {
    entries.filter(
        |e: IconEntry| !(e matches IconEntry::Playlist { contained: false, .. }),
    ).len() as int
}

/// Horizontal center of icon `i` out of the track's entries.
pub open spec fn icon_origin_x(center_x: int, i: int, half2: int) -> int {
    center_x + (2 * i - half2) * 10_000
}

/// The hitbox of an icon at a given center.
pub open spec fn icon_rect(ox: int, cy: int) -> Rect {
    Rect {
        x0: (ox - 12_000) as i64,
        y0: (cy - 12_000) as i64,
        x1: (ox + 12_000) as i64,
        y1: (cy + 12_000) as i64,
    }
}


/// Ordering for icon draw order: farther from the pointer first.
pub open spec fn dist_lt(mx: int, x: (IconEntry, bool, i64), y: (IconEntry, bool, i64)) -> bool {
    abs_of(x.2 - mx) > abs_of(y.2 - mx)
}

/// Absolute value.
pub open spec fn abs_of(v: int) -> int {
    if v >= 0 {
        v
    } else {
        -v
    }
}

/// Stable sorted insert for icon draw order.
pub open spec fn dist_insert(
    mx: int,
    s: Seq<(IconEntry, bool, i64)>,
    x: (IconEntry, bool, i64),
) -> Seq<(IconEntry, bool, i64)>
    decreases s.len(),
{
    if s.len() == 0 {
        seq![x]
    } else if dist_lt(mx, x, s[0]) {
        seq![x] + s
    } else {
        seq![s[0]] + dist_insert(mx, s.drop_first(), x)
    }
}

/// Stable insertion sort for icon draw order: farthest first.
pub open spec fn dist_sort(mx: int, s: Seq<(IconEntry, bool, i64)>) -> Seq<(IconEntry, bool, i64)>
    decreases s.len(),
{
    if s.len() == 0 {
        Seq::empty()
    } else {
        dist_insert(mx, dist_sort(mx, s.drop_last()), s.last())
    }
}

/// Position-characterized insert for the draw-order sort.
proof fn lemma_dist_insert_at(
    mx: int,
    s: Seq<(IconEntry, bool, i64)>,
    x: (IconEntry, bool, i64),
    p: int,
)
    requires
        0 <= p <= s.len(),
        forall|j: int| 0 <= j < p ==> !dist_lt(mx, x, #[trigger] s[j]),
        p < s.len() ==> dist_lt(mx, x, s[p]),
    ensures
        dist_insert(mx, s, x) == s.subrange(0, p) + seq![x] + s.subrange(p, s.len() as int),
    decreases s.len(),
{
    if s.len() == 0 {
        assert(dist_insert(mx, s, x) =~= s.subrange(0, p) + seq![x] + s.subrange(
            p,
            s.len() as int,
        ));
    } else if p == 0 {
        assert(dist_insert(mx, s, x) =~= s.subrange(0, 0) + seq![x] + s.subrange(
            0,
            s.len() as int,
        ));
    } else {
        assert(!dist_lt(mx, x, s[0]));
        assert forall|j: int| 0 <= j < p - 1 implies !dist_lt(
            mx,
            x,
            #[trigger] s.drop_first()[j],
        ) by {
            assert(s.drop_first()[j] == s[j + 1]);
        }
        if p - 1 < s.drop_first().len() {
            assert(s.drop_first()[p - 1] == s[p]);
        }
        lemma_dist_insert_at(mx, s.drop_first(), x, p - 1);
        assert(dist_insert(mx, s, x) =~= s.subrange(0, p) + seq![x] + s.subrange(
            p,
            s.len() as int,
        ));
    }
}

/// Sort icon draw data by descending distance from the pointer.
fn sort_by_distance(mx: i64, items: Vec<(IconEntry, bool, i64)>) -> (r: Vec<
    (IconEntry, bool, i64),
>)
    requires
        -2_000_000_000_000i64 <= mx <= 2_000_000_000_000i64,
        forall|k: int|
            0 <= k < items@.len() ==> -2_000_000_000_000i64 <= (#[trigger] items@[k]).2
                <= 2_000_000_000_000i64,
    ensures
        r@ == dist_sort(mx as int, items@),
        forall|k: int| 0 <= k < r@.len() ==> items@.contains(#[trigger] r@[k]),
{
    let mut r: Vec<(IconEntry, bool, i64)> = Vec::new();
    let mut i: usize = 0;
    while i < items.len()
        invariant
            -2_000_000_000_000i64 <= mx <= 2_000_000_000_000i64,
            forall|k: int|
                0 <= k < items@.len() ==> -2_000_000_000_000i64 <= (#[trigger] items@[k]).2
                    <= 2_000_000_000_000i64,
            0 <= i <= items@.len(),
            r@ == dist_sort(mx as int, items@.take(i as int)),
            forall|k: int| 0 <= k < r@.len() ==> items@.contains(#[trigger] r@[k]),
            forall|k: int|
                0 <= k < r@.len() ==> -2_000_000_000_000i64 <= (#[trigger] r@[k]).2
                    <= 2_000_000_000_000i64,
        decreases items@.len() - i,
    {
        let x = items[i];
        let dx: i64 = if x.2 >= mx {
            x.2 - mx
        } else {
            mx - x.2
        };
        let mut p: usize = 0;
        let mut found: bool = false;
        while p < r.len() && !found
            invariant
                -2_000_000_000_000i64 <= mx <= 2_000_000_000_000i64,
                -2_000_000_000_000i64 <= x.2 <= 2_000_000_000_000i64,
                dx == abs_of(x.2 - mx),
                forall|k: int|
                    0 <= k < r@.len() ==> -2_000_000_000_000i64 <= (#[trigger] r@[k]).2
                        <= 2_000_000_000_000i64,
                0 <= p <= r@.len(),
                forall|j: int| 0 <= j < p ==> !dist_lt(mx as int, x, #[trigger] r@[j]),
                found ==> p < r@.len() && dist_lt(mx as int, x, r@[p as int]),
            decreases r@.len() - p + (if found {
                0int
            } else {
                1int
            }),
        {
            let y = r[p];
            let dy: i64 = if y.2 >= mx {
                y.2 - mx
            } else {
                mx - y.2
            };
            if dx > dy {
                found = true;
            } else {
                p = p + 1;
            }
        }
        let ghost r_pre = r@;
        r.insert(p, x);
        proof {
            lemma_dist_insert_at(mx as int, r_pre, x, p as int);
            assert(r@ =~= r_pre.subrange(0, p as int) + seq![x] + r_pre.subrange(
                p as int,
                r_pre.len() as int,
            ));
            assert(items@.take(i + 1).drop_last() =~= items@.take(i as int));
            assert(items@.take(i + 1).last() == items@[i as int]);
            assert(items@.contains(items@[i as int]));
            assert forall|k: int| 0 <= k < r@.len() implies items@.contains(
                #[trigger] r@[k],
            ) by {
                if k < p {
                    assert(r@[k] == r_pre[k]);
                } else if k == p {
                    assert(r@[k] == x);
                } else {
                    assert(r@[k] == r_pre[k - 1]);
                }
            }
        }
        i = i + 1;
    }
    proof {
        assert(items@.take(items@.len() as int) =~= items@);
    }
    r
}

/// The hover-selected half-star rating after scanning the first `n`
/// icons: the last hovered star wins.
pub open spec fn hover_rating_of(
    entries: Seq<IconEntry>,
    center_x: int,
    cy: int,
    half2: int,
    mouse: Point,
    pressure: i64,
    n: int,
) -> Option<u8>
    decreases n,
    when 0 <= n <= entries.len()
{
    if n <= 0 {
        None
    } else {
        let ox = icon_origin_x(center_x, n - 1, half2);
        let hovered = rect_contains(icon_rect(ox, cy), mouse) && pressure > 0;
        let this: Option<u8> = match entries[n - 1] {
            IconEntry::Star { index } => {
                if hovered {
                    Some(
                        (index * 2 + 1 + (if mouse.x >= ox {
                            1int
                        } else {
                            0int
                        })) as u8,
                    )
                } else {
                    None
                }
            },
            IconEntry::Playlist { .. } => None,
        };
        if this is Some {
            this
        } else {
            hover_rating_of(entries, center_x, cy, half2, mouse, pressure, n - 1)
        }
    }
}

/// The icon fade alpha in millionths: full when hovered, otherwise
/// proportional to the spare width over a quarter of the needed width.
pub open spec fn icon_fade(hovered: bool, width: int, needed: int) -> int
    recommends
        needed > 0,
{
    if hovered {
        1_000_000
    } else if width <= needed {
        0
    } else if 4 * (width - needed) >= needed {
        1_000_000
    } else {
        tdiv((width - needed) * 4_000_000, needed)
    }
}

/// The packed 16-bit icon state value.
pub open spec fn icon_value(e: IconEntry, is_hovered: bool, full: int, has_half: bool) -> int {
    match e {
        IconEntry::Star { index } => {
            if index < full {
                65535
            } else if index == full && has_half {
                49151
            } else {
                33422
            }
        },
        IconEntry::Playlist { contained, .. } => {
            if !contained && !is_hovered {
                13107
            } else {
                0
            }
        },
    }
}

/// The icon instance drawn for one entry.
pub open spec fn icon_pill_of(
    playlists: Seq<CondensedPlaylist>,
    e: (IconEntry, bool, i64),
    cy: int,
    fade: int,
    full: int,
    has_half: bool,
) -> IconInstance {
    IconInstance {
        pos: Point { x: e.2, y: cy as i64 },
        data: (tdiv(fade * 65535, 1_000_000) * 65536 + icon_value(e.0, e.1, full, has_half)) as u32,
        image: match e.0 {
            IconEntry::Star { .. } => None,
            IconEntry::Playlist { playlist_index, .. } => playlists[playlist_index as int].image_url,
        },
    }
}

/// Build the icon entry list for a track.
pub fn build_icon_entries(
    playlists: &Vec<CondensedPlaylist>,
    track_id: &String,
    hovered: bool,
    width: i64,
    ratings_enabled: bool,
) -> (entries: Vec<IconEntry>)
    requires
        forall|k: int|
            0 <= k < playlists@.len() ==> crate::state::playlist_wf(#[trigger] playlists@[k]),
        playlists@.len() <= QUEUE_LIMIT,
    ensures
        entries@ == icon_entries_of(playlists@, track_id@, hovered, width, ratings_enabled),
        entries@.len() <= 5 + playlists@.len(),
        forall|k: int|
            0 <= k < entries@.len() ==> ((#[trigger] entries@[k]) matches IconEntry::Playlist {
                playlist_index,
                ..
            } ==> playlist_index < playlists@.len()),
        forall|k: int|
            0 <= k < entries@.len() ==> ((#[trigger] entries@[k]) matches IconEntry::Star { index }
                ==> index < 5),
{
    let mut entries: Vec<IconEntry> = Vec::new();
    if ratings_enabled {
        let mut si: u8 = 0;
        while si < 5
            invariant
                0 <= si <= 5,
                entries@.len() == si,
                forall|i: int|
                    0 <= i < si ==> #[trigger] entries@[i] == (IconEntry::Star { index: i as u8 }),
            decreases 5 - si,
        {
            entries.push(IconEntry::Star { index: si });
            si = si + 1;
        }
    }
    let ghost stars = entries@;
    proof {
        if ratings_enabled {
            assert(stars =~= Seq::new(5, |i: int| IconEntry::Star { index: i as u8 }));
        } else {
            assert(stars =~= Seq::<IconEntry>::empty());
        }
        assert(forall|k: int|
            0 <= k < stars.len() ==> (#[trigger] stars[k]) matches IconEntry::Star { .. });
    }

    let mut selected: Vec<(usize, bool)> = Vec::new();
    let mut pi: usize = 0;
    while pi < playlists.len()
        invariant
            forall|k: int|
                0 <= k < playlists@.len() ==> crate::state::playlist_wf(#[trigger] playlists@[k]),
            0 <= pi <= playlists@.len(),
            selected@ == selected_playlists(playlists@, track_id@, hovered, pi as int),
            selected@.len() <= pi,
            forall|k: int|
                0 <= k < selected@.len() ==> (#[trigger] selected@[k]).0 < playlists@.len(),
        decreases playlists@.len() - pi,
    {
        let p = &playlists[pi];
        if p.rating_index.is_none() {
            let contained = p.contains_track(track_id);
            if contained || hovered {
                selected.push((pi, contained));
            }
        }
        pi = pi + 1;
    }
    let sorted = sort_playlist_entries(playlists, selected);
    let mut k2: usize = 0;
    while k2 < sorted.len()
        invariant
            0 <= k2 <= sorted@.len(),
            forall|k: int| 0 <= k < sorted@.len() ==> (#[trigger] sorted@[k]).0 < playlists@.len(),
            forall|k: int|
                0 <= k < entries@.len() ==> ((#[trigger] entries@[k]) matches IconEntry::Playlist {
                    playlist_index,
                    ..
                } ==> playlist_index < playlists@.len()),
            forall|k: int|
                0 <= k < entries@.len() ==> ((#[trigger] entries@[k]) matches IconEntry::Star {
                    index,
                } ==> index < 5),
            forall|k: int|
                0 <= k < stars.len() ==> (#[trigger] stars[k]) matches IconEntry::Star { .. },
            entries@ == stars + sorted@.take(k2 as int).map_values(
                |e: (usize, bool)| IconEntry::Playlist { playlist_index: e.0, contained: e.1 },
            ),
        decreases sorted@.len() - k2,
    {
        let e = sorted[k2];
        entries.push(IconEntry::Playlist { playlist_index: e.0, contained: e.1 });
        proof {
            assert(sorted@.take(k2 + 1).map_values(
                |e: (usize, bool)| IconEntry::Playlist { playlist_index: e.0, contained: e.1 },
            ) =~= sorted@.take(k2 as int).map_values(
                |e: (usize, bool)| IconEntry::Playlist { playlist_index: e.0, contained: e.1 },
            ).push(IconEntry::Playlist { playlist_index: e.0, contained: e.1 }));
            assert(entries@ =~= stars + sorted@.take(k2 + 1).map_values(
                |e: (usize, bool)| IconEntry::Playlist { playlist_index: e.0, contained: e.1 },
            ));
        }
        k2 = k2 + 1;
    }
    proof {
        assert(sorted@.take(sorted@.len() as int) =~= sorted@);
    }
    let ghost pls_mapped = sorted@.map_values(
        |e: (usize, bool)| IconEntry::Playlist { playlist_index: e.0, contained: e.1 },
    );

    let narrow = width < ICON_SIZE * (entries.len() as i64);
    if narrow {
        let mut filtered: Vec<IconEntry> = Vec::new();
        let mut fi: usize = 0;
        while fi < entries.len()
            invariant
                0 <= fi <= entries@.len(),
                forall|k: int|
                    0 <= k < entries@.len() ==> ((#[trigger] entries@[k]) matches
                    IconEntry::Playlist { playlist_index, .. } ==> playlist_index
                        < playlists@.len()),
                forall|k: int|
                    0 <= k < entries@.len() ==> ((#[trigger] entries@[k]) matches IconEntry::Star {
                        index,
                    } ==> index < 5),
                forall|k: int|
                    0 <= k < filtered@.len() ==> ((#[trigger] filtered@[k]) matches
                    IconEntry::Playlist { playlist_index, .. } ==> playlist_index
                        < playlists@.len()),
                forall|k: int|
                    0 <= k < filtered@.len() ==> ((#[trigger] filtered@[k]) matches
                    IconEntry::Star { index } ==> index < 5),
                filtered@.len() <= fi,
                filtered@ == entries@.take(fi as int).filter(
                    |e: IconEntry| !(e matches IconEntry::Playlist { contained: false, .. }),
                ),
            decreases entries@.len() - fi,
        {
            let e = entries[fi];
            let keep = match e {
                IconEntry::Star { .. } => true,
                IconEntry::Playlist { contained, .. } => contained,
            };
            proof {
                assert(entries@.take(fi + 1).drop_last() =~= entries@.take(fi as int));
                assert(entries@.take(fi + 1).last() == entries@[fi as int]);
                reveal(Seq::filter);
            }
            if keep {
                filtered.push(e);
            }
            fi = fi + 1;
        }
        proof {
            assert(entries@.take(entries@.len() as int) =~= entries@);
            assert forall|i: int|
                0 <= i < pls_mapped.len() implies (#[trigger] pls_mapped[i]) matches
                IconEntry::Playlist { .. } by {}
            lemma_filter_split(stars, pls_mapped);
        }
        entries = filtered;
    }
    entries
}

/// Push the icon hitboxes in entry order, gathering per-icon hover
/// state, positions and the hovered half-star rating.
pub fn collect_icon_geometry(
    hitboxes: &mut Vec<IconHitbox>,
    entries: &Vec<IconEntry>,
    playlists: &Vec<CondensedPlaylist>,
    track_id: &String,
    center_x: i64,
    cy: i64,
    half2: i64,
    mouse: Point,
    pressure: i64,
) -> (r: (Vec<(IconEntry, bool, i64)>, Option<u8>))
    requires
        forall|k: int|
            0 <= k < old(hitboxes)@.len() ==> crate::interaction::icon_hitbox_wf(
                #[trigger] old(hitboxes)@[k],
            ),
        forall|k: int|
            0 <= k < entries@.len() ==> ((#[trigger] entries@[k]) matches IconEntry::Playlist {
                playlist_index,
                ..
            } ==> playlist_index < playlists@.len()),
        forall|k: int|
            0 <= k < entries@.len() ==> ((#[trigger] entries@[k]) matches IconEntry::Star { index }
                ==> index < 5),
        entries@.len() <= 20_000,
        -900_000_000_000i64 <= center_x <= 900_000_000_000i64,
        0 <= cy <= 20_000_000,
        0 <= half2 <= entries@.len(),
    ensures
        final(hitboxes)@.len() == old(hitboxes)@.len() + entries@.len(),
        forall|k: int|
            0 <= k < old(hitboxes)@.len() ==> #[trigger] final(hitboxes)@[k] == old(hitboxes)@[k],
        forall|k: int|
            0 <= k < final(hitboxes)@.len() ==> crate::interaction::icon_hitbox_wf(
                #[trigger] final(hitboxes)@[k],
            ),
        forall|i: int|
            0 <= i < entries@.len() ==> ({
                let h = #[trigger] final(hitboxes)@[old(hitboxes)@.len() + i];
                &&& h.rect == icon_rect(icon_origin_x(center_x as int, i, half2 as int), cy as int)
                &&& h.track_id@ == track_id@
                &&& (entries@[i] matches IconEntry::Star { index } ==> h.rating_index == Some(index)
                    && h.playlist_id is None)
                &&& (entries@[i] matches IconEntry::Playlist { playlist_index, .. }
                    ==> h.rating_index is None && (h.playlist_id matches Some(pid) && pid@
                    == playlists@[playlist_index as int].id@))
            }),
        r.0@ == Seq::new(
            entries@.len(),
            |k: int|
                (
                    entries@[k],
                    rect_contains(
                        icon_rect(icon_origin_x(center_x as int, k, half2 as int), cy as int),
                        mouse,
                    ) && pressure > 0,
                    icon_origin_x(center_x as int, k, half2 as int) as i64,
                ),
        ),
        r.1 == hover_rating_of(
            entries@,
            center_x as int,
            cy as int,
            half2 as int,
            mouse,
            pressure,
            entries@.len() as int,
        ),
        r.1 matches Some(h) ==> h <= 10,
        forall|k: int|
            0 <= k < r.0@.len() ==> -2_000_000_000_000i64 <= (#[trigger] r.0@[k]).2
                <= 2_000_000_000_000i64,
{
    let ghost hb0 = hitboxes@;
    let mut data: Vec<(IconEntry, bool, i64)> = Vec::new();
    let mut hover_rating: Option<u8> = None;
    let mut i: usize = 0;
    while i < entries.len()
        invariant
            forall|k: int|
                0 <= k < entries@.len() ==> ((#[trigger] entries@[k]) matches IconEntry::Playlist {
                    playlist_index,
                    ..
                } ==> playlist_index < playlists@.len()),
            forall|k: int|
                0 <= k < entries@.len() ==> ((#[trigger] entries@[k]) matches IconEntry::Star {
                    index,
                } ==> index < 5),
            entries@.len() <= 20_000,
            -900_000_000_000i64 <= center_x <= 900_000_000_000i64,
            0 <= cy <= 20_000_000,
            0 <= half2 <= entries@.len(),
            0 <= i <= entries@.len(),
            hitboxes@.len() == hb0.len() + i,
            forall|k: int| 0 <= k < hb0.len() ==> #[trigger] hitboxes@[k] == hb0[k],
            forall|k: int|
                0 <= k < hb0.len() ==> crate::interaction::icon_hitbox_wf(#[trigger] hb0[k]),
            forall|k: int|
                0 <= k < hitboxes@.len() ==> crate::interaction::icon_hitbox_wf(
                    #[trigger] hitboxes@[k],
                ),
            forall|k: int|
                0 <= k < i ==> ({
                    let h = #[trigger] hitboxes@[hb0.len() + k];
                    &&& h.rect == icon_rect(icon_origin_x(center_x as int, k, half2 as int), cy as int)
                    &&& h.track_id@ == track_id@
                    &&& (entries@[k] matches IconEntry::Star { index } ==> h.rating_index == Some(
                        index,
                    ) && h.playlist_id is None)
                    &&& (entries@[k] matches IconEntry::Playlist { playlist_index, .. }
                        ==> h.rating_index is None && (h.playlist_id matches Some(pid) && pid@
                        == playlists@[playlist_index as int].id@))
                }),
            data@ == Seq::new(
                i as nat,
                |k: int|
                    (
                        entries@[k],
                        rect_contains(
                            icon_rect(icon_origin_x(center_x as int, k, half2 as int), cy as int),
                            mouse,
                        ) && pressure > 0,
                        icon_origin_x(center_x as int, k, half2 as int) as i64,
                    ),
            ),
            forall|k: int|
                0 <= k < data@.len() ==> -2_000_000_000_000i64 <= (#[trigger] data@[k]).2
                    <= 2_000_000_000_000i64,
            hover_rating == hover_rating_of(
                entries@,
                center_x as int,
                cy as int,
                half2 as int,
                mouse,
                pressure,
                i as int,
            ),
            hover_rating matches Some(h) ==> h <= 10,
        decreases entries@.len() - i,
    {
        let e = entries[i];
        let ox: i64 = center_x + (2 * (i as i64) - half2) * 10_000;
        let rect = Rect { x0: ox - 12_000, y0: cy - 12_000, x1: ox + 12_000, y1: cy + 12_000 };
        let is_hovered = rect.contains(mouse) && pressure > 0;
        match e {
            IconEntry::Star { index } => {
                if is_hovered {
                    let bump: u8 = if mouse.x >= ox {
                        1
                    } else {
                        0
                    };
                    hover_rating = Some(index * 2 + 1 + bump);
                }
                hitboxes.push(
                    IconHitbox {
                        rect,
                        track_id: track_id.clone(),
                        playlist_id: None,
                        rating_index: Some(index),
                    },
                );
            },
            IconEntry::Playlist { playlist_index, .. } => {
                hitboxes.push(
                    IconHitbox {
                        rect,
                        track_id: track_id.clone(),
                        playlist_id: Some(playlists[playlist_index].id.clone()),
                        rating_index: None,
                    },
                );
            },
        }
        data.push((e, is_hovered, ox));
        proof {
            assert(data@ =~= Seq::new(
                (i + 1) as nat,
                |k: int|
                    (
                        entries@[k],
                        rect_contains(
                            icon_rect(icon_origin_x(center_x as int, k, half2 as int), cy as int),
                            mouse,
                        ) && pressure > 0,
                        icon_origin_x(center_x as int, k, half2 as int) as i64,
                    ),
            ));
        }
        i = i + 1;
    }
    (data, hover_rating)
}

/// Push the icon draw instances in the given order.
pub fn push_icon_pills(
    pills: &mut Vec<IconInstance>,
    sorted_data: &Vec<(IconEntry, bool, i64)>,
    playlists: &Vec<CondensedPlaylist>,
    cy: i64,
    fade: i64,
    display: i64,
)
    requires
        forall|k: int|
            0 <= k < sorted_data@.len() ==> ((#[trigger] sorted_data@[k]).0 matches
            IconEntry::Playlist { playlist_index, .. } ==> playlist_index < playlists@.len()),
        0 <= fade <= 1_000_000,
        0 <= display <= 10,
        0 <= cy <= 20_000_000,
    ensures
        final(pills)@ == old(pills)@ + sorted_data@.map_values(
            |e: (IconEntry, bool, i64)|
                icon_pill_of(
                    playlists@,
                    e,
                    cy as int,
                    fade as int,
                    tdiv(display as int, 2),
                    display % 2 == 1,
                ),
        ),
{
    let full: i64 = display / 2;
    let has_half = display % 2 == 1;
    let ghost sd = sorted_data@;
    let ghost pills0 = pills@;
    let mut di: usize = 0;
    while di < sorted_data.len()
        invariant
            sd == sorted_data@,
            pills0 == old(pills)@,
            forall|k: int|
                0 <= k < sd.len() ==> ((#[trigger] sd[k]).0 matches IconEntry::Playlist {
                    playlist_index,
                    ..
                } ==> playlist_index < playlists@.len()),
            0 <= fade <= 1_000_000,
            0 <= display <= 10,
            full == tdiv(display as int, 2),
            has_half == (display % 2 == 1),
            0 <= di <= sd.len(),
            0 <= cy <= 20_000_000,
            pills@ == pills0 + sd.take(di as int).map_values(
                |e: (IconEntry, bool, i64)|
                    icon_pill_of(playlists@, e, cy as int, fade as int, full as int, has_half),
            ),
        decreases sd.len() - di,
    {
        let e = sorted_data[di];
        let value: i64 = match e.0 {
            IconEntry::Star { index } => {
                if (index as i64) < full {
                    65535
                } else if (index as i64) == full && has_half {
                    49151
                } else {
                    33422
                }
            },
            IconEntry::Playlist { contained, .. } => {
                if !contained && !e.1 {
                    13107
                } else {
                    0
                }
            },
        };
        let alpha16: i64 = fade * 65535 / 1_000_000;
        let image: Option<String> = match e.0 {
            IconEntry::Star { .. } => None,
            IconEntry::Playlist { playlist_index, .. } => {
                match &playlists[playlist_index].image_url {
                    Some(u) => Some(u.clone()),
                    None => None,
                }
            },
        };
        pills.push(
            IconInstance { pos: Point { x: e.2, y: cy }, data: (alpha16 * 65536 + value) as u32, image },
        );
        proof {
            assert(pills@.last() == icon_pill_of(
                playlists@,
                sd[di as int],
                cy as int,
                fade as int,
                full as int,
                has_half,
            ));
            assert(sd.take(di + 1).drop_last() =~= sd.take(di as int));
            assert(sd.take(di + 1).last() == sd[di as int]);
            assert(pills@ =~= pills0 + sd.take(di + 1).map_values(
                |e2: (IconEntry, bool, i64)|
                    icon_pill_of(playlists@, e2, cy as int, fade as int, full as int, has_half),
            ));
        }
        di = di + 1;
    }
    proof {
        assert(sd.take(sd.len() as int) =~= sd);
    }
}

impl CantusApp {
    /// Lay out the star-rating and favourite-playlist icons under a
    /// track: push their hitboxes in entry order and their draw
    /// instances farthest-from-pointer first.
    #[verifier::rlimit(60)]
    pub fn draw_playlist_buttons(
        &mut self,
        track: &Track,
        hovered: bool,
        playlists: &Vec<CondensedPlaylist>,
        width: i64,
        pos_x: i64,
        cfg: &Config,
    )
        requires
            app_wf(*old(self)),
            config_wf(*cfg),
            forall|k: int|
                0 <= k < playlists@.len() ==> crate::state::playlist_wf(
                    #[trigger] playlists@[k],
                ),
            playlists@.len() <= QUEUE_LIMIT,
            -900_000_000_000i64 <= width <= 200_000_000_000i64,
            -400_000_000_000i64 <= pos_x <= 400_000_000_000i64,
        ensures
            app_wf(*final(self)),
            ({
                let entries = icon_entries_of(
                    playlists@,
                    track.id@,
                    hovered,
                    width,
                    cfg.ratings_enabled,
                );
                let center_x = pos_x + tdiv(width as int, 2);
                let cy = PANEL_START + tdiv(cfg.height as int * 975, 1000);
                let half2 = spacing_count(entries);
                let it = old(self).interaction;
                if entries.len() == 0 {
                    *final(self) == *old(self)
                } else {
                    let hover_rating = hover_rating_of(
                        entries,
                        center_x,
                        cy,
                        half2,
                        it.mouse_position,
                        it.mouse_pressure,
                        entries.len() as int,
                    );
                    let display: int = match hover_rating {
                        Some(h) => h as int,
                        None => (if cfg.ratings_enabled {
                            track_rating_of(playlists@, track.id@, playlists@.len() as int)
                        } else {
                            0u8
                        }) as int,
                    };
                    let fade = icon_fade(hovered, width as int, ICON_SIZE * entries.len());
                    let data = Seq::new(
                        entries.len(),
                        |i: int|
                            (
                                entries[i],
                                rect_contains(
                                    icon_rect(icon_origin_x(center_x, i, half2), cy),
                                    it.mouse_position,
                                ) && it.mouse_pressure > 0,
                                icon_origin_x(center_x, i, half2) as i64,
                            ),
                    );
                    &&& final(self).interaction == (InteractionState {
                        icon_hitboxes: final(self).interaction.icon_hitboxes,
                        ..it
                    })
                    &&& final(self).interaction.icon_hitboxes@.len() == it.icon_hitboxes@.len()
                        + entries.len()
                    &&& forall|i: int|
                        0 <= i < it.icon_hitboxes@.len()
                            ==> #[trigger] final(self).interaction.icon_hitboxes@[i]
                            == it.icon_hitboxes@[i]
                    &&& forall|i: int|
                        0 <= i < entries.len() ==> ({
                            let h = #[trigger] final(self).interaction.icon_hitboxes@[it.icon_hitboxes@.len() + i];
                            &&& h.rect == icon_rect(icon_origin_x(center_x, i, half2), cy)
                            &&& h.track_id@ == track.id@
                            &&& (entries[i] matches IconEntry::Star { index } ==> h.rating_index
                                == Some(index) && h.playlist_id is None)
                            &&& (entries[i] matches IconEntry::Playlist { playlist_index, .. }
                                ==> h.rating_index is None && (h.playlist_id matches Some(pid)
                                && pid@ == playlists@[playlist_index as int].id@))
                        })
                    &&& final(self).icon_pills@ == old(self).icon_pills@ + dist_sort(
                        it.mouse_position.x as int,
                        data,
                    ).map_values(
                        |e: (IconEntry, bool, i64)|
                            icon_pill_of(
                                playlists@,
                                e,
                                cy,
                                fade,
                                tdiv(display, 2),
                                display % 2 == 1,
                            ),
                    )
                    &&& final(self).background_pills@ == old(self).background_pills@
                    &&& final(self).particles@ == old(self).particles@
                    &&& final(self).particles_accumulator == old(self).particles_accumulator
                    &&& final(self).render_state == old(self).render_state
                    &&& final(self).global_uniforms == old(self).global_uniforms
                    &&& final(self).text_requests@ == old(self).text_requests@
                    &&& final(self).playhead_info == old(self).playhead_info
                }
            }),
    {
        let track_rating_index: u8 = if cfg.ratings_enabled {
            track_rating(playlists, &track.id)
        } else {
            0
        };
        let entries = build_icon_entries(
            playlists,
            &track.id,
            hovered,
            width,
            cfg.ratings_enabled,
        );
        if entries.len() == 0 {
            return ;
        }

        let center_x: i64 = pos_x + width / 2;
        let cy: i64 = PANEL_START + cfg.height * 975 / 1000;
        let mut spacing_n: usize = 0;
        let mut ci: usize = 0;
        while ci < entries.len()
            invariant
                0 <= ci <= entries@.len(),
                spacing_n == spacing_count(entries@.take(ci as int)),
                spacing_n <= ci,
            decreases entries@.len() - ci,
        {
            let e = entries[ci];
            let counts = match e {
                IconEntry::Star { .. } => true,
                IconEntry::Playlist { contained, .. } => contained,
            };
            proof {
                assert(entries@.take(ci + 1).drop_last() =~= entries@.take(ci as int));
                assert(entries@.take(ci + 1).last() == entries@[ci as int]);
                reveal(Seq::filter);
            }
            if counts {
                spacing_n = spacing_n + 1;
            }
            ci = ci + 1;
        }
        proof {
            assert(entries@.take(entries@.len() as int) =~= entries@);
        }
        let half2: i64 = spacing_n as i64;

        let needed: i64 = ICON_SIZE * (entries.len() as i64);
        let fade: i64 = if hovered {
            1_000_000
        } else if width <= needed {
            0
        } else if 4 * (width - needed) >= needed {
            1_000_000
        } else {
            let num: i64 = (width - needed) * 4_000_000;
            let f: i64 = num / needed;
            assert(0 <= f <= 1_000_000) by (nonlinear_arith)
                requires
                    0 < width - needed,
                    4 * (width - needed) < needed,
                    num == (width - needed) * 4_000_000,
                    f == num / needed,
                    needed > 0,
            ;
            f
        };

        let mouse = self.interaction.mouse_position;
        let pressure = self.interaction.mouse_pressure;
        let (data, hover_rating) = collect_icon_geometry(
            &mut self.interaction.icon_hitboxes,
            &entries,
            playlists,
            &track.id,
            center_x,
            cy,
            half2,
            mouse,
            pressure,
        );
        let display: i64 = match hover_rating {
            Some(h) => h as i64,
            None => track_rating_index as i64,
        };
        let ghost data_v = data@;
        let sorted_data = sort_by_distance(mouse.x, data);
        proof {
            assert forall|k: int|
                0 <= k < sorted_data@.len() implies ((#[trigger] sorted_data@[k]).0 matches
            IconEntry::Playlist { playlist_index, .. } ==> playlist_index < playlists@.len()) by {
                assert(data_v.contains(sorted_data@[k]));
                let j = choose|j: int| 0 <= j < data_v.len() && data_v[j] == sorted_data@[k];
                assert(data_v[j].0 == entries@[j]);
            }
        }
        push_icon_pills(&mut self.icon_pills, &sorted_data, playlists, cy, fade, display);
    }
}

/// Filtering a concatenation whose first part wholly passes keeps the
/// first part and filters the second.
proof fn lemma_filter_split(stars: Seq<IconEntry>, pls: Seq<IconEntry>)
    requires
        forall|i: int| 0 <= i < stars.len() ==> (#[trigger] stars[i]) matches IconEntry::Star { .. },
        forall|i: int|
            0 <= i < pls.len() ==> (#[trigger] pls[i]) matches IconEntry::Playlist { .. },
    ensures
        (stars + pls).filter(
            |e: IconEntry| !(e matches IconEntry::Playlist { contained: false, .. }),
        ) == stars + pls.filter(
            |e: IconEntry| e matches IconEntry::Playlist { contained: true, .. },
        ),
    decreases pls.len(),
{
    reveal(Seq::filter);
    if pls.len() == 0 {
        assert((stars + pls) =~= stars);
        lemma_filter_all_pass(stars);
        assert(pls.filter(|e: IconEntry| e matches IconEntry::Playlist { contained: true, .. })
            =~= Seq::<IconEntry>::empty());
        assert(stars + pls.filter(
            |e: IconEntry| e matches IconEntry::Playlist { contained: true, .. },
        ) =~= stars);
    } else {
        assert forall|i: int|
            0 <= i < pls.drop_last().len() implies (#[trigger] pls.drop_last()[i]) matches
            IconEntry::Playlist { .. } by {
            assert(pls.drop_last()[i] == pls[i]);
        }
        lemma_filter_split(stars, pls.drop_last());
        assert((stars + pls).drop_last() =~= stars + pls.drop_last());
        assert((stars + pls).last() == pls.last());
        assert(pls[pls.len() - 1] matches IconEntry::Playlist { .. });
        let keep = |e: IconEntry| !(e matches IconEntry::Playlist { contained: false, .. });
        let keep2 = |e: IconEntry| e matches IconEntry::Playlist { contained: true, .. };
        if keep(pls.last()) {
            assert((stars + pls).filter(keep) =~= (stars + pls.drop_last()).filter(keep).push(
                pls.last(),
            ));
            assert(pls.filter(keep2) =~= pls.drop_last().filter(keep2).push(pls.last()));
            assert(stars + pls.filter(keep2) =~= (stars + pls.drop_last().filter(keep2)).push(
                pls.last(),
            ));
        } else {
            assert((stars + pls).filter(keep) =~= (stars + pls.drop_last()).filter(keep));
            assert(pls.filter(keep2) =~= pls.drop_last().filter(keep2));
        }
    }
}

/// Star entries all pass the retain filter.
proof fn lemma_filter_all_pass(stars: Seq<IconEntry>)
    requires
        forall|i: int| 0 <= i < stars.len() ==> (#[trigger] stars[i]) matches IconEntry::Star { .. },
    ensures
        stars.filter(|e: IconEntry| !(e matches IconEntry::Playlist { contained: false, .. }))
            == stars,
    decreases stars.len(),
{
    reveal(Seq::filter);
    if stars.len() > 0 {
        assert(stars[stars.len() - 1] matches IconEntry::Star { .. });
        lemma_filter_all_pass(stars.drop_last());
        assert(stars.filter(
            |e: IconEntry| !(e matches IconEntry::Playlist { contained: false, .. }),
        ) =~= stars.drop_last().push(stars.last()));
        assert(stars.drop_last().push(stars.last()) =~= stars);
    }
}



/// Whether a laid-out entry is drawn at all: it has visible width on
/// screen.
pub open spec fn is_drawn(r: TrackRender) -> bool {
    r.width > 0 && r.start_x + r.width > 0
}

/// The seek hitbox range of a track, widened to a millipixel when the
/// pixel mapping collapses it.
pub open spec fn fixed_range(r: TrackRender) -> (i64, i64) {
    if r.hitbox_end > r.hitbox_start {
        (r.hitbox_start, r.hitbox_end)
    } else {
        (r.hitbox_start, (r.hitbox_start + 1) as i64)
    }
}

/// The clickable hitbox a drawn track contributes.
pub open spec fn track_hitbox_of(t: Track, r: TrackRender, cfg: Config) -> TrackHitbox {
    TrackHitbox {
        track_id: t.id,
        rect: Rect {
            x0: r.start_x,
            y0: PANEL_START,
            x1: (r.start_x + r.width) as i64,
            y1: (PANEL_START + cfg.height) as i64,
        },
        range_start: fixed_range(r).0,
        range_end: fixed_range(r).1,
    }
}

/// A drawn track's fade alpha in millionths: narrow pills fade out.
pub open spec fn track_fade(r: TrackRender, cfg: Config) -> int {
    if r.width < cfg.height {
        let f = (tdiv(r.width * 1_000_000, cfg.height as int) - 900_000) * 10;
        if f < 0 {
            0
        } else {
            f
        }
    } else {
        1_000_000
    }
}

/// The background pill a drawn track contributes.
pub open spec fn track_pill_of(
    t: Track,
    r: TrackRender,
    cfg: Config,
    palettes: Map<Seq<char>, Option<[u32; 4]>>,
) -> BackgroundPill {
    BackgroundPill {
        pos_x: r.start_x,
        width: r.width,
        colors: (if palettes.contains_key(t.album.id@) && palettes[t.album.id@] is Some {
            palettes[t.album.id@]->0
        } else {
            [0u32, 0u32, 0u32, 0u32]
        }),
        alpha: track_fade(r, cfg) as i64,
        image: t.album.image,
    }
}

/// Whether a drawn track shows its title text.
pub open spec fn wants_text(r: TrackRender, cfg: Config) -> bool {
    !r.art_only && track_fade(r, cfg) >= 1_000_000 && r.width > cfg.height
}

/// The drag target the pass leaves behind: while dragging, the last
/// drawn current track, at the playhead's fraction of it.
pub open spec fn drag_after(
    queue: Seq<Track>,
    renders: Seq<TrackRender>,
    n: int,
    dragging: bool,
    playhead_x: int,
    acc: Option<DragTarget>,
) -> Option<DragTarget>
    decreases n,
    when 0 <= n <= renders.len()
{
    if !dragging || n <= 0 {
        acc
    } else {
        let prev = drag_after(queue, renders, n - 1, dragging, playhead_x, acc);
        let r = renders[n - 1];
        if is_drawn(r) && r.is_current && r.track_index < queue.len() {
            let a = fixed_range(r).0 as int;
            let b = fixed_range(r).1 as int;
            let x = if r.start_x >= playhead_x {
                r.start_x as int
            } else {
                playhead_x
            };
            Some(
                DragTarget {
                    track_id: queue[r.track_index as int].id,
                    position: crate::interaction::spec_seek_fraction(x, a, b) as i64,
                },
            )
        } else {
            prev
        }
    }
}

impl CantusApp {
    /// Draw one frame's tracks: push each drawn track's hitbox and
    /// pill, request its title text, commit a drag target on the
    /// current track, and lay out its icons.
    #[verifier::rlimit(80)]
    pub fn draw_tracks(
        &mut self,
        renders: &Vec<TrackRender>,
        queue: &Vec<Track>,
        playlists: &Vec<CondensedPlaylist>,
        palettes: &StrMap<Option<[u32; 4]>>,
        playhead_x: i64,
        cfg: &Config,
    )
        requires
            app_wf(*old(self)),
            config_wf(*cfg),
            palettes.wf(),
            forall|k: int|
                0 <= k < playlists@.len() ==> crate::state::playlist_wf(
                    #[trigger] playlists@[k],
                ),
            playlists@.len() <= QUEUE_LIMIT,
            queue@.len() <= QUEUE_LIMIT,
            forall|k: int|
                0 <= k < renders@.len() ==> -400_000_000_000i64 <= (
                #[trigger] renders@[k]).start_x <= 400_000_000_000i64 && -900_000_000_000i64
                    <= renders@[k].width <= 200_000_000_000i64 && -900_000_000_000i64
                    <= renders@[k].hitbox_start <= 900_000_000_000i64 && -900_000_000_000i64
                    <= renders@[k].hitbox_end <= 900_000_000_000i64 && renders@[k].track_index
                    < queue@.len(),
            -2_000_000_000 <= playhead_x <= 2_000_000_000,
        ensures
            app_wf(*final(self)),
            ({
                let drawn = renders@.filter(|r: TrackRender| is_drawn(r));
                &&& final(self).interaction.track_hitboxes@ == old(
                    self,
                ).interaction.track_hitboxes@ + drawn.map_values(
                    |r: TrackRender| track_hitbox_of(queue@[r.track_index as int], r, *cfg),
                )
                &&& final(self).background_pills@ == old(self).background_pills@
                    + drawn.map_values(
                    |r: TrackRender|
                        track_pill_of(queue@[r.track_index as int], r, *cfg, palettes.m()),
                )
                &&& final(self).text_requests@ == old(self).text_requests@ + drawn.filter(
                    |r: TrackRender| wants_text(r, *cfg),
                )
                &&& final(self).interaction.drag_track == drag_after(
                    queue@,
                    renders@,
                    renders@.len() as int,
                    old(self).interaction.dragging,
                    playhead_x as int,
                    old(self).interaction.drag_track,
                )
                &&& final(self).interaction.mouse_position == old(
                    self,
                ).interaction.mouse_position
                &&& final(self).interaction.mouse_pressure == old(
                    self,
                ).interaction.mouse_pressure
                &&& final(self).interaction.dragging == old(self).interaction.dragging
                &&& final(self).interaction.drag_origin == old(self).interaction.drag_origin
                &&& final(self).interaction.mouse_down == old(self).interaction.mouse_down
                &&& final(self).interaction.playing == old(self).interaction.playing
                &&& final(self).interaction.play_hitbox == old(self).interaction.play_hitbox
                &&& final(self).interaction.last_hitbox_hash == old(
                    self,
                ).interaction.last_hitbox_hash
                &&& final(self).interaction.last_expansion_ms == old(
                    self,
                ).interaction.last_expansion_ms
                &&& final(self).interaction.last_expansion_pos == old(
                    self,
                ).interaction.last_expansion_pos
                &&& final(self).interaction.last_toggle_playing_ms == old(
                    self,
                ).interaction.last_toggle_playing_ms
                &&& final(self).interaction.playhead_bar == old(self).interaction.playhead_bar
                &&& final(self).interaction.playhead_play == old(self).interaction.playhead_play
                &&& final(self).interaction.playhead_pause == old(
                    self,
                ).interaction.playhead_pause
                &&& final(self).render_state == old(self).render_state
                &&& final(self).particles@ == old(self).particles@
                &&& final(self).particles_accumulator == old(self).particles_accumulator
                &&& final(self).global_uniforms == old(self).global_uniforms
                &&& final(self).playhead_info == old(self).playhead_info
            }),
    {
        let ghost hb0 = self.interaction.track_hitboxes@;
        let ghost pills0 = self.background_pills@;
        let ghost texts0 = self.text_requests@;
        let ghost drag0 = self.interaction.drag_track;
        let dragging = self.interaction.dragging;
        let mut i: usize = 0;
        while i < renders.len()
            invariant
                app_wf(*self),
                config_wf(*cfg),
                palettes.wf(),
                forall|k: int|
                    0 <= k < playlists@.len() ==> crate::state::playlist_wf(
                        #[trigger] playlists@[k],
                    ),
                playlists@.len() <= QUEUE_LIMIT,
                queue@.len() <= QUEUE_LIMIT,
                forall|k: int|
                    0 <= k < renders@.len() ==> -400_000_000_000i64 <= (
                    #[trigger] renders@[k]).start_x <= 400_000_000_000i64 && -900_000_000_000i64
                        <= renders@[k].width <= 200_000_000_000i64 && -900_000_000_000i64
                        <= renders@[k].hitbox_start <= 900_000_000_000i64
                        && -900_000_000_000i64 <= renders@[k].hitbox_end <= 900_000_000_000i64
                        && renders@[k].track_index < queue@.len(),
                -2_000_000_000 <= playhead_x <= 2_000_000_000,
                0 <= i <= renders@.len(),
                dragging == old(self).interaction.dragging,
                hb0 == old(self).interaction.track_hitboxes@,
                pills0 == old(self).background_pills@,
                texts0 == old(self).text_requests@,
                drag0 == old(self).interaction.drag_track,
                self.interaction.track_hitboxes@ == hb0 + renders@.take(i as int).filter(
                    |r: TrackRender| is_drawn(r),
                ).map_values(
                    |r: TrackRender| track_hitbox_of(queue@[r.track_index as int], r, *cfg),
                ),
                self.background_pills@ == pills0 + renders@.take(i as int).filter(
                    |r: TrackRender| is_drawn(r),
                ).map_values(
                    |r: TrackRender|
                        track_pill_of(queue@[r.track_index as int], r, *cfg, palettes.m()),
                ),
                self.text_requests@ == texts0 + renders@.take(i as int).filter(
                    |r: TrackRender| is_drawn(r),
                ).filter(|r: TrackRender| wants_text(r, *cfg)),
                self.interaction.drag_track == drag_after(
                    queue@,
                    renders@,
                    i as int,
                    dragging,
                    playhead_x as int,
                    drag0,
                ),
                self.interaction.mouse_position == old(self).interaction.mouse_position,
                self.interaction.mouse_pressure == old(self).interaction.mouse_pressure,
                self.interaction.dragging == old(self).interaction.dragging,
                self.interaction.drag_origin == old(self).interaction.drag_origin,
                self.interaction.mouse_down == old(self).interaction.mouse_down,
                self.interaction.playing == old(self).interaction.playing,
                self.interaction.play_hitbox == old(self).interaction.play_hitbox,
                self.interaction.last_hitbox_hash == old(self).interaction.last_hitbox_hash,
                self.interaction.last_expansion_ms == old(self).interaction.last_expansion_ms,
                self.interaction.last_expansion_pos == old(self).interaction.last_expansion_pos,
                self.interaction.last_toggle_playing_ms == old(
                    self,
                ).interaction.last_toggle_playing_ms,
                self.interaction.playhead_bar == old(self).interaction.playhead_bar,
                self.interaction.playhead_play == old(self).interaction.playhead_play,
                self.interaction.playhead_pause == old(self).interaction.playhead_pause,
                self.render_state == old(self).render_state,
                self.particles@ == old(self).particles@,
                self.particles_accumulator == old(self).particles_accumulator,
                self.global_uniforms == old(self).global_uniforms,
                self.playhead_info == old(self).playhead_info,
            decreases renders@.len() - i,
        {
            let r = renders[i];
            proof {
                assert(renders@.take(i + 1).drop_last() =~= renders@.take(i as int));
                assert(renders@.take(i + 1).last() == renders@[i as int]);
                reveal(Seq::filter);
                if is_drawn(renders@[i as int]) {
                    assert(renders@.take(i + 1).filter(|r2: TrackRender| is_drawn(r2))
                        =~= renders@.take(i as int).filter(|r2: TrackRender| is_drawn(r2)).push(
                        renders@[i as int],
                    ));
                    let prev = renders@.take(i as int).filter(|r2: TrackRender| is_drawn(r2));
                    assert(prev.push(renders@[i as int]).drop_last() =~= prev);
                    if wants_text(renders@[i as int], *cfg) {
                        assert(prev.push(renders@[i as int]).filter(
                            |r2: TrackRender| wants_text(r2, *cfg),
                        ) =~= prev.filter(|r2: TrackRender| wants_text(r2, *cfg)).push(
                            renders@[i as int],
                        ));
                    } else {
                        assert(prev.push(renders@[i as int]).filter(
                            |r2: TrackRender| wants_text(r2, *cfg),
                        ) =~= prev.filter(|r2: TrackRender| wants_text(r2, *cfg)));
                    }
                } else {
                    assert(renders@.take(i + 1).filter(|r2: TrackRender| is_drawn(r2))
                        =~= renders@.take(i as int).filter(|r2: TrackRender| is_drawn(r2)));
                }
            }
            if r.width > 0 && r.start_x + r.width > 0 {
                let track = &queue[r.track_index];
                let hb_end: i64 = if r.hitbox_end > r.hitbox_start {
                    r.hitbox_end
                } else {
                    r.hitbox_start + 1
                };
                let rect = Rect {
                    x0: r.start_x,
                    y0: PANEL_START,
                    x1: r.start_x + r.width,
                    y1: PANEL_START + cfg.height,
                };
                self.interaction.track_hitboxes.push(
                    TrackHitbox {
                        track_id: track.id.clone(),
                        rect,
                        range_start: r.hitbox_start,
                        range_end: hb_end,
                    },
                );
                if dragging && r.is_current {
                    let x: i64 = if r.start_x >= playhead_x {
                        r.start_x
                    } else {
                        playhead_x
                    };
                    let frac = crate::interaction::seek_fraction(x, r.hitbox_start, hb_end);
                    self.interaction.drag_track = Some(
                        DragTarget { track_id: track.id.clone(), position: frac },
                    );
                }
                let fade: i64 = if r.width < cfg.height {
                    let f: i64 = (r.width * 1_000_000 / cfg.height - 900_000) * 10;
                    if f < 0 {
                        0
                    } else {
                        f
                    }
                } else {
                    1_000_000
                };
                let colors: [u32; 4] = match palettes.get(&track.album.id) {
                    Some(slot) => {
                        match slot {
                            Some(c) => *c,
                            None => [0u32, 0u32, 0u32, 0u32],
                        }
                    },
                    None => [0u32, 0u32, 0u32, 0u32],
                };
                let image: Option<String> = match &track.album.image {
                    Some(u) => Some(u.clone()),
                    None => None,
                };
                self.background_pills.push(
                    BackgroundPill { pos_x: r.start_x, width: r.width, colors, alpha: fade, image },
                );
                if !r.art_only && fade >= 1_000_000 && r.width > cfg.height {
                    self.text_requests.push(r);
                }
                proof {
                    assert(self.background_pills@.last() == track_pill_of(
                        queue@[r.track_index as int],
                        renders@[i as int],
                        *cfg,
                        palettes.m(),
                    ));
                }
                if !r.art_only {
                    let hovered = !self.interaction.dragging && self.interaction.mouse_pressure
                        > 0 && self.interaction.mouse_position.x >= rect.x0
                        && self.interaction.mouse_position.x <= rect.x1;
                    self.draw_playlist_buttons(
                        track,
                        hovered,
                        playlists,
                        r.width,
                        r.start_x,
                        cfg,
                    );
                }
            }
            i = i + 1;
        }
        proof {
            assert(renders@.take(renders@.len() as int) =~= renders@);
        }
    }
}



impl CantusApp {
    /// Build one frame: advance the smoothed timeline offset, lay the
    /// queue out, collapse past tracks, emit the track pills, hitboxes,
    /// titles and icons, and drive the playhead animation and motion
    /// particles.
    ///
    /// The caller holds a read snapshot of the shared store and passes
    /// the frame clock and this frame's spark randomness.
    #[verifier::rlimit(100)]
    pub fn create_scene(
        &mut self,
        state: &PlaybackState,
        palettes: &StrMap<Option<[u32; 4]>>,
        cfg: &Config,
        now: u64,
        sparks: &Vec<crate::playhead::SparkSample>,
    )
        requires
            app_wf(*old(self)),
            state_wf(*state),
            config_wf(*cfg),
            palettes.wf(),
            state.queue@.len() <= QUEUE_LIMIT,
            state.playlists@.len() <= QUEUE_LIMIT,
            now <= 0x0000_FFFF_FFFF_FFFFu64,
            sparks@.len() == 20,
            forall|k: int|
                0 <= k < sparks@.len() ==> crate::playhead::spark_sample_wf(
                    #[trigger] sparks@[k],
                ),
        ensures
            app_wf(*final(self)),
            final(self).render_state.last_update_ms == now,
            state.queue@.len() == 0 ==> ({
                &&& final(self).background_pills@.len() == 0
                &&& final(self).icon_pills@.len() == 0
                &&& final(self).text_requests@.len() == 0
                &&& final(self).interaction == old(self).interaction
                &&& final(self).render_state == (crate::render::RenderState {
                    last_update_ms: now,
                    ..old(self).render_state
                })
                &&& final(self).particles@ == old(self).particles@
            }),
            state.queue@.len() > 0 ==> ({
                let it0 = old(self).interaction;
                let rs0 = old(self).render_state;
                let dt: int = if now >= rs0.last_update_ms {
                    if now - rs0.last_update_ms <= 1000 {
                        (now - rs0.last_update_ms) as int
                    } else {
                        1000
                    }
                } else {
                    0
                };
                let cur_idx: int = if state.queue_index < state.queue@.len() {
                    state.queue_index as int
                } else {
                    state.queue@.len() - 1
                };
                let target = spec_target_ms(*state, it0, *cfg, now, cur_idx);
                let current = spec_smoothed(target, rs0.track_offset_ms as int, it0.dragging, dt);
                let renders = stack_rec(
                    layout_entries_of(state.queue@, current, *cfg),
                    layout_entries_of(state.queue@, current, *cfg).len() as int,
                    0,
                    false,
                    *cfg,
                );
                let drawn = renders.filter(|r: TrackRender| is_drawn(r));
                let phx = crate::config::playhead_x_spec(*cfg);
                &&& final(self).render_state.track_offset_ms == current
                &&& final(self).interaction.track_hitboxes@ == drawn.map_values(
                    |r: TrackRender| track_hitbox_of(state.queue@[r.track_index as int], r, *cfg),
                )
                &&& final(self).background_pills@ == drawn.map_values(
                    |r: TrackRender|
                        track_pill_of(state.queue@[r.track_index as int], r, *cfg, palettes.m()),
                )
                &&& final(self).text_requests@ == drawn.filter(
                    |r: TrackRender| wants_text(r, *cfg),
                )
                &&& final(self).interaction.drag_track == drag_after(
                    state.queue@,
                    renders,
                    renders.len() as int,
                    it0.dragging,
                    phx,
                    (if it0.dragging {
                        None
                    } else {
                        it0.drag_track
                    }),
                )
                &&& final(self).interaction.playing == state.playing
                &&& (state.playing == it0.playing ==> final(self).interaction.last_toggle_playing_ms
                    == it0.last_toggle_playing_ms)
                &&& (state.playing != it0.playing ==> final(self).interaction.last_toggle_playing_ms
                    == now)
                &&& final(self).global_uniforms.time_ms == now
                &&& final(self).global_uniforms.screen_w == cfg.width
                &&& final(self).global_uniforms.screen_h == cfg.height + PANEL_START
                    + PANEL_EXTENSION
                &&& final(self).global_uniforms.bar_start == PANEL_START
                &&& final(self).global_uniforms.bar_height == cfg.height
                &&& final(self).global_uniforms.playhead_x == phx
                &&& final(self).global_uniforms.mouse_pos == it0.mouse_position
                &&& final(self).global_uniforms.mouse_pressure == moved_towards(
                    old(self).global_uniforms.mouse_pressure as int,
                    it0.mouse_pressure as int,
                    5 * dt,
                )
                &&& final(self).interaction.mouse_position == it0.mouse_position
                &&& final(self).interaction.mouse_pressure == it0.mouse_pressure
                &&& final(self).interaction.dragging == it0.dragging
                &&& final(self).interaction.drag_origin == it0.drag_origin
                &&& final(self).interaction.mouse_down == it0.mouse_down
            }),
    {
        let dt: i64 = if now >= self.render_state.last_update_ms {
            let d: u64 = now - self.render_state.last_update_ms;
            if d <= 1000 {
                d as i64
            } else {
                1000
            }
        } else {
            0
        };
        self.render_state.last_update_ms = now;
        self.background_pills = Vec::new();
        self.icon_pills = Vec::new();
        self.text_requests = Vec::new();
        if state.queue.len() == 0 {
            return ;
        }
        self.interaction.icon_hitboxes = Vec::new();
        self.interaction.track_hitboxes = Vec::new();

        let cur_idx: usize = if state.queue_index < state.queue.len() {
            state.queue_index
        } else {
            state.queue.len() - 1
        };
        let playhead_x: i64 = cfg.playhead_x();

        if state.playing != self.interaction.playing {
            self.interaction.playing = state.playing;
            self.interaction.last_expansion_ms = now;
            self.interaction.last_expansion_pos = Point {
                x: playhead_x,
                y: PANEL_START + cfg.height / 2,
            };
            self.interaction.last_toggle_playing_ms = now;
        }
        if self.interaction.dragging {
            self.interaction.drag_track = None;
        }

        let elapsed: i64 = playback_elapsed(state, now);
        let past_duration: i64 = sum_prefix_duration(&state.queue, cur_idx);
        let drag_off: i64 = drag_offset_ms(&self.interaction, cfg);
        let target: i64 = -elapsed - past_duration + drag_off - TRACK_SPACING_MS * (
        cur_idx as i64);

        // Expansion ripple co-moves with the scrolling content.
        let diff: i64 = target - self.render_state.track_offset_ms;
        let diff_px: i64 = crate::timeline::ms_to_px_exec(
            cfg,
            crate::timeline::clamp_ms_exec(diff),
        );
        assert(-840_000_000_000_000i64 <= diff_px * dt <= 840_000_000_000_000i64)
            by (nonlinear_arith)
            requires
                -840_000_000_000i64 <= diff_px <= 840_000_000_000i64,
                0 <= dt <= 1000,
        ;
        let shift: i64 = diff_px * dt / 1_000;
        let moved_x: i64 = self.interaction.last_expansion_pos.x + shift;
        self.interaction.last_expansion_pos.x = if moved_x < -1_000_000_000_000i64 {
            -1_000_000_000_000i64
        } else if moved_x > 1_000_000_000_000i64 {
            1_000_000_000_000i64
        } else {
            moved_x
        };

        let (current, avg) = advance_offset(&mut self.render_state, target, self.interaction.dragging, dt);

        let mut renders = crate::timeline::layout_tracks(&state.queue, current, cfg);
        stack_past_tracks(&mut renders, cfg);

        // Global uniforms.
        self.global_uniforms.time_ms = now;
        self.global_uniforms.screen_w = cfg.width;
        self.global_uniforms.screen_h = cfg.height + PANEL_START + PANEL_EXTENSION;
        self.global_uniforms.bar_start = PANEL_START;
        self.global_uniforms.bar_height = cfg.height;
        self.global_uniforms.playhead_x = playhead_x;
        self.global_uniforms.mouse_pos = self.interaction.mouse_position;
        let mut pressure: i64 = self.global_uniforms.mouse_pressure;
        move_towards(&mut pressure, self.interaction.mouse_pressure, 5 * dt);
        self.global_uniforms.mouse_pressure = pressure;
        self.global_uniforms.expansion_xy = self.interaction.last_expansion_pos;
        self.global_uniforms.expansion_time_ms = self.interaction.last_expansion_ms;

        // Tracks, pills, titles and icons.
        self.draw_tracks(&renders, &state.queue, &state.playlists, palettes, playhead_x, cfg);

        // The track under the playhead colors the motion particles.
        let mut current_index: usize = cur_idx;
        let mut ti: usize = 0;
        while ti < renders.len()
            invariant
                0 <= ti <= renders@.len(),
                current_index < state.queue@.len(),
                forall|k: int|
                    0 <= k < renders@.len() ==> (#[trigger] renders@[k]).track_index
                        < state.queue@.len(),
                -400_000_000_000i64 <= playhead_x <= 2_000_000_000_000i64,
                forall|k: int|
                    0 <= k < renders@.len() ==> -400_000_000_000i64 <= (
                    #[trigger] renders@[k]).start_x <= 400_000_000_000i64
                        && -900_000_000_000i64 <= renders@[k].width <= 200_000_000_000i64,
            decreases renders@.len() - ti,
        {
            let r = renders[ti];
            if r.width > 0 && r.start_x + r.width > 0 && playhead_x >= r.start_x && playhead_x
                <= r.start_x + r.width {
                current_index = r.track_index;
            }
            ti = ti + 1;
        }
        let palette: [u32; 4] = match palettes.get(&state.queue[current_index].album.id) {
            Some(slot) => {
                match slot {
                    Some(c) => *c,
                    None => [0u32, 0u32, 0u32, 0u32],
                }
            },
            None => [0u32, 0u32, 0u32, 0u32],
        };
        let volume = state.volume;
        self.render_playhead_particles(
            dt,
            palette,
            playhead_x,
            avg,
            volume,
            sparks,
            now,
            cfg,
        );
    }
}


} // verus!
