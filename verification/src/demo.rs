//! A demonstration playback state: a fixed twenty-track queue and the
//! ten rating playlists plus one favourite playlist, with the queue
//! distributed across them in order.  The caller supplies fresh ids
//! (tracks and albums take two each, playlists one).

use crate::state::{has_track, state_wf, Album, Artist, CondensedPlaylist, PlaybackState, Track};
use vstd::prelude::*;

verus! {

/// Ids consumed per generated state: two per track, one per playlist.
pub const DEMO_IDS: usize = 51;

/// The demonstration artist.
pub fn artist() -> (a: Artist)
    ensures
        a.name@ == "Taylor Swift"@,
        a.image is Some,
{
    Artist {
        id: String::from_str("06HL4z0CvFAxyc27GXpf02"),
        name: String::from_str("Taylor Swift"),
        image: Some(
            String::from_str("https://i.scdn.co/image/ab6761610000f178e2e8e7ff002a4afda1c7147e"),
        ),
    }
}

/// One demonstration track.
pub fn track(id: String, album_id: String, name: &str, album_img: &str, duration: u32) -> (t:
    Track)
    ensures
        t.id@ == id@,
        t.name@ == name@,
        t.album.id@ == album_id@,
        t.album.image matches Some(u) && u@ == album_img@,
        t.duration_ms == duration,
{
    Track {
        id,
        name: name.to_owned(),
        album: Album { id: album_id, image: Some(album_img.to_owned()) },
        artist: artist(),
        duration_ms: duration,
    }
}

/// One demonstration playlist, initially empty.
pub fn playlist(id: String, name: &str, url: &str, rating: Option<u8>) -> (p: CondensedPlaylist)
    requires
        rating matches Some(r) ==> r < 10,
    ensures
        crate::state::playlist_wf(p),
        p.id@ == id@,
        p.name@ == name@,
        p.image_url matches Some(u) && u@ == url@,
        p.tracks@.len() == 0,
        p.rating_index == rating,
        p.tracks_total == 0,
    {
    CondensedPlaylist {
        id,
        name: name.to_owned(),
        image_url: Some(url.to_owned()),
        tracks: Vec::new(),
        rating_index: rating,
        tracks_total: 0,
        snapshot_id: String::new(),
    }
}

/// Build the demonstration playback state from a supply of fresh ids.
///
/// The queue holds twenty tracks; eleven playlists follow, the first ten
/// carrying rating slots nine down to zero, the last a plain favourite
/// playlist; consecutive pairs of queue tracks fill the playlists in
/// order.
#[verifier::rlimit(100)]
pub fn debug_playbackstate(ids: &Vec<String>) -> (s: PlaybackState)
    requires
        ids@.len() >= DEMO_IDS,
        forall|i: int, j: int| 0 <= i < j < ids@.len() ==> #[trigger] ids@[i]@ != #[trigger] ids@[j]@,
    ensures
        state_wf(s),
        s.playing,
        s.progress == 5213,
        s.volume == Some(100u8),
        s.queue@.len() == 20,
        s.queue_index == 7,
        s.playlists@.len() == 11,
        !s.interaction,
        forall|k: int|
            0 <= k < 10 ==> (#[trigger] s.playlists@[k]).rating_index == Some((9 - k) as u8),
        s.playlists@[10].rating_index is None,
        s.queue@[0].name@ == "King Of My Heart"@,
        s.queue@[7].name@ == "Never Grow Up"@,
        s.queue@[19].name@ == "Lover (Remix) [feat. Shawn Mendes]"@,
        s.queue@[0].duration_ms == 214320,
        s.queue@[1].duration_ms == 180381,
        forall|k: int|
            0 <= k < 10 ==> (#[trigger] s.playlists@[k]).tracks@.len() == 2 && has_track(
                s.playlists@[k],
                s.queue@[2 * k].id@,
            ) && has_track(s.playlists@[k], s.queue@[2 * k + 1].id@),
        s.playlists@[10].tracks@.len() == 0,
{
    let mut queue: Vec<Track> = Vec::new();
    queue.push(track(ids[0].clone(), ids[1].clone(), "King Of My Heart",
        "https://i.scdn.co/image/ab67616d00004851da5d5aeeabacacc1263c0f4b", 214320));
    queue.push(track(ids[2].clone(), ids[3].clone(), "Slut! (Taylor's Version)",
        "https://i.scdn.co/image/ab67616d00004851904445d70d04eb24d6bb79ac", 180381));
    queue.push(track(ids[4].clone(), ids[5].clone(), "Stay Beautiful",
        "https://i.scdn.co/image/ab67616d000048512f8c0fd72a80a93f8c53b96c", 236053));
    queue.push(track(ids[6].clone(), ids[7].clone(), "Speak Now",
        "https://i.scdn.co/image/ab67616d00004851be4ec62353ee75fa11f6d6f7", 248146));
    queue.push(track(ids[8].clone(), ids[9].clone(), "Superstar (Taylor's Version)",
        "https://i.scdn.co/image/ab67616d00004851a48964b5d9a3d6968ae3e0de", 263865));
    queue.push(track(ids[10].clone(), ids[11].clone(), "Anti-Hero (feat. Bleachers)",
        "https://i.scdn.co/image/ab67616d000048519954fa9f0ba8534c3897b59d", 228397));
    queue.push(track(ids[12].clone(), ids[13].clone(), "The Man",
        "https://i.scdn.co/image/ab67616d000048519a6d517fc78fb707bed067c2", 219385));
    queue.push(track(ids[14].clone(), ids[15].clone(), "Never Grow Up",
        "https://i.scdn.co/image/ab67616d000048512e4ec3175d848eca7b76b07f", 290466));
    queue.push(track(ids[16].clone(), ids[17].clone(), "Enchanted (Taylor's Version)",
        "https://i.scdn.co/image/ab67616d000048510b04da4f224b51ff86e0a481", 353253));
    queue.push(track(ids[18].clone(), ids[19].clone(), "Only The Young",
        "https://i.scdn.co/image/ab67616d000048514aa13f6de271d8403a82e4a8", 157507));
    queue.push(track(ids[20].clone(), ids[21].clone(), "So Long, London",
        "https://i.scdn.co/image/ab67616d000048518ecc33f195df6aa257c39eaa", 262974));
    queue.push(track(ids[22].clone(), ids[23].clone(), "seven",
        "https://i.scdn.co/image/ab67616d0000485195f754318336a07e85ec59bc", 208906));
    queue.push(track(ids[24].clone(), ids[25].clone(), "marjorie",
        "https://i.scdn.co/image/ab67616d0000485125751b4b32829d6bbfe6be7f", 257773));
    queue.push(track(ids[26].clone(), ids[27].clone(), "The Archer",
        "https://i.scdn.co/image/ab67616d00004851cde19bd5377f06eb0bca3256", 210960));
    queue.push(track(ids[28].clone(), ids[29].clone(), "Holy Ground (Taylor's Version)",
        "https://i.scdn.co/image/ab67616d00004851318443aab3531a0558e79a4d", 202960));
    queue.push(track(ids[30].clone(), ids[31].clone(), "august - the long pond studio sessions",
        "https://i.scdn.co/image/ab67616d00004851045514e3ed4e1767a7c3ece5", 260000));
    queue.push(track(ids[32].clone(), ids[33].clone(), "Sparks Fly",
        "https://i.scdn.co/image/ab67616d00004851be4ec62353ee75fa11f6d6f7", 336826));
    queue.push(track(ids[34].clone(), ids[35].clone(), "ME!",
        "https://i.scdn.co/image/ab67616d00004851d8f29c3584e77996dd2f9950", 213026));
    queue.push(track(ids[36].clone(), ids[37].clone(), "Breathe",
        "https://i.scdn.co/image/ab67616d0000485134e5885465afc8a497ac1b7e", 263986));
    queue.push(track(ids[38].clone(), ids[39].clone(), "Lover (Remix) [feat. Shawn Mendes]",
        "https://i.scdn.co/image/ab67616d0000485159457bdb1edb5c6417f3baa2", 221306));

    let mut playlists: Vec<CondensedPlaylist> = Vec::new();
    playlists.push(playlist(ids[40].clone(), "5.0",
        "https://image-cdn-ak.spotifycdn.com/image/ab67706c0000da84c50767075b403300869b83e9",
        Some(9)));
    playlists.push(playlist(ids[41].clone(), "4.5",
        "https://image-cdn-ak.spotifycdn.com/image/ab67706c0000da84f663909c16e7b5aed0bc8372",
        Some(8)));
    playlists.push(playlist(ids[42].clone(), "4.0",
        "https://image-cdn-ak.spotifycdn.com/image/ab67706c0000da8419d3c6f0e8fd6c7e59950c18",
        Some(7)));
    playlists.push(playlist(ids[43].clone(), "3.5",
        "https://image-cdn-fa.spotifycdn.com/image/ab67706c0000da84d46b8ca2271ae9e3c1b3eeb7",
        Some(6)));
    playlists.push(playlist(ids[44].clone(), "3.0",
        "https://image-cdn-ak.spotifycdn.com/image/ab67706c0000da841ad1b1f4bed4220acbf03e5d",
        Some(5)));
    playlists.push(playlist(ids[45].clone(), "2.5",
        "https://image-cdn-fa.spotifycdn.com/image/ab67706c0000da84a28604c3b2000226d5c91cd8",
        Some(4)));
    playlists.push(playlist(ids[46].clone(), "2.0",
        "https://image-cdn-ak.spotifycdn.com/image/ab67706c0000da84d9b64f8a70e1474c4e7100cf",
        Some(3)));
    playlists.push(playlist(ids[47].clone(), "1.5",
        "https://image-cdn-ak.spotifycdn.com/image/ab67706c0000da84e1f8435d59eb9f0179d6c47b",
        Some(2)));
    playlists.push(playlist(ids[48].clone(), "1.0",
        "https://image-cdn-ak.spotifycdn.com/image/ab67706c0000da849994733f6f59121e779ba3f0",
        Some(1)));
    playlists.push(playlist(ids[49].clone(), "0.5",
        "https://image-cdn-ak.spotifycdn.com/image/ab67706c0000da84a9438841e6e1ad17f027855d",
        Some(0)));
    playlists.push(playlist(ids[50].clone(), "Current",
        "https://image-cdn-ak.spotifycdn.com/image/ab67706c0000da84d382c28a67e913ea10b7b3fc",
        None));

    // Distribute consecutive queue pairs into the playlists.
    let mut k: usize = 0;
    while k < 10
        invariant
            queue@.len() == 20,
            playlists@.len() == 11,
            0 <= k <= 10,
            forall|i: int, j: int|
                0 <= i < j < playlists@.len() ==> #[trigger] playlists@[i].id@
                    != #[trigger] playlists@[j].id@,
            forall|i: int, j: int|
                0 <= i < j < playlists@.len() && playlists@[i].rating_index is Some
                    ==> #[trigger] playlists@[i].rating_index
                    != #[trigger] playlists@[j].rating_index,
            forall|i: int|
                0 <= i < playlists@.len() ==> crate::state::playlist_wf(
                    #[trigger] playlists@[i],
                ),
            forall|i: int|
                0 <= i < 10 ==> (#[trigger] playlists@[i]).rating_index == Some((9 - i) as u8),
            playlists@[10].rating_index is None,
            forall|i: int|
                0 <= i < k ==> (#[trigger] playlists@[i]).tracks@.len() == 2 && has_track(
                    playlists@[i],
                    queue@[2 * i].id@,
                ) && has_track(playlists@[i], queue@[2 * i + 1].id@),
            forall|i: int|
                k <= i < playlists@.len() ==> (#[trigger] playlists@[i]).tracks@.len() == 0,
            forall|i: int, j: int|
                0 <= i < j < queue@.len() ==> #[trigger] queue@[i].id@ != #[trigger] queue@[j].id@,
        decreases 10 - k,
    {
        let a = queue[2 * k].id.clone();
        let b = queue[2 * k + 1].id.clone();
        let ghost pre = playlists@;
        let p = &mut playlists[k];
        p.tracks_total = 2;
        p.insert_track(&a);
        p.insert_track(&b);
        proof {
            assert(queue@[2 * k].id@ != queue@[2 * k + 1].id@);
            assert(playlists@[k as int].tracks@.len() == 2);
            assert(has_track(playlists@[k as int], queue@[2 * k + 1].id@));
            assert(has_track(playlists@[k as int], queue@[2 * k].id@));
            assert forall|i: int|
                0 <= i < k + 1 implies (#[trigger] playlists@[i]).tracks@.len() == 2 && has_track(
                playlists@[i],
                queue@[2 * i].id@,
            ) && has_track(playlists@[i], queue@[2 * i + 1].id@) by {
                if i < k {
                    assert(playlists@[i] == pre[i]);
                }
            }
        }
        proof {
            assert forall|i: int, j: int|
                0 <= i < j < playlists@.len() implies #[trigger] playlists@[i].id@
                != #[trigger] playlists@[j].id@ by {
                if i != k && j != k {
                    assert(playlists@[i] == pre[i]);
                    assert(playlists@[j] == pre[j]);
                } else {
                    assert(playlists@[k as int].id@ == pre[k as int].id@);
                    if i != k {
                        assert(playlists@[i] == pre[i]);
                    }
                    if j != k {
                        assert(playlists@[j] == pre[j]);
                    }
                }
            }
            assert forall|i: int, j: int|
                0 <= i < j < playlists@.len() && playlists@[i].rating_index
                    is Some implies #[trigger] playlists@[i].rating_index
                != #[trigger] playlists@[j].rating_index by {
                if i != k {
                    assert(playlists@[i] == pre[i]);
                }
                if j != k {
                    assert(playlists@[j] == pre[j]);
                }
                assert(playlists@[k as int].rating_index == pre[k as int].rating_index);
            }
        }
        k = k + 1;
    }

    PlaybackState {
        playing: true,
        progress: 5213,
        volume: Some(100),
        queue,
        queue_index: 7,
        playlists,
        interaction: false,
        last_interaction: 0,
        last_progress_update: 0,
    }
}

} // verus!
