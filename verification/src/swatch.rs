//! Album color-swatch planning: deciding which album artworks need a
//! palette computed, with the saturation filter and the artist-artwork
//! fallback.  The clustering itself is a pure function from pixels to a
//! fixed-size palette and runs outside this crate; its results come back
//! through `store_palette`.

use crate::cache::{ImageCache, StrMap};
use crate::state::Track;
use vstd::prelude::*;

verus! {

/// Number of swatches in a computed palette.
pub const NUM_SWATCHES: usize = 4;

/// A pixel is colourful when its channel spread exceeds this.
pub const SATURATION_THRESHOLD: u8 = 30;

/// The larger of two bytes.
pub open spec fn max2(a: u8, b: u8) -> u8 {
    if a >= b {
        a
    } else {
        b
    }
}

/// The smaller of two bytes.
pub open spec fn min2(a: u8, b: u8) -> u8 {
    if a <= b {
        a
    } else {
        b
    }
}

/// Whether an RGBA pixel counts as colourful: the spread between its
/// largest and smallest channel exceeds the saturation threshold.
pub open spec fn pixel_colourful(r: u8, g: u8, b: u8) -> bool {
    max2(max2(r, g), b) - min2(min2(r, g), b) > SATURATION_THRESHOLD
}

/// The RGBA bytes of the colourful pixels among the first `n` pixels.
pub open spec fn colourful_pixels(s: Seq<u8>, n: int) -> Seq<u8>
    decreases n,
    when 0 <= n && 4 * n <= s.len()
{
    if n <= 0 {
        Seq::empty()
    } else {
        let rest = colourful_pixels(s, n - 1);
        let base = 4 * (n - 1);
        if pixel_colourful(s[base], s[base + 1], s[base + 2]) {
            rest + s.subrange(base, base + 4)
        } else {
            rest
        }
    }
}

/// Keep the colourful pixels of an RGBA byte stream; the flag reports
/// whether any pixel was colourful.
pub fn filter_colourful_pixels(pixels: &Vec<u8>) -> (r: (Vec<u8>, bool))
    requires
        pixels@.len() % 4 == 0,
        pixels@.len() <= 100_000_000,
    ensures
        r.0@ == colourful_pixels(pixels@, (pixels@.len() / 4) as int),
        r.1 == (r.0@.len() > 0),
{
    let n: usize = pixels.len() / 4;
    let mut out: Vec<u8> = Vec::new();
    let mut i: usize = 0;
    while i < n
        invariant
            pixels@.len() % 4 == 0,
            pixels@.len() <= 100_000_000,
            n == pixels@.len() / 4,
            0 <= i <= n,
            out@ == colourful_pixels(pixels@, i as int),
        decreases n - i,
    {
        let base: usize = 4 * i;
        let r = pixels[base];
        let g = pixels[base + 1];
        let b = pixels[base + 2];
        let mx = if r >= g {
            r
        } else {
            g
        };
        let mx = if mx >= b {
            mx
        } else {
            b
        };
        let mn = if r <= g {
            r
        } else {
            g
        };
        let mn = if mn <= b {
            mn
        } else {
            b
        };
        if mx - mn > SATURATION_THRESHOLD {
            out.push(pixels[base]);
            out.push(pixels[base + 1]);
            out.push(pixels[base + 2]);
            out.push(pixels[base + 3]);
            proof {
                assert(out@ =~= colourful_pixels(pixels@, i as int) + pixels@.subrange(
                    4 * i as int,
                    4 * i as int + 4,
                ));
            }
        }
        i = i + 1;
    }
    let colourful = out.len() > 0;
    (out, colourful)
}

/// A palette computation job: the album and the pixel bytes to cluster.
pub struct PaletteJob {
    pub album_id: String,
    pub pixels: Vec<u8>,
}

/// The per-track palette decision over the cache views: `None` when the
/// track needs no work now (palette known, artwork missing or still
/// loading, or waiting for the artist fallback), otherwise the pixel
/// bytes to cluster.
pub open spec fn palette_decision(
    t: Track,
    images: Map<Seq<char>, Option<Vec<u8>>>,
    artists: Map<Seq<char>, Option<String>>,
    palettes: Map<Seq<char>, Option<[u32; 4]>>,
) -> Option<Seq<u8>> {
    if palettes.contains_key(t.album.id@) {
        None
    } else {
        match t.album.image {
            Some(url) => {
                if images.contains_key(url@) && images[url@] is Some {
                    let px = images[url@]->0@;
                    let filtered = colourful_pixels(px, px.len() as int / 4);
                    if filtered.len() > 0 {
                        Some(filtered)
                    } else {
                        if artists.contains_key(t.artist.id@) {
                            match artists[t.artist.id@] {
                                Some(aurl) => {
                                    if images.contains_key(aurl@) && images[aurl@] is Some {
                                        let apx = images[aurl@]->0@;
                                        let af = colourful_pixels(apx, apx.len() as int / 4);
                                        if af.len() > 0 {
                                            Some(af)
                                        } else {
                                            Some(px)
                                        }
                                    } else {
                                        None
                                    }
                                },
                                None => None,
                            }
                        } else {
                            None
                        }
                    }
                } else {
                    None
                }
            },
            None => None,
        }
    }
}

/// The palette map and job list after walking the queue from index `i`:
/// each track that yields a job also claims its album with an
/// in-progress sentinel, so an album is clustered at most once.
pub open spec fn palette_walk(
    queue: Seq<Track>,
    i: int,
    images: Map<Seq<char>, Option<Vec<u8>>>,
    artists: Map<Seq<char>, Option<String>>,
    palettes: Map<Seq<char>, Option<[u32; 4]>>,
) -> (Map<Seq<char>, Option<[u32; 4]>>, Seq<(Seq<char>, Seq<u8>)>)
    decreases queue.len() - i,
    when 0 <= i <= queue.len()
{
    if i >= queue.len() {
        (palettes, Seq::empty())
    } else {
        match palette_decision(queue[i], images, artists, palettes) {
            Some(px) => {
                let m2 = palettes.insert(queue[i].album.id@, None);
                let rest = palette_walk(queue, i + 1, images, artists, m2);
                (rest.0, seq![(queue[i].album.id@, px)] + rest.1)
            },
            None => palette_walk(queue, i + 1, images, artists, palettes),
        }
    }
}

/// Gather palette jobs for every queued album that has artwork loaded
/// but no palette yet, claiming each with a sentinel; albums whose
/// artwork is not colourful wait for (or fall back to) the artist's
/// artwork.
pub fn update_color_palettes(
    queue: &Vec<Track>,
    images: &ImageCache,
    artists: &StrMap<Option<String>>,
    palettes: &mut StrMap<Option<[u32; 4]>>,
) -> (jobs: Vec<PaletteJob>)
    requires
        images.images.wf(),
        artists.wf(),
        old(palettes).wf(),
        crate::cache::image_cache_wf(*images),
    ensures
        final(palettes).wf(),
        ({
            let walk = palette_walk(
                queue@,
                0,
                images.images.m(),
                artists.m(),
                old(palettes).m(),
            );
            &&& final(palettes).m() == walk.0
            &&& jobs@.map_values(|j: PaletteJob| (j.album_id@, j.pixels@)) == walk.1
        }),
{
    let ghost m0 = palettes.m();
    let mut jobs: Vec<PaletteJob> = Vec::new();
    let mut i: usize = 0;
    proof {
        assert(jobs@.map_values(|j: PaletteJob| (j.album_id@, j.pixels@)) + palette_walk(
            queue@,
            0,
            images.images.m(),
            artists.m(),
            palettes.m(),
        ).1 =~= palette_walk(queue@, 0, images.images.m(), artists.m(), palettes.m()).1);
    }
    while i < queue.len()
        invariant
            images.images.wf(),
            artists.wf(),
            palettes.wf(),
            0 <= i <= queue@.len(),
            crate::cache::image_cache_wf(*images),
            palette_walk(queue@, 0, images.images.m(), artists.m(), m0).0 == palette_walk(
                queue@,
                i as int,
                images.images.m(),
                artists.m(),
                palettes.m(),
            ).0,
            palette_walk(queue@, 0, images.images.m(), artists.m(), m0).1 == jobs@.map_values(
                |j: PaletteJob| (j.album_id@, j.pixels@),
            ) + palette_walk(queue@, i as int, images.images.m(), artists.m(), palettes.m()).1,
        decreases queue@.len() - i,
    {
        let ghost m_pre = palettes.m();
        let ghost decision = palette_decision(
            queue@[i as int],
            images.images.m(),
            artists.m(),
            m_pre,
        );
        let track = &queue[i];
        let mut claimed: bool = false;
        let mut job_pixels: Option<Vec<u8>> = None;
        if !palettes.contains_key(&track.album.id) {
            match &track.album.image {
                Some(url) => {
                    let entry = images.images.get(url);
                    match entry {
                        Some(slot) => {
                            match slot {
                                Some(px) => {
                                    let (filtered, colourful) = filter_colourful_pixels(px);
                                    if colourful {
                                        job_pixels = Some(filtered);
                                        claimed = true;
                                    } else {
                                        let artist_url = artists.get(&track.artist.id);
                                        let mut fallback: Option<Vec<u8>> = None;
                                        match artist_url {
                                            Some(opt_url) => {
                                                match opt_url {
                                                    Some(aurl) => {
                                                        let aentry = images.images.get(aurl);
                                                        match aentry {
                                                            Some(aslot) => {
                                                                match aslot {
                                                                    Some(apx) => {
                                                                        fallback = Some(
                                                                            apx.clone(),
                                                                        );
                                                                    },
                                                                    None => {},
                                                                }
                                                            },
                                                            None => {},
                                                        }
                                                    },
                                                    None => {},
                                                }
                                            },
                                            None => {},
                                        }
                                        match fallback {
                                            Some(apx) => {
                                                let (af, acolour) = filter_colourful_pixels(
                                                    &apx,
                                                );
                                                if acolour {
                                                    job_pixels = Some(af);
                                                } else {
                                                    job_pixels = Some(px.clone());
                                                }
                                                claimed = true;
                                            },
                                            None => {},
                                        }
                                    }
                                },
                                None => {},
                            }
                        },
                        None => {},
                    }
                },
                None => {},
            }
        }
        if claimed {
            let px = match job_pixels {
                Some(px) => px,
                None => Vec::new(),
            };
            proof {
                assert(decision matches Some(d) && d == px@);
            }
            palettes.insert(track.album.id.clone(), None);
            let ghost jobs_pre = jobs@;
            jobs.push(PaletteJob { album_id: track.album.id.clone(), pixels: px });
            proof {
                assert(jobs@.map_values(|j: PaletteJob| (j.album_id@, j.pixels@)) =~= jobs_pre.map_values(
                    |j: PaletteJob| (j.album_id@, j.pixels@),
                ) + seq![(queue@[i as int].album.id@, jobs@.last().pixels@)]);
            }
        } else {
            proof {
                assert(decision is None);
            }
        }
        i = i + 1;
    }
    proof {
        assert(jobs@.map_values(|j: PaletteJob| (j.album_id@, j.pixels@)) + Seq::<(
            Seq<char>,
            Seq<u8>,
        )>::empty() =~= jobs@.map_values(|j: PaletteJob| (j.album_id@, j.pixels@)));
    }
    jobs
}

/// Record a computed palette for an album.
pub fn store_palette(
    palettes: &mut StrMap<Option<[u32; 4]>>,
    album_id: String,
    colors: [u32; 4],
)
    requires
        old(palettes).wf(),
    ensures
        final(palettes).wf(),
        final(palettes).m() == old(palettes).m().insert(album_id@, Some(colors)),
{
    palettes.insert(album_id, Some(colors));
}

} // verus!
