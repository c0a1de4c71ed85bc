//! The streaming frame decoder.
//!
//! A streaming datagram is raw bytes: 3-byte RGB triplets laid out over
//! the channels in configured order, with no checksum, sequence number
//! or frame boundary. A short payload updates only the pixels it
//! covers; everything beyond keeps its prior value. The byte offset of
//! a channel advances by the channel's pixel count — not its byte
//! count — a quirk of the wire format kept exactly as the protocol has
//! it.

use vstd::prelude::*;

verus! {

/// One hardware pixel cell: the alpha/order byte and three color
/// bytes, as the driver's raw color lays them out.
#[derive(Clone, Copy, Debug, PartialEq, Eq, Structural)]
pub struct Pixel {
    pub w: u8,
    pub r: u8,
    pub g: u8,
    pub b: u8,
}

impl Pixel {
    /// The unlit cell every channel is cleared to at shutdown.
    pub open spec fn zero() -> Pixel {
        Pixel { w: 0, g: 0, r: 0, b: 0 }
    }
}

/// Byte offset at which channel `c`'s pixels start in the payload: the
/// number of pixels of the channels before it.
pub open spec fn chan_offset(chs: Seq<Seq<Pixel>>, c: int) -> int
    decreases c,
{
    if c <= 0 {
        0
    } else {
        chan_offset(chs, c - 1) + chs[c - 1].len()
    }
}

pub proof fn lemma_chan_offset_nonneg(chs: Seq<Seq<Pixel>>, c: int)
    ensures
        0 <= chan_offset(chs, c),
    decreases c,
{
    if c > 0 {
        lemma_chan_offset_nonneg(chs, c - 1);
    }
}

/// Whether payload `raw` covers pixel `i` of channel `c`.
pub open spec fn covers(chs: Seq<Seq<Pixel>>, raw: Seq<u8>, c: int, i: int) -> bool {
    chan_offset(chs, c) + 3 * i + 2 < raw.len()
}

/// The pixel decoded from the three payload bytes at `base`: fully
/// opaque, then red, green, blue.
pub open spec fn decoded_pixel(raw: Seq<u8>, base: int) -> Pixel {
    Pixel { w: 0xFF, r: raw[base], g: raw[base + 1], b: raw[base + 2] }
}

/// The per-channel pixel buffers after applying payload `raw`: every
/// covered pixel takes its decoded value, every other pixel keeps its
/// prior value.
pub open spec fn spec_decoded(chs: Seq<Seq<Pixel>>, raw: Seq<u8>) -> Seq<Seq<Pixel>> {
    Seq::new(
        chs.len(),
        |c: int|
            Seq::new(
                chs[c].len(),
                |i: int|
                    if covers(chs, raw, c, i) {
                        decoded_pixel(raw, chan_offset(chs, c) + 3 * i)
                    } else {
                        chs[c][i]
                    },
            ),
    )
}

/// The contents of per-channel buffers, as plain sequences.
pub open spec fn buffer_view(vs: Seq<Vec<Pixel>>) -> Seq<Seq<Pixel>> {
    Seq::new(vs.len(), |c: int| vs[c]@)
}

/// Every channel's last byte index stays within the machine's address
/// arithmetic.
pub open spec fn offsets_fit(chs: Seq<Seq<Pixel>>) -> bool {
    forall|c: int|
        0 <= c < chs.len() ==> chan_offset(chs, c) + 3 * (#[trigger] chs[c]).len() + 2
            <= usize::MAX
}

/// Maps a payload onto the per-channel pixel buffers: for each channel
/// in order, each covered pixel is overwritten with its decoded color,
/// fully opaque; pixels beyond the payload keep their prior value.
pub fn parse_and_update(channels: &mut Vec<Vec<Pixel>>, raw_data: &[u8])
    requires
        offsets_fit(buffer_view(old(channels)@)),
    ensures
        buffer_view(final(channels)@) == spec_decoded(buffer_view(old(channels)@), raw_data@),
{
    let ghost chs0 = buffer_view(old(channels)@);
    let mut offset: usize = 0;
    let mut c: usize = 0;
    while c < channels.len()
        invariant
            offsets_fit(chs0),
            chs0 == buffer_view(old(channels)@),
            channels@.len() == chs0.len(),
            c <= chs0.len(),
            offset == chan_offset(chs0, c as int),
            forall|k: int|
                0 <= k < chs0.len() ==> (#[trigger] channels@[k])@.len() == chs0[k].len(),
            forall|k: int|
                0 <= k < c ==> (#[trigger] channels@[k])@ == spec_decoded(chs0, raw_data@)[k],
            forall|k: int| c <= k < chs0.len() ==> (#[trigger] channels@[k])@ == chs0[k],
        decreases chs0.len() - c,
    {
        let len_c = channels[c].len();
        let mut strip: Vec<Pixel> = Vec::new();
        let mut i: usize = 0;
        while i < len_c
            invariant
                offsets_fit(chs0),
                chs0 == buffer_view(old(channels)@),
                channels@.len() == chs0.len(),
                c < chs0.len(),
                len_c == chs0[c as int].len(),
                (#[trigger] channels@[c as int])@ == chs0[c as int],
                offset == chan_offset(chs0, c as int),
                i <= len_c,
                strip@.len() == i,
                forall|j: int|
                    0 <= j < i ==> (#[trigger] strip@[j]) == spec_decoded(chs0, raw_data@)[c as int][j],
            decreases len_c - i,
        {
            let base = offset + 3 * i;
            let px = if base + 2 < raw_data.len() {
                Pixel {
                    w: 0xFF,
                    r: raw_data[base],
                    g: raw_data[base + 1],
                    b: raw_data[base + 2],
                }
            } else {
                channels[c][i]
            };
            strip.push(px);
            i = i + 1;
        }
        channels[c] = strip;
        offset = offset + len_c;
        c = c + 1;
    }
    proof {
        assert(buffer_view(channels@) =~= spec_decoded(chs0, raw_data@));
    }
}

/// Sets every pixel of one strip to the given color, fully opaque.
pub fn set_all_rgb(ledstrip: &mut Vec<Pixel>, r: u8, g: u8, b: u8)
    ensures
        final(ledstrip)@.len() == old(ledstrip)@.len(),
        forall|i: int|
            0 <= i < old(ledstrip)@.len() ==> final(ledstrip)@[i] == (Pixel { w: 0xFF, r, g, b }),
{
    let mut i: usize = 0;
    while i < ledstrip.len()
        invariant
            i <= ledstrip@.len(),
            ledstrip@.len() == old(ledstrip)@.len(),
            forall|j: int| 0 <= j < i ==> ledstrip@[j] == (Pixel { w: 0xFF, r, g, b }),
        decreases ledstrip@.len() - i,
    {
        ledstrip[i] = Pixel { w: 0xFF, r, g, b };
        i = i + 1;
    }
}

/// Clears every pixel of every channel to the unlit cell: what the
/// controller pushes to hardware before it exits, so that it never
/// leaves stale light on the strips.
pub fn clear_channels(channels: &mut Vec<Vec<Pixel>>)
    ensures
        final(channels)@.len() == old(channels)@.len(),
        forall|c: int|
            0 <= c < old(channels)@.len() ==> (#[trigger] final(channels)@[c])@.len()
                == old(channels)@[c]@.len(),
        forall|c: int, i: int|
            0 <= c < old(channels)@.len() && 0 <= i < old(channels)@[c]@.len()
                ==> (#[trigger] final(channels)@[c]@[i]) == Pixel::zero(),
{
    let mut c: usize = 0;
    while c < channels.len()
        invariant
            c <= channels@.len(),
            channels@.len() == old(channels)@.len(),
            forall|k: int|
                0 <= k < channels@.len() ==> (#[trigger] channels@[k])@.len()
                    == old(channels)@[k]@.len(),
            forall|k: int, i: int|
                0 <= k < c && 0 <= i < channels@[k]@.len() ==> (#[trigger] channels@[k]@[i])
                    == Pixel::zero(),
        decreases channels@.len() - c,
    {
        let n = channels[c].len();
        let mut strip: Vec<Pixel> = Vec::new();
        let mut i: usize = 0;
        while i < n
            invariant
                i <= n,
                strip@.len() == i,
                forall|j: int| 0 <= j < i ==> (#[trigger] strip@[j]) == Pixel::zero(),
            decreases n - i,
        {
            strip.push(Pixel { w: 0, r: 0, g: 0, b: 0 });
            i = i + 1;
        }
        channels[c] = strip;
        c = c + 1;
    }
}

// ---------------------------------------------------------------------
// Laws of the decoder
// ---------------------------------------------------------------------
/// Partial-update law: a pixel beyond the payload's coverage keeps its
/// prior value, whatever bytes arrived — in particular, noisy or
/// truncated payloads never disturb pixels they do not reach.
pub proof fn lemma_partial_update(chs: Seq<Seq<Pixel>>, raw: Seq<u8>, c: int, i: int)
    requires
        0 <= c < chs.len(),
        0 <= i < chs[c].len(),
        !covers(chs, raw, c, i),
    ensures
        spec_decoded(chs, raw)[c][i] == chs[c][i],
{
}

/// Idempotence under noise: an empty payload — a dropped or rejected
/// datagram — changes no pixel at all.
pub proof fn lemma_empty_payload_keeps_pixels(chs: Seq<Seq<Pixel>>, raw: Seq<u8>)
    requires
        raw.len() == 0,
    ensures
        spec_decoded(chs, raw) == chs,
{
    assert forall|c: int| 0 <= c < chs.len() implies spec_decoded(chs, raw)[c] == chs[c] by {
        lemma_chan_offset_nonneg(chs, c);
        assert(spec_decoded(chs, raw)[c] =~= chs[c]);
    }
    assert(spec_decoded(chs, raw) =~= chs);
}

/// The bytes a payload must hold to cover the whole pixel address
/// space: the largest last-byte bound over all channels.
pub open spec fn bytes_needed(chs: Seq<Seq<Pixel>>, n: int) -> int
    decreases n,
{
    if n <= 0 {
        0
    } else {
        let prev = bytes_needed(chs, n - 1);
        let this = chan_offset(chs, n - 1) + 3 * chs[n - 1].len();
        if prev < this {
            this
        } else {
            prev
        }
    }
}

proof fn lemma_bytes_needed_covers_channel(chs: Seq<Seq<Pixel>>, c: int, n: int)
    requires
        0 <= c < n <= chs.len(),
    ensures
        chan_offset(chs, c) + 3 * chs[c].len() <= bytes_needed(chs, n),
    decreases n,
{
    if c < n - 1 {
        lemma_bytes_needed_covers_channel(chs, c, n - 1);
    }
}

/// Full-overwrite law: a payload covering the whole pixel address
/// space overwrites every pixel, left to right in channel order, with
/// its decoded color.
pub proof fn lemma_full_overwrite(chs: Seq<Seq<Pixel>>, raw: Seq<u8>, c: int, i: int)
    requires
        0 <= c < chs.len(),
        0 <= i < chs[c].len(),
        bytes_needed(chs, chs.len() as int) <= raw.len(),
    ensures
        covers(chs, raw, c, i),
        spec_decoded(chs, raw)[c][i] == decoded_pixel(raw, chan_offset(chs, c) + 3 * i),
{
    lemma_bytes_needed_covers_channel(chs, c, chs.len() as int);
}

} // verus!
