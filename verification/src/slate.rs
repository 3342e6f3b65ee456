//! The canvas on which hits are counted, and its export as 16-bit grey levels.

use vstd::prelude::*;
use byte_slice_cast::AsByteSlice;

verus! {

/// Index of the pixel (x, y) in a row-major matrix whose rows hold `x_size` pixels.
pub open spec fn offset_of(x_size: u32, x: u32, y: u32) -> int {
    y * x_size + x
}

/// The matrix after counting one hit at (x, y), or `None` where counting it
/// would overflow the 32-bit offset, fall outside the matrix or overflow the
/// pixel's 16-bit counter.
pub open spec fn hit(matrix: Seq<u16>, x_size: u32, x: u32, y: u32) -> Option<Seq<u16>> {
    let o = offset_of(x_size, x, y);
    if o > u32::MAX || o >= matrix.len() || matrix[o] == u16::MAX {
        None
    } else {
        Some(matrix.update(o, (matrix[o] + 1) as u16))
    }
}

/// The matrix after counting the hits of `coords` one after the other, or
/// `None` where one of them cannot be counted.
pub open spec fn hits(matrix: Seq<u16>, x_size: u32, coords: Seq<(u32, u32, u16)>) -> Option<Seq<u16>>
    decreases coords.len(),
{
    if coords.len() == 0 {
        Some(matrix)
    } else {
        match hits(matrix, x_size, coords.drop_last()) {
            Some(m) => hit(m, x_size, coords.last().0, coords.last().1),
            None => None,
        }
    }
}

/// Counting the hits of a prefix of `coords` succeeds where counting all of
/// them does, and one more hit extends the prefix by one step.
pub proof fn lemma_hits_prefix(matrix: Seq<u16>, x_size: u32, coords: Seq<(u32, u32, u16)>, k: int)
    requires
        0 <= k < coords.len(),
    ensures
        hits(matrix, x_size, coords.take(k + 1)) == (match hits(matrix, x_size, coords.take(k)) {
            Some(m) => hit(m, x_size, coords[k].0, coords[k].1),
            None => None,
        }),
{
    assert(coords.take(k + 1).drop_last() =~= coords.take(k));
}

/// Where all hits of `coords` can be counted, so can those of each prefix.
pub proof fn lemma_hits_prefix_some(matrix: Seq<u16>, x_size: u32, coords: Seq<(u32, u32, u16)>, k: int)
    requires
        0 <= k <= coords.len(),
        hits(matrix, x_size, coords) is Some,
    ensures
        hits(matrix, x_size, coords.take(k)) is Some,
    decreases coords.len() - k,
{
    if k == coords.len() {
        assert(coords.take(k) =~= coords);
    } else {
        lemma_hits_prefix_some(matrix, x_size, coords, k + 1);
        lemma_hits_prefix(matrix, x_size, coords, k);
    }
}

/// The sum of the counters of `s`.
pub open spec fn total_count(s: Seq<u16>) -> int
    decreases s.len(),
{
    if s.len() == 0 {
        0
    } else {
        total_count(s.drop_last()) + s.last()
    }
}

/// Raising one counter by one raises the sum by one.
proof fn lemma_total_count_update(s: Seq<u16>, o: int, v: u16)
    requires
        0 <= o < s.len(),
        v == s[o] + 1,
    ensures
        total_count(s.update(o, v)) == total_count(s) + 1,
    decreases s.len(),
{
    let t = s.update(o, v);
    if o == s.len() - 1 {
        assert(t.drop_last() =~= s.drop_last());
    } else {
        assert(t.drop_last() =~= s.drop_last().update(o, v));
        lemma_total_count_update(s.drop_last(), o, v);
    }
}

/// Counting a run of hits raises the sum of the counters by the number of
/// hits: every hit is counted once, on one pixel.
pub proof fn lemma_hits_count_once(matrix: Seq<u16>, x_size: u32, coords: Seq<(u32, u32, u16)>)
    requires
        hits(matrix, x_size, coords) is Some,
    ensures
        hits(matrix, x_size, coords)->Some_0.len() == matrix.len(),
        total_count(hits(matrix, x_size, coords)->Some_0) == total_count(matrix) + coords.len(),
    decreases coords.len(),
{
    if coords.len() > 0 {
        let m = hits(matrix, x_size, coords.drop_last())->Some_0;
        lemma_hits_count_once(matrix, x_size, coords.drop_last());
        let o = offset_of(x_size, coords.last().0, coords.last().1);
        lemma_total_count_update(m, o, (m[o] + 1) as u16);
    }
}

/// `m` is the greatest value of `s` (0 for an empty sequence).
pub open spec fn is_max_of(m: u16, s: Seq<u16>) -> bool {
    &&& forall|i: int| 0 <= i < s.len() ==> s[i] <= m
    &&& (m == 0 || exists|i: int| 0 <= i < s.len() && s[i] == m)
}

/// The grey level of a pixel counted `count` times on a canvas whose
/// brightest pixel was counted `max` times: scaled so that `max` is white.
pub open spec fn normalized(count: u16, max: u16) -> u16 {
    if max > 0 {
        ((count as int * 65535) / max as int) as u16
    } else {
        0
    }
}

/// Scaling keeps the order of the counters.
pub proof fn lemma_normalized_monotone(p: u16, q: u16, max: u16)
    requires
        p <= q <= max,
    ensures
        normalized(p, max) <= normalized(q, max),
        normalized(q, max) <= 65535,
{
    if max > 0 {
        assert((p as int) * 65535 <= (q as int) * 65535) by (nonlinear_arith)
            requires p <= q;
        vstd::arithmetic::div_mod::lemma_div_is_ordered((p as int) * 65535, (q as int) * 65535, max as int);
        assert(((q as int) * 65535) / (max as int) <= 65535) by (nonlinear_arith)
            requires q <= max, max > 0;
        vstd::arithmetic::div_mod::lemma_div_pos_is_pos((p as int) * 65535, max as int);
    }
}

/// The brightest pixel of a canvas with any hit is white.
pub proof fn lemma_brightest_is_white(max: u16)
    requires
        max > 0,
    ensures
        normalized(max, max) == 65535,
{
    assert(((max as int) * 65535) / (max as int) == 65535) by (nonlinear_arith)
        requires max > 0;
}

/// `bytes` holds each word of `words` as two bytes, low byte first.
pub open spec fn little_endian(words: Seq<u16>, bytes: Seq<u8>) -> bool {
    &&& bytes.len() == 2 * words.len()
    &&& forall|i: int| 0 <= i < words.len() ==> #[trigger] bytes[2 * i] == (words[i] % 256) as u8
        && bytes[2 * i + 1] == (words[i] / 256) as u8
}

/// `bytes` holds each word of `words` as two bytes, high byte first.
pub open spec fn big_endian(words: Seq<u16>, bytes: Seq<u8>) -> bool {
    &&& bytes.len() == 2 * words.len()
    &&& forall|i: int| 0 <= i < words.len() ==> #[trigger] bytes[2 * i] == (words[i] / 256) as u8
        && bytes[2 * i + 1] == (words[i] % 256) as u8
}

/// The bytes of `words` as they lie in memory, copied out of
/// `byte_slice_cast`'s `AsByteSlice::as_byte_slice` view of the slice.  That
/// view reinterprets the slice's memory, so every word appears in the
/// machine's byte order: two bytes per word, all low byte first or all high
/// byte first.  Which of the two depends on the machine and is not stated.
#[verifier::external_body]
fn native_bytes(words: &[u16]) -> (bytes: Vec<u8>)
    ensures
        little_endian(words@, bytes@) || big_endian(words@, bytes@),
{
    words.as_byte_slice().to_vec()
}

/// A matrix of hit counters, one per pixel of the rendered view.
pub struct Slate {
    x_size: u32,
    y_size: u32,
    max: u16,
    matrix: Vec<u16>,
}

impl Slate {
    /// Pixels per row.
    pub closed spec fn width(&self) -> u32 {
        self.x_size
    }

    /// Number of rows.
    pub closed spec fn height(&self) -> u32 {
        self.y_size
    }

    /// The counters, row after row.
    pub closed spec fn pixels(&self) -> Seq<u16> {
        self.matrix@
    }

    /// The greatest counter.
    pub closed spec fn brightest(&self) -> u16 {
        self.max
    }

    /// The recorded maximum is the greatest counter.
    pub open spec fn wf(&self) -> bool {
        &&& is_max_of(self.brightest(), self.pixels())
        &&& self.pixels().len() == (self.width() as i32) * (self.height() as i32)
        &&& self.pixels().len() <= i32::MAX
    }

    /// A blank canvas for a view of `x_size` by `y_size` pixels.
    pub fn from_view(x_size: i32, y_size: i32) -> (slate: Slate)
        requires
            0 <= x_size * y_size <= i32::MAX,
        ensures
            slate.wf(),
            slate.width() == x_size as u32,
            slate.height() == y_size as u32,
            slate.brightest() == 0,
            slate.pixels() == Seq::new((x_size * y_size) as nat, |i: int| 0u16),
    {
        let n = x_size * y_size;
        let matrix: Vec<u16> = vec![0u16; n as usize];
        proof {
            assert((x_size as u32) as i32 == x_size) by (bit_vector);
            assert((y_size as u32) as i32 == y_size) by (bit_vector);
        }
        let slate = Slate { x_size: x_size as u32, y_size: y_size as u32, max: 0, matrix };
        assert(slate.matrix@ =~= Seq::new((x_size * y_size) as nat, |i: int| 0u16));
        slate
    }

    /// Pixels per row.
    pub fn x_size(&self) -> (r: u32)
        ensures
            r == self.width(),
    {
        self.x_size
    }

    /// Number of rows.
    pub fn y_size(&self) -> (r: u32)
        ensures
            r == self.height(),
    {
        self.y_size
    }

    /// The greatest counter.
    pub fn max(&self) -> (r: u16)
        ensures
            r == self.brightest(),
    {
        self.max
    }

    /// The index of pixel (x, y) in the matrix.
    pub fn compute_offset(&self, x: u32, y: u32) -> (offset: usize)
        requires
            offset_of(self.width(), x, y) <= u32::MAX,
        ensures
            offset == offset_of(self.width(), x, y),
    {
        (y * self.x_size + x) as usize
    }

    /// Counts one hit at pixel (x, y).
    pub fn increment(&mut self, x: u32, y: u32)
        requires
            old(self).wf(),
            hit(old(self).pixels(), old(self).width(), x, y) is Some,
        ensures
            final(self).wf(),
            final(self).pixels() == hit(old(self).pixels(), old(self).width(), x, y)->Some_0,
            final(self).brightest() == ({
                let v = final(self).pixels()[offset_of(old(self).width(), x, y)];
                if old(self).brightest() < v { v } else { old(self).brightest() }
            }),
            final(self).width() == old(self).width(),
            final(self).height() == old(self).height(),
    {
        let offset: usize = self.compute_offset(x, y);
        let v = self.matrix[offset] + 1;
        self.matrix.set(offset, v);
        if self.max < self.matrix[offset] {
            self.max = self.matrix[offset];
        }
        proof {
            let old_m = old(self).matrix@;
            let new_m = self.matrix@;
            assert forall|i: int| 0 <= i < new_m.len() implies new_m[i] <= self.max by {
                if i != offset {
                    assert(new_m[i] == old_m[i]);
                }
            }
            if self.max != 0 && self.max != v {
                assert(self.max == old(self).max);
                let j = choose|j: int| 0 <= j < old_m.len() && old_m[j] == old(self).max;
                assert(j != offset);
                assert(new_m[j] == self.max);
            }
        }
    }

    /// Whether all hits of `coords` can be counted on this canvas, one after
    /// the other, without an offset, index or counter overflow.
    pub fn accepts(&self, coords: &[(u32, u32, u16)]) -> (r: bool)
        ensures
            r == hits(self.pixels(), self.width(), coords@) is Some,
    {
        let mut scratch: Vec<u16> = self.matrix.clone();
        let mut k: usize = 0;
        while k < coords.len()
            invariant
                k <= coords.len(),
                hits(self.matrix@, self.x_size, coords@.take(k as int)) == Some(scratch@),
            decreases coords.len() - k,
        {
            proof {
                lemma_hits_prefix(self.matrix@, self.x_size, coords@, k as int);
            }
            let (x, y, _) = coords[k];
            proof {
                let xs = self.x_size;
                assert((y as int) * (xs as int) <= 0xffff_ffff * 0xffff_ffff) by (nonlinear_arith)
                    requires
                        y <= 0xffff_ffff,
                        xs <= 0xffff_ffff,
                ;
            }
            let row = (y as u64) * (self.x_size as u64);
            if row + (x as u64) > u32::MAX as u64 {
                proof {
                    if hits(self.matrix@, self.x_size, coords@) is Some {
                        lemma_hits_prefix_some(self.matrix@, self.x_size, coords@, k + 1);
                    }
                }
                return false;
            }
            let o = (y * self.x_size + x) as usize;
            if o >= scratch.len() || scratch[o] == u16::MAX {
                proof {
                    if hits(self.matrix@, self.x_size, coords@) is Some {
                        lemma_hits_prefix_some(self.matrix@, self.x_size, coords@, k + 1);
                    }
                }
                return false;
            }
            let v = scratch[o] + 1;
            scratch.set(o, v);
            k += 1;
        }
        assert(coords@.take(coords.len() as int) =~= coords@);
        true
    }

    /// Counts the hits of `coords`, one after the other.
    pub fn absorb(&mut self, coords: &[(u32, u32, u16)])
        requires
            old(self).wf(),
            hits(old(self).pixels(), old(self).width(), coords@) is Some,
        ensures
            final(self).wf(),
            final(self).pixels() == hits(old(self).pixels(), old(self).width(), coords@)->Some_0,
            final(self).width() == old(self).width(),
            final(self).height() == old(self).height(),
    {
        let mut k: usize = 0;
        while k < coords.len()
            invariant
                k <= coords.len(),
                self.wf(),
                self.x_size == old(self).x_size,
                self.y_size == old(self).y_size,
                hits(old(self).matrix@, self.x_size, coords@) is Some,
                hits(old(self).matrix@, self.x_size, coords@.take(k as int)) == Some(self.matrix@),
            decreases coords.len() - k,
        {
            proof {
                lemma_hits_prefix(old(self).matrix@, self.x_size, coords@, k as int);
                lemma_hits_prefix_some(old(self).matrix@, self.x_size, coords@, k + 1);
            }
            let (x, y, _) = coords[k];
            self.increment(x, y);
            k += 1;
        }
        assert(coords@.take(coords.len() as int) =~= coords@);
    }

    /// Every counter scaled so that the brightest pixel is white (65535);
    /// all black when nothing was counted.
    pub fn normalized_pixels(&self) -> (r: Vec<u16>)
        requires
            self.wf(),
        ensures
            r@.len() == self.pixels().len(),
            forall|i: int| 0 <= i < r@.len() ==> #[trigger] r@[i] == normalized(self.pixels()[i], self.brightest()),
    {
        let mut r: Vec<u16> = Vec::with_capacity(self.matrix.len());
        let mut i: usize = 0;
        while i < self.matrix.len()
            invariant
                i <= self.matrix.len(),
                self.wf(),
                r@.len() == i,
                forall|j: int| 0 <= j < i ==> #[trigger] r@[j] == normalized(self.matrix@[j], self.max),
            decreases self.matrix.len() - i,
        {
            let pixel = self.matrix[i];
            let v: u16 = if self.max > 0 {
                let p = pixel as u32;
                let m = self.max as u32;
                proof {
                    assert(pixel <= self.max);
                    assert((p as int) * 65535 <= 65535 * 65535) by (nonlinear_arith)
                        requires p <= 65535;
                    assert(((p as int) * 65535) / (m as int) <= 65535) by (nonlinear_arith)
                        requires p <= m, m > 0;
                }
                (p * (u16::MAX as u32) / m) as u16
            } else {
                0
            };
            r.push(v);
            i += 1;
        }
        r
    }

    /// The grey levels of `normalized_pixels`, each as two bytes with the
    /// high byte first, whatever the byte order of the machine.
    pub fn pixel_bytes(&self) -> (r: Vec<u8>)
        requires
            self.wf(),
        ensures
            big_endian(
                Seq::new(self.pixels().len(), |i: int| normalized(self.pixels()[i], self.brightest())),
                r@,
            ),
    {
        let normalized_pixels = self.normalized_pixels();
        // A leading 1 tells the byte order of the machine.
        let mut words: Vec<u16> = Vec::new();
        words.push(1u16);
        let mut i: usize = 0;
        while i < normalized_pixels.len()
            invariant
                i <= normalized_pixels.len(),
                words@.len() == i + 1,
                normalized_pixels@.len() <= i32::MAX,
                words@[0] == 1,
                forall|j: int| 0 <= j < i ==> words@[j + 1] == normalized_pixels@[j],
            decreases normalized_pixels.len() - i,
        {
            words.push(normalized_pixels[i]);
            i += 1;
        }
        let native = native_bytes(words.as_slice());
        proof {
            if little_endian(words@, native@) {
                assert(native@[2 * 0int] == (words@[0] % 256) as u8);
            } else {
                assert(native@[2 * 0int] == (words@[0] / 256) as u8);
            }
        }
        let host_is_big_endian = native[0] == 0;
        let ghost target = Seq::new(self.pixels().len(), |i: int| normalized(self.pixels()[i], self.brightest()));
        assert(host_is_big_endian ==> big_endian(words@, native@));
        assert(!host_is_big_endian ==> little_endian(words@, native@));
        let mut r: Vec<u8> = Vec::new();
        let mut i: usize = 0;
        while i < normalized_pixels.len()
            invariant
                i <= normalized_pixels.len(),
                normalized_pixels@.len() == target.len(),
                normalized_pixels@.len() <= i32::MAX,
                forall|j: int| 0 <= j < normalized_pixels@.len() ==> normalized_pixels@[j] == target[j],
                words@.len() == normalized_pixels@.len() + 1,
                forall|j: int| 0 <= j < normalized_pixels@.len() ==> words@[j + 1] == normalized_pixels@[j],
                host_is_big_endian ==> big_endian(words@, native@),
                !host_is_big_endian ==> little_endian(words@, native@),
                r@.len() == 2 * i,
                forall|j: int| 0 <= j < i ==> #[trigger] r@[2 * j] == (target[j] / 256) as u8
                    && r@[2 * j + 1] == (target[j] % 256) as u8,
            decreases normalized_pixels.len() - i,
        {
            let ghost w = (i + 1) as int;
            let ghost prev = r@;
            assert(native@[2 * w] == native@[2 * i + 2]);
            if host_is_big_endian {
                r.push(native[2 * i + 2]);
                r.push(native[2 * i + 3]);
            } else {
                r.push(native[2 * i + 3]);
                r.push(native[2 * i + 2]);
            }
            proof {
                assert(r@[2 * (i as int)] == (target[i as int] / 256) as u8);
                assert forall|j: int| 0 <= j < i + 1 implies #[trigger] r@[2 * j] == (target[j] / 256) as u8
                    && r@[2 * j + 1] == (target[j] % 256) as u8 by {
                    if j < i {
                        assert(r@[2 * j] == prev[2 * j]);
                        assert(r@[2 * j + 1] == prev[2 * j + 1]);
                    }
                }
            }
            i += 1;
        }
        r
    }
}

} // verus!
