//! The headers of a JPEG, as far as they tell whether its scans can be counted in 16 bits.
//!
//! The `jpeg_decoder` crate counts the blocks of a scan of one component in 16 bits, and compares
//! eight times the count with the size of the frame. With more than 65528 lines this overflows after
//! the last block row of a component that is not subsampled vertically. With more than 65528 columns
//! it overflows at the last block of a row, where the component has the horizontal sampling factor
//! 3 and no other has a larger one: only then are there more than 8192 blocks in a row.

use vstd::prelude::*;

verus! {

/// The most lines, or columns, of which a scan of one component can always be counted.
pub const COUNTABLE: u16 = 65528;

/// A number of two bytes, the high one first.
pub open spec fn number_at(data: Seq<u8>, i: int) -> int {
    data[i] * 256 + data[i + 1]
}

/// Whether the code of a marker stands at a position: after a byte `FF`, and neither a stuffed zero
/// nor another `FF` that fills.
pub open spec fn is_marker(data: Seq<u8>, m: int) -> bool {
    1 <= m < data.len() && data[m - 1] == 0xFF && data[m] != 0 && data[m] != 0xFF
}

/// The position of the first marker code after the byte at `p`, which may be its `FF`; the end of
/// the data where there is none.
pub open spec fn next_marker(data: Seq<u8>, p: int) -> int
    decreases data.len() - p,
{
    if p + 1 >= data.len() {
        data.len() as int
    } else if is_marker(data, p + 1) {
        p + 1
    } else {
        next_marker(data, p + 1)
    }
}

/// Whether a marker begins a segment that may come before the frame header: tables, the restart
/// interval, application data or a comment.
pub open spec fn is_preamble(code: u8) -> bool {
    code == 0xC4 || code == 0xDB || code == 0xDD || 0xE0 <= code <= 0xEF || code == 0xFE
}

/// The position of the marker code of the frame header, where the segments from `p` on lead to the
/// header of a sequential or progressive frame.
pub open spec fn frame_marker(data: Seq<u8>, p: int) -> Option<int>
    decreases data.len() - p,
{
    let m = next_marker(data, p);
    if !(p < m < data.len()) {
        None
    } else if 0xC0 <= data[m] <= 0xC2 {
        Some(m)
    } else if is_preamble(data[m]) && m + 2 < data.len() && number_at(data, m + 1) >= 2 && m + 1
        + number_at(data, m + 1) <= data.len() {
        frame_marker(data, m + 1 + number_at(data, m + 1))
    } else {
        None
    }
}

/// How many components a frame has, from the position of its marker code.
pub open spec fn components(data: Seq<u8>, m: int) -> int {
    data[m + 8] as int
}

/// The horizontal sampling factor of a component.
pub open spec fn horizontal(data: Seq<u8>, m: int, c: int) -> int {
    data[m + 10 + 3 * c] as int / 16
}

/// The vertical sampling factor of a component.
pub open spec fn vertical(data: Seq<u8>, m: int, c: int) -> int {
    data[m + 10 + 3 * c] as int % 16
}

/// Whether a component is the one with the largest vertical factor, or one of several.
pub open spec fn is_tallest(data: Seq<u8>, m: int, c: int) -> bool {
    forall|d: int|
        0 <= d < components(data, m) ==> #[trigger] vertical(data, m, d) <= vertical(data, m, c)
}

/// Whether a component is the one with the largest horizontal factor, or one of several.
pub open spec fn is_widest(data: Seq<u8>, m: int, c: int) -> bool {
    forall|d: int|
        0 <= d < components(data, m) ==> #[trigger] horizontal(data, m, d) <= horizontal(
            data,
            m,
            c,
        )
}

/// Whether a scan of this component alone cannot be counted in 16 bits.
pub open spec fn is_uncountable(data: Seq<u8>, m: int, c: int) -> bool {
    ||| number_at(data, m + 4) > COUNTABLE && is_tallest(data, m, c)
    ||| number_at(data, m + 6) > COUNTABLE && horizontal(data, m, c) == 3 && is_widest(data, m, c)
}

/// Whether the header of a scan of one component, and of which, has its marker code at a position.
pub open spec fn is_scan_of(data: Seq<u8>, j: int, id: u8) -> bool {
    &&& is_marker(data, j) && data[j] == 0xDA
    &&& j + 4 < data.len()
    &&& data[j + 1] == 0 && data[j + 2] == 8 && data[j + 3] == 1 && data[j + 4] == id
}

/// Whether a frame has a scan of one component that cannot be counted in 16 bits.
pub open spec fn scan_overflows(data: Seq<u8>, m: int) -> bool {
    let end = m + 9 + 3 * components(data, m);
    &&& m + 8 < data.len() && end <= data.len()
    &&& exists|c: int, j: int|
        0 <= c < components(data, m) && end < j && #[trigger] is_uncountable(data, m, c)
            && #[trigger] is_scan_of(data, j, data[m + 9 + 3 * c])
}

/// Whether a JPEG has a scan of one component that cannot be counted in 16 bits.
pub open spec fn overflows(data: Seq<u8>) -> bool {
    match frame_marker(data, 2) {
        Some(m) => scan_overflows(data, m),
        None => false,
    }
}

fn find_marker(data: &[u8], p: usize) -> (r: usize)
    requires
        p <= data@.len(),
    ensures
        r == next_marker(data@, p as int),
        r <= data@.len(),
{
    let n: usize = data.len();
    let mut q: usize = p;
    while n > 0 && q < n - 1
        invariant
            n == data@.len(),
            q <= n,
            next_marker(data@, p as int) == next_marker(data@, q as int),
        decreases n - q,
    {
        if data[q] == 0xFF && data[q + 1] != 0 && data[q + 1] != 0xFF {
            return q + 1;
        }
        q += 1;
    }
    n
}

fn find_frame(data: &[u8]) -> (r: Option<usize>)
    ensures
        match r {
            Some(m) => frame_marker(data@, 2) == Some(m as int) && m < data@.len(),
            None => frame_marker(data@, 2) is None,
        },
{
    let n: usize = data.len();
    if n < 2 {
        return None;
    }
    let mut p: usize = 2;
    loop
        invariant
            n == data@.len(),
            p <= n,
            frame_marker(data@, 2) == frame_marker(data@, p as int),
        decreases n - p,
    {
        let m: usize = find_marker(data, p);
        if m <= p || m >= n {
            return None;
        }
        let code: u8 = data[m];
        if 0xC0 <= code && code <= 0xC2 {
            return Some(m);
        }
        let preamble = code == 0xC4 || code == 0xDB || code == 0xDD || (0xE0 <= code && code
            <= 0xEF) || code == 0xFE;
        if !preamble || n - m <= 2 {
            return None;
        }
        let length: usize = data[m + 1] as usize * 256 + data[m + 2] as usize;
        if length < 2 || length >= n - m {
            return None;
        }
        p = m + 1 + length;
    }
}

fn uncountable(data: &[u8], m: usize, c: usize) -> (r: bool)
    requires
        m + 8 < data@.len(),
        m + 9 + 3 * components(data@, m as int) <= data@.len(),
        c < components(data@, m as int),
    ensures
        r == is_uncountable(data@, m as int, c as int),
{
    let size: usize = data.len();
    let n: usize = data[m + 8] as usize;
    let lines: u32 = data[m + 4] as u32 * 256 + data[m + 5] as u32;
    let columns: u32 = data[m + 6] as u32 * 256 + data[m + 7] as u32;
    let own: u8 = data[m + 10 + 3 * c];
    let mut tallest = true;
    let mut widest = true;
    for d in 0..n
        invariant
            size == data@.len(),
            n == components(data@, m as int),
            m + 8 < size,
            m + 9 + 3 * n <= size,
            c < n,
            own == data@[m + 10 + 3 * c],
            tallest == forall|e: int|
                0 <= e < d ==> #[trigger] vertical(data@, m as int, e) <= vertical(
                    data@,
                    m as int,
                    c as int,
                ),
            widest == forall|e: int|
                0 <= e < d ==> #[trigger] horizontal(data@, m as int, e) <= horizontal(
                    data@,
                    m as int,
                    c as int,
                ),
    {
        let factors: u8 = data[m + 10 + 3 * d];
        proof {
            assert(vertical(data@, m as int, d as int) == factors % 16);
            assert(horizontal(data@, m as int, d as int) == factors / 16);
        }
        if factors % 16 > own % 16 {
            tallest = false;
        }
        if factors / 16 > own / 16 {
            widest = false;
        }
    }
    (lines > COUNTABLE as u32 && tallest) || (columns > COUNTABLE as u32 && own / 16 == 3 && widest)
}

fn has_scan_of(data: &[u8], from: usize, id: u8) -> (r: bool)
    requires
        from <= data@.len(),
    ensures
        r == exists|j: int| from < j && #[trigger] is_scan_of(data@, j, id),
{
    let n: usize = data.len();
    let mut p: usize = from;
    while n > 5 && p < n - 5
        invariant
            n == data@.len(),
            from <= p <= n,
            forall|j: int| from < j <= p ==> !#[trigger] is_scan_of(data@, j, id),
        decreases n - p,
    {
        if data[p] == 0xFF && data[p + 1] == 0xDA && data[p + 2] == 0 && data[p + 3] == 8 && data[p
            + 4] == 1 && data[p + 5] == id {
            proof {
                assert(is_scan_of(data@, p + 1, id));
            }
            return true;
        }
        p += 1;
    }
    false
}

/// Whether a JPEG has a scan of one component that cannot be counted in 16 bits.
pub fn has_overflow(data: &[u8]) -> (r: bool)
    ensures
        r == overflows(data@),
{
    let m: usize = match find_frame(data) {
        Some(m) => m,
        None => {
            return false;
        },
    };
    let size: usize = data.len();
    if size - m <= 8 {
        return false;
    }
    let n: usize = data[m + 8] as usize;
    if size - m < 9 + 3 * n {
        return false;
    }
    let end: usize = m + 9 + 3 * n;
    for c in 0..n
        invariant
            size == data@.len(),
            frame_marker(data@, 2) == Some(m as int),
            m + 8 < size,
            n == components(data@, m as int),
            end == m + 9 + 3 * n,
            end <= size,
            forall|e: int, j: int|
                0 <= e < c && end < j && #[trigger] is_uncountable(data@, m as int, e)
                    ==> !#[trigger] is_scan_of(data@, j, data@[m + 9 + 3 * e]),
    {
        if uncountable(data, m, c) && has_scan_of(data, end, data[m + 9 + 3 * c]) {
            proof {
                let id = data@[m + 9 + 3 * c];
                let j = choose|j: int| end < j && #[trigger] is_scan_of(data@, j, id);
                assert(is_uncountable(data@, m as int, c as int));
                assert(is_scan_of(data@, j, data@[m + 9 + 3 * c as int]));
            }
            return true;
        }
    }
    false
}

// ---------------------------------------------------------------------------------------------
// Laws
// ---------------------------------------------------------------------------------------------

/// A marker is a byte other than 0 and FF behind an FF. The next one is the first of its kind behind a
/// place; where there is none, it is the end of the data.
pub proof fn next_markers_are_first(data: Seq<u8>, p: int)
    requires
        0 <= p < data.len(),
    ensures
        p < next_marker(data, p) <= data.len(),
        next_marker(data, p) < data.len() ==> data[next_marker(data, p) - 1] == 0xFF && data[next_marker(
            data,
            p,
        )] != 0 && data[next_marker(data, p)] != 0xFF,
        forall|m: int|
            p < m < next_marker(data, p) ==> !(data[m - 1] == 0xFF && #[trigger] data[m] != 0
                && data[m] != 0xFF),
    decreases data.len() - p,
{
    if p + 1 < data.len() && !is_marker(data, p + 1) {
        next_markers_are_first(data, p + 1);
    }
}

/// The frame of a picture is one of the first three kinds, and it is found behind segments whose
/// lengths count their two bytes, the high one first.
pub proof fn frames_are_found_behind_segments(data: Seq<u8>, p: int)
    requires
        0 <= p < data.len(),
    ensures
        frame_marker(data, p) matches Some(m) ==> p < m < data.len() && data[m - 1] == 0xFF && 0xC0
            <= data[m] <= 0xC2,
        ({
            let m = next_marker(data, p);
            m < data.len() && 0xC0 <= data[m] <= 0xC2 ==> frame_marker(data, p) == Some(m)
        }),
        ({
            let m = next_marker(data, p);
            m + 2 < data.len() && 0xE0 <= data[m] <= 0xEF ==> {
                let next = m + 1 + 256 * data[m + 1] + data[m + 2];
                256 * data[m + 1] + data[m + 2] >= 2 && next <= data.len() ==> frame_marker(data, p)
                    == frame_marker(data, next)
            }
        }),
    decreases data.len() - p,
{
    next_markers_are_first(data, p);
    let m = next_marker(data, p);
    if m + 2 < data.len() && is_preamble(data[m]) && !(0xC0 <= data[m] <= 0xC2) {
        let next = m + 1 + number_at(data, m + 1);
        if number_at(data, m + 1) >= 2 && next < data.len() {
            frames_are_found_behind_segments(data, next);
        } else if next == data.len() {
            assert(next_marker(data, next) == data.len());
        }
    }
}

/// A picture whose height, in the fourth and the fifth byte behind its marker, is small enough, and
/// whose width, in the two bytes behind them, is too, does not overflow.
pub proof fn small_pictures_do_not_overflow(data: Seq<u8>, m: int)
    requires
        frame_marker(data, 2) == Some(m),
        256 * data[m + 4] + data[m + 5] <= 65528,
        256 * data[m + 6] + data[m + 7] <= 65528,
    ensures
        !overflows(data),
{
}

/// A picture overflows only in a scan of a single component, and only where this component is as high
/// as any other and the height is too large, or three blocks wide, as wide as any other, and the width
/// is too large.
pub proof fn overflows_need_a_scan_of_one_component(data: Seq<u8>)
    requires
        overflows(data),
    ensures
        exists|m: int, c: int, j: int|
            {
                &&& frame_marker(data, 2) == Some(m)
                &&& 0 <= c < data[m + 8]
                &&& m + 9 + 3 * data[m + 8] < j && j + 4 < data.len()
                &&& data[j - 1] == 0xFF && data[j] == 0xDA && data[j + 3] == 1 && #[trigger] data[j + 4]
                    == #[trigger] data[m + 9 + 3 * c]
                &&& {
                    ||| 256 * data[m + 4] + data[m + 5] > 65528 && forall|d: int|
                        0 <= d < data[m + 8] ==> #[trigger] data[m + 10 + 3 * d] as int % 16
                            <= data[m + 10 + 3 * c] as int % 16
                    ||| 256 * data[m + 6] + data[m + 7] > 65528 && data[m + 10 + 3 * c] as int / 16
                        == 3 && forall|d: int|
                        0 <= d < data[m + 8] ==> #[trigger] data[m + 10 + 3 * d] as int / 16 <= 3
                }
            },
{
    let m = frame_marker(data, 2)->0;
    let end = m + 9 + 3 * components(data, m);
    let (c, j) = choose|c: int, j: int|
        0 <= c < components(data, m) && end < j && #[trigger] is_uncountable(data, m, c)
            && #[trigger] is_scan_of(data, j, data[m + 9 + 3 * c]);
    assert(data[j + 4] == data[m + 9 + 3 * c]);
    if number_at(data, m + 4) > COUNTABLE && is_tallest(data, m, c) {
        assert forall|d: int| 0 <= d < data[m + 8] implies #[trigger] data[m + 10 + 3 * d] as int % 16
            <= data[m + 10 + 3 * c] as int % 16 by {
            assert(vertical(data, m, d) <= vertical(data, m, c));
        }
    } else {
        assert forall|d: int| 0 <= d < data[m + 8] implies #[trigger] data[m + 10 + 3 * d] as int / 16
            <= 3 by {
            assert(horizontal(data, m, d) <= horizontal(data, m, c));
        }
    }
}

} // verus!
