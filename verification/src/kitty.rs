//! Framing of RGBA frames for the Kitty graphics protocol.
//!
//! A frame is base64-encoded and cut into chunks of at most 4096 bytes; each
//! chunk travels in its own APC escape sequence (`ESC _ G ... ; <chunk> ESC \`).
//! The first packet carries the full transmission header (`a=T,f=32,s=..,v=..`
//! and the optional cell size, `C=1` and `o=z` keys), later packets only
//! `q=2,m=..`; `m=1` announces that more chunks follow, `m=0` marks the last.
use vstd::prelude::*;
use crate::text::{ascii_bytes, decimal, decimal_bytes, push_ascii, push_bytes};
use base64::Engine;

verus! {

// ---------------------------------------------------------------------------
// base64 (standard alphabet, padded), through the `base64` crate
// ---------------------------------------------------------------------------

/// Name for what the `base64` crate's `STANDARD` engine (RFC 4648 alphabet,
/// `=` padding) produces for `data`.
pub uninterp spec fn base64_standard(data: Seq<u8>) -> Seq<u8>;

/// Length of the padded base64 encoding of `n` bytes.
pub open spec fn base64_encoded_len(n: nat) -> nat {
    (n + 2) / 3 * 4
}

/// The padded encoding of `n` bytes has a length that fits in `usize`
/// (`Engine::encode` panics otherwise).
pub open spec fn base64_fits(n: nat) -> bool {
    base64_encoded_len(n) <= usize::MAX
}

/// `b` belongs to the standard base64 alphabet or is the padding byte `=`.
pub open spec fn is_base64_byte(b: u8) -> bool {
    (65 <= b <= 90) || (97 <= b <= 122) || (48 <= b <= 57) || b == 43 || b == 47 || b == 61
}

/// Calls `base64::Engine::encode` on `BASE64_STANDARD`. Trusted: the result
/// is the crate's standard padded encoding of `data`, its length is
/// `encoded_len(data.len(), true)` (4 bytes per started 3-byte group), and
/// every byte is from the alphabet `A-Z a-z 0-9 + /` or the pad `=`.
/// The crate panics when that length overflows `usize`; `requires` leaves
/// those inputs out.
#[verifier::external_body]
fn base64_encode(data: &[u8]) -> (r: Vec<u8>)
    requires
        base64_fits(data@.len()),
    ensures
        r@ == base64_standard(data@),
        r@.len() == base64_encoded_len(data@.len()),
        forall|i: int| 0 <= i < r@.len() ==> is_base64_byte(#[trigger] r@[i]),
{
    base64::prelude::BASE64_STANDARD.encode(data).into_bytes()
}

// ---------------------------------------------------------------------------
// Packet layout
// ---------------------------------------------------------------------------

/// Largest number of base64 bytes carried by one packet.
pub const CHUNK_SIZE: usize = 4096;

/// Number of packets needed for `n` base64 bytes.
pub open spec fn chunk_count(n: nat) -> nat {
    (n + 4095) / 4096
}

/// Whether chunk `k` is the last one for `n` bytes (`m=0`).
pub open spec fn is_last_chunk(n: nat, k: int) -> bool {
    k * 4096 + 4096 >= n
}

/// The `k`-th chunk of `data`: bytes `[4096 k, min(4096 (k + 1), len))`.
pub open spec fn chunk_of(data: Seq<u8>, k: int) -> Seq<u8> {
    data.subrange(
        k * 4096,
        if is_last_chunk(data.len(), k) {
            data.len() as int
        } else {
            k * 4096 + 4096
        },
    )
}

/// Decimal rendering of `n` as ASCII bytes.
pub open spec fn dec(n: nat) -> Seq<u8> {
    ascii_bytes(decimal(n))
}

/// The header of the first packet up to and including `m=`:
/// `ESC _ G a=T,f=32,s=W,v=H[,c=C,r=R][,C=1][,o=z],q=2,m=`.
pub open spec fn first_header(
    width_px: u32,
    height_px: u32,
    cells: Option<(u32, u32)>,
    prevent_cursor_move: bool,
    compressed: bool,
) -> Seq<u8> {
    ascii_bytes("\x1b_Ga=T,f=32,s="@) + dec(width_px as nat) + ascii_bytes(",v="@) + dec(
        height_px as nat,
    ) + match cells {
        Some((c, r)) => ascii_bytes(",c="@) + dec(c as nat) + ascii_bytes(",r="@) + dec(r as nat),
        None => Seq::empty(),
    } + (if prevent_cursor_move {
        ascii_bytes(",C=1"@)
    } else {
        Seq::empty()
    }) + (if compressed {
        ascii_bytes(",o=z"@)
    } else {
        Seq::empty()
    }) + ascii_bytes(",q=2,m="@)
}

/// The header of every later packet up to and including `m=`.
pub open spec fn continuation_header() -> Seq<u8> {
    ascii_bytes("\x1b_Gq=2,m="@)
}

/// The `k`-th packet for the base64 text `encoded`.
pub open spec fn packet(encoded: Seq<u8>, k: int, first: Seq<u8>) -> Seq<u8> {
    (if k == 0 {
        first
    } else {
        continuation_header()
    }) + (if is_last_chunk(encoded.len(), k) {
        ascii_bytes("0"@)
    } else {
        ascii_bytes("1"@)
    }) + ascii_bytes(";"@) + chunk_of(encoded, k) + ascii_bytes("\x1b\\"@)
}

/// All packets for the base64 text `encoded`, the first one opening with `first`.
pub open spec fn packets_for(encoded: Seq<u8>, first: Seq<u8>) -> Seq<Seq<u8>> {
    Seq::new(chunk_count(encoded.len()), |k: int| packet(encoded, k, first))
}

/// The packets that transmit `payload` with the given header options.
pub open spec fn frame_packets(
    payload: Seq<u8>,
    width_px: u32,
    height_px: u32,
    cells: Option<(u32, u32)>,
    prevent_cursor_move: bool,
    compressed: bool,
) -> Seq<Seq<u8>> {
    packets_for(
        base64_standard(payload),
        first_header(width_px, height_px, cells, prevent_cursor_move, compressed),
    )
}

/// The contents of a list of byte buffers.
pub open spec fn views(v: Seq<Vec<u8>>) -> Seq<Seq<u8>> {
    v.map_values(|p: Vec<u8>| p@)
}

/// `r` holds exactly the buffers `expected`, in order.
pub open spec fn holds_packets(r: Seq<Vec<u8>>, expected: Seq<Seq<u8>>) -> bool {
    r.len() == expected.len() && forall|k: int| 0 <= k < r.len() ==> #[trigger] r[k]@ == expected[k]
}

proof fn views_give_packets(r: Seq<Vec<u8>>, expected: Seq<Seq<u8>>)
    requires
        views(r) == expected,
    ensures
        holds_packets(r, expected),
{
    assert forall|k: int| 0 <= k < r.len() implies #[trigger] r[k]@ == expected[k] by {
        assert(views(r)[k] == r[k]@);
    }
}

/// The concatenation of `parts`, in order.
pub open spec fn join(parts: Seq<Seq<u8>>) -> Seq<u8>
    decreases parts.len(),
{
    if parts.len() == 0 {
        Seq::empty()
    } else {
        join(parts.drop_last()) + parts.last()
    }
}

// ---------------------------------------------------------------------------
// Building packets
// ---------------------------------------------------------------------------

fn push_range(out: &mut Vec<u8>, data: &Vec<u8>, start: usize, end: usize)
    requires
        start <= end <= data.len(),
    ensures
        final(out)@ == old(out)@ + data@.subrange(start as int, end as int),
{
    let ghost base = out@;
    let mut i: usize = start;
    while i < end
        invariant
            start <= i <= end <= data.len(),
            out@ == base + data@.subrange(start as int, i as int),
        decreases end - i,
    {
        proof {
            assert(data@.subrange(start as int, i + 1) =~= data@.subrange(start as int, i as int).push(
                data@[i as int],
            ));
        }
        out.push(data[i]);
        i = i + 1;
    }
}

fn header_bytes(
    width_px: u32,
    height_px: u32,
    cells: Option<(u32, u32)>,
    prevent_cursor_move: bool,
    compressed: bool,
) -> (r: Vec<u8>)
    ensures
        r@ == first_header(width_px, height_px, cells, prevent_cursor_move, compressed),
{
    let mut h: Vec<u8> = Vec::new();
    push_ascii(&mut h, "\x1b_Ga=T,f=32,s=");
    let w = decimal_bytes(width_px as u64);
    push_bytes(&mut h, w.as_slice());
    push_ascii(&mut h, ",v=");
    let hh = decimal_bytes(height_px as u64);
    push_bytes(&mut h, hh.as_slice());
    let ghost after_dims = h@;
    match cells {
        Some((c, r)) => {
            push_ascii(&mut h, ",c=");
            let cd = decimal_bytes(c as u64);
            push_bytes(&mut h, cd.as_slice());
            push_ascii(&mut h, ",r=");
            let rd = decimal_bytes(r as u64);
            push_bytes(&mut h, rd.as_slice());
        },
        None => {},
    }
    let ghost after_cells = h@;
    if prevent_cursor_move {
        push_ascii(&mut h, ",C=1");
    }
    let ghost after_c = h@;
    if compressed {
        push_ascii(&mut h, ",o=z");
    }
    let ghost after_o = h@;
    push_ascii(&mut h, ",q=2,m=");
    proof {
        let cell_part: Seq<u8> = match cells {
            Some((c, r)) => ascii_bytes(",c="@) + dec(c as nat) + ascii_bytes(",r="@) + dec(
                r as nat,
            ),
            None => Seq::empty(),
        };
        assert(after_cells =~= after_dims + cell_part);
        assert(h@ =~= first_header(width_px, height_px, cells, prevent_cursor_move, compressed));
    }
    h
}

proof fn chunk_index_facts(n: nat, k: int)
    requires
        0 <= k,
        k * 4096 < n,
    ensures
        k < chunk_count(n),
        is_last_chunk(n, k) ==> k + 1 == chunk_count(n),
        !is_last_chunk(n, k) ==> k + 1 < chunk_count(n),
{
}

proof fn chunk_start_in_range(n: nat, k: int)
    requires
        0 <= k < chunk_count(n),
    ensures
        k * 4096 < n,
{
}

/// Packets carrying `encoded`, the first one opening with `first`.
fn build_packets(encoded: &Vec<u8>, first: &Vec<u8>) -> (r: Vec<Vec<u8>>)
    ensures
        views(r@) == packets_for(encoded@, first@),
{
    let n = encoded.len();
    let mut packets: Vec<Vec<u8>> = Vec::new();
    let mut offset: usize = 0;
    let ghost mut k: int = 0;
    while offset < n
        invariant
            n == encoded@.len(),
            packets@.len() == k,
            0 <= k <= chunk_count(n as nat),
            offset < n ==> offset == k * 4096,
            offset >= n ==> offset == n && k == chunk_count(n as nat),
            forall|j: int|
                0 <= j < k ==> (#[trigger] packets@[j])@ == packet(encoded@, j, first@),
        decreases n - offset,
    {
        proof {
            chunk_index_facts(n as nat, k);
        }
        let remaining = n - offset;
        let is_last = remaining <= CHUNK_SIZE;
        let end = if is_last {
            n
        } else {
            offset + CHUNK_SIZE
        };
        let mut p: Vec<u8> = Vec::new();
        if offset == 0 {
            push_bytes(&mut p, first.as_slice());
        } else {
            push_ascii(&mut p, "\x1b_Gq=2,m=");
        }
        if is_last {
            push_ascii(&mut p, "0");
        } else {
            push_ascii(&mut p, "1");
        }
        push_ascii(&mut p, ";");
        push_range(&mut p, encoded, offset, end);
        push_ascii(&mut p, "\x1b\\");
        proof {
            assert(is_last == is_last_chunk(n as nat, k));
            assert(p@ =~= packet(encoded@, k, first@));
        }
        packets.push(p);
        offset = end;
        proof {
            k = k + 1;
        }
    }
    proof {
        assert(views(packets@) =~= packets_for(encoded@, first@));
    }
    packets
}

/// The packets for a frame whose base64 text is `encoded`: `encoded` cut
/// into chunks of at most 4096 bytes, the first packet opening with the full
/// header for the given options.
pub fn packets_from_base64(
    encoded: &Vec<u8>,
    width_px: u32,
    height_px: u32,
    cells: Option<(u32, u32)>,
    prevent_cursor_move: bool,
    compressed: bool,
) -> (r: Vec<Vec<u8>>)
    ensures
        holds_packets(
            r@,
            packets_for(
                encoded@,
                first_header(width_px, height_px, cells, prevent_cursor_move, compressed),
            ),
        ),
{
    let first = header_bytes(width_px, height_px, cells, prevent_cursor_move, compressed);
    let r = build_packets(encoded, &first);
    proof {
        views_give_packets(r@, packets_for(encoded@, first@));
    }
    r
}

fn write_rgba_frame_impl(
    payload: &[u8],
    width_px: u32,
    height_px: u32,
    cells: Option<(u32, u32)>,
    prevent_cursor_move: bool,
    compressed: bool,
) -> (r: Vec<Vec<u8>>)
    requires
        base64_fits(payload@.len()),
    ensures
        holds_packets(
            r@,
            frame_packets(payload@, width_px, height_px, cells, prevent_cursor_move, compressed),
        ),
        base64_standard(payload@).len() == base64_encoded_len(payload@.len()),
        forall|k: int, i: int|
            0 <= k < r@.len() && 0 <= i < chunk_of(base64_standard(payload@), k).len()
                ==> is_base64_byte(#[trigger] chunk_of(base64_standard(payload@), k)[i]),
        !compressed ==> forall|k: int| 0 <= k < r@.len() ==> !contains_bytes(
            #[trigger] r@[k]@,
            ascii_bytes(",o=z"@),
        ),
{
    let encoded = base64_encode(payload);
    let r = packets_from_base64(
        &encoded,
        width_px,
        height_px,
        cells,
        prevent_cursor_move,
        compressed,
    );
    proof {
        assert forall|k: int, i: int|
            0 <= k < r@.len() && 0 <= i < chunk_of(base64_standard(payload@), k).len()
                implies is_base64_byte(#[trigger] chunk_of(base64_standard(payload@), k)[i]) by {
            chunk_start_in_range(encoded@.len(), k);
            assert(chunk_of(encoded@, k)[i] == encoded@[k * 4096 + i]);
        }
        if !compressed {
            assert forall|k: int| 0 <= k < r@.len() implies !contains_bytes(
                #[trigger] r@[k]@,
                ascii_bytes(",o=z"@),
            ) by {
                uncompressed_frames_lack_o_key(
                    encoded@,
                    width_px,
                    height_px,
                    cells,
                    prevent_cursor_move,
                    k,
                );
            }
        }
    }
    r
}

/// The packets that transmit the raw RGBA frame `pixels` of
/// `width_px` x `height_px` pixels, scaled to `cols` x `rows` cells, in the
/// order in which they are to be written (each packet, then one flush).
/// With `prevent_cursor_move` the header carries `C=1`.
pub fn write_rgba_frame_to(
    pixels: &[u8],
    width_px: u32,
    height_px: u32,
    cols: u32,
    rows: u32,
    prevent_cursor_move: bool,
) -> (r: Vec<Vec<u8>>)
    requires
        base64_fits(pixels@.len()),
    ensures
        holds_packets(
            r@,
            frame_packets(pixels@, width_px, height_px, Some((cols, rows)), prevent_cursor_move, false),
        ),
        base64_standard(pixels@).len() == base64_encoded_len(pixels@.len()),
        forall|k: int, i: int|
            0 <= k < r@.len() && 0 <= i < chunk_of(base64_standard(pixels@), k).len()
                ==> is_base64_byte(#[trigger] chunk_of(base64_standard(pixels@), k)[i]),
        forall|k: int| 0 <= k < r@.len() ==> !contains_bytes(
            #[trigger] r@[k]@,
            ascii_bytes(",o=z"@),
        ),
{
    write_rgba_frame_impl(
        pixels,
        width_px,
        height_px,
        Some((cols, rows)),
        prevent_cursor_move,
        false,
    )
}

/// The packets that transmit a frame at its native size. When `compressed`
/// is true, `payload` is the zlib (RFC 1950) deflated RGBA buffer and the
/// header carries `o=z` so the terminal inflates it; `width_px`/`height_px`
/// stay the uncompressed pixel dimensions.
pub fn write_rgba_frame_native_to(
    payload: &[u8],
    width_px: u32,
    height_px: u32,
    prevent_cursor_move: bool,
    compressed: bool,
) -> (r: Vec<Vec<u8>>)
    requires
        base64_fits(payload@.len()),
    ensures
        holds_packets(
            r@,
            frame_packets(payload@, width_px, height_px, None, prevent_cursor_move, compressed),
        ),
        base64_standard(payload@).len() == base64_encoded_len(payload@.len()),
        forall|k: int, i: int|
            0 <= k < r@.len() && 0 <= i < chunk_of(base64_standard(payload@), k).len()
                ==> is_base64_byte(#[trigger] chunk_of(base64_standard(payload@), k)[i]),
        !compressed ==> forall|k: int| 0 <= k < r@.len() ==> !contains_bytes(
            #[trigger] r@[k]@,
            ascii_bytes(",o=z"@),
        ),
{
    write_rgba_frame_impl(payload, width_px, height_px, None, prevent_cursor_move, compressed)
}

// ---------------------------------------------------------------------------
// Laws of the framing
// ---------------------------------------------------------------------------

proof fn join_prefix_chunks(encoded: Seq<u8>, m: nat)
    requires
        m <= chunk_count(encoded.len()),
    ensures
        join(Seq::new(m, |k: int| chunk_of(encoded, k))) == encoded.take(
            if m * 4096 <= encoded.len() {
                (m * 4096) as int
            } else {
                encoded.len() as int
            },
        ),
    decreases m,
{
    let parts = Seq::new(m, |k: int| chunk_of(encoded, k));
    if m == 0 {
        assert(encoded.take(0) =~= Seq::<u8>::empty());
    } else {
        let prev = (m - 1) as nat;
        join_prefix_chunks(encoded, prev);
        assert(parts.drop_last() =~= Seq::new(prev, |k: int| chunk_of(encoded, k)));
        assert(prev * 4096 < encoded.len());
        let hi = if m * 4096 <= encoded.len() {
            (m * 4096) as int
        } else {
            encoded.len() as int
        };
        let lo: int = (prev * 4096) as int;
        assert(chunk_of(encoded, prev as int) =~= encoded.subrange(lo, hi));
        assert(encoded.take(hi) =~= encoded.take(lo) + encoded.subrange(lo, hi));
    }
}

/// Law (lossless framing): the chunks carried by the packets, read in order,
/// are exactly the base64 text; there are `ceil(len / 4096)` of them, none is
/// empty or longer than 4096 bytes, and only the last one is marked `m=0`.
/// With an empty text no packet is produced.
pub proof fn framing_is_lossless(encoded: Seq<u8>, first: Seq<u8>)
    ensures
        packets_for(encoded, first).len() == chunk_count(encoded.len()),
        join(Seq::new(chunk_count(encoded.len()), |k: int| chunk_of(encoded, k))) == encoded,
        forall|k: int|
            0 <= k < chunk_count(encoded.len()) ==> 1 <= #[trigger] chunk_of(encoded, k).len()
                <= 4096,
        forall|k: int|
            0 <= k < chunk_count(encoded.len()) ==> (#[trigger] is_last_chunk(encoded.len(), k)
                <==> k == chunk_count(encoded.len()) - 1),
        encoded.len() == 0 <==> packets_for(encoded, first).len() == 0,
{
    join_prefix_chunks(encoded, chunk_count(encoded.len()));
    assert(encoded.take(encoded.len() as int) =~= encoded);
}

/// Law: the chunk bytes of a frame are base64 text, so they never contain the
/// escape byte or the `;` that delimit packets; the first packet opens with
/// the full header and every later one with `ESC _ G q=2,m=`.
pub proof fn packet_layout(encoded: Seq<u8>, first: Seq<u8>, k: int)
    requires
        0 <= k < chunk_count(encoded.len()),
        forall|i: int| 0 <= i < encoded.len() ==> is_base64_byte(#[trigger] encoded[i]),
    ensures
        forall|i: int|
            0 <= i < chunk_of(encoded, k).len() ==> #[trigger] chunk_of(encoded, k)[i] != 0x1b
                && chunk_of(encoded, k)[i] != 0x3b,
        k == 0 ==> packets_for(encoded, first)[k].take(first.len() as int) == first,
        k > 0 ==> packets_for(encoded, first)[k].take(continuation_header().len() as int)
            == continuation_header(),
{
    assert forall|i: int| 0 <= i < chunk_of(encoded, k).len() implies #[trigger] chunk_of(
        encoded,
        k,
    )[i] != 0x1b && chunk_of(encoded, k)[i] != 0x3b by {
        assert(chunk_of(encoded, k)[i] == encoded[k * 4096 + i]);
    }
    let p = packets_for(encoded, first)[k];
    if k == 0 {
        assert(p.take(first.len() as int) =~= first);
    } else {
        assert(p.take(continuation_header().len() as int) =~= continuation_header());
    }
}

/// The start of every first header: `ESC _ G a=T,f=32,s=W,v=H`.
pub open spec fn dims_prefix(width_px: u32, height_px: u32) -> Seq<u8> {
    ascii_bytes("\x1b_Ga=T,f=32,s="@) + dec(width_px as nat) + ascii_bytes(",v="@) + dec(
        height_px as nat,
    )
}

/// The cell-size keys `,c=C,r=R`.
pub open spec fn cell_keys(cols: u32, rows: u32) -> Seq<u8> {
    ascii_bytes(",c="@) + dec(cols as nat) + ascii_bytes(",r="@) + dec(rows as nat)
}

/// Law: sending a frame scaled to a cell size differs from sending it at its
/// native size (uncompressed, same cursor policy) only by the cell keys, which
/// come right after the pixel size in the first packet; every later packet
/// is the same.
pub proof fn cells_only_insert_keys(
    payload: Seq<u8>,
    width_px: u32,
    height_px: u32,
    cols: u32,
    rows: u32,
    prevent_cursor_move: bool,
)
    ensures
        ({
            let a = frame_packets(
                payload,
                width_px,
                height_px,
                Some((cols, rows)),
                prevent_cursor_move,
                false,
            );
            let b = frame_packets(payload, width_px, height_px, None, prevent_cursor_move, false);
            let n = dims_prefix(width_px, height_px).len() as int;
            &&& a.len() == b.len()
            &&& forall|k: int| 1 <= k < a.len() ==> a[k] == b[k]
            &&& a.len() > 0 ==> a[0] == b[0].take(n) + cell_keys(cols, rows) + b[0].skip(n)
        }),
{
    let a = frame_packets(payload, width_px, height_px, Some((cols, rows)), prevent_cursor_move, false);
    let b = frame_packets(payload, width_px, height_px, None, prevent_cursor_move, false);
    let pre = dims_prefix(width_px, height_px);
    let n = pre.len() as int;
    let ha = first_header(width_px, height_px, Some((cols, rows)), prevent_cursor_move, false);
    let hb = first_header(width_px, height_px, None, prevent_cursor_move, false);
    let rest = (if prevent_cursor_move {
        ascii_bytes(",C=1"@)
    } else {
        Seq::empty()
    }) + ascii_bytes(",q=2,m="@);
    assert(hb =~= pre + rest);
    assert(ha =~= pre + cell_keys(cols, rows) + rest);
    if a.len() > 0 {
        let e = base64_standard(payload);
        let tail = (if is_last_chunk(e.len(), 0) {
            ascii_bytes("0"@)
        } else {
            ascii_bytes("1"@)
        }) + ascii_bytes(";"@) + chunk_of(e, 0) + ascii_bytes("\x1b\\"@);
        assert(b[0] =~= pre + rest + tail);
        assert(a[0] =~= pre + cell_keys(cols, rows) + rest + tail);
        assert(b[0].take(n) =~= pre);
        assert(b[0].skip(n) =~= rest + tail);
        assert(a[0] =~= b[0].take(n) + cell_keys(cols, rows) + b[0].skip(n));
    }
}


/// `p` occurs in `s` as a contiguous run of bytes.
pub open spec fn contains_bytes(s: Seq<u8>, p: Seq<u8>) -> bool {
    exists|i: int| 0 <= i && i + p.len() <= s.len() && #[trigger] s.subrange(i, i + p.len()) == p
}

/// No byte of `s` equals `b`.
pub open spec fn lacks_byte(s: Seq<u8>, b: u8) -> bool {
    forall|i: int| 0 <= i < s.len() ==> s[i] != b
}

proof fn lacks_byte_concat(a: Seq<u8>, c: Seq<u8>, b: u8)
    requires
        lacks_byte(a, b),
        lacks_byte(c, b),
    ensures
        lacks_byte(a + c, b),
{
    assert forall|i: int| 0 <= i < (a + c).len() implies (a + c)[i] != b by {
        if i < a.len() {
            assert((a + c)[i] == a[i]);
        } else {
            assert((a + c)[i] == c[i - a.len()]);
        }
    }
}

proof fn dec_is_digits(n: nat)
    ensures
        lacks_byte(dec(n), 111),
        lacks_byte(dec(n), 44),
{
    crate::text::decimal_reads_back(n);
    let d = decimal(n);
    assert forall|i: int| 0 <= i < dec(n).len() implies dec(n)[i] != 111 && dec(n)[i] != 44 by {
        assert(crate::text::is_decimal_digit(d[i]));
        assert(dec(n)[i] == d[i] as u8);
    }
}

proof fn header_lacks_o(
    width_px: u32,
    height_px: u32,
    cells: Option<(u32, u32)>,
    prevent_cursor_move: bool,
)
    ensures
        lacks_byte(first_header(width_px, height_px, cells, prevent_cursor_move, false), 111),
        lacks_byte(continuation_header(), 111),
{
    reveal_strlit("\x1b_Ga=T,f=32,s=");
    reveal_strlit(",v=");
    reveal_strlit(",c=");
    reveal_strlit(",r=");
    reveal_strlit(",C=1");
    reveal_strlit(",q=2,m=");
    reveal_strlit("\x1b_Gq=2,m=");
    let l1 = ascii_bytes("\x1b_Ga=T,f=32,s="@);
    let l2 = ascii_bytes(",v="@);
    let l3 = ascii_bytes(",c="@);
    let l4 = ascii_bytes(",r="@);
    let l5 = ascii_bytes(",C=1"@);
    let l6 = ascii_bytes(",q=2,m="@);
    let lc = ascii_bytes("\x1b_Gq=2,m="@);
    assert(lacks_byte(l1, 111));
    assert(lacks_byte(l2, 111));
    assert(lacks_byte(l3, 111));
    assert(lacks_byte(l4, 111));
    assert(lacks_byte(l5, 111));
    assert(lacks_byte(l6, 111));
    assert(lacks_byte(lc, 111));
    assert(lacks_byte(Seq::<u8>::empty(), 111));
    dec_is_digits(width_px as nat);
    dec_is_digits(height_px as nat);
    let cell_part: Seq<u8> = match cells {
        Some((c, r)) => l3 + dec(c as nat) + l4 + dec(r as nat),
        None => Seq::empty(),
    };
    match cells {
        Some((c, r)) => {
            dec_is_digits(c as nat);
            dec_is_digits(r as nat);
            lacks_byte_concat(l3, dec(c as nat), 111);
            lacks_byte_concat(l3 + dec(c as nat), l4, 111);
            lacks_byte_concat(l3 + dec(c as nat) + l4, dec(r as nat), 111);
        },
        None => {},
    }
    let c_part: Seq<u8> = if prevent_cursor_move {
        l5
    } else {
        Seq::empty()
    };
    let h1 = l1 + dec(width_px as nat);
    lacks_byte_concat(l1, dec(width_px as nat), 111);
    lacks_byte_concat(h1, l2, 111);
    lacks_byte_concat(h1 + l2, dec(height_px as nat), 111);
    let h2 = h1 + l2 + dec(height_px as nat);
    lacks_byte_concat(h2, cell_part, 111);
    lacks_byte_concat(h2 + cell_part, c_part, 111);
    lacks_byte_concat(h2 + cell_part + c_part, Seq::empty(), 111);
    lacks_byte_concat(h2 + cell_part + c_part + Seq::empty(), l6, 111);
    assert(first_header(width_px, height_px, cells, prevent_cursor_move, false) =~= h2 + cell_part
        + c_part + Seq::empty() + l6);
}

/// Law: a frame sent without compression never carries the `,o=z` key: the
/// headers hold no `o`, the chunks (base64 text) hold no `,`, and each
/// header ends with `;`.
pub proof fn uncompressed_frames_lack_o_key(
    encoded: Seq<u8>,
    width_px: u32,
    height_px: u32,
    cells: Option<(u32, u32)>,
    prevent_cursor_move: bool,
    k: int,
)
    requires
        0 <= k < chunk_count(encoded.len()),
        forall|i: int| 0 <= i < encoded.len() ==> is_base64_byte(#[trigger] encoded[i]),
    ensures
        !contains_bytes(
            packets_for(
                encoded,
                first_header(width_px, height_px, cells, prevent_cursor_move, false),
            )[k],
            ascii_bytes(",o=z"@),
        ),
{
    reveal_strlit(",o=z");
    reveal_strlit("0");
    reveal_strlit("1");
    reveal_strlit(";");
    reveal_strlit("\x1b\\");
    let first = first_header(width_px, height_px, cells, prevent_cursor_move, false);
    header_lacks_o(width_px, height_px, cells, prevent_cursor_move);
    let h = if k == 0 {
        first
    } else {
        continuation_header()
    };
    let m = if is_last_chunk(encoded.len(), k) {
        ascii_bytes("0"@)
    } else {
        ascii_bytes("1"@)
    };
    let semi = ascii_bytes(";"@);
    let chunk = chunk_of(encoded, k);
    let term = ascii_bytes("\x1b\\"@);
    assert(lacks_byte(m, 111));
    assert(lacks_byte(semi, 111));
    lacks_byte_concat(h, m, 111);
    lacks_byte_concat(h + m, semi, 111);
    let pre = h + m + semi;
    let p = packets_for(encoded, first)[k];
    assert(p =~= pre + chunk + term);
    chunk_start_in_range(encoded.len(), k);
    assert forall|i: int| 0 <= i < chunk.len() implies chunk[i] != 44 by {
        assert(chunk[i] == encoded[k * 4096 + i]);
    }
    assert(lacks_byte(term, 44));
    let pat = ascii_bytes(",o=z"@);
    if contains_bytes(p, pat) {
        let i = choose|i: int|
            0 <= i && i + pat.len() <= p.len() && #[trigger] p.subrange(i, i + pat.len()) == pat;
        assert(p.subrange(i, i + pat.len())[0] == 44);
        assert(p.subrange(i, i + pat.len())[1] == 111);
        assert(p[i] == 44);
        assert(p[i + 1] == 111);
        if i + 1 < pre.len() {
            assert(p[i + 1] == pre[i + 1]);
        } else if i + 1 == pre.len() {
            assert(p[i] == pre[i]);
            assert(pre[i] == semi[0]);
        } else if i < pre.len() + chunk.len() {
            assert(p[i] == chunk[i - pre.len()]);
        } else {
            assert(p[i] == term[i - pre.len() - chunk.len()]);
        }
    }
}

// ---------------------------------------------------------------------------
// Writing robustly: retry when the terminal is not ready
// ---------------------------------------------------------------------------

/// What one `write` call on the output reported.
pub enum WriteOutcome {
    /// `Ok(n)`: `n` bytes were accepted.
    Wrote(usize),
    /// The output would block (`WouldBlock`, or `EAGAIN` = 35 on macOS).
    WouldBlock,
    /// Any other error.
    Failed,
}

/// What to do after a `write` call while `remaining` bytes were pending.
pub enum WriteStep {
    /// Drop the first `n` pending bytes and write again if any remain.
    Advance(usize),
    /// Sleep one millisecond and write the same bytes again.
    RetryAfterPause,
    /// Stop with a `WriteZero` error ("failed to write whole buffer").
    FailWriteZero,
    /// Stop with the error the writer reported.
    FailWithError,
}

/// The retry policy of `write_all_robust`: a write of zero bytes is an error,
/// a would-block condition is retried after a pause, other errors stop, and
/// accepted bytes are dropped from the pending buffer.
pub fn write_step(remaining: usize, outcome: WriteOutcome) -> (s: WriteStep)
    requires
        outcome matches WriteOutcome::Wrote(n) ==> n <= remaining,
    ensures
        outcome matches WriteOutcome::Wrote(n) ==> (if n == 0 {
            s is FailWriteZero
        } else {
            s == WriteStep::Advance(n)
        }),
        outcome is WouldBlock ==> s is RetryAfterPause,
        outcome is Failed ==> s is FailWithError,
        s matches WriteStep::Advance(n) ==> 0 < n <= remaining,
{
    match outcome {
        WriteOutcome::Wrote(n) => {
            if n == 0 {
                WriteStep::FailWriteZero
            } else {
                WriteStep::Advance(n)
            }
        },
        WriteOutcome::WouldBlock => WriteStep::RetryAfterPause,
        WriteOutcome::Failed => WriteStep::FailWithError,
    }
}

/// What one `flush` call on the output reported.
pub enum FlushOutcome {
    /// The flush succeeded.
    Flushed,
    /// The output would block (`WouldBlock`, or `EAGAIN` = 35 on macOS).
    WouldBlock,
    /// Any other error.
    Failed,
}

/// What to do after a `flush` call.
pub enum FlushStep {
    /// Done.
    Done,
    /// Sleep one millisecond and flush again.
    RetryAfterPause,
    /// Stop with the error the writer reported.
    FailWithError,
}

/// The retry policy of `flush_robust`.
pub fn flush_step(outcome: FlushOutcome) -> (s: FlushStep)
    ensures
        outcome is Flushed <==> s is Done,
        outcome is WouldBlock <==> s is RetryAfterPause,
        outcome is Failed <==> s is FailWithError,
{
    match outcome {
        FlushOutcome::Flushed => FlushStep::Done,
        FlushOutcome::WouldBlock => FlushStep::RetryAfterPause,
        FlushOutcome::Failed => FlushStep::FailWithError,
    }
}

} // verus!
