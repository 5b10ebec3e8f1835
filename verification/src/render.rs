//! The renderer's per-frame decisions: retransmit a frame only when its
//! pixels changed (zlib-compressed, `o=z`), redraw the status bar only when
//! its text changed, and leave the bottom row alone
//! while an input prompt owns it.
use vstd::prelude::*;
use crate::kitty::{base64_fits, frame_packets, holds_packets, write_rgba_frame_native_to};
use crate::text::{bytes_equal, chars_equal, char_utf8_width, push_chars, utf8_len, utf8_width};
use flate2::write::ZlibEncoder;
use flate2::Compression;
use std::io::Write;

verus! {

// ---------------------------------------------------------------------------
// zlib through `flate2`
// ---------------------------------------------------------------------------

/// Name for the zlib (RFC 1950) stream that `flate2`'s `ZlibEncoder` at
/// compression level 1 produces for `data`.
pub uninterp spec fn zlib_level1(data: Seq<u8>) -> Seq<u8>;

/// zlib-deflates an RGBA buffer for transmission with the Kitty `o=z` option,
/// at level 1 (fastest): screen content is dominated by runs of identical
/// pixels, so higher levels cost CPU for little gain.
/// Calls `flate2::write::ZlibEncoder::new(Vec::new(), Compression::new(1))`,
/// `write_all` and `finish`. Trusted: the result is the encoder's output for
/// `rgba`, and it is always present: with a `Vec` as the sink the encoder's
/// writes cannot fail, and the deflate backend reports a full output buffer
/// as a status rather than an error.
#[verifier::external_body]
fn compress_frame(rgba: &[u8]) -> (r: Option<Vec<u8>>)
    ensures
        r is Some,
        r matches Some(z) ==> z@ == zlib_level1(rgba@),
{
    let mut encoder = ZlibEncoder::new(Vec::new(), Compression::new(1));
    encoder.write_all(rgba).ok()?;
    encoder.finish().ok()
}

// ---------------------------------------------------------------------------
// The status bar
// ---------------------------------------------------------------------------

/// `s` padded with spaces on the right to at least `width` characters
/// (what `format!("{:<width$}", s)` prints).
pub open spec fn pad_right(s: Seq<char>, width: nat) -> Seq<char> {
    if s.len() >= width {
        s
    } else {
        s + Seq::new((width - s.len()) as nat, |i: int| ' ')
    }
}

/// `cols - 1`, or 0 when `cols` is 0.
pub open spec fn field_width(cols: u16) -> nat {
    if cols >= 1 {
        (cols - 1) as nat
    } else {
        0
    }
}

/// The untruncated status bar: a space, the rate label, then the status text
/// padded to `cols - 1` characters.
pub open spec fn status_bar_text(rate: Seq<char>, status: Seq<char>, cols: u16) -> Seq<char> {
    seq![' '] + rate + pad_right(status, field_width(cols))
}

/// The prefix of `s` whose UTF-8 encoding is exactly `k` bytes long, if the
/// cut at byte `k` falls on a character boundary.
pub open spec fn byte_cut(s: Seq<char>, k: nat) -> Option<Seq<char>> {
    if exists|i: int| 0 <= i <= s.len() && utf8_len(#[trigger] s.take(i)) == k {
        Some(s.take(choose|i: int| 0 <= i <= s.len() && utf8_len(#[trigger] s.take(i)) == k))
    } else {
        None
    }
}

/// The status bar as drawn: the bar text cut to its first `cols` bytes
/// (`&bar[..bar.len().min(cols)]`); `None` when that cut falls inside a
/// multi-byte character, where the string slice would panic.
pub open spec fn status_bar(rate: Seq<char>, status: Seq<char>, cols: u16) -> Option<Seq<char>> {
    let bar = status_bar_text(rate, status, cols);
    byte_cut(
        bar,
        if utf8_len(bar) <= cols {
            utf8_len(bar)
        } else {
            cols as nat
        },
    )
}

proof fn utf8_len_take_step(s: Seq<char>, i: int)
    requires
        0 <= i < s.len(),
    ensures
        utf8_len(s.take(i + 1)) == utf8_len(s.take(i)) + utf8_width(s[i]),
{
    assert(s.take(i + 1).drop_last() =~= s.take(i));
}

proof fn utf8_len_take_monotone(s: Seq<char>, i: int, j: int)
    requires
        0 <= i < j <= s.len(),
    ensures
        utf8_len(s.take(i)) < utf8_len(s.take(j)),
    decreases j - i,
{
    utf8_len_take_step(s, j - 1);
    if i < j - 1 {
        utf8_len_take_monotone(s, i, j - 1);
    }
}

proof fn utf8_len_whole(s: Seq<char>)
    ensures
        utf8_len(s.take(s.len() as int)) == utf8_len(s),
{
    assert(s.take(s.len() as int) =~= s);
}

/// Cuts `s` after its first `k` UTF-8 bytes; `None` when byte `k` is not a
/// character boundary.
fn cut_chars_at_byte(s: &Vec<char>, k: usize) -> (r: Option<Vec<char>>)
    requires
        k <= utf8_len(s@),
    ensures
        match r {
            Some(v) => byte_cut(s@, k as nat) == Some(v@),
            None => byte_cut(s@, k as nat) is None,
        },
{
    let mut out: Vec<char> = Vec::new();
    let mut acc: usize = 0;
    let mut i: usize = 0;
    proof {
        utf8_len_whole(s@);
        assert(s@.take(0) =~= Seq::<char>::empty());
    }
    while acc < k
        invariant
            i <= s.len(),
            k <= utf8_len(s@),
            acc == utf8_len(s@.take(i as int)),
            acc <= k,
            out@ == s@.take(i as int),
        decreases k - acc,
    {
        if i == s.len() {
            proof {
                utf8_len_whole(s@);
            }
            assert(false);
        }
        let w = char_utf8_width(s[i]);
        proof {
            utf8_len_take_step(s@, i as int);
        }
        if w > k - acc {
            proof {
                assert forall|j: int| 0 <= j <= s@.len() implies utf8_len(#[trigger] s@.take(j))
                    != k by {
                    if j <= i {
                        if j < i {
                            utf8_len_take_monotone(s@, j, i as int);
                        }
                    } else {
                        if j > i + 1 {
                            utf8_len_take_monotone(s@, i + 1, j);
                        }
                    }
                }
            }
            return None;
        }
        out.push(s[i]);
        proof {
            assert(s@.take(i + 1) =~= s@.take(i as int).push(s@[i as int]));
        }
        acc = acc + w;
        i = i + 1;
    }
    proof {
        let wit = i as int;
        assert(utf8_len(s@.take(wit)) == k);
        let c = choose|j: int| 0 <= j <= s@.len() && utf8_len(#[trigger] s@.take(j)) == k;
        if c < wit {
            utf8_len_take_monotone(s@, c, wit);
        } else if c > wit {
            utf8_len_take_monotone(s@, wit, c);
        }
    }
    Some(out)
}

fn utf8_len_chars(s: &Vec<char>) -> (n: u64)
    requires
        s.len() <= u64::MAX / 4,
    ensures
        n == utf8_len(s@),
{
    let mut n: u64 = 0;
    let mut i: usize = 0;
    proof {
        assert(s@.take(0) =~= Seq::<char>::empty());
    }
    while i < s.len()
        invariant
            i <= s.len(),
            s.len() <= u64::MAX / 4,
            n == utf8_len(s@.take(i as int)),
            n <= 4 * i,
        decreases s.len() - i,
    {
        proof {
            utf8_len_take_step(s@, i as int);
        }
        n = n + char_utf8_width(s[i]) as u64;
        i = i + 1;
    }
    proof {
        utf8_len_whole(s@);
    }
    n
}

/// The status bar text as drawn for `rate` and `status` on a terminal of
/// `cols` columns; `None` where cutting it to `cols` bytes would split a
/// character.
pub fn status_bar_line(rate: &Vec<char>, status: &Vec<char>, cols: u16) -> (r: Option<Vec<char>>)
    requires
        rate.len() + status.len() + cols + 1 <= u64::MAX / 4,
    ensures
        match r {
            Some(v) => status_bar(rate@, status@, cols) == Some(v@),
            None => status_bar(rate@, status@, cols) is None,
        },
{
    let mut bar: Vec<char> = Vec::new();
    bar.push(' ');
    push_chars(&mut bar, rate);
    push_chars(&mut bar, status);
    let width: usize = if cols >= 1 {
        (cols - 1) as usize
    } else {
        0
    };
    let ghost before_pad = bar@;
    let mut n = status.len();
    while n < width
        invariant
            status.len() <= n <= width || (n == status.len() && status.len() >= width),
            width == field_width(cols),
            bar@ == before_pad + Seq::new((n - status.len()) as nat, |i: int| ' '),
        decreases width - n,
    {
        proof {
            assert(Seq::new((n + 1 - status.len()) as nat, |i: int| ' ') =~= Seq::new(
                (n - status.len()) as nat,
                |i: int| ' ',
            ).push(' '));
        }
        bar.push(' ');
        n = n + 1;
    }
    proof {
        if status.len() >= width {
            assert(bar@ =~= status_bar_text(rate@, status@, cols));
        } else {
            assert(n == width);
            assert(bar@ =~= status_bar_text(rate@, status@, cols));
        }
    }
    let total = utf8_len_chars(&bar);
    let k: usize = if total <= cols as u64 {
        total as usize
    } else {
        cols as usize
    };
    cut_chars_at_byte(&bar, k)
}

// ---------------------------------------------------------------------------
// Frame pacing
// ---------------------------------------------------------------------------

/// Minimum time between two rendered frames, in microseconds: one second
/// divided by the frame rate (a rate of 0 counts as 1).
pub fn frame_interval_micros(fps: u32) -> (us: u64)
    ensures
        us == 1_000_000int / (if fps == 0 {
            1int
        } else {
            fps as int
        }),
{
    let f: u32 = if fps == 0 {
        1
    } else {
        fps
    };
    1_000_000 / f as u64
}

// ---------------------------------------------------------------------------
// Per-frame decisions
// ---------------------------------------------------------------------------

/// What the renderer remembers between frames.
pub struct RenderState {
    /// The last RGBA frame that was transmitted.
    pub prev_rgba: Option<Vec<u8>>,
    /// The status text seen with the previous frame.
    pub last_status: Vec<char>,
}

/// How the bottom row is to be treated for one frame.
pub enum BarDraw {
    /// Leave the bottom row untouched.
    Skip,
    /// Draw this text in reverse video at the bottom row.
    Draw(Vec<char>),
    /// The bar would have to be cut inside a multi-byte character.
    CutInsideChar,
}

/// What to write for one frame: first the image packets (after moving the
/// cursor home), then the status bar; a flush follows when either is present.
pub struct RenderOutput {
    /// The packets of the retransmitted frame, if the frame is sent.
    pub image: Option<Vec<Vec<u8>>>,
    /// The status bar decision.
    pub bar: BarDraw,
}

/// The contents of an optional buffer.
pub open spec fn opt_bytes(o: Option<Vec<u8>>) -> Option<Seq<u8>> {
    match o {
        Some(v) => Some(v@),
        None => None,
    }
}

/// `o` holds the packets `e` (or both are absent).
pub open spec fn image_matches(o: Option<Vec<Vec<u8>>>, e: Option<Seq<Seq<u8>>>) -> bool {
    match (o, e) {
        (Some(v), Some(x)) => holds_packets(v@, x),
        (None, None) => true,
        _ => false,
    }
}

/// The bar decision as a value: `None` to skip, `Some(None)` when the cut
/// falls inside a character, `Some(Some(text))` to draw `text`.
pub open spec fn bar_view(b: BarDraw) -> Option<Option<Seq<char>>> {
    match b {
        BarDraw::Skip => None,
        BarDraw::Draw(v) => Some(Some(v@)),
        BarDraw::CutInsideChar => Some(None),
    }
}

/// A frame counts as changed unless it equals the last transmitted one.
pub open spec fn frame_changed(prev: Option<Seq<u8>>, rgba: Seq<u8>) -> bool {
    match prev {
        Some(p) => p != rgba,
        None => true,
    }
}

/// Whether the status bar is drawn: never while a prompt is up; otherwise
/// only when its text changed (a new status text or a new rate label).
pub open spec fn draws_bar(status_changed: bool, rate_changed: bool, prompt_active: bool) -> bool {
    !prompt_active && (status_changed || rate_changed)
}

/// The image packets for a payload (`o=z`, native size, cursor may move).
pub open spec fn image_for(payload: Option<Seq<u8>>, width: u32, height: u32) -> Option<
    Seq<Seq<u8>>,
> {
    match payload {
        Some(p) => Some(frame_packets(p, width, height, None, false, true)),
        None => None,
    }
}

/// The bar decision for one frame.
pub open spec fn bar_for(
    last_status: Seq<char>,
    status: Seq<char>,
    rate: Seq<char>,
    rate_changed: bool,
    prompt_active: bool,
    cols: u16,
) -> Option<Option<Seq<char>>> {
    if draws_bar(status != last_status, rate_changed, prompt_active) {
        Some(status_bar(rate, status, cols))
    } else {
        None
    }
}

/// The last transmitted frame after this one.
pub open spec fn next_prev(prev: Option<Seq<u8>>, rgba: Seq<u8>, image_sent: bool) -> Option<
    Seq<u8>,
> {
    if image_sent {
        Some(rgba)
    } else {
        prev
    }
}

/// Bound on the text lengths the bar arithmetic works with.
pub open spec fn bar_inputs_fit(rate: Seq<char>, status: Seq<char>, cols: u16) -> bool {
    rate.len() + status.len() + cols + 1 <= u64::MAX / 4
}

impl RenderState {
    /// The state before the first frame.
    pub fn new() -> (s: RenderState)
        ensures
            s.prev_rgba is None,
            s.last_status@ == Seq::<char>::empty(),
    {
        RenderState { prev_rgba: None, last_status: Vec::new() }
    }

    /// Handles one captured frame once its payload is known: `payload` is
    /// the compressed frame to transmit, or `None` when nothing is to be
    /// transmitted. The frame becomes the last transmitted one exactly when
    /// a payload is sent; the status text is remembered either way.
    pub fn render_with_payload(
        &mut self,
        rgba: Vec<u8>,
        payload: Option<Vec<u8>>,
        width: u32,
        height: u32,
        cols: u16,
        status: Vec<char>,
        rate: &Vec<char>,
        rate_changed: bool,
        prompt_active: bool,
    ) -> (out: RenderOutput)
        requires
            payload matches Some(p) ==> base64_fits(p@.len()),
            bar_inputs_fit(rate@, status@, cols),
        ensures
            image_matches(out.image, image_for(opt_bytes(payload), width, height)),
            bar_view(out.bar) == bar_for(
                old(self).last_status@,
                status@,
                rate@,
                rate_changed,
                prompt_active,
                cols,
            ),
            opt_bytes(final(self).prev_rgba) == next_prev(
                opt_bytes(old(self).prev_rgba),
                rgba@,
                payload is Some,
            ),
            final(self).last_status@ == status@,
    {
        let image = match &payload {
            Some(p) => Some(write_rgba_frame_native_to(p.as_slice(), width, height, false, true)),
            None => None,
        };
        let status_changed = !chars_equal(&status, &self.last_status);
        let draw_status = !prompt_active;
        let bar = if draw_status && (status_changed || rate_changed) {
            match status_bar_line(rate, &status, cols) {
                Some(text) => BarDraw::Draw(text),
                None => BarDraw::CutInsideChar,
            }
        } else {
            BarDraw::Skip
        };
        if payload.is_some() {
            self.prev_rgba = Some(rgba);
        }
        self.last_status = status;
        RenderOutput { image, bar }
    }

    /// Handles one captured frame: the frame is compressed and transmitted
    /// exactly when its pixels differ from the last transmitted frame (and
    /// its compressed form is short enough to base64-encode in `usize`).
    pub fn render_frame(
        &mut self,
        rgba: Vec<u8>,
        width: u32,
        height: u32,
        cols: u16,
        status: Vec<char>,
        rate: &Vec<char>,
        rate_changed: bool,
        prompt_active: bool,
    ) -> (out: RenderOutput)
        requires
            bar_inputs_fit(rate@, status@, cols),
        ensures
            out.image is Some <==> frame_changed(opt_bytes(old(self).prev_rgba), rgba@)
                && zlib_level1(rgba@).len() <= usize::MAX / 4 * 3,
            out.image is Some ==> image_matches(
                out.image,
                image_for(Some(zlib_level1(rgba@)), width, height),
            ),
            bar_view(out.bar) == bar_for(
                old(self).last_status@,
                status@,
                rate@,
                rate_changed,
                prompt_active,
                cols,
            ),
            opt_bytes(final(self).prev_rgba) == next_prev(
                opt_bytes(old(self).prev_rgba),
                rgba@,
                out.image is Some,
            ),
            final(self).last_status@ == status@,
    {
        let changed = match &self.prev_rgba {
            Some(p) => !bytes_equal(p, &rgba),
            None => true,
        };
        let payload = if changed {
            match compress_frame(rgba.as_slice()) {
                Some(z) => {
                    if z.len() <= usize::MAX / 4 * 3 {
                        proof {
                            assert(base64_fits(z@.len())) by (nonlinear_arith)
                                requires
                                    z@.len() <= usize::MAX / 4 * 3,
                            ;
                        }
                        Some(z)
                    } else {
                        None
                    }
                },
                None => None,
            }
        } else {
            None
        };
        self.render_with_payload(
            rgba,
            payload,
            width,
            height,
            cols,
            status,
            rate,
            rate_changed,
            prompt_active,
        )
    }
}

// ---------------------------------------------------------------------------
// Laws of the renderer
// ---------------------------------------------------------------------------

/// Law (skip identical frames): a frame equal to the last transmitted one is
/// never retransmitted, and if the status text and rate label are unchanged
/// too, nothing at all is written for it.
pub proof fn static_page_writes_nothing(
    prev: Seq<u8>,
    last_status: Seq<char>,
    rate: Seq<char>,
    prompt_active: bool,
    cols: u16,
)
    ensures
        !frame_changed(Some(prev), prev),
        bar_for(last_status, last_status, rate, false, prompt_active, cols) is None,
{
}

/// Law: a frame counts as changed exactly when it differs from the last
/// transmitted frame in its length or in at least one byte; with nothing
/// transmitted yet, every frame counts as changed.
pub proof fn changed_means_some_byte_differs(prev: Seq<u8>, rgba: Seq<u8>)
    ensures
        frame_changed(Some(prev), rgba) <==> (prev.len() != rgba.len() || exists|i: int|
            0 <= i < prev.len() && prev[i] != rgba[i]),
        frame_changed(None, rgba),
{
    if prev.len() == rgba.len() && !(exists|i: int| 0 <= i < prev.len() && prev[i] != rgba[i]) {
        assert(prev =~= rgba);
    }
    if prev == rgba {
        assert(!(exists|i: int| 0 <= i < prev.len() && prev[i] != rgba[i]));
    }
}

/// Law: a changed frame whose status text and rate label are unchanged
/// writes only the image; the status bar is not redrawn.
pub proof fn new_frame_same_status_writes_only_image(
    prev: Option<Seq<u8>>,
    rgba: Seq<u8>,
    status: Seq<char>,
    rate: Seq<char>,
    prompt_active: bool,
    cols: u16,
)
    requires
        frame_changed(prev, rgba),
    ensures
        bar_for(status, status, rate, false, prompt_active, cols) is None,
        next_prev(prev, rgba, true) == Some(rgba),
{
}

/// Law (over two frames): once a frame has been transmitted with some status
/// text, the same frame with the same status text and an unchanged rate label
/// produces no output.
pub proof fn repeated_frame_is_silent(
    prev: Option<Seq<u8>>,
    last_status: Seq<char>,
    rgba: Seq<u8>,
    status: Seq<char>,
    rate: Seq<char>,
    rate_changed: bool,
    prompt_active: bool,
    prompt_active_next: bool,
    cols: u16,
)
    ensures
        !frame_changed(next_prev(prev, rgba, true), rgba),
        bar_for(status, status, rate, false, prompt_active_next, cols) is None,
{
}

/// Law: while a prompt is up the status bar is never drawn, whatever else
/// changed; otherwise a changed status text is always redrawn.
pub proof fn prompt_owns_bottom_row(
    last_status: Seq<char>,
    status: Seq<char>,
    rate: Seq<char>,
    rate_changed: bool,
    cols: u16,
)
    ensures
        bar_for(last_status, status, rate, rate_changed, true, cols) is None,
        status != last_status ==> bar_for(last_status, status, rate, rate_changed, false, cols)
            == Some(status_bar(rate, status, cols)),
{
}

/// Law: the drawn bar never takes more bytes than the terminal has columns,
/// and when the whole bar fits it is drawn entirely.
pub proof fn status_bar_fits_width(rate: Seq<char>, status: Seq<char>, cols: u16)
    ensures
        status_bar(rate, status, cols) matches Some(t) ==> utf8_len(t) <= cols && t
            == status_bar_text(rate, status, cols).take(t.len() as int),
        utf8_len(status_bar_text(rate, status, cols)) <= cols ==> status_bar(rate, status, cols)
            == Some(status_bar_text(rate, status, cols)),
{
    let bar = status_bar_text(rate, status, cols);
    let k = if utf8_len(bar) <= cols {
        utf8_len(bar)
    } else {
        cols as nat
    };
    if exists|i: int| 0 <= i <= bar.len() && utf8_len(#[trigger] bar.take(i)) == k {
        let c = choose|i: int| 0 <= i <= bar.len() && utf8_len(#[trigger] bar.take(i)) == k;
        assert(bar.take(c).len() == c);
        assert(bar.take(c) =~= bar.take(bar.take(c).len() as int));
    }
    if utf8_len(bar) <= cols {
        utf8_len_whole(bar);
        let c = choose|i: int| 0 <= i <= bar.len() && utf8_len(#[trigger] bar.take(i)) == k;
        if c < bar.len() {
            utf8_len_take_monotone(bar, c, bar.len() as int);
        }
        assert(bar.take(bar.len() as int) =~= bar);
    }
}

} // verus!
