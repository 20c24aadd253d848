//! Rendering a canvas to the plain-text P3 image format, and reading such
//! a header back.
//!
//! The output is `P3\n<width> <height>\n255\n` followed by one `R G B`
//! line per pixel, rows top to bottom and columns left to right, each
//! channel quantized to 0..=255. Every pixel entry is newline-terminated,
//! so no output line outruns a pixel entry and the text always ends in
//! exactly one newline.

use crate::canvas::Canvas;
use crate::color::{quant, Color};
use vstd::prelude::*;
use vstd::string::{StrSliceExecFns, StringSliceAdditionalSpecFns};

verus! {

/// Decimal digits of `n`, most significant first.
pub open spec fn spec_dec(n: nat) -> Seq<u8>
    decreases n,
{
    if n < 10 {
        seq![(48 + n) as u8]
    } else {
        spec_dec(n / 10).push((48 + n % 10) as u8)
    }
}

/// One pixel's line of text: the three quantized channels separated by
/// single spaces, newline-terminated.
pub open spec fn spec_entry(c: Color) -> Seq<u8> {
    spec_dec(quant(c.red.raw as int) as nat) + seq![32u8] + spec_dec(
        quant(c.green.raw as int) as nat,
    ) + seq![32u8] + spec_dec(quant(c.blue.raw as int) as nat) + seq![10u8]
}

/// The first `k` pixel lines in buffer order (row-major, so rows top to
/// bottom and columns left to right).
pub open spec fn spec_entries(px: Seq<Color>, k: nat) -> Seq<u8>
    decreases k,
{
    if k == 0 {
        Seq::empty()
    } else {
        spec_entries(px, (k - 1) as nat) + spec_entry(px[k - 1])
    }
}

/// The P3 header: magic line, dimensions, maximum channel value.
pub open spec fn spec_header(w: nat, h: nat) -> Seq<u8> {
    seq![80u8, 51u8, 10u8] + spec_dec(w) + seq![32u8] + spec_dec(h) + seq![
        10u8,
        50u8,
        53u8,
        53u8,
        10u8,
    ]
}

/// The whole rendering of a canvas.
pub open spec fn spec_ppm(w: nat, h: nat, px: Seq<Color>) -> Seq<u8> {
    spec_header(w, h) + spec_entries(px, px.len())
}

/// The bytes read as characters, one to one.
pub open spec fn chars_of(b: Seq<u8>) -> Seq<char> {
    Seq::new(b.len(), |i: int| b[i] as char)
}

/// Every byte is ASCII.
pub open spec fn all_ascii(b: Seq<u8>) -> bool {
    forall|i: int| 0 <= i < b.len() ==> #[trigger] b[i] < 128
}

/// Append the decimal digits of `n`.
fn push_dec(out: &mut Vec<u8>, n: usize)
    ensures
        final(out)@ == old(out)@ + spec_dec(n as nat),
    decreases n,
{
    if n < 10 {
        out.push(48 + n as u8);
        proof {
            assert(out@ =~= old(out)@ + spec_dec(n as nat));
        }
    } else {
        push_dec(out, n / 10);
        out.push(48 + (n % 10) as u8);
        proof {
            assert(out@ =~= old(out)@ + spec_dec(n as nat));
        }
    }
}

/// Append one pixel's line of text.
fn push_entry(out: &mut Vec<u8>, c: Color)
    ensures
        final(out)@ == old(out)@ + spec_entry(c),
{
    let (cr, cg, cb) = c.as_rgb();
    push_dec(out, cr);
    out.push(32);
    push_dec(out, cg);
    out.push(32);
    push_dec(out, cb);
    out.push(10);
    proof {
        assert(out@ =~= old(out)@ + spec_entry(c));
    }
}

/// Render a canvas as P3 text, as raw ASCII bytes.
pub fn ppm_bytes(canvas: &Canvas) -> (r: Vec<u8>)
    requires
        canvas.wf(),
    ensures
        r@ == spec_ppm(canvas.width as nat, canvas.height as nat, canvas.pixels@),
{
    let ghost w = canvas.width as nat;
    let ghost h = canvas.height as nat;
    let ghost px = canvas.pixels@;
    let mut out: Vec<u8> = Vec::new();
    out.push(80);
    out.push(51);
    out.push(10);
    push_dec(&mut out, canvas.width);
    out.push(32);
    push_dec(&mut out, canvas.height);
    out.push(10);
    out.push(50);
    out.push(53);
    out.push(53);
    out.push(10);
    proof {
        assert(out@ =~= spec_header(w, h));
    }
    let mut i: usize = 0;
    while i < canvas.pixels.len()
        invariant
            i <= px.len(),
            canvas.pixels@ == px,
            out@ == spec_header(w, h) + spec_entries(px, i as nat),
        decreases px.len() - i,
    {
        let c = canvas.pixels[i];
        push_entry(&mut out, c);
        proof {
            assert(spec_entries(px, (i + 1) as nat) == spec_entries(px, i as nat) + spec_entry(
                px[i as int],
            ));
            assert(out@ =~= spec_header(w, h) + spec_entries(px, (i + 1) as nat));
        }
        i = i + 1;
    }
    out
}

/// Decimal digits are ASCII digit bytes, and there is at least one.
proof fn lemma_dec_digits(n: nat)
    ensures
        spec_dec(n).len() >= 1,
        forall|i: int| 0 <= i < spec_dec(n).len() ==> 48 <= #[trigger] spec_dec(n)[i] <= 57,
    decreases n,
{
    if n >= 10 {
        lemma_dec_digits(n / 10);
    }
}

/// Concatenation preserves being all ASCII.
proof fn lemma_ascii_concat(a: Seq<u8>, b: Seq<u8>)
    requires
        all_ascii(a),
        all_ascii(b),
    ensures
        all_ascii(a + b),
{
    assert forall|i: int| 0 <= i < (a + b).len() implies #[trigger] (a + b)[i] < 128 by {
        if i < a.len() {
            assert((a + b)[i] == a[i]);
        } else {
            assert((a + b)[i] == b[i - a.len()]);
        }
    }
}

/// A number's digits are all ASCII.
proof fn lemma_dec_ascii(n: nat)
    ensures
        all_ascii(spec_dec(n)),
{
    lemma_dec_digits(n);
}

/// A pixel line is all ASCII.
proof fn lemma_entry_ascii(c: Color)
    ensures
        all_ascii(spec_entry(c)),
{
    lemma_dec_ascii(quant(c.red.raw as int) as nat);
    lemma_dec_ascii(quant(c.green.raw as int) as nat);
    lemma_dec_ascii(quant(c.blue.raw as int) as nat);
    lemma_ascii_concat(spec_dec(quant(c.red.raw as int) as nat), seq![32u8]);
    lemma_ascii_concat(
        spec_dec(quant(c.red.raw as int) as nat) + seq![32u8],
        spec_dec(quant(c.green.raw as int) as nat),
    );
    lemma_ascii_concat(
        spec_dec(quant(c.red.raw as int) as nat) + seq![32u8] + spec_dec(
            quant(c.green.raw as int) as nat,
        ),
        seq![32u8],
    );
    lemma_ascii_concat(
        spec_dec(quant(c.red.raw as int) as nat) + seq![32u8] + spec_dec(
            quant(c.green.raw as int) as nat,
        ) + seq![32u8],
        spec_dec(quant(c.blue.raw as int) as nat),
    );
    lemma_ascii_concat(
        spec_dec(quant(c.red.raw as int) as nat) + seq![32u8] + spec_dec(
            quant(c.green.raw as int) as nat,
        ) + seq![32u8] + spec_dec(quant(c.blue.raw as int) as nat),
        seq![10u8],
    );
}

/// The first `k` pixel lines are all ASCII.
proof fn lemma_entries_ascii(px: Seq<Color>, k: nat)
    requires
        k <= px.len(),
    ensures
        all_ascii(spec_entries(px, k)),
    decreases k,
{
    if k > 0 {
        lemma_entries_ascii(px, (k - 1) as nat);
        lemma_entry_ascii(px[k - 1]);
        lemma_ascii_concat(spec_entries(px, (k - 1) as nat), spec_entry(px[k - 1]));
    }
}

/// The whole rendering is ASCII text.
pub proof fn lemma_ppm_ascii(w: nat, h: nat, px: Seq<Color>)
    ensures
        all_ascii(spec_ppm(w, h, px)),
{
    lemma_dec_ascii(w);
    lemma_dec_ascii(h);
    lemma_ascii_concat(seq![80u8, 51u8, 10u8], spec_dec(w));
    lemma_ascii_concat(seq![80u8, 51u8, 10u8] + spec_dec(w), seq![32u8]);
    lemma_ascii_concat(seq![80u8, 51u8, 10u8] + spec_dec(w) + seq![32u8], spec_dec(h));
    lemma_ascii_concat(
        seq![80u8, 51u8, 10u8] + spec_dec(w) + seq![32u8] + spec_dec(h),
        seq![10u8, 50u8, 53u8, 53u8, 10u8],
    );
    lemma_entries_ascii(px, px.len());
    lemma_ascii_concat(spec_header(w, h), spec_entries(px, px.len()));
}

/// Relies on String::from_utf8: ASCII bytes are valid UTF-8 and decode to
/// the characters with the same code points, one character per byte.
#[verifier::external_body]
fn ascii_string(bytes: Vec<u8>) -> (r: String)
    requires
        all_ascii(bytes@),
    ensures
        r@ == chars_of(bytes@),
{
    match String::from_utf8(bytes) {
        Ok(s) => s,
        Err(_) => String::new(),
    }
}

/// Render a canvas as P3 text. The result is exactly the specified byte
/// sequence read as characters.
pub fn canvas_to_ppm(canvas: &Canvas) -> (r: String)
    requires
        canvas.wf(),
    ensures
        r@ == chars_of(spec_ppm(canvas.width as nat, canvas.height as nat, canvas.pixels@)),
{
    let bytes = ppm_bytes(canvas);
    proof {
        lemma_ppm_ascii(canvas.width as nat, canvas.height as nat, canvas.pixels@);
    }
    ascii_string(bytes)
}

/// An ASCII digit byte.
pub open spec fn is_digit(b: u8) -> bool {
    48 <= b <= 57
}

/// First position at or after `i` holding a non-digit (or the end).
pub open spec fn digits_end(s: Seq<u8>, i: nat) -> nat
    decreases s.len() - i,
{
    if i < s.len() && is_digit(s[i as int]) {
        digits_end(s, i + 1)
    } else {
        i
    }
}

/// Value of the digit run `s[i..j]`, read most significant first.
pub open spec fn digits_val(s: Seq<u8>, i: nat, j: nat) -> int
    decreases j,
{
    if j <= i {
        0
    } else {
        digits_val(s, i, (j - 1) as nat) * 10 + (s[j - 1] - 48)
    }
}

/// What parsing a P3 header yields: the magic line `P3`, a width, a single
/// space, a height, a newline and the maximum channel value line `255`,
/// read greedily; `None` when the text does not have that shape.
pub open spec fn spec_parse_header(s: Seq<u8>) -> Option<(int, int)> {
    if s.len() < 3 || s[0] != 80 || s[1] != 51 || s[2] != 10 {
        None
    } else {
        let e1 = digits_end(s, 3);
        if e1 == 3 || e1 >= s.len() || s[e1 as int] != 32 {
            None
        } else {
            let e2 = digits_end(s, (e1 + 1) as nat);
            if e2 == e1 + 1 || e2 + 5 > s.len() || s[e2 as int] != 10 || s[e2 as int + 1] != 50
                || s[e2 as int + 2] != 53 || s[e2 as int + 3] != 53 || s[e2 as int + 4] != 10 {
                None
            } else {
                Some((digits_val(s, 3, e1), digits_val(s, (e1 + 1) as nat, e2)))
            }
        }
    }
}

/// Scan a digit run, accumulating its value: returns the run's end, the
/// value, and whether the value outgrew `usize`.
fn scan_digits(bytes: &Vec<u8>, start: usize) -> (r: (usize, usize, bool))
    requires
        start <= bytes@.len(),
    ensures
        r.0 == digits_end(bytes@, start as nat),
        start <= r.0 <= bytes@.len(),
        !r.2 ==> r.1 == digits_val(bytes@, start as nat, r.0 as nat),
        r.2 ==> digits_val(bytes@, start as nat, r.0 as nat) > usize::MAX,
{
    let mut j: usize = start;
    let mut v: usize = 0;
    let mut over: bool = false;
    while j < bytes.len() && 48 <= bytes[j] && bytes[j] <= 57
        invariant
            start <= j <= bytes@.len(),
            digits_end(bytes@, start as nat) == digits_end(bytes@, j as nat),
            digits_val(bytes@, start as nat, j as nat) >= 0,
            !over ==> v == digits_val(bytes@, start as nat, j as nat),
            over ==> digits_val(bytes@, start as nat, j as nat) > usize::MAX,
        decreases bytes@.len() - j,
    {
        let d: u8 = bytes[j] - 48;
        let ghost prev = digits_val(bytes@, start as nat, j as nat);
        proof {
            assert(digits_val(bytes@, start as nat, (j + 1) as nat) == prev * 10 + d);
        }
        if over {
            proof {
                assert(prev * 10 >= (usize::MAX + 1) * 10) by (nonlinear_arith)
                    requires
                        prev > usize::MAX,
                ;
            }
        } else if v > (usize::MAX - d as usize) / 10 {
            proof {
                let m = usize::MAX - d;
                let q = m / 10;
                vstd::arithmetic::div_mod::lemma_fundamental_div_mod(m as int, 10);
                assert(prev * 10 >= (q + 1) * 10) by (nonlinear_arith)
                    requires
                        prev >= q + 1,
                ;
                assert((q + 1) * 10 == q * 10 + 10) by (nonlinear_arith);
                assert(10 * q == q * 10) by (nonlinear_arith);
            }
            over = true;
        } else {
            proof {
                let m = usize::MAX - d;
                let q = m / 10;
                vstd::arithmetic::div_mod::lemma_fundamental_div_mod(m as int, 10);
                assert(prev * 10 <= q * 10) by (nonlinear_arith)
                    requires
                        0 <= prev <= q,
                ;
                assert(10 * q == q * 10) by (nonlinear_arith);
            }
            v = v * 10 + d as usize;
        }
        j = j + 1;
    }
    (j, v, over)
}

/// Parse the header of P3 text: `Some((width, height))` exactly when the
/// text opens with a well-formed header whose dimensions fit `usize`.
pub fn parse_ppm_header(s: &str) -> (r: Option<(usize, usize)>)
    ensures
        match spec_parse_header(s.spec_bytes()) {
            Option::None => r is None,
            Option::Some(wh) => if wh.0 <= usize::MAX && wh.1 <= usize::MAX {
                r == Some((wh.0 as usize, wh.1 as usize))
            } else {
                r is None
            },
        },
{
    let bytes = s.as_bytes_vec();
    if bytes.len() < 3 {
        return None;
    }
    if *bytes.get(0).unwrap() != 80 || *bytes.get(1).unwrap() != 51 || *bytes.get(2).unwrap()
        != 10 {
        return None;
    }
    let (e1, w, over1) = scan_digits(&bytes, 3);
    if e1 == 3 || e1 >= bytes.len() {
        return None;
    }
    if bytes[e1] != 32 {
        return None;
    }
    let (e2, h, over2) = scan_digits(&bytes, e1 + 1);
    if e2 == e1 + 1 || bytes.len() - e2 < 5 {
        return None;
    }
    if bytes[e2] != 10 || bytes[e2 + 1] != 50 || bytes[e2 + 2] != 53 || bytes[e2 + 3] != 53
        || bytes[e2 + 4] != 10 {
        return None;
    }
    if over1 || over2 {
        return None;
    }
    Some((w, h))
}

/// A digit run bounded by a non-digit (or the end) stops exactly there.
proof fn lemma_digits_end_of_block(s: Seq<u8>, i: nat, j: nat)
    requires
        i <= j <= s.len(),
        forall|k: int| i <= k < j ==> is_digit(#[trigger] s[k]),
        j == s.len() || !is_digit(s[j as int]),
    ensures
        digits_end(s, i) == j,
    decreases j - i,
{
    if i < j {
        lemma_digits_end_of_block(s, i + 1, j);
    }
}

/// Reading back the digits of `n` recovers `n`.
proof fn lemma_digits_val_of_dec(s: Seq<u8>, i: nat, n: nat)
    requires
        i + spec_dec(n).len() <= s.len(),
        forall|k: int| 0 <= k < spec_dec(n).len() ==> s[i + k] == #[trigger] spec_dec(n)[k],
    ensures
        digits_val(s, i, (i + spec_dec(n).len()) as nat) == n,
    decreases n,
{
    if n < 10 {
        assert(digits_val(s, i, (i + 1) as nat) == digits_val(s, i, i) * 10 + (s[i as int] - 48));
        assert(s[i as int] == spec_dec(n)[0]);
    } else {
        let d = spec_dec(n);
        let dp = spec_dec(n / 10);
        assert(d == dp.push((48 + n % 10) as u8));
        assert forall|k: int| 0 <= k < dp.len() implies s[i + k] == #[trigger] dp[k] by {
            assert(dp[k] == d[k]);
            assert(s[i + k] == d[k]);
        }
        lemma_digits_val_of_dec(s, i, n / 10);
        let e = i + d.len();
        assert(digits_val(s, i, e as nat) == digits_val(s, i, (e - 1) as nat) * 10 + (s[e - 1]
            - 48));
        assert(s[e - 1] == d[d.len() - 1]);
        assert(d[d.len() - 1] == (48 + n % 10) as u8);
        vstd::arithmetic::div_mod::lemma_fundamental_div_mod(n as int, 10);
        assert((n / 10) * 10 == 10 * (n / 10)) by (nonlinear_arith);
    }
}

/// Parsing the header of a canvas's own rendering recovers its width and
/// height, and the canvas holds exactly width x height pixels.
pub proof fn lemma_ppm_header_round_trip(c: Canvas)
    requires
        c.wf(),
    ensures
        spec_parse_header(spec_ppm(c.width as nat, c.height as nat, c.pixels@)) == Some(
            (c.width as int, c.height as int),
        ),
        c.pixels@.len() == c.width * c.height,
{
    let w = c.width as nat;
    let h = c.height as nat;
    let px = c.pixels@;
    let s = spec_ppm(w, h, px);
    let dw = spec_dec(w);
    let dh = spec_dec(h);
    let lw = dw.len() as int;
    let lh = dh.len() as int;
    lemma_dec_digits(w);
    lemma_dec_digits(h);
    assert(s[0] == 80 && s[1] == 51 && s[2] == 10);
    assert(forall|k: int| 0 <= k < lw ==> s[3 + k] == #[trigger] dw[k]);
    assert(s[3 + lw] == 32);
    assert(forall|k: int| 0 <= k < lh ==> s[3 + lw + 1 + k] == #[trigger] dh[k]);
    let e2 = 3 + lw + 1 + lh;
    assert(s[e2] == 10 && s[e2 + 1] == 50 && s[e2 + 2] == 53 && s[e2 + 3] == 53 && s[e2 + 4]
        == 10);
    assert forall|k: int| 3 <= k < 3 + lw implies is_digit(#[trigger] s[k]) by {
        assert(s[k] == dw[k - 3]);
    }
    lemma_digits_end_of_block(s, 3, (3 + lw) as nat);
    assert forall|k: int| 3 + lw + 1 <= k < e2 implies is_digit(#[trigger] s[k]) by {
        assert(s[k] == dh[k - (3 + lw + 1)]);
    }
    lemma_digits_end_of_block(s, (3 + lw + 1) as nat, e2 as nat);
    assert forall|k: int| 0 <= k < lw implies s[3 + k] == #[trigger] dw[k] by {}
    lemma_digits_val_of_dec(s, 3, w);
    lemma_digits_val_of_dec(s, (3 + lw + 1) as nat, h);
}

/// Render a canvas and read the header of its own text back: the parse
/// always succeeds and returns exactly the canvas's dimensions.
pub fn ppm_dimensions(canvas: &Canvas) -> (r: Option<(usize, usize)>)
    requires
        canvas.wf(),
    ensures
        r == Some((canvas.width, canvas.height)),
{
    let text = canvas_to_ppm(canvas);
    let parsed = parse_ppm_header(text.as_str());
    proof {
        let b = spec_ppm(canvas.width as nat, canvas.height as nat, canvas.pixels@);
        lemma_ppm_ascii(canvas.width as nat, canvas.height as nat, canvas.pixels@);
        lemma_ppm_header_round_trip(*canvas);
        assert(vstd::utf8::is_ascii_chars(chars_of(b)));
        vstd::utf8::is_ascii_chars_encode_utf8(chars_of(b));
        assert(vstd::utf8::encode_utf8(chars_of(b)) =~= b);
    }
    parsed
}

/// Rendering is a function of the canvas contents alone: canvases that
/// agree in size and pixels render to identical text.
pub proof fn lemma_ppm_deterministic(c1: Canvas, c2: Canvas, r1: Seq<char>, r2: Seq<char>)
    requires
        c1.width == c2.width,
        c1.height == c2.height,
        c1.pixels@ == c2.pixels@,
        r1 == chars_of(spec_ppm(c1.width as nat, c1.height as nat, c1.pixels@)),
        r2 == chars_of(spec_ppm(c2.width as nat, c2.height as nat, c2.pixels@)),
    ensures
        r1 == r2,
{
}

} // verus!
