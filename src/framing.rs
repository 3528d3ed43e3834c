//! Framing of engine messages: each body is preceded by a `Content-Length` header.
use vstd::prelude::*;
use vstd::string::StringSliceAdditionalSpecFns;

verus! {

/// The bytes of `Content-Length: `, which open the header line of a frame.
pub open spec fn header_prefix() -> Seq<u8> {
    seq![67u8, 111, 110, 116, 101, 110, 116, 45, 76, 101, 110, 103, 116, 104, 58, 32]
}

pub open spec fn is_digit(b: u8) -> bool {
    48 <= b <= 57
}

/// The ASCII whitespace that is trimmed around the length.
pub open spec fn is_space(b: u8) -> bool {
    b == 9 || b == 10 || b == 11 || b == 12 || b == 13 || b == 32
}

pub open spec fn starts_with(s: Seq<u8>, p: Seq<u8>) -> bool {
    p.len() <= s.len() && s.subrange(0, p.len() as int) == p
}

pub open spec fn trim_start(s: Seq<u8>) -> Seq<u8>
    decreases s.len(),
{
    if s.len() > 0 && is_space(s[0]) {
        trim_start(s.drop_first())
    } else {
        s
    }
}

pub open spec fn trim_end(s: Seq<u8>) -> Seq<u8>
    decreases s.len(),
{
    if s.len() > 0 && is_space(s.last()) {
        trim_end(s.drop_last())
    } else {
        s
    }
}

pub open spec fn all_digits(s: Seq<u8>) -> bool {
    forall|i: int| 0 <= i < s.len() ==> is_digit(#[trigger] s[i])
}

/// The number that a run of decimal digits writes.
pub open spec fn digits_value(s: Seq<u8>) -> nat
    decreases s.len(),
{
    if s.len() == 0 {
        0
    } else {
        digits_value(s.drop_last()) * 10 + (s.last() - 48) as nat
    }
}

/// An unsigned decimal number, with an optional `+`, that fits a `usize`.
pub open spec fn parse_decimal(s: Seq<u8>) -> Option<usize> {
    let d = if s.len() > 0 && s[0] == 43 {
        s.drop_first()
    } else {
        s
    };
    if d.len() > 0 && all_digits(d) && digits_value(d) <= usize::MAX {
        Some(digits_value(d) as usize)
    } else {
        None
    }
}

/// The length that a header line announces: the line starts with `Content-Length: `,
/// and what follows, without surrounding whitespace, is the number.
pub open spec fn content_length(header: Seq<u8>) -> Option<usize> {
    if starts_with(header, header_prefix()) {
        parse_decimal(trim_end(trim_start(header.subrange(16, header.len() as int))))
    } else {
        None
    }
}

/// The decimal digits of `n`, most significant first.
pub open spec fn decimal(n: nat) -> Seq<u8>
    decreases n,
{
    if n < 10 {
        seq![(48 + n) as u8]
    } else {
        decimal(n / 10).push((48 + n % 10) as u8)
    }
}

/// A whole frame: the header line, a blank line, and the body.
pub open spec fn frame_of(body: Seq<u8>) -> Seq<u8> {
    header_prefix() + decimal(body.len()) + seq![13u8, 10, 13, 10] + body
}

/// The index just past the first line feed at or after `pos`.
pub open spec fn line_end(buf: Seq<u8>, pos: nat) -> Option<nat>
    decreases buf.len() - pos,
{
    if pos >= buf.len() {
        None
    } else if buf[pos as int] == 10 {
        Some(pos + 1)
    } else {
        line_end(buf, pos + 1)
    }
}

/// The first whole frame in `buf` from `pos` on, with the index just past it. Lines
/// that announce no length are skipped; the line after a header is the separator.
pub open spec fn next_frame(buf: Seq<u8>, pos: nat) -> Option<(Seq<u8>, nat)>
    decreases buf.len() - pos,
{
    match line_end(buf, pos) {
        None => None,
        Some(e) => match content_length(buf.subrange(pos as int, e as int)) {
            None => if pos < e <= buf.len() {
                next_frame(buf, e)
            } else {
                None
            },
            Some(n) => match line_end(buf, e) {
                None => None,
                Some(e2) => if e2 + n <= buf.len() {
                    Some((buf.subrange(e2 as int, e2 + n), (e2 + n) as nat))
                } else {
                    None
                },
            },
        },
    }
}

proof fn lemma_trim_start_at(s: Seq<u8>, lo: int)
    requires
        0 <= lo <= s.len(),
        forall|k: int| 0 <= k < lo ==> is_space(#[trigger] s[k]),
        lo == s.len() || !is_space(s[lo]),
    ensures
        trim_start(s) == s.subrange(lo, s.len() as int),
    decreases lo,
{
    if lo == 0 {
        assert(s.subrange(0, s.len() as int) =~= s);
    } else {
        let t = s.drop_first();
        assert forall|k: int| 0 <= k < lo - 1 implies is_space(#[trigger] t[k]) by {
            assert(t[k] == s[k + 1]);
        }
        lemma_trim_start_at(t, lo - 1);
        assert(t.subrange(lo - 1, t.len() as int) =~= s.subrange(lo, s.len() as int));
    }
}

proof fn lemma_trim_end_at(s: Seq<u8>, hi: int)
    requires
        0 <= hi <= s.len(),
        forall|k: int| hi <= k < s.len() ==> is_space(#[trigger] s[k]),
        hi == 0 || !is_space(s[hi - 1]),
    ensures
        trim_end(s) == s.subrange(0, hi),
    decreases s.len() - hi,
{
    if hi == s.len() {
        assert(s.subrange(0, s.len() as int) =~= s);
    } else {
        let t = s.drop_last();
        assert forall|k: int| hi <= k < t.len() implies is_space(#[trigger] t[k]) by {
            assert(t[k] == s[k]);
        }
        lemma_trim_end_at(t, hi);
        assert(t.subrange(0, hi) =~= s.subrange(0, hi));
    }
}

proof fn lemma_digits_step(t: Seq<u8>, k: int)
    requires
        0 <= k < t.len(),
    ensures
        digits_value(t.subrange(0, k + 1)) == digits_value(t.subrange(0, k)) * 10 + (t[k] - 48) as nat,
{
    assert(t.subrange(0, k + 1).drop_last() =~= t.subrange(0, k));
}

proof fn lemma_digits_mono(s: Seq<u8>, k: int)
    requires
        0 <= k <= s.len(),
    ensures
        digits_value(s.subrange(0, k)) <= digits_value(s),
    decreases s.len(),
{
    if k == s.len() {
        assert(s.subrange(0, k) =~= s);
    } else {
        let t = s.drop_last();
        lemma_digits_mono(t, k);
        assert(t.subrange(0, k) =~= s.subrange(0, k));
        assert(digits_value(s) >= digits_value(t)) by (nonlinear_arith)
            requires
                digits_value(s) == digits_value(t) * 10 + (s.last() - 48) as nat,
        ;
    }
}

fn is_space_byte(b: u8) -> (r: bool)
    ensures
        r == is_space(b),
{
    b == 9 || b == 10 || b == 11 || b == 12 || b == 13 || b == 32
}

/// The number written in `buf[lo..hi]`, as `parse_decimal` reads it.
fn decimal_in(buf: &[u8], lo: usize, hi: usize) -> (r: Option<usize>)
    requires
        lo <= hi <= buf@.len(),
    ensures
        r == parse_decimal(buf@.subrange(lo as int, hi as int)),
{
    let ghost s = buf@.subrange(lo as int, hi as int);
    let mut a = lo;
    if a < hi && buf[a] == 43 {
        a = a + 1;
    }
    let ghost d = buf@.subrange(a as int, hi as int);
    proof {
        if s.len() > 0 && s[0] == 43 {
            assert(s.drop_first() =~= d);
        } else {
            assert(s =~= d);
        }
    }
    if a == hi {
        return None;
    }
    assert(parse_decimal(s) == (if d.len() > 0 && all_digits(d) && digits_value(d) <= usize::MAX {
        Some(digits_value(d) as usize)
    } else {
        None
    }));
    let mut v: usize = 0;
    let mut k = a;
    while k < hi
        invariant
            lo <= a < hi <= buf@.len(),
            a <= k <= hi,
            d == buf@.subrange(a as int, hi as int),
            s == buf@.subrange(lo as int, hi as int),
            parse_decimal(s) == (if d.len() > 0 && all_digits(d) && digits_value(d) <= usize::MAX {
                Some(digits_value(d) as usize)
            } else {
                None
            }),
            forall|j: int| 0 <= j < k - a ==> is_digit(#[trigger] d[j]),
            v == digits_value(d.subrange(0, k - a)),
        decreases hi - k,
    {
        let b = buf[k];
        if b < 48 || b > 57 {
            assert(!is_digit(d[k - a]));
            return None;
        }
        proof {
            lemma_digits_step(d, k - a);
        }
        let t = v.checked_mul(10);
        match t {
            Some(t) => {
                let u = t.checked_add((b - 48) as usize);
                match u {
                    Some(u) => {
                        v = u;
                    },
                    None => {
                        proof {
                            if all_digits(d) {
                                lemma_digits_mono(d, k - a + 1);
                            }
                        }
                        return None;
                    },
                }
            },
            None => {
                proof {
                    let dv = digits_value(d.subrange(0, k - a + 1));
                    assert(dv >= v * 10) by (nonlinear_arith)
                        requires
                            dv == v * 10 + (b - 48) as nat,
                    ;
                    if all_digits(d) {
                        lemma_digits_mono(d, k - a + 1);
                    }
                }
                return None;
            },
        }
        k = k + 1;
    }
    assert(d.subrange(0, d.len() as int) =~= d);
    Some(v)
}

/// The length that the header line `buf[lo..hi]` announces.
fn header_length(buf: &[u8], lo: usize, hi: usize) -> (r: Option<usize>)
    requires
        lo <= hi <= buf@.len(),
    ensures
        r == content_length(buf@.subrange(lo as int, hi as int)),
{
    let ghost h = buf@.subrange(lo as int, hi as int);
    let p: [u8; 16] = [67u8, 111, 110, 116, 101, 110, 116, 45, 76, 101, 110, 103, 116, 104, 58, 32];
    assert(p@ =~= header_prefix());
    if hi - lo < 16 {
        return None;
    }
    let mut k: usize = 0;
    while k < 16
        invariant
            lo + 16 <= hi <= buf@.len(),
            h == buf@.subrange(lo as int, hi as int),
            p@ == header_prefix(),
            0 <= k <= 16,
            forall|j: int| 0 <= j < k ==> h[j] == header_prefix()[j],
        decreases 16 - k,
    {
        if buf[lo + k] != p[k] {
            assert(h.subrange(0, 16)[k as int] != header_prefix()[k as int]);
            return None;
        }
        k = k + 1;
    }
    assert(h.subrange(0, 16) =~= header_prefix());
    let ghost rest = h.subrange(16, h.len() as int);
    let mut a = lo + 16;
    while a < hi && is_space_byte(buf[a])
        invariant
            lo + 16 <= a <= hi <= buf@.len(),
            rest == buf@.subrange(lo + 16, hi as int),
            forall|j: int| 0 <= j < a - lo - 16 ==> is_space(#[trigger] rest[j]),
        decreases hi - a,
    {
        a = a + 1;
    }
    proof {
        lemma_trim_start_at(rest, a - lo - 16);
        assert(rest.subrange(a - lo - 16, rest.len() as int) =~= buf@.subrange(a as int, hi as int));
    }
    let ghost mid = buf@.subrange(a as int, hi as int);
    let mut b = hi;
    while b > a && is_space_byte(buf[b - 1])
        invariant
            a <= b <= hi <= buf@.len(),
            mid == buf@.subrange(a as int, hi as int),
            forall|j: int| b - a <= j < mid.len() ==> is_space(#[trigger] mid[j]),
        decreases b - a,
    {
        b = b - 1;
    }
    proof {
        lemma_trim_end_at(mid, b - a);
        assert(mid.subrange(0, b - a) =~= buf@.subrange(a as int, b as int));
    }
    decimal_in(buf, a, b)
}

/// The length that a header line announces, where it is one: the line starts with
/// `Content-Length: ` and the number follows.
pub fn parse_content_length(header: &str) -> (r: Option<usize>)
    ensures
        r == content_length(header.spec_bytes()),
{
    let b = header.as_bytes();
    assert(b@.subrange(0, b@.len() as int) =~= b@);
    header_length(b, 0, b.len())
}

fn push_decimal(out: &mut Vec<u8>, n: usize)
    ensures
        final(out)@ == old(out)@ + decimal(n as nat),
    decreases n,
{
    if n >= 10 {
        push_decimal(out, n / 10);
    }
    out.push(48 + (n % 10) as u8);
    proof {
        if n >= 10 {
            assert(final(out)@ =~= old(out)@ + decimal(n as nat));
        } else {
            assert(final(out)@ =~= old(out)@ + decimal(n as nat));
        }
    }
}

/// Frames a message body: `Content-Length: <n>`, a blank line, then the `n` bytes.
pub fn encode_frame(body: &[u8]) -> (r: Vec<u8>)
    ensures
        r@ == frame_of(body@),
{
    let p: [u8; 16] = [67u8, 111, 110, 116, 101, 110, 116, 45, 76, 101, 110, 103, 116, 104, 58, 32];
    assert(p@ =~= header_prefix());
    let mut out: Vec<u8> = Vec::new();
    let mut k: usize = 0;
    while k < 16
        invariant
            p@ == header_prefix(),
            0 <= k <= 16,
            out@ == header_prefix().subrange(0, k as int),
        decreases 16 - k,
    {
        out.push(p[k]);
        k = k + 1;
        assert(out@ =~= header_prefix().subrange(0, k as int));
    }
    assert(out@ =~= header_prefix());
    push_decimal(&mut out, body.len());
    out.push(13);
    out.push(10);
    out.push(13);
    out.push(10);
    let ghost head = out@;
    assert(head =~= header_prefix() + decimal(body@.len()) + seq![13u8, 10, 13, 10]);
    let mut i: usize = 0;
    while i < body.len()
        invariant
            0 <= i <= body@.len(),
            out@ == head + body@.subrange(0, i as int),
        decreases body@.len() - i,
    {
        out.push(body[i]);
        i = i + 1;
        assert(out@ =~= head + body@.subrange(0, i as int));
    }
    assert(body@.subrange(0, body@.len() as int) =~= body@);
    out
}

fn find_line_end(buf: &[u8], pos: usize) -> (r: Option<usize>)
    ensures
        match r {
            Some(e) => line_end(buf@, pos as nat) == Some(e as nat),
            None => line_end(buf@, pos as nat) is None,
        },
{
    let mut j = pos;
    while j < buf.len()
        invariant
            pos <= j,
            line_end(buf@, pos as nat) == line_end(buf@, j as nat),
        decreases buf@.len() - j,
    {
        if buf[j] == 10 {
            return Some(j + 1);
        }
        j = j + 1;
    }
    None
}

proof fn lemma_line_end_bounds(buf: Seq<u8>, pos: nat)
    ensures
        match line_end(buf, pos) {
            Some(e) => pos < e <= buf.len(),
            None => true,
        },
    decreases buf.len() - pos,
{
    if pos < buf.len() && buf[pos as int] != 10 {
        lemma_line_end_bounds(buf, pos + 1);
    }
}

/// Takes the first whole frame out of `buf`: its body, and how many bytes of `buf` it
/// and the lines skipped before it take. `None` while no whole frame is there.
pub fn decode_frame(buf: &[u8]) -> (r: Option<(Vec<u8>, usize)>)
    ensures
        match r {
            Some((body, used)) => next_frame(buf@, 0) == Some((body@, used as nat)),
            None => next_frame(buf@, 0) is None,
        },
{
    let mut pos: usize = 0;
    loop
        invariant
            pos <= buf@.len(),
            next_frame(buf@, 0) == next_frame(buf@, pos as nat),
        decreases buf@.len() - pos,
    {
        proof {
            lemma_line_end_bounds(buf@, pos as nat);
        }
        let e = match find_line_end(buf, pos) {
            Some(e) => e,
            None => {
                return None;
            },
        };
        match header_length(buf, pos, e) {
            None => {
                pos = e;
            },
            Some(n) => {
                proof {
                    lemma_line_end_bounds(buf@, e as nat);
                }
                let e2 = match find_line_end(buf, e) {
                    Some(e2) => e2,
                    None => {
                        return None;
                    },
                };
                if n > buf.len() - e2 {
                    return None;
                }
                let mut body: Vec<u8> = Vec::new();
                let mut i: usize = 0;
                while i < n
                    invariant
                        e2 + n <= buf@.len(),
                        buf@.len() <= usize::MAX,
                        0 <= i <= n,
                        body@ == buf@.subrange(e2 as int, e2 + i),
                    decreases n - i,
                {
                    body.push(buf[e2 + i]);
                    i = i + 1;
                    assert(body@ =~= buf@.subrange(e2 as int, e2 + i));
                }
                return Some((body, e2 + n));
            },
        }
    }
}

proof fn lemma_decimal(n: nat)
    ensures
        decimal(n).len() > 0,
        all_digits(decimal(n)),
        digits_value(decimal(n)) == n,
    decreases n,
{
    let d = decimal(n);
    if n >= 10 {
        lemma_decimal(n / 10);
        assert(d.drop_last() =~= decimal(n / 10));
        assert forall|i: int| 0 <= i < d.len() implies is_digit(#[trigger] d[i]) by {
            if i < d.len() - 1 {
                assert(d[i] == decimal(n / 10)[i]);
            }
        }
        assert(d.last() == (48 + n % 10) as u8);
        assert((d.last() - 48) as nat == n % 10);
        assert(digits_value(d) == digits_value(decimal(n / 10)) * 10 + n % 10);
        assert(n == (n / 10) * 10 + n % 10) by (nonlinear_arith);
    } else {
        assert(d.drop_last() =~= Seq::<u8>::empty());
        assert(d.last() == (48 + n) as u8);
        assert(digits_value(d) == digits_value(d.drop_last()) * 10 + (d.last() - 48) as nat);
    }
}

proof fn lemma_line_end_at(buf: Seq<u8>, pos: nat, j: nat)
    requires
        pos <= j < buf.len(),
        forall|k: int| pos <= k < j ==> #[trigger] buf[k] != 10,
        buf[j as int] == 10,
    ensures
        line_end(buf, pos) == Some(j + 1),
    decreases j - pos,
{
    if pos < j {
        lemma_line_end_at(buf, pos + 1, j);
    }
}

proof fn lemma_prefix_bytes()
    ensures
        forall|k: int| 0 <= k < 16 ==> #[trigger] header_prefix()[k] != 10,
        header_prefix().len() == 16,
{
}

/// The header line of a frame announces the body's length.
proof fn lemma_header_line(n: nat)
    requires
        n <= usize::MAX,
    ensures
        content_length(header_prefix() + decimal(n) + seq![13u8, 10]) == Some(n as usize),
{
    let d = decimal(n);
    lemma_decimal(n);
    let h = header_prefix() + d + seq![13u8, 10];
    assert(h.subrange(0, 16) =~= header_prefix());
    let rest = h.subrange(16, h.len() as int);
    assert(rest =~= d + seq![13u8, 10]);
    assert(is_digit(rest[0]));
    lemma_trim_start_at(rest, 0);
    assert(rest.subrange(0, rest.len() as int) =~= rest);
    assert(is_digit(rest[d.len() - 1]));
    lemma_trim_end_at(rest, d.len() as int);
    assert(rest.subrange(0, d.len() as int) =~= d);
    assert(is_digit(d[0]));
}

/// A frame that starts at `off` in `buf` decodes to its body, whatever follows it.
proof fn lemma_frame_at(buf: Seq<u8>, off: nat, body: Seq<u8>)
    requires
        body.len() <= usize::MAX,
        off + frame_of(body).len() <= buf.len(),
        buf.subrange(off as int, (off + frame_of(body).len()) as int) == frame_of(body),
    ensures
        next_frame(buf, off) == Some((body, off + frame_of(body).len())),
{
    let f = frame_of(body);
    let d = decimal(body.len());
    lemma_decimal(body.len());
    lemma_prefix_bytes();
    let l: int = 16 + d.len() as int;
    assert(f.len() == l + 4 + body.len());
    assert forall|k: int| 0 <= k < f.len() implies #[trigger] buf[off + k] == f[k] by {
        assert(buf.subrange(off as int, (off + f.len()) as int)[k] == buf[off + k]);
    }
    assert forall|k: int| off <= k < off + l + 1 implies #[trigger] buf[k] != 10 by {
        assert(buf[off + (k - off)] == f[k - off]);
        if k - off < 16 {
            assert(f[k - off] == header_prefix()[k - off]);
        } else if k - off < l {
            assert(f[k - off] == d[k - off - 16]);
            assert(is_digit(d[k - off - 16]));
        }
    }
    assert(buf[off + (l + 1)] == f[l + 1]);
    lemma_line_end_at(buf, off, (off + l + 1) as nat);
    let e: int = off + l + 2;
    let h = buf.subrange(off as int, e);
    assert(h =~= header_prefix() + d + seq![13u8, 10]) by {
        assert forall|k: int| 0 <= k < h.len() implies h[k] == (header_prefix() + d + seq![13u8, 10])[k] by {
            assert(h[k] == buf[off + k]);
        }
    }
    lemma_header_line(body.len());
    assert(buf[off + (l + 2)] == f[l + 2]);
    assert(buf[off + (l + 3)] == f[l + 3]);
    lemma_line_end_at(buf, e as nat, (e + 1) as nat);
    let e2: int = e + 2;
    assert(buf.subrange(e2, e2 + body.len()) =~= body) by {
        assert forall|k: int| 0 <= k < body.len() implies buf.subrange(e2, e2 + body.len())[k] == body[k] by {
            assert(buf[off + (l + 4 + k)] == f[l + 4 + k]);
        }
    }
}

/// Decoding the frame of a body gives back that body, with the whole frame consumed.
pub proof fn lemma_frame_round_trip(body: Seq<u8>)
    requires
        body.len() <= usize::MAX,
    ensures
        next_frame(frame_of(body), 0) == Some((body, frame_of(body).len())),
{
    let f = frame_of(body);
    assert(f.subrange(0, f.len() as int) =~= f);
    lemma_frame_at(f, 0, body);
}

/// Frames one after another: the frame of each body, in order.
pub open spec fn stream_of(bodies: Seq<Seq<u8>>) -> Seq<u8>
    decreases bodies.len(),
{
    if bodies.len() == 0 {
        Seq::empty()
    } else {
        frame_of(bodies[0]) + stream_of(bodies.drop_first())
    }
}

/// Decoding a stream of frames gives the first body and consumes its frame alone,
/// leaving the stream of the other bodies; decoding again and again thus gives every
/// body, in order. A stream with no frame gives nothing.
pub proof fn lemma_stream_decode(bodies: Seq<Seq<u8>>)
    requires
        forall|i: int| 0 <= i < bodies.len() ==> (#[trigger] bodies[i]).len() <= usize::MAX,
    ensures
        bodies.len() == 0 ==> next_frame(stream_of(bodies), 0) is None,
        bodies.len() > 0 ==> {
            let used = frame_of(bodies[0]).len();
            &&& next_frame(stream_of(bodies), 0) == Some((bodies[0], used))
            &&& stream_of(bodies).subrange(used as int, stream_of(bodies).len() as int) == stream_of(
                bodies.drop_first(),
            )
        },
{
    let buf = stream_of(bodies);
    if bodies.len() == 0 {
        assert(line_end(buf, 0) is None);
    } else {
        let f = frame_of(bodies[0]);
        assert(buf.subrange(0, f.len() as int) =~= f);
        lemma_frame_at(buf, 0, bodies[0]);
        assert(buf.subrange(f.len() as int, buf.len() as int) =~= stream_of(bodies.drop_first()));
    }
}

/// A header line that writes the length `n` in decimal announces `n`.
pub proof fn lemma_header_announces(n: usize)
    ensures
        content_length(header_prefix() + decimal(n as nat) + seq![13u8, 10]) == Some(n),
        content_length(header_prefix() + decimal(n as nat)) == Some(n),
{
    lemma_header_line(n as nat);
    let d = decimal(n as nat);
    lemma_decimal(n as nat);
    let h = header_prefix() + d;
    assert(h.subrange(0, 16) =~= header_prefix());
    let rest = h.subrange(16, h.len() as int);
    assert(rest =~= d);
    assert(is_digit(rest[0]));
    lemma_trim_start_at(rest, 0);
    assert(rest.subrange(0, rest.len() as int) =~= rest);
    assert(is_digit(rest[d.len() - 1]));
    lemma_trim_end_at(rest, d.len() as int);
    assert(is_digit(d[0]));
}

/// A line that does not start with `Content-Length: ` announces nothing.
pub proof fn lemma_foreign_header(line: Seq<u8>)
    requires
        !starts_with(line, header_prefix()),
    ensures
        content_length(line) is None,
{
}

/// A line that announces no length, ahead of a frame, is skipped whole: the frame's
/// body comes out intact, and both the line and the frame are consumed.
pub proof fn lemma_skip_foreign_line(line: Seq<u8>, body: Seq<u8>)
    requires
        body.len() <= usize::MAX,
        line.len() > 0,
        line.last() == 10,
        forall|k: int| 0 <= k < line.len() - 1 ==> #[trigger] line[k] != 10,
        content_length(line) is None,
    ensures
        next_frame(line + frame_of(body), 0) == Some(
            (body, line.len() + frame_of(body).len()),
        ),
{
    let buf = line + frame_of(body);
    assert forall|k: int| 0 <= k < line.len() - 1 implies #[trigger] buf[k] != 10 by {
        assert(buf[k] == line[k]);
    }
    assert(buf[line.len() - 1] == line.last());
    lemma_line_end_at(buf, 0, (line.len() - 1) as nat);
    assert(buf.subrange(0, line.len() as int) =~= line);
    assert(buf.subrange(line.len() as int, buf.len() as int) =~= frame_of(body));
    lemma_frame_at(buf, line.len(), body);
}

} // verus!
