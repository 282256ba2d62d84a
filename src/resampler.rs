use vstd::prelude::*;
use vstd::arithmetic::div_mod::{
    lemma_div_is_ordered, lemma_div_is_ordered_by_denominator, lemma_div_multiples_vanish,
    lemma_fundamental_div_mod, lemma_fundamental_div_mod_converse, lemma_hoist_over_denominator,
};

verus! {

/// Offset that maps a signed 16-bit sample onto `0..=65535`.
const SAMPLE_OFFSET: i64 = 32768;

/// Index of the buffered sample at or before output position `i`, for a rate
/// ratio of `from / to`.
pub open spec fn source_index(i: int, from: int, to: int) -> int {
    (i * from) / to
}

/// Fractional part of output position `i`, as a numerator over `to`.
pub open spec fn source_frac(i: int, from: int, to: int) -> int {
    (i * from) % to
}

/// Linear interpolation between `a` and `b` at the fraction `r / den`,
/// rounded down.
pub open spec fn interpolate(a: int, b: int, r: int, den: int) -> int {
    (a * (den - r) + b * r) / den
}

/// Output length that the ratio allows for `len` buffered samples: the floor
/// of `len / (from / to)`, and none below two samples.
pub open spec fn formula_len(len: int, from: int, to: int) -> int {
    if len < 2 {
        0
    } else {
        (len * to) / from
    }
}

/// Output position `i` has both of its neighbours inside a buffer of `len`.
pub open spec fn in_buffer(i: int, len: int, from: int, to: int) -> bool {
    source_index(i, from, to) + 1 < len
}

/// `n` is the number of output samples produced from `len` buffered samples:
/// every position below the floor formula, up to the first one whose right
/// neighbour lies outside the buffer.
pub open spec fn produced_len(n: int, len: int, from: int, to: int) -> bool {
    &&& 0 <= n <= formula_len(len, from, to)
    &&& forall|j: int| 0 <= j < n ==> #[trigger] in_buffer(j, len, from, to)
    &&& (n == formula_len(len, from, to) || !in_buffer(n, len, from, to))
}

/// Output sample `i` interpolated from the buffer `buf`.
pub open spec fn output_sample(buf: Seq<i16>, i: int, from: int, to: int) -> int {
    let k = source_index(i, from, to);
    interpolate(buf[k] as int, buf[k + 1] as int, source_frac(i, from, to), to)
}

/// Number of buffered samples released after producing `n` outputs from
/// `len`: all before the left neighbour of the next output position, but
/// never the last sample.
pub open spec fn released_len(n: int, len: int, from: int, to: int) -> int {
    if len == 0 {
        0
    } else if source_index(n, from, to) < len {
        source_index(n, from, to)
    } else {
        len - 1
    }
}

/// The buffer kept for the next call, after `n` outputs from `buf`.
pub open spec fn carry_over(buf: Seq<i16>, n: int, from: int, to: int) -> Seq<i16> {
    buf.skip(released_len(n, buf.len() as int, from, to))
}

/// One interpolated sample between `a` and `b`, at the fraction `r / den`.
fn interpolate_pair(a: i16, b: i16, r: u64, den: u64) -> (v: i16)
    requires
        r < den,
        den <= 0xffff_ffff,
    ensures
        v as int == interpolate(a as int, b as int, r as int, den as int),
{
    let ua = (a as i64 + SAMPLE_OFFSET) as u64;
    let ub = (b as i64 + SAMPLE_OFFSET) as u64;
    assert(ua * (den - r) + ub * r <= 65535 * den) by (nonlinear_arith)
        requires
            ua <= 65535,
            ub <= 65535,
            r < den,
    ;
    let num = ua * (den - r) + ub * r;
    let q = num / den;
    proof {
        let x = (a as int) * (den - r) + (b as int) * (r as int);
        let d = den as int;
        assert(num == x + 32768 * d) by (nonlinear_arith)
            requires
                ua == a + 32768,
                ub == b + 32768,
                num == ua * (den - r) + ub * r,
                x == (a as int) * (den - r) + (b as int) * (r as int),
                d == den,
        ;
        lemma_hoist_over_denominator(x, 32768, den as nat);
        assert(-32768 * d <= x <= 32767 * d) by (nonlinear_arith)
            requires
                -32768 <= a <= 32767,
                -32768 <= b <= 32767,
                0 <= r < d,
                x == (a as int) * (d - r) + (b as int) * (r as int),
        ;
        lemma_div_is_ordered(-32768 * d, x, d);
        lemma_div_is_ordered(x, 32767 * d, d);
        lemma_div_multiples_vanish(-32768, d);
        lemma_div_multiples_vanish(32767, d);
        assert(d * -32768 == -32768 * d);
        assert(d * 32767 == 32767 * d);
    }
    (q as i64 - SAMPLE_OFFSET) as i16
}

/// Streaming linear resampler over 16-bit PCM samples.
///
/// Samples that the last output still needs are carried over to the next
/// call, so that interpolation continues across chunk boundaries.
pub struct LinearResampler {
    from_rate: u32,
    to_rate: u32,
    buffer: Vec<i16>,
}

impl LinearResampler {
    /// Input sample rate.
    pub closed spec fn from_rate_spec(&self) -> int {
        self.from_rate as int
    }

    /// Output sample rate.
    pub closed spec fn to_rate_spec(&self) -> int {
        self.to_rate as int
    }

    /// Samples carried over from earlier calls.
    pub closed spec fn buffered(&self) -> Seq<i16> {
        self.buffer@
    }

    /// Both rates are positive, so the ratio is defined.
    pub open spec fn wf(&self) -> bool {
        self.from_rate_spec() > 0 && self.to_rate_spec() > 0
    }

    /// `out` and `post` are what resampling `input` gives from `pre`.
    ///
    /// An empty chunk gives an empty output and leaves the state alone; equal
    /// rates give the chunk back unchanged. Otherwise the chunk is appended to
    /// the carry-over buffer, output sample `i` is interpolated at buffer
    /// position `i * from / to`, and what the next call still needs is kept.
    pub open spec fn resample_step(pre: Self, input: Seq<i16>, out: Seq<i16>, post: Self) -> bool {
        let from = pre.from_rate_spec();
        let to = pre.to_rate_spec();
        &&& post.wf()
        &&& post.from_rate_spec() == from
        &&& post.to_rate_spec() == to
        &&& input.len() == 0 ==> out.len() == 0 && post == pre
        &&& input.len() > 0 && from == to ==> out == input && post.buffered() == pre.buffered()
        &&& input.len() > 0 && from != to ==> {
            let buf = pre.buffered() + input;
            &&& produced_len(out.len() as int, buf.len() as int, from, to)
            &&& forall|i: int|
                0 <= i < out.len() ==> #[trigger] out[i] as int == output_sample(buf, i, from, to)
            &&& post.buffered() == carry_over(buf, out.len() as int, from, to)
        }
    }

    /// A resampler from `from_rate` to `to_rate`, with nothing buffered.
    pub fn new(from_rate: u32, to_rate: u32) -> (r: Self)
        requires
            from_rate > 0,
            to_rate > 0,
        ensures
            r.wf(),
            r.from_rate_spec() == from_rate,
            r.to_rate_spec() == to_rate,
            r.buffered() == Seq::<i16>::empty(),
    {
        LinearResampler { from_rate, to_rate, buffer: Vec::new() }
    }

    /// Resamples one chunk (see [`Self::resample_step`]).
    pub fn resample(&mut self, input: &[i16]) -> (out: Vec<i16>)
        requires
            old(self).wf(),
        ensures
            Self::resample_step(*old(self), input@, out@, *final(self)),
    {
        if input.len() == 0 {
            return Vec::new();
        }
        if self.from_rate == self.to_rate {
            return vstd::slice::slice_to_vec(input);
        }
        let ghost old_buf = self.buffer@;
        let mut k: usize = 0;
        while k < input.len()
            invariant
                k <= input@.len(),
                self.buffer@ == old_buf + input@.subrange(0, k as int),
                self.from_rate == old(self).from_rate,
                self.to_rate == old(self).to_rate,
            decreases input@.len() - k,
        {
            self.buffer.push(input[k]);
            k = k + 1;
            assert(self.buffer@ =~= old_buf + input@.subrange(0, k as int));
        }
        assert(input@.subrange(0, input@.len() as int) =~= input@);
        let ghost buf = self.buffer@;
        let len = self.buffer.len();
        if len < 2 {
            return Vec::new();
        }
        let from = self.from_rate as u128;
        let to = self.to_rate as u128;
        assert((len as int) * (to as int) <= 0xffff_ffff_ffff_ffff * 0xffff_ffff) by (nonlinear_arith)
            requires
                len <= 0xffff_ffff_ffff_ffff,
                to <= 0xffff_ffff,
        ;
        let limit: u128 = (len as u128) * to / from;
        proof {
            lemma_div_is_ordered_by_denominator((len as int) * (to as int), 1, from as int);
        }
        let mut out: Vec<i16> = Vec::new();
        let mut i: u128 = 0;
        while i < limit
            invariant_except_break
                i <= limit,
                out@.len() == i,
                forall|j: int| 0 <= j < i ==> #[trigger] in_buffer(j, len as int, from as int, to as int),
            invariant
                len == buf.len(),
                self.buffer@ == buf,
                self.from_rate == old(self).from_rate,
                self.to_rate == old(self).to_rate,
                from == self.from_rate,
                to == self.to_rate,
                from > 0,
                to > 0,
                limit == formula_len(len as int, from as int, to as int),
                limit <= 0xffff_ffff_ffff_ffff * 0xffff_ffff,
                forall|j: int|
                    0 <= j < out@.len() ==> #[trigger] out@[j] as int == output_sample(
                        buf,
                        j,
                        from as int,
                        to as int,
                    ),
            ensures
                produced_len(out@.len() as int, len as int, from as int, to as int),
            decreases limit - i,
        {
            assert((i as int) * (from as int) < 0x1_0000_0000_0000_0000_0000_0000 * 0x1_0000_0000) by (nonlinear_arith)
                requires
                    i < 0x1_0000_0000_0000_0000_0000_0000,
                    from < 0x1_0000_0000,
            ;
            let pos = i * from;
            let idx0 = pos / to;
            if idx0 >= (len - 1) as u128 {
                break;
            }
            let r = pos % to;
            let a = self.buffer[idx0 as usize];
            let b = self.buffer[idx0 as usize + 1];
            let v = interpolate_pair(a, b, r as u64, to as u64);
            out.push(v);
            i = i + 1;
        }
        let n = out.len();
        assert((n as int) * (from as int) < 0x1_0000_0000_0000_0000_0000_0000 * 0x1_0000_0000) by (nonlinear_arith)
            requires
                n < 0x1_0000_0000_0000_0000_0000_0000,
                from < 0x1_0000_0000,
        ;
        let next = (n as u128) * from / to;
        let released: usize = if next < len as u128 {
            next as usize
        } else {
            len - 1
        };
        assert(released == released_len(n as int, len as int, from as int, to as int));
        if released > 0 {
            self.buffer = self.buffer.split_off(released);
        }
        assert(self.buffer@ =~= buf.skip(released as int));
        out
    }
}

/// From 48 kHz to 16 kHz, `len` buffered samples give exactly `len / 3`
/// output samples, so at least one once three samples are buffered.
pub proof fn lemma_third_rate_length(n: int, len: int)
    requires
        len >= 0,
        produced_len(n, len, 48000, 16000),
    ensures
        n == len / 3,
        len >= 3 ==> n >= 1,
{
    let q = len / 3;
    let r = len % 3;
    lemma_fundamental_div_mod_converse(len, 3, q, r);
    assert(len * 16000 == q * 48000 + r * 16000);
    lemma_fundamental_div_mod_converse(len * 16000, 48000, q, r * 16000);
    assert(formula_len(len, 48000, 16000) == q);
    if n < q {
        lemma_div_multiples_vanish(3 * n, 16000);
        assert(n * 48000 == 16000 * (3 * n));
        assert(source_index(n, 48000, 16000) == 3 * n);
        assert(in_buffer(n, len, 48000, 16000));
    }
}

/// Whatever was buffered, a call leaves a carry-over of fewer than
/// `(from + to) / to` samples. It is a suffix that starts no later than the
/// left neighbour of the next output position and, unless the buffer was
/// empty, holds at least one sample; with no output the buffer is kept whole.
pub proof fn lemma_carry_over_bounded(buf: Seq<i16>, n: int, from: int, to: int)
    requires
        from > 0,
        to > 0,
        produced_len(n, buf.len() as int, from, to),
    ensures
        carry_over(buf, n, from, to).len() * to < from + to,
        carry_over(buf, n, from, to) == buf.skip(released_len(n, buf.len() as int, from, to)),
        0 <= released_len(n, buf.len() as int, from, to) <= source_index(n, from, to),
        buf.len() > 0 ==> carry_over(buf, n, from, to).len() > 0,
        n == 0 ==> carry_over(buf, n, from, to) == buf,
{
    let len = buf.len() as int;
    let c = released_len(n, len, from, to);
    assert(0 <= n * from) by (nonlinear_arith)
        requires
            0 <= n,
            from > 0,
    ;
    lemma_div_multiples_vanish(0, to);
    assert(to * 0 == 0);
    lemma_div_is_ordered(0, n * from, to);
    if n == 0 {
        assert(0 * from == 0);
        assert(source_index(0, from, to) == 0);
        assert(buf.skip(0) =~= buf);
    }
    if len > 0 && c < len - 1 {
        // The next position lies inside the buffer, so the floor formula
        // stopped the output: n == formula_len.
        let x = n * from;
        lemma_fundamental_div_mod(x, to);
        assert(to * c > x - to);
        assert(in_buffer(n, len, from, to));
        assert(n == formula_len(len, from, to));
        if len >= 2 {
            let y = len * to;
            lemma_fundamental_div_mod(y, from);
            assert(n == y / from);
            assert(from * (n + 1) == from * n + from) by (nonlinear_arith);
            assert(from * (n + 1) > y);
            assert(x == from * n) by (nonlinear_arith)
                requires
                    x == n * from,
            ;
            assert(to * c > len * to - from - to);
        }
        assert((len - c) * to == len * to - to * c) by (nonlinear_arith);
    } else if len > 0 {
        assert(c == len - 1);
        assert((len - c) * to == to) by (nonlinear_arith)
            requires
                len - c == 1,
        ;
    } else {
        assert((len - c) * to == 0) by (nonlinear_arith)
            requires
                len - c == 0,
        ;
    }
    assert(carry_over(buf, n, from, to).len() == len - c);
}

} // verus!
