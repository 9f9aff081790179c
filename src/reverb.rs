//! A bank of decaying echoes, applied one sample at a time.
//!
//! Samples are fixed-point: `UNIT` is full scale. Each tap is a delay line
//! with a front buffer, read at its cursor, and a back buffer, written at the
//! same cursor; the two swap when the cursor wraps, so whatever was written
//! comes back one tap length later.
use vstd::prelude::*;

verus! {

/// Full scale.
pub const UNIT: i64 = 65536;

/// The output saturates at this level either way.
pub const LEVEL_LIMIT: i64 = 16 * UNIT;

/// The most taps a bank can have.
pub const MAX_ECHOES: usize = 64;

/// `v * factor / UNIT`, rounded toward zero.
pub open spec fn scaled(v: int, factor: int) -> int {
    let p = v * factor;
    if p >= 0 {
        p / (UNIT as int)
    } else {
        -((-p) / (UNIT as int))
    }
}

/// `v` held within `[-LEVEL_LIMIT, LEVEL_LIMIT]`.
pub open spec fn clamped(v: int) -> int {
    if v > LEVEL_LIMIT {
        LEVEL_LIMIT as int
    } else if v < -LEVEL_LIMIT {
        -LEVEL_LIMIT
    } else {
        v
    }
}

/// The output for the dry sample `input` when the echoes sum to `echoes`:
/// the echoes scaled by the wet mix, plus the dry sample scaled by what the
/// echoes leave of full scale.
pub open spec fn mixed(echoes: int, wet: int, input: int) -> int {
    let w = scaled(echoes, wet);
    clamped(w + scaled(input, UNIT - w))
}

/// `n` halved `i` times, rounding down.
pub open spec fn halved(n: int, i: nat) -> int
    decreases i,
{
    if i == 0 {
        n
    } else {
        halved(n, (i - 1) as nat) / 2
    }
}

pub proof fn lemma_halved_shrinks(n: int, i: nat, j: nat)
    requires
        n >= 0,
        i <= j,
    ensures
        0 <= halved(n, j) <= halved(n, i) <= n,
    decreases j,
{
    if j > i {
        lemma_halved_shrinks(n, i, (j - 1) as nat);
    } else if i > 0 {
        lemma_halved_shrinks(n, 0, (i - 1) as nat);
    }
}

/// One delay line of the bank.
pub struct EchoTap {
    pub front: Vec<i64>,
    pub back: Vec<i64>,
    pub cursor: usize,
    pub amplitude: i64,
}

pub open spec fn bounded(s: Seq<i64>) -> bool {
    forall|k: int| 0 <= k < s.len() ==> -LEVEL_LIMIT <= #[trigger] s[k] <= LEVEL_LIMIT
}

pub open spec fn all_zero(s: Seq<i64>) -> bool {
    forall|k: int| 0 <= k < s.len() ==> #[trigger] s[k] == 0
}

impl EchoTap {
    pub open spec fn len(&self) -> int {
        self.front@.len() as int
    }

    pub open spec fn wf(&self) -> bool {
        &&& self.front@.len() >= 1
        &&& self.back@.len() == self.front@.len()
        &&& self.cursor < self.front@.len()
        &&& 0 <= self.amplitude <= UNIT
        &&& bounded(self.front@)
        &&& bounded(self.back@)
    }

    /// The echo this tap returns now.
    pub open spec fn echo(&self) -> i64 {
        self.front@[self.cursor as int]
    }

    pub open spec fn is_silent(&self) -> bool {
        all_zero(self.front@) && all_zero(self.back@)
    }

    /// The tap as values.
    pub open spec fn view(&self) -> TapModel {
        (self.front@, self.back@, self.cursor as int, self.amplitude as int)
    }

    /// A silent tap of `length` samples.
    pub fn new(length: usize, amplitude: i64) -> (r: EchoTap)
        requires
            length >= 1,
            0 <= amplitude <= UNIT,
        ensures
            r.wf(),
            r.is_silent(),
            r.len() == length,
            r.cursor == 0,
            r.amplitude == amplitude,
    {
        let mut front: Vec<i64> = Vec::with_capacity(length);
        let mut back: Vec<i64> = Vec::with_capacity(length);
        let mut j: usize = 0;
        while j < length
            invariant
                j <= length,
                front@.len() == j,
                back@.len() == j,
                all_zero(front@),
                all_zero(back@),
            decreases length - j,
        {
            front.push(0);
            back.push(0);
            j = j + 1;
        }
        EchoTap { front, back, cursor: 0, amplitude }
    }

    pub fn echo_now(&self) -> (r: i64)
        requires
            self.wf(),
        ensures
            r == self.echo(),
            -LEVEL_LIMIT <= r <= LEVEL_LIMIT,
    {
        self.front[self.cursor]
    }

    pub fn record(&mut self, v: i64)
        requires
            old(self).wf(),
            -LEVEL_LIMIT <= v <= LEVEL_LIMIT,
        ensures
            final(self).wf(),
            final(self)@ == tap_recorded(old(self)@, v as int),
            old(self).is_silent() && v == 0 ==> final(self).is_silent(),
    {
        self.back.set(self.cursor, v);
        if self.cursor == self.front.len() - 1 {
            self.cursor = 0;
            std::mem::swap(&mut self.front, &mut self.back);
        } else {
            self.cursor = self.cursor + 1;
        }
    }
}

/// A tap as values: its front buffer, its back buffer, its cursor and its
/// amplitude.
pub type TapModel = (Seq<i64>, Seq<i64>, int, int);

/// The echo a tap returns now: its front buffer at its cursor.
pub open spec fn tap_echo(m: TapModel) -> int {
    m.0[m.2] as int
}

/// The tap after writing `v` at the cursor of its back buffer and moving
/// the cursor on; when the cursor wraps, the buffers swap.
pub open spec fn tap_recorded(m: TapModel, v: int) -> TapModel {
    let back = m.1.update(m.2, v as i64);
    if m.2 + 1 >= m.0.len() {
        (back, m.0, 0, m.3)
    } else {
        (m.0, back, m.2 + 1, m.3)
    }
}

pub open spec fn tap_silent(m: TapModel) -> bool {
    all_zero(m.0) && all_zero(m.1)
}

pub open spec fn tap_valid(m: TapModel) -> bool {
    m.0.len() >= 1 && m.1.len() == m.0.len() && 0 <= m.2 < m.0.len()
}

/// The sum of the echoes that the taps return now.
pub open spec fn echo_total(ms: Seq<TapModel>) -> int
    decreases ms.len(),
{
    if ms.len() == 0 {
        0
    } else {
        echo_total(ms.drop_last()) + tap_echo(ms.last())
    }
}

/// One sample through a bank with wet mix `wet`: the output, and every tap
/// after recording the output times its amplitude.
pub open spec fn bank_step(ms: Seq<TapModel>, wet: int, input: int) -> (Seq<TapModel>, int) {
    let out = mixed(echo_total(ms), wet, input);
    (Seq::new(ms.len(), |i: int| tap_recorded(ms[i], scaled(out, ms[i].3))), out)
}

/// A stream of samples through a bank: the bank after it, and the outputs.
pub open spec fn bank_run(ms: Seq<TapModel>, wet: int, inputs: Seq<i64>) -> (Seq<TapModel>, Seq<i64>)
    decreases inputs.len(),
{
    if inputs.len() == 0 {
        (ms, Seq::empty())
    } else {
        let (m, outs) = bank_run(ms, wet, inputs.drop_last());
        let (m2, out) = bank_step(m, wet, inputs.last() as int);
        (m2, outs.push(out as i64))
    }
}

pub proof fn lemma_silent_total(ms: Seq<TapModel>)
    requires
        forall|i: int| 0 <= i < ms.len() ==> tap_valid(#[trigger] ms[i]) && tap_silent(ms[i]),
    ensures
        echo_total(ms) == 0,
    decreases ms.len(),
{
    if ms.len() > 0 {
        let rest = ms.drop_last();
        assert forall|i: int| 0 <= i < rest.len() implies tap_valid(#[trigger] rest[i]) && tap_silent(rest[i]) by {
            assert(tap_valid(ms[i]) && tap_silent(ms[i]));
        }
        lemma_silent_total(rest);
        assert(tap_valid(ms[ms.len() - 1]) && tap_silent(ms[ms.len() - 1]));
    }
}

/// A silent bank fed silence stays silent and puts out silence, however long
/// the stream: no echo arises from nothing.
pub proof fn lemma_silence_in_silence_out(ms: Seq<TapModel>, wet: int, inputs: Seq<i64>)
    requires
        forall|i: int| 0 <= i < ms.len() ==> tap_valid(#[trigger] ms[i]) && tap_silent(ms[i]),
        all_zero(inputs),
    ensures
        ({
            let (m, outs) = bank_run(ms, wet, inputs);
            &&& m.len() == ms.len()
            &&& forall|i: int| 0 <= i < m.len() ==> tap_valid(#[trigger] m[i]) && tap_silent(m[i])
            &&& outs.len() == inputs.len()
            &&& all_zero(outs)
        }),
    decreases inputs.len(),
{
    if inputs.len() > 0 {
        let prefix = inputs.drop_last();
        assert(all_zero(prefix)) by {
            assert forall|k: int| 0 <= k < prefix.len() implies #[trigger] prefix[k] == 0 by {
                assert(inputs[k] == 0);
            }
        }
        lemma_silence_in_silence_out(ms, wet, prefix);
        let (m, outs) = bank_run(ms, wet, prefix);
        lemma_silent_total(m);
        assert(inputs[inputs.len() - 1] == 0);
        let (m2, out) = bank_step(m, wet, 0);
        assert(out == 0);
        assert forall|i: int| 0 <= i < m2.len() implies tap_valid(#[trigger] m2[i]) && tap_silent(m2[i]) by {
            assert(tap_valid(m[i]) && tap_silent(m[i]));
            assert(scaled(0, m[i].3) == 0);
            let b = m[i].1.update(m[i].2, 0i64);
            assert(all_zero(b)) by {
                assert forall|k: int| 0 <= k < b.len() implies #[trigger] b[k] == 0 by {
                    if k != m[i].2 {
                        assert(m[i].1[k] == 0);
                    }
                }
            }
        }
        let o2 = outs.push(0i64);
        assert(all_zero(o2)) by {
            assert forall|k: int| 0 <= k < o2.len() implies #[trigger] o2[k] == 0 by {
                if k < outs.len() {
                    assert(outs[k] == 0);
                }
            }
        }
    }
}

pub open spec fn magnitude(v: int) -> int {
    if v >= 0 {
        v
    } else {
        -v
    }
}

/// Scaling by a factor within full scale does not grow a value.
pub proof fn lemma_scaled_shrinks(v: int, factor: int)
    requires
        -UNIT <= factor <= UNIT,
    ensures
        -magnitude(v) <= scaled(v, factor) <= magnitude(v),
{
    let av = magnitude(v);
    let p = v * factor;
    assert(-(av * UNIT) <= p <= av * UNIT) by (nonlinear_arith)
        requires
            -UNIT <= factor <= UNIT,
            av == magnitude(v),
            p == v * factor,
    ;
    if p >= 0 {
        assert(p / (UNIT as int) <= av) by (nonlinear_arith)
            requires
                0 <= p <= av * 65536,
        ;
        assert(p / (UNIT as int) >= 0) by (nonlinear_arith)
            requires
                0 <= p,
        ;
    } else {
        assert((-p) / (UNIT as int) <= av) by (nonlinear_arith)
            requires
                0 <= -p <= av * 65536,
        ;
        assert((-p) / (UNIT as int) >= 0) by (nonlinear_arith)
            requires
                0 <= -p,
        ;
    }
}

/// `v * factor / UNIT`, rounded toward zero.
fn scale(v: i64, factor: i64) -> (r: i64)
    requires
        -0x4000_0000 <= v <= 0x4000_0000,
        -0x4000_0000 <= factor <= 0x4000_0000,
    ensures
        r == scaled(v as int, factor as int),
{
    proof {
        assert(-0x1000_0000_0000_0000 <= v * factor <= 0x1000_0000_0000_0000) by (nonlinear_arith)
            requires
                -0x4000_0000 <= v <= 0x4000_0000,
                -0x4000_0000 <= factor <= 0x4000_0000,
        ;
    }
    let p = v * factor;
    if p >= 0 {
        p / UNIT
    } else {
        proof {
            assert(0 <= (-p) / (UNIT as int) <= -p) by (nonlinear_arith)
                requires
                    p < 0,
            ;
        }
        -((-p) / UNIT)
    }
}

/// A bank of echo taps and its wet mix.
pub struct Reverb {
    pub taps: Vec<EchoTap>,
    pub wet: i64,
}

impl Reverb {
    pub open spec fn wf(&self) -> bool {
        &&& self.taps@.len() <= MAX_ECHOES
        &&& 0 <= self.wet <= UNIT
        &&& forall|i: int| 0 <= i < self.taps@.len() ==> #[trigger] self.taps@[i].wf()
    }

    pub open spec fn is_silent(&self) -> bool {
        forall|i: int| 0 <= i < self.taps@.len() ==> #[trigger] self.taps@[i].is_silent()
    }

    /// The taps as values.
    pub open spec fn view(&self) -> Seq<TapModel> {
        Seq::new(self.taps@.len(), |i: int| self.taps@[i]@)
    }

    /// A silent bank of `echoes` taps; tap `i` is `base_length` halved `i`
    /// times long, and its amplitude is `first_amplitude` halved `i` times.
    pub fn new(base_length: usize, echoes: usize, first_amplitude: i64, wet: i64) -> (r: Reverb)
        requires
            echoes <= MAX_ECHOES,
            echoes >= 1 ==> halved(base_length as int, (echoes - 1) as nat) >= 1,
            0 <= first_amplitude <= UNIT,
            0 <= wet <= UNIT,
        ensures
            r.wf(),
            r.is_silent(),
            r.wet == wet,
            r.taps@.len() == echoes,
            forall|i: int|
                0 <= i < echoes ==> #[trigger] r.taps@[i].len() == halved(base_length as int, i as nat)
                    && r.taps@[i].amplitude == halved(first_amplitude as int, i as nat)
                    && r.taps@[i].cursor == 0,
    {
        let mut taps: Vec<EchoTap> = Vec::with_capacity(echoes);
        let mut length = base_length;
        let mut amplitude = first_amplitude;
        let mut i: usize = 0;
        while i < echoes
            invariant
                echoes <= MAX_ECHOES,
                echoes >= 1 ==> halved(base_length as int, (echoes - 1) as nat) >= 1,
                0 <= first_amplitude <= UNIT,
                i <= echoes,
                taps@.len() == i,
                length == halved(base_length as int, i as nat),
                amplitude == halved(first_amplitude as int, i as nat),
                forall|t: int| 0 <= t < i ==> #[trigger] taps@[t].wf(),
                forall|t: int| 0 <= t < i ==> #[trigger] taps@[t].is_silent(),
                forall|t: int| 0 <= t < i ==> #[trigger] taps@[t].len() == halved(base_length as int, t as nat),
                forall|t: int| 0 <= t < i ==> #[trigger] taps@[t].amplitude == halved(first_amplitude as int, t as nat),
                forall|t: int| 0 <= t < i ==> #[trigger] taps@[t].cursor == 0,
            decreases echoes - i,
        {
            proof {
                lemma_halved_shrinks(base_length as int, i as nat, (echoes - 1) as nat);
                lemma_halved_shrinks(first_amplitude as int, 0, i as nat);
            }
            let tap = EchoTap::new(length, amplitude);
            taps.push(tap);
            length = length / 2;
            amplitude = amplitude / 2;
            i = i + 1;
        }
        Reverb { taps, wet }
    }

    /// Mixes one dry sample with the echoes and returns the output; then
    /// every tap records the output times its amplitude and moves on.
    pub fn process_sample(&mut self, input: i64) -> (r: i64)
        requires
            old(self).wf(),
            -UNIT <= input <= UNIT,
        ensures
            final(self).wf(),
            final(self).wet == old(self).wet,
            final(self).taps@.len() == old(self).taps@.len(),
            (final(self)@, r as int) == bank_step(old(self)@, old(self).wet as int, input as int),
            old(self).is_silent() && input == 0 ==> r == 0 && final(self).is_silent(),
    {
        let ghost taps0 = self.taps@;
        let ghost m0 = self@;
        let n = self.taps.len();
        let mut echoes: i64 = 0;
        let mut i: usize = 0;
        while i < n
            invariant
                self.wf(),
                self.taps@ == taps0,
                n == taps0.len(),
                n <= MAX_ECHOES,
                i <= n,
                m0 == old(self)@,
                echoes == echo_total(m0.take(i as int)),
                -(i as int) * 0x10_0000 <= echoes <= (i as int) * 0x10_0000,
            decreases n - i,
        {
            proof {
                assert(m0.take(i + 1).drop_last() =~= m0.take(i as int));
                assert(self.taps@[i as int].wf());
                assert(LEVEL_LIMIT == 0x10_0000);
            }
            echoes = echoes + self.taps[i].echo_now();
            i = i + 1;
        }
        proof {
            assert(m0.take(n as int) =~= m0);
            assert(LEVEL_LIMIT == 0x10_0000);
            lemma_scaled_shrinks(echoes as int, self.wet as int);
        }
        let w = scale(echoes, self.wet);
        let dry = scale(input, UNIT - w);
        proof {
            assert(input * (UNIT - w) == (UNIT - w) * input) by (nonlinear_arith);
            lemma_scaled_shrinks(UNIT - w, input as int);
            if self.is_silent() && input == 0 {
                assert forall|i: int| 0 <= i < m0.len() implies tap_valid(#[trigger] m0[i]) && tap_silent(m0[i]) by {
                    assert(taps0[i].wf() && taps0[i].is_silent());
                }
                lemma_silent_total(m0);
            }
        }
        let sum = w + dry;
        let out = if sum > LEVEL_LIMIT {
            LEVEL_LIMIT
        } else if sum < -LEVEL_LIMIT {
            -LEVEL_LIMIT
        } else {
            sum
        };
        let mut k: usize = 0;
        while k < n
            invariant
                n == taps0.len(),
                self.taps@.len() == n,
                n <= MAX_ECHOES,
                self.wet == old(self).wet,
                0 <= self.wet <= UNIT,
                -LEVEL_LIMIT <= out <= LEVEL_LIMIT,
                k <= n,
                forall|j: int| 0 <= j < n ==> #[trigger] taps0[j].wf(),
                forall|j: int| 0 <= j < n ==> #[trigger] self.taps@[j].wf(),
                forall|j: int| k <= j < n ==> #[trigger] self.taps@[j] == taps0[j],
                m0 == old(self)@,
                forall|j: int| 0 <= j < n ==> #[trigger] m0[j] == taps0[j]@,
                forall|j: int|
                    0 <= j < k ==> #[trigger] self.taps@[j]@ == tap_recorded(m0[j], scaled(out as int, m0[j].3)),
                forall|j: int|
                    0 <= j < k ==> (#[trigger] taps0[j].is_silent() && out == 0 ==> self.taps@[j].is_silent()),
            decreases n - k,
        {
            let amplitude = self.taps[k].amplitude;
            proof {
                assert(self.taps@[k as int] == taps0[k as int]);
                assert(self.taps@[k as int].wf());
                assert(0 <= amplitude <= UNIT);
                lemma_scaled_shrinks(out as int, amplitude as int);
            }
            let v = scale(out, amplitude);
            self.taps[k].record(v);
            k = k + 1;
        }
        proof {
            if old(self).is_silent() && input == 0 {
                assert forall|j: int| 0 <= j < n implies #[trigger] self.taps@[j].is_silent() by {
                    assert(taps0[j].is_silent());
                }
            }
            assert(self@ =~= bank_step(m0, self.wet as int, input as int).0);
        }
        out
    }

    /// Runs `process_sample` over a block of dry samples.
    pub fn process_block(&mut self, input: &Vec<i64>) -> (r: Vec<i64>)
        requires
            old(self).wf(),
            forall|k: int| 0 <= k < input@.len() ==> -UNIT <= #[trigger] input@[k] <= UNIT,
        ensures
            final(self).wf(),
            final(self).wet == old(self).wet,
            final(self).taps@.len() == old(self).taps@.len(),
            r@.len() == input@.len(),
            (final(self)@, r@) == bank_run(old(self)@, old(self).wet as int, input@),
            forall|k: int| 0 <= k < r@.len() ==> -LEVEL_LIMIT <= #[trigger] r@[k] <= LEVEL_LIMIT,
            old(self).is_silent() && all_zero(input@) ==> all_zero(r@) && final(self).is_silent(),
    {
        let ghost silent = self.is_silent() && all_zero(input@);
        proof {
            assert(input@.take(0) =~= Seq::<i64>::empty());
        }
        let mut out: Vec<i64> = Vec::with_capacity(input.len());
        let mut k: usize = 0;
        while k < input.len()
            invariant
                self.wf(),
                self.wet == old(self).wet,
                self.taps@.len() == old(self).taps@.len(),
                forall|t: int| 0 <= t < input@.len() ==> -UNIT <= #[trigger] input@[t] <= UNIT,
                silent == (old(self).is_silent() && all_zero(input@)),
                k <= input@.len(),
                out@.len() == k,
                forall|t: int| 0 <= t < k ==> -LEVEL_LIMIT <= #[trigger] out@[t] <= LEVEL_LIMIT,
                silent ==> all_zero(out@) && self.is_silent(),
                (self@, out@) == bank_run(old(self)@, old(self).wet as int, input@.take(k as int)),
            decreases input@.len() - k,
        {
            proof {
                assert(input@.take(k + 1).drop_last() =~= input@.take(k as int));
            }
            let v = self.process_sample(input[k]);
            out.push(v);
            k = k + 1;
        }
        proof {
            assert(input@.take(input@.len() as int) =~= input@);
        }
        out
    }
}

} // verus!
