//! A feedback delay ("reverb"): a comb filter over a ring buffer.
//!
//! For each upstream sample `s` the value `delayed` at the write position is
//! read, `s + delayed * feedback` is stored in its place, the position moves
//! on by one modulo the delay length, and `s + delayed` is emitted. The
//! scaled feedback and both sums are saturated to the sample range.
use vstd::prelude::*;
use crate::error::ConfigError;
use crate::fixed::{clamp, scale, add_sat, scale_sat};

verus! {

/// The ring buffer after one sample `s` is taken in at position `idx`.
pub open spec fn step_buf(buf: Seq<i64>, idx: nat, feedback: int, s: int) -> Seq<i64> {
    buf.update(idx as int, clamp(s + clamp(scale(buf[idx as int] as int, feedback))) as i64)
}

/// The sample emitted when `s` is taken in at position `idx`.
pub open spec fn step_out(buf: Seq<i64>, idx: nat, s: int) -> i64 {
    clamp(s + buf[idx as int]) as i64
}

/// Buffer and write position after taking in all of `input`, starting from
/// `buf` and `idx`.
pub open spec fn line_after(buf: Seq<i64>, idx: nat, feedback: int, input: Seq<i64>) -> (Seq<i64>, nat)
    decreases input.len(),
{
    if input.len() == 0 {
        (buf, idx)
    } else {
        let (b, i) = line_after(buf, idx, feedback, input.drop_last());
        (step_buf(b, i, feedback, input.last() as int), ((i + 1) % buf.len()) as nat)
    }
}

/// The samples emitted while taking in all of `input`, starting from `buf`
/// and `idx`: one for each input sample.
pub open spec fn outputs(buf: Seq<i64>, idx: nat, feedback: int, input: Seq<i64>) -> Seq<i64>
    decreases input.len(),
{
    if input.len() == 0 {
        Seq::empty()
    } else {
        let (b, i) = line_after(buf, idx, feedback, input.drop_last());
        outputs(buf, idx, feedback, input.drop_last()).push(step_out(b, i, input.last() as int))
    }
}

/// A delay line of `delay` samples, all silent.
pub open spec fn silence(delay: nat) -> Seq<i64> {
    Seq::new(delay, |i: int| 0i64)
}

/// Feedback delay effect. `feedback` is in thousandths (500 is 0.5).
///
/// The emitted sample adds the stored value unscaled, and the gain applies
/// only to what is stored again. An impulse therefore comes back whole after
/// one delay length, and scaled by the gain after two. With zero feedback the
/// line is not the identity: each output adds the input from one delay length
/// before.
pub struct SabinReverb {
    pub delay: usize,
    pub feedback: i32,
    pub buffer: Vec<i64>,
    pub index: usize,
}

impl SabinReverb {
    pub open spec fn wf(&self) -> bool {
        &&& self.delay > 0
        &&& self.buffer@.len() == self.delay
        &&& self.index < self.delay
    }

    /// A silent delay line of `delay` samples with the given feedback gain.
    /// A delay of zero samples is refused.
    pub fn new(delay: usize, feedback: i32) -> (r: Result<SabinReverb, ConfigError>)
        ensures
            r is Err <==> delay == 0,
            r matches Err(e) ==> e == ConfigError::ZeroDelay,
            r matches Ok(v) ==> {
                &&& v.wf()
                &&& v.delay == delay
                &&& v.feedback == feedback
                &&& v.buffer@ == silence(delay as nat)
                &&& v.index == 0
            },
    {
        if delay == 0 {
            return Err(ConfigError::ZeroDelay);
        }
        let mut buffer: Vec<i64> = Vec::new();
        let mut i: usize = 0;
        while i < delay
            invariant
                i <= delay,
                buffer@ == silence(i as nat),
            decreases delay - i,
        {
            buffer.push(0);
            i = i + 1;
            assert(buffer@ =~= silence(i as nat));
        }
        Ok(SabinReverb { delay, feedback, buffer, index: 0 })
    }

    /// Takes in one upstream sample and emits one.
    pub fn process(&mut self, s: i64) -> (r: i64)
        requires
            old(self).wf(),
        ensures
            final(self).wf(),
            final(self).delay == old(self).delay,
            final(self).feedback == old(self).feedback,
            final(self).buffer@ == step_buf(
                old(self).buffer@,
                old(self).index as nat,
                old(self).feedback as int,
                s as int,
            ),
            final(self).index == (old(self).index + 1) % (old(self).delay as int),
            r == step_out(old(self).buffer@, old(self).index as nat, s as int),
    {
        let delayed: i64 = self.buffer[self.index];
        let stored: i64 = add_sat(s, scale_sat(delayed, self.feedback));
        self.buffer.set(self.index, stored);
        self.index = (self.index + 1) % self.delay;
        add_sat(s, delayed)
    }

    /// Pulls through one upstream item: the end of the upstream stream ends
    /// this one and leaves the line untouched.
    pub fn next(&mut self, upstream: Option<i64>) -> (r: Option<i64>)
        requires
            old(self).wf(),
        ensures
            final(self).wf(),
            upstream is None ==> r is None && final(self).buffer@ == old(self).buffer@ && final(self).index == old(self).index,
            upstream matches Some(s) ==> {
                &&& r == Some(step_out(old(self).buffer@, old(self).index as nat, s as int))
                &&& final(self).buffer@ == step_buf(
                    old(self).buffer@,
                    old(self).index as nat,
                    old(self).feedback as int,
                    s as int,
                )
                &&& final(self).index == (old(self).index + 1) % (old(self).delay as int)
            },
            final(self).delay == old(self).delay,
            final(self).feedback == old(self).feedback,
    {
        match upstream {
            Some(s) => Some(self.process(s)),
            None => None,
        }
    }

    /// Runs a finite upstream stream through the line: exactly one sample
    /// comes out for each sample taken in.
    pub fn run(&mut self, input: &Vec<i64>) -> (r: Vec<i64>)
        requires
            old(self).wf(),
        ensures
            final(self).wf(),
            final(self).delay == old(self).delay,
            final(self).feedback == old(self).feedback,
            r@.len() == input@.len(),
            r@ == outputs(
                old(self).buffer@,
                old(self).index as nat,
                old(self).feedback as int,
                input@,
            ),
            (final(self).buffer@, final(self).index as nat) == line_after(
                old(self).buffer@,
                old(self).index as nat,
                old(self).feedback as int,
                input@,
            ),
    {
        let ghost b0 = self.buffer@;
        let ghost i0 = self.index as nat;
        let ghost fb = self.feedback as int;
        let mut out: Vec<i64> = Vec::new();
        let mut k: usize = 0;
        while k < input.len()
            invariant
                k <= input@.len(),
                self.wf(),
                self.delay == b0.len(),
                self.feedback == fb,
                out@.len() == k,
                out@ == outputs(b0, i0, fb, input@.take(k as int)),
                (self.buffer@, self.index as nat) == line_after(b0, i0, fb, input@.take(k as int)),
            decreases input@.len() - k,
        {
            let ghost pre = input@.take(k as int);
            let ghost next = input@.take(k + 1);
            assert(next.drop_last() =~= pre);
            assert(next.last() == input@[k as int]);
            let v = self.process(input[k]);
            out.push(v);
            k = k + 1;
        }
        assert(input@.take(input@.len() as int) =~= input@);
        out
    }
}

/// What a silent line with zero feedback holds after `n` samples: each of the
/// last `delay` inputs in its slot, and silence in the slots not yet written.
proof fn lemma_zero_feedback_line(delay: nat, input: Seq<i64>, n: nat)
    requires
        delay > 0,
        n <= input.len(),
    ensures
        ({
            let (b, i) = line_after(silence(delay), 0, 0, input.take(n as int));
            &&& b.len() == delay
            &&& i == n % delay
            &&& forall|t: int| n - delay <= t < n && 0 <= t ==> b[t % (delay as int)] == input[t]
            &&& forall|j: int| n <= j < delay ==> b[j] == 0
        }),
    decreases n,
{
    let d = delay as int;
    if n == 0 {
        assert(input.take(0) =~= Seq::<i64>::empty());
        vstd::arithmetic::div_mod::lemma_small_mod(0, delay);
    } else {
        let m = (n - 1) as nat;
        lemma_zero_feedback_line(delay, input, m);
        let x = input.take(n as int);
        assert(x.drop_last() =~= input.take(m as int));
        assert(x.last() == input[m as int]);
        let (b, i) = line_after(silence(delay), 0, 0, input.take(m as int));
        let s = input[m as int] as int;
        assert(scale(b[i as int] as int, 0) == 0);
        let b2 = step_buf(b, i, 0, s);
        assert(b2[i as int] == input[m as int]);
        vstd::arithmetic::div_mod::lemma_add_mod_noop_right(1, m as int, d);
        vstd::arithmetic::div_mod::lemma_mod_twice(m as int + 1, d);
        vstd::arithmetic::div_mod::lemma_mod_bound(m as int, d);
        assert forall|t: int| n - delay <= t < n && 0 <= t implies b2[t % d] == input[t] by {
            if t < m {
                vstd::arithmetic::div_mod::lemma_mod_equivalence(m as int, t, d);
                vstd::arithmetic::div_mod::lemma_small_mod((m - t) as nat, delay);
                assert(t % d != i as int);
            }
        }
        assert forall|j: int| n <= j < delay implies b2[j] == 0 by {
            vstd::arithmetic::div_mod::lemma_small_mod(m, delay);
        }
    }
}

/// The samples a line emits, one at a time: sample `k` of the output is the
/// one emitted when input `k` is taken in.
proof fn lemma_outputs_index(buf: Seq<i64>, idx: nat, feedback: int, input: Seq<i64>, k: int)
    requires
        0 <= k < input.len(),
    ensures
        outputs(buf, idx, feedback, input).len() == input.len(),
        ({
            let (b, i) = line_after(buf, idx, feedback, input.take(k));
            outputs(buf, idx, feedback, input)[k] == step_out(b, i, input[k] as int)
        }),
    decreases input.len(),
{
    lemma_outputs_len(buf, idx, feedback, input);
    let p = input.drop_last();
    if k < input.len() - 1 {
        lemma_outputs_index(buf, idx, feedback, p, k);
        assert(p.take(k) =~= input.take(k));
    } else {
        assert(p =~= input.take(k));
        lemma_outputs_len(buf, idx, feedback, p);
    }
}

proof fn lemma_outputs_len(buf: Seq<i64>, idx: nat, feedback: int, input: Seq<i64>)
    ensures
        outputs(buf, idx, feedback, input).len() == input.len(),
    decreases input.len(),
{
    if input.len() > 0 {
        lemma_outputs_len(buf, idx, feedback, input.drop_last());
    }
}

/// With zero feedback a fresh line adds to each sample the one taken in
/// `delay` samples earlier, and nothing before that: the first `delay`
/// outputs equal the inputs.
pub proof fn lemma_zero_feedback(delay: nat, input: Seq<i64>)
    requires
        delay > 0,
    ensures
        outputs(silence(delay), 0, 0, input).len() == input.len(),
        forall|k: int|
            0 <= k < input.len() ==> #[trigger] outputs(silence(delay), 0, 0, input)[k] == clamp(
                input[k] + if k >= delay {
                    input[k - delay] as int
                } else {
                    0
                },
            ),
        forall|k: int|
            0 <= k < input.len() && k < delay ==> #[trigger] outputs(silence(delay), 0, 0, input)[k]
                == input[k],
{
    let d = delay as int;
    lemma_outputs_len(silence(delay), 0, 0, input);
    assert forall|k: int| 0 <= k < input.len() implies #[trigger] outputs(silence(delay), 0, 0, input)[k]
        == clamp(
        input[k] + if k >= delay {
            input[k - delay] as int
        } else {
            0
        },
    ) by {
        lemma_outputs_index(silence(delay), 0, 0, input, k);
        lemma_zero_feedback_line(delay, input, k as nat);
        if k >= delay {
            vstd::arithmetic::div_mod::lemma_mod_sub_multiples_vanish(k, d);
        } else {
            vstd::arithmetic::div_mod::lemma_small_mod(k as nat, delay);
        }
    }
}

} // verus!
