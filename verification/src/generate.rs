//! The autoregressive generation state machine, shared by the bulk and
//! the streaming protocol.
//!
//! One session holds the full token sequence (prompt included), the
//! length cap and the end-of-sequence id. The host forwards the pending
//! input, samples one token, and hands it to `accept`; the session
//! appends it, decides whether generation halts — end-of-sequence or
//! cap, whichever first — and says what the streaming protocol emits.
//! Both protocols drive the same step, so given the same sampled
//! tokens they walk the same sequence; the parity lemma states how
//! their outputs correspond.

use vstd::prelude::*;

verus! {

/// The full token sequence after bulk generation from `tokens` under
/// cap `max_len`, consuming `samples` one per step: each sample is
/// appended while the sequence is below the cap, and generation stops
/// right after appending an `eos`.
pub open spec fn bulk_run(tokens: Seq<u32>, max_len: int, eos: u32, samples: Seq<u32>) -> Seq<u32>
    decreases samples.len(),
{
    if tokens.len() >= max_len || samples.len() == 0 {
        tokens
    } else if samples[0] == eos {
        tokens.push(eos)
    } else {
        bulk_run(tokens.push(samples[0]), max_len, eos, samples.drop_first())
    }
}

/// The tokens the streaming protocol yields from the same state: the
/// newly generated ids only, the terminating `eos` excluded.
pub open spec fn streamed_run(tokens: Seq<u32>, max_len: int, eos: u32, samples: Seq<u32>) -> Seq<
    u32,
>
    decreases samples.len(),
{
    if tokens.len() >= max_len || samples.len() == 0 {
        Seq::empty()
    } else if samples[0] == eos {
        Seq::empty()
    } else {
        seq![samples[0]] + streamed_run(tokens.push(samples[0]), max_len, eos, samples.drop_first())
    }
}

/// Whether the run above stops by sampling `eos` rather than by the cap
/// or by exhausting the samples.
pub open spec fn halts_at_eos(tokens: Seq<u32>, max_len: int, eos: u32, samples: Seq<u32>) -> bool
    decreases samples.len(),
{
    if tokens.len() >= max_len || samples.len() == 0 {
        false
    } else if samples[0] == eos {
        true
    } else {
        halts_at_eos(tokens.push(samples[0]), max_len, eos, samples.drop_first())
    }
}

/// Behavioral parity of the two protocols: on the same starting tokens,
/// cap and sample stream, the bulk result is exactly the starting
/// tokens, then the streamed tokens, then the `eos` that ended the run
/// if one did. The streamed tokens are therefore determined by the bulk
/// result and vice versa.
pub proof fn lemma_stream_bulk_parity(tokens: Seq<u32>, max_len: int, eos: u32, samples: Seq<u32>)
    ensures
        bulk_run(tokens, max_len, eos, samples) =~= tokens + streamed_run(
            tokens,
            max_len,
            eos,
            samples,
        ) + (if halts_at_eos(tokens, max_len, eos, samples) {
            seq![eos]
        } else {
            Seq::<u32>::empty()
        }),
    decreases samples.len(),
{
    if tokens.len() >= max_len || samples.len() == 0 {
        assert(tokens + Seq::<u32>::empty() + Seq::<u32>::empty() =~= tokens);
    } else if samples[0] == eos {
        assert(tokens + Seq::<u32>::empty() + seq![eos] =~= tokens.push(eos));
    } else {
        let s = samples[0];
        let next = tokens.push(s);
        let rest = samples.drop_first();
        lemma_stream_bulk_parity(next, max_len, eos, rest);
        assert(next =~= tokens + seq![s]);
        assert(tokens + (seq![s] + streamed_run(next, max_len, eos, rest)) =~= next + streamed_run(
            next,
            max_len,
            eos,
            rest,
        ));
    }
}

/// The cap is never exceeded: a run that starts within the cap ends
/// within it.
pub proof fn lemma_cap_respected(tokens: Seq<u32>, max_len: int, eos: u32, samples: Seq<u32>)
    requires
        tokens.len() <= max_len,
    ensures
        bulk_run(tokens, max_len, eos, samples).len() <= max_len,
    decreases samples.len(),
{
    if tokens.len() >= max_len || samples.len() == 0 {
    } else if samples[0] == eos {
    } else {
        lemma_cap_respected(tokens.push(samples[0]), max_len, eos, samples.drop_first());
    }
}

/// Runs the bulk protocol against a fixed sample stream: exactly the
/// reproducible generation a fixed entropy source gives. The result is
/// the spec-level bulk run, so two runs over the same state and
/// samples agree.
pub fn run_bulk_with_samples(prompt: Vec<u32>, max_len: usize, eos: u32, samples: &Vec<u32>) -> (r:
    Vec<u32>)
    ensures
        r@ == bulk_run(prompt@, max_len as int, eos, samples@),
{
    let ghost p0: Seq<u32> = prompt@;
    let mut sess = GenSession::new(prompt, max_len, eos);
    proof {
        assert(samples@.skip(0) =~= samples@);
    }
    let n = samples.len();
    let mut i: usize = 0;
    while i < n && !sess.finished()
        invariant
            i <= n,
            n == samples@.len(),
            sess.wf(),
            sess.spec_max_len() == max_len,
            sess.spec_eos() == eos,
            bulk_run(p0, max_len as int, eos, samples@) == (if sess.spec_finished() {
                sess.spec_tokens()
            } else {
                bulk_run(sess.spec_tokens(), max_len as int, eos, samples@.skip(i as int))
            }),
        decreases n - i,
    {
        let s = samples[i];
        let ghost t_prev = sess.spec_tokens();
        proof {
            assert(samples@.skip(i as int)[0] == s);
            assert(samples@.skip(i as int).drop_first() =~= samples@.skip(i + 1));
        }
        sess.accept(s);
        proof {
            let m = max_len as int;
            if s == eos {
                assert(bulk_run(t_prev, m, eos, samples@.skip(i as int)) == t_prev.push(eos));
            } else {
                assert(bulk_run(t_prev, m, eos, samples@.skip(i as int)) == bulk_run(
                    t_prev.push(s), m, eos, samples@.skip(i as int).drop_first()));
                assert(samples@.skip(i as int).drop_first() == samples@.skip(i + 1));
                if sess.spec_finished() {
                    assert(bulk_run(sess.spec_tokens(), m, eos, samples@.skip(i + 1))
                        == sess.spec_tokens());
                }
            }
        }
        i = i + 1;
    }
    proof {
        if !sess.spec_finished() {
            assert(samples@.skip(i as int).len() == 0);
        }
    }
    let out = sess.tokens();
    let m = out.len();
    let mut r: Vec<u32> = Vec::new();
    let mut j: usize = 0;
    while j < m
        invariant
            j <= m,
            m == out@.len(),
            r@ == out@.subrange(0, j as int),
        decreases m - j,
    {
        let t = out[j];
        r.push(t);
        proof {
            assert(r@ =~= out@.subrange(0, j + 1));
        }
        j = j + 1;
    }
    proof {
        assert(out@.subrange(0, m as int) =~= out@);
    }
    r
}

/// Runs the streaming protocol against the same fixed sample stream,
/// collecting what each step emits: the spec-level streamed run, which
/// the parity lemma ties to the bulk result.
pub fn run_stream_with_samples(
    prompt: Vec<u32>,
    max_len: usize,
    eos: u32,
    samples: &Vec<u32>,
) -> (r: Vec<u32>)
    ensures
        r@ == streamed_run(prompt@, max_len as int, eos, samples@),
{
    let ghost p0: Seq<u32> = prompt@;
    let mut sess = GenSession::new(prompt, max_len, eos);
    let mut r: Vec<u32> = Vec::new();
    proof {
        assert(samples@.skip(0) =~= samples@);
    }
    let n = samples.len();
    let mut i: usize = 0;
    while i < n && !sess.finished()
        invariant
            i <= n,
            n == samples@.len(),
            sess.wf(),
            sess.spec_max_len() == max_len,
            sess.spec_eos() == eos,
            streamed_run(p0, max_len as int, eos, samples@) == (if sess.spec_finished() {
                r@
            } else {
                r@ + streamed_run(sess.spec_tokens(), max_len as int, eos, samples@.skip(i as int))
            }),
        decreases n - i,
    {
        let s = samples[i];
        let ghost t_prev = sess.spec_tokens();
        let ghost r_prev: Seq<u32> = r@;
        proof {
            assert(samples@.skip(i as int)[0] == s);
            assert(samples@.skip(i as int).drop_first() =~= samples@.skip(i + 1));
        }
        let emitted = sess.accept(s);
        if let Some(t) = emitted {
            r.push(t);
        }
        proof {
            let rest = streamed_run(sess.spec_tokens(), max_len as int, eos, samples@.skip(i + 1));
            if s == eos {
                assert(streamed_run(t_prev, max_len as int, eos, samples@.skip(i as int))
                    =~= Seq::<u32>::empty());
                assert(r_prev + Seq::<u32>::empty() =~= r@);
            } else {
                assert(r@ =~= r_prev + seq![s]);
                if sess.spec_finished() {
                    assert(rest =~= Seq::<u32>::empty());
                    assert(r_prev + (seq![s] + rest) =~= r@);
                } else {
                    assert(r_prev + (seq![s] + rest) =~= r@ + rest);
                }
            }
        }
        i = i + 1;
    }
    proof {
        if !sess.spec_finished() {
            assert(samples@.skip(i as int).len() == 0);
            assert(r@ + Seq::<u32>::empty() =~= r@);
        }
    }
    r
}

/// One in-progress generation: the accumulated sequence, the cap, the
/// end-of-sequence id, which suffix still has to be forwarded, and
/// whether generation has halted.
pub struct GenSession {
    tokens: Vec<u32>,
    max_len: usize,
    eos_token_id: u32,
    pending_start: usize,
    finished: bool,
}

impl GenSession {
    /// The full token sequence so far, prompt included.
    pub closed spec fn spec_tokens(self) -> Seq<u32> {
        self.tokens@
    }

    /// The length cap.
    pub closed spec fn spec_max_len(self) -> int {
        self.max_len as int
    }

    /// The end-of-sequence id.
    pub closed spec fn spec_eos(self) -> u32 {
        self.eos_token_id
    }

    /// Where the not-yet-forwarded suffix starts.
    pub closed spec fn spec_pending_start(self) -> int {
        self.pending_start as int
    }

    /// Whether generation has halted.
    pub closed spec fn spec_finished(self) -> bool {
        self.finished
    }

    /// Session invariant: the pending suffix is real, and an unfinished
    /// session is strictly below the cap, so one more token always fits.
    pub open spec fn wf(self) -> bool {
        &&& self.spec_pending_start() <= self.spec_tokens().len()
        &&& !self.spec_finished() ==> self.spec_tokens().len() < self.spec_max_len()
    }

    /// Opens a session on a prompt: the whole prompt is pending, and a
    /// prompt already at or over the cap leaves nothing to generate.
    pub fn new(prompt: Vec<u32>, max_len: usize, eos_token_id: u32) -> (s: GenSession)
        ensures
            s.wf(),
            s.spec_tokens() == prompt@,
            s.spec_max_len() == max_len,
            s.spec_eos() == eos_token_id,
            s.spec_pending_start() == 0,
            s.spec_finished() <==> prompt@.len() >= max_len,
    {
        let finished = prompt.len() >= max_len;
        GenSession { tokens: prompt, max_len, eos_token_id, pending_start: 0, finished }
    }

    /// Whether generation has halted.
    pub fn finished(&self) -> (r: bool)
        ensures
            r == self.spec_finished(),
    {
        self.finished
    }

    /// The full token sequence so far, prompt included: the bulk
    /// protocol's result once the session has halted.
    pub fn tokens(&self) -> (r: &Vec<u32>)
        ensures
            r@ == self.spec_tokens(),
    {
        &self.tokens
    }

    /// The tokens the next forward pass must consume: the suffix not
    /// yet forwarded — the whole prompt at first, then each newly
    /// accepted token.
    pub fn next_input(&self) -> (r: Vec<u32>)
        requires
            self.wf(),
        ensures
            r@ == self.spec_tokens().subrange(self.spec_pending_start(), self.spec_tokens().len() as int),
    {
        let n = self.tokens.len();
        let mut r: Vec<u32> = Vec::new();
        let mut i: usize = self.pending_start;
        while i < n
            invariant
                self.spec_pending_start() <= i <= n,
                n == self.spec_tokens().len(),
                r@ == self.spec_tokens().subrange(self.spec_pending_start(), i as int),
            decreases n - i,
        {
            let t = self.tokens[i];
            r.push(t);
            proof {
                assert(r@ =~= self.spec_tokens().subrange(self.spec_pending_start(), i + 1));
            }
            i = i + 1;
        }
        r
    }

    /// Accepts one sampled token: appends it, halts exactly when it is
    /// the end-of-sequence id or the sequence has reached the cap, and
    /// leaves exactly the new token pending. Returns what the streaming
    /// protocol emits for this step: the token, unless it is the
    /// end-of-sequence id, which is never emitted.
    pub fn accept(&mut self, sampled: u32) -> (emitted: Option<u32>)
        requires
            old(self).wf(),
            !old(self).spec_finished(),
        ensures
            final(self).wf(),
            final(self).spec_tokens() == old(self).spec_tokens().push(sampled),
            final(self).spec_max_len() == old(self).spec_max_len(),
            final(self).spec_eos() == old(self).spec_eos(),
            final(self).spec_pending_start() == old(self).spec_tokens().len(),
            final(self).spec_finished() <==> (sampled == old(self).spec_eos() || old(
                self,
            ).spec_tokens().len() + 1 >= old(self).spec_max_len()),
            emitted == (if sampled == old(self).spec_eos() {
                Option::<u32>::None
            } else {
                Option::Some(sampled)
            }),
            final(self).spec_tokens() == bulk_run(
                old(self).spec_tokens(),
                old(self).spec_max_len(),
                old(self).spec_eos(),
                seq![sampled],
            ),
    {
        let at = self.tokens.len();
        self.tokens.push(sampled);
        self.pending_start = at;
        let is_eos = sampled == self.eos_token_id;
        self.finished = is_eos || self.tokens.len() >= self.max_len;
        proof {
            let t0 = old(self).spec_tokens();
            assert(seq![sampled].drop_first() =~= Seq::<u32>::empty());
            if sampled != old(self).spec_eos() {
                assert(bulk_run(t0.push(sampled), old(self).spec_max_len(), old(self).spec_eos(),
                    Seq::<u32>::empty()) == t0.push(sampled));
            }
        }
        if is_eos {
            None
        } else {
            Some(sampled)
        }
    }
}

} // verus!
