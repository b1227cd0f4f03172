use vstd::prelude::*;
use rand::distributions::Distribution;
use rand::rngs::ThreadRng;
use vstd::arithmetic::div_mod::{lemma_mod_self_0, lemma_small_mod};

verus! {

#[verifier::external_type_specification]
#[verifier::external_body]
pub struct ExThreadRng(rand::rngs::ThreadRng);

/// Relies on rand::thread_rng: a handle on the thread-local generator.
#[verifier::external_body]
fn new_thread_rng() -> ThreadRng {
    rand::thread_rng()
}

/// Relies on rand's `Uniform::new_inclusive(lo, hi).sample(rng)`: it panics
/// when `lo > hi`, and otherwise returns a value of the closed range
/// `[lo, hi]`.
#[verifier::external_body]
fn sample_inclusive(rng: &mut ThreadRng, lo: i64, hi: i64) -> (r: i64)
    requires
        lo <= hi,
    ensures
        lo <= r <= hi,
{
    rand::distributions::Uniform::new_inclusive(lo, hi).sample(rng)
}

/// The abstract state of a scripted source: its values, and the position of
/// the next one to be used.
pub ghost struct ScriptState {
    pub values: Seq<i64>,
    pub pos: int,
}

/// `v` brought into the closed range `[lo, hi]`.
pub open spec fn clamp(v: int, lo: int, hi: int) -> int {
    if v < lo {
        lo
    } else if v > hi {
        hi
    } else {
        v
    }
}

/// What a draw from `[lo, hi]` answers in state `st`.
pub open spec fn scripted_pick(st: ScriptState, lo: int, hi: int) -> int {
    clamp(st.values[st.pos] as int, lo, hi)
}

/// The state after one draw: the script is used in a cycle.
pub open spec fn scripted_step(st: ScriptState) -> ScriptState {
    ScriptState { values: st.values, pos: (st.pos + 1) % (st.values.len() as int) }
}

/// A deterministic sequence of answers, used in a cycle. Each answer is
/// brought into the requested range.
pub struct Script {
    pub values: Vec<i64>,
    pub pos: usize,
}

impl Script {
    pub open spec fn view(&self) -> ScriptState {
        ScriptState { values: self.values@, pos: self.pos as int }
    }

    pub open spec fn wf(&self) -> bool {
        0 <= self.pos < self.values.len()
    }
}

/// Where the generator's random choices come from.
pub enum DrawSource {
    /// The thread-local pseudo-random generator.
    Random(ThreadRng),
    /// A fixed script, for reproducible runs.
    Scripted(Script),
}

impl DrawSource {
    pub open spec fn wf(&self) -> bool {
        match self {
            DrawSource::Random(_) => true,
            DrawSource::Scripted(sc) => sc.wf(),
        }
    }

    pub open spec fn is_scripted(&self) -> bool {
        self is Scripted
    }

    /// The script's state; meaningful only for a scripted source.
    pub open spec fn state(&self) -> ScriptState {
        match self {
            DrawSource::Random(_) => ScriptState { values: Seq::empty(), pos: 0 },
            DrawSource::Scripted(sc) => sc@,
        }
    }

    /// A source backed by the thread-local pseudo-random generator.
    pub fn random() -> (r: DrawSource)
        ensures
            r.wf(),
            !r.is_scripted(),
    {
        DrawSource::Random(new_thread_rng())
    }

    /// A source that answers the `i`-th draw (from 0) with
    /// `values[i % values.len()]` brought into the requested range. Returns
    /// `None` when `values` is empty.
    pub fn scripted(values: Vec<i64>) -> (r: Option<DrawSource>)
        ensures
            values@.len() == 0 <==> r is None,
            r matches Some(s) ==> s.wf() && s.is_scripted() && s.state() == (ScriptState {
                values: values@,
                pos: 0,
            }),
    {
        if values.len() == 0 {
            None
        } else {
            Some(DrawSource::Scripted(Script { values, pos: 0 }))
        }
    }

    /// Draws a value of the closed range `[lo, hi]`.
    pub fn draw(&mut self, lo: i64, hi: i64) -> (r: i64)
        requires
            lo <= hi,
            old(self).wf(),
        ensures
            lo <= r <= hi,
            final(self).wf(),
            final(self).is_scripted() == old(self).is_scripted(),
            old(self).is_scripted() ==> r == scripted_pick(old(self).state(), lo as int, hi as int)
                && final(self).state() == scripted_step(old(self).state()),
    {
        match self {
            DrawSource::Random(rng) => sample_inclusive(rng, lo, hi),
            DrawSource::Scripted(sc) => {
                let v = sc.values[sc.pos];
                let r = if v < lo {
                    lo
                } else if v > hi {
                    hi
                } else {
                    v
                };
                let ghost len = sc.values.len() as int;
                if sc.pos + 1 == sc.values.len() {
                    proof {
                        lemma_mod_self_0(len);
                    }
                    sc.pos = 0;
                } else {
                    proof {
                        lemma_small_mod((sc.pos + 1) as nat, len as nat);
                    }
                    sc.pos = sc.pos + 1;
                }
                r
            },
        }
    }
}

} // verus!
