//! The path-validation chain.
//!
//! A validator examines a candidate path and either approves it or reports
//! an error message.  A prompt runs its validators strictly in configured
//! order and stops at the first failure; an empty chain always succeeds.
//! The verdict of a validator is a pure function of the candidate's text,
//! stated by the `verdict` spec function of the [`PathValidator`] trait;
//! a call may update the validator's own bookkeeping but never its verdicts.

use vstd::prelude::*;

verus! {

/// A user-supplied check on a candidate path.
///
/// `verdict` gives the mathematical meaning of the check: `None` approves
/// the candidate, `Some(message)` rejects it with that message.  `validate`
/// must answer according to `verdict` and must leave every verdict as it
/// was, though it may update other state (a call counter, say).
pub trait PathValidator: Sized {
    /// The check's verdict on a candidate path: `None` to approve,
    /// `Some(message)` to reject.
    spec fn verdict(&self, path: Seq<char>) -> Option<Seq<char>>;

    /// Runs the check on the textual form of a candidate path.
    fn validate(&mut self, path: &String) -> (r: Result<(), String>)
        ensures
            r is Ok <==> old(self).verdict(path@) is None,
            r matches Err(m) ==> old(self).verdict(path@) == Some::<Seq<char>>(m@),
            forall|p: Seq<char>| #[trigger] final(self).verdict(p) == old(self).verdict(p),
    ;
}

/// The verdict of a whole chain: the first failure, in order, or approval.
pub open spec fn chain_verdict<V: PathValidator>(vs: Seq<V>, p: Seq<char>) -> Option<Seq<char>>
    decreases vs.len(),
{
    if vs.len() == 0 {
        None
    } else if vs[0].verdict(p) is Some {
        vs[0].verdict(p)
    } else {
        chain_verdict(vs.drop_first(), p)
    }
}

/// How many validators a fail-fast run of the chain executes: everything
/// up to and including the first failure, or all of them.
pub open spec fn executed_count<V: PathValidator>(vs: Seq<V>, p: Seq<char>) -> int
    decreases vs.len(),
{
    if vs.len() == 0 {
        0
    } else if vs[0].verdict(p) is Some {
        1
    } else {
        1 + executed_count(vs.drop_first(), p)
    }
}

/// A chain whose first validator rejects reports exactly that failure and
/// executes nothing beyond it, whatever the validators after it would say.
pub proof fn lemma_chain_fail_fast<V: PathValidator>(vs: Seq<V>, p: Seq<char>)
    requires
        vs.len() > 0,
        vs[0].verdict(p) is Some,
    ensures
        chain_verdict(vs, p) == vs[0].verdict(p),
        executed_count(vs, p) == 1,
{
}

/// A skipped prefix of approvals does not change the chain's verdict.
proof fn lemma_chain_skip<V: PathValidator>(vs: Seq<V>, p: Seq<char>, i: int)
    requires
        0 <= i <= vs.len(),
        forall|j: int| 0 <= j < i ==> #[trigger] vs[j].verdict(p) is None,
    ensures
        chain_verdict(vs, p) == chain_verdict(vs.skip(i), p),
        executed_count(vs, p) == i + executed_count(vs.skip(i), p),
    decreases i,
{
    if i == 0 {
        assert(vs.skip(0) =~= vs);
    } else {
        assert(vs[0].verdict(p) is None);
        assert(forall|j: int|
            0 <= j < i - 1 ==> #[trigger] vs.drop_first()[j].verdict(p) == vs[j + 1].verdict(p));
        lemma_chain_skip(vs.drop_first(), p, i - 1);
        assert(vs.drop_first().skip(i - 1) =~= vs.skip(i));
    }
}

/// Whether the validators of `b` give, position for position, the same
/// verdicts as those of `a` — the relation every run of a chain preserves.
pub open spec fn verdicts_unchanged<V: PathValidator>(a: Seq<V>, b: Seq<V>) -> bool {
    b.len() == a.len() && forall|j: int, p: Seq<char>|
        0 <= j < a.len() ==> #[trigger] b[j].verdict(p) == a[j].verdict(p)
}

/// Keeping verdicts is transitive over successive runs.
pub proof fn lemma_verdicts_unchanged_trans<V: PathValidator>(a: Seq<V>, b: Seq<V>, c: Seq<V>)
    requires
        verdicts_unchanged(a, b),
        verdicts_unchanged(b, c),
    ensures
        verdicts_unchanged(a, c),
{
    assert forall|j: int, p: Seq<char>| 0 <= j < a.len() implies #[trigger] c[j].verdict(p)
        == a[j].verdict(p) by {
        assert(b[j].verdict(p) == a[j].verdict(p));
        assert(c[j].verdict(p) == b[j].verdict(p));
    }
}

/// Chains with the same verdicts have the same chain verdict.
pub proof fn lemma_chain_verdict_congruence<V: PathValidator>(a: Seq<V>, b: Seq<V>, p: Seq<char>)
    requires
        verdicts_unchanged(a, b),
    ensures
        chain_verdict(b, p) == chain_verdict(a, p),
    decreases a.len(),
{
    if a.len() > 0 {
        assert(b[0].verdict(p) == a[0].verdict(p));
        assert(verdicts_unchanged(a.drop_first(), b.drop_first())) by {
            assert(forall|j: int, q: Seq<char>|
                0 <= j < a.drop_first().len() ==> #[trigger] b.drop_first()[j].verdict(q) == b[
                    j + 1
                ].verdict(q) && a.drop_first()[j].verdict(q) == a[j + 1].verdict(q));
        }
        lemma_chain_verdict_congruence(a.drop_first(), b.drop_first(), p);
    }
}

/// Runs the chain on a candidate path, in order, stopping at the first
/// failure.  The result is the chain's verdict; validators past the first
/// failure are not touched, and no validator's verdicts change.
pub fn run_chain<V: PathValidator>(vs: &mut Vec<V>, path: &String) -> (r: Result<(), String>)
    ensures
        r is Ok <==> chain_verdict(old(vs)@, path@) is None,
        r matches Err(m) ==> chain_verdict(old(vs)@, path@) == Some::<Seq<char>>(m@),
        final(vs)@.len() == old(vs)@.len(),
        forall|j: int|
            executed_count(old(vs)@, path@) <= j < old(vs)@.len() ==> final(vs)@[j] == old(
                vs,
            )@[j],
        forall|j: int, p: Seq<char>|
            0 <= j < old(vs)@.len() ==> #[trigger] final(vs)@[j].verdict(p) == old(
                vs,
            )@[j].verdict(p),
{
    let ghost orig = old(vs)@;
    let mut i: usize = 0;
    while i < vs.len()
        invariant
            orig == old(vs)@,
            i <= orig.len(),
            vs@.len() == orig.len(),
            forall|j: int| i <= j < orig.len() ==> vs@[j] == orig[j],
            forall|j: int, p: Seq<char>|
                0 <= j < orig.len() ==> #[trigger] vs@[j].verdict(p) == orig[j].verdict(p),
            forall|j: int| 0 <= j < i ==> #[trigger] orig[j].verdict(path@) is None,
        decreases orig.len() - i,
    {
        let ghost before = vs@;
        let mut v = vs.remove(i);
        let r = v.validate(path);
        vs.insert(i, v);
        proof {
            assert(vs@ =~= before.update(i as int, vs@[i as int]));
        }
        match r {
            Err(m) => {
                proof {
                    lemma_chain_skip(orig, path@, i as int);
                    assert(orig.skip(i as int)[0] == orig[i as int]);
                    assert(orig[i as int].verdict(path@) == Some::<Seq<char>>(m@));
                    assert(chain_verdict(orig.skip(i as int), path@) == orig[i as int].verdict(
                        path@,
                    ));
                    assert(executed_count(orig.skip(i as int), path@) == 1);
                }
                return Err(m);
            },
            Ok(()) => {},
        }
        i = i + 1;
    }
    proof {
        lemma_chain_skip(orig, path@, orig.len() as int);
        assert(orig.skip(orig.len() as int).len() == 0);
    }
    Ok(())
}

/// Whether `p` ends with the suffix `s`, character for character.
pub open spec fn ends_with(p: Seq<char>, s: Seq<char>) -> bool {
    s.len() <= p.len() && p.skip(p.len() - s.len()) == s
}

/// A validator that requires the candidate's text to end with a fixed
/// suffix (an extension, say) and otherwise reports a fixed message.
pub struct SuffixValidator {
    pub suffix: String,
    pub message: String,
}

impl SuffixValidator {
    pub fn new(suffix: String, message: String) -> (r: Self)
        ensures
            r.suffix@ == suffix@,
            r.message@ == message@,
    {
        SuffixValidator { suffix, message }
    }
}

impl PathValidator for SuffixValidator {
    open spec fn verdict(&self, path: Seq<char>) -> Option<Seq<char>> {
        if ends_with(path, self.suffix@) {
            None
        } else {
            Some(self.message@)
        }
    }

    fn validate(&mut self, path: &String) -> (r: Result<(), String>) {
        let p_len = path.as_str().unicode_len();
        let s_len = self.suffix.as_str().unicode_len();
        if s_len > p_len {
            return Err(self.message.clone());
        }
        let start: usize = p_len - s_len;
        let mut k: usize = 0;
        while k < s_len
            invariant
                k <= s_len,
                s_len <= p_len,
                start == p_len - s_len,
                p_len == path@.len(),
                s_len == self.suffix@.len(),
                forall|j: int| 0 <= j < k ==> path@[start + j] == self.suffix@[j],
        decreases s_len - k,
        {
            let pc = path.as_str().get_char(start + k);
            let sc = self.suffix.as_str().get_char(k);
            if pc != sc {
                proof {
                    assert(path@.skip(start as int)[k as int] != self.suffix@[k as int]);
                }
                return Err(self.message.clone());
            }
            k = k + 1;
        }
        proof {
            assert(path@.skip(start as int) =~= self.suffix@);
        }
        Ok(())
    }
}

/// A validator that counts how often it is run; its verdict is fixed by
/// `accept`.  It lets a caller observe the chain's fail-fast policy: a
/// counting validator placed after a rejecting one keeps a count of zero.
pub struct CountingValidator {
    pub calls: u64,
    pub accept: bool,
    pub message: String,
}

impl CountingValidator {
    pub fn new(accept: bool, message: String) -> (r: Self)
        ensures
            r.calls == 0,
            r.accept == accept,
            r.message@ == message@,
    {
        CountingValidator { calls: 0, accept, message }
    }
}

impl PathValidator for CountingValidator {
    open spec fn verdict(&self, path: Seq<char>) -> Option<Seq<char>> {
        if self.accept {
            None
        } else {
            Some(self.message@)
        }
    }

    fn validate(&mut self, path: &String) -> (r: Result<(), String>)
        ensures
            old(self).calls < u64::MAX ==> final(self).calls == old(self).calls + 1,
    {
        if self.calls < u64::MAX {
            self.calls = self.calls + 1;
        }
        if self.accept {
            Ok(())
        } else {
            Err(self.message.clone())
        }
    }
}

} // verus!
