//! The bounded-batch resolution engine's bookkeeping: the validated
//! candidate list is split into contiguous batches of at most
//! `max_async_lookups` domains, the outcomes of each batch are recorded in
//! input order before the next batch is handed out, and the finished result
//! set can be rendered as the JSON document.
//!
//! The lookups themselves are network work and happen outside the library:
//! a driver asks for the next batch, resolves its domains concurrently,
//! turns each outcome into a [`Domain`] record, and hands the records back.

use vstd::arithmetic::div_mod::{
    lemma_basic_div,
    lemma_div_pos_is_pos,
    lemma_fundamental_div_mod,
    lemma_mod_bound,
};
use vstd::arithmetic::mul::lemma_mul_inequality;
use vstd::prelude::*;

use crate::domain::{Domain, DomainNames, DomainView};
use crate::generator::{
    lemma_generation_filters,
    spec_domain_of,
    spec_generate_domains,
    spec_keeps_line,
};
use crate::json::spec_json_document;

verus! {

/// How many batches a list of `n` domains makes under batch size `bs`:
/// the least number of batches of at most `bs` that cover all `n`.
pub open spec fn spec_num_batches(n: nat, bs: nat) -> nat
    recommends
        bs >= 1,
{
    (((n + bs) as int - 1) / (bs as int)) as nat
}

/// Batch `i` of the list `s` under batch size `bs`: the contiguous slice
/// from `i * bs` up to `i * bs + bs`, clipped to the end of the list.
pub open spec fn spec_batch<T>(s: Seq<T>, bs: nat, i: nat) -> Seq<T>
    recommends
        bs >= 1,
{
    let n = s.len() as int;
    let lo0 = (i * bs) as int;
    let hi0 = lo0 + bs;
    let lo = if lo0 <= n {
        lo0
    } else {
        n
    };
    let hi = if hi0 <= n {
        hi0
    } else {
        n
    };
    s.subrange(lo, hi)
}

/// Law: for every batch size of at least 1, partitioning `n` domains
/// yields `ceil(n / bs)` batches; every batch before the last has length
/// exactly `bs`, the last holds the remainder (between 1 and `bs`), and
/// element `j` of the list sits in batch `j / bs` at offset `j % bs`, so
/// each element falls in exactly one batch slot.
pub proof fn lemma_batch_partition<T>(s: Seq<T>, bs: nat)
    requires
        bs >= 1,
    ensures
        s.len() == 0 ==> spec_num_batches(s.len(), bs) == 0,
        s.len() > 0 ==> spec_num_batches(s.len(), bs) >= 1,
        s.len() > 0 ==> (spec_num_batches(s.len(), bs) - 1) * bs < s.len() <= spec_num_batches(
            s.len(),
            bs,
        ) * bs,
        forall|i: nat|
            i + 1 < spec_num_batches(s.len(), bs) ==> (#[trigger] spec_batch(s, bs, i)).len()
                == bs,
        s.len() > 0 ==> spec_batch(s, bs, (spec_num_batches(s.len(), bs) - 1) as nat).len()
            == s.len() - (spec_num_batches(s.len(), bs) - 1) * bs,
        forall|j: int|
            0 <= j < s.len() ==> (#[trigger] spec_batch(s, bs, (j / (bs as int)) as nat))[j % (
            bs as int)] == s[j],
{
    let n = s.len() as int;
    let b = bs as int;
    let nb = (n + b - 1) / b;
    lemma_fundamental_div_mod(n + b - 1, b);
    lemma_mod_bound(n + b - 1, b);
    lemma_div_pos_is_pos(n + b - 1, b);
    let r = (n + b - 1) % b;
    assert(n + b - 1 == b * nb + r);
    assert(n <= b * nb);
    assert(spec_num_batches(s.len(), bs) == nb);
    assert((nb - 1) * b == b * nb - b) by (nonlinear_arith);
    assert(nb * b == b * nb) by (nonlinear_arith);
    if n == 0 {
        lemma_basic_div(b - 1, b);
    } else {
        assert(b * nb >= 1);
        if nb < 1 {
            lemma_mul_inequality(nb, 0, b);
            assert(0 * b == 0) by (nonlinear_arith);
            assert(nb * b <= 0);
        }
        assert(nb >= 1);
    }
    assert forall|i: nat| i + 1 < spec_num_batches(s.len(), bs) implies (#[trigger] spec_batch(
        s,
        bs,
        i,
    )).len() == bs by {
        let ii = i as int;
        assert(ii * b + b == (ii + 1) * b) by (nonlinear_arith);
        assert(ii * b >= 0) by (nonlinear_arith)
            requires
                ii >= 0,
                b >= 0,
        ;
        lemma_mul_inequality(ii + 1, nb - 1, b);
        assert((ii + 1) * b <= (nb - 1) * b);
        assert((i * bs) as int == ii * b);
        assert(ii * b + b <= n);
    }
    if n > 0 {
        let li = nb - 1;
        assert(li * b >= 0) by (nonlinear_arith)
            requires
                li >= 0,
                b >= 0,
        ;
        assert((nb - 1) * b + b == nb * b) by (nonlinear_arith);
        assert(li * b + b == nb * b);
        assert(((li as nat) * bs) as int == li * b);
    }
    assert forall|j: int| 0 <= j < s.len() implies (#[trigger] spec_batch(
        s,
        bs,
        (j / (bs as int)) as nat,
    ))[j % (bs as int)] == s[j] by {
        lemma_fundamental_div_mod(j, b);
        lemma_mod_bound(j, b);
        lemma_div_pos_is_pos(j, b);
        let q = j / b;
        assert(j == b * q + j % b);
        assert(q * b == b * q) by (nonlinear_arith);
        assert(((q as nat) * bs) as int == q * b);
    }
}

/// Works through the validated candidate list in fixed-size batches and
/// accumulates one resolution record per domain, in input order.
pub struct AsyncDomainResolver {
    pub domains: Vec<String>,
    pub max_async_lookups: u32,
    pub resolved_domains: DomainNames,
}

impl AsyncDomainResolver {
    /// How many domains have been resolved and recorded so far.
    pub open spec fn processed(self) -> nat {
        self.resolved_domains@.len()
    }

    /// The resolver's standing invariant: the batch bound is 20, the
    /// records never outnumber the domains, each record's name is the
    /// domain at its own position, and progress always stands at a batch
    /// boundary or at the end of the list.
    pub open spec fn wf(self) -> bool {
        &&& self.max_async_lookups == 20
        &&& self.processed() <= self.domains@.len()
        &&& forall|i: int|
            0 <= i < self.processed() ==> (#[trigger] self.resolved_domains@[i]).name
                == self.domains@[i]@
        &&& (self.processed() % 20 == 0 || self.processed() == self.domains@.len())
    }

    /// Takes ownership of the validated candidate list; nothing is
    /// resolved yet and the batch bound is fixed at 20.
    pub fn new(domains: Vec<String>) -> (r: Self)
        ensures
            r.wf(),
            r.domains == domains,
            r.max_async_lookups == 20,
            r.processed() == 0,
    {
        Self { domains, max_async_lookups: 20, resolved_domains: DomainNames::new() }
    }

    /// How many batches the whole run takes.
    pub fn num_batches(&self) -> (n: usize)
        ensures
            n == spec_num_batches(self.domains@.len(), 20),
    {
        let len = self.domains.len();
        let q = len / 20;
        let n = if len % 20 == 0 {
            q
        } else {
            q + 1
        };
        proof {
            lemma_fundamental_div_mod(len as int, 20);
            lemma_mod_bound(len as int, 20);
            lemma_fundamental_div_mod(len as int + 19, 20);
            lemma_mod_bound(len as int + 19, 20);
            let q1 = (len as int) / 20;
            let r1 = (len as int) % 20;
            let q2 = (len as int + 19) / 20;
            let r2 = (len as int + 19) % 20;
            assert(20 * q1 + r1 + 19 == 20 * q2 + r2);
            if r1 == 0 {
                assert(q1 == q2) by (nonlinear_arith)
                    requires
                        20 * q1 + 19 == 20 * q2 + r2,
                        0 <= r2 < 20,
                ;
            } else {
                assert(q1 + 1 == q2) by (nonlinear_arith)
                    requires
                        20 * q1 + r1 + 19 == 20 * q2 + r2,
                        0 < r1 < 20,
                        0 <= r2 < 20,
                ;
            }
        }
        n
    }

    /// Whether every domain has been resolved and recorded.
    pub fn is_finished(&self) -> (r: bool)
        ensures
            r == (self.processed() == self.domains@.len()),
    {
        self.resolved_domains.domains.len() == self.domains.len()
    }

    /// Hands out the next batch to resolve: the at most 20 domains that
    /// follow what has been recorded so far, or nothing when the run is
    /// complete.  The batch is batch number `processed / 20` of the list.
    pub fn next_batch(&self) -> (b: Option<Vec<String>>)
        requires
            self.wf(),
        ensures
            (b is Some) == (self.processed() < self.domains@.len()),
            b matches Some(v) ==> v.deep_view() == spec_batch(
                self.domains.deep_view(),
                20,
                self.processed() / 20,
            ) && 1 <= v@.len() <= 20,
    {
        let len = self.domains.len();
        let start = self.resolved_domains.domains.len();
        if start >= len {
            return None;
        }
        let end = if len - start > 20 {
            start + 20
        } else {
            len
        };
        let mut v: Vec<String> = Vec::new();
        let mut j = start;
        while j < end
            invariant
                start <= j <= end <= len,
                len == self.domains@.len(),
                v@.len() == j - start,
                forall|k: int| 0 <= k < v@.len() ==> v@[k] == self.domains@[start + k],
            decreases end - j,
        {
            v.push(self.domains[j].clone());
            j = j + 1;
        }
        proof {
            let p = self.processed() as int;
            lemma_fundamental_div_mod(p, 20);
            lemma_mod_bound(p, 20);
            lemma_div_pos_is_pos(p, 20);
            let q = p / 20;
            assert(p == 20 * q + p % 20);
            assert(p % 20 == 0);
            assert((((p / 20) as nat) * 20) as int == 20 * q);
            assert(v.deep_view() =~= spec_batch(self.domains.deep_view(), 20, (p / 20) as nat));
        }
        Some(v)
    }

    /// Records the outcomes of the current batch, in batch order, after
    /// everything recorded before; the names handed back must be exactly
    /// the domains of the current batch.
    pub fn record_batch(&mut self, results: Vec<Domain>)
        requires
            old(self).wf(),
            old(self).processed() < old(self).domains@.len(),
            results@.map_values(|d: Domain| d@.name) == spec_batch(
                old(self).domains.deep_view(),
                20,
                old(self).processed() / 20,
            ),
        ensures
            final(self).wf(),
            final(self).domains == old(self).domains,
            final(self).max_async_lookups == old(self).max_async_lookups,
            final(self).resolved_domains@ == old(self).resolved_domains@ + results@.map_values(
                |d: Domain| d@,
            ),
            final(self).processed() == old(self).processed() + results@.len(),
    {
        let ghost rv = results@;
        let ghost p = old(self).processed() as int;
        let ghost dlen = old(self).domains@.len() as int;
        proof {
            lemma_fundamental_div_mod(p, 20);
            lemma_mod_bound(p, 20);
            lemma_div_pos_is_pos(p, 20);
            let q = p / 20;
            assert(p == 20 * q + p % 20);
            assert(p % 20 == 0);
            assert((((p / 20) as nat) * 20) as int == 20 * q);
            // The batch the names were checked against runs from p to the
            // clipped end, so the results' length and name positions follow.
            assert(rv.map_values(|d: Domain| d@.name).len() == (if p + 20 <= dlen {
                p + 20
            } else {
                dlen
            }) - p);
            assert forall|k: int| 0 <= k < rv.len() implies (#[trigger] rv[k])@.name == old(
                self,
            ).domains@[p + k]@ by {
                assert(rv.map_values(|d: Domain| d@.name)[k] == rv[k]@.name);
                assert(old(self).domains.deep_view()[p + k] == old(self).domains@[p + k]@);
            }
        }
        let mut results = results;
        let total = results.len();
        let mut k: usize = 0;
        while results.len() > 0
            invariant
                total == rv.len(),
                0 <= k <= rv.len(),
                results@ =~= rv.subrange(k as int, rv.len() as int),
                self.domains == old(self).domains,
                self.max_async_lookups == old(self).max_async_lookups,
                self.resolved_domains@ =~= old(self).resolved_domains@ + rv.take(
                    k as int,
                ).map_values(|d: Domain| d@),
            decreases results.len(),
        {
            let d = results.remove(0);
            proof {
                assert(d == rv[k as int]);
            }
            self.resolved_domains.add(d);
            proof {
                assert(rv.take(k + 1).drop_last() =~= rv.take(k as int));
                assert(self.resolved_domains@ =~= old(self).resolved_domains@ + rv.take(
                    k + 1,
                ).map_values(|d: Domain| d@));
            }
            k = k + 1;
        }
        proof {
            assert(rv.take(k as int) =~= rv);
            assert(self.resolved_domains@ =~= old(self).resolved_domains@ + rv.map_values(
                |d: Domain| d@,
            ));
            assert forall|i: int| 0 <= i < self.processed() implies (
            #[trigger] self.resolved_domains@[i]).name == self.domains@[i]@ by {
                if i >= p {
                    assert(self.resolved_domains@[i] == rv.map_values(|d: Domain| d@)[i - p]);
                    assert(rv[i - p]@.name == old(self).domains@[i]@);
                }
            }
        }
    }

    /// Renders the records accumulated so far as the pretty-printed JSON
    /// document, in input order.
    pub fn as_json(&self) -> (r: String)
        ensures
            r@ == spec_json_document(self.resolved_domains@),
    {
        self.resolved_domains.to_json()
    }
}

/// Law: a finished run resolves every validated domain exactly once, in
/// input order: the recorded names are, position by position, the
/// candidate list the run was started with.
pub proof fn lemma_finished_run_covers_all(r: AsyncDomainResolver)
    requires
        r.wf(),
        r.processed() == r.domains@.len(),
    ensures
        r.resolved_domains@.map_values(|d: DomainView| d.name) == r.domains.deep_view(),
{
    let names = r.resolved_domains@.map_values(|d: DomainView| d.name);
    assert forall|i: int| 0 <= i < names.len() implies names[i] == r.domains.deep_view()[i] by {
        assert(names[i] == r.resolved_domains@[i].name);
    }
    assert(names =~= r.domains.deep_view());
}

/// Law: a finished run that was started on the candidate list generated
/// from `lines` under `top` records, for every non-empty line whose
/// combination passes validation, exactly one result under the combined
/// name, in the lines' order; lines that fail validation never appear.
pub proof fn lemma_run_matches_input_lines(
    lines: Seq<Seq<char>>,
    top: Seq<char>,
    r: AsyncDomainResolver,
)
    requires
        r.wf(),
        r.processed() == r.domains@.len(),
        r.domains.deep_view() == spec_generate_domains(lines, top),
    ensures
        r.resolved_domains@.map_values(|d: DomainView| d.name) == lines.filter(
            |l: Seq<char>| spec_keeps_line(l, top),
        ).map_values(|l: Seq<char>| spec_domain_of(l, top)),
{
    lemma_finished_run_covers_all(r);
    lemma_generation_filters(lines, top);
}

} // verus!
