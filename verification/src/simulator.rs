//! The evolution driver: a seeded, step-wise genetic search over genomes.
//! Each `next_generation` call advances exactly one generation — selection
//! of the best fraction, single-point crossover, per-gene mutation, elitist
//! reinsertion — and reports the best candidate so far.
use vstd::prelude::*;

use crate::actions::Action;
use crate::genome::{get_final_actions_list, spec_decode, spec_final_state, CrafterActions};
use crate::model::{min_int, spec_violations, Condition, State, Synth, Violations};
use crate::rng::{spec_rng_next, SolverRng};

verus! {

/// A scored genome.
pub type Scored = (i64, Vec<u8>);

/// Fitness values are non-increasing along the sequence.
pub open spec fn sorted_desc(s: Seq<Scored>) -> bool {
    forall|i: int, j: int| 0 <= i < j < s.len() ==> (#[trigger] s[i]).0 >= (#[trigger] s[j]).0
}

/// `x` occurs, by value, in the pool `v`.
pub open spec fn in_pool(f: i64, g: Seq<u8>, v: Seq<Scored>) -> bool {
    exists|j: int| 0 <= j < v.len() && (#[trigger] v[j]).0 == f && v[j].1@ == g
}

/// Every element of `r` occurs in the pool `v`.
pub open spec fn from_among(r: Seq<Scored>, v: Seq<Scored>) -> bool {
    forall|k: int| 0 <= k < r.len() ==> in_pool((#[trigger] r[k]).0, r[k].1@, v)
}

/// Genome lengths lie in `1 ..= cap`.
pub open spec fn pool_lens_ok(v: Seq<Scored>, cap: int) -> bool {
    forall|k: int| 0 <= k < v.len() ==> 1 <= (#[trigger] v[k]).1@.len() <= cap
}

proof fn lemma_from_among_trans(a: Seq<Scored>, b: Seq<Scored>, c: Seq<Scored>)
    requires
        from_among(a, b),
        from_among(b, c),
    ensures
        from_among(a, c),
{
    assert forall|k: int| 0 <= k < a.len() implies in_pool((#[trigger] a[k]).0, a[k].1@, c) by {
        let j = choose|j: int| 0 <= j < b.len() && (#[trigger] b[j]).0 == a[k].0 && b[j].1@
            == a[k].1@;
        assert(in_pool(b[j].0, b[j].1@, c));
        let l = choose|l: int| 0 <= l < c.len() && (#[trigger] c[l]).0 == b[j].0 && c[l].1@
            == b[j].1@;
        assert(0 <= l < c.len() && c[l].0 == a[k].0 && c[l].1@ == a[k].1@);
    }
}

/// Copy a genome.
fn clone_genome(g: &Vec<u8>) -> (r: Vec<u8>)
    ensures
        r@ == g@,
{
    let mut out: Vec<u8> = Vec::new();
    let mut i: usize = 0;
    while i < g.len()
        invariant
            i <= g@.len(),
            out@ == g@.take(i as int),
        decreases g@.len() - i,
    {
        out.push(g[i]);
        proof {
            assert(out@ =~= g@.take(i + 1 as int));
        }
        i += 1;
    }
    proof {
        assert(g@.take(i as int) =~= g@);
    }
    out
}

/// Copy a scored genome.
fn clone_scored(x: &Scored) -> (r: Scored)
    ensures
        r.0 == x.0,
        r.1@ == x.1@,
{
    (x.0, clone_genome(&x.1))
}

/// Merge two fitness-sorted runs into one.
#[verifier::rlimit(100)]
fn merge_sorted(a: &Vec<Scored>, b: &Vec<Scored>) -> (r: Vec<Scored>)
    requires
        sorted_desc(a@),
        sorted_desc(b@),
        a@.len() + b@.len() <= usize::MAX,
    ensures
        sorted_desc(r@),
        r@.len() == a@.len() + b@.len(),
        forall|k: int| 0 <= k < r@.len() ==> in_pool((#[trigger] r@[k]).0, r@[k].1@, a@)
            || in_pool(r@[k].0, r@[k].1@, b@),
        pool_view(r@) == spec_merge_pools(pool_view(a@), pool_view(b@)),
{
    let ghost av = pool_view(a@);
    let ghost bv = pool_view(b@);
    let mut out: Vec<Scored> = Vec::new();
    let mut i: usize = 0;
    let mut j: usize = 0;
    proof {
        lemma_pool_view_index(a@);
        lemma_pool_view_index(b@);
        assert(av.skip(0) =~= av);
        assert(bv.skip(0) =~= bv);
        assert(pool_view(out@) =~= Seq::<ScoredView>::empty());
        assert(Seq::<ScoredView>::empty() + spec_merge_pools(av, bv) =~= spec_merge_pools(
            av,
            bv,
        ));
    }
    while i < a.len() || j < b.len()
        invariant
            i <= a@.len(),
            j <= b@.len(),
            a@.len() + b@.len() <= usize::MAX,
            sorted_desc(a@),
            sorted_desc(b@),
            av == pool_view(a@),
            bv == pool_view(b@),
            av.len() == a@.len(),
            bv.len() == b@.len(),
            forall|k: int| 0 <= k < a@.len() ==> #[trigger] av[k] == ((a@[k].0, a@[k].1@)),
            forall|k: int| 0 <= k < b@.len() ==> #[trigger] bv[k] == ((b@[k].0, b@[k].1@)),
            out@.len() == i + j,
            sorted_desc(out@),
            out@.len() > 0 && i < a@.len() ==> out@.last().0 >= a@[i as int].0,
            out@.len() > 0 && j < b@.len() ==> out@.last().0 >= b@[j as int].0,
            forall|k: int| 0 <= k < out@.len() ==> in_pool((#[trigger] out@[k]).0, out@[k].1@, a@)
                || in_pool(out@[k].0, out@[k].1@, b@),
            pool_view(out@) + spec_merge_pools(av.skip(i as int), bv.skip(j as int))
                == spec_merge_pools(av, bv),
        decreases a@.len() + b@.len() - i - j,
    {
        let ghost out0 = out@;
        let take_a = if i < a.len() {
            if j < b.len() {
                a[i].0 >= b[j].0
            } else {
                true
            }
        } else {
            false
        };
        if take_a {
            let x = clone_scored(&a[i]);
            proof {
                assert(in_pool(a@[i as int].0, a@[i as int].1@, a@));
            }
            out.push(x);
            proof {
                assert(out@.drop_last() =~= out0);
                assert(av.skip(i as int)[0] == av[i as int]);
                assert(av.skip(i as int).drop_first() =~= av.skip(i + 1 as int));
                if j < b@.len() {
                    assert(bv.skip(j as int)[0] == bv[j as int]);
                }
                assert(pool_view(out@) =~= pool_view(out0).push((a@[i as int].0, a@[i as int].1@)));
                assert(pool_view(out@) + spec_merge_pools(av.skip(i + 1 as int), bv.skip(j as int))
                    =~= spec_merge_pools(av, bv));
            }
            i += 1;
        } else {
            let x = clone_scored(&b[j]);
            proof {
                assert(in_pool(b@[j as int].0, b@[j as int].1@, b@));
            }
            out.push(x);
            proof {
                assert(out@.drop_last() =~= out0);
                assert(bv.skip(j as int)[0] == bv[j as int]);
                assert(bv.skip(j as int).drop_first() =~= bv.skip(j + 1 as int));
                if i < a@.len() {
                    assert(av.skip(i as int)[0] == av[i as int]);
                }
                assert(pool_view(out@) =~= pool_view(out0).push((b@[j as int].0, b@[j as int].1@)));
                assert(pool_view(out@) + spec_merge_pools(av.skip(i as int), bv.skip(j + 1 as int))
                    =~= spec_merge_pools(av, bv));
            }
            j += 1;
        }
    }
    proof {
        assert(av.skip(i as int).len() == 0);
        assert(bv.skip(j as int).len() == 0);
        assert(pool_view(out@) + spec_merge_pools(av.skip(i as int), bv.skip(j as int)) =~= pool_view(
            out@,
        ));
    }
    out
}

/// Sort a pool of scored genomes by fitness, best first.
#[verifier::rlimit(100)]
fn sort_by_fitness(v: Vec<Scored>) -> (r: Vec<Scored>)
    ensures
        sorted_desc(r@),
        r@.len() == v@.len(),
        from_among(r@, v@),
        pool_view(r@) == spec_sort_pool(pool_view(v@)),
    decreases v@.len(),
{
    proof {
        lemma_pool_view_index(v@);
    }
    if v.len() <= 1 {
        return v;
    }
    let ghost vv = pool_view(v@);
    let mid = v.len() / 2;
    let mut left: Vec<Scored> = Vec::new();
    let mut right: Vec<Scored> = Vec::new();
    let mut k: usize = 0;
    proof {
        assert(pool_view(left@) =~= vv.take(0));
    }
    while k < mid
        invariant
            mid <= v@.len(),
            k <= mid,
            left@.len() == k,
            from_among(left@, v@),
            vv == pool_view(v@),
            vv.len() == v@.len(),
            forall|n: int| 0 <= n < v@.len() ==> #[trigger] vv[n] == ((v@[n].0, v@[n].1@)),
            pool_view(left@) == vv.take(k as int),
        decreases mid - k,
    {
        let ghost left0 = left@;
        let x = clone_scored(&v[k]);
        proof {
            assert(in_pool(v@[k as int].0, v@[k as int].1@, v@));
        }
        left.push(x);
        proof {
            assert(left@.drop_last() =~= left0);
            assert(pool_view(left@) =~= vv.take(k + 1 as int));
        }
        k += 1;
    }
    let mut k2: usize = mid;
    proof {
        assert(pool_view(right@) =~= vv.skip(mid as int).take(0));
    }
    while k2 < v.len()
        invariant
            mid <= v@.len(),
            mid <= k2 <= v@.len(),
            right@.len() == k2 - mid,
            from_among(right@, v@),
            vv == pool_view(v@),
            vv.len() == v@.len(),
            forall|n: int| 0 <= n < v@.len() ==> #[trigger] vv[n] == ((v@[n].0, v@[n].1@)),
            pool_view(right@) == vv.skip(mid as int).take(k2 - mid as int),
        decreases v@.len() - k2,
    {
        let ghost right0 = right@;
        let x = clone_scored(&v[k2]);
        proof {
            assert(in_pool(v@[k2 as int].0, v@[k2 as int].1@, v@));
        }
        right.push(x);
        proof {
            assert(right@.drop_last() =~= right0);
            assert(vv.skip(mid as int).take(k2 - mid + 1 as int) =~= vv.skip(mid as int).take(
                k2 - mid as int,
            ).push(vv[k2 as int]));
            assert(pool_view(right@) =~= vv.skip(mid as int).take(k2 - mid + 1 as int));
        }
        k2 += 1;
    }
    proof {
        assert(pool_view(left@) =~= vv.take(vv.len() as int / 2));
        assert(pool_view(right@) =~= vv.skip(vv.len() as int / 2));
    }
    let ls = sort_by_fitness(left);
    let rs = sort_by_fitness(right);
    let merged = merge_sorted(&ls, &rs);
    proof {
        assert forall|k3: int| 0 <= k3 < merged@.len() implies in_pool(
            (#[trigger] merged@[k3]).0,
            merged@[k3].1@,
            v@,
        ) by {
            if in_pool(merged@[k3].0, merged@[k3].1@, ls@) {
                let j = choose|j: int| 0 <= j < ls@.len() && (#[trigger] ls@[j]).0 == merged@[k3].0
                    && ls@[j].1@ == merged@[k3].1@;
                assert(in_pool(ls@[j].0, ls@[j].1@, v@)) by {
                    lemma_from_among_trans(ls@, left@, v@);
                }
            } else {
                let j = choose|j: int| 0 <= j < rs@.len() && (#[trigger] rs@[j]).0 == merged@[k3].0
                    && rs@[j].1@ == merged@[k3].1@;
                assert(in_pool(rs@[j].0, rs@[j].1@, v@)) by {
                    lemma_from_among_trans(rs@, right@, v@);
                }
            }
        }
    }
    merged
}

} // verus!

verus! {

/// Snapshot of a terminal state for the host.
#[derive(Clone, Copy, Debug)]
pub struct StatusState {
    pub quality: i64,
    pub durability: i64,
    pub cp: i64,
    pub progress: i64,
    pub feasible: bool,
    pub violations: Violations,
    pub condition: Condition,
    pub bonus_max_cp: i64,
}

impl StatusState {
    /// Summarize a craft state against its instance.
    pub fn from_state(state: &State, synth: &Synth) -> (r: StatusState)
        ensures
            r.quality == state.quality_state,
            r.durability == state.durability_state,
            r.cp == state.cp_state,
            r.progress == state.progress_state,
            r.violations == spec_violations(state.model(), *synth),
            r.feasible == (r.violations.durability_ok && r.violations.cp_ok
                && r.violations.reliability_ok && r.violations.trick_ok
                && r.violations.progress_ok),
            r.condition == state.condition,
            r.bonus_max_cp == state.bonus_max_cp,
            r == spec_status_of(state.model(), *synth),
    {
        let violations = state.check_violations(synth);
        let feasible = violations.is_okay() && violations.progress_ok;
        StatusState {
            quality: state.quality_state,
            durability: state.durability_state,
            cp: state.cp_state,
            progress: state.progress_state,
            feasible,
            violations,
            condition: state.condition,
            bonus_max_cp: state.bonus_max_cp,
        }
    }
}

/// One step of the driver: an intermediate report, the terminal report, or
/// an error on an inconsistent instance.
#[derive(Debug)]
pub enum SimStep {
    Success { best_sequence: Vec<Action>, execution_log: String, elapsed_time: Option<i64> },
    Progress {
        generations_completed: u32,
        max_generations: u32,
        best_sequence: Vec<Action>,
        state: StatusState,
    },
    Error(String),
}

/// Genome lengths the driver maintains: initial lengths up to the macro
/// bound, mutated lengths up to 50.
pub open spec fn spec_len_cap(synth: Synth) -> int {
    let init_max = if synth.max_length >= 1 {
        synth.max_length as int
    } else {
        1
    };
    if init_max >= 50 {
        init_max
    } else {
        50
    }
}

/// Largest gene value the generator draws: the size of the action alphabet,
/// within the gene byte.
fn gene_ceiling(synth: &Synth) -> (r: u64)
    ensures
        1 <= r <= 255,
        r == spec_gene_ceiling(*synth),
{
    let n = synth.crafter.actions.len();
    if n == 0 {
        1
    } else if n > 255 {
        255
    } else {
        n as u64
    }
}

/// Single-point crossover: cut both parents at one point inside their
/// overlap and swap the suffixes.
fn crossover(a: &Vec<u8>, b: &Vec<u8>, rng: &mut SolverRng) -> (r: (Vec<u8>, Vec<u8>))
    requires
        1 <= a@.len() <= 0xffff_ffff_ffff,
        1 <= b@.len() <= 0xffff_ffff_ffff,
    ensures
        r.0@.len() == b@.len(),
        r.1@.len() == a@.len(),
        r.0@ == spec_crossover(a@, b@, old(rng).state).0,
        r.1@ == spec_crossover(a@, b@, old(rng).state).1,
        final(rng).state == spec_crossover(a@, b@, old(rng).state).2,
{
    let overlap: usize = if a.len() < b.len() {
        a.len()
    } else {
        b.len()
    };
    let cut = (rng.below(overlap as u64 + 1)) as usize;
    let mut child1: Vec<u8> = Vec::new();
    let mut child2: Vec<u8> = Vec::new();
    let mut i: usize = 0;
    while i < cut
        invariant
            cut <= a@.len(),
            cut <= b@.len(),
            i <= cut,
            child1@ == a@.take(i as int),
            child2@ == b@.take(i as int),
        decreases cut - i,
    {
        child1.push(a[i]);
        child2.push(b[i]);
        proof {
            assert(child1@ =~= a@.take(i + 1 as int));
            assert(child2@ =~= b@.take(i + 1 as int));
        }
        i += 1;
    }
    let mut j: usize = cut;
    while j < b.len()
        invariant
            cut <= b@.len(),
            cut <= j <= b@.len(),
            child1@ == a@.take(cut as int) + b@.skip(cut as int).take(j - cut as int),
        decreases b@.len() - j,
    {
        child1.push(b[j]);
        proof {
            assert(child1@ =~= a@.take(cut as int) + b@.skip(cut as int).take(j - cut + 1 as int));
        }
        j += 1;
    }
    let mut k: usize = cut;
    while k < a.len()
        invariant
            cut <= a@.len(),
            cut <= k <= a@.len(),
            child2@ == b@.take(cut as int) + a@.skip(cut as int).take(k - cut as int),
        decreases a@.len() - k,
    {
        child2.push(a[k]);
        proof {
            assert(child2@ =~= b@.take(cut as int) + a@.skip(cut as int).take(k - cut + 1 as int));
        }
        k += 1;
    }
    proof {
        assert(b@.skip(cut as int).take(b@.len() - cut as int) =~= b@.skip(cut as int));
        assert(a@.skip(cut as int).take(a@.len() - cut as int) =~= a@.skip(cut as int));
        assert(child1@ =~= a@.take(cut as int) + b@.skip(cut as int));
        assert(child2@ =~= b@.take(cut as int) + a@.skip(cut as int));
    }
    (child1, child2)
}

/// Variable-length mutation: each gene, at a 30 percent rate, is preceded
/// by a fresh random gene (below 50 genes), deleted (above 1 gene), or
/// replaced by a fresh random value; fresh values may be the no-op 0.
#[verifier::rlimit(100)]
fn mutate_genome(g: &mut Vec<u8>, rng: &mut SolverRng, gene_max: u64)
    requires
        1 <= old(g)@.len(),
        old(g)@.len() <= 0xffff_ffff_ffff,
        1 <= gene_max <= 255,
    ensures
        1 <= final(g)@.len(),
        final(g)@.len() <= (if old(g)@.len() >= 50 {
            old(g)@.len() as int
        } else {
            50int
        }),
        final(g)@ == spec_mutate(old(g)@, 0, old(rng).state, gene_max).0,
        final(rng).state == spec_mutate(old(g)@, 0, old(rng).state, gene_max).1,
{
    let ghost cap: int = if old(g)@.len() >= 50 {
        old(g)@.len() as int
    } else {
        50int
    };
    let ghost g0 = old(g)@;
    let ghost s0 = old(rng).state;
    let mut i: usize = 0;
    while i < g.len()
        invariant
            1 <= g@.len() <= cap,
            50 <= cap <= 0xffff_ffff_ffff,
            1 <= gene_max <= 255,
            i <= g@.len() + 1,
            spec_mutate(g@, i as int, rng.state, gene_max) == spec_mutate(g0, 0, s0, gene_max),
        decreases g@.len() - i,
    {
        if rng.below(100) < 30 {
            let op = rng.below(3);
            if op == 0 {
                if g.len() < 50 {
                    let v = rng.below(gene_max + 1) as u8;
                    g.insert(i, v);
                    i += 2;
                } else {
                    i += 1;
                }
            } else if op == 1 {
                if g.len() > 1 {
                    g.remove(i);
                } else {
                    i += 1;
                }
            } else {
                let v = rng.below(gene_max + 1) as u8;
                g.set(i, v);
                i += 1;
            }
        } else {
            i += 1;
        }
    }
}

} // verus!

verus! {

/// The evolution driver: population, generation counter, and generator
/// state. Given the same seed and instance, every run produces the same
/// generation sequence.
pub struct CraftSimulator {
    pub generations: u32,
    pub synth: Synth,
    pub population: Vec<Vec<u8>>,
    pub rng: SolverRng,
}

impl CraftSimulator {
    /// The instance is well formed and every genome length is within the
    /// driver's bound.
    pub open spec fn wf(&self) -> bool {
        &&& self.synth.wf()
        &&& self.population@.len() <= 0x7fff_ffff
        &&& forall|k: int| 0 <= k < self.population@.len() ==> 1 <= (
        #[trigger] self.population@[k])@.len() <= spec_len_cap(self.synth)
    }

    /// Build a solver with the default seed.
    pub fn new(synth: Synth) -> (r: Self)
        requires
            synth.wf(),
        ensures
            r.wf(),
            r.generations == 0,
            r.synth == synth,
            genome_views(r.population@) == spec_init_population(
                0x9e3779b97f4a7c15,
                (if synth.solver_vars.population > 0 {
                    synth.solver_vars.population as nat
                } else {
                    0nat
                }),
                spec_init_len_max(synth),
                spec_gene_ceiling(synth),
            ).0,
            r.rng.state == spec_init_population(
                0x9e3779b97f4a7c15,
                (if synth.solver_vars.population > 0 {
                    synth.solver_vars.population as nat
                } else {
                    0nat
                }),
                spec_init_len_max(synth),
                spec_gene_ceiling(synth),
            ).1,
    {
        Self::new_with_seed(synth, 0x9e3779b97f4a7c15)
    }

    /// Build a solver from an explicit seed: the population is a function
    /// of the seed, lengths drawn in `1 ..= max(1, max_length)`, genes in
    /// `1 ..= gene ceiling`.
    pub fn new_with_seed(synth: Synth, seed: u64) -> (r: Self)
        requires
            synth.wf(),
        ensures
            r.wf(),
            r.generations == 0,
            r.synth == synth,
            r.population@.len() == (if synth.solver_vars.population > 0 {
                synth.solver_vars.population as int
            } else {
                0
            }),
            genome_views(r.population@) == spec_init_population(
                seed,
                (if synth.solver_vars.population > 0 {
                    synth.solver_vars.population as nat
                } else {
                    0nat
                }),
                spec_init_len_max(synth),
                spec_gene_ceiling(synth),
            ).0,
            r.rng.state == spec_init_population(
                seed,
                (if synth.solver_vars.population > 0 {
                    synth.solver_vars.population as nat
                } else {
                    0nat
                }),
                spec_init_len_max(synth),
                spec_gene_ceiling(synth),
            ).1,
            forall|k: int| 0 <= k < r.population@.len() ==> 1 <= (
            #[trigger] r.population@[k])@.len() <= spec_init_len_max(synth),
            forall|k: int, l: int| 0 <= k < r.population@.len() && 0 <= l < (
            #[trigger] r.population@[k])@.len() ==> 1 <= #[trigger] r.population@[k]@[l]
                <= spec_gene_ceiling(synth),
    {
        let mut rng = SolverRng::new(seed);
        let pop_size: usize = if synth.solver_vars.population > 0 {
            synth.solver_vars.population as usize
        } else {
            0
        };
        let gene_max: u64 = gene_ceiling(&synth);
        let len_max: u64 = if synth.max_length >= 1 {
            synth.max_length as u64
        } else {
            1
        };
        let mut population: Vec<Vec<u8>> = Vec::new();
        proof {
            assert(genome_views(population@) =~= Seq::<Seq<u8>>::empty());
        }
        while population.len() < pop_size
            invariant
                pop_size <= 0x7fff_ffff,
                1 <= len_max <= 0xffff_ffff,
                len_max <= spec_len_cap(synth),
                len_max == spec_init_len_max(synth),
                1 <= gene_max <= 255,
                gene_max == spec_gene_ceiling(synth),
                population@.len() <= pop_size,
                forall|k: int| 0 <= k < population@.len() ==> 1 <= (
                #[trigger] population@[k])@.len() <= len_max,
                forall|k: int, l: int| 0 <= k < population@.len() && 0 <= l < (
                #[trigger] population@[k])@.len() ==> 1 <= #[trigger] population@[k]@[l]
                    <= gene_max,
                genome_views(population@) == spec_init_population(
                    seed,
                    population@.len() as nat,
                    len_max,
                    gene_max,
                ).0,
                rng.state == spec_init_population(
                    seed,
                    population@.len() as nat,
                    len_max,
                    gene_max,
                ).1,
            decreases pop_size - population.len(),
        {
            let ghost pop0 = population@;
            let len: usize = (1 + rng.below(len_max)) as usize;
            let ghost s_base = rng.state;
            let mut g: Vec<u8> = Vec::new();
            proof {
                assert(spec_init_genes(s_base, gene_max, 0) == (g@, rng.state));
            }
            while g.len() < len
                invariant
                    1 <= gene_max <= 255,
                    len <= 0xffff_ffff,
                    g@.len() <= len,
                    forall|l: int| 0 <= l < g@.len() ==> 1 <= #[trigger] g@[l] <= gene_max,
                    spec_init_genes(s_base, gene_max, g@.len() as nat) == ((g@, rng.state)),
                decreases len - g.len(),
            {
                let ghost gprev = g@;
                let v = (1 + rng.below(gene_max)) as u8;
                g.push(v);
                proof {
                    assert(g@.drop_last() =~= gprev);
                }
            }
            population.push(g);
            proof {
                assert(population@.drop_last() =~= pop0);
                assert(genome_views(population@) =~= genome_views(pop0).push(
                    population@.last()@,
                ));
            }
        }
        CraftSimulator { generations: 0, synth, population, rng }
    }

    /// Advance one generation: score, select the best fraction, cross and
    /// mutate pairs, reinsert elitist, and report the best candidate. The
    /// whole step is the function `spec_generation` of the old population
    /// and generator state, so runs from equal states coincide; the best
    /// entry of the merged pool is decoded and reported. The step after the
    /// generation cap reports `Success`; an empty population or an empty
    /// action list reports `Error`.
    #[verifier::rlimit(100)]
    pub fn next_generation(&mut self) -> (r: SimStep)
        requires
            old(self).wf(),
        ensures
            final(self).wf(),
            final(self).synth == old(self).synth,
            final(self).generations as int == (if old(self).generations < u32::MAX {
                old(self).generations + 1
            } else {
                u32::MAX as int
            }),
            (r is Error) <==> (old(self).population@.len() == 0
                || old(self).synth.crafter.actions@.len() == 0),
            (r is Error) ==> *final(self) == (CraftSimulator {
                generations: final(self).generations,
                ..*old(self)
            }),
            !(r is Error) ==> final(self).population@.len() == old(self).population@.len(),
            !(r is Error) ==> ((r is Success) <==> final(self).generations as int > spec_cap(
                old(self).synth,
            )),
            !(r is Error) ==> ({
                let gen = spec_generation(
                    old(self).synth,
                    genome_views(old(self).population@),
                    old(self).rng.state,
                );
                let best = gen.2;
                let terminal = spec_final_state(old(self).synth, best.1);
                let decoded = spec_decode(old(self).synth.crafter.actions@, best.1);
                let reported = decoded.take(min_int(terminal.step, decoded.len() as int));
                &&& genome_views(final(self).population@) == gen.0
                &&& final(self).rng.state == gen.1
                &&& match r {
                    SimStep::Progress {
                        generations_completed,
                        max_generations,
                        best_sequence,
                        state,
                    } => {
                        &&& generations_completed == final(self).generations
                        &&& max_generations as int == spec_cap(old(self).synth)
                        &&& best_sequence@ == reported
                        &&& state == spec_status_of(terminal, old(self).synth)
                    },
                    SimStep::Success { best_sequence, execution_log, elapsed_time } => {
                        &&& best_sequence@ == reported
                        &&& execution_log@ == Seq::<char>::empty()
                        &&& elapsed_time is None
                    },
                    SimStep::Error(_) => false,
                }
            }),
    {
        if self.generations < u32::MAX {
            self.generations = self.generations + 1;
        }
        if self.population.len() == 0 {
            return SimStep::Error("the population is empty".to_owned());
        }
        if self.synth.crafter.actions.len() == 0 {
            return SimStep::Error("the crafter's action list is empty".to_owned());
        }
        let ghost cap_len: int = spec_len_cap(self.synth);
        let ghost gens_now: u32 = self.generations;
        let ghost pop0: Seq<Seq<u8>> = genome_views(old(self).population@);
        let ghost s_enter: u64 = self.rng.state;
        let ghost gen = spec_generation(old(self).synth, pop0, s_enter);
        proof {
            lemma_genome_views_index(old(self).population@);
        }

        // Score the current population.
        let mut scored: Vec<Scored> = Vec::new();
        let mut i: usize = 0;
        proof {
            assert(pool_view(scored@) =~= Seq::<ScoredView>::empty());
            assert(pop0.take(0) =~= Seq::<Seq<u8>>::empty());
        }
        while i < self.population.len()
            invariant
                self.synth == old(self).synth,
                self.population@ == old(self).population@,
                self.rng == old(self).rng,
                self.generations == gens_now,
                old(self).wf(),
                cap_len == spec_len_cap(self.synth),
                pop0.len() == self.population@.len(),
                forall|n: int| 0 <= n < pop0.len() ==> #[trigger] pop0[n]
                    == old(self).population@[n]@,
                i <= self.population@.len(),
                scored@.len() == i,
                pool_lens_ok(scored@, cap_len),
                pool_view(scored@) == spec_score(old(self).synth, pop0.take(i as int)),
            decreases self.population@.len() - i,
        {
            proof {
                assert(1 <= old(self).population@[i as int]@.len() <= spec_len_cap(old(self).synth));
            }
            let ghost scored0 = scored@;
            let g = clone_genome(&self.population[i]);
            let f = self.synth.fitness_of(&g);
            scored.push((f, g));
            proof {
                assert(scored@.drop_last() =~= scored0);
                assert(pop0.take(i + 1 as int).drop_last() =~= pop0.take(i as int));
                assert(pop0.take(i + 1 as int).last() == pop0[i as int]);
                assert(pool_view(scored@) == pool_view(scored0).push((f, pop0[i as int])));
            }
            i += 1;
        }
        proof {
            assert(pop0.take(i as int) =~= pop0);
        }
        let ghost scored_v = spec_score(old(self).synth, pop0);
        let sorted = sort_by_fitness(scored);
        let ghost sorted_v = spec_sort_pool(scored_v);
        proof {
            lemma_pool_lens_from_among(sorted@, scored@, cap_len);
            lemma_pool_view_index(sorted@);
        }

        // Select the best fraction as parents, pair them off, cross and
        // mutate.
        let num_parents: usize = ((sorted.len() as u64 * 85 + 50) / 100) as usize;
        proof {
            assert(num_parents <= sorted@.len());
        }
        let pairs_end: usize = if num_parents >= 1 {
            num_parents - 1
        } else {
            0
        };
        let gene_max: u64 = gene_ceiling(&self.synth);
        let ghost off_full = spec_offspring(
            old(self).synth,
            sorted_v,
            pairs_end as int,
            gene_max,
            0,
            s_enter,
        );
        let mut offspring: Vec<Scored> = Vec::new();
        let mut p: usize = 0;
        proof {
            assert(pool_view(offspring@) =~= Seq::<ScoredView>::empty());
            assert(Seq::<ScoredView>::empty() + off_full.0 =~= off_full.0);
        }
        while p < pairs_end
            invariant
                self.synth == old(self).synth,
                self.population@ == old(self).population@,
                self.generations == gens_now,
                old(self).wf(),
                cap_len == spec_len_cap(self.synth),
                cap_len >= 50,
                pairs_end < num_parents || pairs_end == 0,
                num_parents <= sorted@.len(),
                sorted@.len() <= 0x7fff_ffff,
                pool_lens_ok(sorted@, cap_len),
                pool_lens_ok(offspring@, cap_len),
                1 <= gene_max <= 255,
                p <= pairs_end + 1,
                offspring@.len() == p,
                sorted_v == pool_view(sorted@),
                sorted_v.len() == sorted@.len(),
                forall|n: int| 0 <= n < sorted@.len() ==> #[trigger] sorted_v[n] == ((
                    sorted@[n].0,
                    sorted@[n].1@,
                )),
                off_full == spec_offspring(
                    old(self).synth,
                    sorted_v,
                    pairs_end as int,
                    gene_max,
                    0,
                    s_enter,
                ),
                pool_view(offspring@) + spec_offspring(
                    old(self).synth,
                    sorted_v,
                    pairs_end as int,
                    gene_max,
                    p as int,
                    self.rng.state,
                ).0 == off_full.0,
                spec_offspring(
                    old(self).synth,
                    sorted_v,
                    pairs_end as int,
                    gene_max,
                    p as int,
                    self.rng.state,
                ).1 == off_full.1,
            decreases pairs_end + 1 - p,
        {
            let ghost s_p = self.rng.state;
            let ghost off0 = offspring@;
            let (mut c1, mut c2) = crossover(&sorted[p].1, &sorted[p + 1].1, &mut self.rng);
            let ghost c1x = c1@;
            let ghost c2x = c2@;
            let ghost s1 = self.rng.state;
            mutate_genome(&mut c1, &mut self.rng, gene_max);
            let ghost s2 = self.rng.state;
            mutate_genome(&mut c2, &mut self.rng, gene_max);
            let ghost s3 = self.rng.state;
            let f1 = self.synth.fitness_of(&c1);
            offspring.push((f1, c1));
            let ghost off1 = offspring@;
            let f2 = self.synth.fitness_of(&c2);
            offspring.push((f2, c2));
            proof {
                assert(off1.drop_last() =~= off0);
                assert(offspring@.drop_last() =~= off1);
                assert(sorted_v[p as int].1 == sorted@[p as int].1@);
                assert(sorted_v[p as int + 1].1 == sorted@[p as int + 1].1@);
                let cr = spec_crossover(sorted_v[p as int].1, sorted_v[p as int + 1].1, s_p);
                assert(c1x == cr.0 && c2x == cr.1 && s1 == cr.2);
                let m1 = spec_mutate(c1x, 0, s1, gene_max);
                let m2 = spec_mutate(c2x, 0, s2, gene_max);
                assert(off1.last().1@ == m1.0 && s2 == m1.1);
                assert(offspring@.last().1@ == m2.0 && s3 == m2.1);
                assert(f1 == crate::fitness::spec_fitness(old(self).synth, m1.0) as i64);
                assert(f2 == crate::fitness::spec_fitness(old(self).synth, m2.0) as i64);
                let step = spec_offspring(
                    old(self).synth,
                    sorted_v,
                    pairs_end as int,
                    gene_max,
                    p as int,
                    s_p,
                );
                let rest = spec_offspring(
                    old(self).synth,
                    sorted_v,
                    pairs_end as int,
                    gene_max,
                    p + 2 as int,
                    self.rng.state,
                );
                assert(pool_view(off1) == pool_view(off0).push((f1, m1.0)));
                assert(pool_view(offspring@) == pool_view(off1).push((f2, m2.0)));
                assert(step.0 == seq![(f1, m1.0), (f2, m2.0)] + rest.0);
                assert(pool_view(offspring@) + rest.0 =~= pool_view(off0) + step.0);
            }
            p += 2;
        }
        proof {
            assert(spec_offspring(
                old(self).synth,
                sorted_v,
                pairs_end as int,
                gene_max,
                p as int,
                self.rng.state,
            ).0 =~= Seq::<ScoredView>::empty());
            assert(pool_view(offspring@) + Seq::<ScoredView>::empty() =~= pool_view(offspring@));
        }
        let ghost s_off: u64 = self.rng.state;

        // Elitist reinsertion: merge the offspring with the old population
        // and keep the best.
        let offspring_sorted = sort_by_fitness(offspring);
        let all = merge_sorted(&offspring_sorted, &sorted);
        let ghost all_v = spec_merge_pools(spec_sort_pool(off_full.0), sorted_v);
        proof {
            lemma_pool_lens_from_among(offspring_sorted@, offspring@, cap_len);
            assert forall|n: int| 0 <= n < all@.len() implies 1 <= (#[trigger] all@[n]).1@.len()
                <= cap_len by {
                if in_pool(all@[n].0, all@[n].1@, offspring_sorted@) {
                    let j = choose|j: int| 0 <= j < offspring_sorted@.len() && (
                    #[trigger] offspring_sorted@[j]).0 == all@[n].0 && offspring_sorted@[j].1@
                        == all@[n].1@;
                } else {
                    let j = choose|j: int| 0 <= j < sorted@.len() && (#[trigger] sorted@[j]).0
                        == all@[n].0 && sorted@[j].1@ == all@[n].1@;
                }
            }
            assert(pool_view(all@) == all_v);
            lemma_pool_view_index(all@);
        }
        let keep: usize = self.population.len();
        let mut new_population: Vec<Vec<u8>> = Vec::new();
        let mut k: usize = 0;
        proof {
            assert(genome_views(new_population@) =~= Seq::<Seq<u8>>::empty());
            assert(all_v.take(0) =~= Seq::<ScoredView>::empty());
        }
        while k < keep
            invariant
                keep <= all@.len(),
                pool_lens_ok(all@, cap_len),
                cap_len == spec_len_cap(self.synth),
                self.synth == old(self).synth,
                k <= keep,
                new_population@.len() == k,
                forall|k2: int| 0 <= k2 < new_population@.len() ==> 1 <= (
                #[trigger] new_population@[k2])@.len() <= cap_len,
                all_v == pool_view(all@),
                all_v.len() == all@.len(),
                forall|n: int| 0 <= n < all@.len() ==> #[trigger] all_v[n] == ((
                    all@[n].0,
                    all@[n].1@,
                )),
                genome_views(new_population@) == spec_pool_genomes(all_v.take(k as int)),
            decreases keep - k,
        {
            let ghost np0 = new_population@;
            let g = clone_genome(&all[k].1);
            new_population.push(g);
            proof {
                assert(new_population@.drop_last() =~= np0);
                assert(all_v.take(k + 1 as int).drop_last() =~= all_v.take(k as int));
                assert(all_v.take(k + 1 as int).last() == all_v[k as int]);
                assert(genome_views(new_population@) == genome_views(np0).push(all@[k as int].1@));
            }
            k += 1;
        }
        self.population = new_population;

        // Report the best candidate so far.
        let best = clone_genome(&all[0].1);
        proof {
            assert(best@ == all_v[0].1);
            assert(gen.0 == spec_pool_genomes(all_v.take(pop0.len() as int)));
            assert(gen.1 == off_full.1);
            assert(gen.2 == all_v[0]);
        }
        let (state, best_sequence) = get_final_actions_list(&best, &self.synth);
        let max_generations: u32 = if self.synth.solver_vars.generations > 0 {
            self.synth.solver_vars.generations as u32
        } else {
            0
        };
        if self.generations > max_generations {
            SimStep::Success { best_sequence, execution_log: String::new(), elapsed_time: None }
        } else {
            let status = StatusState::from_state(&state, &self.synth);
            SimStep::Progress {
                generations_completed: self.generations,
                max_generations,
                best_sequence,
                state: status,
            }
        }
    }

    /// Advance one generation but convert an intermediate report into a
    /// terminal one carrying the same best sequence, so the host can stop
    /// the solver.
    pub fn pause(&mut self) -> (r: SimStep)
        requires
            old(self).wf(),
        ensures
            final(self).wf(),
            final(self).synth == old(self).synth,
            final(self).generations as int == (if old(self).generations < u32::MAX {
                old(self).generations + 1
            } else {
                u32::MAX as int
            }),
            !(r is Progress),
            (r is Error) <==> (old(self).population@.len() == 0
                || old(self).synth.crafter.actions@.len() == 0),
            !(r is Error) ==> ({
                let gen = spec_generation(
                    old(self).synth,
                    genome_views(old(self).population@),
                    old(self).rng.state,
                );
                let best = gen.2;
                let terminal = spec_final_state(old(self).synth, best.1);
                let decoded = spec_decode(old(self).synth.crafter.actions@, best.1);
                &&& genome_views(final(self).population@) == gen.0
                &&& final(self).rng.state == gen.1
                &&& match r {
                    SimStep::Success { best_sequence, execution_log, elapsed_time } => {
                        &&& best_sequence@ == decoded.take(
                            min_int(terminal.step, decoded.len() as int),
                        )
                        &&& execution_log@ == Seq::<char>::empty()
                        &&& elapsed_time is None
                    },
                    _ => false,
                }
            }),
    {
        let step = self.next_generation();
        match step {
            SimStep::Progress { best_sequence, .. } => SimStep::Success {
                best_sequence,
                execution_log: String::new(),
                elapsed_time: None,
            },
            other => other,
        }
    }
}

/// Length bounds survive rearrangement.
proof fn lemma_pool_lens_from_among(r: Seq<Scored>, v: Seq<Scored>, cap: int)
    requires
        from_among(r, v),
        pool_lens_ok(v, cap),
    ensures
        pool_lens_ok(r, cap),
{
    assert forall|k: int| 0 <= k < r.len() implies 1 <= (#[trigger] r[k]).1@.len() <= cap by {
        let j = choose|j: int| 0 <= j < v.len() && (#[trigger] v[j]).0 == r[k].0 && v[j].1@
            == r[k].1@;
    }
}

} // verus!

verus! {

// ---------------------------------------------------------------------------
// The generation step as a mathematical function
// ---------------------------------------------------------------------------
// Everything the driver does in one generation is mirrored below as spec
// functions over plain sequences, so `next_generation` can promise its
// whole result — and with it, that two runs from the same seed coincide.
/// A scored genome at the specification level.
pub type ScoredView = (i64, Seq<u8>);

/// The views of a pool of scored genomes.
pub open spec fn pool_view(v: Seq<Scored>) -> Seq<ScoredView>
    decreases v.len(),
{
    if v.len() == 0 {
        Seq::<ScoredView>::empty()
    } else {
        pool_view(v.drop_last()).push((v.last().0, v.last().1@))
    }
}

/// The views of a population of genomes.
pub open spec fn genome_views(p: Seq<Vec<u8>>) -> Seq<Seq<u8>>
    decreases p.len(),
{
    if p.len() == 0 {
        Seq::<Seq<u8>>::empty()
    } else {
        genome_views(p.drop_last()).push(p.last()@)
    }
}

pub proof fn lemma_pool_view_index(v: Seq<Scored>)
    ensures
        pool_view(v).len() == v.len(),
        forall|i: int| 0 <= i < v.len() ==> #[trigger] pool_view(v)[i] == ((v[i].0, v[i].1@)),
    decreases v.len(),
{
    if v.len() > 0 {
        lemma_pool_view_index(v.drop_last());
    }
}

pub proof fn lemma_genome_views_index(p: Seq<Vec<u8>>)
    ensures
        genome_views(p).len() == p.len(),
        forall|i: int| 0 <= i < p.len() ==> #[trigger] genome_views(p)[i] == p[i]@,
    decreases p.len(),
{
    if p.len() > 0 {
        lemma_genome_views_index(p.drop_last());
    }
}

/// Merge two fitness-sorted pools, greater fitness first, stable for equal
/// fitness (the left pool wins ties).
pub open spec fn spec_merge_pools(a: Seq<ScoredView>, b: Seq<ScoredView>) -> Seq<ScoredView>
    decreases a.len() + b.len(),
{
    if a.len() == 0 {
        b
    } else if b.len() == 0 {
        a
    } else if a[0].0 >= b[0].0 {
        seq![a[0]] + spec_merge_pools(a.drop_first(), b)
    } else {
        seq![b[0]] + spec_merge_pools(a, b.drop_first())
    }
}

/// Sort a pool by fitness, greater first, by halving and merging.
pub open spec fn spec_sort_pool(v: Seq<ScoredView>) -> Seq<ScoredView>
    decreases v.len(),
{
    if v.len() <= 1 {
        v
    } else {
        spec_merge_pools(
            spec_sort_pool(v.take(v.len() as int / 2)),
            spec_sort_pool(v.skip(v.len() as int / 2)),
        )
    }
}

} // verus!

verus! {

/// The gene ceiling as a function of the instance.
pub open spec fn spec_gene_ceiling(synth: Synth) -> u64 {
    let n = synth.crafter.actions@.len();
    if n == 0 {
        1
    } else if n > 255 {
        255
    } else {
        n as u64
    }
}

/// Single-point crossover as a function of the parents and the generator
/// state: cut inside the overlap, swap the suffixes.
pub open spec fn spec_crossover(av: Seq<u8>, bv: Seq<u8>, s: u64) -> (Seq<u8>, Seq<u8>, u64) {
    let overlap = min_int(av.len() as int, bv.len() as int);
    let s1 = spec_rng_next(s);
    let cut = (s1 % ((overlap + 1) as u64)) as int;
    (av.take(cut) + bv.skip(cut), bv.take(cut) + av.skip(cut), s1)
}

/// Variable-length mutation as a function of the genome and the generator
/// state, one position at a time: at a 30 percent rate, insert a fresh
/// gene (below 50 genes), delete (above 1 gene), or replace.
pub open spec fn spec_mutate(g: Seq<u8>, i: int, s: u64, gene_max: u64) -> (Seq<u8>, u64)
    decreases (if i >= g.len() {
        0int
    } else {
        g.len() - i
    }),
{
    if i >= g.len() || i < 0 {
        (g, s)
    } else {
        let s1 = spec_rng_next(s);
        if s1 % 100 < 30 {
            let s2 = spec_rng_next(s1);
            let op = s2 % 3;
            if op == 0 {
                if g.len() < 50 {
                    let s3 = spec_rng_next(s2);
                    let v = (s3 % (gene_max + 1) as u64) as u8;
                    spec_mutate(g.insert(i, v), i + 2, s3, gene_max)
                } else {
                    spec_mutate(g, i + 1, s2, gene_max)
                }
            } else if op == 1 {
                if g.len() > 1 {
                    spec_mutate(g.remove(i), i, s2, gene_max)
                } else {
                    spec_mutate(g, i + 1, s2, gene_max)
                }
            } else {
                let s3 = spec_rng_next(s2);
                let v = (s3 % (gene_max + 1) as u64) as u8;
                spec_mutate(g.update(i, v), i + 1, s3, gene_max)
            }
        } else {
            spec_mutate(g, i + 1, s1, gene_max)
        }
    }
}

} // verus!

verus! {

/// Score a population: each genome with its fitness, in order.
pub open spec fn spec_score(synth: Synth, pop: Seq<Seq<u8>>) -> Seq<ScoredView>
    decreases pop.len(),
{
    if pop.len() == 0 {
        Seq::<ScoredView>::empty()
    } else {
        spec_score(synth, pop.drop_last()).push(
            (crate::fitness::spec_fitness(synth, pop.last()) as i64, pop.last()),
        )
    }
}

/// The genomes of a pool, scores dropped.
pub open spec fn spec_pool_genomes(pool: Seq<ScoredView>) -> Seq<Seq<u8>>
    decreases pool.len(),
{
    if pool.len() == 0 {
        Seq::<Seq<u8>>::empty()
    } else {
        spec_pool_genomes(pool.drop_last()).push(pool.last().1)
    }
}

/// The offspring pool: the sorted parents are paired off in order; each
/// pair is crossed at one point and both children mutated and scored.
pub open spec fn spec_offspring(
    synth: Synth,
    sorted: Seq<ScoredView>,
    pairs_end: int,
    gene_max: u64,
    p: int,
    s: u64,
) -> (Seq<ScoredView>, u64)
    decreases (if p >= pairs_end {
        0int
    } else {
        pairs_end - p
    }),
{
    if p >= pairs_end {
        (Seq::<ScoredView>::empty(), s)
    } else {
        let (c1x, c2x, s1) = spec_crossover(sorted[p].1, sorted[p + 1].1, s);
        let (c1, s2) = spec_mutate(c1x, 0, s1, gene_max);
        let (c2, s3) = spec_mutate(c2x, 0, s2, gene_max);
        let f1 = crate::fitness::spec_fitness(synth, c1) as i64;
        let f2 = crate::fitness::spec_fitness(synth, c2) as i64;
        let (rest, sfin) = spec_offspring(synth, sorted, pairs_end, gene_max, p + 2, s3);
        (seq![(f1, c1), (f2, c2)] + rest, sfin)
    }
}

/// The generation cap, with non-positive settings read as zero.
pub open spec fn spec_cap(synth: Synth) -> int {
    if synth.solver_vars.generations > 0 {
        synth.solver_vars.generations as int
    } else {
        0
    }
}

/// One whole generation as a function of the instance, the population and
/// the generator state: score, sort, pair off the best 85 percent, cross
/// and mutate, merge offspring and old population, keep the best
/// population-many, and report the pool's best entry.
pub open spec fn spec_generation(synth: Synth, pop: Seq<Seq<u8>>, s: u64) -> (
    Seq<Seq<u8>>,
    u64,
    ScoredView,
) {
    let sorted = spec_sort_pool(spec_score(synth, pop));
    let num_parents = (pop.len() * 85 + 50) as int / 100;
    let pairs_end = if num_parents >= 1 {
        num_parents - 1
    } else {
        0
    };
    let (off, s1) = spec_offspring(synth, sorted, pairs_end, spec_gene_ceiling(synth), 0, s);
    let all = spec_merge_pools(spec_sort_pool(off), sorted);
    (spec_pool_genomes(all.take(pop.len() as int)), s1, all[0])
}

/// The snapshot a state model reports.
pub open spec fn spec_status_of(m: crate::model::StateModel, synth: Synth) -> StatusState {
    let v = spec_violations(m, synth);
    StatusState {
        quality: m.quality_state as i64,
        durability: m.durability_state as i64,
        cp: m.cp_state as i64,
        progress: m.progress_state as i64,
        feasible: v.durability_ok && v.cp_ok && v.reliability_ok && v.trick_ok && v.progress_ok,
        violations: v,
        condition: m.condition,
        bonus_max_cp: m.bonus_max_cp as i64,
    }
}

/// The initial genes of one genome, drawn most recent last.
pub open spec fn spec_init_genes(s: u64, gene_max: u64, k: nat) -> (Seq<u8>, u64)
    decreases k,
{
    if k == 0 {
        (Seq::<u8>::empty(), s)
    } else {
        let (prefix, s1) = spec_init_genes(s, gene_max, (k - 1) as nat);
        let s2 = spec_rng_next(s1);
        let v = ((1 + s2 % gene_max) as u8);
        (prefix.push(v), s2)
    }
}

/// The initial population as a function of the seed: for each genome a
/// length draw in `1 ..= len_max`, then that many gene draws in
/// `1 ..= gene_max`.
pub open spec fn spec_init_population(s: u64, count: nat, len_max: u64, gene_max: u64) -> (
    Seq<Seq<u8>>,
    u64,
)
    decreases count,
{
    if count == 0 {
        (Seq::<Seq<u8>>::empty(), s)
    } else {
        let (prefix, s1) = spec_init_population(s, (count - 1) as nat, len_max, gene_max);
        let s2 = spec_rng_next(s1);
        let len = 1 + s2 % len_max;
        let (g, s3) = spec_init_genes(s2, gene_max, len as nat);
        (prefix.push(g), s3)
    }
}

} // verus!

verus! {

/// The upper bound of the initial genome length draw.
pub open spec fn spec_init_len_max(synth: Synth) -> u64 {
    if synth.max_length >= 1 {
        synth.max_length as u64
    } else {
        1
    }
}

} // verus!

verus! {

/// Fitness values are non-increasing along the pool.
pub open spec fn sorted_desc_view(s: Seq<ScoredView>) -> bool {
    forall|i: int, j: int| 0 <= i < j < s.len() ==> (#[trigger] s[i]).0 >= (#[trigger] s[j]).0
}

/// `x` is an entry of the pool `v`.
pub open spec fn entry_in(x: ScoredView, v: Seq<ScoredView>) -> bool {
    exists|i: int| 0 <= i < v.len() && x == v[i]
}

/// Merging keeps pools sorted, and every entry of the result is an entry
/// of one of the inputs.
pub proof fn lemma_spec_merge_sorted(a: Seq<ScoredView>, b: Seq<ScoredView>)
    requires
        sorted_desc_view(a),
        sorted_desc_view(b),
    ensures
        spec_merge_pools(a, b).len() == a.len() + b.len(),
        sorted_desc_view(spec_merge_pools(a, b)),
        forall|k: int| 0 <= k < spec_merge_pools(a, b).len() ==> entry_in(
            #[trigger] spec_merge_pools(a, b)[k],
            a,
        ) || entry_in(spec_merge_pools(a, b)[k], b),
    decreases a.len() + b.len(),
{
    let t = spec_merge_pools(a, b);
    if a.len() == 0 {
        assert forall|k: int| 0 <= k < t.len() implies entry_in(#[trigger] t[k], a) || entry_in(
            t[k],
            b,
        ) by {
            assert(t[k] == b[k]);
        }
    } else if b.len() == 0 {
        assert forall|k: int| 0 <= k < t.len() implies entry_in(#[trigger] t[k], a) || entry_in(
            t[k],
            b,
        ) by {
            assert(t[k] == a[k]);
        }
    } else {
        let take_a = a[0].0 >= b[0].0;
        let head = if take_a {
            a[0]
        } else {
            b[0]
        };
        let ra = if take_a {
            a.drop_first()
        } else {
            a
        };
        let rb = if take_a {
            b
        } else {
            b.drop_first()
        };
        assert(sorted_desc_view(a.drop_first()) && sorted_desc_view(b.drop_first())) by {
            assert forall|i: int, j: int| 0 <= i < j < a.drop_first().len() implies (
            #[trigger] a.drop_first()[i]).0 >= (#[trigger] a.drop_first()[j]).0 by {
                assert(a.drop_first()[i] == a[i + 1] && a.drop_first()[j] == a[j + 1]);
            }
            assert forall|i: int, j: int| 0 <= i < j < b.drop_first().len() implies (
            #[trigger] b.drop_first()[i]).0 >= (#[trigger] b.drop_first()[j]).0 by {
                assert(b.drop_first()[i] == b[i + 1] && b.drop_first()[j] == b[j + 1]);
            }
        }
        lemma_spec_merge_sorted(ra, rb);
        let rec = spec_merge_pools(ra, rb);
        assert(t == seq![head] + rec);
        assert forall|k: int| 0 <= k < t.len() implies entry_in(#[trigger] t[k], a) || entry_in(
            t[k],
            b,
        ) by {
            if k == 0 {
                assert(t[0] == head);
                if take_a {
                    assert(t[0] == a[0]);
                } else {
                    assert(t[0] == b[0]);
                }
            } else {
                assert(t[k] == rec[k - 1]);
                if entry_in(rec[k - 1], ra) {
                    let i = choose|i: int| 0 <= i < ra.len() && rec[k - 1] == ra[i];
                    if take_a {
                        assert(ra[i] == a[i + 1]);
                        assert(t[k] == a[i + 1]);
                    }
                } else {
                    let i = choose|i: int| 0 <= i < rb.len() && rec[k - 1] == rb[i];
                    if !take_a {
                        assert(rb[i] == b[i + 1]);
                        assert(t[k] == b[i + 1]);
                    }
                }
            }
        }
        // Every tail entry is bounded by the chosen head.
        assert forall|i: int, j: int| 0 <= i < j < t.len() implies (#[trigger] t[i]).0 >= (
        #[trigger] t[j]).0 by {
            if i == 0 {
                assert(t[j] == rec[j - 1]);
                if entry_in(rec[j - 1], ra) {
                    let n = choose|n: int| 0 <= n < ra.len() && rec[j - 1] == ra[n];
                    if take_a {
                        assert(ra[n] == a[n + 1]);
                        assert(head.0 >= a[n + 1].0);
                    } else {
                        assert(head.0 > a[0].0 && a[0].0 >= a[n].0);
                    }
                } else {
                    let n = choose|n: int| 0 <= n < rb.len() && rec[j - 1] == rb[n];
                    if take_a {
                        assert(head.0 >= b[0].0 && b[0].0 >= b[n].0);
                    } else {
                        assert(rb[n] == b[n + 1]);
                        assert(head.0 >= b[n + 1].0);
                    }
                }
            } else {
                assert(t[i] == rec[i - 1] && t[j] == rec[j - 1]);
            }
        }
    }
}

/// Every entry of either input appears in the merged pool.
pub proof fn lemma_spec_merge_contains(a: Seq<ScoredView>, b: Seq<ScoredView>)
    ensures
        forall|i: int| 0 <= i < a.len() ==> entry_in(#[trigger] a[i], spec_merge_pools(a, b)),
        forall|i: int| 0 <= i < b.len() ==> entry_in(#[trigger] b[i], spec_merge_pools(a, b)),
    decreases a.len() + b.len(),
{
    let t = spec_merge_pools(a, b);
    if a.len() == 0 {
        assert forall|i: int| 0 <= i < b.len() implies entry_in(#[trigger] b[i], t) by {
            assert(b[i] == t[i]);
        }
    } else if b.len() == 0 {
        assert forall|i: int| 0 <= i < a.len() implies entry_in(#[trigger] a[i], t) by {
            assert(a[i] == t[i]);
        }
    } else if a[0].0 >= b[0].0 {
        lemma_spec_merge_contains(a.drop_first(), b);
        let rec = spec_merge_pools(a.drop_first(), b);
        assert forall|i: int| 0 <= i < a.len() implies entry_in(#[trigger] a[i], t) by {
            if i == 0 {
                assert(a[0] == t[0]);
            } else {
                assert(a.drop_first()[i - 1] == a[i]);
                assert(entry_in(a.drop_first()[i - 1], rec));
                let k = choose|k: int| 0 <= k < rec.len() && a.drop_first()[i - 1] == rec[k];
                assert(a[i] == t[k + 1]);
            }
        }
        assert forall|i: int| 0 <= i < b.len() implies entry_in(#[trigger] b[i], t) by {
            let k = choose|k: int| 0 <= k < rec.len() && b[i] == rec[k];
            assert(b[i] == t[k + 1]);
        }
    } else {
        lemma_spec_merge_contains(a, b.drop_first());
        let rec = spec_merge_pools(a, b.drop_first());
        assert forall|i: int| 0 <= i < b.len() implies entry_in(#[trigger] b[i], t) by {
            if i == 0 {
                assert(b[0] == t[0]);
            } else {
                assert(b.drop_first()[i - 1] == b[i]);
                assert(entry_in(b.drop_first()[i - 1], rec));
                let k = choose|k: int| 0 <= k < rec.len() && b.drop_first()[i - 1] == rec[k];
                assert(b[i] == t[k + 1]);
            }
        }
        assert forall|i: int| 0 <= i < a.len() implies entry_in(#[trigger] a[i], t) by {
            let k = choose|k: int| 0 <= k < rec.len() && a[i] == rec[k];
            assert(a[i] == t[k + 1]);
        }
    }
}

/// Sorting sorts, keeps the length, and keeps every entry.
pub proof fn lemma_spec_sort_sorted(v: Seq<ScoredView>)
    ensures
        spec_sort_pool(v).len() == v.len(),
        sorted_desc_view(spec_sort_pool(v)),
        forall|i: int| 0 <= i < v.len() ==> entry_in(#[trigger] v[i], spec_sort_pool(v)),
    decreases v.len(),
{
    let t = spec_sort_pool(v);
    if v.len() <= 1 {
        assert forall|i: int| 0 <= i < v.len() implies entry_in(#[trigger] v[i], t) by {
            assert(v[i] == t[i]);
        }
    } else {
        let mid = v.len() as int / 2;
        let left = v.take(mid);
        let right = v.skip(mid);
        lemma_spec_sort_sorted(left);
        lemma_spec_sort_sorted(right);
        lemma_spec_merge_sorted(spec_sort_pool(left), spec_sort_pool(right));
        lemma_spec_merge_contains(spec_sort_pool(left), spec_sort_pool(right));
        assert forall|i: int| 0 <= i < v.len() implies entry_in(#[trigger] v[i], t) by {
            if i < mid {
                assert(left[i] == v[i]);
                assert(entry_in(left[i], spec_sort_pool(left)));
                let k1 = choose|k1: int|
                    0 <= k1 < spec_sort_pool(left).len() && left[i] == spec_sort_pool(left)[k1];
                assert(entry_in(spec_sort_pool(left)[k1], t));
            } else {
                assert(right[i - mid] == v[i]);
                assert(entry_in(right[i - mid], spec_sort_pool(right)));
                let k1 = choose|k1: int|
                    0 <= k1 < spec_sort_pool(right).len() && right[i - mid] == spec_sort_pool(
                        right,
                    )[k1];
                assert(entry_in(spec_sort_pool(right)[k1], t));
            }
        }
    }
}

/// Scored pools read back their population entry by entry.
pub proof fn lemma_spec_score_index(synth: Synth, pop: Seq<Seq<u8>>)
    ensures
        spec_score(synth, pop).len() == pop.len(),
        forall|i: int| 0 <= i < pop.len() ==> #[trigger] spec_score(synth, pop)[i] == ((
            crate::fitness::spec_fitness(synth, pop[i]) as i64,
            pop[i],
        )),
    decreases pop.len(),
{
    if pop.len() > 0 {
        lemma_spec_score_index(synth, pop.drop_last());
    }
}

/// The generation's report is a best entry of the merged pool of old
/// population and offspring: its fitness is at least that of every pool
/// entry — in particular at least the fitness of every genome of the old
/// population — and the new population is the pool's first
/// population-many entries in fitness order.
pub proof fn lemma_generation_reports_best(synth: Synth, pop: Seq<Seq<u8>>, s: u64)
    requires
        pop.len() >= 1,
    ensures
        ({
            let sorted = spec_sort_pool(spec_score(synth, pop));
            let num_parents = (pop.len() * 85 + 50) as int / 100;
            let pairs_end = if num_parents >= 1 {
                num_parents - 1
            } else {
                0
            };
            let off = spec_offspring(synth, sorted, pairs_end, spec_gene_ceiling(synth), 0, s).0;
            let all = spec_merge_pools(spec_sort_pool(off), sorted);
            &&& spec_generation(synth, pop, s).2 == all[0]
            &&& spec_generation(synth, pop, s).0 == spec_pool_genomes(all.take(pop.len() as int))
            &&& sorted_desc_view(all)
            &&& forall|k: int| 0 <= k < all.len() ==> spec_generation(synth, pop, s).2.0 >= (
            #[trigger] all[k]).0
            &&& forall|i: int| 0 <= i < pop.len() ==> spec_generation(synth, pop, s).2.0
                >= crate::fitness::spec_fitness(synth, #[trigger] pop[i]) as i64
        }),
{
    let scored = spec_score(synth, pop);
    let sorted = spec_sort_pool(scored);
    let num_parents = (pop.len() * 85 + 50) as int / 100;
    let pairs_end = if num_parents >= 1 {
        num_parents - 1
    } else {
        0
    };
    let off = spec_offspring(synth, sorted, pairs_end, spec_gene_ceiling(synth), 0, s).0;
    let all = spec_merge_pools(spec_sort_pool(off), sorted);
    lemma_spec_score_index(synth, pop);
    lemma_spec_sort_sorted(scored);
    lemma_spec_sort_sorted(off);
    lemma_spec_merge_sorted(spec_sort_pool(off), sorted);
    lemma_spec_merge_contains(spec_sort_pool(off), sorted);
    assert forall|i: int| 0 <= i < pop.len() implies spec_generation(synth, pop, s).2.0
        >= crate::fitness::spec_fitness(synth, #[trigger] pop[i]) as i64 by {
        assert(scored[i] == (crate::fitness::spec_fitness(synth, pop[i]) as i64, pop[i]));
        assert(entry_in(scored[i], sorted));
        let k1 = choose|k1: int| 0 <= k1 < sorted.len() && scored[i] == sorted[k1];
        assert(entry_in(sorted[k1], all));
        let k2 = choose|k2: int| 0 <= k2 < all.len() && sorted[k1] == all[k2];
        if k2 > 0 {
            assert(all[0].0 >= all[k2].0);
        }
    }
}

} // verus!
