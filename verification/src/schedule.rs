//! The scheduler of a tick: the particles are cut into one run for each
//! worker, the runs are moved side by side, and the results are put together
//! in order.
use vstd::prelude::*;
use rayon::iter::{IntoParallelRefIterator, ParallelIterator};
use crate::force::kinds_known;
use crate::kinds::ParticleKinds;
use crate::params::WorldParameters;
use crate::particle::Particle;
use crate::tick::{advance_range, moved, moved_range, Moved};

verus! {

/// One run of particles: from the first index up to but not including the
/// second.
pub type Chunk = (usize, usize);

/// Where the run of worker `w` begins when `n` particles are shared among
/// `workers`: every run but the last holds `n / workers` particles.
pub open spec fn chunk_start(n: int, workers: int, w: int) -> int {
    w * (n / workers)
}

/// Where the run of worker `w` ends. The last run takes what the division
/// left over.
pub open spec fn chunk_end(n: int, workers: int, w: int) -> int {
    if w == workers - 1 {
        n
    } else {
        (w + 1) * (n / workers)
    }
}

/// The runs of `workers` workers follow one another from zero to `n`
/// without a gap.
pub proof fn lemma_chunks_partition(n: int, workers: int, w: int)
    requires
        0 <= n,
        0 < workers,
        0 <= w < workers,
    ensures
        0 <= chunk_start(n, workers, w) <= chunk_end(n, workers, w) <= n,
        chunk_start(n, workers, 0) == 0,
        chunk_end(n, workers, workers - 1) == n,
        w + 1 < workers ==> chunk_end(n, workers, w) == chunk_start(n, workers, w + 1),
{
    let c = n / workers;
    assert(0 <= c && workers * c <= n) by (nonlinear_arith)
        requires
            c == n / workers,
            0 <= n,
            0 < workers,
    ;
    assert(0 <= w * c <= (w + 1) * c <= workers * c) by (nonlinear_arith)
        requires
            0 <= c,
            0 <= w < workers,
    ;
}

/// The results of the first `upto` runs, one after the other.
pub open spec fn moved_by_chunks(
    parts: Seq<Particle>,
    kinds: &ParticleKinds,
    params: &WorldParameters,
    workers: int,
    upto: int,
) -> Seq<Moved>
    decreases upto,
{
    if upto <= 0 {
        Seq::empty()
    } else {
        moved_by_chunks(parts, kinds, params, workers, upto - 1) + moved_range(
            parts,
            kinds,
            params,
            chunk_start(parts.len() as int, workers, upto - 1),
            chunk_end(parts.len() as int, workers, upto - 1),
        )
    }
}

/// The results of the first `upto` runs are the results of the particles
/// before the end of the last of them.
pub proof fn lemma_chunks_make_prefix(
    parts: Seq<Particle>,
    kinds: &ParticleKinds,
    params: &WorldParameters,
    workers: int,
    upto: int,
)
    requires
        0 < workers,
        0 < upto <= workers,
    ensures
        moved_by_chunks(parts, kinds, params, workers, upto) == moved_range(
            parts,
            kinds,
            params,
            0,
            chunk_end(parts.len() as int, workers, upto - 1),
        ),
    decreases upto,
{
    let n = parts.len() as int;
    lemma_chunks_partition(n, workers, upto - 1);
    if upto > 1 {
        lemma_chunks_make_prefix(parts, kinds, params, workers, upto - 1);
        lemma_chunks_partition(n, workers, upto - 2);
    } else {
        assert(moved_by_chunks(parts, kinds, params, workers, 0) == Seq::<Moved>::empty());
    }
    assert(moved_by_chunks(parts, kinds, params, workers, upto) =~= moved_range(
        parts,
        kinds,
        params,
        0,
        chunk_end(n, workers, upto - 1),
    ));
}

/// A tick does not depend on the number of workers: however many runs the
/// particles are cut into, the results put together are those of moving
/// every particle of the world in order.
pub proof fn lemma_partition_invariant(
    parts: Seq<Particle>,
    kinds: &ParticleKinds,
    params: &WorldParameters,
    workers: int,
    others: int,
)
    requires
        0 < workers,
        0 < others,
    ensures
        moved_by_chunks(parts, kinds, params, workers, workers) == moved_range(
            parts,
            kinds,
            params,
            0,
            parts.len() as int,
        ),
        moved_by_chunks(parts, kinds, params, workers, workers) == moved_by_chunks(
            parts,
            kinds,
            params,
            others,
            others,
        ),
{
    lemma_chunks_make_prefix(parts, kinds, params, workers, workers);
    lemma_chunks_make_prefix(parts, kinds, params, others, others);
}

/// `chunks` are the runs of as many workers as it has entries, over `n`
/// particles.
pub open spec fn is_plan(chunks: Seq<Chunk>, n: int) -> bool {
    forall|w: int|
        0 <= w < chunks.len() ==> (#[trigger] chunks[w]).0 == chunk_start(
            n,
            chunks.len() as int,
            w,
        ) && chunks[w].1 == chunk_end(n, chunks.len() as int, w)
}

/// Cuts `n` particles into one run for each of `workers` workers.
pub fn plan(n: usize, workers: usize) -> (chunks: Vec<Chunk>)
    requires
        0 < workers,
    ensures
        chunks@.len() == workers,
        is_plan(chunks@, n as int),
{
    let size: usize = n / workers;
    let mut chunks: Vec<Chunk> = Vec::new();
    let mut w: usize = 0;
    while w < workers
        invariant
            0 < workers,
            w <= workers,
            size == n / workers,
            chunks@.len() == w,
            forall|v: int|
                0 <= v < w ==> (#[trigger] chunks@[v]).0 == chunk_start(
                    n as int,
                    workers as int,
                    v,
                ) && chunks@[v].1 == chunk_end(n as int, workers as int, v),
        decreases workers - w,
    {
        proof {
            lemma_chunks_partition(n as int, workers as int, w as int);
        }
        let start: usize = w * size;
        assert(start + size == (w + 1) * size) by (nonlinear_arith)
            requires
                start == w * size,
        ;
        let end: usize = if w == workers - 1 {
            n
        } else {
            start + size
        };
        chunks.push((start, end));
        w += 1;
    }
    chunks
}

/// `num_cpus::get()`: how many processors this machine offers. Nothing is
/// claimed of the number.
#[verifier::external_body]
fn processors() -> usize {
    num_cpus::get()
}

/// The number of workers for a machine that offers `found` processors: one
/// for each, and one where none was found.
pub open spec fn spec_workers_for(found: usize) -> usize {
    if found == 0 {
        1
    } else {
        found
    }
}

/// The number of workers for a machine that offers `found` processors.
pub fn workers_for(found: usize) -> (workers: usize)
    ensures
        workers == spec_workers_for(found),
        0 < workers,
{
    if found == 0 {
        1
    } else {
        found
    }
}

/// The number of workers that a tick is shared among: one for each
/// processor of the machine, and one at least. How many processors the
/// machine offers is not known before it is asked, so only this much is
/// promised; [`workers_for`] tells the number for each answer.
pub fn worker_count() -> (workers: usize)
    ensures
        0 < workers,
{
    workers_for(processors())
}

/// `par_iter().map(..).collect()` of `rayon`: the runs are handed to the
/// worker pool, each is moved by [`advance_range`], and the results are
/// collected in the order of the runs.
#[verifier::external_body]
fn advance_chunks(
    parts: &Vec<Particle>,
    kinds: &ParticleKinds,
    params: &WorldParameters,
    chunks: &Vec<Chunk>,
) -> (out: Vec<Vec<Moved>>)
    requires
        kinds.wf(),
        params.valid(),
        kinds_known(parts@, kinds),
        forall|w: int|
            0 <= w < chunks@.len() ==> (#[trigger] chunks@[w]).0 <= chunks@[w].1 <= parts@.len(),
    ensures
        out@.len() == chunks@.len(),
        forall|w: int|
            0 <= w < chunks@.len() ==> (#[trigger] out@[w])@ == moved_range(
                parts@,
                kinds,
                params,
                chunks@[w].0 as int,
                chunks@[w].1 as int,
            ),
{
    chunks.par_iter().map(|c| advance_range(parts, kinds, params, c.0, c.1)).collect()
}

/// Moves every particle against the picture `parts`, the work shared among
/// `workers` workers. The result does not depend on their number.
pub fn advance_all(
    parts: &Vec<Particle>,
    kinds: &ParticleKinds,
    params: &WorldParameters,
    workers: usize,
) -> (out: Vec<Moved>)
    requires
        kinds.wf(),
        params.valid(),
        kinds_known(parts@, kinds),
        0 < workers,
    ensures
        out@ == moved_range(parts@, kinds, params, 0, parts@.len() as int),
        out@ == moved_by_chunks(parts@, kinds, params, workers as int, workers as int),
{
    let n: usize = parts.len();
    let chunks: Vec<Chunk> = plan(n, workers);
    proof {
        assert forall|w: int| 0 <= w < chunks@.len() implies (#[trigger] chunks@[w]).0
            <= chunks@[w].1 <= parts@.len() by {
            lemma_chunks_partition(n as int, workers as int, w);
        }
    }
    let results: Vec<Vec<Moved>> = advance_chunks(parts, kinds, params, &chunks);
    let mut out: Vec<Moved> = Vec::new();
    let mut w: usize = 0;
    while w < workers
        invariant
            0 < workers,
            w <= workers,
            n == parts@.len(),
            chunks@.len() == workers,
            results@.len() == workers,
            is_plan(chunks@, n as int),
            forall|v: int|
                0 <= v < workers ==> (#[trigger] results@[v])@ == moved_range(
                    parts@,
                    kinds,
                    params,
                    chunks@[v].0 as int,
                    chunks@[v].1 as int,
                ),
            out@ == moved_by_chunks(parts@, kinds, params, workers as int, w as int),
        decreases workers - w,
    {
        let run: &Vec<Moved> = &results[w];
        let ghost before = out@;
        let mut j: usize = 0;
        while j < run.len()
            invariant
                j <= run@.len(),
                out@ == before + run@.subrange(0, j as int),
            decreases run@.len() - j,
        {
            out.push(run[j]);
            j += 1;
        }
        w += 1;
    }
    proof {
        lemma_partition_invariant(parts@, kinds, params, workers as int, workers as int);
    }
    out
}

} // verus!
