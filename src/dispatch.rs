//! Deciding how a list of files is processed, splitting it among workers,
//! and folding the per-file outcomes into the final report.
use vstd::prelude::*;

use crate::aggregate::{
    blanks_field, buckets_wf, bytes_field, comments_field, files_field, infos_view, lemma_merge_totals,
    lemma_sum_prefix, lemma_sum_push, merge_fits, merge_spec, steps_field, sum_of, Aggregator,
    CntResult,
};
use crate::scan::{CountError, Counts, FileInfo};

verus! {

/// From this many files on, the files are scanned by concurrent workers.
pub const CONCURRENCY_THRESHOLD: usize = 6;

/// The number of workers a large list is split among.
pub const WORKERS: usize = 3;

/// Whether a list of `n_files` files is scanned concurrently.
pub fn runs_concurrently(n_files: usize) -> (r: bool)
    ensures
        r == (n_files >= CONCURRENCY_THRESHOLD),
{
    n_files >= CONCURRENCY_THRESHOLD
}

/// The length of every chunk but the last: `n / 3` rounded up.
pub open spec fn chunk_len(n: nat) -> nat {
    (n + 2) / 3
}

pub fn chunk_size(n: usize) -> (r: usize)
    ensures
        r == chunk_len(n as nat),
{
    if n % WORKERS == 0 {
        n / WORKERS
    } else {
        n / WORKERS + 1
    }
}

proof fn lemma_chunk_count(k: int, cs: int, n: int)
    requires
        0 < cs,
        n <= 3 * cs,
        (k - 1) * cs < n,
    ensures
        k <= 3,
{
    assert(k <= 3) by (nonlinear_arith)
        requires
            0 < cs,
            n <= 3 * cs,
            (k - 1) * cs < n,
    ;
}

/// The `i`-th chunk of `files` when chunks hold `cs` files: from `i * cs`
/// up to `(i + 1) * cs` or the end of the list, whichever comes first.
pub open spec fn chunk_of(files: Seq<Seq<char>>, cs: nat, i: int) -> Seq<Seq<char>> {
    let stop = if (i + 1) * cs < files.len() {
        (i + 1) * cs
    } else {
        files.len() as int
    };
    files.subrange(i * cs, stop)
}

/// A copy of the files from `start` to `end`.
fn copy_range(files: &Vec<String>, start: usize, end: usize) -> (r: Vec<String>)
    requires
        start <= end <= files@.len(),
    ensures
        r.deep_view() == files.deep_view().subrange(start as int, end as int),
{
    let mut chunk: Vec<String> = Vec::new();
    let mut j: usize = start;
    while j < end
        invariant
            start <= j <= end <= files@.len(),
            chunk.deep_view() == files.deep_view().subrange(start as int, j as int),
        decreases end - j,
    {
        let name = files[j].clone();
        let ghost prev = chunk.deep_view();
        chunk.push(name);
        assert(chunk.deep_view() =~= prev.push(files@[j as int]@));
        assert(chunk.deep_view() =~= files.deep_view().subrange(start as int, j + 1));
        j = j + 1;
    }
    chunk
}

/// Splits the files into contiguous chunks of `chunk_len` files, the last one
/// possibly shorter; no chunk is empty and there are at most three.
pub fn split_chunks(files: &Vec<String>) -> (r: Vec<Vec<String>>)
    ensures
        r@.len() <= WORKERS,
        files@.len() == 0 <==> r@.len() == 0,
        r@.len() * chunk_len(files@.len()) >= files@.len(),
        forall|i: int|
            0 <= i < r@.len() ==> {
                &&& (#[trigger] r@[i])@.len() > 0
                &&& r@[i].deep_view() == chunk_of(files.deep_view(), chunk_len(files@.len()), i)
            },
{
    let n = files.len();
    let cs = chunk_size(n);
    let mut r: Vec<Vec<String>> = Vec::new();
    let mut start: usize = 0;
    assert(r@.len() * cs == 0);
    while start < n
        invariant
            n == files@.len(),
            cs == chunk_len(n as nat),
            start <= n,
            start <= r@.len() * cs,
            start < n ==> start == r@.len() * cs,
            start == n ==> r@.len() * cs >= n,
            r@.len() > 0 ==> (r@.len() - 1) * cs < n,
            n > 0 ==> cs > 0,
            start < n ==> r@.len() < 3,
            forall|i: int|
                0 <= i < r@.len() ==> {
                    &&& (#[trigger] r@[i])@.len() > 0
                    &&& r@[i].deep_view() == chunk_of(files.deep_view(), cs as nat, i)
                },
        decreases n - start,
    {
        let end: usize = if cs < n - start {
            start + cs
        } else {
            n
        };
        let chunk = copy_range(files, start, end);
        let ghost cv = chunk.deep_view();
        assert(chunk@.len() == cv.len());
        let ghost k: int = r@.len() as int;
        let ghost prev = r@;
        r.push(chunk);
        assert(start + cs == (k + 1) * cs) by (nonlinear_arith)
            requires
                start == k * cs,
        ;
        assert forall|i: int|
            0 <= i < r@.len() implies {
                &&& (#[trigger] r@[i])@.len() > 0
                &&& r@[i].deep_view() == chunk_of(files.deep_view(), cs as nat, i)
            } by {
            if i < k {
                assert(r@[i] == prev[i]);
            } else {
                assert(i == k);
                assert(r@[i].deep_view() == cv);
                assert(i * cs == start);
                assert((i + 1) * cs == start + cs);
            }
        }
        start = end;
        proof {
            if start < n {
                lemma_chunk_count(k as int + 2, cs as int, n as int);
            }
        }
    }
    proof {
        if n > 0 {
            lemma_chunk_count(r@.len() as int, cs as int, n as int);
        }
    }
    r
}

/// The counts of the files that were scanned, in order, leaving out those
/// that failed.
pub open spec fn successes(o: Seq<Result<FileInfo, CountError>>) -> Seq<Counts>
    decreases o.len(),
{
    if o.len() == 0 {
        Seq::empty()
    } else {
        let s = successes(o.drop_last());
        match o.last() {
            Ok(f) => s.push(f@),
            Err(_) => s,
        }
    }
}

/// Some file failed.
pub open spec fn has_error(o: Seq<Result<FileInfo, CountError>>) -> bool {
    exists|i: int| 0 <= i < o.len() && (#[trigger] o[i]) is Err
}

/// Index of the first file that failed, or -1.
pub open spec fn first_error(o: Seq<Result<FileInfo, CountError>>) -> int
    decreases o.len(),
{
    if o.len() == 0 {
        -1
    } else if o[0] is Err {
        0
    } else {
        let k = first_error(o.drop_first());
        if k < 0 {
            -1
        } else {
            k + 1
        }
    }
}

/// The buckets after merging the files one after the other into empty buckets.
pub open spec fn merge_all(s: Seq<Counts>) -> Seq<Counts>
    decreases s.len(),
{
    if s.len() == 0 {
        Seq::empty()
    } else {
        merge_spec(merge_all(s.drop_last()), s.last())
    }
}

/// The grand totals over the files fit in a machine word.
pub open spec fn fits_all(s: Seq<Counts>) -> bool {
    &&& sum_of(s, steps_field()) <= usize::MAX
    &&& sum_of(s, blanks_field()) <= usize::MAX
    &&& sum_of(s, comments_field()) <= usize::MAX
    &&& s.len() <= usize::MAX
    &&& sum_of(s, bytes_field()) <= usize::MAX
}

/// Merging files keeps every count: each grand total of the buckets is the
/// sum of that count over the files merged, and the files total is their
/// number.
pub proof fn lemma_merge_all_totals(s: Seq<Counts>)
    ensures
        sum_of(merge_all(s), steps_field()) == sum_of(s, steps_field()),
        sum_of(merge_all(s), blanks_field()) == sum_of(s, blanks_field()),
        sum_of(merge_all(s), comments_field()) == sum_of(s, comments_field()),
        sum_of(merge_all(s), files_field()) == s.len(),
        sum_of(merge_all(s), bytes_field()) == sum_of(s, bytes_field()),
    decreases s.len(),
{
    if s.len() > 0 {
        lemma_merge_all_totals(s.drop_last());
        lemma_merge_totals(merge_all(s.drop_last()), s.last());
    }
}

proof fn lemma_first_error(o: Seq<Result<FileInfo, CountError>>, i: int)
    requires
        0 <= i < o.len(),
        o[i] is Err,
        forall|k: int| 0 <= k < i ==> (#[trigger] o[k]) is Ok,
    ensures
        first_error(o) == i,
    decreases i,
{
    if i > 0 {
        assert forall|k: int| 0 <= k < i - 1 implies (#[trigger] o.drop_first()[k]) is Ok by {
            assert(o.drop_first()[k] == o[k + 1]);
        }
        lemma_first_error(o.drop_first(), i - 1);
    }
}

/// Merges one scanned file into the buckets; Overflow, and the buckets
/// unchanged, when a grand total would no longer fit in a machine word.
pub fn process_file(info: &FileInfo, agg: &mut Aggregator) -> (r: Result<(), CountError>)
    requires
        old(agg).wf(),
    ensures
        final(agg).wf(),
        r is Ok <==> merge_fits(old(agg)@, info@),
        r is Ok ==> final(agg)@ == merge_spec(old(agg)@, info@),
        r is Err ==> r == Err::<(), CountError>(CountError::Overflow) && final(agg)@ == old(agg)@,
{
    if agg.merge(info) {
        Ok(())
    } else {
        Err(CountError::Overflow)
    }
}

/// The report for a list of per-file outcomes, in the order of the file list.
/// Below `CONCURRENCY_THRESHOLD` files the first failure is the result; from
/// it on, failed files are left out and the others are counted. Overflow when
/// a grand total would not fit in a machine word.
pub fn count(outcomes: Vec<Result<FileInfo, CountError>>, input_path: String) -> (r: Result<
    CntResult,
    CountError,
>)
    ensures
        outcomes@.len() < CONCURRENCY_THRESHOLD && has_error(outcomes@) ==> (r matches Err(e)
            && outcomes@[first_error(outcomes@)] == Err::<FileInfo, CountError>(e)),
        !(outcomes@.len() < CONCURRENCY_THRESHOLD && has_error(outcomes@)) ==> {
            &&& r is Ok <==> fits_all(successes(outcomes@))
            &&& !fits_all(successes(outcomes@)) ==> r matches Err(CountError::Overflow)
        },
        r matches Ok(res) ==> {
            &&& infos_view(res.info@) == merge_all(successes(outcomes@))
            &&& buckets_wf(infos_view(res.info@))
            &&& res.input_path == input_path
            &&& res.totals_match()
        },
{
    let ghost o = outcomes@;
    let mut list = outcomes;
    let n = list.len();
    if !runs_concurrently(n) {
        let mut i: usize = 0;
        while i < n
            invariant
                n == list@.len(),
                o == list@,
                o == outcomes@,
                n < CONCURRENCY_THRESHOLD,
                i <= n,
                forall|k: int| 0 <= k < i ==> (#[trigger] o[k]) is Ok,
            decreases n - i,
        {
            if list[i].is_err() {
                proof {
                    lemma_first_error(o, i as int);
                    assert(has_error(o));
                }
                return Err(list.remove(i).unwrap_err());
            }
            i = i + 1;
        }
        assert(!has_error(o));
    }
    let mut agg = Aggregator::new();
    let mut i: usize = 0;
    while i < n
        invariant
            n == list@.len(),
            o == list@,
            o == outcomes@,
            i <= n,
            agg.wf(),
            agg@ == merge_all(successes(o.subrange(0, i as int))),
            fits_all(successes(o.subrange(0, i as int))),
            n < CONCURRENCY_THRESHOLD ==> !has_error(o),
        decreases n - i,
    {
        let ghost before = successes(o.subrange(0, i as int));
        assert(o.subrange(0, i + 1).drop_last() =~= o.subrange(0, i as int));
        match &list[i] {
            Ok(f) => {
                let ghost s = before.push(f@);
                proof {
                    assert(successes(o.subrange(0, i + 1)) == s);
                    lemma_merge_all_totals(before);
                    lemma_sum_push(before, f@, steps_field());
                    lemma_sum_push(before, f@, blanks_field());
                    lemma_sum_push(before, f@, comments_field());
                    lemma_sum_push(before, f@, bytes_field());
                }
                assert(s.drop_last() =~= before);
                if process_file(f, &mut agg).is_err() {
                    proof {
                        lemma_successes_prefix(o, i + 1);
                        let all = successes(o);
                        lemma_sum_prefix(all, s.len() as int, steps_field());
                        lemma_sum_prefix(all, s.len() as int, blanks_field());
                        lemma_sum_prefix(all, s.len() as int, comments_field());
                        lemma_sum_prefix(all, s.len() as int, bytes_field());
                    }
                    return Err(CountError::Overflow);
                }
            },
            Err(_) => {
                assert(successes(o.subrange(0, i + 1)) == before);
            },
        }
        i = i + 1;
    }
    assert(o.subrange(0, i as int) =~= o);
    Ok(agg.into_result(input_path))
}

proof fn lemma_successes_prefix(o: Seq<Result<FileInfo, CountError>>, i: int)
    requires
        0 <= i <= o.len(),
    ensures
        successes(o.subrange(0, i)).len() <= successes(o).len(),
        successes(o.subrange(0, i)) == successes(o).subrange(0, successes(o.subrange(0, i)).len() as int),
    decreases o.len() - i,
{
    if i < o.len() {
        lemma_successes_prefix(o, i + 1);
        assert(o.subrange(0, i + 1).drop_last() =~= o.subrange(0, i));
        let s1 = successes(o.subrange(0, i + 1));
        let s0 = successes(o.subrange(0, i));
        let all = successes(o);
        if o[i] is Ok {
            assert(s1 == s0.push(o[i]->Ok_0@));
            assert(s0 =~= all.subrange(0, s0.len() as int));
        } else {
            assert(s1 == s0);
        }
    } else {
        assert(o.subrange(0, i) =~= o);
    }
}

} // verus!
