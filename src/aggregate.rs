//! Merging per-file counts into one bucket per file type, and the final
//! report with its grand totals.
use vstd::prelude::*;

use crate::scan::{Counts, FileInfo};

verus! {

/// Sum of `f` over the buckets.
pub open spec fn sum_of(s: Seq<Counts>, f: spec_fn(Counts) -> nat) -> nat
    decreases s.len(),
{
    if s.len() == 0 {
        0
    } else {
        sum_of(s.drop_last(), f) + f(s.last())
    }
}

pub open spec fn steps_field() -> spec_fn(Counts) -> nat {
    |c: Counts| c.steps
}

pub open spec fn blanks_field() -> spec_fn(Counts) -> nat {
    |c: Counts| c.blanks
}

pub open spec fn comments_field() -> spec_fn(Counts) -> nat {
    |c: Counts| c.comments
}

pub open spec fn files_field() -> spec_fn(Counts) -> nat {
    |c: Counts| c.files
}

pub open spec fn bytes_field() -> spec_fn(Counts) -> nat {
    |c: Counts| c.bytes
}

/// The mathematical content of a sequence of `FileInfo`.
pub open spec fn infos_view(v: Seq<FileInfo>) -> Seq<Counts> {
    v.map_values(|f: FileInfo| f@)
}

/// Each of the five grand totals fits in a machine word.
pub open spec fn totals_fit(s: Seq<Counts>) -> bool {
    &&& sum_of(s, steps_field()) <= usize::MAX
    &&& sum_of(s, blanks_field()) <= usize::MAX
    &&& sum_of(s, comments_field()) <= usize::MAX
    &&& sum_of(s, files_field()) <= usize::MAX
    &&& sum_of(s, bytes_field()) <= usize::MAX
}

/// Some bucket has the tag.
pub open spec fn has_tag(s: Seq<Counts>, tag: Seq<char>) -> bool {
    exists|i: int| 0 <= i < s.len() && (#[trigger] s[i]).tag == tag
}

/// The bucket that has the tag, when there is one.
pub open spec fn tag_index(s: Seq<Counts>, tag: Seq<char>) -> int {
    choose|i: int| 0 <= i < s.len() && (#[trigger] s[i]).tag == tag
}

/// One bucket per tag, each with at least one file, and the grand totals fit.
pub open spec fn buckets_wf(s: Seq<Counts>) -> bool {
    &&& forall|i: int, j: int| 0 <= i < j < s.len() ==> (#[trigger] s[i]).tag != (#[trigger] s[j]).tag
    &&& forall|i: int| 0 <= i < s.len() ==> (#[trigger] s[i]).files >= 1
    &&& totals_fit(s)
}

/// A bucket after one more file of its type: the file's counts are added and
/// its files count goes up by one.
pub open spec fn add_file(b: Counts, f: Counts) -> Counts {
    Counts {
        tag: b.tag,
        steps: b.steps + f.steps,
        blanks: b.blanks + f.blanks,
        comments: b.comments + f.comments,
        files: b.files + 1,
        bytes: b.bytes + f.bytes,
    }
}

/// The zero bucket for the file's tag.
pub open spec fn empty_bucket(tag: Seq<char>) -> Counts {
    Counts { tag, steps: 0, blanks: 0, comments: 0, files: 0, bytes: 0 }
}

/// The buckets after merging one file: its bucket grows, or a new bucket is
/// appended when its tag is new.
pub open spec fn merge_spec(s: Seq<Counts>, f: Counts) -> Seq<Counts> {
    if has_tag(s, f.tag) {
        let i = tag_index(s, f.tag);
        s.update(i, add_file(s[i], f))
    } else {
        s.push(add_file(empty_bucket(f.tag), f))
    }
}

/// The grand totals after merging the file still fit in a machine word.
pub open spec fn merge_fits(s: Seq<Counts>, f: Counts) -> bool {
    &&& sum_of(s, steps_field()) + f.steps <= usize::MAX
    &&& sum_of(s, blanks_field()) + f.blanks <= usize::MAX
    &&& sum_of(s, comments_field()) + f.comments <= usize::MAX
    &&& sum_of(s, files_field()) + 1 <= usize::MAX
    &&& sum_of(s, bytes_field()) + f.bytes <= usize::MAX
}

pub proof fn lemma_sum_push(s: Seq<Counts>, x: Counts, f: spec_fn(Counts) -> nat)
    ensures
        sum_of(s.push(x), f) == sum_of(s, f) + f(x),
{
    assert(s.push(x).drop_last() =~= s);
}

pub proof fn lemma_sum_update(s: Seq<Counts>, i: int, x: Counts, f: spec_fn(Counts) -> nat)
    requires
        0 <= i < s.len(),
    ensures
        sum_of(s.update(i, x), f) + f(s[i]) == sum_of(s, f) + f(x),
    decreases s.len(),
{
    if i == s.len() - 1 {
        assert(s.update(i, x).drop_last() =~= s.drop_last());
    } else {
        lemma_sum_update(s.drop_last(), i, x, f);
        assert(s.update(i, x).drop_last() =~= s.drop_last().update(i, x));
    }
}

/// One bucket's field is at most the sum of that field over all buckets.
pub proof fn lemma_sum_bounds_element(s: Seq<Counts>, i: int, f: spec_fn(Counts) -> nat)
    requires
        0 <= i < s.len(),
    ensures
        f(s[i]) <= sum_of(s, f),
    decreases s.len(),
{
    if i < s.len() - 1 {
        lemma_sum_bounds_element(s.drop_last(), i, f);
    }
}

pub proof fn lemma_sum_prefix(s: Seq<Counts>, i: int, f: spec_fn(Counts) -> nat)
    requires
        0 <= i <= s.len(),
    ensures
        sum_of(s.subrange(0, i), f) <= sum_of(s, f),
    decreases s.len() - i,
{
    if i < s.len() {
        lemma_sum_prefix(s, i + 1, f);
        assert(s.subrange(0, i + 1).drop_last() =~= s.subrange(0, i));
    } else {
        assert(s.subrange(0, i) =~= s);
    }
}

/// Merging a file adds its counts to each grand total and one to the files
/// total.
pub proof fn lemma_merge_totals(s: Seq<Counts>, f: Counts)
    ensures
        sum_of(merge_spec(s, f), steps_field()) == sum_of(s, steps_field()) + f.steps,
        sum_of(merge_spec(s, f), blanks_field()) == sum_of(s, blanks_field()) + f.blanks,
        sum_of(merge_spec(s, f), comments_field()) == sum_of(s, comments_field()) + f.comments,
        sum_of(merge_spec(s, f), files_field()) == sum_of(s, files_field()) + 1,
        sum_of(merge_spec(s, f), bytes_field()) == sum_of(s, bytes_field()) + f.bytes,
{
    if has_tag(s, f.tag) {
        let i = tag_index(s, f.tag);
        let b = add_file(s[i], f);
        lemma_sum_update(s, i, b, steps_field());
        lemma_sum_update(s, i, b, blanks_field());
        lemma_sum_update(s, i, b, comments_field());
        lemma_sum_update(s, i, b, files_field());
        lemma_sum_update(s, i, b, bytes_field());
    } else {
        let b = add_file(empty_bucket(f.tag), f);
        lemma_sum_push(s, b, steps_field());
        lemma_sum_push(s, b, blanks_field());
        lemma_sum_push(s, b, comments_field());
        lemma_sum_push(s, b, files_field());
        lemma_sum_push(s, b, bytes_field());
    }
}

/// Merging a file whose counts fit keeps the buckets well formed: one bucket
/// per tag, each with at least one file.
pub proof fn lemma_merge_wf(s: Seq<Counts>, f: Counts)
    requires
        buckets_wf(s),
        merge_fits(s, f),
    ensures
        buckets_wf(merge_spec(s, f)),
{
    lemma_merge_totals(s, f);
    let m = merge_spec(s, f);
    if !has_tag(s, f.tag) {
        assert forall|i: int, j: int| 0 <= i < j < m.len() implies (#[trigger] m[i]).tag != (
        #[trigger] m[j]).tag by {
            if j == s.len() {
                assert(s[i].tag != f.tag);
            }
        }
    }
}

/// The five grand totals of a sequence of buckets.
pub struct Totals {
    pub steps: usize,
    pub blanks: usize,
    pub comments: usize,
    pub files: usize,
    pub bytes: usize,
}

/// The grand totals, as a fold over the buckets.
pub fn fold_totals(info: &Vec<FileInfo>) -> (t: Totals)
    requires
        totals_fit(infos_view(info@)),
    ensures
        t.steps == sum_of(infos_view(info@), steps_field()),
        t.blanks == sum_of(infos_view(info@), blanks_field()),
        t.comments == sum_of(infos_view(info@), comments_field()),
        t.files == sum_of(infos_view(info@), files_field()),
        t.bytes == sum_of(infos_view(info@), bytes_field()),
{
    let ghost s = infos_view(info@);
    let mut t = Totals { steps: 0, blanks: 0, comments: 0, files: 0, bytes: 0 };
    let mut i: usize = 0;
    while i < info.len()
        invariant
            s == infos_view(info@),
            totals_fit(s),
            i <= info.len(),
            t.steps == sum_of(s.subrange(0, i as int), steps_field()),
            t.blanks == sum_of(s.subrange(0, i as int), blanks_field()),
            t.comments == sum_of(s.subrange(0, i as int), comments_field()),
            t.files == sum_of(s.subrange(0, i as int), files_field()),
            t.bytes == sum_of(s.subrange(0, i as int), bytes_field()),
        decreases info.len() - i,
    {
        proof {
            let p = s.subrange(0, i + 1);
            assert(p.drop_last() =~= s.subrange(0, i as int));
            lemma_sum_prefix(s, i + 1, steps_field());
            lemma_sum_prefix(s, i + 1, blanks_field());
            lemma_sum_prefix(s, i + 1, comments_field());
            lemma_sum_prefix(s, i + 1, files_field());
            lemma_sum_prefix(s, i + 1, bytes_field());
        }
        let f = &info[i];
        t.steps = t.steps + f.steps;
        t.blanks = t.blanks + f.blanks;
        t.comments = t.comments + f.comments;
        t.files = t.files + f.files;
        t.bytes = t.bytes + f.bytes;
        i = i + 1;
    }
    assert(s.subrange(0, i as int) =~= s);
    t
}

/// The final report: the per-type buckets and the grand totals over them.
#[derive(Debug)]
pub struct CntResult {
    pub info: Vec<FileInfo>,
    pub input_path: String,
    pub all_steps: usize,
    pub all_blanks: usize,
    pub all_comments: usize,
    pub all_files: usize,
    pub all_bytes: usize,
}

impl CntResult {
    /// The grand totals equal the sums of the fields over the buckets.
    pub open spec fn totals_match(&self) -> bool {
        let s = infos_view(self.info@);
        &&& self.all_steps == sum_of(s, steps_field())
        &&& self.all_blanks == sum_of(s, blanks_field())
        &&& self.all_comments == sum_of(s, comments_field())
        &&& self.all_files == sum_of(s, files_field())
        &&& self.all_bytes == sum_of(s, bytes_field())
    }

    /// Sets each grand total to the sum of its field over the buckets; the
    /// buckets and the input path stay as they were.
    pub fn assign_alls(&mut self)
        requires
            totals_fit(infos_view(old(self).info@)),
        ensures
            final(self).info@ == old(self).info@,
            final(self).input_path == old(self).input_path,
            final(self).totals_match(),
    {
        let t = fold_totals(&self.info);
        self.all_steps = t.steps;
        self.all_blanks = t.blanks;
        self.all_comments = t.comments;
        self.all_files = t.files;
        self.all_bytes = t.bytes;
    }
}

/// The buckets of one count, one per file type seen.
pub struct Aggregator {
    buckets: Vec<FileInfo>,
}

impl View for Aggregator {
    type V = Seq<Counts>;

    closed spec fn view(&self) -> Seq<Counts> {
        infos_view(self.buckets@)
    }
}

impl Aggregator {
    pub open spec fn wf(&self) -> bool {
        buckets_wf(self@)
    }

    pub fn new() -> (a: Aggregator)
        ensures
            a.wf(),
            a@ == Seq::<Counts>::empty(),
    {
        let a = Aggregator { buckets: Vec::new() };
        assert(a@ =~= Seq::<Counts>::empty());
        a
    }

    /// Merges one file's counts into the bucket of its type, creating the
    /// bucket when the type is new. Returns false, and changes nothing, when
    /// a grand total would no longer fit in a machine word.
    pub fn merge(&mut self, info: &FileInfo) -> (merged: bool)
        requires
            old(self).wf(),
        ensures
            final(self).wf(),
            merged == merge_fits(old(self)@, info@),
            merged ==> final(self)@ == merge_spec(old(self)@, info@),
            !merged ==> final(self)@ == old(self)@,
    {
        let ghost s = self@;
        let t = fold_totals(&self.buckets);
        if info.steps > usize::MAX - t.steps || info.blanks > usize::MAX - t.blanks
            || info.comments > usize::MAX - t.comments || t.files == usize::MAX || info.bytes
            > usize::MAX - t.bytes {
            return false;
        }
        let mut i: usize = 0;
        while i < self.buckets.len()
            invariant
                s == self@,
                i <= self.buckets.len(),
                forall|k: int| 0 <= k < i ==> (#[trigger] s[k]).tag != info@.tag,
            ensures
                s == self@,
                i <= self.buckets.len(),
                forall|k: int| 0 <= k < i ==> (#[trigger] s[k]).tag != info@.tag,
                i < self.buckets.len() ==> s[i as int].tag == info@.tag,
            decreases self.buckets.len() - i,
        {
            assert(s[i as int] == self.buckets@[i as int]@);
            if self.buckets[i].filetype == info.filetype {
                break;
            }
            i = i + 1;
        }
        proof {
            lemma_merge_wf(s, info@);
        }
        if i < self.buckets.len() {
            assert(tag_index(s, info@.tag) == i) by {
                let j = tag_index(s, info@.tag);
                assert(0 <= j < s.len() && s[j].tag == info@.tag);
            }
            proof {
                lemma_sum_bounds_element(s, i as int, steps_field());
                lemma_sum_bounds_element(s, i as int, blanks_field());
                lemma_sum_bounds_element(s, i as int, comments_field());
                lemma_sum_bounds_element(s, i as int, files_field());
                lemma_sum_bounds_element(s, i as int, bytes_field());
            }
            let b = &self.buckets[i];
            let nb = FileInfo {
                filetype: b.filetype.clone(),
                steps: b.steps + info.steps,
                blanks: b.blanks + info.blanks,
                comments: b.comments + info.comments,
                files: b.files + 1,
                bytes: b.bytes + info.bytes,
            };
            self.buckets.set(i, nb);
            assert(self@ =~= merge_spec(s, info@));
        } else {
            let nb = FileInfo {
                filetype: info.filetype.clone(),
                steps: info.steps,
                blanks: info.blanks,
                comments: info.comments,
                files: 1,
                bytes: info.bytes,
            };
            self.buckets.push(nb);
            assert(self@ =~= merge_spec(s, info@));
        }
        true
    }

    /// The report for this count: the buckets, the input path, and the
    /// grand totals folded over the buckets.
    pub fn into_result(self, input_path: String) -> (r: CntResult)
        requires
            self.wf(),
        ensures
            infos_view(r.info@) == self@,
            r.input_path == input_path,
            r.totals_match(),
    {
        let mut r = CntResult {
            info: self.buckets,
            input_path,
            all_steps: 0,
            all_blanks: 0,
            all_comments: 0,
            all_files: 0,
            all_bytes: 0,
        };
        r.assign_alls();
        r
    }
}

} // verus!
