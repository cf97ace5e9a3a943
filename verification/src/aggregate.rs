//! Per-file records of classification results and their running totals.

use vstd::prelude::*;

verus! {

/// The sum of a sequence of counters.
pub open spec fn sum_counts(s: Seq<u32>) -> int
    decreases s.len(),
{
    if s.len() == 0 {
        0
    } else {
        sum_counts(s.drop_last()) + s.last()
    }
}

/// Classification results for a corpus of files: the counts at each index
/// belong to the file name at that index.
pub struct LineCount {
    pub file_names: Vec<String>,
    pub program_line_counts: Vec<u32>,
    pub blank_line_counts: Vec<u32>,
    pub comment_line_counts: Vec<u32>,
    pub comment_counts: Vec<u32>,
}

impl LineCount {
    /// Each count vector holds exactly one entry per recorded file.
    pub open spec fn wf(self) -> bool {
        &&& self.program_line_counts@.len() == self.file_names@.len()
        &&& self.blank_line_counts@.len() == self.file_names@.len()
        &&& self.comment_line_counts@.len() == self.file_names@.len()
        &&& self.comment_counts@.len() == self.file_names@.len()
    }

    /// An empty record, with no files counted yet.
    pub fn new() -> (r: LineCount)
        ensures
            r.wf(),
            r.file_names@.len() == 0,
    {
        LineCount {
            file_names: Vec::new(),
            program_line_counts: Vec::new(),
            blank_line_counts: Vec::new(),
            comment_line_counts: Vec::new(),
            comment_counts: Vec::new(),
        }
    }

    /// Folds one file's classification result
    /// (program lines, blank lines, comment lines, comment occurrences)
    /// into the record, appending to every column at once.
    pub fn record_file(&mut self, file_name: String, counts: (u32, u32, u32, u32))
        requires
            old(self).wf(),
        ensures
            final(self).wf(),
            final(self).file_names@ == old(self).file_names@.push(file_name),
            final(self).program_line_counts@ == old(self).program_line_counts@.push(counts.0),
            final(self).blank_line_counts@ == old(self).blank_line_counts@.push(counts.1),
            final(self).comment_line_counts@ == old(self).comment_line_counts@.push(counts.2),
            final(self).comment_counts@ == old(self).comment_counts@.push(counts.3),
    {
        self.file_names.push(file_name);
        self.program_line_counts.push(counts.0);
        self.blank_line_counts.push(counts.1);
        self.comment_line_counts.push(counts.2);
        self.comment_counts.push(counts.3);
    }

    /// The running totals over all recorded files, as
    /// (program lines, blank lines, comment lines, comment occurrences).
    pub fn totals(&self) -> (r: (u64, u64, u64, u64))
        requires
            self.wf(),
            self.file_names@.len() <= u32::MAX,
        ensures
            r.0 == sum_counts(self.program_line_counts@),
            r.1 == sum_counts(self.blank_line_counts@),
            r.2 == sum_counts(self.comment_line_counts@),
            r.3 == sum_counts(self.comment_counts@),
    {
        let n: usize = self.file_names.len();
        let mut program_total: u64 = 0;
        let mut blank_total: u64 = 0;
        let mut comment_line_total: u64 = 0;
        let mut comment_total: u64 = 0;
        let mut k: usize = 0;
        while k < n
            invariant
                self.wf(),
                n == self.file_names@.len(),
                n <= u32::MAX,
                k <= n,
                program_total == sum_counts(self.program_line_counts@.take(k as int)),
                blank_total == sum_counts(self.blank_line_counts@.take(k as int)),
                comment_line_total == sum_counts(self.comment_line_counts@.take(k as int)),
                comment_total == sum_counts(self.comment_counts@.take(k as int)),
                program_total <= k * (u32::MAX as int),
                blank_total <= k * (u32::MAX as int),
                comment_line_total <= k * (u32::MAX as int),
                comment_total <= k * (u32::MAX as int),
            decreases n - k,
        {
            proof {
                lemma_sum_counts_take_step(self.program_line_counts@, k as int);
                lemma_sum_counts_take_step(self.blank_line_counts@, k as int);
                lemma_sum_counts_take_step(self.comment_line_counts@, k as int);
                lemma_sum_counts_take_step(self.comment_counts@, k as int);
            }
            program_total = program_total + self.program_line_counts[k] as u64;
            blank_total = blank_total + self.blank_line_counts[k] as u64;
            comment_line_total = comment_line_total + self.comment_line_counts[k] as u64;
            comment_total = comment_total + self.comment_counts[k] as u64;
            k += 1;
        }
        proof {
            assert(self.program_line_counts@.take(n as int) =~= self.program_line_counts@);
            assert(self.blank_line_counts@.take(n as int) =~= self.blank_line_counts@);
            assert(self.comment_line_counts@.take(n as int) =~= self.comment_line_counts@);
            assert(self.comment_counts@.take(n as int) =~= self.comment_counts@);
        }
        (program_total, blank_total, comment_line_total, comment_total)
    }
}

/// Extending the summed prefix by one element adds that element.
proof fn lemma_sum_counts_take_step(s: Seq<u32>, k: int)
    requires
        0 <= k < s.len(),
    ensures
        sum_counts(s.take(k + 1)) == sum_counts(s.take(k)) + s[k],
{
    assert(s.take(k + 1).drop_last() =~= s.take(k));
    assert(s.take(k + 1).last() == s[k]);
}

} // verus!
