//! Summary counts over the invoices of a finished run.
use vstd::prelude::*;
use vstd::string::*;

verus! {

/// What the summary counts read of one processed invoice file.
pub struct InvoiceSummary {
    /// The kind of file, such as `"PDF"`.
    pub file_type: String,
    /// The seller that was recognised, empty when none was; a leading `*`
    /// marks a guess.
    pub seller: String,
    /// The amount that was recognised, empty when none was.
    pub amount: String,
}

/// The file is a PDF.
pub open spec fn is_pdf(r: InvoiceSummary) -> bool {
    r.file_type@ == "PDF"@
}

/// A seller was recognised for the file: a non-empty name that does not
/// start with `*`.
pub open spec fn has_seller(r: InvoiceSummary) -> bool {
    r.seller@.len() > 0 && r.seller@[0] != '*'
}

/// An amount was recognised for the file.
pub open spec fn has_amount(r: InvoiceSummary) -> bool {
    r.amount@.len() > 0
}

/// How many of the records satisfy `p`.
pub open spec fn count_where(s: Seq<InvoiceSummary>, p: spec_fn(InvoiceSummary) -> bool) -> nat
    decreases s.len(),
{
    if s.len() == 0 {
        0
    } else {
        count_where(s.drop_last(), p) + if p(s.last()) {
            1nat
        } else {
            0nat
        }
    }
}

/// Counts shown after a run.
#[derive(Debug, Clone, Copy, PartialEq, Eq)]
pub struct ProcessStats {
    /// All files of the run.
    pub total_files: usize,
    /// Files that are PDFs.
    pub pdf_files: usize,
    /// Files with a recognised seller.
    pub seller_recognized: usize,
    /// Files with a recognised amount.
    pub amount_recognized: usize,
}

/// The counts before any run.
pub open spec fn empty_stats() -> ProcessStats {
    ProcessStats { total_files: 0, pdf_files: 0, seller_recognized: 0, amount_recognized: 0 }
}

/// The counts of a run that produced `s`.
pub open spec fn stats_of(s: Seq<InvoiceSummary>) -> ProcessStats {
    ProcessStats {
        total_files: s.len() as usize,
        pdf_files: count_where(s, |r: InvoiceSummary| is_pdf(r)) as usize,
        seller_recognized: count_where(s, |r: InvoiceSummary| has_seller(r)) as usize,
        amount_recognized: count_where(s, |r: InvoiceSummary| has_amount(r)) as usize,
    }
}

/// The smaller of two counts.
pub open spec fn min_count(a: int, b: int) -> int {
    if b < a {
        b
    } else {
        a
    }
}

/// The smaller of two counts is at most each of them and is one of them.
pub proof fn lemma_min_count(a: int, b: int)
    ensures
        min_count(a, b) <= a,
        min_count(a, b) <= b,
        min_count(a, b) == a || min_count(a, b) == b,
{
}

/// A count is the number of records that pass its test, and it does not
/// depend on how the test is written.
pub proof fn lemma_count_where_filter(
    s: Seq<InvoiceSummary>,
    p: spec_fn(InvoiceSummary) -> bool,
    q: spec_fn(InvoiceSummary) -> bool,
)
    requires
        forall|r: InvoiceSummary| #[trigger] p(r) == q(r),
    ensures
        count_where(s, p) == s.filter(q).len(),
    decreases s.len(),
{
    reveal_with_fuel(Seq::filter, 1);
    if s.len() > 0 {
        lemma_count_where_filter(s.drop_last(), p, q);
    }
}

/// The counts of a run are the number of files, the number of files whose
/// type is "PDF", the number with a seller that is non-empty and does not
/// start with `*`, and the number with a non-empty amount.
pub proof fn lemma_stats_of_counts(s: Seq<InvoiceSummary>)
    requires
        s.len() <= usize::MAX,
    ensures
        stats_of(s).total_files == s.len(),
        stats_of(s).pdf_files == s.filter(|r: InvoiceSummary| r.file_type@ == "PDF"@).len(),
        stats_of(s).seller_recognized == s.filter(
            |r: InvoiceSummary| r.seller@.len() > 0 && r.seller@[0] != '*',
        ).len(),
        stats_of(s).amount_recognized == s.filter(|r: InvoiceSummary| r.amount@.len() > 0).len(),
{
    lemma_count_le_len(s, |r: InvoiceSummary| is_pdf(r));
    lemma_count_le_len(s, |r: InvoiceSummary| has_seller(r));
    lemma_count_le_len(s, |r: InvoiceSummary| has_amount(r));
    lemma_count_where_filter(
        s,
        |r: InvoiceSummary| is_pdf(r),
        |r: InvoiceSummary| r.file_type@ == "PDF"@,
    );
    lemma_count_where_filter(
        s,
        |r: InvoiceSummary| has_seller(r),
        |r: InvoiceSummary| r.seller@.len() > 0 && r.seller@[0] != '*',
    );
    lemma_count_where_filter(
        s,
        |r: InvoiceSummary| has_amount(r),
        |r: InvoiceSummary| r.amount@.len() > 0,
    );
}

/// A count never exceeds the number of records counted.
pub proof fn lemma_count_le_len(s: Seq<InvoiceSummary>, p: spec_fn(InvoiceSummary) -> bool)
    ensures
        count_where(s, p) <= s.len(),
    decreases s.len(),
{
    if s.len() > 0 {
        lemma_count_le_len(s.drop_last(), p);
    }
}

/// Of the files of any run, the PDFs, the files with a recognised seller
/// and those with a recognised amount are each at most all the files; so
/// the PDF share never exceeds 100%.
pub proof fn lemma_stats_bounded(s: Seq<InvoiceSummary>)
    requires
        s.len() <= usize::MAX,
    ensures
        stats_of(s).total_files == s.len(),
        stats_of(s).pdf_files <= stats_of(s).total_files,
        stats_of(s).seller_recognized <= stats_of(s).total_files,
        stats_of(s).amount_recognized <= stats_of(s).total_files,
{
    lemma_count_le_len(s, |r: InvoiceSummary| is_pdf(r));
    lemma_count_le_len(s, |r: InvoiceSummary| has_seller(r));
    lemma_count_le_len(s, |r: InvoiceSummary| has_amount(r));
}

impl Default for ProcessStats {
    fn default() -> (r: Self)
        ensures
            r == empty_stats(),
    {
        ProcessStats { total_files: 0, pdf_files: 0, seller_recognized: 0, amount_recognized: 0 }
    }
}

impl ProcessStats {
    /// The counts of a run that produced `records`.
    pub fn from_records(records: &Vec<InvoiceSummary>) -> (r: ProcessStats)
        ensures
            r == stats_of(records@),
    {
        let pdf = String::from_str("PDF");
        let mut pdf_files: usize = 0;
        let mut seller_recognized: usize = 0;
        let mut amount_recognized: usize = 0;
        let mut i: usize = 0;
        while i < records.len()
            invariant
                i <= records.len(),
                pdf@ == "PDF"@,
                pdf_files == count_where(records@.take(i as int), |r: InvoiceSummary| is_pdf(r)),
                seller_recognized == count_where(
                    records@.take(i as int),
                    |r: InvoiceSummary| has_seller(r),
                ),
                amount_recognized == count_where(
                    records@.take(i as int),
                    |r: InvoiceSummary| has_amount(r),
                ),
            decreases records.len() - i,
        {
            let r = &records[i];
            let ghost prefix = records@.take(i as int);
            let ghost next = records@.take(i + 1);
            proof {
                assert(next.drop_last() =~= prefix);
                assert(next.last() == records@[i as int]);
                lemma_count_le_len(prefix, |r: InvoiceSummary| is_pdf(r));
                lemma_count_le_len(prefix, |r: InvoiceSummary| has_seller(r));
                lemma_count_le_len(prefix, |r: InvoiceSummary| has_amount(r));
            }
            if r.file_type == pdf {
                pdf_files = pdf_files + 1;
            }
            let seller = r.seller.as_str();
            if !seller.is_empty() && seller.get_char(0) != '*' {
                seller_recognized = seller_recognized + 1;
            }
            if !r.amount.as_str().is_empty() {
                amount_recognized = amount_recognized + 1;
            }
            i = i + 1;
        }
        proof {
            assert(records@.take(i as int) =~= records@);
        }
        ProcessStats {
            total_files: records.len(),
            pdf_files,
            seller_recognized,
            amount_recognized,
        }
    }

    /// The PDF share as numerator and denominator: `None` when there are no
    /// files (the share then counts as zero), otherwise the PDF count over
    /// the file count.
    pub fn pdf_rate_parts(&self) -> (r: Option<(usize, usize)>)
        ensures
            self.total_files == 0 ==> r is None,
            self.total_files != 0 ==> r == Some((self.pdf_files, self.total_files)),
    {
        if self.total_files == 0 {
            None
        } else {
            Some((self.pdf_files, self.total_files))
        }
    }

    /// The recognition share as numerator and denominator: `None` when
    /// there are no PDFs (the share then counts as zero), otherwise the
    /// smaller of the seller and amount counts over the PDF count.
    pub fn accuracy_rate_parts(&self) -> (r: Option<(usize, usize)>)
        ensures
            self.pdf_files == 0 ==> r is None,
            self.pdf_files != 0 ==> r == Some(
                (
                    min_count(
                        self.seller_recognized as int,
                        self.amount_recognized as int,
                    ) as usize,
                    self.pdf_files,
                ),
            ),
            r matches Some((k, d)) ==> {
                &&& k <= self.seller_recognized
                &&& k <= self.amount_recognized
                &&& (k == self.seller_recognized || k == self.amount_recognized)
                &&& d == self.pdf_files
            },
    {
        if self.pdf_files == 0 {
            None
        } else {
            let recognized = if self.amount_recognized < self.seller_recognized {
                self.amount_recognized
            } else {
                self.seller_recognized
            };
            Some((recognized, self.pdf_files))
        }
    }
}

} // verus!
