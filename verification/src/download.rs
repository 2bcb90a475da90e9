//! A download as the installer asks for it, and the progress reports that
//! accompany the transfer.

use vstd::prelude::*;
use vstd::string::*;

use crate::installer::{Archived, Compression, FileOp, FileOpView};
use crate::ui::Message;

verus! {

broadcast use vstd::string::group_string_axioms;

/// The number of redirects that a download follows at most.
pub const REDIRECT_LIMIT: u32 = 50;

/// The milliseconds between two samples of a download's progress.
pub const POLL_INTERVAL_MS: u64 = 20;

/// As long as no sample is complete, the reports are those of the samples seen.
proof fn lemma_reports_unfold(samples: Seq<(u64, u64)>, k: int)
    requires
        0 <= k <= samples.len(),
        forall|i: int| 0 <= i < k ==> !is_complete(samples[i]),
    ensures
        reports(samples) == Seq::new(k as nat, |i: int| report_of(samples[i])) + reports(
            samples.skip(k),
        ),
    decreases k,
{
    if k == 0 {
        assert(samples.skip(0) =~= samples);
        assert(Seq::new(0, |i: int| report_of(samples[i])) + reports(samples) =~= reports(samples));
    } else {
        let rest = samples.drop_first();
        assert forall|i: int| 0 <= i < k - 1 implies !is_complete(rest[i]) by {
            assert(rest[i] == samples[i + 1]);
        }
        lemma_reports_unfold(rest, k - 1);
        assert(rest.skip(k - 1) =~= samples.skip(k));
        assert(!is_complete(samples[0]));
        assert(seq![report_of(samples[0])] + Seq::new(
            (k - 1) as nat,
            |i: int| report_of(rest[i]),
        ) =~= Seq::new(k as nat, |i: int| report_of(samples[i])));
        assert(reports(samples) =~= Seq::new(k as nat, |i: int| report_of(samples[i])) + reports(
            samples.skip(k),
        ));
    }
}

/// The reports follow the samples one for one, and only the last of them
/// can be that of a complete sample.
pub proof fn lemma_reports_follow_samples(samples: Seq<(u64, u64)>)
    ensures
        reports(samples).len() <= samples.len(),
        forall|i: int| 0 <= i < reports(samples).len() ==> reports(samples)[i] == report_of(samples[i]),
        forall|i: int| 0 <= i < reports(samples).len() - 1 ==> !is_complete(samples[i]),
        reports(samples).len() < samples.len() ==> is_complete(samples[reports(samples).len() - 1]),
    decreases samples.len(),
{
    if samples.len() > 0 && !is_complete(samples[0]) {
        let rest = samples.drop_first();
        lemma_reports_follow_samples(rest);
        assert forall|i: int| 0 <= i < reports(samples).len() implies reports(samples)[i]
            == report_of(samples[i]) by {
            if i > 0 {
                assert(reports(samples)[i] == reports(rest)[i - 1]);
                assert(rest[i - 1] == samples[i]);
            }
        }
        assert forall|i: int| 0 <= i < reports(samples).len() - 1 implies !is_complete(
            samples[i],
        ) by {
            if i > 0 {
                assert(rest[i - 1] == samples[i]);
            }
        }
        if reports(samples).len() < samples.len() {
            assert(rest[reports(rest).len() - 1] == samples[reports(samples).len() - 1]);
        }
    }
}

/// The progress that a download reports never goes back: where the bytes
/// transferred do not decrease from one sample to the next, neither does
/// the current value from one report to the next.
pub proof fn lemma_reports_non_decreasing(samples: Seq<(u64, u64)>)
    requires
        forall|i: int, j: int| 0 <= i <= j < samples.len() ==> samples[i].0 <= samples[j].0,
    ensures
        forall|i: int, j: int|
            0 <= i <= j < reports(samples).len() ==> reports(samples)[i].0 <= reports(samples)[j].0,
{
    lemma_reports_follow_samples(samples);
    assert forall|i: int, j: int| 0 <= i <= j < reports(samples).len() implies reports(
        samples,
    )[i].0 <= reports(samples)[j].0 by {
        assert(samples[i].0 <= samples[j].0);
        assert(reports(samples)[i] == report_of(samples[i]));
        assert(reports(samples)[j] == report_of(samples[j]));
    }
}

/// The reports of a download end with the first complete sample: where
/// some sample is complete, the last report is that of a complete sample
/// and shows a current value equal to the total; no report before it is
/// that of a complete sample.
pub proof fn lemma_reports_end_at_completion(samples: Seq<(u64, u64)>, at: int)
    requires
        0 <= at < samples.len(),
        is_complete(samples[at]),
    ensures
        0 < reports(samples).len() <= at + 1,
        is_complete(samples[reports(samples).len() - 1]),
        reports(samples).last().0 == reports(samples).last().1,
        forall|i: int| 0 <= i < reports(samples).len() - 1 ==> !is_complete(samples[i]),
{
    lemma_reports_follow_samples(samples);
    let n = reports(samples).len() as int;
    if n > at + 1 {
        assert(!is_complete(samples[at]));
    }
    if n == 0 {
        assert(reports(samples).len() < samples.len());
    }
    if n == samples.len() {
        assert(at <= n - 1);
        if at < n - 1 {
            assert(!is_complete(samples[at]));
        }
    }
    assert(reports(samples)[n - 1] == report_of(samples[n - 1]));
}

/// Where no incomplete sample rounds to equal thousands, the reports end
/// exactly with the first report whose current value equals its total.
pub proof fn lemma_reports_end_at_equal_report(samples: Seq<(u64, u64)>)
    requires
        forall|i: int|
            0 <= i < samples.len() && !is_complete(#[trigger] samples[i]) ==> report_of(samples[i]).0
                != report_of(samples[i]).1,
    ensures
        forall|i: int|
            0 <= i < reports(samples).len() - 1 ==> (#[trigger] reports(samples)[i]).0 != reports(
                samples,
            )[i].1,
        reports(samples).len() < samples.len() ==> reports(samples).last().0 == reports(
            samples,
        ).last().1,
{
    lemma_reports_follow_samples(samples);
    assert forall|i: int| 0 <= i < reports(samples).len() - 1 implies (#[trigger] reports(
        samples,
    )[i]).0 != reports(samples)[i].1 by {
        assert(!is_complete(samples[i]));
        assert(reports(samples)[i] == report_of(samples[i]));
    }
    if reports(samples).len() < samples.len() {
        let n = reports(samples).len() as int;
        assert(reports(samples)[n - 1] == report_of(samples[n - 1]));
    }
}

/// What is to be fetched for an install, and where to.
#[derive(Clone, Debug, PartialEq, Eq)]
pub struct Download {
    /// The address to get.
    pub url: String,
    /// The decoder through which the body is written.
    pub compression: Compression,
    /// How the decoded file is packaged.
    pub archive: Archived,
    /// The scratch directory, to be created where it is missing.
    pub dir: String,
    /// The temporary file that receives the decoded body.
    pub to: String,
}

/// What a progress sample `(transferred, total)` in bytes is reported as:
/// the two numbers in thousands of bytes.
pub open spec fn report_of(sample: (u64, u64)) -> (u64, u64) {
    (sample.0 / 1000, sample.1 / 1000)
}

/// Whether a progress sample says that the transfer is complete.
pub open spec fn is_complete(sample: (u64, u64)) -> bool {
    sample.0 == sample.1
}

/// The progress reports of a download whose samples are `samples`, taken
/// in this order: every sample is reported, up to and including the first
/// that is complete.
pub open spec fn reports(samples: Seq<(u64, u64)>) -> Seq<(u64, u64)>
    decreases samples.len(),
{
    if samples.len() == 0 {
        Seq::empty()
    } else if is_complete(samples[0]) {
        seq![report_of(samples[0])]
    } else {
        seq![report_of(samples[0])] + reports(samples.drop_first())
    }
}

impl Download {
    /// The fetch that this download is.
    pub fn fetch(&self) -> (r: FileOp)
        ensures
            r@ == (FileOpView::Fetch { url: self.url@, compression: self.compression, to: self.to@ }),
    {
        FileOp::Fetch { url: self.url.clone(), compression: self.compression, to: self.to.clone() }
    }

    /// The reports of a transfer whose samples were `samples`, each an
    /// envelope under the label `label`. Sampling ends with the first
    /// complete sample; what follows it in `samples` is not looked at.
    pub fn replay(&self, label: &str, samples: &Vec<(u64, u64)>) -> (r: Vec<(String, Message)>)
        ensures
            r@.len() == reports(samples@).len(),
            forall|i: int|
                0 <= i < r@.len() ==> (#[trigger] r@[i]).0@ == label@ && (r@[i].1 matches Message::Progress(
                    p,
                ) && (p.0, p.1) == reports(samples@)[i] && p.2@ == self.url@),
    {
        let mut out: Vec<(String, Message)> = Vec::new();
        let mut i: usize = 0;
        let mut done = false;
        proof {
            lemma_reports_unfold(samples@, 0);
        }
        while i < samples.len() && !done
            invariant
                i <= samples.len(),
                forall|k: int| 0 <= k < i - (if done { 1int } else { 0int }) ==> !is_complete(samples@[k]),
                done ==> i > 0 && is_complete(samples@[i - 1]),
                out@.len() == i,
                forall|k: int|
                    0 <= k < i ==> (#[trigger] out@[k]).0@ == label@ && (out@[k].1 matches Message::Progress(
                        p,
                    ) && (p.0, p.1) == report_of(samples@[k]) && p.2@ == self.url@),
            decreases samples.len() - i + (if done { 0int } else { 1int }),
        {
            let sample = samples[i];
            let step = self.poll(label, sample.0, sample.1);
            out.push(step.0);
            done = step.1;
            i += 1;
        }
        proof {
            if done {
                lemma_reports_unfold(samples@, i - 1);
                assert(samples@.skip(i - 1)[0] == samples@[i - 1]);
                assert(reports(samples@.skip(i - 1)) =~= seq![report_of(samples@[i - 1])]);
            } else {
                lemma_reports_unfold(samples@, i as int);
                assert(samples@.skip(i as int).len() == 0);
            }
        }
        out
    }

    /// One sample of the transfer, `transferred` of `total` bytes: the
    /// report to send under the label `label`, and whether it is the last.
    pub fn poll(&self, label: &str, transferred: u64, total: u64) -> (r: (
        (String, Message),
        bool,
    ))
        ensures
            r.0.0@ == label@,
            r.0.1 matches Message::Progress(p) && (p.0, p.1) == report_of(
                (transferred, total),
            ) && p.2@ == self.url@,
            r.1 == is_complete((transferred, total)),
    {
        (
            (
                String::from_str(label),
                Message::Progress(
                    (transferred / 1000, total / 1000, self.url.clone()),
                ),
            ),
            transferred == total,
        )
    }
}


} // verus!
