//! The work on one page: which of its images are written, and under which
//! names.

use crate::dedup::same_bytes;
use crate::dedup::DedupCache;
use crate::dedup::FingerprintSet;
use crate::naming::extension_for;
use crate::naming::image_file_name;
use crate::naming::spec_extension;
use crate::naming::spec_image_file_name;
use crate::naming::FilterTag;
use crate::naming::ImageSlot;
use vstd::prelude::*;

verus! {

/// One image as the parser hands it over: its encoded bytes and the filter
/// of their last encoding step, if there is one.
#[derive(Debug)]
pub struct ImageCandidate {
    pub payload: Vec<u8>,
    pub filter: Option<FilterTag>,
}

/// One page of a document that is being worked on: the time stamp of the
/// document's run, the ordinal of the page (the first page is page 1), and
/// the tags of the dispatcher and of the worker that has the page.
#[derive(Clone, Copy, Debug, PartialEq, Eq, Structural)]
pub struct PageTask {
    pub stamp: i64,
    pub page: u64,
    pub dispatcher: u64,
    pub worker: u64,
}

/// What becomes of one image.
#[derive(Debug)]
pub enum ImageVerdict {
    /// Its format is not supported: nothing is written, and the page counts
    /// one failure.
    Unsupported,
    /// Its payload was claimed before: nothing is written.
    Duplicate,
    /// It is written to a new file of this name.
    Write { file_name: String },
}

/// An [`ImageVerdict`] with the file name as a sequence of characters.
pub enum VerdictView {
    Unsupported,
    Duplicate,
    Write { file_name: Seq<char> },
}

impl View for ImageVerdict {
    type V = VerdictView;

    open spec fn view(&self) -> VerdictView {
        match self {
            ImageVerdict::Unsupported => VerdictView::Unsupported,
            ImageVerdict::Duplicate => VerdictView::Duplicate,
            ImageVerdict::Write { file_name } => VerdictView::Write { file_name: file_name@ },
        }
    }
}

/// Whether the format of an image is one that is written out.
pub open spec fn spec_supported(candidate: ImageCandidate) -> bool {
    spec_extension(candidate.filter) is Some
}

/// The slot of the image with this ordinal among a page's images.
pub open spec fn spec_slot(task: PageTask, ordinal: u64) -> ImageSlot {
    ImageSlot {
        stamp: task.stamp,
        image: ordinal,
        page: task.page,
        dispatcher: task.dispatcher,
        worker: task.worker,
    }
}

/// The ordinal of the image at `index` of a page's images: the first image
/// is image 1.
pub open spec fn spec_ordinal(index: int) -> u64 {
    (index + 1) as u64
}

/// What becomes of the image with this ordinal, given whether its claim on
/// the fingerprint succeeded. Only a supported image makes a claim.
pub open spec fn spec_verdict(
    task: PageTask,
    candidate: ImageCandidate,
    ordinal: u64,
    fresh: bool,
) -> VerdictView {
    match spec_extension(candidate.filter) {
        None => VerdictView::Unsupported,
        Some(ext) => if fresh {
            VerdictView::Write { file_name: spec_image_file_name(spec_slot(task, ordinal), ext) }
        } else {
            VerdictView::Duplicate
        },
    }
}

/// Whether an earlier supported image of the page brings the payload of
/// the image at `index`.
pub open spec fn spec_brought_earlier(candidates: Seq<ImageCandidate>, index: int) -> bool {
    exists|j: int|
        0 <= j < index && spec_supported(#[trigger] candidates[j]) && candidates[j].payload@
            == candidates[index].payload@
}

/// Whether the image at `index` is the first of the page's supported images
/// to bring its payload, and the payload was not seen before the page.
pub open spec fn spec_first_sighting(
    candidates: Seq<ImageCandidate>,
    seen: Set<Seq<u8>>,
    index: int,
) -> bool {
    !seen.contains(candidates[index].payload@) && !spec_brought_earlier(candidates, index)
}

/// The fingerprints that are seen once the first `count` images of a page
/// are through: those seen before, and the payloads of the supported ones.
pub open spec fn spec_seen_after(
    candidates: Seq<ImageCandidate>,
    seen: Set<Seq<u8>>,
    count: int,
) -> Set<Seq<u8>> {
    Set::new(
        |p: Seq<u8>|
            seen.contains(p) || exists|j: int|
                0 <= j < count && spec_supported(#[trigger] candidates[j]) && candidates[j].payload@
                    == p,
    )
}

/// What becomes of the image at `index` when one owner of the fingerprints
/// works through the page from its first image on.
pub open spec fn spec_page_verdict(
    task: PageTask,
    candidates: Seq<ImageCandidate>,
    seen: Set<Seq<u8>>,
    index: int,
) -> VerdictView {
    spec_verdict(
        task,
        candidates[index],
        spec_ordinal(index),
        spec_first_sighting(candidates, seen, index),
    )
}

/// The verdict on a supported image whose claim has been made.
fn settle(task: &PageTask, ordinal: u64, ext: &str, fresh: bool) -> (verdict: ImageVerdict)
    ensures
        verdict@ == (if fresh {
            VerdictView::Write { file_name: spec_image_file_name(spec_slot(*task, ordinal), ext@) }
        } else {
            VerdictView::Duplicate
        }),
{
    if fresh {
        let slot = ImageSlot {
            stamp: task.stamp,
            image: ordinal,
            page: task.page,
            dispatcher: task.dispatcher,
            worker: task.worker,
        };
        ImageVerdict::Write { file_name: image_file_name(&slot, ext) }
    } else {
        ImageVerdict::Duplicate
    }
}

/// The verdict on the image with this ordinal of a page, for the owner of
/// the fingerprints: a supported image claims its payload in `seen`.
pub fn judge_image(
    task: &PageTask,
    ordinal: u64,
    candidate: &ImageCandidate,
    seen: &mut FingerprintSet,
) -> (verdict: ImageVerdict)
    ensures
        verdict@ == spec_verdict(
            *task,
            *candidate,
            ordinal,
            !old(seen)@.contains(candidate.payload@),
        ),
        final(seen)@ == (if spec_supported(*candidate) {
            old(seen)@.insert(candidate.payload@)
        } else {
            old(seen)@
        }),
{
    match extension_for(candidate.filter) {
        None => ImageVerdict::Unsupported,
        Some(ext) => {
            let fresh = seen.insert_if_absent(&candidate.payload);
            settle(task, ordinal, ext, fresh)
        },
    }
}

/// The verdict on the image with this ordinal of a page, for a worker that
/// shares the fingerprints with others: a supported image claims its payload
/// in `cache`. Whether the claim succeeds depends on the other workers; the
/// verdict is that of [`judge_image`] for one of the two answers.
pub fn judge_shared_image(
    task: &PageTask,
    ordinal: u64,
    candidate: &ImageCandidate,
    cache: &DedupCache,
) -> (verdict: ImageVerdict)
    ensures
        verdict@ == spec_verdict(*task, *candidate, ordinal, true) || verdict@ == spec_verdict(
            *task,
            *candidate,
            ordinal,
            false,
        ),
{
    match extension_for(candidate.filter) {
        None => ImageVerdict::Unsupported,
        Some(ext) => {
            let fresh = cache.insert_if_absent(&candidate.payload);
            settle(task, ordinal, ext, fresh)
        },
    }
}

/// Works through the images of a page for the owner of the fingerprints:
/// one verdict for each image, in the images' order.
pub fn plan_page(
    task: &PageTask,
    candidates: &Vec<ImageCandidate>,
    seen: &mut FingerprintSet,
) -> (verdicts: Vec<ImageVerdict>)
    ensures
        verdicts.len() == candidates.len(),
        forall|k: int|
            0 <= k < candidates.len() ==> (#[trigger] verdicts[k])@ == spec_page_verdict(
                *task,
                candidates@,
                old(seen)@,
                k,
            ),
        final(seen)@ == spec_seen_after(candidates@, old(seen)@, candidates.len() as int),
{
    let mut verdicts: Vec<ImageVerdict> = Vec::new();
    let mut at: usize = 0;
    assert(seen@ =~= spec_seen_after(candidates@, old(seen)@, 0));
    while at < candidates.len()
        invariant
            at <= candidates.len(),
            verdicts.len() == at,
            forall|k: int|
                0 <= k < at ==> (#[trigger] verdicts[k])@ == spec_page_verdict(
                    *task,
                    candidates@,
                    old(seen)@,
                    k,
                ),
            seen@ == spec_seen_after(candidates@, old(seen)@, at as int),
        decreases candidates.len() - at,
    {
        let ghost before = seen@;
        let verdict = judge_image(task, (at + 1) as u64, &candidates[at], seen);
        proof {
            let mine = candidates@[at as int];
            assert(before.contains(mine.payload@) <==> !spec_first_sighting(
                candidates@,
                old(seen)@,
                at as int,
            ));
            assert(seen@ =~= spec_seen_after(candidates@, old(seen)@, at + 1)) by {
                assert forall|p: Seq<u8>|
                    spec_seen_after(candidates@, old(seen)@, at + 1).contains(p) implies seen@.contains(
                    p,
                ) by {
                    if !spec_seen_after(candidates@, old(seen)@, at as int).contains(p) {
                        let j = choose|j: int|
                            0 <= j < at + 1 && spec_supported(#[trigger] candidates@[j])
                                && candidates@[j].payload@ == p;
                        assert(j == at);
                    }
                }
                assert forall|p: Seq<u8>| seen@.contains(p) implies spec_seen_after(
                    candidates@,
                    old(seen)@,
                    at + 1,
                ).contains(p) by {
                    if before.contains(p) {
                        if !old(seen)@.contains(p) {
                            let j = choose|j: int|
                                0 <= j < at && spec_supported(#[trigger] candidates@[j])
                                    && candidates@[j].payload@ == p;
                            assert(0 <= j < at + 1 && spec_supported(candidates@[j])
                                && candidates@[j].payload@ == p);
                        }
                    } else {
                        assert(spec_supported(candidates@[at as int]) && mine.payload@ == p);
                    }
                }
            }
        }
        verdicts.push(verdict);
        at = at + 1;
    }
    verdicts
}

/// Whether an earlier supported image of the page brings the payload of
/// the image at `index`.
fn brought_earlier(candidates: &Vec<ImageCandidate>, index: usize) -> (earlier: bool)
    requires
        index < candidates.len(),
    ensures
        earlier == spec_brought_earlier(candidates@, index as int),
{
    let mut at: usize = 0;
    while at < index
        invariant
            at <= index < candidates.len(),
            forall|j: int|
                0 <= j < at && spec_supported(#[trigger] candidates@[j]) ==> candidates@[j].payload@
                    != candidates@[index as int].payload@,
        decreases index - at,
    {
        if extension_for(candidates[at].filter).is_some() && same_bytes(
            &candidates[at].payload,
            &candidates[index].payload,
        ) {
            return true;
        }
        at = at + 1;
    }
    false
}

/// Works through the images of a page for a worker that shares the
/// fingerprints with others: one verdict for each image, in the images'
/// order. A supported image whose payload an earlier supported image of the
/// page brings is a duplicate; any other supported image claims its payload
/// in `cache`, and is written if the claim succeeds. Whether it succeeds
/// depends on the other workers; the rest is as in [`plan_page`].
pub fn extract_page(
    task: &PageTask,
    candidates: &Vec<ImageCandidate>,
    cache: &DedupCache,
) -> (verdicts: Vec<ImageVerdict>)
    ensures
        verdicts.len() == candidates.len(),
        forall|k: int|
            0 <= k < candidates.len() ==> {
                let verdict = (#[trigger] verdicts[k])@;
                ||| verdict == spec_verdict(*task, candidates@[k], spec_ordinal(k), false)
                ||| verdict == spec_verdict(*task, candidates@[k], spec_ordinal(k), true)
                    && !spec_brought_earlier(candidates@, k)
            },
{
    let mut verdicts: Vec<ImageVerdict> = Vec::new();
    let mut at: usize = 0;
    while at < candidates.len()
        invariant
            at <= candidates.len(),
            verdicts.len() == at,
            forall|k: int|
                0 <= k < at ==> {
                    let verdict = (#[trigger] verdicts[k])@;
                    ||| verdict == spec_verdict(*task, candidates@[k], spec_ordinal(k), false)
                    ||| verdict == spec_verdict(*task, candidates@[k], spec_ordinal(k), true)
                        && !spec_brought_earlier(candidates@, k)
                },
        decreases candidates.len() - at,
    {
        let candidate = &candidates[at];
        let verdict = if extension_for(candidate.filter).is_some() && brought_earlier(
            candidates,
            at,
        ) {
            ImageVerdict::Duplicate
        } else {
            judge_shared_image(task, (at + 1) as u64, candidate, cache)
        };
        verdicts.push(verdict);
        at = at + 1;
    }
    verdicts
}

/// Whether the image at `index` is written when one owner of the
/// fingerprints works through the images in their order.
pub open spec fn spec_written(
    candidates: Seq<ImageCandidate>,
    seen: Set<Seq<u8>>,
    index: int,
) -> bool {
    spec_supported(candidates[index]) && spec_first_sighting(candidates, seen, index)
}

/// Among the first `count` images, the first supported one with the payload.
proof fn lemma_first_carrier(candidates: Seq<ImageCandidate>, payload: Seq<u8>, count: int)
    requires
        0 <= count <= candidates.len(),
        exists|k: int|
            0 <= k < count && spec_supported(#[trigger] candidates[k]) && candidates[k].payload@
                == payload,
    ensures
        exists|k: int|
            0 <= k < count && spec_supported(#[trigger] candidates[k]) && candidates[k].payload@
                == payload && forall|j: int|
                0 <= j < k && spec_supported(#[trigger] candidates[j]) ==> candidates[j].payload@
                    != payload,
    decreases count,
{
    let last = count - 1;
    if exists|k: int|
        0 <= k < last && spec_supported(#[trigger] candidates[k]) && candidates[k].payload@
            == payload {
        lemma_first_carrier(candidates, payload, last);
    } else {
        assert(spec_supported(candidates[last]) && candidates[last].payload@ == payload);
    }
}

/// Deduplication. Whatever the order in which the images of a document are
/// met, a payload is written exactly once if a supported image brings it and
/// it was not seen before, and not at all otherwise.
pub proof fn lemma_one_write_per_payload(
    candidates: Seq<ImageCandidate>,
    seen: Set<Seq<u8>>,
    payload: Seq<u8>,
)
    ensures
        forall|a: int, b: int|
            0 <= a < b < candidates.len() && candidates[a].payload@ == payload
                && candidates[b].payload@ == payload ==> !(spec_written(candidates, seen, a)
                && spec_written(candidates, seen, b)),
        (exists|k: int|
            0 <= k < candidates.len() && candidates[k].payload@ == payload && spec_written(
                candidates,
                seen,
                k,
            )) <==> (!seen.contains(payload) && exists|k: int|
            0 <= k < candidates.len() && spec_supported(#[trigger] candidates[k])
                && candidates[k].payload@ == payload),
{
    if !seen.contains(payload) && exists|k: int|
        0 <= k < candidates.len() && spec_supported(#[trigger] candidates[k])
            && candidates[k].payload@ == payload {
        lemma_first_carrier(candidates, payload, candidates.len() as int);
        let first = choose|k: int|
            0 <= k < candidates.len() && spec_supported(#[trigger] candidates[k])
                && candidates[k].payload@ == payload && forall|j: int|
                0 <= j < k && spec_supported(#[trigger] candidates[j]) ==> candidates[j].payload@
                    != payload;
        assert(candidates[first].payload@ == payload && spec_written(candidates, seen, first));
    }
}

/// The pages of a document, worked through one after the other by one owner
/// of the fingerprints, fare as their images would in one row: an image of
/// the later page is written exactly when it would be written there, and the
/// same fingerprints are seen in the end.
pub proof fn lemma_pages_in_a_row(
    earlier: Seq<ImageCandidate>,
    later: Seq<ImageCandidate>,
    seen: Set<Seq<u8>>,
    index: int,
)
    requires
        0 <= index < later.len(),
    ensures
        spec_written(later, spec_seen_after(earlier, seen, earlier.len() as int), index)
            == spec_written(earlier + later, seen, earlier.len() + index),
        spec_seen_after(
            later,
            spec_seen_after(earlier, seen, earlier.len() as int),
            later.len() as int,
        ) == spec_seen_after(earlier + later, seen, (earlier.len() + later.len()) as int),
{
    let row = earlier + later;
    let between = spec_seen_after(earlier, seen, earlier.len() as int);
    let mine = later[index].payload@;
    assert(forall|j: int| 0 <= j < earlier.len() ==> row[j] == earlier[j]);
    assert(forall|j: int| 0 <= j < later.len() ==> row[earlier.len() + j] == later[j]);
    if spec_first_sighting(later, between, index) {
        assert forall|j: int|
            0 <= j < earlier.len() + index && spec_supported(#[trigger] row[j]) implies row[j].payload@
            != mine by {
            if j < earlier.len() {
                assert(spec_supported(earlier[j]));
                if earlier[j].payload@ == mine {
                    assert(between.contains(mine));
                }
            } else {
                assert(row[j] == later[j - earlier.len()]);
            }
        }
    }
    if spec_first_sighting(row, seen, earlier.len() + index) {
        assert forall|j: int| 0 <= j < index && spec_supported(#[trigger] later[j]) implies later[j].payload@
            != mine by {
            assert(row[earlier.len() + j] == later[j]);
        }
        if between.contains(mine) {
            let j = choose|j: int|
                0 <= j < earlier.len() && spec_supported(#[trigger] earlier[j])
                    && earlier[j].payload@ == mine;
            assert(row[j] == earlier[j]);
        }
    }
    let stepwise = spec_seen_after(later, between, later.len() as int);
    let at_once = spec_seen_after(row, seen, (earlier.len() + later.len()) as int);
    assert forall|p: Seq<u8>| stepwise.contains(p) implies at_once.contains(p) by {
        if between.contains(p) {
            if !seen.contains(p) {
                let j = choose|j: int|
                    0 <= j < earlier.len() && spec_supported(#[trigger] earlier[j])
                        && earlier[j].payload@ == p;
                assert(spec_supported(row[j]) && row[j].payload@ == p);
            }
        } else {
            let j = choose|j: int|
                0 <= j < later.len() && spec_supported(#[trigger] later[j]) && later[j].payload@
                    == p;
            assert(spec_supported(row[earlier.len() + j]) && row[earlier.len() + j].payload@ == p);
        }
    }
    assert forall|p: Seq<u8>| at_once.contains(p) implies stepwise.contains(p) by {
        if !seen.contains(p) {
            let j = choose|j: int|
                0 <= j < earlier.len() + later.len() && spec_supported(#[trigger] row[j])
                    && row[j].payload@ == p;
            if j < earlier.len() {
                assert(spec_supported(earlier[j]) && earlier[j].payload@ == p);
                assert(between.contains(p));
            } else {
                assert(spec_supported(later[j - earlier.len()]) && later[j - earlier.len()].payload@
                    == p);
            }
        } else {
            assert(between.contains(p));
        }
    }
    assert(stepwise =~= at_once);
}

/// How a page ended.
#[derive(Clone, Copy, Debug, PartialEq, Eq, Structural)]
pub enum PageOutcome {
    /// The page was worked through; `failures` of its images were skipped,
    /// for an unsupported format or a file that could not be written.
    Completed { failures: usize },
    /// The page was given up: it could not be enumerated, its resources
    /// could not be resolved, or the bytes of one of its images could not be
    /// read.
    Abandoned,
}

/// Whether the image at `index` counts as a failure of its page: its format
/// is not supported, or it was to be written and `written` does not say
/// that it was.
pub open spec fn spec_failed(verdicts: Seq<VerdictView>, written: Seq<bool>, index: int) -> bool {
    match verdicts[index] {
        VerdictView::Unsupported => true,
        VerdictView::Duplicate => false,
        VerdictView::Write { .. } => !(index < written.len() && written[index]),
    }
}

/// Number of failures among the first `count` images of a page.
pub open spec fn spec_failures(verdicts: Seq<VerdictView>, written: Seq<bool>, count: int) -> int
    decreases count,
{
    if count <= 0 {
        0
    } else {
        spec_failures(verdicts, written, count - 1) + (if spec_failed(
            verdicts,
            written,
            count - 1,
        ) {
            1int
        } else {
            0int
        })
    }
}

/// The views of the verdicts of a page.
pub open spec fn spec_verdict_views(verdicts: Seq<ImageVerdict>) -> Seq<VerdictView> {
    Seq::new(verdicts.len(), |k: int| verdicts[k]@)
}

/// How a page ended whose images got these verdicts. `written[k]` says
/// whether the file of image `k` was written in full; it counts for the
/// images that were to be written, and one that it does not reach counts as
/// not written. `cut_short` says that the bytes of a later image could not
/// be read, so that the page is given up after the images that are here.
pub fn settle_page(verdicts: &Vec<ImageVerdict>, written: &Vec<bool>, cut_short: bool) -> (outcome:
    PageOutcome)
    ensures
        cut_short ==> outcome == PageOutcome::Abandoned,
        !cut_short ==> outcome == (PageOutcome::Completed {
            failures: spec_failures(
                spec_verdict_views(verdicts@),
                written@,
                verdicts.len() as int,
            ) as usize,
        }),
        spec_failures(spec_verdict_views(verdicts@), written@, verdicts.len() as int)
            <= verdicts.len(),
{
    let ghost views = spec_verdict_views(verdicts@);
    let mut failures: usize = 0;
    let mut at: usize = 0;
    while at < verdicts.len()
        invariant
            at <= verdicts.len(),
            views == spec_verdict_views(verdicts@),
            failures == spec_failures(views, written@, at as int),
            failures <= at,
        decreases verdicts.len() - at,
    {
        let failed = match &verdicts[at] {
            ImageVerdict::Unsupported => true,
            ImageVerdict::Duplicate => false,
            ImageVerdict::Write { .. } => !(at < written.len() && written[at]),
        };
        assert(failed == spec_failed(views, written@, at as int));
        if failed {
            failures = failures + 1;
        }
        at = at + 1;
    }
    if cut_short {
        PageOutcome::Abandoned
    } else {
        PageOutcome::Completed { failures }
    }
}

} // verus!
