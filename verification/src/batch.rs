//! The work on a source directory: the stages that the scheduler of a batch
//! goes through, what it asks of its surroundings at each stage, and the
//! code that it reports in the end.

use crate::document::ResultCode;
use crate::paths::is_valid_directory;
use crate::paths::spec_accepted;
use crate::paths::EntryKind;
use crate::paths::PathLookup;
use crate::seek::documents_among;
use crate::seek::spec_documents;
use crate::seek::spec_path_views;
use crate::seek::DirectoryListing;
use vstd::prelude::*;

verus! {

/// The code of a batch whose documents ended like this: success if every
/// document did, degraded otherwise, whatever the codes of the others are.
pub open spec fn spec_batch_code(codes: Seq<ResultCode>) -> ResultCode {
    if forall|k: int| 0 <= k < codes.len() ==> #[trigger] codes[k] == ResultCode::Success {
        ResultCode::Success
    } else {
        ResultCode::Degraded
    }
}

/// The code of a batch from the codes of its documents, in any order.
pub fn batch_code(codes: &Vec<ResultCode>) -> (code: ResultCode)
    ensures
        code == spec_batch_code(codes@),
{
    let mut at: usize = 0;
    while at < codes.len()
        invariant
            at <= codes.len(),
            forall|k: int| 0 <= k < at ==> #[trigger] codes@[k] == ResultCode::Success,
        decreases codes.len() - at,
    {
        if codes[at] != ResultCode::Success {
            return ResultCode::Degraded;
        }
        at = at + 1;
    }
    ResultCode::Success
}

/// The code of a batch does not depend on the order in which its documents
/// ended.
pub proof fn lemma_batch_code_ignores_order(first: Seq<ResultCode>, second: Seq<ResultCode>)
    requires
        first.to_multiset() == second.to_multiset(),
    ensures
        spec_batch_code(first) == spec_batch_code(second),
{
    first.to_multiset_ensures();
    second.to_multiset_ensures();
    assert forall|k: int| 0 <= k < first.len() implies second.contains(#[trigger] first[k]) by {
        assert(second.to_multiset().count(first[k]) > 0);
    }
    assert forall|k: int| 0 <= k < second.len() implies first.contains(#[trigger] second[k]) by {
        assert(first.to_multiset().count(second[k]) > 0);
    }
}

/// Where the scheduler of a batch stands.
#[derive(Debug)]
pub enum BatchStage {
    /// The source path has to be resolved.
    Validating,
    /// The source is a directory. Its entries have to be listed.
    Listing { source: String },
    /// The documents are known. Each has to be worked on.
    Dispatching { documents: Vec<String> },
    /// The work on the batch is over.
    Joined { code: ResultCode },
}

/// A [`BatchStage`] with its paths as sequences of characters.
pub enum BatchStageView {
    Validating,
    Listing { source: Seq<char> },
    Dispatching { documents: Seq<Seq<char>> },
    Joined { code: ResultCode },
}

impl View for BatchStage {
    type V = BatchStageView;

    open spec fn view(&self) -> BatchStageView {
        match self {
            BatchStage::Validating => BatchStageView::Validating,
            BatchStage::Listing { source } => BatchStageView::Listing { source: source@ },
            BatchStage::Dispatching { documents } => BatchStageView::Dispatching {
                documents: spec_path_views(documents@),
            },
            BatchStage::Joined { code } => BatchStageView::Joined { code: *code },
        }
    }
}

/// What the scheduler asks of its surroundings.
#[derive(Debug)]
pub enum BatchAction {
    /// Resolve the source path, and answer with [`BatchEvent::Located`].
    Locate,
    /// List this directory, and answer with [`BatchEvent::Listed`].
    ListDirectory { directory: String },
    /// Work on each of these documents, no more at a time than the main pool
    /// has workers, wait for all of them, and answer with
    /// [`BatchEvent::DocumentsJoined`].
    DispatchDocuments { documents: Vec<String> },
    /// Report this code: the work on the batch is over.
    Finish { code: ResultCode },
}

/// A [`BatchAction`] with its paths as sequences of characters.
pub enum BatchActionView {
    Locate,
    ListDirectory { directory: Seq<char> },
    DispatchDocuments { documents: Seq<Seq<char>> },
    Finish { code: ResultCode },
}

impl View for BatchAction {
    type V = BatchActionView;

    open spec fn view(&self) -> BatchActionView {
        match self {
            BatchAction::Locate => BatchActionView::Locate,
            BatchAction::ListDirectory { directory } => BatchActionView::ListDirectory {
                directory: directory@,
            },
            BatchAction::DispatchDocuments { documents } => BatchActionView::DispatchDocuments {
                documents: spec_path_views(documents@),
            },
            BatchAction::Finish { code } => BatchActionView::Finish { code: *code },
        }
    }
}

/// What the surroundings answer.
#[derive(Debug)]
pub enum BatchEvent {
    /// What the filesystem said of the source path.
    Located { lookup: PathLookup },
    /// What came of listing the source directory.
    Listed { listing: DirectoryListing },
    /// How the documents ended, one code for each document.
    DocumentsJoined { codes: Vec<ResultCode> },
}

/// What the scheduler asks at a stage.
pub open spec fn spec_batch_action(stage: BatchStageView) -> BatchActionView {
    match stage {
        BatchStageView::Validating => BatchActionView::Locate,
        BatchStageView::Listing { source } => BatchActionView::ListDirectory { directory: source },
        BatchStageView::Dispatching { documents } => BatchActionView::DispatchDocuments {
            documents,
        },
        BatchStageView::Joined { code } => BatchActionView::Finish { code },
    }
}

/// The stage that follows on an event. An event that the stage does not
/// wait for changes nothing.
pub open spec fn spec_batch_advance(stage: BatchStageView, event: BatchEvent) -> BatchStageView {
    match (stage, event) {
        (BatchStageView::Validating, BatchEvent::Located { lookup }) => match spec_accepted(
            lookup,
            EntryKind::Directory,
        ) {
            Some(source) => BatchStageView::Listing { source },
            None => BatchStageView::Joined { code: ResultCode::InvalidSource },
        },
        (BatchStageView::Listing { source }, BatchEvent::Listed { listing }) => match listing {
            DirectoryListing::Entries { entries } => BatchStageView::Dispatching {
                documents: spec_documents(entries@),
            },
            DirectoryListing::Unreadable { .. } => BatchStageView::Joined {
                code: ResultCode::ListingFailed,
            },
        },
        (
            BatchStageView::Dispatching { documents },
            BatchEvent::DocumentsJoined { codes },
        ) => BatchStageView::Joined { code: spec_batch_code(codes@) },
        _ => stage,
    }
}

impl BatchStage {
    /// The stage at which every scheduler starts.
    pub fn start() -> (stage: BatchStage)
        ensures
            stage@ == BatchStageView::Validating,
    {
        BatchStage::Validating
    }

    /// What the scheduler asks at this stage.
    pub fn action(&self) -> (action: BatchAction)
        ensures
            action@ == spec_batch_action(self@),
    {
        match self {
            BatchStage::Validating => BatchAction::Locate,
            BatchStage::Listing { source } => BatchAction::ListDirectory {
                directory: source.clone(),
            },
            BatchStage::Dispatching { documents } => {
                let copies = copy_paths(documents);
                BatchAction::DispatchDocuments { documents: copies }
            },
            BatchStage::Joined { code } => BatchAction::Finish { code: *code },
        }
    }

    /// The stage that follows on an event.
    pub fn advance(self, event: BatchEvent) -> (next: BatchStage)
        ensures
            next@ == spec_batch_advance(self@, event),
    {
        match self {
            BatchStage::Validating => match event {
                BatchEvent::Located { lookup } => match is_valid_directory(&lookup) {
                    Ok(source) => BatchStage::Listing { source },
                    Err(_) => BatchStage::Joined { code: ResultCode::InvalidSource },
                },
                _ => BatchStage::Validating,
            },
            BatchStage::Listing { source } => match event {
                BatchEvent::Listed { listing } => match listing {
                    DirectoryListing::Entries { entries } => BatchStage::Dispatching {
                        documents: documents_among(&entries),
                    },
                    DirectoryListing::Unreadable { .. } => BatchStage::Joined {
                        code: ResultCode::ListingFailed,
                    },
                },
                _ => BatchStage::Listing { source },
            },
            BatchStage::Dispatching { documents } => match event {
                BatchEvent::DocumentsJoined { codes } => BatchStage::Joined {
                    code: batch_code(&codes),
                },
                _ => BatchStage::Dispatching { documents },
            },
            BatchStage::Joined { code } => BatchStage::Joined { code },
        }
    }
}

/// What the surroundings of a batch answer to each thing that its scheduler
/// may ask. An answer to what is never asked counts for nothing.
#[derive(Debug)]
pub struct BatchAnswers {
    /// What the filesystem says of the source path.
    pub lookup: PathLookup,
    /// What comes of listing the source directory.
    pub listing: DirectoryListing,
    /// How the documents end.
    pub codes: Vec<ResultCode>,
}

/// The code of a run on a source: the first of these that applies. The path
/// is not that of a directory; the directory cannot be listed; the
/// documents were worked on.
pub open spec fn spec_start(answers: BatchAnswers) -> ResultCode {
    if spec_accepted(answers.lookup, EntryKind::Directory) is None {
        ResultCode::InvalidSource
    } else if answers.listing is Unreadable {
        ResultCode::ListingFailed
    } else {
        spec_batch_code(answers.codes@)
    }
}

/// Runs the scheduler of a batch against the answers of its surroundings,
/// and gives the code that it reports.
pub fn start(answers: BatchAnswers) -> (code: ResultCode)
    ensures
        code == spec_start(answers),
{
    let located = BatchStage::start().advance(BatchEvent::Located { lookup: answers.lookup });
    let listed = located.advance(BatchEvent::Listed { listing: answers.listing });
    let joined = listed.advance(BatchEvent::DocumentsJoined { codes: answers.codes });
    match joined.action() {
        BatchAction::Finish { code } => code,
        _ => ResultCode::Degraded,
    }
}

fn copy_paths(paths: &Vec<String>) -> (copies: Vec<String>)
    ensures
        spec_path_views(copies@) == spec_path_views(paths@),
{
    let mut copies: Vec<String> = Vec::new();
    let mut at: usize = 0;
    while at < paths.len()
        invariant
            at <= paths.len(),
            copies.len() == at,
            forall|k: int| 0 <= k < at ==> (#[trigger] copies@[k])@ == paths@[k]@,
        decreases paths.len() - at,
    {
        copies.push(paths[at].clone());
        at = at + 1;
    }
    copies
}

/// Aggregation only ever lowers the result. A batch reports success exactly
/// when every document does, and one more document that did not succeed
/// turns any batch into a degraded one, whatever the others did.
pub proof fn lemma_any_failure_degrades(codes: Seq<ResultCode>, code: ResultCode)
    ensures
        spec_batch_code(codes.push(code)) == ResultCode::Success <==> spec_batch_code(codes)
            == ResultCode::Success && code == ResultCode::Success,
        spec_batch_code(codes) == ResultCode::Success || spec_batch_code(codes)
            == ResultCode::Degraded,
        spec_batch_code(Seq::<ResultCode>::empty()) == ResultCode::Success,
{
    let grown = codes.push(code);
    if spec_batch_code(codes) == ResultCode::Success && code == ResultCode::Success {
        assert forall|k: int| 0 <= k < grown.len() implies #[trigger] grown[k]
            == ResultCode::Success by {
            if k < codes.len() {
                assert(grown[k] == codes[k]);
            }
        }
    }
    if spec_batch_code(grown) == ResultCode::Success {
        assert(grown[codes.len() as int] == ResultCode::Success);
        assert forall|k: int| 0 <= k < codes.len() implies #[trigger] codes[k]
            == ResultCode::Success by {
            assert(grown[k] == codes[k]);
        }
    }
}

} // verus!
