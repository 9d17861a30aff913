//! The work on one document: the stages that its dispatcher goes through,
//! what it asks of its surroundings at each stage, and the code that it
//! reports in the end.

use crate::extract::PageOutcome;
use crate::paths::is_valid_file;
use crate::paths::spec_accepted;
use crate::paths::spec_without_extension;
use crate::paths::without_extension;
use crate::paths::EntryKind;
use crate::paths::PathLookup;
use vstd::prelude::*;

verus! {

/// How a unit of work ended: a page's document, or the batch of documents.
#[derive(Clone, Copy, Debug, PartialEq, Eq, Structural)]
pub enum ResultCode {
    /// Everything was done.
    Success,
    /// The unit was worked through, but something in it was skipped.
    Degraded,
    /// The document's path is not that of a readable regular file.
    InvalidDocument,
    /// The output directory of the document could not be created.
    DirectoryFailed,
    /// The document could not be opened.
    OpenFailed,
    /// The source path is not that of a directory.
    InvalidSource,
    /// The source directory could not be listed.
    ListingFailed,
}

impl ResultCode {
    /// The number that stands for this code at the process boundary.
    pub open spec fn spec_code(self) -> u32 {
        match self {
            ResultCode::Success => 0,
            ResultCode::Degraded => 1,
            ResultCode::InvalidSource => 10,
            ResultCode::ListingFailed => 11,
            ResultCode::InvalidDocument => 20,
            ResultCode::DirectoryFailed => 21,
            ResultCode::OpenFailed => 22,
        }
    }

    /// The number that stands for this code at the process boundary: zero
    /// for success only.
    pub fn code(self) -> (number: u32)
        ensures
            number == self.spec_code(),
            number == 0 <==> self == ResultCode::Success,
    {
        match self {
            ResultCode::Success => 0,
            ResultCode::Degraded => 1,
            ResultCode::InvalidSource => 10,
            ResultCode::ListingFailed => 11,
            ResultCode::InvalidDocument => 20,
            ResultCode::DirectoryFailed => 21,
            ResultCode::OpenFailed => 22,
        }
    }
}

/// Whether a page ended without any failure.
pub open spec fn spec_clean(outcome: PageOutcome) -> bool {
    outcome == (PageOutcome::Completed { failures: 0 })
}

/// The code of a document whose pages ended like this: success if every
/// page is clean, degraded otherwise.
pub open spec fn spec_document_code(outcomes: Seq<PageOutcome>) -> ResultCode {
    if forall|k: int| 0 <= k < outcomes.len() ==> spec_clean(#[trigger] outcomes[k]) {
        ResultCode::Success
    } else {
        ResultCode::Degraded
    }
}

/// The code of a document from the outcomes of its pages, in any order.
pub fn document_code(outcomes: &Vec<PageOutcome>) -> (code: ResultCode)
    ensures
        code == spec_document_code(outcomes@),
{
    let mut at: usize = 0;
    while at < outcomes.len()
        invariant
            at <= outcomes.len(),
            forall|k: int| 0 <= k < at ==> spec_clean(#[trigger] outcomes@[k]),
        decreases outcomes.len() - at,
    {
        match outcomes[at] {
            PageOutcome::Completed { failures } => {
                if failures != 0 {
                    assert(!spec_clean(outcomes@[at as int]));
                    return ResultCode::Degraded;
                }
            },
            PageOutcome::Abandoned => {
                assert(!spec_clean(outcomes@[at as int]));
                return ResultCode::Degraded;
            },
        }
        at = at + 1;
    }
    ResultCode::Success
}

/// The code of a document does not depend on the order in which its pages
/// ended.
pub proof fn lemma_document_code_ignores_order(first: Seq<PageOutcome>, second: Seq<PageOutcome>)
    requires
        first.to_multiset() == second.to_multiset(),
    ensures
        spec_document_code(first) == spec_document_code(second),
{
    first.to_multiset_ensures();
    second.to_multiset_ensures();
    assert forall|k: int| 0 <= k < first.len() implies second.contains(#[trigger] first[k]) by {
        assert(first.contains(first[k]));
        assert(first.to_multiset().count(first[k]) > 0);
        assert(second.to_multiset().count(first[k]) > 0);
    }
    assert forall|k: int| 0 <= k < second.len() implies first.contains(#[trigger] second[k]) by {
        assert(second.contains(second[k]));
        assert(second.to_multiset().count(second[k]) > 0);
        assert(first.to_multiset().count(second[k]) > 0);
    }
}

/// Where the dispatcher of a document stands.
#[derive(Debug)]
pub enum DocumentStage {
    /// The document's path has to be resolved.
    Validating,
    /// The path is that of a file. Its output directory has to be looked
    /// for, and, once it is known to be missing (`probed`), to be created.
    DirectoryPrep { document: String, directory: String, probed: bool },
    /// The output directory was created. The document has to be opened.
    Open { document: String, directory: String },
    /// The document is open. Its pages have to be worked through.
    Extracting { directory: String },
    /// The work on the document is over.
    Joined { code: ResultCode },
}

/// A [`DocumentStage`] with its paths as sequences of characters.
pub enum StageView {
    Validating,
    DirectoryPrep { document: Seq<char>, directory: Seq<char>, probed: bool },
    Open { document: Seq<char>, directory: Seq<char> },
    Extracting { directory: Seq<char> },
    Joined { code: ResultCode },
}

impl View for DocumentStage {
    type V = StageView;

    open spec fn view(&self) -> StageView {
        match self {
            DocumentStage::Validating => StageView::Validating,
            DocumentStage::DirectoryPrep { document, directory, probed } => StageView::DirectoryPrep {
                document: document@,
                directory: directory@,
                probed: *probed,
            },
            DocumentStage::Open { document, directory } => StageView::Open {
                document: document@,
                directory: directory@,
            },
            DocumentStage::Extracting { directory } => StageView::Extracting {
                directory: directory@,
            },
            DocumentStage::Joined { code } => StageView::Joined { code: *code },
        }
    }
}

/// What the dispatcher asks of its surroundings.
#[derive(Debug)]
pub enum DocumentAction {
    /// Resolve the document's path, and answer with [`DocumentEvent::Located`].
    Locate,
    /// Say whether this directory exists, with [`DocumentEvent::DirectoryProbed`].
    ProbeDirectory { directory: String },
    /// Create this directory, and answer with [`DocumentEvent::DirectoryCreated`].
    CreateDirectory { directory: String },
    /// Open this document, and answer with [`DocumentEvent::Opened`].
    OpenDocument { document: String },
    /// Work through the pages of the open document with a new cache of
    /// fingerprints, write the images into this directory, wait for all
    /// pages, and answer with [`DocumentEvent::PagesJoined`].
    ExtractPages { directory: String },
    /// Report this code: the work on the document is over.
    Finish { code: ResultCode },
}

/// A [`DocumentAction`] with its paths as sequences of characters.
pub enum ActionView {
    Locate,
    ProbeDirectory { directory: Seq<char> },
    CreateDirectory { directory: Seq<char> },
    OpenDocument { document: Seq<char> },
    ExtractPages { directory: Seq<char> },
    Finish { code: ResultCode },
}

impl View for DocumentAction {
    type V = ActionView;

    open spec fn view(&self) -> ActionView {
        match self {
            DocumentAction::Locate => ActionView::Locate,
            DocumentAction::ProbeDirectory { directory } => ActionView::ProbeDirectory {
                directory: directory@,
            },
            DocumentAction::CreateDirectory { directory } => ActionView::CreateDirectory {
                directory: directory@,
            },
            DocumentAction::OpenDocument { document } => ActionView::OpenDocument {
                document: document@,
            },
            DocumentAction::ExtractPages { directory } => ActionView::ExtractPages {
                directory: directory@,
            },
            DocumentAction::Finish { code } => ActionView::Finish { code: *code },
        }
    }
}

/// What the surroundings answer.
#[derive(Debug)]
pub enum DocumentEvent {
    /// What the filesystem said of the document's path.
    Located { lookup: PathLookup },
    /// Whether the output directory exists.
    DirectoryProbed { present: bool },
    /// Whether the output directory was created.
    DirectoryCreated { created: bool },
    /// Whether the document was opened.
    Opened { opened: bool },
    /// How the pages ended, one outcome for each page of the document, a
    /// page that could not be enumerated included.
    PagesJoined { outcomes: Vec<PageOutcome> },
}

/// What the dispatcher asks at a stage.
pub open spec fn spec_action(stage: StageView) -> ActionView {
    match stage {
        StageView::Validating => ActionView::Locate,
        StageView::DirectoryPrep { directory, probed, .. } => if probed {
            ActionView::CreateDirectory { directory }
        } else {
            ActionView::ProbeDirectory { directory }
        },
        StageView::Open { document, .. } => ActionView::OpenDocument { document },
        StageView::Extracting { directory } => ActionView::ExtractPages { directory },
        StageView::Joined { code } => ActionView::Finish { code },
    }
}

/// The stage that follows on an event. An event that the stage does not
/// wait for changes nothing.
pub open spec fn spec_advance(stage: StageView, event: DocumentEvent) -> StageView {
    match (stage, event) {
        (StageView::Validating, DocumentEvent::Located { lookup }) => match spec_accepted(
            lookup,
            EntryKind::File,
        ) {
            Some(document) => StageView::DirectoryPrep {
                document,
                directory: spec_without_extension(document),
                probed: false,
            },
            None => StageView::Joined { code: ResultCode::InvalidDocument },
        },
        (
            StageView::DirectoryPrep { document, directory, probed: false },
            DocumentEvent::DirectoryProbed { present },
        ) => if present {
            StageView::Joined { code: ResultCode::Success }
        } else {
            StageView::DirectoryPrep { document, directory, probed: true }
        },
        (
            StageView::DirectoryPrep { document, directory, probed: true },
            DocumentEvent::DirectoryCreated { created },
        ) => if created {
            StageView::Open { document, directory }
        } else {
            StageView::Joined { code: ResultCode::DirectoryFailed }
        },
        (StageView::Open { document, directory }, DocumentEvent::Opened { opened }) => if opened {
            StageView::Extracting { directory }
        } else {
            StageView::Joined { code: ResultCode::OpenFailed }
        },
        (StageView::Extracting { directory }, DocumentEvent::PagesJoined { outcomes }) => StageView::Joined {
            code: spec_document_code(outcomes@),
        },
        _ => stage,
    }
}

impl DocumentStage {
    /// The stage at which every dispatcher starts.
    pub fn start() -> (stage: DocumentStage)
        ensures
            stage@ == StageView::Validating,
    {
        DocumentStage::Validating
    }

    /// What the dispatcher asks at this stage.
    pub fn action(&self) -> (action: DocumentAction)
        ensures
            action@ == spec_action(self@),
    {
        match self {
            DocumentStage::Validating => DocumentAction::Locate,
            DocumentStage::DirectoryPrep { directory, probed, .. } => {
                if *probed {
                    DocumentAction::CreateDirectory { directory: directory.clone() }
                } else {
                    DocumentAction::ProbeDirectory { directory: directory.clone() }
                }
            },
            DocumentStage::Open { document, .. } => DocumentAction::OpenDocument {
                document: document.clone(),
            },
            DocumentStage::Extracting { directory } => DocumentAction::ExtractPages {
                directory: directory.clone(),
            },
            DocumentStage::Joined { code } => DocumentAction::Finish { code: *code },
        }
    }

    /// The stage that follows on an event.
    pub fn advance(self, event: DocumentEvent) -> (next: DocumentStage)
        ensures
            next@ == spec_advance(self@, event),
    {
        match self {
            DocumentStage::Validating => match event {
                DocumentEvent::Located { lookup } => match is_valid_file(&lookup) {
                    Ok(document) => {
                        let directory = without_extension(document.as_str());
                        DocumentStage::DirectoryPrep { document, directory, probed: false }
                    },
                    Err(_) => DocumentStage::Joined { code: ResultCode::InvalidDocument },
                },
                _ => DocumentStage::Validating,
            },
            DocumentStage::DirectoryPrep { document, directory, probed } => match event {
                DocumentEvent::DirectoryProbed { present } => {
                    if probed {
                        DocumentStage::DirectoryPrep { document, directory, probed }
                    } else if present {
                        DocumentStage::Joined { code: ResultCode::Success }
                    } else {
                        DocumentStage::DirectoryPrep { document, directory, probed: true }
                    }
                },
                DocumentEvent::DirectoryCreated { created } => {
                    if !probed {
                        DocumentStage::DirectoryPrep { document, directory, probed }
                    } else if created {
                        DocumentStage::Open { document, directory }
                    } else {
                        DocumentStage::Joined { code: ResultCode::DirectoryFailed }
                    }
                },
                _ => DocumentStage::DirectoryPrep { document, directory, probed },
            },
            DocumentStage::Open { document, directory } => match event {
                DocumentEvent::Opened { opened } => {
                    if opened {
                        DocumentStage::Extracting { directory }
                    } else {
                        DocumentStage::Joined { code: ResultCode::OpenFailed }
                    }
                },
                _ => DocumentStage::Open { document, directory },
            },
            DocumentStage::Extracting { directory } => match event {
                DocumentEvent::PagesJoined { outcomes } => DocumentStage::Joined {
                    code: document_code(&outcomes),
                },
                _ => DocumentStage::Extracting { directory },
            },
            DocumentStage::Joined { code } => DocumentStage::Joined { code },
        }
    }
}

/// What the surroundings of one document answer to each thing that its
/// dispatcher may ask. An answer to what is never asked counts for nothing.
#[derive(Debug)]
pub struct DocumentAnswers {
    /// What the filesystem says of the document's path.
    pub lookup: PathLookup,
    /// Whether the output directory is there before the run.
    pub directory_present: bool,
    /// Whether the output directory can be created.
    pub directory_created: bool,
    /// Whether the document can be opened.
    pub opened: bool,
    /// How the pages end.
    pub outcomes: Vec<PageOutcome>,
}

/// The code of a run on a document: the first of these that applies. The
/// path is not that of a file; the output directory is there already, which
/// is a success without any work; the directory cannot be created; the
/// document cannot be opened; the pages were worked through.
pub open spec fn spec_get_images(answers: DocumentAnswers) -> ResultCode {
    if spec_accepted(answers.lookup, EntryKind::File) is None {
        ResultCode::InvalidDocument
    } else if answers.directory_present {
        ResultCode::Success
    } else if !answers.directory_created {
        ResultCode::DirectoryFailed
    } else if !answers.opened {
        ResultCode::OpenFailed
    } else {
        spec_document_code(answers.outcomes@)
    }
}

/// Runs the dispatcher of a document against the answers of its
/// surroundings, and gives the code that it reports.
pub fn get_images(answers: DocumentAnswers) -> (code: ResultCode)
    ensures
        code == spec_get_images(answers),
{
    let located = DocumentStage::start().advance(
        DocumentEvent::Located { lookup: answers.lookup },
    );
    let probed = located.advance(
        DocumentEvent::DirectoryProbed { present: answers.directory_present },
    );
    let created = probed.advance(
        DocumentEvent::DirectoryCreated { created: answers.directory_created },
    );
    let opened = created.advance(DocumentEvent::Opened { opened: answers.opened });
    let joined = opened.advance(DocumentEvent::PagesJoined { outcomes: answers.outcomes });
    match joined.action() {
        DocumentAction::Finish { code } => code,
        _ => ResultCode::Degraded,
    }
}

/// Whether an event answers what the stage asks, and says of the output
/// directory what is the case: `there` is whether the directory is there
/// when the stage asks.
pub open spec fn spec_answers(stage: StageView, there: bool, event: DocumentEvent) -> bool {
    match spec_action(stage) {
        ActionView::Locate => event is Located,
        ActionView::ProbeDirectory { .. } => event == (DocumentEvent::DirectoryProbed { present: there }),
        ActionView::CreateDirectory { .. } => event is DirectoryCreated,
        ActionView::OpenDocument { .. } => event is Opened,
        ActionView::ExtractPages { .. } => event is PagesJoined,
        ActionView::Finish { .. } => false,
    }
}

/// Whether the output directory is there after an event: it is if it was,
/// or if the event says that it was created. Nothing in a run removes it.
pub open spec fn spec_exists_after(there: bool, event: DocumentEvent) -> bool {
    there || event == (DocumentEvent::DirectoryCreated { created: true })
}

/// Whether each of the events answers what the dispatcher asks when it
/// comes, for a dispatcher that stands at `stage` and an output directory of
/// which `there` says whether it is there.
pub open spec fn spec_run_answers(stage: StageView, there: bool, events: Seq<DocumentEvent>) -> bool
    decreases events.len(),
{
    events.len() > 0 ==> {
        &&& spec_answers(stage, there, events[0])
        &&& spec_run_answers(
            spec_advance(stage, events[0]),
            spec_exists_after(there, events[0]),
            events.drop_first(),
        )
    }
}

/// The stage after the events.
pub open spec fn spec_run_stage(stage: StageView, events: Seq<DocumentEvent>) -> StageView
    decreases events.len(),
{
    if events.len() == 0 {
        stage
    } else {
        spec_run_stage(spec_advance(stage, events[0]), events.drop_first())
    }
}

/// Whether the output directory is there after the events.
pub open spec fn spec_run_exists(there: bool, events: Seq<DocumentEvent>) -> bool
    decreases events.len(),
{
    if events.len() == 0 {
        there
    } else {
        spec_run_exists(spec_exists_after(there, events[0]), events.drop_first())
    }
}

/// Whether a stage shows that the output directory is there: the document
/// is being opened or worked through, or the work ended on something other
/// than an invalid path or a directory that could not be created.
pub open spec fn spec_past_directory(stage: StageView) -> bool {
    match stage {
        StageView::Validating => false,
        StageView::DirectoryPrep { .. } => false,
        StageView::Open { .. } => true,
        StageView::Extracting { .. } => true,
        StageView::Joined { code } => code != ResultCode::InvalidDocument && code
            != ResultCode::DirectoryFailed,
    }
}

/// A run whose events answer what is asked keeps this: a dispatcher that is
/// past the directory's preparation has its output directory.
proof fn lemma_directory_stays(stage: StageView, there: bool, events: Seq<DocumentEvent>)
    requires
        spec_run_answers(stage, there, events),
        spec_past_directory(stage) ==> there,
    ensures
        spec_past_directory(spec_run_stage(stage, events)) ==> spec_run_exists(there, events),
    decreases events.len(),
{
    if events.len() > 0 {
        lemma_directory_stays(
            spec_advance(stage, events[0]),
            spec_exists_after(there, events[0]),
            events.drop_first(),
        );
    }
}

/// Idempotence. Let a first run on a document end on anything but an
/// invalid path or a directory that could not be created, and let a second
/// run on the same path follow while the output directory stays where it
/// is. Then the second run is over after two answers: it resolves the path,
/// finds the directory, and reports success; it creates nothing, opens
/// nothing and works through no page.
pub proof fn lemma_second_run_skips(
    lookup: PathLookup,
    there: bool,
    first: Seq<DocumentEvent>,
    second: Seq<DocumentEvent>,
)
    requires
        first.len() > 0,
        first[0] == (DocumentEvent::Located { lookup }),
        spec_run_answers(StageView::Validating, there, first),
        spec_run_stage(StageView::Validating, first) is Joined,
        spec_past_directory(spec_run_stage(StageView::Validating, first)),
        second.len() > 0,
        second[0] == (DocumentEvent::Located { lookup }),
        spec_run_answers(StageView::Validating, spec_run_exists(there, first), second),
        spec_run_stage(StageView::Validating, second) is Joined,
    ensures
        second.len() == 2,
        second[1] == (DocumentEvent::DirectoryProbed { present: true }),
        spec_action(spec_advance(StageView::Validating, second[0])) is ProbeDirectory,
        spec_run_stage(StageView::Validating, second) == (StageView::Joined {
            code: ResultCode::Success,
        }),
{
    lemma_directory_stays(StageView::Validating, there, first);
    let after = spec_run_exists(there, first);
    assert(after);
    let located = spec_advance(StageView::Validating, first[0]);
    if spec_accepted(lookup, EntryKind::File) is None {
        lemma_joined_stays(
            ResultCode::InvalidDocument,
            spec_exists_after(there, first[0]),
            first.drop_first(),
        );
        assert(false);
    }
    let rest = second.drop_first();
    assert(spec_run_answers(located, after, rest));
    assert(rest.len() > 0) by {
        if rest.len() == 0 {
            assert(spec_run_stage(located, rest) == located);
        }
    }
    assert(rest[0] == (DocumentEvent::DirectoryProbed { present: true }));
    let found = spec_advance(located, rest[0]);
    assert(found == (StageView::Joined { code: ResultCode::Success }));
    lemma_joined_stays(ResultCode::Success, after, rest.drop_first());
    assert(rest.drop_first().len() == 0);
    assert(second[1] == rest[0]);
}

/// Nothing answers a dispatcher whose work is over: a run that starts
/// there and whose events answer what is asked has no events.
proof fn lemma_joined_stays(code: ResultCode, there: bool, events: Seq<DocumentEvent>)
    requires
        spec_run_answers(StageView::Joined { code }, there, events),
    ensures
        events.len() == 0,
        spec_run_stage(StageView::Joined { code }, events) == (StageView::Joined { code }),
{
}

/// Isolation of failures. Once a document is open, its work ends in success
/// or in a degraded result, whatever happens to its pages: in success
/// exactly when every page is clean. No page can make the document fail.
pub proof fn lemma_pages_never_fail_the_document(directory: Seq<char>, outcomes: Vec<PageOutcome>)
    ensures
        ({
            let end = spec_advance(
                StageView::Extracting { directory },
                DocumentEvent::PagesJoined { outcomes },
            );
            &&& end is Joined
            &&& end->code == ResultCode::Success || end->code == ResultCode::Degraded
            &&& end->code == ResultCode::Success <==> forall|k: int|
                0 <= k < outcomes.len() ==> spec_clean(#[trigger] outcomes@[k])
        }),
{
}

} // verus!
