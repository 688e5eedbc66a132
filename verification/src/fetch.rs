//! The pipeline that fetches an archive from one of several sources and
//! installs it, and the events by which it reports its progress.
//!
//! The pipeline decides; its caller downloads and extracts. The caller tells
//! the pipeline what happened, and the pipeline says what to do next and which
//! progress events to hand to the observer. The sources are tried in their
//! order. Only when the last one has failed does the operation fail.
//!
//! Where something that is not a directory stands at the destination, the
//! operation ends before it has begun: it fails at once, hands no event to the
//! observer and asks for no download.
//!
//! One operation shows one progress bar: the checks before the download end at
//! 20, the download runs from 20 to 80, extraction begins at 80 and the bar
//! ends at 100. The bar never goes back.

use crate::text::{decimal, decimal_text, join, same_text};
use vstd::prelude::*;

verus! {

/// Where the progress bar stands when the download begins.
pub const DOWNLOAD_FROM: u32 = 20;

/// Where the progress bar stands when the download ends and extraction begins.
pub const DOWNLOAD_TO: u32 = 80;

/// Where the progress bar ends.
pub const FULL: u32 = 100;

/// The part of the operation that a progress event speaks of.
#[derive(Clone, Copy, Debug, PartialEq, Eq)]
pub enum Stage {
    Checking,
    Downloading,
    Extracting,
    Completed,
    Failed,
}

/// A notification for the observer.
#[derive(Debug, PartialEq, Eq)]
pub struct ProgressEvent {
    pub stage: Stage,
    /// Between 0 and 100.
    pub percent: u32,
    pub message: String,
}

/// A [`ProgressEvent`] as mathematical values.
pub struct ProgressView {
    pub stage: Stage,
    pub percent: u32,
    pub message: Seq<char>,
}

impl View for ProgressEvent {
    type V = ProgressView;

    open spec fn view(&self) -> ProgressView {
        ProgressView { stage: self.stage, percent: self.percent, message: self.message@ }
    }
}

/// The views of a sequence of events.
pub open spec fn events_view(events: Seq<ProgressEvent>) -> Seq<ProgressView> {
    Seq::new(events.len(), |i: int| events[i]@)
}

/// Why a fetch-and-install operation failed.
#[derive(Clone, Copy, Debug, PartialEq, Eq)]
pub enum FetchError {
    /// Every source was tried and none gave the archive.
    AllSourcesFailed,
    /// The archive was downloaded and could not be extracted.
    ExtractFailed,
    /// Something that is not a directory stands where the archive is to go.
    /// The operation then ends before it has begun: nothing is downloaded and
    /// the observer is told nothing.
    DestinationBlocked,
}

/// How far an operation has come.
#[derive(Clone, Copy, Debug, PartialEq, Eq)]
pub enum FetchPhase {
    /// The destination is being checked.
    Preparing,
    /// The source with this index is being downloaded.
    Downloading { candidate: usize },
    /// The archive is being extracted.
    Extracting,
    /// The archive is installed.
    Completed,
    /// The operation has failed.
    Failed(FetchError),
}

/// What the caller reports to the pipeline.
#[derive(Clone, Copy, Debug, PartialEq, Eq)]
pub enum FetchEvent {
    /// The destination directory is there, made where it was missing.
    DestinationReady,
    /// Something that is not a directory stands at the destination.
    DestinationBlocked,
    /// The download under way has transferred `raw` percent.
    Progress { raw: u32 },
    /// The download under way has failed or has run out of time.
    DownloadFailed,
    /// The download under way has brought the whole archive.
    Downloaded,
    /// The archive has been extracted.
    Extracted,
    /// The archive could not be extracted.
    ExtractFailed,
}

/// What the caller has to do next.
#[derive(Clone, Copy, Debug, PartialEq, Eq)]
pub enum FetchAction {
    /// Go on with what is under way.
    Wait,
    /// Download from the source with this index, over what an earlier
    /// download may have left.
    Download { candidate: usize },
    /// Extract the archive into the destination directory.
    Extract,
    /// The operation is over: return this result.
    Finish(Result<(), FetchError>),
}

/// What the pipeline knows.
pub struct PipelineView {
    /// The number of sources.
    pub candidates: nat,
    /// The name of the archive, for the messages.
    pub artifact: Seq<char>,
    pub phase: FetchPhase,
    /// Where the progress bar stands.
    pub percent: u32,
}

/// The place on the one progress bar of `raw` percent of a download: the
/// download's 0 to 100 fills the bar from 20 to 80, and more than 100 counts
/// as 100.
pub open spec fn band(raw: u32) -> u32 {
    let capped: int = if raw > 100 {
        100
    } else {
        raw as int
    };
    (20 + capped * 3 / 5) as u32
}

/// The progress bar moved up to `target`, or left where it is when it is
/// already further.
pub open spec fn raise(current: u32, target: u32) -> u32 {
    if current < target {
        target
    } else {
        current
    }
}

/// The message of a failure.
pub open spec fn failure_message(e: FetchError) -> Seq<char> {
    match e {
        FetchError::AllSourcesFailed => "所有下载源均失败，请检查网络连接或稍后重试"@,
        FetchError::ExtractFailed => "解压文件失败"@,
        FetchError::DestinationBlocked => "sing-box 路径存在但不是目录"@,
    }
}

/// The message of a download's progress.
pub open spec fn progress_message(raw: u32) -> Seq<char> {
    "正在下载: "@ + decimal(raw as nat) + "%"@
}

/// The end of an operation in failure: the phase, the result and the event
/// that reports it. The bar stays where it is.
pub open spec fn fail(s: PipelineView, e: FetchError) -> (
    PipelineView,
    FetchAction,
    Seq<ProgressView>,
) {
    (
        PipelineView { phase: FetchPhase::Failed(e), ..s },
        FetchAction::Finish(Err(e)),
        seq![ProgressView { stage: Stage::Failed, percent: s.percent, message: failure_message(e) }],
    )
}

/// The end of an operation whose destination is blocked: it fails before it
/// has begun, so the observer is told nothing and nothing is downloaded.
pub open spec fn turn_away(s: PipelineView) -> (PipelineView, FetchAction, Seq<ProgressView>) {
    (
        PipelineView { phase: FetchPhase::Failed(FetchError::DestinationBlocked), ..s },
        FetchAction::Finish(Err(FetchError::DestinationBlocked)),
        Seq::empty(),
    )
}

/// An event that does not belong to the phase: nothing changes.
pub open spec fn stay(s: PipelineView) -> (PipelineView, FetchAction, Seq<ProgressView>) {
    (s, FetchAction::Wait, Seq::empty())
}

/// The pipeline's transition function: the state after an event, what to do
/// next, and the progress events to hand on.
pub open spec fn advance(s: PipelineView, event: FetchEvent) -> (
    PipelineView,
    FetchAction,
    Seq<ProgressView>,
) {
    match (s.phase, event) {
        (FetchPhase::Preparing, FetchEvent::DestinationBlocked) => turn_away(s),
        (FetchPhase::Preparing, FetchEvent::DestinationReady) => {
            let checking = ProgressView {
                stage: Stage::Checking,
                percent: s.percent,
                message: "正在准备下载最新版本..."@,
            };
            if s.candidates == 0 {
                let (t, action, failed) = fail(s, FetchError::AllSourcesFailed);
                (t, action, seq![checking] + failed)
            } else {
                let percent = raise(s.percent, DOWNLOAD_FROM);
                (
                    PipelineView {
                        phase: FetchPhase::Downloading { candidate: 0 },
                        percent,
                        ..s
                    },
                    FetchAction::Download { candidate: 0 },
                    seq![
                        checking,
                        ProgressView {
                            stage: Stage::Downloading,
                            percent,
                            message: "开始下载文件: "@ + s.artifact,
                        },
                    ],
                )
            }
        },
        (FetchPhase::Downloading { candidate }, FetchEvent::Progress { raw }) => {
            let percent = raise(s.percent, band(raw));
            (
                PipelineView { percent, ..s },
                FetchAction::Wait,
                seq![
                    ProgressView {
                        stage: Stage::Downloading,
                        percent,
                        message: progress_message(raw),
                    },
                ],
            )
        },
        (FetchPhase::Downloading { candidate }, FetchEvent::DownloadFailed) => {
            if candidate + 1 < s.candidates {
                (
                    PipelineView {
                        phase: FetchPhase::Downloading { candidate: (candidate + 1) as usize },
                        ..s
                    },
                    FetchAction::Download { candidate: (candidate + 1) as usize },
                    Seq::empty(),
                )
            } else {
                fail(s, FetchError::AllSourcesFailed)
            }
        },
        (FetchPhase::Downloading { candidate }, FetchEvent::Downloaded) => {
            let percent = raise(s.percent, DOWNLOAD_TO);
            (
                PipelineView { phase: FetchPhase::Extracting, percent, ..s },
                FetchAction::Extract,
                seq![
                    ProgressView {
                        stage: Stage::Extracting,
                        percent,
                        message: "正在解压文件..."@,
                    },
                ],
            )
        },
        (FetchPhase::Extracting, FetchEvent::Extracted) => {
            let percent = raise(s.percent, FULL);
            (
                PipelineView { phase: FetchPhase::Completed, percent, ..s },
                FetchAction::Finish(Ok(())),
                seq![
                    ProgressView { stage: Stage::Completed, percent, message: "下载完成！"@ },
                ],
            )
        },
        (FetchPhase::Extracting, FetchEvent::ExtractFailed) => fail(s, FetchError::ExtractFailed),
        _ => stay(s),
    }
}

/// The pipeline before anything has happened.
pub open spec fn initial(candidates: nat, artifact: Seq<char>) -> PipelineView {
    PipelineView { candidates, artifact, phase: FetchPhase::Preparing, percent: 0 }
}

/// The state after a sequence of reports.
pub open spec fn run_state(s: PipelineView, reports: Seq<FetchEvent>) -> PipelineView
    decreases reports.len(),
{
    if reports.len() == 0 {
        s
    } else {
        advance(run_state(s, reports.drop_last()), reports.last()).0
    }
}

/// All progress events that a sequence of reports brings, in their order.
pub open spec fn run_events(s: PipelineView, reports: Seq<FetchEvent>) -> Seq<ProgressView>
    decreases reports.len(),
{
    if reports.len() == 0 {
        Seq::empty()
    } else {
        run_events(s, reports.drop_last()) + advance(
            run_state(s, reports.drop_last()),
            reports.last(),
        ).2
    }
}

/// Whether the bar stands where its phase puts it in an operation that began
/// at the beginning.
pub open spec fn on_track(s: PipelineView) -> bool {
    match s.phase {
        FetchPhase::Preparing => s.percent == 0,
        FetchPhase::Downloading { .. } => DOWNLOAD_FROM <= s.percent <= DOWNLOAD_TO,
        FetchPhase::Extracting => s.percent == DOWNLOAD_TO,
        FetchPhase::Completed => s.percent == FULL,
        FetchPhase::Failed(_) => s.percent <= DOWNLOAD_TO,
    }
}

/// The band of a download lies between 20 and 80 and grows with the download.
pub proof fn lemma_band(raw: u32, later: u32)
    ensures
        DOWNLOAD_FROM <= band(raw) <= DOWNLOAD_TO,
        band(0) == 20,
        band(100) == 80,
        raw <= later ==> band(raw) <= band(later),
{
}

/// One step never moves the bar back: the events of a step begin at or above
/// the bar, do not go down, and end where the bar then stands.
pub proof fn lemma_step_monotone(s: PipelineView, event: FetchEvent)
    ensures
        ({
            let (t, action, events) = advance(s, event);
            &&& s.percent <= t.percent
            &&& forall|i: int|
                0 <= i < events.len() ==> s.percent <= (#[trigger] events[i]).percent
                    <= t.percent
            &&& forall|i: int, j: int|
                #![trigger events[i], events[j]]
                0 <= i <= j < events.len() ==> events[i].percent <= events[j].percent
        }),
{
}

/// In an operation that began at the beginning, the events of a step carry
/// the numbers of their stages, and the bar stays where its phase puts it.
pub proof fn lemma_step_on_track(s: PipelineView, event: FetchEvent)
    requires
        on_track(s),
    ensures
        ({
            let (t, action, events) = advance(s, event);
            &&& on_track(t)
            &&& forall|i: int| 0 <= i < events.len() ==> in_place(#[trigger] events[i])
        }),
{
    lemma_band(0, 0);
    if let FetchEvent::Progress { raw } = event {
        lemma_band(raw, raw);
    }
}

/// What a step's events tell of the step: extraction is announced only when a
/// download has brought the archive, completion only when the extraction has
/// succeeded, and `AllSourcesFailed` comes only when the last source has
/// failed or there is none.
pub proof fn lemma_step_stages(s: PipelineView, event: FetchEvent, i: int)
    requires
        0 <= i < advance(s, event).2.len(),
    ensures
        advance(s, event).2[i].stage is Extracting ==> s.phase is Downloading && event
            is Downloaded,
        advance(s, event).2[i].stage is Completed ==> s.phase is Extracting && event is Extracted,
        advance(s, event).1 == FetchAction::Finish(Err(FetchError::AllSourcesFailed)) ==> {
            ||| s.phase is Preparing && event is DestinationReady && s.candidates == 0
            ||| s.phase matches FetchPhase::Downloading { candidate } && event is DownloadFailed
                && candidate + 1 >= s.candidates
        },
{
}

/// Over a whole operation the progress never goes back.
pub proof fn lemma_run_monotone(s: PipelineView, reports: Seq<FetchEvent>)
    ensures
        s.percent <= run_state(s, reports).percent,
        forall|i: int|
            0 <= i < run_events(s, reports).len() ==> s.percent <= (#[trigger] run_events(
                s,
                reports,
            )[i]).percent <= run_state(s, reports).percent,
        forall|i: int, j: int|
            #![trigger run_events(s, reports)[i], run_events(s, reports)[j]]
            0 <= i <= j < run_events(s, reports).len() ==> run_events(s, reports)[i].percent
                <= run_events(s, reports)[j].percent,
    decreases reports.len(),
{
    if reports.len() > 0 {
        let before = reports.drop_last();
        lemma_run_monotone(s, before);
        lemma_step_monotone(run_state(s, before), reports.last());
    }
}

/// Whether a sequence of events holds one that announces extraction.
pub open spec fn announces_extraction(events: Seq<ProgressView>) -> bool {
    exists|i: int| 0 <= i < events.len() && events[i].stage is Extracting
}

/// In an operation from the beginning, the archive is only being extracted,
/// or installed, after extraction has been announced.
pub proof fn lemma_run_phases(candidates: nat, artifact: Seq<char>, reports: Seq<FetchEvent>)
    ensures
        ({
            let s = initial(candidates, artifact);
            let phase = run_state(s, reports).phase;
            phase is Extracting || phase is Completed || phase == FetchPhase::Failed(
                FetchError::ExtractFailed,
            ) ==> announces_extraction(run_events(s, reports))
        }),
    decreases reports.len(),
{
    if reports.len() > 0 {
        let s = initial(candidates, artifact);
        let before = reports.drop_last();
        lemma_run_phases(candidates, artifact, before);
        let mid = run_state(s, before);
        let step = advance(mid, reports.last()).2;
        let all = run_events(s, reports);
        let phase = run_state(s, reports).phase;
        if phase is Extracting || phase is Completed || phase == FetchPhase::Failed(
            FetchError::ExtractFailed,
        ) {
            if announces_extraction(run_events(s, before)) {
                let i = choose|i: int|
                    0 <= i < run_events(s, before).len() && run_events(s, before)[i].stage
                        is Extracting;
                assert(all[i].stage is Extracting);
            } else {
                assert(step.len() == 1 && step[0].stage is Extracting);
                assert(all[run_events(s, before).len() as int].stage is Extracting);
            }
        }
    }
}

/// An operation never reports completion without having announced extraction
/// before: a `Completed` event has an `Extracting` event before it.
pub proof fn lemma_completed_after_extracting(
    candidates: nat,
    artifact: Seq<char>,
    reports: Seq<FetchEvent>,
    j: int,
)
    requires
        0 <= j < run_events(initial(candidates, artifact), reports).len(),
        run_events(initial(candidates, artifact), reports)[j].stage is Completed,
    ensures
        exists|i: int|
            0 <= i < j && run_events(initial(candidates, artifact), reports)[i].stage
                is Extracting,
    decreases reports.len(),
{
    let s = initial(candidates, artifact);
    if reports.len() > 0 {
        let before = reports.drop_last();
        let earlier = run_events(s, before);
        let all = run_events(s, reports);
        if j < earlier.len() {
            lemma_completed_after_extracting(candidates, artifact, before, j);
            let i = choose|i: int| 0 <= i < j && earlier[i].stage is Extracting;
            assert(all[i].stage is Extracting);
        } else {
            let mid = run_state(s, before);
            lemma_step_stages(mid, reports.last(), j - earlier.len());
            lemma_run_phases(candidates, artifact, before);
            let i = choose|i: int| 0 <= i < earlier.len() && earlier[i].stage is Extracting;
            assert(all[i].stage is Extracting);
        }
    }
}

/// Where every source fails, the operation ends with `AllSourcesFailed` as
/// soon as the last source has failed, and extraction is never announced.
pub proof fn lemma_no_extraction_without_download(
    candidates: nat,
    artifact: Seq<char>,
    reports: Seq<FetchEvent>,
)
    requires
        forall|k: int| 0 <= k < reports.len() ==> !(reports[k] is Downloaded),
    ensures
        !announces_extraction(run_events(initial(candidates, artifact), reports)),
        !(run_state(initial(candidates, artifact), reports).phase is Extracting),
        !(run_state(initial(candidates, artifact), reports).phase is Completed),
    decreases reports.len(),
{
    if reports.len() > 0 {
        let s = initial(candidates, artifact);
        let before = reports.drop_last();
        assert(forall|k: int| 0 <= k < before.len() ==> before[k] == reports[k]);
        lemma_no_extraction_without_download(candidates, artifact, before);
        let earlier = run_events(s, before);
        let all = run_events(s, reports);
        let mid = run_state(s, before);
        if announces_extraction(all) {
            let i = choose|i: int| 0 <= i < all.len() && all[i].stage is Extracting;
            if i < earlier.len() {
                assert(earlier[i].stage is Extracting);
            } else {
                lemma_step_stages(mid, reports.last(), i - earlier.len());
            }
        }
    }
}

/// Where something that is not a directory stands at the destination, the
/// operation ends at once with `DestinationBlocked`: no progress event is
/// handed on, and whatever is reported afterwards, no download and no
/// extraction is asked for and no event follows.
pub proof fn lemma_blocked_destination(
    candidates: nat,
    artifact: Seq<char>,
    later: Seq<FetchEvent>,
)
    ensures
        ({
            let s = initial(candidates, artifact);
            let (blocked, action, events) = advance(s, FetchEvent::DestinationBlocked);
            let reports = seq![FetchEvent::DestinationBlocked] + later;
            &&& action == FetchAction::Finish(Err(FetchError::DestinationBlocked))
            &&& events.len() == 0
            &&& forall|event: FetchEvent| #[trigger] advance(blocked, event) == stay(blocked)
            &&& run_result(s, reports) == Some(Err::<(), FetchError>(FetchError::DestinationBlocked))
            &&& run_events(s, reports).len() == 0
        }),
    decreases later.len(),
{
    let s = initial(candidates, artifact);
    let reports = seq![FetchEvent::DestinationBlocked] + later;
    if later.len() == 0 {
        assert(reports.drop_last() =~= Seq::<FetchEvent>::empty());
        assert(reports.last() == FetchEvent::DestinationBlocked);
        assert(run_state(s, reports.drop_last()) == s);
        assert(run_events(s, reports.drop_last()).len() == 0);
    } else {
        lemma_blocked_destination(candidates, artifact, later.drop_last());
        assert(reports.drop_last() =~= seq![FetchEvent::DestinationBlocked] + later.drop_last());
        assert(reports.last() == later.last());
    }
}

/// `count` reports that a download has failed.
pub open spec fn failures(count: nat) -> Seq<FetchEvent> {
    Seq::new(count, |i: int| FetchEvent::DownloadFailed)
}

/// Where the destination is ready and one source after the other fails, each
/// failure moves the operation to the next source, and the failure of the
/// last one ends it with `AllSourcesFailed`. Extraction is never announced.
pub proof fn lemma_all_sources_fail(candidates: nat, artifact: Seq<char>, count: nat)
    requires
        0 < candidates <= usize::MAX,
        count <= candidates,
    ensures
        ({
            let reports = seq![FetchEvent::DestinationReady] + failures(count);
            let end = run_state(initial(candidates, artifact), reports);
            &&& end.candidates == candidates
            &&& end.phase == if count < candidates {
                FetchPhase::Downloading { candidate: count as usize }
            } else {
                FetchPhase::Failed(FetchError::AllSourcesFailed)
            }
            &&& !announces_extraction(run_events(initial(candidates, artifact), reports))
        }),
    decreases count,
{
    let s = initial(candidates, artifact);
    let reports = seq![FetchEvent::DestinationReady] + failures(count);
    lemma_no_extraction_without_download(candidates, artifact, reports);
    if count == 0 {
        assert(reports.drop_last() =~= Seq::<FetchEvent>::empty());
        assert(reports.last() == FetchEvent::DestinationReady);
        assert(run_state(s, reports.drop_last()) == s);
        assert(run_state(s, reports) == advance(s, FetchEvent::DestinationReady).0);
    } else {
        let before = seq![FetchEvent::DestinationReady] + failures((count - 1) as nat);
        lemma_all_sources_fail(candidates, artifact, (count - 1) as nat);
        assert(reports.drop_last() =~= before);
        assert(reports.last() == FetchEvent::DownloadFailed);
        let mid = run_state(s, before);
        assert(mid.candidates == candidates);
        assert(mid.phase == FetchPhase::Downloading { candidate: (count - 1) as usize });
        assert(run_state(s, reports) == advance(mid, FetchEvent::DownloadFailed).0);
    }
}

/// Whether an event carries the number of its stage: 0 for checking, 20 to 80
/// for downloading, 80 for extracting, 100 for completed, and no more than 80
/// for a failure.
pub open spec fn in_place(event: ProgressView) -> bool {
    match event.stage {
        Stage::Checking => event.percent == 0,
        Stage::Downloading => DOWNLOAD_FROM <= event.percent <= DOWNLOAD_TO,
        Stage::Extracting => event.percent == DOWNLOAD_TO,
        Stage::Completed => event.percent == FULL,
        Stage::Failed => event.percent <= DOWNLOAD_TO,
    }
}

/// In an operation from the beginning, every event carries the number of its
/// stage, and the bar stands where the phase puts it.
pub proof fn lemma_run_on_track(candidates: nat, artifact: Seq<char>, reports: Seq<FetchEvent>)
    ensures
        on_track(run_state(initial(candidates, artifact), reports)),
        forall|i: int|
            0 <= i < run_events(initial(candidates, artifact), reports).len() ==> in_place(
                #[trigger] run_events(initial(candidates, artifact), reports)[i],
            ),
    decreases reports.len(),
{
    if reports.len() > 0 {
        let s = initial(candidates, artifact);
        let before = reports.drop_last();
        lemma_run_on_track(candidates, artifact, before);
        let mid = run_state(s, before);
        lemma_step_on_track(mid, reports.last());
        let earlier = run_events(s, before);
        let step = advance(mid, reports.last()).2;
        let all = run_events(s, reports);
        assert forall|i: int| 0 <= i < all.len() implies in_place(#[trigger] all[i]) by {
            if i >= earlier.len() {
                assert(all[i] == step[i - earlier.len()]);
                assert(in_place(step[i - earlier.len()]));
            }
        }
    }
}

/// The result of an operation after a sequence of reports: success where the
/// archive is installed, the failure where the operation has failed, and
/// `None` while it is under way.
pub open spec fn run_result(s: PipelineView, reports: Seq<FetchEvent>) -> Option<
    Result<(), FetchError>,
> {
    match run_state(s, reports).phase {
        FetchPhase::Completed => Some(Ok(())),
        FetchPhase::Failed(e) => Some(Err(e)),
        _ => None,
    }
}

/// Where some sources fail and the next one brings the archive, which is then
/// extracted, the operation succeeds: it announces extraction at 80 and
/// completion at 100, in this order, as its last two events.
pub proof fn lemma_source_succeeds_after_failures(
    candidates: nat,
    artifact: Seq<char>,
    failed: nat,
)
    requires
        failed < candidates <= usize::MAX,
    ensures
        ({
            let s = initial(candidates, artifact);
            let reports = seq![FetchEvent::DestinationReady] + failures(failed) + seq![
                FetchEvent::Downloaded,
                FetchEvent::Extracted,
            ];
            let events = run_events(s, reports);
            &&& run_result(s, reports) == Some(Ok::<(), FetchError>(()))
            &&& events.len() >= 2
            &&& events[events.len() - 2].stage is Extracting
            &&& events[events.len() - 2].percent == DOWNLOAD_TO
            &&& events.last().stage is Completed
            &&& events.last().percent == FULL
        }),
{
    let s = initial(candidates, artifact);
    let tried = seq![FetchEvent::DestinationReady] + failures(failed);
    let downloaded = tried.push(FetchEvent::Downloaded);
    let reports = downloaded.push(FetchEvent::Extracted);
    assert(reports =~= seq![FetchEvent::DestinationReady] + failures(failed) + seq![
        FetchEvent::Downloaded,
        FetchEvent::Extracted,
    ]);
    lemma_all_sources_fail(candidates, artifact, failed);
    lemma_run_on_track(candidates, artifact, tried);
    assert(downloaded.drop_last() =~= tried);
    assert(reports.drop_last() =~= downloaded);
    let at_download = run_state(s, tried);
    let at_extract = run_state(s, downloaded);
    assert(at_extract == advance(at_download, FetchEvent::Downloaded).0);
    assert(run_state(s, reports) == advance(at_extract, FetchEvent::Extracted).0);
    assert(run_events(s, downloaded) == run_events(s, tried) + advance(
        at_download,
        FetchEvent::Downloaded,
    ).2);
    assert(run_events(s, reports) == run_events(s, downloaded) + advance(
        at_extract,
        FetchEvent::Extracted,
    ).2);
}

/// What is reported about the download of an update of this program.
#[derive(Clone, Copy, Debug, PartialEq, Eq)]
pub enum UpdateDownload {
    /// The download begins.
    Started,
    /// The download has transferred `raw` percent.
    Progress { raw: u32 },
    /// The download has brought the whole installer.
    Finished,
}

/// The progress event for a report about the download of an update. The
/// update's bar is the download's own: 0 at the start, the transferred percent
/// on the way, where more than 100 counts as 100, and 100 at the end.
pub open spec fn update_event(report: UpdateDownload) -> ProgressView {
    match report {
        UpdateDownload::Started => ProgressView {
            stage: Stage::Downloading,
            percent: 0,
            message: "开始下载更新..."@,
        },
        UpdateDownload::Progress { raw } => ProgressView {
            stage: Stage::Downloading,
            percent: if raw > FULL {
                FULL
            } else {
                raw
            },
            message: progress_message(raw),
        },
        UpdateDownload::Finished => ProgressView {
            stage: Stage::Completed,
            percent: FULL,
            message: "下载完成，准备安装..."@,
        },
    }
}

/// Makes the progress event for a report about the download of an update.
pub fn download_and_install_update(report: UpdateDownload) -> (event: ProgressEvent)
    ensures
        event@ == update_event(report),
{
    match report {
        UpdateDownload::Started => ProgressEvent {
            stage: Stage::Downloading,
            percent: 0,
            message: "开始下载更新...".to_owned(),
        },
        UpdateDownload::Progress { raw } => {
            let shown: String = decimal_text(raw as u64);
            ProgressEvent {
                stage: Stage::Downloading,
                percent: if raw > FULL {
                    FULL
                } else {
                    raw
                },
                message: join("正在下载: ", shown.as_str()).concat("%"),
            }
        },
        UpdateDownload::Finished => ProgressEvent {
            stage: Stage::Completed,
            percent: FULL,
            message: "下载完成，准备安装...".to_owned(),
        },
    }
}

impl Stage {
    /// The stage's name as the observer gets it.
    pub fn name(&self) -> (text: String)
        ensures
            text@ == match *self {
                Stage::Checking => "checking"@,
                Stage::Downloading => "downloading"@,
                Stage::Extracting => "extracting"@,
                Stage::Completed => "completed"@,
                Stage::Failed => "failed"@,
            },
    {
        match self {
            Stage::Checking => "checking".to_owned(),
            Stage::Downloading => "downloading".to_owned(),
            Stage::Extracting => "extracting".to_owned(),
            Stage::Completed => "completed".to_owned(),
            Stage::Failed => "failed".to_owned(),
        }
    }
}

impl FetchError {
    /// The failure in words.
    pub fn message(&self) -> (text: String)
        ensures
            text@ == failure_message(*self),
    {
        match self {
            FetchError::AllSourcesFailed => "所有下载源均失败，请检查网络连接或稍后重试".to_owned(),
            FetchError::ExtractFailed => "解压文件失败".to_owned(),
            FetchError::DestinationBlocked => "sing-box 路径存在但不是目录".to_owned(),
        }
    }
}

/// Maps `raw` percent of a download to its place on the one progress bar.
pub fn band_percent(raw: u32) -> (percent: u32)
    ensures
        percent == band(raw),
{
    let capped: u32 = if raw > 100 {
        100
    } else {
        raw
    };
    DOWNLOAD_FROM + capped * 3 / 5
}

/// A fetch-and-install operation under way.
pub struct FetchPipeline {
    candidates: usize,
    artifact: String,
    phase: FetchPhase,
    percent: u32,
}

/// What the pipeline says after a report.
#[derive(Debug, PartialEq, Eq)]
pub struct FetchStep {
    pub action: FetchAction,
    pub events: Vec<ProgressEvent>,
}

impl View for FetchPipeline {
    type V = PipelineView;

    closed spec fn view(&self) -> PipelineView {
        PipelineView {
            candidates: self.candidates as nat,
            artifact: self.artifact@,
            phase: self.phase,
            percent: self.percent,
        }
    }
}

impl FetchPipeline {
    /// An operation over `candidates` sources for the archive named
    /// `artifact`, before anything has happened.
    pub fn new(candidates: usize, artifact: &str) -> (p: FetchPipeline)
        ensures
            p@ == initial(candidates as nat, artifact@),
    {
        FetchPipeline {
            candidates,
            artifact: artifact.to_owned(),
            phase: FetchPhase::Preparing,
            percent: 0,
        }
    }

    /// How far the operation has come.
    pub fn phase(&self) -> (phase: FetchPhase)
        ensures
            phase == self@.phase,
    {
        self.phase
    }

    /// Where the progress bar stands.
    pub fn percent(&self) -> (percent: u32)
        ensures
            percent == self@.percent,
    {
        self.percent
    }

    fn raise_to(&mut self, target: u32) -> (percent: u32)
        ensures
            percent == raise(old(self)@.percent, target),
            final(self)@ == (PipelineView { percent, ..old(self)@ }),
    {
        if self.percent < target {
            self.percent = target;
        }
        self.percent
    }

    fn fail(&mut self, e: FetchError, events: Vec<ProgressEvent>) -> (step: FetchStep)
        ensures
            final(self)@ == fail(old(self)@, e).0,
            step.action == fail(old(self)@, e).1,
            events_view(step.events@) == events_view(events@) + fail(old(self)@, e).2,
    {
        let mut events = events;
        let ghost before = events_view(events@);
        self.phase = FetchPhase::Failed(e);
        events.push(ProgressEvent { stage: Stage::Failed, percent: self.percent, message: e.message() });
        assert(events_view(events@) =~= before + fail(old(self)@, e).2);
        FetchStep { action: FetchAction::Finish(Err(e)), events }
    }

    /// Takes a report: moves on and says what to do next and which progress
    /// events to hand to the observer.
    pub fn advance(&mut self, event: FetchEvent) -> (step: FetchStep)
        ensures
            (final(self)@, step.action, events_view(step.events@)) == advance(old(self)@, event),
    {
        let mut events: Vec<ProgressEvent> = Vec::new();
        assert(events_view(events@) =~= Seq::empty());
        match (self.phase, event) {
            (FetchPhase::Preparing, FetchEvent::DestinationBlocked) => {
                self.phase = FetchPhase::Failed(FetchError::DestinationBlocked);
                FetchStep {
                    action: FetchAction::Finish(Err(FetchError::DestinationBlocked)),
                    events,
                }
            },
            (FetchPhase::Preparing, FetchEvent::DestinationReady) => {
                events.push(
                    ProgressEvent {
                        stage: Stage::Checking,
                        percent: self.percent,
                        message: "正在准备下载最新版本...".to_owned(),
                    },
                );
                if self.candidates == 0 {
                    assert(events_view(events@) =~= seq![events[0]@]);
                    self.fail(FetchError::AllSourcesFailed, events)
                } else {
                    let percent: u32 = self.raise_to(DOWNLOAD_FROM);
                    self.phase = FetchPhase::Downloading { candidate: 0 };
                    events.push(
                        ProgressEvent {
                            stage: Stage::Downloading,
                            percent,
                            message: join("开始下载文件: ", self.artifact.as_str()),
                        },
                    );
                    assert(events_view(events@) =~= seq![events[0]@, events[1]@]);
                    FetchStep { action: FetchAction::Download { candidate: 0 }, events }
                }
            },
            (FetchPhase::Downloading { candidate }, FetchEvent::Progress { raw }) => {
                let percent: u32 = self.raise_to(band_percent(raw));
                let shown: String = decimal_text(raw as u64);
                let message: String = join("正在下载: ", shown.as_str()).concat("%");
                events.push(ProgressEvent { stage: Stage::Downloading, percent, message });
                assert(events_view(events@) =~= seq![events[0]@]);
                FetchStep { action: FetchAction::Wait, events }
            },
            (FetchPhase::Downloading { candidate }, FetchEvent::DownloadFailed) => {
                if candidate < self.candidates && candidate + 1 < self.candidates {
                    self.phase = FetchPhase::Downloading { candidate: candidate + 1 };
                    FetchStep { action: FetchAction::Download { candidate: candidate + 1 }, events }
                } else {
                    let step = self.fail(FetchError::AllSourcesFailed, events);
                    assert(events_view(step.events@) =~= fail(
                        old(self)@,
                        FetchError::AllSourcesFailed,
                    ).2);
                    step
                }
            },
            (FetchPhase::Downloading { candidate }, FetchEvent::Downloaded) => {
                let percent: u32 = self.raise_to(DOWNLOAD_TO);
                self.phase = FetchPhase::Extracting;
                events.push(
                    ProgressEvent {
                        stage: Stage::Extracting,
                        percent,
                        message: "正在解压文件...".to_owned(),
                    },
                );
                assert(events_view(events@) =~= seq![events[0]@]);
                FetchStep { action: FetchAction::Extract, events }
            },
            (FetchPhase::Extracting, FetchEvent::Extracted) => {
                let percent: u32 = self.raise_to(FULL);
                self.phase = FetchPhase::Completed;
                events.push(
                    ProgressEvent {
                        stage: Stage::Completed,
                        percent,
                        message: "下载完成！".to_owned(),
                    },
                );
                assert(events_view(events@) =~= seq![events[0]@]);
                FetchStep { action: FetchAction::Finish(Ok(())), events }
            },
            (FetchPhase::Extracting, FetchEvent::ExtractFailed) => {
                let step = self.fail(FetchError::ExtractFailed, events);
                assert(events_view(step.events@) =~= fail(old(self)@, FetchError::ExtractFailed).2);
                step
            },
            _ => FetchStep { action: FetchAction::Wait, events },
        }
    }
}

/// What a whole operation has come to.
#[derive(Debug, PartialEq, Eq)]
pub struct FetchOutcome {
    /// The operation's result, or `None` where the reports end before the
    /// operation does.
    pub result: Option<Result<(), FetchError>>,
    /// The progress events of the operation, in their order.
    pub events: Vec<ProgressEvent>,
}

/// Runs a fetch-and-install operation over `candidates` sources on what the
/// downloads and the extraction have come to, given as reports in their order:
/// the operation's result and every progress event on the way.
pub fn fetch_and_install(candidates: usize, artifact: &str, reports: &Vec<FetchEvent>) -> (out:
    FetchOutcome)
    ensures
        out.result == run_result(initial(candidates as nat, artifact@), reports@),
        events_view(out.events@) == run_events(initial(candidates as nat, artifact@), reports@),
{
    let ghost start = initial(candidates as nat, artifact@);
    let mut pipeline = FetchPipeline::new(candidates, artifact);
    let mut events: Vec<ProgressEvent> = Vec::new();
    let mut i: usize = 0;
    assert(reports@.take(0) =~= Seq::<FetchEvent>::empty());
    assert(events_view(events@) =~= Seq::<ProgressView>::empty());
    while i < reports.len()
        invariant
            i <= reports.len(),
            pipeline@ == run_state(start, reports@.take(i as int)),
            events_view(events@) == run_events(start, reports@.take(i as int)),
        decreases reports.len() - i,
    {
        let mut step = pipeline.advance(reports[i]);
        let ghost before = events_view(events@);
        let ghost added = events_view(step.events@);
        proof {
            assert(reports@.take(i + 1).drop_last() =~= reports@.take(i as int));
            assert(reports@.take(i + 1).last() == reports@[i as int]);
        }
        events.append(&mut step.events);
        assert(events_view(events@) =~= before + added);
        i += 1;
    }
    assert(reports@.take(i as int) =~= reports@);
    let result = match pipeline.phase() {
        FetchPhase::Completed => Some(Ok(())),
        FetchPhase::Failed(e) => Some(Err(e)),
        _ => None,
    };
    FetchOutcome { result, events }
}

/// The base of the addresses from which the kernel's releases are downloaded.
pub open spec fn release_base() -> Seq<char> {
    "https://github.com/SagerNet/sing-box/releases/latest/download"@
}

/// The architecture as release archives spell it: the 64-bit x86 is `amd64`.
pub open spec fn canonical_arch(arch: Seq<char>) -> Seq<char> {
    if arch == "x86_64"@ {
        "amd64"@
    } else {
        arch
    }
}

/// The name of the kernel's release archive for a platform and an
/// architecture.
pub open spec fn artifact_name(platform: Seq<char>, arch: Seq<char>) -> Seq<char> {
    "sing-box-"@ + platform + "-"@ + canonical_arch(arch) + ".zip"@
}

/// What one fetch-and-install operation works on.
#[derive(Debug, PartialEq, Eq)]
pub struct DownloadTask {
    /// The addresses to download from, in the order in which they are tried.
    pub candidate_urls: Vec<String>,
    /// The name of the archive file.
    pub archive_name: String,
    /// The directory, below the working directory, that takes the archive and
    /// what is extracted from it.
    pub directory: String,
}

/// Writes the architecture as release archives spell it.
pub fn normalize_arch(arch: &str) -> (out: String)
    ensures
        out@ == canonical_arch(arch@),
{
    if same_text(arch, "x86_64") {
        "amd64".to_owned()
    } else {
        arch.to_owned()
    }
}

/// Names the download of the kernel's latest release for a platform and an
/// architecture: one source, the archive's name, and the directory
/// `sing-box`.
pub fn download_latest_kernel(platform: &str, arch: &str) -> (task: DownloadTask)
    ensures
        task.archive_name@ == artifact_name(platform@, arch@),
        task.directory@ == "sing-box"@,
        task.candidate_urls@.len() == 1,
        task.candidate_urls@[0]@ == release_base() + "/"@ + artifact_name(platform@, arch@),
{
    let arch: String = normalize_arch(arch);
    let archive_name: String = join("sing-box-", platform).concat("-").concat(arch.as_str()).concat(
        ".zip",
    );
    let url: String = join(
        "https://github.com/SagerNet/sing-box/releases/latest/download",
        "/",
    ).concat(archive_name.as_str());
    let mut candidate_urls: Vec<String> = Vec::new();
    candidate_urls.push(url);
    DownloadTask { candidate_urls, archive_name, directory: "sing-box".to_owned() }
}

} // verus!
