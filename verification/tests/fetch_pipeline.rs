use kernel_service::fetch::{
    band_percent, download_and_install_update, download_latest_kernel, fetch_and_install,
    normalize_arch, FetchAction, FetchError, FetchEvent, FetchPhase, FetchPipeline,
    ProgressEvent, Stage, UpdateDownload,
};

fn drive(pipeline: &mut FetchPipeline, reports: &[FetchEvent]) -> (Vec<FetchAction>, Vec<ProgressEvent>) {
    let mut actions = Vec::new();
    let mut events = Vec::new();
    for report in reports {
        let step = pipeline.advance(*report);
        actions.push(step.action);
        events.extend(step.events);
    }
    (actions, events)
}

fn event(stage: Stage, percent: u32, message: &str) -> ProgressEvent {
    ProgressEvent { stage, percent, message: message.to_string() }
}

#[test]
fn third_source_succeeds_after_two_failures() {
    let mut pipeline = FetchPipeline::new(3, "sing-box-windows-amd64.zip");
    let (actions, events) = drive(
        &mut pipeline,
        &[
            FetchEvent::DestinationReady,
            FetchEvent::Progress { raw: 50 },
            FetchEvent::DownloadFailed,
            FetchEvent::Progress { raw: 10 },
            FetchEvent::DownloadFailed,
            FetchEvent::Progress { raw: 70 },
            FetchEvent::Progress { raw: 100 },
            FetchEvent::Downloaded,
            FetchEvent::Extracted,
        ],
    );
    assert_eq!(
        actions,
        vec![
            FetchAction::Download { candidate: 0 },
            FetchAction::Wait,
            FetchAction::Download { candidate: 1 },
            FetchAction::Wait,
            FetchAction::Download { candidate: 2 },
            FetchAction::Wait,
            FetchAction::Wait,
            FetchAction::Extract,
            FetchAction::Finish(Ok(())),
        ]
    );
    assert_eq!(
        events,
        vec![
            event(Stage::Checking, 0, "正在准备下载最新版本..."),
            event(Stage::Downloading, 20, "开始下载文件: sing-box-windows-amd64.zip"),
            event(Stage::Downloading, 50, "正在下载: 50%"),
            event(Stage::Downloading, 50, "正在下载: 10%"),
            event(Stage::Downloading, 62, "正在下载: 70%"),
            event(Stage::Downloading, 80, "正在下载: 100%"),
            event(Stage::Extracting, 80, "正在解压文件..."),
            event(Stage::Completed, 100, "下载完成！"),
        ]
    );
    for pair in events.windows(2) {
        assert!(pair[0].percent <= pair[1].percent);
    }
    let extracting = events.iter().position(|e| e.stage == Stage::Extracting).unwrap();
    let completed = events.iter().position(|e| e.stage == Stage::Completed).unwrap();
    assert!(extracting < completed);
    assert_eq!(pipeline.phase(), FetchPhase::Completed);
    assert_eq!(pipeline.percent(), 100);
}

#[test]
fn all_sources_failing_is_the_only_download_failure() {
    let mut pipeline = FetchPipeline::new(3, "a.zip");
    let (actions, events) = drive(
        &mut pipeline,
        &[
            FetchEvent::DestinationReady,
            FetchEvent::DownloadFailed,
            FetchEvent::Progress { raw: 30 },
            FetchEvent::DownloadFailed,
            FetchEvent::DownloadFailed,
        ],
    );
    assert_eq!(
        actions,
        vec![
            FetchAction::Download { candidate: 0 },
            FetchAction::Download { candidate: 1 },
            FetchAction::Wait,
            FetchAction::Download { candidate: 2 },
            FetchAction::Finish(Err(FetchError::AllSourcesFailed)),
        ]
    );
    assert!(events.iter().all(|e| e.stage != Stage::Extracting && e.stage != Stage::Completed));
    assert_eq!(
        events.last(),
        Some(&event(Stage::Failed, 38, "所有下载源均失败，请检查网络连接或稍后重试"))
    );
    assert_eq!(pipeline.phase(), FetchPhase::Failed(FetchError::AllSourcesFailed));
    let after = pipeline.advance(FetchEvent::Downloaded);
    assert_eq!(after.action, FetchAction::Wait);
    assert!(after.events.is_empty());
    assert_eq!(pipeline.phase(), FetchPhase::Failed(FetchError::AllSourcesFailed));
}

#[test]
fn no_source_at_all_fails_at_once() {
    let mut pipeline = FetchPipeline::new(0, "a.zip");
    let step = pipeline.advance(FetchEvent::DestinationReady);
    assert_eq!(step.action, FetchAction::Finish(Err(FetchError::AllSourcesFailed)));
    assert_eq!(
        step.events,
        vec![
            event(Stage::Checking, 0, "正在准备下载最新版本..."),
            event(Stage::Failed, 0, "所有下载源均失败，请检查网络连接或稍后重试"),
        ]
    );
}

#[test]
fn a_failed_extraction_is_reported_as_such() {
    let mut pipeline = FetchPipeline::new(1, "a.zip");
    let (actions, events) = drive(
        &mut pipeline,
        &[FetchEvent::DestinationReady, FetchEvent::Downloaded, FetchEvent::ExtractFailed],
    );
    assert_eq!(actions[2], FetchAction::Finish(Err(FetchError::ExtractFailed)));
    assert_eq!(events.last(), Some(&event(Stage::Failed, 80, "解压文件失败")));
    assert!(events.iter().all(|e| e.stage != Stage::Completed));
    assert_eq!(pipeline.phase(), FetchPhase::Failed(FetchError::ExtractFailed));
}

#[test]
fn a_blocked_destination_stops_the_operation() {
    let mut pipeline = FetchPipeline::new(2, "a.zip");
    let step = pipeline.advance(FetchEvent::DestinationBlocked);
    assert_eq!(step.action, FetchAction::Finish(Err(FetchError::DestinationBlocked)));
    assert!(step.events.is_empty());
    assert_eq!(pipeline.phase(), FetchPhase::Failed(FetchError::DestinationBlocked));
    assert_eq!(pipeline.percent(), 0);
    for report in [
        FetchEvent::DestinationReady,
        FetchEvent::Progress { raw: 10 },
        FetchEvent::DownloadFailed,
        FetchEvent::Downloaded,
        FetchEvent::Extracted,
    ] {
        let later = pipeline.advance(report);
        assert_eq!(later.action, FetchAction::Wait);
        assert!(later.events.is_empty());
        assert_eq!(pipeline.phase(), FetchPhase::Failed(FetchError::DestinationBlocked));
    }
}

#[test]
fn reports_out_of_turn_change_nothing() {
    let mut pipeline = FetchPipeline::new(2, "a.zip");
    for report in [
        FetchEvent::Progress { raw: 5 },
        FetchEvent::DownloadFailed,
        FetchEvent::Downloaded,
        FetchEvent::Extracted,
        FetchEvent::ExtractFailed,
    ] {
        let step = pipeline.advance(report);
        assert_eq!(step.action, FetchAction::Wait);
        assert!(step.events.is_empty());
        assert_eq!(pipeline.phase(), FetchPhase::Preparing);
        assert_eq!(pipeline.percent(), 0);
    }
}

#[test]
fn the_download_fills_the_band_from_20_to_80() {
    assert_eq!(band_percent(0), 20);
    assert_eq!(band_percent(1), 20);
    assert_eq!(band_percent(2), 21);
    assert_eq!(band_percent(5), 23);
    assert_eq!(band_percent(33), 39);
    assert_eq!(band_percent(50), 50);
    assert_eq!(band_percent(99), 79);
    assert_eq!(band_percent(100), 80);
    assert_eq!(band_percent(101), 80);
    assert_eq!(band_percent(u32::MAX), 80);
    for raw in 0..=100u32 {
        assert_eq!(band_percent(raw), 20 + (raw as f64 * 0.6) as u32);
    }
}

#[test]
fn the_archive_is_named_after_platform_and_architecture() {
    let task = download_latest_kernel("windows", "x86_64");
    assert_eq!(task.archive_name, "sing-box-windows-amd64.zip");
    assert_eq!(task.directory, "sing-box");
    assert_eq!(
        task.candidate_urls,
        vec![
            "https://github.com/SagerNet/sing-box/releases/latest/download/sing-box-windows-amd64.zip"
                .to_string()
        ]
    );
    let arm = download_latest_kernel("linux", "aarch64");
    assert_eq!(arm.archive_name, "sing-box-linux-aarch64.zip");
    assert_eq!(normalize_arch("x86_64"), "amd64");
    assert_eq!(normalize_arch("x86"), "x86");
    assert_eq!(normalize_arch(""), "");
}

#[test]
fn stages_and_failures_have_names() {
    assert_eq!(Stage::Checking.name(), "checking");
    assert_eq!(Stage::Downloading.name(), "downloading");
    assert_eq!(Stage::Extracting.name(), "extracting");
    assert_eq!(Stage::Completed.name(), "completed");
    assert_eq!(Stage::Failed.name(), "failed");
    assert_eq!(
        FetchError::AllSourcesFailed.message(),
        "所有下载源均失败，请检查网络连接或稍后重试"
    );
    assert_eq!(FetchError::ExtractFailed.message(), "解压文件失败");
    assert_eq!(FetchError::DestinationBlocked.message(), "sing-box 路径存在但不是目录");
}

#[test]
fn the_update_download_reports_its_own_percent() {
    assert_eq!(
        download_and_install_update(UpdateDownload::Started),
        event(Stage::Downloading, 0, "开始下载更新...")
    );
    assert_eq!(
        download_and_install_update(UpdateDownload::Progress { raw: 37 }),
        event(Stage::Downloading, 37, "正在下载: 37%")
    );
    assert_eq!(
        download_and_install_update(UpdateDownload::Progress { raw: 250 }),
        event(Stage::Downloading, 100, "正在下载: 250%")
    );
    assert_eq!(
        download_and_install_update(UpdateDownload::Finished),
        event(Stage::Completed, 100, "下载完成，准备安装...")
    );
}

#[test]
fn fetch_and_install_succeeds_on_the_third_of_three_sources() {
    let out = fetch_and_install(
        3,
        "kernel.zip",
        &vec![
            FetchEvent::DestinationReady,
            FetchEvent::Progress { raw: 40 },
            FetchEvent::DownloadFailed,
            FetchEvent::DownloadFailed,
            FetchEvent::Progress { raw: 25 },
            FetchEvent::Progress { raw: 90 },
            FetchEvent::Downloaded,
            FetchEvent::Extracted,
        ],
    );
    assert_eq!(out.result, Some(Ok(())));
    let stages: Vec<(Stage, u32)> = out.events.iter().map(|e| (e.stage, e.percent)).collect();
    assert_eq!(
        stages,
        vec![
            (Stage::Checking, 0),
            (Stage::Downloading, 20),
            (Stage::Downloading, 44),
            (Stage::Downloading, 44),
            (Stage::Downloading, 74),
            (Stage::Extracting, 80),
            (Stage::Completed, 100),
        ]
    );
}

#[test]
fn fetch_and_install_fails_when_all_three_sources_fail() {
    let out = fetch_and_install(
        3,
        "kernel.zip",
        &vec![
            FetchEvent::DestinationReady,
            FetchEvent::DownloadFailed,
            FetchEvent::DownloadFailed,
            FetchEvent::DownloadFailed,
        ],
    );
    assert_eq!(out.result, Some(Err(FetchError::AllSourcesFailed)));
    assert!(out.events.iter().all(|e| e.stage != Stage::Extracting));
    assert_eq!(out.events.len(), 3);
    assert_eq!(out.events[2].stage, Stage::Failed);
}

#[test]
fn fetch_and_install_is_under_way_until_the_last_report() {
    let waiting = fetch_and_install(2, "kernel.zip", &vec![]);
    assert_eq!(waiting.result, None);
    assert!(waiting.events.is_empty());
    let downloading = fetch_and_install(
        2,
        "kernel.zip",
        &vec![FetchEvent::DestinationReady, FetchEvent::DownloadFailed],
    );
    assert_eq!(downloading.result, None);
    let extracting = fetch_and_install(
        2,
        "kernel.zip",
        &vec![FetchEvent::DestinationReady, FetchEvent::Downloaded],
    );
    assert_eq!(extracting.result, None);
    assert_eq!(extracting.events.last().map(|e| e.stage), Some(Stage::Extracting));
    let failed = fetch_and_install(
        2,
        "kernel.zip",
        &vec![FetchEvent::DestinationReady, FetchEvent::Downloaded, FetchEvent::ExtractFailed],
    );
    assert_eq!(failed.result, Some(Err(FetchError::ExtractFailed)));
    let blocked = fetch_and_install(
        2,
        "kernel.zip",
        &vec![FetchEvent::DestinationBlocked, FetchEvent::DestinationReady, FetchEvent::Downloaded],
    );
    assert_eq!(blocked.result, Some(Err(FetchError::DestinationBlocked)));
    assert!(blocked.events.is_empty());
}
