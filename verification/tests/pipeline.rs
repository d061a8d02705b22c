use dlc_installer::config::Config;
use dlc_installer::error::{DownloadError, Error, ErrorKind, ExtractError, LocateError};
use dlc_installer::pipeline::{Pipeline, PipelineAction, PipelineEvent, Stage};

fn config() -> Config {
    Config::new(
        "https://example.org/pack.7z".to_string(),
        "pack.7z".to_string(),
        Some("secret".to_string()),
        true,
    )
}

fn every_pipeline_event() -> Vec<PipelineEvent> {
    vec![
        PipelineEvent::Begin,
        PipelineEvent::Located(Ok("/games".to_string())),
        PipelineEvent::Located(Err(LocateError::RootNotFound)),
        PipelineEvent::Fetched(Ok(())),
        PipelineEvent::Fetched(Err(DownloadError::ContentLength)),
        PipelineEvent::Extracted(Ok(())),
        PipelineEvent::Extracted(Err(ExtractError::NoParent)),
    ]
}

#[test]
fn pipeline_runs_its_stages_in_a_line() {
    let mut run = Pipeline::new(config());
    assert_eq!(run.stage(), Stage::Start);
    assert_eq!(run.step(PipelineEvent::Begin), Some(PipelineAction::Locate));
    assert_eq!(run.stage(), Stage::LocateTarget);
    assert_eq!(
        run.step(PipelineEvent::Located(Ok("/games/common".to_string()))),
        Some(PipelineAction::Fetch)
    );
    assert_eq!(run.stage(), Stage::Download);
    assert_eq!(
        run.step(PipelineEvent::Fetched(Ok(()))),
        Some(PipelineAction::Extract { root: "/games/common".to_string() })
    );
    assert_eq!(run.stage(), Stage::Extract);
    assert_eq!(run.step(PipelineEvent::Extracted(Ok(()))), Some(PipelineAction::Finish));
    assert_eq!(run.stage(), Stage::Done);
}

#[test]
fn pipeline_keeps_the_settings_it_was_given() {
    let mut run = Pipeline::new(config());
    assert_eq!(run.config(), &config());
    run.step(PipelineEvent::Begin).unwrap();
    run.step(PipelineEvent::Located(Ok("/x".to_string()))).unwrap();
    assert_eq!(run.config(), &config());
    assert_eq!(run.config().archive_local_path, "pack.7z");
    assert_eq!(run.config().credential.as_deref(), Some("secret"));
}

#[test]
fn failed_search_ends_the_run_before_any_download() {
    for error in [LocateError::RootNotFound, LocateError::TargetNotFound, LocateError::NoParent] {
        let mut run = Pipeline::new(config());
        run.step(PipelineEvent::Begin).unwrap();
        let answer = run.step(PipelineEvent::Located(Err(error))).unwrap();
        assert_eq!(answer, PipelineAction::Abort(Error::Locate(error)));
        assert_eq!(run.stage(), Stage::Failed);
        for event in every_pipeline_event() {
            assert_eq!(run.step(event), None);
        }
    }
}

#[test]
fn failed_download_ends_the_run_before_any_extraction() {
    let mut run = Pipeline::new(config());
    run.step(PipelineEvent::Begin).unwrap();
    run.step(PipelineEvent::Located(Ok("/x".to_string()))).unwrap();
    let cause = DownloadError::DownloadChunk("reset".to_string());
    let answer = run.step(PipelineEvent::Fetched(Err(cause.clone()))).unwrap();
    assert_eq!(answer, PipelineAction::Abort(Error::Download(cause)));
    assert_eq!(run.stage(), Stage::Failed);
    assert_eq!(run.step(PipelineEvent::Fetched(Ok(()))), None);
    assert_eq!(run.step(PipelineEvent::Extracted(Ok(()))), None);
    assert_eq!(run.step(PipelineEvent::Begin), None);
}

#[test]
fn failed_extraction_ends_the_run() {
    for (cause, kind) in [
        (ExtractError::Decode("bad password".to_string()), ErrorKind::Decode),
        (ExtractError::NoParent, ErrorKind::Extract),
        (ExtractError::Io("disk full".to_string()), ErrorKind::Extract),
        (ExtractError::Cleanup("in use".to_string()), ErrorKind::Cleanup),
    ] {
        let mut run = Pipeline::new(config());
        run.step(PipelineEvent::Begin).unwrap();
        run.step(PipelineEvent::Located(Ok("/x".to_string()))).unwrap();
        run.step(PipelineEvent::Fetched(Ok(()))).unwrap();
        let answer = run.step(PipelineEvent::Extracted(Err(cause.clone()))).unwrap();
        match &answer {
            PipelineAction::Abort(error) => assert_eq!(error.kind(), kind),
            other => panic!("expected an abort, got {:?}", other),
        }
        assert_eq!(answer, PipelineAction::Abort(Error::Extract(cause)));
        assert_eq!(run.stage(), Stage::Failed);
        assert_eq!(run.step(PipelineEvent::Extracted(Ok(()))), None);
    }
}

#[test]
fn stages_cannot_be_skipped_or_repeated() {
    let mut run = Pipeline::new(config());
    for event in every_pipeline_event().into_iter().skip(1) {
        assert_eq!(run.step(event), None);
        assert_eq!(run.stage(), Stage::Start);
    }
    run.step(PipelineEvent::Begin).unwrap();
    assert_eq!(run.step(PipelineEvent::Begin), None);
    assert_eq!(run.step(PipelineEvent::Fetched(Ok(()))), None);
    assert_eq!(run.step(PipelineEvent::Extracted(Ok(()))), None);
    assert_eq!(run.stage(), Stage::LocateTarget);
    run.step(PipelineEvent::Located(Ok("/x".to_string()))).unwrap();
    assert_eq!(run.step(PipelineEvent::Located(Ok("/y".to_string()))), None);
    assert_eq!(run.step(PipelineEvent::Extracted(Ok(()))), None);
    assert_eq!(run.stage(), Stage::Download);
    run.step(PipelineEvent::Fetched(Ok(()))).unwrap();
    assert_eq!(run.step(PipelineEvent::Fetched(Ok(()))), None);
    assert_eq!(run.stage(), Stage::Extract);
}

#[test]
fn finished_run_takes_no_more_events() {
    let mut run = Pipeline::new(config());
    run.step(PipelineEvent::Begin).unwrap();
    run.step(PipelineEvent::Located(Ok("/x".to_string()))).unwrap();
    run.step(PipelineEvent::Fetched(Ok(()))).unwrap();
    run.step(PipelineEvent::Extracted(Ok(()))).unwrap();
    for event in every_pipeline_event() {
        assert_eq!(run.step(event), None);
    }
    assert_eq!(run.stage(), Stage::Done);
}
