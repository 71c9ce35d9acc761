use matui::display::AfterDownload;
use matui::event::{MediaInfo, MessageBody};
use matui::matrix::{
    advance, download_request, init, login, new_client_session, progress_for, sas_event,
    saved_message, sync_retry, BlurTimer, Notice, Phase, Report, Retry, SasNotice, SasState,
    SyncType, Task, Work,
};

fn names(notices: &[Notice]) -> Vec<String> {
    notices
        .iter()
        .map(|n| match n {
            Notice::LoginRequired => "LoginRequired".to_string(),
            Notice::LoginStarted => "LoginStarted".to_string(),
            Notice::LoginComplete => "LoginComplete".to_string(),
            Notice::SyncStarted(SyncType::Initial) => "SyncStarted(Initial)".to_string(),
            Notice::SyncStarted(SyncType::Latest) => "SyncStarted(Latest)".to_string(),
            Notice::SyncComplete => "SyncComplete".to_string(),
            Notice::Error(reason) => format!("Error({})", reason),
        })
        .collect()
}

#[test]
fn first_run_login() {
    let step = init(false);
    assert_eq!(names(&step.notices), vec!["LoginRequired"]);
    assert!(step.work == Work::Nothing);

    let mut seen = Vec::new();
    let step = login();
    seen.extend(names(&step.notices));
    assert!(step.work == Work::Login);
    let step = advance(step.phase, Report::LoggedIn);
    seen.extend(names(&step.notices));
    assert!(step.work == Work::SyncOnce);
    let step = advance(step.phase, Report::Synced);
    seen.extend(names(&step.notices));
    assert!(step.work == Work::Populate);
    let step = advance(step.phase, Report::Populated);
    seen.extend(names(&step.notices));
    assert!(step.work == Work::RequestVerification);
    assert!(step.phase == Phase::Ready);
    assert_eq!(
        seen,
        vec!["LoginStarted", "LoginComplete", "SyncStarted(Initial)", "SyncComplete"]
    );
}

#[test]
fn a_stored_session_is_restored() {
    let mut seen = Vec::new();
    let step = init(true);
    seen.extend(names(&step.notices));
    assert!(step.work == Work::RestoreSession);
    let step = advance(step.phase, Report::Restored);
    seen.extend(names(&step.notices));
    assert!(step.work == Work::SyncOnce);
    let step = advance(step.phase, Report::Synced);
    assert!(step.work == Work::Populate);
    let step = advance(step.phase, Report::Populated);
    seen.extend(names(&step.notices));
    assert!(step.work == Work::Nothing);
    assert_eq!(seen, vec!["SyncStarted(Latest)", "SyncComplete"]);
}

#[test]
fn a_failure_ends_the_way() {
    let step = advance(Phase::LoggingIn, Report::Failed("bad password".to_string()));
    assert_eq!(names(&step.notices), vec!["Error(bad password)"]);
    assert!(step.phase == Phase::Failed && step.work == Work::Nothing);
    let step = advance(Phase::Syncing(SyncType::Latest), Report::Failed("Sync timeout.".to_string()));
    assert_eq!(names(&step.notices), vec!["Error(Sync timeout.)"]);
    let step = advance(Phase::Restoring, Report::Failed("no file".to_string()));
    assert_eq!(names(&step.notices), vec!["Error(no file)"]);
    let step = advance(Phase::Ready, Report::Synced);
    assert!(step.phase == Phase::Ready && step.notices.is_empty() && step.work == Work::Nothing);
}

#[test]
fn a_sync_is_tried_ten_times() {
    for failed in 1..10 {
        assert!(matches!(sync_retry(failed), Retry::Again));
    }
    assert!(matches!(sync_retry(10), Retry::GiveUp(reason) if reason == "Sync timeout."));
    assert!(matches!(sync_retry(11), Retry::GiveUp(_)));
}

#[test]
fn attachments_are_requested_by_type_and_name() {
    let info = |mime: Option<&str>| {
        Some(MediaInfo { size: None, mimetype: mime.map(|m| m.to_string()) })
    };
    let r = download_request(&MessageBody::Image {
        body: "cat.png".to_string(),
        info: info(Some("image/png")), source: "mxc://h/media".to_string() })
    .ok()
    .unwrap();
    assert_eq!((r.content_type.as_str(), r.file_name.as_str()), ("image/png", "cat.png"));
    let r = download_request(&MessageBody::Video { body: "v.mp4".to_string(), info: info(None), source: "mxc://h/media".to_string() })
        .ok()
        .unwrap();
    assert_eq!(r.content_type, "application/octet-stream");
    let r = download_request(&MessageBody::File { body: "a.bin".to_string(), info: None, source: "mxc://h/media".to_string() })
        .ok()
        .unwrap();
    assert_eq!((r.content_type.as_str(), r.file_name.as_str()), ("application/octet-stream", "a.bin"));
    let e = download_request(&MessageBody::Text { body: "hi".to_string() }).err().unwrap();
    assert_eq!(e, "Unknown file type.");
    assert_eq!(download_request(&MessageBody::Other).err().unwrap(), "Unknown file type.");
    assert_eq!(saved_message("/home/u/Downloads/cat-1.png"), "Saved to /home/u/Downloads/cat-1.png");
    assert!(AfterDownload::View != AfterDownload::Save);
}

#[test]
fn work_in_progress_is_described() {
    assert_eq!(progress_for(Task::FetchMessages), ("Fetching more messages.".to_string(), 1000));
    assert_eq!(progress_for(Task::Download), ("Downloading file.".to_string(), 250));
    assert_eq!(progress_for(Task::SendMessage), ("Sending message.".to_string(), 500));
    assert_eq!(progress_for(Task::SendReaction), ("Sending reaction.".to_string(), 500));
    assert_eq!(progress_for(Task::Redact), ("Removing.".to_string(), 500));
    assert_eq!(progress_for(Task::Edit), ("Editing message.".to_string(), 500));
    assert_eq!(
        progress_for(Task::Upload { index: 1, total: 12 }),
        ("Uploading 2 of 12.".to_string(), 0)
    );
}

#[test]
fn a_verification_shows_its_emojis_and_its_end() {
    let emojis = vec!["🐶".to_string(), "🔑".to_string()];
    assert!(matches!(
        sas_event(SasState::KeysExchanged { emojis: Some(emojis.clone()) }),
        Some(SasNotice::Started(e)) if e == emojis
    ));
    assert!(sas_event(SasState::KeysExchanged { emojis: None }).is_none());
    assert!(matches!(sas_event(SasState::Done), Some(SasNotice::Completed)));
    for state in [
        SasState::Created,
        SasState::Started,
        SasState::Accepted,
        SasState::Confirmed,
        SasState::Cancelled,
    ] {
        assert!(sas_event(state).is_none());
    }
}

#[test]
fn only_the_last_blur_timer_counts() {
    let mut timer = BlurTimer::new();
    assert_eq!(timer.focus_event(None), None);
    let (first, seconds) = timer.focus_event(Some(30)).unwrap();
    assert_eq!(seconds, 30);
    let (second, _) = timer.focus_event(Some(30)).unwrap();
    assert!(!timer.fires(first));
    assert!(timer.fires(second));
    timer.blur_event();
    assert!(!timer.fires(second));
}

#[test]
fn a_blur_cancels_the_timers_for_good() {
    let mut timer = BlurTimer::new();
    assert!(!timer.fires(0));
    let (first, _) = timer.focus_event(Some(30)).unwrap();
    assert_eq!(first, 1);
    assert!(timer.fires(first));
    timer.blur_event();
    assert!(!timer.fires(first) && !timer.fires(0));
    let (second, _) = timer.focus_event(Some(30)).unwrap();
    assert!(second != first);
    assert!(!timer.fires(first));
    assert!(timer.fires(second));
    assert_eq!(timer.focus_event(None), None);
    assert!(timer.fires(second));
    timer.blur_event();
    timer.blur_event();
    let (third, _) = timer.focus_event(Some(5)).unwrap();
    assert!(!timer.fires(first) && !timer.fires(second) && timer.fires(third));
}

#[test]
fn a_new_session_has_random_names() {
    let a = new_client_session("/data/matui", "example.org");
    let b = new_client_session("/data/matui", "example.org");
    assert_eq!(a.homeserver, "example.org");
    assert_eq!(a.passphrase.chars().count(), 32);
    assert!(a.passphrase.chars().all(|c| c.is_ascii_alphanumeric()));
    assert!(a.db_path.starts_with("/data/matui/"));
    assert_eq!(a.db_path.len(), "/data/matui/".len() + 7);
    assert!(a.db_path["/data/matui/".len()..].chars().all(|c| c.is_ascii_alphanumeric()));
    assert_ne!(a.passphrase, b.passphrase);
}
