use ytdl_gui::command::launch_failure;
use ytdl_gui::models::{DownloadFormat, DownloadRequest, OutcomeMessage, ProgressSample};
use ytdl_gui::session::{SessionState, StartOutcome};

fn request(url: &str) -> DownloadRequest {
    DownloadRequest {
        url: url.to_string(),
        format: DownloadFormat::MP4,
        destination_directory: "/tmp/downloads".to_string(),
    }
}

fn sample(percent_hundredths: u32, speed: &str, eta: &str) -> ProgressSample {
    ProgressSample {
        percent_hundredths,
        speed: speed.to_string(),
        eta: eta.to_string(),
    }
}

#[test]
fn fresh_session_is_idle() {
    let state = SessionState::new();
    assert!(!state.is_running);
    assert!(state.last_progress.is_none());
    assert!(state.terminal_message.is_none());
    assert!(!state.is_error);
}

#[test]
fn empty_url_is_rejected_without_starting() {
    let mut state = SessionState::new();
    let outcome = state.start(&request(""));
    assert_eq!(outcome, StartOutcome::EmptyUrl);
    assert!(!state.is_running);
    assert!(state.is_error);
    assert_eq!(state.terminal_message.as_deref(), Some("Please enter a URL"));
}

#[test]
fn whitespace_url_is_rejected_without_starting() {
    let mut state = SessionState::new();
    let outcome = state.start(&request(" \t  "));
    assert_eq!(outcome, StartOutcome::EmptyUrl);
    assert!(!state.is_running);
    assert!(state.is_error);
}

#[test]
fn valid_url_starts_a_request() {
    let mut state = SessionState::new();
    let outcome = state.start(&request("https://example.com/v"));
    assert_eq!(outcome, StartOutcome::Started);
    assert!(state.is_running);
    assert!(state.last_progress.is_none());
    assert!(state.terminal_message.is_none());
    assert!(!state.is_error);
}

#[test]
fn second_start_while_running_is_a_no_op() {
    let mut state = SessionState::new();
    assert_eq!(state.start(&request("https://example.com/v")), StartOutcome::Started);
    state.apply(OutcomeMessage::Progress(sample(5000, "1MiB/s", "00:30")));
    let outcome = state.start(&request("https://example.com/other"));
    assert_eq!(outcome, StartOutcome::AlreadyRunning);
    assert!(state.is_running);
    let progress = state.last_progress.as_ref().unwrap();
    assert_eq!(progress.percent_hundredths, 5000);
    assert_eq!(progress.speed, "1MiB/s");
    assert!(state.terminal_message.is_none());
}

#[test]
fn latest_progress_sample_wins() {
    let mut state = SessionState::new();
    state.start(&request("https://example.com/v"));
    state.apply(OutcomeMessage::Progress(sample(1000, "500KiB/s", "01:00")));
    state.apply(OutcomeMessage::Progress(sample(2000, "600KiB/s", "00:50")));
    let progress = state.last_progress.as_ref().unwrap();
    assert_eq!(progress.percent_hundredths, 2000);
    assert_eq!(progress.speed, "600KiB/s");
    assert_eq!(progress.eta, "00:50");
}

#[test]
fn completion_stops_the_session_and_clears_speed() {
    let mut state = SessionState::new();
    state.start(&request("https://example.com/v"));
    state.apply(OutcomeMessage::Progress(sample(9990, "2MiB/s", "00:01")));
    state.apply(OutcomeMessage::Completed("Download complete".to_string()));
    assert!(!state.is_running);
    assert!(!state.is_error);
    assert_eq!(state.terminal_message.as_deref(), Some("Download complete"));
    let progress = state.last_progress.as_ref().unwrap();
    assert_eq!(progress.percent_hundredths, 10000);
    assert_eq!(progress.speed, "");
    assert_eq!(progress.eta, "");
}

#[test]
fn failure_stops_the_session_and_marks_the_error() {
    let mut state = SessionState::new();
    state.start(&request("https://example.com/v"));
    state.apply(OutcomeMessage::Failed("ERROR: no formats found".to_string()));
    assert!(!state.is_running);
    assert!(state.is_error);
    assert_eq!(state.terminal_message.as_deref(), Some("ERROR: no formats found"));
}

#[test]
fn spawn_failure_text_reaches_the_terminal_state() {
    let mut state = SessionState::new();
    state.start(&request("https://example.com/v"));
    state.apply(launch_failure("No such file or directory (os error 2)"));
    assert!(!state.is_running);
    assert!(state.is_error);
    assert!(state.terminal_message.as_deref().unwrap().contains("No such file"));
}

#[test]
fn progress_clears_an_earlier_error() {
    let mut state = SessionState::new();
    state.start(&request("https://example.com/v"));
    state.apply(OutcomeMessage::Failed("transient".to_string()));
    assert!(state.is_error);
    state.apply(OutcomeMessage::Progress(sample(100, "1MiB/s", "02:00")));
    assert!(state.is_running);
    assert!(!state.is_error);
    assert!(state.terminal_message.is_none());
}

#[test]
fn session_can_start_again_after_a_terminal_message() {
    let mut state = SessionState::new();
    state.start(&request("https://example.com/v"));
    state.apply(OutcomeMessage::Failed("boom".to_string()));
    assert!(!state.is_running);
    let outcome = state.start(&request("https://example.com/v"));
    assert_eq!(outcome, StartOutcome::Started);
    assert!(state.is_running);
    assert!(state.terminal_message.is_none());
    assert!(!state.is_error);
}

#[test]
fn progress_line_is_applied() {
    let mut state = SessionState::new();
    state.start(&request("https://example.com/v"));
    state.apply_line("[download] 45.2% of 10.00MiB at 1.20MiB/s ETA 00:12");
    assert!(state.is_running);
    let progress = state.last_progress.as_ref().unwrap();
    assert_eq!(progress.percent_hundredths, 4520);
    assert_eq!(progress.speed, "1.20MiB/s");
    assert_eq!(progress.eta, "00:12");
}

#[test]
fn unparseable_line_changes_nothing() {
    let mut state = SessionState::new();
    state.start(&request("https://example.com/v"));
    state.apply_line("[youtube] extracting video information");
    assert!(state.is_running);
    assert!(state.last_progress.is_none());
    state.apply_line("[download] 10% of 1MiB");
    state.apply_line("warning: something harmless");
    let progress = state.last_progress.as_ref().unwrap();
    assert_eq!(progress.percent_hundredths, 1000);
}
