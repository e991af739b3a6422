use ytdl_gui::command::{build_args, launch_failure, terminal_outcome};
use ytdl_gui::models::{DownloadFormat, DownloadRequest, OutcomeMessage};

const PROGRESS_TEMPLATE: &str = "[download] %(progress._percent_str)s of %(progress._total_bytes_str)s at %(progress._speed_str)s ETA %(progress._eta_str)s";

#[test]
fn video_request_arguments() {
    let request = DownloadRequest {
        url: "https://example.com/watch?v=abc".to_string(),
        format: DownloadFormat::MP4,
        destination_directory: "/home/user/Videos".to_string(),
    };
    let args = build_args(&request);
    let expected = vec![
        "--newline",
        "--progress",
        "--no-check-certificate",
        "-f",
        "bestvideo[ext=mp4]+bestaudio[ext=m4a]/best[ext=mp4]/best",
        "-P",
        "/home/user/Videos",
        "-o",
        "%(title)s.%(ext)s",
        "--newline",
        "--progress",
        "--console-title",
        "--no-simulate",
        "--progress-template",
        PROGRESS_TEMPLATE,
        "https://example.com/watch?v=abc",
    ];
    assert_eq!(args, expected);
}

#[test]
fn audio_request_arguments() {
    let request = DownloadRequest {
        url: "https://example.com/watch?v=xyz".to_string(),
        format: DownloadFormat::MP3,
        destination_directory: "/tmp".to_string(),
    };
    let args = build_args(&request);
    let expected = vec![
        "--newline",
        "--progress",
        "--no-check-certificate",
        "-x",
        "--audio-format",
        "mp3",
        "--audio-quality",
        "0",
        "-P",
        "/tmp",
        "-o",
        "%(title)s.%(ext)s",
        "--newline",
        "--progress",
        "--console-title",
        "--no-simulate",
        "--progress-template",
        PROGRESS_TEMPLATE,
        "https://example.com/watch?v=xyz",
    ];
    assert_eq!(args, expected);
}

#[test]
fn url_is_always_the_final_argument() {
    let request = DownloadRequest {
        url: "URL-LAST".to_string(),
        format: DownloadFormat::MP3,
        destination_directory: "d".to_string(),
    };
    let args = build_args(&request);
    assert_eq!(args.last().map(String::as_str), Some("URL-LAST"));
}

#[test]
fn exit_zero_completes_even_with_no_parsed_lines() {
    match terminal_outcome(Some(0), "") {
        OutcomeMessage::Completed(text) => assert_eq!(text, "Download complete"),
        _ => panic!("exit code zero must complete"),
    }
}

#[test]
fn exit_zero_completes_even_with_stderr_noise() {
    match terminal_outcome(Some(0), "WARNING: unable to read cookies") {
        OutcomeMessage::Completed(text) => assert_eq!(text, "Download complete"),
        _ => panic!("exit code zero must complete"),
    }
}

#[test]
fn nonzero_exit_prefers_captured_stderr() {
    match terminal_outcome(Some(1), "ERROR: Unsupported URL") {
        OutcomeMessage::Failed(text) => assert_eq!(text, "ERROR: Unsupported URL"),
        _ => panic!("nonzero exit must fail"),
    }
}

#[test]
fn nonzero_exit_without_stderr_reports_the_code() {
    match terminal_outcome(Some(1), " \n") {
        OutcomeMessage::Failed(text) => assert_eq!(text, "exit status: 1"),
        _ => panic!("nonzero exit must fail"),
    }
    match terminal_outcome(Some(-9), "") {
        OutcomeMessage::Failed(text) => assert_eq!(text, "exit status: -9"),
        _ => panic!("nonzero exit must fail"),
    }
}

#[test]
fn signal_exit_without_stderr_reports_the_signal() {
    match terminal_outcome(None, "") {
        OutcomeMessage::Failed(text) => assert_eq!(text, "terminated by signal"),
        _ => panic!("a signalled child must fail"),
    }
}

#[test]
fn launch_failure_carries_the_os_error_text() {
    match launch_failure("No such file or directory (os error 2)") {
        OutcomeMessage::Failed(text) => {
            assert_eq!(
                text,
                "Failed to start yt-dlp: No such file or directory (os error 2)"
            );
        }
        _ => panic!("a failed launch must fail"),
    }
}

#[test]
fn signal_exit_prefers_captured_stderr() {
    match terminal_outcome(None, "killed by watchdog") {
        OutcomeMessage::Failed(text) => assert_eq!(text, "killed by watchdog"),
        _ => panic!("a signalled child must fail"),
    }
}
