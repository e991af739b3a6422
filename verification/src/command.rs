//! The command invoker's pure parts: the argument list handed to the
//! external downloader, built as a function of the request alone, and the
//! classification of the child's exit into the one terminal message.

use vstd::prelude::*;

use crate::models::{DownloadFormat, DownloadRequest, MessageModel, OutcomeMessage};
use crate::text::{check_blank, i32_decimal, int_decimal, is_blank};

verus! {

/// The argument list of one invocation: progress-reporting flags, the
/// format selection, the destination directory and the title-based output
/// template, the progress-line template, and the URL as the final
/// positional argument.
pub open spec fn command_args(
    format: DownloadFormat,
    destination_directory: Seq<char>,
    url: Seq<char>,
) -> Seq<Seq<char>> {
    let format_args: Seq<Seq<char>> = match format {
        DownloadFormat::MP3 => seq![
            "-x"@,
            "--audio-format"@,
            "mp3"@,
            "--audio-quality"@,
            "0"@,
        ],
        DownloadFormat::MP4 => seq![
            "-f"@,
            "bestvideo[ext=mp4]+bestaudio[ext=m4a]/best[ext=mp4]/best"@,
        ],
    };
    seq!["--newline"@, "--progress"@, "--no-check-certificate"@] + format_args + seq![
        "-P"@,
        destination_directory,
        "-o"@,
        "%(title)s.%(ext)s"@,
        "--newline"@,
        "--progress"@,
        "--console-title"@,
        "--no-simulate"@,
        "--progress-template"@,
        "[download] %(progress._percent_str)s of %(progress._total_bytes_str)s at %(progress._speed_str)s ETA %(progress._eta_str)s"@,
        url,
    ]
}

/// Builds the child-process argument list for a request, exactly as
/// `command_args` states it.
pub fn build_args(request: &DownloadRequest) -> (args: Vec<String>)
    ensures
        args.deep_view() == command_args(
            request@.format,
            request@.destination_directory,
            request@.url,
        ),
{
    let mut args: Vec<String> = Vec::new();
    args.push(String::from_str("--newline"));
    args.push(String::from_str("--progress"));
    args.push(String::from_str("--no-check-certificate"));
    match request.format {
        DownloadFormat::MP3 => {
            args.push(String::from_str("-x"));
            args.push(String::from_str("--audio-format"));
            args.push(String::from_str("mp3"));
            args.push(String::from_str("--audio-quality"));
            args.push(String::from_str("0"));
        },
        DownloadFormat::MP4 => {
            args.push(String::from_str("-f"));
            args.push(String::from_str("bestvideo[ext=mp4]+bestaudio[ext=m4a]/best[ext=mp4]/best"));
        },
    }
    args.push(String::from_str("-P"));
    args.push(request.destination_directory.clone());
    args.push(String::from_str("-o"));
    args.push(String::from_str("%(title)s.%(ext)s"));
    args.push(String::from_str("--newline"));
    args.push(String::from_str("--progress"));
    args.push(String::from_str("--console-title"));
    args.push(String::from_str("--no-simulate"));
    args.push(String::from_str("--progress-template"));
    args.push(String::from_str("[download] %(progress._percent_str)s of %(progress._total_bytes_str)s at %(progress._speed_str)s ETA %(progress._eta_str)s"));
    args.push(request.url.clone());
    proof {
        assert(args.deep_view() =~= command_args(
            request@.format,
            request@.destination_directory,
            request@.url,
        ));
    }
    args
}

/// The generic success description of a request that completed.
pub open spec fn success_text() -> Seq<char> {
    "Download complete"@
}

/// The terminal message owed once the child process has exited and both
/// output streams are drained: `Completed` exactly on exit code zero, and
/// otherwise `Failed` preferring the captured standard-error text, falling
/// back to a generic exit-status description (or a note that no exit code
/// exists, when the child was ended by a signal).
pub open spec fn terminal_message_of(exit_code: Option<i32>, error_text: Seq<char>) -> MessageModel {
    if exit_code == Some(0i32) {
        MessageModel::Completed(success_text())
    } else if !is_blank(error_text) {
        MessageModel::Failed(error_text)
    } else {
        match exit_code {
            Some(c) => MessageModel::Failed("exit status: "@ + int_decimal(c as int)),
            None => MessageModel::Failed("terminated by signal"@),
        }
    }
}

/// The terminal text of a failed launch: the child could never start
/// (executable missing from the search path, permissions), and the
/// OS-provided error text is surfaced verbatim behind a fixed prefix.
pub open spec fn launch_failure_text(error_text: Seq<char>) -> Seq<char> {
    "Failed to start yt-dlp: "@ + error_text
}

/// The one terminal message of a launch failure, as `launch_failure_text`
/// states; no process runs after such a failure, so this is the request's
/// last message.
pub fn launch_failure(error_text: &str) -> (r: OutcomeMessage)
    ensures
        r@ == MessageModel::Failed(launch_failure_text(error_text@)),
{
    let mut text = String::from_str("Failed to start yt-dlp: ");
    text.append(error_text);
    OutcomeMessage::Failed(text)
}

/// Classifies the child's exit into the one terminal message, exactly as
/// `terminal_message_of` states it.
pub fn terminal_outcome(exit_code: Option<i32>, error_text: &str) -> (r: OutcomeMessage)
    ensures
        r@ == terminal_message_of(exit_code, error_text@),
{
    match exit_code {
        Some(0) => OutcomeMessage::Completed(String::from_str("Download complete")),
        Some(c) => {
            if !check_blank(error_text) {
                OutcomeMessage::Failed(String::from_str(error_text))
            } else {
                let mut text = String::from_str("exit status: ");
                let digits = i32_decimal(c);
                text.append(digits.as_str());
                OutcomeMessage::Failed(text)
            }
        },
        None => {
            if !check_blank(error_text) {
                OutcomeMessage::Failed(String::from_str(error_text))
            } else {
                OutcomeMessage::Failed(String::from_str("terminated by signal"))
            }
        },
    }
}

} // verus!
