//! The status reducer: the interface-owned state of the one in-flight
//! request, mutated only by applying worker messages in arrival order and
//! reset by the start of the next request.

use vstd::prelude::*;

use crate::models::{
    DownloadRequest, MessageModel, OutcomeMessage, ProgressSample, SampleModel,
};
use crate::progress::parsed_progress;
use crate::progress::parse_progress_line;
use crate::text::{check_blank, is_blank};

verus! {

/// Mathematical model of a `SessionState`.
pub struct StateModel {
    pub is_running: bool,
    pub last_progress: Option<SampleModel>,
    pub terminal_message: Option<Seq<char>>,
    pub is_error: bool,
}

/// The idle state before any request has been made.
pub open spec fn initial_state() -> StateModel {
    StateModel { is_running: false, last_progress: None, terminal_message: None, is_error: false }
}

/// The state a freshly accepted request resets to.
pub open spec fn running_state() -> StateModel {
    StateModel { is_running: true, last_progress: None, terminal_message: None, is_error: false }
}

/// The sample shown on completion: percent forced to one hundred, speed
/// and estimated time cleared.
pub open spec fn completed_sample() -> SampleModel {
    SampleModel { percent_hundredths: 10000, speed: Seq::empty(), eta: Seq::empty() }
}

/// The message text surfaced when a request is rejected for lack of a URL.
pub open spec fn empty_url_text() -> Seq<char> {
    "Please enter a URL"@
}

/// How one worker message transforms the state: a progress sample marks
/// the session running, overwrites the last sample and clears any earlier
/// terminal message and error flag; a terminal message stops the session,
/// records its text, and records whether it was a failure.
pub open spec fn apply_message(s: StateModel, m: MessageModel) -> StateModel {
    match m {
        MessageModel::Progress(p) => (StateModel {
            is_running: true,
            last_progress: Some(p),
            terminal_message: None,
            is_error: false,
        }),
        MessageModel::Completed(t) => (StateModel {
            is_running: false,
            last_progress: Some(completed_sample()),
            terminal_message: Some(t),
            is_error: false,
        }),
        MessageModel::Failed(t) => (StateModel {
            is_running: false,
            last_progress: s.last_progress,
            terminal_message: Some(t),
            is_error: true,
        }),
    }
}

/// A whole message sequence applied in arrival order.
pub open spec fn apply_all(s: StateModel, ms: Seq<MessageModel>) -> StateModel
    decreases ms.len(),
{
    if ms.len() == 0 {
        s
    } else {
        apply_message(apply_all(s, ms.drop_last()), ms.last())
    }
}

/// A terminal message: the single last message of a request.
pub open spec fn is_terminal(m: MessageModel) -> bool {
    m is Completed || m is Failed
}

/// What a `start` call decided.
#[derive(Clone, Copy, Debug, PartialEq, Eq, Structural)]
pub enum StartOutcome {
    /// The request was accepted; the caller may launch the invoker.
    Started,
    /// A request is already in flight; the call was a no-op.
    AlreadyRunning,
    /// The URL was empty after trimming; the invoker must not be launched.
    EmptyUrl,
}

/// The reducer's accumulated view of the one in-flight request. Owned by
/// the interface loop alone; every mutation goes through `start`, `apply`
/// or `apply_line`.
pub struct SessionState {
    pub is_running: bool,
    pub last_progress: Option<ProgressSample>,
    pub terminal_message: Option<String>,
    pub is_error: bool,
}

impl View for SessionState {
    type V = StateModel;

    open spec fn view(&self) -> StateModel {
        StateModel {
            is_running: self.is_running,
            last_progress: match self.last_progress {
                Some(p) => Some(p@),
                None => None,
            },
            terminal_message: match self.terminal_message {
                Some(t) => Some(t@),
                None => None,
            },
            is_error: self.is_error,
        }
    }
}

impl SessionState {
    /// A fresh idle session.
    pub fn new() -> (s: Self)
        ensures
            s@ == initial_state(),
    {
        SessionState {
            is_running: false,
            last_progress: None,
            terminal_message: None,
            is_error: false,
        }
    }

    /// Begins a new request. While one is running the call is a no-op; a
    /// request whose URL is empty or whitespace-only is rejected into a
    /// terminal failure state without ever starting the invoker; otherwise
    /// the state is reset and the caller may launch the invoker.
    pub fn start(&mut self, request: &DownloadRequest) -> (r: StartOutcome)
        ensures
            old(self)@.is_running ==> r == StartOutcome::AlreadyRunning && final(self)@ == old(
                self,
            )@,
            !old(self)@.is_running && is_blank(request@.url) ==> r == StartOutcome::EmptyUrl
                && final(self)@ == (StateModel {
                is_running: false,
                last_progress: old(self)@.last_progress,
                terminal_message: Some(empty_url_text()),
                is_error: true,
            }),
            !old(self)@.is_running && !is_blank(request@.url) ==> r == StartOutcome::Started
                && final(self)@ == running_state(),
    {
        if self.is_running {
            return StartOutcome::AlreadyRunning;
        }
        if check_blank(request.url.as_str()) {
            self.terminal_message = Some(String::from_str("Please enter a URL"));
            self.is_error = true;
            return StartOutcome::EmptyUrl;
        }
        self.is_running = true;
        self.last_progress = None;
        self.terminal_message = None;
        self.is_error = false;
        StartOutcome::Started
    }

    /// Applies one worker message, as `apply_message` states.
    pub fn apply(&mut self, message: OutcomeMessage)
        ensures
            final(self)@ == apply_message(old(self)@, message@),
    {
        match message {
            OutcomeMessage::Progress(p) => {
                self.is_running = true;
                self.last_progress = Some(p);
                self.terminal_message = None;
                self.is_error = false;
            },
            OutcomeMessage::Completed(t) => {
                self.is_running = false;
                self.is_error = false;
                self.terminal_message = Some(t);
                self.last_progress = Some(
                    ProgressSample {
                        percent_hundredths: 10000,
                        speed: String::new(),
                        eta: String::new(),
                    },
                );
            },
            OutcomeMessage::Failed(t) => {
                self.is_running = false;
                self.is_error = true;
                self.terminal_message = Some(t);
            },
        }
    }

    /// Feeds one raw output line of the child process: a line that parses
    /// as a progress report is applied as such, and any other line is
    /// ignored and leaves the state unchanged.
    pub fn apply_line(&mut self, line: &str)
        ensures
            match parsed_progress(line@) {
                Some(p) => final(self)@ == apply_message(old(self)@, MessageModel::Progress(p)),
                None => final(self)@ == old(self)@,
            },
    {
        match parse_progress_line(line) {
            Some(sample) => {
                self.apply(OutcomeMessage::Progress(sample));
            },
            None => {},
        }
    }
}

/// A terminal message always stops the session: after `Completed` or
/// `Failed`, the session is not running.
pub proof fn lemma_terminal_stops_running(s: StateModel, m: MessageModel)
    requires
        is_terminal(m),
    ensures
        !apply_message(s, m).is_running,
{
}

/// Once stopped, a session stays stopped under any further messages that
/// are not progress samples; since the terminal message is the last
/// message of a request, the session remains not running until the next
/// explicit `start`.
pub proof fn lemma_stopped_stays_stopped(s: StateModel, ms: Seq<MessageModel>)
    requires
        !s.is_running,
        forall|i: int| 0 <= i < ms.len() ==> !(ms[i] is Progress),
    ensures
        !apply_all(s, ms).is_running,
    decreases ms.len(),
{
    if ms.len() > 0 {
        lemma_stopped_stays_stopped(s, ms.drop_last());
    }
}

/// The most recently parsed sample always wins: however the session got
/// here, a progress message as the latest message leaves exactly its
/// sample on display, with the session running: no averaging, no
/// smoothing.
pub proof fn lemma_latest_sample_wins(s: StateModel, ms: Seq<MessageModel>, p: SampleModel)
    requires
        ms.len() > 0,
        ms.last() == MessageModel::Progress(p),
    ensures
        apply_all(s, ms).last_progress == Some(p),
        apply_all(s, ms).is_running,
{
}

/// A request whose message sequence ends with its terminal message leaves
/// the session not running, whatever came before.
pub proof fn lemma_request_ends_stopped(s: StateModel, ms: Seq<MessageModel>)
    requires
        ms.len() > 0,
        is_terminal(ms.last()),
    ensures
        !apply_all(s, ms).is_running,
{
    lemma_terminal_stops_running(apply_all(s, ms.drop_last()), ms.last());
}

} // verus!
