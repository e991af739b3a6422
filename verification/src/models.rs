//! Data model: the download request handed to the invoker, the progress
//! sample parsed from one output line, and the message type flowing from
//! the worker to the interface loop.

use vstd::prelude::*;

use crate::text::{dec_digits, digit_char_of};

verus! {

/// The two supported output modes: a combined audio+video container (MP4)
/// or an extracted audio track (MP3).
#[derive(Clone, Copy, Debug, PartialEq, Eq, Structural)]
pub enum DownloadFormat {
    MP4,
    MP3,
}

impl Default for DownloadFormat {
    fn default() -> (r: Self)
        ensures
            r == DownloadFormat::MP4,
    {
        DownloadFormat::MP4
    }
}

/// Mathematical model of a `DownloadRequest`.
pub struct RequestModel {
    pub url: Seq<char>,
    pub format: DownloadFormat,
    pub destination_directory: Seq<char>,
}

/// One download request, constructed fresh per invocation from the current
/// interface field values and immutable once handed to the invoker.
pub struct DownloadRequest {
    pub url: String,
    pub format: DownloadFormat,
    pub destination_directory: String,
}

impl View for DownloadRequest {
    type V = RequestModel;

    open spec fn view(&self) -> RequestModel {
        RequestModel {
            url: self.url@,
            format: self.format,
            destination_directory: self.destination_directory@,
        }
    }
}

/// Mathematical model of a `ProgressSample`; the percentage is carried in
/// hundredths of a percent.
pub struct SampleModel {
    pub percent_hundredths: int,
    pub speed: Seq<char>,
    pub eta: Seq<char>,
}

/// The fields extracted from one progress line of the external tool.
/// The percentage is stored in hundredths of a percent (4520 is 45.20%),
/// since the display needs no more resolution than the tool emits.
pub struct ProgressSample {
    pub percent_hundredths: u32,
    pub speed: String,
    pub eta: String,
}

impl View for ProgressSample {
    type V = SampleModel;

    open spec fn view(&self) -> SampleModel {
        SampleModel {
            percent_hundredths: self.percent_hundredths as int,
            speed: self.speed@,
            eta: self.eta@,
        }
    }
}

impl Clone for ProgressSample {
    fn clone(&self) -> (r: Self)
        ensures
            r@ == self@,
    {
        ProgressSample {
            percent_hundredths: self.percent_hundredths,
            speed: self.speed.clone(),
            eta: self.eta.clone(),
        }
    }
}

/// The one-decimal rendering of a percentage held in hundredths: the
/// whole part in decimal, a dot, and the tenths digit (4520 reads "45.2",
/// truncating any hundredth).
pub open spec fn percent_text_of(percent_hundredths: int) -> Seq<char> {
    dec_digits((percent_hundredths / 100) as nat) + seq!['.'] + seq![
        digit_char_of((percent_hundredths % 100) / 10),
    ]
}

/// The display line of a sample: the percentage, then the speed and the
/// estimated time as far as the line that produced the sample carried
/// them.
pub open spec fn sample_text_of(p: SampleModel) -> Seq<char> {
    let base = percent_text_of(p.percent_hundredths) + seq!['%'];
    if p.speed.len() > 0 && p.eta.len() > 0 {
        base + " - "@ + p.speed + " - ETA: "@ + p.eta
    } else if p.speed.len() > 0 {
        base + " - "@ + p.speed
    } else {
        base
    }
}

impl ProgressSample {
    /// The percentage as text with one decimal, as `percent_text_of`
    /// states.
    pub fn percent_text(&self) -> (s: String)
        ensures
            s@ == percent_text_of(self@.percent_hundredths),
    {
        let mut s = crate::text::u32_decimal(self.percent_hundredths / 100);
        proof {
            reveal_strlit(".");
        }
        s.append(".");
        let tenth = crate::text::u32_decimal((self.percent_hundredths % 100) / 10);
        s.append(tenth.as_str());
        proof {
            assert(s@ =~= percent_text_of(self@.percent_hundredths));
        }
        s
    }

    /// The whole display line of the sample, as `sample_text_of` states.
    pub fn describe(&self) -> (s: String)
        ensures
            s@ == sample_text_of(self@),
    {
        let mut s = self.percent_text();
        proof {
            reveal_strlit("%");
            reveal_strlit(" - ");
            reveal_strlit(" - ETA: ");
        }
        s.append("%");
        let has_speed = !self.speed.as_str().is_empty();
        let has_eta = !self.eta.as_str().is_empty();
        if has_speed && has_eta {
            s.append(" - ");
            s.append(self.speed.as_str());
            s.append(" - ETA: ");
            s.append(self.eta.as_str());
        } else if has_speed {
            s.append(" - ");
            s.append(self.speed.as_str());
        }
        proof {
            assert(s@ =~= sample_text_of(self@));
        }
        s
    }
}

/// Mathematical model of an `OutcomeMessage`.
pub enum MessageModel {
    Progress(SampleModel),
    Completed(Seq<char>),
    Failed(Seq<char>),
}

/// The single message type flowing over the worker-to-interface channel:
/// a live progress sample, or exactly one terminal success or failure.
pub enum OutcomeMessage {
    Progress(ProgressSample),
    Completed(String),
    Failed(String),
}

impl View for OutcomeMessage {
    type V = MessageModel;

    open spec fn view(&self) -> MessageModel {
        match self {
            OutcomeMessage::Progress(p) => MessageModel::Progress(p@),
            OutcomeMessage::Completed(t) => MessageModel::Completed(t@),
            OutcomeMessage::Failed(t) => MessageModel::Failed(t@),
        }
    }
}

} // verus!
