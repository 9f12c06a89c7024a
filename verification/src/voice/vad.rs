//! One-shot voice capture: when a recording of a command ends, and how
//! Whisper's spelling of the assistant's name is corrected.
use vstd::prelude::*;

use crate::command_parser::list_view;
use crate::text::{
    append_chars, trim, trim_chars,
    chars_of, lowercase, lowercase_chars, replace_chars, squeeze, squeeze_chars,
    string_from_chars,
};
use crate::voice::wake_word::replace_each;
use crate::voice::{joined_segments, strings_view};

verus! {

// ------------------------------------------------------------------
// Correcting the name
// ------------------------------------------------------------------

/// The ways Whisper misspells "аллиот", in the order they are corrected.
pub open spec fn misheard_names() -> Seq<Seq<char>> {
    seq![
        "алёд"@,
        "а, лёд"@,
        "алёт"@,
        "алед"@,
        "алет"@,
        "алиот"@,
        "алиод"@,
        "аллиод"@,
        "аллит"@,
        "аллиотт"@,
        "али от"@,
        "алли от"@,
        "али ёт"@,
        "ал лиот"@,
        "а лиот"@,
    ]
}

/// The transcript lowercased, every misspelling replaced by "аллиот" in
/// turn, and whitespace collapsed.
pub open spec fn corrected_voice_text(text: Seq<char>) -> Seq<char> {
    squeeze(replace_each(lowercase(text), misheard_names(), "аллиот"@))
}

fn misheard_list() -> (r: &'static [&'static str])
    ensures
        list_view(r@) == misheard_names(),
{
    let r: &'static [&'static str] = &[
        "алёд",
        "а, лёд",
        "алёт",
        "алед",
        "алет",
        "алиот",
        "алиод",
        "аллиод",
        "аллит",
        "аллиотт",
        "али от",
        "алли от",
        "али ёт",
        "ал лиот",
        "а лиот",
    ];
    assert(list_view(r@) =~= misheard_names());
    r
}

/// Every misspelling has at least one character.
proof fn lemma_misheard_nonempty()
    ensures
        forall|k: int|
            0 <= k < misheard_names().len() ==> #[trigger] misheard_names()[k].len() > 0,
{
    reveal_strlit("алёд");
    reveal_strlit("а, лёд");
    reveal_strlit("алёт");
    reveal_strlit("алед");
    reveal_strlit("алет");
    reveal_strlit("алиот");
    reveal_strlit("алиод");
    reveal_strlit("аллиод");
    reveal_strlit("аллит");
    reveal_strlit("аллиотт");
    reveal_strlit("али от");
    reveal_strlit("алли от");
    reveal_strlit("али ёт");
    reveal_strlit("ал лиот");
    reveal_strlit("а лиот");
}

/// Corrects Whisper's usual misspellings of the name Alliot.
pub fn normalize_voice_text(text: &str) -> (r: String)
    ensures
        r@ == corrected_voice_text(text@),
{
    let mut current = lowercase_chars(text);
    let wrongs = misheard_list();
    let ghost ws = misheard_names();
    let correct: Vec<char> = chars_of("аллиот");
    let mut k: usize = 0;
    while k < wrongs.len()
        invariant
            k <= wrongs.len(),
            list_view(wrongs@) == ws,
            ws == misheard_names(),
            correct@ == "аллиот"@,
            current@ == replace_each(lowercase(text@), ws.take(k as int), "аллиот"@),
        decreases wrongs.len() - k,
    {
        let wrong = chars_of(wrongs[k]);
        assert(ws[k as int] == wrong@);
        assert(ws.take(k as int + 1).drop_last() =~= ws.take(k as int));
        assert(wrong@.len() > 0) by {
            lemma_misheard_nonempty();
        }
        current = replace_chars(&current, &wrong, &correct);
        k = k + 1;
    }
    assert(ws.take(wrongs.len() as int) =~= ws);
    string_from_chars(&squeeze_chars(&current))
}

// ------------------------------------------------------------------
// When a recording ends
// ------------------------------------------------------------------

/// What one look at the growing recording decides.
#[derive(Debug, Clone, Copy, PartialEq, Eq, Structural)]
pub enum RecorderStep {
    /// End the recording now.
    Stop,
    /// Too little audio to judge yet; look again later.
    TooLittleAudio,
    /// The last stretch is loud; when `speech_begins`, it is the first loud
    /// stretch of the recording.
    Voice { speech_begins: bool },
    /// The last stretch is quiet, and speech has not yet ended long enough.
    Quiet,
}

/// Why a finished recording is refused.
#[derive(Debug, Clone, Copy, PartialEq, Eq, Structural)]
pub enum RecordingError {
    /// Not a single sample arrived.
    NoSamples,
    /// Nothing loud enough to be speech was heard.
    NoSpeech,
}

impl RecordingError {
    /// The message shown to the user.
    pub fn message(&self) -> (r: String)
        ensures
            r@ == (match self {
                RecordingError::NoSamples => "Микрофон не записал ни одного сэмпла"@,
                RecordingError::NoSpeech => "Речь не обнаружена"@,
            }),
    {
        match self {
            RecordingError::NoSamples => "Микрофон не записал ни одного сэмпла".to_string(),
            RecordingError::NoSpeech => "Речь не обнаружена".to_string(),
        }
    }
}

/// The decision state of a one-shot recording: whether speech has been
/// heard yet. The caller keeps the clock: it notes the time of the first
/// loud stretch and of the latest one, as the steps tell it to.
pub struct RecorderVad {
    pub speech_detected: bool,
}

/// The step a look at the recording takes, given its length, the length
/// at which recording stops, the length of the analysis window, whether
/// the window is louder than the speech threshold, whether the silence since
/// the last loud stretch has lasted long enough, and whether the speech
/// since its start has lasted long enough.
pub open spec fn recorder_step(
    speech_detected: bool,
    current_len: nat,
    max_samples: nat,
    analysis_window: nat,
    loud: bool,
    pause_reached: bool,
    speech_long_enough: bool,
) -> RecorderStep {
    if current_len >= max_samples {
        RecorderStep::Stop
    } else if current_len < analysis_window {
        RecorderStep::TooLittleAudio
    } else if loud {
        RecorderStep::Voice { speech_begins: !speech_detected }
    } else if speech_detected && pause_reached && speech_long_enough {
        RecorderStep::Stop
    } else {
        RecorderStep::Quiet
    }
}

/// A look stops the recording exactly when the maximal length is reached,
/// or when, with enough audio and a quiet window, speech has been heard, the
/// pause since the last voice has lasted long enough and the speech has
/// lasted long enough. Without the pause reached, and below the maximal
/// length, it never stops.
pub proof fn lemma_recorder_stops_only_after_pause(
    speech_detected: bool,
    current_len: nat,
    max_samples: nat,
    analysis_window: nat,
    loud: bool,
    pause_reached: bool,
    speech_long_enough: bool,
)
    ensures
        (recorder_step(
            speech_detected,
            current_len,
            max_samples,
            analysis_window,
            loud,
            pause_reached,
            speech_long_enough,
        ) == RecorderStep::Stop) <==> (current_len >= max_samples || (current_len
            >= analysis_window && !loud && speech_detected && pause_reached && speech_long_enough)),
        !pause_reached && current_len < max_samples ==> recorder_step(
            speech_detected,
            current_len,
            max_samples,
            analysis_window,
            loud,
            pause_reached,
            speech_long_enough,
        ) != RecorderStep::Stop,
{
}

impl RecorderVad {
    /// A recording that has heard nothing yet.
    pub fn new() -> (r: RecorderVad)
        ensures
            !r.speech_detected,
    {
        RecorderVad { speech_detected: false }
    }

    /// Decides one look at the recording; a loud window marks speech as
    /// heard.
    pub fn step(
        &mut self,
        current_len: usize,
        max_samples: usize,
        analysis_window: usize,
        loud: bool,
        pause_reached: bool,
        speech_long_enough: bool,
    ) -> (r: RecorderStep)
        ensures
            r == recorder_step(
                old(self).speech_detected,
                current_len as nat,
                max_samples as nat,
                analysis_window as nat,
                loud,
                pause_reached,
                speech_long_enough,
            ),
            final(self).speech_detected == (old(self).speech_detected || (r matches RecorderStep::Voice { .. })),
    {
        if current_len >= max_samples {
            return RecorderStep::Stop;
        }
        if current_len < analysis_window {
            return RecorderStep::TooLittleAudio;
        }
        if loud {
            let speech_begins = !self.speech_detected;
            self.speech_detected = true;
            return RecorderStep::Voice { speech_begins };
        }
        if self.speech_detected && pause_reached && speech_long_enough {
            return RecorderStep::Stop;
        }
        RecorderStep::Quiet
    }

    /// Whether the finished recording is usable.
    pub fn verdict(&self, sample_count: usize) -> (r: Result<(), RecordingError>)
        ensures
            sample_count == 0 ==> r == Err::<(), RecordingError>(RecordingError::NoSamples),
            sample_count > 0 && !self.speech_detected ==> r == Err::<(), RecordingError>(
                RecordingError::NoSpeech,
            ),
            sample_count > 0 && self.speech_detected ==> r is Ok,
    {
        if sample_count == 0 {
            return Err(RecordingError::NoSamples);
        }
        if !self.speech_detected {
            return Err(RecordingError::NoSpeech);
        }
        Ok(())
    }
}

// ------------------------------------------------------------------
// Transcript
// ------------------------------------------------------------------

/// Joins Whisper's segments, each followed by a space, and trims the
/// result; an empty transcript means nothing was recognised.
pub fn finish_plain_transcript(segments: &Vec<String>) -> (r: Result<String, String>)
    ensures
        match r {
            Ok(t) => t@ == trim(joined_segments(strings_view(segments@))) && t@.len() > 0,
            Err(e) => trim(joined_segments(strings_view(segments@))).len() == 0
                && e@ == "Whisper не распознал речь"@,
        },
{
    let ghost segs = strings_view(segments@);
    let mut joined: Vec<char> = Vec::new();
    let mut k: usize = 0;
    while k < segments.len()
        invariant
            k <= segments.len(),
            segs == strings_view(segments@),
            joined@ == joined_segments(segs.take(k as int)),
        decreases segments.len() - k,
    {
        let piece = chars_of(segments[k].as_str());
        assert(segs[k as int] == piece@);
        assert(segs.take(k as int + 1).drop_last() =~= segs.take(k as int));
        append_chars(&mut joined, &piece);
        joined.push(' ');
        assert(joined@ =~= joined_segments(segs.take(k as int)) + piece@.push(' '));
        k = k + 1;
    }
    assert(segs.take(segments.len() as int) =~= segs);
    let trimmed = trim_chars(&joined);
    if trimmed.len() == 0 {
        return Err("Whisper не распознал речь".to_string());
    }
    Ok(string_from_chars(&trimmed))
}

} // verus!
