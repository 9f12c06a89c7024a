//! The decisions of the voice pipeline: when a command recording stops by
//! itself, when the wake-word listener looks at the audio and what it does
//! with a transcript, which recordings are worth transcribing, and how
//! Whisper's segments become one transcript.
//!
//! Durations are compared as exact fractions of samples over the sample
//! rate. A zero sample rate reads as an infinite duration for a non-empty
//! count and as no duration at all for an empty one, so it is never "below"
//! a threshold.
pub mod vad;
pub mod wake_word;

use vstd::prelude::*;

use crate::assistant::{process_command, AssistantAction};
use crate::command_parser::parsed_action;
use crate::text::{
    append_chars, chars_of, fold_yo, fold_yo_chars, lowercase, lowercase_chars, squeeze,
    squeeze_chars, string_from_chars, trim, trim_chars,
};
use crate::voice_state::VoiceState;
use crate::wake_word::{command_after_wake_word, extract_command};

verus! {

/// A recording stops by itself once it is this many tenths of a second long.
pub const MAX_COMMAND_TENTHS: u64 = 70;

/// Silence of this many tenths of a second after speech ends a command.
pub const COMMAND_SILENCE_TENTHS: u64 = 10;

/// Speech shorter than this many tenths of a second does not count, and
/// audio shorter than this is not transcribed.
pub const MIN_SPEECH_TENTHS: u64 = 1;

/// `count` samples at `rate` samples per second last at least `tenths`
/// tenths of a second.
pub open spec fn lasts_at_least(count: nat, rate: nat, tenths: nat) -> bool {
    if rate == 0 {
        count > 0
    } else {
        count * 10 >= tenths * rate
    }
}

/// `count` samples at `rate` samples per second last less than `tenths`
/// tenths of a second.
pub open spec fn lasts_less_than(count: nat, rate: nat, tenths: nat) -> bool {
    if rate == 0 {
        false
    } else {
        count * 10 < tenths * rate
    }
}

fn at_least(count: usize, rate: u32, tenths: u64) -> (r: bool)
    ensures
        r == lasts_at_least(count as nat, rate as nat, tenths as nat),
{
    if rate == 0 {
        count > 0
    } else {
        let c: u128 = count as u128;
        let t: u128 = tenths as u128;
        let s: u128 = rate as u128;
        assert(c * 10 <= 0x1_0000_0000_0000_0000 * 10) by (nonlinear_arith)
            requires
                c < 0x1_0000_0000_0000_0000,
        ;
        assert(t * s <= 0x1_0000_0000_0000_0000 * 0x1_0000_0000) by (nonlinear_arith)
            requires
                t < 0x1_0000_0000_0000_0000,
                s < 0x1_0000_0000,
        ;
        c * 10 >= t * s
    }
}

fn less_than(count: usize, rate: u32, tenths: u64) -> (r: bool)
    ensures
        r == lasts_less_than(count as nat, rate as nat, tenths as nat),
{
    if rate == 0 {
        false
    } else {
        !at_least(count, rate, tenths)
    }
}

// ------------------------------------------------------------------
// Command recording
// ------------------------------------------------------------------

/// The model of a command recording's state.
pub struct CaptureModel {
    pub recording: bool,
    pub auto_stop: bool,
    pub speech_started: bool,
    pub recorded: nat,
    pub speech: nat,
    pub silence: nat,
}

/// The state of the microphone's command recording: whether it records,
/// whether it asks to be stopped, whether speech has begun, and how many
/// samples were recorded, spoken and silent since speech began.
pub struct CaptureState {
    recording: bool,
    auto_stop: bool,
    speech_started: bool,
    recorded: usize,
    speech_samples: usize,
    silence_samples: usize,
}

impl View for CaptureState {
    type V = CaptureModel;

    closed spec fn view(&self) -> CaptureModel {
        CaptureModel {
            recording: self.recording,
            auto_stop: self.auto_stop,
            speech_started: self.speech_started,
            recorded: self.recorded as nat,
            speech: self.speech_samples as nat,
            silence: self.silence_samples as nat,
        }
    }
}

/// Every state keeps speech and silence within what was recorded, and
/// counts nothing before speech begins.
pub open spec fn capture_wf(s: CaptureModel) -> bool {
    &&& s.speech + s.silence <= s.recorded
    &&& !s.speech_started ==> s.speech == 0 && s.silence == 0
}

/// What a chunk of `n` samples does to a recording. Nothing while not
/// recording. Otherwise the chunk is recorded; a recording of the maximal
/// length asks to be stopped; before speech a loud chunk starts speech;
/// during speech a loud chunk extends it and ends any silence; a quiet chunk
/// extends the silence, and once the silence is long enough, a long enough
/// speech asks the recording to be stopped.
pub open spec fn chunk_step(s: CaptureModel, n: nat, is_speech: bool, rate: nat) -> CaptureModel {
    if !s.recording {
        s
    } else {
        let recorded = s.recorded + n;
        if lasts_at_least(recorded, rate, MAX_COMMAND_TENTHS as nat) {
            CaptureModel { recorded, auto_stop: true, ..s }
        } else if !s.speech_started {
            if is_speech {
                CaptureModel { recorded, speech_started: true, speech: n, silence: 0, ..s }
            } else {
                CaptureModel { recorded, ..s }
            }
        } else if is_speech {
            CaptureModel { recorded, speech: s.speech + n, silence: 0, ..s }
        } else {
            let silence = s.silence + n;
            if !lasts_less_than(silence, rate, COMMAND_SILENCE_TENTHS as nat) && lasts_at_least(
                s.speech,
                rate,
                MIN_SPEECH_TENTHS as nat,
            ) {
                CaptureModel { recorded, silence, auto_stop: true, ..s }
            } else {
                CaptureModel { recorded, silence, ..s }
            }
        }
    }
}

impl CaptureState {
    #[verifier::type_invariant]
    spec fn counts_consistent(self) -> bool {
        capture_wf(self@)
    }

    /// A microphone that is not recording.
    pub fn new() -> (r: CaptureState)
        ensures
            r@ == (CaptureModel {
                recording: false,
                auto_stop: false,
                speech_started: false,
                recorded: 0,
                speech: 0,
                silence: 0,
            }),
    {
        CaptureState {
            recording: false,
            auto_stop: false,
            speech_started: false,
            recorded: 0,
            speech_samples: 0,
            silence_samples: 0,
        }
    }

    /// Starts a fresh recording: nothing recorded, no speech, no stop asked.
    pub fn start_recording(&mut self)
        ensures
            final(self)@ == (CaptureModel {
                recording: true,
                auto_stop: false,
                speech_started: false,
                recorded: 0,
                speech: 0,
                silence: 0,
            }),
    {
        *self = CaptureState {
            recording: true,
            auto_stop: false,
            speech_started: false,
            recorded: 0,
            speech_samples: 0,
            silence_samples: 0,
        };
    }

    /// Stops recording and withdraws any stop request; the counts stay.
    pub fn stop_recording(&mut self)
        ensures
            final(self)@ == (CaptureModel { recording: false, auto_stop: false, ..old(self)@ }),
    {
        proof {
            use_type_invariant(&*self);
        }
        *self = CaptureState { recording: false, auto_stop: false, ..*self };
    }

    /// Whether the microphone records.
    pub fn is_recording(&self) -> (r: bool)
        ensures
            r == self@.recording,
    {
        self.recording
    }

    /// The number of samples recorded since the recording started.
    pub fn recorded(&self) -> (r: usize)
        ensures
            r == self@.recorded,
    {
        self.recorded
    }

    /// Whether the recording asks to be stopped.
    pub fn should_auto_stop(&self) -> (r: bool)
        ensures
            r == self@.auto_stop,
    {
        self.auto_stop
    }

    /// One look of a caller waiting for the recording to end: done when
    /// recording has stopped; done, with recording switched off, when a stop
    /// was asked; otherwise not done and nothing changes.
    pub fn poll_recording_end(&mut self) -> (done: bool)
        ensures
            done == (!old(self)@.recording || old(self)@.auto_stop),
            final(self)@ == (if old(self)@.recording && old(self)@.auto_stop {
                CaptureModel { recording: false, ..old(self)@ }
            } else {
                old(self)@
            }),
    {
        proof {
            use_type_invariant(&*self);
        }
        if !self.recording {
            return true;
        }
        if self.auto_stop {
            *self = CaptureState { recording: false, ..*self };
            return true;
        }
        false
    }

    /// Feeds a chunk of `chunk_len` samples, loud enough to be speech or
    /// not, to the recording (`chunk_step`).
    pub fn process_chunk(&mut self, chunk_len: usize, is_speech: bool, sample_rate: u32)
        requires
            old(self)@.recorded + chunk_len <= usize::MAX,
        ensures
            final(self)@ == chunk_step(old(self)@, chunk_len as nat, is_speech, sample_rate as nat),
    {
        proof {
            use_type_invariant(&*self);
        }
        if !self.recording {
            return;
        }
        let recorded = self.recorded + chunk_len;
        if at_least(recorded, sample_rate, MAX_COMMAND_TENTHS) {
            *self = CaptureState { recorded, auto_stop: true, ..*self };
            return;
        }
        if !self.speech_started {
            if is_speech {
                *self = CaptureState {
                    recorded,
                    speech_started: true,
                    speech_samples: chunk_len,
                    silence_samples: 0,
                    ..*self
                };
            } else {
                *self = CaptureState { recorded, ..*self };
            }
            return;
        }
        if is_speech {
            let speech_samples = self.speech_samples + chunk_len;
            *self = CaptureState { recorded, speech_samples, silence_samples: 0, ..*self };
            return;
        }
        let silence_samples = self.silence_samples + chunk_len;
        if !less_than(silence_samples, sample_rate, COMMAND_SILENCE_TENTHS) && at_least(
            self.speech_samples,
            sample_rate,
            MIN_SPEECH_TENTHS,
        ) {
            *self = CaptureState { recorded, silence_samples, auto_stop: true, ..*self };
        } else {
            *self = CaptureState { recorded, silence_samples, ..*self };
        }
    }
}

/// Chunks that arrive while the microphone does not record leave the
/// recording state as it is.
pub proof fn lemma_idle_chunks_change_nothing(s: CaptureModel, n: nat, is_speech: bool, rate: nat)
    requires
        !s.recording,
    ensures
        chunk_step(s, n, is_speech, rate) == s,
{
}

/// Chunks never withdraw a stop request, never switch recording on or off,
/// and never forget that speech began; a recording always counts its chunk.
pub proof fn lemma_chunk_monotone(s: CaptureModel, n: nat, is_speech: bool, rate: nat)
    requires
        s.recording,
    ensures
        chunk_step(s, n, is_speech, rate).recording,
        s.auto_stop ==> chunk_step(s, n, is_speech, rate).auto_stop,
        s.speech_started ==> chunk_step(s, n, is_speech, rate).speech_started,
        chunk_step(s, n, is_speech, rate).recorded == s.recorded + n,
{
}

/// During speech, below the maximal length, a loud chunk of `n` samples
/// adds exactly `n` to the speech count and ends any silence; a quiet chunk
/// leaves the speech count and adds exactly `n` to the silence.
pub proof fn lemma_speech_counts_chunks(s: CaptureModel, n: nat, is_speech: bool, rate: nat)
    requires
        s.recording,
        s.speech_started,
        !lasts_at_least(s.recorded + n, rate, MAX_COMMAND_TENTHS as nat),
    ensures
        is_speech ==> chunk_step(s, n, is_speech, rate).speech == s.speech + n
            && chunk_step(s, n, is_speech, rate).silence == 0,
        !is_speech ==> chunk_step(s, n, is_speech, rate).speech == s.speech
            && chunk_step(s, n, is_speech, rate).silence == s.silence + n,
        chunk_step(s, n, is_speech, rate).speech_started,
{
}

/// Speech of at least the minimal duration followed by silence of at least
/// the pause duration asks the recording to stop: a quiet chunk that brings
/// the silence to the pause duration, after long enough speech, sets the
/// stop request.
pub proof fn lemma_pause_after_speech_stops(s: CaptureModel, n: nat, rate: nat)
    requires
        s.recording,
        s.speech_started,
        rate > 0,
        s.speech * 10 >= MIN_SPEECH_TENTHS * rate,
        (s.silence + n) * 10 >= COMMAND_SILENCE_TENTHS * rate,
    ensures
        chunk_step(s, n, false, rate).auto_stop,
{
}

/// Once a recording reaches the maximal length, the chunk that gets it there
/// asks for it to be stopped.
pub proof fn lemma_max_length_stops(s: CaptureModel, n: nat, is_speech: bool, rate: nat)
    requires
        s.recording,
        lasts_at_least(s.recorded + n, rate, MAX_COMMAND_TENTHS as nat),
    ensures
        chunk_step(s, n, is_speech, rate).auto_stop,
{
}

/// A recording asks to be stopped only at the maximal length, or after
/// speech that lasted long enough followed by long enough silence.
pub proof fn lemma_stop_reasons(s: CaptureModel, n: nat, is_speech: bool, rate: nat)
    requires
        s.recording,
        !s.auto_stop,
        chunk_step(s, n, is_speech, rate).auto_stop,
    ensures
        lasts_at_least(s.recorded + n, rate, MAX_COMMAND_TENTHS as nat) || (s.speech_started
            && !is_speech && lasts_at_least(s.speech, rate, MIN_SPEECH_TENTHS as nat)
            && !lasts_less_than(s.silence + n, rate, COMMAND_SILENCE_TENTHS as nat)),
{
}

/// The ring buffer keeps this many seconds of audio.
pub const RING_BUFFER_SECONDS: usize = 5;

/// The number of samples the microphone's ring buffer keeps.
pub fn ring_buffer_capacity(sample_rate: u32) -> (r: usize)
    requires
        sample_rate * RING_BUFFER_SECONDS <= usize::MAX,
    ensures
        r == sample_rate * RING_BUFFER_SECONDS,
{
    sample_rate as usize * RING_BUFFER_SECONDS
}

/// Why a microphone is refused.
#[derive(Debug, Clone, Copy, PartialEq, Eq, Structural)]
pub enum MicrophoneIssue {
    /// The microphone is not mono; it has this many channels.
    NotMono(u16),
}

/// Only mono microphones are used.
pub fn check_channels(channels: u16) -> (r: Result<(), MicrophoneIssue>)
    ensures
        r == (if channels == 1 {
            Ok(())
        } else {
            Err(MicrophoneIssue::NotMono(channels))
        }),
{
    if channels != 1 {
        return Err(MicrophoneIssue::NotMono(channels));
    }
    Ok(())
}

// ------------------------------------------------------------------
// Wake-word listener
// ------------------------------------------------------------------

/// Whether the listener transcribes the current audio window: not while the
/// assistant is awake or a command is being recorded, not when less than
/// half a window of audio is there, and not when the last half second is
/// quieter than the wake-word threshold.
pub fn wake_should_transcribe(
    awake: bool,
    recording: bool,
    audio_len: usize,
    window_samples: usize,
    loud: bool,
) -> (r: bool)
    ensures
        r == (!awake && !recording && audio_len >= window_samples / 2 && loud),
{
    if awake {
        return false;
    }
    if recording {
        return false;
    }
    if audio_len < window_samples / 2 {
        return false;
    }
    loud
}

/// What happens in the wake-word listener.
#[derive(Debug, Clone, Copy, PartialEq, Eq, Structural)]
pub enum ListenerEvent {
    /// Whisper transcribed the audio window.
    Transcribed,
    /// The transcript holds the wake word.
    WakeWordHeard,
    /// A command given together with the wake word was carried out.
    CommandRun,
    /// A separately recorded command was handled, or did not arrive.
    CommandListened,
    /// The listener was stopped.
    Stopped,
}

/// The listener's state after an event: whether the assistant is awake
/// (and the listener therefore pauses), and the voice state to show, if it
/// changes.
#[derive(Debug, Clone, Copy, PartialEq, Eq)]
pub struct ListenerUpdate {
    pub awake: bool,
    pub voice_state: Option<VoiceState>,
}

/// How each event changes the listener: a transcription shows `Listening`;
/// the wake word wakes the assistant; a command run in the same phrase puts
/// it back to sleep; a separately recorded command puts it back to sleep and
/// shows `Analyzing`; stopping the listener puts it to sleep.
pub open spec fn listener_update_of(awake: bool, event: ListenerEvent) -> ListenerUpdate {
    match event {
        ListenerEvent::Transcribed => ListenerUpdate {
            awake,
            voice_state: Some(VoiceState::Listening),
        },
        ListenerEvent::WakeWordHeard => ListenerUpdate { awake: true, voice_state: None },
        ListenerEvent::CommandRun => ListenerUpdate { awake: false, voice_state: None },
        ListenerEvent::CommandListened => ListenerUpdate {
            awake: false,
            voice_state: Some(VoiceState::Analyzing),
        },
        ListenerEvent::Stopped => ListenerUpdate { awake: false, voice_state: None },
    }
}

/// The listener's state after an event.
pub fn listener_update(awake: bool, event: ListenerEvent) -> (r: ListenerUpdate)
    ensures
        r == listener_update_of(awake, event),
{
    match event {
        ListenerEvent::Transcribed => ListenerUpdate {
            awake,
            voice_state: Some(VoiceState::Listening),
        },
        ListenerEvent::WakeWordHeard => ListenerUpdate { awake: true, voice_state: None },
        ListenerEvent::CommandRun => ListenerUpdate { awake: false, voice_state: None },
        ListenerEvent::CommandListened => ListenerUpdate {
            awake: false,
            voice_state: Some(VoiceState::Analyzing),
        },
        ListenerEvent::Stopped => ListenerUpdate { awake: false, voice_state: None },
    }
}

/// What the listener does with a transcript of the audio window.
#[derive(Debug)]
pub enum WakeOutcome {
    /// No wake word: keep listening.
    NoWakeWord,
    /// The wake word came with a command in the same phrase: run it.
    RunCommand(String),
    /// Only the wake word: record a separate command.
    AwaitCommand,
}

/// The listener's decision for a transcript: no wake word, a command that
/// followed it, or just the wake word.
pub open spec fn wake_outcome_of(text: Seq<char>) -> Option<Option<Seq<char>>> {
    match command_after_wake_word(text) {
        None => None,
        Some(c) => if trim(c).len() > 0 {
            Some(Some(c))
        } else {
            Some(None)
        },
    }
}

/// Decides what the listener does with a transcript.
pub fn wake_outcome(text: &str) -> (r: WakeOutcome)
    ensures
        match r {
            WakeOutcome::NoWakeWord => wake_outcome_of(text@) is None,
            WakeOutcome::RunCommand(c) => wake_outcome_of(text@) == Some(Some(c@)),
            WakeOutcome::AwaitCommand => wake_outcome_of(text@) == Some(None::<Seq<char>>),
        },
{
    match extract_command(text) {
        None => WakeOutcome::NoWakeWord,
        Some(command) => {
            let chars = chars_of(command.as_str());
            let trimmed = trim_chars(&chars);
            if trimmed.len() > 0 {
                WakeOutcome::RunCommand(command)
            } else {
                WakeOutcome::AwaitCommand
            }
        },
    }
}

/// The action for a recognised command: nothing for a blank one, else what
/// the parser makes of the trimmed command.
pub fn prepare_voice_command(text: &str) -> (r: Option<AssistantAction>)
    ensures
        match r {
            None => trim(text@).len() == 0,
            Some(a) => trim(text@).len() > 0 && a@ == parsed_action(trim(text@)),
        },
{
    let chars = chars_of(text);
    let trimmed = trim_chars(&chars);
    if trimmed.len() == 0 {
        return None;
    }
    let command = string_from_chars(&trimmed);
    Some(process_command(command.as_str()))
}

// ------------------------------------------------------------------
// Transcription
// ------------------------------------------------------------------

/// Why audio is not handed to Whisper.
#[derive(Debug, Clone, Copy, PartialEq, Eq, Structural)]
pub enum AudioIssue {
    /// There is no audio.
    Empty,
    /// The sample rate is zero.
    InvalidSampleRate,
    /// The audio is shorter than the minimal speech duration.
    TooShort,
}

/// Checks audio before transcription: it must be non-empty, have a non-zero
/// sample rate, and last at least the minimal speech duration.
pub fn check_audio(sample_count: usize, sample_rate: u32) -> (r: Result<(), AudioIssue>)
    ensures
        r == (if sample_count == 0 {
            Err(AudioIssue::Empty)
        } else if sample_rate == 0 {
            Err(AudioIssue::InvalidSampleRate)
        } else if lasts_less_than(sample_count as nat, sample_rate as nat, MIN_SPEECH_TENTHS as nat) {
            Err(AudioIssue::TooShort)
        } else {
            Ok(())
        }),
{
    if sample_count == 0 {
        return Err(AudioIssue::Empty);
    }
    if sample_rate == 0 {
        return Err(AudioIssue::InvalidSampleRate);
    }
    if less_than(sample_count, sample_rate, MIN_SPEECH_TENTHS) {
        return Err(AudioIssue::TooShort);
    }
    Ok(())
}

/// The segments' texts, each followed by a space.
pub open spec fn joined_segments(segments: Seq<Seq<char>>) -> Seq<char>
    decreases segments.len(),
{
    if segments.len() == 0 {
        seq![]
    } else {
        joined_segments(segments.drop_last()) + segments.last().push(' ')
    }
}

/// A transcript lowercased, `ё` read as `е`, whitespace collapsed.
pub open spec fn transcript_form(text: Seq<char>) -> Seq<char> {
    squeeze(lowercase(text).map_values(|c: char| fold_yo(c)))
}

/// The texts of a list of strings.
pub open spec fn strings_view(v: Seq<String>) -> Seq<Seq<char>> {
    v.map_values(|s: String| s@)
}

/// Lowercases a transcript, reads `ё` as `е` and collapses whitespace.
pub fn normalize_transcript(text: &str) -> (r: String)
    ensures
        r@ == transcript_form(text@),
{
    let lower = lowercase_chars(text);
    let folded = fold_yo_chars(&lower);
    string_from_chars(&squeeze_chars(&folded))
}

/// Joins Whisper's segments into one transcript; an empty transcript means
/// nothing was recognised.
pub fn finish_transcript(segments: &Vec<String>) -> (r: Result<String, String>)
    ensures
        match r {
            Ok(t) => t@ == transcript_form(joined_segments(strings_view(segments@))) && t@.len()
                > 0,
            Err(e) => transcript_form(joined_segments(strings_view(segments@))).len() == 0
                && e@ == "Whisper не распознал речь"@,
        },
{
    let ghost segs = strings_view(segments@);
    let mut joined: Vec<char> = Vec::new();
    let mut k: usize = 0;
    while k < segments.len()
        invariant
            k <= segments.len(),
            segs == strings_view(segments@),
            joined@ == joined_segments(segs.take(k as int)),
        decreases segments.len() - k,
    {
        let piece = chars_of(segments[k].as_str());
        assert(segs[k as int] == piece@);
        assert(segs.take(k as int + 1).drop_last() =~= segs.take(k as int));
        append_chars(&mut joined, &piece);
        joined.push(' ');
        assert(joined@ =~= joined_segments(segs.take(k as int)) + piece@.push(' '));
        k = k + 1;
    }
    assert(segs.take(segments.len() as int) =~= segs);
    let joined_text = string_from_chars(&joined);
    let result = normalize_transcript(joined_text.as_str());
    if result.as_str().unicode_len() == 0 {
        return Err("Whisper не распознал речь".to_string());
    }
    Ok(result)
}

} // verus!
