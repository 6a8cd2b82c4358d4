//! The recording session: at most one capture at a time, its start
//! confirmation, and the buffer of normalized samples it fills.
//!
//! The session holds no threads, clocks or devices. The code that drives a
//! device calls these operations, under one lock, when the corresponding event
//! happens, and acts on what they return.
use vstd::prelude::*;
use crate::pcm::{pcm_from_i8, pcm_from_i16, pcm_from_u8, pcm_from_u16, pcm_of_signed, pcm_of_unsigned};
use crate::wav::{encode, clip_of, clip_fits, encoded_as, EncodeFailure, DEFAULT_SAMPLE_RATE};

verus! {

/// How long a start waits for the device to confirm, in milliseconds.
pub const START_TIMEOUT_MS: u64 = 2000;

/// Errors of the capture operations.
#[derive(Debug, Clone, Copy, PartialEq, Eq, Structural)]
pub enum CaptureError {
    /// A session is already open.
    AlreadyActive,
    /// The device did not confirm the start in time.
    StartTimeout,
    /// No input device exists.
    DeviceUnavailable,
    /// The device delivers a sample format that is not supported.
    UnsupportedFormat,
    /// The drained session holds no sample.
    NoAudioCaptured,
    /// The clip could not be encoded.
    EncodeError,
}

/// Sample format that an input device reports.
#[derive(Debug, Clone, Copy, PartialEq, Eq, Structural)]
pub enum DeviceFormat {
    I8,
    I16,
    U8,
    U16,
    F32,
    /// Any other format.
    Other,
}

/// Accepts the formats that capture can ingest (8 and 16-bit integers,
/// 32-bit float) and refuses every other one.
pub fn negotiate(format: DeviceFormat) -> (r: Result<DeviceFormat, CaptureError>)
    ensures
        format == DeviceFormat::Other ==> r == Err::<DeviceFormat, CaptureError>(CaptureError::UnsupportedFormat),
        format != DeviceFormat::Other ==> r == Ok::<DeviceFormat, CaptureError>(format),
{
    match format {
        DeviceFormat::Other => Err(CaptureError::UnsupportedFormat),
        _ => Ok(format),
    }
}

/// One callback's worth of samples, in the device's own format. Float
/// samples arrive already scaled to 16-bit PCM, as `Pcm`, and are saturated
/// like 16-bit integers.
pub enum SampleChunk {
    I8(Vec<i8>),
    I16(Vec<i16>),
    U8(Vec<u8>),
    U16(Vec<u16>),
    Pcm(Vec<i16>),
}

/// The normalized PCM values of a chunk, in arrival order.
pub open spec fn chunk_pcm(chunk: SampleChunk) -> Seq<i16> {
    match chunk {
        SampleChunk::I8(xs) => xs@.map_values(|x: i8| pcm_of_signed(x as int, 127) as i16),
        SampleChunk::I16(xs) => xs@.map_values(|x: i16| pcm_of_signed(x as int, 32767) as i16),
        SampleChunk::U8(xs) => xs@.map_values(|x: u8| pcm_of_unsigned(x as int, 255) as i16),
        SampleChunk::U16(xs) => xs@.map_values(|x: u16| pcm_of_unsigned(x as int, 65535) as i16),
        SampleChunk::Pcm(xs) => xs@.map_values(|x: i16| pcm_of_signed(x as int, 32767) as i16),
    }
}

/// What a start should do after waiting `elapsed` milliseconds.
#[derive(Debug, Clone, Copy, PartialEq, Eq, Structural)]
pub enum StartPoll {
    /// The device confirmed: the start succeeded.
    Confirmed,
    /// Keep waiting.
    Wait,
    /// Give up: the capture failed or the timeout passed.
    GiveUp,
}

/// The state of the recording session as a mathematical value.
pub struct SessionView {
    pub active: bool,
    pub started: bool,
    pub samples: Option<Seq<i16>>,
    pub sample_rate: Option<u32>,
}

/// The process's single recording session.
pub struct RecordingSession {
    active: bool,
    started: bool,
    samples: Option<Vec<i16>>,
    sample_rate: Option<u32>,
}

impl View for RecordingSession {
    type V = SessionView;

    closed spec fn view(&self) -> SessionView {
        SessionView {
            active: self.active,
            started: self.started,
            samples: match self.samples {
                Some(v) => Some(v@),
                None => None,
            },
            sample_rate: self.sample_rate,
        }
    }
}

/// An open session always has a buffer.
pub open spec fn session_wf(v: SessionView) -> bool {
    v.active ==> v.samples is Some
}

/// The session after `pcm` arrives: appended while a session is active,
/// dropped otherwise.
pub open spec fn appended(v: SessionView, pcm: Seq<i16>) -> SessionView {
    if v.active && v.samples is Some {
        SessionView { samples: Some(v.samples->Some_0 + pcm), ..v }
    } else {
        v
    }
}

/// The session after each of `chunks` arrives in order.
pub open spec fn appended_all(v: SessionView, chunks: Seq<Seq<i16>>) -> SessionView
    decreases chunks.len(),
{
    if chunks.len() == 0 {
        v
    } else {
        appended(appended_all(v, chunks.drop_last()), chunks.last())
    }
}

/// All of `chunks`, concatenated in order.
pub open spec fn concat(chunks: Seq<Seq<i16>>) -> Seq<i16>
    decreases chunks.len(),
{
    if chunks.len() == 0 {
        Seq::<i16>::empty()
    } else {
        concat(chunks.drop_last()) + chunks.last()
    }
}

/// What a drain hands out: the buffer, or nothing when no session is open.
pub open spec fn drained(v: SessionView) -> Seq<i16> {
    match v.samples {
        Some(s) => s,
        None => Seq::<i16>::empty(),
    }
}

/// The rate recorded for the session, or the default.
pub open spec fn rate_or_default(v: SessionView) -> u32 {
    match v.sample_rate {
        Some(r) => r,
        None => DEFAULT_SAMPLE_RATE,
    }
}

/// What stopping a session with these samples at this rate returns.
pub open spec fn stop_result(samples: Seq<i16>, rate: u32, r: Result<Vec<u8>, CaptureError>) -> bool {
    if samples.len() == 0 {
        r == Err::<Vec<u8>, CaptureError>(CaptureError::NoAudioCaptured)
    } else if !clip_fits(samples.len(), rate) {
        r == Err::<Vec<u8>, CaptureError>(CaptureError::EncodeError)
    } else {
        r is Ok && r->Ok_0@ == clip_of(samples, rate)
    }
}

impl RecordingSession {
    /// A session manager with no session open.
    pub fn new() -> (r: Self)
        ensures
            r@ == (SessionView { active: false, started: false, samples: None, sample_rate: None }),
    {
        RecordingSession { active: false, started: false, samples: None, sample_rate: None }
    }

    pub open spec fn wf(&self) -> bool {
        session_wf(self@)
    }

    /// Records that the device stream is running.
    pub fn confirm_started(&mut self)
        ensures
            final(self)@ == (SessionView { started: true, ..old(self)@ }),
    {
        self.started = true;
    }

    /// Records the device's sample rate for this session.
    pub fn set_sample_rate(&mut self, rate: u32)
        ensures
            final(self)@ == (SessionView { sample_rate: Some(rate), ..old(self)@ }),
    {
        self.sample_rate = Some(rate);
    }

    /// The recorded sample rate, or the default when none was recorded.
    pub fn sample_rate(&self) -> (r: u32)
        ensures
            r == rate_or_default(self@),
    {
        match self.sample_rate {
            Some(r) => r,
            None => DEFAULT_SAMPLE_RATE,
        }
    }

    /// Ends the session: the capture loop exits once it sees this, and
    /// callbacks that arrive later are dropped.
    pub fn signal_stop(&mut self)
        ensures
            final(self)@ == (SessionView { active: false, ..old(self)@ }),
    {
        self.active = false;
    }

    /// Whether the capture loop should keep its stream open.
    pub fn keep_capturing(&self) -> (r: bool)
        ensures
            r == self@.active,
    {
        self.active
    }

    /// Decides what a start does after waiting `elapsed_ms` milliseconds.
    pub fn poll_start(&self, elapsed_ms: u64) -> (r: StartPoll)
        ensures
            self@.started ==> r == StartPoll::Confirmed,
            !self@.started && (!self@.active || elapsed_ms >= START_TIMEOUT_MS) ==> r == StartPoll::GiveUp,
            !self@.started && self@.active && elapsed_ms < START_TIMEOUT_MS ==> r == StartPoll::Wait,
    {
        if self.started {
            StartPoll::Confirmed
        } else if !self.active || elapsed_ms >= START_TIMEOUT_MS {
            StartPoll::GiveUp
        } else {
            StartPoll::Wait
        }
    }

    /// Abandons a start that was not confirmed: the session is no longer
    /// active, and the start fails with `StartTimeout`.
    pub fn abandon_start(&mut self) -> (r: CaptureError)
        ensures
            r == CaptureError::StartTimeout,
            final(self)@ == (SessionView { active: false, ..old(self)@ }),
    {
        self.active = false;
        CaptureError::StartTimeout
    }

    /// Appends a chunk from the device, normalized, while the session is
    /// active; drops it otherwise.
    pub fn ingest(&mut self, chunk: &SampleChunk)
        ensures
            final(self)@ == appended(old(self)@, chunk_pcm(*chunk)),
    {
        if !self.active {
            return;
        }
        match self.samples.take() {
            Some(mut buf) => {
                extend_pcm(&mut buf, chunk);
                self.samples = Some(buf);
            }
            None => {}
        }
    }

    /// Removes and returns the whole buffer, leaving no session open; empty
    /// when none was.
    pub fn take(&mut self) -> (r: Vec<i16>)
        ensures
            r@ == drained(old(self)@),
            final(self)@ == (SessionView { samples: None, ..old(self)@ }),
    {
        match self.samples.take() {
            Some(buf) => buf,
            None => Vec::new(),
        }
    }
}

/// Appends the normalized values of `chunk` to `buf`.
fn extend_pcm(buf: &mut Vec<i16>, chunk: &SampleChunk)
    ensures
        final(buf)@ == old(buf)@ + chunk_pcm(*chunk),
{
    let ghost start = buf@;
    match chunk {
        SampleChunk::I8(xs) => {
            let mut i: usize = 0;
            while i < xs.len()
                invariant
                    i <= xs@.len(),
                    buf@ == start + xs@.take(i as int).map_values(|x: i8| pcm_of_signed(x as int, 127) as i16),
                decreases xs@.len() - i,
            {
                buf.push(pcm_from_i8(xs[i]));
                i += 1;
                assert(xs@.take(i as int) == xs@.take(i - 1) + seq![xs@[i - 1]]);
            }
            assert(xs@.take(xs@.len() as int) == xs@);
        }
        SampleChunk::I16(xs) | SampleChunk::Pcm(xs) => {
            let mut i: usize = 0;
            while i < xs.len()
                invariant
                    i <= xs@.len(),
                    buf@ == start + xs@.take(i as int).map_values(|x: i16| pcm_of_signed(x as int, 32767) as i16),
                decreases xs@.len() - i,
            {
                buf.push(pcm_from_i16(xs[i]));
                i += 1;
                assert(xs@.take(i as int) == xs@.take(i - 1) + seq![xs@[i - 1]]);
            }
            assert(xs@.take(xs@.len() as int) == xs@);
        }
        SampleChunk::U8(xs) => {
            let mut i: usize = 0;
            while i < xs.len()
                invariant
                    i <= xs@.len(),
                    buf@ == start + xs@.take(i as int).map_values(|x: u8| pcm_of_unsigned(x as int, 255) as i16),
                decreases xs@.len() - i,
            {
                buf.push(pcm_from_u8(xs[i]));
                i += 1;
                assert(xs@.take(i as int) == xs@.take(i - 1) + seq![xs@[i - 1]]);
            }
            assert(xs@.take(xs@.len() as int) == xs@);
        }
        SampleChunk::U16(xs) => {
            let mut i: usize = 0;
            while i < xs.len()
                invariant
                    i <= xs@.len(),
                    buf@ == start + xs@.take(i as int).map_values(|x: u16| pcm_of_unsigned(x as int, 65535) as i16),
                decreases xs@.len() - i,
            {
                buf.push(pcm_from_u16(xs[i]));
                i += 1;
                assert(xs@.take(i as int) == xs@.take(i - 1) + seq![xs@[i - 1]]);
            }
            assert(xs@.take(xs@.len() as int) == xs@);
        }
    }
}

/// Whether a recording session is active.
pub fn is_recording(session: &RecordingSession) -> (r: bool)
    ensures
        r == session@.active,
{
    session.keep_capturing()
}

/// Opens a session: fails with `AlreadyActive`, changing nothing, when one is
/// active; otherwise starts an empty buffer with no rate, marks the session
/// active and not yet confirmed. The caller then starts the device and waits
/// for confirmation with `poll_start`.
pub fn start_recording(session: &mut RecordingSession) -> (r: Result<(), CaptureError>)
    ensures
        old(session)@.active ==> r == Err::<(), CaptureError>(CaptureError::AlreadyActive) && final(session)@ == old(session)@,
        !old(session)@.active ==> r is Ok && final(session)@ == (SessionView {
            active: true,
            started: false,
            samples: Some(Seq::<i16>::empty()),
            sample_rate: None,
        }),
        old(session).wf() ==> final(session).wf(),
{
    if session.active {
        return Err(CaptureError::AlreadyActive);
    }
    session.started = false;
    session.samples = Some(Vec::new());
    session.sample_rate = None;
    session.active = true;
    Ok(())
}

/// Ends the session and encodes what it captured: fails with
/// `NoAudioCaptured` when the drained buffer is empty (also when no session
/// was ever opened), and otherwise returns the clip of the buffer at the
/// recorded rate, or `EncodeError` when it cannot be written.
pub fn stop_recording(session: &mut RecordingSession) -> (r: Result<Vec<u8>, CaptureError>)
    ensures
        stop_result(drained(old(session)@), rate_or_default(old(session)@), r),
        final(session)@ == (SessionView { active: false, samples: None, ..old(session)@ }),
        final(session).wf(),
{
    session.signal_stop();
    let rate = session.sample_rate();
    let samples = session.take();
    if samples.len() == 0 {
        return Err(CaptureError::NoAudioCaptured);
    }
    match encode(&samples, rate) {
        Ok(bytes) => Ok(bytes),
        Err(_) => Err(CaptureError::EncodeError),
    }
}

/// No sample is lost or duplicated: after chunks arrive one by one in an
/// active session, a drain returns the buffer as it was followed by every
/// chunk, in arrival order.
pub proof fn lemma_appends_then_drain(v: SessionView, chunks: Seq<Seq<i16>>)
    requires
        v.active,
        v.samples is Some,
    ensures
        drained(appended_all(v, chunks)) == v.samples->Some_0 + concat(chunks),
        appended_all(v, chunks).active,
        appended_all(v, chunks).samples is Some,
        appended_all(v, chunks).sample_rate == v.sample_rate,
    decreases chunks.len(),
{
    if chunks.len() == 0 {
        assert(v.samples->Some_0 + Seq::<i16>::empty() == v.samples->Some_0);
    } else {
        lemma_appends_then_drain(v, chunks.drop_last());
        assert(v.samples->Some_0 + concat(chunks.drop_last()) + chunks.last()
            == v.samples->Some_0 + (concat(chunks.drop_last()) + chunks.last()));
    }
}

/// Stopping when no session was ever opened drains nothing and reports
/// `NoAudioCaptured`, whatever rate is recorded.
pub proof fn lemma_stop_without_session(v: SessionView, r: Result<Vec<u8>, CaptureError>)
    requires
        v.samples is None,
        stop_result(drained(v), rate_or_default(v), r),
    ensures
        r == Err::<Vec<u8>, CaptureError>(CaptureError::NoAudioCaptured),
{
}

/// Stopping a session that captured samples returns what the encoder returns
/// for those samples at the session's rate (44100 when none was recorded):
/// the same clip when it fits, an error when it does not.
pub proof fn lemma_stop_matches_encode(
    v: SessionView,
    stopped: Result<Vec<u8>, CaptureError>,
    encoded: Result<Vec<u8>, EncodeFailure>,
)
    requires
        drained(v).len() > 0,
        stop_result(drained(v), rate_or_default(v), stopped),
        encoded_as(encoded, drained(v), rate_or_default(v)),
    ensures
        stopped is Ok <==> encoded is Ok,
        stopped is Ok ==> stopped->Ok_0@ == encoded->Ok_0@,
        stopped is Err ==> stopped == Err::<Vec<u8>, CaptureError>(CaptureError::EncodeError),
{
}

/// Nothing is lost between capture and clip: when chunks arrive one by one in
/// a freshly opened session and it is then stopped, the result is the clip of
/// every chunk in arrival order, at the session's rate.
pub proof fn lemma_stop_after_appends(v: SessionView, chunks: Seq<Seq<i16>>, r: Result<Vec<u8>, CaptureError>)
    requires
        v.active,
        v.samples == Some(Seq::<i16>::empty()),
        concat(chunks).len() > 0,
        clip_fits(concat(chunks).len(), rate_or_default(v)),
        stop_result(drained(appended_all(v, chunks)), rate_or_default(appended_all(v, chunks)), r),
    ensures
        r is Ok,
        r->Ok_0@ == clip_of(concat(chunks), rate_or_default(v)),
{
    lemma_appends_then_drain(v, chunks);
    assert(Seq::<i16>::empty() + concat(chunks) == concat(chunks));
}

} // verus!
