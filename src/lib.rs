//! Audio capture core: a single recording session that buffers 16-bit PCM
//! samples delivered by an input device, and an encoder that turns a drained
//! buffer into a mono 16-bit WAVE clip.
use vstd::prelude::*;

pub mod pcm;
pub mod wav;
pub mod session;

pub use pcm::{pcm_from_i16, pcm_from_i8, pcm_from_u16, pcm_from_u8};
pub use session::{
    is_recording, negotiate, start_recording, stop_recording, CaptureError, DeviceFormat,
    RecordingSession, SampleChunk, StartPoll, START_TIMEOUT_MS,
};
pub use wav::{encode, EncodeFailure, DEFAULT_SAMPLE_RATE};
