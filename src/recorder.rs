//! The capture engine's session state: which stream is current, whether it is
//! recording, and the samples it has delivered. The hardware stream itself is
//! opened and driven by the caller; every decision about its blocks is made here.

use vstd::prelude::*;
use crate::level::{is_rms, rms_level};

verus! {

/// Why starting a capture failed.
#[derive(Debug, Clone, PartialEq, Eq)]
pub enum CaptureError {
    /// The host enumerated no input device with a readable name.
    NoDevicesFound,
    /// A device ordinal beyond the host's enumeration.
    InvalidDeviceIndex,
    /// No ordinal was given and the host has no default input device.
    NoDefaultDevice,
    /// The device could not be opened or configured; the host's words.
    DeviceOpen(String),
    /// The device's native sample encoding is not one the engine converts.
    UnsupportedFormat(String),
    /// Another start took over while this one was opening its device.
    Superseded,
}

/// One input device as the host enumerated it.
#[derive(Debug, Clone, PartialEq, Eq)]
pub struct AudioDeviceInfo {
    pub name: String,
    /// Position in the host's enumeration; not stable across enumerations.
    pub index: usize,
    pub is_default: bool,
}

/// Which device a start opens.
#[derive(Debug, Clone, PartialEq, Eq)]
pub enum DeviceChoice {
    /// The host's default input device.
    Default,
    /// The device at this position of the host's enumeration.
    Index(usize),
}

/// What a stopped recording hands back.
#[derive(Debug, Clone, PartialEq, Eq)]
pub struct RecordingResult {
    pub audio_data: Vec<i16>,
    /// The rate the device negotiated when the recording started.
    pub sample_rate: u32,
    /// Root-mean-square of `audio_data`, in level units (see `crate::level`).
    pub avg_rms: u64,
    /// `avg_rms` is below the silence threshold given to `stop_recording`.
    pub is_silent: bool,
}

/// Sample rate reported before any device was opened.
pub const INITIAL_SAMPLE_RATE: u32 = 16000;

/// Default silence threshold: 1_000 level units, 0.01 of full scale.
pub const DEFAULT_SILENCE_THRESHOLD: u64 = 1_000;

/// Whether position `i` of the host's enumeration appears in `devices`.
pub open spec fn lists_position(devices: Seq<AudioDeviceInfo>, i: int) -> bool {
    exists|k: int| 0 <= k < devices.len() && #[trigger] devices[k].index == i
}

/// `devices` describes the host's enumeration `names` (`None` where a name
/// could not be read): one entry per readable name, in enumeration order,
/// each with its position and marked default exactly when its name is
/// `default_name`.
pub open spec fn describes_devices(
    devices: Seq<AudioDeviceInfo>,
    names: Seq<Option<String>>,
    default_name: Option<String>,
) -> bool {
    &&& forall|k: int|
        0 <= k < devices.len() ==> {
            let d = #[trigger] devices[k];
            &&& d.index < names.len()
            &&& names[d.index as int] matches Some(n) && n@ == d.name@
            &&& d.is_default == (default_name matches Some(dn) && dn@ == d.name@)
        }
    &&& forall|k: int, l: int| 0 <= k < l < devices.len() ==> devices[k].index < devices[l].index
    &&& forall|i: int| 0 <= i < names.len() && names[i] is Some ==> lists_position(devices, i)
}

/// Equality of two strings, character for character.
fn string_eq(a: &String, b: &String) -> (r: bool)
    ensures
        r == (a@ == b@),
{
    *a == *b
}

/// Resolves a device selector against the host's enumeration: an ordinal
/// must lie within the `device_count` devices enumerated; no ordinal means the
/// host's default device, which must exist.
pub fn resolve_device(device_index: Option<usize>, device_count: usize, has_default: bool) -> (r:
    Result<DeviceChoice, CaptureError>)
    ensures
        match device_index {
            Some(i) => if i < device_count {
                r matches Ok(DeviceChoice::Index(j)) && j == i
            } else {
                r matches Err(CaptureError::InvalidDeviceIndex)
            },
            None => if has_default {
                r matches Ok(DeviceChoice::Default)
            } else {
                r matches Err(CaptureError::NoDefaultDevice)
            },
        },
{
    match device_index {
        Some(i) => if i < device_count {
            Ok(DeviceChoice::Index(i))
        } else {
            Err(CaptureError::InvalidDeviceIndex)
        },
        None => if has_default {
            Ok(DeviceChoice::Default)
        } else {
            Err(CaptureError::NoDefaultDevice)
        },
    }
}

/// The state of a capture engine, as plain values.
pub struct RecorderView {
    /// Samples delivered by the current stream since it started.
    pub samples: Seq<i16>,
    pub sample_rate: u32,
    pub recording: bool,
    /// The id of the current stream; blocks tagged otherwise are stale.
    pub generation: u64,
}

impl RecorderView {
    /// An idle engine holds no samples.
    pub open spec fn wf(self) -> bool {
        !self.recording ==> self.samples.len() == 0
    }
}

/// The id that follows `g`, wrapping at the end of `u64`.
pub open spec fn next_generation(g: u64) -> u64 {
    if g == u64::MAX {
        0
    } else {
        (g + 1) as u64
    }
}

/// The engine after a new stream was announced: the old one is retired, the
/// buffer is empty and nothing records until the new stream is confirmed.
pub open spec fn retired(v: RecorderView) -> RecorderView {
    RecorderView {
        samples: Seq::empty(),
        sample_rate: v.sample_rate,
        recording: false,
        generation: next_generation(v.generation),
    }
}

/// The engine once the current stream was confirmed playing at `rate`.
pub open spec fn started(v: RecorderView, rate: u32) -> RecorderView {
    RecorderView { sample_rate: rate, recording: true, ..v }
}

/// The engine once a block tagged `generation` arrived.
pub open spec fn after_block(v: RecorderView, generation: u64, block: Seq<i16>) -> RecorderView {
    if generation == v.generation && v.recording {
        RecorderView { samples: v.samples + block, ..v }
    } else {
        v
    }
}

/// The engine after a stop.
pub open spec fn stopped(v: RecorderView) -> RecorderView {
    RecorderView { samples: Seq::empty(), recording: false, ..v }
}

/// The engine after the blocks `blocks` (each tagged with a stream id)
/// arrived in order.
pub open spec fn after_blocks(v: RecorderView, blocks: Seq<(u64, Seq<i16>)>) -> RecorderView
    decreases blocks.len(),
{
    if blocks.len() == 0 {
        v
    } else {
        after_block(after_blocks(v, blocks.drop_last()), blocks.last().0, blocks.last().1)
    }
}

/// The samples of the blocks tagged `generation`, in order.
pub open spec fn samples_of(blocks: Seq<(u64, Seq<i16>)>, generation: u64) -> Seq<i16>
    decreases blocks.len(),
{
    if blocks.len() == 0 {
        Seq::empty()
    } else {
        samples_of(blocks.drop_last(), generation) + if blocks.last().0 == generation {
            blocks.last().1
        } else {
            Seq::empty()
        }
    }
}

proof fn lemma_blocks_while_recording(v: RecorderView, blocks: Seq<(u64, Seq<i16>)>)
    requires
        v.recording,
    ensures
        after_blocks(v, blocks) == (RecorderView {
            samples: v.samples + samples_of(blocks, v.generation),
            ..v
        }),
    decreases blocks.len(),
{
    if blocks.len() > 0 {
        lemma_blocks_while_recording(v, blocks.drop_last());
        let prev = samples_of(blocks.drop_last(), v.generation);
        if blocks.last().0 == v.generation {
            assert(v.samples + prev + blocks.last().1 =~= v.samples + (prev + blocks.last().1));
        } else {
            assert(prev + Seq::<i16>::empty() =~= prev);
        }
    } else {
        assert(v.samples + Seq::<i16>::empty() =~= v.samples);
    }
}

proof fn lemma_blocks_while_idle(v: RecorderView, blocks: Seq<(u64, Seq<i16>)>)
    requires
        !v.recording,
    ensures
        after_blocks(v, blocks) == v,
    decreases blocks.len(),
{
    if blocks.len() > 0 {
        lemma_blocks_while_idle(v, blocks.drop_last());
    }
}

/// Only the current stream is ever recorded. A start gives the new stream an
/// id that differs from the one it replaces; blocks that arrive before the
/// new stream is confirmed are dropped whatever their tag; and after it is
/// confirmed, the buffer (what a stop returns) holds exactly the samples of
/// the blocks tagged with the new id, in arrival order, however many blocks
/// of superseded streams arrive in between.
pub proof fn lemma_only_current_stream_recorded(
    v: RecorderView,
    early: Seq<(u64, Seq<i16>)>,
    rate: u32,
    late: Seq<(u64, Seq<i16>)>,
)
    ensures
        retired(v).generation != v.generation,
        after_blocks(retired(v), early) == retired(v),
        after_blocks(started(after_blocks(retired(v), early), rate), late).samples == samples_of(
            late,
            retired(v).generation,
        ),
{
    lemma_blocks_while_idle(retired(v), early);
    lemma_blocks_while_recording(started(retired(v), rate), late);
    assert(Seq::<i16>::empty() + samples_of(late, retired(v).generation) =~= samples_of(
        late,
        retired(v).generation,
    ));
}

/// Stopping an idle engine, one never started included, yields no samples, a
/// root-mean-square of 0, and is classified silent for every positive
/// threshold.
pub proof fn lemma_idle_stop_is_silent(v: RecorderView, rms: int, silence_threshold: u64)
    requires
        v.wf(),
        !v.recording,
        is_rms(v.samples, rms),
        silence_threshold > 0,
    ensures
        v.samples.len() == 0,
        rms == 0,
        rms < silence_threshold,
{
}

/// The capture engine's session state.
pub struct AudioRecorder {
    buffer: Vec<i16>,
    sample_rate: u32,
    is_recording: bool,
    stream_id: u64,
}

impl View for AudioRecorder {
    type V = RecorderView;

    closed spec fn view(&self) -> RecorderView {
        RecorderView {
            samples: self.buffer@,
            sample_rate: self.sample_rate,
            recording: self.is_recording,
            generation: self.stream_id,
        }
    }
}

impl AudioRecorder {
    /// Lists the host's input devices from its enumeration: `names[i]` is the
    /// name of the `i`-th device, `None` where it could not be read, and
    /// `default_name` the name of the host's default input device. Fails when no
    /// device has a readable name.
    pub fn get_input_devices(names: &Vec<Option<String>>, default_name: &Option<String>) -> (r:
        Result<Vec<AudioDeviceInfo>, CaptureError>)
        ensures
            r is Err <==> forall|i: int| 0 <= i < names@.len() ==> names@[i] is None,
            r matches Err(e) ==> e is NoDevicesFound,
            r matches Ok(devices) ==> describes_devices(devices@, names@, *default_name),
    {
        let mut devices: Vec<AudioDeviceInfo> = Vec::new();
        let mut i: usize = 0;
        while i < names.len()
            invariant
                i <= names@.len(),
                forall|k: int|
                    0 <= k < devices@.len() ==> {
                        let d = #[trigger] devices@[k];
                        &&& d.index < i
                        &&& names@[d.index as int] matches Some(n) && n@ == d.name@
                        &&& d.is_default == (*default_name matches Some(dn) && dn@ == d.name@)
                    },
                forall|k: int, l: int|
                    0 <= k < l < devices@.len() ==> devices@[k].index < devices@[l].index,
                forall|j: int| 0 <= j < i && names@[j] is Some ==> lists_position(devices@, j),
                devices@.len() == 0 <==> forall|j: int| 0 <= j < i ==> names@[j] is None,
            decreases names@.len() - i,
        {
            match &names[i] {
                Some(name) => {
                    let is_default = match default_name {
                        Some(dn) => string_eq(dn, name),
                        None => false,
                    };
                    let ghost before = devices@;
                    let entry = AudioDeviceInfo { name: name.clone(), index: i, is_default };
                    assert(entry.name@ == name@);
                    assert(names@[i as int] == Some(*name));
                    devices.push(entry);
                    assert(devices@[devices@.len() - 1].index == i);
                    assert forall|j: int| 0 <= j < i + 1 && names@[j] is Some implies lists_position(
                        devices@,
                        j,
                    ) by {
                        if j < i {
                            assert(lists_position(before, j));
                            let k = choose|k: int| 0 <= k < before.len() && #[trigger] before[k].index == j;
                            assert(devices@[k] == before[k]);
                        } else {
                            assert(devices@[devices@.len() - 1].index == j);
                        }
                    }
                },
                None => {},
            }
            i = i + 1;
        }
        if devices.len() == 0 {
            Err(CaptureError::NoDevicesFound)
        } else {
            Ok(devices)
        }
    }

    /// An idle engine that has never started.
    pub fn new() -> (r: Self)
        ensures
            r@.wf(),
            r@ == (RecorderView {
                samples: Seq::empty(),
                sample_rate: INITIAL_SAMPLE_RATE,
                recording: false,
                generation: 0,
            }),
    {
        AudioRecorder {
            buffer: Vec::new(),
            sample_rate: INITIAL_SAMPLE_RATE,
            is_recording: false,
            stream_id: 0,
        }
    }

    pub fn is_recording(&self) -> (r: bool)
        ensures
            r == self@.recording,
    {
        self.is_recording
    }

    /// The rate of the most recently confirmed stream.
    pub fn get_sample_rate(&self) -> (r: u32)
        ensures
            r == self@.sample_rate,
    {
        self.sample_rate
    }

    /// The id of the current stream.
    pub fn current_generation(&self) -> (r: u64)
        ensures
            r == self@.generation,
    {
        self.stream_id
    }

    /// First half of a start: retires the current stream (its blocks become
    /// no-ops from here on), clears the buffer and returns the id with which
    /// the caller tags the stream it is about to open.
    pub fn next_stream(&mut self) -> (generation: u64)
        requires
            old(self)@.wf(),
        ensures
            final(self)@.wf(),
            final(self)@ == retired(old(self)@),
            generation == final(self)@.generation,
            generation != old(self)@.generation,
    {
        self.buffer.clear();
        self.is_recording = false;
        self.stream_id = self.stream_id.wrapping_add(1);
        self.stream_id
    }

    /// Second half of a start: `opened` is what opening the device tagged
    /// `generation` gave, its negotiated sample rate or the failure. On
    /// success the engine records at that rate; on failure it is left idle.
    /// A start that another start overtook fails and changes nothing.
    pub fn start_recording(&mut self, generation: u64, opened: Result<u32, CaptureError>) -> (r:
        Result<(), CaptureError>)
        requires
            old(self)@.wf(),
        ensures
            final(self)@.wf(),
            generation != old(self)@.generation ==> {
                &&& r matches Err(CaptureError::Superseded)
                &&& final(self)@ == old(self)@
            },
            generation == old(self)@.generation ==> match opened {
                Ok(rate) => {
                    &&& r is Ok
                    &&& final(self)@ == started(old(self)@, rate)
                },
                Err(e) => {
                    &&& r == Err::<(), CaptureError>(e)
                    &&& final(self)@ == stopped(old(self)@)
                },
            },
    {
        if generation != self.stream_id {
            return Err(CaptureError::Superseded);
        }
        match opened {
            Ok(rate) => {
                self.sample_rate = rate;
                self.is_recording = true;
                Ok(())
            },
            Err(e) => {
                self.buffer.clear();
                self.is_recording = false;
                Err(e)
            },
        }
    }

    /// Whether a block from the stream tagged `generation` would be kept:
    /// that stream is current and recording.
    pub fn accepts_block(&self, generation: u64) -> (r: bool)
        ensures
            r == (generation == self@.generation && self@.recording),
    {
        generation == self.stream_id && self.is_recording
    }

    /// Appends a converted block from the stream tagged `generation`, unless
    /// that stream was superseded or the engine stopped; says whether it did.
    pub fn append_block(&mut self, generation: u64, block: &[i16]) -> (r: bool)
        requires
            old(self)@.wf(),
        ensures
            final(self)@.wf(),
            final(self)@ == after_block(old(self)@, generation, block@),
            r == (generation == old(self)@.generation && old(self)@.recording),
    {
        if generation == self.stream_id && self.is_recording {
            let ghost before = self.buffer@;
            self.buffer.extend_from_slice(block);
            assert forall|i: int| 0 <= i < self.buffer@.len() implies #[trigger] self.buffer@[i] == (
            before + block@)[i] by {
                if i >= before.len() {
                    assert(cloned::<i16>(block@[i - before.len()], self.buffer@[i]));
                }
            }
            assert(self.buffer@ =~= before + block@);
            true
        } else {
            false
        }
    }

    /// Stops recording and drains the buffer: the samples, the negotiated
    /// rate, their root-mean-square and whether that is below
    /// `silence_threshold` (level units). Stopping an idle engine returns no
    /// samples.
    pub fn stop_recording(&mut self, silence_threshold: u64) -> (r: RecordingResult)
        requires
            old(self)@.wf(),
        ensures
            final(self)@.wf(),
            final(self)@ == stopped(old(self)@),
            r.audio_data@ == old(self)@.samples,
            r.sample_rate == old(self)@.sample_rate,
            is_rms(r.audio_data@, r.avg_rms as int),
            r.is_silent == (r.avg_rms < silence_threshold),
            !old(self)@.recording ==> r.audio_data@.len() == 0,
    {
        let mut audio_data: Vec<i16> = Vec::new();
        core::mem::swap(&mut self.buffer, &mut audio_data);
        self.is_recording = false;
        let avg_rms = rms_level(audio_data.as_slice());
        RecordingResult {
            audio_data,
            sample_rate: self.sample_rate,
            avg_rms,
            is_silent: avg_rms < silence_threshold,
        }
    }
}

} // verus!
