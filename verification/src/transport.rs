//! The decisions of the playback engine: which commands change the mute,
//! loop and recording state, and which audio actions they call for.
//!
//! The engine itself (audio thread, renderer, ring buffers) runs outside;
//! it hands each command here and performs the actions returned, in order.

use vstd::prelude::*;
use crate::playback::{LiveMidiEvent, MONITOR_CHANNEL};

verus! {

/// Number of MIDI channels the engine tracks for muting.
pub const CHANNEL_COUNT: usize = 16;

/// Number of sequenced tracks whose notes are stopped on a seek or mute.
pub const SEQUENCED_TRACKS: u8 = 4;

/// A recording format.
#[derive(Clone, Copy, Debug, PartialEq, Eq, Structural)]
pub enum RecordFormat {
    Wav,
    Midi,
    MusicXml,
}

/// The commands of the playback engine that decide on plain values.
pub enum TransportCommand {
    SetChannelMute { channel: u8, muted: bool },
    SetChannelRoute { channel: u8, bank_id: i32 },
    SetVelocityBase { channel: u8, velocity: u8 },
    SetOutputMute(bool),
    Seek(usize),
    SeekPlayhead(usize),
    SetLoop { start_bar: usize, end_bar: usize },
    ClearLoop,
    StartRecording(RecordFormat),
    StopRecording(RecordFormat),
    ProgramChange { channel: u8, program: u8 },
    SetMutedChannels(Vec<bool>),
}

/// An action for the renderer or the playhead.
#[derive(Clone, Copy, Debug, PartialEq, Eq, Structural)]
pub enum PlaybackAction {
    /// Silence every note of a channel
    AllNotesOff { channel: u8 },
    /// Route a channel to a synth bank
    SetChannelRoute { channel: u8, bank: i32 },
    /// Move the playhead to the start of a bar and publish that position
    SeekTo { bar: usize },
    /// Hand the renderer the current musical parameters
    SendMusicalParams,
    StartRecording(RecordFormat),
    StopRecording(RecordFormat),
    ProgramChange { channel: u8, program: u8 },
    /// Start a note
    NoteOn { channel: u8, note: u8, velocity: u8 },
    /// Release a note
    NoteOff { channel: u8, note: u8 },
}

/// The mute, loop and recording state of the playback engine.
pub struct PlaybackControl {
    muted_channels: Vec<bool>,
    output_muted: bool,
    loop_region: Option<(usize, usize)>,
    recording_wav: bool,
    recording_midi: bool,
    recording_musicxml: bool,
}

/// All notes off on the sequenced tracks, in channel order.
pub open spec fn tracks_off() -> Seq<PlaybackAction> {
    seq![
        PlaybackAction::AllNotesOff { channel: 0 },
        PlaybackAction::AllNotesOff { channel: 1 },
        PlaybackAction::AllNotesOff { channel: 2 },
        PlaybackAction::AllNotesOff { channel: 3 },
    ]
}

/// The bar a seek goes to: bars count from one.
pub open spec fn seek_target(bar: usize) -> usize {
    if bar >= 1 {
        bar
    } else {
        1
    }
}

/// A loop region as the engine stores it: starting at bar one or later and
/// ending no earlier than it starts.
pub open spec fn loop_bounds(start_bar: usize, end_bar: usize) -> (usize, usize) {
    let start = seek_target(start_bar);
    (start, if end_bar >= start { end_bar } else { start })
}

/// Notes-off for each channel among the first `n` that the request mutes
/// and that was not muted.
pub open spec fn newly_muted_offs(old: Seq<bool>, req: Seq<bool>, n: int) -> Seq<PlaybackAction>
    decreases n,
{
    if n <= 0 {
        Seq::empty()
    } else if req[n - 1] && !old[n - 1] {
        newly_muted_offs(old, req, n - 1).push(PlaybackAction::AllNotesOff { channel: (n - 1) as u8 })
    } else {
        newly_muted_offs(old, req, n - 1)
    }
}

/// The smaller of two integers.
pub open spec fn min_int(a: int, b: int) -> int {
    if a <= b {
        a
    } else {
        b
    }
}

/// The mute flags after a command.
pub open spec fn muted_after(muted: Seq<bool>, cmd: TransportCommand) -> Seq<bool> {
    match cmd {
        TransportCommand::SetChannelMute { channel, muted: m } => if (channel as int) < muted.len() {
            muted.update(channel as int, m)
        } else {
            muted
        },
        TransportCommand::SetMutedChannels(req) => Seq::new(
            muted.len(),
            |i: int| if i < req@.len() { req@[i] } else { muted[i] },
        ),
        _ => muted,
    }
}

/// The output mute after a command.
pub open spec fn output_muted_after(output_muted: bool, cmd: TransportCommand) -> bool {
    match cmd {
        TransportCommand::SetOutputMute(m) => m,
        _ => output_muted,
    }
}

/// The loop region after a command.
pub open spec fn loop_after(region: Option<(usize, usize)>, cmd: TransportCommand) -> Option<
    (usize, usize),
> {
    match cmd {
        TransportCommand::SetLoop { start_bar, end_bar } => Some(loop_bounds(start_bar, end_bar)),
        TransportCommand::ClearLoop => None,
        _ => region,
    }
}

/// Whether a format is being recorded after a command.
pub open spec fn recording_after(format: RecordFormat, on: bool, cmd: TransportCommand) -> bool {
    match cmd {
        TransportCommand::StartRecording(f) => if f == format {
            true
        } else {
            on
        },
        TransportCommand::StopRecording(f) => if f == format {
            false
        } else {
            on
        },
        _ => on,
    }
}

/// The actions a command calls for, given the mute flags before it.
pub open spec fn actions_for(muted: Seq<bool>, cmd: TransportCommand) -> Seq<PlaybackAction> {
    match cmd {
        TransportCommand::SetChannelMute { channel, muted: m } => if (channel as int) < muted.len()
            && m {
            seq![PlaybackAction::AllNotesOff { channel }]
        } else {
            Seq::empty()
        },
        TransportCommand::SetChannelRoute { channel, bank_id } => if (channel as int)
            < CHANNEL_COUNT {
            seq![PlaybackAction::SetChannelRoute { channel, bank: bank_id }]
        } else {
            Seq::empty()
        },
        TransportCommand::SetVelocityBase { .. } => Seq::empty(),
        TransportCommand::SetOutputMute(m) => if m {
            tracks_off()
        } else {
            Seq::empty()
        },
        TransportCommand::Seek(bar) => tracks_off().push(
            PlaybackAction::SeekTo { bar: seek_target(bar) },
        ),
        TransportCommand::SeekPlayhead(bar) => tracks_off().push(
            PlaybackAction::SeekTo { bar: seek_target(bar) },
        ),
        TransportCommand::SetLoop { .. } => Seq::empty(),
        TransportCommand::ClearLoop => Seq::empty(),
        TransportCommand::StartRecording(f) => if f == RecordFormat::MusicXml {
            seq![PlaybackAction::SendMusicalParams, PlaybackAction::StartRecording(f)]
        } else {
            seq![PlaybackAction::StartRecording(f)]
        },
        TransportCommand::StopRecording(f) => seq![PlaybackAction::StopRecording(f)],
        TransportCommand::ProgramChange { channel, program } => seq![
            PlaybackAction::ProgramChange { channel, program },
        ],
        TransportCommand::SetMutedChannels(req) => newly_muted_offs(
            muted,
            req@,
            min_int(req@.len() as int, muted.len() as int),
        ),
    }
}

impl PlaybackControl {
    #[verifier::type_invariant]
    spec fn wf(self) -> bool {
        &&& self.muted_channels@.len() == CHANNEL_COUNT
        &&& match self.loop_region {
            Some((start, end)) => 1 <= start <= end,
            None => true,
        }
    }

    /// Per-channel mute flags, one per MIDI channel.
    pub closed spec fn muted(&self) -> Seq<bool> {
        self.muted_channels@
    }

    /// Whether the whole output is muted.
    pub closed spec fn output_is_muted(&self) -> bool {
        self.output_muted
    }

    /// The loop region (start bar, end bar), inclusive, when one is set.
    pub closed spec fn region(&self) -> Option<(usize, usize)> {
        self.loop_region
    }

    /// Whether a format is being recorded.
    pub closed spec fn records(&self, format: RecordFormat) -> bool {
        match format {
            RecordFormat::Wav => self.recording_wav,
            RecordFormat::Midi => self.recording_midi,
            RecordFormat::MusicXml => self.recording_musicxml,
        }
    }

    /// Nothing muted, no loop, nothing recorded.
    pub fn new() -> (c: Self)
        ensures
            c.muted() == Seq::new(CHANNEL_COUNT as nat, |i: int| false),
            !c.output_is_muted(),
            c.region() is None,
            !c.records(RecordFormat::Wav),
            !c.records(RecordFormat::Midi),
            !c.records(RecordFormat::MusicXml),
    {
        let mut muted_channels: Vec<bool> = Vec::new();
        let mut i: usize = 0;
        while i < CHANNEL_COUNT
            invariant
                i <= CHANNEL_COUNT,
                muted_channels@ == Seq::new(i as nat, |k: int| false),
            decreases CHANNEL_COUNT - i,
        {
            muted_channels.push(false);
            i = i + 1;
            assert(muted_channels@ =~= Seq::new(i as nat, |k: int| false));
        }
        PlaybackControl {
            muted_channels,
            output_muted: false,
            loop_region: None,
            recording_wav: false,
            recording_midi: false,
            recording_musicxml: false,
        }
    }

    /// Whether the output is muted.
    pub fn output_muted(&self) -> (m: bool)
        ensures
            m == self.output_is_muted(),
    {
        self.output_muted
    }

    /// The loop region, when one is set.
    pub fn loop_region(&self) -> (r: Option<(usize, usize)>)
        ensures
            r == self.region(),
    {
        self.loop_region
    }

    /// Whether a format is being recorded.
    pub fn is_recording(&self, format: RecordFormat) -> (on: bool)
        ensures
            on == self.records(format),
    {
        match format {
            RecordFormat::Wav => self.recording_wav,
            RecordFormat::Midi => self.recording_midi,
            RecordFormat::MusicXml => self.recording_musicxml,
        }
    }

    /// Whether a note-on on `channel` reaches the renderer: notes of a
    /// muted channel are dropped; channels past the tracked ones pass.
    pub fn forwards_note_on(&self, channel: u8) -> (pass: bool)
        ensures
            pass == !((channel as int) < self.muted().len() && self.muted()[channel as int]),
    {
        if (channel as usize) < self.muted_channels.len() {
            !self.muted_channels[channel as usize]
        } else {
            true
        }
    }

    /// The loop check of a tick: when the playhead has passed the end of
    /// the loop region, the bar to jump back to.
    pub fn loop_restart(&self, current_bar: usize) -> (restart: Option<usize>)
        ensures
            restart == (match self.region() {
                Some((start, end)) => if current_bar > end {
                    Some(start)
                } else {
                    None::<usize>
                },
                None => None,
            }),
    {
        match self.loop_region {
            Some((start, end)) => if current_bar > end {
                Some(start)
            } else {
                None
            },
            None => None,
        }
    }

    /// Applies a command and returns the actions it calls for, in order.
    pub fn apply(&mut self, cmd: TransportCommand) -> (actions: Vec<PlaybackAction>)
        ensures
            final(self).muted() == muted_after(old(self).muted(), cmd),
            final(self).output_is_muted() == output_muted_after(old(self).output_is_muted(), cmd),
            final(self).region() == loop_after(old(self).region(), cmd),
            forall|f: RecordFormat| #[trigger]
                final(self).records(f) == recording_after(f, old(self).records(f), cmd),
            actions@ == actions_for(old(self).muted(), cmd),
    {
        proof {
            use_type_invariant(&*self);
        }
        let mut actions: Vec<PlaybackAction> = Vec::new();
        match cmd {
            TransportCommand::SetChannelMute { channel, muted } => {
                if (channel as usize) < self.muted_channels.len() {
                    let mut flags: Vec<bool> = self.muted_channels.clone();
                    assert(flags@ =~= self.muted_channels@);
                    flags.set(channel as usize, muted);
                    self.muted_channels = flags;
                    if muted {
                        actions.push(PlaybackAction::AllNotesOff { channel });
                    }
                }
            },
            TransportCommand::SetChannelRoute { channel, bank_id } => {
                if (channel as usize) < CHANNEL_COUNT {
                    actions.push(PlaybackAction::SetChannelRoute { channel, bank: bank_id });
                }
            },
            TransportCommand::SetVelocityBase { .. } => {},
            TransportCommand::SetOutputMute(muted) => {
                self.output_muted = muted;
                if muted {
                    push_tracks_off(&mut actions);
                }
            },
            TransportCommand::Seek(bar) => {
                let target = if bar >= 1 {
                    bar
                } else {
                    1
                };
                push_tracks_off(&mut actions);
                actions.push(PlaybackAction::SeekTo { bar: target });
            },
            TransportCommand::SeekPlayhead(bar) => {
                let target = if bar >= 1 {
                    bar
                } else {
                    1
                };
                push_tracks_off(&mut actions);
                actions.push(PlaybackAction::SeekTo { bar: target });
            },
            TransportCommand::SetLoop { start_bar, end_bar } => {
                let start = if start_bar >= 1 {
                    start_bar
                } else {
                    1
                };
                let end = if end_bar >= start {
                    end_bar
                } else {
                    start
                };
                self.loop_region = Some((start, end));
            },
            TransportCommand::ClearLoop => {
                self.loop_region = None;
            },
            TransportCommand::StartRecording(format) => {
                match format {
                    RecordFormat::Wav => {
                        self.recording_wav = true;
                    },
                    RecordFormat::Midi => {
                        self.recording_midi = true;
                    },
                    RecordFormat::MusicXml => {
                        self.recording_musicxml = true;
                        actions.push(PlaybackAction::SendMusicalParams);
                    },
                }
                actions.push(PlaybackAction::StartRecording(format));
            },
            TransportCommand::StopRecording(format) => {
                match format {
                    RecordFormat::Wav => {
                        self.recording_wav = false;
                    },
                    RecordFormat::Midi => {
                        self.recording_midi = false;
                    },
                    RecordFormat::MusicXml => {
                        self.recording_musicxml = false;
                    },
                }
                actions.push(PlaybackAction::StopRecording(format));
            },
            TransportCommand::ProgramChange { channel, program } => {
                actions.push(PlaybackAction::ProgramChange { channel, program });
            },
            TransportCommand::SetMutedChannels(requested) => {
                let ghost old_flags = self.muted_channels@;
                let mut flags: Vec<bool> = self.muted_channels.clone();
                assert(flags@ =~= old_flags);
                let mut i: usize = 0;
                while i < requested.len()
                    invariant
                        old_flags.len() == CHANNEL_COUNT,
                        flags@.len() == CHANNEL_COUNT,
                        i <= requested@.len(),
                        forall|k: int|
                            0 <= k < CHANNEL_COUNT ==> #[trigger] flags@[k] == if k < i {
                                requested@[k]
                            } else {
                                old_flags[k]
                            },
                        actions@ == newly_muted_offs(
                            old_flags,
                            requested@,
                            min_int(i as int, CHANNEL_COUNT as int),
                        ),
                    decreases requested.len() - i,
                {
                    if i < flags.len() {
                        let muted = requested[i];
                        if muted && !flags[i] {
                            actions.push(PlaybackAction::AllNotesOff { channel: i as u8 });
                        }
                        flags.set(i, muted);
                    }
                    i = i + 1;
                }
                assert(flags@ =~= muted_after(old_flags, TransportCommand::SetMutedChannels(requested)));
                self.muted_channels = flags;
            },
        }
        actions
    }
}

/// Appends notes-off for the sequenced tracks.
fn push_tracks_off(actions: &mut Vec<PlaybackAction>)
    ensures
        final(actions)@ == old(actions)@ + tracks_off(),
{
    actions.push(PlaybackAction::AllNotesOff { channel: 0 });
    actions.push(PlaybackAction::AllNotesOff { channel: 1 });
    actions.push(PlaybackAction::AllNotesOff { channel: 2 });
    actions.push(PlaybackAction::AllNotesOff { channel: 3 });
    assert(final(actions)@ =~= old(actions)@ + tracks_off());
}

/// A seek never lands before bar one, and a seek to a real bar lands on it.
pub proof fn lemma_seek_target(bar: usize)
    ensures
        seek_target(bar) >= 1,
        bar >= 1 ==> seek_target(bar) == bar,
        (actions_for(Seq::empty(), TransportCommand::Seek(bar)).last() == PlaybackAction::SeekTo {
            bar: seek_target(bar),
        }),
{
}

/// A loop region always starts at bar one or later and ends no earlier than
/// it starts, and a region given that way is kept as given.
pub proof fn lemma_loop_region(start_bar: usize, end_bar: usize)
    ensures
        1 <= loop_bounds(start_bar, end_bar).0 <= loop_bounds(start_bar, end_bar).1,
        1 <= start_bar <= end_bar ==> loop_bounds(start_bar, end_bar) == (start_bar, end_bar),
        (loop_after(None, TransportCommand::SetLoop { start_bar, end_bar }) == Some(
            loop_bounds(start_bar, end_bar),
        )),
{
}

/// Muting a set of channels silences exactly the channels it newly mutes:
/// a channel gets notes-off if and only if the request mutes it and it was
/// not muted before.
pub proof fn lemma_newly_muted_offs(old: Seq<bool>, req: Seq<bool>, n: int, channel: int)
    requires
        0 <= n <= old.len(),
        n <= req.len(),
        old.len() <= 256,
        0 <= channel < 256,
    ensures
        (newly_muted_offs(old, req, n).contains(PlaybackAction::AllNotesOff { channel: channel as u8 })
            <==> (channel < n && req[channel] && !old[channel])),
    decreases n,
{
    if n > 0 {
        lemma_newly_muted_offs(old, req, n - 1, channel);
        let prev = newly_muted_offs(old, req, n - 1);
        let a = PlaybackAction::AllNotesOff { channel: channel as u8 };
        if req[n - 1] && !old[n - 1] {
            let added = PlaybackAction::AllNotesOff { channel: (n - 1) as u8 };
            assert(prev.push(added).contains(a) <==> (prev.contains(a) || added == a)) by {
                if prev.push(added).contains(a) {
                    let k = choose|k: int| 0 <= k < prev.push(added).len() && prev.push(added)[k] == a;
                    if k < prev.len() {
                        assert(prev[k] == a);
                    }
                }
                if prev.contains(a) {
                    let k = choose|k: int| 0 <= k < prev.len() && prev[k] == a;
                    assert(prev.push(added)[k] == a);
                }
                if added == a {
                    assert(prev.push(added)[prev.len() as int] == a);
                }
            }
        }
    }
}

/// How an audio buffer of `remaining` frames is rendered: in chunks that
/// end where a sequencer step falls due (`samples_per_step` frames apart,
/// `counter` frames into the current step), each marked with whether a tick
/// follows it; with the frame count reached in the step at the end.
pub open spec fn buffer_plan(remaining: nat, counter: nat, samples_per_step: nat) -> (
    Seq<(usize, bool)>,
    nat,
)
    decreases remaining,
{
    if remaining == 0 {
        (Seq::empty(), counter)
    } else {
        let until = if samples_per_step > counter {
            (samples_per_step - counter) as nat
        } else {
            1nat
        };
        let chunk: nat = if remaining < until {
            remaining
        } else {
            until
        };
        let reached: nat = counter + chunk;
        let tick = reached >= samples_per_step;
        let rest = buffer_plan(
            (remaining - chunk) as nat,
            if tick {
                0nat
            } else {
                reached
            },
            samples_per_step,
        );
        (seq![(chunk as usize, tick)] + rest.0, rest.1)
    }
}

/// Splits a buffer of `total_frames` frames into render chunks, each
/// followed by a tick when it completes a step; returns the chunks and the
/// frame count reached in the current step.
pub fn buffer_chunks(total_frames: usize, sample_counter: usize, samples_per_step: usize) -> (plan: (
    Vec<(usize, bool)>,
    usize,
))
    requires
        sample_counter < usize::MAX,
    ensures
        plan.0@ == buffer_plan(total_frames as nat, sample_counter as nat, samples_per_step as nat).0,
        plan.1 == buffer_plan(total_frames as nat, sample_counter as nat, samples_per_step as nat).1,
{
    let mut chunks: Vec<(usize, bool)> = Vec::new();
    let mut counter = sample_counter;
    let mut processed: usize = 0;
    while processed < total_frames
        invariant
            processed <= total_frames,
            counter < usize::MAX,
            chunks@ + buffer_plan(
                (total_frames - processed) as nat,
                counter as nat,
                samples_per_step as nat,
            ).0 == buffer_plan(total_frames as nat, sample_counter as nat, samples_per_step as nat).0,
            buffer_plan((total_frames - processed) as nat, counter as nat, samples_per_step as nat).1
                == buffer_plan(total_frames as nat, sample_counter as nat, samples_per_step as nat).1,
        decreases total_frames - processed,
    {
        let remaining = total_frames - processed;
        let until = if samples_per_step > counter {
            samples_per_step - counter
        } else {
            1
        };
        let chunk = if remaining < until {
            remaining
        } else {
            until
        };
        let reached = counter + chunk;
        let tick = reached >= samples_per_step;
        let ghost before = chunks@;
        let ghost old_counter = counter;
        chunks.push((chunk, tick));
        counter = if tick {
            0
        } else {
            reached
        };
        processed = processed + chunk;
        proof {
            let old_plan = buffer_plan(remaining as nat, old_counter as nat, samples_per_step as nat);
            let new_plan = buffer_plan(
                (total_frames - processed) as nat,
                counter as nat,
                samples_per_step as nat,
            );
            assert(old_plan.0 == seq![(chunk, tick)] + new_plan.0);
            assert(old_plan.1 == new_plan.1);
            assert(chunks@ + new_plan.0 =~= before + old_plan.0);
        }
    }
    (chunks, counter)
}

/// Number of ticks in a plan.
pub open spec fn tick_count(chunks: Seq<(usize, bool)>) -> int
    decreases chunks.len(),
{
    if chunks.len() == 0 {
        0
    } else {
        (if chunks[0].1 {
            1int
        } else {
            0int
        }) + tick_count(chunks.drop_first())
    }
}

/// Frames in a plan.
pub open spec fn frame_count(chunks: Seq<(usize, bool)>) -> int
    decreases chunks.len(),
{
    if chunks.len() == 0 {
        0
    } else {
        chunks[0].0 + frame_count(chunks.drop_first())
    }
}

/// A buffer is rendered whole, and steps fall due on schedule: with a step
/// of at least one frame and a counter inside the step, the chunks cover
/// every frame, the ticks number the steps completed, and the counter ends
/// at the frames into the step then current.
pub proof fn lemma_buffer_plan_on_schedule(remaining: nat, counter: nat, samples_per_step: nat)
    requires
        samples_per_step >= 1,
        counter < samples_per_step,
        samples_per_step <= usize::MAX,
    ensures
        frame_count(buffer_plan(remaining, counter, samples_per_step).0) == remaining,
        tick_count(buffer_plan(remaining, counter, samples_per_step).0) == ((counter + remaining) as int)
            / (samples_per_step as int),
        buffer_plan(remaining, counter, samples_per_step).1 == ((counter + remaining) as int) % (
        samples_per_step as int),
    decreases remaining,
{
    if remaining > 0 {
        let until = (samples_per_step - counter) as nat;
        let chunk: nat = if remaining < until {
            remaining
        } else {
            until
        };
        let reached: nat = counter + chunk;
        let tick = reached >= samples_per_step;
        let next: nat = if tick {
            0nat
        } else {
            reached
        };
        lemma_buffer_plan_on_schedule((remaining - chunk) as nat, next, samples_per_step);
        let p = buffer_plan(remaining, counter, samples_per_step);
        let r = buffer_plan((remaining - chunk) as nat, next, samples_per_step);
        assert(p.0 == seq![(chunk as usize, tick)] + r.0);
        assert(p.1 == r.1);
        assert(p.0.drop_first() =~= r.0);
        assert(p.0[0] == (chunk as usize, tick));
        assert(frame_count(p.0) == chunk + frame_count(r.0));
        assert(tick_count(p.0) == (if tick {
            1int
        } else {
            0int
        }) + tick_count(r.0));
        let s = samples_per_step as int;
        let rest = (remaining - chunk) as int;
        vstd::arithmetic::div_mod::lemma_fundamental_div_mod(rest, s);
        let q = rest / s;
        let m = rest % s;
        if tick {
            assert(reached == s);
            assert((counter + remaining) as int == (q + 1) * s + m) by (nonlinear_arith)
                requires
                    rest == s * q + m,
                    counter + remaining == s + rest,
            ;
            vstd::arithmetic::div_mod::lemma_fundamental_div_mod_converse(
                (counter + remaining) as int,
                s,
                q + 1,
                m,
            );
        } else {
            assert(chunk == remaining);
            vstd::arithmetic::div_mod::lemma_fundamental_div_mod_converse(
                (counter + remaining) as int,
                s,
                0,
                (counter + remaining) as int,
            );
        }
    } else {
        vstd::arithmetic::div_mod::lemma_fundamental_div_mod_converse(
            counter as int,
            samples_per_step as int,
            0,
            counter as int,
        );
    }
}

/// The commands that wind playback down for a clean end of recording:
/// nothing when nothing is recorded; otherwise every channel muted (so no
/// new note starts), then each recording stopped, WAV, MIDI, MusicXML.
pub open spec fn shutdown_plan(wav: bool, midi: bool, musicxml: bool) -> Seq<TransportCommand> {
    if !wav && !midi && !musicxml {
        Seq::empty()
    } else {
        Seq::new(
            CHANNEL_COUNT as nat,
            |ch: int| TransportCommand::SetChannelMute { channel: ch as u8, muted: true },
        ) + (if wav {
            seq![TransportCommand::StopRecording(RecordFormat::Wav)]
        } else {
            Seq::empty()
        }) + (if midi {
            seq![TransportCommand::StopRecording(RecordFormat::Midi)]
        } else {
            Seq::empty()
        }) + (if musicxml {
            seq![TransportCommand::StopRecording(RecordFormat::MusicXml)]
        } else {
            Seq::empty()
        })
    }
}

/// The commands of a graceful shutdown, for the recordings in progress.
pub fn shutdown_commands(wav: bool, midi: bool, musicxml: bool) -> (cmds: Vec<TransportCommand>)
    ensures
        cmds@ == shutdown_plan(wav, midi, musicxml),
{
    let mut cmds: Vec<TransportCommand> = Vec::new();
    if !wav && !midi && !musicxml {
        assert(cmds@ =~= shutdown_plan(wav, midi, musicxml));
        return cmds;
    }
    let mut ch: u8 = 0;
    while (ch as usize) < CHANNEL_COUNT
        invariant
            ch as usize <= CHANNEL_COUNT,
            cmds@ == Seq::new(
                ch as nat,
                |c: int| TransportCommand::SetChannelMute { channel: c as u8, muted: true },
            ),
        decreases CHANNEL_COUNT - ch as usize,
    {
        cmds.push(TransportCommand::SetChannelMute { channel: ch, muted: true });
        ch = ch + 1;
        assert(cmds@ =~= Seq::new(
            ch as nat,
            |c: int| TransportCommand::SetChannelMute { channel: c as u8, muted: true },
        ));
    }
    let ghost mutes = cmds@;
    if wav {
        cmds.push(TransportCommand::StopRecording(RecordFormat::Wav));
    }
    let ghost after_wav = cmds@;
    if midi {
        cmds.push(TransportCommand::StopRecording(RecordFormat::Midi));
    }
    let ghost after_midi = cmds@;
    if musicxml {
        cmds.push(TransportCommand::StopRecording(RecordFormat::MusicXml));
    }
    assert(after_wav =~= mutes + (if wav {
        seq![TransportCommand::StopRecording(RecordFormat::Wav)]
    } else {
        Seq::empty()
    }));
    assert(after_midi =~= after_wav + (if midi {
        seq![TransportCommand::StopRecording(RecordFormat::Midi)]
    } else {
        Seq::empty()
    }));
    assert(cmds@ =~= after_midi + (if musicxml {
        seq![TransportCommand::StopRecording(RecordFormat::MusicXml)]
    } else {
        Seq::empty()
    }));
    cmds
}

/// The note a key the player pressed is voiced as: on the monitor channel,
/// started for a press and released for a release.
pub fn live_midi_action(ev: LiveMidiEvent) -> (action: PlaybackAction)
    ensures
        action == if ev.on {
            PlaybackAction::NoteOn { channel: MONITOR_CHANNEL, note: ev.note, velocity: ev.velocity }
        } else {
            PlaybackAction::NoteOff { channel: MONITOR_CHANNEL, note: ev.note }
        },
{
    if ev.on {
        PlaybackAction::NoteOn { channel: MONITOR_CHANNEL, note: ev.note, velocity: ev.velocity }
    } else {
        PlaybackAction::NoteOff { channel: MONITOR_CHANNEL, note: ev.note }
    }
}

} // verus!
