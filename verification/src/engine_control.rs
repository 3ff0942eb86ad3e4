//! Decisions of the timeline engine's control pass: where regeneration
//! starts, which bars are refilled after a playhead seek, which channels
//! are silenced when muted, how recording follows the parameters, and when
//! a report is due.

use vstd::prelude::*;
use crate::transport::{PlaybackAction, RecordFormat, loop_bounds, seek_target};
use crate::session::{session_key_from_seed, key_pitch_class, seed_key};

verus! {

/// Bars re-queued for playback after a playhead seek, at most.
pub const REFILL_BARS: usize = 8;

/// The bar regeneration starts from after a parameter change: the
/// playhead's bar while it still waits for its measure, else the next one.
pub fn regeneration_from(playhead_bar: usize, needs_measure: bool) -> (bar: usize)
    requires
        playhead_bar < usize::MAX,
    ensures
        bar == if needs_measure {
            playhead_bar as int
        } else {
            playhead_bar + 1
        },
{
    if needs_measure {
        playhead_bar
    } else {
        playhead_bar + 1
    }
}

/// The end (exclusive) of the bars re-queued after a playhead seek to
/// `target_bar`: up to eight bars, but none the writehead has not written.
pub fn refill_end(target_bar: usize, writehead_bar: usize) -> (end: usize)
    requires
        target_bar + REFILL_BARS <= usize::MAX,
    ensures
        end == if target_bar + REFILL_BARS <= writehead_bar {
            target_bar + REFILL_BARS
        } else {
            writehead_bar as int
        },
{
    let window = target_bar + REFILL_BARS;
    if window <= writehead_bar {
        window
    } else {
        writehead_bar
    }
}

/// The step reported for the playhead: the step on the sixteenth grid,
/// rescaled to the rhythm's own step count when the two differ.
pub fn report_step(raw_step: usize, bar_steps: usize, rhythm_steps: usize) -> (step: usize)
    requires
        raw_step * rhythm_steps <= usize::MAX,
    ensures
        step == if bar_steps > 0 && bar_steps != rhythm_steps {
            (raw_step * rhythm_steps) / bar_steps as int
        } else {
            raw_step as int
        },
{
    if bar_steps > 0 && bar_steps != rhythm_steps {
        (raw_step * rhythm_steps) / bar_steps
    } else {
        raw_step
    }
}

/// Whether a tick sends a report: on every eighth note, and whenever note
/// events wait to be reported.
pub fn report_due(step: usize, notes_pending: bool) -> (due: bool)
    ensures
        due == (step % 2 == 0 || notes_pending),
{
    step % 2 == 0 || notes_pending
}

/// The channels among the first `n` (and the first sixteen) that the
/// parameters mute and that were not muted before, in channel order.
pub open spec fn mute_edge_channels(muted: Seq<bool>, last: Seq<bool>, n: int) -> Seq<u8>
    decreases n,
{
    if n <= 0 {
        Seq::empty()
    } else if n - 1 < 16 && n - 1 < last.len() && muted[n - 1] && !last[n - 1] {
        mute_edge_channels(muted, last, n - 1).push((n - 1) as u8)
    } else {
        mute_edge_channels(muted, last, n - 1)
    }
}

/// Follows the muted channels of the parameters: returns the channels that
/// just became muted (their notes are to be stopped) and records the new
/// flags, for the first sixteen channels the record holds.
pub fn mute_edges(muted: &[bool], last: &mut Vec<bool>) -> (silenced: Vec<u8>)
    ensures
        silenced@ == mute_edge_channels(muted@, old(last)@, muted@.len() as int),
        final(last)@.len() == old(last)@.len(),
        forall|i: int|
            0 <= i < old(last)@.len() ==> #[trigger] final(last)@[i] == if i < 16 && i
                < muted@.len() {
                muted@[i]
            } else {
                old(last)@[i]
            },
{
    let ghost start = last@;
    let mut silenced: Vec<u8> = Vec::new();
    let mut i: usize = 0;
    while i < muted.len()
        invariant
            i <= muted@.len(),
            last@.len() == start.len(),
            forall|k: int|
                0 <= k < start.len() ==> #[trigger] last@[k] == if k < 16 && k < i {
                    muted@[k]
                } else {
                    start[k]
                },
            silenced@ == mute_edge_channels(muted@, start, i as int),
        decreases muted.len() - i,
    {
        if i < 16 && i < last.len() {
            if muted[i] && !last[i] {
                silenced.push(i as u8);
            }
            last.set(i, muted[i]);
        }
        i = i + 1;
    }
    silenced
}

/// Which formats are being recorded.
pub struct RecorderState {
    pub wav: bool,
    pub midi: bool,
    pub musicxml: bool,
}

/// The actions that bring one format's recording in line with the wish.
pub open spec fn recording_sync(format: RecordFormat, on: bool, wanted: bool) -> Seq<PlaybackAction> {
    if on == wanted {
        Seq::empty()
    } else if wanted {
        if format == RecordFormat::MusicXml {
            seq![PlaybackAction::SendMusicalParams, PlaybackAction::StartRecording(format)]
        } else {
            seq![PlaybackAction::StartRecording(format)]
        }
    } else {
        seq![PlaybackAction::StopRecording(format)]
    }
}

impl RecorderState {
    /// Brings the recordings in line with the parameters, WAV first, then
    /// MIDI, then MusicXML: a format starts or stops only when its wish
    /// changed.
    pub fn sync(&mut self, wav: bool, midi: bool, musicxml: bool) -> (actions: Vec<PlaybackAction>)
        ensures
            final(self).wav == wav,
            final(self).midi == midi,
            final(self).musicxml == musicxml,
            actions@ == recording_sync(RecordFormat::Wav, old(self).wav, wav) + recording_sync(
                RecordFormat::Midi,
                old(self).midi,
                midi,
            ) + recording_sync(RecordFormat::MusicXml, old(self).musicxml, musicxml),
    {
        let mut actions: Vec<PlaybackAction> = Vec::new();
        if wav != self.wav {
            self.wav = wav;
            if wav {
                actions.push(PlaybackAction::StartRecording(RecordFormat::Wav));
            } else {
                actions.push(PlaybackAction::StopRecording(RecordFormat::Wav));
            }
        }
        let ghost after_wav = actions@;
        if midi != self.midi {
            self.midi = midi;
            if midi {
                actions.push(PlaybackAction::StartRecording(RecordFormat::Midi));
            } else {
                actions.push(PlaybackAction::StopRecording(RecordFormat::Midi));
            }
        }
        let ghost after_midi = actions@;
        if musicxml != self.musicxml {
            self.musicxml = musicxml;
            if musicxml {
                actions.push(PlaybackAction::SendMusicalParams);
                actions.push(PlaybackAction::StartRecording(RecordFormat::MusicXml));
            } else {
                actions.push(PlaybackAction::StopRecording(RecordFormat::MusicXml));
            }
        }
        assert(after_wav =~= recording_sync(RecordFormat::Wav, old(self).wav, wav));
        assert(after_midi =~= after_wav + recording_sync(RecordFormat::Midi, old(self).midi, midi));
        assert(actions@ =~= after_midi + recording_sync(
            RecordFormat::MusicXml,
            old(self).musicxml,
            musicxml,
        ));
        actions
    }
}

/// The part of the musical parameters that the transport holds: channel
/// mutes and routing, the formats to record, and the key root.
pub struct TransportParams {
    pub muted_channels: Vec<bool>,
    pub channel_routing: Vec<i32>,
    pub record_wav: bool,
    pub record_midi: bool,
    pub record_musicxml: bool,
    pub key_root: u8,
}

/// The transport commands of the timeline engine.
pub enum EngineCommand {
    Seek(usize),
    SeekPlayhead(usize),
    SetLoop { start_bar: usize, end_bar: usize },
    ClearLoop,
    SetOutputMute(bool),
    SetChannelMute { channel: u8, muted: bool },
    SetChannelRoute { channel: u8, bank_id: i32 },
    StartRecording(RecordFormat),
    StopRecording(RecordFormat),
    SetWriteheadLookahead(usize),
    SetKeyRoot(u8),
    /// A new session from this seed (an explicit seed, or a fresh one for
    /// a new melody)
    SetSeed(u64),
    /// Back to the default musical parameters (their transport part is
    /// carried), with the measure queue drained, the playhead and the
    /// writehead reset and no loop
    Reset(TransportParams),
}

/// What the timeline engine does for a command.
#[derive(Clone, Copy, Debug, PartialEq, Eq, Structural)]
pub enum EngineAction {
    /// Silence every note of a channel
    AllNotesOff { channel: u8 },
    /// Move the playhead to the start of a bar
    SeekPlayhead { bar: usize },
    /// Empty the ring of measures waiting for the playhead
    DrainMeasures,
    /// Replay generation from the session seed up to a bar
    DeterministicSeek { bar: usize },
    /// Queue the written bars `from .. to` again for the playhead
    RequeueBars { from: usize, to: usize },
    /// Continue writing at a bar
    SetWriteheadBar { bar: usize },
    /// Clear the writehead and the timeline it wrote
    ResetWritehead,
    /// Re-derive the session's key and scale from a seed
    ApplySeed { seed: u64 },
    /// Re-key the session: navigator scale, harmonic driver and key root
    RekeySession { key_pc: u8 },
    /// Restore the default musical parameters
    ResetParams,
    /// Put the playhead back at its start
    ResetPlayhead,
}

/// The transport state of the timeline engine.
pub struct EngineTransport {
    loop_region: Option<(usize, usize)>,
    output_muted: bool,
    muted_channels: Vec<bool>,
    channel_routing: Vec<i32>,
    record_wav: bool,
    record_midi: bool,
    record_musicxml: bool,
    writehead_lookahead: usize,
    key_root: u8,
}

/// Notes-off on the four sequenced tracks.
pub open spec fn engine_tracks_off() -> Seq<EngineAction> {
    seq![
        EngineAction::AllNotesOff { channel: 0 },
        EngineAction::AllNotesOff { channel: 1 },
        EngineAction::AllNotesOff { channel: 2 },
        EngineAction::AllNotesOff { channel: 3 },
    ]
}

/// The full reset to bar one that a new session makes.
pub open spec fn reset_to_bar_one() -> Seq<EngineAction> {
    engine_tracks_off() + seq![
        EngineAction::SeekPlayhead { bar: 1 },
        EngineAction::DrainMeasures,
        EngineAction::ResetWritehead,
        EngineAction::DeterministicSeek { bar: 1 },
    ]
}

/// The actions of a command, given where the writehead is.
pub open spec fn engine_actions(cmd: EngineCommand, writehead_bar: usize) -> Seq<EngineAction> {
    match cmd {
        EngineCommand::Seek(bar) => engine_tracks_off() + seq![
            EngineAction::SeekPlayhead { bar: seek_target(bar) },
            EngineAction::DrainMeasures,
            EngineAction::DeterministicSeek { bar: seek_target(bar) },
        ],
        EngineCommand::SeekPlayhead(bar) => {
            let t = seek_target(bar);
            let end = if t + REFILL_BARS <= writehead_bar {
                (t + REFILL_BARS) as usize
            } else {
                writehead_bar
            };
            engine_tracks_off() + seq![
                EngineAction::SeekPlayhead { bar: t },
                EngineAction::DrainMeasures,
                EngineAction::RequeueBars { from: t, to: end },
                EngineAction::SetWriteheadBar { bar: end },
            ]
        },
        EngineCommand::SetOutputMute(m) => if m {
            engine_tracks_off()
        } else {
            Seq::empty()
        },
        EngineCommand::SetKeyRoot(r) => seq![EngineAction::RekeySession { key_pc: r % 12 }],
        EngineCommand::SetSeed(seed) => seq![EngineAction::ApplySeed { seed }] + reset_to_bar_one(),
        EngineCommand::Reset(_) => seq![
            EngineAction::ResetParams,
            EngineAction::DrainMeasures,
            EngineAction::ResetPlayhead,
            EngineAction::ResetWritehead,
        ],
        _ => Seq::empty(),
    }
}

impl EngineTransport {
    #[verifier::type_invariant]
    spec fn wf(self) -> bool {
        &&& match self.loop_region {
            Some((start, end)) => 1 <= start <= end,
            None => true,
        }
        &&& self.writehead_lookahead >= 4
        &&& self.key_root < 12
    }

    /// The loop region, when one is set.
    pub closed spec fn region(&self) -> Option<(usize, usize)> {
        self.loop_region
    }

    /// Whether the output is muted.
    pub closed spec fn output_is_muted(&self) -> bool {
        self.output_muted
    }

    /// Per-channel mute flags.
    pub closed spec fn muted(&self) -> Seq<bool> {
        self.muted_channels@
    }

    /// Per-channel synth banks.
    pub closed spec fn routing(&self) -> Seq<i32> {
        self.channel_routing@
    }

    /// Whether a format is to be recorded.
    pub closed spec fn records(&self, format: RecordFormat) -> bool {
        match format {
            RecordFormat::Wav => self.record_wav,
            RecordFormat::Midi => self.record_midi,
            RecordFormat::MusicXml => self.record_musicxml,
        }
    }

    /// Bars the writehead keeps ahead of the playhead.
    pub closed spec fn lookahead(&self) -> usize {
        self.writehead_lookahead
    }

    /// The session key (pitch class of the tonic).
    pub closed spec fn key(&self) -> u8 {
        self.key_root
    }

    /// A transport with no loop, output on, nothing recorded, the given
    /// mute flags and routing, a lookahead of `lookahead` bars (at least
    /// four) and the key of `key_root` (a pitch class).
    pub fn new(muted_channels: Vec<bool>, channel_routing: Vec<i32>, lookahead: usize, key_root: u8) -> (t:
        Self)
        ensures
            t.region() is None,
            !t.output_is_muted(),
            t.muted() == muted_channels@,
            t.routing() == channel_routing@,
            !t.records(RecordFormat::Wav) && !t.records(RecordFormat::Midi) && !t.records(
                RecordFormat::MusicXml,
            ),
            t.lookahead() == if lookahead >= 4 {
                lookahead
            } else {
                4
            },
            t.key() == key_root % 12,
    {
        EngineTransport {
            loop_region: None,
            output_muted: false,
            muted_channels,
            channel_routing,
            record_wav: false,
            record_midi: false,
            record_musicxml: false,
            writehead_lookahead: if lookahead >= 4 {
                lookahead
            } else {
                4
            },
            key_root: key_root % 12,
        }
    }

    /// Whether a note-on on `channel` is played: not when its channel is
    /// muted.
    pub fn forwards_note_on(&self, channel: u8) -> (pass: bool)
        ensures
            pass == !((channel as int) < self.muted().len() && self.muted()[channel as int]),
    {
        if (channel as usize) < self.muted_channels.len() {
            !self.muted_channels[channel as usize]
        } else {
            true
        }
    }

    /// The bar to go back to when the playhead passed the loop's end.
    pub fn loop_restart(&self, current_bar: usize) -> (restart: Option<usize>)
        ensures
            restart == (match self.region() {
                Some((start, end)) => if current_bar > end {
                    Some(start)
                } else {
                    None::<usize>
                },
                None => None,
            }),
    {
        match self.loop_region {
            Some((start, end)) => if current_bar > end {
                Some(start)
            } else {
                None
            },
            None => None,
        }
    }

    /// Bars the writehead keeps ahead of the playhead.
    pub fn writehead_lookahead(&self) -> (n: usize)
        ensures
            n == self.lookahead(),
    {
        self.writehead_lookahead
    }

    /// The session key.
    pub fn key_root(&self) -> (k: u8)
        ensures
            k == self.key(),
    {
        self.key_root
    }

    /// Applies a command, given the bar the writehead is at, and returns
    /// the actions it calls for in order. A new seed re-derives the key
    /// from that seed.
    pub fn apply(&mut self, cmd: EngineCommand, writehead_bar: usize) -> (actions: Vec<EngineAction>)
        requires
            seek_target(match cmd {
                EngineCommand::SeekPlayhead(bar) => bar,
                _ => 1,
            }) + REFILL_BARS <= usize::MAX,
        ensures
            actions@ == engine_actions(cmd, writehead_bar),
            final(self).region() == match cmd {
                EngineCommand::SetLoop { start_bar, end_bar } => Some(loop_bounds(start_bar, end_bar)),
                EngineCommand::ClearLoop => None,
                EngineCommand::SetSeed(_) => None,
                EngineCommand::Reset(_) => None,
                _ => old(self).region(),
            },
            final(self).output_is_muted() == match cmd {
                EngineCommand::SetOutputMute(m) => m,
                _ => old(self).output_is_muted(),
            },
            final(self).muted() == match cmd {
                EngineCommand::SetChannelMute { channel, muted } => if (channel as int) < old(
                    self,
                ).muted().len() {
                    old(self).muted().update(channel as int, muted)
                } else {
                    old(self).muted()
                },
                EngineCommand::Reset(p) => p.muted_channels@,
                _ => old(self).muted(),
            },
            final(self).routing() == match cmd {
                EngineCommand::SetChannelRoute { channel, bank_id } => if (channel as int) < old(
                    self,
                ).routing().len() {
                    old(self).routing().update(channel as int, bank_id)
                } else {
                    old(self).routing()
                },
                EngineCommand::Reset(p) => p.channel_routing@,
                _ => old(self).routing(),
            },
            forall|f: RecordFormat| #[trigger]
                final(self).records(f) == match cmd {
                    EngineCommand::StartRecording(g) => if g == f {
                        true
                    } else {
                        old(self).records(f)
                    },
                    EngineCommand::StopRecording(g) => if g == f {
                        false
                    } else {
                        old(self).records(f)
                    },
                    EngineCommand::Reset(p) => match f {
                        RecordFormat::Wav => p.record_wav,
                        RecordFormat::Midi => p.record_midi,
                        RecordFormat::MusicXml => p.record_musicxml,
                    },
                    _ => old(self).records(f),
                },
            final(self).lookahead() == match cmd {
                EngineCommand::SetWriteheadLookahead(n) => if n >= 4 {
                    n
                } else {
                    4
                },
                _ => old(self).lookahead(),
            },
            match cmd {
                EngineCommand::SetKeyRoot(r) => final(self).key() == r % 12,
                EngineCommand::SetSeed(seed) => final(self).key() == key_pitch_class(seed_key(seed)),
                EngineCommand::Reset(p) => final(self).key() == p.key_root % 12,
                _ => final(self).key() == old(self).key(),
            },
    {
        proof {
            use_type_invariant(&*self);
        }
        let ghost command = cmd;
        let mut actions: Vec<EngineAction> = Vec::new();
        match cmd {
            EngineCommand::Seek(bar) => {
                let t = if bar >= 1 {
                    bar
                } else {
                    1
                };
                push_engine_tracks_off(&mut actions);
                actions.push(EngineAction::SeekPlayhead { bar: t });
                actions.push(EngineAction::DrainMeasures);
                actions.push(EngineAction::DeterministicSeek { bar: t });
            },
            EngineCommand::SeekPlayhead(bar) => {
                let t = if bar >= 1 {
                    bar
                } else {
                    1
                };
                let end = refill_end(t, writehead_bar);
                push_engine_tracks_off(&mut actions);
                actions.push(EngineAction::SeekPlayhead { bar: t });
                actions.push(EngineAction::DrainMeasures);
                actions.push(EngineAction::RequeueBars { from: t, to: end });
                actions.push(EngineAction::SetWriteheadBar { bar: end });
            },
            EngineCommand::SetLoop { start_bar, end_bar } => {
                let start = if start_bar >= 1 {
                    start_bar
                } else {
                    1
                };
                let end = if end_bar >= start {
                    end_bar
                } else {
                    start
                };
                self.loop_region = Some((start, end));
            },
            EngineCommand::ClearLoop => {
                self.loop_region = None;
            },
            EngineCommand::SetOutputMute(muted) => {
                self.output_muted = muted;
                if muted {
                    push_engine_tracks_off(&mut actions);
                }
            },
            EngineCommand::SetChannelMute { channel, muted } => {
                if (channel as usize) < self.muted_channels.len() {
                    let mut flags = self.muted_channels.clone();
                    assert(flags@ =~= self.muted_channels@);
                    flags.set(channel as usize, muted);
                    self.muted_channels = flags;
                }
            },
            EngineCommand::SetChannelRoute { channel, bank_id } => {
                if (channel as usize) < self.channel_routing.len() {
                    let mut banks = self.channel_routing.clone();
                    assert(banks@ =~= self.channel_routing@);
                    banks.set(channel as usize, bank_id);
                    self.channel_routing = banks;
                }
            },
            EngineCommand::StartRecording(format) => match format {
                RecordFormat::Wav => {
                    self.record_wav = true;
                },
                RecordFormat::Midi => {
                    self.record_midi = true;
                },
                RecordFormat::MusicXml => {
                    self.record_musicxml = true;
                },
            },
            EngineCommand::StopRecording(format) => match format {
                RecordFormat::Wav => {
                    self.record_wav = false;
                },
                RecordFormat::Midi => {
                    self.record_midi = false;
                },
                RecordFormat::MusicXml => {
                    self.record_musicxml = false;
                },
            },
            EngineCommand::SetWriteheadLookahead(n) => {
                self.writehead_lookahead = if n >= 4 {
                    n
                } else {
                    4
                };
            },
            EngineCommand::SetKeyRoot(r) => {
                let key_pc = r % 12;
                self.key_root = key_pc;
                actions.push(EngineAction::RekeySession { key_pc });
            },
            EngineCommand::SetSeed(seed) => {
                let session = session_key_from_seed(seed);
                self.key_root = session.key_pc;
                self.loop_region = None;
                actions.push(EngineAction::ApplySeed { seed });
                push_engine_tracks_off(&mut actions);
                actions.push(EngineAction::SeekPlayhead { bar: 1 });
                actions.push(EngineAction::DrainMeasures);
                actions.push(EngineAction::ResetWritehead);
                actions.push(EngineAction::DeterministicSeek { bar: 1 });
            },
            EngineCommand::Reset(p) => {
                self.muted_channels = p.muted_channels;
                self.channel_routing = p.channel_routing;
                self.record_wav = p.record_wav;
                self.record_midi = p.record_midi;
                self.record_musicxml = p.record_musicxml;
                self.key_root = p.key_root % 12;
                self.loop_region = None;
                actions.push(EngineAction::ResetParams);
                actions.push(EngineAction::DrainMeasures);
                actions.push(EngineAction::ResetPlayhead);
                actions.push(EngineAction::ResetWritehead);
            },
        }
        assert(actions@ =~= engine_actions(command, writehead_bar));
        actions
    }
}

/// Appends notes-off for the four sequenced tracks.
fn push_engine_tracks_off(actions: &mut Vec<EngineAction>)
    ensures
        final(actions)@ == old(actions)@ + engine_tracks_off(),
{
    actions.push(EngineAction::AllNotesOff { channel: 0 });
    actions.push(EngineAction::AllNotesOff { channel: 1 });
    actions.push(EngineAction::AllNotesOff { channel: 2 });
    actions.push(EngineAction::AllNotesOff { channel: 3 });
    assert(final(actions)@ =~= old(actions)@ + engine_tracks_off());
}

} // verus!
