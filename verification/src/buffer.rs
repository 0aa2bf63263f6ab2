//! Fixed-shape sample buffers for one render quantum.

use vstd::prelude::*;

verus! {

/// One audio sample: the bit pattern of a 32-bit float. Zero is silence.
pub type Sample = u32;

/// Samples by port, channel and frame.
pub type Frames = Seq<Seq<Seq<Sample>>>;

/// Number of sample frames in one render quantum.
pub const RENDER_QUANTUM: usize = 128;

/// The negotiated port layout of a processor.
#[derive(Clone, Copy, Debug, PartialEq, Eq, Structural)]
pub struct Topology {
    pub inputs: usize,
    pub input_channels: usize,
    pub outputs: usize,
    pub output_channels: usize,
}

/// A channel holds exactly one quantum of frames.
pub open spec fn is_channel(channel: Seq<Sample>) -> bool {
    channel.len() == RENDER_QUANTUM
}

/// A port holds `channels` channels of one quantum each.
pub open spec fn is_port(port: Seq<Seq<Sample>>, channels: nat) -> bool {
    &&& port.len() == channels
    &&& forall|c: int| 0 <= c < port.len() ==> is_channel(#[trigger] port[c])
}

/// A block holds `ports` ports of `channels` channels each.
pub open spec fn is_block(block: Frames, ports: nat, channels: nat) -> bool {
    &&& block.len() == ports
    &&& forall|p: int| 0 <= p < block.len() ==> is_port(#[trigger] block[p], channels)
}

/// One quantum taken from `raw`: frames that `raw` lacks are silent, frames
/// beyond the quantum are dropped.
pub open spec fn gather_channel(raw: Seq<Sample>) -> Seq<Sample> {
    Seq::new(
        RENDER_QUANTUM as nat,
        |f: int|
            if f < raw.len() {
                raw[f]
            } else {
                0
            },
    )
}

/// `channels` channels taken from `raw`; a channel that `raw` lacks is silent.
pub open spec fn gather_port(raw: Seq<Seq<Sample>>, channels: nat) -> Seq<Seq<Sample>> {
    Seq::new(
        channels,
        |c: int|
            gather_channel(
                if c < raw.len() {
                    raw[c]
                } else {
                    Seq::empty()
                },
            ),
    )
}

/// `ports` ports of `channels` channels taken from `raw`; a port that `raw`
/// lacks is silent.
pub open spec fn gather(raw: Frames, ports: nat, channels: nat) -> Frames {
    Seq::new(
        ports,
        |p: int|
            gather_port(
                if p < raw.len() {
                    raw[p]
                } else {
                    Seq::empty()
                },
                channels,
            ),
    )
}

/// The all-silent block of the given shape.
pub open spec fn silence(ports: nat, channels: nat) -> Frames {
    gather(Seq::empty(), ports, channels)
}

/// Gathering yields a block of the requested shape.
pub proof fn lemma_gather_is_block(raw: Frames, ports: nat, channels: nat)
    ensures
        is_block(gather(raw, ports, channels), ports, channels),
{
    let g = gather(raw, ports, channels);
    assert forall|p: int| 0 <= p < g.len() implies is_port(#[trigger] g[p], channels) by {
        let port = g[p];
        assert forall|c: int| 0 <= c < port.len() implies is_channel(#[trigger] port[c]) by {}
    }
}

/// Gathering a block of the requested shape changes nothing.
pub proof fn lemma_gather_block(raw: Frames, ports: nat, channels: nat)
    requires
        is_block(raw, ports, channels),
    ensures
        gather(raw, ports, channels) == raw,
{
    let g = gather(raw, ports, channels);
    assert forall|p: int| 0 <= p < ports implies g[p] == raw[p] by {
        assert(is_port(raw[p], channels));
        assert forall|c: int| 0 <= c < channels implies g[p][c] == raw[p][c] by {
            assert(is_channel(raw[p][c]));
            assert(g[p][c] =~= raw[p][c]);
        }
        assert(g[p] =~= raw[p]);
    }
    assert(g =~= raw);
}

fn silent_channel() -> (channel: Vec<Sample>)
    ensures
        channel@ == gather_channel(Seq::empty()),
{
    let mut channel: Vec<Sample> = Vec::new();
    while channel.len() < RENDER_QUANTUM
        invariant
            channel.len() <= RENDER_QUANTUM,
            forall|f: int| 0 <= f < channel.len() ==> channel[f] == 0,
        decreases RENDER_QUANTUM - channel.len(),
    {
        channel.push(0);
    }
    assert(channel@ =~= gather_channel(Seq::empty()));
    channel
}

fn silent_port(channels: usize) -> (port: Vec<Vec<Sample>>)
    ensures
        port.deep_view() == gather_port(Seq::empty(), channels as nat),
{
    let mut port: Vec<Vec<Sample>> = Vec::new();
    while port.len() < channels
        invariant
            port.len() <= channels,
            forall|c: int| 0 <= c < port.len() ==> port[c]@ == gather_channel(Seq::empty()),
        decreases channels - port.len(),
    {
        port.push(silent_channel());
    }
    proof {
        let g = gather_port(Seq::empty(), channels as nat);
        assert forall|c: int| 0 <= c < channels implies #[trigger] port.deep_view()[c] == g[c] by {
            assert(port.deep_view()[c] =~= port[c]@);
        }
        assert(port.deep_view() =~= g);
    }
    port
}


/// The deep view of a port lists the views of its channels.
proof fn lemma_port_view(port: Vec<Vec<Sample>>)
    ensures
        port.deep_view().len() == port.len(),
        forall|c: int|
            #![trigger port.deep_view()[c]]
            #![trigger port[c]]
            0 <= c < port.len() ==> port.deep_view()[c] == port[c]@,
{
    assert forall|c: int| 0 <= c < port.len() implies port.deep_view()[c] == port[c]@ by {
        assert(port[c].deep_view() =~= port[c]@);
    }
}

/// The deep view of a block lists the deep views of its ports.
proof fn lemma_block_view(block: Vec<Vec<Vec<Sample>>>)
    ensures
        block.deep_view().len() == block.len(),
        forall|p: int|
            #![trigger block.deep_view()[p]]
            #![trigger block[p]]
            0 <= p < block.len() ==> block.deep_view()[p] == block[p].deep_view(),
{
}

/// The frames that a channel of the host holds; none where the host has no
/// such channel.
spec fn channel_frames(src: Option<&Vec<Sample>>) -> Seq<Sample> {
    match src {
        Some(channel) => channel@,
        None => Seq::empty(),
    }
}

/// The channels that a port of the host holds; none where the host has no
/// such port.
spec fn port_frames(src: Option<&Vec<Vec<Sample>>>) -> Seq<Seq<Sample>> {
    match src {
        Some(port) => port.deep_view(),
        None => Seq::empty(),
    }
}

/// Overwrites one quantum of `dst` with what `src` holds for it.
fn load_channel(dst: &mut Vec<Sample>, src: Option<&Vec<Sample>>)
    requires
        is_channel(old(dst)@),
    ensures
        final(dst)@ == gather_channel(channel_frames(src)),
    no_unwind
{
    let mut f: usize = 0;
    while f < RENDER_QUANTUM
        invariant
            f <= RENDER_QUANTUM,
            dst.len() == RENDER_QUANTUM,
            forall|k: int| 0 <= k < f ==> dst[k] == gather_channel(channel_frames(src))[k],
        decreases RENDER_QUANTUM - f,
    {
        let sample: Sample = match src {
            Some(channel) => if f < channel.len() {
                channel[f]
            } else {
                0
            },
            None => 0,
        };
        dst[f] = sample;
        f += 1;
    }
    assert(dst@ =~= gather_channel(channel_frames(src)));
}

/// Overwrites every channel of `dst` with what `src` holds for it.
fn load_port(dst: &mut Vec<Vec<Sample>>, src: Option<&Vec<Vec<Sample>>>)
    requires
        is_port(old(dst).deep_view(), old(dst).len() as nat),
    ensures
        final(dst).deep_view() == gather_port(port_frames(src), old(dst).len() as nat),
    no_unwind
{
    let channels = dst.len();
    let mut c: usize = 0;
    proof {
        lemma_port_view(*dst);
    }
    while c < channels
        invariant
            c <= channels,
            dst.len() == channels,
            forall|k: int| c <= k < channels ==> is_channel(#[trigger] dst[k]@),
            forall|k: int|
                0 <= k < c ==> (#[trigger] dst[k])@ == gather_port(
                    port_frames(src),
                    channels as nat,
                )[k],
        decreases channels - c,
    {
        let from: Option<&Vec<Sample>> = match src {
            Some(port) => if c < port.len() {
                proof {
                    lemma_port_view(*port);
                }
                Some(&port[c])
            } else {
                None
            },
            None => None,
        };
        load_channel(&mut dst[c], from);
        c += 1;
    }
    proof {
        let g = gather_port(port_frames(src), channels as nat);
        lemma_port_view(*dst);
        assert(dst.deep_view() =~= g);
    }
}

/// Overwrites every port of `dst` with what `src` holds for it.
fn load_block(dst: &mut Vec<Vec<Vec<Sample>>>, src: &Vec<Vec<Vec<Sample>>>, Ghost(channels): Ghost<nat>)
    requires
        is_block(old(dst).deep_view(), old(dst).len() as nat, channels),
    ensures
        final(dst).deep_view() == gather(src.deep_view(), old(dst).len() as nat, channels),
    no_unwind
{
    let ports = dst.len();
    let mut p: usize = 0;
    proof {
        lemma_block_view(*dst);
    }
    while p < ports
        invariant
            p <= ports,
            dst.len() == ports,
            forall|k: int| p <= k < ports ==> is_port((#[trigger] dst[k]).deep_view(), channels),
            forall|k: int|
                0 <= k < p ==> (#[trigger] dst[k]).deep_view() == gather(
                    src.deep_view(),
                    ports as nat,
                    channels,
                )[k],
        decreases ports - p,
    {
        let from: Option<&Vec<Vec<Sample>>> = if p < src.len() {
            proof {
                lemma_block_view(*src);
            }
            Some(&src[p])
        } else {
            None
        };
        load_port(&mut dst[p], from);
        p += 1;
    }
    proof {
        let g = gather(src.deep_view(), ports as nat, channels);
        lemma_block_view(*dst);
        assert(dst.deep_view() =~= g);
    }
}

fn silent_block(ports: usize, channels: usize) -> (block: Vec<Vec<Vec<Sample>>>)
    ensures
        block.deep_view() == silence(ports as nat, channels as nat),
{
    let mut block: Vec<Vec<Vec<Sample>>> = Vec::new();
    while block.len() < ports
        invariant
            block.len() <= ports,
            forall|p: int|
                0 <= p < block.len() ==> (#[trigger] block[p]).deep_view() == gather_port(
                    Seq::empty(),
                    channels as nat,
                ),
        decreases ports - block.len(),
    {
        block.push(silent_port(channels));
    }
    proof {
        lemma_block_view(block);
        assert(block.deep_view() =~= silence(ports as nat, channels as nat));
    }
    block
}

/// Whether `block` holds exactly `ports` ports of `channels` channels of one
/// quantum each.
fn has_shape(block: &Vec<Vec<Vec<Sample>>>, ports: usize, channels: usize) -> (fits: bool)
    ensures
        fits == is_block(block.deep_view(), ports as nat, channels as nat),
{
    proof {
        lemma_block_view(*block);
    }
    if block.len() != ports {
        return false;
    }
    let mut p: usize = 0;
    while p < ports
        invariant
            p <= ports,
            block.len() == ports,
            forall|k: int| 0 <= k < p ==> is_port((#[trigger] block[k]).deep_view(), channels as nat),
        decreases ports - p,
    {
        let port = &block[p];
        proof {
            lemma_port_view(*port);
        }
        if port.len() != channels {
            assert(!is_port(block.deep_view()[p as int], channels as nat));
            return false;
        }
        let mut c: usize = 0;
        while c < channels
            invariant
                c <= channels,
                port.len() == channels,
                p < ports,
                block.len() == ports,
                *port == block[p as int],
                forall|k: int| 0 <= k < c ==> is_channel(#[trigger] port[k]@),
            decreases channels - c,
        {
            if port[c].len() != RENDER_QUANTUM {
                proof {
                    lemma_block_view(*block);
                    lemma_port_view(*port);
                    assert(!is_channel(port.deep_view()[c as int]));
                    assert(!is_port(block.deep_view()[p as int], channels as nat));
                }
                return false;
            }
            c += 1;
        }
        p += 1;
    }
    true
}

/// What an [`AudioBuffer`] holds: its layout and the samples of every port.
pub struct AudioView {
    pub topology: Topology,
    pub inputs: Frames,
    pub outputs: Frames,
}

impl AudioView {
    /// Both sides have the shape that the layout declares.
    pub open spec fn wf(self) -> bool {
        &&& is_block(self.inputs, self.topology.inputs as nat, self.topology.input_channels as nat)
        &&& is_block(
            self.outputs,
            self.topology.outputs as nat,
            self.topology.output_channels as nat,
        )
    }

    /// The buffer of the given layout in which every sample is silent.
    pub open spec fn silent(topology: Topology) -> AudioView {
        AudioView {
            topology,
            inputs: silence(topology.inputs as nat, topology.input_channels as nat),
            outputs: silence(topology.outputs as nat, topology.output_channels as nat),
        }
    }

    /// The buffer after the host's input arrays `raw` were copied in.
    pub open spec fn with_input(self, raw: Frames) -> AudioView {
        AudioView {
            inputs: gather(raw, self.topology.inputs as nat, self.topology.input_channels as nat),
            ..self
        }
    }

    /// The buffer after every output channel took the samples of the input
    /// channel with the same port and channel number, or silence where there
    /// is none.
    pub open spec fn forwarded(self) -> AudioView {
        AudioView {
            outputs: gather(
                self.inputs,
                self.topology.outputs as nat,
                self.topology.output_channels as nat,
            ),
            ..self
        }
    }

    /// The buffer after one output sample was replaced.
    pub open spec fn with_output_sample(self, port: int, channel: int, frame: int, value: Sample) -> AudioView {
        AudioView {
            outputs: self.outputs.update(
                port,
                self.outputs[port].update(channel, self.outputs[port][channel].update(frame, value)),
            ),
            ..self
        }
    }
}

/// Where the outputs have the layout of the inputs, copying the host's input
/// in and forwarding it gives the host's input back, channel for channel and
/// sample for sample.
pub proof fn lemma_forward_reproduces_input(audio: AudioView, raw: Frames)
    requires
        audio.topology.outputs == audio.topology.inputs,
        audio.topology.output_channels == audio.topology.input_channels,
        is_block(raw, audio.topology.inputs as nat, audio.topology.input_channels as nat),
    ensures
        audio.with_input(raw).forwarded().outputs == raw,
{
    lemma_gather_block(raw, audio.topology.inputs as nat, audio.topology.input_channels as nat);
}

/// The input and output samples of one render quantum, in a layout that is
/// fixed when the buffer is made. Every buffer has the shape that its layout
/// declares, at all times.
pub struct AudioBuffer {
    topology: Topology,
    inputs: Vec<Vec<Vec<Sample>>>,
    outputs: Vec<Vec<Vec<Sample>>>,
}

impl View for AudioBuffer {
    type V = AudioView;

    closed spec fn view(&self) -> AudioView {
        AudioView {
            topology: self.topology,
            inputs: self.inputs.deep_view(),
            outputs: self.outputs.deep_view(),
        }
    }
}

impl AudioBuffer {
    #[verifier::type_invariant]
    spec fn shaped(self) -> bool {
        self@.wf()
    }

    /// Allocates silent buffers for the given layout.
    pub fn new(
        inputs: usize,
        channels_per_input: usize,
        outputs: usize,
        channels_per_output: usize,
    ) -> (buffer: AudioBuffer)
        ensures
            buffer@.wf(),
            buffer@ == AudioView::silent(
                (Topology {
                    inputs,
                    input_channels: channels_per_input,
                    outputs,
                    output_channels: channels_per_output,
                }),
            ),
    {
        let topology = Topology {
            inputs,
            input_channels: channels_per_input,
            outputs,
            output_channels: channels_per_output,
        };
        proof {
            lemma_gather_is_block(Seq::empty(), inputs as nat, channels_per_input as nat);
            lemma_gather_is_block(Seq::empty(), outputs as nat, channels_per_output as nat);
        }
        AudioBuffer {
            topology,
            inputs: silent_block(inputs, channels_per_input),
            outputs: silent_block(outputs, channels_per_output),
        }
    }

    /// The layout that the buffer was made for.
    pub fn topology(&self) -> (topology: Topology)
        ensures
            topology == self@.topology,
            self@.wf(),
    {
        proof {
            use_type_invariant(self);
        }
        self.topology
    }

    /// Copies the host's input arrays into the buffer. A port, channel or
    /// frame that `raw` lacks becomes silent, so no sample of an earlier
    /// quantum is ever read again; what `raw` holds beyond the layout is
    /// ignored.
    pub fn copy_from_input(&mut self, raw: &Vec<Vec<Vec<Sample>>>)
        ensures
            final(self)@ == old(self)@.with_input(raw.deep_view()),
            final(self)@.wf(),
    {
        proof {
            use_type_invariant(&*self);
            lemma_gather_is_block(
                raw.deep_view(),
                self.topology.inputs as nat,
                self.topology.input_channels as nat,
            );
        }
        load_block(&mut self.inputs, raw, Ghost(self.topology.input_channels as nat));
    }

    /// Whether the host's output arrays have exactly the shape of the
    /// buffer's outputs.
    pub fn fits_output(&self, raw: &Vec<Vec<Vec<Sample>>>) -> (fits: bool)
        ensures
            fits == is_block(
                raw.deep_view(),
                self@.topology.outputs as nat,
                self@.topology.output_channels as nat,
            ),
    {
        has_shape(raw, self.topology.outputs, self.topology.output_channels)
    }

    /// Writes every channel of every output into the host's output arrays.
    pub fn copy_to_output(&self, raw: &mut Vec<Vec<Vec<Sample>>>)
        requires
            is_block(
                old(raw).deep_view(),
                self@.topology.outputs as nat,
                self@.topology.output_channels as nat,
            ),
        ensures
            final(raw).deep_view() == self@.outputs,
            self@.wf(),
    {
        proof {
            use_type_invariant(self);
            lemma_gather_block(
                self.outputs.deep_view(),
                self.topology.outputs as nat,
                self.topology.output_channels as nat,
            );
        }
        load_block(raw, &self.outputs, Ghost(self.topology.output_channels as nat));
    }

    /// Copies each input channel to the output channel with the same port and
    /// channel number. An output channel without such an input falls silent.
    pub fn forward(&mut self)
        ensures
            final(self)@ == old(self)@.forwarded(),
            final(self)@.wf(),
    {
        proof {
            use_type_invariant(&*self);
            lemma_gather_is_block(
                self.inputs.deep_view(),
                self.topology.outputs as nat,
                self.topology.output_channels as nat,
            );
        }
        load_block(&mut self.outputs, &self.inputs, Ghost(self.topology.output_channels as nat));
    }

    /// The samples of one input channel, if the layout has it.
    pub fn input(&self, port: usize, channel: usize) -> (samples: Option<&Vec<Sample>>)
        ensures
            samples is Some <==> port < self@.topology.inputs && channel
                < self@.topology.input_channels,
            samples matches Some(s) ==> s@ == self@.inputs[port as int][channel as int] && is_channel(
                s@,
            ),
    {
        proof {
            use_type_invariant(self);
        }
        channel_of(&self.inputs, port, channel, Ghost(self.topology.input_channels as nat))
    }

    /// The samples of one output channel, if the layout has it.
    pub fn output(&self, port: usize, channel: usize) -> (samples: Option<&Vec<Sample>>)
        ensures
            samples is Some <==> port < self@.topology.outputs && channel
                < self@.topology.output_channels,
            samples matches Some(s) ==> s@ == self@.outputs[port as int][channel as int]
                && is_channel(s@),
    {
        proof {
            use_type_invariant(self);
        }
        channel_of(&self.outputs, port, channel, Ghost(self.topology.output_channels as nat))
    }

    /// Replaces one output sample. Returns whether the layout has that place;
    /// where it has not, nothing changes.
    pub fn set_output(&mut self, port: usize, channel: usize, frame: usize, value: Sample) -> (written:
        bool)
        ensures
            written <==> port < old(self)@.topology.outputs && channel
                < old(self)@.topology.output_channels && frame < RENDER_QUANTUM,
            written ==> final(self)@ == old(self)@.with_output_sample(
                port as int,
                channel as int,
                frame as int,
                value,
            ),
            !written ==> final(self)@ == old(self)@,
            final(self)@.wf(),
    {
        proof {
            use_type_invariant(&*self);
        }
        store(
            &mut self.outputs,
            port,
            channel,
            frame,
            value,
            Ghost(self.topology.output_channels as nat),
        )
    }
}

/// The channel of `block` at `port` and `channel`, if the block has it.
fn channel_of(block: &Vec<Vec<Vec<Sample>>>, port: usize, channel: usize, Ghost(channels): Ghost<nat>) -> (samples:
    Option<&Vec<Sample>>)
    requires
        is_block(block.deep_view(), block.len() as nat, channels),
    ensures
        samples is Some <==> port < block.len() && channel < channels,
        samples matches Some(s) ==> s@ == block.deep_view()[port as int][channel as int]
            && is_channel(s@),
{
    proof {
        lemma_block_view(*block);
    }
    if port < block.len() {
        let found = &block[port];
        proof {
            lemma_port_view(*found);
            assert(is_port(block.deep_view()[port as int], channels));
        }
        if channel < found.len() {
            return Some(&found[channel]);
        }
    }
    None
}

/// Replaces the sample of `block` at `port`, `channel` and `frame`, if the
/// block has that place.
fn store(
    block: &mut Vec<Vec<Vec<Sample>>>,
    port: usize,
    channel: usize,
    frame: usize,
    value: Sample,
    Ghost(channels): Ghost<nat>,
) -> (written: bool)
    requires
        is_block(old(block).deep_view(), old(block).len() as nat, channels),
    ensures
        final(block).len() == old(block).len(),
        is_block(final(block).deep_view(), old(block).len() as nat, channels),
        written <==> port < old(block).len() && channel < channels && frame < RENDER_QUANTUM,
        written ==> final(block).deep_view() == old(block).deep_view().update(
            port as int,
            old(block).deep_view()[port as int].update(
                channel as int,
                old(block).deep_view()[port as int][channel as int].update(frame as int, value),
            ),
        ),
        !written ==> final(block).deep_view() == old(block).deep_view(),
    no_unwind
{
    proof {
        lemma_block_view(*block);
    }
    if port >= block.len() {
        return false;
    }
    proof {
        lemma_port_view(block[port as int]);
        assert(is_port(block.deep_view()[port as int], channels));
    }
    if channel >= block[port].len() || frame >= RENDER_QUANTUM {
        return false;
    }
    proof {
        assert(is_channel(block.deep_view()[port as int][channel as int]));
    }
    block[port][channel][frame] = value;
    proof {
        let before = old(block).deep_view();
        let expected = before.update(
            port as int,
            before[port as int].update(
                channel as int,
                before[port as int][channel as int].update(frame as int, value),
            ),
        );
        lemma_block_view(*block);
        lemma_block_view(*old(block));
        lemma_port_view(block[port as int]);
        lemma_port_view(old(block)[port as int]);
        assert(block[port as int].deep_view() =~= expected[port as int]);
        assert(block.deep_view() =~= expected);
        assert forall|p: int| 0 <= p < expected.len() implies is_port(
            #[trigger] expected[p],
            channels,
        ) by {
            assert(is_port(before[p], channels));
            if p == port {
                assert forall|c: int| 0 <= c < expected[p].len() implies is_channel(
                    #[trigger] expected[p][c],
                ) by {
                    assert(is_channel(before[p][c]));
                }
            }
        }
    }
    true
}

} // verus!
