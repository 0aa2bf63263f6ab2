//! What a processing module offers to the bridge.

use crate::buffer::{is_block, lemma_forward_reproduces_input, AudioBuffer, AudioView, Frames, Sample};
use crate::message::Emitter;
use crate::params::ParamBuffer;
use crate::processor::Processor;
use vstd::prelude::*;

verus! {

/// Audio worklet processor interface.
///
/// An implementation says what its handlers do through the two relations
/// `handles` and `renders`; the bridge promises its callers exactly those.
pub trait AudioModule: Sized {
    /// The type of messages sent from the module to the control side.
    type Event;

    /// The type of messages sent from the control side to the module.
    type Command;

    /// Number of inputs expected by the module.
    const INPUTS: u32 = 1;

    /// Number of outputs expected by the module.
    const OUTPUTS: u32 = 1;

    /// Number of parameters that the module declares. Their automation
    /// reaches `process` under the numbers `0..PARAMETERS`.
    const PARAMETERS: usize = 0;

    /// What `on_command` may do: the module and the queued events, before and
    /// after the command.
    open spec fn handles(
        pre: Self,
        command: Self::Command,
        sent: Seq<Self::Event>,
        post: Self,
        sent_after: Seq<Self::Event>,
    ) -> bool {
        true
    }

    /// What `process` may do: the module, the buffer and the queued events,
    /// before and after the quantum.
    open spec fn renders(
        pre: Self,
        audio: AudioView,
        params: Seq<Seq<Sample>>,
        sent: Seq<Self::Event>,
        post: Self,
        rendered: AudioView,
        sent_after: Seq<Self::Event>,
    ) -> bool {
        true
    }

    /// Constructor method for the module.
    fn create(emitter: &mut Emitter<Self::Event>) -> Self;

    /// Handler for commands from the control side.
    fn on_command(&mut self, command: Self::Command, emitter: &mut Emitter<Self::Event>)
        ensures
            Self::handles(*old(self), command, old(emitter)@, *final(self), final(emitter)@),
    ;

    /// Implements the audio processing algorithm: reads the inputs and the
    /// automation of one quantum and writes its outputs. The buffer keeps its
    /// layout.
    fn process(
        &mut self,
        audio: &mut AudioBuffer,
        params: &ParamBuffer,
        emitter: &mut Emitter<Self::Event>,
    )
        ensures
            final(audio)@.topology == old(audio)@.topology,
            Self::renders(
                *old(self),
                old(audio)@,
                params@,
                old(emitter)@,
                *final(self),
                final(audio)@,
                final(emitter)@,
            ),
    ;
}

/// The module that hands its inputs on unchanged: each output channel takes
/// the samples of the input channel with the same port and channel number.
pub struct PassThrough;

impl AudioModule for PassThrough {
    type Event = ();

    type Command = ();

    open spec fn handles(
        pre: Self,
        command: (),
        sent: Seq<()>,
        post: Self,
        sent_after: Seq<()>,
    ) -> bool {
        sent_after == sent
    }

    open spec fn renders(
        pre: Self,
        audio: AudioView,
        params: Seq<Seq<Sample>>,
        sent: Seq<()>,
        post: Self,
        rendered: AudioView,
        sent_after: Seq<()>,
    ) -> bool {
        &&& rendered == audio.forwarded()
        &&& sent_after == sent
    }

    fn create(emitter: &mut Emitter<()>) -> (module: Self)
        ensures
            module == PassThrough,
            final(emitter)@ == old(emitter)@,
    {
        PassThrough
    }

    fn on_command(&mut self, command: (), emitter: &mut Emitter<()>) {
    }

    fn process(&mut self, audio: &mut AudioBuffer, params: &ParamBuffer, emitter: &mut Emitter<()>) {
        audio.forward();
    }
}

/// Where the outputs have the layout of the inputs, a quantum rendered by
/// [`PassThrough`] hands the host's input back, channel for channel and
/// sample for sample.
pub proof fn lemma_pass_through_reproduces_input(
    pre: Processor<PassThrough>,
    input: Frames,
    params: Seq<Seq<Sample>>,
    post: Processor<PassThrough>,
    output: Frames,
    keep: bool,
)
    requires
        pre.audio().topology.outputs == pre.audio().topology.inputs,
        pre.audio().topology.output_channels == pre.audio().topology.input_channels,
        is_block(
            input,
            pre.audio().topology.inputs as nat,
            pre.audio().topology.input_channels as nat,
        ),
        Processor::after_quantum(pre, input, params, post, output, keep),
    ensures
        output == input,
        post.pending() == pre.pending(),
{
    lemma_forward_reproduces_input(pre.audio(), input);
}

} // verus!
