//! The bridge that drives one module, quantum by quantum.

use crate::buffer::{is_block, AudioBuffer, AudioView, Frames, Sample, Topology};
use crate::message::{carries, Emitter, InternalMessage};
use crate::module::AudioModule;
use crate::options::{OptionsError, WorkletOptions};
use crate::params::{is_automation_set, ParamBuffer};
use vstd::prelude::*;

verus! {

/// Where a processor stands in its life.
#[derive(Clone, Copy, Debug, PartialEq, Eq, Structural)]
pub enum Lifecycle {
    /// Constructed, not yet listening for messages.
    Constructed,
    /// Listening for messages and rendering.
    Connected,
    /// Told to stop: every quantum from now on reports that it was the last.
    Disabled,
}

/// Whether `command` is what converting `payload` may give.
pub open spec fn converts_to<P, C: From<P>>(payload: P, command: C) -> bool {
    call_ensures(C::from, (payload,), command)
}

/// A conversion that keeps to its specification gives exactly what the
/// specification names.
pub proof fn lemma_conversion_is_exact<P, C: From<P>>(payload: P, command: C)
    requires
        <C as vstd::std_specs::convert::FromSpec<P>>::obeys_from_spec(),
        converts_to(payload, command),
    ensures
        command == <C as vstd::std_specs::convert::FromSpec<P>>::from_spec(payload),
{
}

/// One thing that happens to a processor: a message arrives, or the host asks
/// for a quantum and is handed the output and the answer whether to go on.
pub enum Step<P> {
    Message { decoded: Option<InternalMessage>, payload: P },
    Quantum { input: Frames, params: Seq<Seq<Sample>>, output: Frames, keep: bool },
}

/// The host's side of the protocol: once a quantum has returned false, the
/// host releases the processor and asks for no further quantum.
pub open spec fn host_stops_after_false<P>(steps: Seq<Step<P>>) -> bool {
    forall|i: int, j: int|
        0 <= i < j < steps.len() && (#[trigger] steps[i] matches Step::Quantum { keep, .. }
            && !keep) ==> !(#[trigger] steps[j] is Quantum)
}

/// Wrapper struct for a module: it owns the module, the buffers of one
/// quantum, the queue of outgoing events and the flag that keeps the module
/// rendering.
pub struct Processor<M: AudioModule> {
    module: M,
    emitter: Emitter<M::Event>,
    audio: AudioBuffer,
    params: ParamBuffer,
    enabled: bool,
    connected: bool,
}

impl<M: AudioModule> Processor<M> {
    /// The module as it stands.
    pub closed spec fn module(&self) -> M {
        self.module
    }

    /// The events that the module has sent and the host has not yet taken.
    pub closed spec fn pending(&self) -> Seq<M::Event> {
        self.emitter@
    }

    /// The audio buffer as it stands.
    pub closed spec fn audio(&self) -> AudioView {
        self.audio@
    }

    /// The automation of the last quantum.
    pub closed spec fn params(&self) -> Seq<Seq<Sample>> {
        self.params@
    }

    /// Whether no message has told the processor to stop.
    pub closed spec fn enabled(&self) -> bool {
        self.enabled
    }

    /// Whether `connect` was called.
    pub closed spec fn connected(&self) -> bool {
        self.connected
    }

    /// Where the processor stands in its life.
    pub open spec fn lifecycle(&self) -> Lifecycle {
        if !self.enabled() {
            Lifecycle::Disabled
        } else if self.connected() {
            Lifecycle::Connected
        } else {
            Lifecycle::Constructed
        }
    }

    /// `post` is what `pre` becomes by one inbound message. `decoded` is the
    /// outcome of decoding the payload as an internal message: where there is
    /// one, the bridge acts on it and the module is left as it was; where
    /// there is none, the module's handler has received the converted payload.
    pub open spec fn after_message<P>(
        pre: Self,
        decoded: Option<InternalMessage>,
        payload: P,
        post: Self,
    ) -> bool where M::Command: From<P> {
        &&& post.connected() == pre.connected()
        &&& post.audio() == pre.audio()
        &&& post.params() == pre.params()
        &&& match decoded {
            Some(InternalMessage::Destroy) => {
                &&& !post.enabled()
                &&& post.module() == pre.module()
                &&& post.pending() == pre.pending()
            },
            None => {
                &&& post.enabled() == pre.enabled()
                &&& exists|command: M::Command|
                    {
                        &&& #[trigger] converts_to(payload, command)
                        &&& M::handles(
                            pre.module(),
                            command,
                            pre.pending(),
                            post.module(),
                            post.pending(),
                        )
                    }
            },
        }
    }

    /// `post` is what `pre` becomes by rendering one quantum from the host's
    /// `input` and `params`; `output` is what the host's output arrays then
    /// hold and `keep` what the host is told.
    pub open spec fn after_quantum(
        pre: Self,
        input: Frames,
        params: Seq<Seq<Sample>>,
        post: Self,
        output: Frames,
        keep: bool,
    ) -> bool {
        &&& keep == pre.enabled()
        &&& post.enabled() == pre.enabled()
        &&& post.connected() == pre.connected()
        &&& post.audio().topology == pre.audio().topology
        &&& post.audio().wf()
        &&& post.params() == params
        &&& M::renders(
            pre.module(),
            pre.audio().with_input(input),
            params,
            pre.pending(),
            post.module(),
            post.audio(),
            post.pending(),
        )
        &&& output == post.audio().outputs
    }

    /// `post` is what `pre` becomes by `step`.
    pub open spec fn follows<P>(pre: Self, step: Step<P>, post: Self) -> bool where
        M::Command: From<P>,
    {
        match step {
            Step::Message { decoded, payload } => Self::after_message(pre, decoded, payload, post),
            Step::Quantum { input, params, output, keep } => Self::after_quantum(
                pre,
                input,
                params,
                post,
                output,
                keep,
            ),
        }
    }

    /// `states` are the states that a processor passes through by `steps`,
    /// the first before any of them.
    pub open spec fn is_run<P>(states: Seq<Self>, steps: Seq<Step<P>>) -> bool where
        M::Command: From<P>,
    {
        &&& states.len() == steps.len() + 1
        &&& forall|i: int|
            0 <= i < steps.len() ==> Self::follows(states[i], #[trigger] steps[i], states[i + 1])
    }

    /// Whatever messages and quanta follow, a disabled processor stays
    /// disabled.
    pub proof fn lemma_disabled_is_terminal<P>(
        states: Seq<Self>,
        steps: Seq<Step<P>>,
        from: int,
        to: int,
    ) where M::Command: From<P>
        requires
            Self::is_run(states, steps),
            0 <= from <= to < states.len(),
            !states[from].enabled(),
        ensures
            !states[to].enabled(),
        decreases to - from,
    {
        if from < to {
            Self::lemma_disabled_is_terminal(states, steps, from, to - 1);
            assert(Self::follows(states[to - 1], steps[to - 1], states[to - 1 + 1]));
        }
    }

    /// Once a `Destroy` message was delivered, the very next quantum returns
    /// false, and so would any quantum after it, whatever came between.
    pub proof fn lemma_destroy_ends_rendering<P>(
        states: Seq<Self>,
        steps: Seq<Step<P>>,
        destroyed: int,
        quantum: int,
    ) where M::Command: From<P>
        requires
            Self::is_run(states, steps),
            0 <= destroyed < quantum < steps.len(),
            steps[destroyed] matches Step::Message { decoded, .. } && decoded == Some(
                InternalMessage::Destroy,
            ),
            steps[quantum] is Quantum,
        ensures
            steps[quantum] matches Step::Quantum { keep, .. } && !keep,
    {
        assert(Self::follows(states[destroyed], steps[destroyed], states[destroyed + 1]));
        Self::lemma_disabled_is_terminal(states, steps, destroyed + 1, quantum);
        assert(Self::follows(states[quantum], steps[quantum], states[quantum + 1]));
    }

    /// With a host that keeps to its side, the processor renders at most one
    /// quantum after a `Destroy` message was delivered: that quantum returns
    /// false, and none follows it.
    pub proof fn lemma_one_last_quantum<P>(
        states: Seq<Self>,
        steps: Seq<Step<P>>,
        destroyed: int,
        first: int,
        second: int,
    ) where M::Command: From<P>
        requires
            Self::is_run(states, steps),
            host_stops_after_false(steps),
            0 <= destroyed < first <= second < steps.len(),
            steps[destroyed] matches Step::Message { decoded, .. } && decoded == Some(
                InternalMessage::Destroy,
            ),
            steps[first] is Quantum,
            steps[second] is Quantum,
        ensures
            first == second,
    {
        Self::lemma_destroy_ends_rendering(states, steps, destroyed, first);
    }

    /// A payload that decodes as an internal message never reaches the
    /// module: the module and its queue of events stay as they were.
    pub proof fn lemma_internal_message_bypasses_module<P>(
        pre: Self,
        message: InternalMessage,
        payload: P,
        post: Self,
    ) where M::Command: From<P>
        requires
            Self::after_message(pre, Some(message), payload, post),
        ensures
            post.module() == pre.module(),
            post.pending() == pre.pending(),
    {
    }

    /// A payload that does not decode as an internal message reaches the
    /// module's handler as the command that it converts to.
    pub proof fn lemma_command_reaches_handler<P>(pre: Self, payload: P, post: Self) where
        M::Command: From<P>,

        requires
            Self::after_message(pre, None, payload, post),
            <M::Command as vstd::std_specs::convert::FromSpec<P>>::obeys_from_spec(),
        ensures
            post.enabled() == pre.enabled(),
            M::handles(
                pre.module(),
                <M::Command as vstd::std_specs::convert::FromSpec<P>>::from_spec(payload),
                pre.pending(),
                post.module(),
                post.pending(),
            ),
    {
        let command = choose|command: M::Command|
            {
                &&& #[trigger] converts_to(payload, command)
                &&& M::handles(
                    pre.module(),
                    command,
                    pre.pending(),
                    post.module(),
                    post.pending(),
                )
            };
        lemma_conversion_is_exact(payload, command);
    }

    /// A second `Destroy` message changes nothing that the first has left.
    pub proof fn lemma_second_destroy_changes_nothing<P, Q>(
        pre: Self,
        first: P,
        between: Self,
        second: Q,
        post: Self,
    ) where M::Command: From<P>, M::Command: From<Q>
        requires
            Self::after_message(pre, Some(InternalMessage::Destroy), first, between),
            Self::after_message(between, Some(InternalMessage::Destroy), second, post),
        ensures
            post.enabled() == between.enabled(),
            post.connected() == between.connected(),
            post.module() == between.module(),
            post.pending() == between.pending(),
            post.audio() == between.audio(),
            post.params() == between.params(),
    {
    }

    /// Validates the construction options and allocates the buffers for
    /// them, silent, and for the automation of the module's parameters.
    /// Options that are missing or out of range give no processor.
    pub fn new(module: M, emitter: Emitter<M::Event>, options: &WorkletOptions) -> (made: Result<
        Processor<M>,
        OptionsError,
    >)
        ensures
            match options.spec_topology() {
                Ok(topology) => {
                    &&& made matches Ok(processor)
                    &&& processor.lifecycle() == Lifecycle::Constructed
                    &&& processor.module() == module
                    &&& processor.pending() == emitter@
                    &&& processor.audio() == AudioView::silent(topology)
                    &&& processor.params() == Seq::new(M::PARAMETERS as nat, |i: int| seq![0u32])
                },
                Err(error) => made == Err::<Processor<M>, OptionsError>(error),
            },
    {
        let topology = match options.topology() {
            Ok(topology) => topology,
            Err(error) => {
                return Err(error);
            },
        };
        let audio = AudioBuffer::new(
            topology.inputs,
            topology.input_channels,
            topology.outputs,
            topology.output_channels,
        );
        Ok(
            Processor {
                module,
                emitter,
                audio,
                params: ParamBuffer::new(M::PARAMETERS),
                enabled: true,
                connected: false,
            },
        )
    }

    /// Begins to listen for messages. A processor is connected once, before
    /// its first quantum.
    pub fn connect(&mut self)
        requires
            old(self).lifecycle() == Lifecycle::Constructed,
        ensures
            final(self).lifecycle() == Lifecycle::Connected,
            final(self).module() == old(self).module(),
            final(self).pending() == old(self).pending(),
            final(self).audio() == old(self).audio(),
            final(self).params() == old(self).params(),
    {
        self.connected = true;
    }

    /// Handles one inbound message. `decoded` is the outcome of decoding the
    /// payload as an internal message. Where that succeeded the bridge acts
    /// on the message and the module never sees the payload; where it
    /// failed the payload is converted to a command, which the module's
    /// handler receives once.
    pub fn on_message<P>(&mut self, decoded: Option<InternalMessage>, payload: P) where
        M::Command: From<P>,

        ensures
            Self::after_message(*old(self), decoded, payload, *final(self)),
    {
        match decoded {
            Some(InternalMessage::Destroy) => {
                self.enabled = false;
            },
            None => {
                let command: M::Command = From::from(payload);
                assert(converts_to(payload, command));
                self.module.on_command(command, &mut self.emitter);
            },
        }
    }

    /// Whether the host's output arrays and automation streams have the
    /// shapes that `process` works on.
    pub fn accepts(&self, output: &Vec<Vec<Vec<Sample>>>, params: &Vec<Vec<Sample>>) -> (accepted:
        bool)
        ensures
            accepted == {
                &&& is_block(
                    output.deep_view(),
                    self.audio().topology.outputs as nat,
                    self.audio().topology.output_channels as nat,
                )
                &&& is_automation_set(params.deep_view(), self.params().len())
            },
    {
        self.audio.fits_output(output) && self.params.accepts(params)
    }

    /// Renders one quantum: copies the host's inputs and automation in, lets
    /// the module process them, copies the outputs back to the host, and
    /// returns whether the processor is still enabled. After `false` the host
    /// releases the processor.
    pub fn process(
        &mut self,
        input: &Vec<Vec<Vec<Sample>>>,
        output: &mut Vec<Vec<Vec<Sample>>>,
        params: &Vec<Vec<Sample>>,
    ) -> (keep: bool)
        requires
            is_block(
                old(output).deep_view(),
                old(self).audio().topology.outputs as nat,
                old(self).audio().topology.output_channels as nat,
            ),
            is_automation_set(params.deep_view(), old(self).params().len()),
        ensures
            Self::after_quantum(
                *old(self),
                input.deep_view(),
                params.deep_view(),
                *final(self),
                final(output).deep_view(),
                keep,
            ),
    {
        self.audio.copy_from_input(input);
        self.params.copy_from_params(params);
        self.module.process(&mut self.audio, &self.params, &mut self.emitter);
        self.audio.copy_to_output(output);
        self.enabled
    }

    /// Renders one quantum if the host's output arrays and automation streams
    /// have the shapes that `process` works on. Otherwise nothing is rendered
    /// and nothing changes.
    pub fn try_process(
        &mut self,
        input: &Vec<Vec<Vec<Sample>>>,
        output: &mut Vec<Vec<Vec<Sample>>>,
        params: &Vec<Vec<Sample>>,
    ) -> (rendered: Option<bool>)
        ensures
            rendered is Some <==> {
                &&& is_block(
                    old(output).deep_view(),
                    old(self).audio().topology.outputs as nat,
                    old(self).audio().topology.output_channels as nat,
                )
                &&& is_automation_set(params.deep_view(), old(self).params().len())
            },
            rendered matches Some(keep) ==> Self::after_quantum(
                *old(self),
                input.deep_view(),
                params.deep_view(),
                *final(self),
                final(output).deep_view(),
                keep,
            ),
            rendered is None ==> *final(self) == *old(self) && *final(output) == *old(output),
    {
        if self.accepts(output, params) {
            Some(self.process(input, output, params))
        } else {
            None
        }
    }

    /// Hands the events that the module has sent to the host, oldest first.
    pub fn take_events(&mut self) -> (events: Vec<M::Event>)
        ensures
            events@ == old(self).pending(),
            final(self).pending() == Seq::<M::Event>::empty(),
            final(self).module() == old(self).module(),
            final(self).audio() == old(self).audio(),
            final(self).params() == old(self).params(),
            final(self).enabled() == old(self).enabled(),
            final(self).connected() == old(self).connected(),
    {
        self.emitter.drain()
    }

    /// Hands the events that the module has sent to the host in the
    /// transport's representation, oldest first.
    pub fn take_messages<T>(&mut self) -> (messages: Vec<T>) where M::Event: Into<T>
        ensures
            messages.len() == old(self).pending().len(),
            forall|i: int|
                0 <= i < messages.len() ==> carries(old(self).pending()[i], #[trigger] messages[i]),
            final(self).pending() == Seq::<M::Event>::empty(),
            final(self).module() == old(self).module(),
            final(self).audio() == old(self).audio(),
            final(self).params() == old(self).params(),
            final(self).enabled() == old(self).enabled(),
            final(self).connected() == old(self).connected(),
    {
        self.emitter.drain_as()
    }

    /// Whether no message has told the processor to stop.
    pub fn is_enabled(&self) -> (enabled: bool)
        ensures
            enabled == self.enabled(),
    {
        self.enabled
    }

    /// Where the processor stands in its life.
    pub fn state(&self) -> (state: Lifecycle)
        ensures
            state == self.lifecycle(),
    {
        if !self.enabled {
            Lifecycle::Disabled
        } else if self.connected {
            Lifecycle::Connected
        } else {
            Lifecycle::Constructed
        }
    }

    /// The layout that the buffers were made for.
    pub fn topology(&self) -> (topology: Topology)
        ensures
            topology == self.audio().topology,
    {
        self.audio.topology()
    }
}

} // verus!
