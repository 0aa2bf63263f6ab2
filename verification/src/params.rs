//! Automation values of the parameters that a module declares.

use crate::buffer::{Sample, RENDER_QUANTUM};
use vstd::prelude::*;

verus! {

/// An automation stream as the host delivers it: one value that holds for the
/// whole quantum, or one value per frame.
pub open spec fn is_automation(raw: Seq<Sample>) -> bool {
    raw.len() == 1 || raw.len() == RENDER_QUANTUM
}

/// The value that an automation stream gives to one frame.
pub open spec fn automation_at(raw: Seq<Sample>, frame: int) -> Sample {
    if raw.len() == 1 {
        raw[0]
    } else {
        raw[frame]
    }
}

/// The automation of one parameter for one quantum. Its storage is allocated
/// once and reused for every quantum.
pub struct Param {
    frames: Vec<Sample>,
    constant: bool,
}

impl View for Param {
    type V = Seq<Sample>;

    /// The stream as it was delivered: of length one, or of one quantum.
    closed spec fn view(&self) -> Seq<Sample> {
        if self.constant {
            seq![self.frames[0]]
        } else {
            self.frames@
        }
    }
}

impl Param {
    #[verifier::type_invariant]
    spec fn holds_quantum(self) -> bool {
        self.frames.len() == RENDER_QUANTUM
    }

    /// A parameter that is constantly zero.
    pub fn new() -> (param: Param)
        ensures
            param@ == seq![0u32],
    {
        let mut frames: Vec<Sample> = Vec::new();
        while frames.len() < RENDER_QUANTUM
            invariant
                frames.len() <= RENDER_QUANTUM,
                forall|f: int| 0 <= f < frames.len() ==> frames[f] == 0,
            decreases RENDER_QUANTUM - frames.len(),
        {
            frames.push(0);
        }
        Param { frames, constant: true }
    }

    /// Whether one value holds for the whole quantum.
    pub fn is_constant(&self) -> (constant: bool)
        ensures
            constant == (self@.len() == 1),
            is_automation(self@),
    {
        proof {
            use_type_invariant(self);
        }
        self.constant
    }

    /// The number of values that were delivered: one, or one per frame.
    pub fn len(&self) -> (len: usize)
        ensures
            len == self@.len(),
            is_automation(self@),
    {
        proof {
            use_type_invariant(self);
        }
        if self.constant {
            1
        } else {
            RENDER_QUANTUM
        }
    }

    /// The value at `frame`, whichever way the stream was delivered; `None`
    /// beyond the quantum.
    pub fn get(&self, frame: usize) -> (value: Option<Sample>)
        ensures
            value == if frame < RENDER_QUANTUM {
                Some(automation_at(self@, frame as int))
            } else {
                None
            },
    {
        proof {
            use_type_invariant(self);
        }
        if frame >= RENDER_QUANTUM {
            None
        } else if self.constant {
            Some(self.frames[0])
        } else {
            Some(self.frames[frame])
        }
    }

    /// Takes over the stream `raw` without allocating.
    fn load(&mut self, raw: &Vec<Sample>)
        requires
            is_automation(raw@),
        ensures
            final(self)@ == raw@,
    {
        proof {
            use_type_invariant(&*self);
        }
        if raw.len() == 1 {
            self.frames[0] = raw[0];
            self.constant = true;
            assert(self@ =~= raw@);
        } else {
            let mut f: usize = 0;
            while f < RENDER_QUANTUM
                invariant
                    f <= RENDER_QUANTUM,
                    raw.len() == RENDER_QUANTUM,
                    self.frames.len() == RENDER_QUANTUM,
                    forall|k: int| 0 <= k < f ==> self.frames[k] == raw[k],
                decreases RENDER_QUANTUM - f,
            {
                self.frames[f] = raw[f];
                f += 1;
            }
            self.constant = false;
            assert(self@ =~= raw@);
        }
    }
}

/// The automation of every parameter of a module, by the parameter's number.
/// The set of parameters is fixed when the buffer is made.
pub struct ParamBuffer {
    params: Vec<Param>,
}

impl View for ParamBuffer {
    type V = Seq<Seq<Sample>>;

    closed spec fn view(&self) -> Seq<Seq<Sample>> {
        Seq::new(self.params.len() as nat, |i: int| self.params[i]@)
    }
}

/// Whether `raw` holds one automation stream for each of `count` parameters.
pub open spec fn is_automation_set(raw: Seq<Seq<Sample>>, count: nat) -> bool {
    &&& raw.len() == count
    &&& forall|i: int| 0 <= i < raw.len() ==> is_automation(#[trigger] raw[i])
}

impl ParamBuffer {
    /// A buffer for `count` parameters, each constantly zero.
    pub fn new(count: usize) -> (buffer: ParamBuffer)
        ensures
            buffer@ == Seq::new(count as nat, |i: int| seq![0u32]),
    {
        let mut params: Vec<Param> = Vec::new();
        while params.len() < count
            invariant
                params.len() <= count,
                forall|i: int| 0 <= i < params.len() ==> (#[trigger] params[i])@ == seq![0u32],
            decreases count - params.len(),
        {
            params.push(Param::new());
        }
        let buffer = ParamBuffer { params };
        assert(buffer@ =~= Seq::new(count as nat, |i: int| seq![0u32]));
        buffer
    }

    /// The number of parameters.
    pub fn len(&self) -> (len: usize)
        ensures
            len == self@.len(),
    {
        self.params.len()
    }

    /// Whether `raw` holds, for each parameter of this buffer, a stream of
    /// one value or of one value per frame.
    pub fn accepts(&self, raw: &Vec<Vec<Sample>>) -> (accepted: bool)
        ensures
            accepted == is_automation_set(raw.deep_view(), self@.len()),
    {
        proof {
            lemma_streams_view(*raw);
        }
        if raw.len() != self.params.len() {
            return false;
        }
        let mut i: usize = 0;
        while i < raw.len()
            invariant
                i <= raw.len(),
                forall|k: int| 0 <= k < i ==> is_automation(#[trigger] raw[k]@),
            decreases raw.len() - i,
        {
            let n = raw[i].len();
            if n != 1 && n != RENDER_QUANTUM {
                proof {
                    lemma_streams_view(*raw);
                    assert(!is_automation(raw.deep_view()[i as int]));
                }
                return false;
            }
            i += 1;
        }
        true
    }

    /// Takes over the automation of every parameter for the coming quantum.
    pub fn copy_from_params(&mut self, raw: &Vec<Vec<Sample>>)
        requires
            is_automation_set(raw.deep_view(), old(self)@.len()),
        ensures
            final(self)@ == raw.deep_view(),
    {
        let count = self.params.len();
        proof {
            lemma_streams_view(*raw);
        }
        let mut i: usize = 0;
        while i < count
            invariant
                i <= count,
                count == raw.len(),
                self.params.len() == count,
                forall|k: int| 0 <= k < count ==> is_automation(#[trigger] raw[k]@),
                forall|k: int| 0 <= k < i ==> (#[trigger] self.params[k])@ == raw[k]@,
            decreases count - i,
        {
            self.params[i].load(&raw[i]);
            i += 1;
        }
        proof {
            lemma_streams_view(*raw);
            assert(self@ =~= raw.deep_view());
        }
    }

    /// The automation of parameter `id`, if the buffer has it.
    pub fn get(&self, id: usize) -> (param: Option<&Param>)
        ensures
            param is Some <==> id < self@.len(),
            param matches Some(p) ==> p@ == self@[id as int],
    {
        if id < self.params.len() {
            Some(&self.params[id])
        } else {
            None
        }
    }
}

/// The deep view of a list of streams lists the views of the streams.
proof fn lemma_streams_view(raw: Vec<Vec<Sample>>)
    ensures
        raw.deep_view().len() == raw.len(),
        forall|i: int|
            #![trigger raw.deep_view()[i]]
            #![trigger raw[i]]
            0 <= i < raw.len() ==> raw.deep_view()[i] == raw[i]@,
{
    assert forall|i: int| 0 <= i < raw.len() implies raw.deep_view()[i] == raw[i]@ by {
        assert(raw[i].deep_view() =~= raw[i]@);
    }
}

} // verus!
