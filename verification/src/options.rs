//! The construction options that the rendering context hands to a processor.

use crate::buffer::Topology;
use vstd::prelude::*;

verus! {

/// The four counts that a processor is constructed with.
#[derive(Clone, Copy, Debug, PartialEq, Eq, Structural)]
pub enum OptionField {
    NumberOfInputs,
    ChannelCount,
    NumberOfOutputs,
    OutputChannelCount,
}

/// Why construction options were refused.
#[derive(Clone, Copy, Debug, PartialEq, Eq, Structural)]
pub enum OptionsError {
    /// The host gave no value for the field.
    Missing(OptionField),
    /// The value is negative or too large to size a buffer with.
    OutOfRange(OptionField),
}

/// The construction options as the host gave them: any integer, or nothing.
#[derive(Clone, Copy, Debug, PartialEq, Eq, Structural)]
pub struct WorkletOptions {
    pub number_of_inputs: Option<i64>,
    pub channel_count: Option<i64>,
    pub number_of_outputs: Option<i64>,
    pub output_channel_count: Option<i64>,
}

/// The count that the value of `field` stands for, or why it stands for none.
pub open spec fn count_of(value: Option<i64>, field: OptionField) -> Result<usize, OptionsError> {
    match value {
        None => Err(OptionsError::Missing(field)),
        Some(n) => if 0 <= n <= usize::MAX {
            Ok(n as usize)
        } else {
            Err(OptionsError::OutOfRange(field))
        },
    }
}

fn to_count(value: Option<i64>, field: OptionField) -> (count: Result<usize, OptionsError>)
    ensures
        count == count_of(value, field),
{
    match value {
        None => Err(OptionsError::Missing(field)),
        Some(n) => {
            if n < 0 || n as u64 > usize::MAX as u64 {
                Err(OptionsError::OutOfRange(field))
            } else {
                Ok(n as usize)
            }
        },
    }
}

impl WorkletOptions {
    /// The layout that the options describe. The fields are examined in the
    /// order inputs, channels per input, outputs, channels per output, and
    /// the first that is missing or out of range is reported.
    pub open spec fn spec_topology(self) -> Result<Topology, OptionsError> {
        match count_of(self.number_of_inputs, OptionField::NumberOfInputs) {
            Err(e) => Err(e),
            Ok(inputs) => match count_of(self.channel_count, OptionField::ChannelCount) {
                Err(e) => Err(e),
                Ok(input_channels) => match count_of(
                    self.number_of_outputs,
                    OptionField::NumberOfOutputs,
                ) {
                    Err(e) => Err(e),
                    Ok(outputs) => match count_of(
                        self.output_channel_count,
                        OptionField::OutputChannelCount,
                    ) {
                        Err(e) => Err(e),
                        Ok(output_channels) => Ok(
                            Topology { inputs, input_channels, outputs, output_channels },
                        ),
                    },
                },
            },
        }
    }

    /// Validates the options and converts them to a layout.
    pub fn topology(&self) -> (topology: Result<Topology, OptionsError>)
        ensures
            topology == self.spec_topology(),
    {
        let inputs = match to_count(self.number_of_inputs, OptionField::NumberOfInputs) {
            Ok(n) => n,
            Err(e) => {
                return Err(e);
            },
        };
        let input_channels = match to_count(self.channel_count, OptionField::ChannelCount) {
            Ok(n) => n,
            Err(e) => {
                return Err(e);
            },
        };
        let outputs = match to_count(self.number_of_outputs, OptionField::NumberOfOutputs) {
            Ok(n) => n,
            Err(e) => {
                return Err(e);
            },
        };
        let output_channels = match to_count(
            self.output_channel_count,
            OptionField::OutputChannelCount,
        ) {
            Ok(n) => n,
            Err(e) => {
                return Err(e);
            },
        };
        Ok(Topology { inputs, input_channels, outputs, output_channels })
    }
}

} // verus!
