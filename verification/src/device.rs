//! The roles that a device can play towards the engine.

use vstd::prelude::*;
use vstd::string::*;

use crate::documents::DataKey;
use crate::error::CirrusError;
use crate::msg::ConfigureArgs;
use crate::reading::ReadingValue;
use crate::status::{Status, SubToken};
use crate::strmap::StrMap;
use crate::value::{Double, Json};

verus! {

/// Where a device was last sent, and where it is.
#[derive(Copy, Clone, Debug, PartialEq, Eq, Structural)]
pub struct DynLocation {
    /// Where the device was last requested to move.
    pub setpoint: Double,
    /// Where the device currently is.
    pub readback: Double,
}

/// One row of collected data: stream, values and timestamps.
#[derive(Debug)]
pub struct CollectedRow {
    /// Stream name.
    pub stream: String,
    /// Field values.
    pub data: StrMap<Json>,
    /// Field timestamps.
    pub timestamps: StrMap<Double>,
}

/// Anything with a name.
pub trait NamedObj: Sized {
    /// The name.
    spec fn named(&self) -> Seq<char>;

    /// Stable identifier for logs and error messages.
    fn name(&self) -> (n: &str)
        ensures
            n@ == self.named(),
    ;
}

/// Anything that can be read. `now` is the time of the call.
pub trait ReadableObj: NamedObj {
    /// Reads all signals.
    fn read_dyn(&self, now: Double) -> (r: Result<StrMap<ReadingValue>, CirrusError>);

    /// Describes each field.
    fn describe_dyn(&self) -> (r: Result<StrMap<DataKey>, CirrusError>);

    /// The fields that are worth showing, if the device names any.
    fn hint_fields(&self) -> (fields: Option<Vec<String>>)
        default_ensures
            fields is None,
    {
        None
    }
}

/// Anything that can be moved.
pub trait MovableObj: NamedObj {
    /// Moves to a value. The second part names the callbacks to call with the new value.
    fn set_dyn(&mut self, value: Double) -> (r: (Status, Vec<u64>));

    /// Called on pause for every object that the run has set.
    fn stop_on_pause(&mut self, success: bool) -> (r: Result<(), CirrusError>)
        default_ensures
            r is Ok,
            *final(self) == *old(self),
    {
        Ok(())
    }
}

/// Anything with a notion of where it is and where it is going.
pub trait LocatableObj: MovableObj {
    /// Reads setpoint and readback together.
    fn locate_dyn(&self) -> (r: Result<DynLocation, CirrusError>);
}

/// Anything that can be safely stopped.
pub trait StoppableObj: NamedObj {
    /// Stops the device. `success` tells a planned stop from an emergency.
    fn stop_dyn(&mut self, success: bool) -> (r: Result<(), CirrusError>);
}

/// Anything that can be triggered.
pub trait TriggerableObj: NamedObj {
    /// Triggers the device.
    fn trigger_dyn(&mut self) -> (s: Status);
}

/// Anything that can be staged and unstaged.
pub trait StageableObj: NamedObj {
    /// Stages the device.
    fn stage_dyn(&mut self) -> (r: Result<(), CirrusError>);

    /// Unstages the device.
    fn unstage_dyn(&mut self) -> (r: Result<(), CirrusError>);
}

/// Anything that can be flown.
pub trait FlyableObj: NamedObj {
    /// Begins acquisition.
    fn kickoff_dyn(&mut self) -> (s: Status);

    /// Waits for completion.
    fn complete_dyn(&mut self) -> (s: Status);

    /// Called on pause for every object that the run has kicked off.
    fn stop_on_pause(&mut self, success: bool) -> (r: Result<(), CirrusError>)
        default_ensures
            r is Ok,
            *final(self) == *old(self),
    {
        Ok(())
    }
}

/// Anything that can be prepared for a scan.
pub trait PreparableObj: NamedObj {
    /// Prepares the device.
    fn prepare_dyn(&mut self, value: Json) -> (s: Status);
}

/// Devices that want to be told of pause and resume.
pub trait PausableObj: NamedObj {
    /// Called after the engine enters the pause gate.
    fn pause_dyn(&mut self) -> (r: Result<(), CirrusError>);

    /// Called just before the engine resumes the message loop.
    fn resume_dyn(&mut self) -> (r: Result<(), CirrusError>);
}

/// Anything that can be collected.
pub trait CollectableObj: NamedObj {
    /// Describes the streams that the object collects into.
    fn describe_collect_dyn(&self) -> (r: Result<StrMap<StrMap<DataKey>>, CirrusError>);

    /// Hands out the rows collected so far.
    fn collect_dyn(&mut self) -> (r: Result<Vec<CollectedRow>, CirrusError>);
}

/// Anything that can be subscribed to.
pub trait MonitorableObj: ReadableObj {
    /// Subscribes the callback of the given handle.
    fn subscribe_dyn(&mut self, callback: u64) -> (r: Result<SubToken, CirrusError>);
}

/// Anything that can be configured.
pub trait ConfigurableObj: NamedObj {
    /// Reads the current configuration.
    fn read_configuration_dyn(&self, now: Double) -> (r: Result<StrMap<ReadingValue>, CirrusError>);

    /// Describes the configuration fields.
    fn describe_configuration_dyn(&self) -> (r: Result<StrMap<DataKey>, CirrusError>);

    /// Applies a configuration change.
    fn configure_dyn(&mut self, args: ConfigureArgs) -> (r: Result<(), CirrusError>);
}

} // verus!
