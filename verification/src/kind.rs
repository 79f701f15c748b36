//! Per-signal classification: where a reading belongs among the documents of a run.

use vstd::prelude::*;

verus! {

/// How a signal contributes to documents.
#[derive(Copy, Clone, Debug, PartialEq, Eq, Hash, Structural)]
pub enum Kind {
    /// Readings appear in `Event.data`.
    Normal,
    /// Slow-changing: appears in `EventDescriptor.configuration`.
    Config,
    /// Like `Normal`, and listed among the hints.
    Hinted,
    /// Excluded from documents; can still be subscribed to.
    Omitted,
}

impl Default for Kind {
    fn default() -> (kind: Self)
        ensures
            kind == Kind::Normal,
    {
        Kind::Normal
    }
}

impl Kind {
    /// Whether a signal of this kind contributes a reading to the per-event data.
    pub fn in_event_data(self) -> (yes: bool)
        ensures
            yes == (self is Normal || self is Hinted),
    {
        matches!(self, Kind::Normal | Kind::Hinted)
    }

    /// Whether a signal of this kind contributes to the descriptor configuration.
    pub fn in_configuration(self) -> (yes: bool)
        ensures
            yes == (self is Config),
    {
        matches!(self, Kind::Config)
    }

    /// Whether a signal of this kind appears among the visualization hints.
    pub fn is_hinted(self) -> (yes: bool)
        ensures
            yes == (self is Hinted),
    {
        matches!(self, Kind::Hinted)
    }
}

/// A hinted signal is in the data of the events as a normal one is; a configuration signal is in
/// the configuration alone, and an omitted one in neither.
pub proof fn law_kinds_go_to_their_places(k: Kind, data: bool, config: bool, hint: bool)
    requires
        call_ensures(Kind::in_event_data, (k,), data),
        call_ensures(Kind::in_configuration, (k,), config),
        call_ensures(Kind::is_hinted, (k,), hint),
    ensures
        hint ==> data,
        !(data && config),
        k is Omitted <==> !data && !config,
        k is Config <==> config,
        k is Hinted <==> hint,
        k is Normal <==> data && !hint,
{
}

} // verus!
