//! Observed USB subsystem notifications as plain values: the event action,
//! the optional identifier strings a device carries, and the presence key
//! derived from them.

use vstd::prelude::*;

verus! {

/// The normalized action of a device notification. Action strings other than
/// the recognized add/remove ones map to `Other`.
#[derive(Clone, Copy, PartialEq, Eq, Structural, Debug)]
pub enum DeviceAction {
    Add,
    Remove,
    Other,
}

/// One observed USB subsystem notification; consumed immediately.
pub struct DeviceEvent {
    pub vendor_id: Option<String>,
    pub model_id: Option<String>,
    pub action: DeviceAction,
}

/// Mathematical image of a `DeviceEvent`.
pub struct EventModel {
    pub vendor_id: Option<Seq<char>>,
    pub model_id: Option<Seq<char>>,
    pub action: DeviceAction,
}

impl View for DeviceEvent {
    type V = EventModel;

    open spec fn view(&self) -> EventModel {
        EventModel {
            vendor_id: crate::catalog::opt_id_view(self.vendor_id),
            model_id: crate::catalog::opt_id_view(self.model_id),
            action: self.action,
        }
    }
}

/// What an action string normalizes to: `"add"` to `Add`, `"remove"` to
/// `Remove`, anything else to `Other`.
pub open spec fn spec_parse_action(s: Seq<char>) -> DeviceAction {
    if s == "add"@ {
        DeviceAction::Add
    } else if s == "remove"@ {
        DeviceAction::Remove
    } else {
        DeviceAction::Other
    }
}

/// Normalizes a notification's action string to a `DeviceAction`.
pub fn parse_action(s: &str) -> (a: DeviceAction)
    ensures
        a == spec_parse_action(s@),
{
    let owned = s.to_owned();
    if owned == String::from_str("add") {
        DeviceAction::Add
    } else if owned == String::from_str("remove") {
        DeviceAction::Remove
    } else {
        DeviceAction::Other
    }
}

/// The identity a presence record is keyed by: a vendor/model identifier
/// pair. Two events with equal vendor and model ids yield the same key,
/// whatever their actions.
pub struct PresenceKey {
    pub vendor_id: String,
    pub model_id: String,
}

impl View for PresenceKey {
    type V = (Seq<char>, Seq<char>);

    open spec fn view(&self) -> (Seq<char>, Seq<char>) {
        (self.vendor_id@, self.model_id@)
    }
}

/// One device of a full enumeration snapshot: the identifier strings it
/// carries, independent of any event history.
pub struct EnumeratedDevice {
    pub vendor_id: Option<String>,
    pub model_id: Option<String>,
}

/// Mathematical image of an `EnumeratedDevice`.
pub struct EnumeratedDeviceModel {
    pub vendor_id: Option<Seq<char>>,
    pub model_id: Option<Seq<char>>,
}

impl View for EnumeratedDevice {
    type V = EnumeratedDeviceModel;

    open spec fn view(&self) -> EnumeratedDeviceModel {
        EnumeratedDeviceModel {
            vendor_id: crate::catalog::opt_id_view(self.vendor_id),
            model_id: crate::catalog::opt_id_view(self.model_id),
        }
    }
}

impl PresenceKey {
    /// A fresh key with the same identifiers.
    pub fn duplicate(&self) -> (k: PresenceKey)
        ensures
            k@ == self@,
    {
        PresenceKey { vendor_id: self.vendor_id.clone(), model_id: self.model_id.clone() }
    }
}

/// The presence key an event maps to, defined whenever both identifiers are
/// present.
pub open spec fn spec_event_key(e: EventModel) -> (Seq<char>, Seq<char>)
    recommends
        e.vendor_id is Some,
        e.model_id is Some,
{
    (e.vendor_id->0, e.model_id->0)
}

impl DeviceEvent {
    /// The presence key derived from this event: `Some` exactly when both
    /// identifiers are present.
    pub fn presence_key(&self) -> (k: Option<PresenceKey>)
        ensures
            k is Some <==> (self@.vendor_id is Some && self@.model_id is Some),
            k is Some ==> k->0@ == spec_event_key(self@),
    {
        match self.vendor_id.as_ref() {
            None => None,
            Some(v) => match self.model_id.as_ref() {
                None => None,
                Some(m) => Some(PresenceKey { vendor_id: v.clone(), model_id: m.clone() }),
            },
        }
    }
}

} // verus!
