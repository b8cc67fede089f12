//! The switch controller: the state machine that consumes device events,
//! updates the presence set through the matcher, and decides exactly when a
//! layout change must be applied.
//!
//! The controller never touches the USB subsystem or the layout-setting
//! utility itself: the surrounding program feeds it drained events and
//! enumeration snapshots as plain values and carries out the commands it
//! returns.

use vstd::prelude::*;
use crate::catalog::{Keyboard, KeyboardModel, catalog_matches, catalog_view};
use crate::device::{DeviceAction, DeviceEvent, EnumeratedDevice, EnumeratedDeviceModel, EventModel,
    PresenceKey, spec_event_key};
use crate::presence::PresenceSet;

verus! {

/// Settle delay after a connect notification, before the layout is applied:
/// absorbs noisy hardware announce sequences.
pub const SETTLE_DELAY_MS: u64 = 2000;

/// How long one wait for event readiness may block, so that the
/// reconciliation sweep runs even with no incoming events.
pub const POLL_INTERVAL_MS: u64 = 1000;

/// Back-off after a subscription or poll failure, before retrying.
pub const RETRY_BACKOFF_MS: u64 = 100;

/// One layout change the surrounding program must carry out: apply the layout
/// and variant after waiting `settle_ms` milliseconds.
pub struct LayoutCommand {
    pub layout: String,
    pub variant: String,
    pub settle_ms: u64,
}

/// Mathematical image of a `LayoutCommand`.
pub struct CommandModel {
    pub layout: Seq<char>,
    pub variant: Seq<char>,
    pub settle_ms: u64,
}

impl View for LayoutCommand {
    type V = CommandModel;

    open spec fn view(&self) -> CommandModel {
        CommandModel { layout: self.layout@, variant: self.variant@, settle_ms: self.settle_ms }
    }
}

/// The view of an optional layout command.
pub open spec fn cmd_view(c: Option<LayoutCommand>) -> Option<CommandModel> {
    match c {
        Some(c) => Some(c@),
        None => None,
    }
}

/// Mathematical image of the switch controller: the catalog, the configured
/// layouts, the presence set and the transition flag.
#[verifier::ext_equal]
pub struct SwitcherModel {
    pub catalog: Seq<KeyboardModel>,
    pub layout_connected: Seq<char>,
    pub variant_connected: Seq<char>,
    pub layout_disconnected: Seq<char>,
    pub variant_disconnected: Seq<char>,
    pub present: Set<(Seq<char>, Seq<char>)>,
    pub layout_changed: bool,
}

/// The event-driven keyboard layout switcher. Owns the configured catalog,
/// the presence set and the transition flag; created once at startup and
/// driven by the surrounding program's event loop.
pub struct KeyboardSwitcher {
    pub keyboards: Vec<Keyboard>,
    pub layout_connected: String,
    pub variant_connected: String,
    pub layout_disconnected: String,
    pub variant_disconnected: String,
    pub known_devices: PresenceSet,
    pub layout_changed: bool,
}

impl View for KeyboardSwitcher {
    type V = SwitcherModel;

    open spec fn view(&self) -> SwitcherModel {
        SwitcherModel {
            catalog: catalog_view(self.keyboards@),
            layout_connected: self.layout_connected@,
            variant_connected: self.variant_connected@,
            layout_disconnected: self.layout_disconnected@,
            variant_disconnected: self.variant_disconnected@,
            present: self.known_devices@,
            layout_changed: self.layout_changed,
        }
    }
}

/// The connect command a state issues: the configured connected layout,
/// applied after the settle delay.
pub open spec fn spec_connect_command(s: SwitcherModel) -> CommandModel {
    CommandModel { layout: s.layout_connected, variant: s.variant_connected, settle_ms: SETTLE_DELAY_MS }
}

/// The disconnect command a state issues: the configured disconnected
/// layout, applied at once.
pub open spec fn spec_disconnect_command(s: SwitcherModel) -> CommandModel {
    CommandModel {
        layout: s.layout_disconnected,
        variant: s.variant_disconnected,
        settle_ms: 0,
    }
}

/// What one device event does to the controller: a matching Add records the
/// key, sets the transition flag and — exactly when the key is new — issues
/// the connect command; a matching Remove drops the key without any command;
/// anything else changes nothing.
pub open spec fn spec_step(s: SwitcherModel, e: EventModel) -> (SwitcherModel, Option<
    CommandModel,
>) {
    if catalog_matches(s.catalog, e.vendor_id, e.model_id) {
        let k = spec_event_key(e);
        if e.action == DeviceAction::Add {
            let s1 = SwitcherModel { present: s.present.insert(k), layout_changed: true, ..s };
            if s.present.contains(k) {
                (s1, None)
            } else {
                (s1, Some(spec_connect_command(s)))
            }
        } else if e.action == DeviceAction::Remove {
            (SwitcherModel { present: s.present.remove(k), ..s }, None)
        } else {
            (s, None)
        }
    } else {
        (s, None)
    }
}

/// What the reconciliation sweep does: when a connect-triggered switch is
/// outstanding and the full enumeration found no configured keyboard, the
/// presence set is emptied, the flag resets and the disconnect command is
/// issued; otherwise nothing changes.
pub open spec fn spec_sweep(s: SwitcherModel, any_present: bool) -> (SwitcherModel, Option<
    CommandModel,
>) {
    if s.layout_changed && !any_present {
        (
            SwitcherModel {
                present: Set::<(Seq<char>, Seq<char>)>::empty(),
                layout_changed: false,
                ..s
            },
            Some(spec_disconnect_command(s)),
        )
    } else {
        (s, None)
    }
}

impl KeyboardSwitcher {
    /// Internal shape: the presence set holds no duplicate key.
    pub open spec fn wf(&self) -> bool {
        self.known_devices.wf()
    }

    /// A switcher with the given layouts, an empty catalog, an empty presence
    /// set and the transition flag cleared.
    pub fn new(
        layout_connected: &str,
        variant_connected: &str,
        layout_disconnected: &str,
        variant_disconnected: &str,
    ) -> (s: Self)
        ensures
            s.wf(),
            s@ == (SwitcherModel {
                catalog: Seq::<KeyboardModel>::empty(),
                layout_connected: layout_connected@,
                variant_connected: variant_connected@,
                layout_disconnected: layout_disconnected@,
                variant_disconnected: variant_disconnected@,
                present: Set::<(Seq<char>, Seq<char>)>::empty(),
                layout_changed: false,
            }),
    {
        let s = KeyboardSwitcher {
            keyboards: Vec::new(),
            layout_connected: layout_connected.to_owned(),
            variant_connected: variant_connected.to_owned(),
            layout_disconnected: layout_disconnected.to_owned(),
            variant_disconnected: variant_disconnected.to_owned(),
            known_devices: PresenceSet::new(),
            layout_changed: false,
        };
        proof {
            assert(catalog_view(s.keyboards@) =~= Seq::<KeyboardModel>::empty());
            assert(s@ =~= (SwitcherModel {
                catalog: Seq::<KeyboardModel>::empty(),
                layout_connected: layout_connected@,
                variant_connected: variant_connected@,
                layout_disconnected: layout_disconnected@,
                variant_disconnected: variant_disconnected@,
                present: Set::<(Seq<char>, Seq<char>)>::empty(),
                layout_changed: false,
            }));
        }
        s
    }

    /// Appends one keyboard to the configured catalog; nothing else moves.
    pub fn add_keyboard(&mut self, name: &str, vendor_id: &str, model_id: &str)
        requires
            old(self).wf(),
        ensures
            final(self).wf(),
            final(self)@ == (SwitcherModel {
                catalog: old(self)@.catalog.push(
                    KeyboardModel { name: name@, vendor_id: vendor_id@, model_id: model_id@ },
                ),
                ..old(self)@
            }),
    {
        let keyboard = Keyboard {
            name: name.to_owned(),
            vendor_id: vendor_id.to_owned(),
            model_id: model_id.to_owned(),
        };
        self.keyboards.push(keyboard);
        proof {
            assert(catalog_view(self.keyboards@) =~= catalog_view(old(self).keyboards@).push(
                KeyboardModel { name: name@, vendor_id: vendor_id@, model_id: model_id@ },
            ));
            assert(self@ =~= (SwitcherModel {
                catalog: old(self)@.catalog.push(
                    KeyboardModel { name: name@, vendor_id: vendor_id@, model_id: model_id@ },
                ),
                ..old(self)@
            }));
        }
    }

    /// Consumes one drained device event: updates the presence set and the
    /// transition flag as `spec_step` says, and returns the layout command
    /// the surrounding program must carry out, if any.
    pub fn check_device(&mut self, event: &DeviceEvent) -> (cmd: Option<LayoutCommand>)
        requires
            old(self).wf(),
        ensures
            final(self).wf(),
            final(self)@ == spec_step(old(self)@, event@).0,
            cmd_view(cmd) == spec_step(old(self)@, event@).1,
    {
        if crate::catalog::matches(&self.keyboards, &event.vendor_id, &event.model_id) {
            let key = event.presence_key().unwrap();
            match event.action {
                DeviceAction::Add => {
                    let was_present = self.known_devices.contains(&key);
                    self.known_devices.mark_present(key);
                    self.layout_changed = true;
                    proof {
                        assert(self@ =~= spec_step(old(self)@, event@).0);
                    }
                    if was_present {
                        None
                    } else {
                        Some(LayoutCommand {
                            layout: self.layout_connected.clone(),
                            variant: self.variant_connected.clone(),
                            settle_ms: SETTLE_DELAY_MS,
                        })
                    }
                },
                DeviceAction::Remove => {
                    self.known_devices.remove(&key);
                    proof {
                        assert(self@ =~= spec_step(old(self)@, event@).0);
                    }
                    None
                },
                DeviceAction::Other => None,
            }
        } else {
            None
        }
    }

    /// Whether the observed enumeration snapshot holds any configured
    /// keyboard.
    pub fn is_any_keyboard_connected(&self, observed: &Vec<EnumeratedDevice>) -> (r: bool)
        ensures
            r == spec_any_known(self@.catalog, observed@.map_values(|d: EnumeratedDevice| d@)),
    {
        let mut i: usize = 0;
        while i < observed.len()
            invariant
                0 <= i <= observed@.len(),
                forall|j: int|
                    0 <= j < i ==> !catalog_matches(
                        catalog_view(self.keyboards@),
                        (#[trigger] observed@[j])@.vendor_id,
                        observed@[j]@.model_id,
                    ),
            decreases observed@.len() - i,
        {
            let d = &observed[i];
            if crate::catalog::matches(&self.keyboards, &d.vendor_id, &d.model_id) {
                proof {
                    assert(observed@.map_values(|d: EnumeratedDevice| d@)[i as int] == d@);
                }
                return true;
            }
            i = i + 1;
        }
        proof {
            let mapped = observed@.map_values(|d: EnumeratedDevice| d@);
            assert forall|j: int| 0 <= j < mapped.len() implies !catalog_matches(
                catalog_view(self.keyboards@),
                mapped[j].vendor_id,
                mapped[j].model_id,
            ) by {
                assert(mapped[j] == observed@[j]@);
            }
        }
        false
    }

    /// Runs one reconciliation sweep over an enumeration snapshot: when a
    /// connect-triggered switch is outstanding and the snapshot holds no
    /// configured keyboard, the presence set is emptied, the flag resets and
    /// the disconnect command is returned, exactly as `spec_sweep` says.
    pub fn reconcile_sweep(&mut self, observed: &Vec<EnumeratedDevice>) -> (cmd: Option<LayoutCommand>)
        requires
            old(self).wf(),
        ensures
            final(self).wf(),
            final(self)@ == spec_sweep(
                old(self)@,
                spec_any_known(old(self)@.catalog, observed@.map_values(|d: EnumeratedDevice| d@)),
            ).0,
            cmd_view(cmd) == spec_sweep(
                old(self)@,
                spec_any_known(old(self)@.catalog, observed@.map_values(|d: EnumeratedDevice| d@)),
            ).1,
    {
        if self.layout_changed && !self.is_any_keyboard_connected(observed) {
            let none_observed: Vec<PresenceKey> = Vec::new();
            self.known_devices.reconcile(&none_observed);
            self.layout_changed = false;
            proof {
                assert(crate::presence::keys_view(none_observed@) =~= Seq::<(
                    Seq<char>,
                    Seq<char>,
                )>::empty());
                assert(self.known_devices@ =~= Set::<(Seq<char>, Seq<char>)>::empty());
                assert(self@ =~= spec_sweep(
                    old(self)@,
                    spec_any_known(old(self)@.catalog, observed@.map_values(|d: EnumeratedDevice| d@)),
                ).0);
            }
            Some(LayoutCommand {
                layout: self.layout_disconnected.clone(),
                variant: self.variant_disconnected.clone(),
                settle_ms: 0,
            })
        } else {
            None
        }
    }
}

/// Whether any observed device matches some configured keyboard.
pub open spec fn spec_any_known(catalog: Seq<KeyboardModel>, observed: Seq<EnumeratedDeviceModel>) -> bool {
    exists|i: int|
        0 <= i < observed.len() && catalog_matches(catalog, observed[i].vendor_id, observed[i].model_id)
}

} // verus!
