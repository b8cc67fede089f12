//! General facts the state machine obeys, proved over the same models the
//! executable functions' contracts speak of.

use vstd::prelude::*;
use vstd::set_lib::lemma_len_subset;
use crate::catalog::{KeyboardModel, catalog_matches};
use crate::device::{DeviceAction, EventModel, spec_event_key};
use crate::controller::{
    CommandModel,
    SwitcherModel,
    spec_connect_command,
    spec_disconnect_command,
    spec_step,
    spec_sweep,
};

verus! {

/// The controller state after consuming a sequence of device events.
pub open spec fn spec_run(s: SwitcherModel, events: Seq<EventModel>) -> SwitcherModel
    decreases events.len(),
{
    if events.len() == 0 {
        s
    } else {
        spec_run(spec_step(s, events[0]).0, events.drop_first())
    }
}

/// The layout commands consuming a sequence of device events issues, in
/// order.
pub open spec fn spec_commands(s: SwitcherModel, events: Seq<EventModel>) -> Seq<CommandModel>
    decreases events.len(),
{
    if events.len() == 0 {
        Seq::<CommandModel>::empty()
    } else {
        let rest = spec_commands(spec_step(s, events[0]).0, events.drop_first());
        match spec_step(s, events[0]).1 {
            Some(cmd) => seq![cmd] + rest,
            None => rest,
        }
    }
}

/// An event the given catalog recognizes as the connection of a configured
/// keyboard.
pub open spec fn is_matching_add(catalog: Seq<KeyboardModel>, e: EventModel) -> bool {
    e.action == DeviceAction::Add && catalog_matches(catalog, e.vendor_id, e.model_id)
}

/// Marking a key present twice in a row leaves the presence set exactly as
/// marking it once does, and so does removing a key twice: over the set model
/// that `PresenceSet::mark_present` and `PresenceSet::remove` update,
/// inserting or removing a key is idempotent.
pub proof fn lemma_presence_idempotent(s: Set<(Seq<char>, Seq<char>)>, k: (Seq<char>, Seq<char>))
    ensures
        s.insert(k).insert(k) == s.insert(k),
        s.remove(k).remove(k) == s.remove(k),
{
    assert(s.insert(k).insert(k) =~= s.insert(k));
    assert(s.remove(k).remove(k) =~= s.remove(k));
}

/// A device event whose identifiers match no catalog entry changes no state
/// and issues no command.
pub proof fn lemma_unknown_device_noop(s: SwitcherModel, e: EventModel)
    requires
        !catalog_matches(s.catalog, e.vendor_id, e.model_id),
    ensures
        spec_step(s, e) == (s, None::<CommandModel>),
{
}

/// An Add event for a key still recorded as present issues no command and
/// leaves the presence set as it was.
pub proof fn lemma_readd_no_command(s: SwitcherModel, e: EventModel)
    requires
        is_matching_add(s.catalog, e),
        s.present.contains(spec_event_key(e)),
    ensures
        spec_step(s, e).1 is None,
        spec_step(s, e).0.present == s.present,
{
    assert(s.present.insert(spec_event_key(e)) =~= s.present);
}

/// With a connect-triggered switch outstanding, a sweep whose enumeration
/// found no configured keyboard issues exactly one disconnect command,
/// empties the presence set and clears the flag; a second such sweep issues
/// nothing and moves nothing.
pub proof fn lemma_disconnect_safety_net(s: SwitcherModel)
    requires
        s.layout_changed,
    ensures
        spec_sweep(s, false).1 == Some(spec_disconnect_command(s)),
        !spec_sweep(s, false).0.layout_changed,
        spec_sweep(s, false).0.present.is_empty(),
        spec_sweep(spec_sweep(s, false).0, false).1 is None,
        spec_sweep(spec_sweep(s, false).0, false).0 == spec_sweep(s, false).0,
{
}

/// Over a run of events that each connect a configured keyboard, the
/// transition flag is set from the first event on, the catalog and the
/// configured layouts never move, and every command issued is the connect
/// command — issued exactly once per key newly added: as many commands as the
/// presence set grew by.
pub proof fn lemma_add_run(s: SwitcherModel, events: Seq<EventModel>)
    requires
        s.present.finite(),
        forall|i: int| 0 <= i < events.len() ==> is_matching_add(s.catalog, #[trigger] events[i]),
    ensures
        spec_run(s, events).present.finite(),
        s.present.subset_of(spec_run(s, events).present),
        spec_commands(s, events).len() + s.present.len() == spec_run(s, events).present.len(),
        forall|i: int|
            0 <= i < spec_commands(s, events).len() ==> #[trigger] spec_commands(s, events)[i]
                == spec_connect_command(s),
        spec_run(s, events).layout_changed == (s.layout_changed || events.len() > 0),
        spec_run(s, events) == (SwitcherModel {
            present: spec_run(s, events).present,
            layout_changed: spec_run(s, events).layout_changed,
            ..s
        }),
    decreases events.len(),
{
    if events.len() > 0 {
        let e = events[0];
        let s1 = spec_step(s, e).0;
        let k = spec_event_key(e);
        assert(s1.present == s.present.insert(k));
        if s.present.contains(k) {
            assert(s.present.insert(k) =~= s.present);
        }
        assert(forall|i: int|
            0 <= i < events.drop_first().len() ==> is_matching_add(
                s1.catalog,
                #[trigger] events.drop_first()[i],
            ));
        lemma_add_run(s1, events.drop_first());
        lemma_len_subset(s1.present, spec_run(s1, events.drop_first()).present);
        assert(spec_connect_command(s1) == spec_connect_command(s));
        let rest = spec_commands(s1, events.drop_first());
        match spec_step(s, e).1 {
            Some(cmd) => {
                assert(cmd == spec_connect_command(s));
                assert forall|i: int| 0 <= i < spec_commands(s, events).len() implies #[trigger] spec_commands(
                    s,
                    events,
                )[i] == spec_connect_command(s) by {
                    if i > 0 {
                        assert(spec_commands(s, events)[i] == rest[i - 1]);
                    }
                }
            },
            None => {},
        }
    }
}

/// From the startup state — empty presence set, flag cleared — any run of
/// Add events for configured keyboards sets the transition flag with the
/// first event and issues the connect command exactly once per distinct key
/// added, and nothing else.
pub proof fn lemma_transition_monotonicity(s: SwitcherModel, events: Seq<EventModel>)
    requires
        s.present == Set::<(Seq<char>, Seq<char>)>::empty(),
        !s.layout_changed,
        forall|i: int| 0 <= i < events.len() ==> is_matching_add(s.catalog, #[trigger] events[i]),
    ensures
        spec_run(s, events).layout_changed == (events.len() > 0),
        spec_commands(s, events).len() == spec_run(s, events).present.len(),
        forall|i: int|
            0 <= i < spec_commands(s, events).len() ==> #[trigger] spec_commands(s, events)[i]
                == spec_connect_command(s),
{
    lemma_add_run(s, events);
}

} // verus!
