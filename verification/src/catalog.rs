//! The configured keyboard catalog and the device matcher: a pure predicate
//! deciding whether a device's vendor/model identifiers name a configured
//! keyboard.

use vstd::prelude::*;

verus! {

/// One trackable keyboard model, identified by its vendor and model id.
/// Immutable once it enters the catalog.
pub struct Keyboard {
    pub name: String,
    pub vendor_id: String,
    pub model_id: String,
}

/// Mathematical image of a `Keyboard`: its three strings as char sequences.
pub struct KeyboardModel {
    pub name: Seq<char>,
    pub vendor_id: Seq<char>,
    pub model_id: Seq<char>,
}

impl View for Keyboard {
    type V = KeyboardModel;

    open spec fn view(&self) -> KeyboardModel {
        KeyboardModel { name: self.name@, vendor_id: self.vendor_id@, model_id: self.model_id@ }
    }
}

/// The view of an optional identifier string.
pub open spec fn opt_id_view(o: Option<String>) -> Option<Seq<char>> {
    match o {
        Some(s) => Some(s@),
        None => None,
    }
}

/// What the matcher decides: some catalog entry has both identifiers equal
/// (exact, case-sensitive) to the given ones; a missing identifier never
/// matches, whatever the catalog holds.
pub open spec fn catalog_matches(
    catalog: Seq<KeyboardModel>,
    vendor_id: Option<Seq<char>>,
    model_id: Option<Seq<char>>,
) -> bool {
    match (vendor_id, model_id) {
        (Some(v), Some(m)) => exists|i: int|
            0 <= i < catalog.len() && catalog[i].vendor_id == v && catalog[i].model_id == m,
        _ => false,
    }
}

/// The catalog as a sequence of keyboard models.
pub open spec fn catalog_view(catalog: Seq<Keyboard>) -> Seq<KeyboardModel> {
    catalog.map_values(|k: Keyboard| k@)
}

/// Returns true iff some catalog entry has vendor and model id both equal to
/// the given identifiers; inputs with a missing identifier never match.
pub fn matches(catalog: &Vec<Keyboard>, vendor_id: &Option<String>, model_id: &Option<String>) -> (r:
    bool)
    ensures
        r == catalog_matches(catalog_view(catalog@), opt_id_view(*vendor_id), opt_id_view(*model_id)),
{
    match vendor_id.as_ref() {
        None => false,
        Some(v) => match model_id.as_ref() {
            None => false,
            Some(m) => {
                let mut i: usize = 0;
                while i < catalog.len()
                    invariant
                        0 <= i <= catalog@.len(),
                        opt_id_view(*vendor_id) == Some(v@),
                        opt_id_view(*model_id) == Some(m@),
                        forall|j: int|
                            0 <= j < i ==> !(catalog_view(catalog@)[j].vendor_id == v@
                                && catalog_view(catalog@)[j].model_id == m@),
                    decreases catalog@.len() - i,
                {
                    let entry = &catalog[i];
                    if entry.vendor_id == *v && entry.model_id == *m {
                        proof {
                            assert(catalog_view(catalog@)[i as int].vendor_id == v@);
                            assert(catalog_view(catalog@)[i as int].model_id == m@);
                        }
                        return true;
                    }
                    i = i + 1;
                }
                false
            },
        },
    }
}

/// A missing identifier never matches, whatever the catalog holds.
pub proof fn lemma_absent_id_never_matches(
    catalog: Seq<KeyboardModel>,
    vendor_id: Option<Seq<char>>,
    model_id: Option<Seq<char>>,
)
    requires
        vendor_id is None || model_id is None,
    ensures
        !catalog_matches(catalog, vendor_id, model_id),
{
}

} // verus!
