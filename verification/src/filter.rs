//! The filter engine: translating acceptance rules into device-native
//! filters and defining the empty-set semantics.
//!
//! An empty rule list is normalized to one explicit accept-all filter
//! `(id = 0, mask = 0)` — never to "no filtering" or "accept nothing" —
//! because some transports read an empty filter set as rejecting every
//! frame.

use vstd::prelude::*;

verus! {

/// An acceptance rule as callers state it. The `extended` marker is
/// accepted in the public call but is not propagated into the device-level
/// filter (the device filter has only an identifier and a mask); this
/// mirrors the observed behavior of the layer and is deliberate.
#[derive(Debug, Clone, Copy, PartialEq, Eq, Structural)]
pub struct FilterRule {
    pub id: u32,
    pub mask: u32,
    pub extended: bool,
}

/// A filter in the device's native shape: a frame is accepted when its
/// identifier agrees with `id` on every bit set in `mask`.
#[derive(Debug, Clone, Copy, PartialEq, Eq, Structural)]
pub struct DeviceFilter {
    pub id: u32,
    pub mask: u32,
}

/// The explicit accept-all filter.
pub open spec fn accept_all_filter() -> DeviceFilter {
    DeviceFilter { id: 0, mask: 0 }
}

/// A device filter accepts an identifier when the identifier agrees with
/// the filter's id on every masked bit.
pub open spec fn filter_accepts(f: DeviceFilter, id: u32) -> bool {
    id & f.mask == f.id & f.mask
}

/// A filter list accepts an identifier when some filter in it does.
pub open spec fn filter_set_accepts(fs: Seq<DeviceFilter>, id: u32) -> bool {
    exists|i: int| 0 <= i < fs.len() && filter_accepts(fs[i], id)
}

/// What a rule list becomes at the device: an empty list turns into the
/// single accept-all filter, any other list is translated rule for rule,
/// dropping the non-propagated `extended` marker.
pub open spec fn normalize_spec(rules: Seq<FilterRule>) -> Seq<DeviceFilter> {
    if rules.len() == 0 {
        seq![accept_all_filter()]
    } else {
        rules.map(|i: int, r: FilterRule| DeviceFilter { id: r.id, mask: r.mask })
    }
}

/// Build the accept-all filter.
pub fn make_accept_all() -> (f: DeviceFilter)
    ensures
        f == accept_all_filter(),
{
    DeviceFilter { id: 0, mask: 0 }
}

/// Decide whether a device filter accepts an identifier.
pub fn check_filter_accepts(f: &DeviceFilter, id: u32) -> (r: bool)
    ensures
        r == filter_accepts(*f, id),
{
    id & f.mask == f.id & f.mask
}

/// Decide whether any filter in a list accepts an identifier.
pub fn check_filter_set_accepts(fs: &Vec<DeviceFilter>, id: u32) -> (r: bool)
    ensures
        r == filter_set_accepts(fs@, id),
{
    let mut i: usize = 0;
    while i < fs.len()
        invariant
            0 <= i <= fs@.len(),
            forall|j: int| 0 <= j < i ==> !filter_accepts(fs@[j], id),
        decreases fs@.len() - i,
    {
        if check_filter_accepts(&fs[i], id) {
            return true;
        }
        i = i + 1;
    }
    false
}

/// Translate a rule list into the device's shape, normalizing an empty
/// list to the explicit accept-all filter.
pub fn normalize_filters(rules: &Vec<FilterRule>) -> (out: Vec<DeviceFilter>)
    ensures
        out@ == normalize_spec(rules@),
{
    let mut out: Vec<DeviceFilter> = Vec::new();
    if rules.len() == 0 {
        out.push(make_accept_all());
        proof {
            assert(out@ =~= normalize_spec(rules@));
        }
        return out;
    }
    let mut i: usize = 0;
    while i < rules.len()
        invariant
            0 <= i <= rules@.len(),
            out@.len() == i,
            forall|j: int| 0 <= j < i ==> out@[j] == (DeviceFilter {
                id: rules@[j].id,
                mask: rules@[j].mask,
            }),
        decreases rules@.len() - i,
    {
        let r = rules[i];
        out.push(DeviceFilter { id: r.id, mask: r.mask });
        i = i + 1;
    }
    proof {
        assert(out@ =~= normalize_spec(rules@));
    }
    out
}

/// The accept-all filter accepts every identifier, so a normalized empty
/// rule list never rejects a frame.
pub proof fn lemma_accept_all_accepts_every_id(id: u32)
    ensures
        filter_accepts(accept_all_filter(), id),
        filter_set_accepts(normalize_spec(Seq::<FilterRule>::empty()), id),
{
    assert(id & 0u32 == 0u32 & 0u32) by (bit_vector);
    assert(filter_accepts(normalize_spec(Seq::<FilterRule>::empty())[0], id));
}

} // verus!
