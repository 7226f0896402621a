//! Receive filters: which frame ids a socket lets through.
use vstd::prelude::*;

verus! {

/// The mask that makes a filter compare all eleven bits of a standard id.
pub const STANDARD_ID_MASK: u32 = 0x7FF;

/// A receive filter: a frame passes when its id and `id` agree on the bits set in `mask`.
#[derive(Debug, Clone, Copy, PartialEq, Eq, Structural)]
pub struct IdFilter {
    pub id: u32,
    pub mask: u32,
}

/// A frame with id `can_id` passes filter `f`: `can_id & mask == id & mask`.
pub open spec fn filter_accepts(f: IdFilter, can_id: u32) -> bool {
    can_id & f.mask == f.id & f.mask
}

/// Some filter of the list `fs` lets a frame with id `can_id` through; an empty list lets
/// none through.
pub open spec fn list_accepts(fs: Seq<IdFilter>, can_id: u32) -> bool {
    exists|i: int| 0 <= i < fs.len() && filter_accepts(#[trigger] fs[i], can_id)
}

/// A socket lets a frame with id `can_id` through under the filter setting `setting`: when
/// no filters were set (`None`) every frame passes; when a list was set, the frame passes
/// exactly when some filter of the list accepts it, so a set empty list passes no frame.
pub open spec fn filters_accept(setting: Option<Seq<IdFilter>>, can_id: u32) -> bool {
    match setting {
        None => true,
        Some(fs) => list_accepts(fs, can_id),
    }
}

/// The filter that lets a standard id through.
pub open spec fn standard_id_filter(id: u32) -> IdFilter {
    IdFilter { id, mask: STANDARD_ID_MASK }
}

/// One standard-id filter for each allowed id, in order.
pub open spec fn id_list_filters(allowed: Seq<u32>) -> Seq<IdFilter> {
    allowed.map_values(|id: u32| standard_id_filter(id))
}

/// One filter for each allowed id, each comparing the eleven bits of a standard id.
pub fn filters_for_ids(allowed: &Vec<u32>) -> (filters: Vec<IdFilter>)
    ensures
        filters@ == id_list_filters(allowed@),
{
    let mut filters: Vec<IdFilter> = Vec::new();
    let mut i: usize = 0;
    while i < allowed.len()
        invariant
            i <= allowed@.len(),
            filters@ == id_list_filters(allowed@.take(i as int)),
        decreases allowed@.len() - i,
    {
        filters.push(IdFilter { id: allowed[i], mask: STANDARD_ID_MASK });
        assert(id_list_filters(allowed@.take(i + 1)) =~= id_list_filters(allowed@.take(i as int)).push(
            standard_id_filter(allowed@[i as int]),
        ));
        i = i + 1;
    }
    assert(allowed@.take(i as int) =~= allowed@);
    filters
}

/// A bus on which no filters were set lets every frame through.
pub proof fn lemma_no_setting_accepts_all(can_id: u32)
    ensures
        filters_accept(None, can_id),
{
}

/// A set empty list of filters lets no frame through.
pub proof fn lemma_empty_list_accepts_none(can_id: u32)
    ensures
        !filters_accept(Some(Seq::<IdFilter>::empty()), can_id),
{
}

/// A filter lets through the id that it was made with, whatever its mask.
pub proof fn lemma_filter_accepts_own_id(f: IdFilter)
    ensures
        filter_accepts(f, f.id),
{
}

/// Filters made from a list of ids let every id of the list through.
pub proof fn lemma_id_list_admits_allowed(allowed: Seq<u32>, can_id: u32)
    requires
        allowed.contains(can_id),
    ensures
        filters_accept(Some(id_list_filters(allowed)), can_id),
{
    let i = choose|i: int| 0 <= i < allowed.len() && allowed[i] == can_id;
    let fs = id_list_filters(allowed);
    assert(filter_accepts(fs[i], can_id));
}

/// For standard ids, filters set from a list of standard ids let a frame through exactly
/// when its id is on the list; an empty list lets no frame through.
pub proof fn lemma_id_list_exact(allowed: Seq<u32>, can_id: u32)
    requires
        can_id <= STANDARD_ID_MASK,
        forall|i: int| 0 <= i < allowed.len() ==> #[trigger] allowed[i] <= STANDARD_ID_MASK,
    ensures
        filters_accept(Some(id_list_filters(allowed)), can_id) <==> allowed.contains(can_id),
{
    let fs = id_list_filters(allowed);
    if allowed.contains(can_id) {
        lemma_id_list_admits_allowed(allowed, can_id);
    }
    if filters_accept(Some(fs), can_id) {
        let i = choose|i: int| 0 <= i < fs.len() && filter_accepts(#[trigger] fs[i], can_id);
        let a = allowed[i];
        assert(a <= 0x7FF);
        assert(can_id & 0x7FF == a & 0x7FF);
        assert(can_id <= 0x7FF && a <= 0x7FF && can_id & 0x7FF == a & 0x7FF ==> can_id == a) by (bit_vector);
        assert(allowed[i] == can_id);
    }
}

/// A single filter made from an id and a mask lets a frame through exactly when the
/// frame's id agrees with that id on the bits of the mask.
pub proof fn lemma_mask_filter_exact(allowed: u32, allowed_mask: u32, can_id: u32)
    ensures
        filters_accept(Some(seq![IdFilter { id: allowed, mask: allowed_mask }]), can_id)
            <==> can_id & allowed_mask == allowed & allowed_mask,
{
    let fs = seq![IdFilter { id: allowed, mask: allowed_mask }];
    if can_id & allowed_mask == allowed & allowed_mask {
        assert(filter_accepts(fs[0], can_id));
    }
}

} // verus!
