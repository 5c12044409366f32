use vstd::prelude::*;

verus! {

/// What the material lookup knows of one part near the neutron: whether the
/// neutron lies inside the part and the part's order. Where parts overlap, the
/// one of highest order holds the point.
#[derive(Clone, Copy, Debug, PartialEq, Eq, Structural)]
pub struct PartCandidate {
    pub is_inside: bool,
    pub order: i32,
}

/// Whether candidate `c` can hold the point at all: the neutron is inside it
/// and its order is above the lowest `i32`, from which the search starts.
pub open spec fn can_hold(c: PartCandidate) -> bool {
    c.is_inside && c.order > i32::MIN
}

/// `k` is the first candidate of highest order among those that contain the
/// neutron.
pub open spec fn is_first_highest(candidates: Seq<PartCandidate>, k: int) -> bool {
    &&& 0 <= k < candidates.len()
    &&& can_hold(candidates[k])
    &&& forall|j: int|
        0 <= j < k && (#[trigger] candidates[j]).is_inside ==> candidates[j].order
            < candidates[k].order
    &&& forall|j: int|
        k < j < candidates.len() && (#[trigger] candidates[j]).is_inside ==> candidates[j].order
            <= candidates[k].order
}

/// Selects, among the parts near the neutron, the part that holds its
/// position: of the parts that contain the neutron, the one of highest order,
/// the first one where several share it. `None` where no part contains the
/// neutron (a part of order `i32::MIN` never wins).
pub fn select_highest_order_part(candidates: &Vec<PartCandidate>) -> (r: Option<usize>)
    ensures
        r is None <==> forall|i: int| 0 <= i < candidates.len() ==> !can_hold(#[trigger] candidates@[i]),
        r matches Some(k) ==> is_first_highest(candidates@, k as int),
{
    let mut maximum_order: i32 = i32::MIN;
    let mut best: Option<usize> = None;
    let mut i: usize = 0;
    while i < candidates.len()
        invariant
            i <= candidates.len(),
            best is None ==> maximum_order == i32::MIN && forall|j: int|
                0 <= j < i ==> !can_hold(#[trigger] candidates@[j]),
            best matches Some(k) ==> {
                &&& k < i
                &&& maximum_order == candidates@[k as int].order
                &&& can_hold(candidates@[k as int])
                &&& forall|j: int|
                    0 <= j < k && (#[trigger] candidates@[j]).is_inside ==> candidates@[j].order
                        < maximum_order
                &&& forall|j: int|
                    k < j < i && (#[trigger] candidates@[j]).is_inside ==> candidates@[j].order
                        <= maximum_order
            },
        decreases candidates.len() - i,
    {
        let c = candidates[i];
        if c.order > maximum_order && c.is_inside {
            maximum_order = c.order;
            best = Some(i);
        }
        i = i + 1;
    }
    best
}

/// The indices `i < n` with `flags[i]` set, in increasing order.
pub open spec fn flagged_indices(flags: Seq<bool>, n: int) -> Seq<usize>
    decreases n,
{
    if n <= 0 {
        Seq::empty()
    } else if flags[n - 1] {
        flagged_indices(flags, n - 1).push((n - 1) as usize)
    } else {
        flagged_indices(flags, n - 1)
    }
}

/// The indices of the parts that the neutron is in or that lie within the
/// cache distance of it (`within_range[i]` for part `i`), in the order of the
/// parts: the parts that the material lookup considers until the cache is
/// next refreshed.
pub fn relevant_part_indices(within_range: &Vec<bool>) -> (indices: Vec<usize>)
    ensures
        indices@ == flagged_indices(within_range@, within_range@.len() as int),
{
    let mut indices: Vec<usize> = Vec::new();
    let mut i: usize = 0;
    while i < within_range.len()
        invariant
            i <= within_range.len(),
            indices@ == flagged_indices(within_range@, i as int),
        decreases within_range.len() - i,
    {
        if within_range[i] {
            indices.push(i);
        }
        i = i + 1;
    }
    indices
}

/// The cache of relevant parts lists exactly the flagged parts, each once and
/// in increasing order.
pub proof fn lemma_relevant_indices_are_exactly_the_flagged(flags: Seq<bool>, n: int)
    requires
        0 <= n <= flags.len(),
        flags.len() <= usize::MAX,
    ensures
        forall|k: int|
            0 <= k < flagged_indices(flags, n).len() ==> (#[trigger] flagged_indices(flags, n)[k])
                < n && flags[flagged_indices(flags, n)[k] as int],
        forall|k: int, l: int|
            0 <= k < l < flagged_indices(flags, n).len() ==> flagged_indices(flags, n)[k]
                < flagged_indices(flags, n)[l],
        forall|i: int| 0 <= i < n && flags[i] ==> flagged_indices(flags, n).contains(i as usize),
    decreases n,
{
    if n > 0 {
        lemma_relevant_indices_are_exactly_the_flagged(flags, n - 1);
        let s = flagged_indices(flags, n - 1);
        if flags[n - 1] {
            let t = s.push((n - 1) as usize);
            assert forall|i: int| 0 <= i < n && flags[i] implies t.contains(i as usize) by {
                if i < n - 1 {
                    let k = choose|k: int| 0 <= k < s.len() && s[k] == i as usize;
                    assert(t[k] == i as usize);
                } else {
                    assert(t[s.len() as int] == i as usize);
                }
            }
        }
    }
}

/// Whether a part of order `order` bounds the simulation range. Parts of
/// order -1 or less are background parts (a large surrounding volume, for
/// instance) and do not.
pub open spec fn defines_simulation_range(order: i32) -> bool {
    order > -1
}

/// The indices `i < n` of the parts whose order bounds the simulation range,
/// in increasing order.
pub open spec fn range_defining_indices(orders: Seq<i32>, n: int) -> Seq<usize>
    decreases n,
{
    if n <= 0 {
        Seq::empty()
    } else if defines_simulation_range(orders[n - 1]) {
        range_defining_indices(orders, n - 1).push((n - 1) as usize)
    } else {
        range_defining_indices(orders, n - 1)
    }
}

/// The indices of the parts, given by their orders, from whose bounding boxes
/// the maximum radius of the simulation is taken: every part but those of
/// order -1 or less, in the order of the parts.
pub fn range_defining_parts(orders: &Vec<i32>) -> (indices: Vec<usize>)
    ensures
        indices@ == range_defining_indices(orders@, orders@.len() as int),
{
    let mut indices: Vec<usize> = Vec::new();
    let mut i: usize = 0;
    while i < orders.len()
        invariant
            i <= orders.len(),
            indices@ == range_defining_indices(orders@, i as int),
        decreases orders.len() - i,
    {
        if orders[i] > -1 {
            indices.push(i);
        }
        i = i + 1;
    }
    indices
}

/// Whether the cache of relevant parts must be rebuilt: when the neutron has
/// moved at least the cache distance since the last rebuild, or when the cache
/// was never built.
pub fn parts_cache_needs_update(travelled_cache_distance: bool, cache_initialized: bool) -> (r: bool)
    ensures
        r == (travelled_cache_distance || !cache_initialized),
{
    travelled_cache_distance || !cache_initialized
}

/// The flags `defines_simulation_range(orders[i])` of the parts.
pub open spec fn range_flags(orders: Seq<i32>) -> Seq<bool> {
    Seq::new(orders.len(), |i: int| defines_simulation_range(orders[i]))
}

proof fn lemma_range_indices_are_flagged_indices(orders: Seq<i32>, n: int)
    requires
        0 <= n <= orders.len(),
    ensures
        range_defining_indices(orders, n) == flagged_indices(range_flags(orders), n),
    decreases n,
{
    if n > 0 {
        lemma_range_indices_are_flagged_indices(orders, n - 1);
    }
}

/// Background parts are skipped when the simulation range is taken: the
/// listed parts are exactly those of order above -1, each once and in
/// increasing order.
pub proof fn lemma_range_defining_parts_skip_background(orders: Seq<i32>)
    requires
        orders.len() <= usize::MAX,
    ensures
        ({
            let r = range_defining_indices(orders, orders.len() as int);
            &&& forall|k: int|
                0 <= k < r.len() ==> (#[trigger] r[k]) < orders.len() && orders[r[k] as int] > -1
            &&& forall|k: int, l: int| 0 <= k < l < r.len() ==> r[k] < r[l]
            &&& forall|i: int| 0 <= i < orders.len() && orders[i] > -1 ==> r.contains(i as usize)
        }),
{
    let n = orders.len() as int;
    let flags = range_flags(orders);
    lemma_range_indices_are_flagged_indices(orders, n);
    lemma_relevant_indices_are_exactly_the_flagged(flags, n);
    let r = range_defining_indices(orders, n);
    assert forall|k: int| 0 <= k < r.len() implies (#[trigger] r[k]) < orders.len() && orders[r[k] as int] > -1 by {
        assert(flags[r[k] as int]);
    }
    assert forall|i: int| 0 <= i < orders.len() && orders[i] > -1 implies r.contains(i as usize) by {
        assert(flags[i]);
    }
}

} // verus!
