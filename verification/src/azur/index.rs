use vstd::prelude::*;
use std::collections::HashMap;

verus! {

broadcast use vstd::std_specs::hash::group_hash_axioms;

/// Whether `ids[i] == id` for some `i` in `0..n`.
pub open spec fn occurs(ids: Seq<u32>, id: u32, n: int) -> bool {
    exists|i: int| 0 <= i < n && ids[i] == id
}

/// The last index below `n` at which `id` stands in `ids` (`-1` if none).
pub open spec fn last_index(ids: Seq<u32>, id: u32, n: int) -> int
    decreases n,
{
    if n <= 0 {
        -1
    } else if ids[n - 1] == id {
        n - 1
    } else {
        last_index(ids, id, n - 1)
    }
}

proof fn lemma_last_index(ids: Seq<u32>, id: u32, n: int)
    requires
        0 <= n <= ids.len(),
    ensures
        occurs(ids, id, n) <==> last_index(ids, id, n) >= 0,
        last_index(ids, id, n) >= 0 ==> {
            let k = last_index(ids, id, n);
            &&& k < n
            &&& ids[k] == id
            &&& forall|j: int| k < j < n ==> ids[j] != id
        },
    decreases n,
{
    if n > 0 {
        lemma_last_index(ids, id, n - 1);
        if ids[n - 1] != id && occurs(ids, id, n) {
            let i = choose|i: int| 0 <= i < n && ids[i] == id;
            assert(occurs(ids, id, n - 1));
        }
        if ids[n - 1] == id {
            assert(occurs(ids, id, n));
        }
    }
}

/// Maps each id to its position in `ids`; where an id occurs more than once, the
/// last position wins. Ships, equipment and augments are looked up by id this way.
pub fn id_to_index(ids: &Vec<u32>) -> (r: HashMap<u32, usize>)
    ensures
        forall|id: u32| #[trigger] r@.contains_key(id) <==> occurs(ids@, id, ids@.len() as int),
        forall|id: u32|
            #[trigger] r@.contains_key(id) ==> r@[id] == last_index(ids@, id, ids@.len() as int),
{
    let mut m: HashMap<u32, usize> = HashMap::with_capacity(ids.len());
    let mut i: usize = 0;
    while i < ids.len()
        invariant
            0 <= i <= ids@.len(),
            forall|id: u32| #[trigger] m@.contains_key(id) <==> last_index(ids@, id, i as int) >= 0,
            forall|id: u32| #[trigger] m@.contains_key(id) ==> m@[id] == last_index(ids@, id, i as int),
        decreases ids@.len() - i,
    {
        m.insert(ids[i], i);
        i = i + 1;
    }
    proof {
        assert forall|id: u32| #[trigger] m@.contains_key(id) <==> occurs(ids@, id, ids@.len() as int) by {
            lemma_last_index(ids@, id, ids@.len() as int);
        }
    }
    m
}

/// The indices `i < n`, in order, at which `ship_ids[i]` is `Some(ship)`.
pub open spec fn indices_for(ship_ids: Seq<Option<u32>>, ship: u32, n: int) -> Seq<usize>
    decreases n,
{
    if n <= 0 {
        Seq::empty()
    } else if ship_ids[n - 1] == Some(ship) {
        indices_for(ship_ids, ship, n - 1).push((n - 1) as usize)
    } else {
        indices_for(ship_ids, ship, n - 1)
    }
}

/// Maps each ship to the indices, in order, of the augments unique to it; `ship_ids`
/// gives each augment's ship, where it has one.
pub fn ship_augment_indices(ship_ids: &Vec<Option<u32>>) -> (r: HashMap<u32, Vec<usize>>)
    ensures
        forall|ship: u32| #[trigger] r@.contains_key(ship) <==> indices_for(ship_ids@, ship, ship_ids@.len() as int).len() > 0,
        forall|ship: u32|
            #[trigger] r@.contains_key(ship) ==> r@[ship]@ == indices_for(ship_ids@, ship, ship_ids@.len() as int),
{
    let mut m: HashMap<u32, Vec<usize>> = HashMap::with_capacity(ship_ids.len());
    let mut i: usize = 0;
    while i < ship_ids.len()
        invariant
            0 <= i <= ship_ids@.len(),
            forall|ship: u32| #[trigger] m@.contains_key(ship) <==> indices_for(ship_ids@, ship, i as int).len() > 0,
            forall|ship: u32|
                #[trigger] m@.contains_key(ship) ==> m@[ship]@ == indices_for(ship_ids@, ship, i as int),
        decreases ship_ids@.len() - i,
    {
        if let Some(ship) = ship_ids[i] {
            let mut list: Vec<usize> = match m.remove(&ship) {
                Some(v) => v,
                None => Vec::new(),
            };
            list.push(i);
            m.insert(ship, list);
        }
        i = i + 1;
    }
    m
}


/// What the hull trimming reads of a ship: its hull type, the equipment kinds that its
/// slots allow (slot by slot), and its retrofits, each a ship of its own.
pub struct ShipSlots {
    pub hull_type: u32,
    pub slots: Vec<Vec<u32>>,
    pub retrofits: Vec<ShipSlots>,
}

/// Whether the ship `s` or one of its retrofits (at any depth) has hull type `hull`
/// and a slot that allows equipment kind `kind`.
pub open spec fn ship_allows(s: ShipSlots, kind: u32, hull: u32) -> bool
    decreases s,
{
    ||| s.hull_type == hull && exists|i: int, j: int|
        0 <= i < s.slots@.len() && 0 <= j < s.slots@[i]@.len() && #[trigger] s.slots@[i]@[j] == kind
    ||| exists|i: int| 0 <= i < s.retrofits@.len() && ship_allows(#[trigger] s.retrofits@[i], kind, hull)
}

/// Whether some ship of `ships` allows equipment kind `kind` on hull type `hull`.
pub open spec fn any_ship_allows(ships: Seq<ShipSlots>, kind: u32, hull: u32) -> bool {
    exists|i: int| 0 <= i < ships.len() && ship_allows(#[trigger] ships[i], kind, hull)
}

fn contains_pair(pairs: &Vec<(u32, u32)>, p: (u32, u32)) -> (r: bool)
    ensures
        r == pairs@.contains(p),
{
    let mut i: usize = 0;
    while i < pairs.len()
        invariant
            0 <= i <= pairs@.len(),
            forall|j: int| 0 <= j < i ==> pairs@[j] != p,
        decreases pairs@.len() - i,
    {
        if pairs[i].0 == p.0 && pairs[i].1 == p.1 {
            assert(pairs@[i as int] == p);
            return true;
        }
        i = i + 1;
    }
    false
}

fn add_pair(pairs: &mut Vec<(u32, u32)>, p: (u32, u32))
    requires
        old(pairs)@.no_duplicates(),
    ensures
        final(pairs)@.no_duplicates(),
        forall|q: (u32, u32)| #[trigger] final(pairs)@.contains(q) <==> old(pairs)@.contains(q) || q == p,
{
    if !contains_pair(pairs, p) {
        pairs.push(p);
        proof {
            assert forall|q: (u32, u32)| #[trigger] pairs@.contains(q) <==> old(pairs)@.contains(q) || q == p by {
                if pairs@.contains(q) && q != p {
                    let k = choose|k: int| 0 <= k < pairs@.len() && pairs@[k] == q;
                    assert(old(pairs)@[k] == q);
                }
                if old(pairs)@.contains(q) {
                    let k = choose|k: int| 0 <= k < old(pairs)@.len() && old(pairs)@[k] == q;
                    assert(pairs@[k] == q);
                }
                if q == p {
                    assert(pairs@[pairs@.len() - 1] == p);
                }
            }
        }
    }
}

/// Adds the (equipment kind, hull type) pairs that `s` and its retrofits allow.
fn add_ship_pairs(s: &ShipSlots, pairs: &mut Vec<(u32, u32)>)
    requires
        old(pairs)@.no_duplicates(),
    ensures
        final(pairs)@.no_duplicates(),
        forall|q: (u32, u32)|
            #[trigger] final(pairs)@.contains(q) <==> old(pairs)@.contains(q) || ship_allows(*s, q.0, q.1),
    decreases s,
{
    let ghost start = pairs@;
    let mut i: usize = 0;
    while i < s.slots.len()
        invariant
            0 <= i <= s.slots@.len(),
            pairs@.no_duplicates(),
            forall|q: (u32, u32)|
                #[trigger] pairs@.contains(q) <==> start.contains(q) || (q.1 == s.hull_type && exists|a: int, b: int|
                    0 <= a < i && 0 <= b < s.slots@[a]@.len() && #[trigger] s.slots@[a]@[b] == q.0),
        decreases s.slots@.len() - i,
    {
        let slot = &s.slots[i];
        let ghost before = pairs@;
        let mut j: usize = 0;
        while j < slot.len()
            invariant
                0 <= i < s.slots@.len(),
                slot@ == s.slots@[i as int]@,
                0 <= j <= slot@.len(),
                pairs@.no_duplicates(),
                forall|q: (u32, u32)|
                    #[trigger] pairs@.contains(q) <==> before.contains(q) || (q.1 == s.hull_type && exists|b: int|
                        0 <= b < j && #[trigger] slot@[b] == q.0),
            decreases slot@.len() - j,
        {
            add_pair(pairs, (slot[j], s.hull_type));
            proof {
                assert forall|q: (u32, u32)| #[trigger] pairs@.contains(q) <==> before.contains(q) || (q.1
                    == s.hull_type && exists|b: int| 0 <= b < j + 1 && #[trigger] slot@[b] == q.0) by {
                    if q == (slot@[j as int], s.hull_type) {
                        assert(slot@[j as int] == q.0);
                    }
                }
            }
            j = j + 1;
        }
        proof {
            assert forall|q: (u32, u32)| #[trigger] pairs@.contains(q) <==> start.contains(q) || (q.1
                == s.hull_type && exists|a: int, b: int|
                0 <= a < i + 1 && 0 <= b < s.slots@[a]@.len() && #[trigger] s.slots@[a]@[b] == q.0) by {
                if q.1 == s.hull_type && exists|a: int, b: int|
                    0 <= a < i + 1 && 0 <= b < s.slots@[a]@.len() && #[trigger] s.slots@[a]@[b] == q.0 {
                    let (a, b) = choose|a: int, b: int|
                        0 <= a < i + 1 && 0 <= b < s.slots@[a]@.len() && #[trigger] s.slots@[a]@[b] == q.0;
                    if a == i {
                        assert(slot@[b] == q.0);
                    }
                }
                if exists|b: int| 0 <= b < slot@.len() && #[trigger] slot@[b] == q.0 {
                    let b = choose|b: int| 0 <= b < slot@.len() && #[trigger] slot@[b] == q.0;
                    assert(s.slots@[i as int]@[b] == q.0);
                }
            }
        }
        i = i + 1;
    }
    let ghost mid = pairs@;
    let mut k: usize = 0;
    while k < s.retrofits.len()
        invariant
            0 <= k <= s.retrofits@.len(),
            pairs@.no_duplicates(),
            forall|q: (u32, u32)|
                #[trigger] pairs@.contains(q) <==> mid.contains(q) || exists|r: int|
                    0 <= r < k && ship_allows(#[trigger] s.retrofits@[r], q.0, q.1),
        decreases s.retrofits@.len() - k,
    {
        let ghost before = pairs@;
        add_ship_pairs(&s.retrofits[k], pairs);
        proof {
            assert forall|q: (u32, u32)| #[trigger] pairs@.contains(q) <==> mid.contains(q) || exists|r: int|
                0 <= r < k + 1 && ship_allows(#[trigger] s.retrofits@[r], q.0, q.1) by {
                if exists|r: int| 0 <= r < k + 1 && ship_allows(#[trigger] s.retrofits@[r], q.0, q.1) {
                    let r = choose|r: int| 0 <= r < k + 1 && ship_allows(#[trigger] s.retrofits@[r], q.0, q.1);
                    if r < k {
                        assert(before.contains(q));
                    }
                }
            }
        }
        k = k + 1;
    }
}

/// The (equipment kind, hull type) pairs that occur among `ships`: some ship, or a
/// retrofit of one, of that hull type has a slot that allows that kind. Each pair
/// occurs once.
pub fn known_equip_hulls(ships: &Vec<ShipSlots>) -> (r: Vec<(u32, u32)>)
    ensures
        r@.no_duplicates(),
        forall|q: (u32, u32)| #[trigger] r@.contains(q) <==> any_ship_allows(ships@, q.0, q.1),
{
    let mut pairs: Vec<(u32, u32)> = Vec::new();
    let mut i: usize = 0;
    while i < ships.len()
        invariant
            0 <= i <= ships@.len(),
            pairs@.no_duplicates(),
            forall|q: (u32, u32)|
                #[trigger] pairs@.contains(q) <==> exists|k: int| 0 <= k < i && ship_allows(#[trigger] ships@[k], q.0, q.1),
        decreases ships@.len() - i,
    {
        let ghost before = pairs@;
        add_ship_pairs(&ships[i], &mut pairs);
        proof {
            assert forall|q: (u32, u32)| #[trigger] pairs@.contains(q) <==> exists|k: int|
                0 <= k < i + 1 && ship_allows(#[trigger] ships@[k], q.0, q.1) by {
                if exists|k: int| 0 <= k < i + 1 && ship_allows(#[trigger] ships@[k], q.0, q.1) {
                    let k = choose|k: int| 0 <= k < i + 1 && ship_allows(#[trigger] ships@[k], q.0, q.1);
                    if k < i {
                        assert(before.contains(q));
                    }
                }
            }
        }
        i = i + 1;
    }
    pairs
}

/// The hull types of `hulls` that `kind` is disallowed on and that matter: those for
/// which `known` holds the pair (`kind`, hull), in their order.
pub open spec fn relevant_hulls(kind: u32, hulls: Seq<u32>, known: Seq<(u32, u32)>) -> Seq<u32>
    decreases hulls.len(),
{
    if hulls.len() == 0 {
        Seq::empty()
    } else {
        let rest = relevant_hulls(kind, hulls.drop_last(), known);
        if known.contains((kind, hulls.last())) {
            rest.push(hulls.last())
        } else {
            rest
        }
    }
}

/// Trims an equipment's disallowed hull types to those that matter: a hull type stays
/// only where some ship of that hull type can equip this kind at all.
pub fn trim_hull_disallowed(kind: u32, hulls: &Vec<u32>, known: &Vec<(u32, u32)>) -> (r: Vec<u32>)
    ensures
        r@ == relevant_hulls(kind, hulls@, known@),
{
    let mut out: Vec<u32> = Vec::new();
    let mut i: usize = 0;
    while i < hulls.len()
        invariant
            0 <= i <= hulls@.len(),
            out@ == relevant_hulls(kind, hulls@.subrange(0, i as int), known@),
        decreases hulls@.len() - i,
    {
        proof {
            let next = hulls@.subrange(0, i as int + 1);
            assert(next.drop_last() =~= hulls@.subrange(0, i as int));
            assert(next.last() == hulls@[i as int]);
        }
        if contains_pair(known, (kind, hulls[i])) {
            out.push(hulls[i]);
        }
        i = i + 1;
    }
    assert(hulls@.subrange(0, hulls@.len() as int) =~= hulls@);
    out
}

} // verus!
