//! The ID maps written for the child's user namespace, and how they shrink
//! when the setuid helper rejects an ID.
use vstd::prelude::*;

verus! {

/// `v` with `x` appended unless it is there already.
pub open spec fn with_id(v: Seq<u32>, x: u32) -> Seq<u32> {
    if v.contains(x) {
        v
    } else {
        v.push(x)
    }
}

/// The first group map: the user's primary group, root, then each
/// supplementary group, each once.
pub open spec fn initial_gids(primary: u32, groups: Seq<u32>) -> Seq<u32>
    decreases groups.len(),
{
    if groups.len() == 0 {
        with_id(seq![primary], 0)
    } else {
        with_id(initial_gids(primary, groups.drop_last()), groups.last())
    }
}

/// `map` without `x`.
pub open spec fn without_id(map: Seq<u32>, x: u32) -> Seq<u32> {
    map.filter(|y: u32| y != x)
}

/// How `without_id` unfolds on the last element.
proof fn lemma_without_id_step(map: Seq<u32>, x: u32)
    requires
        map.len() > 0,
    ensures
        without_id(map, x) == if map.last() != x {
            without_id(map.drop_last(), x).push(map.last())
        } else {
            without_id(map.drop_last(), x)
        },
{
    reveal_with_fuel(Seq::filter, 2);
}

/// The next map to try after the helper rejected `offending`: the map
/// without it, unless it is pinned or absent, when no retry is left.
pub open spec fn shrunk(map: Seq<u32>, offending: u32, pinned: Seq<u32>) -> Option<Seq<u32>> {
    if map.contains(offending) && !pinned.contains(offending) {
        Some(without_id(map, offending))
    } else {
        None
    }
}

/// Whether `v` holds `x`.
pub fn has_id(v: &Vec<u32>, x: u32) -> (r: bool)
    ensures
        r == v@.contains(x),
{
    let mut i: usize = 0;
    while i < v.len()
        invariant
            i <= v@.len(),
            forall|j: int| 0 <= j < i ==> v@[j] != x,
        decreases v@.len() - i,
    {
        if v[i] == x {
            assert(v@[i as int] == x);
            return true;
        }
        i = i + 1;
    }
    false
}

/// Appends `x` unless `v` holds it already.
fn add_id(v: &mut Vec<u32>, x: u32)
    ensures
        final(v)@ == with_id(old(v)@, x),
{
    if !has_id(v, x) {
        v.push(x);
    }
}

/// The first group map for a user: primary group, root, supplementary groups.
pub fn initial_gid_map(primary: u32, groups: &Vec<u32>) -> (r: Vec<u32>)
    ensures
        r@ == initial_gids(primary, groups@),
{
    let mut r: Vec<u32> = vec![primary];
    assert(r@ =~= seq![primary]);
    add_id(&mut r, 0);
    assert(groups@.subrange(0, 0) =~= Seq::<u32>::empty());
    let mut i: usize = 0;
    while i < groups.len()
        invariant
            i <= groups@.len(),
            r@ == initial_gids(primary, groups@.subrange(0, i as int)),
        decreases groups@.len() - i,
    {
        add_id(&mut r, groups[i]);
        assert(groups@.subrange(0, i + 1).drop_last() =~= groups@.subrange(0, i as int));
        i = i + 1;
    }
    assert(groups@.subrange(0, i as int) =~= groups@);
    r
}

/// The map to try after the helper rejected `offending`, or `None` when
/// `offending` is pinned or not in the map and the mapping has failed.
pub fn shrink_map(map: &Vec<u32>, offending: u32, pinned: &Vec<u32>) -> (r: Option<Vec<u32>>)
    ensures
        match r {
            Some(m) => shrunk(map@, offending, pinned@) == Some(m@),
            None => shrunk(map@, offending, pinned@) is None,
        },
{
    if !has_id(map, offending) || has_id(pinned, offending) {
        return None;
    }
    let mut r: Vec<u32> = Vec::new();
    let mut i: usize = 0;
    while i < map.len()
        invariant
            i <= map@.len(),
            r@ == without_id(map@.subrange(0, i as int), offending),
        decreases map@.len() - i,
    {
        proof {
            let s = map@.subrange(0, i + 1);
            assert(s.drop_last() =~= map@.subrange(0, i as int));
            assert(s.last() == map@[i as int]);
            lemma_without_id_step(s, offending);
        }
        if map[i] != offending {
            r.push(map[i]);
        }
        i = i + 1;
    }
    assert(map@.subrange(0, i as int) =~= map@);
    Some(r)
}

/// Shrinking always removes the rejected ID and nothing else, and never a
/// pinned one: the primary IDs (and root's group) stay in every retry.
pub proof fn lemma_shrink_keeps_pinned(map: Seq<u32>, offending: u32, pinned: Seq<u32>)
    ensures
        shrunk(map, offending, pinned) matches Some(m) ==> !m.contains(offending)
            && !pinned.contains(offending) && m.len() < map.len() && (forall|x: u32|
            x != offending ==> (#[trigger] m.contains(x) <==> map.contains(x))),
{
    if map.contains(offending) && !pinned.contains(offending) {
        lemma_filter_members(map, offending);
        lemma_filter_shorter(map, offending);
    }
}

/// The members of `map` without `offending`.
proof fn lemma_filter_members(map: Seq<u32>, offending: u32)
    ensures
        forall|x: u32|
            (#[trigger] without_id(map, offending).contains(x)) <==> (x != offending
                && map.contains(x)),
    decreases map.len(),
{
    if map.len() > 0 {
        lemma_filter_members(map.drop_last(), offending);
        lemma_without_id_step(map, offending);
        assert forall|x: u32| map.contains(x) implies map.drop_last().contains(x) || x
            == map.last() by {
            let k = choose|k: int| 0 <= k < map.len() && map[k] == x;
            if k < map.len() - 1 {
                assert(map.drop_last()[k] == x);
            }
        }
        assert forall|x: u32| map.drop_last().contains(x) implies map.contains(x) by {
            let k = choose|k: int| 0 <= k < map.drop_last().len() && map.drop_last()[k] == x;
            assert(map[k] == x);
        }
        assert(map.contains(map.last()) ) by {
            assert(map[map.len() - 1] == map.last());
        }
        let f = without_id(map.drop_last(), offending);
        assert forall|x: u32| f.push(map.last()).contains(x) <==> (f.contains(x) || x
            == map.last()) by {
            if f.push(map.last()).contains(x) {
                let k = choose|k: int| 0 <= k < f.len() + 1 && f.push(map.last())[k] == x;
                if k < f.len() {
                    assert(f[k] == x);
                }
            }
            if f.contains(x) {
                let k = choose|k: int| 0 <= k < f.len() && f[k] == x;
                assert(f.push(map.last())[k] == x);
            }
            if x == map.last() {
                assert(f.push(map.last())[f.len() as int] == x);
            }
        }
        assert forall|x: u32|
            (#[trigger] without_id(map, offending).contains(x)) <==> (x != offending
                && map.contains(x)) by {
            assert(f.contains(x) <==> (x != offending && map.drop_last().contains(x)));
        }
    } else {
        assert(without_id(map, offending) =~= map);
    }
}

/// Filtering out an ID that occurs makes the map shorter.
proof fn lemma_filter_shorter(map: Seq<u32>, offending: u32)
    requires
        map.contains(offending),
    ensures
        without_id(map, offending).len() < map.len(),
    decreases map.len(),
{
    map.drop_last().lemma_filter_len(|y: u32| y != offending);
    lemma_without_id_step(map, offending);
    if map.last() != offending {
        let k = choose|k: int| 0 <= k < map.len() && map[k] == offending;
        assert(map.drop_last()[k] == offending);
        lemma_filter_shorter(map.drop_last(), offending);
    }
}

} // verus!
