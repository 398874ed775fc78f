//! Grouping sprites into instanced draws: sprites that share a texture binding
//! are drawn together, in one call per binding.
use vstd::prelude::*;

verus! {

/// Instances one draw call can take by default.
pub const INSTANCE_CAPACITY: u32 = 1024;

/// How often `k` occurs in `keys`.
pub open spec fn count_key(keys: Seq<u64>, k: u64) -> nat
    decreases keys.len(),
{
    if keys.len() == 0 {
        0
    } else {
        count_key(keys.drop_last(), k) + if keys.last() == k {
            1nat
        } else {
            0nat
        }
    }
}

/// The keys of `keys`, each once, in the order of their first occurrence.
pub open spec fn distinct_keys(keys: Seq<u64>) -> Seq<u64>
    decreases keys.len(),
{
    if keys.len() == 0 {
        Seq::empty()
    } else {
        let d = distinct_keys(keys.drop_last());
        if d.contains(keys.last()) {
            d
        } else {
            d.push(keys.last())
        }
    }
}

/// Instances drawn for a group of `members` sprites.
pub open spec fn clamped(members: nat, capacity: nat) -> nat {
    if members <= capacity {
        members
    } else {
        capacity
    }
}

pub proof fn lemma_distinct_contains(keys: Seq<u64>, k: u64)
    ensures
        distinct_keys(keys).contains(k) <==> keys.contains(k),
        !keys.contains(k) ==> count_key(keys, k) == 0,
    decreases keys.len(),
{
    if keys.len() > 0 {
        let prev = keys.drop_last();
        let last = keys.last();
        let d = distinct_keys(prev);
        lemma_distinct_contains(prev, k);
        if prev.contains(k) {
            let i = choose|i: int| 0 <= i < prev.len() && prev[i] == k;
            assert(keys[i] == k);
            let j = choose|j: int| 0 <= j < d.len() && d[j] == k;
            assert(d.push(last)[j] == k);
        } else if last == k {
            assert(keys[keys.len() - 1] == k);
            if !d.contains(last) {
                assert(d.push(last)[d.len() as int] == k);
            }
        } else {
            assert(!keys.contains(k)) by {
                if keys.contains(k) {
                    let i = choose|i: int| 0 <= i < keys.len() && keys[i] == k;
                    if i < keys.len() - 1 {
                        assert(prev[i] == k);
                    }
                }
            }
            assert(!d.push(last).contains(k)) by {
                if d.push(last).contains(k) {
                    let i = choose|i: int| 0 <= i < d.push(last).len() && d.push(last)[i] == k;
                    if i < d.len() {
                        assert(d[i] == k);
                    }
                }
            }
        }
    }
}

/// One instanced draw: the sprites whose key is `key`.
#[derive(Clone, Copy)]
pub struct DrawBatch {
    /// The texture binding the sprites share.
    pub key: u64,
    /// The first sprite of the group; its binding serves the whole draw.
    pub first: usize,
    /// Sprites in the group.
    pub members: usize,
    /// Instances the draw call takes: the members, up to the capacity.
    pub instance_count: u32,
    /// More sprites than the capacity: the draw leaves some out.
    pub clipped: bool,
}

/// The draws for sprites with binding keys `keys`: one per distinct key, in the
/// order of the key's first sprite.
pub fn plan_batches(keys: &Vec<u64>, capacity: u32) -> (r: Vec<DrawBatch>)
    ensures
        r@.len() == distinct_keys(keys@).len(),
        forall|b: int|
            #![trigger r@[b]]
            0 <= b < r@.len() ==> {
                let d = r@[b];
                &&& d.key == distinct_keys(keys@)[b]
                &&& d.members == count_key(keys@, d.key)
                &&& d.first < keys@.len()
                &&& keys@[d.first as int] == d.key
                &&& forall|j: int| 0 <= j < d.first ==> keys@[j] != d.key
                &&& d.instance_count == clamped(d.members as nat, capacity as nat)
                &&& d.clipped == (d.members > capacity)
            },
{
    let mut groups: Vec<DrawBatch> = Vec::new();
    let mut i: usize = 0;
    proof {
        assert(keys@.take(0) =~= Seq::<u64>::empty());
    }
    while i < keys.len()
        invariant
            i <= keys@.len(),
            groups@.len() == distinct_keys(keys@.take(i as int)).len(),
            forall|b1: int, b2: int|
                0 <= b1 < groups@.len() && 0 <= b2 < groups@.len() && b1 != b2 ==> groups@[b1].key
                    != groups@[b2].key,
            forall|b: int|
                #![trigger groups@[b]]
                0 <= b < groups@.len() ==> {
                    let d = groups@[b];
                    &&& d.key == distinct_keys(keys@.take(i as int))[b]
                    &&& d.members == count_key(keys@.take(i as int), d.key)
                    &&& d.members <= i
                    &&& d.first < i
                    &&& keys@[d.first as int] == d.key
                    &&& forall|j: int| 0 <= j < d.first ==> keys@[j] != d.key
                },
        decreases keys.len() - i,
    {
        let k = keys[i];
        let ghost pre = keys@.take(i as int);
        let ghost post = keys@.take(i + 1);
        proof {
            assert(post.drop_last() =~= pre);
            assert(post.last() == k);
        }
        let mut j: usize = 0;
        while j < groups.len() && groups[j].key != k
            invariant
                j <= groups@.len(),
                forall|b: int| 0 <= b < j ==> groups@[b].key != k,
            decreases groups.len() - j,
        {
            j = j + 1;
        }
        if j < groups.len() {
            let g = groups[j];
            proof {
                assert(distinct_keys(pre).contains(k)) by {
                    assert(distinct_keys(pre)[j as int] == k);
                }
            }
            let updated = DrawBatch { members: g.members + 1, ..g };
            groups.set(j, updated);
        } else {
            proof {
                assert(!distinct_keys(pre).contains(k)) by {
                    if distinct_keys(pre).contains(k) {
                        let b = choose|b: int|
                            0 <= b < distinct_keys(pre).len() && distinct_keys(pre)[b] == k;
                        assert(groups@[b].key == k);
                    }
                }
                lemma_distinct_contains(pre, k);
                assert forall|t: int| 0 <= t < i implies keys@[t] != k by {
                    assert(pre[t] == keys@[t]);
                }
            }
            groups.push(DrawBatch { key: k, first: i, members: 1, instance_count: 0, clipped: false });
        }
        i = i + 1;
    }
    proof {
        assert(keys@.take(keys@.len() as int) =~= keys@);
    }
    let mut out: Vec<DrawBatch> = Vec::new();
    let mut b: usize = 0;
    while b < groups.len()
        invariant
            b <= groups@.len(),
            out@.len() == b,
            forall|t: int|
                #![trigger out@[t]]
                0 <= t < b ==> out@[t].key == groups@[t].key && out@[t].first == groups@[t].first
                    && out@[t].members == groups@[t].members && out@[t].instance_count == clamped(
                    groups@[t].members as nat,
                    capacity as nat,
                ) && out@[t].clipped == (groups@[t].members > capacity),
        decreases groups.len() - b,
    {
        let g = groups[b];
        let count: u32 = if g.members <= capacity as usize {
            g.members as u32
        } else {
            capacity
        };
        out.push(DrawBatch { instance_count: count, clipped: g.members > capacity as usize, ..g });
        b = b + 1;
    }
    out
}

/// Sprites that all share one texture binding make exactly one draw, which
/// takes every one of them.
pub proof fn lemma_shared_binding_single_draw(keys: Seq<u64>, k: u64)
    requires
        keys.len() > 0,
        forall|i: int| 0 <= i < keys.len() ==> keys[i] == k,
    ensures
        distinct_keys(keys) == seq![k],
        count_key(keys, k) == keys.len(),
    decreases keys.len(),
{
    assert(keys.last() == k) by {
        assert(keys[keys.len() - 1] == k);
    }
    if keys.len() == 1 {
        assert(keys.drop_last() =~= Seq::<u64>::empty());
        assert(distinct_keys(keys.drop_last()) =~= Seq::<u64>::empty());
        assert(seq![k] =~= Seq::<u64>::empty().push(k));
    } else {
        assert forall|i: int| 0 <= i < keys.drop_last().len() implies keys.drop_last()[i] == k by {
            assert(keys[i] == k);
        }
        lemma_shared_binding_single_draw(keys.drop_last(), k);
        assert(seq![k].contains(k)) by {
            assert(seq![k][0] == k);
        }
    }
}

} // verus!
