use vstd::prelude::*;

verus! {

/// What a linear scan of the scene has for one surface: `None` when the ray misses it,
/// otherwise an order key of the hit's ray parameter (a smaller key is a nearer hit).
pub type Candidate = Option<u64>;

/// The key of a hit candidate; `None` stands for no hit.
pub open spec fn key(c: Candidate) -> u64
    recommends
        c is Some,
{
    c->Some_0
}

/// Surface `i` holds the nearest hit: it is hit, no surface has a nearer hit, and every
/// surface before it with an equally near hit is absent (the first of equals wins).
pub open spec fn is_nearest(cs: Seq<Candidate>, i: int) -> bool {
    &&& 0 <= i < cs.len()
    &&& cs[i] is Some
    &&& forall|j: int| 0 <= j < cs.len() && cs[j] is Some ==> key(cs[i]) <= key(cs[j])
    &&& forall|j: int| 0 <= j < i && cs[j] is Some ==> key(cs[i]) < key(cs[j])
}

/// Whether the top (sign) bit of a pattern is set.
pub open spec fn sign_set(bits: u64) -> bool {
    bits >> 63u64 == 1
}

/// The value of a 64-bit sign-magnitude pattern (the layout of an IEEE-754 double): the
/// low 63 bits, negated when the top bit is set.
pub open spec fn signed_magnitude(bits: u64) -> int {
    let m = (bits & 0x7fff_ffff_ffff_ffffu64) as int;
    if sign_set(bits) {
        -m
    } else {
        m
    }
}

/// The key of a pattern: its value shifted up by 2^63, one lower for a set sign bit.
pub open spec fn order_key_value(bits: u64) -> int {
    0x8000_0000_0000_0000int + signed_magnitude(bits) - (if sign_set(bits) {
        1int
    } else {
        0int
    })
}

/// An unsigned key for a sign-magnitude pattern: patterns with a smaller value get smaller
/// keys, and a negative zero sorts just below a positive zero.
pub fn order_key(bits: u64) -> (r: u64)
    ensures
        r as int == order_key_value(bits),
{
    if bits >> 63u64 == 1 {
        assert(!bits == 0x7fff_ffff_ffff_ffffu64 - (bits & 0x7fff_ffff_ffff_ffffu64)) by (bit_vector)
            requires
                bits >> 63u64 == 1,
        ;
        !bits
    } else {
        assert(bits | 0x8000_0000_0000_0000u64 == 0x8000_0000_0000_0000u64 + (bits
            & 0x7fff_ffff_ffff_ffffu64)) by (bit_vector)
            requires
                bits >> 63u64 != 1,
        ;
        bits | 0x8000_0000_0000_0000u64
    }
}

/// Keys keep the order of the values: a pattern of smaller value has a smaller key.
pub proof fn lemma_order_key_monotone(a: u64, b: u64)
    requires
        signed_magnitude(a) < signed_magnitude(b),
    ensures
        order_key_value(a) < order_key_value(b),
{
}

/// Whether any surface is hit at all.
pub open spec fn any_hit(cs: Seq<Candidate>) -> bool {
    exists|j: int| 0 <= j < cs.len() && cs[j] is Some
}

/// Scans the candidates in order, narrowing the accepted range to the nearest hit so far,
/// and returns the index of the nearest hit, or `None` when nothing is hit.
pub fn nearest_hit(candidates: &Vec<Candidate>) -> (r: Option<usize>)
    ensures
        r is None <==> !any_hit(candidates@),
        r matches Some(i) ==> is_nearest(candidates@, i as int),
{
    let mut best: Option<usize> = None;
    let mut closest: u64 = 0;
    let mut i: usize = 0;
    while i < candidates.len()
        invariant
            i <= candidates@.len(),
            best is None <==> !any_hit(candidates@.take(i as int)),
            best matches Some(b) ==> {
                &&& is_nearest(candidates@.take(i as int), b as int)
                &&& closest == key(candidates@[b as int])
            },
        decreases candidates@.len() - i,
    {
        let ghost prefix = candidates@.take(i as int);
        let ghost next = candidates@.take(i + 1);
        assert(next =~= prefix.push(candidates@[i as int]));
        match candidates[i] {
            Some(k) => {
                if best.is_none() || k < closest {
                    best = Some(i);
                    closest = k;
                }
                assert(next[i as int] is Some);
            },
            None => {
                assert forall|j: int| 0 <= j < next.len() && next[j] is Some implies 0 <= j < prefix.len()
                    && prefix[j] is Some by {}
            },
        }
        i += 1;
    }
    assert(candidates@.take(i as int) =~= candidates@);
    best
}

/// The nearest hit does not depend on the order in which the surfaces were added: any two
/// arrangements of the same candidates agree on whether anything is hit and on the key of
/// the nearest hit.
pub proof fn lemma_nearest_order_free(cs1: Seq<Candidate>, cs2: Seq<Candidate>, i: int, j: int)
    requires
        cs1.to_multiset() == cs2.to_multiset(),
    ensures
        any_hit(cs1) <==> any_hit(cs2),
        is_nearest(cs1, i) && is_nearest(cs2, j) ==> cs1[i] == cs2[j],
{
    broadcast use vstd::seq_lib::group_to_multiset_ensures;

    if any_hit(cs1) {
        let a = choose|a: int| 0 <= a < cs1.len() && cs1[a] is Some;
        assert(cs1.contains(cs1[a]));
        assert(cs1.to_multiset().count(cs1[a]) > 0);
        assert(cs2.contains(cs1[a]));
    }
    if any_hit(cs2) {
        let b = choose|b: int| 0 <= b < cs2.len() && cs2[b] is Some;
        assert(cs2.contains(cs2[b]));
        assert(cs2.to_multiset().count(cs2[b]) > 0);
        assert(cs1.contains(cs2[b]));
    }
    if is_nearest(cs1, i) && is_nearest(cs2, j) {
        assert(cs1.contains(cs1[i]));
        assert(cs1.to_multiset().count(cs1[i]) > 0);
        assert(cs2.contains(cs1[i]));
        assert(cs2.contains(cs2[j]));
        assert(cs2.to_multiset().count(cs2[j]) > 0);
        assert(cs1.contains(cs2[j]));
        let a = choose|a: int| 0 <= a < cs2.len() && cs2[a] == cs1[i];
        let b = choose|b: int| 0 <= b < cs1.len() && cs1[b] == cs2[j];
        assert(key(cs2[j]) <= key(cs2[a]));
        assert(key(cs1[i]) <= key(cs1[b]));
    }
}

} // verus!
