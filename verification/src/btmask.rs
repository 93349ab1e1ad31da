//! Sets of child kinds, kept as bit masks.
use vstd::prelude::*;
use crate::backend_type::BackendType;

verus! {

pub type BackendTypeMask = u32;

pub const BTYPE_MASK_NONE: BackendTypeMask = 0;

/// One bit for each of the eighteen kinds.
pub const BTYPE_MASK_ALL: BackendTypeMask = 0x3ffff;

/// The kinds whose bit is set in `mask`.
pub open spec fn mask_set(mask: BackendTypeMask) -> Set<BackendType> {
    Set::new(|t: BackendType| mask & (1u32 << t.idx()) != 0)
}

proof fn lemma_bits()
    ensures
        forall|m: u32, i: u32, j: u32| #![trigger (m | (1u32 << i)) & (1u32 << j)]
            i < 18 && j < 18 ==> (((m | (1u32 << i)) & (1u32 << j)) != 0 <==> (i == j || m & (1u32 << j) != 0)),
        forall|m: u32, i: u32, j: u32| #![trigger (m & !(1u32 << i)) & (1u32 << j)]
            i < 18 && j < 18 ==> (((m & !(1u32 << i)) & (1u32 << j)) != 0 <==> (i != j && m & (1u32 << j) != 0)),
        forall|i: u32, j: u32| #![trigger (1u32 << i) & (1u32 << j)]
            i < 18 && j < 18 ==> (((1u32 << i) & (1u32 << j)) != 0 <==> i == j),
        forall|j: u32| #![trigger 1u32 << j] j < 18 ==> 0x3ffffu32 & (1u32 << j) != 0,
        forall|j: u32| #![trigger 1u32 << j] j < 18 ==> 0u32 & (1u32 << j) == 0,
        forall|m: u32, i: u32| #![trigger m & !(1u32 << i)]
            m & !0x3ffffu32 == 0 ==> (m & !(1u32 << i)) & !0x3ffffu32 == 0,
{
    assert(forall|m: u32, i: u32, j: u32| #![trigger (m | (1u32 << i)) & (1u32 << j)]
        i < 18 && j < 18 ==> (((m | (1u32 << i)) & (1u32 << j)) != 0 <==> (i == j || m & (1u32 << j) != 0))) by (bit_vector);
    assert(forall|m: u32, i: u32, j: u32| #![trigger (m & !(1u32 << i)) & (1u32 << j)]
        i < 18 && j < 18 ==> (((m & !(1u32 << i)) & (1u32 << j)) != 0 <==> (i != j && m & (1u32 << j) != 0))) by (bit_vector);
    assert(forall|i: u32, j: u32| #![trigger (1u32 << i) & (1u32 << j)]
        i < 18 && j < 18 ==> (((1u32 << i) & (1u32 << j)) != 0 <==> i == j)) by (bit_vector);
    assert(forall|j: u32| #![trigger 1u32 << j] j < 18 ==> 0x3ffffu32 & (1u32 << j) != 0) by (bit_vector);
    assert(forall|j: u32| #![trigger 1u32 << j] j < 18 ==> 0u32 & (1u32 << j) == 0) by (bit_vector);
    assert(forall|m: u32, i: u32| #![trigger m & !(1u32 << i)]
        m & !0x3ffffu32 == 0 ==> (m & !(1u32 << i)) & !0x3ffffu32 == 0) by (bit_vector);
}

/// The mask that holds `t` alone.
pub fn btmask(t: BackendType) -> (m: BackendTypeMask)
    ensures
        m == 1u32 << t.idx(),
        mask_set(m) == Set::<BackendType>::empty().insert(t),
{
    let i: u32 = t.index();
    proof {
        lemma_bits();
        assert(mask_set(1u32 << t.idx()) =~= Set::<BackendType>::empty().insert(t)) by {
            assert forall|u: BackendType| mask_set(1u32 << t.idx()).contains(u) == (u == t) by {
                assert(((1u32 << t.idx()) & (1u32 << u.idx())) != 0 <==> t.idx() == u.idx());
            }
        }
    }
    1u32 << i
}

/// `mask` with `t` added.
pub fn btmask_add(mask: BackendTypeMask, t: BackendType) -> (m: BackendTypeMask)
    ensures
        m == mask | (1u32 << t.idx()),
        mask_set(m) == mask_set(mask).insert(t),
{
    let b: u32 = btmask(t);
    proof {
        lemma_bits();
        assert(mask_set(mask | b) =~= mask_set(mask).insert(t)) by {
            assert forall|u: BackendType| mask_set(mask | b).contains(u) == mask_set(mask).insert(t).contains(u) by {
                assert(((mask | (1u32 << t.idx())) & (1u32 << u.idx())) != 0
                    <==> (t.idx() == u.idx() || mask & (1u32 << u.idx()) != 0));
            }
        }
    }
    mask | b
}

/// Every kind but those in `ts`; no bit beyond the table is set.
pub fn btmask_all_except(ts: &[BackendType]) -> (m: BackendTypeMask)
    ensures
        forall|t: BackendType| mask_set(m).contains(t) <==> !ts@.contains(t),
        m & !BTYPE_MASK_ALL == 0,
{
    let mut mask: u32 = BTYPE_MASK_ALL;
    let mut i: usize = 0;
    proof {
        lemma_bits();
        assert(0x3ffffu32 & !0x3ffffu32 == 0) by (bit_vector);
        assert forall|t: BackendType| mask_set(mask).contains(t) by {
            assert(0x3ffffu32 & (1u32 << t.idx()) != 0);
        }
    }
    while i < ts.len()
        invariant
            i <= ts.len(),
            forall|t: BackendType| mask_set(mask).contains(t) <==> !ts@.take(i as int).contains(t),
            mask & !BTYPE_MASK_ALL == 0,
        decreases ts.len() - i,
    {
        let b: u32 = btmask(ts[i]);
        let ghost before = mask;
        mask = mask & !b;
        proof {
            lemma_bits();
            let x = ts@[i as int];
            assert(ts@.take(i + 1) =~= ts@.take(i as int).push(x));
            assert forall|t: BackendType| mask_set(mask).contains(t) <==> !ts@.take(i + 1).contains(t) by {
                assert(((before & !(1u32 << x.idx())) & (1u32 << t.idx())) != 0
                    <==> (x.idx() != t.idx() && before & (1u32 << t.idx()) != 0));
                assert(mask_set(before).contains(t) == (before & (1u32 << t.idx()) != 0));
                if x == t {
                    assert(ts@.take(i as int).push(x)[i as int] == t);
                } else if ts@.take(i as int).contains(t) {
                    let k = choose|k: int| 0 <= k < i && ts@.take(i as int)[k] == t;
                    assert(ts@.take(i as int).push(x)[k] == t);
                } else {
                    assert(!ts@.take(i as int).push(x).contains(t));
                }
            }
        }
        i = i + 1;
    }
    proof {
        assert(ts@.take(i as int) =~= ts@);
    }
    mask
}

/// Whether `t` is in `mask`.
pub fn btmask_contains(mask: BackendTypeMask, t: BackendType) -> (r: bool)
    ensures
        r == mask_set(mask).contains(t),
{
    mask & btmask(t) != 0
}

/// What was added is contained, and adding changes nothing else.
pub proof fn law_add_then_contains(mask: BackendTypeMask, t: BackendType, u: BackendType)
    ensures
        mask_set(mask | (1u32 << t.idx())).contains(u) <==> (u == t || mask_set(mask).contains(u)),
{
    lemma_bits();
    assert(((mask | (1u32 << t.idx())) & (1u32 << u.idx())) != 0
        <==> (t.idx() == u.idx() || mask & (1u32 << u.idx()) != 0));
}

/// The full mask holds every kind and the empty mask none.
pub proof fn law_full_and_empty(t: BackendType)
    ensures
        mask_set(BTYPE_MASK_ALL).contains(t),
        !mask_set(BTYPE_MASK_NONE).contains(t),
{
    lemma_bits();
    assert(0x3ffffu32 & (1u32 << t.idx()) != 0);
    assert(0u32 & (1u32 << t.idx()) == 0);
}

proof fn lemma_same_bit(a: BackendTypeMask, b: BackendTypeMask, t: BackendType)
    requires
        mask_set(a) == mask_set(b),
    ensures
        (a & (1u32 << t.idx()) != 0) == (b & (1u32 << t.idx()) != 0),
{
    assert(mask_set(a).contains(t) == (a & (1u32 << t.idx()) != 0));
    assert(mask_set(b).contains(t) == (b & (1u32 << t.idx()) != 0));
}

/// A mask without bits beyond the table is known by the kinds it holds.
pub proof fn law_mask_is_its_set(a: BackendTypeMask, b: BackendTypeMask)
    requires
        a & !BTYPE_MASK_ALL == 0,
        b & !BTYPE_MASK_ALL == 0,
        mask_set(a) == mask_set(b),
    ensures
        a == b,
{
    lemma_same_bit(a, b, BackendType::Invalid);
    lemma_same_bit(a, b, BackendType::Backend);
    lemma_same_bit(a, b, BackendType::DeadEndBackend);
    lemma_same_bit(a, b, BackendType::AutovacLauncher);
    lemma_same_bit(a, b, BackendType::AutovacWorker);
    lemma_same_bit(a, b, BackendType::BgWorker);
    lemma_same_bit(a, b, BackendType::WalSender);
    lemma_same_bit(a, b, BackendType::SlotsyncWorker);
    lemma_same_bit(a, b, BackendType::StandaloneBackend);
    lemma_same_bit(a, b, BackendType::Archiver);
    lemma_same_bit(a, b, BackendType::BgWriter);
    lemma_same_bit(a, b, BackendType::Checkpointer);
    lemma_same_bit(a, b, BackendType::IoWorker);
    lemma_same_bit(a, b, BackendType::Startup);
    lemma_same_bit(a, b, BackendType::WalReceiver);
    lemma_same_bit(a, b, BackendType::WalSummarizer);
    lemma_same_bit(a, b, BackendType::WalWriter);
    lemma_same_bit(a, b, BackendType::Logger);
    assert(a == b) by (bit_vector)
        requires
            a & !0x3ffffu32 == 0,
            b & !0x3ffffu32 == 0,
            (a & (1u32 << 0u32) != 0) == (b & (1u32 << 0u32) != 0),
            (a & (1u32 << 1u32) != 0) == (b & (1u32 << 1u32) != 0),
            (a & (1u32 << 2u32) != 0) == (b & (1u32 << 2u32) != 0),
            (a & (1u32 << 3u32) != 0) == (b & (1u32 << 3u32) != 0),
            (a & (1u32 << 4u32) != 0) == (b & (1u32 << 4u32) != 0),
            (a & (1u32 << 5u32) != 0) == (b & (1u32 << 5u32) != 0),
            (a & (1u32 << 6u32) != 0) == (b & (1u32 << 6u32) != 0),
            (a & (1u32 << 7u32) != 0) == (b & (1u32 << 7u32) != 0),
            (a & (1u32 << 8u32) != 0) == (b & (1u32 << 8u32) != 0),
            (a & (1u32 << 9u32) != 0) == (b & (1u32 << 9u32) != 0),
            (a & (1u32 << 10u32) != 0) == (b & (1u32 << 10u32) != 0),
            (a & (1u32 << 11u32) != 0) == (b & (1u32 << 11u32) != 0),
            (a & (1u32 << 12u32) != 0) == (b & (1u32 << 12u32) != 0),
            (a & (1u32 << 13u32) != 0) == (b & (1u32 << 13u32) != 0),
            (a & (1u32 << 14u32) != 0) == (b & (1u32 << 14u32) != 0),
            (a & (1u32 << 15u32) != 0) == (b & (1u32 << 15u32) != 0),
            (a & (1u32 << 16u32) != 0) == (b & (1u32 << 16u32) != 0),
            (a & (1u32 << 17u32) != 0) == (b & (1u32 << 17u32) != 0),
    ;
}

} // verus!
