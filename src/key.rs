//! 32-byte identifiers of assets and accounts, and their canonical order.
use vstd::prelude::*;

verus! {

/// Identifies an asset, a custody account, or a signer.
pub type Key = [u8; 32];

/// The key made of zero bytes, which identifies nothing.
pub open spec fn zero_key() -> Seq<u8> {
    Seq::new(32, |i: int| 0u8)
}

/// `a` precedes `b` in lexicographic byte order.
pub open spec fn key_less(a: Seq<u8>, b: Seq<u8>) -> bool {
    exists|i: int|
        0 <= i < a.len() && i < b.len() && a[i] < b[i] && forall|j: int| 0 <= j < i ==> a[j] == b[j]
}

/// The first index at which two keys differ, or `None` when they are equal.
pub fn first_difference(a: &Key, b: &Key) -> (r: Option<usize>)
    ensures
        match r {
            None => a@ == b@,
            Some(i) => {
                &&& i < 32
                &&& a@[i as int] != b@[i as int]
                &&& forall|j: int| 0 <= j < i ==> a@[j] == b@[j]
            },
        },
{
    let mut i: usize = 0;
    while i < 32
        invariant
            0 <= i <= 32,
            a@.len() == 32,
            b@.len() == 32,
            forall|j: int| 0 <= j < i ==> a@[j] == b@[j],
        decreases 32 - i,
    {
        if a[i] != b[i] {
            return Some(i);
        }
        i = i + 1;
    }
    assert(a@ =~= b@);
    None
}

/// Whether two keys are equal.
pub fn same_key(a: &Key, b: &Key) -> (r: bool)
    ensures
        r == (a@ == b@),
{
    match first_difference(a, b) {
        None => true,
        Some(i) => {
            assert(a@[i as int] != b@[i as int]);
            false
        },
    }
}

/// Whether `a` precedes `b` in lexicographic byte order.
pub fn precedes(a: &Key, b: &Key) -> (r: bool)
    ensures
        r == key_less(a@, b@),
{
    match first_difference(a, b) {
        None => {
            assert forall|i: int| 0 <= i < a@.len() && i < b@.len() implies !(a@[i] < b@[i]) by {}
            false
        },
        Some(i) => {
            if a[i] < b[i] {
                assert(key_less(a@, b@)) by {
                    assert(0 <= i < a@.len() && i < b@.len() && a@[i as int] < b@[i as int]);
                }
                true
            } else {
                assert forall|k: int|
                    0 <= k < a@.len() && k < b@.len() && a@[k] < b@[k] implies !(forall|j: int|
                    0 <= j < k ==> a@[j] == b@[j]) by {
                    if k < i {
                    } else if k == i {
                    } else {
                        assert(!(a@[i as int] == b@[i as int]));
                    }
                }
                false
            }
        },
    }
}

/// Whether `k` is the zero key.
pub fn is_zero_key(k: &Key) -> (r: bool)
    ensures
        r == (k@ == zero_key()),
{
    let mut i: usize = 0;
    while i < 32
        invariant
            0 <= i <= 32,
            k@.len() == 32,
            forall|j: int| 0 <= j < i ==> k@[j] == 0,
        decreases 32 - i,
    {
        if k[i] != 0 {
            assert(k@[i as int] != zero_key()[i as int]);
            return false;
        }
        i = i + 1;
    }
    assert(k@ =~= zero_key());
    true
}

} // verus!
