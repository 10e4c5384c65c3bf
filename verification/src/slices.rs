//! Comparing and copying slices.

use crate::felt::Felt;
use vstd::prelude::*;

verus! {

/// Whether two slices hold the same elements.
pub fn same_felts(a: &[Felt], b: &[Felt]) -> (result: bool)
    ensures
        result == (a@ == b@),
{
    if a.len() != b.len() {
        return false;
    }
    let mut i: usize = 0;
    while i < a.len()
        invariant
            i <= a@.len(),
            a@.len() == b@.len(),
            forall|k: int| 0 <= k < i ==> a@[k] == b@[k],
        decreases a@.len() - i,
    {
        if a[i] != b[i] {
            return false;
        }
        i = i + 1;
    }
    assert(a@ =~= b@);
    true
}

/// Whether two slices hold the same bytes.
pub fn same_bytes(a: &[u8], b: &[u8]) -> (result: bool)
    ensures
        result == (a@ == b@),
{
    if a.len() != b.len() {
        return false;
    }
    let mut i: usize = 0;
    while i < a.len()
        invariant
            i <= a@.len(),
            a@.len() == b@.len(),
            forall|k: int| 0 <= k < i ==> a@[k] == b@[k],
        decreases a@.len() - i,
    {
        if a[i] != b[i] {
            return false;
        }
        i = i + 1;
    }
    assert(a@ =~= b@);
    true
}

/// Appends a slice's elements to a vector.
pub fn append_felts(target: &mut Vec<Felt>, source: &[Felt])
    ensures
        final(target)@ == old(target)@ + source@,
{
    let mut i: usize = 0;
    while i < source.len()
        invariant
            i <= source@.len(),
            target@ == old(target)@ + source@.take(i as int),
        decreases source@.len() - i,
    {
        target.push(source[i]);
        proof {
            assert(source@.take(i + 1) =~= source@.take(i as int).push(source@[i as int]));
        }
        i = i + 1;
    }
    proof {
        assert(source@.take(source@.len() as int) =~= source@);
    }
}

/// A vector with a slice's elements.
pub fn copy_felts(source: &[Felt]) -> (result: Vec<Felt>)
    ensures
        result@ == source@,
{
    let mut target: Vec<Felt> = Vec::new();
    append_felts(&mut target, source);
    assert(target@ =~= source@);
    target
}

/// Appends a slice's bytes to a vector.
pub fn append_bytes(target: &mut Vec<u8>, source: &[u8])
    ensures
        final(target)@ == old(target)@ + source@,
{
    let mut i: usize = 0;
    while i < source.len()
        invariant
            i <= source@.len(),
            target@ == old(target)@ + source@.take(i as int),
        decreases source@.len() - i,
    {
        target.push(source[i]);
        proof {
            assert(source@.take(i + 1) =~= source@.take(i as int).push(source@[i as int]));
        }
        i = i + 1;
    }
    proof {
        assert(source@.take(source@.len() as int) =~= source@);
    }
}

} // verus!
