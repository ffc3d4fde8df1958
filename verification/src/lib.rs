//! A parser for Standard MIDI Files and the MIDI messages they carry.
pub mod file;
pub mod message_channel_voice;
pub mod message_system;
pub mod message_system_common;
pub mod message_system_real_time;
pub mod meta_event;
pub mod note;
pub mod text;
pub mod variable_length_quantity;

use vstd::prelude::*;

verus! {

/// Reading fixed-size windows of a slice as arrays.
pub trait SliceGetFixed<T> {
    /// The elements of the slice.
    spec fn spec_elements(&self) -> Seq<T>;

    /// The `N` elements from `index` on, as an array, when the slice holds them all.
    fn get_fixed<const N: usize>(&self, index: usize) -> (res: Option<&[T; N]>)
        requires
            index + N <= usize::MAX,
        ensures
            index + N <= self.spec_elements().len() ==> (res matches Some(window) && window@
                == self.spec_elements().subrange(index as int, index + N)),
            index + N > self.spec_elements().len() ==> res is None,
    ;
}

/// `TryFrom<&[T]> for &[T; N]`: the slice as an array reference exactly when its length is `N`.
#[verifier::external_body]
fn slice_as_array<T, const N: usize>(slice: &[T]) -> (res: Option<&[T; N]>)
    ensures
        res is Some <==> slice@.len() == N,
        res matches Some(array) ==> array@ == slice@,
{
    slice.try_into().ok()
}

impl<T> SliceGetFixed<T> for [T] {
    open spec fn spec_elements(&self) -> Seq<T> {
        self@
    }

    fn get_fixed<const N: usize>(&self, index: usize) -> (res: Option<&[T; N]>) {
        if index > self.len() || N > self.len() - index {
            return None;
        }
        let window = vstd::slice::slice_subrange(self, index, index + N);
        slice_as_array::<T, N>(window)
    }
}

/// A big-endian number from its bytes.
pub open spec fn spec_be(bytes: Seq<u8>) -> nat
    decreases bytes.len(),
{
    if bytes.len() == 0 {
        0
    } else {
        spec_be(bytes.drop_last()) * 256 + bytes.last() as nat
    }
}

/// `u16::from_be_bytes`: two bytes read as a big-endian number.
pub fn be_u16(bytes: &[u8; 2]) -> (res: u16)
    ensures
        res as nat == spec_be(bytes@),
{
    let ghost b = bytes@;
    assert(spec_be(b) == (b[0] as nat) * 256 + b[1] as nat) by {
        reveal_with_fuel(spec_be, 3);
        assert(b.drop_last().drop_last().len() == 0);
    }
    bytes[0] as u16 * 256 + bytes[1] as u16
}

/// `u32::from_be_bytes`: four bytes read as a big-endian number.
pub fn be_u32(bytes: &[u8; 4]) -> (res: u32)
    ensures
        res as nat == spec_be(bytes@),
{
    let ghost b = bytes@;
    assert(spec_be(b) == (b[0] as nat) * 0x100_0000 + (b[1] as nat) * 0x1_0000 + (b[2] as nat)
        * 0x100 + b[3] as nat) by {
        reveal_with_fuel(spec_be, 5);
        assert(b.drop_last().drop_last().drop_last().drop_last().len() == 0);
    }
    bytes[0] as u32 * 0x100_0000 + bytes[1] as u32 * 0x1_0000 + bytes[2] as u32 * 0x100
        + bytes[3] as u32
}

/// Whether two byte slices hold the same bytes.
pub fn bytes_eq(a: &[u8], b: &[u8]) -> (res: bool)
    ensures
        res == (a@ == b@),
{
    if a.len() != b.len() {
        return false;
    }
    let mut i: usize = 0;
    while i < a.len()
        invariant
            a@.len() == b@.len(),
            i <= a@.len(),
            forall|j: int| 0 <= j < i ==> a@[j] == b@[j],
        decreases a@.len() - i,
    {
        if a[i] != b[i] {
            return false;
        }
        i = i + 1;
    }
    assert(a@ =~= b@);
    true
}

/// A result with the value on its `Ok` side taken by its view.
pub open spec fn ok_view<T: View, E>(r: Result<T, E>) -> Result<T::V, E> {
    match r {
        Ok(t) => Ok(t@),
        Err(e) => Err(e),
    }
}

/// A result with the error on its `Err` side taken by its view.
pub open spec fn err_view<T, E: View>(r: Result<T, E>) -> Result<T, E::V> {
    match r {
        Ok(t) => Ok(t),
        Err(e) => Err(e@),
    }
}

/// A result with both sides taken by their views.
pub open spec fn result_view<T: View, E: View>(r: Result<T, E>) -> Result<T::V, E::V> {
    match r {
        Ok(t) => Ok(t@),
        Err(e) => Err(e@),
    }
}

/// The index of the first occurrence of `target` in `bytes`, if any.
pub open spec fn spec_position(bytes: Seq<u8>, target: u8) -> Option<int>
    decreases bytes.len(),
{
    if bytes.len() == 0 {
        None
    } else if bytes[0] == target {
        Some(0)
    } else {
        match spec_position(bytes.drop_first(), target) {
            Some(i) => Some(i + 1),
            None => None,
        }
    }
}

/// `spec_position` finds the first occurrence, and only misses when there is none.
pub proof fn lemma_spec_position(bytes: Seq<u8>, target: u8)
    ensures
        spec_position(bytes, target) matches Some(i) ==> 0 <= i < bytes.len() && bytes[i] == target
            && forall|j: int| 0 <= j < i ==> bytes[j] != target,
        spec_position(bytes, target) is None ==> forall|j: int|
            0 <= j < bytes.len() ==> bytes[j] != target,
    decreases bytes.len(),
{
    if bytes.len() > 0 {
        lemma_spec_position(bytes.drop_first(), target);
        assert forall|j: int| 1 <= j < bytes.len() implies bytes[j] == bytes.drop_first()[j - 1] by {}
    }
}

/// The first occurrence of `target` in `bytes` is where the bytes before it differ from `target`.
proof fn lemma_spec_position_is(bytes: Seq<u8>, target: u8, i: int)
    requires
        0 <= i <= bytes.len(),
        forall|j: int| 0 <= j < i ==> bytes[j] != target,
    ensures
        i < bytes.len() && bytes[i] == target ==> spec_position(bytes, target) == Some(i),
        i == bytes.len() ==> spec_position(bytes, target) is None,
    decreases i,
{
    if i > 0 {
        assert forall|j: int| 0 <= j < i - 1 implies bytes.drop_first()[j] != target by {
            assert(bytes.drop_first()[j] == bytes[j + 1]);
        }
        lemma_spec_position_is(bytes.drop_first(), target, i - 1);
    }
}

/// Finds the first occurrence of `target` in `bytes`.
pub fn position(bytes: &[u8], target: u8) -> (res: Option<usize>)
    ensures
        match (res, spec_position(bytes@, target)) {
            (Some(i), Some(j)) => i as int == j,
            (None, None) => true,
            _ => false,
        },
{
    let mut i: usize = 0;
    while i < bytes.len()
        invariant
            i <= bytes@.len(),
            forall|j: int| 0 <= j < i ==> bytes@[j] != target,
        decreases bytes@.len() - i,
    {
        if bytes[i] == target {
            proof {
                lemma_spec_position_is(bytes@, target, i as int);
            }
            return Some(i);
        }
        i = i + 1;
    }
    proof {
        lemma_spec_position_is(bytes@, target, i as int);
    }
    None
}

/// Widens a `u32` to a `usize`; every `u32` fits.
pub fn u32_as_usize(input: u32) -> (res: usize)
    ensures
        res as int == input as int,
{
    input as usize
}

} // verus!
