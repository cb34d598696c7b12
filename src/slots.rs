//! Slot storage for widget records and style versions, kept in `slab::Slab`.
//!
//! Each kind of record has its own slab. What a slab holds is named by a map
//! from key to record; the wrappers below state each operation over it, as
//! the slab crate's source shows it: `insert` fills the next vacant key,
//! `remove` and indexing panic on a vacant key, iteration visits occupied
//! keys in increasing order.
use crate::edit::TextEdit;
use crate::text_box::TextBox;
use slab::Slab;
use vstd::prelude::*;

verus! {

#[verifier::external_type_specification]
#[verifier::external_body]
#[verifier::reject_recursive_types(T)]
pub struct ExSlab<T>(Slab<T>);

/// What a slab of text boxes holds, by key.
pub uninterp spec fn box_slots(s: Slab<TextBox>) -> Map<nat, TextBox>;

/// What a slab of text edits holds, by key.
pub uninterp spec fn edit_slots(s: Slab<TextEdit>) -> Map<nat, TextEdit>;

/// What a slab of style versions holds, by key.
pub uninterp spec fn style_slots(s: Slab<u64>) -> Map<nat, u64>;

/// Keys in increasing order, each once, exactly those of `m`.
pub open spec fn lists_keys<V>(keys: Seq<usize>, m: Map<nat, V>) -> bool {
    &&& forall|i: int, j: int| 0 <= i < j < keys.len() ==> keys[i] < keys[j]
    &&& forall|i: int| 0 <= i < keys.len() ==> m.contains_key(#[trigger] keys[i] as nat)
    &&& forall|k: nat| m.contains_key(k) ==> exists|i: int| 0 <= i < keys.len() && keys[i] == k
}

/// Relies on `Slab::with_capacity`: an empty slab.
#[verifier::external_body]
pub(crate) fn new_boxes() -> (r: Slab<TextBox>)
    ensures
        forall|k: nat| !box_slots(r).contains_key(k),
{
    Slab::with_capacity(10)
}

/// Relies on `Slab::insert`: the value goes under a key that was vacant.
#[verifier::external_body]
pub(crate) fn insert_box(s: &mut Slab<TextBox>, v: TextBox) -> (k: usize)
    ensures
        !box_slots(*old(s)).contains_key(k as nat),
        box_slots(*final(s)) == box_slots(*old(s)).insert(k as nat, v),
{
    s.insert(v)
}

/// Relies on `Slab::get`: the value under `k`, if any.
#[verifier::external_body]
pub(crate) fn get_box(s: &Slab<TextBox>, k: usize) -> (r: Option<&TextBox>)
    ensures
        r is Some <==> box_slots(*s).contains_key(k as nat),
        r matches Some(v) ==> *v == box_slots(*s)[k as nat],
{
    s.get(k)
}

/// Relies on `Slab`'s `IndexMut`: the value under an occupied key.
#[verifier::external_body]
pub(crate) fn box_mut(s: &mut Slab<TextBox>, k: usize) -> (r: &mut TextBox)
    requires
        box_slots(*old(s)).contains_key(k as nat),
    ensures
        *r == box_slots(*old(s))[k as nat],
        box_slots(*final(s)) == box_slots(*old(s)).insert(k as nat, *final(r)),
{
    &mut s[k]
}

/// Relies on `Slab::remove`: the value under an occupied key is taken out.
#[verifier::external_body]
pub(crate) fn remove_box(s: &mut Slab<TextBox>, k: usize) -> (r: TextBox)
    requires
        box_slots(*old(s)).contains_key(k as nat),
    ensures
        r == box_slots(*old(s))[k as nat],
        box_slots(*final(s)) == box_slots(*old(s)).remove(k as nat),
{
    s.remove(k)
}

/// Relies on `Slab::iter`: it visits the occupied keys in increasing order.
#[verifier::external_body]
pub(crate) fn box_keys(s: &Slab<TextBox>) -> (r: Vec<usize>)
    ensures
        lists_keys(r@, box_slots(*s)),
{
    s.iter().map(|(k, _)| k).collect()
}

/// Relies on `Slab::with_capacity`: an empty slab.
#[verifier::external_body]
pub(crate) fn new_edits() -> (r: Slab<TextEdit>)
    ensures
        forall|k: nat| !edit_slots(r).contains_key(k),
{
    Slab::with_capacity(10)
}

/// Relies on `Slab::insert`: the value goes under a key that was vacant.
#[verifier::external_body]
pub(crate) fn insert_edit(s: &mut Slab<TextEdit>, v: TextEdit) -> (k: usize)
    ensures
        !edit_slots(*old(s)).contains_key(k as nat),
        edit_slots(*final(s)) == edit_slots(*old(s)).insert(k as nat, v),
{
    s.insert(v)
}

/// Relies on `Slab::get`: the value under `k`, if any.
#[verifier::external_body]
pub(crate) fn get_edit(s: &Slab<TextEdit>, k: usize) -> (r: Option<&TextEdit>)
    ensures
        r is Some <==> edit_slots(*s).contains_key(k as nat),
        r matches Some(v) ==> *v == edit_slots(*s)[k as nat],
{
    s.get(k)
}

/// Relies on `Slab`'s `IndexMut`: the value under an occupied key.
#[verifier::external_body]
pub(crate) fn edit_mut(s: &mut Slab<TextEdit>, k: usize) -> (r: &mut TextEdit)
    requires
        edit_slots(*old(s)).contains_key(k as nat),
    ensures
        *r == edit_slots(*old(s))[k as nat],
        edit_slots(*final(s)) == edit_slots(*old(s)).insert(k as nat, *final(r)),
{
    &mut s[k]
}

/// Relies on `Slab::remove`: the value under an occupied key is taken out.
#[verifier::external_body]
pub(crate) fn remove_edit(s: &mut Slab<TextEdit>, k: usize) -> (r: TextEdit)
    requires
        edit_slots(*old(s)).contains_key(k as nat),
    ensures
        r == edit_slots(*old(s))[k as nat],
        edit_slots(*final(s)) == edit_slots(*old(s)).remove(k as nat),
{
    s.remove(k)
}

/// Relies on `Slab::iter`: it visits the occupied keys in increasing order.
#[verifier::external_body]
pub(crate) fn edit_keys(s: &Slab<TextEdit>) -> (r: Vec<usize>)
    ensures
        lists_keys(r@, edit_slots(*s)),
{
    s.iter().map(|(k, _)| k).collect()
}

/// Relies on `Slab`'s `FromIterator`: each value goes under the key paired
/// with it. The slab allocates a slot for every smaller key, so `k` is small.
#[verifier::external_body]
pub(crate) fn styles_with(k: usize, v: u64) -> (r: Slab<u64>)
    requires
        k < 64,
    ensures
        style_slots(r) == map![k as nat => v],
{
    [(k, v)].into_iter().collect()
}

/// Relies on `Slab::insert`: the value goes under a key that was vacant.
#[verifier::external_body]
pub(crate) fn insert_style(s: &mut Slab<u64>, v: u64) -> (k: usize)
    ensures
        !style_slots(*old(s)).contains_key(k as nat),
        style_slots(*final(s)) == style_slots(*old(s)).insert(k as nat, v),
{
    s.insert(v)
}

/// Relies on `Slab::get`: the value under `k`, if any.
#[verifier::external_body]
pub(crate) fn get_style(s: &Slab<u64>, k: usize) -> (r: Option<&u64>)
    ensures
        r is Some <==> style_slots(*s).contains_key(k as nat),
        r matches Some(v) ==> *v == style_slots(*s)[k as nat],
{
    s.get(k)
}

/// Relies on `Slab`'s `IndexMut`: the value under an occupied key.
#[verifier::external_body]
pub(crate) fn style_mut(s: &mut Slab<u64>, k: usize) -> (r: &mut u64)
    requires
        style_slots(*old(s)).contains_key(k as nat),
    ensures
        *r == style_slots(*old(s))[k as nat],
        style_slots(*final(s)) == style_slots(*old(s)).insert(k as nat, *final(r)),
{
    &mut s[k]
}

/// Relies on `Slab::try_remove`: the value under `k` is taken out, if any.
#[verifier::external_body]
pub(crate) fn try_remove_style(s: &mut Slab<u64>, k: usize) -> (r: Option<u64>)
    ensures
        r is Some <==> style_slots(*old(s)).contains_key(k as nat),
        r matches Some(v) ==> v == style_slots(*old(s))[k as nat],
        style_slots(*final(s)) == style_slots(*old(s)).remove(k as nat),
{
    s.try_remove(k)
}

} // verus!
