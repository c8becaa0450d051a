//! The bounded collections and the codec that the ledger relies on, with what is taken on trust
//! about each of them.

use vstd::prelude::*;
use bounded_collections::{BoundedBTreeMap, BoundedVec, ConstU32};
use parity_scale_codec::{Encode, MaxEncodedLen};
use crate::types::{Item, ItemView};

verus! {

/// `bounded_collections::ConstU32`: a bound fixed in the type.
#[verifier::external_type_specification]
#[verifier::external_body]
pub struct ExConstU32<const N: u32>(ConstU32<N>);

/// `bounded_collections::BoundedBTreeMap`: an ordered map that holds no more entries than its
/// bound. Nothing is known of a value of it but through the functions below.
#[verifier::external_type_specification]
#[verifier::external_body]
#[verifier::reject_recursive_types(K)]
#[verifier::reject_recursive_types(V)]
#[verifier::reject_recursive_types(S)]
pub struct ExBoundedBTreeMap<K, V, S>(BoundedBTreeMap<K, V, S>);

/// `bounded_collections::BoundedVec`: a vector that holds no more items than its bound.
/// Nothing is known of a value of it but through the functions below.
#[verifier::external_type_specification]
#[verifier::external_body]
#[verifier::reject_recursive_types(T)]
#[verifier::reject_recursive_types(S)]
pub struct ExBoundedVec<T, S>(BoundedVec<T, S>);

/// The items indexed under one location, by serial number; at most 1000 of them.
pub type Bucket = BoundedBTreeMap<u32, Item, ConstU32<1000>>;

/// The lines of a bill of materials; at most 100 of them.
pub type BomLines = BoundedVec<Item, ConstU32<100>>;

/// What a bucket holds: for each serial number in it, the item stored there.
pub uninterp spec fn bucket_entries(
    bucket: BoundedBTreeMap<u32, Item, ConstU32<1000>>,
) -> Map<u32, ItemView>;

/// What a bill of materials holds: its lines, in the order in which they were added.
pub uninterp spec fn bom_lines(lines: BoundedVec<Item, ConstU32<100>>) -> Seq<ItemView>;

/// The items of `entries` whose serial number is below `bound`, by increasing serial number.
pub open spec fn listing_below(entries: Map<u32, ItemView>, bound: nat) -> Seq<ItemView>
    decreases bound,
{
    if bound == 0 {
        Seq::empty()
    } else {
        let serial = (bound - 1) as u32;
        let smaller = listing_below(entries, (bound - 1) as nat);
        if bound - 1 <= u32::MAX && entries.contains_key(serial) {
            smaller.push(entries[serial])
        } else {
            smaller
        }
    }
}

/// All the items of `entries`, by increasing serial number.
pub open spec fn ascending_items(entries: Map<u32, ItemView>) -> Seq<ItemView> {
    listing_below(entries, 0x1_0000_0000)
}

/// The items of a list, each by its view.
pub open spec fn item_views(items: Seq<Item>) -> Seq<ItemView> {
    items.map_values(|item: Item| item@)
}

/// The number of bytes that the compact encoding of a length takes.
pub open spec fn compact_prefix_len(len: nat) -> nat {
    if len <= 0x3f {
        1
    } else if len <= 0x3fff {
        2
    } else if len <= 0x3fff_ffff {
        4
    } else {
        5
    }
}

/// `BoundedBTreeMap::new`: the new map holds nothing.
#[verifier::external_body]
pub(crate) fn bucket_new() -> (bucket: Bucket)
    ensures
        (bucket_entries(bucket) == Map::<u32, ItemView>::empty()),
{
    BoundedBTreeMap::new()
}

/// `BoundedBTreeMap::try_insert`: the item is stored under the serial number, in place of what
/// was there, unless the map already holds 1000 entries and none of them under that number; in
/// that case nothing changes.
#[verifier::external_body]
pub(crate) fn bucket_try_insert(bucket: &mut Bucket, serial: u32, item: Item) -> (stored: bool)
    ensures
        stored == (bucket_entries(*old(bucket)).len() < 1000 || bucket_entries(
            *old(bucket),
        ).contains_key(serial)),
        stored ==> bucket_entries(*final(bucket)) == bucket_entries(*old(bucket)).insert(
            serial,
            item@,
        ),
        !stored ==> bucket_entries(*final(bucket)) == bucket_entries(*old(bucket)),
{
    bucket.try_insert(serial, item).is_ok()
}

/// `BoundedBTreeMap::remove`: the entry under the serial number, if there is one, leaves the map.
#[verifier::external_body]
pub(crate) fn bucket_remove(bucket: &mut Bucket, serial: u32)
    ensures
        bucket_entries(*final(bucket)) == bucket_entries(*old(bucket)).remove(serial),
{
    bucket.remove(&serial);
}

/// `BTreeMap::contains_key`, reached through the bounded map: whether an entry is stored under
/// the serial number.
#[verifier::external_body]
pub(crate) fn bucket_contains(bucket: &Bucket, serial: u32) -> (present: bool)
    ensures
        present == bucket_entries(*bucket).contains_key(serial),
{
    bucket.contains_key(&serial)
}

/// `BoundedBTreeMap::is_full`: whether the map holds its bound of 1000 entries or more.
#[verifier::external_body]
pub(crate) fn bucket_is_full(bucket: &Bucket) -> (full: bool)
    ensures
        full == (bucket_entries(*bucket).len() >= 1000),
{
    bucket.is_full()
}

/// `BTreeMap::values`, reached through the bounded map: the items come by increasing serial
/// number, each copied.
#[verifier::external_body]
pub(crate) fn bucket_items(bucket: &Bucket) -> (items: Vec<Item>)
    ensures
        item_views(items@) == ascending_items(bucket_entries(*bucket)),
{
    bucket.values().cloned().collect()
}

/// `Clone` of `BoundedBTreeMap`: the copy holds the same entries.
#[verifier::external_body]
pub(crate) fn bucket_clone(bucket: &Bucket) -> (copy: Bucket)
    ensures
        bucket_entries(copy) == bucket_entries(*bucket),
{
    bucket.clone()
}

/// `BoundedVec::new`: the new vector holds nothing.
#[verifier::external_body]
pub(crate) fn lines_new() -> (lines: BomLines)
    ensures
        bom_lines(lines).len() == 0,
{
    BoundedVec::new()
}

/// `BoundedVec::try_push`: the item is added at the end unless the vector already holds 100
/// items; in that case nothing changes.
#[verifier::external_body]
pub(crate) fn lines_try_push(lines: &mut BomLines, item: Item) -> (pushed: bool)
    ensures
        pushed == (bom_lines(*old(lines)).len() < 100),
        pushed ==> bom_lines(*final(lines)) == bom_lines(*old(lines)).push(item@),
        !pushed ==> bom_lines(*final(lines)) == bom_lines(*old(lines)),
{
    lines.try_push(item).is_ok()
}

/// `slice::to_vec`, reached through the bounded vector: the items in order, each copied.
#[verifier::external_body]
pub(crate) fn lines_to_vec(lines: &BomLines) -> (items: Vec<Item>)
    ensures
        item_views(items@) == bom_lines(*lines),
{
    lines.to_vec()
}

/// `Clone` of `BoundedVec`: the copy holds the same items in the same order.
#[verifier::external_body]
pub(crate) fn lines_clone(lines: &BomLines) -> (copy: BomLines)
    ensures
        bom_lines(copy) == bom_lines(*lines),
{
    lines.clone()
}

/// `TryFrom<Vec<u8>>` of a `BoundedVec` with bound 128: whether the bytes fit within the bound.
#[verifier::external_body]
pub(crate) fn reason_fits(bytes: &Vec<u8>) -> (fits: bool)
    ensures
        fits == (bytes@.len() <= 128),
{
    BoundedVec::<u8, ConstU32<128>>::try_from(bytes.clone()).is_ok()
}

/// `Encode::encode` of a byte vector: the length of the encoding, which is the compact encoding
/// of the vector's length followed by the bytes themselves. The encoder does not take a vector
/// of more than `u32::MAX` bytes.
#[verifier::external_body]
pub(crate) fn encoded_len(bytes: &Vec<u8>) -> (n: usize)
    requires
        bytes@.len() <= u32::MAX,
    ensures
        n == compact_prefix_len(bytes@.len()) + bytes@.len(),
{
    bytes.encode().len()
}

/// `MaxEncodedLen::max_encoded_len` of a `BoundedVec` of bytes with bound 16: one byte for the
/// length and sixteen for the contents.
#[verifier::external_body]
pub(crate) fn sku_max_encoded_len() -> (n: usize)
    ensures
        n == 17,
{
    <BoundedVec<u8, ConstU32<16>> as MaxEncodedLen>::max_encoded_len()
}

} // verus!
