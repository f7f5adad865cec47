//! The fixed-capacity lists of the MCU, which `heapless` provides.

use vstd::prelude::*;

verus! {

#[verifier::external_type_specification]
#[verifier::external_body]
#[verifier::reject_recursive_types(T)]
pub struct ExBoundedVec<T, const N: usize>(serde_json_core::heapless::Vec<T, N>);

/// A servo with its position.
#[derive(Clone, Copy, Debug, PartialEq, Eq, Structural)]
pub struct PositionResult {
    pub id: u8,
    pub position: i16,
}

/// The elements of a list of servos whose positions are asked for.
pub uninterp spec fn batch_ids(ids: serde_json_core::heapless::Vec<u8, 6>) -> Seq<u8>;

/// The elements of a list of positions.
pub uninterp spec fn batch_positions(
    positions: serde_json_core::heapless::Vec<PositionResult, 6>,
) -> Seq<PositionResult>;

/// The elements of a list of servos that answered a search.
pub uninterp spec fn found_ids(ids: serde_json_core::heapless::Vec<u8, 253>) -> Seq<u8>;

/// Calls `heapless::Vec::as_slice`. The slice has the elements of the list, of which there are at
/// most six.
#[verifier::external_body]
pub(crate) fn batch_slice<'a>(ids: &'a serde_json_core::heapless::Vec<u8, 6>) -> (slice: &'a [u8])
    ensures
        slice@ == batch_ids(*ids),
        slice@.len() <= 6,
{
    ids.as_slice()
}

/// Calls `heapless::Vec::new`. The list is empty.
#[verifier::external_body]
pub(crate) fn no_positions() -> (positions: serde_json_core::heapless::Vec<PositionResult, 6>)
    ensures
        batch_positions(positions) == Seq::<PositionResult>::empty(),
{
    serde_json_core::heapless::Vec::new()
}

/// Calls `heapless::Vec::push`. The element goes to the end of the list, unless the list holds
/// six elements already: then nothing changes and the result is `false`.
#[verifier::external_body]
pub(crate) fn push_position(
    positions: &mut serde_json_core::heapless::Vec<PositionResult, 6>,
    position: PositionResult,
) -> (pushed: bool)
    ensures
        pushed == (batch_positions(*old(positions)).len() < 6),
        batch_positions(*final(positions)) == if pushed {
            batch_positions(*old(positions)).push(position)
        } else {
            batch_positions(*old(positions))
        },
{
    positions.push(position).is_ok()
}

/// Calls `heapless::Vec::as_slice`. The slice has the elements of the list.
#[verifier::external_body]
pub(crate) fn position_slice<'a>(
    positions: &'a serde_json_core::heapless::Vec<PositionResult, 6>,
) -> (slice: &'a [PositionResult])
    ensures
        slice@ == batch_positions(*positions),
{
    positions.as_slice()
}

/// Calls `heapless::Vec::new`. The list is empty.
#[verifier::external_body]
pub(crate) fn none_found() -> (ids: serde_json_core::heapless::Vec<u8, 253>)
    ensures
        found_ids(ids) == Seq::<u8>::empty(),
{
    serde_json_core::heapless::Vec::new()
}

/// Calls `heapless::Vec::push`. The element goes to the end of the list, unless the list holds
/// 253 elements already: then nothing changes and the result is `false`.
#[verifier::external_body]
pub(crate) fn push_found(
    ids: &mut serde_json_core::heapless::Vec<u8, 253>,
    id: u8,
) -> (pushed: bool)
    ensures
        pushed == (found_ids(*old(ids)).len() < 253),
        found_ids(*final(ids)) == if pushed {
            found_ids(*old(ids)).push(id)
        } else {
            found_ids(*old(ids))
        },
{
    ids.push(id).is_ok()
}

/// Calls `heapless::Vec::as_slice`. The slice has the elements of the list.
#[verifier::external_body]
pub(crate) fn found_slice<'a>(ids: &'a serde_json_core::heapless::Vec<u8, 253>) -> (slice: &'a [u8])
    ensures
        slice@ == found_ids(*ids),
{
    ids.as_slice()
}

} // verus!
