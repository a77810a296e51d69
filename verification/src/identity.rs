//! Identifiers of commits and snapshots, and the time of a commit.
//!
//! UUIDs are held as 128-bit integers, the first octet being the most
//! significant one.

use vstd::prelude::*;
use vstd::set_lib::*;

verus! {

/// Two to the power of 64.
pub open spec fn two_to_64() -> nat {
    0x1_0000_0000_0000_0000
}

/// The version field of a UUID.
pub open spec fn uuid_version(uuid: u128) -> u128 {
    (uuid >> 76) & 0xf
}

/// The variant field of a UUID; the variant that carries a version is 2.
pub open spec fn uuid_variant(uuid: u128) -> u128 {
    (uuid >> 62) & 0x3
}

/// The lower-case hexadecimal digit of a number below sixteen.
pub open spec fn hex_digit(d: nat) -> char {
    if d < 10 {
        (48 + d) as char
    } else {
        (87 + d) as char
    }
}

/// The last `n` hexadecimal digits of a number.
pub open spec fn hex(v: nat, n: nat) -> Seq<char>
    decreases n,
{
    if n == 0 {
        Seq::empty()
    } else {
        hex(v / 16, (n - 1) as nat).push(hex_digit(v % 16))
    }
}

/// The hyphenated form of a UUID: groups of 8, 4, 4, 4 and 12 digits.
pub open spec fn uuid_text(uuid: u128) -> Seq<char> {
    let digits = hex(uuid as nat, 32);
    digits.subrange(0, 8) + seq!['-'] + digits.subrange(8, 12) + seq!['-'] + digits.subrange(12, 16)
        + seq!['-'] + digits.subrange(16, 20) + seq!['-'] + digits.subrange(20, 32)
}

/// Calls `uuid::Uuid::new_v4`, which draws 122 random bits. Of the outcome it is
/// trusted that it is a version 4 UUID of the variant that carries a version.
/// Which one is drawn is left open.
#[verifier::external_body]
fn random_uuid() -> (r: u128)
    ensures
        uuid_version(r) == 4,
        uuid_variant(r) == 2,
{
    uuid::Uuid::new_v4().as_u128()
}

/// Calls `uuid::Uuid::now_v7`, which combines the clock, a counter and random
/// bits. Of the outcome it is trusted that it is a version 7 UUID of the variant
/// that carries a version. Which one it is, and when it was made, is left open.
#[verifier::external_body]
pub(crate) fn time_ordered_uuid() -> (r: u128)
    ensures
        uuid_version(r) == 7,
        uuid_variant(r) == 2,
{
    uuid::Uuid::now_v7().as_u128()
}

/// Calls `uuid::Uuid::as_u64_pair`, trusted to give the 64 most significant bits
/// and then the 64 least significant ones.
#[verifier::external_body]
fn uuid_halves(uuid: u128) -> (r: (u64, u64))
    ensures
        r.0 == uuid as nat / two_to_64(),
        r.1 == uuid as nat % two_to_64(),
{
    uuid::Uuid::from_u128(uuid).as_u64_pair()
}

/// Calls the `Display` impl of `uuid::Uuid`, trusted to write the hyphenated form
/// in lower case.
#[verifier::external_body]
pub(crate) fn uuid_to_text(uuid: u128) -> (r: String)
    ensures
        r@ == uuid_text(uuid),
{
    uuid::Uuid::from_u128(uuid).to_string()
}

/// Calls `chrono::Utc::now` and takes its milliseconds since the epoch, trusted
/// not to be negative: the call does not return with the clock set to before the
/// epoch. Which time it is, is left open.
#[verifier::external_body]
pub(crate) fn current_time_millis() -> (r: i64)
    ensures
        r >= 0,
{
    chrono::Utc::now().timestamp_millis()
}

/// The snapshot id that the two halves of a UUID give: the magnitude of their
/// exclusive or, taken as a signed integer. The smallest integer has no
/// magnitude that is one.
pub open spec fn folded_id(lhs: u64, rhs: u64) -> Option<i64> {
    let folded = (lhs ^ rhs) as i64;
    if folded == i64::MIN {
        None
    } else if folded < 0 {
        Some((-folded) as i64)
    } else {
        Some(folded)
    }
}

/// Folds the two halves of a UUID into a snapshot id.
pub fn fold_uuid_halves(lhs: u64, rhs: u64) -> (r: Option<i64>)
    ensures
        r == folded_id(lhs, rhs),
        r matches Some(id) ==> id >= 0,
{
    let folded: i64 = (lhs ^ rhs) as i64;
    if folded == i64::MIN {
        None
    } else if folded < 0 {
        Some(-folded)
    } else {
        Some(folded)
    }
}

fn contains_id(ids: &Vec<i64>, id: i64) -> (r: bool)
    ensures
        r == ids@.contains(id),
{
    for i in 0..ids.len()
        invariant
            forall|j: int| 0 <= j < i ==> ids@[j] != id,
    {
        if ids[i] == id {
            return true;
        }
    }
    false
}

/// Whether this is an id for a new snapshot beside those in use: not negative, and
/// none of them. Each such id is one that a draw can give.
pub open spec fn is_fresh_id(snapshot_ids: Seq<i64>, id: i64) -> bool {
    &&& id >= 0
    &&& !snapshot_ids.contains(id)
}

/// What a draw comes to: the id that it folds into, unless that is in use.
pub open spec fn accepted_id(snapshot_ids: Seq<i64>, lhs: u64, rhs: u64) -> Option<i64> {
    match folded_id(lhs, rhs) {
        Some(id) => if snapshot_ids.contains(id) {
            None
        } else {
            Some(id)
        },
        None => None,
    }
}

/// Takes the id that the two halves of a UUID give, unless it is in use.
pub fn accept_draw(snapshot_ids: &Vec<i64>, lhs: u64, rhs: u64) -> (r: Option<i64>)
    ensures
        r == accepted_id(snapshot_ids@, lhs, rhs),
        r matches Some(id) ==> is_fresh_id(snapshot_ids@, id),
{
    match fold_uuid_halves(lhs, rhs) {
        Some(id) => if contains_id(snapshot_ids, id) {
            None
        } else {
            Some(id)
        },
        None => None,
    }
}

/// Draws snapshot ids from random UUIDs until one is not in use. Which one is
/// drawn is left open.
///
/// Should every one of 2^64 - 1 draws fail, the smallest unused id is taken; a draw
/// could have given that one too ([`law_every_id_can_be_drawn`]).
pub fn generate_unique_snapshot_id(snapshot_ids: &Vec<i64>) -> (r: i64)
    requires
        snapshot_ids@.len() <= i64::MAX,
    ensures
        is_fresh_id(snapshot_ids@, r),
{
    let mut draws: u64 = u64::MAX;
    while draws > 0
        decreases draws,
    {
        let (lhs, rhs) = uuid_halves(random_uuid());
        if let Some(id) = accept_draw(snapshot_ids, lhs, rhs) {
            return id;
        }
        draws = draws - 1;
    }
    smallest_unused_id(snapshot_ids)
}

fn smallest_unused_id(ids: &Vec<i64>) -> (r: i64)
    requires
        ids@.len() <= i64::MAX,
    ensures
        is_fresh_id(ids@, r),
        forall|smaller: i64| 0 <= smaller < r ==> ids@.contains(smaller),
{
    let mut id: i64 = 0;
    while contains_id(ids, id)
        invariant
            0 <= id <= ids@.len() <= i64::MAX,
            forall|j: i64| 0 <= j < id ==> ids@.contains(j),
        decreases ids@.len() - id,
    {
        proof {
            lemma_as_many_as_distinct(ids@, id + 1);
        }
        id = id + 1;
    }
    id
}

/// A sequence that holds `n` different numbers has at least that length.
proof fn lemma_as_many_as_distinct(ids: Seq<i64>, n: int)
    requires
        0 <= n <= i64::MAX + 1,
        forall|j: i64| 0 <= j < n ==> ids.contains(j),
    ensures
        n <= ids.len(),
{
    let numbers = ids.map_values(|id: i64| id as int);
    let held = numbers.to_set();
    numbers.lemma_cardinality_of_set();
    assert forall|j: int| 0 <= j < n implies held.contains(j) by {
        assert(ids.contains(j as i64));
        let i = choose|i: int| 0 <= i < ids.len() && ids[i] == j as i64;
        assert(numbers[i] == j);
    }
    assert(set_int_range(0, n).subset_of(held));
    lemma_int_range(0, n);
    lemma_len_subset(set_int_range(0, n), held);
}

/// Whether a version 4 UUID folds into this id.
pub open spec fn can_be_drawn(id: i64) -> bool {
    exists|uuid: u128|
        {
            &&& #[trigger] uuid_version(uuid) == 4
            &&& uuid_variant(uuid) == 2
            &&& folded_id(
                (uuid as nat / two_to_64()) as u64,
                (uuid as nat % two_to_64()) as u64,
            ) == Some(id)
        }
}

/// The ids that draws can give are just those that are not negative.
pub proof fn law_every_id_can_be_drawn(id: i64)
    ensures
        can_be_drawn(id) <==> id >= 0,
{
    if id >= 0 {
        let bits = id as u64;
        let rhs: u64 = 0x8000_0000_0000_0000u64 | ((((bits >> 12u64) & 0xfu64) ^ 4u64) << 12u64);
        let lhs: u64 = rhs ^ bits;
        let uuid: u128 = ((lhs as u128) << 64u128) | (rhs as u128);
        assert(lhs ^ rhs == bits) by (bit_vector)
            requires
                lhs == rhs ^ bits,
        ;
        assert((lhs >> 12u64) & 0xfu64 == 4u64 && rhs >> 62u64 == 2u64) by (bit_vector)
            requires
                rhs == 0x8000_0000_0000_0000u64 | ((((bits >> 12u64) & 0xfu64) ^ 4u64) << 12u64),
                lhs == rhs ^ bits,
                bits < 0x8000_0000_0000_0000u64,
        ;
        assert((uuid >> 76) & 0xf == ((lhs >> 12u64) & 0xfu64) as u128 && (uuid >> 62) & 0x3 == (
        rhs >> 62u64) as u128) by (bit_vector)
            requires
                uuid == ((lhs as u128) << 64u128) | (rhs as u128),
        ;
        assert(uuid / 0x1_0000_0000_0000_0000 == lhs as u128 && uuid % 0x1_0000_0000_0000_0000
            == rhs as u128) by (bit_vector)
            requires
                uuid == ((lhs as u128) << 64u128) | (rhs as u128),
        ;
        assert(uuid_version(uuid) == 4);
    }
}

} // verus!
