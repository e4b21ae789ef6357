//! Fixed-width ledger addresses and deterministic sub-account derivation.
//!
//! A sub-account address is derived from a list of seeds and the identity of
//! the program. The derivation itself is the ledger's: this module names its
//! result and builds the seed lists that the program uses.

use crate::codec::lemma_u64_be_injective;
use crate::codec::u64_be_bytes;
use crate::codec::u64_to_be_bytes;
use solana_program::pubkey::Pubkey;
use vstd::prelude::*;
use vstd::slice::slice_to_vec;
use vstd::std_specs::cmp::PartialEqSpecImpl;
use vstd::utf8::encode_utf8;

verus! {

/// Longest seed, in bytes, from which an address is derived.
pub const MAX_SEED_LEN: usize = 32;

/// Number of seeds from which no address is derived any more.
pub const MAX_SEEDS: usize = 16;

/// A ledger address: an opaque 32-byte key.
#[derive(Clone, Copy, Debug, Eq)]
pub struct Address {
    pub bytes: [u8; 32],
}

impl View for Address {
    type V = Seq<u8>;

    open spec fn view(&self) -> Seq<u8> {
        self.bytes@
    }
}

impl PartialEq for Address {
    fn eq(&self, other: &Address) -> (r: bool) {
        let mut i: usize = 0;
        while i < 32
            invariant
                i <= 32,
                forall|j: int| 0 <= j < i ==> self.bytes[j] == other.bytes[j],
            decreases 32 - i,
        {
            if self.bytes[i] != other.bytes[i] {
                return false;
            }
            i += 1;
        }
        assert(self@ =~= other@);
        true
    }
}

impl PartialEqSpecImpl for Address {
    open spec fn obeys_eq_spec() -> bool {
        true
    }

    open spec fn eq_spec(&self, other: &Address) -> bool {
        self@ == other@
    }
}

/// The seed lists of a call, as sequences of byte strings.
pub open spec fn seed_list(seeds: Seq<Vec<u8>>) -> Seq<Seq<u8>> {
    Seq::new(seeds.len(), |i: int| seeds[i]@)
}

/// The address and bump that `Pubkey::try_find_program_address` yields for a
/// seed list and a program identity, or `None` where it yields nothing.
pub uninterp spec fn program_address(seeds: Seq<Seq<u8>>, program_id: Seq<u8>) -> Option<
    (Seq<u8>, u8),
>;

/// What a derivation gave, with the address as its bytes.
pub open spec fn found(r: Option<(Address, u8)>) -> Option<(Seq<u8>, u8)> {
    match r {
        Some((a, b)) => Some((a@, b)),
        None => None,
    }
}

/// Calls `Pubkey::try_find_program_address`. The result is a function of the
/// seeds and the program identity alone; it is `None` whenever there are 16
/// seeds or more, or a seed is longer than 32 bytes.
#[verifier::external_body]
pub(crate) fn find_program_address(seeds: &Vec<Vec<u8>>, program_id: &Address) -> (r: Option<
    (Address, u8),
>)
    ensures
        found(r) == program_address(seed_list(seeds@), program_id@),
        seeds.len() >= MAX_SEEDS ==> r is None,
        (exists|i: int| 0 <= i < seeds.len() && seeds[i].len() > MAX_SEED_LEN) ==> r is None,
{
    let refs: Vec<&[u8]> = seeds.iter().map(|s| s.as_slice()).collect();
    let found = Pubkey::try_find_program_address(&refs, &Pubkey::new_from_array(program_id.bytes));
    found.map(|(key, bump)| (Address { bytes: key.to_bytes() }, bump))
}

/// Whether `candidate` is the address derived for `seeds` under `program_id`.
pub open spec fn is_derived(candidate: Seq<u8>, seeds: Seq<Seq<u8>>, program_id: Seq<u8>) -> bool {
    match program_address(seeds, program_id) {
        Some((a, _)) => a == candidate,
        None => false,
    }
}

/// The bump that goes with the address derived for `seeds`.
pub open spec fn derived_bump(seeds: Seq<Seq<u8>>, program_id: Seq<u8>) -> u8 {
    match program_address(seeds, program_id) {
        Some((_, b)) => b,
        None => 0,
    }
}

/// Derives the sub-account address for `seeds` under `program_id`, with its
/// bump. There is none where the derivation yields nothing, as it does for
/// 16 seeds or more and for a seed longer than 32 bytes.
pub fn derive_address(seeds: &Vec<Vec<u8>>, program_id: &Address) -> (r: Option<(Address, u8)>)
    ensures
        found(r) == program_address(seed_list(seeds@), program_id@),
        seeds.len() >= MAX_SEEDS ==> r is None,
        (exists|i: int| 0 <= i < seeds.len() && seeds[i].len() > MAX_SEED_LEN) ==> r is None,
{
    find_program_address(seeds, program_id)
}

/// Recomputes the derivation and compares: the bump when `candidate` is the
/// derived address, `None` when it is not. No address is derived from 16
/// seeds or more, nor from a seed longer than 32 bytes.
pub fn validate(candidate: &Address, seeds: &Vec<Vec<u8>>, program_id: &Address) -> (r: Option<u8>)
    ensures
        r is Some <==> is_derived(candidate@, seed_list(seeds@), program_id@),
        r matches Some(b) ==> b == derived_bump(seed_list(seeds@), program_id@),
        seeds.len() >= MAX_SEEDS ==> r is None,
        (exists|i: int| 0 <= i < seeds.len() && seeds[i].len() > MAX_SEED_LEN) ==> r is None,
{
    match find_program_address(seeds, program_id) {
        Some((a, b)) => if a == *candidate {
            Some(b)
        } else {
            None
        },
        None => None,
    }
}

// ---------------------------------------------------------------------------
// Seed lists
// ---------------------------------------------------------------------------

/// The bytes `comment`, the fixed seed of a review's counter.
pub open spec fn comment_seed() -> Seq<u8> {
    seq![99u8, 111u8, 109u8, 109u8, 101u8, 110u8, 116u8]
}

/// The bytes `tokens`, the fixed seed of the reward authority.
pub open spec fn tokens_seed() -> Seq<u8> {
    seq![116u8, 111u8, 107u8, 101u8, 110u8, 115u8]
}

/// Seeds of a review: its author and the bytes of its title.
pub open spec fn review_seeds(author: Seq<u8>, title: Seq<char>) -> Seq<Seq<u8>> {
    seq![author, encode_utf8(title)]
}

/// Seeds of the counter of a review.
pub open spec fn counter_seeds(review: Seq<u8>) -> Seq<Seq<u8>> {
    seq![review, comment_seed()]
}

/// Seeds of the comment that is created when the counter stands at `count`.
pub open spec fn comment_seeds(review: Seq<u8>, count: u64) -> Seq<Seq<u8>> {
    seq![review, u64_be_bytes(count)]
}

/// Comments that are created at different counts have different seeds.
pub proof fn lemma_comment_seeds_differ(review: Seq<u8>, a: u64, b: u64)
    requires
        a != b,
    ensures
        comment_seeds(review, a) != comment_seeds(review, b),
{
    lemma_u64_be_injective(a, b);
    assert(comment_seeds(review, a)[1] == u64_be_bytes(a));
    assert(comment_seeds(review, b)[1] == u64_be_bytes(b));
}

/// Seeds of the reward authority.
pub open spec fn authority_seeds() -> Seq<Seq<u8>> {
    seq![tokens_seed()]
}

/// The seeds with which the holder of a derived address signs: the seeds of
/// the derivation, then the bump.
pub open spec fn signer_seeds(seeds: Seq<Seq<u8>>, bump: u8) -> Seq<Seq<u8>> {
    seeds.push(seq![bump])
}

/// The bytes of an address as a seed.
fn address_bytes(a: &Address) -> (v: Vec<u8>)
    ensures
        v@ == a@,
{
    let mut v: Vec<u8> = Vec::new();
    let mut i: usize = 0;
    while i < 32
        invariant
            i <= 32,
            v@ == a@.subrange(0, i as int),
        decreases 32 - i,
    {
        v.push(a.bytes[i]);
        i += 1;
        assert(v@ =~= a@.subrange(0, i as int));
    }
    assert(a@.subrange(0, 32) =~= a@);
    v
}

/// A seed list of two seeds.
fn pair(first: Vec<u8>, second: Vec<u8>) -> (v: Vec<Vec<u8>>)
    ensures
        seed_list(v@) == seq![first@, second@],
        v.len() == 2,
        v[1]@ == second@,
{
    let mut v: Vec<Vec<u8>> = Vec::new();
    v.push(first);
    v.push(second);
    assert(seed_list(v@) =~= seq![first@, second@]);
    v
}

/// Builds the seeds of a review.
pub fn make_review_seeds(author: &Address, title: &str) -> (v: Vec<Vec<u8>>)
    ensures
        seed_list(v@) == review_seeds(author@, title@),
        v.len() == 2,
        v[1]@ == encode_utf8(title@),
{
    pair(address_bytes(author), slice_to_vec(title.as_bytes()))
}

/// Builds the seeds of the counter of a review.
pub fn make_counter_seeds(review: &Address) -> (v: Vec<Vec<u8>>)
    ensures
        seed_list(v@) == counter_seeds(review@),
{
    let mut word: Vec<u8> = Vec::new();
    word.push(99);
    word.push(111);
    word.push(109);
    word.push(109);
    word.push(101);
    word.push(110);
    word.push(116);
    assert(word@ =~= comment_seed());
    pair(address_bytes(review), word)
}

/// Builds the seeds of the comment created when the counter stands at
/// `count`.
pub fn make_comment_seeds(review: &Address, count: u64) -> (v: Vec<Vec<u8>>)
    ensures
        seed_list(v@) == comment_seeds(review@, count),
{
    pair(address_bytes(review), u64_to_be_bytes(count))
}

/// Builds the seeds of the reward authority.
pub fn make_authority_seeds() -> (v: Vec<Vec<u8>>)
    ensures
        seed_list(v@) == authority_seeds(),
{
    let mut word: Vec<u8> = Vec::new();
    word.push(116);
    word.push(111);
    word.push(107);
    word.push(101);
    word.push(110);
    word.push(115);
    assert(word@ =~= tokens_seed());
    let mut v: Vec<Vec<u8>> = Vec::new();
    v.push(word);
    assert(seed_list(v@) =~= authority_seeds());
    v
}

/// Appends the bump to the seeds of a derivation.
pub fn with_bump(seeds: Vec<Vec<u8>>, bump: u8) -> (v: Vec<Vec<u8>>)
    ensures
        seed_list(v@) == signer_seeds(seed_list(seeds@), bump),
{
    let mut v = seeds;
    let mut last: Vec<u8> = Vec::new();
    last.push(bump);
    v.push(last);
    assert(seed_list(v@) =~= signer_seeds(seed_list(seeds@), bump));
    v
}

} // verus!
