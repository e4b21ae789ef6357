//! What holds of the program over all inputs and across calls.
//!
//! The operations are specified by their outcome functions; the laws below
//! are proved from those and from the byte layout of the records.

use crate::account::valid_accounts;
use crate::account::zeroed;
use crate::account::AccountView;
use crate::address::comment_seeds;
use crate::address::found;
use crate::address::is_derived;
use crate::address::lemma_comment_seeds_differ;
use crate::address::program_address;
use crate::address::review_seeds;
use crate::address::Address;
use crate::codec::lemma_text_len;
use crate::error::ReviewError;
use crate::processor::add_comment_accounts;
use crate::processor::add_comment_error;
use crate::processor::add_comment_outcome;
use crate::processor::add_review_accounts;
use crate::processor::add_review_error;
use crate::processor::add_review_outcome;
use crate::processor::comment_address_error;
use crate::processor::comment_slot_error;
use crate::processor::review_address_error;
use crate::processor::review_input_error;
use crate::processor::review_slot_error;
use crate::processor::update_review_accounts;
use crate::processor::update_review_error;
use crate::processor::update_review_outcome;
use crate::processor::update_slot_error;
use crate::processor::updated_review;
use crate::reward::reward_error;
use crate::state::lemma_comment_round_trip;
use crate::state::lemma_counter_fits_slot;
use crate::state::lemma_counter_round_trip;
use crate::state::lemma_review_round_trip;
use crate::state::lemma_tag_lengths;
use crate::state::lemma_zeroed_comment;
use crate::state::lemma_zeroed_counter;
use crate::state::lemma_zeroed_review;
use crate::state::CommentView;
use crate::state::CounterView;
use crate::state::ReviewView;
use crate::state::COUNTER_SPACE;
use crate::state::REVIEW_SPACE;
use vstd::prelude::*;

verus! {

// ---------------------------------------------------------------------------
// Ratings
// ---------------------------------------------------------------------------

/// A review is accepted only with a rating from 1 to 5. Where the accounts
/// are at hand and the slots stand at their derived addresses, any other
/// rating is rejected as `InvalidRating`.
pub proof fn law_rating_of_new_review(
    program_id: Seq<u8>,
    accounts: Seq<AccountView>,
    title: Seq<char>,
    rating: u8,
    description: Seq<char>,
)
    ensures
        add_review_error(program_id, accounts, title, rating, description) is None ==> 1 <= rating
            <= 5,
        review_address_error(program_id, accounts, title) is None && !(1 <= rating <= 5)
            ==> add_review_error(program_id, accounts, title, rating, description) == Some(
            ReviewError::InvalidRating,
        ),
{
}

/// An update is accepted only with a rating from 1 to 5. Where the slot
/// holds a review that the signing author may update, any other rating is
/// rejected as `InvalidRating`, and the slot keeps what it held.
pub proof fn law_rating_of_update(
    program_id: Seq<u8>,
    accounts: Seq<AccountView>,
    rating: u8,
    description: Seq<char>,
)
    ensures
        update_review_error(program_id, accounts, rating, description) is None ==> 1 <= rating
            <= 5,
        update_slot_error(program_id, accounts) is None && !(1 <= rating <= 5) ==> {
            &&& update_review_error(program_id, accounts, rating, description) == Some(
                ReviewError::InvalidRating,
            )
            &&& update_review_outcome(program_id, accounts, rating, description).accounts
                == accounts
        },
{
}

// ---------------------------------------------------------------------------
// Derivation
// ---------------------------------------------------------------------------

/// The address of a review is a function of its author and its title: any
/// two derivations for one author, one title and one program give the same
/// address and the same bump, and one address at most passes validation.
pub proof fn law_review_address_is_a_function(
    program_id: Seq<u8>,
    author: Seq<u8>,
    title: Seq<char>,
    first: Option<(Address, u8)>,
    second: Option<(Address, u8)>,
    a: Seq<u8>,
    b: Seq<u8>,
)
    ensures
        found(first) == program_address(review_seeds(author, title), program_id) && found(second)
            == program_address(review_seeds(author, title), program_id) ==> found(first) == found(
            second,
        ),
        is_derived(a, review_seeds(author, title), program_id) && is_derived(
            b,
            review_seeds(author, title),
            program_id,
        ) ==> a == b,
{
}

// ---------------------------------------------------------------------------
// Rejections
// ---------------------------------------------------------------------------

/// A rejected call leaves every account as it was.
pub proof fn law_rejection_changes_nothing(
    program_id: Seq<u8>,
    accounts: Seq<AccountView>,
    title: Seq<char>,
    rating: u8,
    description: Seq<char>,
    comment: Seq<char>,
)
    ensures
        add_review_outcome(program_id, accounts, title, rating, description).result is Err
            ==> add_review_outcome(program_id, accounts, title, rating, description).accounts
            == accounts,
        update_review_outcome(program_id, accounts, rating, description).result is Err
            ==> update_review_outcome(program_id, accounts, rating, description).accounts
            == accounts,
        add_comment_outcome(program_id, accounts, comment).result is Err ==> add_comment_outcome(
            program_id,
            accounts,
            comment,
        ).accounts == accounts,
{
}

/// A review over the ceiling is rejected as `RecordTooLarge` where the
/// earlier checks pass, and nothing is allocated.
pub proof fn law_oversized_review(
    program_id: Seq<u8>,
    accounts: Seq<AccountView>,
    title: Seq<char>,
    rating: u8,
    description: Seq<char>,
)
    requires
        review_address_error(program_id, accounts, title) is None,
        1 <= rating <= 5,
        !ReviewView::fresh(title, rating, description).fits(),
    ensures
        add_review_outcome(program_id, accounts, title, rating, description).result == Err::<
            Seq<crate::reward::ActionView>,
            ReviewError,
        >(ReviewError::RecordTooLarge),
        add_review_outcome(program_id, accounts, title, rating, description).accounts == accounts,
{
}

// ---------------------------------------------------------------------------
// Reviews
// ---------------------------------------------------------------------------

/// What an accepted review leaves behind: the review slot holds the review,
/// initialized, and the counter slot holds a counter at zero; both slots are
/// allocated and stand where they stood.
pub proof fn law_accepted_review(
    program_id: Seq<u8>,
    accounts: Seq<AccountView>,
    title: Seq<char>,
    rating: u8,
    description: Seq<char>,
)
    requires
        add_review_error(program_id, accounts, title, rating, description) is None,
    ensures
        ({
            let after = add_review_accounts(program_id, accounts, title, rating, description);
            &&& after.len() == accounts.len()
            &&& forall|i: int| 0 <= i < after.len() ==> (#[trigger] after[i]).key == accounts[i].key
            &&& forall|i: int|
                0 <= i < after.len() && i != 1 && i != 2 ==> #[trigger] after[i] == accounts[i]
            &&& after[1].is_allocated()
            &&& after[2].is_allocated()
            &&& ReviewView::decode(after[1].data) == Some(
                ReviewView::fresh(title, rating, description),
            )
            &&& CounterView::decode(after[2].data) == Some(CounterView::fresh())
        }),
{
    let record = ReviewView::fresh(title, rating, description);
    let review_slot = accounts[1].allocate(REVIEW_SPACE as nat, program_id);
    let counter_slot = accounts[2].allocate(COUNTER_SPACE as nat, program_id);
    assert(review_slot_error(review_slot, counter_slot, record) is None);
    lemma_tag_lengths();
    lemma_text_len(record.discriminator);
    lemma_text_len(record.title);
    lemma_text_len(record.description);
    lemma_review_round_trip(
        record,
        review_slot.data.subrange(record.bytes().len() as int, review_slot.data.len() as int),
    );
    let counter = CounterView::fresh();
    lemma_counter_round_trip(
        counter,
        counter_slot.data.subrange(counter.bytes().len() as int, counter_slot.data.len() as int),
    );
}

/// A review is created once: after an accepted review, another for the same
/// author and title is rejected as `AlreadyInitialized`, whatever rating in
/// range and description within the ceiling it brings, and the accounts stay
/// as the first call left them.
pub proof fn law_second_review_is_rejected(
    program_id: Seq<u8>,
    accounts: Seq<AccountView>,
    title: Seq<char>,
    rating: u8,
    description: Seq<char>,
    next_rating: u8,
    next_description: Seq<char>,
)
    requires
        add_review_error(program_id, accounts, title, rating, description) is None,
        1 <= next_rating <= 5,
        ReviewView::fresh(title, next_rating, next_description).fits(),
    ensures
        ({
            let after = add_review_accounts(program_id, accounts, title, rating, description);
            &&& add_review_error(program_id, after, title, next_rating, next_description) == Some(
                ReviewError::AlreadyInitialized,
            )
            &&& add_review_outcome(
                program_id,
                after,
                title,
                next_rating,
                next_description,
            ).accounts == after
        }),
{
    law_accepted_review(program_id, accounts, title, rating, description);
    let after = add_review_accounts(program_id, accounts, title, rating, description);
    assert(after[0].key == accounts[0].key);
    assert(after[1].key == accounts[1].key);
    assert(after[2].key == accounts[2].key);
    assert(review_address_error(program_id, after, title) is None);
    let next = ReviewView::fresh(title, next_rating, next_description);
    assert(review_input_error(next) is None);
    let review_slot = after[1].allocate(REVIEW_SPACE as nat, program_id);
    assert(review_slot == after[1]);
    assert(review_slot_error(
        review_slot,
        after[2].allocate(COUNTER_SPACE as nat, program_id),
        next,
    ) == Some(ReviewError::AlreadyInitialized));
}

/// Every first review is accepted: with the accounts at hand, the two slots
/// at their derived addresses and not allocated yet, a rating in range, a
/// size within the ceiling and the reward capability in order, the call
/// succeeds.
pub proof fn law_first_review_is_accepted(
    program_id: Seq<u8>,
    accounts: Seq<AccountView>,
    title: Seq<char>,
    rating: u8,
    description: Seq<char>,
)
    requires
        review_address_error(program_id, accounts, title) is None,
        !accounts[1].is_allocated(),
        !accounts[2].is_allocated(),
        1 <= rating <= 5,
        ReviewView::fresh(title, rating, description).fits(),
        reward_error(program_id, accounts[4].key, accounts[7].key) is None,
    ensures
        add_review_error(program_id, accounts, title, rating, description) is None,
{
    lemma_zeroed_review(REVIEW_SPACE as nat);
    let review_slot = accounts[1].allocate(REVIEW_SPACE as nat, program_id);
    let counter_slot = accounts[2].allocate(COUNTER_SPACE as nat, program_id);
    assert(review_slot.data == zeroed(REVIEW_SPACE as nat));
    assert(counter_slot.data == zeroed(COUNTER_SPACE as nat));
    assert(review_slot_error(
        review_slot,
        counter_slot,
        ReviewView::fresh(title, rating, description),
    ) is None);
}

/// What an accepted update leaves behind: the slot holds the review with
/// the new rating and description, under the tag and title that it had.
pub proof fn law_accepted_update(
    program_id: Seq<u8>,
    accounts: Seq<AccountView>,
    rating: u8,
    description: Seq<char>,
)
    requires
        update_review_error(program_id, accounts, rating, description) is None,
    ensures
        ({
            let found = ReviewView::decode(accounts[1].data).unwrap();
            let after = update_review_accounts(accounts, rating, description);
            &&& after.len() == accounts.len()
            &&& forall|i: int| 0 <= i < after.len() && i != 1 ==> #[trigger] after[i] == accounts[i]
            &&& after[1].key == accounts[1].key
            &&& after[1].owner == accounts[1].owner
            &&& ReviewView::decode(after[1].data) == Some(
                updated_review(found, rating, description),
            )
            &&& updated_review(found, rating, description).title == found.title
            &&& updated_review(found, rating, description).is_initialized
        }),
{
    let found = ReviewView::decode(accounts[1].data).unwrap();
    let record = updated_review(found, rating, description);
    assert(update_slot_error(program_id, accounts) is None);
    assert(record.fits());
    lemma_text_len(record.discriminator);
    lemma_text_len(record.title);
    lemma_text_len(record.description);
    lemma_review_round_trip(
        record,
        accounts[1].data.subrange(record.bytes().len() as int, accounts[1].data.len() as int),
    );
}

// ---------------------------------------------------------------------------
// Comments
// ---------------------------------------------------------------------------

/// What an accepted comment leaves behind: the comment slot, at the address
/// derived from the review and the count that the call found, holds the
/// comment, initialized; the counter stands one higher.
pub proof fn law_accepted_comment(
    program_id: Seq<u8>,
    accounts: Seq<AccountView>,
    comment: Seq<char>,
)
    requires
        valid_accounts(accounts),
        add_comment_error(program_id, accounts, comment) is None,
    ensures
        ({
            let before = CounterView::decode(accounts[2].data).unwrap();
            let after = add_comment_accounts(program_id, accounts, comment);
            &&& CounterView::decode(accounts[2].data) is Some
            &&& before.counter < u64::MAX
            &&& is_derived(
                accounts[3].key,
                comment_seeds(accounts[1].key, before.counter),
                program_id,
            )
            &&& after.len() == accounts.len()
            &&& forall|i: int| 0 <= i < after.len() ==> (#[trigger] after[i]).key == accounts[i].key
            &&& forall|i: int|
                0 <= i < after.len() && i != 2 && i != 3 ==> #[trigger] after[i] == accounts[i]
            &&& after[3].is_allocated()
            &&& CommentView::decode(after[3].data) == Some(
                CommentView::fresh(accounts[1].key, comment),
            )
            &&& CounterView::decode(after[2].data) == Some(before.advanced())
            &&& before.advanced().counter == before.counter + 1
        }),
{
    assert(comment_address_error(program_id, accounts) is None);
    let before = CounterView::decode(accounts[2].data).unwrap();
    let record = CommentView::fresh(accounts[1].key, comment);
    let slot = accounts[3].allocate(record.len(), program_id);
    assert(record.fits());
    assert(comment_slot_error(slot, record, before.counter) is None);
    assert(accounts[1].valid());
    lemma_tag_lengths();
    lemma_text_len(record.discriminator);
    lemma_text_len(record.comment);
    lemma_comment_round_trip(
        record,
        slot.data.subrange(record.bytes().len() as int, slot.data.len() as int),
    );
    lemma_counter_fits_slot(accounts[2].data);
    let advanced = before.advanced();
    lemma_counter_round_trip(
        advanced,
        accounts[2].data.subrange(advanced.bytes().len() as int, accounts[2].data.len() as int),
    );
}

/// Every comment on a fresh slot is accepted: with the accounts at hand, a
/// counter that can be read and advanced, the comment slot at the address
/// derived for the count and not allocated yet, a text that can be encoded
/// and the reward capability in order, the call succeeds.
pub proof fn law_first_comment_is_accepted(
    program_id: Seq<u8>,
    accounts: Seq<AccountView>,
    comment: Seq<char>,
)
    requires
        comment_address_error(program_id, accounts) is None,
        !accounts[3].is_allocated(),
        CommentView::fresh(accounts[1].key, comment).fits(),
        CounterView::decode(accounts[2].data).unwrap().counter < u64::MAX,
        reward_error(program_id, accounts[5].key, accounts[8].key) is None,
    ensures
        add_comment_error(program_id, accounts, comment) is None,
{
    let record = CommentView::fresh(accounts[1].key, comment);
    let slot = accounts[3].allocate(record.len(), program_id);
    assert(slot.data == zeroed(record.len()));
    lemma_zeroed_comment(record.len());
    assert(comment_slot_error(
        slot,
        record,
        CounterView::decode(accounts[2].data).unwrap().counter,
    ) is None);
}

/// A call that adds a comment: the accounts handed in and the text.
pub struct CommentCall {
    pub accounts: Seq<AccountView>,
    pub comment: Seq<char>,
}

impl CommentCall {
    /// The count that the call finds in the counter slot.
    pub open spec fn count(self) -> u64 {
        CounterView::decode(self.accounts[2].data).unwrap().counter
    }

    /// The address of the comment slot that the call names.
    pub open spec fn slot(self) -> Seq<u8> {
        self.accounts[3].key
    }

    /// The accounts as the call, once accepted, leaves them.
    pub open spec fn leaves(self, program_id: Seq<u8>) -> Seq<AccountView> {
        add_comment_accounts(program_id, self.accounts, self.comment)
    }
}

/// Whether the call at position `i` is accepted, names the review, and,
/// unless it is the first, finds the counter slot as the call before it left
/// it.
pub open spec fn follows_on(
    program_id: Seq<u8>,
    review: Seq<u8>,
    calls: Seq<CommentCall>,
    i: int,
) -> bool {
    &&& valid_accounts(calls[i].accounts)
    &&& add_comment_error(program_id, calls[i].accounts, calls[i].comment) is None
    &&& calls[i].accounts[1].key == review
    &&& i > 0 ==> calls[i].accounts[2].data == calls[i - 1].leaves(program_id)[2].data
}

/// A run of accepted comments on one review: every call is accepted, names
/// the review, and finds the counter slot as the call before it left it.
pub open spec fn comment_run(
    program_id: Seq<u8>,
    review: Seq<u8>,
    calls: Seq<CommentCall>,
) -> bool {
    forall|i: int| 0 <= i < calls.len() ==> #[trigger] follows_on(program_id, review, calls, i)
}

/// Whether the later of two calls, where it names the comment slot of the
/// earlier, finds in it what the earlier left.
pub open spec fn finds_as_left(
    program_id: Seq<u8>,
    calls: Seq<CommentCall>,
    i: int,
    j: int,
) -> bool {
    calls[i].slot() == calls[j].slot() ==> calls[i].accounts[3].data == calls[j].leaves(
        program_id,
    )[3].data
}

/// Storage keeps what was written: a call that names the comment slot of an
/// earlier call of the run finds in it what the earlier call left.
pub open spec fn slots_persist(program_id: Seq<u8>, calls: Seq<CommentCall>) -> bool {
    forall|i: int, j: int|
        0 <= j < i < calls.len() ==> #[trigger] finds_as_left(program_id, calls, i, j)
}

/// Comments are numbered in the order in which they are accepted: in a run
/// of accepted comments, the call at position `i` finds the count that the
/// first call found, plus `i`; its comment slot is the one derived from the
/// review and that count; and it leaves the counter one higher. From a
/// counter at zero, the comment number `k` stands at the address derived for
/// `k - 1`, and after `n` comments the counter stands at `n`.
pub proof fn law_comment_chain(
    program_id: Seq<u8>,
    review: Seq<u8>,
    calls: Seq<CommentCall>,
    i: int,
)
    requires
        comment_run(program_id, review, calls),
        0 <= i < calls.len(),
    ensures
        calls[i].count() == calls[0].count() + i,
        is_derived(calls[i].slot(), comment_seeds(review, calls[i].count()), program_id),
        CounterView::decode(calls[i].leaves(program_id)[2].data) is Some,
        CounterView::decode(calls[i].leaves(program_id)[2].data).unwrap().counter
            == calls[0].count() + i + 1,
    decreases i,
{
    assert(follows_on(program_id, review, calls, i));
    law_accepted_comment(program_id, calls[i].accounts, calls[i].comment);
    if i > 0 {
        law_comment_chain(program_id, review, calls, i - 1);
    }
}

/// A comment slot that holds a comment already is refused.
pub proof fn law_written_slot_is_refused(
    program_id: Seq<u8>,
    accounts: Seq<AccountView>,
    comment: Seq<char>,
)
    requires
        accounts[3].is_allocated(),
        CommentView::decode(accounts[3].data) is Some,
        CommentView::decode(accounts[3].data).unwrap().is_initialized,
    ensures
        add_comment_error(program_id, accounts, comment) is Some,
{
    let record = CommentView::fresh(accounts[1].key, comment);
    let slot = accounts[3].allocate(record.len(), program_id);
    assert(slot == accounts[3]);
    assert(comment_slot_error(
        slot,
        record,
        CounterView::decode(accounts[2].data).unwrap().counter,
    ) == Some(ReviewError::AlreadyInitialized));
}

/// A call that is handed a comment slot as an accepted call left it is
/// rejected.
pub proof fn law_used_slot_is_refused(program_id: Seq<u8>, earlier: CommentCall, later: CommentCall)
    requires
        valid_accounts(earlier.accounts),
        add_comment_error(program_id, earlier.accounts, earlier.comment) is None,
        later.accounts[3].data == earlier.leaves(program_id)[3].data,
    ensures
        add_comment_error(program_id, later.accounts, later.comment) is Some,
{
    law_accepted_comment(program_id, earlier.accounts, earlier.comment);
    law_written_slot_is_refused(program_id, later.accounts, later.comment);
}

/// No two comments of a run are derived from the same seeds.
pub proof fn law_comment_seeds_are_distinct(
    program_id: Seq<u8>,
    review: Seq<u8>,
    calls: Seq<CommentCall>,
    i: int,
    j: int,
)
    requires
        comment_run(program_id, review, calls),
        0 <= j < i < calls.len(),
    ensures
        calls[i].count() != calls[j].count(),
        comment_seeds(review, calls[i].count()) != comment_seeds(review, calls[j].count()),
{
    let a = calls[i].count();
    let b = calls[j].count();
    assert(a == calls[0].count() + i) by {
        law_comment_chain(program_id, review, calls, i);
    }
    assert(b == calls[0].count() + j) by {
        law_comment_chain(program_id, review, calls, j);
    }
    lemma_comment_seeds_differ(review, a, b);
}

/// No two comments of a run share a slot, where storage keeps what was
/// written: a second comment at the address of an earlier one would have
/// been rejected.
pub proof fn law_comment_slots_are_distinct(
    program_id: Seq<u8>,
    review: Seq<u8>,
    calls: Seq<CommentCall>,
    i: int,
    j: int,
)
    requires
        comment_run(program_id, review, calls),
        slots_persist(program_id, calls),
        0 <= j < i < calls.len(),
    ensures
        calls[i].slot() != calls[j].slot(),
{
    let later = calls[i];
    let earlier = calls[j];
    assert(follows_on(program_id, review, calls, i));
    assert(follows_on(program_id, review, calls, j));
    assert(finds_as_left(program_id, calls, i, j));
    if later.slot() == earlier.slot() {
        law_used_slot_is_refused(program_id, earlier, later);
    }
}

// ---------------------------------------------------------------------------
// Layout
// ---------------------------------------------------------------------------

/// A slot that was allocated and never written decodes without fail: to
/// the review, the counter or the comment that holds nothing and is not
/// initialized.
pub proof fn law_zeroed_slots_decode(n: nat)
    ensures
        n >= 14 ==> ReviewView::decode(zeroed(n)) is Some && !ReviewView::decode(
            zeroed(n),
        ).unwrap().is_initialized,
        n >= 13 ==> CounterView::decode(zeroed(n)) is Some && !CounterView::decode(
            zeroed(n),
        ).unwrap().is_initialized && CounterView::decode(zeroed(n)).unwrap().counter == 0,
        n >= 41 ==> CommentView::decode(zeroed(n)) is Some && !CommentView::decode(
            zeroed(n),
        ).unwrap().is_initialized,
{
    if n >= 14 {
        lemma_zeroed_review(n);
    }
    if n >= 13 {
        lemma_zeroed_counter(n);
    }
    if n >= 41 {
        lemma_zeroed_comment(n);
    }
}

/// Decoding what was encoded gives the record back, for every review within
/// the ceiling.
pub proof fn law_review_round_trip(record: ReviewView)
    requires
        record.fits(),
    ensures
        ReviewView::decode(record.bytes()) == Some(record),
{
    lemma_text_len(record.discriminator);
    lemma_text_len(record.title);
    lemma_text_len(record.description);
    lemma_review_round_trip(record, Seq::empty());
    assert(record.bytes() + Seq::<u8>::empty() =~= record.bytes());
}

/// Decoding what was encoded gives the record back, for every counter that
/// can be encoded.
pub proof fn law_counter_round_trip(record: CounterView)
    requires
        record.fits(),
    ensures
        CounterView::decode(record.bytes()) == Some(record),
{
    lemma_counter_round_trip(record, Seq::empty());
    assert(record.bytes() + Seq::<u8>::empty() =~= record.bytes());
}

/// Decoding what was encoded gives the record back, for every comment that
/// can be encoded.
pub proof fn law_comment_round_trip(record: CommentView)
    requires
        record.fits(),
        record.review.len() == 32,
    ensures
        CommentView::decode(record.bytes()) == Some(record),
{
    lemma_comment_round_trip(record, Seq::empty());
    assert(record.bytes() + Seq::<u8>::empty() =~= record.bytes());
}

} // verus!
