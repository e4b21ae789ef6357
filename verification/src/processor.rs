//! The three operations of the program as transitions on the accounts that
//! are handed in.
//!
//! Every operation checks everything before it changes anything: a rejected
//! call leaves the accounts as they were. An accepted call returns the steps
//! that the host has to carry out, allocations first, the reward last.
//!
//! Accounts are told apart by position:
//!
//! - add review: author, review slot, counter slot, reward mint, mint
//!   authority, payout account, allocator, token program
//! - update review: author, review slot
//! - add comment: commenter, review slot, counter slot, comment slot, reward
//!   mint, mint authority, payout account, allocator, token program

use crate::account::Account;
use crate::account::AccountView;
use crate::address::comment_seeds;
use crate::address::counter_seeds;
use crate::address::derived_bump;
use crate::address::is_derived;
use crate::address::make_comment_seeds;
use crate::address::make_counter_seeds;
use crate::address::make_review_seeds;
use crate::address::review_seeds;
use crate::address::seed_list;
use crate::address::signer_seeds;
use crate::address::validate;
use crate::address::with_bump;
use crate::address::Address;
use crate::address::MAX_SEED_LEN;
use crate::error::ReviewError;
use crate::instruction::unpacked;
use crate::instruction::InstructionView;
use crate::instruction::MovieInstruction;
use crate::reward::base_units_per_token;
use crate::reward::comment_reward;
use crate::reward::payout;
use crate::reward::review_reward;
use crate::reward::reward_action;
use crate::reward::reward_error;
use crate::reward::Action;
use crate::reward::ActionView;
use crate::reward::COMMENT_REWARD;
use crate::reward::REVIEW_REWARD;
use crate::state::lemma_comment_round_trip;
use crate::state::lemma_counter_fits_slot;
use crate::state::lemma_counter_round_trip;
use crate::state::lemma_review_round_trip;
use crate::state::lemma_tag_lengths;
use crate::state::CommentRecord;
use crate::state::CommentView;
use crate::state::CounterRecord;
use crate::state::CounterView;
use crate::state::ReviewRecord;
use crate::state::ReviewView;
use crate::state::COUNTER_SPACE;
use crate::state::REVIEW_SPACE;
use vstd::prelude::*;
use vstd::utf8::encode_utf8;

verus! {

/// Number of accounts that adding a review takes.
pub const ADD_REVIEW_ACCOUNTS: usize = 8;

/// Number of accounts that updating a review takes.
pub const UPDATE_REVIEW_ACCOUNTS: usize = 2;

/// Number of accounts that adding a comment takes.
pub const ADD_COMMENT_ACCOUNTS: usize = 9;

/// How a call ends: the steps for the host or the rejection, and the
/// accounts as the call leaves them.
pub struct Outcome {
    pub result: Result<Seq<ActionView>, ReviewError>,
    pub accounts: Seq<AccountView>,
}

/// The outcome that a returned value and the accounts after the call make
/// up.
pub open spec fn outcome_of(
    r: Result<Vec<Action>, ReviewError>,
    accounts: Vec<Account>,
) -> Outcome {
    Outcome {
        result: match r {
            Ok(actions) => Ok(actions.deep_view()),
            Err(e) => Err(e),
        },
        accounts: accounts.deep_view(),
    }
}

/// The outcome of a call with first failing check `error`, or else with
/// the given steps and accounts.
pub open spec fn outcome(
    error: Option<ReviewError>,
    before: Seq<AccountView>,
    actions: Seq<ActionView>,
    after: Seq<AccountView>,
) -> Outcome {
    match error {
        Some(e) => Outcome { result: Err(e), accounts: before },
        None => Outcome { result: Ok(actions), accounts: after },
    }
}

/// The allocation step for a slot, where the slot is not allocated yet.
pub open spec fn allocation(
    slot: AccountView,
    payer: Seq<u8>,
    space: nat,
    owner: Seq<u8>,
    seeds: Seq<Seq<u8>>,
) -> Seq<ActionView> {
    if slot.is_allocated() {
        Seq::empty()
    } else {
        seq![
            ActionView::Allocate {
                payer,
                slot: slot.key,
                space: space as u64,
                owner,
                seeds: signer_seeds(seeds, derived_bump(seeds, owner)),
            },
        ]
    }
}

/// The earlier of two checks that failed.
pub open spec fn first_error(earlier: Option<ReviewError>, later: Option<ReviewError>) -> Option<
    ReviewError,
> {
    if earlier is Some {
        earlier
    } else {
        later
    }
}

// ---------------------------------------------------------------------------
// Add review
// ---------------------------------------------------------------------------

/// Whether the accounts for a review are at hand and the two slots stand at
/// their derived addresses.
pub open spec fn review_address_error(
    program_id: Seq<u8>,
    accounts: Seq<AccountView>,
    title: Seq<char>,
) -> Option<ReviewError> {
    if accounts.len() < ADD_REVIEW_ACCOUNTS {
        Some(ReviewError::NotEnoughAccounts)
    } else if !is_derived(accounts[1].key, review_seeds(accounts[0].key, title), program_id) {
        Some(ReviewError::AddressMismatch)
    } else if !is_derived(accounts[2].key, counter_seeds(accounts[1].key), program_id) {
        Some(ReviewError::AddressMismatch)
    } else {
        None
    }
}

/// Whether a review may be stored: its rating is in range and it is within
/// the ceiling.
pub open spec fn review_input_error(record: ReviewView) -> Option<ReviewError> {
    if !record.rating_in_range() {
        Some(ReviewError::InvalidRating)
    } else if !record.fits() {
        Some(ReviewError::RecordTooLarge)
    } else {
        None
    }
}

/// Whether the slot of a new review is free and both slots are large
/// enough.
pub open spec fn review_slot_error(
    review_slot: AccountView,
    counter_slot: AccountView,
    record: ReviewView,
) -> Option<ReviewError> {
    match ReviewView::decode(review_slot.data) {
        None => Some(ReviewError::InvalidAccountData),
        Some(found) => if found.is_initialized {
            Some(ReviewError::AlreadyInitialized)
        } else if review_slot.data.len() < record.len() || counter_slot.data.len()
            < COUNTER_SPACE {
            Some(ReviewError::AccountDataTooSmall)
        } else {
            None
        },
    }
}

/// The first check that adding a review fails, in the order in which the
/// checks are made; `None` where the review is accepted.
pub open spec fn add_review_error(
    program_id: Seq<u8>,
    accounts: Seq<AccountView>,
    title: Seq<char>,
    rating: u8,
    description: Seq<char>,
) -> Option<ReviewError> {
    let record = ReviewView::fresh(title, rating, description);
    first_error(
        review_address_error(program_id, accounts, title),
        first_error(
            review_input_error(record),
            first_error(
                review_slot_error(
                    accounts[1].allocate(REVIEW_SPACE as nat, program_id),
                    accounts[2].allocate(COUNTER_SPACE as nat, program_id),
                    record,
                ),
                reward_error(program_id, accounts[4].key, accounts[7].key),
            ),
        ),
    )
}

/// The accounts after a review was accepted: both slots allocated, the
/// review and a counter at zero written into them.
pub open spec fn add_review_accounts(
    program_id: Seq<u8>,
    accounts: Seq<AccountView>,
    title: Seq<char>,
    rating: u8,
    description: Seq<char>,
) -> Seq<AccountView> {
    let record = ReviewView::fresh(title, rating, description);
    let review_slot = accounts[1].allocate(REVIEW_SPACE as nat, program_id);
    let counter_slot = accounts[2].allocate(COUNTER_SPACE as nat, program_id);
    accounts.update(1, review_slot.store(record.bytes())).update(
        2,
        counter_slot.store(CounterView::fresh().bytes()),
    )
}

/// The steps for the host after a review was accepted.
pub open spec fn add_review_actions(
    program_id: Seq<u8>,
    accounts: Seq<AccountView>,
    title: Seq<char>,
) -> Seq<ActionView> {
    allocation(
        accounts[1],
        accounts[0].key,
        REVIEW_SPACE as nat,
        program_id,
        review_seeds(accounts[0].key, title),
    ) + allocation(
        accounts[2],
        accounts[0].key,
        COUNTER_SPACE as nat,
        program_id,
        counter_seeds(accounts[1].key),
    ) + seq![
        reward_action(
            program_id,
            accounts[3].key,
            accounts[4].key,
            accounts[5].key,
            review_reward(),
        ),
    ]
}

/// How adding a review ends.
pub open spec fn add_review_outcome(
    program_id: Seq<u8>,
    accounts: Seq<AccountView>,
    title: Seq<char>,
    rating: u8,
    description: Seq<char>,
) -> Outcome {
    outcome(
        add_review_error(program_id, accounts, title, rating, description),
        accounts,
        add_review_actions(program_id, accounts, title),
        add_review_accounts(program_id, accounts, title, rating, description),
    )
}

/// Appends the allocation step for `slot`, unless the slot is allocated.
fn allocate_step(
    actions: &mut Vec<Action>,
    slot: &Account,
    payer: Address,
    space: usize,
    owner: &Address,
    seeds: Vec<Vec<u8>>,
    bump: u8,
)
    requires
        space <= u64::MAX,
        bump == derived_bump(seed_list(seeds@), owner@),
    ensures
        final(actions).deep_view() == old(actions).deep_view() + allocation(
            slot@,
            payer@,
            space as nat,
            owner@,
            seed_list(seeds@),
        ),
{
    if !slot.is_allocated() {
        let step = Action::Allocate {
            payer,
            slot: slot.key,
            space: space as u64,
            owner: *owner,
            seeds: with_bump(seeds, bump),
        };
        actions.push(step);
    }
    assert(actions.deep_view() =~= old(actions).deep_view() + allocation(
        slot@,
        payer@,
        space as nat,
        owner@,
        seed_list(seeds@),
    ));
}

/// Puts `account` in the place of the account at `index`.
fn replace(accounts: &mut Vec<Account>, index: usize, account: Account)
    requires
        index < old(accounts).len(),
    ensures
        final(accounts).len() == old(accounts).len(),
        final(accounts).deep_view() == old(accounts).deep_view().update(index as int, account@),
{
    accounts.set(index, account);
    assert(accounts.deep_view() =~= old(accounts).deep_view().update(index as int, account@));
}

/// The views of the accounts, one by one.
proof fn lemma_account_views(accounts: &Vec<Account>)
    ensures
        accounts.deep_view().len() == accounts.len(),
        forall|i: int|
            0 <= i < accounts.len() ==> #[trigger] accounts.deep_view()[i] == accounts[i]@,
{
}

/// Checks the accounts of a new review and derives the seeds and bumps of
/// its two slots.
fn check_review_addresses(program_id: &Address, accounts: &Vec<Account>, title: &str) -> (r:
    Result<(Vec<Vec<u8>>, u8, Vec<Vec<u8>>, u8), ReviewError>)
    ensures
        match r {
            Ok((seeds, bump, counter, counter_bump)) => {
                &&& review_address_error(program_id@, accounts.deep_view(), title@) is None
                &&& seed_list(seeds@) == review_seeds(accounts[0].key@, title@)
                &&& bump == derived_bump(seed_list(seeds@), program_id@)
                &&& seed_list(counter@) == counter_seeds(accounts[1].key@)
                &&& counter_bump == derived_bump(seed_list(counter@), program_id@)
            },
            Err(e) => review_address_error(program_id@, accounts.deep_view(), title@) == Some(e),
        },
        accounts.len() >= ADD_REVIEW_ACCOUNTS && encode_utf8(title@).len() > MAX_SEED_LEN ==> r
            is Err,
{
    proof {
        lemma_account_views(accounts);
    }
    if accounts.len() < ADD_REVIEW_ACCOUNTS {
        return Err(ReviewError::NotEnoughAccounts);
    }
    let seeds = make_review_seeds(&accounts[0].key, title);
    let bump = match validate(&accounts[1].key, &seeds, program_id) {
        Some(b) => b,
        None => {
            return Err(ReviewError::AddressMismatch);
        },
    };
    let counter = make_counter_seeds(&accounts[1].key);
    let counter_bump = match validate(&accounts[2].key, &counter, program_id) {
        Some(b) => b,
        None => {
            return Err(ReviewError::AddressMismatch);
        },
    };
    Ok((seeds, bump, counter, counter_bump))
}

/// Checks rating and size of a review and encodes it.
fn check_review_input(record: &ReviewRecord) -> (r: Result<Vec<u8>, ReviewError>)
    ensures
        match r {
            Ok(bytes) => review_input_error(record@) is None && bytes@ == record@.bytes()
                && bytes.len() == record@.len(),
            Err(e) => review_input_error(record@) == Some(e),
        },
{
    if record.rating < 1 || record.rating > 5 {
        return Err(ReviewError::InvalidRating);
    }
    match record.encode() {
        Ok(bytes) => {
            proof {
                lemma_review_round_trip(record@, Seq::empty());
            }
            Ok(bytes)
        },
        Err(e) => Err(e),
    }
}

/// Checks that the review slot is free and that both slots are large
/// enough.
fn check_review_slots(review_slot: &Account, counter_slot: &Account, record: &ReviewRecord) -> (r:
    Result<(), ReviewError>)
    requires
        record@.fits(),
    ensures
        match r {
            Ok(_) => review_slot_error(review_slot@, counter_slot@, record@) is None,
            Err(e) => review_slot_error(review_slot@, counter_slot@, record@) == Some(e),
        },
{
    let found = match ReviewRecord::decode(review_slot.data.as_slice()) {
        Ok(rec) => rec,
        Err(e) => {
            return Err(e);
        },
    };
    if found.is_initialized {
        return Err(ReviewError::AlreadyInitialized);
    }
    let len = match record.encoded_len() {
        Some(n) => n,
        None => {
            return Err(ReviewError::RecordTooLarge);
        },
    };
    if review_slot.data.len() < len || counter_slot.data.len() < COUNTER_SPACE {
        return Err(ReviewError::AccountDataTooSmall);
    }
    Ok(())
}

/// The bytes of a counter at zero.
fn fresh_counter_bytes() -> (bytes: Vec<u8>)
    ensures
        bytes@ == CounterView::fresh().bytes(),
        bytes.len() == COUNTER_SPACE,
{
    proof {
        lemma_tag_lengths();
        lemma_counter_round_trip(CounterView::fresh(), Seq::empty());
    }
    match CounterRecord::fresh().encode() {
        Ok(bytes) => bytes,
        Err(_) => Vec::new(),
    }
}

/// The steps for the host after a review was accepted.
fn review_steps(
    program_id: &Address,
    accounts: &Vec<Account>,
    title: &str,
    seeds: Vec<Vec<u8>>,
    bump: u8,
    counter: Vec<Vec<u8>>,
    counter_bump: u8,
    reward: Action,
) -> (actions: Vec<Action>)
    requires
        accounts.len() >= ADD_REVIEW_ACCOUNTS,
        seed_list(seeds@) == review_seeds(accounts[0].key@, title@),
        bump == derived_bump(seed_list(seeds@), program_id@),
        seed_list(counter@) == counter_seeds(accounts[1].key@),
        counter_bump == derived_bump(seed_list(counter@), program_id@),
        reward@ == reward_action(
            program_id@,
            accounts[3].key@,
            accounts[4].key@,
            accounts[5].key@,
            review_reward(),
        ),
    ensures
        actions.deep_view() == add_review_actions(program_id@, accounts.deep_view(), title@),
{
    proof {
        lemma_account_views(accounts);
    }
    let payer = accounts[0].key;
    let mut actions: Vec<Action> = Vec::new();
    assert(actions.deep_view() =~= Seq::<ActionView>::empty());
    allocate_step(&mut actions, &accounts[1], payer, REVIEW_SPACE, program_id, seeds, bump);
    allocate_step(
        &mut actions,
        &accounts[2],
        payer,
        COUNTER_SPACE,
        program_id,
        counter,
        counter_bump,
    );
    let ghost steps = actions.deep_view();
    actions.push(reward);
    assert(actions.deep_view() =~= steps + seq![reward@]);
    actions
}

/// Adds a review: validates the addresses of the review slot and of its
/// counter, the rating and the size, allocates both slots, refuses a slot
/// that holds a review already, writes the review and a counter at zero, and
/// pays the reward for a review. A title is a seed of the review's address,
/// so none longer than 32 bytes is accepted.
pub fn add_movie_review(
    program_id: &Address,
    accounts: &mut Vec<Account>,
    title: String,
    rating: u8,
    description: String,
) -> (r: Result<Vec<Action>, ReviewError>)
    ensures
        outcome_of(r, *final(accounts)) == add_review_outcome(
            program_id@,
            old(accounts).deep_view(),
            title@,
            rating,
            description@,
        ),
        r is Ok ==> 1 <= rating <= 5,
        r is Ok ==> encode_utf8(title@).len() <= MAX_SEED_LEN,
{
    proof {
        lemma_account_views(accounts);
    }
    let (seeds, bump, counter, counter_bump) = match check_review_addresses(
        program_id,
        accounts,
        title.as_str(),
    ) {
        Ok(found) => found,
        Err(e) => {
            return Err(e);
        },
    };
    let record = ReviewRecord::fresh(title, rating, description);
    let bytes = match check_review_input(&record) {
        Ok(b) => b,
        Err(e) => {
            return Err(e);
        },
    };
    let review_slot = accounts[1].allocate(REVIEW_SPACE, program_id);
    let counter_slot = accounts[2].allocate(COUNTER_SPACE, program_id);
    match check_review_slots(&review_slot, &counter_slot, &record) {
        Ok(_) => {},
        Err(e) => {
            return Err(e);
        },
    }
    let counter_bytes = fresh_counter_bytes();
    let amount = REVIEW_REWARD * base_units_per_token();
    let reward = match payout(
        program_id,
        &accounts[3].key,
        &accounts[4].key,
        &accounts[5].key,
        &accounts[7].key,
        amount,
    ) {
        Ok(step) => step,
        Err(e) => {
            return Err(e);
        },
    };
    let actions = review_steps(
        program_id,
        accounts,
        record.title.as_str(),
        seeds,
        bump,
        counter,
        counter_bump,
        reward,
    );
    let review_slot = match review_slot.store(&bytes) {
        Ok(slot) => slot,
        Err(e) => {
            return Err(e);
        },
    };
    let counter_slot = match counter_slot.store(&counter_bytes) {
        Ok(slot) => slot,
        Err(e) => {
            return Err(e);
        },
    };
    replace(accounts, 1, review_slot);
    replace(accounts, 2, counter_slot);
    Ok(actions)
}

// ---------------------------------------------------------------------------
// Update review
// ---------------------------------------------------------------------------

/// The review that an update leaves in the slot: rating and description
/// replaced, tag and title as they were.
pub open spec fn updated_review(
    found: ReviewView,
    rating: u8,
    description: Seq<char>,
) -> ReviewView {
    ReviewView { rating, description, ..found }
}

/// Whether the slot holds a review that the signing author may update:
/// it decodes, belongs to the program, stands at the address derived from
/// the author and the stored title, and is initialized.
pub open spec fn update_slot_error(program_id: Seq<u8>, accounts: Seq<AccountView>) -> Option<
    ReviewError,
> {
    if accounts.len() < UPDATE_REVIEW_ACCOUNTS {
        Some(ReviewError::NotEnoughAccounts)
    } else {
        match ReviewView::decode(accounts[1].data) {
            None => Some(ReviewError::InvalidAccountData),
            Some(found) => if accounts[1].owner != program_id {
                Some(ReviewError::NotOwner)
            } else if !accounts[0].is_signer {
                Some(ReviewError::MissingSignature)
            } else if !is_derived(
                accounts[1].key,
                review_seeds(accounts[0].key, found.title),
                program_id,
            ) {
                Some(ReviewError::AddressMismatch)
            } else if !found.is_initialized {
                Some(ReviewError::NotInitialized)
            } else {
                None
            },
        }
    }
}

/// The first check that updating a review fails, in the order in which the
/// checks are made; `None` where the update is accepted.
pub open spec fn update_review_error(
    program_id: Seq<u8>,
    accounts: Seq<AccountView>,
    rating: u8,
    description: Seq<char>,
) -> Option<ReviewError> {
    let record = updated_review(
        ReviewView::decode(accounts[1].data).unwrap(),
        rating,
        description,
    );
    first_error(
        update_slot_error(program_id, accounts),
        first_error(
            review_input_error(record),
            if accounts[1].data.len() < record.len() {
                Some(ReviewError::AccountDataTooSmall)
            } else {
                None
            },
        ),
    )
}

/// The accounts after an update was accepted.
pub open spec fn update_review_accounts(
    accounts: Seq<AccountView>,
    rating: u8,
    description: Seq<char>,
) -> Seq<AccountView> {
    let found = ReviewView::decode(accounts[1].data).unwrap();
    accounts.update(1, accounts[1].store(updated_review(found, rating, description).bytes()))
}

/// How updating a review ends. An accepted update asks nothing of the host.
pub open spec fn update_review_outcome(
    program_id: Seq<u8>,
    accounts: Seq<AccountView>,
    rating: u8,
    description: Seq<char>,
) -> Outcome {
    outcome(
        update_review_error(program_id, accounts, rating, description),
        accounts,
        Seq::empty(),
        update_review_accounts(accounts, rating, description),
    )
}

/// Updates a review: the slot has to hold a review, belong to the program
/// and be the one derived from the signing author and the stored title; then
/// rating and description are replaced. The title handed in plays no part:
/// the stored one counts.
pub fn update_movie_review(
    program_id: &Address,
    accounts: &mut Vec<Account>,
    title: String,
    rating: u8,
    description: String,
) -> (r: Result<Vec<Action>, ReviewError>)
    ensures
        outcome_of(r, *final(accounts)) == update_review_outcome(
            program_id@,
            old(accounts).deep_view(),
            rating,
            description@,
        ),
        r is Ok ==> 1 <= rating <= 5,
{
    proof {
        lemma_account_views(accounts);
    }
    if accounts.len() < UPDATE_REVIEW_ACCOUNTS {
        return Err(ReviewError::NotEnoughAccounts);
    }
    let found = match ReviewRecord::decode(accounts[1].data.as_slice()) {
        Ok(rec) => rec,
        Err(e) => {
            return Err(e);
        },
    };
    if accounts[1].owner != *program_id {
        return Err(ReviewError::NotOwner);
    }
    if !accounts[0].is_signer {
        return Err(ReviewError::MissingSignature);
    }
    let seeds = make_review_seeds(&accounts[0].key, found.title.as_str());
    if validate(&accounts[1].key, &seeds, program_id).is_none() {
        return Err(ReviewError::AddressMismatch);
    }
    if !found.is_initialized {
        return Err(ReviewError::NotInitialized);
    }
    if rating < 1 || rating > 5 {
        return Err(ReviewError::InvalidRating);
    }
    let record = ReviewRecord {
        discriminator: found.discriminator,
        is_initialized: found.is_initialized,
        title: found.title,
        rating,
        description,
    };
    let bytes = match record.encode() {
        Ok(b) => b,
        Err(e) => {
            return Err(e);
        },
    };
    proof {
        lemma_review_round_trip(record@, Seq::empty());
    }
    let slot = match accounts[1].store(&bytes) {
        Ok(slot) => slot,
        Err(e) => {
            return Err(e);
        },
    };
    replace(accounts, 1, slot);
    let actions: Vec<Action> = Vec::new();
    assert(actions.deep_view() =~= Seq::<ActionView>::empty());
    Ok(actions)
}

// ---------------------------------------------------------------------------
// Add comment
// ---------------------------------------------------------------------------

/// Whether the accounts for a comment are at hand, the counter can be
/// read, and the comment slot stands at the address derived for the count.
pub open spec fn comment_address_error(program_id: Seq<u8>, accounts: Seq<AccountView>) -> Option<
    ReviewError,
> {
    if accounts.len() < ADD_COMMENT_ACCOUNTS {
        Some(ReviewError::NotEnoughAccounts)
    } else {
        match CounterView::decode(accounts[2].data) {
            None => Some(ReviewError::InvalidAccountData),
            Some(counter) => if !is_derived(
                accounts[3].key,
                comment_seeds(accounts[1].key, counter.counter),
                program_id,
            ) {
                Some(ReviewError::AddressMismatch)
            } else {
                None
            },
        }
    }
}

/// Whether the slot of a new comment is free and large enough, and the
/// counter can be advanced.
pub open spec fn comment_slot_error(slot: AccountView, record: CommentView, count: u64) -> Option<
    ReviewError,
> {
    match CommentView::decode(slot.data) {
        None => Some(ReviewError::InvalidAccountData),
        Some(found) => if found.is_initialized {
            Some(ReviewError::AlreadyInitialized)
        } else if slot.data.len() < record.len() {
            Some(ReviewError::AccountDataTooSmall)
        } else if count == u64::MAX {
            Some(ReviewError::CounterOverflow)
        } else {
            None
        },
    }
}

/// The first check that adding a comment fails, in the order in which the
/// checks are made; `None` where the comment is accepted.
pub open spec fn add_comment_error(
    program_id: Seq<u8>,
    accounts: Seq<AccountView>,
    comment: Seq<char>,
) -> Option<ReviewError> {
    let record = CommentView::fresh(accounts[1].key, comment);
    first_error(
        comment_address_error(program_id, accounts),
        first_error(
            if record.fits() {
                None
            } else {
                Some(ReviewError::RecordTooLarge)
            },
            first_error(
                comment_slot_error(
                    accounts[3].allocate(record.len(), program_id),
                    record,
                    CounterView::decode(accounts[2].data).unwrap().counter,
                ),
                reward_error(program_id, accounts[5].key, accounts[8].key),
            ),
        ),
    )
}

/// The accounts after a comment was accepted: the comment slot allocated
/// and written, the counter advanced by one.
pub open spec fn add_comment_accounts(
    program_id: Seq<u8>,
    accounts: Seq<AccountView>,
    comment: Seq<char>,
) -> Seq<AccountView> {
    let record = CommentView::fresh(accounts[1].key, comment);
    let counter = CounterView::decode(accounts[2].data).unwrap();
    let slot = accounts[3].allocate(record.len(), program_id);
    accounts.update(3, slot.store(record.bytes())).update(
        2,
        accounts[2].store(counter.advanced().bytes()),
    )
}

/// The steps for the host after a comment was accepted.
pub open spec fn add_comment_actions(
    program_id: Seq<u8>,
    accounts: Seq<AccountView>,
    comment: Seq<char>,
) -> Seq<ActionView> {
    let record = CommentView::fresh(accounts[1].key, comment);
    let counter = CounterView::decode(accounts[2].data).unwrap();
    allocation(
        accounts[3],
        accounts[0].key,
        record.len(),
        program_id,
        comment_seeds(accounts[1].key, counter.counter),
    ) + seq![
        reward_action(
            program_id,
            accounts[4].key,
            accounts[5].key,
            accounts[6].key,
            comment_reward(),
        ),
    ]
}

/// How adding a comment ends.
pub open spec fn add_comment_outcome(
    program_id: Seq<u8>,
    accounts: Seq<AccountView>,
    comment: Seq<char>,
) -> Outcome {
    outcome(
        add_comment_error(program_id, accounts, comment),
        accounts,
        add_comment_actions(program_id, accounts, comment),
        add_comment_accounts(program_id, accounts, comment),
    )
}

/// Checks the accounts of a new comment, reads the counter and derives the
/// seeds and bump of the comment slot.
fn check_comment_addresses(program_id: &Address, accounts: &Vec<Account>) -> (r: Result<
    (CounterRecord, Vec<Vec<u8>>, u8),
    ReviewError,
>)
    ensures
        match r {
            Ok((counter, seeds, bump)) => {
                &&& comment_address_error(program_id@, accounts.deep_view()) is None
                &&& CounterView::decode(accounts[2].data@) == Some(counter@)
                &&& seed_list(seeds@) == comment_seeds(accounts[1].key@, counter.counter)
                &&& bump == derived_bump(seed_list(seeds@), program_id@)
            },
            Err(e) => comment_address_error(program_id@, accounts.deep_view()) == Some(e),
        },
{
    proof {
        lemma_account_views(accounts);
    }
    if accounts.len() < ADD_COMMENT_ACCOUNTS {
        return Err(ReviewError::NotEnoughAccounts);
    }
    let counter = match CounterRecord::decode(accounts[2].data.as_slice()) {
        Ok(rec) => rec,
        Err(e) => {
            return Err(e);
        },
    };
    let seeds = make_comment_seeds(&accounts[1].key, counter.counter);
    let bump = match validate(&accounts[3].key, &seeds, program_id) {
        Some(b) => b,
        None => {
            return Err(ReviewError::AddressMismatch);
        },
    };
    Ok((counter, seeds, bump))
}

/// Checks that the comment slot is free and large enough and that the
/// counter can be advanced.
fn check_comment_slot(slot: &Account, record: &CommentRecord, len: usize, count: u64) -> (r:
    Result<(), ReviewError>)
    requires
        len == record@.len(),
    ensures
        match r {
            Ok(_) => comment_slot_error(slot@, record@, count) is None,
            Err(e) => comment_slot_error(slot@, record@, count) == Some(e),
        },
{
    let found = match CommentRecord::decode(slot.data.as_slice()) {
        Ok(rec) => rec,
        Err(e) => {
            return Err(e);
        },
    };
    if found.is_initialized {
        return Err(ReviewError::AlreadyInitialized);
    }
    if slot.data.len() < len {
        return Err(ReviewError::AccountDataTooSmall);
    }
    if count == u64::MAX {
        return Err(ReviewError::CounterOverflow);
    }
    Ok(())
}

/// The bytes of the counter, advanced by one.
fn advanced_counter_bytes(counter: CounterRecord, data: &Vec<u8>) -> (bytes: Vec<u8>)
    requires
        CounterView::decode(data@) == Some(counter@),
        counter.counter < u64::MAX,
    ensures
        bytes@ == counter@.advanced().bytes(),
        bytes.len() <= data.len(),
{
    proof {
        lemma_counter_fits_slot(data@);
    }
    let advanced = CounterRecord {
        discriminator: counter.discriminator,
        is_initialized: counter.is_initialized,
        counter: counter.counter + 1,
    };
    proof {
        lemma_counter_round_trip(advanced@, Seq::empty());
    }
    match advanced.encode() {
        Ok(bytes) => bytes,
        Err(_) => Vec::new(),
    }
}

/// The steps for the host after a comment was accepted.
fn comment_steps(
    program_id: &Address,
    accounts: &Vec<Account>,
    comment: &str,
    space: usize,
    seeds: Vec<Vec<u8>>,
    bump: u8,
    reward: Action,
) -> (actions: Vec<Action>)
    requires
        accounts.len() >= ADD_COMMENT_ACCOUNTS,
        CounterView::decode(accounts[2].data@) is Some,
        space == CommentView::fresh(accounts[1].key@, comment@).len(),
        seed_list(seeds@) == comment_seeds(
            accounts[1].key@,
            CounterView::decode(accounts[2].data@).unwrap().counter,
        ),
        bump == derived_bump(seed_list(seeds@), program_id@),
        reward@ == reward_action(
            program_id@,
            accounts[4].key@,
            accounts[5].key@,
            accounts[6].key@,
            comment_reward(),
        ),
    ensures
        actions.deep_view() == add_comment_actions(program_id@, accounts.deep_view(), comment@),
{
    proof {
        lemma_account_views(accounts);
    }
    let payer = accounts[0].key;
    let mut actions: Vec<Action> = Vec::new();
    assert(actions.deep_view() =~= Seq::<ActionView>::empty());
    allocate_step(&mut actions, &accounts[3], payer, space, program_id, seeds, bump);
    let ghost steps = actions.deep_view();
    actions.push(reward);
    assert(actions.deep_view() =~= steps + seq![reward@]);
    actions
}

/// Adds a comment to a review: reads the counter, validates the address of
/// the comment slot against the count, allocates the slot to the size of the
/// comment, refuses a slot that holds a comment already, writes the comment,
/// advances the counter by one, and pays the reward for a comment.
pub fn add_comment(program_id: &Address, accounts: &mut Vec<Account>, comment: String) -> (r:
    Result<Vec<Action>, ReviewError>)
    ensures
        outcome_of(r, *final(accounts)) == add_comment_outcome(
            program_id@,
            old(accounts).deep_view(),
            comment@,
        ),
{
    proof {
        lemma_account_views(accounts);
    }
    let (counter, seeds, bump) = match check_comment_addresses(program_id, accounts) {
        Ok(found) => found,
        Err(e) => {
            return Err(e);
        },
    };
    let count = counter.counter;
    let record = CommentRecord::fresh(accounts[1].key, comment);
    let space = match record.encoded_len() {
        Some(n) => n,
        None => {
            return Err(ReviewError::RecordTooLarge);
        },
    };
    let slot = accounts[3].allocate(space, program_id);
    match check_comment_slot(&slot, &record, space, count) {
        Ok(_) => {},
        Err(e) => {
            return Err(e);
        },
    }
    let bytes = match record.encode() {
        Ok(b) => b,
        Err(e) => {
            return Err(e);
        },
    };
    proof {
        lemma_comment_round_trip(record@, Seq::empty());
    }
    let counter_bytes = advanced_counter_bytes(counter, &accounts[2].data);
    let amount = COMMENT_REWARD * base_units_per_token();
    let reward = match payout(
        program_id,
        &accounts[4].key,
        &accounts[5].key,
        &accounts[6].key,
        &accounts[8].key,
        amount,
    ) {
        Ok(step) => step,
        Err(e) => {
            return Err(e);
        },
    };
    let actions = comment_steps(
        program_id,
        accounts,
        record.comment.as_str(),
        space,
        seeds,
        bump,
        reward,
    );
    let slot = match slot.store(&bytes) {
        Ok(slot) => slot,
        Err(e) => {
            return Err(e);
        },
    };
    let counter_slot = match accounts[2].store(&counter_bytes) {
        Ok(slot) => slot,
        Err(e) => {
            return Err(e);
        },
    };
    replace(accounts, 3, slot);
    replace(accounts, 2, counter_slot);
    Ok(actions)
}

// ---------------------------------------------------------------------------
// Dispatch
// ---------------------------------------------------------------------------

/// How a call with the instruction bytes `data` ends.
pub open spec fn process_outcome(
    program_id: Seq<u8>,
    accounts: Seq<AccountView>,
    data: Seq<u8>,
) -> Outcome {
    match unpacked(data) {
        None => Outcome {
            result: Err(ReviewError::InvalidInstructionData),
            accounts,
        },
        Some(InstructionView::AddMovieReview { title, rating, description }) => add_review_outcome(
            program_id,
            accounts,
            title,
            rating,
            description,
        ),
        Some(
            InstructionView::UpdateMovieReview { title, rating, description },
        ) => update_review_outcome(program_id, accounts, rating, description),
        Some(InstructionView::AddComment { comment }) => add_comment_outcome(
            program_id,
            accounts,
            comment,
        ),
    }
}

/// Decodes the instruction and carries out the operation that it names.
pub fn process_instruction(
    program_id: &Address,
    accounts: &mut Vec<Account>,
    instruction_data: &[u8],
) -> (r: Result<Vec<Action>, ReviewError>)
    ensures
        outcome_of(r, *final(accounts)) == process_outcome(
            program_id@,
            old(accounts).deep_view(),
            instruction_data@,
        ),
{
    let instruction = match MovieInstruction::unpack(instruction_data) {
        Ok(ix) => ix,
        Err(e) => {
            return Err(e);
        },
    };
    match instruction {
        MovieInstruction::AddMovieReview { title, rating, description } => add_movie_review(
            program_id,
            accounts,
            title,
            rating,
            description,
        ),
        MovieInstruction::UpdateMovieReview {
            title,
            rating,
            description,
        } => update_movie_review(program_id, accounts, title, rating, description),
        MovieInstruction::AddComment { comment } => add_comment(program_id, accounts, comment),
    }
}

} // verus!
