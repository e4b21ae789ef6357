//! What the host has to carry out for an accepted operation, and the
//! capability check that guards the reward.

use crate::address::authority_seeds;
use crate::address::derived_bump;
use crate::address::is_derived;
use crate::address::make_authority_seeds;
use crate::address::seed_list;
use crate::address::signer_seeds;
use crate::address::validate;
use crate::address::with_bump;
use crate::address::Address;
use crate::codec::u32_bytes;
use crate::codec::u64_bytes;
use crate::error::ReviewError;
use solana_program::native_token::LAMPORTS_PER_SOL;
use solana_program::pubkey::Pubkey;
use solana_program::system_instruction::create_account as create_account_instruction;
use vstd::prelude::*;

verus! {

/// Reward units paid for a review.
pub const REVIEW_REWARD: u64 = 10;

/// Reward units paid for a comment.
pub const COMMENT_REWARD: u64 = 5;

/// Base units of the reward token in one reward unit.
pub const BASE_UNITS_PER_REWARD: u64 = 1_000_000_000;

/// An account as an instruction names it.
#[derive(Clone, Copy, Debug, PartialEq, Eq)]
pub struct AccountRole {
    pub key: Address,
    pub is_signer: bool,
    pub is_writable: bool,
}

/// The mathematical value of an [`AccountRole`].
pub struct AccountRoleView {
    pub key: Seq<u8>,
    pub is_signer: bool,
    pub is_writable: bool,
}

impl View for AccountRole {
    type V = AccountRoleView;

    open spec fn view(&self) -> AccountRoleView {
        AccountRoleView { key: self.key@, is_signer: self.is_signer, is_writable: self.is_writable }
    }
}

impl DeepView for AccountRole {
    type V = AccountRoleView;

    open spec fn deep_view(&self) -> AccountRoleView {
        self@
    }
}

/// An instruction for another program: the program, the accounts it works
/// on, and its data.
#[derive(Clone, Debug, PartialEq, Eq)]
pub struct Invocation {
    pub program_id: Address,
    pub accounts: Vec<AccountRole>,
    pub data: Vec<u8>,
}

/// The mathematical value of an [`Invocation`].
pub struct InvocationView {
    pub program_id: Seq<u8>,
    pub accounts: Seq<AccountRoleView>,
    pub data: Seq<u8>,
}

impl View for Invocation {
    type V = InvocationView;

    open spec fn view(&self) -> InvocationView {
        InvocationView {
            program_id: self.program_id@,
            accounts: self.accounts.deep_view(),
            data: self.data@,
        }
    }
}

/// A step that the host carries out after the program accepted an
/// operation: the program decides, the host acts.
#[derive(Clone, Debug, PartialEq, Eq)]
pub enum Action {
    /// Create the slot at `slot` with `space` zero bytes, owned by `owner`
    /// and funded by `payer`; `seeds` sign for the slot.
    Allocate { payer: Address, slot: Address, space: u64, owner: Address, seeds: Vec<Vec<u8>> },
    /// Mint `amount` base units of the reward token by invoking `call`;
    /// `signer` holds the seeds that sign for the mint authority.
    Mint { amount: u64, call: Invocation, signer: Vec<Vec<u8>> },
}

/// The mathematical value of an [`Action`].
pub enum ActionView {
    Allocate { payer: Seq<u8>, slot: Seq<u8>, space: u64, owner: Seq<u8>, seeds: Seq<Seq<u8>> },
    Mint { amount: u64, call: InvocationView, signer: Seq<Seq<u8>> },
}

impl View for Action {
    type V = ActionView;

    open spec fn view(&self) -> ActionView {
        match self {
            Action::Allocate { payer, slot, space, owner, seeds } => ActionView::Allocate {
                payer: payer@,
                slot: slot@,
                space: *space,
                owner: owner@,
                seeds: seed_list(seeds@),
            },
            Action::Mint { amount, call, signer } => ActionView::Mint {
                amount: *amount,
                call: call@,
                signer: seed_list(signer@),
            },
        }
    }
}

impl DeepView for Action {
    type V = ActionView;

    open spec fn deep_view(&self) -> ActionView {
        self@
    }
}

/// The address of the reward-token program.
pub open spec fn token_program() -> Seq<u8> {
    seq![
        6u8, 221u8, 246u8, 225u8, 215u8, 101u8, 161u8, 147u8, 217u8, 203u8, 225u8, 70u8, 206u8,
        235u8, 121u8, 172u8, 28u8, 180u8, 133u8, 237u8, 95u8, 91u8, 55u8, 145u8, 58u8, 140u8,
        245u8, 133u8, 126u8, 255u8, 0u8, 169u8,
    ]
}

/// The instruction that has the token program mint `amount` base units of
/// `mint` to `destination` on the word of `authority`: the two token
/// accounts writable, the authority signing, and as data the byte 7 and the
/// amount, little-endian.
pub open spec fn mint_call(
    mint: Seq<u8>,
    destination: Seq<u8>,
    authority: Seq<u8>,
    amount: u64,
) -> InvocationView {
    InvocationView {
        program_id: token_program(),
        accounts: seq![
            AccountRoleView { key: mint, is_signer: false, is_writable: true },
            AccountRoleView { key: destination, is_signer: false, is_writable: true },
            AccountRoleView { key: authority, is_signer: true, is_writable: false },
        ],
        data: seq![7u8] + u64_bytes(amount),
    }
}

/// The address of the system program, which allocates slots: 32 zero bytes.
pub open spec fn system_program() -> Seq<u8> {
    Seq::new(32, |i: int| 0u8)
}

/// The instruction that has the system program create the slot at `slot`
/// with `space` zero bytes, owned by `owner`, and move `lamports` from
/// `payer` into it: both accounts writable and signing, and as data the
/// number 0 in four bytes, the lamports, the space and the owner.
pub open spec fn create_call(
    payer: Seq<u8>,
    slot: Seq<u8>,
    lamports: u64,
    space: u64,
    owner: Seq<u8>,
) -> InvocationView {
    InvocationView {
        program_id: system_program(),
        accounts: seq![
            AccountRoleView { key: payer, is_signer: true, is_writable: true },
            AccountRoleView { key: slot, is_signer: true, is_writable: true },
        ],
        data: u32_bytes(0) + u64_bytes(lamports) + u64_bytes(space) + owner,
    }
}

/// Reads `spl_token::ID`, the address at which the token program is
/// deployed: `TokenkegQfeZyiNwAJbNbGKPFXCWuBvf9Ss623VQ5DA` in base 58.
#[verifier::external_body]
pub(crate) fn token_program_id() -> (a: Address)
    ensures
        a@ == token_program(),
{
    Address { bytes: spl_token::ID.to_bytes() }
}

/// Reads `LAMPORTS_PER_SOL` of `solana_program::native_token`: the number
/// of base units in one whole token of nine decimals.
#[verifier::external_body]
pub(crate) fn base_units_per_token() -> (n: u64)
    ensures
        n == BASE_UNITS_PER_REWARD,
{
    LAMPORTS_PER_SOL
}

/// Calls `spl_token::instruction::mint_to` with the authority as the only
/// signer. It builds an instruction exactly when `program` is the token
/// program; the instruction names the mint and the destination as writable
/// and the authority as signer, and carries the byte 7 and the amount.
#[verifier::external_body]
pub(crate) fn mint_to(
    program: &Address,
    mint: &Address,
    destination: &Address,
    authority: &Address,
    amount: u64,
) -> (r: Option<Invocation>)
    ensures
        r is Some <==> program@ == token_program(),
        r matches Some(call) ==> call@ == mint_call(mint@, destination@, authority@, amount),
{
    let key = |a: &Address| Pubkey::new_from_array(a.bytes);
    let built = spl_token::instruction::mint_to(
        &key(program), &key(mint), &key(destination), &key(authority), &[], amount,
    ).ok()?;
    let role = |m: &solana_program::instruction::AccountMeta| AccountRole {
        key: Address { bytes: m.pubkey.to_bytes() },
        is_signer: m.is_signer,
        is_writable: m.is_writable,
    };
    Some(Invocation {
        program_id: Address { bytes: built.program_id.to_bytes() },
        accounts: built.accounts.iter().map(role).collect(),
        data: built.data,
    })
}

/// Calls `system_instruction::create_account` of `solana_program`. The
/// instruction is for the system program, names the payer and the new slot
/// as writable signers, and carries the number 0 in four bytes, the lamports,
/// the space and the owner, integers little-endian.
#[verifier::external_body]
pub(crate) fn create_account(
    payer: &Address,
    slot: &Address,
    lamports: u64,
    space: u64,
    owner: &Address,
) -> (call: Invocation)
    ensures
        call@ == create_call(payer@, slot@, lamports, space, owner@),
{
    let key = |a: &Address| Pubkey::new_from_array(a.bytes);
    let built = create_account_instruction(&key(payer), &key(slot), lamports, space, &key(owner));
    let role = |m: &solana_program::instruction::AccountMeta| AccountRole {
        key: Address { bytes: m.pubkey.to_bytes() },
        is_signer: m.is_signer,
        is_writable: m.is_writable,
    };
    Invocation {
        program_id: Address { bytes: built.program_id.to_bytes() },
        accounts: built.accounts.iter().map(role).collect(),
        data: built.data,
    }
}

/// The instruction with which the host allocates a slot once it knows the
/// funding that keeps the slot alive.
pub fn allocation_call(
    payer: &Address,
    slot: &Address,
    lamports: u64,
    space: u64,
    owner: &Address,
) -> (call: Invocation)
    ensures
        call@ == create_call(payer@, slot@, lamports, space, owner@),
{
    create_account(payer, slot, lamports, space, owner)
}

/// The reason for which a reward is refused, if any: the authority handle
/// has to be the address derived from the seed `tokens`, and the token
/// program handle the reward-token program.
pub open spec fn reward_error(program_id: Seq<u8>, authority: Seq<u8>, program: Seq<u8>) -> Option<
    ReviewError,
> {
    if !is_derived(authority, authority_seeds(), program_id) {
        Some(ReviewError::WrongRewardAuthority)
    } else if program != token_program() {
        Some(ReviewError::WrongRewardProgram)
    } else {
        None
    }
}

/// The mint step for a reward of `amount` base units.
pub open spec fn reward_action(
    program_id: Seq<u8>,
    mint: Seq<u8>,
    authority: Seq<u8>,
    destination: Seq<u8>,
    amount: u64,
) -> ActionView {
    ActionView::Mint {
        amount,
        call: mint_call(mint, destination, authority, amount),
        signer: signer_seeds(authority_seeds(), derived_bump(authority_seeds(), program_id)),
    }
}

/// The base units paid for a review.
pub open spec fn review_reward() -> u64 {
    10_000_000_000
}

/// The base units paid for a comment.
pub open spec fn comment_reward() -> u64 {
    5_000_000_000
}

/// Checks the capability for a reward of `amount` base units and, where it
/// holds, gives the mint step for the host.
pub fn payout(
    program_id: &Address,
    mint: &Address,
    authority: &Address,
    destination: &Address,
    token_program_key: &Address,
    amount: u64,
) -> (r: Result<Action, ReviewError>)
    ensures
        match r {
            Ok(action) => reward_error(program_id@, authority@, token_program_key@) is None
                && action@ == reward_action(program_id@, mint@, authority@, destination@, amount),
            Err(e) => reward_error(program_id@, authority@, token_program_key@) == Some(e),
        },
{
    let seeds = make_authority_seeds();
    let bump = match validate(authority, &seeds, program_id) {
        Some(b) => b,
        None => {
            return Err(ReviewError::WrongRewardAuthority);
        },
    };
    if *token_program_key != token_program_id() {
        return Err(ReviewError::WrongRewardProgram);
    }
    match mint_to(token_program_key, mint, destination, authority, amount) {
        Some(call) => Ok(Action::Mint { amount, call, signer: with_bump(seeds, bump) }),
        None => Err(ReviewError::WrongRewardProgram),
    }
}

} // verus!
