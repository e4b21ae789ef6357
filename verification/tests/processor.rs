use movie_review::account::Account;
use movie_review::address::derive_address;
use movie_review::address::make_authority_seeds;
use movie_review::address::make_comment_seeds;
use movie_review::address::make_counter_seeds;
use movie_review::address::make_review_seeds;
use movie_review::address::Address;
use movie_review::error::ReviewError;
use movie_review::processor::add_comment;
use movie_review::processor::add_movie_review;
use movie_review::processor::process_instruction;
use movie_review::processor::update_movie_review;
use movie_review::reward::allocation_call;
use movie_review::reward::AccountRole;
use movie_review::reward::Action;
use movie_review::reward::Invocation;
use movie_review::state::CommentRecord;
use movie_review::state::CounterRecord;
use movie_review::state::ReviewRecord;
use solana_program::native_token::LAMPORTS_PER_SOL;
use solana_program::pubkey::Pubkey;

fn address(byte: u8) -> Address {
    Address { bytes: [byte; 32] }
}

fn system() -> Address {
    address(0)
}

fn program() -> Address {
    address(7)
}

fn author() -> Address {
    address(11)
}

fn mint() -> Address {
    address(21)
}

fn payout_account() -> Address {
    address(22)
}

fn token_program() -> Address {
    Address { bytes: spl_token::ID.to_bytes() }
}

fn authority() -> Address {
    derive_address(&make_authority_seeds(), &program()).unwrap().0
}

fn review_key(title: &str) -> Address {
    derive_address(&make_review_seeds(&author(), title), &program()).unwrap().0
}

fn counter_key(title: &str) -> Address {
    derive_address(&make_counter_seeds(&review_key(title)), &program()).unwrap().0
}

fn comment_key(title: &str, count: u64) -> Address {
    derive_address(&make_comment_seeds(&review_key(title), count), &program()).unwrap().0
}

fn handle(key: Address) -> Account {
    Account::new(key, system(), false, Vec::new())
}

fn review_accounts(title: &str) -> Vec<Account> {
    vec![
        Account::new(author(), system(), true, Vec::new()),
        Account::unallocated(review_key(title), system()),
        Account::unallocated(counter_key(title), system()),
        handle(mint()),
        handle(authority()),
        handle(payout_account()),
        handle(system()),
        handle(token_program()),
    ]
}

fn created(title: &str, rating: u8, description: &str) -> Vec<Account> {
    let mut accounts = review_accounts(title);
    add_movie_review(
        &program(),
        &mut accounts,
        title.to_string(),
        rating,
        description.to_string(),
    )
    .unwrap();
    accounts
}

fn comment_accounts(review: &Account, counter: &Account, slot: Address) -> Vec<Account> {
    vec![
        Account::new(address(12), system(), true, Vec::new()),
        review.clone(),
        counter.clone(),
        Account::unallocated(slot, system()),
        handle(mint()),
        handle(authority()),
        handle(payout_account()),
        handle(system()),
        handle(token_program()),
    ]
}

fn review_instruction(opcode: u8, title: &str, rating: u8, description: &str) -> Vec<u8> {
    let mut data = vec![opcode];
    data.extend_from_slice(&(title.len() as u32).to_le_bytes());
    data.extend_from_slice(title.as_bytes());
    data.push(rating);
    data.extend_from_slice(&(description.len() as u32).to_le_bytes());
    data.extend_from_slice(description.as_bytes());
    data
}

#[test]
fn it_works() {
    let title = "Captain America";
    let review = "Liked the movie";
    let mut accounts = review_accounts(title);
    let data = review_instruction(0, title, 3, review);
    let result = process_instruction(&program(), &mut accounts, &data);
    assert!(matches!(result, Ok(_)));
}

#[test]
fn create_stores_review_and_counter_and_pays_ten() {
    let mut accounts = review_accounts("Dune");
    let actions = add_movie_review(
        &program(),
        &mut accounts,
        "Dune".to_string(),
        4,
        "Great".to_string(),
    )
    .unwrap();

    let review = ReviewRecord::decode(&accounts[1].data).unwrap();
    assert_eq!(review.discriminator, "review");
    assert!(review.is_initialized);
    assert_eq!(review.title, "Dune");
    assert_eq!(review.rating, 4);
    assert_eq!(review.description, "Great");
    assert_eq!(accounts[1].data.len(), 1000);
    assert_eq!(accounts[1].owner, program());

    let counter = CounterRecord::decode(&accounts[2].data).unwrap();
    assert_eq!(counter.discriminator, "counter");
    assert!(counter.is_initialized);
    assert_eq!(counter.counter, 0);
    assert_eq!(accounts[2].data.len(), 20);
    assert_eq!(accounts[2].owner, program());

    assert_eq!(actions.len(), 3);
    let (_, review_bump) = derive_address(&make_review_seeds(&author(), "Dune"), &program()).unwrap();
    let mut review_seeds = make_review_seeds(&author(), "Dune");
    review_seeds.push(vec![review_bump]);
    assert_eq!(
        actions[0],
        Action::Allocate {
            payer: author(),
            slot: review_key("Dune"),
            space: 1000,
            owner: program(),
            seeds: review_seeds,
        }
    );
    let (_, counter_bump) =
        derive_address(&make_counter_seeds(&review_key("Dune")), &program()).unwrap();
    let mut counter_seeds = make_counter_seeds(&review_key("Dune"));
    counter_seeds.push(vec![counter_bump]);
    assert_eq!(
        actions[1],
        Action::Allocate {
            payer: author(),
            slot: counter_key("Dune"),
            space: 20,
            owner: program(),
            seeds: counter_seeds,
        }
    );
    let (_, authority_bump) = derive_address(&make_authority_seeds(), &program()).unwrap();
    let mut data = vec![7u8];
    data.extend_from_slice(&10_000_000_000u64.to_le_bytes());
    assert_eq!(
        actions[2],
        Action::Mint {
            amount: 10_000_000_000,
            call: Invocation {
                program_id: token_program(),
                accounts: vec![
                    AccountRole { key: mint(), is_signer: false, is_writable: true },
                    AccountRole { key: payout_account(), is_signer: false, is_writable: true },
                    AccountRole { key: authority(), is_signer: true, is_writable: false },
                ],
                data,
            },
            signer: vec![b"tokens".to_vec(), vec![authority_bump]],
        }
    );
}

#[test]
fn allocation_step_becomes_the_system_programs_instruction() {
    let mut accounts = review_accounts("Dune");
    let actions =
        add_movie_review(&program(), &mut accounts, "Dune".to_string(), 4, "Great".to_string())
            .unwrap();
    match &actions[0] {
        Action::Allocate { payer, slot, space, owner, .. } => {
            let call = allocation_call(payer, slot, 7_850_880, *space, owner);
            let expected = solana_program::system_instruction::create_account(
                &Pubkey::new_from_array(author().bytes),
                &Pubkey::new_from_array(review_key("Dune").bytes),
                7_850_880,
                1000,
                &Pubkey::new_from_array(program().bytes),
            );
            assert_eq!(call.program_id, system());
            assert_eq!(call.program_id.bytes, expected.program_id.to_bytes());
            assert_eq!(call.data, expected.data);
            let mut data = vec![0u8, 0, 0, 0];
            data.extend_from_slice(&7_850_880u64.to_le_bytes());
            data.extend_from_slice(&1000u64.to_le_bytes());
            data.extend_from_slice(&program().bytes);
            assert_eq!(call.data, data);
            assert_eq!(
                call.accounts,
                vec![
                    AccountRole { key: author(), is_signer: true, is_writable: true },
                    AccountRole { key: review_key("Dune"), is_signer: true, is_writable: true },
                ]
            );
            assert_eq!(call.accounts.len(), expected.accounts.len());
        }
        other => panic!("unexpected step {:?}", other),
    }
}

#[test]
fn mint_step_is_the_token_programs_instruction() {
    let mut accounts = review_accounts("Dune");
    let actions =
        add_movie_review(&program(), &mut accounts, "Dune".to_string(), 4, "Great".to_string())
            .unwrap();
    let expected = spl_token::instruction::mint_to(
        &spl_token::id(),
        &Pubkey::new_from_array(mint().bytes),
        &Pubkey::new_from_array(payout_account().bytes),
        &Pubkey::new_from_array(authority().bytes),
        &[],
        10 * LAMPORTS_PER_SOL,
    )
    .unwrap();
    match &actions[2] {
        Action::Mint { call, .. } => {
            assert_eq!(call.program_id.bytes, expected.program_id.to_bytes());
            assert_eq!(call.data, expected.data);
            assert_eq!(call.accounts.len(), expected.accounts.len());
            for (role, meta) in call.accounts.iter().zip(expected.accounts.iter()) {
                assert_eq!(role.key.bytes, meta.pubkey.to_bytes());
                assert_eq!(role.is_signer, meta.is_signer);
                assert_eq!(role.is_writable, meta.is_writable);
            }
        }
        other => panic!("unexpected step {:?}", other),
    }
}

#[test]
fn review_payout_is_ten_whole_tokens() {
    let mut accounts = review_accounts("Dune");
    let actions =
        add_movie_review(&program(), &mut accounts, "Dune".to_string(), 4, "Great".to_string())
            .unwrap();
    match &actions[2] {
        Action::Mint { amount, .. } => assert_eq!(*amount, 10 * LAMPORTS_PER_SOL),
        other => panic!("unexpected step {:?}", other),
    }
}

#[test]
fn comment_is_stored_at_index_zero_and_pays_five() {
    let accounts = created("Dune", 4, "Great");
    let slot = comment_key("Dune", 0);
    let mut accounts = comment_accounts(&accounts[1], &accounts[2], slot);
    let actions = add_comment(&program(), &mut accounts, "Nice".to_string()).unwrap();

    let comment = CommentRecord::decode(&accounts[3].data).unwrap();
    assert_eq!(comment.discriminator, "comment");
    assert!(comment.is_initialized);
    assert_eq!(comment.review, review_key("Dune"));
    assert_eq!(comment.comment, "Nice");
    assert_eq!(accounts[3].data.len(), 4 + 7 + 1 + 32 + 4 + 4);
    assert_eq!(accounts[3].owner, program());

    let counter = CounterRecord::decode(&accounts[2].data).unwrap();
    assert_eq!(counter.counter, 1);
    assert!(counter.is_initialized);

    assert_eq!(actions.len(), 2);
    let (_, bump) = derive_address(&make_comment_seeds(&review_key("Dune"), 0), &program()).unwrap();
    assert_eq!(
        actions[0],
        Action::Allocate {
            payer: address(12),
            slot,
            space: 52,
            owner: program(),
            seeds: vec![review_key("Dune").bytes.to_vec(), vec![0; 8], vec![bump]],
        }
    );
    match &actions[1] {
        Action::Mint { amount, call, .. } => {
            assert_eq!(*amount, 5_000_000_000);
            assert_eq!(*amount, 5 * LAMPORTS_PER_SOL);
            assert_eq!(call.accounts[0].key, mint());
            assert_eq!(call.accounts[1].key, payout_account());
            assert_eq!(call.accounts[2].key, authority());
            assert_eq!(call.data[0], 7);
            assert_eq!(&call.data[1..], 5_000_000_000u64.to_le_bytes());
        }
        other => panic!("unexpected step {:?}", other),
    }
}

#[test]
fn update_with_rating_six_is_rejected_and_keeps_rating() {
    let accounts = created("Dune", 4, "Great");
    let mut accounts = vec![accounts[0].clone(), accounts[1].clone()];
    let before = accounts.clone();
    let result = update_movie_review(
        &program(),
        &mut accounts,
        "Dune".to_string(),
        6,
        "Better".to_string(),
    );
    assert_eq!(result, Err(ReviewError::InvalidRating));
    assert_eq!(accounts, before);
    assert_eq!(ReviewRecord::decode(&accounts[1].data).unwrap().rating, 4);
}

#[test]
fn update_replaces_rating_and_description() {
    let accounts = created("Dune", 4, "Great");
    let mut accounts = vec![accounts[0].clone(), accounts[1].clone()];
    let actions = update_movie_review(
        &program(),
        &mut accounts,
        "ignored".to_string(),
        2,
        "On second thought".to_string(),
    )
    .unwrap();
    assert!(actions.is_empty());
    let review = ReviewRecord::decode(&accounts[1].data).unwrap();
    assert_eq!(review.discriminator, "review");
    assert!(review.is_initialized);
    assert_eq!(review.title, "Dune");
    assert_eq!(review.rating, 2);
    assert_eq!(review.description, "On second thought");
    assert_eq!(accounts[1].data.len(), 1000);
}

#[test]
fn update_to_a_shorter_description_leaves_the_tail_of_the_slot() {
    let accounts = created("Dune", 4, "A long description");
    let old = accounts[1].data.clone();
    let mut accounts = vec![accounts[0].clone(), accounts[1].clone()];
    update_movie_review(&program(), &mut accounts, String::new(), 5, "ok".to_string()).unwrap();
    let written = ReviewRecord::decode(&accounts[1].data).unwrap().encode().unwrap();
    assert_eq!(&accounts[1].data[..written.len()], &written[..]);
    assert_eq!(&accounts[1].data[written.len()..], &old[written.len()..]);
}

#[test]
fn oversized_review_is_rejected_and_nothing_is_allocated() {
    let mut accounts = review_accounts("Dune");
    let before = accounts.clone();
    let description = "x".repeat(1000);
    let result = add_movie_review(&program(), &mut accounts, "Dune".to_string(), 4, description);
    assert_eq!(result, Err(ReviewError::RecordTooLarge));
    assert_eq!(accounts, before);
    assert!(accounts[1].data.is_empty());
    assert!(accounts[2].data.is_empty());
}

#[test]
fn review_of_exactly_the_ceiling_is_accepted() {
    // 4 + 6 + 1 + 4 + 4 + 1 + 4 = 24 bytes besides the description
    let mut accounts = review_accounts("Dune");
    let description = "x".repeat(976);
    let record = ReviewRecord::fresh("Dune".to_string(), 4, description.clone());
    assert_eq!(record.encoded_len(), Some(1000));
    assert!(add_movie_review(&program(), &mut accounts, "Dune".to_string(), 4, description).is_ok());

    let mut accounts = review_accounts("Dune");
    let description = "x".repeat(977);
    let record = ReviewRecord::fresh("Dune".to_string(), 4, description.clone());
    assert_eq!(record.encoded_len(), None);
    assert_eq!(
        add_movie_review(&program(), &mut accounts, "Dune".to_string(), 4, description),
        Err(ReviewError::RecordTooLarge)
    );
}

#[test]
fn second_create_is_rejected_as_already_initialized() {
    let mut accounts = created("Dune", 4, "Great");
    let before = accounts.clone();
    let result =
        add_movie_review(&program(), &mut accounts, "Dune".to_string(), 4, "Great".to_string());
    assert_eq!(result, Err(ReviewError::AlreadyInitialized));
    assert_eq!(accounts, before);

    let result =
        add_movie_review(&program(), &mut accounts, "Dune".to_string(), 1, "Awful".to_string());
    assert_eq!(result, Err(ReviewError::AlreadyInitialized));
    assert_eq!(accounts, before);
    assert_eq!(ReviewRecord::decode(&accounts[1].data).unwrap().rating, 4);
}

#[test]
fn ratings_outside_one_to_five_are_rejected() {
    for rating in [0u8, 6, 7, 255] {
        let mut accounts = review_accounts("Dune");
        let before = accounts.clone();
        let result = add_movie_review(
            &program(),
            &mut accounts,
            "Dune".to_string(),
            rating,
            "Great".to_string(),
        );
        assert_eq!(result, Err(ReviewError::InvalidRating));
        assert_eq!(accounts, before);
    }
    for rating in 1u8..=5 {
        let mut accounts = review_accounts("Dune");
        let result = add_movie_review(
            &program(),
            &mut accounts,
            "Dune".to_string(),
            rating,
            "Great".to_string(),
        );
        assert!(result.is_ok());
        assert_eq!(ReviewRecord::decode(&accounts[1].data).unwrap().rating, rating);
    }
}

#[test]
fn update_ratings_outside_one_to_five_are_rejected() {
    let accounts = created("Dune", 4, "Great");
    for rating in [0u8, 6] {
        let mut accounts = vec![accounts[0].clone(), accounts[1].clone()];
        let result =
            update_movie_review(&program(), &mut accounts, String::new(), rating, String::new());
        assert_eq!(result, Err(ReviewError::InvalidRating));
    }
    for rating in 1u8..=5 {
        let mut accounts = vec![accounts[0].clone(), accounts[1].clone()];
        let result =
            update_movie_review(&program(), &mut accounts, String::new(), rating, String::new());
        assert!(result.is_ok());
    }
}

#[test]
fn comments_are_numbered_in_order() {
    let accounts = created("Dune", 4, "Great");
    let review = accounts[1].clone();
    let mut counter = accounts[2].clone();
    let program_key = Pubkey::new_from_array(program().bytes);
    let review_pubkey = Pubkey::new_from_array(review.key.bytes);
    let mut slots: Vec<Address> = Vec::new();
    let n: u64 = 5;
    for i in 0..n {
        let (expected, _) = Pubkey::find_program_address(
            &[review_pubkey.as_ref(), &i.to_be_bytes()],
            &program_key,
        );
        let slot = Address { bytes: expected.to_bytes() };
        let mut accounts = comment_accounts(&review, &counter, slot);
        add_comment(&program(), &mut accounts, format!("comment {}", i)).unwrap();
        counter = accounts[2].clone();
        assert_eq!(CounterRecord::decode(&counter.data).unwrap().counter, i + 1);
        assert_eq!(
            CommentRecord::decode(&accounts[3].data).unwrap().comment,
            format!("comment {}", i)
        );
        assert!(!slots.contains(&slot));
        slots.push(slot);
    }
    assert_eq!(CounterRecord::decode(&counter.data).unwrap().counter, n);
}

#[test]
fn comment_at_the_address_of_another_index_is_rejected() {
    let accounts = created("Dune", 4, "Great");
    let mut accounts = comment_accounts(&accounts[1], &accounts[2], comment_key("Dune", 1));
    let before = accounts.clone();
    let result = add_comment(&program(), &mut accounts, "Nice".to_string());
    assert_eq!(result, Err(ReviewError::AddressMismatch));
    assert_eq!(accounts, before);
}

#[test]
fn comment_slot_that_holds_a_comment_is_rejected() {
    let accounts = created("Dune", 4, "Great");
    let mut first = comment_accounts(&accounts[1], &accounts[2], comment_key("Dune", 0));
    add_comment(&program(), &mut first, "Nice".to_string()).unwrap();
    // the same slot again, with the counter as it was before the first comment
    let mut again = comment_accounts(&accounts[1], &accounts[2], comment_key("Dune", 0));
    again[3] = first[3].clone();
    let before = again.clone();
    let result = add_comment(&program(), &mut again, "Twice".to_string());
    assert_eq!(result, Err(ReviewError::AlreadyInitialized));
    assert_eq!(again, before);
}

#[test]
fn too_few_accounts_are_rejected() {
    let mut accounts = review_accounts("Dune");
    accounts.pop();
    assert_eq!(
        add_movie_review(&program(), &mut accounts, "Dune".to_string(), 4, "Great".to_string()),
        Err(ReviewError::NotEnoughAccounts)
    );
    let mut accounts = vec![handle(author())];
    assert_eq!(
        update_movie_review(&program(), &mut accounts, String::new(), 4, String::new()),
        Err(ReviewError::NotEnoughAccounts)
    );
    let created = created("Dune", 4, "Great");
    let mut accounts = comment_accounts(&created[1], &created[2], comment_key("Dune", 0));
    accounts.pop();
    assert_eq!(
        add_comment(&program(), &mut accounts, "Nice".to_string()),
        Err(ReviewError::NotEnoughAccounts)
    );
}

#[test]
fn review_slot_at_another_address_is_rejected() {
    let mut accounts = review_accounts("Dune");
    accounts[1].key = address(99);
    assert_eq!(
        add_movie_review(&program(), &mut accounts, "Dune".to_string(), 4, "Great".to_string()),
        Err(ReviewError::AddressMismatch)
    );
    let mut accounts = review_accounts("Dune");
    accounts[2].key = address(99);
    assert_eq!(
        add_movie_review(&program(), &mut accounts, "Dune".to_string(), 4, "Great".to_string()),
        Err(ReviewError::AddressMismatch)
    );
    // the title is part of the derivation
    let mut accounts = review_accounts("Dune");
    assert_eq!(
        add_movie_review(&program(), &mut accounts, "Dune 2".to_string(), 4, "Great".to_string()),
        Err(ReviewError::AddressMismatch)
    );
}

#[test]
fn title_longer_than_a_seed_has_no_address() {
    let title = "a".repeat(33);
    assert!(derive_address(&make_review_seeds(&author(), &title), &program()).is_none());
    let mut accounts = review_accounts("Dune");
    assert_eq!(
        add_movie_review(&program(), &mut accounts, title, 4, "Great".to_string()),
        Err(ReviewError::AddressMismatch)
    );
    let title = "a".repeat(32);
    assert!(derive_address(&make_review_seeds(&author(), &title), &program()).is_some());
}

#[test]
fn wrong_reward_authority_is_rejected() {
    let mut accounts = review_accounts("Dune");
    accounts[4].key = address(99);
    let before = accounts.clone();
    assert_eq!(
        add_movie_review(&program(), &mut accounts, "Dune".to_string(), 4, "Great".to_string()),
        Err(ReviewError::WrongRewardAuthority)
    );
    assert_eq!(accounts, before);

    let created = created("Dune", 4, "Great");
    let mut accounts = comment_accounts(&created[1], &created[2], comment_key("Dune", 0));
    accounts[5].key = address(99);
    let before = accounts.clone();
    assert_eq!(
        add_comment(&program(), &mut accounts, "Nice".to_string()),
        Err(ReviewError::WrongRewardAuthority)
    );
    assert_eq!(accounts, before);
}

#[test]
fn wrong_reward_program_is_rejected() {
    let mut accounts = review_accounts("Dune");
    accounts[7].key = address(98);
    let before = accounts.clone();
    assert_eq!(
        add_movie_review(&program(), &mut accounts, "Dune".to_string(), 4, "Great".to_string()),
        Err(ReviewError::WrongRewardProgram)
    );
    assert_eq!(accounts, before);

    let created = created("Dune", 4, "Great");
    let mut accounts = comment_accounts(&created[1], &created[2], comment_key("Dune", 0));
    accounts[8].key = address(98);
    assert_eq!(
        add_comment(&program(), &mut accounts, "Nice".to_string()),
        Err(ReviewError::WrongRewardProgram)
    );
}

#[test]
fn update_of_a_slot_owned_by_another_program_is_rejected() {
    let accounts = created("Dune", 4, "Great");
    let mut accounts = vec![accounts[0].clone(), accounts[1].clone()];
    accounts[1].owner = address(5);
    assert_eq!(
        update_movie_review(&program(), &mut accounts, String::new(), 3, String::new()),
        Err(ReviewError::NotOwner)
    );
}

#[test]
fn update_without_signature_is_rejected() {
    let accounts = created("Dune", 4, "Great");
    let mut accounts = vec![accounts[0].clone(), accounts[1].clone()];
    accounts[0].is_signer = false;
    assert_eq!(
        update_movie_review(&program(), &mut accounts, String::new(), 3, String::new()),
        Err(ReviewError::MissingSignature)
    );
}

#[test]
fn update_by_another_author_is_rejected() {
    let accounts = created("Dune", 4, "Great");
    let mut accounts = vec![
        Account::new(address(12), system(), true, Vec::new()),
        accounts[1].clone(),
    ];
    assert_eq!(
        update_movie_review(&program(), &mut accounts, String::new(), 3, String::new()),
        Err(ReviewError::AddressMismatch)
    );
}

#[test]
fn update_of_a_slot_that_was_never_written_is_rejected() {
    // allocated and zeroed, owned by the program, at the address of the empty title
    let key = derive_address(&make_review_seeds(&author(), ""), &program()).unwrap().0;
    let mut accounts = vec![
        Account::new(author(), system(), true, Vec::new()),
        Account::new(key, program(), false, vec![0; 1000]),
    ];
    assert_eq!(
        update_movie_review(&program(), &mut accounts, String::new(), 3, String::new()),
        Err(ReviewError::NotInitialized)
    );
}

#[test]
fn update_of_an_empty_slot_is_rejected() {
    let mut accounts = vec![
        Account::new(author(), system(), true, Vec::new()),
        Account::unallocated(review_key("Dune"), system()),
    ];
    assert_eq!(
        update_movie_review(&program(), &mut accounts, String::new(), 3, String::new()),
        Err(ReviewError::InvalidAccountData)
    );
}

#[test]
fn update_over_the_ceiling_is_rejected() {
    let accounts = created("Dune", 4, "Great");
    let mut accounts = vec![accounts[0].clone(), accounts[1].clone()];
    let before = accounts.clone();
    assert_eq!(
        update_movie_review(&program(), &mut accounts, String::new(), 3, "x".repeat(977)),
        Err(ReviewError::RecordTooLarge)
    );
    assert_eq!(accounts, before);
    assert!(
        update_movie_review(&program(), &mut accounts, String::new(), 3, "x".repeat(976)).is_ok()
    );
}

#[test]
fn slot_with_bytes_that_are_no_record_is_rejected() {
    let mut accounts = review_accounts("Dune");
    // a length prefix that announces more than the slot holds
    accounts[1].data = vec![255; 1000];
    assert_eq!(
        add_movie_review(&program(), &mut accounts, "Dune".to_string(), 4, "Great".to_string()),
        Err(ReviewError::InvalidAccountData)
    );
    let created = created("Dune", 4, "Great");
    let mut accounts = comment_accounts(&created[1], &created[2], comment_key("Dune", 0));
    accounts[2].data = vec![1, 0, 0, 0, 0xff, 1, 0, 0, 0, 0, 0, 0, 0, 0];
    assert_eq!(
        add_comment(&program(), &mut accounts, "Nice".to_string()),
        Err(ReviewError::InvalidAccountData)
    );
}

#[test]
fn slot_too_small_for_the_record_is_rejected() {
    let mut accounts = review_accounts("Dune");
    accounts[1].data = vec![0; 20];
    let before = accounts.clone();
    assert_eq!(
        add_movie_review(&program(), &mut accounts, "Dune".to_string(), 4, "Great".to_string()),
        Err(ReviewError::AccountDataTooSmall)
    );
    assert_eq!(accounts, before);

    let mut accounts = review_accounts("Dune");
    accounts[2].data = vec![0; 19];
    assert_eq!(
        add_movie_review(&program(), &mut accounts, "Dune".to_string(), 4, "Great".to_string()),
        Err(ReviewError::AccountDataTooSmall)
    );

    let created = created("Dune", 4, "Great");
    let mut accounts = comment_accounts(&created[1], &created[2], comment_key("Dune", 0));
    accounts[3].data = vec![0; 51];
    assert_eq!(
        add_comment(&program(), &mut accounts, "Nice".to_string()),
        Err(ReviewError::AccountDataTooSmall)
    );
}

#[test]
fn slot_allocated_beforehand_is_written_without_allocation() {
    let mut accounts = review_accounts("Dune");
    accounts[1].data = vec![0; 1000];
    accounts[1].owner = program();
    let actions =
        add_movie_review(&program(), &mut accounts, "Dune".to_string(), 4, "Great".to_string())
            .unwrap();
    assert_eq!(actions.len(), 2);
    assert!(matches!(actions[0], Action::Allocate { space: 20, .. }));
    assert!(matches!(actions[1], Action::Mint { .. }));
    assert_eq!(ReviewRecord::decode(&accounts[1].data).unwrap().title, "Dune");
}

#[test]
fn counter_at_its_limit_cannot_be_advanced() {
    let created = created("Dune", 4, "Great");
    let mut counter = created[2].clone();
    let full = CounterRecord {
        discriminator: "counter".to_string(),
        is_initialized: true,
        counter: u64::MAX,
    };
    counter.data = full.encode().unwrap();
    let mut accounts = comment_accounts(&created[1], &counter, comment_key("Dune", u64::MAX));
    let before = accounts.clone();
    assert_eq!(
        add_comment(&program(), &mut accounts, "Nice".to_string()),
        Err(ReviewError::CounterOverflow)
    );
    assert_eq!(accounts, before);
}

#[test]
fn instruction_bytes_select_the_operation() {
    let mut accounts = review_accounts("Dune");
    let actions = process_instruction(
        &program(),
        &mut accounts,
        &review_instruction(0, "Dune", 4, "Great"),
    )
    .unwrap();
    assert_eq!(actions.len(), 3);

    let mut update = vec![accounts[0].clone(), accounts[1].clone()];
    let actions = process_instruction(
        &program(),
        &mut update,
        &review_instruction(1, "whatever", 5, "Even better"),
    )
    .unwrap();
    assert!(actions.is_empty());
    let review = ReviewRecord::decode(&update[1].data).unwrap();
    assert_eq!(review.title, "Dune");
    assert_eq!(review.rating, 5);
    assert_eq!(review.description, "Even better");

    let mut comment = comment_accounts(&accounts[1], &accounts[2], comment_key("Dune", 0));
    let mut data = vec![2u8];
    data.extend_from_slice(&4u32.to_le_bytes());
    data.extend_from_slice(b"Nice");
    let actions = process_instruction(&program(), &mut comment, &data).unwrap();
    assert_eq!(actions.len(), 2);
    assert_eq!(CommentRecord::decode(&comment[3].data).unwrap().comment, "Nice");
}

#[test]
fn instruction_bytes_that_name_no_operation_are_rejected() {
    let mut accounts = review_accounts("Dune");
    let before = accounts.clone();
    for data in [vec![], vec![3u8], vec![0u8, 1, 0], review_instruction(9, "Dune", 4, "Great")] {
        assert_eq!(
            process_instruction(&program(), &mut accounts, &data),
            Err(ReviewError::InvalidInstructionData)
        );
        assert_eq!(accounts, before);
    }
}

#[test]
fn error_codes_are_distinct() {
    let all = [
        ReviewError::NotEnoughAccounts,
        ReviewError::InvalidInstructionData,
        ReviewError::AddressMismatch,
        ReviewError::InvalidRating,
        ReviewError::RecordTooLarge,
        ReviewError::AlreadyInitialized,
        ReviewError::NotInitialized,
        ReviewError::NotOwner,
        ReviewError::MissingSignature,
        ReviewError::WrongRewardAuthority,
        ReviewError::WrongRewardProgram,
        ReviewError::InvalidAccountData,
        ReviewError::AccountDataTooSmall,
        ReviewError::CounterOverflow,
    ];
    for (i, e) in all.iter().enumerate() {
        assert_eq!(e.code(), i as u32);
    }
}
