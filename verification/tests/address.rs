use movie_review::address::derive_address;
use movie_review::address::make_authority_seeds;
use movie_review::address::make_comment_seeds;
use movie_review::address::make_counter_seeds;
use movie_review::address::make_review_seeds;
use movie_review::address::validate;
use movie_review::address::with_bump;
use movie_review::address::Address;
use movie_review::processor::add_movie_review;
use movie_review::account::Account;
use movie_review::error::ReviewError;
use solana_program::pubkey::Pubkey;

fn program() -> Address {
    Address { bytes: [7; 32] }
}

fn author() -> Address {
    Address { bytes: [11; 32] }
}

fn pubkey(a: &Address) -> Pubkey {
    Pubkey::new_from_array(a.bytes)
}

#[test]
fn deriving_twice_gives_the_same_address_and_bump() {
    let seeds = make_review_seeds(&author(), "Dune");
    let first = derive_address(&seeds, &program());
    let second = derive_address(&make_review_seeds(&author(), "Dune"), &program());
    assert!(first.is_some());
    assert_eq!(first, second);
    let other = derive_address(&make_review_seeds(&author(), "Dune 2"), &program());
    assert_ne!(first, other);
}

#[test]
fn derivation_is_the_ledgers() {
    let (expected, bump) =
        Pubkey::find_program_address(&[author().bytes.as_ref(), b"Dune"], &pubkey(&program()));
    let (found, found_bump) = derive_address(&make_review_seeds(&author(), "Dune"), &program()).unwrap();
    assert_eq!(found.bytes, expected.to_bytes());
    assert_eq!(found_bump, bump);
    assert_ne!(found, author());
    assert_ne!(found, program());

    let (expected, bump) =
        Pubkey::find_program_address(&[expected.as_ref(), b"comment"], &pubkey(&program()));
    let (counter, counter_bump) = derive_address(&make_counter_seeds(&found), &program()).unwrap();
    assert_eq!(counter.bytes, expected.to_bytes());
    assert_eq!(counter_bump, bump);

    let (expected, bump) = Pubkey::find_program_address(&[b"tokens"], &pubkey(&program()));
    let (authority, authority_bump) = derive_address(&make_authority_seeds(), &program()).unwrap();
    assert_eq!(authority.bytes, expected.to_bytes());
    assert_eq!(authority_bump, bump);

    let (expected, _) = Pubkey::find_program_address(
        &[found.bytes.as_ref(), &258u64.to_be_bytes()],
        &pubkey(&program()),
    );
    let (comment, _) = derive_address(&make_comment_seeds(&found, 258), &program()).unwrap();
    assert_eq!(comment.bytes, expected.to_bytes());
}

#[test]
fn signer_seeds_recreate_the_address() {
    let seeds = make_review_seeds(&author(), "Dune");
    let (found, bump) = derive_address(&seeds, &program()).unwrap();
    let signer = with_bump(seeds, bump);
    assert_eq!(signer.len(), 3);
    let refs: Vec<&[u8]> = signer.iter().map(|s| s.as_slice()).collect();
    let recreated = Pubkey::create_program_address(&refs, &pubkey(&program())).unwrap();
    assert_eq!(recreated.to_bytes(), found.bytes);
}

#[test]
fn validation_accepts_only_the_derived_address() {
    let seeds = make_review_seeds(&author(), "Dune");
    let (found, bump) = derive_address(&seeds, &program()).unwrap();
    assert_eq!(validate(&found, &seeds, &program()), Some(bump));
    let mut other = found;
    other.bytes[31] ^= 1;
    assert_eq!(validate(&other, &seeds, &program()), None);
    assert_eq!(validate(&found, &seeds, &author()), None);
}

#[test]
fn too_many_or_too_long_seeds_have_no_address() {
    let long = vec![vec![0u8; 33]];
    assert_eq!(derive_address(&long, &program()), None);
    let many: Vec<Vec<u8>> = (0..16).map(|i| vec![i as u8]).collect();
    assert_eq!(derive_address(&many, &program()), None);
    let fifteen: Vec<Vec<u8>> = (0..15).map(|i| vec![i as u8]).collect();
    assert!(derive_address(&fifteen, &program()).is_some());
    assert!(derive_address(&vec![vec![0u8; 32]], &program()).is_some());
}

#[test]
fn addresses_compare_by_their_bytes() {
    let a = Address { bytes: [1; 32] };
    let mut b = Address { bytes: [1; 32] };
    assert_eq!(a, b);
    b.bytes[17] = 2;
    assert_ne!(a, b);
}

#[test]
fn reward_program_is_the_token_program() {
    let token = Address { bytes: spl_token::id().to_bytes() };
    let review = derive_address(&make_review_seeds(&author(), "Dune"), &program()).unwrap().0;
    let counter = derive_address(&make_counter_seeds(&review), &program()).unwrap().0;
    let authority = derive_address(&make_authority_seeds(), &program()).unwrap().0;
    let zero = Address { bytes: [0; 32] };
    let accounts = |program_key: Address| {
        vec![
            Account::new(author(), zero, true, Vec::new()),
            Account::unallocated(review, zero),
            Account::unallocated(counter, zero),
            Account::new(Address { bytes: [21; 32] }, zero, false, Vec::new()),
            Account::new(authority, zero, false, Vec::new()),
            Account::new(Address { bytes: [22; 32] }, zero, false, Vec::new()),
            Account::new(zero, zero, false, Vec::new()),
            Account::new(program_key, zero, false, Vec::new()),
        ]
    };
    let mut good = accounts(token);
    assert!(add_movie_review(&program(), &mut good, "Dune".to_string(), 4, String::new()).is_ok());
    let mut bad = accounts(zero);
    assert_eq!(
        add_movie_review(&program(), &mut bad, "Dune".to_string(), 4, String::new()),
        Err(ReviewError::WrongRewardProgram)
    );
    assert_eq!(
        token.bytes,
        [
            6, 221, 246, 225, 215, 101, 161, 147, 217, 203, 225, 70, 206, 235, 121, 172, 28, 180,
            133, 237, 95, 91, 55, 145, 58, 140, 245, 133, 126, 255, 0, 169
        ]
    );
}
