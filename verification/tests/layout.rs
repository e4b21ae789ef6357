use movie_review::address::Address;
use movie_review::codec::read_text;
use movie_review::codec::read_u32;
use movie_review::codec::read_u64;
use movie_review::codec::u64_to_be_bytes;
use movie_review::codec::write_text;
use movie_review::codec::write_u32;
use movie_review::codec::write_u64;
use movie_review::error::ReviewError;
use movie_review::instruction::MovieInstruction;
use movie_review::state::CommentRecord;
use movie_review::state::CounterRecord;
use movie_review::state::ReviewRecord;

fn review() -> ReviewRecord {
    ReviewRecord::fresh("Dune".to_string(), 4, "Great".to_string())
}

#[test]
fn review_layout_is_tag_flag_title_rating_description() {
    let bytes = review().encode().unwrap();
    let mut expected = Vec::new();
    expected.extend_from_slice(&[6, 0, 0, 0]);
    expected.extend_from_slice(b"review");
    expected.push(1);
    expected.extend_from_slice(&[4, 0, 0, 0]);
    expected.extend_from_slice(b"Dune");
    expected.push(4);
    expected.extend_from_slice(&[5, 0, 0, 0]);
    expected.extend_from_slice(b"Great");
    assert_eq!(bytes, expected);
    assert_eq!(review().encoded_len(), Some(29));
}

#[test]
fn counter_layout_is_tag_flag_count() {
    let mut counter = CounterRecord::fresh();
    counter.counter = 0x0102_0304_0506_0708;
    let bytes = counter.encode().unwrap();
    let mut expected = Vec::new();
    expected.extend_from_slice(&[7, 0, 0, 0]);
    expected.extend_from_slice(b"counter");
    expected.push(1);
    expected.extend_from_slice(&[8, 7, 6, 5, 4, 3, 2, 1]);
    assert_eq!(bytes, expected);
    assert_eq!(bytes.len(), 20);
}

#[test]
fn comment_layout_is_tag_flag_review_text() {
    let comment = CommentRecord::fresh(Address { bytes: [9; 32] }, "Nice".to_string());
    let bytes = comment.encode().unwrap();
    let mut expected = Vec::new();
    expected.extend_from_slice(&[7, 0, 0, 0]);
    expected.extend_from_slice(b"comment");
    expected.push(1);
    expected.extend_from_slice(&[9; 32]);
    expected.extend_from_slice(&[4, 0, 0, 0]);
    expected.extend_from_slice(b"Nice");
    assert_eq!(bytes, expected);
    assert_eq!(comment.encoded_len(), Some(52));
}

#[test]
fn records_agree_with_borsh() {
    let bytes = review().encode().unwrap();
    let tuple = ("review".to_string(), true, "Dune".to_string(), 4u8, "Great".to_string());
    assert_eq!(bytes, borsh::to_vec(&tuple).unwrap());
    let back: (String, bool, String, u8, String) = borsh::from_slice(&bytes).unwrap();
    assert_eq!(back, tuple);

    let mut counter = CounterRecord::fresh();
    counter.counter = 77_000_000_000;
    let bytes = counter.encode().unwrap();
    assert_eq!(bytes, borsh::to_vec(&("counter".to_string(), true, 77_000_000_000u64)).unwrap());

    let comment = CommentRecord::fresh(Address { bytes: [3; 32] }, "h\u{e9}llo \u{1f3ac}".to_string());
    let bytes = comment.encode().unwrap();
    let tuple = ("comment".to_string(), true, [3u8; 32], "h\u{e9}llo \u{1f3ac}".to_string());
    assert_eq!(bytes, borsh::to_vec(&tuple).unwrap());
}

#[test]
fn decode_gives_back_what_was_encoded() {
    let record = ReviewRecord {
        discriminator: "review".to_string(),
        is_initialized: true,
        title: "L\u{e9}on".to_string(),
        rating: 5,
        description: "\u{6620}\u{753b} \u{1f37f}".to_string(),
    };
    assert_eq!(ReviewRecord::decode(&record.encode().unwrap()), Ok(record.clone()));
    let mut padded = record.encode().unwrap();
    padded.resize(1000, 0xAB);
    assert_eq!(ReviewRecord::decode(&padded), Ok(record));

    let counter = CounterRecord { discriminator: String::new(), is_initialized: false, counter: 9 };
    assert_eq!(CounterRecord::decode(&counter.encode().unwrap()), Ok(counter));

    let comment = CommentRecord::fresh(Address { bytes: [200; 32] }, String::new());
    assert_eq!(CommentRecord::decode(&comment.encode().unwrap()), Ok(comment));
}

#[test]
fn zeroed_slot_decodes_to_the_uninitialized_record() {
    let review = ReviewRecord::decode(&[0u8; 1000]).unwrap();
    assert_eq!(
        review,
        ReviewRecord {
            discriminator: String::new(),
            is_initialized: false,
            title: String::new(),
            rating: 0,
            description: String::new(),
        }
    );
    assert!(ReviewRecord::decode(&[0u8; 14]).is_ok());
    assert_eq!(ReviewRecord::decode(&[0u8; 13]), Err(ReviewError::InvalidAccountData));

    let counter = CounterRecord::decode(&[0u8; 20]).unwrap();
    assert!(!counter.is_initialized);
    assert_eq!(counter.counter, 0);
    assert_eq!(CounterRecord::decode(&[0u8; 12]), Err(ReviewError::InvalidAccountData));

    let comment = CommentRecord::decode(&[0u8; 41]).unwrap();
    assert!(!comment.is_initialized);
    assert_eq!(comment.review, Address { bytes: [0; 32] });
    assert_eq!(CommentRecord::decode(&[0u8; 40]), Err(ReviewError::InvalidAccountData));
}

#[test]
fn bytes_that_are_not_text_are_rejected() {
    // tag of two bytes that are no UTF-8
    let mut data = vec![2, 0, 0, 0, 0xC3, 0x28];
    data.extend_from_slice(&[0; 20]);
    assert_eq!(ReviewRecord::decode(&data), Err(ReviewError::InvalidAccountData));
    assert_eq!(read_text(&data, 0), None);
    // the same length with UTF-8 in it
    let data = vec![2, 0, 0, 0, 0xC3, 0xA9, 0];
    assert_eq!(read_text(&data, 0), Some(("\u{e9}".to_string(), 6)));
}

#[test]
fn flag_bytes_other_than_zero_and_one_are_rejected() {
    let mut data = review().encode().unwrap();
    assert_eq!(data[10], 1);
    data[10] = 2;
    assert_eq!(ReviewRecord::decode(&data), Err(ReviewError::InvalidAccountData));
    data[10] = 0;
    assert!(!ReviewRecord::decode(&data).unwrap().is_initialized);
}

#[test]
fn integers_are_little_endian_on_the_wire() {
    let mut out = Vec::new();
    write_u32(&mut out, 0x0A0B_0C0D);
    assert_eq!(out, 0x0A0B_0C0Du32.to_le_bytes());
    assert_eq!(read_u32(&out, 0), Some((0x0A0B_0C0D, 4)));
    assert_eq!(read_u32(&out, 1), None);
    let mut out = vec![0xEE];
    write_u64(&mut out, u64::MAX - 1);
    assert_eq!(&out[1..], (u64::MAX - 1).to_le_bytes());
    assert_eq!(read_u64(&out, 1), Some((u64::MAX - 1, 9)));
    assert_eq!(read_u64(&out, 2), None);
    let mut out = Vec::new();
    write_text(&mut out, "abc");
    assert_eq!(out, vec![3, 0, 0, 0, b'a', b'b', b'c']);
}

#[test]
fn seed_of_a_count_is_big_endian() {
    for n in [0u64, 1, 255, 256, 0x0102_0304_0506_0708, u64::MAX] {
        assert_eq!(u64_to_be_bytes(n), n.to_be_bytes());
    }
}

#[test]
fn instructions_are_unpacked() {
    let mut data = vec![0u8];
    data.extend_from_slice(&15u32.to_le_bytes());
    data.extend_from_slice(b"Captain America");
    data.push(3);
    data.extend_from_slice(&15u32.to_le_bytes());
    data.extend_from_slice(b"Liked the movie");
    assert_eq!(
        MovieInstruction::unpack(&data),
        Ok(MovieInstruction::AddMovieReview {
            title: "Captain America".to_string(),
            rating: 3,
            description: "Liked the movie".to_string(),
        })
    );
    data[0] = 1;
    assert_eq!(
        MovieInstruction::unpack(&data),
        Ok(MovieInstruction::UpdateMovieReview {
            title: "Captain America".to_string(),
            rating: 3,
            description: "Liked the movie".to_string(),
        })
    );
    assert_eq!(
        MovieInstruction::unpack(&[2, 2, 0, 0, 0, b'o', b'k']),
        Ok(MovieInstruction::AddComment { comment: "ok".to_string() })
    );
}

#[test]
fn malformed_instructions_are_rejected() {
    let bad = Err(ReviewError::InvalidInstructionData);
    assert_eq!(MovieInstruction::unpack(&[]), bad);
    assert_eq!(MovieInstruction::unpack(&[3]), bad);
    assert_eq!(MovieInstruction::unpack(&[0]), bad);
    // a byte after the payload
    assert_eq!(MovieInstruction::unpack(&[2, 2, 0, 0, 0, b'o', b'k', 0]), bad);
    // a byte short
    assert_eq!(MovieInstruction::unpack(&[2, 2, 0, 0, 0, b'o']), bad);
    // no rating
    assert_eq!(MovieInstruction::unpack(&[1, 0, 0, 0, 0]), bad);
    // text that is no UTF-8
    assert_eq!(MovieInstruction::unpack(&[2, 1, 0, 0, 0, 0xff]), bad);
}
