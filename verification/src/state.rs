//! The three records that the program keeps in storage slots, with their
//! byte layout.
//!
//! Every record starts with a discriminator tag and an initialized flag. A
//! slot may be larger than the record in it: decoding reads a prefix and
//! ignores what follows, so a zeroed slot decodes to the zero record.

use crate::address::Address;
use crate::codec::address_at;
use crate::codec::bool_at;
use crate::codec::bool_bytes;
use crate::account::zeroed;
use crate::codec::lemma_bool_within;
use crate::codec::lemma_empty_text_at;
use crate::codec::lemma_parts;
use crate::codec::lemma_text_len;
use crate::codec::lemma_text_reencode;
use crate::codec::lemma_text_within;
use crate::codec::lemma_u64_within;
use crate::codec::lemma_u8_within;
use crate::codec::read_address;
use crate::codec::read_bool;
use crate::codec::read_text;
use crate::codec::read_u64;
use crate::codec::read_u8;
use crate::codec::text_at;
use crate::codec::text_bytes;
use crate::codec::text_fits;
use crate::codec::text_len;
use crate::codec::u64_at;
use crate::codec::u64_bytes;
use crate::codec::u8_at;
use crate::codec::write_address;
use crate::codec::write_bool;
use crate::codec::write_text;
use crate::codec::write_u64;
use crate::codec::MAX_TEXT_LEN;
use crate::error::ReviewError;
use vstd::prelude::*;
use vstd::utf8::encode_utf8;
use vstd::utf8::is_ascii_chars_encode_utf8;

verus! {

/// Ceiling on the encoded size of a review, and the capacity of its slot.
pub const REVIEW_SPACE: usize = 1000;

/// Encoded size of a counter that carries its own tag, and the capacity of
/// its slot.
pub const COUNTER_SPACE: usize = 20;

/// The tag of a review record.
pub open spec fn review_tag() -> Seq<char> {
    seq!['r', 'e', 'v', 'i', 'e', 'w']
}

/// The tag of a counter record.
pub open spec fn counter_tag() -> Seq<char> {
    seq!['c', 'o', 'u', 'n', 't', 'e', 'r']
}

/// The tag of a comment record.
pub open spec fn comment_tag() -> Seq<char> {
    seq!['c', 'o', 'm', 'm', 'e', 'n', 't']
}

/// The tags are ASCII, so each takes one byte per character.
pub proof fn lemma_tag_lengths()
    ensures
        encode_utf8(review_tag()).len() == 6,
        encode_utf8(counter_tag()).len() == 7,
        encode_utf8(comment_tag()).len() == 7,
        encode_utf8(Seq::<char>::empty()).len() == 0,
{
    is_ascii_chars_encode_utf8(review_tag());
    is_ascii_chars_encode_utf8(counter_tag());
    is_ascii_chars_encode_utf8(comment_tag());
    is_ascii_chars_encode_utf8(Seq::<char>::empty());
}

/// The tag of a review record.
fn make_review_tag() -> (s: String)
    ensures
        s@ == review_tag(),
{
    proof {
        reveal_strlit("review");
    }
    let s = "review".to_owned();
    assert(s@ =~= review_tag());
    s
}

/// The tag of a counter record.
fn make_counter_tag() -> (s: String)
    ensures
        s@ == counter_tag(),
{
    proof {
        reveal_strlit("counter");
    }
    let s = "counter".to_owned();
    assert(s@ =~= counter_tag());
    s
}

/// The tag of a comment record.
fn make_comment_tag() -> (s: String)
    ensures
        s@ == comment_tag(),
{
    proof {
        reveal_strlit("comment");
    }
    let s = "comment".to_owned();
    assert(s@ =~= comment_tag());
    s
}

/// Whether `len` bytes of text fit a length prefix.
fn fits_prefix(len: usize) -> (r: bool)
    ensures
        r == (len <= MAX_TEXT_LEN),
{
    len <= MAX_TEXT_LEN
}

// ---------------------------------------------------------------------------
// Review
// ---------------------------------------------------------------------------

/// A review as stored: tag, initialized flag, title, rating, description.
#[derive(Clone, Debug, PartialEq, Eq)]
pub struct ReviewRecord {
    pub discriminator: String,
    pub is_initialized: bool,
    pub title: String,
    pub rating: u8,
    pub description: String,
}

/// The mathematical value of a [`ReviewRecord`].
pub struct ReviewView {
    pub discriminator: Seq<char>,
    pub is_initialized: bool,
    pub title: Seq<char>,
    pub rating: u8,
    pub description: Seq<char>,
}

impl View for ReviewRecord {
    type V = ReviewView;

    open spec fn view(&self) -> ReviewView {
        ReviewView {
            discriminator: self.discriminator@,
            is_initialized: self.is_initialized,
            title: self.title@,
            rating: self.rating,
            description: self.description@,
        }
    }
}

impl ReviewView {
    /// The bytes of the record.
    pub open spec fn bytes(self) -> Seq<u8> {
        text_bytes(self.discriminator) + bool_bytes(self.is_initialized) + text_bytes(self.title)
            + seq![self.rating] + text_bytes(self.description)
    }

    /// The number of bytes of the record.
    pub open spec fn len(self) -> nat {
        text_len(self.discriminator) + 1 + text_len(self.title) + 1 + text_len(self.description)
    }

    /// Whether the record is within the ceiling for reviews.
    pub open spec fn fits(self) -> bool {
        self.len() <= REVIEW_SPACE
    }

    /// Whether the rating is one that a review may carry.
    pub open spec fn rating_in_range(self) -> bool {
        1 <= self.rating <= 5
    }

    /// The record that a prefix of `b` encodes, if there is one.
    pub open spec fn decode(b: Seq<u8>) -> Option<ReviewView> {
        match text_at(b, 0) {
            Some((discriminator, end1)) => match bool_at(b, end1) {
                Some((is_initialized, end2)) => match text_at(b, end2) {
                    Some((title, end3)) => match u8_at(b, end3) {
                        Some((rating, end4)) => match text_at(b, end4) {
                            Some((description, _)) => Some(
                                ReviewView {
                                    discriminator,
                                    is_initialized,
                                    title,
                                    rating,
                                    description,
                                },
                            ),
                            None => None,
                        },
                        None => None,
                    },
                    None => None,
                },
                None => None,
            },
            None => None,
        }
    }

    /// The record of a freshly written review.
    pub open spec fn fresh(title: Seq<char>, rating: u8, description: Seq<char>) -> ReviewView {
        ReviewView {
            discriminator: review_tag(),
            is_initialized: true,
            title,
            rating,
            description,
        }
    }
}

/// Decoding the bytes of a review that fits, followed by anything, gives the
/// review back.
pub proof fn lemma_review_round_trip(r: ReviewView, tail: Seq<u8>)
    requires
        text_fits(r.discriminator),
        text_fits(r.title),
        text_fits(r.description),
    ensures
        r.bytes().len() == r.len(),
        ReviewView::decode(r.bytes() + tail) == Some(r),
{
    let a = text_bytes(r.discriminator);
    let b = bool_bytes(r.is_initialized);
    let c = text_bytes(r.title);
    let d = seq![r.rating];
    let e = text_bytes(r.description);
    let all = r.bytes() + tail;
    let end1 = text_len(r.discriminator) as int;
    let end2 = end1 + 1;
    let end3 = end2 + text_len(r.title);
    let end4 = end3 + 1;
    lemma_text_len(r.discriminator);
    lemma_text_len(r.title);
    lemma_text_len(r.description);
    lemma_parts(a, b, c, d, e, tail);
    lemma_text_within(all, 0, r.discriminator);
    lemma_bool_within(all, end1, r.is_initialized);
    lemma_text_within(all, end2, r.title);
    lemma_u8_within(all, end3, r.rating);
    lemma_text_within(all, end4, r.description);
}

/// A zeroed slot of at least 14 bytes decodes to the review that holds
/// nothing and is not initialized.
pub proof fn lemma_zeroed_review(n: nat)
    requires
        n >= 14,
    ensures
        ReviewView::decode(zeroed(n)) == Some(
            ReviewView {
                discriminator: Seq::empty(),
                is_initialized: false,
                title: Seq::empty(),
                rating: 0,
                description: Seq::empty(),
            },
        ),
{
    let z = zeroed(n);
    lemma_empty_text_at(z, 0);
    lemma_empty_text_at(z, 5);
    lemma_empty_text_at(z, 10);
}

impl ReviewRecord {
    /// The number of bytes of the record, or `None` when it is over the
    /// ceiling for reviews.
    pub fn encoded_len(&self) -> (r: Option<usize>)
        ensures
            match r {
                Some(n) => self@.fits() && n == self@.len(),
                None => !self@.fits(),
            },
    {
        let a = self.discriminator.as_str().as_bytes().len();
        let b = self.title.as_str().as_bytes().len();
        let c = self.description.as_str().as_bytes().len();
        if a > REVIEW_SPACE || b > REVIEW_SPACE || c > REVIEW_SPACE {
            return None;
        }
        let total = 14 + a + b + c;
        if total > REVIEW_SPACE {
            None
        } else {
            Some(total)
        }
    }

    /// The bytes of the record. A record over the ceiling for reviews is
    /// rejected with `RecordTooLarge`.
    pub fn encode(&self) -> (r: Result<Vec<u8>, ReviewError>)
        ensures
            match r {
                Ok(bytes) => self@.fits() && bytes@ == self@.bytes(),
                Err(e) => !self@.fits() && e == ReviewError::RecordTooLarge,
            },
    {
        if self.encoded_len().is_none() {
            return Err(ReviewError::RecordTooLarge);
        }
        let mut out: Vec<u8> = Vec::new();
        match write_text(&mut out, self.discriminator.as_str()) {
            Ok(_) => {},
            Err(e) => {
                return Err(e);
            },
        }
        write_bool(&mut out, self.is_initialized);
        match write_text(&mut out, self.title.as_str()) {
            Ok(_) => {},
            Err(e) => {
                return Err(e);
            },
        }
        out.push(self.rating);
        match write_text(&mut out, self.description.as_str()) {
            Ok(_) => {},
            Err(e) => {
                return Err(e);
            },
        }
        assert(out@ =~= self@.bytes());
        Ok(out)
    }

    /// Reads a record from the start of `data`. Bytes that hold no record
    /// are rejected with `InvalidAccountData`.
    pub fn decode(data: &[u8]) -> (r: Result<ReviewRecord, ReviewError>)
        ensures
            match r {
                Ok(rec) => ReviewView::decode(data@) == Some(rec@),
                Err(e) => ReviewView::decode(data@) is None && e == ReviewError::InvalidAccountData,
            },
    {
        let (discriminator, end1) = match read_text(data, 0) {
            Some(x) => x,
            None => {
                return Err(ReviewError::InvalidAccountData);
            },
        };
        let (is_initialized, end2) = match read_bool(data, end1) {
            Some(x) => x,
            None => {
                return Err(ReviewError::InvalidAccountData);
            },
        };
        let (title, end3) = match read_text(data, end2) {
            Some(x) => x,
            None => {
                return Err(ReviewError::InvalidAccountData);
            },
        };
        let (rating, end4) = match read_u8(data, end3) {
            Some(x) => x,
            None => {
                return Err(ReviewError::InvalidAccountData);
            },
        };
        let (description, _) = match read_text(data, end4) {
            Some(x) => x,
            None => {
                return Err(ReviewError::InvalidAccountData);
            },
        };
        Ok(ReviewRecord { discriminator, is_initialized, title, rating, description })
    }

    /// The record of a freshly written review.
    pub fn fresh(title: String, rating: u8, description: String) -> (r: ReviewRecord)
        ensures
            r@ == ReviewView::fresh(title@, rating, description@),
    {
        ReviewRecord {
            discriminator: make_review_tag(),
            is_initialized: true,
            title,
            rating,
            description,
        }
    }
}

// ---------------------------------------------------------------------------
// Counter
// ---------------------------------------------------------------------------

/// The comment counter of a review: tag, initialized flag, count.
#[derive(Clone, Debug, PartialEq, Eq)]
pub struct CounterRecord {
    pub discriminator: String,
    pub is_initialized: bool,
    pub counter: u64,
}

/// The mathematical value of a [`CounterRecord`].
pub struct CounterView {
    pub discriminator: Seq<char>,
    pub is_initialized: bool,
    pub counter: u64,
}

impl View for CounterRecord {
    type V = CounterView;

    open spec fn view(&self) -> CounterView {
        CounterView {
            discriminator: self.discriminator@,
            is_initialized: self.is_initialized,
            counter: self.counter,
        }
    }
}

impl CounterView {
    /// The bytes of the record.
    pub open spec fn bytes(self) -> Seq<u8> {
        text_bytes(self.discriminator) + bool_bytes(self.is_initialized) + u64_bytes(self.counter)
    }

    /// The number of bytes of the record.
    pub open spec fn len(self) -> nat {
        text_len(self.discriminator) + 9
    }

    /// Whether the record can be encoded.
    pub open spec fn fits(self) -> bool {
        text_fits(self.discriminator)
    }

    /// The record that a prefix of `b` encodes, if there is one.
    pub open spec fn decode(b: Seq<u8>) -> Option<CounterView> {
        match text_at(b, 0) {
            Some((discriminator, end1)) => match bool_at(b, end1) {
                Some((is_initialized, end2)) => match u64_at(b, end2) {
                    Some((counter, _)) => Some(
                        CounterView { discriminator, is_initialized, counter },
                    ),
                    None => None,
                },
                None => None,
            },
            None => None,
        }
    }

    /// The counter of a review that has no comment yet.
    pub open spec fn fresh() -> CounterView {
        CounterView { discriminator: counter_tag(), is_initialized: true, counter: 0 }
    }

    /// The same counter, advanced by one.
    pub open spec fn advanced(self) -> CounterView {
        CounterView { counter: (self.counter + 1) as u64, ..self }
    }
}

/// Decoding the bytes of a counter that fits, followed by anything, gives the
/// counter back.
pub proof fn lemma_counter_round_trip(r: CounterView, tail: Seq<u8>)
    requires
        r.fits(),
    ensures
        r.bytes().len() == r.len(),
        CounterView::decode(r.bytes() + tail) == Some(r),
{
    let a = text_bytes(r.discriminator);
    let b = bool_bytes(r.is_initialized);
    let c = u64_bytes(r.counter);
    let all = r.bytes() + tail;
    let end1 = text_len(r.discriminator) as int;
    let end2 = end1 + 1;
    lemma_text_len(r.discriminator);
    lemma_parts(a, b, c, Seq::empty(), Seq::empty(), tail);
    assert(a + b + c + Seq::<u8>::empty() + Seq::<u8>::empty() + tail =~= all);
    lemma_text_within(all, 0, r.discriminator);
    lemma_bool_within(all, end1, r.is_initialized);
    lemma_u64_within(all, end2, r.counter);
}

/// A counter that was read from a slot fits that slot again, whatever its
/// count.
pub proof fn lemma_counter_fits_slot(data: Seq<u8>)
    requires
        CounterView::decode(data) is Some,
    ensures
        CounterView::decode(data).unwrap().fits(),
        CounterView::decode(data).unwrap().len() <= data.len(),
        CounterView::decode(data).unwrap().advanced().len() == CounterView::decode(
            data,
        ).unwrap().len(),
{
    lemma_text_reencode(data, 0);
    let tag = text_at(data, 0).unwrap().0;
    lemma_text_len(tag);
}

/// A zeroed slot of at least 13 bytes decodes to the counter at zero that
/// is not initialized.
pub proof fn lemma_zeroed_counter(n: nat)
    requires
        n >= 13,
    ensures
        CounterView::decode(zeroed(n)) == Some(
            CounterView { discriminator: Seq::empty(), is_initialized: false, counter: 0 },
        ),
{
    lemma_empty_text_at(zeroed(n), 0);
}

impl CounterRecord {
    /// The bytes of the record. A record whose tag is too long for its
    /// length prefix is rejected with `RecordTooLarge`.
    pub fn encode(&self) -> (r: Result<Vec<u8>, ReviewError>)
        ensures
            match r {
                Ok(bytes) => self@.fits() && bytes@ == self@.bytes(),
                Err(e) => !self@.fits() && e == ReviewError::RecordTooLarge,
            },
    {
        if !fits_prefix(self.discriminator.as_str().as_bytes().len()) {
            return Err(ReviewError::RecordTooLarge);
        }
        let mut out: Vec<u8> = Vec::new();
        match write_text(&mut out, self.discriminator.as_str()) {
            Ok(_) => {},
            Err(e) => {
                return Err(e);
            },
        }
        write_bool(&mut out, self.is_initialized);
        write_u64(&mut out, self.counter);
        assert(out@ =~= self@.bytes());
        Ok(out)
    }

    /// Reads a record from the start of `data`. Bytes that hold no record
    /// are rejected with `InvalidAccountData`.
    pub fn decode(data: &[u8]) -> (r: Result<CounterRecord, ReviewError>)
        ensures
            match r {
                Ok(rec) => CounterView::decode(data@) == Some(rec@),
                Err(e) => CounterView::decode(data@) is None && e
                    == ReviewError::InvalidAccountData,
            },
    {
        let (discriminator, end1) = match read_text(data, 0) {
            Some(x) => x,
            None => {
                return Err(ReviewError::InvalidAccountData);
            },
        };
        let (is_initialized, end2) = match read_bool(data, end1) {
            Some(x) => x,
            None => {
                return Err(ReviewError::InvalidAccountData);
            },
        };
        let (counter, _) = match read_u64(data, end2) {
            Some(x) => x,
            None => {
                return Err(ReviewError::InvalidAccountData);
            },
        };
        Ok(CounterRecord { discriminator, is_initialized, counter })
    }

    /// The counter of a review that has no comment yet.
    pub fn fresh() -> (r: CounterRecord)
        ensures
            r@ == CounterView::fresh(),
    {
        CounterRecord { discriminator: make_counter_tag(), is_initialized: true, counter: 0 }
    }
}

// ---------------------------------------------------------------------------
// Comment
// ---------------------------------------------------------------------------

/// A comment as stored: tag, initialized flag, the review it belongs to,
/// text.
#[derive(Clone, Debug, PartialEq, Eq)]
pub struct CommentRecord {
    pub discriminator: String,
    pub is_initialized: bool,
    pub review: Address,
    pub comment: String,
}

/// The mathematical value of a [`CommentRecord`].
pub struct CommentView {
    pub discriminator: Seq<char>,
    pub is_initialized: bool,
    pub review: Seq<u8>,
    pub comment: Seq<char>,
}

impl View for CommentRecord {
    type V = CommentView;

    open spec fn view(&self) -> CommentView {
        CommentView {
            discriminator: self.discriminator@,
            is_initialized: self.is_initialized,
            review: self.review@,
            comment: self.comment@,
        }
    }
}

impl CommentView {
    /// The bytes of the record.
    pub open spec fn bytes(self) -> Seq<u8> {
        text_bytes(self.discriminator) + bool_bytes(self.is_initialized) + self.review
            + text_bytes(self.comment)
    }

    /// The number of bytes of the record.
    pub open spec fn len(self) -> nat {
        text_len(self.discriminator) + 33 + text_len(self.comment)
    }

    /// Whether the record can be encoded: its texts are short enough for
    /// their length prefixes, and its size is one that a buffer can have.
    pub open spec fn fits(self) -> bool {
        text_fits(self.discriminator) && text_fits(self.comment) && self.len() <= usize::MAX
    }

    /// The record that a prefix of `b` encodes, if there is one.
    pub open spec fn decode(b: Seq<u8>) -> Option<CommentView> {
        match text_at(b, 0) {
            Some((discriminator, end1)) => match bool_at(b, end1) {
                Some((is_initialized, end2)) => match address_at(b, end2) {
                    Some((review, end3)) => match text_at(b, end3) {
                        Some((comment, _)) => Some(
                            CommentView { discriminator, is_initialized, review, comment },
                        ),
                        None => None,
                    },
                    None => None,
                },
                None => None,
            },
            None => None,
        }
    }

    /// The record of a freshly written comment.
    pub open spec fn fresh(review: Seq<u8>, comment: Seq<char>) -> CommentView {
        CommentView { discriminator: comment_tag(), is_initialized: true, review, comment }
    }
}

/// Decoding the bytes of a comment that fits, followed by anything, gives the
/// comment back.
pub proof fn lemma_comment_round_trip(r: CommentView, tail: Seq<u8>)
    requires
        text_fits(r.discriminator),
        text_fits(r.comment),
        r.review.len() == 32,
    ensures
        r.bytes().len() == r.len(),
        CommentView::decode(r.bytes() + tail) == Some(r),
{
    let a = text_bytes(r.discriminator);
    let b = bool_bytes(r.is_initialized);
    let c = r.review;
    let d = text_bytes(r.comment);
    let all = r.bytes() + tail;
    let end1 = text_len(r.discriminator) as int;
    let end2 = end1 + 1;
    let end3 = end2 + 32;
    lemma_text_len(r.discriminator);
    lemma_text_len(r.comment);
    lemma_parts(a, b, c, d, Seq::empty(), tail);
    assert(a + b + c + d + Seq::<u8>::empty() + tail =~= all);
    lemma_text_within(all, 0, r.discriminator);
    lemma_bool_within(all, end1, r.is_initialized);
    lemma_text_within(all, end3, r.comment);
}

/// A zeroed slot of at least 41 bytes decodes to the comment that holds
/// nothing and is not initialized.
pub proof fn lemma_zeroed_comment(n: nat)
    requires
        n >= 41,
    ensures
        CommentView::decode(zeroed(n)) == Some(
            CommentView {
                discriminator: Seq::empty(),
                is_initialized: false,
                review: zeroed(32),
                comment: Seq::empty(),
            },
        ),
{
    let z = zeroed(n);
    lemma_empty_text_at(z, 0);
    lemma_empty_text_at(z, 37);
    assert(z.subrange(5, 37) =~= zeroed(32));
}

impl CommentRecord {
    /// The number of bytes of the record, or `None` when it cannot be
    /// encoded.
    pub fn encoded_len(&self) -> (r: Option<usize>)
        ensures
            match r {
                Some(n) => self@.fits() && n == self@.len(),
                None => !self@.fits(),
            },
    {
        let a = self.discriminator.as_str().as_bytes().len();
        let b = self.comment.as_str().as_bytes().len();
        if !fits_prefix(a) || !fits_prefix(b) {
            return None;
        }
        match a.checked_add(b) {
            Some(texts) => texts.checked_add(41),
            None => None,
        }
    }

    /// The bytes of the record. A record that cannot be encoded is rejected
    /// with `RecordTooLarge`.
    pub fn encode(&self) -> (r: Result<Vec<u8>, ReviewError>)
        ensures
            match r {
                Ok(bytes) => self@.fits() && bytes@ == self@.bytes(),
                Err(e) => !self@.fits() && e == ReviewError::RecordTooLarge,
            },
    {
        if self.encoded_len().is_none() {
            return Err(ReviewError::RecordTooLarge);
        }
        let mut out: Vec<u8> = Vec::new();
        match write_text(&mut out, self.discriminator.as_str()) {
            Ok(_) => {},
            Err(e) => {
                return Err(e);
            },
        }
        write_bool(&mut out, self.is_initialized);
        write_address(&mut out, &self.review);
        match write_text(&mut out, self.comment.as_str()) {
            Ok(_) => {},
            Err(e) => {
                return Err(e);
            },
        }
        assert(out@ =~= self@.bytes());
        Ok(out)
    }

    /// Reads a record from the start of `data`. Bytes that hold no record
    /// are rejected with `InvalidAccountData`.
    pub fn decode(data: &[u8]) -> (r: Result<CommentRecord, ReviewError>)
        ensures
            match r {
                Ok(rec) => CommentView::decode(data@) == Some(rec@),
                Err(e) => CommentView::decode(data@) is None && e
                    == ReviewError::InvalidAccountData,
            },
    {
        let (discriminator, end1) = match read_text(data, 0) {
            Some(x) => x,
            None => {
                return Err(ReviewError::InvalidAccountData);
            },
        };
        let (is_initialized, end2) = match read_bool(data, end1) {
            Some(x) => x,
            None => {
                return Err(ReviewError::InvalidAccountData);
            },
        };
        let (review, end3) = match read_address(data, end2) {
            Some(x) => x,
            None => {
                return Err(ReviewError::InvalidAccountData);
            },
        };
        let (comment, _) = match read_text(data, end3) {
            Some(x) => x,
            None => {
                return Err(ReviewError::InvalidAccountData);
            },
        };
        Ok(CommentRecord { discriminator, is_initialized, review, comment })
    }

    /// The record of a freshly written comment.
    pub fn fresh(review: Address, comment: String) -> (r: CommentRecord)
        ensures
            r@ == CommentView::fresh(review@, comment@),
    {
        CommentRecord { discriminator: make_comment_tag(), is_initialized: true, review, comment }
    }
}

} // verus!
