use vstd::prelude::*;

use anchor_lang::prelude::Clock;
use pyth_solana_receiver_sdk::error::GetPriceError;
use pyth_solana_receiver_sdk::price_update::{
    get_feed_id_from_hex, PriceFeedMessage, PriceUpdateV2, VerificationLevel as PythLevel,
};

use crate::constants::MAXIMUM_AGE;
use crate::error::ErrorCode;
use crate::state::{Key, PythNetworkFeedId};

verus! {

/// The Pyth SDK's `GetPriceError`, carried opaque: the ledger only tells
/// success from failure and maps every failure to its own error.
#[verifier::external_type_specification]
#[verifier::external_body]
pub struct ExGetPriceError(GetPriceError);

/// How thoroughly a posted price update was verified.
#[derive(Debug, Clone, Copy, PartialEq, Eq, Structural)]
pub enum VerificationLevel {
    Partial { num_signatures: u8 },
    Full,
}

/// A posted oracle price update, field for field.
#[derive(Debug, Clone, Copy)]
pub struct PriceUpdate {
    pub write_authority: Key,
    pub verification_level: VerificationLevel,
    pub feed_id: Key,
    pub price: i64,
    pub conf: u64,
    pub exponent: i32,
    pub publish_time: i64,
    pub prev_publish_time: i64,
    pub ema_price: i64,
    pub ema_conf: u64,
    pub posted_slot: u64,
}

/// A validated price: `price * 10^exponent` USD per whole token.
#[derive(Debug, Clone, Copy, PartialEq, Eq, Structural)]
pub struct OraclePrice {
    pub price: i64,
    pub exponent: i32,
}

/// A hexadecimal digit of either case.
pub open spec fn is_hex_digit(c: char) -> bool {
    ||| 48 <= c as u32 <= 57
    ||| 97 <= c as u32 <= 102
    ||| 65 <= c as u32 <= 70
}

/// The value of a hexadecimal digit.
pub open spec fn hex_digit_value(c: char) -> int {
    if 48 <= c as u32 <= 57 {
        c as u32 - 48
    } else if 97 <= c as u32 <= 102 {
        c as u32 - 87
    } else {
        c as u32 - 55
    }
}

/// The digits of a feed id: all of it, or what follows a two-character
/// prefix when it is 66 characters long.
pub open spec fn feed_id_digits(s: Seq<char>) -> Seq<char> {
    if s.len() == 66 {
        s.subrange(2, 66)
    } else {
        s
    }
}

/// Whether `s` is a feed id: 64 hex digits, with or without a prefix of two
/// characters.
pub open spec fn feed_id_parses(s: Seq<char>) -> bool {
    &&& (s.len() == 64 || s.len() == 66)
    &&& forall|i: int| 0 <= i < 64 ==> is_hex_digit(#[trigger] feed_id_digits(s)[i])
}

/// The 32 bytes that 64 hex digits spell, high digit first.
pub open spec fn hex_bytes(d: Seq<char>) -> Seq<u8> {
    Seq::new(32, |i: int| (16 * hex_digit_value(d[2 * i]) + hex_digit_value(d[2 * i + 1])) as u8)
}

/// Relies on `pyth_solana_receiver_sdk::price_update::get_feed_id_from_hex`:
/// a 64-character input, or the last 64 characters of a 66-character one,
/// is hex-decoded into 32 bytes; any other length, or a non-hex digit, is an
/// error. ASCII input keeps its slicing on character boundaries.
#[verifier::external_body]
fn feed_id_from_hex(input: &str) -> (r: Result<[u8; 32], GetPriceError>)
    requires
        vstd::string::is_ascii(input),
    ensures
        r is Ok <==> feed_id_parses(input@),
        r matches Ok(id) ==> id@ == hex_bytes(feed_id_digits(input@)),
{
    get_feed_id_from_hex(input)
}

/// Relies on `PriceUpdateV2::get_price_no_older_than`: it succeeds exactly
/// when the update is fully verified, is for `feed_id`, and was published no
/// more than `maximum_age` seconds before `now` (the sum saturating), and
/// then hands back the update's price and exponent. It panics on an age
/// beyond `i64`.
#[verifier::external_body]
fn price_no_older_than(
    update: &PriceUpdate,
    now: i64,
    maximum_age: u64,
    feed_id: &[u8; 32],
) -> (r: Result<OraclePrice, GetPriceError>)
    requires
        maximum_age <= i64::MAX,
    ensures
        r is Ok <==> (update.verification_level == VerificationLevel::Full && update.feed_id@
            == feed_id@ && update.publish_time + maximum_age >= now),
        r matches Ok(p) ==> (p.price == update.price && p.exponent == update.exponent),
{
    let level = match update.verification_level {
        VerificationLevel::Partial { num_signatures } => PythLevel::Partial { num_signatures },
        VerificationLevel::Full => PythLevel::Full,
    };
    let message = PriceFeedMessage { feed_id: update.feed_id, price: update.price,
        conf: update.conf, exponent: update.exponent, publish_time: update.publish_time,
        prev_publish_time: update.prev_publish_time, ema_price: update.ema_price,
        ema_conf: update.ema_conf };
    let posted = PriceUpdateV2 { write_authority: update.write_authority.into(),
        verification_level: level, price_message: message, posted_slot: update.posted_slot };
    let clock = Clock { unix_timestamp: now, ..Default::default() };
    let price = posted.get_price_no_older_than(&clock, maximum_age, feed_id)?;
    Ok(OraclePrice { price: price.price, exponent: price.exponent })
}

/// Decodes a feed id; anything but 64 hex digits (optionally behind a
/// two-character prefix) is `InvalidPriceFeed`.
pub fn parse_feed_id(input: &str) -> (r: Result<[u8; 32], ErrorCode>)
    ensures
        r is Ok <==> vstd::string::is_ascii(input) && feed_id_parses(input@),
        r matches Ok(id) ==> id@ == hex_bytes(feed_id_digits(input@)),
        r matches Err(e) ==> e == ErrorCode::InvalidPriceFeed,
{
    if !input.is_ascii() {
        return Err(ErrorCode::InvalidPriceFeed);
    }
    match feed_id_from_hex(input) {
        Ok(id) => Ok(id),
        Err(_) => Err(ErrorCode::InvalidPriceFeed),
    }
}

/// Whether `update` gives a price for the feed registered as `feed` at
/// `now`: a well-formed feed id that the update is for, full verification,
/// and a publish time no more than `MAXIMUM_AGE` seconds old.
pub open spec fn price_is_fresh(update: PriceUpdate, feed: Seq<char>, now: int) -> bool {
    &&& update.verification_level == VerificationLevel::Full
    &&& update.feed_id@ == hex_bytes(feed_id_digits(feed))
    &&& update.publish_time + MAXIMUM_AGE >= now
}

/// The price that `update` gives for the feed registered in `feed` at
/// `now`. An unreadable feed id is `InvalidPriceFeed`; an update that is
/// stale, for another feed or not fully verified is `StalePrice`.
pub fn get_validated_price(
    update: &PriceUpdate,
    feed: &PythNetworkFeedId,
    now: i64,
) -> (r: Result<OraclePrice, ErrorCode>)
    ensures
        !(vstd::utf8::is_ascii_chars(feed.feed_id@) && feed_id_parses(feed.feed_id@))
            ==> r == Err::<OraclePrice, ErrorCode>(ErrorCode::InvalidPriceFeed),
        vstd::utf8::is_ascii_chars(feed.feed_id@) && feed_id_parses(feed.feed_id@) ==> (r is Ok
            <==> price_is_fresh(*update, feed.feed_id@, now as int)),
        vstd::utf8::is_ascii_chars(feed.feed_id@) && feed_id_parses(feed.feed_id@) && r is Err
            ==> r == Err::<OraclePrice, ErrorCode>(ErrorCode::StalePrice),
        r matches Ok(p) ==> p == (OraclePrice { price: update.price, exponent: update.exponent }),
{
    let id = parse_feed_id(feed.feed_id.as_str())?;
    match price_no_older_than(update, now, MAXIMUM_AGE, &id) {
        Ok(p) => Ok(p),
        Err(_) => Err(ErrorCode::StalePrice),
    }
}

} // verus!
