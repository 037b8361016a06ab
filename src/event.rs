use vstd::prelude::*;

verus! {

/// Kind of an order-book depth update.
pub const DEPTH_EVENT: i64 = 1;

/// Kind of a trade.
pub const TRADE_EVENT: i64 = 2;

/// Kind of a depth clear.
pub const DEPTH_CLEAR_EVENT: i64 = 3;

/// Kind of a depth snapshot.
pub const DEPTH_SNAPSHOT_EVENT: i64 = 4;

/// Side flag of the buy side (bid).
pub const BUY: i64 = 0x2000_0000;

/// Side flag of the sell side (ask).
pub const SELL: i64 = 0x1000_0000;

/// Origin flag of an event that the venue originated.
pub const EXCH_EVENT: i64 = 0x8000_0000;

/// Origin flag of an event as observed locally.
pub const LOCAL_EVENT: i64 = 0x4000_0000;

/// Mask that keeps the origin of an event code.
pub const ORIGIN_MASK: i64 = 0xc000_0000;

/// Mask that keeps the side of an event code.
pub const SIDE_MASK: i64 = 0x3000_0000;

/// Mask that keeps the kind of an event code.
pub const KIND_MASK: i64 = 0xff;

pub const LOCAL_BID_DEPTH_EVENT: i64 = DEPTH_EVENT | BUY | LOCAL_EVENT;
pub const LOCAL_ASK_DEPTH_EVENT: i64 = DEPTH_EVENT | SELL | LOCAL_EVENT;
pub const LOCAL_BID_DEPTH_CLEAR_EVENT: i64 = DEPTH_CLEAR_EVENT | BUY | LOCAL_EVENT;
pub const LOCAL_ASK_DEPTH_CLEAR_EVENT: i64 = DEPTH_CLEAR_EVENT | SELL | LOCAL_EVENT;
pub const LOCAL_BID_DEPTH_SNAPSHOT_EVENT: i64 = DEPTH_SNAPSHOT_EVENT | BUY | LOCAL_EVENT;
pub const LOCAL_ASK_DEPTH_SNAPSHOT_EVENT: i64 = DEPTH_SNAPSHOT_EVENT | SELL | LOCAL_EVENT;

pub const LOCAL_TRADE_EVENT: i64 = TRADE_EVENT | LOCAL_EVENT;
pub const LOCAL_BUY_TRADE_EVENT: i64 = TRADE_EVENT | BUY | LOCAL_EVENT;
pub const LOCAL_SELL_TRADE_EVENT: i64 = TRADE_EVENT | SELL | LOCAL_EVENT;

pub const EXCH_BID_DEPTH_EVENT: i64 = DEPTH_EVENT | BUY | EXCH_EVENT;
pub const EXCH_ASK_DEPTH_EVENT: i64 = DEPTH_EVENT | SELL | EXCH_EVENT;
pub const EXCH_BID_DEPTH_CLEAR_EVENT: i64 = DEPTH_CLEAR_EVENT | BUY | EXCH_EVENT;
pub const EXCH_ASK_DEPTH_CLEAR_EVENT: i64 = DEPTH_CLEAR_EVENT | SELL | EXCH_EVENT;
pub const EXCH_BID_DEPTH_SNAPSHOT_EVENT: i64 = DEPTH_SNAPSHOT_EVENT | BUY | EXCH_EVENT;
pub const EXCH_ASK_DEPTH_SNAPSHOT_EVENT: i64 = DEPTH_SNAPSHOT_EVENT | SELL | EXCH_EVENT;

pub const EXCH_TRADE_EVENT: i64 = TRADE_EVENT | EXCH_EVENT;
pub const EXCH_BUY_TRADE_EVENT: i64 = TRADE_EVENT | BUY | EXCH_EVENT;
pub const EXCH_SELL_TRADE_EVENT: i64 = TRADE_EVENT | SELL | EXCH_EVENT;

/// No order response is awaited.
pub const WAIT_ORDER_RESPONSE_NONE: i64 = -1;

/// Any order response is awaited.
pub const WAIT_ORDER_RESPONSE_ANY: i64 = -2;

/// Run until the data ends.
pub const UNTIL_END_OF_DATA: i64 = 0x7fff_ffff_ffff_ffff;

pub open spec fn is_origin(o: i64) -> bool {
    o == EXCH_EVENT || o == LOCAL_EVENT
}

pub open spec fn is_kind(k: i64) -> bool {
    k == DEPTH_EVENT || k == TRADE_EVENT || k == DEPTH_CLEAR_EVENT || k == DEPTH_SNAPSHOT_EVENT
}

/// A side flag, or 0 for an event without a side.
pub open spec fn is_side(s: i64) -> bool {
    s == 0 || s == BUY || s == SELL
}

/// The composite code of an event of the given origin, kind and side.
pub open spec fn code_of(o: i64, k: i64, s: i64) -> i64 {
    o | k | s
}

/// The origin flag of an event code.
pub fn origin_of(ev: i64) -> (r: i64)
    ensures
        r == ev & ORIGIN_MASK,
{
    ev & ORIGIN_MASK
}

/// The side flag of an event code, 0 where it has none.
pub fn side_of(ev: i64) -> (r: i64)
    ensures
        r == ev & SIDE_MASK,
{
    ev & SIDE_MASK
}

/// The kind of an event code.
pub fn kind_of(ev: i64) -> (r: i64)
    ensures
        r == ev & KIND_MASK,
{
    ev & KIND_MASK
}

/// Masking a composite code recovers the origin, kind and side it was built from.
pub proof fn law_event_code_round_trip(o: i64, k: i64, s: i64)
    requires
        is_origin(o),
        is_kind(k),
        is_side(s),
    ensures
        code_of(o, k, s) & ORIGIN_MASK == o,
        code_of(o, k, s) & KIND_MASK == k,
        code_of(o, k, s) & SIDE_MASK == s,
{
    assert((o | k | s) & 0xc000_0000i64 == o && (o | k | s) & 0xffi64 == k && (o | k | s)
        & 0x3000_0000i64 == s) by (bit_vector)
        requires
            o == 0x8000_0000i64 || o == 0x4000_0000i64,
            k == 1 || k == 2 || k == 3 || k == 4,
            s == 0 || s == 0x2000_0000i64 || s == 0x1000_0000i64,
    ;
}

/// Two composite codes are equal only when built from the same origin, kind and side.
pub proof fn law_event_codes_distinct(o1: i64, k1: i64, s1: i64, o2: i64, k2: i64, s2: i64)
    requires
        is_origin(o1),
        is_kind(k1),
        is_side(s1),
        is_origin(o2),
        is_kind(k2),
        is_side(s2),
        code_of(o1, k1, s1) == code_of(o2, k2, s2),
    ensures
        o1 == o2 && k1 == k2 && s1 == s2,
{
    law_event_code_round_trip(o1, k1, s1);
    law_event_code_round_trip(o2, k2, s2);
}

} // verus!
