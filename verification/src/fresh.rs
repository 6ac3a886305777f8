//! What a turn takes from outside the request: random identifiers and the time.

use vstd::prelude::*;

verus! {

/// Whether a text is a random UUID in its usual form: groups of eight, four, four, four and
/// twelve lower-case hexadecimal digits between hyphens, with version 4 and the RFC 9562 variant.
pub open spec fn is_uuid_v4(text: Seq<char>) -> bool {
    &&& text.len() == 36
    &&& forall|i: int|
        0 <= i < 36 ==> {
            let c = #[trigger] text[i];
            if i == 8 || i == 13 || i == 18 || i == 23 {
                c == '-'
            } else {
                '0' <= c <= '9' || 'a' <= c <= 'f'
            }
        }
    &&& text[14] == '4'
    &&& text[19] == '8' || text[19] == '9' || text[19] == 'a' || text[19] == 'b'
}

/// `Uuid::new_v4` draws a random UUID, and its `Display` writes it. Which one comes is left to
/// chance.
#[verifier::external_body]
pub(crate) fn fresh_uuid() -> (id: String)
    ensures
        is_uuid_v4(id@),
{
    uuid::Uuid::new_v4().to_string()
}

/// `SystemTime::elapsed` of the Unix epoch, in whole milliseconds; nothing if the clock stands
/// before the epoch. Which time comes is left to the clock.
#[verifier::external_body]
pub(crate) fn unix_millis() -> (read: Option<u128>) {
    match std::time::UNIX_EPOCH.elapsed() {
        Ok(elapsed) => Some(elapsed.as_millis()),
        Err(_) => None,
    }
}

/// Whether a text is one that `fresh_uuid` drew, as opposed to one that has the form of a UUID.
pub closed spec fn is_drawn_uuid(text: Seq<char>) -> bool {
    exists|id: String| #[trigger] call_ensures(fresh_uuid, (), id) && id@ == text
}

/// Whether a reading is one that `unix_millis` gave, as opposed to one that was made up.
pub closed spec fn is_clock_reading(read: Option<u128>) -> bool {
    call_ensures(unix_millis, (), read)
}

/// Draws a random UUID.
pub(crate) fn draw_uuid() -> (id: String)
    ensures
        is_uuid_v4(id@),
        is_drawn_uuid(id@),
{
    fresh_uuid()
}

/// Reads the clock.
pub(crate) fn read_clock() -> (read: Option<u128>)
    ensures
        is_clock_reading(read),
{
    unix_millis()
}

/// A text counts as drawn only if a call of `fresh_uuid` may return it, and a reading as one of
/// the clock only if a call of `unix_millis` may.
pub(crate) proof fn draws_come_from_outside(text: Seq<char>, read: Option<u128>)
    ensures
        is_drawn_uuid(text) ==> exists|id: String| #[trigger]
            call_ensures(fresh_uuid, (), id) && id@ == text,
        is_clock_reading(read) ==> call_ensures(unix_millis, (), read),
{
}

/// A text that was drawn has the form of a UUID: 36 characters, hyphens behind the eighth, the
/// twelfth, the sixteenth and the twentieth digit, and lower-case hexadecimal digits elsewhere,
/// of which one tells the version and one the variant.
pub proof fn drawn_uuids_have_their_form(text: Seq<char>)
    requires
        is_drawn_uuid(text),
    ensures
        text.len() == 36,
        text[8] == '-' && text[13] == '-' && text[18] == '-' && text[23] == '-',
        text[14] == '4',
        text[19] == '8' || text[19] == '9' || text[19] == 'a' || text[19] == 'b',
        forall|i: int|
            0 <= i < 36 && i != 8 && i != 13 && i != 18 && i != 23 ==> '0' <= #[trigger] text[i]
                <= '9' || 'a' <= text[i] <= 'f',
{
}

/// The time stamp that a clock reading gives: zero for a clock that stands before the epoch.
pub open spec fn stamp_of(read: Option<u128>) -> u64 {
    match read {
        None => 0,
        Some(ms) => if ms <= u64::MAX {
            ms as u64
        } else {
            u64::MAX
        },
    }
}

/// Turns a clock reading into a time stamp. A reading before the epoch counts as zero, one beyond
/// the largest stamp as that stamp.
pub fn time_stamp(read: Option<u128>) -> (stamp: u64)
    ensures
        stamp == stamp_of(read),
{
    match read {
        None => 0,
        Some(ms) => if ms <= u64::MAX as u128 {
            ms as u64
        } else {
            u64::MAX
        },
    }
}

/// A time stamp is the reading of the clock, in milliseconds: nothing is scaled or rounded. Only a
/// clock before the epoch gives zero, and only a reading that no stamp can hold is cut.
pub proof fn stamps_are_milliseconds(read: Option<u128>)
    ensures
        read is None ==> stamp_of(read) == 0,
        read matches Some(ms) ==> (ms <= u64::MAX ==> stamp_of(read) as int == ms as int) && (ms
            > u64::MAX ==> stamp_of(read) == u64::MAX),
{
}

} // verus!
