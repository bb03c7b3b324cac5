//! What limits and names are refused, and for what reason.

use crate::names;
use crate::protocol::Limits;
use vstd::prelude::*;
use vstd::utf8::*;

verus! {

/// Limits are valid if and only if each of them is in its range and the largest event fits in a
/// frame: a 6-byte header, an 8-byte number, a length byte, the longest topic and the longest
/// payload.
pub proof fn limits_in_range_are_valid(limits: Limits)
    ensures
        limits.defect() is None <==> {
            &&& 1 <= limits.broker_queue
            &&& 1 <= limits.max_connections <= 65535
            &&& 2 <= limits.outbound_queue
            &&& 1 <= limits.max_name_len <= 255
            &&& limits.max_payload_len + 15 + limits.max_name_len <= limits.max_frame_len
            &&& limits.max_frame_len <= 4294967295
        },
{
}

/// Limits that break a rule are refused with the text of the first rule that they break.
pub proof fn the_first_broken_rule_is_named(limits: Limits)
    ensures
        ({
            let nonzero = limits.broker_queue >= 1 && limits.max_connections >= 1;
            let queue = limits.outbound_queue >= 2;
            let name = 1 <= limits.max_name_len <= 255;
            let event = limits.max_payload_len + 15 + limits.max_name_len <= limits.max_frame_len;
            let counts = limits.max_connections <= 65535;
            let prefix = limits.max_frame_len <= 4294967295;
            let text = limits.defect();
            &&& !nonzero ==> text == Some("broker queue and connection limits must be nonzero"@)
            &&& nonzero && !queue ==> text == Some(
                "outbound queue must hold an event and its acknowledgement"@,
            )
            &&& nonzero && queue && !name ==> text == Some("name limit must fit in one byte"@)
            &&& nonzero && queue && name && !event ==> text == Some(
                "a maximum event must fit in one frame"@,
            )
            &&& nonzero && queue && name && event && !counts ==> text == Some(
                "connection limit must fit in acknowledgement counts"@,
            )
            &&& nonzero && queue && name && event && counts && !prefix ==> text == Some(
                "frame limit must fit in the four-byte length prefix"@,
            )
        }),
{
}

/// Limits that are valid stay valid where a queue or the room for frames grows, or where fewer
/// connections or shorter payloads are allowed, within the ranges.
pub proof fn looser_queues_keep_limits_valid(
    limits: Limits,
    broker_queue: usize,
    outbound_queue: usize,
    max_connections: usize,
    max_payload_len: usize,
)
    requires
        limits.defect() is None,
        limits.broker_queue <= broker_queue,
        limits.outbound_queue <= outbound_queue,
        1 <= max_connections <= limits.max_connections,
        max_payload_len <= limits.max_payload_len,
    ensures
        (Limits {
            broker_queue,
            outbound_queue,
            max_connections,
            max_payload_len,
            ..limits
        }).defect() is None,
{
}

/// A topic is one to `max_len` bytes, each of them an ASCII letter or digit, or one of four marks.
pub proof fn topics_are_of_these_bytes(bytes: Seq<u8>, max_len: nat)
    ensures
        names::is_topic(bytes, max_len) <==> {
            &&& 1 <= bytes.len() <= max_len
            &&& forall|i: int|
                0 <= i < bytes.len() ==> {
                    ||| 97 <= #[trigger] bytes[i] <= 122
                    ||| 65 <= bytes[i] <= 90
                    ||| 48 <= bytes[i] <= 57
                    ||| bytes[i] == 46
                    ||| bytes[i] == 95
                    ||| bytes[i] == 45
                    ||| bytes[i] == 47
                }
        },
{
    assert forall|i: int| 0 <= i < bytes.len() implies (names::is_topic_byte(#[trigger] bytes[i])
        <==> {
        ||| 97 <= bytes[i] <= 122
        ||| 65 <= bytes[i] <= 90
        ||| 48 <= bytes[i] <= 57
        ||| bytes[i] == 46
        ||| bytes[i] == 95
        ||| bytes[i] == 45
        ||| bytes[i] == 47
    }) by {}
}

/// A client ID is one to `max_len` bytes, each of them printable ASCII and no space.
pub proof fn client_ids_are_of_these_bytes(bytes: Seq<u8>, max_len: nat)
    ensures
        names::is_client_id(bytes, max_len) <==> {
            &&& 1 <= bytes.len() <= max_len
            &&& forall|i: int| 0 <= i < bytes.len() ==> 33 <= #[trigger] bytes[i] <= 126
        },
{
    assert forall|i: int| 0 <= i < bytes.len() implies (names::is_client_id_byte(
        #[trigger] bytes[i],
    ) <==> 33 <= bytes[i] <= 126) by {}
}

/// A name off the wire is the text whose characters have the codes of its bytes, one for one.
pub proof fn names_are_read_byte_by_byte(bytes: Seq<u8>)
    ensures
        names::characters(bytes).len() == bytes.len(),
        forall|i: int|
            0 <= i < bytes.len() ==> #[trigger] names::characters(bytes)[i] as nat == bytes[i],
{
}

/// A name goes onto the wire as the codes of its characters, one for one.
pub proof fn names_are_written_character_by_character(text: Seq<char>)
    requires
        is_ascii_chars(text),
    ensures
        names::octets(text).len() == text.len(),
        forall|i: int|
            0 <= i < text.len() ==> #[trigger] names::octets(text)[i] == text[i] as nat,
        names::octets(text) == encode_utf8(text),
{
    names::ascii_text_is_octets(text);
    assert forall|i: int| 0 <= i < text.len() implies #[trigger] names::octets(text)[i]
        == text[i] as nat by {
        assert(is_ascii_chars(text));
        assert(0 <= text[i] as nat <= 127);
    }
}

} // verus!
