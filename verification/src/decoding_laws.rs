//! What every sequence of bytes is read as, told by the bytes themselves, and which messages can be
//! written.

use crate::codec;
use crate::message::{ClientFrame, ServerFrame};
use crate::message_laws;
use crate::protocol::{Limits, ProtocolError};
use crate::protocol_laws;
use crate::wire;
use vstd::prelude::*;
use vstd::utf8::*;

verus! {

/// The request number in the third to sixth byte.
pub open spec fn request_number(frame: Seq<u8>) -> int {
    frame[2] * 0x100_0000 + frame[3] * 0x1_0000 + frame[4] * 0x100 + frame[5]
}

/// The bytes from one place on are a length and a name of that length.
pub open spec fn name_at(frame: Seq<u8>, at: int, limits: Limits) -> bool {
    &&& at < frame.len()
    &&& frame[at] <= limits.max_name_len
    &&& at + 1 + frame[at] <= frame.len()
}

/// The bytes are a topic: not empty, and letters, digits and the marks `.`, `_`, `-` and `/`.
pub open spec fn topic_bytes(name: Seq<u8>) -> bool {
    &&& name.len() > 0
    &&& forall|i: int|
        0 <= i < name.len() ==> {
            ||| 97 <= #[trigger] name[i] <= 122
            ||| 65 <= name[i] <= 90
            ||| 48 <= name[i] <= 57
            ||| name[i] == 46
            ||| name[i] == 95
            ||| name[i] == 45
            ||| name[i] == 47
        }
}

/// The bytes are a client ID: not empty, and printable.
pub open spec fn client_id_bytes(name: Seq<u8>) -> bool {
    &&& name.len() > 0
    &&& forall|i: int| 0 <= i < name.len() ==> 33 <= #[trigger] name[i] <= 126
}

/// The characters have the bytes as their codes.
pub open spec fn spells(text: Seq<char>, name: Seq<u8>) -> bool {
    &&& text.len() == name.len()
    &&& forall|i: int| 0 <= i < name.len() ==> #[trigger] text[i] as nat == name[i]
}

proof fn request_number_is_read(frame: Seq<u8>)
    requires
        frame.len() >= 6,
    ensures
        codec::header_request_id(frame) == request_number(frame),
{
    message_laws::numbers_are_read_big_endian(frame[2], frame[3], frame[4], frame[5]);
    assert(frame.subrange(2, 6) =~= seq![frame[2], frame[3], frame[4], frame[5]]);
}

/// Every frame from a client that breaks a rule is refused for the first rule that it breaks.
pub proof fn broken_requests_are_refused(frame: Seq<u8>, limits: Limits)
    ensures
        ({
            let result = codec::read_client_frame(frame, limits);
            let kind = frame[1];
            let known = kind == 1 || kind == 2 || kind == 4;
            let name = frame.subrange(7, 7 + frame[6]);
            let rest = frame.len() - 7 - frame[6];
            let headed = frame.len() >= 6;
            let current = headed && frame[0] == 1;
            let numbered = current && request_number(frame) != 0;
            let named = numbered && known && name_at(frame, 6, limits);
            &&& !headed ==> result == Err::<ClientFrame, _>(ProtocolError::FrameTooShort)
            &&& headed && frame[0] != 1 ==> result == Err::<ClientFrame, _>(
                ProtocolError::UnknownVersion(frame[0]),
            )
            &&& current && request_number(frame) == 0 ==> result == Err::<ClientFrame, _>(
                ProtocolError::ZeroRequestId,
            )
            &&& numbered && !known ==> result == Err::<ClientFrame, _>(
                ProtocolError::UnknownKind(kind),
            )
            &&& numbered && known && !name_at(frame, 6, limits) ==> result == Err::<
                ClientFrame,
                _,
            >(ProtocolError::TruncatedField)
            &&& named && kind == 1 && !client_id_bytes(name) ==> result == Err::<ClientFrame, _>(
                ProtocolError::InvalidClientId,
            )
            &&& named && kind != 1 && !topic_bytes(name) ==> result == Err::<ClientFrame, _>(
                ProtocolError::InvalidTopic,
            )
            &&& named && kind == 4 && topic_bytes(name) && rest > limits.max_payload_len ==> result
                == Err::<ClientFrame, _>(ProtocolError::PayloadTooLarge)
            &&& named && kind == 1 && client_id_bytes(name) && rest > 0 ==> result == Err::<
                ClientFrame,
                _,
            >(ProtocolError::TrailingBytes)
            &&& named && kind == 2 && topic_bytes(name) && rest > 0 ==> result == Err::<
                ClientFrame,
                _,
            >(ProtocolError::TrailingBytes)
        }),
{
    if frame.len() >= 6 {
        request_number_is_read(frame);
        let body = frame.skip(6);
        if name_at(frame, 6, limits) {
            let name = frame.subrange(7, 7 + frame[6]);
            assert(codec::leading_name(body) =~= name);
            protocol_laws::topics_are_of_these_bytes(name, limits.max_name_len as nat);
            protocol_laws::client_ids_are_of_these_bytes(name, limits.max_name_len as nat);
        }
    }
}

/// Every frame from a client that breaks no rule is read as the message that its bytes spell out:
/// the kind, the request number, the name and all of the payload.
pub proof fn sound_requests_are_read(frame: Seq<u8>, limits: Limits)
    requires
        frame.len() >= 7,
        frame[0] == 1,
        request_number(frame) != 0,
        name_at(frame, 6, limits),
    ensures
        ({
            let result = codec::read_client_frame(frame, limits);
            let name = frame.subrange(7, 7 + frame[6]);
            let end = 7 + frame[6];
            &&& frame[1] == 1 && client_id_bytes(name) && frame.len() == end ==> {
                &&& result matches Ok(ClientFrame::Hello { request_id, client_id })
                &&& request_id == request_number(frame)
                &&& spells(client_id, name)
            }
            &&& frame[1] == 2 && topic_bytes(name) && frame.len() == end ==> {
                &&& result matches Ok(ClientFrame::Subscribe { request_id, topic })
                &&& request_id == request_number(frame)
                &&& spells(topic, name)
            }
            &&& frame[1] == 4 && topic_bytes(name) && frame.len() - end <= limits.max_payload_len
                ==> {
                &&& result matches Ok(ClientFrame::Publish { request_id, topic, payload })
                &&& request_id == request_number(frame)
                &&& spells(topic, name)
                &&& payload == frame.skip(end)
            }
        }),
{
    request_number_is_read(frame);
    let body = frame.skip(6);
    let name = frame.subrange(7, 7 + frame[6]);
    assert(codec::leading_name(body) =~= name);
    assert(codec::after_name(body) =~= frame.skip(7 + frame[6]));
    protocol_laws::topics_are_of_these_bytes(name, limits.max_name_len as nat);
    protocol_laws::client_ids_are_of_these_bytes(name, limits.max_name_len as nat);
    protocol_laws::names_are_read_byte_by_byte(name);
}

/// Every frame from the server that breaks a rule is refused for the first rule that it breaks.
pub proof fn broken_answers_are_refused(frame: Seq<u8>, limits: Limits)
    ensures
        ({
            let result = codec::read_server_frame(frame, limits);
            let kind = frame[1];
            let headed = frame.len() >= 6;
            let current = headed && frame[0] == 1;
            let known = kind == 0x81 || kind == 0x82 || kind == 0x83 || kind == 0x85;
            let numbered = request_number(frame) != 0;
            let placed = current && known && (numbered <==> kind != 0x83);
            let detail_len = frame[8] * 0x100 + frame[9];
            let detail = frame.subrange(10, 10 + detail_len);
            let name = frame.subrange(15, 15 + frame[14]);
            &&& !headed ==> result == Err::<ServerFrame, _>(ProtocolError::FrameTooShort)
            &&& headed && frame[0] != 1 ==> result == Err::<ServerFrame, _>(
                ProtocolError::UnknownVersion(frame[0]),
            )
            &&& current && !known ==> result == Err::<ServerFrame, _>(
                ProtocolError::UnknownKind(kind),
            )
            &&& current && known && !(numbered <==> kind != 0x83) ==> result == Err::<
                ServerFrame,
                _,
            >(ProtocolError::UnexpectedRequestId)
            &&& placed && kind == 0x81 && frame.len() < 14 ==> result == Err::<ServerFrame, _>(
                ProtocolError::TruncatedField,
            )
            &&& placed && kind == 0x81 && frame.len() > 14 ==> result == Err::<ServerFrame, _>(
                ProtocolError::TrailingBytes,
            )
            &&& placed && kind == 0x82 && frame.len() < 21 ==> result == Err::<ServerFrame, _>(
                ProtocolError::TruncatedField,
            )
            &&& placed && kind == 0x82 && frame.len() > 21 ==> result == Err::<ServerFrame, _>(
                ProtocolError::TrailingBytes,
            )
            &&& placed && kind == 0x83 && (frame.len() < 14 || !name_at(frame, 14, limits))
                ==> result == Err::<ServerFrame, _>(ProtocolError::TruncatedField)
            &&& placed && kind == 0x83 && name_at(frame, 14, limits) && !topic_bytes(name)
                ==> result == Err::<ServerFrame, _>(ProtocolError::InvalidTopic)
            &&& placed && kind == 0x83 && name_at(frame, 14, limits) && topic_bytes(name)
                && frame.len() - 15 - frame[14] > limits.max_payload_len ==> result == Err::<
                ServerFrame,
                _,
            >(ProtocolError::PayloadTooLarge)
            &&& placed && kind == 0x85 && (frame.len() < 10 || frame.len() < 10 + detail_len)
                ==> result == Err::<ServerFrame, _>(ProtocolError::TruncatedField)
            &&& placed && kind == 0x85 && frame.len() >= 10 && frame.len() >= 10 + detail_len
                && !valid_utf8(detail) ==> result == Err::<ServerFrame, _>(
                ProtocolError::InvalidUtf8,
            )
            &&& placed && kind == 0x85 && frame.len() >= 10 && frame.len() > 10 + detail_len
                && valid_utf8(detail) ==> result == Err::<ServerFrame, _>(
                ProtocolError::TrailingBytes,
            )
        }),
{
    if frame.len() >= 6 {
        request_number_is_read(frame);
        let body = frame.skip(6);
        if frame.len() >= 14 {
            assert(body.skip(8) =~= frame.skip(14));
            if name_at(frame, 14, limits) {
                let name = frame.subrange(15, 15 + frame[14]);
                assert(codec::leading_name(body.skip(8)) =~= name);
                protocol_laws::topics_are_of_these_bytes(name, limits.max_name_len as nat);
            }
        }
        if frame.len() >= 10 {
            detail_is_read(frame);
        }
    }
}

proof fn detail_is_read(frame: Seq<u8>)
    requires
        frame.len() >= 10,
    ensures
        wire::be_uint(frame.skip(6).subrange(2, 4)) == frame[8] * 0x100 + frame[9],
        wire::be_uint(frame.skip(6).take(2)) == frame[6] * 0x100 + frame[7],
        frame.len() >= 10 + frame[8] * 0x100 + frame[9] ==> frame.skip(6).subrange(
            4,
            4 + frame[8] * 0x100 + frame[9],
        ) == frame.subrange(10, 10 + frame[8] * 0x100 + frame[9]),
{
    let body = frame.skip(6);
    message_laws::numbers_are_read_big_endian(frame[8], frame[9], 0, 0);
    message_laws::numbers_are_read_big_endian(frame[6], frame[7], 0, 0);
    assert(body.subrange(2, 4) =~= seq![frame[8], frame[9]]);
    assert(body.take(2) =~= seq![frame[6], frame[7]]);
    if frame.len() >= 10 + frame[8] * 0x100 + frame[9] {
        assert(body.subrange(4, 4 + frame[8] * 0x100 + frame[9]) =~= frame.subrange(
            10,
            10 + frame[8] * 0x100 + frame[9],
        ));
    }
}

/// Every frame from the server that breaks no rule is read as the message that its bytes spell
/// out: written again, the message has the same bytes.
pub proof fn sound_answers_are_read(frame: Seq<u8>, limits: Limits)
    requires
        frame.len() >= 10,
        frame[0] == 1,
    ensures
        ({
            let result = codec::read_server_frame(frame, limits);
            let name = frame.subrange(15, 15 + frame[14]);
            let detail_len = frame[8] * 0x100 + frame[9];
            let detail = frame.subrange(10, 10 + detail_len);
            &&& frame[1] == 0x81 && request_number(frame) != 0 && frame.len() == 14 ==> {
                &&& result matches Ok(ServerFrame::Ready { request_id, connection_id })
                &&& request_id == request_number(frame)
                &&& message_laws::eight_bytes(connection_id as nat) == frame.subrange(6, 14)
            }
            &&& frame[1] == 0x82 && request_number(frame) != 0 && frame.len() == 21 ==> {
                &&& result matches Ok(
                    ServerFrame::Ack {
                        request_id,
                        acknowledged_kind,
                        event_id,
                        matched,
                        enqueued,
                        evicted,
                    },
                )
                &&& request_id == request_number(frame)
                &&& acknowledged_kind == frame[6]
                &&& message_laws::eight_bytes(event_id as nat) == frame.subrange(7, 15)
                &&& matched == frame[15] * 0x100 + frame[16]
                &&& enqueued == frame[17] * 0x100 + frame[18]
                &&& evicted == frame[19] * 0x100 + frame[20]
            }
            &&& frame[1] == 0x83 && request_number(frame) == 0 && frame.len() >= 14 && name_at(
                frame,
                14,
                limits,
            ) && topic_bytes(name) && frame.len() - 15 - frame[14] <= limits.max_payload_len ==> {
                &&& result matches Ok(ServerFrame::Event { event_id, topic, payload })
                &&& message_laws::eight_bytes(event_id as nat) == frame.subrange(6, 14)
                &&& spells(topic, name)
                &&& payload == frame.skip(15 + frame[14])
            }
            &&& frame[1] == 0x85 && request_number(frame) != 0 && frame.len() == 10 + detail_len
                && valid_utf8(detail) ==> {
                &&& result matches Ok(ServerFrame::Error { request_id, code, detail: text })
                &&& request_id == request_number(frame)
                &&& code == frame[6] * 0x100 + frame[7]
                &&& encode_utf8(text) == detail
            }
        }),
{
    request_number_is_read(frame);
    let body = frame.skip(6);
    wire::byte_range_of_integers();
    if frame.len() == 14 {
        eight_are_read(frame, 6);
        assert(body =~= frame.subrange(6, 14));
    }
    if frame.len() == 21 {
        eight_are_read(frame, 7);
        assert(body.subrange(1, 9) =~= frame.subrange(7, 15));
        message_laws::numbers_are_read_big_endian(frame[15], frame[16], 0, 0);
        message_laws::numbers_are_read_big_endian(frame[17], frame[18], 0, 0);
        message_laws::numbers_are_read_big_endian(frame[19], frame[20], 0, 0);
        assert(body.subrange(9, 11) =~= seq![frame[15], frame[16]]);
        assert(body.subrange(11, 13) =~= seq![frame[17], frame[18]]);
        assert(body.subrange(13, 15) =~= seq![frame[19], frame[20]]);
    }
    if frame.len() >= 14 && name_at(frame, 14, limits) {
        let name = frame.subrange(15, 15 + frame[14]);
        eight_are_read(frame, 6);
        assert(body.take(8) =~= frame.subrange(6, 14));
        assert(body.skip(8) =~= frame.skip(14));
        assert(codec::leading_name(body.skip(8)) =~= name);
        assert(codec::after_name(body.skip(8)) =~= frame.skip(15 + frame[14]));
        protocol_laws::topics_are_of_these_bytes(name, limits.max_name_len as nat);
        protocol_laws::names_are_read_byte_by_byte(name);
    }
    detail_is_read(frame);
    let detail_len = frame[8] * 0x100 + frame[9];
    if frame.len() == 10 + detail_len && valid_utf8(frame.subrange(10, 10 + detail_len)) {
        decode_utf8_encode_utf8(frame.subrange(10, 10 + detail_len));
    }
}

proof fn eight_are_read(frame: Seq<u8>, at: int)
    requires
        0 <= at <= frame.len() - 8,
    ensures
        wire::be_uint(frame.subrange(at, at + 8)) <= u64::MAX,
        message_laws::eight_bytes(wire::be_uint(frame.subrange(at, at + 8))) == frame.subrange(
            at,
            at + 8,
        ),
{
    let field = frame.subrange(at, at + 8);
    wire::byte_range_of_integers();
    wire::be_uint_in_range(field);
    wire::be_bytes_of_be_uint(field);
    message_laws::numbers_are_big_endian(wire::be_uint(field));
}

/// A client message is written as its bytes unless its payload is over the limit, it has no request
/// number, or its bytes are more than a frame may hold, and is refused for the first of these.
pub proof fn requests_are_written_or_refused(frame: ClientFrame, limits: Limits)
    ensures
        ({
            let result = codec::write_client_frame(frame, limits);
            let (request_id, payload_len) = match frame {
                ClientFrame::Hello { request_id, .. } => (request_id, 0),
                ClientFrame::Subscribe { request_id, .. } => (request_id, 0),
                ClientFrame::Publish { request_id, payload, .. } => (request_id, payload.len()),
            };
            if payload_len > limits.max_payload_len {
                result == Err::<Seq<u8>, _>(ProtocolError::PayloadTooLarge)
            } else if request_id == 0 {
                result == Err::<Seq<u8>, _>(ProtocolError::ZeroRequestId)
            } else if frame.bytes().len() > limits.max_frame_len {
                result == Err::<Seq<u8>, _>(ProtocolError::EncodedFrameTooLarge)
            } else {
                result == Ok::<_, ProtocolError>(frame.bytes())
            }
        }),
{
}

/// A server message is written as its bytes unless its payload is over the limit or its bytes are
/// more than a frame may hold, and is refused for the first of these.
pub proof fn answers_are_written_or_refused(frame: ServerFrame, limits: Limits)
    ensures
        ({
            let result = codec::write_server_frame(frame, limits);
            let payload_len = match frame {
                ServerFrame::Event { payload, .. } => payload.len(),
                _ => 0,
            };
            if payload_len > limits.max_payload_len {
                result == Err::<Seq<u8>, _>(ProtocolError::PayloadTooLarge)
            } else if frame.bytes().len() > limits.max_frame_len {
                result == Err::<Seq<u8>, _>(ProtocolError::EncodedFrameTooLarge)
            } else {
                result == Ok::<_, ProtocolError>(frame.bytes())
            }
        }),
{
}

} // verus!
