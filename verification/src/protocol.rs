//! Limits, names and errors of the relay protocol.

use crate::names;
use vstd::prelude::*;
use vstd::slice::*;
use vstd::utf8::*;

verus! {

/// The protocol version that every frame starts with.
pub const VERSION: u8 = 1;

/// The length of the common header: version, kind and request ID.
pub const HEADER_LEN: usize = 6;

/// The bounds that a server and its clients agree on.
#[derive(Debug)]
pub struct Limits {
    pub max_frame_len: usize,
    pub max_payload_len: usize,
    pub max_name_len: usize,
    pub broker_queue: usize,
    pub outbound_queue: usize,
    pub max_connections: usize,
}

impl Clone for Limits {
    fn clone(&self) -> (copy: Self)
        ensures
            copy == *self,
    {
        Limits {
            max_frame_len: self.max_frame_len,
            max_payload_len: self.max_payload_len,
            max_name_len: self.max_name_len,
            broker_queue: self.broker_queue,
            outbound_queue: self.outbound_queue,
            max_connections: self.max_connections,
        }
    }
}

impl Default for Limits {
    fn default() -> (limits: Self)
        ensures
            limits == Limits::standard(),
            limits.defect() is None,
    {
        Limits {
            max_frame_len: 16 * 1024,
            max_payload_len: 12 * 1024,
            max_name_len: 64,
            broker_queue: 128,
            outbound_queue: 32,
            max_connections: 64,
        }
    }
}

impl Limits {
    /// The limits that apply unless others are chosen.
    pub open spec fn standard() -> Limits {
        Limits {
            max_frame_len: 16384,
            max_payload_len: 12288,
            max_name_len: 64,
            broker_queue: 128,
            outbound_queue: 32,
            max_connections: 64,
        }
    }

    /// What is wrong with the limits, if anything: the first of these rules that is broken.
    pub open spec fn defect(self) -> Option<Seq<char>> {
        if self.broker_queue == 0 || self.max_connections == 0 {
            Some("broker queue and connection limits must be nonzero"@)
        } else if self.outbound_queue < 2 {
            Some("outbound queue must hold an event and its acknowledgement"@)
        } else if self.max_name_len == 0 || self.max_name_len > u8::MAX {
            Some("name limit must fit in one byte"@)
        } else if self.max_payload_len + HEADER_LEN + 8 + 1 + self.max_name_len
            > self.max_frame_len {
            Some("a maximum event must fit in one frame"@)
        } else if self.max_connections > u16::MAX {
            Some("connection limit must fit in acknowledgement counts"@)
        } else if self.max_frame_len > u32::MAX {
            Some("frame limit must fit in the four-byte length prefix"@)
        } else {
            None
        }
    }

    /// Checks the limits against each other and against the fields that carry them.
    pub fn validate(&self) -> (result: Result<(), ProtocolError>)
        ensures
            match self.defect() {
                None => result is Ok,
                Some(text) => result matches Err(ProtocolError::InvalidLimits(detail))
                    && detail@ == text,
            },
            result is Ok <==> {
                &&& 1 <= self.broker_queue
                &&& 1 <= self.max_connections <= 65535
                &&& 2 <= self.outbound_queue
                &&& 1 <= self.max_name_len <= 255
                &&& self.max_payload_len + 15 + self.max_name_len <= self.max_frame_len
                &&& self.max_frame_len <= 4294967295
            },
    {
        if self.broker_queue == 0 || self.max_connections == 0 {
            return Err(
                ProtocolError::InvalidLimits("broker queue and connection limits must be nonzero"),
            );
        }
        if self.outbound_queue < 2 {
            return Err(
                ProtocolError::InvalidLimits(
                    "outbound queue must hold an event and its acknowledgement",
                ),
            );
        }
        if self.max_name_len == 0 || self.max_name_len > u8::MAX as usize {
            return Err(ProtocolError::InvalidLimits("name limit must fit in one byte"));
        }
        let fits: bool = match self.max_payload_len.checked_add(HEADER_LEN + 8 + 1) {
            Some(length) => match length.checked_add(self.max_name_len) {
                Some(event_len) => event_len <= self.max_frame_len,
                None => false,
            },
            None => false,
        };
        if !fits {
            return Err(ProtocolError::InvalidLimits("a maximum event must fit in one frame"));
        }
        if self.max_connections > u16::MAX as usize {
            return Err(
                ProtocolError::InvalidLimits("connection limit must fit in acknowledgement counts"),
            );
        }
        if self.max_frame_len > u32::MAX as usize {
            return Err(
                ProtocolError::InvalidLimits("frame limit must fit in the four-byte length prefix"),
            );
        }
        Ok(())
    }
}

/// Why a frame, a message or a set of limits was refused.
#[derive(Debug, PartialEq)]
pub enum ProtocolError {
    InvalidLimits(&'static str),
    FrameTooShort,
    UnknownVersion(u8),
    UnknownKind(u8),
    ZeroRequestId,
    TruncatedField,
    TrailingBytes,
    InvalidClientId,
    InvalidTopic,
    PayloadTooLarge,
    EncodedFrameTooLarge,
    UnexpectedRequestId,
    InvalidUtf8,
}

/// The name that a client introduces itself with.
#[derive(Debug, Eq, Hash, PartialEq)]
pub struct ClientId(String);

impl View for ClientId {
    type V = Seq<char>;

    closed spec fn view(&self) -> Seq<char> {
        self.0@
    }
}

impl Clone for ClientId {
    fn clone(&self) -> (copy: Self)
        ensures
            copy@ == self@,
    {
        proof {
            use_type_invariant(self);
        }
        ClientId(self.0.clone())
    }
}

impl ClientId {
    #[verifier::type_invariant]
    closed spec fn well_formed(self) -> bool {
        &&& is_ascii_chars(self.0@)
        &&& names::is_client_id(names::octets(self.0@), self.0@.len())
    }

    /// Reads a client ID off the wire.
    pub fn parse(bytes: &[u8], limits: &Limits) -> (result: Result<Self, ProtocolError>)
        ensures
            match result {
                Ok(client_id) => names::is_client_id(bytes@, limits.max_name_len as nat)
                    && client_id@ == names::characters(bytes@),
                Err(error) => !names::is_client_id(bytes@, limits.max_name_len as nat)
                    && error == ProtocolError::InvalidClientId,
            },
    {
        if bytes.len() == 0 || bytes.len() > limits.max_name_len {
            return Err(ProtocolError::InvalidClientId);
        }
        for i in 0..bytes.len()
            invariant
                forall|j: int| 0 <= j < i ==> names::is_client_id_byte(#[trigger] bytes@[j]),
        {
            let byte: u8 = bytes[i];
            if !(0x21 <= byte && byte <= 0x7e) {
                assert(!names::is_client_id_byte(bytes@[i as int]));
                return Err(ProtocolError::InvalidClientId);
            }
        }
        proof {
            names::ascii_bytes_are_utf8(bytes@);
        }
        let text: String = String::from_utf8(slice_to_vec(bytes)).expect(
            "validated ASCII is UTF-8",
        );
        Ok(ClientId(text))
    }

    /// The bytes of the name.
    pub fn as_bytes(&self) -> (bytes: &[u8])
        ensures
            bytes@ == names::octets(self@),
            names::is_client_id(bytes@, bytes@.len()),
            is_ascii_chars(self@),
    {
        proof {
            use_type_invariant(self);
            names::ascii_text_is_octets(self.0@);
        }
        self.0.as_str().as_bytes()
    }
}

/// The name that events are published and subscribed under.
#[derive(Debug, Eq, Hash, PartialEq)]
pub struct Topic(String);

impl View for Topic {
    type V = Seq<char>;

    closed spec fn view(&self) -> Seq<char> {
        self.0@
    }
}

impl Clone for Topic {
    fn clone(&self) -> (copy: Self)
        ensures
            copy@ == self@,
    {
        proof {
            use_type_invariant(self);
        }
        Topic(self.0.clone())
    }
}

impl Topic {
    #[verifier::type_invariant]
    closed spec fn well_formed(self) -> bool {
        &&& is_ascii_chars(self.0@)
        &&& names::is_topic(names::octets(self.0@), self.0@.len())
    }

    /// Reads a topic off the wire.
    pub fn parse(bytes: &[u8], limits: &Limits) -> (result: Result<Self, ProtocolError>)
        ensures
            match result {
                Ok(topic) => names::is_topic(bytes@, limits.max_name_len as nat)
                    && topic@ == names::characters(bytes@),
                Err(error) => !names::is_topic(bytes@, limits.max_name_len as nat)
                    && error == ProtocolError::InvalidTopic,
            },
    {
        if bytes.len() == 0 || bytes.len() > limits.max_name_len {
            return Err(ProtocolError::InvalidTopic);
        }
        for i in 0..bytes.len()
            invariant
                forall|j: int| 0 <= j < i ==> names::is_topic_byte(#[trigger] bytes@[j]),
        {
            let byte: u8 = bytes[i];
            let digit: bool = 0x30 <= byte && byte <= 0x39;
            let letter: bool = (0x41 <= byte && byte <= 0x5a) || (0x61 <= byte && byte <= 0x7a);
            // Besides these, a topic may hold '.', '_', '-' and '/'.
            if !(digit || letter || byte == 0x2e || byte == 0x5f || byte == 0x2d || byte == 0x2f) {
                assert(!names::is_topic_byte(bytes@[i as int]));
                return Err(ProtocolError::InvalidTopic);
            }
        }
        proof {
            names::ascii_bytes_are_utf8(bytes@);
        }
        let text: String = String::from_utf8(slice_to_vec(bytes)).expect(
            "validated ASCII is UTF-8",
        );
        Ok(Topic(text))
    }

    /// The topic as text.
    pub fn as_str(&self) -> (text: &str)
        ensures
            text@ == self@,
    {
        self.0.as_str()
    }

    /// The bytes of the topic.
    pub fn as_bytes(&self) -> (bytes: &[u8])
        ensures
            bytes@ == names::octets(self@),
            names::is_topic(bytes@, bytes@.len()),
            is_ascii_chars(self@),
    {
        proof {
            use_type_invariant(self);
            names::ascii_text_is_octets(self.0@);
        }
        self.0.as_str().as_bytes()
    }

    /// Whether two topics are the same.
    pub fn same_as(&self, other: &Topic) -> (same: bool)
        ensures
            same == (self@ == other@),
    {
        self.0 == other.0
    }

    /// Gives up the topic for its text.
    pub fn into_string(self) -> (text: String)
        ensures
            text@ == self@,
    {
        self.0
    }
}

} // verus!
