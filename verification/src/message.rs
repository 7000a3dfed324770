//! Error messages in the form that a C caller reads: bytes up to a NUL.

use vstd::prelude::*;
use vstd::utf8::encode_utf8;

verus! {

/// A message as a C string: some bytes, none of them NUL, and then one NUL.
#[derive(Debug)]
pub struct CMessage {
    bytes: Vec<u8>,
}

/// A byte as it stands in a message: NUL would end the message early, so a space stands for it.
pub open spec fn message_byte(byte: u8) -> u8 {
    if byte == 0 {
        32
    } else {
        byte
    }
}

/// The bytes of a message for the given text, without the NUL that ends it.
pub open spec fn message_bytes(text: Seq<char>) -> Seq<u8> {
    let encoded = encode_utf8(text);
    Seq::new(encoded.len(), |i: int| message_byte(encoded[i]))
}

impl View for CMessage {
    type V = Seq<u8>;

    closed spec fn view(&self) -> Seq<u8> {
        self.bytes@.drop_last()
    }
}

impl CMessage {
    #[verifier::type_invariant]
    spec fn terminated_once(&self) -> bool {
        &&& self.bytes@.len() > 0
        &&& self.bytes@.last() == 0
        &&& forall|i: int| 0 <= i < self.bytes@.len() - 1 ==> self.bytes@[i] != 0
    }

    /// The message with the NUL that ends it. No other byte of it is NUL.
    pub fn as_bytes_with_nul(&self) -> (bytes: &[u8])
        ensures
            bytes@ == self@.push(0),
            forall|i: int| 0 <= i < self@.len() ==> self@[i] != 0,
    {
        proof {
            use_type_invariant(self);
            assert(self@.push(0) =~= self.bytes@);
        }
        self.bytes.as_slice()
    }
}

/// Makes a message of a text, with a space for each NUL in it.
pub fn c_string(message: &str) -> (result: CMessage)
    ensures
        result@ == message_bytes(message@),
{
    let text = message.as_bytes();
    let mut bytes: Vec<u8> = Vec::new();
    let mut i: usize = 0;
    while i < text.len()
        invariant
            i <= text@.len(),
            text@ == encode_utf8(message@),
            bytes@ == message_bytes(message@).take(i as int),
            forall|k: int| 0 <= k < bytes@.len() ==> bytes@[k] != 0,
        decreases text@.len() - i,
    {
        let byte = text[i];
        bytes.push(if byte == 0 { 32 } else { byte });
        i = i + 1;
    }
    bytes.push(0);
    let result = CMessage { bytes };
    assert(result@ =~= message_bytes(message@));
    result
}

/// Replaces the message of the last failure that belongs to no decoder.
pub fn set_global_error(last_error: &mut CMessage, message: &str)
    ensures
        final(last_error)@ == message_bytes(message@),
{
    *last_error = c_string(message);
}

/// A text without NUL is its own message.
pub proof fn law_plain_text_is_kept(text: Seq<char>)
    requires
        !encode_utf8(text).contains(0),
    ensures
        message_bytes(text) == encode_utf8(text),
{
    let encoded = encode_utf8(text);
    assert forall|i: int| 0 <= i < encoded.len() implies encoded[i] != 0 by {
        assert(encoded.contains(encoded[i]));
    }
    assert(message_bytes(text) =~= encoded);
}

/// No message holds NUL, whatever its text.
pub proof fn law_messages_hold_no_nul(text: Seq<char>)
    ensures
        !message_bytes(text).contains(0),
        message_bytes(text).len() == encode_utf8(text).len(),
{
}

} // verus!
