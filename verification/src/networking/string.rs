//! The protocol's string field: 64 bytes, padded on the right with spaces.

use crate::networking::error::PacketError;
use vstd::prelude::*;
use vstd::slice::slice_subrange;
use vstd::string::StringSliceAdditionalSpecFns;
use vstd::utf8::{
    char_is_scalar, decode_utf8, encode_scalar, encode_utf8, encode_utf8_decode_utf8,
    encode_utf8_valid_utf8, has_width_1_encoding, last_continuation_byte, leading_byte_width_1,
    valid_utf8,
};

verus! {

/// The byte that pads a string field.
pub const PAD: u8 = 0x20;

/// `bytes` followed by as many spaces as it takes to fill 64 bytes.
pub open spec fn spec_pad(bytes: Seq<u8>) -> Seq<u8>
    recommends
        bytes.len() <= PacketString::LENGTH,
{
    bytes + Seq::new((PacketString::LENGTH - bytes.len()) as nat, |i: int| PAD)
}

/// `bytes` without the spaces at its end.
pub open spec fn spec_trim(bytes: Seq<u8>) -> Seq<u8>
    decreases bytes.len(),
{
    if bytes.len() > 0 && bytes.last() == PAD {
        spec_trim(bytes.drop_last())
    } else {
        bytes
    }
}

/// The first 64 bytes of `bytes`, or all of it where it is shorter.
pub open spec fn spec_clip(bytes: Seq<u8>) -> Seq<u8> {
    if bytes.len() > PacketString::LENGTH {
        bytes.take(PacketString::LENGTH as int)
    } else {
        bytes
    }
}

/// The text that `String::from_utf8_lossy` makes of `bytes`.
pub uninterp spec fn utf8_lossy(bytes: Seq<u8>) -> Seq<char>;

/// Calls `String::from_utf8_lossy` and takes ownership of the text.
///
/// Trusted: the result is what that function yields for these bytes, and
/// for bytes that are valid UTF-8 it is the text they encode.
#[verifier::external_body]
fn string_from_utf8_lossy(bytes: &[u8]) -> (text: String)
    ensures
        text@ == utf8_lossy(bytes@),
        valid_utf8(bytes@) ==> text@ == decode_utf8(bytes@),
{
    String::from_utf8_lossy(bytes).into_owned()
}

/// A string as it travels in a packet.
#[derive(Debug, Clone, Copy)]
pub struct PacketString(pub [u8; 64]);

impl View for PacketString {
    type V = Seq<u8>;

    open spec fn view(&self) -> Seq<u8> {
        self.0@
    }
}

impl PacketString {
    /// Length in bytes of every string field.
    pub const LENGTH: usize = 64;

    /// Wraps the 64 bytes of a field as they are.
    pub fn new(data: [u8; 64]) -> (s: PacketString)
        ensures
            s@ == data@,
    {
        PacketString(data)
    }

    /// The field that holds `bytes`, padded with spaces.
    fn padded(bytes: &[u8]) -> (s: PacketString)
        requires
            bytes@.len() <= PacketString::LENGTH,
        ensures
            s@ == spec_pad(bytes@),
    {
        let mut data = [PAD; 64];
        let mut i: usize = 0;
        while i < PacketString::LENGTH
            invariant
                i <= PacketString::LENGTH,
                bytes@.len() <= PacketString::LENGTH,
                forall|j: int|
                    0 <= j < i ==> data@[j] == if j < bytes@.len() {
                        bytes@[j]
                    } else {
                        PAD
                    },
            decreases PacketString::LENGTH - i,
        {
            data[i] = if i < bytes.len() {
                bytes[i]
            } else {
                PAD
            };
            i += 1;
        }
        assert(data@ =~= spec_pad(bytes@));
        PacketString(data)
    }

    /// The field for the text `data`: its UTF-8 bytes, padded with spaces.
    /// Fails exactly when the text needs more than 64 bytes.
    pub fn from_str(data: &str) -> (s: Result<PacketString, PacketError>)
        ensures
            match s {
                Ok(s) => data.spec_bytes().len() <= PacketString::LENGTH && s@ == spec_pad(
                    data.spec_bytes(),
                ),
                Err(e) => data.spec_bytes().len() > PacketString::LENGTH && e
                    == PacketError::StringTooLong,
            },
    {
        let bytes = data.as_bytes();
        if bytes.len() > PacketString::LENGTH {
            Err(PacketError::StringTooLong)
        } else {
            Ok(PacketString::padded(bytes))
        }
    }

    /// The field for the first 64 bytes of `bytes`, padded with spaces.
    pub fn from_bytes_clipped(bytes: &[u8]) -> (s: PacketString)
        ensures
            s@ == spec_pad(spec_clip(bytes@)),
    {
        if bytes.len() > PacketString::LENGTH {
            PacketString::padded(slice_subrange(bytes, 0, PacketString::LENGTH))
        } else {
            PacketString::padded(bytes)
        }
    }

    /// The bytes of the field without the padding at its end.
    pub fn trimmed(&self) -> (bytes: Vec<u8>)
        ensures
            bytes@ == spec_trim(self@),
    {
        let mut end: usize = PacketString::LENGTH;
        assert(self@.take(end as int) =~= self@);
        while end > 0 && self.0[end - 1] == PAD
            invariant
                end <= PacketString::LENGTH,
                self@.len() == PacketString::LENGTH,
                spec_trim(self@) == spec_trim(self@.take(end as int)),
            decreases end,
        {
            assert(self@.take(end as int).drop_last() =~= self@.take(end - 1));
            end -= 1;
        }
        let mut bytes: Vec<u8> = Vec::with_capacity(end);
        let mut i: usize = 0;
        while i < end
            invariant
                i <= end <= PacketString::LENGTH,
                self@.len() == PacketString::LENGTH,
                bytes@ == self@.take(i as int),
            decreases end - i,
        {
            bytes.push(self.0[i]);
            assert(self@.take(i as int).push(self@[i as int]) =~= self@.take(i + 1));
            i += 1;
        }
        bytes
    }

    /// The text of the field: its bytes without the padding, read as
    /// UTF-8, with whatever is not UTF-8 replaced the way
    /// `String::from_utf8_lossy` does.
    pub fn to_string(&self) -> (text: String)
        ensures
            text@ == utf8_lossy(spec_trim(self@)),
            valid_utf8(spec_trim(self@)) ==> text@ == decode_utf8(spec_trim(self@)),
    {
        let bytes = self.trimmed();
        string_from_utf8_lossy(bytes.as_slice())
    }
}

/// `text` without the spaces at its end.
pub open spec fn spec_trim_end(text: Seq<char>) -> Seq<char>
    decreases text.len(),
{
    if text.len() > 0 && text.last() == ' ' {
        spec_trim_end(text.drop_last())
    } else {
        text
    }
}

proof fn lemma_encode_concat(a: Seq<char>, b: Seq<char>)
    ensures
        encode_utf8(a + b) == encode_utf8(a) + encode_utf8(b),
    decreases a.len(),
{
    if a.len() == 0 {
        assert(a + b =~= b);
        assert(encode_utf8(a) + encode_utf8(b) =~= encode_utf8(b));
    } else {
        lemma_encode_concat(a.drop_first(), b);
        assert((a + b).drop_first() =~= a.drop_first() + b);
        assert(encode_utf8(a + b) =~= encode_utf8(a) + encode_utf8(b));
    }
}

proof fn lemma_width_1_byte(scalar: u32)
    by (bit_vector)
    requires
        scalar <= 0x7F,
    ensures
        (scalar & 0x7F) as u8 == scalar,
{
}

proof fn lemma_continuation_byte(scalar: u32)
    by (bit_vector)
    ensures
        0x80u8 | (scalar & 0x3F) as u8 >= 0x80,
{
}

/// The encoding of a character ends in the pad byte only where the
/// character is a space, whose encoding is that one byte.
proof fn lemma_last_byte(c: char)
    ensures
        encode_scalar(c as u32).len() >= 1,
        encode_scalar(c as u32).last() == PAD <==> c == ' ',
        c == ' ' ==> encode_scalar(c as u32) == seq![PAD],
{
    let scalar = c as u32;
    char_is_scalar(c);
    if has_width_1_encoding(scalar) {
        lemma_width_1_byte(scalar);
        assert(encode_scalar(scalar) =~= seq![leading_byte_width_1(scalar)]);
        if scalar == 0x20 {
            assert(c == (0x20u32 as char));
        }
    } else {
        lemma_continuation_byte(scalar);
        assert(encode_scalar(scalar).last() == last_continuation_byte(scalar));
    }
}

/// Trimming the encoding of a text gives the encoding of the trimmed text.
proof fn lemma_trim_encoding(text: Seq<char>)
    ensures
        spec_trim(encode_utf8(text)) == encode_utf8(spec_trim_end(text)),
    decreases text.len(),
{
    if text.len() > 0 {
        let c = text.last();
        let front = text.drop_last();
        assert(text =~= front + seq![c]);
        lemma_encode_concat(front, seq![c]);
        assert(encode_utf8(seq![c]) =~= encode_scalar(c as u32)) by {
            let one = seq![c];
            let none = one.drop_first();
            assert(one[0] == c);
            assert(none.len() == 0);
            assert(encode_utf8(none) =~= Seq::<u8>::empty());
            assert(encode_utf8(one) == encode_scalar(one[0] as u32) + encode_utf8(none));
        }
        lemma_last_byte(c);
        let bytes = encode_utf8(text);
        assert(bytes.last() == encode_scalar(c as u32).last());
        if c == ' ' {
            assert(bytes.drop_last() =~= encode_utf8(front));
            lemma_trim_encoding(front);
        }
    }
}

/// Reading a string field back gives the text that was put in, without
/// the spaces at its end: for every text of at most 64 bytes, the field's
/// bytes without their padding are valid UTF-8 and decode to that text.
pub proof fn lemma_string_round_trip(text: Seq<char>)
    requires
        encode_utf8(text).len() <= PacketString::LENGTH,
    ensures
        valid_utf8(spec_trim(spec_pad(encode_utf8(text)))),
        decode_utf8(spec_trim(spec_pad(encode_utf8(text)))) == spec_trim_end(text),
{
    lemma_trim_pad(encode_utf8(text));
    lemma_trim_encoding(text);
    encode_utf8_valid_utf8(spec_trim_end(text));
    encode_utf8_decode_utf8(spec_trim_end(text));
}

/// Padding adds nothing that trimming does not take away again.
pub proof fn lemma_trim_pad(bytes: Seq<u8>)
    requires
        bytes.len() <= PacketString::LENGTH,
    ensures
        spec_pad(bytes).len() == PacketString::LENGTH,
        spec_trim(spec_pad(bytes)) == spec_trim(bytes),
    decreases PacketString::LENGTH - bytes.len(),
{
    if bytes.len() < PacketString::LENGTH {
        let longer = bytes.push(PAD);
        lemma_trim_pad(longer);
        assert(spec_pad(longer) =~= spec_pad(bytes));
        assert(longer.drop_last() =~= bytes);
    } else {
        assert(spec_pad(bytes) =~= bytes);
    }
}

} // verus!
