//! Strings written inline: the length of the UTF-8 bytes as a variable-length
//! integer, then the bytes.

use crate::error::{Error, Fault};
use crate::source::{advanced, lemma_advanced_twice, Source};
use crate::varint::{decode_varint, encode_varint, lemma_varint_round_trip, parse_varint, varint};
use vstd::prelude::*;
use vstd::slice::slice_to_vec;
use vstd::string::StringSliceAdditionalSpecFns;
use vstd::utf8::{decode_utf8, encode_utf8, encode_utf8_decode_utf8, encode_utf8_valid_utf8, valid_utf8};

verus! {

/// The bytes of the string `s` written inline.
pub open spec fn str_wire(s: Seq<char>) -> Seq<u8> {
    varint(encode_utf8(s).len()) + encode_utf8(s)
}

/// What reading an inline string at the head of `input` gives: the string and how
/// many bytes it took. A length that no buffer on this machine can have is
/// [`Fault::TryFromInt`], one beyond the end of the input is [`Fault::Io`], and
/// bytes that are not UTF-8 are [`Fault::InvalidUtf8`].
pub open spec fn parse_str(input: Seq<u8>) -> Result<(Seq<char>, nat), Fault> {
    match parse_varint(input) {
        Ok((len, count)) => {
            let rest = input.skip(count as int);
            if len > usize::MAX {
                Err(Fault::TryFromInt)
            } else if len > rest.len() {
                Err(Fault::Io)
            } else if valid_utf8(rest.take(len as int)) {
                Ok((decode_utf8(rest.take(len as int)), count + len))
            } else {
                Err(Fault::InvalidUtf8(rest.take(len as int)))
            }
        },
        Err(fault) => Err(fault),
    }
}

/// Reading what was written for `s` gives `s` back, whatever follows it, and takes
/// exactly the bytes written.
pub proof fn lemma_str_round_trip(s: Seq<char>, rest: Seq<u8>)
    requires
        (str_wire(s) + rest).len() <= usize::MAX,
    ensures
        parse_str(str_wire(s) + rest) == Ok::<(Seq<char>, nat), Fault>((s, str_wire(s).len())),
{
    let bytes = encode_utf8(s);
    let head = varint(bytes.len());
    let input = str_wire(s) + rest;
    assert(input == head + (bytes + rest));
    lemma_varint_round_trip(bytes.len(), bytes + rest);
    assert(input.skip(head.len() as int) == bytes + rest);
    assert((bytes + rest).take(bytes.len() as int) == bytes);
    encode_utf8_valid_utf8(s);
    encode_utf8_decode_utf8(s);
}

/// `core::str::from_utf8`: the same bytes as a string where they are valid UTF-8,
/// and nothing where they are not.
#[verifier::external_body]
fn checked_utf8<'a>(bytes: &'a [u8]) -> (r: Option<&'a str>)
    ensures
        r is Some <==> valid_utf8(bytes@),
        r matches Some(s) ==> s.spec_bytes() == bytes@,
{
    match core::str::from_utf8(bytes) {
        Ok(s) => Some(s),
        Err(_) => None,
    }
}

/// Appends `bytes` to `out`.
pub fn append_bytes(out: &mut Vec<u8>, bytes: &[u8])
    ensures
        final(out)@ == old(out)@ + bytes@,
{
    let mut i: usize = 0;
    while i < bytes.len()
        invariant
            i <= bytes@.len(),
            out@ == old(out)@ + bytes@.take(i as int),
        decreases bytes@.len() - i,
    {
        out.push(bytes[i]);
        i = i + 1;
        assert(bytes@.take(i as int) == bytes@.take(i - 1).push(bytes@[i - 1]));
    }
    assert(bytes@.take(i as int) == bytes@);
}

/// Appends the string `s`, written inline, to `out`.
pub fn encode_str(out: &mut Vec<u8>, s: &str)
    ensures
        final(out)@ == old(out)@ + str_wire(s@),
{
    let bytes = s.as_bytes();
    encode_varint(out, bytes.len() as u64);
    append_bytes(out, bytes);
    assert(out@ == old(out)@ + str_wire(s@));
}

/// Reads an inline string from the head of `src`.
pub fn decode_str(src: &mut Source<'_>) -> (r: Result<String, Error>)
    ensures
        match parse_str(old(src)@) {
            Ok((s, count)) => r matches Ok(text) && text@ == s && advanced(
                old(src)@,
                final(src)@,
                count,
            ),
            Err(fault) => r matches Err(e) && e@ == fault,
        },
{
    let len = match decode_varint(src) {
        Ok(len) => len,
        Err(e) => {
            return Err(e);
        },
    };
    if len > usize::MAX as u64 {
        return Err(Error::TryFromInt);
    }
    let ghost rest = src@;
    let bytes = match src.read_exact(len as usize) {
        Ok(bytes) => bytes,
        Err(e) => {
            return Err(e);
        },
    };
    match checked_utf8(bytes) {
        Some(s) => {
            proof {
                encode_utf8_decode_utf8(s@);
                let count = parse_varint(old(src)@)->Ok_0.1;
                lemma_advanced_twice(old(src)@, rest, src@, count, len as nat);
            }
            Ok(s.to_owned())
        },
        None => Err(Error::InvalidUtf8(slice_to_vec(bytes))),
    }
}

} // verus!
