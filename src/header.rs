use byteorder::{BigEndian, ByteOrder};
use vstd::prelude::*;

use crate::error::Error;
use crate::format::Format;

verus! {

/// The number that four bytes stand for, most significant byte first.
pub open spec fn be_u32(b: Seq<u8>) -> nat {
    b[0] as nat * 0x1000000 + b[1] as nat * 0x10000 + b[2] as nat * 0x100 + b[3] as nat
}

/// The four bytes of `n`, most significant byte first.
pub open spec fn be_bytes(n: u32) -> Seq<u8> {
    seq![
        (n / 0x1000000) as u8,
        ((n / 0x10000) % 0x100) as u8,
        ((n / 0x100) % 0x100) as u8,
        (n % 0x100) as u8,
    ]
}

/// Whether `bytes` starts with the magic tag.
pub open spec fn magic_matches(magic: Seq<u8>, bytes: Seq<u8>) -> bool {
    bytes.len() >= magic.len() && bytes.subrange(0, magic.len() as int) == magic
}

/// The width that a header after a magic tag of `magic_len` bytes declares.
pub open spec fn header_width(magic_len: int, bytes: Seq<u8>) -> nat {
    be_u32(bytes.subrange(magic_len, magic_len + 4))
}

/// The height that a header after a magic tag of `magic_len` bytes declares.
pub open spec fn header_height(magic_len: int, bytes: Seq<u8>) -> nat {
    be_u32(bytes.subrange(magic_len + 4, magic_len + 8))
}

/// The header of an image of `width` by `height` pixels.
pub open spec fn header_bytes(magic: Seq<u8>, width: u32, height: u32) -> Seq<u8> {
    magic + be_bytes(width) + be_bytes(height)
}

/// Reading back the four bytes of a number gives the number.
pub proof fn lemma_be_round_trip(n: u32)
    ensures
        be_u32(be_bytes(n)) == n as nat,
{
    let q1 = n / 0x100;
    let q2 = q1 / 0x100;
    let q3 = q2 / 0x100;
    assert(n / 0x10000 == q2) by {
        vstd::arithmetic::div_mod::lemma_div_denominator(n as int, 0x100, 0x100);
    }
    assert(n / 0x1000000 == q3) by {
        vstd::arithmetic::div_mod::lemma_div_denominator(q1 as int, 0x100, 0x100);
        vstd::arithmetic::div_mod::lemma_div_denominator(n as int, 0x100, 0x10000);
    }
}

/// Relies on byteorder's `BigEndian::read_u32`: the number that the four
/// bytes of `buf` from `at` on stand for, most significant first.
#[verifier::external_body]
fn read_u32_be(buf: &[u8], at: usize) -> (r: u32)
    requires
        at + 4 <= buf@.len(),
    ensures
        r as nat == be_u32(buf@.subrange(at as int, at + 4)),
{
    BigEndian::read_u32(&buf[at..])
}

/// Relies on byteorder's `BigEndian::write_u32`: the four bytes of `n`, most
/// significant first, go into the start of `buf`; the rest is left as it was.
#[verifier::external_body]
fn write_u32_be(buf: &mut [u8], n: u32)
    requires
        old(buf)@.len() >= 4,
    ensures
        final(buf)@ == be_bytes(n) + old(buf)@.subrange(4, old(buf)@.len() as int),
{
    BigEndian::write_u32(buf, n)
}

/// Validates the header at the start of `bytes` and returns the declared
/// `(width, height)`.
///
/// Input shorter than a header is truncated, whatever it holds; a full header
/// whose magic tag differs is a format error.
pub fn parse_header(format: &Format, bytes: &[u8]) -> (r: Result<(u32, u32), Error>)
    ensures
        bytes@.len() < format.header_len_spec() ==> r matches Err(Error::TruncatedInput),
        bytes@.len() >= format.header_len_spec() && !magic_matches(format.magic_spec(), bytes@)
            ==> (r matches Err(Error::FormatError(msg)) && msg@ == "unexpected magic number"@),
        bytes@.len() >= format.header_len_spec() && magic_matches(format.magic_spec(), bytes@)
            ==> (r matches Ok((w, h)) && w as nat == header_width(format.magic_spec().len() as int, bytes@)
            && h as nat == header_height(format.magic_spec().len() as int, bytes@)),
{
    let header_len = format.header_len();
    if bytes.len() < header_len {
        return Err(Error::TruncatedInput);
    }
    let magic = format.magic();
    let magic_len = magic.len();
    let mut i: usize = 0;
    while i < magic_len
        invariant
            magic@ == format.magic_spec(),
            magic_len == magic@.len(),
            magic_len + 8 <= bytes@.len(),
            i <= magic_len,
            forall|j: int| 0 <= j < i ==> bytes@[j] == magic@[j],
        decreases magic_len - i,
    {
        if bytes[i] != magic[i] {
            return Err(Error::FormatError("unexpected magic number".to_owned()));
        }
        i = i + 1;
    }
    assert(bytes@.subrange(0, magic_len as int) =~= magic@);
    let width = read_u32_be(bytes, magic_len);
    let height = read_u32_be(bytes, magic_len + 4);
    Ok((width, height))
}

/// Appends the header of an image of `width` by `height` pixels to `dest`.
pub fn write_header(format: &Format, dest: &mut Vec<u8>, width: u32, height: u32)
    ensures
        final(dest)@ == old(dest)@ + header_bytes(format.magic_spec(), width, height),
{
    let magic = format.magic();
    let mut i: usize = 0;
    while i < magic.len()
        invariant
            magic@ == format.magic_spec(),
            i <= magic@.len(),
            dest@ == old(dest)@ + magic@.subrange(0, i as int),
        decreases magic@.len() - i,
    {
        dest.push(magic[i]);
        i = i + 1;
        assert(dest@ =~= old(dest)@ + magic@.subrange(0, i as int));
    }
    assert(magic@.subrange(0, magic@.len() as int) =~= magic@);
    let mut w: Vec<u8> = vec![0u8; 4];
    write_u32_be(w.as_mut_slice(), width);
    assert(w@ =~= be_bytes(width));
    let mut h: Vec<u8> = vec![0u8; 4];
    write_u32_be(h.as_mut_slice(), height);
    assert(h@ =~= be_bytes(height));
    dest.append(&mut w);
    dest.append(&mut h);
    assert(dest@ =~= old(dest)@ + header_bytes(format.magic_spec(), width, height));
}

} // verus!
