use vstd::prelude::*;

use crate::error::Error;
use crate::format::Format;
use crate::header::{header_bytes, write_header};

verus! {

/// The number of payload bytes of an image of `width` by `height` pixels.
pub open spec fn payload_len(width: nat, height: nat, bytes_per_pixel: nat) -> nat {
    width * height * bytes_per_pixel
}

/// A complete file: the header, then the first `payload_len` bytes of
/// `pixels`.
pub open spec fn encoded(
    magic: Seq<u8>,
    bytes_per_pixel: nat,
    width: u32,
    height: u32,
    pixels: Seq<u8>,
) -> Seq<u8> {
    header_bytes(magic, width, height) + pixels.subrange(
        0,
        payload_len(width as nat, height as nat, bytes_per_pixel) as int,
    )
}

/// An encoder for one image in a given format. It is used up by its one
/// call of [`FarbfeldEncoder::encode`].
#[derive(Debug)]
pub struct FarbfeldEncoder {
    pub format: Format,
}

impl FarbfeldEncoder {
    /// An encoder that writes in `format`.
    pub fn new(format: Format) -> (e: FarbfeldEncoder)
        ensures
            e.format == format,
    {
        FarbfeldEncoder { format }
    }

    /// Appends to `dest` a file holding an image of `width` by `height`
    /// pixels taken from the start of `data`; bytes of `data` past the
    /// payload are left out.
    ///
    /// Where `data` is too short for the dimensions, nothing is written.
    pub fn encode(self, dest: &mut Vec<u8>, width: u32, height: u32, data: &[u8]) -> (r: Result<(), Error>)
        ensures
            data@.len() < payload_len(width as nat, height as nat, self.format.bpp_spec())
                ==> (r matches Err(Error::NotEnoughData) && final(dest)@ == old(dest)@),
            data@.len() >= payload_len(width as nat, height as nat, self.format.bpp_spec())
                ==> (r is Ok && final(dest)@ == old(dest)@ + encoded(
                self.format.magic_spec(),
                self.format.bpp_spec(),
                width,
                height,
                data@,
            )),
    {
        let bytes_per_pixel = self.format.bytes_per_pixel();
        proof {
            lemma_payload_bound(width as nat, height as nat, bytes_per_pixel as nat);
        }
        let len = width as u128 * height as u128 * bytes_per_pixel as u128;
        let data_len = data.len();
        if (data_len as u128) < len {
            return Err(Error::NotEnoughData);
        }
        let len = len as usize;
        write_header(&self.format, dest, width, height);
        let ghost written = dest@;
        let mut i: usize = 0;
        while i < len
            invariant
                len <= data_len,
                data_len == data@.len(),
                i <= len,
                dest@ == written + data@.subrange(0, i as int),
            decreases len - i,
        {
            dest.push(data[i]);
            i = i + 1;
            assert(dest@ =~= written + data@.subrange(0, i as int));
        }
        assert(dest@ =~= old(dest)@ + encoded(
            self.format.magic_spec(),
            self.format.bpp_spec(),
            width,
            height,
            data@,
        ));
        Ok(())
    }
}

/// The payload length of any image fits in a `u128`.
proof fn lemma_payload_bound(width: nat, height: nat, bytes_per_pixel: nat)
    requires
        width < 0x1_0000_0000,
        height < 0x1_0000_0000,
        bytes_per_pixel < 0x1_0000_0000,
    ensures
        width * height < 0x1_0000_0000_0000_0000,
        width * height * bytes_per_pixel < 0x1_0000_0000_0000_0000_0000_0000,
{
    assert(width * height < 0x1_0000_0000_0000_0000) by (nonlinear_arith)
        requires
            width < 0x1_0000_0000,
            height < 0x1_0000_0000,
    ;
    assert(width * height * bytes_per_pixel < 0x1_0000_0000_0000_0000_0000_0000) by (nonlinear_arith)
        requires
            width * height < 0x1_0000_0000_0000_0000,
            bytes_per_pixel < 0x1_0000_0000,
    ;
}

} // verus!
