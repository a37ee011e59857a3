use vstd::prelude::*;

use crate::error::Error;
use crate::format::Format;
use crate::header::{header_height, header_width, magic_matches, parse_header};

verus! {

/// What a decoder stands for: the layout constants of its format, the
/// dimensions read from the header, and the whole input, header included.
pub struct DecoderModel {
    pub magic_len: nat,
    pub bytes_per_pixel: nat,
    pub width: nat,
    pub height: nat,
    pub source: Seq<u8>,
}

impl DecoderModel {
    /// The length of the header in bytes.
    pub open spec fn header_len(&self) -> nat {
        self.magic_len + 8
    }

    /// The length of one row in bytes.
    pub open spec fn row_len(&self) -> nat {
        self.width * self.bytes_per_pixel
    }

    /// Where row `row` starts in the input.
    pub open spec fn row_start(&self, row: nat) -> nat {
        self.header_len() + row * self.row_len()
    }

    /// Whether the input holds all of row `row`.
    pub open spec fn row_present(&self, row: nat) -> bool {
        self.row_start(row) + self.row_len() <= self.source.len()
    }

    /// The bytes of row `row`.
    pub open spec fn row_bytes(&self, row: nat) -> Seq<u8> {
        self.source.subrange(self.row_start(row) as int, (self.row_start(row) + self.row_len()) as int)
    }

    /// The length of the pixel payload in bytes.
    pub open spec fn image_len(&self) -> nat {
        self.height * self.row_len()
    }

    /// Whether the input holds the whole pixel payload.
    pub open spec fn image_present(&self) -> bool {
        self.header_len() + self.image_len() <= self.source.len()
    }

    /// The pixel payload.
    pub open spec fn image_bytes(&self) -> Seq<u8> {
        self.source.subrange(self.header_len() as int, (self.header_len() + self.image_len()) as int)
    }
}

/// A decoder over an image held in memory. It validates the header once, when
/// it is made, and then reads single rows or the whole payload on request.
#[derive(Debug)]
pub struct Decoder {
    source: Vec<u8>,
    magic_len: usize,
    bytes_per_pixel: u32,
    width: u32,
    height: u32,
}

impl View for Decoder {
    type V = DecoderModel;

    closed spec fn view(&self) -> DecoderModel {
        DecoderModel {
            magic_len: self.magic_len as nat,
            bytes_per_pixel: self.bytes_per_pixel as nat,
            width: self.width as nat,
            height: self.height as nat,
            source: self.source@,
        }
    }
}

/// A row length and the offset of any row up to the height fit in the
/// integers that the decoder computes them in.
proof fn lemma_layout_bounds(width: nat, bytes_per_pixel: nat, rows: nat)
    requires
        width < 0x1_0000_0000,
        bytes_per_pixel < 0x1_0000_0000,
        rows < 0x1_0000_0000,
    ensures
        width * bytes_per_pixel < 0x1_0000_0000_0000_0000,
        rows * (width * bytes_per_pixel) < 0x1_0000_0000_0000_0000_0000_0000,
{
    assert(width * bytes_per_pixel < 0x1_0000_0000_0000_0000) by (nonlinear_arith)
        requires
            width < 0x1_0000_0000,
            bytes_per_pixel < 0x1_0000_0000,
    ;
    assert(rows * (width * bytes_per_pixel) < 0x1_0000_0000_0000_0000_0000_0000) by (nonlinear_arith)
        requires
            rows < 0x1_0000_0000,
            width * bytes_per_pixel < 0x1_0000_0000_0000_0000,
    ;
}

impl Decoder {
    /// Validates the header at the start of `source` and keeps the input for
    /// later reads.
    pub fn new(format: &Format, source: Vec<u8>) -> (r: Result<Decoder, Error>)
        ensures
            source@.len() < format.header_len_spec() ==> r matches Err(Error::TruncatedInput),
            source@.len() >= format.header_len_spec() && !magic_matches(format.magic_spec(), source@)
                ==> (r matches Err(Error::FormatError(msg)) && msg@ == "unexpected magic number"@),
            source@.len() >= format.header_len_spec() && magic_matches(format.magic_spec(), source@)
                ==> (r matches Ok(d) && d@ == (DecoderModel {
                    magic_len: format.magic_spec().len(),
                    bytes_per_pixel: format.bpp_spec(),
                    width: header_width(format.magic_spec().len() as int, source@),
                    height: header_height(format.magic_spec().len() as int, source@),
                    source: source@,
                })),
    {
        match parse_header(format, source.as_slice()) {
            Ok((width, height)) => Ok(
                Decoder {
                    source,
                    magic_len: format.magic().len(),
                    bytes_per_pixel: format.bytes_per_pixel(),
                    width,
                    height,
                },
            ),
            Err(e) => Err(e),
        }
    }

    /// Returns the `(width, height)` of the image.
    pub fn dimensions(&self) -> (r: (u32, u32))
        ensures
            r.0 as nat == self@.width,
            r.1 as nat == self@.height,
    {
        (self.width, self.height)
    }

    /// Returns the length in bytes of one row.
    pub fn row_len(&self) -> (r: usize)
        requires
            self@.row_len() <= usize::MAX,
        ensures
            r as nat == self@.row_len(),
    {
        (self.width as u64 * self.bytes_per_pixel as u64) as usize
    }

    /// Copies row `row` into the start of `buf` and returns the number of
    /// bytes copied.
    ///
    /// Any row up to and including `height` may be asked for: only a row past
    /// it is refused as the end of the image. A row that the input does not
    /// hold in full is truncated input.
    pub fn read_row(&self, row: u32, buf: &mut [u8]) -> (r: Result<usize, Error>)
        requires
            old(buf)@.len() >= self@.row_len(),
        ensures
            row > self@.height ==> (r matches Err(Error::ImageEnd) && final(buf)@ == old(buf)@),
            row <= self@.height && !self@.row_present(row as nat) ==> (r matches Err(
                Error::TruncatedInput,
            ) && final(buf)@ == old(buf)@),
            row <= self@.height && self@.row_present(row as nat) ==> (r matches Ok(n)
                && n as nat == self@.row_len() && final(buf)@ == self@.row_bytes(row as nat)
                + old(buf)@.subrange(self@.row_len() as int, old(buf)@.len() as int)),
    {
        if row > self.height {
            return Err(Error::ImageEnd);
        }
        proof {
            lemma_layout_bounds(self.width as nat, self.bytes_per_pixel as nat, row as nat);
        }
        let row_len = self.width as u128 * self.bytes_per_pixel as u128;
        let start = self.magic_len as u128 + 8 + row as u128 * row_len;
        let source_len = self.source.len();
        if start + row_len > source_len as u128 {
            return Err(Error::TruncatedInput);
        }
        let start = start as usize;
        let len = row_len as usize;
        let ghost old_buf = buf@;
        let mut i: usize = 0;
        while i < len
            invariant
                source_len == self.source@.len(),
                start + len <= self.source@.len(),
                len <= old_buf.len(),
                buf@.len() == old_buf.len(),
                i <= len,
                forall|j: int| 0 <= j < i ==> buf@[j] == self.source@[start + j],
                forall|j: int| i <= j < old_buf.len() ==> buf@[j] == old_buf[j],
            decreases len - i,
        {
            buf[i] = self.source[start + i];
            i = i + 1;
        }
        assert(buf@ =~= self@.row_bytes(row as nat) + old_buf.subrange(len as int, old_buf.len() as int));
        Ok(len)
    }

    /// Returns the whole pixel payload, all rows in order. Input that does
    /// not hold all of it is truncated.
    pub fn read_image(&self) -> (r: Result<Vec<u8>, Error>)
        ensures
            !self@.image_present() ==> r matches Err(Error::TruncatedInput),
            self@.image_present() ==> (r matches Ok(v) && v@ == self@.image_bytes()),
    {
        proof {
            lemma_layout_bounds(self.width as nat, self.bytes_per_pixel as nat, self.height as nat);
        }
        let row_len = self.width as u128 * self.bytes_per_pixel as u128;
        let image_len = self.height as u128 * row_len;
        let header_len = self.magic_len as u128 + 8;
        let source_len = self.source.len();
        if header_len + image_len > source_len as u128 {
            return Err(Error::TruncatedInput);
        }
        let start = header_len as usize;
        let len = image_len as usize;
        let mut out: Vec<u8> = Vec::with_capacity(len);
        let mut i: usize = 0;
        while i < len
            invariant
                source_len == self.source@.len(),
                start + len <= self.source@.len(),
                i <= len,
                out@ =~= self.source@.subrange(start as int, start + i),
            decreases len - i,
        {
            out.push(self.source[start + i]);
            i = i + 1;
        }
        Ok(out)
    }
}

} // verus!
