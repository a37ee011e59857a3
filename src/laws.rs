use vstd::prelude::*;

use crate::decoder::{Decoder, DecoderModel};
use crate::encoder::{encoded, payload_len};
use crate::format::Format;
use crate::header::{be_bytes, header_height, header_width, lemma_be_round_trip, magic_matches};

verus! {

/// The rows `0 .. n` of an image, one after another.
pub open spec fn rows_concat(m: DecoderModel, n: nat) -> Seq<u8>
    decreases n,
{
    if n == 0 {
        Seq::empty()
    } else {
        rows_concat(m, (n - 1) as nat) + m.row_bytes((n - 1) as nat)
    }
}

/// Decoding what the encoder wrote gives back the dimensions and the pixels:
/// the header is accepted, declares `width` and `height`, and the payload is
/// present and equal to `pixels`.
pub proof fn lemma_round_trip(format: Format, width: u32, height: u32, pixels: Seq<u8>)
    requires
        pixels.len() == payload_len(width as nat, height as nat, format.bpp_spec()),
    ensures
        ({
            let bytes = encoded(format.magic_spec(), format.bpp_spec(), width, height, pixels);
            let m = DecoderModel {
                magic_len: format.magic_spec().len(),
                bytes_per_pixel: format.bpp_spec(),
                width: header_width(format.magic_spec().len() as int, bytes),
                height: header_height(format.magic_spec().len() as int, bytes),
                source: bytes,
            };
            &&& bytes.len() >= format.header_len_spec()
            &&& magic_matches(format.magic_spec(), bytes)
            &&& m.width == width as nat
            &&& m.height == height as nat
            &&& m.image_present()
            &&& m.image_bytes() == pixels
        }),
{
    let magic = format.magic_spec();
    let ml = magic.len() as int;
    let bytes = encoded(magic, format.bpp_spec(), width, height, pixels);
    assert(pixels.subrange(0, pixels.len() as int) =~= pixels);
    assert(bytes.subrange(0, ml) =~= magic);
    assert(bytes.subrange(ml, ml + 4) =~= be_bytes(width));
    assert(bytes.subrange(ml + 4, ml + 8) =~= be_bytes(height));
    lemma_be_round_trip(width);
    lemma_be_round_trip(height);
    let m = DecoderModel {
        magic_len: magic.len(),
        bytes_per_pixel: format.bpp_spec(),
        width: width as nat,
        height: height as nat,
        source: bytes,
    };
    assert(m.image_len() == pixels.len()) by {
        vstd::arithmetic::mul::lemma_mul_is_associative(
            height as int,
            width as int,
            format.bpp_spec() as int,
        );
        vstd::arithmetic::mul::lemma_mul_is_commutative(height as int, width as int);
    }
    assert(m.image_bytes() =~= pixels);
}

/// Reading every row in turn and joining them gives the whole payload, and
/// the payload is readable exactly when every row is.
pub proof fn lemma_rows_match_image(d: Decoder)
    ensures
        d@.image_present() ==> rows_concat(d@, d@.height) == d@.image_bytes(),
        d@.image_present() ==> forall|r: nat| r < d@.height ==> #[trigger] d@.row_present(r),
        d@.height > 0 ==> (d@.image_present() <==> forall|r: nat|
            r < d@.height ==> #[trigger] d@.row_present(r)),
{
    let m = d@;
    if m.image_present() {
        lemma_rows_prefix(m, m.height);
        assert forall|r: nat| r < m.height implies #[trigger] m.row_present(r) by {
            lemma_row_end(m, r);
        }
    }
    if m.height > 0 {
        let last = (m.height - 1) as nat;
        lemma_row_end(m, last);
        assert((last + 1) * m.row_len() == m.image_len());
        assert(m.row_present(last) ==> m.image_present());
    }
}

/// Row `r` ends where row `r + 1` starts, and no later than the payload when
/// `r` is below the height.
proof fn lemma_row_end(m: DecoderModel, r: nat)
    ensures
        m.row_start(r) + m.row_len() == m.header_len() + (r + 1) * m.row_len(),
        r < m.height ==> m.row_start(r) + m.row_len() <= m.header_len() + m.image_len(),
{
    vstd::arithmetic::mul::lemma_mul_is_distributive_add_other_way(m.row_len() as int, r as int, 1);
    if r < m.height {
        vstd::arithmetic::mul::lemma_mul_inequality((r + 1) as int, m.height as int, m.row_len() as int);
    }
}

/// The first `n` rows, joined, are the first `n` row lengths of the payload.
proof fn lemma_rows_prefix(m: DecoderModel, n: nat)
    requires
        n <= m.height,
        m.image_present(),
    ensures
        rows_concat(m, n) == m.source.subrange(
            m.header_len() as int,
            (m.header_len() + n * m.row_len()) as int,
        ),
    decreases n,
{
    if n == 0 {
        assert(m.source.subrange(m.header_len() as int, m.header_len() as int) =~= Seq::<u8>::empty());
    } else {
        let k = (n - 1) as nat;
        lemma_rows_prefix(m, k);
        lemma_row_end(m, k);
        vstd::arithmetic::mul::lemma_mul_inequality(n as int, m.height as int, m.row_len() as int);
        assert(rows_concat(m, n) =~= m.source.subrange(
            m.header_len() as int,
            (m.header_len() + n * m.row_len()) as int,
        ));
    }
}

} // verus!
