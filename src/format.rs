use vstd::prelude::*;

verus! {

/// The two constants that set one variant of the format apart from another:
/// the magic tag at the start of every file and the width of a pixel in bytes.
#[derive(Debug)]
pub struct Format {
    magic: Vec<u8>,
    bytes_per_pixel: u32,
}

impl Format {
    /// The magic tag.
    pub closed spec fn magic_spec(&self) -> Seq<u8> {
        self.magic@
    }

    /// The number of bytes that one pixel takes.
    pub closed spec fn bpp_spec(&self) -> nat {
        self.bytes_per_pixel as nat
    }

    /// The length of the header: the magic tag, then two 32-bit integers.
    pub open spec fn header_len_spec(&self) -> nat {
        self.magic_spec().len() + 8
    }

    /// Every format's header length can be held in a `usize`.
    #[verifier::type_invariant]
    spec fn wf(&self) -> bool {
        self.magic@.len() + 8 <= usize::MAX
    }

    /// A format with the given magic tag and pixel width.
    pub fn new(magic: Vec<u8>, bytes_per_pixel: u32) -> (f: Format)
        requires
            magic@.len() + 8 <= usize::MAX,
        ensures
            f.magic_spec() == magic@,
            f.bpp_spec() == bytes_per_pixel as nat,
    {
        Format { magic, bytes_per_pixel }
    }

    /// Farbfeld proper: the tag `farbfeld` and four 16-bit channels (RGBA)
    /// per pixel.
    pub fn farbfeld() -> (f: Format)
        ensures
            f.magic_spec() == seq![0x66u8, 0x61, 0x72, 0x62, 0x66, 0x65, 0x6c, 0x64],
            f.bpp_spec() == 8,
    {
        let magic: Vec<u8> = vec![0x66u8, 0x61, 0x72, 0x62, 0x66, 0x65, 0x6c, 0x64];
        assert(magic@ =~= seq![0x66u8, 0x61, 0x72, 0x62, 0x66, 0x65, 0x6c, 0x64]);
        Format::new(magic, 8)
    }

    /// The magic tag.
    pub fn magic(&self) -> (r: &[u8])
        ensures
            r@ == self.magic_spec(),
    {
        self.magic.as_slice()
    }

    /// The number of bytes that one pixel takes.
    pub fn bytes_per_pixel(&self) -> (r: u32)
        ensures
            r as nat == self.bpp_spec(),
    {
        self.bytes_per_pixel
    }

    /// The length of the header in bytes.
    pub fn header_len(&self) -> (r: usize)
        ensures
            r as nat == self.header_len_spec(),
    {
        proof {
            use_type_invariant(self);
        }
        self.magic.len() + 8
    }
}

} // verus!
