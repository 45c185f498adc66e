//! Decoded RGBA8 images and their raw byte layout.

use crate::bytes::{copy_range, le32, lemma_le32, push_bytes, push_u32, read_u32};
use vstd::prelude::*;

verus! {

/// Number of bytes of an RGBA8 image of `width` x `height` pixels.
pub open spec fn rgba_len(width: u32, height: u32) -> int {
    width as int * height as int * 4
}

/// What an [`Image`] holds: its dimensions and its pixel bytes.
pub struct ImageView {
    pub width: u32,
    pub height: u32,
    pub data: Seq<u8>,
}

impl ImageView {
    /// The pixel bytes are exactly four per pixel.
    pub open spec fn is_valid(self) -> bool {
        self.data.len() == rgba_len(self.width, self.height)
    }

    /// Raw layout: `[u32 width][u32 height][width*height*4 RGBA8 bytes]`, little-endian.
    pub open spec fn raw(self) -> Seq<u8> {
        le32(self.width) + le32(self.height) + self.data
    }
}

/// A rendered image: `width` x `height` RGBA8 pixels, row-major and unpadded.
/// Immutable once built.
#[derive(Debug, PartialEq, Eq, Hash)]
pub struct Image {
    width: u32,
    height: u32,
    data: Vec<u8>,
}

impl View for Image {
    type V = ImageView;

    closed spec fn view(&self) -> ImageView {
        ImageView { width: self.width, height: self.height, data: self.data@ }
    }
}

impl Clone for Image {
    /// A copy with the same dimensions and pixels.
    fn clone(&self) -> (r: Image)
        ensures
            r@ == self@,
    {
        proof {
            use_type_invariant(self);
        }
        let data = copy_range(self.data.as_slice(), 0, self.data.len());
        assert(data@ == self.data@);
        Image { width: self.width, height: self.height, data }
    }
}

/// Whether `len` bytes are exactly the pixels of a `width` x `height` image.
fn fits(width: u32, height: u32, len: usize) -> (r: bool)
    ensures
        r == (len == rgba_len(width, height)),
{
    assert((width as u128) * (height as u128) * 4 <= 0x4_0000_0000_0000_0000u128) by (nonlinear_arith)
        requires
            width <= 0xffff_ffffu32,
            height <= 0xffff_ffffu32,
    ;
    let need: u128 = (width as u128) * (height as u128) * 4;
    need == len as u128
}

impl Image {
    #[verifier::type_invariant]
    pub open spec fn inv(&self) -> bool {
        self@.is_valid()
    }

    /// Builds an image from its pixel bytes; `None` unless there are exactly
    /// four bytes per pixel.
    pub fn new(width: u32, height: u32, data: Vec<u8>) -> (r: Option<Image>)
        ensures
            r is Some <==> data@.len() == rgba_len(width, height),
            r matches Some(img) ==> img@ == (ImageView { width, height, data: data@ }),
    {
        if fits(width, height, data.len()) {
            Some(Image { width, height, data })
        } else {
            None
        }
    }

    /// Decodes the raw layout `[u32 width][u32 height][pixels]`; `None` unless
    /// `bytes` is exactly the raw layout of some image.
    pub fn from_raw(bytes: &[u8]) -> (r: Option<Image>)
        ensures
            r matches Some(img) ==> img@.raw() == bytes@,
            r is None ==> forall|v: ImageView| v.is_valid() ==> v.raw() != bytes@,
    {
        if bytes.len() < 8 {
            proof {
                assert forall|v: ImageView| v.is_valid() implies v.raw() != bytes@ by {
                    if v.raw() == bytes@ {
                        lemma_raw_parts(v, bytes@);
                    }
                }
            }
            return None;
        }
        let width = read_u32(bytes, 0);
        let height = read_u32(bytes, 4);
        if !fits(width, height, bytes.len() - 8) {
            proof {
                assert forall|v: ImageView| v.is_valid() implies v.raw() != bytes@ by {
                    if v.raw() == bytes@ {
                        lemma_raw_parts(v, bytes@);
                        lemma_le32(width, v.raw().subrange(0, 4));
                        lemma_le32(height, v.raw().subrange(4, 8));
                        lemma_le32(v.width, v.raw().subrange(0, 4));
                        lemma_le32(v.height, v.raw().subrange(4, 8));
                    }
                }
            }
            return None;
        }
        let data = copy_range(bytes, 8, bytes.len());
        let img = Image { width, height, data };
        assert(img@.raw() == bytes@) by {
            assert(bytes@ == bytes@.subrange(0, 4) + bytes@.subrange(4, 8) + bytes@.subrange(
                8,
                bytes@.len() as int,
            ));
        }
        Some(img)
    }

    /// The raw layout of this image, as [`Image::from_raw`] reads it.
    pub fn to_raw(&self) -> (r: Vec<u8>)
        ensures
            r@ == self@.raw(),
    {
        let mut r: Vec<u8> = Vec::new();
        push_u32(&mut r, self.width);
        push_u32(&mut r, self.height);
        push_bytes(&mut r, self.data.as_slice());
        r
    }

    /// Width in pixels.
    pub fn width(&self) -> (r: u32)
        ensures
            r == self@.width,
    {
        self.width
    }

    /// Height in pixels.
    pub fn height(&self) -> (r: u32)
        ensures
            r == self@.height,
    {
        self.height
    }

    /// The RGBA8 pixel bytes, row-major.
    pub fn as_raw(&self) -> (r: &Vec<u8>)
        ensures
            r@ == self@.data,
            r@.len() == rgba_len(self@.width, self@.height),
    {
        proof {
            use_type_invariant(self);
        }
        &self.data
    }

    /// The image's pixel bytes, consuming it.
    pub fn into_raw(self) -> (r: Vec<u8>)
        ensures
            r@ == self@.data,
            r@.len() == rgba_len(self@.width, self@.height),
    {
        proof {
            use_type_invariant(&self);
        }
        self.data
    }
}

/// Where `b` is the raw layout of `v`, its header gives `v`'s dimensions.
pub proof fn lemma_raw_parts(v: ImageView, b: Seq<u8>)
    requires
        v.raw() == b,
    ensures
        b.len() == 8 + v.data.len(),
        b.subrange(0, 4) == le32(v.width),
        b.subrange(4, 8) == le32(v.height),
        b.subrange(8, b.len() as int) == v.data,
{
    lemma_le32(v.width, Seq::empty());
    lemma_le32(v.height, Seq::empty());
    assert(b.subrange(0, 4) == le32(v.width));
    assert(b.subrange(4, 8) == le32(v.height));
    assert(b.subrange(8, b.len() as int) == v.data);
}

} // verus!
