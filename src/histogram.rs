use std::collections::HashMap;
use vstd::multiset::Multiset;
use vstd::prelude::*;

use crate::pixel::{bin_key, bin_key_spec, Mode, Rgb};

verus! {

broadcast use vstd::std_specs::hash::group_hash_axioms;

/// A decoded image: `width * height` pixels in row-major order.
#[derive(Debug)]
pub struct Image {
    pub width: u32,
    pub height: u32,
    pub pixels: Vec<Rgb>,
}

/// Why no histogram could be built.
#[derive(Clone, Copy, Debug, PartialEq, Eq, Structural)]
pub enum EntropyError {
    /// A zero width or height, or a pixel buffer whose length is not
    /// `width * height`.
    InvalidInput,
}

impl Image {
    /// The image has at least one pixel and exactly `width * height` of them.
    pub open spec fn valid(&self) -> bool {
        &&& self.width > 0
        &&& self.height > 0
        &&& self.pixels@.len() == self.width as int * self.height as int
    }
}

/// The bin keys of a pixel sequence, with multiplicity.
pub open spec fn bins(s: Seq<Rgb>, mode: Mode) -> Multiset<u32>
    decreases s.len(),
{
    if s.len() == 0 {
        Multiset::empty()
    } else {
        bins(s.drop_last(), mode).insert(bin_key_spec(s.last(), mode))
    }
}

/// The histogram of a pixel sequence: each observed bin key mapped to the
/// number of pixels that fall into it. Bins that no pixel falls into are absent.
pub open spec fn histogram_spec(s: Seq<Rgb>, mode: Mode) -> Map<u32, u64> {
    Map::new(|k: u32| bins(s, mode).count(k) > 0, |k: u32| bins(s, mode).count(k) as u64)
}

/// No bin holds more pixels than the sequence has.
pub proof fn lemma_bin_count_bounded(s: Seq<Rgb>, mode: Mode, k: u32)
    ensures
        bins(s, mode).count(k) <= s.len(),
    decreases s.len(),
{
    if s.len() > 0 {
        lemma_bin_count_bounded(s.drop_last(), mode, k);
    }
}

/// Counts the pixels of `image` per bin under `mode`.
///
/// Fails with `InvalidInput` exactly when the image is not valid (a zero
/// dimension or a pixel buffer of the wrong length). Otherwise every
/// observed bin maps to its count, and no other key is present.
pub fn histogram(image: &Image, mode: Mode) -> (r: Result<HashMap<u32, u64>, EntropyError>)
    ensures
        image.valid() <==> r is Ok,
        r matches Err(e) ==> e == EntropyError::InvalidInput,
        r matches Ok(h) ==> h@ == histogram_spec(image.pixels@, mode),
{
    if image.width == 0 || image.height == 0 {
        return Err(EntropyError::InvalidInput);
    }
    proof {
        vstd::arithmetic::mul::lemma_mul_upper_bound(
            image.width as int,
            u32::MAX as int,
            image.height as int,
            u32::MAX as int,
        );
    }
    let total: u64 = (image.width as u64) * (image.height as u64);
    if image.pixels.len() as u64 != total {
        return Err(EntropyError::InvalidInput);
    }
    let pixels = &image.pixels;
    let mut h: HashMap<u32, u64> = HashMap::new();
    let mut i: usize = 0;
    while i < pixels.len()
        invariant
            i <= pixels@.len(),
            h@ == histogram_spec(pixels@.take(i as int), mode),
        decreases pixels@.len() - i,
    {
        let ghost prefix = pixels@.take(i as int);
        let ghost next = pixels@.take(i + 1);
        let k = bin_key(pixels[i], mode);
        proof {
            assert(next.drop_last() =~= prefix);
            lemma_bin_count_bounded(prefix, mode, k);
            lemma_bin_count_bounded(next, mode, k);
        }
        let c: u64 = match h.get(&k) {
            Some(c) => *c,
            None => 0,
        };
        h.insert(k, c + 1);
        i = i + 1;
        proof {
            assert forall|j: u32| bins(prefix, mode).count(j) <= prefix.len() by {
                lemma_bin_count_bounded(prefix, mode, j);
            }
            assert(h@ =~= histogram_spec(next, mode));
        }
    }
    assert(pixels@.take(pixels@.len() as int) =~= pixels@);
    Ok(h)
}

} // verus!
