//! What holds of every histogram, whatever the image.
use vstd::multiset::Multiset;
use vstd::prelude::*;

use crate::histogram::{bins, histogram_spec};
use crate::pixel::{bin_key_spec, luma_spec, packed_spec, Mode, Rgb};

verus! {

broadcast use {vstd::multiset::group_multiset_axioms, vstd::set::group_set_axioms};

/// The counts over all bins add up to the number of pixels: every pixel is
/// counted exactly once.
pub proof fn lemma_counts_total(s: Seq<Rgb>, mode: Mode)
    ensures
        bins(s, mode).len() == s.len(),
    decreases s.len(),
{
    if s.len() > 0 {
        lemma_counts_total(s.drop_last(), mode);
    }
}

/// There are never more bins than pixels, never more than 256 bins in
/// grayscale mode and never more than 2^24 in color mode. Every bin that is
/// present holds at least one pixel.
pub proof fn lemma_bin_number_bounded(s: Seq<Rgb>, mode: Mode)
    requires
        s.len() <= u64::MAX,
    ensures
        histogram_spec(s, mode).dom().finite(),
        histogram_spec(s, mode).dom().len() <= s.len(),
        mode == Mode::Grayscale ==> histogram_spec(s, mode).dom().len() <= 256,
        mode == Mode::Color ==> histogram_spec(s, mode).dom().len() <= 16777216,
        forall|k: u32| #[trigger]
            histogram_spec(s, mode).contains_key(k) ==> histogram_spec(s, mode)[k] >= 1,
{
    let d = histogram_spec(s, mode).dom();
    assert(d =~= bins(s, mode).dom());
    lemma_dom_len_bounded(s, mode);
    lemma_keys_in_range(s, mode);
    let limit: u32 = if mode == Mode::Grayscale { 256 } else { 16777216 };
    assert(d.subset_of(Set::range(0u32, limit)));
    vstd::set_lib::range_set_properties::<u32>(0u32, limit);
    vstd::set_lib::lemma_len_subset(d, Set::range(0u32, limit));
    assert forall|k: u32| #[trigger] histogram_spec(s, mode).contains_key(k) implies histogram_spec(
        s,
        mode,
    )[k] >= 1 by {
        crate::histogram::lemma_bin_count_bounded(s, mode, k);
    }
}

proof fn lemma_dom_len_bounded(s: Seq<Rgb>, mode: Mode)
    ensures
        bins(s, mode).dom().len() <= s.len(),
    decreases s.len(),
{
    if s.len() > 0 {
        let prev = bins(s.drop_last(), mode);
        let k = bin_key_spec(s.last(), mode);
        lemma_dom_len_bounded(s.drop_last(), mode);
        assert(prev.dom().finite());
        assert(bins(s, mode).dom() =~= prev.dom().insert(k));
    } else {
        assert(bins(s, mode).dom() =~= Set::empty());
    }
}

proof fn lemma_keys_in_range(s: Seq<Rgb>, mode: Mode)
    ensures
        forall|k: u32| #[trigger]
            bins(s, mode).count(k) > 0 ==> (if mode == Mode::Grayscale {
                k < 256
            } else {
                k < 16777216
            }),
    decreases s.len(),
{
    if s.len() > 0 {
        lemma_keys_in_range(s.drop_last(), mode);
        let p = s.last();
        let last = bin_key_spec(p, mode);
        assert(luma_spec(p.r, p.g, p.b) < 256);
        assert(packed_spec(p) < 16777216);
        assert(if mode == Mode::Grayscale {
            last < 256
        } else {
            last < 16777216
        });
        assert forall|k: u32| #[trigger]
            bins(s, mode).count(k) > 0 implies (if mode == Mode::Grayscale {
                k < 256
            } else {
                k < 16777216
            }) by {
            if k != last {
                assert(bins(s.drop_last(), mode).count(k) > 0);
            }
        }
    }
}

/// An image whose pixels are all the same value has exactly one bin, which
/// holds every pixel.
pub proof fn lemma_uniform_single_bin(s: Seq<Rgb>, mode: Mode, p: Rgb)
    requires
        s.len() > 0,
        forall|i: int| 0 <= i < s.len() ==> s[i] == p,
    ensures
        histogram_spec(s, mode).dom() == set![bin_key_spec(p, mode)],
        bins(s, mode).count(bin_key_spec(p, mode)) == s.len(),
    decreases s.len(),
{
    let k = bin_key_spec(p, mode);
    let t = s.drop_last();
    assert(s.last() == p);
    if s.len() == 1 {
        assert(bins(t, mode) == Multiset::<u32>::empty());
    } else {
        lemma_uniform_single_bin(t, mode, p);
        assert(bins(t, mode).dom() =~= histogram_spec(t, mode).dom());
    }
    assert forall|j: u32| j != k implies #[trigger] bins(t, mode).count(j) == 0 by {
        if s.len() > 1 {
            assert(!set![k].contains(j));
            assert(!bins(t, mode).dom().contains(j));
        }
    }
    assert(histogram_spec(s, mode).dom() =~= set![k]);
}

/// Pixels whose bins are pairwise distinct give one bin per pixel, each
/// holding exactly one pixel.
pub proof fn lemma_distinct_keys_single_counts(s: Seq<Rgb>, mode: Mode)
    requires
        forall|i: int, j: int|
            0 <= i < j < s.len() ==> bin_key_spec(s[i], mode) != bin_key_spec(s[j], mode),
    ensures
        histogram_spec(s, mode).dom().len() == s.len(),
        forall|k: u32| #[trigger]
            histogram_spec(s, mode).contains_key(k) ==> histogram_spec(s, mode)[k] == 1,
    decreases s.len(),
{
    if s.len() > 0 {
        let t = s.drop_last();
        let k = bin_key_spec(s.last(), mode);
        lemma_distinct_keys_single_counts(t, mode);
        lemma_key_absent(t, mode, k);
        assert(histogram_spec(s, mode).dom() =~= histogram_spec(t, mode).dom().insert(k));
        assert(histogram_spec(t, mode).dom() =~= bins(t, mode).dom());
    } else {
        assert(histogram_spec(s, mode).dom() =~= Set::empty());
    }
}

proof fn lemma_key_absent(t: Seq<Rgb>, mode: Mode, k: u32)
    requires
        forall|i: int| 0 <= i < t.len() ==> bin_key_spec(t[i], mode) != k,
    ensures
        bins(t, mode).count(k) == 0,
    decreases t.len(),
{
    if t.len() > 0 {
        lemma_key_absent(t.drop_last(), mode, k);
    }
}

proof fn lemma_bins_remove(s: Seq<Rgb>, mode: Mode, j: int)
    requires
        0 <= j < s.len(),
    ensures
        bins(s.remove(j), mode).insert(bin_key_spec(s[j], mode)) =~= bins(s, mode),
    decreases s.len(),
{
    if j == s.len() - 1 {
        assert(s.remove(j) =~= s.drop_last());
    } else {
        let t = s.drop_last();
        lemma_bins_remove(t, mode, j);
        assert(s.remove(j).drop_last() =~= t.remove(j));
        assert(s.remove(j).last() == s.last());
    }
}

/// Moving pixels around without changing which values occur how often leaves
/// the histogram unchanged.
pub proof fn lemma_permutation_invariant(a: Seq<Rgb>, b: Seq<Rgb>, mode: Mode)
    requires
        a.to_multiset() == b.to_multiset(),
    ensures
        bins(a, mode) == bins(b, mode),
        histogram_spec(a, mode) == histogram_spec(b, mode),
    decreases a.len(),
{
    broadcast use vstd::seq_lib::group_to_multiset_ensures;

    if a.len() == 0 {
        vstd::seq_lib::to_multiset_len(a);
        vstd::seq_lib::to_multiset_len(b);
        assert(b.len() == 0);
        assert(bins(b, mode) =~= bins(a, mode));
    } else {
        let x = a.last();
        let t = a.drop_last();
        assert(a =~= t.push(x));
        assert(b.to_multiset().count(x) > 0);
        assert(b.contains(x));
        let j = choose|j: int| 0 <= j < b.len() && b[j] == x;
        assert(b.remove(j).to_multiset() =~= t.to_multiset());
        lemma_permutation_invariant(t, b.remove(j), mode);
        lemma_bins_remove(b, mode, j);
        assert(bins(a, mode) =~= bins(b, mode));
    }
    assert(histogram_spec(a, mode) =~= histogram_spec(b, mode));
}

/// A gray pixel (equal channels) has its channel value as its luma.
pub proof fn lemma_gray_luma_identity(v: u8)
    ensures
        luma_spec(v, v, v) == v,
{
}

/// For an image whose pixels all have equal channels, the two modes see the
/// same counts: the grayscale bin `v` holds as many pixels as the color bin
/// of the triple `(v, v, v)`. The two reductions are still computed apart.
pub proof fn lemma_gray_image_modes_agree(s: Seq<Rgb>, v: u8)
    requires
        forall|i: int| 0 <= i < s.len() ==> s[i].r == s[i].g && s[i].g == s[i].b,
    ensures
        bins(s, Mode::Grayscale).count(v as u32) == bins(s, Mode::Color).count(
            packed_spec(Rgb { r: v, g: v, b: v }) as u32,
        ),
    decreases s.len(),
{
    if s.len() > 0 {
        lemma_gray_image_modes_agree(s.drop_last(), v);
        let p = s.last();
        lemma_gray_luma_identity(p.r);
        assert(packed_spec(p) == p.r * 65793);
        assert(packed_spec(Rgb { r: v, g: v, b: v }) == v * 65793);
    }
}

} // verus!
