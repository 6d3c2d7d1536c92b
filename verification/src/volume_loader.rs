//! Assembly of a [`Volume`] from an ordered stack of single 2-D images.
//!
//! The loader receives each image as a [`Plane`] together with an integer
//! sort key that embeds the image's acquisition order (smaller keys come
//! first; a missing key is represented by the smallest integer). Reading
//! image files and extracting keys and spacing from their metadata is the
//! caller's concern; everything from sorting onward is verified here.

use vstd::prelude::*;
use vstd::seq_lib::group_to_multiset_ensures;

use crate::enums::SortBy;
use crate::error::VolumeLoaderError;
use crate::grid::MAX_DIM;
use crate::grid::Plane;
use crate::grid::VoxelGrid;
use crate::grid::row_major;
use crate::interpolator::MAX_SPACING;
use crate::interpolator::iso_axis;
use crate::interpolator::min3;
use crate::volume::Volume;

verus! {

/// The keys of a stack run smallest first.
pub open spec fn keys_ascending(s: Seq<(i64, Plane)>) -> bool {
    forall|i: int, j: int| 0 <= i < j < s.len() ==> (#[trigger] s[i]).0 <= (#[trigger] s[j]).0
}

/// The keys of a stack run largest first.
pub open spec fn keys_descending(s: Seq<(i64, Plane)>) -> bool {
    forall|i: int, j: int| 0 <= i < j < s.len() ==> (#[trigger] s[i]).0 >= (#[trigger] s[j]).0
}

/// Holds of an entry exactly when it carries the one `key`.
pub open spec fn has_key(key: i64) -> spec_fn((i64, Plane)) -> bool {
    |e: (i64, Plane)| e.0 == key
}

/// The subsequence of a stack's entries that carry the one `key`, in
/// stack order.
pub open spec fn entries_with_key(s: Seq<(i64, Plane)>, key: i64) -> Seq<(i64, Plane)> {
    s.filter(has_key(key))
}

/// Every image of the stack is a well-formed plane.
pub open spec fn all_planes_wf(s: Seq<(i64, Plane)>) -> bool {
    forall|k: int| 0 <= k < s.len() ==> (#[trigger] s[k]).1.wf()
}

/// Every image of the stack has the one shape (`h`, `w`).
pub open spec fn all_planes_shaped(s: Seq<(i64, Plane)>, h: nat, w: nat) -> bool {
    forall|k: int|
        0 <= k < s.len() ==> (#[trigger] s[k]).1.spec_height() == h && s[k].1.spec_width() == w
}

/// The isotropic dimensions a stack of `n` images of shape (`h`, `w`) with
/// spacing `s` derives all fit the per-axis cap [`MAX_DIM`].
pub open spec fn spec_assembly_fits(n: int, h: int, w: int, s: (u32, u32, u32)) -> bool {
    let m = min3(s.0 as int, s.1 as int, s.2 as int);
    &&& iso_axis(n, s.2 as int, m) <= MAX_DIM
    &&& iso_axis(h, s.1 as int, m) <= MAX_DIM
    &&& iso_axis(w, s.0 as int, m) <= MAX_DIM
}

/// The stack's order the requested sorting establishes: untouched for
/// `Unsorted`; largest key first for `ImagePositionPatient` (stacks ordered
/// by that key run top-down), where reversing the whole stack after a
/// stable ascending sort also reverses each run of equal keys; smallest key
/// first otherwise, stably, so each per-key subsequence keeps the input
/// order.
pub open spec fn sorted_as_requested(
    before: Seq<(i64, Plane)>,
    after: Seq<(i64, Plane)>,
    sort_by: SortBy,
) -> bool {
    match sort_by {
        SortBy::Unsorted => after == before,
        SortBy::ImagePositionPatient => keys_descending(after) && (forall|key: i64|
            #[trigger] entries_with_key(after, key) == entries_with_key(before, key).reverse()),
        SortBy::TablePosition => keys_ascending(after) && (forall|key: i64|
            #[trigger] entries_with_key(after, key) == entries_with_key(before, key)),
        SortBy::InstanceNumber => keys_ascending(after) && (forall|key: i64|
            #[trigger] entries_with_key(after, key) == entries_with_key(before, key)),
    }
}

/// Filtering commutes with reversal: the kept entries of a reversed stack
/// are the reversed kept entries of the stack.
proof fn lemma_filter_reverse(s: Seq<(i64, Plane)>, pred: spec_fn((i64, Plane)) -> bool)
    ensures
        s.reverse().filter(pred) == s.filter(pred).reverse(),
    decreases s.len(),
{
    reveal(Seq::filter);
    if s.len() == 0 {
        assert(s.reverse() =~= s);
        assert(s.filter(pred).reverse() =~= s.filter(pred));
    } else {
        let init = s.drop_last();
        let last = s.last();
        lemma_filter_reverse(init, pred);
        assert(s.reverse() =~= seq![last] + init.reverse());
        Seq::filter_distributes_over_add(seq![last], init.reverse(), pred);
        assert(seq![last].filter(pred) == if pred(last) {
            seq![last]
        } else {
            Seq::<(i64, Plane)>::empty()
        }) by {
            reveal_with_fuel(Seq::filter, 2);
            assert(seq![last].drop_last() == Seq::<(i64, Plane)>::empty());
            if pred(last) {
                assert(seq![last].filter(pred) =~= Seq::<(i64, Plane)>::empty().push(last));
                assert(Seq::<(i64, Plane)>::empty().push(last) =~= seq![last]);
            }
        }
        if pred(last) {
            assert(s.filter(pred) == init.filter(pred).push(last));
            assert(init.filter(pred).push(last).reverse() =~= seq![last] + init.filter(
                pred,
            ).reverse());
            assert(s.reverse().filter(pred) =~= s.filter(pred).reverse());
        } else {
            assert(s.filter(pred) == init.filter(pred));
            assert(s.reverse().filter(pred) =~= s.filter(pred).reverse());
        }
    }
}

/// Well-formedness of every plane carries over to any reordering of a
/// stack.
proof fn lemma_wf_transfer(a: Seq<(i64, Plane)>, b: Seq<(i64, Plane)>)
    requires
        a.to_multiset() == b.to_multiset(),
        all_planes_wf(a),
    ensures
        all_planes_wf(b),
{
    broadcast use group_to_multiset_ensures;

    assert forall|k: int| 0 <= k < b.len() implies (#[trigger] b[k]).1.wf() by {
        assert(b.contains(b[k]));
        assert(b.to_multiset().count(b[k]) > 0);
        assert(a.contains(b[k]));
        let i = choose|i: int| 0 <= i < a.len() && a[i] == b[k];
        assert(a[i].1.wf());
    }
}

/// A common shape of every plane carries over to any reordering of a stack.
proof fn lemma_shape_transfer(a: Seq<(i64, Plane)>, b: Seq<(i64, Plane)>, h: nat, w: nat)
    requires
        a.to_multiset() == b.to_multiset(),
        all_planes_shaped(a, h, w),
    ensures
        all_planes_shaped(b, h, w),
{
    broadcast use group_to_multiset_ensures;

    assert forall|k: int| 0 <= k < b.len() implies (#[trigger] b[k]).1.spec_height() == h
        && b[k].1.spec_width() == w by {
        assert(b.contains(b[k]));
        assert(b.to_multiset().count(b[k]) > 0);
        assert(a.contains(b[k]));
        let i = choose|i: int| 0 <= i < a.len() && a[i] == b[k];
        assert(a[i].1.spec_height() == h && a[i].1.spec_width() == w);
    }
}

/// Assembles volumes from stacks of single images.
pub struct VolumeLoader;

impl VolumeLoader {
    /// Sorts a stack by its keys: a stable ascending sort for every keyed
    /// mode, then the whole stack reversed (largest key first, each run of
    /// equal keys reversed too) for `ImagePositionPatient`; `Unsorted`
    /// leaves the stack untouched. The stack's contents are preserved as a
    /// multiset, and [`sorted_as_requested`] pins the per-key order.
    pub fn sort_images(images_with_order: &mut Vec<(i64, Plane)>, sort_by: SortBy)
        ensures
            final(images_with_order)@.len() == old(images_with_order)@.len(),
            final(images_with_order)@.to_multiset() == old(images_with_order)@.to_multiset(),
            sorted_as_requested(old(images_with_order)@, final(images_with_order)@, sort_by),
    {
        if matches!(sort_by, SortBy::Unsorted) {
            return ;
        }
        Self::sort_ascending(images_with_order);
        let ghost mid = images_with_order@;
        if matches!(sort_by, SortBy::ImagePositionPatient) {
            Self::reverse_entries(images_with_order);
            proof {
                assert forall|key: i64|
                    #[trigger] entries_with_key(images_with_order@, key) == entries_with_key(
                    old(images_with_order)@,
                    key,
                ).reverse() by {
                    lemma_filter_reverse(mid, has_key(key));
                    assert(entries_with_key(mid, key) == entries_with_key(
                        old(images_with_order)@,
                        key,
                    ));
                }
            }
        }
    }

    /// Selection sort, smallest key first. The sort is stable: among the
    /// entries that share one key, the original order is kept, which the
    /// last clause states as preservation of every per-key subsequence.
    #[verifier::rlimit(100)]
    fn sort_ascending(v: &mut Vec<(i64, Plane)>)
        ensures
            final(v)@.len() == old(v)@.len(),
            final(v)@.to_multiset() == old(v)@.to_multiset(),
            keys_ascending(final(v)@),
            forall|key: i64|
                #[trigger] entries_with_key(final(v)@, key) == entries_with_key(old(v)@, key),
    {
        broadcast use group_to_multiset_ensures;

        let ghost orig = v@;
        let mut out: Vec<(i64, Plane)> = Vec::new();
        while v.len() > 0
            invariant
                out@.len() + v@.len() == orig.len(),
                out@.to_multiset().add(v@.to_multiset()) == orig.to_multiset(),
                keys_ascending(out@),
                forall|i: int, j: int|
                    0 <= i < out@.len() && 0 <= j < v@.len() ==> (#[trigger] out@[i]).0
                        <= (#[trigger] v@[j]).0,
                forall|key: i64|
                    #[trigger] entries_with_key(out@, key) + entries_with_key(v@, key)
                        == entries_with_key(orig, key),
            decreases v@.len(),
        {
            let mut min_idx: usize = 0;
            let mut k: usize = 1;
            while k < v.len()
                invariant
                    v@.len() > 0,
                    min_idx < v@.len(),
                    k <= v@.len(),
                    forall|t: int| 0 <= t < k ==> v@[min_idx as int].0 <= (#[trigger] v@[t]).0,
                    forall|t: int| 0 <= t < min_idx ==> (#[trigger] v@[t]).0 > v@[min_idx as int].0,
                decreases v@.len() - k,
            {
                if v[k].0 < v[min_idx].0 {
                    min_idx = k;
                }
                k += 1;
            }
            let ghost v_before = v@;
            let ghost out_before = out@;
            let e = v.remove(min_idx);
            out.push(e);
            proof {
                broadcast use group_to_multiset_ensures;

                assert(v_before.contains(e)) by {
                    assert(v_before[min_idx as int] == e);
                }
                assert(v_before.to_multiset().count(e) > 0);
                assert(v@.to_multiset() =~= v_before.to_multiset().remove(e));
                assert(out@.to_multiset() =~= out_before.to_multiset().insert(e));
                assert(out@.to_multiset().add(v@.to_multiset()) =~= orig.to_multiset()) by {
                    assert forall|x: (i64, Plane)|
                        out@.to_multiset().add(v@.to_multiset()).count(x) == orig.to_multiset()
                            .count(x) by {
                        assert(out_before.to_multiset().add(v_before.to_multiset()).count(x)
                            == orig.to_multiset().count(x));
                    }
                }
                let front = v_before.subrange(0, min_idx as int);
                let back = v_before.subrange(min_idx + 1, v_before.len() as int);
                assert forall|key: i64|
                    #[trigger] entries_with_key(out@, key) + entries_with_key(v@, key)
                        == entries_with_key(orig, key) by {
                    let pred = has_key(key);
                    let single = seq![e];
                    assert(v_before =~= (front + single) + back);
                    Seq::filter_distributes_over_add(front + single, back, pred);
                    Seq::filter_distributes_over_add(front, single, pred);
                    Seq::filter_distributes_over_add(front, back, pred);
                    Seq::filter_distributes_over_add(out_before, single, pred);
                    assert(single.filter(pred) == if pred(e) {
                        single
                    } else {
                        Seq::<(i64, Plane)>::empty()
                    }) by {
                        reveal_with_fuel(Seq::filter, 2);
                        assert(single.drop_last() == Seq::<(i64, Plane)>::empty());
                        assert(single.last() == e);
                        if pred(e) {
                            assert(single.filter(pred) =~= Seq::<(i64, Plane)>::empty().push(e));
                            assert(Seq::<(i64, Plane)>::empty().push(e) =~= single);
                        }
                    }
                    assert(out@ == out_before.push(e));
                    assert(out_before.push(e) =~= out_before + single);
                    assert(v_before.filter(pred) == front.filter(pred) + single.filter(pred)
                        + back.filter(pred)) by {
                        assert(((front + single) + back).filter(pred) == (front + single).filter(
                            pred,
                        ) + back.filter(pred));
                        assert((front + single).filter(pred) == front.filter(pred) + single.filter(
                            pred,
                        ));
                    }
                    assert(v@ == front + back);
                    if pred(e) {
                        assert forall|t: int| 0 <= t < front.len() implies !pred(
                            #[trigger] front[t],
                        ) by {
                            assert(front[t] == v_before[t]);
                        }
                        assert(front.all(|x: (i64, Plane)| !pred(x)));
                        front.lemma_all_neg_filter_empty(pred);
                        assert(front.filter(pred) =~= Seq::<(i64, Plane)>::empty());
                    }
                    assert(out@.filter(pred) + v@.filter(pred) =~= orig.filter(pred)) by {
                        assert(out@.filter(pred) == out_before.filter(pred) + single.filter(pred));
                        assert(v@.filter(pred) == front.filter(pred) + back.filter(pred));
                        assert(entries_with_key(out_before, key) + entries_with_key(v_before, key)
                            == entries_with_key(orig, key));
                    }
                }
            }
        }
        *v = out;
    }

    /// Reverses a stack in place.
    fn reverse_entries(v: &mut Vec<(i64, Plane)>)
        ensures
            final(v)@.len() == old(v)@.len(),
            final(v)@.to_multiset() == old(v)@.to_multiset(),
            final(v)@ == old(v)@.reverse(),
    {
        let ghost orig = v@;
        let mut out: Vec<(i64, Plane)> = Vec::new();
        while v.len() > 0
            invariant
                out@.len() + v@.len() == orig.len(),
                v@ == orig.subrange(0, v@.len() as int),
                forall|k: int|
                    0 <= k < out@.len() ==> #[trigger] out@[k] == orig[orig.len() - 1 - k],
            decreases v@.len(),
        {
            let e = match v.pop() {
                Some(e) => e,
                None => {
                    proof {
                        assert(false);
                    }
                    return ;
                },
            };
            out.push(e);
        }
        proof {
            assert(out@ =~= orig.reverse());
            orig.lemma_reverse_to_multiset();
        }
        *v = out;
    }

    /// Checks that every image of a non-empty stack has the shape of the
    /// first. Fails with [`VolumeLoaderError::InconsistentDimensions`]
    /// exactly when some image differs.
    pub fn validate_dimensions(images: &Vec<Plane>) -> (r: Result<(), VolumeLoaderError>)
        requires
            images@.len() >= 1,
        ensures
            match r {
                Ok(_) => forall|k: int|
                    0 <= k < images@.len() ==> (#[trigger] images@[k]).spec_height()
                        == images@[0].spec_height() && images@[k].spec_width()
                        == images@[0].spec_width(),
                Err(e) => {
                    &&& e == VolumeLoaderError::InconsistentDimensions
                    &&& !(forall|k: int|
                        0 <= k < images@.len() ==> (#[trigger] images@[k]).spec_height()
                            == images@[0].spec_height() && images@[k].spec_width()
                            == images@[0].spec_width())
                },
            },
    {
        let first_height = images[0].height();
        let first_width = images[0].width();
        let mut k: usize = 1;
        while k < images.len()
            invariant
                images@.len() >= 1,
                first_height == images@[0].spec_height(),
                first_width == images@[0].spec_width(),
                k <= images@.len(),
                forall|t: int|
                    0 <= t < k ==> (#[trigger] images@[t]).spec_height()
                        == images@[0].spec_height() && images@[t].spec_width()
                        == images@[0].spec_width(),
            decreases images@.len() - k,
        {
            if images[k].height() != first_height || images[k].width() != first_width {
                return Err(VolumeLoaderError::InconsistentDimensions);
            }
            k += 1;
        }
        Ok(())
    }

    /// Stacks equal-shaped images into a voxel grid, the first image as the
    /// deepest layer first: voxel (z, y, x) is cell (y, x) of image `z`.
    pub fn build_volume_array(images: &Vec<Plane>) -> (r: VoxelGrid)
        requires
            1 <= images@.len() <= MAX_DIM,
            forall|k: int|
                0 <= k < images@.len() ==> (#[trigger] images@[k]).wf()
                    && images@[k].spec_height() == images@[0].spec_height()
                    && images@[k].spec_width() == images@[0].spec_width(),
        ensures
            r.wf(),
            r.spec_depth() == images@.len(),
            r.spec_height() == images@[0].spec_height(),
            r.spec_width() == images@[0].spec_width(),
            forall|z: int, y: int, x: int|
                0 <= z < r.spec_depth() && 0 <= y < r.spec_height() && 0 <= x < r.spec_width()
                    ==> #[trigger] r.at(z, y, x) == images@[z].at(y, x),
    {
        let depth = images.len();
        let height = images[0].height();
        let width = images[0].width();
        let ghost hw = (height * width) as int;
        let mut values: Vec<u16> = Vec::new();
        let mut z: usize = 0;
        while z < depth
            invariant
                depth == images@.len(),
                1 <= depth <= MAX_DIM,
                height == images@[0].spec_height(),
                width == images@[0].spec_width(),
                hw == (height as int) * (width as int),
                forall|k: int|
                    0 <= k < images@.len() ==> (#[trigger] images@[k]).wf()
                        && images@[k].spec_height() == height && images@[k].spec_width() == width,
                z <= depth,
                values@.len() == z * hw,
                forall|a: int, b: int, c: int|
                    0 <= a < z && 0 <= b < height && 0 <= c < width ==> #[trigger] values@[a * hw
                        + row_major(b, c, width as int)] == images@[a].at(b, c),
            decreases depth - z,
        {
            let mut y: usize = 0;
            while y < height
                invariant
                    depth == images@.len(),
                    1 <= depth <= MAX_DIM,
                    height == images@[0].spec_height(),
                    width == images@[0].spec_width(),
                    hw == (height as int) * (width as int),
                    forall|k: int|
                        0 <= k < images@.len() ==> (#[trigger] images@[k]).wf()
                            && images@[k].spec_height() == height && images@[k].spec_width()
                            == width,
                    z < depth,
                    y <= height,
                    values@.len() == z * hw + y * width,
                    forall|a: int, b: int, c: int|
                        0 <= a < z && 0 <= b < height && 0 <= c < width ==> #[trigger] values@[a
                            * hw + row_major(b, c, width as int)] == images@[a].at(b, c),
                    forall|b: int, c: int|
                        0 <= b < y && 0 <= c < width ==> #[trigger] values@[z as int * hw
                            + row_major(b, c, width as int)] == images@[z as int].at(b, c),
                decreases height - y,
            {
                let mut x: usize = 0;
                while x < width
                    invariant
                        depth == images@.len(),
                        1 <= depth <= MAX_DIM,
                        height == images@[0].spec_height(),
                        width == images@[0].spec_width(),
                        hw == (height as int) * (width as int),
                        forall|k: int|
                            0 <= k < images@.len() ==> (#[trigger] images@[k]).wf()
                                && images@[k].spec_height() == height && images@[k].spec_width()
                                == width,
                        z < depth,
                        y < height,
                        x <= width,
                        values@.len() == z * hw + y * width + x,
                        forall|a: int, b: int, c: int|
                            0 <= a < z && 0 <= b < height && 0 <= c < width ==> #[trigger] values@[a
                                * hw + row_major(b, c, width as int)] == images@[a].at(b, c),
                        forall|b: int, c: int|
                            0 <= b < y && 0 <= c < width ==> #[trigger] values@[z as int * hw
                                + row_major(b, c, width as int)] == images@[z as int].at(b, c),
                        forall|c: int|
                            0 <= c < x ==> #[trigger] values@[z as int * hw + row_major(
                                y as int,
                                c,
                                width as int,
                            )] == images@[z as int].at(y as int, c),
                    decreases width - x,
                {
                    let cell = images[z].get(y, x);
                    values.push(cell);
                    proof {
                        assert forall|a: int, b: int, c: int|
                            0 <= a < z && 0 <= b < height && 0 <= c < width implies #[trigger]
                            values@[a * hw + row_major(b, c, width as int)] == images@[a].at(
                            b,
                            c,
                        ) by {
                            lemma_below_layers(a, b, c, z as int, height as int, width as int);
                        }
                        assert forall|b: int, c: int|
                            0 <= b < y && 0 <= c < width implies #[trigger] values@[z as int * hw
                            + row_major(b, c, width as int)] == images@[z as int].at(b, c) by {
                            lemma_below_rows(b, c, y as int, width as int);
                        }
                    }
                    x += 1;
                }
                proof {
                    assert((y + 1) * width == y * width + width) by (nonlinear_arith);
                }
                y += 1;
            }
            proof {
                assert((z + 1) * hw == z * hw + hw) by (nonlinear_arith);
            }
            z += 1;
        }
        match VoxelGrid::from_raw(values, depth, height, width) {
            Some(g) => {
                proof {
                    assert forall|z0: int, y0: int, x0: int|
                        0 <= z0 < g.spec_depth() && 0 <= y0 < g.spec_height() && 0 <= x0
                            < g.spec_width() implies #[trigger] g.at(z0, y0, x0) == images@[z0].at(
                        y0,
                        x0,
                    ) by {
                        assert(g.flat(z0, y0, x0) == z0 * hw + row_major(y0, x0, width as int));
                    }
                }
                g
            },
            None => {
                proof {
                    assert(false);
                }
                VoxelGrid::from_raw(Vec::new(), 0, 0, 0).unwrap()
            },
        }
    }

    /// Assembles a volume from a stack of keyed single images: sorts the
    /// stack as requested, checks that every image has one shape, stacks the
    /// sorted images into the voxel grid, and derives the isotropic
    /// dimensions from the spacing triple.
    ///
    /// Fails with [`VolumeLoaderError::NoValidImages`] exactly when the
    /// stack is empty; with [`VolumeLoaderError::InconsistentDimensions`]
    /// exactly when a non-empty stack's images do not all share the first
    /// image's shape; and with [`VolumeLoaderError::MissingSpacing`] exactly
    /// when a consistent, non-empty stack comes without a spacing triple.
    pub fn load_from_slices(
        entries: Vec<(i64, Plane)>,
        sort_by: SortBy,
        spacing: Option<(u32, u32, u32)>,
    ) -> (r: Result<Volume, VolumeLoaderError>)
        requires
            entries@.len() <= MAX_DIM,
            all_planes_wf(entries@),
            match spacing {
                Some(s) => {
                    &&& 1 <= s.0 <= MAX_SPACING
                    &&& 1 <= s.1 <= MAX_SPACING
                    &&& 1 <= s.2 <= MAX_SPACING
                },
                None => true,
            },
            (entries@.len() >= 1 && all_planes_shaped(
                entries@,
                entries@[0].1.spec_height(),
                entries@[0].1.spec_width(),
            )) ==> match spacing {
                Some(s) => spec_assembly_fits(
                    entries@.len() as int,
                    entries@[0].1.spec_height() as int,
                    entries@[0].1.spec_width() as int,
                    s,
                ),
                None => true,
            },
        ensures
            match r {
                Ok(vol) => {
                    &&& entries@.len() >= 1
                    &&& all_planes_shaped(
                        entries@,
                        entries@[0].1.spec_height(),
                        entries@[0].1.spec_width(),
                    )
                    &&& spacing == Some(vol.spec_spacing())
                    &&& vol.wf()
                    &&& vol.spec_data().spec_depth() == entries@.len()
                    &&& vol.spec_data().spec_height() == entries@[0].1.spec_height()
                    &&& vol.spec_data().spec_width() == entries@[0].1.spec_width()
                    &&& exists|stack: Seq<(i64, Plane)>|
                        {
                            &&& stack.len() == entries@.len()
                            &&& stack.to_multiset() == entries@.to_multiset()
                            &&& #[trigger] sorted_as_requested(entries@, stack, sort_by)
                            &&& forall|z: int, y: int, x: int|
                                0 <= z < stack.len() && 0 <= y < vol.spec_data().spec_height() && 0
                                    <= x < vol.spec_data().spec_width() ==> #[trigger] vol.spec_data().at(
                                    z,
                                    y,
                                    x,
                                ) == stack[z].1.at(y, x)
                        }
                },
                Err(e) => match e {
                    VolumeLoaderError::NoValidImages => entries@.len() == 0,
                    VolumeLoaderError::InconsistentDimensions => {
                        &&& entries@.len() >= 1
                        &&& !all_planes_shaped(
                            entries@,
                            entries@[0].1.spec_height(),
                            entries@[0].1.spec_width(),
                        )
                    },
                    VolumeLoaderError::MissingSpacing => {
                        &&& entries@.len() >= 1
                        &&& all_planes_shaped(
                            entries@,
                            entries@[0].1.spec_height(),
                            entries@[0].1.spec_width(),
                        )
                        &&& spacing is None
                    },
                },
            },
    {
        let ghost orig = entries@;
        if entries.len() == 0 {
            return Err(VolumeLoaderError::NoValidImages);
        }
        let mut sorted = entries;
        VolumeLoader::sort_images(&mut sorted, sort_by);
        let ghost stack = sorted@;
        proof {
            lemma_wf_transfer(orig, stack);
        }
        let mut images: Vec<Plane> = Vec::new();
        while sorted.len() > 0
            invariant
                images@.len() + sorted@.len() == stack.len(),
                forall|k: int| 0 <= k < images@.len() ==> #[trigger] images@[k] == stack[k].1,
                sorted@ == stack.subrange(images@.len() as int, stack.len() as int),
                all_planes_wf(stack),
            decreases sorted@.len(),
        {
            let e = sorted.remove(0);
            images.push(e.1);
            proof {
                assert(sorted@ =~= stack.subrange(images@.len() as int, stack.len() as int));
            }
        }
        match Self::validate_dimensions(&images) {
            Err(_) => {
                proof {
                    assert(!all_planes_shaped(orig, orig[0].1.spec_height(), orig[0].1.spec_width()))
                        by {
                        if all_planes_shaped(orig, orig[0].1.spec_height(), orig[0].1.spec_width())
                            {
                            lemma_shape_transfer(
                                orig,
                                stack,
                                orig[0].1.spec_height(),
                                orig[0].1.spec_width(),
                            );
                            assert(images@[0] == stack[0].1);
                            assert(false);
                        }
                    }
                }
                return Err(VolumeLoaderError::InconsistentDimensions);
            },
            Ok(_) => {},
        }
        proof {
            assert forall|k: int| 0 <= k < stack.len() implies (#[trigger] stack[k]).1.spec_height()
                == images@[0].spec_height() && stack[k].1.spec_width()
                == images@[0].spec_width() by {
                assert(images@[k] == stack[k].1);
                assert(images@[k].spec_height() == images@[0].spec_height());
            }
            assert(all_planes_shaped(stack, images@[0].spec_height(), images@[0].spec_width()));
            lemma_shape_transfer(
                stack,
                orig,
                images@[0].spec_height(),
                images@[0].spec_width(),
            );
            assert(orig[0].1.spec_height() == images@[0].spec_height());
            assert(orig[0].1.spec_width() == images@[0].spec_width());
        }
        let s: (u32, u32, u32) = match spacing {
            None => {
                return Err(VolumeLoaderError::MissingSpacing);
            },
            Some(s) => s,
        };
        let grid = Self::build_volume_array(&images);
        let vol = Volume::new(grid, s);
        Ok(vol)
    }
}

/// A voxel of a layer strictly below layer `z` lies below the first
/// `z * h * w` entries of the flat buffer.
proof fn lemma_below_layers(a: int, b: int, c: int, z: int, h: int, w: int)
    by (nonlinear_arith)
    requires
        0 <= a < z,
        0 <= b < h,
        0 <= c < w,
    ensures
        0 <= a * (h * w) + row_major(b, c, w) < z * (h * w),
{
}

/// A cell of a row strictly below row `y` lies below the first `y * w`
/// entries of its layer.
proof fn lemma_below_rows(b: int, c: int, y: int, w: int)
    by (nonlinear_arith)
    requires
        0 <= b < y,
        0 <= c < w,
    ensures
        0 <= row_major(b, c, w) < y * w,
{
}

} // verus!

