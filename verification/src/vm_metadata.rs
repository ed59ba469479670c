//! Layout descriptors for the per-object metadata the collector overlays on
//! live objects: the forwarding pointer, the forwarding state bits, the mark
//! bit and the large-object mark/nursery bits.
//!
//! A descriptor either names a bit range inside the object's header word or a
//! bit range in an out-of-line side table indexed by object address.  Side
//! table ranges are chained: each spec's range starts exactly where the
//! previous one ends, so the chain is recomputed as one validated whole
//! whenever a spec is added, removed or reordered.

use vstd::prelude::*;

verus! {

/// Bits in the object header word the collector may overlay.
pub const HEADER_WORD_BITS: usize = 64;

/// Bit offset, within the header word, of the forwarding state bits.
pub const FORWARDING_BITS_OFFSET: usize = 56;

/// A bit range embedded in the object header word.
#[derive(Clone, Copy, PartialEq, Eq, Structural, Debug)]
pub struct HeaderMetadataSpec {
    pub bit_offset: usize,
    pub num_bits: usize,
}

impl HeaderMetadataSpec {
    /// First bit past this spec's range.
    pub open spec fn end(self) -> int {
        self.bit_offset + self.num_bits
    }

    /// A header spec claims at least one bit and stays inside the header
    /// word; that is what keeps it clear of every reference field, which all
    /// start past the header.
    pub open spec fn wf(self) -> bool {
        1 <= self.num_bits && self.end() <= HEADER_WORD_BITS
    }
}

/// A bit range in the side table, one entry of the chained layout.
#[derive(Clone, Copy, PartialEq, Eq, Structural, Debug)]
pub struct SideMetadataSpec {
    pub bit_offset: usize,
    pub num_bits: usize,
}

impl SideMetadataSpec {
    /// First bit past this spec's range.
    pub open spec fn end(self) -> int {
        self.bit_offset + self.num_bits
    }
}

/// Where the forwarding pointer lives: the whole header word, so a moving
/// plan can overlay it on a forwarded object's old location.
pub fn forwarding_pointer_spec() -> (s: HeaderMetadataSpec)
    ensures
        s == (HeaderMetadataSpec { bit_offset: 0, num_bits: 64 }),
        s.wf(),
{
    HeaderMetadataSpec { bit_offset: 0, num_bits: 64 }
}

/// Where the two forwarding state bits live: the top byte of the header word.
pub fn forwarding_bits_spec() -> (s: HeaderMetadataSpec)
    ensures
        s == (HeaderMetadataSpec { bit_offset: FORWARDING_BITS_OFFSET, num_bits: 2 }),
        s.wf(),
{
    HeaderMetadataSpec { bit_offset: FORWARDING_BITS_OFFSET, num_bits: 2 }
}

/// The mark bit when the deployment keeps it in the header: it shares the
/// forwarding-bits position, which moving plans restore on release.
pub fn in_header_mark_bit_spec() -> (s: HeaderMetadataSpec)
    ensures
        s == (HeaderMetadataSpec { bit_offset: FORWARDING_BITS_OFFSET, num_bits: 1 }),
        s.wf(),
{
    HeaderMetadataSpec { bit_offset: FORWARDING_BITS_OFFSET, num_bits: 1 }
}

/// The first spec of a side-table chain: its range starts at bit zero.
pub fn side_first(num_bits: usize) -> (s: SideMetadataSpec)
    requires
        1 <= num_bits,
    ensures
        s == (SideMetadataSpec { bit_offset: 0, num_bits }),
{
    SideMetadataSpec { bit_offset: 0, num_bits }
}

/// The next spec of a side-table chain: its range starts exactly where
/// `prev`'s ends.
pub fn side_after(prev: &SideMetadataSpec, num_bits: usize) -> (s: SideMetadataSpec)
    requires
        1 <= num_bits,
        prev.end() + num_bits <= usize::MAX,
    ensures
        s.bit_offset == prev.end(),
        s.num_bits == num_bits,
{
    SideMetadataSpec { bit_offset: prev.bit_offset + prev.num_bits, num_bits }
}

/// Total bit width of a chain of side-table specs.
pub open spec fn total_bits(widths: Seq<usize>) -> int
    decreases widths.len(),
{
    if widths.len() == 0 {
        0
    } else {
        widths[0] + total_bits(widths.drop_first())
    }
}

/// `specs` is a valid side-table chain for `widths`: the first range starts
/// at bit zero and each later range starts exactly where its predecessor
/// ends.
pub open spec fn chained(specs: Seq<SideMetadataSpec>, widths: Seq<usize>) -> bool {
    &&& specs.len() == widths.len()
    &&& forall|i: int| 0 <= i < specs.len() ==> (#[trigger] specs[i]).num_bits == widths[i]
    &&& (specs.len() > 0 ==> specs[0].bit_offset == 0)
    &&& forall|i: int|
        0 < i < specs.len() ==> (#[trigger] specs[i]).bit_offset == specs[i - 1].end()
}

/// Prefix sums of a chain are bounded by the total width.
proof fn lemma_total_bits_take(widths: Seq<usize>, i: int)
    requires
        0 <= i < widths.len(),
    ensures
        total_bits(widths.take(i + 1)) == total_bits(widths.take(i)) + widths[i],
        total_bits(widths.take(i)) >= 0,
        total_bits(widths.take(i + 1)) <= total_bits(widths),
    decreases widths.len(),
{
    lemma_total_bits_nonneg(widths);
    lemma_total_bits_push(widths.take(i), widths[i]);
    assert(widths.take(i + 1) =~= widths.take(i).push(widths[i]));
    lemma_total_bits_nonneg(widths.take(i));
    lemma_total_bits_prefix(widths, i + 1);
}

proof fn lemma_total_bits_nonneg(widths: Seq<usize>)
    ensures
        total_bits(widths) >= 0,
    decreases widths.len(),
{
    if widths.len() > 0 {
        lemma_total_bits_nonneg(widths.drop_first());
    }
}

proof fn lemma_total_bits_push(widths: Seq<usize>, w: usize)
    ensures
        total_bits(widths.push(w)) == total_bits(widths) + w,
    decreases widths.len(),
{
    assert(total_bits(widths.push(w)) == widths.push(w)[0] + total_bits(
        widths.push(w).drop_first(),
    ));
    if widths.len() == 0 {
        assert(widths.push(w)[0] == w);
        assert(widths.push(w).drop_first() =~= Seq::<usize>::empty());
        assert(total_bits(Seq::<usize>::empty()) == 0);
    } else {
        assert(widths.push(w)[0] == widths[0]);
        assert(widths.push(w).drop_first() =~= widths.drop_first().push(w));
        lemma_total_bits_push(widths.drop_first(), w);
        assert(total_bits(widths) == widths[0] + total_bits(widths.drop_first()));
    }
}

proof fn lemma_total_bits_prefix(widths: Seq<usize>, i: int)
    requires
        0 <= i <= widths.len(),
    ensures
        total_bits(widths.take(i)) <= total_bits(widths),
    decreases widths.len() - i,
{
    if i == widths.len() {
        assert(widths.take(i) =~= widths);
    } else {
        lemma_total_bits_take_step(widths, i);
        lemma_total_bits_prefix(widths, i + 1);
    }
}

proof fn lemma_total_bits_take_step(widths: Seq<usize>, i: int)
    requires
        0 <= i < widths.len(),
    ensures
        total_bits(widths.take(i)) <= total_bits(widths.take(i + 1)),
{
    lemma_total_bits_push(widths.take(i), widths[i]);
    assert(widths.take(i + 1) =~= widths.take(i).push(widths[i]));
}

/// Computes the side-table layout for one configuration: one spec per
/// requested width, chained so that each bit range starts exactly where the
/// previous one ends.  Run once at collector initialization; a stale chain
/// would silently alias metadata.
pub fn chain_side_specs(widths: &Vec<usize>) -> (specs: Vec<SideMetadataSpec>)
    requires
        forall|i: int| 0 <= i < widths@.len() ==> 1 <= #[trigger] widths@[i],
        total_bits(widths@) <= usize::MAX,
    ensures
        chained(specs@, widths@),
{
    let mut specs: Vec<SideMetadataSpec> = Vec::new();
    let mut next_bit: usize = 0;
    let mut k: usize = 0;
    while k < widths.len()
        invariant
            k <= widths@.len(),
            specs@.len() == k,
            forall|i: int| 0 <= i < widths@.len() ==> 1 <= #[trigger] widths@[i],
            total_bits(widths@) <= usize::MAX,
            next_bit == total_bits(widths@.take(k as int)),
            chained(specs@, widths@.take(k as int)),
            k > 0 ==> specs@[k - 1].end() == next_bit,
        decreases widths@.len() - k,
    {
        proof {
            lemma_total_bits_take(widths@, k as int);
        }
        let w = widths[k];
        let ghost specs_pre = specs@;
        specs.push(SideMetadataSpec { bit_offset: next_bit, num_bits: w });
        next_bit = next_bit + w;
        proof {
            assert(widths@.take(k + 1) =~= widths@.take(k as int).push(w));
            assert(specs@ == specs_pre.push(SideMetadataSpec { bit_offset: (next_bit - w) as usize, num_bits: w }));
            assert forall|i: int| 0 < i < specs@.len() implies (#[trigger] specs@[i]).bit_offset
                == specs@[i - 1].end() by {
                if i < k {
                    assert(specs@[i] == specs_pre[i]);
                    assert(specs@[i - 1] == specs_pre[i - 1]);
                    assert(specs_pre[i].bit_offset == specs_pre[i - 1].end());
                }
            }
            assert(chained(specs@, widths@.take(k + 1)));
        }
        k = k + 1;
    }
    proof {
        assert(widths@.take(widths@.len() as int) =~= widths@);
    }
    specs
}

/// In a chain, bit offsets grow monotonically with the index.
proof fn lemma_chain_monotone(specs: Seq<SideMetadataSpec>, widths: Seq<usize>, i: int, j: int)
    requires
        chained(specs, widths),
        forall|k: int| 0 <= k < widths.len() ==> 1 <= #[trigger] widths[k],
        0 <= i < j < specs.len(),
    ensures
        specs[i].end() <= specs[j].bit_offset,
    decreases j - i,
{
    if j == i + 1 {
    } else {
        lemma_chain_monotone(specs, widths, i, j - 1);
        assert(specs[j].bit_offset == specs[j - 1].end());
    }
}

/// No two specs of a side-table chain claim overlapping bit ranges: the load
/// bearing invariant of the side-table layout.
pub proof fn lemma_chained_specs_disjoint(specs: Seq<SideMetadataSpec>, widths: Seq<usize>)
    requires
        chained(specs, widths),
        forall|k: int| 0 <= k < widths.len() ==> 1 <= #[trigger] widths[k],
    ensures
        forall|i: int, j: int|
            0 <= i < j < specs.len() ==> (#[trigger] specs[i]).end() <= (
            #[trigger] specs[j]).bit_offset,
{
    assert forall|i: int, j: int|
        0 <= i < j < specs.len() implies (#[trigger] specs[i]).end() <= (
    #[trigger] specs[j]).bit_offset by {
        lemma_chain_monotone(specs, widths, i, j);
    }
}

} // verus!
