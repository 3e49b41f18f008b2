use vstd::array::{spec_array_fill_for_copy_type, spec_array_update};
use vstd::prelude::*;

verus! {

broadcast use vstd::array::group_array_axioms;

/// One byte of a child's genome: each bit comes from `dna1` where the
/// selector's bit is set and from `dna2` where it is clear.
pub open spec fn spec_combine_dna(dna1: u8, dna2: u8, selector: u8) -> u8 {
    (selector & dna1) | (!selector & dna2)
}

/// Blends one byte of two genomes under a selector mask.
pub fn combine_dna(dna1: u8, dna2: u8, selector: u8) -> (r: u8)
    ensures
        r == spec_combine_dna(dna1, dna2, selector),
{
    (selector & dna1) | (!selector & dna2)
}

/// The genome whose first `n` bytes are those of `s`, the others zero.
pub open spec fn genome_prefix(s: Seq<u8>, n: nat) -> [u8; 16]
    decreases n,
{
    if n == 0 {
        spec_array_fill_for_copy_type::<u8, 16>(0u8)
    } else {
        spec_array_update(genome_prefix(s, (n - 1) as nat), n - 1, s[n - 1])
    }
}

/// The genome that holds the sixteen bytes of `s`.
pub open spec fn genome(s: Seq<u8>) -> [u8; 16] {
    genome_prefix(s, 16)
}

proof fn lemma_genome_prefix(s: Seq<u8>, n: nat)
    requires
        n <= 16,
    ensures
        forall|i: int| 0 <= i < n ==> genome_prefix(s, n)@[i] == s[i],
    decreases n,
{
    if n > 0 {
        lemma_genome_prefix(s, (n - 1) as nat);
    }
}

/// A genome holds the bytes it was made of.
pub proof fn lemma_genome(s: Seq<u8>)
    requires
        s.len() == 16,
    ensures
        genome(s)@ == s,
{
    lemma_genome_prefix(s, 16);
    assert(genome(s)@ =~= s);
}

/// A genome is made of the bytes it holds.
pub proof fn lemma_genome_of_view(a: [u8; 16])
    ensures
        genome(a@) == a,
{
    lemma_genome(a@);
    assert(genome(a@) =~= a);
}

/// The genome of a child, byte by byte the blend of `matron` and `sire`
/// under `selector`.
pub open spec fn blend(matron: [u8; 16], sire: [u8; 16], selector: [u8; 16]) -> [u8; 16] {
    genome(Seq::new(16, |i: int| spec_combine_dna(matron@[i], sire@[i], selector@[i])))
}

/// Each byte of a blend is the blend of the bytes at its place.
pub proof fn lemma_blend(matron: [u8; 16], sire: [u8; 16], selector: [u8; 16])
    ensures
        forall|i: int|
            0 <= i < 16 ==> #[trigger] blend(matron, sire, selector)@[i] == spec_combine_dna(
                matron@[i],
                sire@[i],
                selector@[i],
            ),
{
    lemma_genome(Seq::new(16, |i: int| spec_combine_dna(matron@[i], sire@[i], selector@[i])));
}

/// Blends two genomes under a selector.
pub fn blend_dna(matron: &[u8; 16], sire: &[u8; 16], selector: &[u8; 16]) -> (dna: [u8; 16])
    ensures
        dna == blend(*matron, *sire, *selector),
{
    let mut dna = [0u8;16];
    let mut i: usize = 0;
    while i < 16
        invariant
            i <= 16,
            forall|j: int|
                0 <= j < i ==> dna@[j] == spec_combine_dna(matron@[j], sire@[j], selector@[j]),
        decreases 16 - i,
    {
        dna[i] = combine_dna(matron[i], sire[i], selector[i]);
        i += 1;
    }
    proof {
        lemma_blend(*matron, *sire, *selector);
        assert(dna =~= blend(*matron, *sire, *selector));
    }
    dna
}

} // verus!
