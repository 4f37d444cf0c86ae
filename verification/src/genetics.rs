//! Trait state and genetics: the genome, the base stats it determines,
//! gene derivation for minting and breeding, and the range checks the
//! registry boundary applies.
//!
//! Gene symbols: 0 rot, 1 cap-affine, 2 stem-affine, 3 spore-affine,
//! 4 primordial. A primordial gene counts toward every category.

use vstd::prelude::*;

use crate::error::ContractError;

verus! {

/// The primordial gene symbol.
pub const PRIMORDIAL_GENE: u8 = 4;

/// An entity's full trait state: three volatile stats, the prestige
/// tier, the genome, and the base stats derived from the genome.
#[derive(Clone, Debug)]
pub struct TraitExtension {
    pub cap: i8,
    pub stem: i8,
    pub spores: i8,
    pub substrate: u8,
    pub genes: Vec<u8>,
    pub base_cap: u8,
    pub base_stem: u8,
    pub base_spores: u8,
}

/// How many genes of the genome equal `sym`.
pub open spec fn count_matching(genes: Seq<u8>, sym: u8) -> int
    decreases genes.len(),
{
    if genes.len() == 0 {
        0
    } else {
        count_matching(genes.drop_last(), sym) + if genes.last() == sym {
            1int
        } else {
            0int
        }
    }
}

/// How many genes feed one category: its own symbol plus primordial,
/// which counts for all three.
pub open spec fn category_count(genes: Seq<u8>, sym: u8) -> int {
    count_matching(genes, sym) + count_matching(genes, PRIMORDIAL_GENE)
}

/// The base-stat bonus a gene count earns.
pub open spec fn spec_stat_bonus(count: int) -> u8 {
    if count <= 2 {
        0
    } else if count <= 4 {
        1
    } else if count <= 6 {
        3
    } else if count == 7 {
        6
    } else {
        10
    }
}

pub proof fn lemma_count_matching_bounds(genes: Seq<u8>, sym: u8)
    ensures
        0 <= count_matching(genes, sym) <= genes.len(),
    decreases genes.len(),
{
    if genes.len() > 0 {
        lemma_count_matching_bounds(genes.drop_last(), sym);
    }
}

impl TraitExtension {
    /// The base-stat bonus earned by `count` genes of one category.
    pub fn calc_stat_bonus(count: u8) -> (r: u8)
        ensures
            r == spec_stat_bonus(count as int),
    {
        if count <= 2 {
            0
        } else if count <= 4 {
            1
        } else if count <= 6 {
            3
        } else if count == 7 {
            6
        } else {
            10
        }
    }

    /// Recomputes the three base stats from the genome, leaving every
    /// other field alone. Called whenever the genome changes.
    pub fn recalculate_base_stats(&mut self)
        ensures
            final(self).base_cap == spec_stat_bonus(category_count(old(self).genes@, 1)),
            final(self).base_stem == spec_stat_bonus(category_count(old(self).genes@, 2)),
            final(self).base_spores == spec_stat_bonus(category_count(old(self).genes@, 3)),
            final(self).cap == old(self).cap,
            final(self).stem == old(self).stem,
            final(self).spores == old(self).spores,
            final(self).substrate == old(self).substrate,
            final(self).genes@ == old(self).genes@,
    {
        let n = self.genes.len();
        let mut cap_genes: usize = 0;
        let mut stem_genes: usize = 0;
        let mut spores_genes: usize = 0;
        let mut primordial_genes: usize = 0;
        let mut i: usize = 0;
        while i < n
            invariant
                i <= n,
                n == self.genes@.len(),
                cap_genes == count_matching(self.genes@.subrange(0, i as int), 1),
                stem_genes == count_matching(self.genes@.subrange(0, i as int), 2),
                spores_genes == count_matching(self.genes@.subrange(0, i as int), 3),
                primordial_genes == count_matching(
                    self.genes@.subrange(0, i as int),
                    PRIMORDIAL_GENE,
                ),
                cap_genes + stem_genes + spores_genes + primordial_genes <= i,
            decreases n - i,
        {
            let g = self.genes[i];
            proof {
                lemma_count_matching_bounds(self.genes@.subrange(0, i as int), 1);
                lemma_count_matching_bounds(self.genes@.subrange(0, i as int), 2);
                lemma_count_matching_bounds(self.genes@.subrange(0, i as int), 3);
                lemma_count_matching_bounds(self.genes@.subrange(0, i as int), PRIMORDIAL_GENE);
                assert(self.genes@.subrange(0, i + 1).drop_last() =~= self.genes@.subrange(
                    0,
                    i as int,
                ));
                assert(self.genes@.subrange(0, i + 1).last() == g);
            }
            if g == 1 {
                cap_genes = cap_genes + 1;
            } else if g == 2 {
                stem_genes = stem_genes + 1;
            } else if g == 3 {
                spores_genes = spores_genes + 1;
            } else if g == PRIMORDIAL_GENE {
                primordial_genes = primordial_genes + 1;
            }
            i = i + 1;
        }
        proof {
            assert(self.genes@.subrange(0, n as int) =~= self.genes@);
        }
        self.base_cap = Self::bonus_of_count(cap_genes, primordial_genes);
        self.base_stem = Self::bonus_of_count(stem_genes, primordial_genes);
        self.base_spores = Self::bonus_of_count(spores_genes, primordial_genes);
    }

    /// The bonus for a category whose own count and primordial count
    /// are given separately.
    fn bonus_of_count(own: usize, primordial: usize) -> (r: u8)
        requires
            own + primordial <= usize::MAX,
        ensures
            r == spec_stat_bonus(own + primordial),
    {
        let total = own + primordial;
        if total <= 2 {
            0
        } else if total <= 4 {
            1
        } else if total <= 6 {
            3
        } else if total == 7 {
            6
        } else {
            10
        }
    }
}

impl Default for TraitExtension {
    /// A blank specimen: all stats zero and an empty genome.
    fn default() -> (r: TraitExtension)
        ensures
            r.cap == 0 && r.stem == 0 && r.spores == 0 && r.substrate == 0,
            r.genes@ == Seq::<u8>::empty(),
            r.base_cap == 0 && r.base_stem == 0 && r.base_spores == 0,
    {
        TraitExtension {
            cap: 0,
            stem: 0,
            spores: 0,
            substrate: 0,
            genes: Vec::new(),
            base_cap: 0,
            base_stem: 0,
            base_spores: 0,
        }
    }
}

/// How many primordial genes a genome holds; three or more grant the
/// genetic-stability protection against failed spins.
pub fn count_primordial(genes: &Vec<u8>) -> (r: usize)
    ensures
        r == count_matching(genes@, PRIMORDIAL_GENE),
{
    let n = genes.len();
    let mut count: usize = 0;
    let mut i: usize = 0;
    while i < n
        invariant
            i <= n,
            n == genes@.len(),
            count == count_matching(genes@.subrange(0, i as int), PRIMORDIAL_GENE),
        decreases n - i,
    {
        proof {
            lemma_count_matching_bounds(genes@.subrange(0, i as int), PRIMORDIAL_GENE);
            assert(genes@.subrange(0, i + 1).drop_last() =~= genes@.subrange(0, i as int));
        }
        if genes[i] == PRIMORDIAL_GENE {
            count = count + 1;
        }
        i = i + 1;
    }
    proof {
        assert(genes@.subrange(0, n as int) =~= genes@);
    }
    count
}

/// Copies a genome.
pub fn clone_genes(genes: &Vec<u8>) -> (r: Vec<u8>)
    ensures
        r@ == genes@,
{
    let n = genes.len();
    let mut out: Vec<u8> = Vec::new();
    let mut i: usize = 0;
    while i < n
        invariant
            i <= n,
            n == genes@.len(),
            out@ == genes@.subrange(0, i as int),
        decreases n - i,
    {
        out.push(genes[i]);
        proof {
            assert(out@ =~= genes@.subrange(0, i + 1));
        }
        i = i + 1;
    }
    proof {
        assert(genes@.subrange(0, n as int) =~= genes@);
    }
    out
}

/// The ranges the registry boundary accepts: volatile stats within
/// [-3, 3] and substrate at most 4.
pub open spec fn spec_traits_valid(t: TraitExtension) -> bool {
    -3 <= t.cap <= 3 && -3 <= t.stem <= 3 && -3 <= t.spores <= 3 && t.substrate <= 4
}

/// Checks a trait update against the registry boundary's ranges,
/// naming the first field out of range. The registry's cap of 4 is
/// its own: the engine itself lets a splice child reach tier 5, which
/// this check would refuse to write back.
pub fn validate_traits(traits: &TraitExtension) -> (r: Result<(), ContractError>)
    ensures
        r is Ok <==> spec_traits_valid(*traits),
        (traits.cap < -3 || traits.cap > 3) ==> (r matches Err(
            ContractError::InvalidTrait { trait_name },
        ) && trait_name@ == "cap"@),
        (-3 <= traits.cap <= 3 && (traits.stem < -3 || traits.stem > 3)) ==> (r matches Err(
            ContractError::InvalidTrait { trait_name },
        ) && trait_name@ == "stem"@),
        (-3 <= traits.cap <= 3 && -3 <= traits.stem <= 3 && (traits.spores < -3 || traits.spores
            > 3)) ==> (r matches Err(ContractError::InvalidTrait { trait_name }) && trait_name@
            == "spores"@),
        (-3 <= traits.cap <= 3 && -3 <= traits.stem <= 3 && -3 <= traits.spores <= 3
            && traits.substrate > 4) ==> (r matches Err(ContractError::InvalidTrait { trait_name })
            && trait_name@ == "substrate"@),
{
    if traits.cap < -3 || traits.cap > 3 {
        Err(ContractError::InvalidTrait { trait_name: String::from_str("cap") })
    } else if traits.stem < -3 || traits.stem > 3 {
        Err(ContractError::InvalidTrait { trait_name: String::from_str("stem") })
    } else if traits.spores < -3 || traits.spores > 3 {
        Err(ContractError::InvalidTrait { trait_name: String::from_str("spores") })
    } else if traits.substrate > 4 {
        Err(ContractError::InvalidTrait { trait_name: String::from_str("substrate") })
    } else {
        Ok(())
    }
}

/// The gene minted from one digest byte: the rare primordial symbol is
/// excluded at mint time.
pub open spec fn spec_mint_gene(b: u8) -> u8 {
    (b % 4) as u8
}

/// Derives a fresh 8-gene genome from a digest, one gene per byte.
pub fn genes_from_digest(digest: &Vec<u8>) -> (r: Vec<u8>)
    requires
        digest@.len() >= 8,
    ensures
        r@.len() == 8,
        forall|i: int| 0 <= i < 8 ==> r@[i] == spec_mint_gene(digest@[i]),
{
    let mut genes: Vec<u8> = Vec::new();
    let mut i: usize = 0;
    while i < 8
        invariant
            i <= 8,
            digest@.len() >= 8,
            genes@.len() == i,
            forall|j: int| 0 <= j < i ==> genes@[j] == spec_mint_gene(digest@[j]),
        decreases 8 - i,
    {
        genes.push(digest[i] % 4);
        i = i + 1;
    }
    genes
}

/// The gene of a genome at a slot, or rot where the genome is shorter.
pub open spec fn gene_or_rot(genes: Seq<u8>, i: int) -> u8 {
    if 0 <= i < genes.len() {
        genes[i]
    } else {
        0
    }
}

/// One slot of a splice child's genome: a low digest byte mutates
/// (the rarest to primordial, the rest to rot), any other inherits
/// from the parent its parity picks.
pub open spec fn spec_child_gene(b: u8, g1: u8, g2: u8) -> u8 {
    if b < 13 {
        if b < 2 {
            PRIMORDIAL_GENE
        } else {
            0
        }
    } else if b % 2 == 0 {
        g1
    } else {
        g2
    }
}

/// Derives a splice child's 8-gene genome from the breeding digest and
/// the two parent genomes.
pub fn splice_child_genes(digest: &Vec<u8>, parent_1: &Vec<u8>, parent_2: &Vec<u8>) -> (r: Vec<u8>)
    requires
        digest@.len() >= 8,
    ensures
        r@.len() == 8,
        forall|i: int|
            0 <= i < 8 ==> r@[i] == spec_child_gene(
                digest@[i],
                gene_or_rot(parent_1@, i),
                gene_or_rot(parent_2@, i),
            ),
{
    let mut genes: Vec<u8> = Vec::new();
    let mut i: usize = 0;
    while i < 8
        invariant
            i <= 8,
            digest@.len() >= 8,
            genes@.len() == i,
            forall|j: int|
                0 <= j < i ==> genes@[j] == spec_child_gene(
                    digest@[j],
                    gene_or_rot(parent_1@, j),
                    gene_or_rot(parent_2@, j),
                ),
        decreases 8 - i,
    {
        let b = digest[i];
        let gene: u8 = if b < 13 {
            if b < 2 {
                PRIMORDIAL_GENE
            } else {
                0
            }
        } else if b % 2 == 0 {
            if i < parent_1.len() {
                parent_1[i]
            } else {
                0
            }
        } else {
            if i < parent_2.len() {
                parent_2[i]
            } else {
                0
            }
        };
        genes.push(gene);
        i = i + 1;
    }
    genes
}

/// A splice child's substrate tier: the floor of the parents' average,
/// plus one when both parents share an equal nonzero tier and the
/// synergy byte lands in the lowest fifth, capped at 5.
pub open spec fn spec_child_substrate(s1: u8, s2: u8, synergy_byte: u8) -> u8 {
    let avg = ((s1 + s2) / 2) as u8;
    let boosted: int = if s1 > 0 && s1 == s2 && synergy_byte < 51 {
        avg + 1
    } else {
        avg as int
    };
    if boosted > 5 {
        5
    } else {
        boosted as u8
    }
}

/// Computes a splice child's substrate tier.
pub fn child_substrate(s1: u8, s2: u8, synergy_byte: u8) -> (r: u8)
    ensures
        r == spec_child_substrate(s1, s2, synergy_byte),
{
    let avg: u16 = ((s1 as u16) + (s2 as u16)) / 2;
    let boosted: u16 = if s1 > 0 && s1 == s2 && synergy_byte < 51 {
        avg + 1
    } else {
        avg
    };
    if boosted > 5 {
        5
    } else {
        boosted as u8
    }
}

} // verus!
