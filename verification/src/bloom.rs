//! Bloom digests: a set of hashes kept as bits, which may take a hash for a
//! member that is none but never misses one that is.

use vstd::prelude::*;

verus! {

/// The hash from which probe `i` of the hash `h` is placed.
pub open spec fn probe_mix(h: u64, i: u32) -> u64 {
    (h & 0xffff_ffff).wrapping_add((i as u64).wrapping_mul(h >> 32))
}

/// The word that probe `i` of `h` falls in, in a digest of `len` words.
pub open spec fn probe_word(h: u64, i: u32, len: nat) -> int {
    ((probe_mix(h, i) / 64) as int) % (len as int)
}

/// The bit of its word that probe `i` of `h` falls on.
pub open spec fn probe_bit(h: u64, i: u32) -> u64 {
    probe_mix(h, i) % 64
}

/// Whether bit `bit` of `word` is set.
pub open spec fn bit_is_set(word: u64, bit: u64) -> bool {
    word & (1u64 << bit) != 0
}

/// Whether one of the first `upto` probes of `h` falls on bit `bit` of word
/// `word`.
pub open spec fn probes_hit(h: u64, upto: u32, len: nat, word: int, bit: u64) -> bool {
    exists|j: u32| j < upto && probe_word(h, j, len) == word && #[trigger] probe_bit(h, j) == bit
}

/// A bloom digest: `probes` bits are set for each hash that was put in.
#[derive(Clone, Debug, PartialEq, Eq)]
pub struct BloomDigest {
    /// The bits, sixty-four to a word.
    pub words: Vec<u64>,
    /// How many bits stand for one hash.
    pub probes: u32,
}

impl BloomDigest {
    /// Whether every bit that stands for `h` is set. A digest without words
    /// holds no evidence, and so may contain anything.
    pub open spec fn may_contain_spec(&self, h: u64) -> bool {
        self.words@.len() == 0 || forall|j: u32|
            j < self.probes ==> bit_is_set(
                self.words@[probe_word(h, j, self.words@.len())],
                #[trigger] probe_bit(h, j),
            )
    }

    /// Every hash in `hashes` may be contained.
    pub open spec fn covers(&self, hashes: Set<u64>) -> bool {
        forall|h: u64| hashes.contains(h) ==> #[trigger] self.may_contain_spec(h)
    }

    /// A digest of `words` words with no bit set, with `probes` bits to a
    /// hash.
    pub fn new(words: usize, probes: u32) -> (r: BloomDigest)
        ensures
            r.probes == probes,
            r.words@.len() == words,
            forall|i: int| 0 <= i < words ==> r.words@[i] == 0,
    {
        let mut v: Vec<u64> = Vec::new();
        let mut i: usize = 0;
        while i < words
            invariant
                i <= words,
                v@.len() == i,
                forall|k: int| 0 <= k < i ==> v@[k] == 0,
            decreases words - i,
        {
            v.push(0);
            i += 1;
        }
        BloomDigest { words: v, probes }
    }

    /// Puts the hash `h` into the digest: sets the bits that stand for it
    /// and leaves every other bit as it was.
    pub fn insert(&mut self, h: u64)
        ensures
            final(self).probes == old(self).probes,
            final(self).words@.len() == old(self).words@.len(),
            forall|w: int, b: u64|
                0 <= w < old(self).words@.len() && b < 64 ==> (#[trigger] bit_is_set(
                    final(self).words@[w],
                    b,
                ) <==> bit_is_set(old(self).words@[w], b) || probes_hit(
                    h,
                    old(self).probes,
                    old(self).words@.len(),
                    w,
                    b,
                )),
            final(self).may_contain_spec(h),
            forall|g: u64| old(self).may_contain_spec(g) ==> final(self).may_contain_spec(g),
    {
        let len: usize = self.words.len();
        if len == 0 {
            return ;
        }
        let mut i: u32 = 0;
        while i < self.probes
            invariant
                i <= self.probes,
                self.probes == old(self).probes,
                self.words@.len() == len,
                len == old(self).words@.len(),
                len > 0,
                forall|w: int, b: u64|
                    0 <= w < len && b < 64 ==> (#[trigger] bit_is_set(self.words@[w], b)
                        <==> bit_is_set(old(self).words@[w], b) || probes_hit(
                        h,
                        i,
                        len as nat,
                        w,
                        b,
                    )),
            decreases self.probes - i,
        {
            let mix: u64 = (h & 0xffff_ffff).wrapping_add((i as u64).wrapping_mul(h >> 32));
            let word: usize = ((mix / 64) % (len as u64)) as usize;
            let bit: u64 = mix % 64;
            let before: u64 = self.words[word];
            let after: u64 = before | (1u64 << bit);
            let ghost prev = self.words@;
            self.words.set(word, after);
            proof {
                assert(word as int == probe_word(h, i, len as nat));
                assert(bit == probe_bit(h, i));
                assert forall|w: int, b: u64| 0 <= w < len && b < 64 implies (#[trigger] bit_is_set(
                    self.words@[w],
                    b,
                ) <==> bit_is_set(old(self).words@[w], b) || probes_hit(
                    h,
                    (i + 1) as u32,
                    len as nat,
                    w,
                    b,
                )) by {
                    assert(bit_is_set(prev[w], b) <==> bit_is_set(old(self).words@[w], b)
                        || probes_hit(h, i, len as nat, w, b));
                    if w == word as int {
                        lemma_set_bit(before, bit, b);
                    }
                    if probes_hit(h, i, len as nat, w, b) {
                        let j = choose|j: u32|
                            j < i && probe_word(h, j, len as nat) == w && #[trigger] probe_bit(
                                h,
                                j,
                            ) == b;
                        assert(j < i + 1 && probe_word(h, j, len as nat) == w && probe_bit(h, j)
                            == b);
                    }
                    if probes_hit(h, (i + 1) as u32, len as nat, w, b) {
                        let j = choose|j: u32|
                            j < i + 1 && probe_word(h, j, len as nat) == w && #[trigger] probe_bit(
                                h,
                                j,
                            ) == b;
                        if j < i {
                            assert(probes_hit(h, i, len as nat, w, b));
                        }
                    }
                    if w == word as int && b == bit {
                        assert(i < i + 1 && probe_word(h, i, len as nat) == w && probe_bit(h, i)
                            == b);
                    }
                }
            }
            i += 1;
        }
        proof {
            assert forall|j: u32| j < self.probes implies bit_is_set(
                self.words@[probe_word(h, j, self.words@.len())],
                #[trigger] probe_bit(h, j),
            ) by {
                let w = probe_word(h, j, len as nat);
                let b = probe_bit(h, j);
                assert(probes_hit(h, self.probes, len as nat, w, b));
                assert(bit_is_set(self.words@[w], b));
            }
            assert forall|g: u64| old(self).may_contain_spec(g) implies self.may_contain_spec(
                g,
            ) by {
                assert forall|j: u32| j < self.probes implies bit_is_set(
                    self.words@[probe_word(g, j, self.words@.len())],
                    #[trigger] probe_bit(g, j),
                ) by {
                    let w = probe_word(g, j, len as nat);
                    let b = probe_bit(g, j);
                    assert(bit_is_set(old(self).words@[w], b));
                    assert(bit_is_set(self.words@[w], b));
                }
            }
        }
    }

    /// Whether the hash `h` may have been put into the digest. `false` says
    /// that it was not.
    pub fn may_contain(&self, h: u64) -> (r: bool)
        ensures
            r == self.may_contain_spec(h),
    {
        let len: usize = self.words.len();
        if len == 0 {
            return true;
        }
        let mut i: u32 = 0;
        while i < self.probes
            invariant
                i <= self.probes,
                len == self.words@.len(),
                len > 0,
                forall|j: u32|
                    j < i ==> bit_is_set(
                        self.words@[probe_word(h, j, len as nat)],
                        #[trigger] probe_bit(h, j),
                    ),
            decreases self.probes - i,
        {
            let mix: u64 = (h & 0xffff_ffff).wrapping_add((i as u64).wrapping_mul(h >> 32));
            let word: usize = ((mix / 64) % (len as u64)) as usize;
            let bit: u64 = mix % 64;
            if self.words[word] & (1u64 << bit) == 0 {
                assert(!bit_is_set(
                    self.words@[probe_word(h, i, len as nat)],
                    probe_bit(h, i),
                ));
                return false;
            }
            i += 1;
        }
        true
    }
}

/// Setting bit `b` of a word sets that bit and changes no other.
proof fn lemma_set_bit(word: u64, b: u64, c: u64)
    requires
        b < 64,
        c < 64,
    ensures
        bit_is_set(word | (1u64 << b), c) <==> bit_is_set(word, c) || b == c,
{
    assert((word | (1u64 << b)) & (1u64 << c) != 0 <==> (word & (1u64 << c) != 0) || b == c)
        by (bit_vector)
        requires
            b < 64,
            c < 64,
    ;
}

/// A digest that had every hash of a set put into it covers the set: what
/// is in a digest stays in it, whatever is put in afterwards.
pub proof fn lemma_insert_keeps_cover(
    before: BloomDigest,
    after: BloomDigest,
    hashes: Set<u64>,
    h: u64,
)
    requires
        before.covers(hashes),
        after.may_contain_spec(h),
        forall|g: u64| before.may_contain_spec(g) ==> after.may_contain_spec(g),
    ensures
        after.covers(hashes.insert(h)),
{
}

} // verus!
