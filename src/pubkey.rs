//! Account identities and program-derived addressing.

use vstd::prelude::*;

verus! {

/// A 32-byte account identity.
#[derive(Clone, Copy, Debug)]
pub struct Pubkey {
    pub bytes: [u8; 32],
}

impl View for Pubkey {
    type V = Seq<u8>;

    open spec fn view(&self) -> Seq<u8> {
        self.bytes@
    }
}

impl Pubkey {
    pub fn new(bytes: [u8; 32]) -> (r: Pubkey)
        ensures
            r@ == bytes@,
    {
        Pubkey { bytes }
    }

    /// Byte-wise comparison of two identities.
    pub fn same(&self, other: &Pubkey) -> (r: bool)
        ensures
            r == (self@ == other@),
    {
        let mut i: usize = 0;
        while i < 32
            invariant
                0 <= i <= 32,
                forall|j: int| 0 <= j < i ==> self@[j] == other@[j],
            decreases 32 - i,
        {
            if self.bytes[i] != other.bytes[i] {
                return false;
            }
            i = i + 1;
        }
        assert(self@ =~= other@);
        true
    }
}

impl PartialEq for Pubkey {
    fn eq(&self, other: &Pubkey) -> (r: bool) {
        self.same(other)
    }
}

impl vstd::std_specs::cmp::PartialEqSpecImpl for Pubkey {
    open spec fn obeys_eq_spec() -> bool {
        true
    }

    open spec fn eq_spec(&self, other: &Pubkey) -> bool {
        self@ == other@
    }
}

impl Eq for Pubkey {

}

/// The program-derived address of `seeds` under `program_id`, with its bump
/// seed: the first bump, counting down from 255, whose derived hash lies off
/// the ed25519 curve; `None` where no bump qualifies or the seeds are too many
/// or too long.
pub uninterp spec fn program_address(seeds: Seq<Seq<u8>>, program_id: Seq<u8>) -> Option<(Seq<u8>, u8)>;

/// Relies on `Pubkey::try_find_program_address` of solana-program (re-exported by
/// anchor-lang): a deterministic search that depends on the seeds and the
/// program id alone.
#[verifier::external_body]
pub(crate) fn find_program_address(seeds: &Vec<Vec<u8>>, program_id: &Pubkey) -> (r: Option<(Pubkey, u8)>)
    ensures
        match r {
            Some((k, bump)) => program_address(seeds@.map_values(|s: Vec<u8>| s@), program_id@) == Some((k@, bump)),
            None => program_address(seeds@.map_values(|s: Vec<u8>| s@), program_id@) is None,
        },
{
    let slices: Vec<&[u8]> = seeds.iter().map(|s| s.as_slice()).collect();
    let id = anchor_lang::prelude::Pubkey::new_from_array(program_id.bytes);
    anchor_lang::prelude::Pubkey::try_find_program_address(&slices, &id).map(
        |(k, bump)| (Pubkey { bytes: k.to_bytes() }, bump),
    )
}

} // verus!
