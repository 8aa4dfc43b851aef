//! Record addresses: 32-byte keys, and their derivation from public seeds.

use anchor_lang::prelude::Pubkey;
use vstd::prelude::*;
use vstd::string::StringSliceAdditionalSpecFns;

verus! {

/// A 32-byte account address.
#[derive(Clone, Copy, Debug, PartialEq, Eq, Hash, Default)]
pub struct Address {
    pub bytes: [u8; 32],
}

impl View for Address {
    type V = Seq<u8>;

    open spec fn view(&self) -> Seq<u8> {
        self.bytes@
    }
}

impl Address {
    /// The address made of the given bytes.
    pub fn new(bytes: [u8; 32]) -> (a: Address)
        ensures
            a@ == bytes@,
            a.bytes == bytes,
    {
        Address { bytes }
    }

    /// Whether two addresses hold the same bytes.
    pub fn same_as(&self, other: &Address) -> (r: bool)
        ensures
            r == (self@ == other@),
    {
        let mut i: usize = 0;
        while i < 32
            invariant
                i <= 32,
                forall|j: int| 0 <= j < i ==> self.bytes@[j] == other.bytes@[j],
            decreases 32 - i,
        {
            if self.bytes[i] != other.bytes[i] {
                return false;
            }
            i += 1;
        }
        assert(self.bytes@ =~= other.bytes@);
        true
    }
}

/// What `try_find_program_address` yields for the given seeds and program:
/// the derived address with its bump seed, or `None` where no address can be
/// derived.
pub uninterp spec fn program_address(seeds: Seq<Seq<u8>>, program: Seq<u8>) -> Option<
    (Seq<u8>, u8),
>;

/// The byte strings that a list of seed slices holds.
pub open spec fn seed_bytes(seeds: Seq<&[u8]>) -> Seq<Seq<u8>> {
    Seq::new(seeds.len(), |i: int| seeds[i]@)
}

/// A derived address and bump, as plain values.
pub open spec fn derived_view(d: Option<(Address, u8)>) -> Option<(Seq<u8>, u8)> {
    match d {
        Some((a, b)) => Some((a@, b)),
        None => None,
    }
}

/// Whether the derivation refuses the seeds outright: sixteen seeds or more,
/// or a seed longer than 32 bytes.
pub open spec fn seeds_refused(seeds: Seq<Seq<u8>>) -> bool {
    seeds.len() >= 16 || exists|i: int| 0 <= i < seeds.len() && #[trigger] seeds[i].len() > 32
}

/// Calls `Pubkey::try_find_program_address` of the Solana address library.
/// Trusted: the result is a function of the seeds and the program id alone,
/// named `program_address`; and it is `None` where there are sixteen seeds or
/// more or where a seed is longer than 32 bytes.
#[verifier::external_body]
pub(crate) fn find_program_address(seeds: &Vec<&[u8]>, program: &Address) -> (r: Option<
    (Address, u8),
>)
    ensures
        derived_view(r) == program_address(seed_bytes(seeds@), program@),
        seeds_refused(seed_bytes(seeds@)) ==> r is None,
{
    let id = Pubkey::new_from_array(program.bytes);
    match Pubkey::try_find_program_address(seeds.as_slice(), &id) {
        Some((key, bump)) => Some((Address { bytes: key.to_bytes() }, bump)),
        None => None,
    }
}

/// The bytes of the tag that opens the seeds of a challenge record.
pub open spec fn challenge_tag() -> Seq<u8> {
    "challenge".spec_bytes()
}

/// The bytes of the tag that opens the seeds of a stake record.
pub open spec fn player_tag() -> Seq<u8> {
    "player".spec_bytes()
}

/// The seeds of the challenge record with the given name.
pub open spec fn challenge_seeds(name: Seq<char>) -> Seq<Seq<u8>> {
    seq![challenge_tag(), vstd::utf8::encode_utf8(name)]
}

/// The seeds of the stake record of `player` in the challenge `name`.
pub open spec fn player_seeds(player: Seq<u8>, name: Seq<char>) -> Seq<Seq<u8>> {
    seq![player_tag(), player, vstd::utf8::encode_utf8(name)]
}

/// Where the record of the challenge `name` lives under `program`.
pub open spec fn challenge_address_of(program: Seq<u8>, name: Seq<char>) -> Option<(Seq<u8>, u8)> {
    program_address(challenge_seeds(name), program)
}

/// Where the stake record of `player` in the challenge `name` lives.
pub open spec fn player_address_of(program: Seq<u8>, player: Seq<u8>, name: Seq<char>) -> Option<
    (Seq<u8>, u8),
> {
    program_address(player_seeds(player, name), program)
}

/// Derives the address of the challenge record named `name`.
pub fn challenge_address(program: &Address, name: &str) -> (r: Option<(Address, u8)>)
    ensures
        derived_view(r) == challenge_address_of(program@, name@),
        vstd::utf8::encode_utf8(name@).len() > 32 ==> r is None,
{
    let mut seeds: Vec<&[u8]> = Vec::new();
    seeds.push("challenge".as_bytes());
    seeds.push(name.as_bytes());
    assert(seed_bytes(seeds@) =~= challenge_seeds(name@));
    let r = find_program_address(&seeds, program);
    proof {
        if name.spec_bytes().len() > 32 {
            assert(seed_bytes(seeds@)[1].len() > 32);
        }
    }
    r
}

/// Derives the address of the stake record of `player` in the challenge
/// named `name`.
pub fn player_address(program: &Address, player: &Address, name: &str) -> (r: Option<(Address, u8)>)
    ensures
        derived_view(r) == player_address_of(program@, player@, name@),
        vstd::utf8::encode_utf8(name@).len() > 32 ==> r is None,
{
    let mut seeds: Vec<&[u8]> = Vec::new();
    seeds.push("player".as_bytes());
    seeds.push(player.bytes.as_slice());
    seeds.push(name.as_bytes());
    assert(seed_bytes(seeds@) =~= player_seeds(player@, name@));
    let r = find_program_address(&seeds, program);
    proof {
        if name.spec_bytes().len() > 32 {
            assert(seed_bytes(seeds@)[2].len() > 32);
        }
    }
    r
}

} // verus!
