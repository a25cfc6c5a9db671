//! Room ids: short codes that people read out and type in.

use vstd::prelude::*;
use vstd::string::{StrSliceExecFns, StringExecFns};

verus! {

/// The length of the ids that the server hands out.
pub const ROOM_ID_LEN: usize = 5;

/// The 32 symbols of a room id. `I`, `O`, `0` and `1` are left out: they are
/// too easily taken for one another.
pub open spec fn alphabet() -> Seq<char> {
    "ABCDEFGHJKLMNPQRSTUVWXYZ23456789"@
}

pub open spec fn is_room_symbol(c: char) -> bool {
    alphabet().contains(c)
}

/// A text of `ROOM_ID_LEN` symbols of the alphabet.
pub open spec fn is_room_id(id: Seq<char>) -> bool {
    &&& id.len() == ROOM_ID_LEN
    &&& forall|i: int| 0 <= i < id.len() ==> is_room_symbol(#[trigger] id[i])
}

/// The place in the alphabet that a 32-bit sample selects: its top five bits.
pub open spec fn symbol_index(sample: u32) -> int {
    (sample >> 27) as int
}

/// The id that a list of samples spells, one symbol for each sample.
pub open spec fn room_id_of(samples: Seq<u32>) -> Seq<char> {
    Seq::new(samples.len(), |i: int| alphabet()[symbol_index(samples[i])])
}

/// Every sample selects a symbol of the alphabet.
pub proof fn lemma_sample_selects_symbol(sample: u32)
    ensures
        0 <= symbol_index(sample) < 32,
        alphabet().len() == 32,
        is_room_symbol(alphabet()[symbol_index(sample)]),
{
    reveal_strlit("ABCDEFGHJKLMNPQRSTUVWXYZ23456789");
    assert(sample >> 27 < 32) by (bit_vector);
}

/// Whatever the samples, what they spell has their number of symbols, all
/// of the alphabet.
pub proof fn lemma_room_id_of_is_well_formed(samples: Seq<u32>)
    ensures
        room_id_of(samples).len() == samples.len(),
        forall|i: int|
            0 <= i < samples.len() ==> is_room_symbol(#[trigger] room_id_of(samples)[i]),
        samples.len() == ROOM_ID_LEN ==> is_room_id(room_id_of(samples)),
{
    assert forall|i: int| 0 <= i < samples.len() implies is_room_symbol(
        #[trigger] room_id_of(samples)[i],
    ) by {
        lemma_sample_selects_symbol(samples[i]);
    }
}

/// The symbol that `sample` selects, as a text of one character.
pub fn room_symbol(sample: u32) -> (symbol: &'static str)
    ensures
        symbol@ == seq![alphabet()[symbol_index(sample)]],
{
    let index = (sample >> 27) as usize;
    proof {
        lemma_sample_selects_symbol(sample);
        reveal_strlit("ABCDEFGHJKLMNPQRSTUVWXYZ23456789");
    }
    let symbol = "ABCDEFGHJKLMNPQRSTUVWXYZ23456789".substring_ascii(index, index + 1);
    assert(symbol@ =~= seq![alphabet()[symbol_index(sample)]]);
    symbol
}

/// The id that `samples` spell.
pub fn room_id_from_samples(samples: &Vec<u32>) -> (id: String)
    ensures
        id@ == room_id_of(samples@),
{
    let mut id = String::new();
    let mut i: usize = 0;
    while i < samples.len()
        invariant
            i <= samples.len(),
            id@ == room_id_of(samples@.take(i as int)),
        decreases samples.len() - i,
    {
        let ghost spelled = id@;
        id.append(room_symbol(samples[i]));
        assert(id@ =~= room_id_of(samples@.take(i + 1)));
        i += 1;
    }
    assert(samples@.take(samples@.len() as int) =~= samples@);
    id
}

/// `RngCore::next_u32` of the crate `rand`, on the generator that
/// `thread_rng` keeps for the calling thread. Nothing is claimed of the
/// number drawn.
#[verifier::external_body]
fn next_sample() -> u32 {
    rand::RngCore::next_u32(&mut rand::thread_rng())
}

/// A random id of `len` symbols.
pub fn generate_room_id(len: usize) -> (id: String)
    ensures
        id@.len() == len,
        forall|i: int| 0 <= i < id@.len() ==> is_room_symbol(#[trigger] id@[i]),
        len == ROOM_ID_LEN ==> is_room_id(id@),
{
    let mut samples: Vec<u32> = Vec::new();
    let mut i: usize = 0;
    while i < len
        invariant
            i <= len,
            samples@.len() == i,
        decreases len - i,
    {
        samples.push(next_sample());
        i += 1;
    }
    proof {
        lemma_room_id_of_is_well_formed(samples@);
    }
    room_id_from_samples(&samples)
}

} // verus!
