use vstd::prelude::*;

verus! {

/// The canonical text of the UUID made of sixteen bytes.
pub uninterp spec fn uuid_text_of(bytes: Seq<u8>) -> Seq<char>;

/// The sixteen bytes taken from a host seed: its first sixteen, padded with zeros.
pub open spec fn seed_block(seed: Seq<u8>) -> Seq<u8> {
    Seq::new(16, |i: int| if i < seed.len() { seed[i] } else { 0u8 })
}

/// The identifier issued for a host seed.
pub open spec fn issued_id(seed: Seq<u8>) -> Seq<char> {
    uuid_text_of(seed_block(seed))
}

/// Relies on uuid's `Builder::from_bytes` and the `Display` of `Uuid`: the
/// hyphenated lower-case form, 36 characters, a function of the bytes alone.
#[verifier::external_body]
fn uuid_text(bytes: [u8; 16]) -> (r: String)
    ensures
        r@ == uuid_text_of(bytes@),
        r@.len() == 36,
{
    uuid::Builder::from_bytes(bytes).into_uuid().to_string()
}

/// Issues an identifier from the random bytes the host supplies for a call.
pub fn issue_id(random_seed: &Vec<u8>) -> (r: String)
    ensures
        r@ == issued_id(random_seed@),
        r@.len() == 36,
{
    let mut block: [u8; 16] = [0u8; 16];
    let mut i: usize = 0;
    while i < 16 && i < random_seed.len()
        invariant
            i <= 16,
            i <= random_seed@.len(),
            block@.len() == 16,
            forall|j: int| 0 <= j < i ==> block@[j] == random_seed@[j],
            forall|j: int| i <= j < 16 ==> block@[j] == 0u8,
        decreases 16 - i,
    {
        block[i] = random_seed[i];
        i = i + 1;
    }
    assert forall|j: int| 0 <= j < 16 implies block@[j] == #[trigger] seed_block(random_seed@)[j] by {
        if j < random_seed@.len() {
            assert(j < i);
        }
    }
    assert(block@ =~= seed_block(random_seed@));
    uuid_text(block)
}

} // verus!
