//! Account addresses.
use vstd::prelude::*;

verus! {

/// The 32 bytes of an account address.
#[derive(Clone, Copy, Debug, PartialEq, Eq, Hash)]
pub struct Pubkey {
    pub bytes: [u8; 32],
}

impl View for Pubkey {
    type V = Seq<u8>;

    open spec fn view(&self) -> Seq<u8> {
        self.bytes@
    }
}

/// The address of 32 zero bytes, which stands for no account.
pub open spec fn null_key() -> Seq<u8> {
    Seq::new(32, |i: int| 0u8)
}

impl Default for Pubkey {
    fn default() -> (r: Pubkey)
        ensures
            r@ == null_key(),
    {
        let r = Pubkey { bytes: [0u8; 32] };
        assert(r@ =~= null_key());
        r
    }
}

impl Pubkey {
    /// Whether two addresses are the same.
    pub fn same(&self, other: &Pubkey) -> (r: bool)
        ensures
            r == (self@ == other@),
    {
        let mut i: usize = 0;
        while i < 32
            invariant
                i <= 32,
                forall|j: int| 0 <= j < i ==> self.bytes@[j] == other.bytes@[j],
            decreases 32 - i,
        {
            if self.bytes[i] != other.bytes[i] {
                return false;
            }
            i = i + 1;
        }
        assert(self@ =~= other@);
        true
    }

    /// Whether the address stands for no account.
    pub fn is_null(&self) -> (r: bool)
        ensures
            r == (self@ == null_key()),
    {
        self.same(&Pubkey::default())
    }

    /// Reads an address from base58 text.
    pub fn from_base58(text: &str) -> (r: Option<Pubkey>)
        ensures
            r is Some <==> base58_key(text@) is Some,
            r is Some ==> r->Some_0@ == base58_key(text@)->Some_0,
    {
        parse_base58(text)
    }

    /// Writes the address as base58 text, which [`Pubkey::from_base58`] reads back.
    pub fn to_base58(&self) -> (r: String)
        ensures
            r@ == base58_text(self@),
            base58_key(r@) == Some(self@),
    {
        print_base58(self)
    }
}

/// The address that a base58 text spells, where it spells one.
pub uninterp spec fn base58_key(text: Seq<char>) -> Option<Seq<u8>>;

/// `solana_sdk::pubkey::Pubkey::from_str`: the address that the text spells, or an error,
/// which says no more than that it spells none.
#[verifier::external_body]
fn parse_base58(text: &str) -> (r: Option<Pubkey>)
    ensures
        r is Some <==> base58_key(text@) is Some,
        r is Some ==> r->Some_0@ == base58_key(text@)->Some_0,
{
    match <solana_sdk::pubkey::Pubkey as std::str::FromStr>::from_str(text) {
        Ok(key) => Some(Pubkey { bytes: key.to_bytes() }),
        Err(_) => None,
    }
}

/// The base58 text of an address.
pub uninterp spec fn base58_text(key: Seq<u8>) -> Seq<char>;

/// `to_string` of a `solana_sdk::pubkey::Pubkey`: the base58 text of the bytes, which spells
/// them to `from_str`.
#[verifier::external_body]
fn print_base58(key: &Pubkey) -> (r: String)
    ensures
        r@ == base58_text(key@),
        base58_key(r@) == Some(key@),
{
    solana_sdk::pubkey::Pubkey::new_from_array(key.bytes).to_string()
}

/// The address that a program derives from seeds, with the bump seed that takes it off the
/// curve, where a bump seed does so.
pub uninterp spec fn program_address(seeds: Seq<Seq<u8>>, program_id: Seq<u8>) -> Option<
    (Seq<u8>, u8),
>;

/// `solana_sdk::pubkey::Pubkey::try_find_program_address` of three seeds: the derived address
/// and its bump seed, or nothing where there is none.
#[verifier::external_body]
pub(crate) fn find_program_address(
    first: &[u8],
    second: &[u8],
    third: &[u8],
    program_id: &Pubkey,
) -> (r: Option<(Pubkey, u8)>)
    ensures
        r is Some <==> program_address(seq![first@, second@, third@], program_id@) is Some,
        r is Some ==> (r->Some_0.0@, r->Some_0.1) == program_address(
            seq![first@, second@, third@],
            program_id@,
        )->Some_0,
{
    let program = solana_sdk::pubkey::Pubkey::from(program_id.bytes);
    match solana_sdk::pubkey::Pubkey::try_find_program_address(&[first, second, third], &program) {
        Some((key, bump)) => Some((Pubkey { bytes: key.to_bytes() }, bump)),
        None => None,
    }
}

} // verus!
