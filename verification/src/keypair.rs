//! The key pair that signs, and the text of a wallet that holds it.
use vstd::prelude::*;

use crate::pubkey::Pubkey;
use crate::text::{chars_of, parse_unsigned, unsigned_value};

verus! {

/// A key pair: 32 secret bytes, then the 32 bytes of the public key.
#[derive(Clone, Copy, PartialEq, Eq)]
pub struct Keypair {
    pub bytes: [u8; 64],
}

impl Keypair {
    /// The address of the public key.
    pub fn pubkey(&self) -> (r: Pubkey)
        ensures
            r@ == self.bytes@.subrange(32, 64),
    {
        let mut bytes: [u8; 32] = [0u8; 32];
        let mut i: usize = 0;
        while i < 32
            invariant
                i <= 32,
                forall|j: int| 0 <= j < i ==> bytes@[j] == self.bytes@[32 + j],
            decreases 32 - i,
        {
            bytes[i] = self.bytes[32 + i];
            i = i + 1;
        }
        let key = Pubkey { bytes };
        assert(key@ =~= self.bytes@.subrange(32, 64));
        key
    }
}

/// Whether bytes are those of a key pair.
pub uninterp spec fn holds_keypair(bytes: Seq<u8>) -> bool;

/// `solana_sdk::signature::Keypair::from_bytes` and `to_bytes` of its result: accepts the bytes
/// of a key pair, of which there are 64, and keeps them; otherwise an error, which says no more
/// than that.
#[verifier::external_body]
fn keypair_from_bytes(bytes: &[u8]) -> (r: Option<Keypair>)
    ensures
        r is Some <==> holds_keypair(bytes@),
        r is Some ==> bytes@.len() == 64,
        r is Some ==> r->Some_0.bytes@ == bytes@,
{
    match solana_sdk::signature::Keypair::from_bytes(bytes) {
        Ok(keypair) => Some(Keypair { bytes: keypair.to_bytes() }),
        Err(_) => None,
    }
}

/// A character of a wallet's text without the brackets and with a space for a comma.
pub open spec fn wallet_char(c: char) -> Seq<char> {
    if c == '[' || c == ']' {
        seq![]
    } else if c == ',' {
        seq![' ']
    } else {
        seq![c]
    }
}

/// A wallet's text without the brackets and with spaces for commas.
pub open spec fn wallet_text(text: Seq<char>) -> Seq<char>
    decreases text.len(),
{
    if text.len() == 0 {
        seq![]
    } else {
        wallet_text(text.drop_last()) + wallet_char(text.last())
    }
}

/// The pieces of a text between spaces.
pub open spec fn pieces(text: Seq<char>) -> Seq<Seq<char>>
    decreases text.len(),
{
    if text.len() == 0 {
        seq![Seq::<char>::empty()]
    } else {
        let before = pieces(text.drop_last());
        if text.last() == ' ' {
            before.push(Seq::<char>::empty())
        } else {
            before.drop_last().push(before.last().push(text.last()))
        }
    }
}

/// Whether every piece spells a byte.
pub open spec fn all_bytes(pieces: Seq<Seq<char>>) -> bool {
    forall|i: int|
        0 <= i < pieces.len() ==> unsigned_value(#[trigger] pieces[i], u8::MAX as nat) is Some
}

/// The bytes that pieces spell.
pub open spec fn bytes_of(pieces: Seq<Seq<char>>) -> Seq<u8> {
    Seq::new(
        pieces.len(),
        |i: int| unsigned_value(pieces[i], u8::MAX as nat)->Some_0 as u8,
    )
}

/// The bytes that a wallet's text lists, where it lists nothing but bytes.
pub open spec fn wallet_bytes(text: Seq<char>) -> Option<Seq<u8>> {
    let parts = pieces(wallet_text(text));
    if all_bytes(parts) {
        Some(bytes_of(parts))
    } else {
        None
    }
}

proof fn lemma_wallet_text_joins(a: Seq<char>, b: Seq<char>)
    ensures
        wallet_text(a + b) == wallet_text(a) + wallet_text(b),
    decreases b.len(),
{
    if b.len() == 0 {
        assert(a + b =~= a);
        assert(wallet_text(a) + wallet_text(b) =~= wallet_text(a));
    } else {
        assert((a + b).drop_last() =~= a + b.drop_last());
        lemma_wallet_text_joins(a, b.drop_last());
        assert(wallet_text(a) + (wallet_text(b.drop_last()) + wallet_char(b.last())) =~= (
        wallet_text(a) + wallet_text(b.drop_last())) + wallet_char(b.last()));
    }
}

proof fn lemma_pieces_join(a: Seq<char>, b: Seq<char>)
    ensures
        pieces(b).len() > 0,
        pieces(a + seq![' '] + b) == pieces(a) + pieces(b),
    decreases b.len(),
{
    let joined = a + seq![' '] + b;
    if b.len() == 0 {
        assert(joined.drop_last() =~= a);
        assert(joined.last() == ' ');
        assert(pieces(joined) =~= pieces(a) + pieces(b));
    } else {
        assert(joined.drop_last() =~= a + seq![' '] + b.drop_last());
        assert(joined.last() == b.last());
        lemma_pieces_join(a, b.drop_last());
        let before = pieces(b.drop_last());
        assert((pieces(a) + before).last() == before.last());
        assert((pieces(a) + before).drop_last() =~= pieces(a) + before.drop_last());
        assert(pieces(joined) =~= pieces(a) + pieces(b));
    }
}

/// Texts with a comma or a space between them list the bytes of both, where both list bytes, and
/// nothing otherwise.
pub proof fn law_wallet_lists_are_joined(a: Seq<char>, b: Seq<char>, between: char)
    requires
        between == ',' || between == ' ',
    ensures
        ({
            let joined = wallet_bytes(a + seq![between] + b);
            &&& joined is Some <==> wallet_bytes(a) is Some && wallet_bytes(b) is Some
            &&& joined is Some ==> joined->Some_0 == wallet_bytes(a)->Some_0 + wallet_bytes(
                b,
            )->Some_0
        }),
{
    let mid = seq![between];
    lemma_wallet_text_joins(a + mid, b);
    lemma_wallet_text_joins(a, mid);
    assert(mid.drop_last() =~= Seq::<char>::empty());
    assert(wallet_text(Seq::<char>::empty()) =~= Seq::<char>::empty());
    assert(wallet_text(mid) =~= seq![' ']);
    let pa = pieces(wallet_text(a));
    let pb = pieces(wallet_text(b));
    lemma_pieces_join(wallet_text(a), wallet_text(b));
    let all = pa + pb;
    assert(pieces(wallet_text(a + mid + b)) == all);
    if all_bytes(all) {
        assert forall|i: int| 0 <= i < pa.len() implies unsigned_value(
            #[trigger] pa[i],
            u8::MAX as nat,
        ) is Some by {
            assert(all[i] == pa[i]);
        }
        assert forall|i: int| 0 <= i < pb.len() implies unsigned_value(
            #[trigger] pb[i],
            u8::MAX as nat,
        ) is Some by {
            assert(all[pa.len() + i] == pb[i]);
        }
        assert(bytes_of(all) =~= bytes_of(pa) + bytes_of(pb));
    }
    if all_bytes(pa) && all_bytes(pb) {
        assert forall|i: int| 0 <= i < all.len() implies unsigned_value(
            #[trigger] all[i],
            u8::MAX as nat,
        ) is Some by {
            if i < pa.len() {
                assert(all[i] == pa[i]);
            } else {
                assert(all[i] == pb[i - pa.len()]);
            }
        }
    }
}

/// Brackets do not matter, wherever they stand.
pub proof fn law_wallet_brackets_do_not_matter(a: Seq<char>, b: Seq<char>, bracket: char)
    requires
        bracket == '[' || bracket == ']',
    ensures
        wallet_bytes(a + seq![bracket] + b) == wallet_bytes(a + b),
{
    let mid = seq![bracket];
    lemma_wallet_text_joins(a + mid, b);
    lemma_wallet_text_joins(a, mid);
    lemma_wallet_text_joins(a, b);
    assert(mid.drop_last() =~= Seq::<char>::empty());
    assert(wallet_text(Seq::<char>::empty()) =~= Seq::<char>::empty());
    assert(wallet_text(mid) =~= Seq::<char>::empty());
    assert(wallet_text(a) + Seq::<char>::empty() =~= wallet_text(a));
}

/// A text without brackets, commas and spaces lists the one byte that it spells, if it spells an
/// integer of at most 255, and nothing otherwise.
pub proof fn law_wallet_number_is_one_byte(text: Seq<char>)
    requires
        forall|i: int|
            0 <= i < text.len() ==> {
                &&& #[trigger] text[i] != '['
                &&& text[i] != ']'
                &&& text[i] != ','
                &&& text[i] != ' '
            },
    ensures
        ({
            let value = unsigned_value(text, 255);
            &&& wallet_bytes(text) is Some <==> value is Some
            &&& value is Some ==> wallet_bytes(text)->Some_0 == seq![value->Some_0 as u8]
        }),
{
    lemma_one_piece(text);
    let parts = pieces(wallet_text(text));
    assert(parts[0] == text);
    if unsigned_value(text, 255) is Some {
        assert(all_bytes(parts));
        assert(bytes_of(parts) =~= seq![unsigned_value(text, 255)->Some_0 as u8]);
    }
}

proof fn lemma_one_piece(text: Seq<char>)
    requires
        forall|i: int|
            0 <= i < text.len() ==> {
                &&& #[trigger] text[i] != '['
                &&& text[i] != ']'
                &&& text[i] != ','
                &&& text[i] != ' '
            },
    ensures
        wallet_text(text) == text,
        pieces(text) == seq![text],
    decreases text.len(),
{
    if text.len() == 0 {
        assert(text =~= Seq::<char>::empty());
    } else {
        let rest = text.drop_last();
        assert forall|i: int| 0 <= i < rest.len() implies {
            &&& #[trigger] rest[i] != '['
            &&& rest[i] != ']'
            &&& rest[i] != ','
            &&& rest[i] != ' '
        } by {
            assert(rest[i] == text[i]);
        }
        lemma_one_piece(rest);
        assert(text.last() == text[text.len() - 1]);
        assert(rest.push(text.last()) =~= text);
        assert(wallet_text(text) =~= text);
        assert(pieces(text) =~= seq![text]);
    }
}

/// The contents of each list of characters.
spec fn contents(lists: Seq<Vec<char>>) -> Seq<Seq<char>> {
    lists.map_values(|list: Vec<char>| list@)
}

/// The pieces of a wallet's text.
fn wallet_pieces(text: &str) -> (r: Vec<Vec<char>>)
    ensures
        contents(r@) == pieces(wallet_text(text@)),
{
    let chars = chars_of(text);
    let mut done: Vec<Vec<char>> = Vec::new();
    let mut piece: Vec<char> = Vec::new();
    let mut i: usize = 0;
    assert(text@.take(0) =~= Seq::<char>::empty());
    assert(contents(done@).push(piece@) =~= pieces(wallet_text(text@.take(0))));
    while i < chars.len()
        invariant
            i <= chars@.len(),
            chars@ == text@,
            contents(done@).push(piece@) == pieces(wallet_text(text@.take(i as int))),
        decreases chars@.len() - i,
    {
        let c: char = chars[i];
        let ghost before = wallet_text(text@.take(i as int));
        let ghost after = wallet_text(text@.take(i + 1));
        proof {
            assert(text@.take(i + 1).drop_last() =~= text@.take(i as int));
            assert(after == before + wallet_char(c));
            assert(contents(done@).push(piece@).last() == piece@);
            assert(contents(done@).push(piece@).drop_last() =~= contents(done@));
        }
        if c == '[' || c == ']' {
            assert(after =~= before);
        } else if c == ',' || c == ' ' {
            proof {
                assert(after.drop_last() =~= before);
                assert(after.last() == ' ');
            }
            let ghost all = contents(done@).push(piece@);
            done.push(piece);
            piece = Vec::new();
            assert(contents(done@) =~= all);
            assert(contents(done@).push(piece@) =~= pieces(after));
        } else {
            proof {
                assert(after.drop_last() =~= before);
                assert(after.last() == c);
            }
            piece.push(c);
            assert(contents(done@).push(piece@) =~= pieces(after));
        }
        i = i + 1;
    }
    assert(text@.take(text@.len() as int) =~= text@);
    let ghost all = contents(done@).push(piece@);
    done.push(piece);
    assert(contents(done@) =~= all);
    done
}

/// The bytes that a wallet's text lists.
pub fn parse_wallet(text: &str) -> (r: Option<Vec<u8>>)
    ensures
        r is Some <==> wallet_bytes(text@) is Some,
        r is Some ==> r->Some_0@ == wallet_bytes(text@)->Some_0,
{
    let parts = wallet_pieces(text);
    let ghost spelled = pieces(wallet_text(text@));
    let mut bytes: Vec<u8> = Vec::new();
    let mut i: usize = 0;
    while i < parts.len()
        invariant
            i <= parts@.len(),
            contents(parts@) == spelled,
            spelled == pieces(wallet_text(text@)),
            bytes@.len() == i,
            forall|j: int|
                0 <= j < i ==> unsigned_value(#[trigger] spelled[j], u8::MAX as nat) is Some,
            forall|j: int|
                0 <= j < i ==> #[trigger] bytes@[j] == unsigned_value(
                    spelled[j],
                    u8::MAX as nat,
                )->Some_0,
        decreases parts@.len() - i,
    {
        assert(contents(parts@)[i as int] == parts@[i as int]@);
        match parse_unsigned(&parts[i], u8::MAX as u64) {
            Some(value) => {
                bytes.push(value as u8);
            },
            None => {
                return None;
            },
        }
        i = i + 1;
    }
    assert(bytes@ =~= bytes_of(spelled));
    Some(bytes)
}

/// Why a wallet's text yields no key pair.
#[derive(Clone, Copy, Debug, PartialEq, Eq)]
pub enum KeypairError {
    /// The bytes are not those of a key pair.
    NotAKeypair,
}

/// What a wallet's text that lists bytes yields.
pub open spec fn wallet_keypair(text: Seq<char>, r: Result<Keypair, KeypairError>) -> bool {
    let bytes = wallet_bytes(text)->Some_0;
    match r {
        Ok(keypair) => holds_keypair(bytes) && keypair.bytes@ == bytes,
        Err(e) => !holds_keypair(bytes) && e == KeypairError::NotAKeypair,
    }
}

/// A wallet's text yields the key pair with the bytes that it lists exactly where they are those
/// of a key pair.
pub proof fn law_wallet_yields_its_bytes(text: Seq<char>, r: Result<Keypair, KeypairError>)
    requires
        wallet_keypair(text, r),
    ensures
        r is Ok <==> holds_keypair(wallet_bytes(text)->Some_0),
        r is Ok ==> r->Ok_0.bytes@ == wallet_bytes(text)->Some_0,
        r is Err ==> r->Err_0 == KeypairError::NotAKeypair,
{
}

/// The key pair of a wallet's text, or nothing where the text does not list bytes.
pub fn try_load_keypair(text: &str) -> (r: Option<Result<Keypair, KeypairError>>)
    ensures
        r is Some <==> wallet_bytes(text@) is Some,
        r is Some ==> wallet_keypair(text@, r->Some_0),
{
    let bytes = parse_wallet(text)?;
    match keypair_from_bytes(bytes.as_slice()) {
        Some(keypair) => Some(Ok(keypair)),
        None => Some(Err(KeypairError::NotAKeypair)),
    }
}

/// The key pair of a wallet's text.
pub fn load_keypair(text: &str) -> (r: Result<Keypair, KeypairError>)
    requires
        wallet_bytes(text@) is Some,
    ensures
        wallet_keypair(text@, r),
{
    try_load_keypair(text).unwrap()
}

} // verus!
