//! Client identity assignment: a caller-supplied non-empty name is used
//! verbatim; otherwise a short random identifier is drawn from a fixed
//! 16-symbol alphabet.

use vstd::prelude::*;

verus! {

use vstd::string::StringExecFns;

/// Number of symbols in a generated identifier.
pub const GENERATED_ID_LEN: usize = 3;

/// The 16-symbol alphabet that generated identifiers are drawn from, by
/// index: the decimal digits (starting at '1', with '0' last) followed by
/// 'a' through 'f'.
pub open spec fn symbol_at(i: int) -> char {
    if i == 0 { '1' }
    else if i == 1 { '2' }
    else if i == 2 { '3' }
    else if i == 3 { '4' }
    else if i == 4 { '5' }
    else if i == 5 { '6' }
    else if i == 6 { '7' }
    else if i == 7 { '8' }
    else if i == 8 { '9' }
    else if i == 9 { '0' }
    else if i == 10 { 'a' }
    else if i == 11 { 'b' }
    else if i == 12 { 'c' }
    else if i == 13 { 'd' }
    else if i == 14 { 'e' }
    else { 'f' }
}

/// A character of the identifier alphabet: a decimal digit or 'a'..'f'.
pub open spec fn is_id_symbol(c: char) -> bool {
    c == '0' || c == '1' || c == '2' || c == '3' || c == '4' || c == '5'
        || c == '6' || c == '7' || c == '8' || c == '9'
        || c == 'a' || c == 'b' || c == 'c' || c == 'd' || c == 'e' || c == 'f'
}

/// A generated identifier: exactly `GENERATED_ID_LEN` symbols, all from the
/// alphabet.
pub open spec fn is_generated_id(s: Seq<char>) -> bool {
    &&& s.len() == GENERATED_ID_LEN
    &&& forall|i: int| 0 <= i < s.len() ==> is_id_symbol(#[trigger] s[i])
}

/// Relies on nanoid::rngs::default: fills a vector of exactly `n` bytes from
/// the process's entropy source. Nothing is assumed of the bytes' values.
#[verifier::external_body]
fn random_bytes(n: usize) -> (r: Vec<u8>)
    ensures
        r@.len() == n,
{
    nanoid::rngs::default(n)
}

/// Appends the alphabet symbol of the given index.
fn push_symbol(s: &mut String, idx: u8)
    requires
        idx < 16,
    ensures
        final(s)@ == old(s)@.push(symbol_at(idx as int)),
{
    let symbol: &str = if idx == 0 { "1" }
        else if idx == 1 { "2" }
        else if idx == 2 { "3" }
        else if idx == 3 { "4" }
        else if idx == 4 { "5" }
        else if idx == 5 { "6" }
        else if idx == 6 { "7" }
        else if idx == 7 { "8" }
        else if idx == 8 { "9" }
        else if idx == 9 { "0" }
        else if idx == 10 { "a" }
        else if idx == 11 { "b" }
        else if idx == 12 { "c" }
        else if idx == 13 { "d" }
        else if idx == 14 { "e" }
        else { "f" };
    proof {
        reveal_strlit("1");
        reveal_strlit("2");
        reveal_strlit("3");
        reveal_strlit("4");
        reveal_strlit("5");
        reveal_strlit("6");
        reveal_strlit("7");
        reveal_strlit("8");
        reveal_strlit("9");
        reveal_strlit("0");
        reveal_strlit("a");
        reveal_strlit("b");
        reveal_strlit("c");
        reveal_strlit("d");
        reveal_strlit("e");
        reveal_strlit("f");
        assert(symbol@ =~= seq![symbol_at(idx as int)]);
    }
    s.append(symbol);
    proof {
        assert(old(s)@ + seq![symbol_at(idx as int)] =~= old(s)@.push(symbol_at(idx as int)));
    }
}

/// Every alphabet index yields an alphabet symbol.
proof fn lemma_symbol_in_alphabet(k: int)
    requires
        0 <= k < 16,
    ensures
        is_id_symbol(symbol_at(k)),
{
}

/// Turns drawn bytes into an identifier, one symbol per byte: the low four
/// bits of each byte index the alphabet. A byte drawn uniformly yields a
/// uniform symbol, since the 16 index values are equally likely.
pub fn id_from_bytes(bytes: &Vec<u8>) -> (r: String)
    ensures
        r@.len() == bytes@.len(),
        forall|i: int| 0 <= i < r@.len() ==> #[trigger] r@[i] == symbol_at((bytes@[i] & 15) as int),
{
    let mut id = String::new();
    let mut i: usize = 0;
    while i < bytes.len()
        invariant
            i <= bytes@.len(),
            id@.len() == i,
            forall|j: int| 0 <= j < id@.len() ==> #[trigger] id@[j] == symbol_at(
                (bytes@[j] & 15) as int,
            ),
        decreases bytes@.len() - i,
    {
        let b = bytes[i];
        let idx = b & 15;
        proof {
            assert(b & 15 < 16) by (bit_vector);
        }
        push_symbol(&mut id, idx);
        i = i + 1;
    }
    id
}

/// Assigns a client its identifier: a supplied non-empty name is returned
/// verbatim (no uniqueness check); otherwise three symbols are drawn from
/// the alphabet, each chosen by the low four bits of one random byte.
pub fn assign_id(requested: Option<&String>) -> (r: String)
    ensures
        match requested {
            Some(name) => (name@.len() > 0 ==> r@ == name@) && (name@.len() == 0
                ==> is_generated_id(r@)),
            None => is_generated_id(r@),
        },
{
    match requested {
        Some(name) => {
            if !name.as_str().is_empty() {
                return name.clone();
            }
        },
        None => {},
    }
    let bytes = random_bytes(GENERATED_ID_LEN);
    let id = id_from_bytes(&bytes);
    proof {
        assert forall|i: int| 0 <= i < id@.len() implies is_id_symbol(#[trigger] id@[i]) by {
            let b = bytes@[i];
            assert(b & 15 < 16) by (bit_vector);
            lemma_symbol_in_alphabet((b & 15) as int);
        }
    }
    id
}

} // verus!
