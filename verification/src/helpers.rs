//! The host's address check, and the composite key under which a tip is filed:
//! sender, recipient and time, joined by colons.

use vstd::prelude::*;
use vstd::string::StringExecFns;
use vstd::string::StrSliceExecFns;
use crate::store::Store;
use crate::text::{decimal_text, lemma_parse_decimal_text, number_to_text, parse_decimal, parse_number, to_chars};

verus! {

/// `Api::addr_validate`: the host's word on an address. An address that
/// passes is returned as it was given; of which addresses pass, nothing is
/// stated.
#[verifier::external_body]
pub fn addr_validate(store: &Store, addr: &str) -> (r: Result<String, cosmwasm_std::StdError>)
    ensures
        r matches Ok(valid) ==> valid@ == addr@,
{
    store.api.addr_validate(addr).map(cosmwasm_std::Addr::into_string)
}

/// The key of the tip that `from` sent to `to` at `nanos`.
pub open spec fn tip_key(from: Seq<char>, to: Seq<char>, nanos: u64) -> Seq<char> {
    from + seq![':'] + to + seq![':'] + decimal_text(nanos as nat)
}

/// Where `c` first occurs in `s`; the length of `s` if it does not occur.
pub open spec fn first_index(s: Seq<char>, c: char) -> int
    decreases s.len(),
{
    if s.len() == 0 || s[0] == c {
        0
    } else {
        1 + first_index(s.skip(1), c)
    }
}

/// The sender, the recipient and the time that a key names: the key has
/// exactly two colons, and what follows the second reads as a number that
/// fits 64 bits.
pub open spec fn tip_key_parts(key: Seq<char>) -> Option<(Seq<char>, Seq<char>, u64)> {
    let i = first_index(key, ':');
    let rest = key.skip(i + 1);
    let j = first_index(rest, ':');
    if i < key.len() && j < rest.len() {
        match parse_decimal(rest.skip(j + 1), u64::MAX as nat) {
            Some(n) => Some((key.take(i), rest.take(j), n as u64)),
            None => None,
        }
    } else {
        None
    }
}

pub proof fn lemma_first_index(s: Seq<char>, c: char)
    ensures
        0 <= first_index(s, c) <= s.len(),
        first_index(s, c) < s.len() ==> s[first_index(s, c)] == c,
        forall|k: int| 0 <= k < first_index(s, c) ==> s[k] != c,
    decreases s.len(),
{
    if s.len() > 0 && s[0] != c {
        lemma_first_index(s.skip(1), c);
        assert forall|k: int| 0 <= k < first_index(s, c) implies s[k] != c by {
            if k > 0 {
                assert(s[k] == s.skip(1)[k - 1]);
            }
        }
    }
}

/// The first occurrence is the one index that holds `c` after none that do.
pub proof fn lemma_first_index_is(s: Seq<char>, c: char, i: int)
    requires
        0 <= i <= s.len(),
        i < s.len() ==> s[i] == c,
        forall|k: int| 0 <= k < i ==> s[k] != c,
    ensures
        first_index(s, c) == i,
{
    lemma_first_index(s, c);
    let f = first_index(s, c);
    if f < i {
        assert(s[f] != c);
    }
}

/// A key made from parts without colons names those parts again.
pub proof fn lemma_tip_key_parts(from: Seq<char>, to: Seq<char>, nanos: u64)
    requires
        !from.contains(':'),
        !to.contains(':'),
    ensures
        tip_key_parts(tip_key(from, to, nanos)) == Some((from, to, nanos)),
{
    let key = tip_key(from, to, nanos);
    let num = decimal_text(nanos as nat);
    lemma_parse_decimal_text(nanos as nat, u64::MAX as nat);
    assert forall|k: int| 0 <= k < from.len() implies key[k] != ':' by {
        assert(key[k] == from[k]);
        assert(from.contains(from[k]));
    }
    lemma_first_index_is(key, ':', from.len() as int);
    let rest = key.skip(from.len() as int + 1);
    assert(rest =~= to + seq![':'] + num);
    assert forall|k: int| 0 <= k < to.len() implies rest[k] != ':' by {
        assert(rest[k] == to[k]);
        assert(to.contains(to[k]));
    }
    lemma_first_index_is(rest, ':', to.len() as int);
    assert(rest.skip(to.len() as int + 1) =~= num);
    assert(key.take(from.len() as int) =~= from);
    assert(rest.take(to.len() as int) =~= to);
}

/// Builds the key of a tip.
pub fn generate_tip_key(from_username: &str, to_username: &str, timestamp_nanos: u64) -> (key:
    String)
    ensures
        key@ == tip_key(from_username@, to_username@, timestamp_nanos),
{
    proof {
        reveal_strlit(":");
    }
    let mut key = from_username.to_owned();
    key.append(":");
    key.append(to_username);
    key.append(":");
    let number = number_to_text(timestamp_nanos as u128);
    key.append(number.as_str());
    assert(key@ =~= tip_key(from_username@, to_username@, timestamp_nanos));
    key
}

/// Where `c` first occurs in `v` at or after `from`; the length if nowhere.
fn find_char(v: &Vec<char>, from: usize, c: char) -> (i: usize)
    requires
        from <= v.len(),
    ensures
        i == from + first_index(v@.skip(from as int), c),
        from <= i <= v.len(),
{
    let mut i: usize = from;
    assert(v@.skip(from as int).skip(0) =~= v@.skip(from as int));
    while i < v.len() && v[i] != c
        invariant
            from <= i <= v.len(),
            first_index(v@.skip(from as int), c) == (i - from) + first_index(v@.skip(i as int), c),
        decreases v.len() - i,
    {
        assert(v@.skip(i as int).skip(1) =~= v@.skip(i + 1));
        i += 1;
    }
    proof {
        lemma_first_index(v@.skip(i as int), c);
    }
    i
}

/// The characters of `v` from `from` on.
fn tail_chars(v: &Vec<char>, from: usize) -> (r: Vec<char>)
    requires
        from <= v.len(),
    ensures
        r@ == v@.skip(from as int),
{
    let mut r: Vec<char> = Vec::new();
    let mut i: usize = from;
    while i < v.len()
        invariant
            from <= i <= v.len(),
            r@ == v@.subrange(from as int, i as int),
        decreases v.len() - i,
    {
        r.push(v[i]);
        assert(r@ =~= v@.subrange(from as int, i + 1));
        i += 1;
    }
    assert(r@ =~= v@.skip(from as int));
    r
}

/// Takes a key apart into sender, recipient and time.
pub fn parse_tip_key(key: &str) -> (parts: Option<(String, String, u64)>)
    ensures
        match tip_key_parts(key@) {
            Some(p) => parts matches Some(q) && q.0@ == p.0 && q.1@ == p.1 && q.2 == p.2,
            None => parts is None,
        },
{
    let chars = to_chars(key);
    let i = find_char(&chars, 0, ':');
    assert(chars@.skip(0) =~= key@);
    if i >= chars.len() {
        return None;
    }
    let ghost rest = key@.skip(i + 1);
    let j = find_char(&chars, i + 1, ':');
    if j >= chars.len() {
        return None;
    }
    let tail = tail_chars(&chars, j + 1);
    assert(tail@ =~= rest.skip(j - i));
    match parse_number(&tail, u64::MAX as u128) {
        Some(n) => {
            let from = key.substring_char(0, i).to_owned();
            let to = key.substring_char(i + 1, j).to_owned();
            assert(from@ =~= key@.take(i as int));
            assert(to@ =~= rest.take(j - i - 1));
            Some((from, to, n as u64))
        },
        None => None,
    }
}

} // verus!
