//! The work behind the queries: the cursor, the order of a page, the tips a
//! page refers to, and the totals of a user's tips.

use vstd::prelude::*;
use vstd::relations::{sorted_by, total_ordering};
use vstd::seq_lib::{lemma_sorted_unique, to_multiset_build};
use vstd::string::StringExecFns;
use crate::ledger::{
    amount_text, amount_value, denom, first_n, is_after, keys_after, newest_first, page_keys,
    profiles_after, resolve, total_amount, values_of,
};
use crate::msg::{profiles_view, tips_view};
use crate::state::{opt_text, refs_view, tip_of_row, ProfileRow, TipRecord, TipRef, UserProfile};
use crate::store::{listing_view, stored_tips, tips_load, Store};
use crate::text::{
    lemma_text_lt_asymmetric, lemma_text_lt_total, lemma_text_lt_transitive, parse_number, str_lt,
    text_le, text_lt, to_chars, wide_to_text, wide_value,
};

verus! {

/// The texts of a list of strings.
pub open spec fn texts(v: Seq<String>) -> Seq<Seq<char>> {
    v.map_values(|s: String| s@)
}

/// Greater-first is a total order on texts.
pub proof fn lemma_newest_first_total()
    ensures
        total_ordering(newest_first()),
{
    let r = newest_first();
    assert forall|x: Seq<char>, y: Seq<char>| #[trigger] r(x, y) && #[trigger] r(y, x) implies x
        == y by {
        lemma_text_lt_asymmetric(x, y);
    }
    assert forall|x: Seq<char>, y: Seq<char>, z: Seq<char>| #[trigger]
        r(x, y) && #[trigger] r(y, z) implies r(x, z) by {
        if z != y && y != x {
            lemma_text_lt_transitive(z, y, x);
        }
    }
    assert forall|x: Seq<char>, y: Seq<char>| #[trigger] r(x, y) || #[trigger] r(y, x) by {
        lemma_text_lt_total(x, y);
    }
}

/// Whether `key` comes after the cursor, where there is one.
pub fn comes_after(key: &str, start_after: &Option<String>) -> (r: bool)
    ensures
        r == is_after(key@, opt_text(*start_after)),
{
    match start_after {
        Some(cursor) => str_lt(cursor.as_str(), key),
        None => true,
    }
}

/// The keys of the entries that come after the cursor.
fn keys_after_cursor(refs: &Vec<TipRef>, start_after: &Option<String>) -> (keys: Vec<String>)
    ensures
        texts(keys@) == keys_after(refs_view(refs@), opt_text(*start_after)),
{
    let mut keys: Vec<String> = Vec::new();
    let mut i: usize = 0;
    assert(refs_view(refs@).take(0) =~= Seq::empty());
    assert(texts(keys@) =~= Seq::empty());
    while i < refs.len()
        invariant
            i <= refs.len(),
            texts(keys@) == keys_after(refs_view(refs@).take(i as int), opt_text(*start_after)),
        decreases refs.len() - i,
    {
        let ghost before = texts(keys@);
        let ghost upto = refs_view(refs@).take(i + 1);
        assert(upto.drop_last() =~= refs_view(refs@).take(i as int));
        assert(upto.last().1 == refs@[i as int].1@);
        if comes_after(refs[i].1.as_str(), start_after) {
            keys.push(refs[i].1.clone());
            assert(texts(keys@) =~= before.push(refs@[i as int].1@));
        }
        i += 1;
    }
    assert(refs_view(refs@).take(i as int) =~= refs_view(refs@));
    keys
}

/// The keys, greatest first.
fn sort_newest_first(keys: &Vec<String>) -> (sorted: Vec<String>)
    ensures
        texts(sorted@) == texts(keys@).sort_by(newest_first()),
{
    let mut out: Vec<String> = Vec::new();
    let mut i: usize = 0;
    assert(texts(keys@).take(0) =~= Seq::empty());
    assert(texts(out@) =~= Seq::empty());
    while i < keys.len()
        invariant
            i <= keys.len(),
            sorted_by(texts(out@), newest_first()),
            texts(out@).to_multiset() == texts(keys@).take(i as int).to_multiset(),
        decreases keys.len() - i,
    {
        let key = keys[i].clone();
        let mut p: usize = 0;
        while p < out.len() && !str_lt(out[p].as_str(), key.as_str())
            invariant
                p <= out.len(),
                forall|q: int| 0 <= q < p ==> text_le(key@, #[trigger] texts(out@)[q]),
            decreases out.len() - p,
        {
            proof {
                lemma_text_lt_total(out@[p as int]@, key@);
            }
            p += 1;
        }
        let ghost before = texts(out@);
        out.insert(p, key);
        proof {
            let after = texts(out@);
            assert(after =~= before.insert(p as int, key@));
            assert forall|a: int, b: int| 0 <= a < b < after.len() implies #[trigger] newest_first()(
                after[a],
                after[b],
            ) by {
                if a == p {
                    assert(after[b] == before[b - 1]);
                    assert(text_lt(before[p as int], key@));
                    if b - 1 > p {
                        assert(newest_first()(before[p as int], before[b - 1]));
                        if before[b - 1] != before[p as int] {
                            lemma_text_lt_transitive(before[b - 1], before[p as int], key@);
                        }
                    }
                } else if b == p {
                    assert(after[a] == before[a]);
                } else {
                    let a0 = if a < p {
                        a
                    } else {
                        a - 1
                    };
                    let b0 = if b < p {
                        b
                    } else {
                        b - 1
                    };
                    assert(after[a] == before[a0] && after[b] == before[b0]);
                    assert(newest_first()(before[a0], before[b0]));
                }
            }
            let upto = texts(keys@).take(i + 1);
            assert(upto.drop_last() =~= texts(keys@).take(i as int));
            assert(upto =~= upto.drop_last().push(key@));
            to_multiset_build(upto.drop_last(), key@);
            assert(before.insert(p as int, key@) =~= before.take(p as int).push(key@)
                + before.skip(p as int));
            assert(before =~= before.take(p as int) + before.skip(p as int));
            vstd::seq_lib::lemma_multiset_commutative(before.take(p as int), before.skip(p as int));
            vstd::seq_lib::lemma_multiset_commutative(
                before.take(p as int).push(key@),
                before.skip(p as int),
            );
            to_multiset_build(before.take(p as int), key@);
            assert(after.to_multiset() =~= before.to_multiset().insert(key@));
        }
        i += 1;
    }
    proof {
        assert(texts(keys@).take(i as int) =~= texts(keys@));
        lemma_newest_first_total();
        texts(keys@).lemma_sort_by_ensures(newest_first());
        lemma_sorted_unique(texts(out@), texts(keys@).sort_by(newest_first()), newest_first());
    }
    out
}

/// The tips that can be read under the first `limit` of `keys`.
fn load_tips(store: &Store, keys: &Vec<String>, limit: usize) -> (tips: Vec<TipRecord>)
    ensures
        tips_view(tips@) == resolve(first_n(texts(keys@), limit as nat), stored_tips(*store)),
{
    let count: usize = if limit < keys.len() {
        limit
    } else {
        keys.len()
    };
    let ghost page = first_n(texts(keys@), limit as nat);
    assert(page =~= texts(keys@).take(count as int));
    let mut tips: Vec<TipRecord> = Vec::new();
    let mut i: usize = 0;
    assert(page.take(0) =~= Seq::empty());
    assert(tips_view(tips@) =~= Seq::empty());
    while i < count
        invariant
            i <= count <= keys.len(),
            page == texts(keys@).take(count as int),
            tips_view(tips@) == resolve(page.take(i as int), stored_tips(*store)),
        decreases count - i,
    {
        let ghost before = tips_view(tips@);
        let ghost upto = page.take(i + 1);
        assert(upto.drop_last() =~= page.take(i as int));
        assert(upto.last() == keys@[i as int]@);
        match tips_load(store, keys[i].as_str()) {
            Ok(row) => {
                let tip = TipRecord::from_row(&row);
                tips.push(tip);
                assert(tips_view(tips@) =~= before.push(tip_of_row(row)));
            },
            Err(_) => {},
        }
        i += 1;
    }
    assert(page.take(count as int) =~= page);
    tips
}

/// One page of the tips that `refs` refers to: of the entries after the
/// cursor, those with the `limit` greatest keys, greatest first, as far as
/// their tips can be read.
pub fn tips_page(store: &Store, refs: &Vec<TipRef>, limit: usize, start_after: &Option<String>) -> (tips:
    Vec<TipRecord>)
    ensures
        tips_view(tips@) == resolve(
            page_keys(refs_view(refs@), limit as nat, opt_text(*start_after)),
            stored_tips(*store),
        ),
{
    let keys = keys_after_cursor(refs, start_after);
    let sorted = sort_newest_first(&keys);
    load_tips(store, &sorted, limit)
}

/// One page of profiles out of a listing: of those whose username comes
/// after the cursor, the first `limit`.
pub fn profiles_page(list: &Vec<(String, ProfileRow)>, limit: usize, start_after: &Option<String>) -> (page:
    Vec<UserProfile>)
    ensures
        profiles_view(page@) == first_n(
            profiles_after(values_of(listing_view(list@)), opt_text(*start_after)),
            limit as nat,
        ),
{
    let ghost all = values_of(listing_view(list@));
    let ghost cursor = opt_text(*start_after);
    let mut page: Vec<UserProfile> = Vec::new();
    let mut i: usize = 0;
    assert(all.take(0) =~= Seq::empty());
    assert(profiles_view(page@) =~= Seq::empty());
    while i < list.len()
        invariant
            i <= list.len(),
            all == values_of(listing_view(list@)),
            cursor == opt_text(*start_after),
            profiles_view(page@) == first_n(profiles_after(all.take(i as int), cursor), limit as nat),
        decreases list.len() - i,
    {
        let ghost before = profiles_view(page@);
        let ghost seen = profiles_after(all.take(i as int), cursor);
        let ghost upto = all.take(i + 1);
        assert(upto.drop_last() =~= all.take(i as int));
        let profile = UserProfile::from_row(&list[i].1);
        assert(upto.last() == profile@);
        if comes_after(profile.username.as_str(), start_after) {
            if page.len() < limit {
                page.push(profile);
                assert(profiles_view(page@) =~= before.push(upto.last()));
            } else {
                assert(first_n(seen.push(upto.last()), limit as nat) =~= first_n(seen, limit as nat));
            }
        }
        i += 1;
    }
    assert(all.take(i as int) =~= all);
    page
}

/// What an amount counts for in a total.
pub fn amount_of(amount: &str) -> (r: u128)
    ensures
        r == amount_value(amount@),
{
    let chars = to_chars(amount);
    let n = chars.len();
    if n < 5 {
        return 0;
    }
    let cut: usize = n - 5;
    let ghost tail = amount@.skip(cut as int);
    assert(tail.len() == 5);
    assert(tail[0] == chars@[cut as int] && tail[1] == chars@[cut + 1] && tail[2] == chars@[cut + 2]
        && tail[3] == chars@[cut + 3] && tail[4] == chars@[cut + 4]);
    if chars[cut] != 'u' || chars[cut + 1] != 'x' || chars[cut + 2] != 'i' || chars[cut + 3] != 'o'
        || chars[cut + 4] != 'n' {
        return 0;
    }
    assert(tail =~= denom());
    let mut head: Vec<char> = Vec::new();
    let mut i: usize = 0;
    while i < cut
        invariant
            i <= cut <= chars.len(),
            head@ == chars@.take(i as int),
        decreases cut - i,
    {
        head.push(chars[i]);
        assert(head@ =~= chars@.take(i + 1));
        i += 1;
    }
    match parse_number(&head, u128::MAX) {
        Some(value) => value,
        None => 0,
    }
}

/// The total of the amounts of the tips that `refs` refers to, as far as
/// they can be read, in two limbs.
pub fn sum_amounts(store: &Store, refs: &Vec<TipRef>) -> (total: (u64, u128))
    ensures
        wide_value(total.0, total.1) == total_amount(refs_view(refs@), stored_tips(*store)),
{
    let mut carry: u64 = 0;
    let mut low: u128 = 0;
    let mut i: usize = 0;
    assert(refs_view(refs@).take(0) =~= Seq::empty());
    while i < refs.len()
        invariant
            i <= refs.len(),
            carry <= i,
            wide_value(carry, low) == total_amount(
                refs_view(refs@).take(i as int),
                stored_tips(*store),
            ),
        decreases refs.len() - i,
    {
        let ghost upto = refs_view(refs@).take(i + 1);
        assert(upto.drop_last() =~= refs_view(refs@).take(i as int));
        assert(upto.last().1 == refs@[i as int].1@);
        match tips_load(store, refs[i].1.as_str()) {
            Ok(row) => {
                let value = amount_of(row.2.as_str());
                match low.checked_add(value) {
                    Some(sum) => {
                        low = sum;
                    },
                    None => {
                        low = low - (u128::MAX - value) - 1;
                        carry = carry + 1;
                    },
                }
            },
            Err(_) => {},
        }
        i += 1;
    }
    assert(refs_view(refs@).take(i as int) =~= refs_view(refs@));
    (carry, low)
}

/// A total as text: the numeral and the suffix.
pub fn amount_string(total: (u64, u128)) -> (r: String)
    ensures
        r@ == amount_text(wide_value(total.0, total.1)),
{
    proof {
        reveal_strlit("uxion");
        assert("uxion"@ =~= denom());
    }
    let mut r = wide_to_text(total.0, total.1);
    r.append("uxion");
    r
}

} // verus!
