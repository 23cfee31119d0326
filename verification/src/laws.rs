//! What holds of the registry whatever it holds: laws of the commands and
//! queries, proved of the ledger that the contracts speak of.

use vstd::prelude::*;
use crate::error::{cannot_remove_last_admin, ErrorView};
use vstd::relations::sorted_by;
use crate::contract::answerable;
use crate::ledger::{
    amount_text, amount_value, changed, garbled, is_after, keys_after, newest_first, page_keys,
    read, resolve, total_amount, Ledger, NewProfile, Outcome, ProfileChanges,
};
use crate::msg::QueryMsg;
use crate::paging::lemma_newest_first_total;
use crate::state::TipView;
use crate::text::{
    lemma_text_lt_asymmetric, lemma_text_lt_irreflexive, lemma_text_lt_transitive, text_le,
    text_lt,
};
use crate::contract::{expected, new_profile, profile_changes, verdict};
use crate::helpers::{lemma_tip_key_parts, tip_key};
use crate::msg::ExecuteMsg;
use crate::state::opt_text;
use crate::username::{
    lemma_valid_username, lemma_valid_username_no_colon, username_fault, valid_username,
};

verus! {

/// Two valid usernames, free and different, register one after the other
/// from two free and different wallets; and once a username is registered,
/// no wallet can register it again.
pub proof fn law_usernames_are_unique(
    l: Ledger,
    wallet1: Seq<char>,
    wallet2: Seq<char>,
    wallet3: Seq<char>,
    username1: Seq<char>,
    username2: Seq<char>,
    now1: u64,
    now2: u64,
    now3: u64,
    fields1: NewProfile,
    fields2: NewProfile,
    fields3: NewProfile,
)
    requires
        valid_username(username1),
        valid_username(username2),
        username1 != username2,
        wallet1 != wallet2,
        !l.profiles.dom().contains(username1),
        !l.profiles.dom().contains(username2),
        !l.wallets.dom().contains(wallet1),
        !l.wallets.dom().contains(wallet2),
    ensures
        l.register(wallet1, now1, username1, fields1) is Ok,
        l.register(wallet1, now1, username1, fields1)->Ok_0.ledger.register(
            wallet2,
            now2,
            username2,
            fields2,
        ) is Ok,
        l.register(wallet1, now1, username1, fields1)->Ok_0.ledger.register(
            wallet3,
            now3,
            username1,
            fields3,
        ) == Err::<Outcome, ErrorView>(ErrorView::UsernameExists { username: username1 }),
        l.register(wallet1, now1, username1, fields1)->Ok_0.ledger.register(
            wallet2,
            now2,
            username2,
            fields2,
        )->Ok_0.ledger.register(wallet3, now3, username1, fields3) == Err::<Outcome, ErrorView>(
            ErrorView::UsernameExists { username: username1 },
        ),
{
    lemma_valid_username(username1);
    lemma_valid_username(username2);
}

/// A wallet that owns a profile cannot register another username: the
/// attempt fails and names the username that the wallet owns.
pub proof fn law_one_profile_per_wallet(
    l: Ledger,
    wallet: Seq<char>,
    username: Seq<char>,
    now: u64,
    fields: NewProfile,
)
    requires
        read(l.wallets, wallet) is Some,
        valid_username(username),
        !l.profiles.dom().contains(username),
    ensures
        l.register(wallet, now, username, fields) == Err::<Outcome, ErrorView>(
            ErrorView::WalletAlreadyRegistered { username: read(l.wallets, wallet)->0 },
        ),
{
    lemma_valid_username(username);
}

/// After a wallet has registered a username, its next registration fails
/// and names that username.
pub proof fn law_second_registration_names_first(
    l: Ledger,
    wallet: Seq<char>,
    first: Seq<char>,
    second: Seq<char>,
    now1: u64,
    now2: u64,
    fields1: NewProfile,
    fields2: NewProfile,
)
    requires
        l.register(wallet, now1, first, fields1) is Ok,
        valid_username(second),
        second != first,
        !l.profiles.dom().contains(second),
    ensures
        l.register(wallet, now1, first, fields1)->Ok_0.ledger.register(
            wallet,
            now2,
            second,
            fields2,
        ) == Err::<Outcome, ErrorView>(ErrorView::WalletAlreadyRegistered { username: first }),
{
    lemma_valid_username(second);
}

/// A profile that decodes is updated for its owner and for an admin, and
/// for nobody else: any other caller, unless its own flag does not decode,
/// is refused as unauthorized.
pub proof fn law_update_needs_owner_or_admin(
    l: Ledger,
    sender: Seq<char>,
    username: Seq<char>,
    now: u64,
    changes: ProfileChanges,
)
    requires
        read(l.profiles, username) is Some,
        !garbled(l.admins, sender),
    ensures
        l.update(sender, now, username, changes) is Ok <==> (sender == read(
            l.profiles,
            username,
        )->0.wallet_address || l.is_admin(sender)),
        !(l.update(sender, now, username, changes) is Ok) ==> l.update(
            sender,
            now,
            username,
            changes,
        ) == Err::<Outcome, ErrorView>(ErrorView::Unauthorized),
{
}

/// An update leaves every field that it does not name as it was, replaces
/// every field that it names, and touches neither the username, the owner,
/// the time of creation nor any other profile.
pub proof fn law_update_changes_named_fields_only(
    l: Ledger,
    sender: Seq<char>,
    username: Seq<char>,
    now: u64,
    changes: ProfileChanges,
)
    requires
        l.update(sender, now, username, changes) is Ok,
    ensures
        ({
            let before = l.profiles[username]->0;
            let next = l.update(sender, now, username, changes)->Ok_0.ledger;
            let after = next.profiles[username]->0;
            &&& next.profiles[username] is Some
            &&& after.username == before.username
            &&& after.wallet_address == before.wallet_address
            &&& after.created_at == before.created_at
            &&& after.updated_at == now
            &&& after.name == (if changes.name is Some {
                changes.name->0
            } else {
                before.name
            })
            &&& after.bio == changed(changes.bio, before.bio)
            &&& after.profile_picture == changed(changes.profile_picture, before.profile_picture)
            &&& after.banner_image == changed(changes.banner_image, before.banner_image)
            &&& after.twitter == changed(changes.twitter, before.twitter)
            &&& after.website == changed(changes.website, before.website)
            &&& next.profiles.dom() == l.profiles.dom()
            &&& forall|other: Seq<char>|
                other != username && l.profiles.dom().contains(other) ==> #[trigger] next.profiles[other]
                    == l.profiles[other]
            &&& next.wallets == l.wallets
            &&& next.tips == l.tips
            &&& next.sent == l.sent
            &&& next.received == l.received
            &&& next.admins == l.admins
        }),
{
    let next = l.update(sender, now, username, changes)->Ok_0.ledger;
    assert(next.profiles.dom() =~= l.profiles.dom());
}

/// Nobody tips their own profile, whatever the amount and the message.
pub proof fn law_no_self_tip(
    l: Ledger,
    sender: Seq<char>,
    now: u64,
    amount: Seq<char>,
    message: Option<Seq<char>>,
)
    requires
        read(l.wallets, sender) is Some,
    ensures
        l.record_tip(sender, now, read(l.wallets, sender)->0, amount, message) == Err::<
            Outcome,
            ErrorView,
        >(ErrorView::SelfTipping),
{
}

/// Where one flag is stored, no removal succeeds; where more are, an
/// admin's removal of a `target` that the host accepts succeeds, takes
/// `target`'s flag away and no other, and leaves at least one flag: one
/// fewer than before where `target` had one, as many otherwise.
pub proof fn law_last_admin_stays(l: Ledger, sender: Seq<char>, target: Seq<char>)
    requires
        l.admins.dom().finite(),
        l.stray_admins.finite(),
        l.is_admin(sender),
    ensures
        l.admin_flags() == 1 ==> l.remove_admin(sender, target, Some(target)) == Err::<
            Outcome,
            ErrorView,
        >(cannot_remove_last_admin()),
        l.admin_flags() >= 2 ==> l.remove_admin(sender, target, Some(target)) is Ok,
        l.remove_admin(sender, target, Some(target)) matches Ok(outcome) ==> {
            &&& outcome.ledger.admins.dom().finite()
            &&& outcome.ledger.admin_flags() >= 1
            &&& !outcome.ledger.admins.dom().contains(target)
            &&& outcome.ledger.admins == l.admins.remove(target)
            &&& outcome.ledger.admin_flags() == (if l.admins.dom().contains(target) {
                l.admin_flags() - 1
            } else {
                l.admin_flags() as int
            })
        },
{
}

/// In a consistent registry with two admins, one removes the other and is
/// then the only one; and the one that is left cannot be removed.
pub proof fn law_one_of_two_admins_is_left(l: Ledger, first: Seq<char>, second: Seq<char>)
    requires
        l.consistent(),
        first != second,
        l.admins.dom() == set![first, second],
        l.is_admin(first),
    ensures
        l.remove_admin(first, second, Some(second)) matches Ok(outcome)
            && outcome.ledger.admins.dom() == set![first] && outcome.ledger.is_admin(first)
            && !outcome.ledger.is_admin(second) && outcome.ledger.remove_admin(
            first,
            first,
            Some(first),
        ) == Err::<Outcome, ErrorView>(cannot_remove_last_admin()),
{
    assert(l.stray_admins =~= Set::empty());
    assert(set![first, second].len() == 2) by {
        assert(set![first, second] =~= set![first].insert(second));
    }
    let outcome = l.remove_admin(first, second, Some(second))->Ok_0;
    assert(outcome.ledger.admins.dom() =~= set![first]);
}

/// A username is unavailable exactly when it is taken or malformed; and
/// an available username is one that any wallet without a profile can
/// register.
pub proof fn law_availability(
    l: Ledger,
    username: Seq<char>,
    wallet: Seq<char>,
    now: u64,
    fields: NewProfile,
)
    ensures
        !l.is_username_available(username) <==> (l.profiles.dom().contains(username)
            || username_fault(username) is Some),
        !l.wallets.dom().contains(wallet) ==> (l.is_username_available(username) <==> l.register(
            wallet,
            now,
            username,
            fields,
        ) is Ok),
{
    lemma_valid_username(username);
}

/// To make an admin an admin again is no error, and changes nothing.
/// (The host accepts the address: it accepted it before.)
pub proof fn law_add_admin_idempotent(l: Ledger, sender: Seq<char>, admin: Seq<char>)
    requires
        l.is_admin(sender),
        l.is_admin(admin),
    ensures
        l.add_admin(sender, admin, Some(admin)) matches Ok(outcome) && outcome.ledger == l,
{
    let outcome = l.add_admin(sender, admin, Some(admin))->Ok_0;
    assert(outcome.ledger.admins =~= l.admins);
}

/// To make a wallet that the host accepts an admin twice is the same as
/// once.
pub proof fn law_add_admin_twice(l: Ledger, sender: Seq<char>, admin: Seq<char>)
    requires
        l.is_admin(sender),
    ensures
        l.add_admin(sender, admin, Some(admin)) matches Ok(once) && once.ledger.add_admin(
            sender,
            admin,
            Some(admin),
        ) matches Ok(twice) && twice.ledger == once.ledger,
{
    let once = l.add_admin(sender, admin, Some(admin))->Ok_0;
    let twice = once.ledger.add_admin(sender, admin, Some(admin))->Ok_0;
    assert(twice.ledger.admins =~= once.ledger.admins);
}

/// Keys made from valid usernames are equal only where their parts are.
pub proof fn lemma_tip_key_injective(
    from1: Seq<char>,
    to1: Seq<char>,
    nanos1: u64,
    from2: Seq<char>,
    to2: Seq<char>,
    nanos2: u64,
)
    requires
        valid_username(from1),
        valid_username(to1),
        valid_username(from2),
        valid_username(to2),
        tip_key(from1, to1, nanos1) == tip_key(from2, to2, nanos2),
    ensures
        from1 == from2,
        to1 == to2,
        nanos1 == nanos2,
{
    lemma_valid_username_no_colon(from1);
    lemma_valid_username_no_colon(to1);
    lemma_valid_username_no_colon(from2);
    lemma_valid_username_no_colon(to2);
    lemma_tip_key_parts(from1, to1, nanos1);
    lemma_tip_key_parts(from2, to2, nanos2);
}

/// A registry that has just been instantiated is consistent, and both the
/// sender and the admin, as the host accepted it, have admin rights.
pub proof fn law_instantiation_is_consistent(
    sender: Seq<char>,
    admin: Seq<char>,
    accepted: Seq<char>,
)
    ensures
        Ledger::empty().instantiate(sender, admin, Some(accepted)) matches Ok(outcome)
            && outcome.ledger.consistent() && outcome.ledger.is_admin(sender)
            && outcome.ledger.is_admin(accepted),
{
    assert(Ledger::empty().with_admin(accepted, true).admins.dom() =~= set![accepted]);
}

/// In a consistent registry everything decodes.
pub proof fn law_consistent_is_readable(l: Ledger)
    requires
        l.consistent(),
    ensures
        l.readable(),
{
}

/// A registration keeps the registry consistent.
pub proof fn law_register_keeps_consistency(
    l: Ledger,
    sender: Seq<char>,
    now: u64,
    username: Seq<char>,
    fields: NewProfile,
)
    requires
        l.consistent(),
        l.register(sender, now, username, fields) is Ok,
    ensures
        l.register(sender, now, username, fields)->Ok_0.ledger.consistent(),
{
    let next = l.register(sender, now, username, fields)->Ok_0.ledger;
    lemma_valid_username(username);
    assert(next.identities_consistent()) by {
        assert forall|u: Seq<char>| #[trigger] next.profiles.dom().contains(u) implies {
            &&& valid_username(u)
            &&& next.profiles[u] is Some
            &&& next.profiles[u]->0.username == u
            &&& read(next.wallets, next.profiles[u]->0.wallet_address) == Some(u)
        } by {
            if u != username {
                assert(l.profiles.dom().contains(u));
                assert(l.wallets.dom().contains(l.profiles[u]->0.wallet_address));
            }
        }
        assert forall|w: Seq<char>| #[trigger] next.wallets.dom().contains(w) implies {
            &&& next.wallets[w] is Some
            &&& read(next.profiles, next.wallets[w]->0) is Some
            &&& read(next.profiles, next.wallets[w]->0)->0.wallet_address == w
        } by {
            if w != sender {
                assert(l.wallets.dom().contains(w));
                assert(l.profiles.dom().contains(l.wallets[w]->0));
            }
        }
    }
    assert(next.tips_consistent()) by {
        assert forall|k: Seq<char>| #[trigger] next.tips.dom().contains(k) implies {
            &&& next.tips[k] is Some
            &&& k == tip_key(
                next.tips[k]->0.from_username,
                next.tips[k]->0.to_username,
                next.tips[k]->0.timestamp,
            )
            &&& next.tips[k]->0.from_username != next.tips[k]->0.to_username
            &&& next.profiles.dom().contains(next.tips[k]->0.from_username)
            &&& next.profiles.dom().contains(next.tips[k]->0.to_username)
        } by {
            assert(l.tips.dom().contains(k));
        }
    }
    assert(next.sent_consistent()) by {
        assert forall|u: Seq<char>| #[trigger] next.sent.dom().contains(u) implies next.sent[u]
            is Some && next.profiles.dom().contains(u) by {
            assert(l.sent.dom().contains(u));
        }
        assert forall|u: Seq<char>, i: int| 0 <= i < next.sent_of(u).len() implies {
            &&& read(next.tips, (#[trigger] next.sent_of(u)[i]).1) is Some
            &&& read(next.tips, next.sent_of(u)[i].1)->0.from_username == u
            &&& read(next.tips, next.sent_of(u)[i].1)->0.to_username == next.sent_of(u)[i].0
        } by {
            assert(next.sent_of(u)[i] == l.sent_of(u)[i]);
        }
    }
    assert(next.received_consistent()) by {
        assert forall|u: Seq<char>| #[trigger] next.received.dom().contains(u) implies next.received[u]
            is Some && next.profiles.dom().contains(u) by {
            assert(l.received.dom().contains(u));
        }
        assert forall|u: Seq<char>, i: int| 0 <= i < next.received_of(u).len() implies {
            &&& read(next.tips, (#[trigger] next.received_of(u)[i]).1) is Some
            &&& read(next.tips, next.received_of(u)[i].1)->0.to_username == u
            &&& read(next.tips, next.received_of(u)[i].1)->0.from_username == next.received_of(
                u,
            )[i].0
        } by {
            assert(next.received_of(u)[i] == l.received_of(u)[i]);
        }
    }
}

/// An update keeps the registry consistent.
pub proof fn law_update_keeps_consistency(
    l: Ledger,
    sender: Seq<char>,
    now: u64,
    username: Seq<char>,
    changes: ProfileChanges,
)
    requires
        l.consistent(),
        l.update(sender, now, username, changes) is Ok,
    ensures
        l.update(sender, now, username, changes)->Ok_0.ledger.consistent(),
{
    let next = l.update(sender, now, username, changes)->Ok_0.ledger;
    assert(next.profiles.dom() =~= l.profiles.dom());
    assert(next.identities_consistent()) by {
        assert forall|u: Seq<char>| #[trigger] next.profiles.dom().contains(u) implies {
            &&& valid_username(u)
            &&& next.profiles[u] is Some
            &&& next.profiles[u]->0.username == u
            &&& read(next.wallets, next.profiles[u]->0.wallet_address) == Some(u)
        } by {
            assert(l.profiles.dom().contains(u));
        }
        assert forall|w: Seq<char>| #[trigger] next.wallets.dom().contains(w) implies {
            &&& next.wallets[w] is Some
            &&& read(next.profiles, next.wallets[w]->0) is Some
            &&& read(next.profiles, next.wallets[w]->0)->0.wallet_address == w
        } by {
            assert(l.wallets.dom().contains(w));
            assert(l.profiles.dom().contains(l.wallets[w]->0));
        }
    }
    assert(next.tips_consistent()) by {
        assert forall|k: Seq<char>| #[trigger] next.tips.dom().contains(k) implies {
            &&& next.tips[k] is Some
            &&& k == tip_key(
                next.tips[k]->0.from_username,
                next.tips[k]->0.to_username,
                next.tips[k]->0.timestamp,
            )
            &&& next.tips[k]->0.from_username != next.tips[k]->0.to_username
            &&& next.profiles.dom().contains(next.tips[k]->0.from_username)
            &&& next.profiles.dom().contains(next.tips[k]->0.to_username)
        } by {
            assert(l.tips.dom().contains(k));
        }
    }
    assert(next.sent_consistent()) by {
        assert forall|u: Seq<char>| #[trigger] next.sent.dom().contains(u) implies next.sent[u]
            is Some && next.profiles.dom().contains(u) by {
            assert(l.sent.dom().contains(u));
        }
        assert forall|u: Seq<char>, i: int| 0 <= i < next.sent_of(u).len() implies {
            &&& read(next.tips, (#[trigger] next.sent_of(u)[i]).1) is Some
            &&& read(next.tips, next.sent_of(u)[i].1)->0.from_username == u
            &&& read(next.tips, next.sent_of(u)[i].1)->0.to_username == next.sent_of(u)[i].0
        } by {
            assert(next.sent_of(u)[i] == l.sent_of(u)[i]);
        }
    }
    assert(next.received_consistent()) by {
        assert forall|u: Seq<char>| #[trigger] next.received.dom().contains(u) implies next.received[u]
            is Some && next.profiles.dom().contains(u) by {
            assert(l.received.dom().contains(u));
        }
        assert forall|u: Seq<char>, i: int| 0 <= i < next.received_of(u).len() implies {
            &&& read(next.tips, (#[trigger] next.received_of(u)[i]).1) is Some
            &&& read(next.tips, next.received_of(u)[i].1)->0.to_username == u
            &&& read(next.tips, next.received_of(u)[i].1)->0.from_username == next.received_of(
                u,
            )[i].0
        } by {
            assert(next.received_of(u)[i] == l.received_of(u)[i]);
        }
    }
}

/// A tip keeps the registry consistent: the tip is filed under its key,
/// both lists gain an entry that refers to it, and no entry is left
/// without its tip.
pub proof fn law_record_tip_keeps_consistency(
    l: Ledger,
    sender: Seq<char>,
    now: u64,
    to_username: Seq<char>,
    amount: Seq<char>,
    message: Option<Seq<char>>,
)
    requires
        l.consistent(),
        l.record_tip(sender, now, to_username, amount, message) is Ok,
    ensures
        l.record_tip(sender, now, to_username, amount, message)->Ok_0.ledger.consistent(),
{
    let next = l.record_tip(sender, now, to_username, amount, message)->Ok_0.ledger;
    let from = l.wallets[sender]->0;
    let key = tip_key(from, to_username, now);
    assert(l.wallets.dom().contains(sender));
    assert(l.profiles.dom().contains(from));
    assert(l.profiles.dom().contains(to_username));
    assert(valid_username(from) && valid_username(to_username));
    assert forall|k: Seq<char>| l.tips.dom().contains(k) && k == key implies l.tips[k]->0.from_username
        == from && l.tips[k]->0.to_username == to_username by {
        let t = l.tips[k]->0;
        assert(l.profiles.dom().contains(t.from_username));
        assert(l.profiles.dom().contains(t.to_username));
        lemma_tip_key_injective(t.from_username, t.to_username, t.timestamp, from, to_username, now);
    }
    assert(next.identities_consistent()) by {
        assert forall|u: Seq<char>| #[trigger] next.profiles.dom().contains(u) implies {
            &&& valid_username(u)
            &&& next.profiles[u] is Some
            &&& next.profiles[u]->0.username == u
            &&& read(next.wallets, next.profiles[u]->0.wallet_address) == Some(u)
        } by {
            assert(l.profiles.dom().contains(u));
        }
        assert forall|w: Seq<char>| #[trigger] next.wallets.dom().contains(w) implies {
            &&& next.wallets[w] is Some
            &&& read(next.profiles, next.wallets[w]->0) is Some
            &&& read(next.profiles, next.wallets[w]->0)->0.wallet_address == w
        } by {
            assert(l.wallets.dom().contains(w));
        }
    }
    assert(next.tips_consistent()) by {
        assert forall|k: Seq<char>| #[trigger] next.tips.dom().contains(k) implies {
            &&& next.tips[k] is Some
            &&& k == tip_key(
                next.tips[k]->0.from_username,
                next.tips[k]->0.to_username,
                next.tips[k]->0.timestamp,
            )
            &&& next.tips[k]->0.from_username != next.tips[k]->0.to_username
            &&& next.profiles.dom().contains(next.tips[k]->0.from_username)
            &&& next.profiles.dom().contains(next.tips[k]->0.to_username)
        } by {
            if k != key {
                assert(l.tips.dom().contains(k));
            }
        }
    }
    assert(next.sent_consistent()) by {
        assert forall|u: Seq<char>| #[trigger] next.sent.dom().contains(u) implies next.sent[u]
            is Some && next.profiles.dom().contains(u) by {
            if u != from {
                assert(l.sent.dom().contains(u));
            }
        }
        assert forall|u: Seq<char>, i: int| 0 <= i < next.sent_of(u).len() implies {
            &&& read(next.tips, (#[trigger] next.sent_of(u)[i]).1) is Some
            &&& read(next.tips, next.sent_of(u)[i].1)->0.from_username == u
            &&& read(next.tips, next.sent_of(u)[i].1)->0.to_username == next.sent_of(u)[i].0
        } by {
            if u != from || i < l.sent_of(from).len() {
                let e = l.sent_of(u)[i];
                assert(next.sent_of(u)[i] == e);
                assert(l.tips.dom().contains(e.1));
            }
        }
    }
    assert(next.received_consistent()) by {
        assert forall|u: Seq<char>| #[trigger] next.received.dom().contains(u) implies next.received[u]
            is Some && next.profiles.dom().contains(u) by {
            if u != to_username {
                assert(l.received.dom().contains(u));
            }
        }
        assert forall|u: Seq<char>, i: int| 0 <= i < next.received_of(u).len() implies {
            &&& read(next.tips, (#[trigger] next.received_of(u)[i]).1) is Some
            &&& read(next.tips, next.received_of(u)[i].1)->0.to_username == u
            &&& read(next.tips, next.received_of(u)[i].1)->0.from_username == next.received_of(
                u,
            )[i].0
        } by {
            if u != to_username || i < l.received_of(to_username).len() {
                let e = l.received_of(u)[i];
                assert(next.received_of(u)[i] == e);
                assert(l.tips.dom().contains(e.1));
            }
        }
    }
}

/// The grant and the removal of admin rights keep the registry
/// consistent; in particular some wallet keeps a flag.
pub proof fn law_admin_changes_keep_consistency(
    l: Ledger,
    sender: Seq<char>,
    admin: Seq<char>,
    checked: Option<Seq<char>>,
)
    requires
        l.consistent(),
    ensures
        l.add_admin(sender, admin, checked) matches Ok(outcome) ==> outcome.ledger.consistent(),
        l.remove_admin(sender, admin, checked) matches Ok(outcome)
            ==> outcome.ledger.consistent(),
{
    if l.add_admin(sender, admin, checked) is Ok {
        let next = l.add_admin(sender, admin, checked)->Ok_0.ledger;
        assert(next.sent_consistent()) by {
            assert forall|u: Seq<char>, i: int| 0 <= i < next.sent_of(u).len() implies {
                &&& read(next.tips, (#[trigger] next.sent_of(u)[i]).1) is Some
                &&& read(next.tips, next.sent_of(u)[i].1)->0.from_username == u
                &&& read(next.tips, next.sent_of(u)[i].1)->0.to_username == next.sent_of(u)[i].0
            } by {
                assert(next.sent_of(u)[i] == l.sent_of(u)[i]);
            }
        }
        assert(next.received_consistent()) by {
            assert forall|u: Seq<char>, i: int| 0 <= i < next.received_of(u).len() implies {
                &&& read(next.tips, (#[trigger] next.received_of(u)[i]).1) is Some
                &&& read(next.tips, next.received_of(u)[i].1)->0.to_username == u
                &&& read(next.tips, next.received_of(u)[i].1)->0.from_username
                    == next.received_of(u)[i].0
            } by {
                assert(next.received_of(u)[i] == l.received_of(u)[i]);
            }
        }
    }
    if l.remove_admin(sender, admin, checked) is Ok {
        let next = l.remove_admin(sender, admin, checked)->Ok_0.ledger;
        assert(l.stray_admins =~= Set::empty());
        assert(next.sent_consistent()) by {
            assert forall|u: Seq<char>, i: int| 0 <= i < next.sent_of(u).len() implies {
                &&& read(next.tips, (#[trigger] next.sent_of(u)[i]).1) is Some
                &&& read(next.tips, next.sent_of(u)[i].1)->0.from_username == u
                &&& read(next.tips, next.sent_of(u)[i].1)->0.to_username == next.sent_of(u)[i].0
            } by {
                assert(next.sent_of(u)[i] == l.sent_of(u)[i]);
            }
        }
        assert(next.received_consistent()) by {
            assert forall|u: Seq<char>, i: int| 0 <= i < next.received_of(u).len() implies {
                &&& read(next.tips, (#[trigger] next.received_of(u)[i]).1) is Some
                &&& read(next.tips, next.received_of(u)[i].1)->0.to_username == u
                &&& read(next.tips, next.received_of(u)[i].1)->0.from_username
                    == next.received_of(u)[i].0
            } by {
                assert(next.received_of(u)[i] == l.received_of(u)[i]);
            }
        }
    }
}

/// Every command that succeeds on a consistent registry leaves a
/// consistent registry.
pub proof fn law_commands_keep_consistency(
    l: Ledger,
    sender: Seq<char>,
    now: u64,
    msg: ExecuteMsg,
    accepted: bool,
)
    requires
        l.consistent(),
        expected(l, sender, now, msg, accepted) is Ok,
    ensures
        expected(l, sender, now, msg, accepted)->Ok_0.ledger.consistent(),
{
    match msg {
        ExecuteMsg::RegisterProfile {
            username,
            name,
            bio,
            profile_picture,
            banner_image,
            twitter,
            website,
        } => {
            law_register_keeps_consistency(
                l,
                sender,
                now,
                username@,
                new_profile(name, bio, profile_picture, banner_image, twitter, website),
            );
        },
        ExecuteMsg::UpdateProfile {
            username,
            name,
            bio,
            profile_picture,
            banner_image,
            twitter,
            website,
        } => {
            law_update_keeps_consistency(
                l,
                sender,
                now,
                username@,
                profile_changes(name, bio, profile_picture, banner_image, twitter, website),
            );
        },
        ExecuteMsg::RecordTip { to_username, amount, message } => {
            law_record_tip_keeps_consistency(
                l,
                sender,
                now,
                to_username@,
                amount@,
                opt_text(message),
            );
        },
        ExecuteMsg::AddAdmin { admin } => {
            law_admin_changes_keep_consistency(l, sender, admin@, verdict(admin@, accepted));
        },
        ExecuteMsg::RemoveAdmin { admin } => {
            law_admin_changes_keep_consistency(l, sender, admin@, verdict(admin@, accepted));
        },
    }
}

/// On a consistent registry no command fails for the host's reasons but
/// where the host refuses an address, and every query can be answered.
pub proof fn law_consistent_is_served(
    l: Ledger,
    sender: Seq<char>,
    now: u64,
    command: ExecuteMsg,
    query: QueryMsg,
)
    requires
        l.consistent(),
    ensures
        expected(l, sender, now, command, true) matches Err(fault) ==> !(fault is Std),
        answerable(l, query),
{
    match command {
        ExecuteMsg::RegisterProfile { username, .. } => {
            if l.wallets.dom().contains(sender) {
            }
        },
        ExecuteMsg::UpdateProfile { username, .. } => {
            if l.profiles.dom().contains(username@) {
            }
        },
        ExecuteMsg::RecordTip { to_username, .. } => {
            if l.wallets.dom().contains(sender) {
                let from = l.wallets[sender]->0;
                if l.sent.dom().contains(from) {
                }
                if l.received.dom().contains(to_username@) {
                }
            }
        },
        ExecuteMsg::AddAdmin { .. } => {},
        ExecuteMsg::RemoveAdmin { .. } => {},
    }
    match query {
        QueryMsg::GetProfile { username } => {
            if l.profiles.dom().contains(username@) {
            }
        },
        QueryMsg::GetProfileByWallet { wallet } => {
            if l.wallets.dom().contains(wallet@) {
                assert(l.profiles.dom().contains(l.wallets[wallet@]->0));
            }
        },
        QueryMsg::ListProfiles { .. } => {
            assert forall|key: Seq<char>| l.profiles.dom().contains(key) implies (
            #[trigger] l.profiles[key]) is Some by {}
        },
        QueryMsg::GetTipsSent { username, .. } => {
            if l.sent.dom().contains(username@) {
            }
        },
        QueryMsg::GetTipsReceived { username, .. } => {
            if l.received.dom().contains(username@) {
            }
        },
        QueryMsg::GetTipDetail { from_username, to_username, timestamp } => {
            if l.tips.dom().contains(tip_key(from_username@, to_username@, timestamp.nanos)) {
            }
        },
        QueryMsg::GetUserStats { username } => {
            if l.sent.dom().contains(username@) {
            }
            if l.received.dom().contains(username@) {
            }
        },
        QueryMsg::IsAdmin { address } => {
            if l.admins.dom().contains(address@) {
            }
        },
        QueryMsg::IsUsernameAvailable { .. } => {},
    }
}

/// Sorting keeps what a sequence holds, and puts greater keys first.
pub proof fn lemma_sorted_keys(keys: Seq<Seq<char>>)
    ensures
        sorted_by(keys.sort_by(newest_first()), newest_first()),
        keys.sort_by(newest_first()).len() == keys.len(),
        forall|k: Seq<char>| keys.contains(k) <==> #[trigger] keys.sort_by(newest_first()).contains(k),
{
    broadcast use vstd::seq_lib::group_to_multiset_ensures;

    lemma_newest_first_total();
    keys.lemma_sort_by_ensures(newest_first());
    let sorted = keys.sort_by(newest_first());
    assert(sorted.len() == keys.len()) by {
        assert(keys.len() == keys.to_multiset().len());
        assert(sorted.len() == sorted.to_multiset().len());
    }
    assert forall|k: Seq<char>| keys.contains(k) <==> #[trigger] sorted.contains(k) by {
        assert(keys.contains(k) <==> keys.to_multiset().count(k) > 0);
        assert(sorted.contains(k) <==> sorted.to_multiset().count(k) > 0);
    }
}

/// What comes after the cursor is a key of the list, and is after the
/// cursor.
pub proof fn lemma_keys_after_sound(
    refs: Seq<(Seq<char>, Seq<char>)>,
    start_after: Option<Seq<char>>,
    key: Seq<char>,
)
    requires
        keys_after(refs, start_after).contains(key),
    ensures
        is_after(key, start_after),
        exists|i: int| 0 <= i < refs.len() && (#[trigger] refs[i]).1 == key,
    decreases refs.len(),
{
    if refs.len() > 0 {
        let rest = keys_after(refs.drop_last(), start_after);
        if is_after(refs.last().1, start_after) && refs.last().1 == key {
            assert(refs[refs.len() - 1].1 == key);
        } else {
            let j = choose|j: int|
                0 <= j < keys_after(refs, start_after).len() && keys_after(refs, start_after)[j]
                    == key;
            assert(rest[j] == key);
            lemma_keys_after_sound(refs.drop_last(), start_after, key);
            let i = choose|i: int|
                0 <= i < refs.drop_last().len() && (#[trigger] refs.drop_last()[i]).1 == key;
            assert(refs[i].1 == key);
        }
    }
}

/// Every key of the list that is after the cursor comes after the cursor.
pub proof fn lemma_keys_after_complete(
    refs: Seq<(Seq<char>, Seq<char>)>,
    start_after: Option<Seq<char>>,
    i: int,
)
    requires
        0 <= i < refs.len(),
        is_after(refs[i].1, start_after),
    ensures
        keys_after(refs, start_after).contains(refs[i].1),
    decreases refs.len(),
{
    let all = keys_after(refs, start_after);
    let rest = keys_after(refs.drop_last(), start_after);
    if i == refs.len() - 1 {
        assert(all[all.len() - 1] == refs[i].1);
    } else {
        lemma_keys_after_complete(refs.drop_last(), start_after, i);
        let j = choose|j: int| 0 <= j < rest.len() && rest[j] == refs.drop_last()[i].1;
        assert(all[j] == refs[i].1);
    }
}

/// Within a page, keys do not ascend: each is no less than the next. (A
/// list can hold a key twice, so they need not descend strictly.)
pub proof fn law_page_descends(
    refs: Seq<(Seq<char>, Seq<char>)>,
    limit: nat,
    start_after: Option<Seq<char>>,
)
    ensures
        forall|i: int, j: int|
            0 <= i < j < page_keys(refs, limit, start_after).len() ==> text_le(
                #[trigger] page_keys(refs, limit, start_after)[j],
                #[trigger] page_keys(refs, limit, start_after)[i],
            ),
        page_keys(refs, limit, start_after).len() <= limit,
{
    let keys = keys_after(refs, start_after);
    lemma_sorted_keys(keys);
    let sorted = keys.sort_by(newest_first());
    let page = page_keys(refs, limit, start_after);
    assert forall|i: int, j: int| 0 <= i < j < page.len() implies text_le(
        #[trigger] page[j],
        #[trigger] page[i],
    ) by {
        assert(newest_first()(sorted[i], sorted[j]));
    }
}

/// Where no key comes twice after the cursor, the keys of a page descend
/// strictly.
pub proof fn law_page_descends_strictly(
    refs: Seq<(Seq<char>, Seq<char>)>,
    limit: nat,
    start_after: Option<Seq<char>>,
)
    requires
        keys_after(refs, start_after).no_duplicates(),
    ensures
        forall|i: int, j: int|
            0 <= i < j < page_keys(refs, limit, start_after).len() ==> text_lt(
                #[trigger] page_keys(refs, limit, start_after)[j],
                #[trigger] page_keys(refs, limit, start_after)[i],
            ),
{
    let keys = keys_after(refs, start_after);
    let sorted = keys.sort_by(newest_first());
    let page = page_keys(refs, limit, start_after);
    lemma_newest_first_total();
    keys.lemma_sort_by_ensures(newest_first());
    keys.lemma_multiset_has_no_duplicates();
    sorted.lemma_multiset_has_no_duplicates_conv();
    assert forall|i: int, j: int| 0 <= i < j < page.len() implies text_lt(
        #[trigger] page[j],
        #[trigger] page[i],
    ) by {
        assert(newest_first()(sorted[i], sorted[j]));
        assert(sorted[i] != sorted[j]);
    }
}

/// Every key of a page is a key of the list, and comes after the cursor.
pub proof fn law_page_follows_cursor(
    refs: Seq<(Seq<char>, Seq<char>)>,
    limit: nat,
    start_after: Option<Seq<char>>,
    i: int,
)
    requires
        0 <= i < page_keys(refs, limit, start_after).len(),
    ensures
        is_after(page_keys(refs, limit, start_after)[i], start_after),
        exists|j: int|
            0 <= j < refs.len() && (#[trigger] refs[j]).1 == page_keys(refs, limit, start_after)[i],
{
    let keys = keys_after(refs, start_after);
    lemma_sorted_keys(keys);
    let sorted = keys.sort_by(newest_first());
    let key = page_keys(refs, limit, start_after)[i];
    assert(sorted[i] == key);
    assert(sorted.contains(key));
    lemma_keys_after_sound(refs, start_after, key);
}

/// Where a page holds a single key, the page after it is empty: the two
/// pages together descend strictly.
pub proof fn law_page_after_single_key_is_empty(
    refs: Seq<(Seq<char>, Seq<char>)>,
    limit: nat,
    start_after: Option<Seq<char>>,
)
    requires
        page_keys(refs, limit, start_after).len() == 1,
    ensures
        page_keys(refs, limit, Some(page_keys(refs, limit, start_after)[0])).len() == 0,
{
    let keys = keys_after(refs, start_after);
    lemma_sorted_keys(keys);
    let sorted = keys.sort_by(newest_first());
    let top = page_keys(refs, limit, start_after)[0];
    assert(sorted[0] == top);
    assert(sorted.contains(top));
    lemma_keys_after_sound(refs, start_after, top);
    let next = keys_after(refs, Some(top));
    if next.len() > 0 {
        let e = next[0];
        assert(next.contains(e));
        lemma_keys_after_sound(refs, Some(top), e);
        let i = choose|i: int| 0 <= i < refs.len() && (#[trigger] refs[i]).1 == e;
        if start_after is Some {
            lemma_text_lt_transitive(start_after->0, top, e);
        }
        lemma_keys_after_complete(refs, start_after, i);
        assert(sorted.contains(e));
        let j = choose|j: int| 0 <= j < sorted.len() && sorted[j] == e;
        lemma_text_lt_irreflexive(top);
        if j > 0 {
            assert(newest_first()(sorted[0], sorted[j]));
            lemma_text_lt_asymmetric(top, e);
        }
    }
    lemma_sorted_keys(next);
}

/// What is filed under a key is what a list of that one key resolves to.
pub proof fn lemma_single_entry(
    entry: (Seq<char>, Seq<char>),
    limit: nat,
    tips: Map<Seq<char>, Option<TipView>>,
)
    requires
        limit >= 1,
        read(tips, entry.1) is Some,
    ensures
        resolve(page_keys(seq![entry], limit, None), tips) == seq![read(tips, entry.1)->0],
        total_amount(seq![entry], tips) == amount_value(read(tips, entry.1)->0.amount),
{
    let refs = seq![entry];
    assert(refs.drop_last() =~= Seq::empty());
    assert(keys_after(refs.drop_last(), None) =~= Seq::empty());
    let keys = keys_after(refs, None);
    assert(keys =~= seq![entry.1]);
    lemma_sorted_keys(keys);
    let sorted = keys.sort_by(newest_first());
    assert(keys.contains(entry.1)) by {
        assert(keys[0] == entry.1);
    }
    assert(sorted.contains(sorted[0]));
    assert(keys.contains(sorted[0]));
    assert(sorted =~= seq![entry.1]);
    let page = page_keys(refs, limit, None);
    assert(page =~= seq![entry.1]);
    assert(page.drop_last() =~= Seq::empty());
    assert(resolve(page.drop_last(), tips) =~= Seq::empty());
    assert(resolve(page, tips) =~= seq![read(tips, entry.1)->0]);
    assert(total_amount(refs.drop_last(), tips) == 0);
}

/// In a registry whose profiles and wallets answer to each other: after a
/// user's first tip to a user who had received none, the sender's tips sent
/// and the recipient's tips received are that one tip, and the sender's
/// total sent is what the tip's amount counts for.
pub proof fn law_first_tip_is_listed(
    l: Ledger,
    sender: Seq<char>,
    now: u64,
    to_username: Seq<char>,
    amount: Seq<char>,
    message: Option<Seq<char>>,
    limit: nat,
)
    requires
        l.record_tip(sender, now, to_username, amount, message) is Ok,
        l.sent_of(l.wallets[sender]->0).len() == 0,
        l.received_of(to_username).len() == 0,
        l.identities_consistent(),
        limit >= 1,
    ensures
        ({
            let next = l.record_tip(sender, now, to_username, amount, message)->Ok_0.ledger;
            let from = l.wallets[sender]->0;
            let tip = TipView {
                from_username: from,
                to_username,
                amount,
                message,
                timestamp: now,
            };
            &&& next.tips_sent(from, limit, None) == seq![tip]
            &&& next.tips_received(to_username, limit, None) == seq![tip]
            &&& next.stats(from).total_tips_sent == 1
            &&& next.stats(to_username).total_tips_received == 1
            &&& next.stats(from).total_amount_sent == amount_text(amount_value(amount))
            &&& next.stats(to_username).total_amount_received == amount_text(amount_value(amount))
        }),
{
    let next = l.record_tip(sender, now, to_username, amount, message)->Ok_0.ledger;
    let from = l.wallets[sender]->0;
    let key = tip_key(from, to_username, now);
    assert(l.wallets.dom().contains(sender));
    assert(l.profiles.dom().contains(from));
    assert(next.sent_of(from) =~= seq![(to_username, key)]);
    assert(next.received_of(to_username) =~= seq![(from, key)]);
    lemma_single_entry((to_username, key), limit, next.tips);
    lemma_single_entry((from, key), limit, next.tips);
}

/// The total of a list does not change when a tip is filed under a key
/// that the list does not hold.
pub proof fn lemma_total_amount_unaffected(
    refs: Seq<(Seq<char>, Seq<char>)>,
    tips: Map<Seq<char>, Option<TipView>>,
    key: Seq<char>,
    tip: TipView,
)
    requires
        forall|i: int| 0 <= i < refs.len() ==> (#[trigger] refs[i]).1 != key,
    ensures
        total_amount(refs, tips.insert(key, Some(tip))) == total_amount(refs, tips),
    decreases refs.len(),
{
    if refs.len() > 0 {
        assert(refs.last() == refs[refs.len() - 1]);
        assert forall|i: int| 0 <= i < refs.drop_last().len() implies (#[trigger] refs.drop_last()[i]).1
            != key by {
            assert(refs.drop_last()[i] == refs[i]);
        }
        lemma_total_amount_unaffected(refs.drop_last(), tips, key, tip);
    }
}

/// In a consistent registry, a tip under a key that was free adds one
/// entry to the sender's tips sent and one to the recipient's tips
/// received, and what its amount counts for to the sender's total sent and
/// to the recipient's total received.
pub proof fn law_tip_adds_to_totals(
    l: Ledger,
    sender: Seq<char>,
    now: u64,
    to_username: Seq<char>,
    amount: Seq<char>,
    message: Option<Seq<char>>,
)
    requires
        l.consistent(),
        l.record_tip(sender, now, to_username, amount, message) is Ok,
        !l.tips.dom().contains(tip_key(l.wallets[sender]->0, to_username, now)),
    ensures
        ({
            let next = l.record_tip(sender, now, to_username, amount, message)->Ok_0.ledger;
            let from = l.wallets[sender]->0;
            &&& next.sent_of(from).len() == l.sent_of(from).len() + 1
            &&& next.received_of(to_username).len() == l.received_of(to_username).len() + 1
            &&& total_amount(next.sent_of(from), next.tips) == total_amount(l.sent_of(from), l.tips)
                + amount_value(amount)
            &&& total_amount(next.received_of(to_username), next.tips) == total_amount(
                l.received_of(to_username),
                l.tips,
            ) + amount_value(amount)
        }),
{
    let next = l.record_tip(sender, now, to_username, amount, message)->Ok_0.ledger;
    let from = l.wallets[sender]->0;
    let key = tip_key(from, to_username, now);
    let tip = next.tips[key]->0;
    let sent = l.sent_of(from);
    let received = l.received_of(to_username);
    assert(next.sent_of(from) =~= sent.push((to_username, key)));
    assert(next.received_of(to_username) =~= received.push((from, key)));
    assert(sent.push((to_username, key)).drop_last() =~= sent);
    assert(received.push((from, key)).drop_last() =~= received);
    assert forall|i: int| 0 <= i < sent.len() implies (#[trigger] sent[i]).1 != key by {
        assert(read(l.tips, l.sent_of(from)[i].1) is Some);
    }
    assert forall|i: int| 0 <= i < received.len() implies (#[trigger] received[i]).1 != key by {
        assert(read(l.tips, l.received_of(to_username)[i].1) is Some);
    }
    lemma_total_amount_unaffected(sent, l.tips, key, tip);
    lemma_total_amount_unaffected(received, l.tips, key, tip);
    assert(next.tips =~= l.tips.insert(key, Some(tip)));
}

/// In a consistent registry no two profiles have the same owner.
pub proof fn law_owners_are_unique(l: Ledger, username1: Seq<char>, username2: Seq<char>)
    requires
        l.identities_consistent(),
        l.profiles.dom().contains(username1),
        l.profiles.dom().contains(username2),
        l.profiles[username1]->0.wallet_address == l.profiles[username2]->0.wallet_address,
    ensures
        username1 == username2,
{
}

/// No command takes anything away but an admin's flag: profiles and
/// wallets stay, and stay with their owners; tips stay, and only a tip of
/// the same sender, recipient and time is written over; every list of tips
/// sent or received keeps its entries and grows at its end only.
pub proof fn law_commands_only_add(
    l: Ledger,
    sender: Seq<char>,
    now: u64,
    msg: ExecuteMsg,
    accepted: bool,
)
    requires
        expected(l, sender, now, msg, accepted) is Ok,
    ensures
        ({
            let next = expected(l, sender, now, msg, accepted)->Ok_0.ledger;
            &&& forall|u: Seq<char>| #[trigger]
                l.profiles.dom().contains(u) ==> next.profiles.dom().contains(u) && (l.profiles[u]
                    matches Some(before) ==> next.profiles[u] matches Some(after) && after.username
                    == before.username && after.wallet_address == before.wallet_address
                    && after.created_at == before.created_at)
            &&& forall|w: Seq<char>| #[trigger]
                l.wallets.dom().contains(w) ==> next.wallets.dom().contains(w) && next.wallets[w]
                    == l.wallets[w]
            &&& forall|k: Seq<char>| #[trigger]
                l.tips.dom().contains(k) ==> next.tips.dom().contains(k) && (next.tips[k]
                    == l.tips[k] || (msg matches ExecuteMsg::RecordTip { to_username, .. } && k
                    == tip_key(l.wallets[sender]->0, to_username@, now)))
            &&& forall|u: Seq<char>|
                l.sent_of(u).len() <= (#[trigger] next.sent_of(u)).len() && next.sent_of(u).take(
                    l.sent_of(u).len() as int,
                ) == l.sent_of(u)
            &&& forall|u: Seq<char>|
                l.received_of(u).len() <= (#[trigger] next.received_of(u)).len()
                    && next.received_of(u).take(l.received_of(u).len() as int) == l.received_of(u)
        }),
{
    let next = expected(l, sender, now, msg, accepted)->Ok_0.ledger;
    assert forall|u: Seq<char>|
        l.sent_of(u).len() <= (#[trigger] next.sent_of(u)).len() && next.sent_of(u).take(
            l.sent_of(u).len() as int,
        ) == l.sent_of(u) by {
        assert(next.sent_of(u).take(l.sent_of(u).len() as int) =~= l.sent_of(u));
    }
    assert forall|u: Seq<char>|
        l.received_of(u).len() <= (#[trigger] next.received_of(u)).len() && next.received_of(
            u,
        ).take(l.received_of(u).len() as int) == l.received_of(u) by {
        assert(next.received_of(u).take(l.received_of(u).len() as int) =~= l.received_of(u));
    }
}

} // verus!
