//! The list of loadouts that the import dialog offers, and the order in
//! which it shows them.

use vstd::prelude::*;
use crate::firstlaunch::filenamified;
use crate::firstlaunch::safe_file_name;
use crate::firstlaunch::DmmConfig;
use crate::namemap::names_of;
use crate::namemap::value_of;
use crate::text::chars_le;
use crate::text::chars_of;
use crate::text::lex_le;
use crate::text::lex_le_antisymmetric;
use crate::text::lex_le_reflexive;
use crate::text::lex_le_total;
use crate::text::lex_le_transitive;
use crate::text::texts;

verus! {

/// A loadout as the import dialog shows it: its name and whether the user
/// wants it imported.
#[derive(Clone, Debug, PartialEq, Eq)]
pub struct Loadout {
    pub name: String,
    pub import: bool,
}

/// What a [`Loadout`] holds.
pub struct LoadoutChoice {
    pub name: Seq<char>,
    pub import: bool,
}

impl View for Loadout {
    type V = LoadoutChoice;

    open spec fn view(&self) -> LoadoutChoice {
        LoadoutChoice { name: self.name@, import: self.import }
    }
}

/// The names of the dialog's entries `shown`, in order.
pub open spec fn shown_names(shown: Seq<Loadout>) -> Seq<Seq<char>> {
    shown.map_values(|l: Loadout| l.name@)
}

/// The order of the import dialog: by file name, and among names with one
/// file name by the name itself.
pub open spec fn listed_before(a: Seq<char>, b: Seq<char>) -> bool {
    if filenamified(a) == filenamified(b) {
        lex_le(a, b)
    } else {
        lex_le(filenamified(a), filenamified(b))
    }
}

/// Whether each name of `listing` is listed before those behind it.
pub open spec fn in_listing_order(listing: Seq<Seq<char>>) -> bool {
    forall|i: int, j: int|
        0 <= i < j < listing.len() ==> listed_before(#[trigger] listing[i], #[trigger] listing[j])
}

/// Whether `listing` presents the loadouts named `names`: each name as often
/// as it stands in `names`, in the dialog's order.
pub open spec fn is_listing(names: Seq<Seq<char>>, listing: Seq<Seq<char>>) -> bool {
    &&& listing.to_multiset() == names.to_multiset()
    &&& in_listing_order(listing)
}

/// Of two names one is listed before the other.
pub proof fn listed_before_total(a: Seq<char>, b: Seq<char>)
    ensures
        listed_before(a, b) || listed_before(b, a),
{
    lex_le_total(a, b);
    lex_le_total(filenamified(a), filenamified(b));
}

/// The dialog's order passes along a chain of three names.
pub proof fn listed_before_transitive(a: Seq<char>, b: Seq<char>, c: Seq<char>)
    requires
        listed_before(a, b),
        listed_before(b, c),
    ensures
        listed_before(a, c),
{
    let (ka, kb, kc) = (filenamified(a), filenamified(b), filenamified(c));
    if ka == kb && kb == kc {
        lex_le_transitive(a, b, c);
    } else {
        lex_le_reflexive(kb);
        lex_le_transitive(ka, kb, kc);
        if ka == kc {
            lex_le_antisymmetric(ka, kb);
        }
    }
}

/// Two names that are each listed before the other are one name.
pub proof fn listed_before_antisymmetric(a: Seq<char>, b: Seq<char>)
    requires
        listed_before(a, b),
        listed_before(b, a),
    ensures
        a == b,
{
    if filenamified(a) == filenamified(b) {
        lex_le_antisymmetric(a, b);
    } else {
        lex_le_antisymmetric(filenamified(a), filenamified(b));
    }
}

/// The names `names` have one listing only: what the dialog shows does not
/// depend on the order in which the loadouts were stored.
pub proof fn listing_is_unique(names: Seq<Seq<char>>, first: Seq<Seq<char>>, second: Seq<Seq<char>>)
    requires
        is_listing(names, first),
        is_listing(names, second),
    ensures
        first == second,
{
    let before = |a: Seq<char>, b: Seq<char>| listed_before(a, b);
    assert(vstd::relations::total_ordering(before)) by {
        assert forall|a: Seq<char>| #[trigger] before(a, a) by {
            lex_le_reflexive(a);
        }
        assert forall|a: Seq<char>, b: Seq<char>| #[trigger]
            before(a, b) && #[trigger] before(b, a) implies a == b by {
            listed_before_antisymmetric(a, b);
        }
        assert forall|a: Seq<char>, b: Seq<char>, c: Seq<char>| #[trigger]
            before(a, b) && #[trigger] before(b, c) implies before(a, c) by {
            listed_before_transitive(a, b, c);
        }
        assert forall|a: Seq<char>, b: Seq<char>| #[trigger] before(a, b) || #[trigger] before(b, a) by {
            listed_before_total(a, b);
        }
    }
    assert(vstd::relations::sorted_by(first, before));
    assert(vstd::relations::sorted_by(second, before));
    vstd::seq_lib::lemma_sorted_unique(first, second, before);
}

/// Two loadouts whose names differ are both in the listing, at different
/// places, also where their file names are the same.
pub proof fn colliding_names_stay_apart(
    names: Seq<Seq<char>>,
    listing: Seq<Seq<char>>,
    a: Seq<char>,
    b: Seq<char>,
)
    requires
        is_listing(names, listing),
        names.contains(a),
        names.contains(b),
        a != b,
        filenamified(a) == filenamified(b),
    ensures
        listing.len() == names.len(),
        exists|i: int, j: int|
            0 <= i < listing.len() && 0 <= j < listing.len() && i != j && listing[i] == a
                && listing[j] == b,
{
    broadcast use vstd::seq_lib::group_to_multiset_ensures;

    assert(listing.to_multiset().len() == listing.len());
    assert(names.to_multiset().len() == names.len());
    assert(names.to_multiset().count(a) > 0);
    assert(names.to_multiset().count(b) > 0);
    assert(listing.contains(a));
    assert(listing.contains(b));
    let i = choose|i: int| 0 <= i < listing.len() && listing[i] == a;
    let j = choose|j: int| 0 <= j < listing.len() && listing[j] == b;
    assert(i != j);
}

/// The key by which a name is placed in the dialog: the characters of its
/// file name and its own.
struct ListingKey {
    safe: Vec<char>,
    name: Vec<char>,
}

impl ListingKey {
    spec fn wf(&self) -> bool {
        self.safe@ == filenamified(self.name@)
    }

    fn of(name: &str) -> (out: Self)
        ensures
            out.wf(),
            out.name@ == name@,
    {
        let safe = safe_file_name(name);
        ListingKey { safe: chars_of(safe.as_str()), name: chars_of(name) }
    }

    fn before(&self, other: &ListingKey) -> (le: bool)
        requires
            self.wf(),
            other.wf(),
        ensures
            le == listed_before(self.name@, other.name@),
    {
        let up = chars_le(&self.safe, &other.safe);
        let down = chars_le(&other.safe, &self.safe);
        proof {
            if up && down {
                lex_le_antisymmetric(self.safe@, other.safe@);
            }
            if self.safe@ == other.safe@ {
                lex_le_reflexive(self.safe@);
            }
        }
        if up && down {
            chars_le(&self.name, &other.name)
        } else {
            up
        }
    }
}

/// The loadouts of the profile `profile_key` for the import dialog, each
/// under its own name and marked for import. Nothing is listed where the
/// configuration has no such profile.
pub fn list_loadouts(config: &DmmConfig, profile_key: &str) -> (shown: Vec<Loadout>)
    ensures
        match value_of(config.configs@, profile_key@) {
            Some(profile) => is_listing(names_of(profile.loadouts@), shown_names(shown@)),
            None => shown@.len() == 0,
        },
        forall|i: int| 0 <= i < shown@.len() ==> shown@[i].import,
{
    let mut shown: Vec<Loadout> = Vec::new();
    let profile = match config.configs.get(profile_key) {
        Some(profile) => profile,
        None => {
            return shown;
        },
    };
    let mut keys: Vec<ListingKey> = Vec::new();
    let count = profile.loadouts.len();
    let ghost names = names_of(profile.loadouts@);
    assert(shown_names(shown@) =~= names.take(0));
    for i in 0..count
        invariant
            count == profile.loadouts@.len(),
            names == names_of(profile.loadouts@),
            keys@.len() == shown@.len(),
            forall|k: int|
                0 <= k < keys@.len() ==> (#[trigger] keys@[k]).wf() && keys@[k].name@
                    == shown@[k].name@,
            forall|k: int| 0 <= k < shown@.len() ==> shown@[k].import,
            in_listing_order(shown_names(shown@)),
            shown_names(shown@).to_multiset() == names.take(i as int).to_multiset(),
    {
        let name = profile.loadouts.name_at(i);
        let key = ListingKey::of(name.as_str());
        let ghost listed = shown_names(shown@);
        let mut at: usize = 0;
        while at < keys.len() && keys[at].before(&key)
            invariant
                at <= keys@.len(),
                keys@.len() == shown@.len(),
                listed == shown_names(shown@),
                key.wf(),
                key.name@ == name@,
                forall|k: int|
                    0 <= k < keys@.len() ==> (#[trigger] keys@[k]).wf() && keys@[k].name@
                        == shown@[k].name@,
                forall|k: int| 0 <= k < at ==> listed_before(#[trigger] listed[k], name@),
            decreases keys@.len() - at,
        {
            at += 1;
        }
        proof {
            let after = listed.insert(at as int, name@);
            assert forall|a: int, b: int| 0 <= a < b < after.len() implies listed_before(
                #[trigger] after[a],
                #[trigger] after[b],
            ) by {
                if b == at {
                    assert(after[a] == listed[a]);
                } else if a == at {
                    assert(after[b] == listed[b - 1]);
                    assert(keys@[at as int].wf());
                    listed_before_total(listed[at as int], name@);
                    if b - 1 > at {
                        listed_before_transitive(name@, listed[at as int], listed[b - 1]);
                    }
                } else {
                    let x = if a < at { a } else { a - 1 };
                    let y = if b < at { b } else { b - 1 };
                    assert(after[a] == listed[x] && after[b] == listed[y]);
                }
            }
            vstd::seq_lib::to_multiset_insert(listed, at as int, name@);
            names.lemma_take_succ_push(i as int);
            vstd::seq_lib::to_multiset_build(names.take(i as int), name@);
        }
        keys.insert(at, key);
        shown.insert(at, Loadout { name: name.clone(), import: true });
        assert(shown_names(shown@) =~= listed.insert(at as int, name@));
    }
    assert(names.take(count as int) =~= names);
    shown
}


/// What the dialog's entries `shown` hold, in order.
pub open spec fn choices(shown: Seq<Loadout>) -> Seq<LoadoutChoice> {
    shown.map_values(|l: Loadout| l@)
}

/// The names of the entries that are marked for import, in the dialog's
/// order.
pub open spec fn chosen_names(shown: Seq<LoadoutChoice>) -> Seq<Seq<char>> {
    shown.filter(|l: LoadoutChoice| l.import).map_values(|l: LoadoutChoice| l.name)
}

/// The names of the loadouts that the user marked for import.
pub fn chosen_loadouts(shown: &Vec<Loadout>) -> (chosen: Vec<String>)
    ensures
        texts(chosen@) == chosen_names(choices(shown@)),
{
    let mut chosen: Vec<String> = Vec::new();
    let ghost marked = |l: LoadoutChoice| l.import;
    let ghost name = |l: LoadoutChoice| l.name;
    let ghost all = choices(shown@);
    assert(all.take(0).filter(marked).map_values(name) =~= texts(chosen@)) by {
        reveal(Seq::filter);
    }
    for i in 0..shown.len()
        invariant
            all == choices(shown@),
            marked == |l: LoadoutChoice| l.import,
            name == |l: LoadoutChoice| l.name,
            texts(chosen@) == all.take(i as int).filter(marked).map_values(name),
    {
        let ghost before = chosen@;
        proof {
            all.lemma_take_succ_push(i as int);
            all.take(i as int).lemma_filter_push(all[i as int], marked);
        }
        if shown[i].import {
            chosen.push(shown[i].name.clone());
            proof {
                all.take(i as int).filter(marked).lemma_push_map_commute(name, all[i as int]);
                assert(texts(chosen@) =~= texts(before).push(shown@[i as int].name@));
            }
        }
    }
    assert(all.take(shown.len() as int) =~= all);
    chosen
}

} // verus!
