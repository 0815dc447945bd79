//! The SSH keys of the vault.

use vstd::prelude::*;
use vstd::string::*;

use crate::agent::{Agent, Entry, EntryData};
use crate::crypto::{
    bytes_view, private_key_in, private_key_view, public_key_in, read_private_key,
    read_public_key, PrivateKey, PrivateKeyView,
};
use crate::error::{text_of, Failure, FailureView};
use crate::text::same_bytes;
use crate::vault::in_order;

verus! {

broadcast use vstd::string::group_string_axioms;

/// An encrypted secret, with the key of its entry and the organization that it belongs to.
#[derive(Clone, Debug, PartialEq, Eq)]
pub struct Secret {
    pub cipherstring: String,
    pub entry_key: Option<String>,
    pub org_id: Option<String>,
}

/// What a [`Secret`] says.
#[verifier::ext_equal]
pub struct SecretView {
    pub cipherstring: Seq<char>,
    pub entry_key: Option<Seq<char>>,
    pub org_id: Option<Seq<char>>,
}

impl View for Secret {
    type V = SecretView;

    open spec fn view(&self) -> SecretView {
        SecretView {
            cipherstring: self.cipherstring@,
            entry_key: text_of(self.entry_key),
            org_id: text_of(self.org_id),
        }
    }
}

/// A list of secrets by their views.
pub open spec fn secret_views(secrets: Seq<Secret>) -> Seq<SecretView> {
    secrets.map_values(|secret: Secret| secret@)
}

/// The two halves of an SSH key, both of them encrypted.
#[derive(Clone, Debug, PartialEq, Eq)]
pub struct KeyPair {
    pub public: Secret,
    pub private: Secret,
}

/// What a [`KeyPair`] says.
#[verifier::ext_equal]
pub struct KeyPairView {
    pub public: SecretView,
    pub private: SecretView,
}

impl View for KeyPair {
    type V = KeyPairView;

    open spec fn view(&self) -> KeyPairView {
        KeyPairView { public: self.public@, private: self.private@ }
    }
}

/// A list of key pairs by their views.
pub open spec fn pair_views(pairs: Seq<KeyPair>) -> Seq<KeyPairView> {
    pairs.map_values(|pair: KeyPair| pair@)
}

/// A secret of an entry.
pub open spec fn secret_of(entry: Entry, cipherstring: Seq<char>) -> SecretView {
    SecretView { cipherstring, entry_key: text_of(entry.key), org_id: text_of(entry.org_id) }
}

/// The public half of the SSH key that an entry is, where it has one.
pub open spec fn public_secret(entry: Entry) -> Option<SecretView> {
    match entry.data {
        EntryData::SshKey { public_key: Some(public), .. } => Some(secret_of(entry, public@)),
        _ => None,
    }
}

/// The SSH key that an entry is, where it has both halves.
pub open spec fn key_pair(entry: Entry) -> Option<KeyPairView> {
    match entry.data {
        EntryData::SshKey { public_key: Some(public), private_key: Some(private) } => Some(
            KeyPairView {
                public: secret_of(entry, public@),
                private: secret_of(entry, private@),
            },
        ),
        _ => None,
    }
}

/// What is picked from each entry of a list, in order, where there is something.
pub open spec fn picked<T>(entries: Seq<Entry>, pick: spec_fn(Entry) -> Option<T>) -> Seq<T>
    decreases entries.len(),
{
    if entries.len() == 0 {
        Seq::empty()
    } else {
        let rest = picked(entries.drop_last(), pick);
        match pick(entries.last()) {
            Some(item) => rest.push(item),
            None => rest,
        }
    }
}

/// Whether a secret is this text of this entry, with the key and the organization of the entry.
pub open spec fn is_text_of(secret: Secret, entry: Entry, text: String) -> bool {
    &&& secret.cipherstring@ == text@
    &&& secret.entry_key is Some <==> entry.key is Some
    &&& entry.key matches Some(key) ==> secret.entry_key->Some_0@ == key@
    &&& secret.org_id is Some <==> entry.org_id is Some
    &&& entry.org_id matches Some(org_id) ==> secret.org_id->Some_0@ == org_id@
}

/// Whether these are the public halves of the SSH keys that stand at these places of a vault.
pub open spec fn public_halves_at(
    secrets: Seq<Secret>,
    entries: Seq<Entry>,
    places: Seq<int>,
) -> bool {
    &&& secrets.len() == places.len()
    &&& in_order(places, entries.len())
    &&& forall|i: int|
        0 <= i < places.len() ==> (entries[#[trigger] places[i]].data matches EntryData::SshKey {
            public_key: Some(public),
            ..
        } && is_text_of(secrets[i], entries[places[i]], public))
    &&& forall|k: int|
        #![trigger entries[k]]
        0 <= k < entries.len() && (entries[k].data matches EntryData::SshKey {
            public_key: Some(_),
            ..
        }) ==> places.contains(k)
}

/// Whether these are the SSH keys with both halves that stand at these places of a vault.
pub open spec fn key_pairs_at(pairs: Seq<KeyPair>, entries: Seq<Entry>, places: Seq<int>) -> bool {
    &&& pairs.len() == places.len()
    &&& in_order(places, entries.len())
    &&& forall|i: int|
        0 <= i < places.len() ==> (entries[#[trigger] places[i]].data matches EntryData::SshKey {
            public_key: Some(public),
            private_key: Some(private),
        } && is_text_of(pairs[i].public, entries[places[i]], public) && is_text_of(
            pairs[i].private,
            entries[places[i]],
            private,
        ))
    &&& forall|k: int|
        #![trigger entries[k]]
        0 <= k < entries.len() && (entries[k].data matches EntryData::SshKey {
            public_key: Some(_),
            private_key: Some(_),
        }) ==> places.contains(k)
}

/// A copy of an optional string.
fn copy_of(s: &Option<String>) -> (res: Option<String>)
    ensures
        text_of(res) == text_of(*s),
        res is Some <==> *s is Some,
        *s matches Some(text) ==> res->Some_0@ == text@,
{
    match s {
        Some(x) => Some(x.clone()),
        None => None,
    }
}

/// A secret of an entry.
fn entry_secret(entry: &Entry, cipherstring: &String) -> (res: Secret)
    ensures
        res@ == secret_of(*entry, cipherstring@),
        is_text_of(res, *entry, *cipherstring),
{
    Secret {
        cipherstring: cipherstring.clone(),
        entry_key: copy_of(&entry.key),
        org_id: copy_of(&entry.org_id),
    }
}

/// The public halves of the SSH keys of a vault, in order.
pub fn public_secrets(entries: &Vec<Entry>) -> (res: Vec<Secret>)
    ensures
        secret_views(res@) == picked(entries@, |entry: Entry| public_secret(entry)),
        exists|places: Seq<int>| #[trigger] public_halves_at(res@, entries@, places),
{
    let ghost pick = |entry: Entry| public_secret(entry);
    let ghost mut places: Seq<int> = Seq::empty();
    let mut out: Vec<Secret> = Vec::new();
    let mut i: usize = 0;
    assert(secret_views(out@) =~= picked(entries@.take(0), pick));
    while i < entries.len()
        invariant
            i <= entries.len(),
            pick == (|entry: Entry| public_secret(entry)),
            secret_views(out@) == picked(entries@.take(i as int), pick),
            public_halves_at(out@, entries@.take(i as int), places),
        decreases entries.len() - i,
    {
        let ghost earlier = out@;
        let ghost earlier_places = places;
        assert(entries@.take(i + 1).drop_last() =~= entries@.take(i as int));
        assert(entries@.take(i + 1).last() == entries@[i as int]);
        if let EntryData::SshKey { public_key: Some(public), .. } = &entries[i].data {
            out.push(entry_secret(&entries[i], public));
            assert(secret_views(out@) =~= secret_views(earlier).push(out@.last()@));
            proof {
                places = places.push(i as int);
            }
        }
        proof {
            lemma_one_more_place(earlier_places, places, entries@, i as int);
        }
        i = i + 1;
    }
    assert(entries@.take(i as int) =~= entries@);
    assert(public_halves_at(out@, entries@, places));
    out
}

/// Places in the front of a list, and what is known of them where the list is one longer.
proof fn lemma_one_more_place(
    earlier: Seq<int>,
    places: Seq<int>,
    entries: Seq<Entry>,
    at: int,
)
    requires
        0 <= at < entries.len(),
        in_order(earlier, at as nat),
        places == earlier || places == earlier.push(at),
    ensures
        in_order(places, (at + 1) as nat),
        forall|k: int| earlier.contains(k) ==> places.contains(k),
        places == earlier.push(at) ==> places.contains(at),
        forall|k: int| 0 <= k < at ==> entries.take(at)[k] == #[trigger] entries.take(at + 1)[k],
        forall|i: int|
            0 <= i < earlier.len() ==> entries.take(at)[earlier[i]] == entries.take(
                at + 1,
            )[#[trigger] places[i]],
{
    if places == earlier.push(at) {
        assert(places[earlier.len() as int] == at);
        assert forall|k: int| earlier.contains(k) implies places.contains(k) by {
            let i = choose|i: int| 0 <= i < earlier.len() && earlier[i] == k;
            assert(places[i] == k);
        }
    }
}

/// The SSH keys of a vault that have both halves, in order.
pub fn key_pairs(entries: &Vec<Entry>) -> (res: Vec<KeyPair>)
    ensures
        pair_views(res@) == picked(entries@, |entry: Entry| key_pair(entry)),
        exists|places: Seq<int>| #[trigger] key_pairs_at(res@, entries@, places),
{
    let ghost pick = |entry: Entry| key_pair(entry);
    let ghost mut places: Seq<int> = Seq::empty();
    let mut out: Vec<KeyPair> = Vec::new();
    let mut i: usize = 0;
    assert(pair_views(out@) =~= picked(entries@.take(0), pick));
    while i < entries.len()
        invariant
            i <= entries.len(),
            pick == (|entry: Entry| key_pair(entry)),
            pair_views(out@) == picked(entries@.take(i as int), pick),
            key_pairs_at(out@, entries@.take(i as int), places),
        decreases entries.len() - i,
    {
        let ghost earlier = out@;
        let ghost earlier_places = places;
        assert(entries@.take(i + 1).drop_last() =~= entries@.take(i as int));
        assert(entries@.take(i + 1).last() == entries@[i as int]);
        if let EntryData::SshKey { public_key: Some(public), private_key: Some(private) } =
            &entries[i].data {
            let public = entry_secret(&entries[i], public);
            let private = entry_secret(&entries[i], private);
            out.push(KeyPair { public, private });
            assert(pair_views(out@) =~= pair_views(earlier).push(out@.last()@));
            proof {
                places = places.push(i as int);
            }
        }
        proof {
            lemma_one_more_place(earlier_places, places, entries@, i as int);
        }
        i = i + 1;
    }
    assert(entries@.take(i as int) =~= entries@);
    assert(key_pairs_at(out@, entries@, places));
    out
}

/// Where the search for the private half of a key stands, among the keys that have both.
#[derive(Clone, Debug, PartialEq, Eq)]
pub enum KeySearch {
    /// The public half of the key at this place is to be decrypted, and compared.
    Public(usize),
    /// The private half of the key at this place is the one that was searched for.
    Private(usize),
    /// No key has the public half that was searched for.
    Missing(Failure),
}

/// What a [`KeySearch`] says.
#[verifier::ext_equal]
pub enum KeySearchView {
    Public(nat),
    Private(nat),
    Missing(FailureView),
}

impl View for KeySearch {
    type V = KeySearchView;

    open spec fn view(&self) -> KeySearchView {
        match *self {
            KeySearch::Public(at) => KeySearchView::Public(at as nat),
            KeySearch::Private(at) => KeySearchView::Private(at as nat),
            KeySearch::Missing(e) => KeySearchView::Missing(e@),
        }
    }
}

/// A step of a search or its failure by its view.
pub open spec fn search_view(res: Result<KeySearch, Failure>) -> Result<
    KeySearchView,
    FailureView,
> {
    match res {
        Ok(search) => Ok(search@),
        Err(e) => Err(e@),
    }
}

/// The search of so many keys, from this place on.
pub open spec fn search_keys_from(count: nat, at: nat) -> KeySearchView {
    if at < count {
        KeySearchView::Public(at)
    } else {
        KeySearchView::Missing(FailureView::other("No matching private key found"@))
    }
}

/// The search after the public half at this place was read: the first that is the one searched
/// for ends it, and so does one that is no public key.
pub open spec fn search_after_key(
    count: nat,
    at: nat,
    wanted: Seq<u8>,
    public: Result<Seq<u8>, Seq<char>>,
) -> Result<KeySearchView, FailureView> {
    match public {
        Err(message) => Err(FailureView::other(message)),
        Ok(key) => Ok(
            if key == wanted {
                KeySearchView::Private(at)
            } else {
                search_keys_from(count, at + 1)
            },
        ),
    }
}

/// The search of so many keys, from this place on.
fn search_from(count: usize, at: usize) -> (res: KeySearch)
    ensures
        res@ == search_keys_from(count as nat, at as nat),
{
    if at < count {
        KeySearch::Public(at)
    } else {
        KeySearch::Missing(Failure::other("No matching private key found".to_owned()))
    }
}

/// Goes on with a search after the public half at this place was read.
pub fn compare_key(
    count: usize,
    at: usize,
    wanted: &[u8],
    public: Result<Vec<u8>, String>,
) -> (res: Result<KeySearch, Failure>)
    requires
        at < count,
    ensures
        search_view(res) == search_after_key(count as nat, at as nat, wanted@, bytes_view(public)),
        public matches Err(message) ==> (res matches Err(e) && e@ == FailureView::other(message@)),
        public matches Ok(key) ==> {
            &&& key@ == wanted@ ==> res == Ok::<KeySearch, Failure>(KeySearch::Private(at))
            &&& key@ != wanted@ && at + 1 < count ==> (res matches Ok(KeySearch::Public(next))
                && next == at + 1)
            &&& key@ != wanted@ && at + 1 == count ==> (res matches Ok(KeySearch::Missing(e)) && e@
                == FailureView::other("No matching private key found"@))
        },
{
    match public {
        Err(message) => Err(Failure::other(message)),
        Ok(key) => if same_bytes(key.as_slice(), wanted) {
            Ok(KeySearch::Private(at))
        } else {
            Ok(search_from(count, at + 1))
        },
    }
}

/// Goes on with a search after the public half at this place was decrypted.
pub fn compare_text(count: usize, at: usize, wanted: &[u8], text: &str) -> (res: Result<
    KeySearch,
    Failure,
>)
    requires
        at < count,
    ensures
        search_view(res) == search_after_key(
            count as nat,
            at as nat,
            wanted@,
            public_key_in(text@),
        ),
        public_key_in(text@) matches Err(message) ==> (res matches Err(e) && e@
            == FailureView::other(message)),
        public_key_in(text@) matches Ok(key) ==> {
            &&& key == wanted@ ==> res == Ok::<KeySearch, Failure>(KeySearch::Private(at))
            &&& key != wanted@ && at + 1 < count ==> (res matches Ok(KeySearch::Public(next))
                && next == at + 1)
            &&& key != wanted@ && at + 1 == count ==> (res matches Ok(KeySearch::Missing(e)) && e@
                == FailureView::other("No matching private key found"@))
        },
{
    compare_key(count, at, wanted, read_public_key(text))
}

/// A private key that was read, or a failure.
pub open spec fn private_key_outcome(key: Result<PrivateKeyView, Seq<char>>) -> Result<
    PrivateKeyView,
    FailureView,
> {
    match key {
        Ok(key) => Ok(key),
        Err(message) => Err(FailureView::other(message)),
    }
}

/// A private key or a failure by its view.
pub open spec fn found_key_view(res: Result<PrivateKey, Failure>) -> Result<
    PrivateKeyView,
    FailureView,
> {
    match res {
        Ok(key) => Ok(key@),
        Err(e) => Err(e@),
    }
}

/// Ends a search with the private half that was read.
pub fn found_key(key: Result<PrivateKey, String>) -> (res: Result<PrivateKey, Failure>)
    ensures
        found_key_view(res) == private_key_outcome(private_key_view(key)),
        key matches Ok(found) ==> res == Ok::<PrivateKey, Failure>(found),
        key matches Err(message) ==> (res matches Err(e) && e@ == FailureView::other(message@)),
{
    match key {
        Ok(key) => Ok(key),
        Err(message) => Err(Failure::other(message)),
    }
}

/// Ends a search with the private half that was decrypted.
pub fn found_text(text: &str) -> (res: Result<PrivateKey, Failure>)
    ensures
        found_key_view(res) == private_key_outcome(private_key_in(text@)),
        private_key_in(text@) matches Ok(key) ==> (res matches Ok(found) && found@ == key),
        private_key_in(text@) matches Err(message) ==> (res matches Err(e) && e@
            == FailureView::other(message)),
{
    found_key(read_private_key(text))
}

/// A list of the public halves of keys in the making: the encrypted ones, and those that were
/// decrypted, in the same order.
#[derive(Clone, Debug, PartialEq, Eq)]
pub struct KeyListing {
    pub secrets: Vec<Secret>,
    pub keys: Vec<String>,
}

impl KeyListing {
    /// The secret that is decrypted next: the first that is not in the list.
    pub fn next(&self) -> (res: Option<&Secret>)
        ensures
            res == if self.keys@.len() < self.secrets@.len() {
                Some(&self.secrets@[self.keys@.len() as int])
            } else {
                None
            },
    {
        if self.keys.len() < self.secrets.len() {
            Some(&self.secrets[self.keys.len()])
        } else {
            None
        }
    }

    /// Goes on with the list after a secret was decrypted: one that cannot be ends it.
    pub fn decrypted(self, key: Result<String, Failure>) -> (res: Result<KeyListing, Failure>)
        ensures
            match key {
                Ok(text) => res matches Ok(listing) && {
                    &&& listing.secrets == self.secrets
                    &&& listing.keys@ == self.keys@.push(text)
                },
                Err(e) => res == Err::<KeyListing, Failure>(e),
            },
    {
        match key {
            Ok(text) => {
                let mut listing = self;
                listing.keys.push(text);
                Ok(listing)
            },
            Err(e) => Err(e),
        }
    }
}

impl Agent {
    /// Starts to list the public halves of the SSH keys.
    pub fn get_ssh_public_keys(&self) -> (res: KeyListing)
        ensures
            secret_views(res.secrets@) == picked(
                self.db.entries@,
                |entry: Entry| public_secret(entry),
            ),
            exists|places: Seq<int>|
                #[trigger] public_halves_at(res.secrets@, self.db.entries@, places),
            res.keys@.len() == 0,
    {
        KeyListing { secrets: public_secrets(&self.db.entries), keys: Vec::new() }
    }

    /// Starts the search for the private half of a key: the keys that are searched, and where
    /// the search stands.
    pub fn find_ssh_private_key(&self) -> (res: (Vec<KeyPair>, KeySearch))
        ensures
            pair_views(res.0@) == picked(self.db.entries@, |entry: Entry| key_pair(entry)),
            exists|places: Seq<int>|
                #[trigger] key_pairs_at(res.0@, self.db.entries@, places),
            res.1@ == search_keys_from(res.0@.len(), 0),
            res.0@.len() > 0 ==> res.1 == KeySearch::Public(0),
            res.0@.len() == 0 ==> (res.1 matches KeySearch::Missing(e) && e@ == FailureView::other(
                "No matching private key found"@,
            )),
    {
        let pairs = key_pairs(&self.db.entries);
        let search = search_from(pairs.len(), 0);
        (pairs, search)
    }
}

/// Picking goes entry by entry: from two lists one behind the other comes what is picked from the
/// one, and then what is picked from the other, and from one entry what is picked from it.
pub proof fn law_entries_are_picked_one_by_one<T>(
    one: Seq<Entry>,
    other: Seq<Entry>,
    entry: Entry,
    pick: spec_fn(Entry) -> Option<T>,
)
    ensures
        picked(one + other, pick) == picked(one, pick) + picked(other, pick),
        pick(entry) matches Some(item) ==> picked(seq![entry], pick) == seq![item],
        pick(entry) is None ==> picked(seq![entry], pick) == Seq::<T>::empty(),
    decreases other.len(),
{
    reveal_with_fuel(picked, 2);
    assert(seq![entry].drop_last() =~= Seq::<Entry>::empty());
    if other.len() == 0 {
        assert(one + other =~= one);
        assert(picked(one, pick) + picked(other, pick) =~= picked(one, pick));
    } else {
        assert((one + other).drop_last() =~= one + other.drop_last());
        assert((one + other).last() == other.last());
        law_entries_are_picked_one_by_one(one, other.drop_last(), entry, pick);
        assert(picked(one + other, pick) =~= picked(one, pick) + picked(other, pick));
    }
}

/// What is picked from a list is picked from one of its entries.
proof fn lemma_picked_from_an_entry<T>(
    entries: Seq<Entry>,
    pick: spec_fn(Entry) -> Option<T>,
    at: int,
)
    requires
        0 <= at < picked(entries, pick).len(),
    ensures
        exists|k: int|
            0 <= k < entries.len() && pick(#[trigger] entries[k]) == Some(picked(entries, pick)[at]),
    decreases entries.len(),
{
    let rest = picked(entries.drop_last(), pick);
    if at < rest.len() {
        lemma_picked_from_an_entry(entries.drop_last(), pick, at);
        let k = choose|k: int|
            0 <= k < entries.drop_last().len() && pick(#[trigger] entries.drop_last()[k]) == Some(
                rest[at],
            );
        assert(entries[k] == entries.drop_last()[k]);
    } else {
        assert(entries[entries.len() - 1] == entries.last());
    }
}

/// Every secret in the list of public halves, and both halves of every key that is searched, are
/// of one entry of the vault, and have the key and the organization of that entry.
pub proof fn law_halves_belong_to_their_entry(entries: Seq<Entry>, at: int)
    ensures
        ({
            let secrets = picked(entries, |entry: Entry| public_secret(entry));
            0 <= at < secrets.len() ==> exists|k: int|
                0 <= k < entries.len() && {
                    let entry = #[trigger] entries[k];
                    &&& entry.data matches EntryData::SshKey { public_key: Some(public), .. }
                        && secrets[at].cipherstring == public@
                    &&& secrets[at].entry_key == text_of(entry.key)
                    &&& secrets[at].org_id == text_of(entry.org_id)
                }
        }),
        ({
            let pairs = picked(entries, |entry: Entry| key_pair(entry));
            0 <= at < pairs.len() ==> exists|k: int|
                0 <= k < entries.len() && {
                    let entry = #[trigger] entries[k];
                    &&& entry.data matches EntryData::SshKey {
                        public_key: Some(public),
                        private_key: Some(private),
                    } && pairs[at].public.cipherstring == public@
                        && pairs[at].private.cipherstring == private@
                    &&& pairs[at].public.entry_key == text_of(entry.key)
                    &&& pairs[at].private.entry_key == text_of(entry.key)
                    &&& pairs[at].public.org_id == text_of(entry.org_id)
                    &&& pairs[at].private.org_id == text_of(entry.org_id)
                }
        }),
{
    let public = |entry: Entry| public_secret(entry);
    let both = |entry: Entry| key_pair(entry);
    if 0 <= at < picked(entries, public).len() {
        lemma_picked_from_an_entry(entries, public, at);
        let k = choose|k: int|
            0 <= k < entries.len() && public(#[trigger] entries[k]) == Some(
                picked(entries, public)[at],
            );
        assert(public_secret(entries[k]) is Some);
    }
    if 0 <= at < picked(entries, both).len() {
        lemma_picked_from_an_entry(entries, both, at);
        let k = choose|k: int|
            0 <= k < entries.len() && both(#[trigger] entries[k]) == Some(
                picked(entries, both)[at],
            );
        assert(key_pair(entries[k]) is Some);
    }
}

/// The public half of a key that can be searched for is the one that is listed for its entry.
pub proof fn law_searched_keys_are_listed(entry: Entry)
    ensures
        key_pair(entry) matches Some(pair) ==> public_secret(entry) == Some(pair.public),
        entry.data is Other ==> public_secret(entry) is None && key_pair(entry) is None,
        entry.data matches EntryData::SshKey { public_key, private_key } ==> {
            &&& public_secret(entry) is Some <==> public_key is Some
            &&& key_pair(entry) is Some <==> public_key is Some && private_key is Some
        },
{
}

/// What a search comes to where the public halves read like this.
pub open spec fn search_result(
    publics: Seq<Result<Seq<u8>, Seq<char>>>,
    wanted: Seq<u8>,
    search: KeySearchView,
) -> Result<KeySearchView, FailureView>
    decreases
            match search {
                KeySearchView::Public(at) => if at < publics.len() {
                    publics.len() - at
                } else {
                    0
                },
                _ => 0,
            },
{
    match search {
        KeySearchView::Public(at) if at < publics.len() => match search_after_key(
            publics.len(),
            at,
            wanted,
            publics[at as int],
        ) {
            Ok(next) => search_result(publics, wanted, next),
            Err(e) => Err(e),
        },
        _ => Ok(search),
    }
}

/// The search finds the first key whose public half is the one searched for, and misses it only
/// where there is none. It fails only at a public half that cannot be read, before which there
/// was none.
pub proof fn law_first_matching_key_is_found(
    publics: Seq<Result<Seq<u8>, Seq<char>>>,
    wanted: Seq<u8>,
)
    ensures
        match search_result(publics, wanted, search_keys_from(publics.len(), 0)) {
            Ok(KeySearchView::Private(at)) => {
                &&& at < publics.len()
                &&& publics[at as int] == Ok::<Seq<u8>, Seq<char>>(wanted)
                &&& passed_over(publics, wanted, at as int)
            },
            Ok(KeySearchView::Missing(e)) => passed_over(publics, wanted, publics.len() as int)
                && e.shown() == "No matching private key found"@,
            Ok(KeySearchView::Public(_)) => false,
            Err(e) => exists|at: int|
                0 <= at < publics.len() && #[trigger] publics[at] == Err::<Seq<u8>, Seq<char>>(
                    e.shown(),
                ) && passed_over(publics, wanted, at),
        },
{
    lemma_search_keys(publics, wanted, 0);
}

/// Whether every public half before this place could be read and is another.
pub open spec fn passed_over(
    publics: Seq<Result<Seq<u8>, Seq<char>>>,
    wanted: Seq<u8>,
    at: int,
) -> bool {
    forall|i: int|
        0 <= i < at ==> #[trigger] publics[i] is Ok && publics[i] != Ok::<Seq<u8>, Seq<char>>(
            wanted,
        )
}

proof fn lemma_search_keys(
    publics: Seq<Result<Seq<u8>, Seq<char>>>,
    wanted: Seq<u8>,
    at: nat,
)
    requires
        at <= publics.len(),
        passed_over(publics, wanted, at as int),
    ensures
        match search_result(publics, wanted, search_keys_from(publics.len(), at)) {
            Ok(KeySearchView::Private(found)) => {
                &&& found < publics.len()
                &&& publics[found as int] == Ok::<Seq<u8>, Seq<char>>(wanted)
                &&& passed_over(publics, wanted, found as int)
            },
            Ok(KeySearchView::Missing(e)) => passed_over(publics, wanted, publics.len() as int)
                && e.shown() == "No matching private key found"@,
            Ok(KeySearchView::Public(_)) => false,
            Err(e) => exists|i: int|
                0 <= i < publics.len() && #[trigger] publics[i] == Err::<Seq<u8>, Seq<char>>(
                    e.shown(),
                ) && passed_over(publics, wanted, i),
        },
    decreases publics.len() - at,
{
    reveal_with_fuel(search_result, 2);
    if at < publics.len() {
        if publics[at as int] is Ok && publics[at as int]->Ok_0 != wanted {
            lemma_search_keys(publics, wanted, at + 1);
        }
    }
}

} // verus!
