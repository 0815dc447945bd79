//! What the server answers, and what is kept of it.

use vstd::prelude::*;
use vstd::string::*;

use crate::api::{
    ConnectRefreshTokenRes, ConnectTokenRes, CryptoParameters, FoldersResData, PreloginRes,
};
use crate::error::{Error, ErrorView};
use crate::pairs::{distinct_names, latest, same_values, text_pairs};

verus! {

impl PreloginRes {
    /// How the master key is derived, by what the server says.
    pub fn crypto_parameters(self) -> (res: CryptoParameters)
        ensures
            res == (CryptoParameters {
                kdf: self.kdf,
                iterations: self.kdf_iterations,
                memory: self.kdf_memory,
                parallelism: self.kdf_parallelism,
            }),
    {
        CryptoParameters {
            kdf: self.kdf,
            iterations: self.kdf_iterations,
            memory: self.kdf_memory,
            parallelism: self.kdf_parallelism,
        }
    }
}

impl ConnectTokenRes {
    /// The access token, the refresh token and the protected key of an accepted login.
    pub fn tokens(self) -> (res: (String, String, String))
        ensures
            res == (self.access_token, self.refresh_token, self.key),
    {
        (self.access_token, self.refresh_token, self.key)
    }
}

impl ConnectRefreshTokenRes {
    /// The new access token.
    pub fn token(self) -> (res: String)
        ensures
            res@ == self.access_token@,
    {
        self.access_token
    }
}

impl FoldersResData {
    /// The identifier of a folder that was made.
    pub fn created(self) -> (res: String)
        ensures
            res@ == self.id@,
    {
        self.id
    }
}

/// Folders by their identifiers and names.
pub open spec fn folder_pairs(folders: Seq<FoldersResData>) -> Seq<(Seq<char>, Seq<char>)> {
    folders.map_values(|folder: FoldersResData| (folder.id@, folder.name@))
}

/// The identifiers and names of folders.
pub fn folder_names(folders: &Vec<FoldersResData>) -> (res: Vec<(String, String)>)
    ensures
        text_pairs(res@) == folder_pairs(folders@),
        res@.len() == folders@.len(),
        forall|i: int|
            0 <= i < folders@.len() ==> (#[trigger] res@[i]).0@ == folders@[i].id@ && res@[i].1@
                == folders@[i].name@,
{
    let mut out: Vec<(String, String)> = Vec::new();
    let mut i: usize = 0;
    while i < folders.len()
        invariant
            i <= folders.len(),
            out.len() == i,
            forall|j: int|
                0 <= j < i ==> (#[trigger] out@[j]).0@ == folders@[j].id@ && out@[j].1@
                    == folders@[j].name@,
        decreases folders.len() - i,
    {
        out.push((folders[i].id.clone(), folders[i].name.clone()));
        i = i + 1;
    }
    assert(text_pairs(out@) =~= folder_pairs(folders@));
    out
}

/// The answer to a request for the vault. An entry that could not be read stands there as the
/// error that it is.
pub struct SyncRes<T> {
    pub key: String,
    pub private_key: String,
    pub organizations: Vec<(String, String)>,
    pub ciphers: Vec<Result<T, Error>>,
}

/// A vault: its keys, which are protected by the master password, the protected keys of its
/// organizations, none of them twice, and its entries.
pub struct Vault<T> {
    pub protected_key: String,
    pub protected_private_key: String,
    pub protected_org_keys: Vec<(String, String)>,
    pub entries: Vec<T>,
}

/// Entries and errors by their views.
pub open spec fn cipher_views<T>(ciphers: Seq<Result<T, Error>>) -> Seq<Result<T, ErrorView>> {
    ciphers.map_values(
        |cipher: Result<T, Error>|
            match cipher {
                Ok(entry) => Ok(entry),
                Err(e) => Err(e@),
            },
    )
}

/// The entries in order, without those in the trash, or the first error.
pub open spec fn collected<T>(ciphers: Seq<Result<T, ErrorView>>) -> Result<Seq<T>, ErrorView>
    decreases ciphers.len(),
{
    if ciphers.len() == 0 {
        Ok(Seq::empty())
    } else {
        match ciphers[0] {
            Err(ErrorView::DeletedEntry) => collected(ciphers.skip(1)),
            Err(e) => Err(e),
            Ok(entry) => match collected(ciphers.skip(1)) {
                Ok(entries) => Ok(seq![entry] + entries),
                Err(e) => Err(e),
            },
        }
    }
}

/// Whether places in a list stand in its order, each at most once.
pub open spec fn in_order(places: Seq<int>, count: nat) -> bool {
    &&& forall|i: int| 0 <= i < places.len() ==> 0 <= #[trigger] places[i] < count
    &&& forall|i: int, j: int| 0 <= i < j < places.len() ==> places[i] < places[j]
}

/// Whether an entry that could not be read is in the trash.
pub open spec fn in_trash<T>(cipher: Result<T, Error>) -> bool {
    cipher matches Err(e) && e is DeletedEntry
}

/// Whether these are the entries that stand at these places of an answer, where all others are
/// in the trash.
pub open spec fn entries_at<T>(
    entries: Seq<T>,
    ciphers: Seq<Result<T, Error>>,
    places: Seq<int>,
) -> bool {
    &&& entries.len() == places.len()
    &&& in_order(places, ciphers.len())
    &&& forall|i: int|
        0 <= i < places.len() ==> ciphers[#[trigger] places[i]] == Ok::<T, Error>(entries[i])
    &&& forall|k: int|
        0 <= k < ciphers.len() ==> places.contains(k) || in_trash(#[trigger] ciphers[k])
}

/// The entries in order, without those in the trash, or the first error.
pub fn collect_entries<T>(ciphers: Vec<Result<T, Error>>) -> (res: Result<Vec<T>, Error>)
    ensures
        collected(cipher_views(ciphers@)) == match res {
            Ok(entries) => Ok(entries@),
            Err(e) => Err(e@),
        },
        res matches Ok(entries) ==> exists|places: Seq<int>|
            #[trigger] entries_at(entries@, ciphers@, places),
        res matches Err(e) ==> !(e is DeletedEntry) && exists|i: int|
            0 <= i < ciphers@.len() && #[trigger] ciphers@[i] == Err::<T, Error>(e) && forall|j: int|
                0 <= j < i ==> (#[trigger] ciphers@[j]) is Ok || in_trash(ciphers@[j]),
{
    let ghost views = cipher_views(ciphers@);
    let ghost list = ciphers@;
    let ghost mut places: Seq<int> = Seq::empty();
    let mut entries: Vec<T> = Vec::new();
    assert(views.skip(0) =~= views);
    assert(collected(views) == prepended(entries@, collected(views.skip(0))));
    for cipher in it: ciphers
        invariant
            it.seq() == list,
            views == cipher_views(list),
            collected(views) == prepended(entries@, collected(views.skip(it.index() as int))),
            entries_at(entries@, list.take(it.index() as int), places),
    {
        let ghost rest = views.skip(it.index() as int);
        assert(rest.skip(1) =~= views.skip(it.index() + 1));
        let ghost earlier = entries@;
        let ghost earlier_places = places;
        let ghost at = it.index() as int;
        assert(list.take(at + 1).take(at) =~= list.take(at));
        match cipher {
            Ok(entry) => {
                entries.push(entry);
                proof {
                    let tail = collected(rest.skip(1));
                    if tail is Ok {
                        assert(earlier + (seq![entry] + tail->Ok_0) =~= entries@ + tail->Ok_0);
                    }
                    places = places.push(at);
                    lemma_entry_in_order(earlier, entries@, list, earlier_places, at);
                }
            },
            Err(Error::DeletedEntry) => {
                proof {
                    lemma_entry_in_order(earlier, entries@, list, earlier_places, at);
                }
            },
            Err(e) => {
                assert(list[at] == Err::<T, Error>(e));
                assert forall|j: int| 0 <= j < at implies (#[trigger] list[j]) is Ok || in_trash(
                    list[j],
                ) by {
                    assert(list.take(at)[j] == list[j]);
                    if places.contains(j) {
                        let i = choose|i: int| 0 <= i < places.len() && places[i] == j;
                        assert(list.take(at)[places[i]] is Ok);
                    }
                }
                return Err(e);
            },
        }
    }
    assert(list.take(list.len() as int) =~= list);
    assert(entries_at(entries@, list, places));
    assert(views.skip(list.len() as int) =~= Seq::<Result<T, ErrorView>>::empty());
    assert(entries@ + Seq::<T>::empty() =~= entries@);
    Ok(entries)
}

/// One more entry of an answer: it comes last, or is in the trash.
proof fn lemma_entry_in_order<T>(
    earlier: Seq<T>,
    entries: Seq<T>,
    ciphers: Seq<Result<T, Error>>,
    places: Seq<int>,
    at: int,
)
    requires
        0 <= at < ciphers.len(),
        entries_at(earlier, ciphers.take(at), places),
        ciphers[at] matches Ok(entry) ==> entries == earlier.push(entry),
        ciphers[at] is Err ==> in_trash(ciphers[at]) && entries == earlier,
    ensures
        entries_at(
            entries,
            ciphers.take(at + 1),
            if ciphers[at] is Ok {
                places.push(at)
            } else {
                places
            },
        ),
{
    let shorter = ciphers.take(at);
    let longer = ciphers.take(at + 1);
    let now = if ciphers[at] is Ok {
        places.push(at)
    } else {
        places
    };
    assert forall|i: int| 0 <= i < now.len() implies longer[#[trigger] now[i]] == Ok::<T, Error>(
        entries[i],
    ) by {
        if i < places.len() {
            assert(now[i] == places[i]);
            assert(shorter[places[i]] == longer[places[i]]);
        }
    }
    assert forall|k: int| 0 <= k < longer.len() implies now.contains(k) || in_trash(
        #[trigger] longer[k],
    ) by {
        if k < at {
            assert(shorter[k] == longer[k]);
            if places.contains(k) {
                let i = choose|i: int| 0 <= i < places.len() && places[i] == k;
                assert(now[i] == k);
            }
        } else if ciphers[at] is Ok {
            assert(now[places.len() as int] == at);
        }
    }
}

/// The answer is read entry by entry: what two parts of it come to is what the one comes to and
/// then what the other comes to, and the first that fails decides.
pub proof fn law_entries_are_collected_one_by_one<T>(
    one: Seq<Result<T, ErrorView>>,
    other: Seq<Result<T, ErrorView>>,
    entry: T,
    error: ErrorView,
)
    ensures
        collected(one + other) == match (collected(one), collected(other)) {
            (Err(e), _) => Err::<Seq<T>, ErrorView>(e),
            (Ok(_), Err(e)) => Err(e),
            (Ok(entries), Ok(more)) => Ok(entries + more),
        },
        collected(seq![Ok::<T, ErrorView>(entry)]) == Ok::<Seq<T>, ErrorView>(seq![entry]),
        !(error is DeletedEntry) ==> collected(seq![Err::<T, ErrorView>(error)]) == Err::<
            Seq<T>,
            ErrorView,
        >(error),
        error is DeletedEntry ==> collected(seq![Err::<T, ErrorView>(error)]) == Ok::<
            Seq<T>,
            ErrorView,
        >(Seq::empty()),
    decreases one.len(),
{
    reveal_with_fuel(collected, 2);
    assert(seq![Ok::<T, ErrorView>(entry)].skip(1) =~= Seq::<Result<T, ErrorView>>::empty());
    assert(seq![Err::<T, ErrorView>(error)].skip(1) =~= Seq::<Result<T, ErrorView>>::empty());
    assert(seq![entry] + Seq::<T>::empty() =~= seq![entry]);
    if one.len() == 0 {
        assert(one + other =~= other);
        if collected(other) is Ok {
            assert(Seq::<T>::empty() + collected(other)->Ok_0 =~= collected(other)->Ok_0);
        }
    } else {
        law_entries_are_collected_one_by_one(one.skip(1), other, entry, error);
        assert((one + other).skip(1) =~= one.skip(1) + other);
        if one[0] is Ok && collected(one.skip(1)) is Ok && collected(other) is Ok {
            assert(seq![one[0]->Ok_0] + (collected(one.skip(1))->Ok_0 + collected(other)->Ok_0)
                =~= (seq![one[0]->Ok_0] + collected(one.skip(1))->Ok_0) + collected(other)->Ok_0);
        }
    }
}

/// Entries in front of what is collected behind them.
spec fn prepended<T>(entries: Seq<T>, rest: Result<Seq<T>, ErrorView>) -> Result<
    Seq<T>,
    ErrorView,
> {
    match rest {
        Ok(more) => Ok(entries + more),
        Err(e) => Err(e),
    }
}

/// An entry in the trash changes nothing: the vault is what it would be without it.
pub proof fn law_deleted_entries_are_skipped<T>(
    before: Seq<Result<T, ErrorView>>,
    after: Seq<Result<T, ErrorView>>,
)
    ensures
        collected(before + seq![Err::<T, ErrorView>(ErrorView::DeletedEntry)] + after) == collected(
            before + after,
        ),
    decreases before.len(),
{
    let deleted = seq![Err::<T, ErrorView>(ErrorView::DeletedEntry)];
    if before.len() == 0 {
        assert((before + deleted + after).skip(1) =~= before + after);
    } else {
        law_deleted_entries_are_skipped(before.skip(1), after);
        assert((before + deleted + after).skip(1) =~= before.skip(1) + deleted + after);
        assert((before + after).skip(1) =~= before.skip(1) + after);
    }
}

/// The vault that the server answers with.
pub fn vault_of<T>(res: SyncRes<T>) -> (vault: Result<Vault<T>, Error>)
    ensures
        match collected(cipher_views(res.ciphers@)) {
            Ok(entries) => vault matches Ok(v) && {
                &&& v.protected_key == res.key
                &&& v.protected_private_key == res.private_key
                &&& distinct_names(text_pairs(v.protected_org_keys@))
                &&& same_values(text_pairs(v.protected_org_keys@), text_pairs(res.organizations@))
                &&& v.entries@ == entries
            },
            Err(e) => vault matches Err(x) && x@ == e,
        },
        vault matches Ok(v) ==> exists|places: Seq<int>|
            #[trigger] entries_at(v.entries@, res.ciphers@, places),
{
    match collect_entries(res.ciphers) {
        Ok(entries) => Ok(
            Vault {
                protected_key: res.key,
                protected_private_key: res.private_key,
                protected_org_keys: latest(&res.organizations),
                entries,
            },
        ),
        Err(e) => Err(e),
    }
}

/// What is kept of an account: its tokens and its vault.
pub struct Db<T> {
    pub access_token: Option<String>,
    pub refresh_token: Option<String>,
    pub protected_key: Option<String>,
    pub protected_private_key: Option<String>,
    pub protected_org_keys: Vec<(String, String)>,
    pub entries: Vec<T>,
}

impl<T> Db<T> {
    /// Takes the place of the old access token, where the server has given a new one.
    pub fn update_access_token(&mut self, access_token: Option<String>)
        ensures
            *final(self) == (Db {
                access_token: if access_token is Some {
                    access_token
                } else {
                    old(self).access_token
                },
                ..*old(self)
            }),
    {
        if access_token.is_some() {
            self.access_token = access_token;
        }
    }

    /// Keeps what a sync brought: the vault, and the new access token where there is one. The
    /// refresh token stays.
    pub fn apply_sync(&mut self, access_token: Option<String>, vault: Vault<T>)
        ensures
            *final(self) == (Db {
                access_token: if access_token is Some {
                    access_token
                } else {
                    old(self).access_token
                },
                refresh_token: old(self).refresh_token,
                protected_key: Some(vault.protected_key),
                protected_private_key: Some(vault.protected_private_key),
                protected_org_keys: vault.protected_org_keys,
                entries: vault.entries,
            }),
    {
        self.update_access_token(access_token);
        self.protected_key = Some(vault.protected_key);
        self.protected_private_key = Some(vault.protected_private_key);
        self.protected_org_keys = vault.protected_org_keys;
        self.entries = vault.entries;
    }

    /// The keys that the master password unlocks: there are some where both of the user's own
    /// are there.
    pub fn some_protected_keys(&self) -> (res: Option<(&String, &String, &Vec<(String, String)>)>)
        ensures
            res == match (self.protected_key, self.protected_private_key) {
                (Some(key), Some(private_key)) => Some(
                    (&key, &private_key, &self.protected_org_keys),
                ),
                _ => None,
            },
    {
        match (&self.protected_key, &self.protected_private_key) {
            (Some(key), Some(private_key)) => Some((key, private_key, &self.protected_org_keys)),
            _ => None,
        }
    }
}

} // verus!
