//! A sub-container record (a board) and its key search.
//!
//! A board is a protected record: its public fields are always plaintext,
//! its title is materialized only after an external decryption succeeds,
//! and it may embed key grants declaring that its key also unlocks other
//! owners' data. Key search joins "what this record needs" (its direct
//! parent container plus its grants) against "what is already decrypted"
//! (the profile snapshot), and never fails: unknown or still-keyless
//! owners are skipped silently, to be retried once ancestors resolve.

use vstd::prelude::*;

use crate::keychain::KeyEntryV;
use crate::keychain::KeyType;
use crate::keychain::Keychain;
use crate::profile::Profile;
use crate::profile::ProfileEntry;

verus! {

/// An embedded key grant: this record's key is also needed to read the
/// data owned by `id`, filed under type tag `tag`.
pub struct KeyGrant {
    pub tag: KeyType,
    pub id: String,
}

/// A sub-container record. `id`, `user_id`, `space_id` and the grants are
/// public fields, serializable with no key present; `title` belongs to the
/// private payload and stays absent until a matching key decrypts it.
pub struct Board {
    pub id: Option<String>,
    pub user_id: Option<String>,
    pub space_id: Option<String>,
    pub keys: Option<Vec<KeyGrant>>,
    pub title: Option<String>,
}

/// The views of the ids in `ids`, in order.
pub open spec fn id_views(ids: Seq<String>) -> Seq<Seq<char>>
    decreases ids.len(),
{
    if ids.len() == 0 {
        Seq::empty()
    } else {
        id_views(ids.drop_last()).push(ids.last()@)
    }
}

/// The owner ids granted under `tag`, in order of appearance.
pub open spec fn grant_views(grants: Seq<KeyGrant>, tag: KeyType) -> Seq<Seq<char>>
    decreases grants.len(),
{
    if grants.len() == 0 {
        Seq::empty()
    } else {
        let rest = grant_views(grants.drop_last(), tag);
        if grants.last().tag == tag {
            rest.push(grants.last().id@)
        } else {
            rest
        }
    }
}

/// The keychain entries owed for one type tag: every cached item whose id
/// is wanted and whose key is already resolved contributes its id and key,
/// in cache order; all others are skipped.
pub open spec fn resolved_entries(
    cache: Seq<ProfileEntry>,
    wanted: Seq<Seq<char>>,
    tag: KeyType,
) -> Seq<KeyEntryV>
    decreases cache.len(),
{
    if cache.len() == 0 {
        Seq::empty()
    } else {
        let rest = resolved_entries(cache.drop_last(), wanted, tag);
        let e = cache.last();
        if e.is_resolved() && wanted.contains(e.id->0@) {
            rest.push((KeyEntryV { owner_id: e.id->0@, key: e.key->0@, ty: tag }))
        } else {
            rest
        }
    }
}

impl Board {
    /// The embedded grants, or nothing when the record carries none.
    pub open spec fn spec_grants(self) -> Seq<KeyGrant> {
        if self.keys is Some {
            self.keys->0@
        } else {
            Seq::empty()
        }
    }

    /// The candidate owner ids under the space tag: the direct parent
    /// container first, then every grant with the space tag, in order.
    pub open spec fn space_candidates(self) -> Seq<Seq<char>> {
        (if self.space_id is Some {
            seq![self.space_id->0@]
        } else {
            Seq::empty()
        }) + grant_views(self.spec_grants(), KeyType::Space)
    }

    /// The candidate owner ids under the board tag: every grant with the
    /// board tag, in order.
    pub open spec fn board_candidates(self) -> Seq<Seq<char>> {
        grant_views(self.spec_grants(), KeyType::Board)
    }
}

/// What one key search over a board returns: the resolved space entries,
/// then the resolved board entries; each type tag independent of the other.
pub open spec fn key_search_spec(b: Board, p: Profile) -> Seq<KeyEntryV> {
    resolved_entries(p.spaces@, b.space_candidates(), KeyType::Space) + resolved_entries(
        p.boards@,
        b.board_candidates(),
        KeyType::Board,
    )
}

/// The key-search capability: every protected record type can name the
/// keychain entries it needs, given a read-only snapshot of the
/// already-decrypted ancestors. The operation is total: it never fails.
pub trait Keyfinder {
    /// The entries this record's key search owes against snapshot `p`.
    spec fn key_search_post(&self, p: Profile) -> Seq<KeyEntryV>;

    /// Assembles the keychain; acquires only read access to the snapshot.
    fn get_key_search(&self, profile: &Profile) -> (kc: Keychain)
        ensures
            kc@ == self.key_search_post(*profile),
    ;
}

/// Whether `ids` holds a string whose characters equal `id`'s.
fn contains_id(ids: &Vec<String>, id: &String) -> (r: bool)
    ensures
        r == id_views(ids@).contains(id@),
{
    proof {
        lemma_id_views(ids@);
    }
    let mut k: usize = 0;
    while k < ids.len()
        invariant
            k <= ids@.len(),
            forall|j: int| 0 <= j < k ==> ids@[j]@ != id@,
        decreases ids@.len() - k,
    {
        if ids[k] == *id {
            proof {
                lemma_id_views(ids@);
                assert(id_views(ids@)[k as int] == id@);
            }
            return true;
        }
        k += 1;
    }
    proof {
        lemma_id_views(ids@);
        assert forall|j: int| 0 <= j < id_views(ids@).len() implies id_views(ids@)[j] != id@ by {
            assert(id_views(ids@)[j] == ids@[j]@);
        }
    }
    false
}

/// A content-equal copy of key material.
fn clone_bytes(v: &Vec<u8>) -> (r: Vec<u8>)
    ensures
        r@ == v@,
{
    let mut r: Vec<u8> = Vec::new();
    let mut i: usize = 0;
    while i < v.len()
        invariant
            i <= v@.len(),
            r@ == v@.take(i as int),
        decreases v@.len() - i,
    {
        r.push(v[i]);
        proof {
            assert(v@.take(i + 1) =~= v@.take(i as int).push(v@[i as int]));
        }
        i += 1;
    }
    proof {
        assert(v@.take(v@.len() as int) =~= v@);
    }
    r
}

/// `id_views` maps each id to its characters, position by position.
proof fn lemma_id_views(ids: Seq<String>)
    ensures
        id_views(ids).len() == ids.len(),
        forall|j: int| 0 <= j < ids.len() ==> id_views(ids)[j] == ids[j]@,
    decreases ids.len(),
{
    if ids.len() > 0 {
        lemma_id_views(ids.drop_last());
    }
}

impl Keyfinder for Board {
    open spec fn key_search_post(&self, p: Profile) -> Seq<KeyEntryV> {
        key_search_spec(*self, p)
    }

    fn get_key_search(&self, profile: &Profile) -> (kc: Keychain) {
        let ghost head_space: Seq<Seq<char>> = if self.space_id is Some {
            seq![self.space_id->0@]
        } else {
            Seq::empty()
        };
        let mut keychain = Keychain::new();
        let mut space_ids: Vec<String> = Vec::new();
        let mut board_ids: Vec<String> = Vec::new();

        if self.space_id.is_some() {
            space_ids.push(self.space_id.as_ref().unwrap().clone());
        }
        proof {
            if self.space_id is Some {
                assert(space_ids@.drop_last() =~= Seq::<String>::empty());
                assert(id_views(Seq::<String>::empty()) =~= Seq::<Seq<char>>::empty());
                assert(id_views(space_ids@) =~= head_space);
            } else {
                assert(space_ids@ =~= Seq::<String>::empty());
                assert(id_views(space_ids@) =~= head_space);
            }
            assert(id_views(board_ids@) =~= Seq::<Seq<char>>::empty());
        }

        match self.keys.as_ref() {
            Some(grants) => {
                let mut gi: usize = 0;
                while gi < grants.len()
                    invariant
                        gi <= grants@.len(),
                        grants@ == self.spec_grants(),
                        id_views(space_ids@) == head_space + grant_views(
                            grants@.take(gi as int),
                            KeyType::Space,
                        ),
                        id_views(board_ids@) == grant_views(grants@.take(gi as int), KeyType::Board),
                    decreases grants@.len() - gi,
                {
                    let ghost spaces_before = space_ids@;
                    let ghost boards_before = board_ids@;
                    let grant = &grants[gi];
                    match grant.tag {
                        KeyType::Space => space_ids.push(grant.id.clone()),
                        KeyType::Board => board_ids.push(grant.id.clone()),
                    }
                    proof {
                        let taken = grants@.take(gi + 1);
                        assert(taken.drop_last() =~= grants@.take(gi as int));
                        assert(taken.last() == grants@[gi as int]);
                        if grants@[gi as int].tag == KeyType::Space {
                            assert(space_ids@.drop_last() =~= spaces_before);
                            assert(head_space + grant_views(taken, KeyType::Space) =~= (head_space
                                + grant_views(grants@.take(gi as int), KeyType::Space)).push(
                                grants@[gi as int].id@,
                            ));
                        } else {
                            assert(board_ids@.drop_last() =~= boards_before);
                        }
                    }
                    gi += 1;
                }
                proof {
                    assert(grants@.take(grants@.len() as int) =~= grants@);
                }
            },
            None => {
                proof {
                    assert(self.spec_grants() =~= Seq::<KeyGrant>::empty());
                    assert(grant_views(self.spec_grants(), KeyType::Space)
                        =~= Seq::<Seq<char>>::empty());
                    assert(grant_views(self.spec_grants(), KeyType::Board)
                        =~= Seq::<Seq<char>>::empty());
                    assert(head_space + grant_views(self.spec_grants(), KeyType::Space)
                        =~= head_space);
                }
            },
        }
        let ghost wanted_space = self.space_candidates();
        let ghost wanted_board = self.board_candidates();
        proof {
            assert(id_views(space_ids@) == wanted_space);
            assert(id_views(board_ids@) == wanted_board);
        }

        proof {
            assert(profile.spaces@.take(0) =~= Seq::<ProfileEntry>::empty());
            assert(resolved_entries(profile.spaces@.take(0), wanted_space, KeyType::Space)
                =~= Seq::<KeyEntryV>::empty());
        }
        if space_ids.len() > 0 {
            let mut i: usize = 0;
            while i < profile.spaces.len()
                invariant
                    i <= profile.spaces@.len(),
                    id_views(space_ids@) == wanted_space,
                    keychain@ == resolved_entries(
                        profile.spaces@.take(i as int),
                        wanted_space,
                        KeyType::Space,
                    ),
                decreases profile.spaces@.len() - i,
            {
                let entry = &profile.spaces[i];
                if entry.id.is_some() && entry.key.is_some() {
                    let entry_id: &String = entry.id.as_ref().unwrap();
                    if contains_id(&space_ids, entry_id) {
                        let key_copy = clone_bytes(entry.key.as_ref().unwrap());
                        keychain.add_key(entry_id.clone(), key_copy, KeyType::Space);
                    }
                }
                proof {
                    let taken = profile.spaces@.take(i + 1);
                    assert(taken.drop_last() =~= profile.spaces@.take(i as int));
                    assert(taken.last() == profile.spaces@[i as int]);
                }
                i += 1;
            }
            proof {
                assert(profile.spaces@.take(profile.spaces@.len() as int) =~= profile.spaces@);
            }
        } else {
            proof {
                lemma_id_views(space_ids@);
                assert(wanted_space.len() == 0);
                lemma_resolved_entries_no_candidates(profile.spaces@, wanted_space, KeyType::Space);
            }
        }

        proof {
            assert(profile.boards@.take(0) =~= Seq::<ProfileEntry>::empty());
            assert(resolved_entries(profile.boards@.take(0), wanted_board, KeyType::Board)
                =~= Seq::<KeyEntryV>::empty());
        }
        if board_ids.len() > 0 {
            let mut i: usize = 0;
            while i < profile.boards.len()
                invariant
                    i <= profile.boards@.len(),
                    id_views(board_ids@) == wanted_board,
                    keychain@ == resolved_entries(profile.spaces@, wanted_space, KeyType::Space)
                        + resolved_entries(
                        profile.boards@.take(i as int),
                        wanted_board,
                        KeyType::Board,
                    ),
                decreases profile.boards@.len() - i,
            {
                let entry = &profile.boards[i];
                if entry.id.is_some() && entry.key.is_some() {
                    let entry_id: &String = entry.id.as_ref().unwrap();
                    if contains_id(&board_ids, entry_id) {
                        let key_copy = clone_bytes(entry.key.as_ref().unwrap());
                        keychain.add_key(entry_id.clone(), key_copy, KeyType::Board);
                    }
                }
                proof {
                    let taken = profile.boards@.take(i + 1);
                    assert(taken.drop_last() =~= profile.boards@.take(i as int));
                    assert(taken.last() == profile.boards@[i as int]);
                    let e = profile.boards@[i as int];
                    if e.is_resolved() && wanted_board.contains(e.id->0@) {
                        assert(keychain@ =~= resolved_entries(
                            profile.spaces@,
                            wanted_space,
                            KeyType::Space,
                        ) + resolved_entries(taken, wanted_board, KeyType::Board));
                    }
                }
                i += 1;
            }
            proof {
                assert(profile.boards@.take(profile.boards@.len() as int) =~= profile.boards@);
            }
        } else {
            proof {
                lemma_id_views(board_ids@);
                assert(wanted_board.len() == 0);
                lemma_resolved_entries_no_candidates(profile.boards@, wanted_board, KeyType::Board);
                assert(keychain@ =~= resolved_entries(profile.spaces@, wanted_space, KeyType::Space)
                    + resolved_entries(profile.boards@, wanted_board, KeyType::Board));
            }
        }
        keychain
    }
}

/// Candidates that match no resolved cache entry yield no keychain entry.
pub proof fn lemma_no_match_yields_nothing(
    cache: Seq<ProfileEntry>,
    wanted: Seq<Seq<char>>,
    tag: KeyType,
)
    requires
        forall|j: int|
            0 <= j < cache.len() ==> !((#[trigger] cache[j]).is_resolved() && wanted.contains(
                cache[j].id->0@,
            )),
    ensures
        resolved_entries(cache, wanted, tag) == Seq::<KeyEntryV>::empty(),
    decreases cache.len(),
{
    if cache.len() > 0 {
        assert(cache.last() == cache[cache.len() - 1]);
        lemma_no_match_yields_nothing(cache.drop_last(), wanted, tag);
    }
}

/// When exactly one cache entry is resolved under a wanted id, the scan
/// yields exactly that entry.
pub proof fn lemma_unique_match(
    cache: Seq<ProfileEntry>,
    wanted: Seq<Seq<char>>,
    tag: KeyType,
    i: int,
)
    requires
        0 <= i < cache.len(),
        cache[i].is_resolved(),
        wanted.contains(cache[i].id->0@),
        forall|j: int|
            0 <= j < cache.len() && j != i ==> !((#[trigger] cache[j]).is_resolved()
                && wanted.contains(cache[j].id->0@)),
    ensures
        resolved_entries(cache, wanted, tag) == seq![
            (KeyEntryV { owner_id: cache[i].id->0@, key: cache[i].key->0@, ty: tag }),
        ],
    decreases cache.len(),
{
    let e = KeyEntryV { owner_id: cache[i].id->0@, key: cache[i].key->0@, ty: tag };
    assert(cache.last() == cache[cache.len() - 1]);
    if i == cache.len() - 1 {
        lemma_no_match_yields_nothing(cache.drop_last(), wanted, tag);
        assert(Seq::<KeyEntryV>::empty().push(e) =~= seq![e]);
    } else {
        lemma_unique_match(cache.drop_last(), wanted, tag, i);
    }
}

/// Every entry a scan yields carries the scan's tag.
proof fn lemma_scan_tags(cache: Seq<ProfileEntry>, wanted: Seq<Seq<char>>, tag: KeyType)
    ensures
        forall|k: int|
            0 <= k < resolved_entries(cache, wanted, tag).len() ==> (#[trigger] resolved_entries(
                cache,
                wanted,
                tag,
            )[k]).ty == tag,
    decreases cache.len(),
{
    if cache.len() > 0 {
        lemma_scan_tags(cache.drop_last(), wanted, tag);
    }
}

/// A scan yields no entry for an owner that no resolved cache entry
/// carries.
proof fn lemma_scan_skips_unknown_owner(
    cache: Seq<ProfileEntry>,
    wanted: Seq<Seq<char>>,
    tag: KeyType,
    owner: Seq<char>,
)
    requires
        forall|j: int|
            0 <= j < cache.len() ==> !((#[trigger] cache[j]).is_resolved() && cache[j].id->0@
                == owner),
    ensures
        forall|k: int|
            0 <= k < resolved_entries(cache, wanted, tag).len() ==> (#[trigger] resolved_entries(
                cache,
                wanted,
                tag,
            )[k]).owner_id != owner,
    decreases cache.len(),
{
    if cache.len() > 0 {
        assert(cache.last() == cache[cache.len() - 1]);
        lemma_scan_skips_unknown_owner(cache.drop_last(), wanted, tag, owner);
    }
}

/// A resolved cache entry whose id is wanted contributes its entry to the
/// scan.
proof fn lemma_scan_finds_resolved_owner(
    cache: Seq<ProfileEntry>,
    wanted: Seq<Seq<char>>,
    tag: KeyType,
    i: int,
)
    requires
        0 <= i < cache.len(),
        cache[i].is_resolved(),
        wanted.contains(cache[i].id->0@),
    ensures
        resolved_entries(cache, wanted, tag).contains(
            (KeyEntryV { owner_id: cache[i].id->0@, key: cache[i].key->0@, ty: tag }),
        ),
    decreases cache.len(),
{
    let e = KeyEntryV { owner_id: cache[i].id->0@, key: cache[i].key->0@, ty: tag };
    let rest = resolved_entries(cache.drop_last(), wanted, tag);
    assert(cache.last() == cache[cache.len() - 1]);
    if i == cache.len() - 1 {
        assert(resolved_entries(cache, wanted, tag) == rest.push(e));
        assert(rest.push(e)[rest.len() as int] == e);
    } else {
        lemma_scan_finds_resolved_owner(cache.drop_last(), wanted, tag, i);
        let w = choose|w: int| 0 <= w < rest.len() && rest[w] == e;
        assert(resolved_entries(cache, wanted, tag)[w] == e);
    }
}

/// Law (general): a direct owner whose cache entry is resolved always
/// contributes its entry under the space tag, whatever grants the record
/// embeds and whatever else the snapshot holds.
pub proof fn lemma_direct_owner_contributes(b: Board, p: Profile, i: int)
    requires
        b.space_id is Some,
        0 <= i < p.spaces@.len(),
        p.spaces@[i].is_resolved(),
        p.spaces@[i].id->0@ == b.space_id->0@,
    ensures
        key_search_spec(b, p).contains(
            (KeyEntryV {
                owner_id: b.space_id->0@,
                key: p.spaces@[i].key->0@,
                ty: KeyType::Space,
            }),
        ),
{
    let wanted = b.space_candidates();
    assert(wanted[0] == b.space_id->0@);
    assert(wanted.contains(p.spaces@[i].id->0@));
    lemma_scan_finds_resolved_owner(p.spaces@, wanted, KeyType::Space, i);
    let sp = resolved_entries(p.spaces@, wanted, KeyType::Space);
    let e = KeyEntryV { owner_id: b.space_id->0@, key: p.spaces@[i].key->0@, ty: KeyType::Space };
    let w = choose|w: int| 0 <= w < sp.len() && sp[w] == e;
    assert(key_search_spec(b, p)[w] == e);
}

/// Law (general): an owner that no resolved space-cache entry carries —
/// unknown to the cache, or known but keyless — gets no space-tagged
/// entry, whatever the record's grants and the rest of the snapshot.
pub proof fn lemma_unknown_space_owner_gets_no_entry(b: Board, p: Profile, owner: Seq<char>)
    requires
        forall|j: int|
            0 <= j < p.spaces@.len() ==> !((#[trigger] p.spaces@[j]).is_resolved()
                && p.spaces@[j].id->0@ == owner),
    ensures
        forall|k: int|
            0 <= k < key_search_spec(b, p).len() ==> !((#[trigger] key_search_spec(b, p)[k]).ty
                == KeyType::Space && key_search_spec(b, p)[k].owner_id == owner),
{
    let sp = resolved_entries(p.spaces@, b.space_candidates(), KeyType::Space);
    let bd = resolved_entries(p.boards@, b.board_candidates(), KeyType::Board);
    lemma_scan_skips_unknown_owner(p.spaces@, b.space_candidates(), KeyType::Space, owner);
    lemma_scan_tags(p.boards@, b.board_candidates(), KeyType::Board);
    assert forall|k: int|
        0 <= k < key_search_spec(b, p).len() implies !((#[trigger] key_search_spec(b, p)[k]).ty
        == KeyType::Space && key_search_spec(b, p)[k].owner_id == owner) by {
        if k < sp.len() {
            assert(key_search_spec(b, p)[k] == sp[k]);
        } else {
            assert(key_search_spec(b, p)[k] == bd[k - sp.len()]);
        }
    }
}

/// Law (general): a grant id that no resolved board-cache entry carries —
/// unrelated or uncached — contributes no board-tagged entry.
pub proof fn lemma_unknown_board_owner_gets_no_entry(b: Board, p: Profile, owner: Seq<char>)
    requires
        forall|j: int|
            0 <= j < p.boards@.len() ==> !((#[trigger] p.boards@[j]).is_resolved()
                && p.boards@[j].id->0@ == owner),
    ensures
        forall|k: int|
            0 <= k < key_search_spec(b, p).len() ==> !((#[trigger] key_search_spec(b, p)[k]).ty
                == KeyType::Board && key_search_spec(b, p)[k].owner_id == owner),
{
    let sp = resolved_entries(p.spaces@, b.space_candidates(), KeyType::Space);
    let bd = resolved_entries(p.boards@, b.board_candidates(), KeyType::Board);
    lemma_scan_skips_unknown_owner(p.boards@, b.board_candidates(), KeyType::Board, owner);
    lemma_scan_tags(p.spaces@, b.space_candidates(), KeyType::Space);
    assert forall|k: int|
        0 <= k < key_search_spec(b, p).len() implies !((#[trigger] key_search_spec(b, p)[k]).ty
        == KeyType::Board && key_search_spec(b, p)[k].owner_id == owner) by {
        if k < sp.len() {
            assert(key_search_spec(b, p)[k] == sp[k]);
        } else {
            assert(key_search_spec(b, p)[k] == bd[k - sp.len()]);
        }
    }
}

/// Law: for a record whose direct owner id matches a profile entry with a
/// known key (and which embeds no grants), key search returns a keychain
/// holding exactly that entry under the space tag.
pub proof fn lemma_direct_owner_key_found(b: Board, p: Profile, i: int)
    requires
        b.space_id is Some,
        b.spec_grants().len() == 0,
        0 <= i < p.spaces@.len(),
        p.spaces@[i].is_resolved(),
        p.spaces@[i].id->0@ == b.space_id->0@,
        forall|j: int|
            0 <= j < p.spaces@.len() && j != i ==> !((#[trigger] p.spaces@[j]).is_resolved()
                && p.spaces@[j].id->0@ == b.space_id->0@),
    ensures
        key_search_spec(b, p) == seq![
            (KeyEntryV {
                owner_id: b.space_id->0@,
                key: p.spaces@[i].key->0@,
                ty: KeyType::Space,
            }),
        ],
{
    assert(grant_views(b.spec_grants(), KeyType::Space) =~= Seq::<Seq<char>>::empty());
    assert(grant_views(b.spec_grants(), KeyType::Board) =~= Seq::<Seq<char>>::empty());
    let wanted = b.space_candidates();
    assert(wanted =~= seq![b.space_id->0@]);
    assert(wanted[0] == b.space_id->0@);
    assert forall|x: Seq<char>| #[trigger] wanted.contains(x) implies x == b.space_id->0@ by {
        let k = choose|k: int| 0 <= k < wanted.len() && wanted[k] == x;
        assert(k == 0);
    }
    assert(wanted.contains(p.spaces@[i].id->0@));
    lemma_unique_match(p.spaces@, wanted, KeyType::Space, i);
    assert(b.board_candidates().len() == 0);
    lemma_resolved_entries_no_candidates(p.boards@, b.board_candidates(), KeyType::Board);
    assert(key_search_spec(b, p) =~= seq![
        (KeyEntryV { owner_id: b.space_id->0@, key: p.spaces@[i].key->0@, ty: KeyType::Space }),
    ]);
}

/// Law: an owner id that is unknown to the cache, or known but still
/// keyless, yields no entry — and no error, key search being total.
pub proof fn lemma_unresolved_owner_yields_nothing(b: Board, p: Profile)
    requires
        b.spec_grants().len() == 0,
        forall|j: int|
            0 <= j < p.spaces@.len() ==> !((#[trigger] p.spaces@[j]).is_resolved() && b.space_id
                is Some && p.spaces@[j].id->0@ == b.space_id->0@),
    ensures
        key_search_spec(b, p) == Seq::<KeyEntryV>::empty(),
{
    assert(grant_views(b.spec_grants(), KeyType::Space) =~= Seq::<Seq<char>>::empty());
    assert(grant_views(b.spec_grants(), KeyType::Board) =~= Seq::<Seq<char>>::empty());
    let wanted = b.space_candidates();
    if b.space_id is Some {
        assert(wanted =~= seq![b.space_id->0@]);
        assert forall|x: Seq<char>| #[trigger] wanted.contains(x) implies x == b.space_id->0@ by {
            let k = choose|k: int| 0 <= k < wanted.len() && wanted[k] == x;
            assert(k == 0);
        }
        lemma_no_match_yields_nothing(p.spaces@, wanted, KeyType::Space);
    } else {
        assert(wanted.len() == 0);
        lemma_resolved_entries_no_candidates(p.spaces@, wanted, KeyType::Space);
    }
    lemma_resolved_entries_no_candidates(p.boards@, b.board_candidates(), KeyType::Board);
    assert(key_search_spec(b, p) =~= Seq::<KeyEntryV>::empty());
}

/// With no candidate owners, a scan owes no entries.
proof fn lemma_resolved_entries_no_candidates(
    cache: Seq<ProfileEntry>,
    wanted: Seq<Seq<char>>,
    tag: KeyType,
)
    requires
        wanted.len() == 0,
    ensures
        resolved_entries(cache, wanted, tag) == Seq::<KeyEntryV>::empty(),
    decreases cache.len(),
{
    if cache.len() > 0 {
        lemma_resolved_entries_no_candidates(cache.drop_last(), wanted, tag);
    }
}

} // verus!
