//! The keychain: resolved decryption keys collected during one key search.
//!
//! A keychain is constructed fresh per key-search call and owned by the
//! caller that requested decryption. Entries are added, never removed;
//! each is addressed by an owner id and a type tag.

use vstd::prelude::*;

verus! {

/// The type tag a resolved key is filed under.
#[derive(Clone, Copy, PartialEq, Eq, Structural, Debug)]
pub enum KeyType {
    /// The key of a top-level container (a space).
    Space,
    /// The key of a sub-container (a board).
    Board,
}

/// One resolved decryption key: the id of the owner it unlocks, the key
/// material, and the type tag of the owner.
pub struct KeyEntry {
    pub owner_id: String,
    pub key: Vec<u8>,
    pub ty: KeyType,
}

/// The mathematical content of a [`KeyEntry`]: owner id and key material
/// as plain sequences.
pub ghost struct KeyEntryV {
    pub owner_id: Seq<char>,
    pub key: Seq<u8>,
    pub ty: KeyType,
}

impl View for KeyEntry {
    type V = KeyEntryV;

    open spec fn view(&self) -> KeyEntryV {
        KeyEntryV { owner_id: self.owner_id@, key: self.key@, ty: self.ty }
    }
}

/// The key the keychain answers for an owner and type: that of the last
/// entry added under them, a later add superseding an earlier one.
pub open spec fn latest_key(entries: Seq<KeyEntryV>, owner: Seq<char>, ty: KeyType) -> Option<
    Seq<u8>,
>
    decreases entries.len(),
{
    if entries.len() == 0 {
        None
    } else if entries.last().owner_id == owner && entries.last().ty == ty {
        Some(entries.last().key)
    } else {
        latest_key(entries.drop_last(), owner, ty)
    }
}

/// An append-oriented collection of resolved keys.
pub struct Keychain {
    entries: Vec<KeyEntry>,
}

impl View for Keychain {
    type V = Seq<KeyEntryV>;

    /// The entries collected so far, in insertion order.
    closed spec fn view(&self) -> Seq<KeyEntryV> {
        self.entries@.map_values(|e: KeyEntry| e@)
    }
}

impl Keychain {
    /// An empty keychain.
    pub fn new() -> (kc: Keychain)
        ensures
            kc@ == Seq::<KeyEntryV>::empty(),
    {
        let kc = Keychain { entries: Vec::new() };
        proof {
            assert(kc@ =~= Seq::<KeyEntryV>::empty());
        }
        kc
    }

    /// Appends one resolved key. A later entry for the same owner and type
    /// stands after (and thereby supersedes) an earlier one.
    pub fn add_key(&mut self, owner_id: String, key: Vec<u8>, ty: KeyType)
        ensures
            final(self)@ == old(self)@.push((KeyEntryV { owner_id: owner_id@, key: key@, ty: ty })),
    {
        let ghost before = self@;
        let entry = KeyEntry { owner_id, key, ty };
        let ghost entry_v = entry@;
        self.entries.push(entry);
        proof {
            assert(self@ =~= before.push(entry_v));
        }
    }

    /// How many keys have been collected.
    pub fn len(&self) -> (n: usize)
        ensures
            n == self@.len(),
    {
        self.entries.len()
    }

    /// The key resolved for `owner_id` under `ty`, the latest add winning.
    pub fn key_for(&self, owner_id: &String, ty: KeyType) -> (r: Option<&Vec<u8>>)
        ensures
            match r {
                Some(k) => latest_key(self@, owner_id@, ty) == Some(k@),
                None => latest_key(self@, owner_id@, ty) is None,
            },
    {
        let mut i: usize = self.entries.len();
        proof {
            assert(self@.take(i as int) =~= self@);
        }
        while i > 0
            invariant
                i <= self.entries@.len(),
                self@.len() == self.entries@.len(),
                latest_key(self@, owner_id@, ty) == latest_key(self@.take(i as int), owner_id@, ty),
            decreases i,
        {
            i = i - 1;
            let entry = &self.entries[i];
            proof {
                assert(self@.take(i + 1).last() == self@[i as int]);
                assert(self@.take(i + 1).drop_last() =~= self@.take(i as int));
            }
            if entry.owner_id == *owner_id {
                if entry.ty == ty {
                    return Some(&entry.key);
                }
            }
        }
        proof {
            assert(self@.take(0) =~= Seq::<KeyEntryV>::empty());
        }
        None
    }

    /// The entry at position `i`.
    pub fn entry_at(&self, i: usize) -> (e: &KeyEntry)
        requires
            i < self@.len(),
        ensures
            e@ == self@[i as int],
    {
        &self.entries[i]
    }
}

} // verus!
