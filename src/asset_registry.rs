//! Registry of game assets: registration by the admin, ownership transfer
//! with an append-only history, metadata updates, per-owner and global id
//! indexes, and paging over all ids.
use vstd::prelude::*;
use crate::common::{Principal, copy_bytes};
use crate::index::{ids_view, page, find_id, add_id, remove_id, paginate_ids};

verus! {

/// Errors of the asset registry.
#[derive(Clone, Copy, PartialEq, Eq, Structural, Debug)]
pub enum GameAssetError {
    /// The registry already has an admin.
    AlreadyInitialized,
    /// The caller may not perform this operation.
    Unauthorized,
    /// A required field is empty.
    InvalidInput,
    /// No asset has this id.
    AssetNotFound,
    /// An asset with this id already exists.
    AssetAlreadyRegistered,
    /// The registry cannot take another asset.
    OperationNotAllowed,
}

/// One key/value attribute of an asset.
pub struct Attribute {
    pub key: Vec<u8>,
    pub value: Vec<u8>,
}

pub struct AttributeModel {
    pub key: Seq<u8>,
    pub value: Seq<u8>,
}

impl View for Attribute {
    type V = AttributeModel;

    open spec fn view(&self) -> AttributeModel {
        AttributeModel { key: self.key@, value: self.value@ }
    }
}

pub open spec fn attributes_view(s: Seq<Attribute>) -> Seq<AttributeModel> {
    s.map_values(|a: Attribute| a@)
}

/// Descriptive data of an asset.
pub struct AssetMetadata {
    pub name: Vec<u8>,
    pub item_type: Vec<u8>,
    pub attributes: Vec<Attribute>,
}

pub struct AssetMetadataModel {
    pub name: Seq<u8>,
    pub item_type: Seq<u8>,
    pub attributes: Seq<AttributeModel>,
}

impl View for AssetMetadata {
    type V = AssetMetadataModel;

    open spec fn view(&self) -> AssetMetadataModel {
        AssetMetadataModel {
            name: self.name@,
            item_type: self.item_type@,
            attributes: attributes_view(self.attributes@),
        }
    }
}

/// One entry of an asset's ownership history.
pub struct OwnershipRecord {
    pub previous_owner: Principal,
    pub timestamp: u64,
    pub reason: Vec<u8>,
}

pub struct OwnershipRecordModel {
    pub previous_owner: Principal,
    pub timestamp: u64,
    pub reason: Seq<u8>,
}

impl View for OwnershipRecord {
    type V = OwnershipRecordModel;

    open spec fn view(&self) -> OwnershipRecordModel {
        OwnershipRecordModel {
            previous_owner: self.previous_owner,
            timestamp: self.timestamp,
            reason: self.reason@,
        }
    }
}

pub open spec fn history_view(s: Seq<OwnershipRecord>) -> Seq<OwnershipRecordModel> {
    s.map_values(|r: OwnershipRecord| r@)
}

/// A registered asset.
pub struct GameAsset {
    pub id: Vec<u8>,
    pub owner: Principal,
    pub metadata: AssetMetadata,
    pub history: Vec<OwnershipRecord>,
}

pub struct GameAssetModel {
    pub id: Seq<u8>,
    pub owner: Principal,
    pub metadata: AssetMetadataModel,
    pub history: Seq<OwnershipRecordModel>,
}

impl View for GameAsset {
    type V = GameAssetModel;

    open spec fn view(&self) -> GameAssetModel {
        GameAssetModel {
            id: self.id@,
            owner: self.owner,
            metadata: self.metadata@,
            history: history_view(self.history@),
        }
    }
}

impl Attribute {
    pub fn copy(&self) -> (r: Attribute)
        ensures
            r@ == self@,
    {
        Attribute { key: copy_bytes(&self.key), value: copy_bytes(&self.value) }
    }
}

pub fn copy_attributes(v: &Vec<Attribute>) -> (r: Vec<Attribute>)
    ensures
        attributes_view(r@) == attributes_view(v@),
{
    let mut r: Vec<Attribute> = Vec::new();
    let mut i: usize = 0;
    while i < v.len()
        invariant
            0 <= i <= v@.len(),
            attributes_view(r@) == attributes_view(v@).subrange(0, i as int),
        decreases v@.len() - i,
    {
        let a = v[i].copy();
        let ghost before = r@;
        r.push(a);
        assert(attributes_view(r@) =~= attributes_view(before).push(a@));
        assert(attributes_view(r@) =~= attributes_view(v@).subrange(0, i + 1));
        i = i + 1;
    }
    assert(attributes_view(r@) =~= attributes_view(v@));
    r
}

impl AssetMetadata {
    pub fn copy(&self) -> (r: AssetMetadata)
        ensures
            r@ == self@,
    {
        AssetMetadata {
            name: copy_bytes(&self.name),
            item_type: copy_bytes(&self.item_type),
            attributes: copy_attributes(&self.attributes),
        }
    }
}

impl OwnershipRecord {
    pub fn copy(&self) -> (r: OwnershipRecord)
        ensures
            r@ == self@,
    {
        OwnershipRecord {
            previous_owner: self.previous_owner,
            timestamp: self.timestamp,
            reason: copy_bytes(&self.reason),
        }
    }
}

pub fn copy_history(v: &Vec<OwnershipRecord>) -> (r: Vec<OwnershipRecord>)
    ensures
        history_view(r@) == history_view(v@),
{
    let mut r: Vec<OwnershipRecord> = Vec::new();
    let mut i: usize = 0;
    while i < v.len()
        invariant
            0 <= i <= v@.len(),
            history_view(r@) == history_view(v@).subrange(0, i as int),
        decreases v@.len() - i,
    {
        let a = v[i].copy();
        let ghost before = r@;
        r.push(a);
        assert(history_view(r@) =~= history_view(before).push(a@));
        assert(history_view(r@) =~= history_view(v@).subrange(0, i + 1));
        i = i + 1;
    }
    assert(history_view(r@) =~= history_view(v@));
    r
}

impl GameAsset {
    pub fn copy(&self) -> (r: GameAsset)
        ensures
            r@ == self@,
    {
        GameAsset {
            id: copy_bytes(&self.id),
            owner: self.owner,
            metadata: self.metadata.copy(),
            history: copy_history(&self.history),
        }
    }
}

/// The asset ids held by one owner, in the order they were acquired.
pub struct UserAssets {
    pub owner: Principal,
    pub asset_ids: Vec<Vec<u8>>,
}

pub open spec fn owner_entry(entries: Seq<UserAssets>, p: Principal, i: int) -> bool {
    0 <= i < entries.len() && entries[i].owner == p
}

/// The ids that the owner index lists for `p` (empty when it has no entry).
pub open spec fn user_ids(entries: Seq<UserAssets>, p: Principal) -> Seq<Seq<u8>> {
    if exists|i: int| owner_entry(entries, p, i) {
        ids_view(entries[choose|i: int| owner_entry(entries, p, i)].asset_ids@)
    } else {
        Seq::empty()
    }
}

/// Each owner has at most one entry, and no entry lists an id twice.
pub open spec fn owner_index_wf(entries: Seq<UserAssets>) -> bool {
    &&& forall|i: int, j: int|
        0 <= i < entries.len() && 0 <= j < entries.len() && i != j ==> entries[i].owner
            != entries[j].owner
    &&& forall|i: int| 0 <= i < entries.len() ==> ids_view(#[trigger] entries[i].asset_ids@).no_duplicates()
}

proof fn lemma_user_ids_at(entries: Seq<UserAssets>, p: Principal, i: int)
    requires
        owner_index_wf(entries),
        owner_entry(entries, p, i),
    ensures
        user_ids(entries, p) == ids_view(entries[i].asset_ids@),
{
    let k = choose|k: int| owner_entry(entries, p, k);
    assert(k == i);
}

proof fn lemma_user_ids_none(entries: Seq<UserAssets>, p: Principal)
    requires
        forall|i: int| 0 <= i < entries.len() ==> entries[i].owner != p,
    ensures
        user_ids(entries, p) == Seq::<Seq<u8>>::empty(),
{
}

proof fn lemma_index_of(st: GameAssetStorage, i: int)
    requires
        st.asset_ids().no_duplicates(),
        0 <= i < st.assets@.len(),
    ensures
        st.index_of(st.assets@[i].id@) == i,
        st.has(st.assets@[i].id@),
{
    assert(st.asset_ids()[i] == st.assets@[i].id@);
    let k = st.index_of(st.assets@[i].id@);
    assert(st.asset_ids()[k] == st.asset_ids()[i]);
}

proof fn lemma_has_index(st: GameAssetStorage, id: Seq<u8>)
    requires
        st.asset_ids().no_duplicates(),
        st.has(id),
    ensures
        0 <= st.index_of(id) < st.assets@.len(),
        st.assets@[st.index_of(id)].id@ == id,
{
    let k = choose|k: int| 0 <= k < st.asset_ids().len() && st.asset_ids()[k] == id;
    assert(st.assets@[k].id@ == id);
}

/// Extending or rewriting assets in place keeps every existing id at its
/// position.
proof fn lemma_same_index(old: GameAssetStorage, new: GameAssetStorage, x: Seq<u8>)
    requires
        old.asset_ids().no_duplicates(),
        new.asset_ids().no_duplicates(),
        old.assets@.len() <= new.assets@.len(),
        forall|k: int| 0 <= k < old.assets@.len() ==> new.assets@[k].id@ == old.assets@[k].id@,
        old.has(x),
    ensures
        new.has(x),
        new.index_of(x) == old.index_of(x),
{
    lemma_has_index(old, x);
    let j = old.index_of(x);
    lemma_index_of(new, j);
}

/// An id is listed under at most one principal: its asset's owner.
pub proof fn lemma_single_owner(st: GameAssetStorage, p: Principal, q: Principal, x: Seq<u8>)
    requires
        st.wf(),
        st.user_ids(p).contains(x),
        st.user_ids(q).contains(x),
    ensures
        p == q,
        st.model_of(x).owner == p,
{
}

/// The registry's records and indexes.
pub struct GameAssetStorage {
    pub admin: Option<Principal>,
    pub assets: Vec<GameAsset>,
    pub user_assets: Vec<UserAssets>,
    pub all_asset_ids: Vec<Vec<u8>>,
    pub asset_count: u32,
}

impl GameAssetStorage {
    pub open spec fn asset_ids(&self) -> Seq<Seq<u8>> {
        self.assets@.map_values(|a: GameAsset| a.id@)
    }

    pub open spec fn has(&self, id: Seq<u8>) -> bool {
        self.asset_ids().contains(id)
    }

    pub open spec fn models(&self) -> Seq<GameAssetModel> {
        self.assets@.map_values(|a: GameAsset| a@)
    }

    pub open spec fn user_ids(&self, p: Principal) -> Seq<Seq<u8>> {
        user_ids(self.user_assets@, p)
    }

    /// Position of the asset with id `id` (meaningful when `has(id)`).
    pub open spec fn index_of(&self, id: Seq<u8>) -> int {
        choose|i: int| 0 <= i < self.assets@.len() && self.assets@[i].id@ == id
    }

    /// The stored asset with id `id` (meaningful when `has(id)`).
    pub open spec fn model_of(&self, id: Seq<u8>) -> GameAssetModel {
        self.assets@[self.index_of(id)]@
    }

    /// Ids are unique, the global id list is the ids in creation order, the
    /// count is the number of assets, and the owner index lists each asset
    /// under its owner and nowhere else.
    pub open spec fn wf(&self) -> bool {
        &&& self.asset_ids().no_duplicates()
        &&& ids_view(self.all_asset_ids@) == self.asset_ids()
        &&& self.asset_count == self.assets@.len()
        &&& owner_index_wf(self.user_assets@)
        &&& forall|p: Principal, x: Seq<u8>| #[trigger]
            user_ids(self.user_assets@, p).contains(x) ==> self.has(x) && self.model_of(x).owner
                == p
        &&& forall|k: int|
            0 <= k < self.assets@.len() ==> user_ids(
                self.user_assets@,
                #[trigger] self.assets@[k].owner,
            ).contains(self.assets@[k].id@)
    }

    pub fn new() -> (r: GameAssetStorage)
        ensures
            r.wf(),
            r.admin is None,
            r.assets@.len() == 0,
            forall|p: Principal| r.user_ids(p) == Seq::<Seq<u8>>::empty(),
    {
        let r = GameAssetStorage {
            admin: None,
            assets: Vec::new(),
            user_assets: Vec::new(),
            all_asset_ids: Vec::new(),
            asset_count: 0,
        };
        assert(ids_view(r.all_asset_ids@) =~= r.asset_ids());
        r
    }

    pub fn set_admin(&mut self, admin: Principal)
        ensures
            final(self).admin == Some(admin),
            final(self).assets == old(self).assets,
            final(self).user_assets == old(self).user_assets,
            final(self).all_asset_ids == old(self).all_asset_ids,
            final(self).asset_count == old(self).asset_count,
    {
        self.admin = Some(admin);
    }

    pub fn get_admin(&self) -> (r: Option<Principal>)
        ensures
            r == self.admin,
    {
        self.admin
    }

    /// Position of the asset with this id.
    pub fn find_asset(&self, asset_id: &Vec<u8>) -> (r: Option<usize>)
        requires
            self.wf(),
        ensures
            match r {
                Some(i) => i < self.assets@.len() && self.assets@[i as int].id@ == asset_id@,
                None => !self.has(asset_id@),
            },
    {
        let mut i: usize = 0;
        while i < self.assets.len()
            invariant
                0 <= i <= self.assets@.len(),
                forall|j: int| 0 <= j < i ==> self.assets@[j].id@ != asset_id@,
            decreases self.assets@.len() - i,
        {
            if crate::common::bytes_eq(&self.assets[i].id, asset_id) {
                return Some(i);
            }
            i = i + 1;
        }
        proof {
            if self.has(asset_id@) {
                let k = choose|k: int|
                    0 <= k < self.asset_ids().len() && self.asset_ids()[k] == asset_id@;
                assert(self.assets@[k].id@ == asset_id@);
            }
        }
        None
    }

    pub fn has_asset(&self, asset_id: &Vec<u8>) -> (r: bool)
        requires
            self.wf(),
        ensures
            r == self.has(asset_id@),
    {
        match self.find_asset(asset_id) {
            Some(i) => {
                assert(self.asset_ids()[i as int] == asset_id@);
                true
            },
            None => false,
        }
    }

    /// The asset with this id, if there is one.
    pub fn get_asset(&self, asset_id: &Vec<u8>) -> (r: Option<GameAsset>)
        requires
            self.wf(),
        ensures
            match r {
                Some(a) => exists|i: int|
                    0 <= i < self.assets@.len() && self.assets@[i].id@ == asset_id@ && a@
                        == self.assets@[i]@,
                None => !self.has(asset_id@),
            },
    {
        match self.find_asset(asset_id) {
            Some(i) => Some(self.assets[i].copy()),
            None => None,
        }
    }

    fn find_owner(&self, owner: Principal) -> (r: Option<usize>)
        ensures
            match r {
                Some(i) => owner_entry(self.user_assets@, owner, i as int),
                None => forall|i: int|
                    0 <= i < self.user_assets@.len() ==> self.user_assets@[i].owner != owner,
            },
    {
        let mut i: usize = 0;
        while i < self.user_assets.len()
            invariant
                0 <= i <= self.user_assets@.len(),
                forall|j: int| 0 <= j < i ==> self.user_assets@[j].owner != owner,
            decreases self.user_assets@.len() - i,
        {
            if self.user_assets[i].owner == owner {
                return Some(i);
            }
            i = i + 1;
        }
        None
    }

    /// The ids that `owner` holds.
    pub fn get_user_assets(&self, owner: Principal) -> (r: Vec<Vec<u8>>)
        requires
            self.wf(),
        ensures
            ids_view(r@) == self.user_ids(owner),
    {
        let mut r: Vec<Vec<u8>> = Vec::new();
        match self.find_owner(owner) {
            Some(k) => {
                proof {
                    lemma_user_ids_at(self.user_assets@, owner, k as int);
                }
                let ids = &self.user_assets[k].asset_ids;
                let mut i: usize = 0;
                while i < ids.len()
                    invariant
                        0 <= i <= ids@.len(),
                        ids_view(r@) == ids_view(ids@).subrange(0, i as int),
                    decreases ids@.len() - i,
                {
                    let c = copy_bytes(&ids[i]);
                    let ghost before = r@;
                    r.push(c);
                    assert(ids_view(r@) =~= ids_view(before).push(c@));
                    assert(ids_view(r@) =~= ids_view(ids@).subrange(0, i + 1));
                    i = i + 1;
                }
                assert(ids_view(r@) =~= ids_view(ids@));
            },
            None => {
                assert(ids_view(r@) =~= Seq::<Seq<u8>>::empty());
            },
        }
        r
    }

    /// Lists `asset_id` under `owner` unless it is already listed there.
    pub fn add_user_asset(&mut self, owner: Principal, asset_id: &Vec<u8>)
        requires
            owner_index_wf(old(self).user_assets@),
        ensures
            owner_index_wf(final(self).user_assets@),
            old(self).user_ids(owner).contains(asset_id@) ==> final(self).user_ids(owner)
                == old(self).user_ids(owner),
            !old(self).user_ids(owner).contains(asset_id@) ==> final(self).user_ids(owner)
                == old(self).user_ids(owner).push(asset_id@),
            forall|p: Principal| p != owner ==> final(self).user_ids(p) == old(self).user_ids(p),
            final(self).admin == old(self).admin,
            final(self).assets == old(self).assets,
            final(self).all_asset_ids == old(self).all_asset_ids,
            final(self).asset_count == old(self).asset_count,
    {
        let ghost entries = self.user_assets@;
        match self.find_owner(owner) {
            Some(k) => {
                proof {
                    lemma_user_ids_at(entries, owner, k as int);
                }
                add_id(&mut self.user_assets[k].asset_ids, asset_id);
                let ghost new_entries = self.user_assets@;
                assert(forall|i: int| 0 <= i < entries.len() ==> new_entries[i].owner == entries[i].owner);
                assert forall|i: int| 0 <= i < new_entries.len() implies ids_view(
                    #[trigger] new_entries[i].asset_ids@,
                ).no_duplicates() by {
                    if i == k {
                        assert(ids_view(entries[i].asset_ids@).no_duplicates());
                        if !ids_view(entries[i].asset_ids@).contains(asset_id@) {
                            let s = ids_view(entries[i].asset_ids@);
                            assert forall|a: int, b: int|
                                0 <= a < s.push(asset_id@).len() && 0 <= b < s.push(asset_id@).len()
                                    && a != b implies s.push(asset_id@)[a] != s.push(asset_id@)[b] by {
                                if a < s.len() && b < s.len() {
                                } else if a < s.len() {
                                    assert(s.contains(s[a]));
                                } else if b < s.len() {
                                    assert(s.contains(s[b]));
                                }
                            }
                        }
                    } else {
                        assert(new_entries[i] == entries[i]);
                    }
                }
                proof {
                    lemma_user_ids_at(new_entries, owner, k as int);
                    assert forall|p: Principal| p != owner implies user_ids(new_entries, p)
                        == user_ids(entries, p) by {
                        if exists|i: int| owner_entry(entries, p, i) {
                            let i = choose|i: int| owner_entry(entries, p, i);
                            lemma_user_ids_at(entries, p, i);
                            lemma_user_ids_at(new_entries, p, i);
                        } else {
                            assert forall|i: int| 0 <= i < new_entries.len() implies new_entries[i].owner != p by {
                                assert(!owner_entry(entries, p, i));
                            }
                            lemma_user_ids_none(new_entries, p);
                        }
                    }
                }
            },
            None => {
                proof {
                    lemma_user_ids_none(entries, owner);
                }
                let mut ids: Vec<Vec<u8>> = Vec::new();
                ids.push(copy_bytes(asset_id));
                self.user_assets.push(UserAssets { owner, asset_ids: ids });
                let ghost new_entries = self.user_assets@;
                let ghost k = (new_entries.len() - 1) as int;
                assert(ids_view(new_entries[k].asset_ids@) =~= seq![asset_id@]);
                assert forall|i: int| 0 <= i < new_entries.len() implies ids_view(
                    #[trigger] new_entries[i].asset_ids@,
                ).no_duplicates() by {
                    if i < k {
                        assert(new_entries[i] == entries[i]);
                    }
                }
                proof {
                    lemma_user_ids_at(new_entries, owner, k);
                    assert(Seq::<Seq<u8>>::empty().push(asset_id@) =~= seq![asset_id@]);
                    assert forall|p: Principal| p != owner implies user_ids(new_entries, p)
                        == user_ids(entries, p) by {
                        if exists|i: int| owner_entry(entries, p, i) {
                            let i = choose|i: int| owner_entry(entries, p, i);
                            lemma_user_ids_at(entries, p, i);
                            lemma_user_ids_at(new_entries, p, i);
                        } else {
                            assert forall|i: int| 0 <= i < new_entries.len() implies new_entries[i].owner != p by {
                                if i < k {
                                    assert(!owner_entry(entries, p, i));
                                }
                            }
                            lemma_user_ids_none(new_entries, p);
                        }
                    }
                }
            },
        }
    }

    /// Takes `asset_id` off the list of `owner`, if it is there.
    pub fn remove_user_asset(&mut self, owner: Principal, asset_id: &Vec<u8>)
        requires
            owner_index_wf(old(self).user_assets@),
        ensures
            owner_index_wf(final(self).user_assets@),
            !old(self).user_ids(owner).contains(asset_id@) ==> final(self).user_ids(owner)
                == old(self).user_ids(owner),
            old(self).user_ids(owner).contains(asset_id@) ==> exists|i: int|
                0 <= i < old(self).user_ids(owner).len() && old(self).user_ids(owner)[i]
                    == asset_id@ && final(self).user_ids(owner) == old(self).user_ids(
                    owner,
                ).remove(i),
            !final(self).user_ids(owner).contains(asset_id@),
            forall|p: Principal| p != owner ==> final(self).user_ids(p) == old(self).user_ids(p),
            final(self).admin == old(self).admin,
            final(self).assets == old(self).assets,
            final(self).all_asset_ids == old(self).all_asset_ids,
            final(self).asset_count == old(self).asset_count,
    {
        let ghost entries = self.user_assets@;
        match self.find_owner(owner) {
            Some(k) => {
                proof {
                    lemma_user_ids_at(entries, owner, k as int);
                }
                let ghost old_ids = ids_view(entries[k as int].asset_ids@);
                remove_id(&mut self.user_assets[k].asset_ids, asset_id);
                let ghost new_entries = self.user_assets@;
                let ghost new_ids = ids_view(new_entries[k as int].asset_ids@);
                assert(forall|i: int| 0 <= i < entries.len() ==> new_entries[i].owner == entries[i].owner);
                proof {
                    if old_ids.contains(asset_id@) {
                        let i = choose|i: int|
                            {
                                &&& 0 <= i < entries[k as int].asset_ids@.len()
                                &&& entries[k as int].asset_ids@[i]@ == asset_id@
                                &&& forall|j: int| 0 <= j < i ==> entries[k as int].asset_ids@[j]@ != asset_id@
                                &&& new_entries[k as int].asset_ids@ == entries[k as int].asset_ids@.remove(i)
                            };
                        assert(new_ids =~= old_ids.remove(i));
                        assert(old_ids[i] == asset_id@);
                        assert forall|a: int| 0 <= a < new_ids.len() implies new_ids[a] != asset_id@ by {
                            if a < i {
                                assert(new_ids[a] == old_ids[a]);
                            } else {
                                assert(new_ids[a] == old_ids[a + 1]);
                            }
                        }
                        assert forall|a: int, b: int|
                            0 <= a < new_ids.len() && 0 <= b < new_ids.len() && a != b implies new_ids[a]
                                != new_ids[b] by {
                            let a2 = if a < i { a } else { a + 1 };
                            let b2 = if b < i { b } else { b + 1 };
                            assert(new_ids[a] == old_ids[a2]);
                            assert(new_ids[b] == old_ids[b2]);
                        }
                    } else {
                        assert(new_ids == old_ids);
                    }
                }
                assert forall|i: int| 0 <= i < new_entries.len() implies ids_view(
                    #[trigger] new_entries[i].asset_ids@,
                ).no_duplicates() by {
                    if i != k {
                        assert(new_entries[i] == entries[i]);
                    }
                }
                proof {
                    lemma_user_ids_at(new_entries, owner, k as int);
                    assert forall|p: Principal| p != owner implies user_ids(new_entries, p)
                        == user_ids(entries, p) by {
                        if exists|i: int| owner_entry(entries, p, i) {
                            let i = choose|i: int| owner_entry(entries, p, i);
                            lemma_user_ids_at(entries, p, i);
                            lemma_user_ids_at(new_entries, p, i);
                        } else {
                            assert forall|i: int| 0 <= i < new_entries.len() implies new_entries[i].owner != p by {
                                assert(!owner_entry(entries, p, i));
                            }
                            lemma_user_ids_none(new_entries, p);
                        }
                    }
                }
            },
            None => {
                proof {
                    lemma_user_ids_none(entries, owner);
                }
            },
        }
    }

    /// All registered ids, in creation order.
    pub fn get_all_asset_ids(&self) -> (r: &Vec<Vec<u8>>)
        ensures
            r == &self.all_asset_ids,
    {
        &self.all_asset_ids
    }

    pub fn get_asset_count(&self) -> (r: u32)
        ensures
            r == self.asset_count,
    {
        self.asset_count
    }
}

/// The asset registry contract.
pub struct GameAssetContract {
    pub storage: GameAssetStorage,
}

impl GameAssetContract {
    pub open spec fn wf(&self) -> bool {
        self.storage.wf()
    }

    /// The admin that may authorize `caller` for admin-only operations.
    pub open spec fn is_admin(&self, caller: Principal) -> bool {
        self.storage.admin == Some(caller)
    }

    /// A registry with no admin and no assets.
    pub fn new() -> (r: GameAssetContract)
        ensures
            r.wf(),
            r.storage.admin is None,
            r.storage.assets@.len() == 0,
            forall|p: Principal| r.storage.user_ids(p) == Seq::<Seq<u8>>::empty(),
    {
        GameAssetContract { storage: GameAssetStorage::new() }
    }

    /// Sets the first admin; fails once an admin exists.
    pub fn initialize(&mut self, admin: Principal) -> (r: Result<(), GameAssetError>)
        requires
            old(self).wf(),
        ensures
            final(self).wf(),
            old(self).storage.admin is Some ==> r == Err::<(), _>(GameAssetError::AlreadyInitialized)
                && *final(self) == *old(self),
            old(self).storage.admin is None ==> r is Ok && final(self).storage.admin == Some(admin)
                && final(self).storage.assets == old(self).storage.assets
                && final(self).storage.user_assets == old(self).storage.user_assets
                && final(self).storage.all_asset_ids == old(self).storage.all_asset_ids
                && final(self).storage.asset_count == old(self).storage.asset_count,
    {
        if self.storage.get_admin().is_some() {
            return Err(GameAssetError::AlreadyInitialized);
        }
        self.storage.set_admin(admin);
        Ok(())
    }

    /// Hands the admin role to `new_admin`; only the current admin may.
    pub fn change_admin(&mut self, caller: Principal, new_admin: Principal) -> (r: Result<
        (),
        GameAssetError,
    >)
        requires
            old(self).wf(),
        ensures
            final(self).wf(),
            !old(self).is_admin(caller) ==> r == Err::<(), _>(GameAssetError::Unauthorized)
                && *final(self) == *old(self),
            old(self).is_admin(caller) ==> r is Ok && final(self).storage.admin == Some(new_admin)
                && final(self).storage.assets == old(self).storage.assets
                && final(self).storage.user_assets == old(self).storage.user_assets
                && final(self).storage.all_asset_ids == old(self).storage.all_asset_ids
                && final(self).storage.asset_count == old(self).storage.asset_count,
    {
        match self.storage.get_admin() {
            Some(admin) => {
                if admin != caller {
                    return Err(GameAssetError::Unauthorized);
                }
            },
            None => {
                return Err(GameAssetError::Unauthorized);
            },
        }
        self.storage.set_admin(new_admin);
        Ok(())
    }

    /// The admin; an uninitialized registry reports `AlreadyInitialized`.
    pub fn get_admin(&self) -> (r: Result<Principal, GameAssetError>)
        ensures
            match self.storage.admin {
                Some(a) => r == Ok::<Principal, GameAssetError>(a),
                None => r == Err::<Principal, _>(GameAssetError::AlreadyInitialized),
            },
    {
        match self.storage.get_admin() {
            Some(a) => Ok(a),
            None => Err(GameAssetError::AlreadyInitialized),
        }
    }

    /// Registers a new asset owned by `owner`; only the admin may.
    pub fn register_asset(
        &mut self,
        caller: Principal,
        owner: Principal,
        asset_id: Vec<u8>,
        name: Vec<u8>,
        item_type: Vec<u8>,
        attributes: Vec<Attribute>,
    ) -> (r: Result<(), GameAssetError>)
        requires
            old(self).wf(),
        ensures
            final(self).wf(),
            r is Err ==> *final(self) == *old(self),
            r == Err::<(), _>(GameAssetError::Unauthorized) <==> !old(self).is_admin(caller),
            r == Err::<(), _>(GameAssetError::InvalidInput) <==> old(self).is_admin(caller) && (
            name@.len() == 0 || item_type@.len() == 0),
            r == Err::<(), _>(GameAssetError::AssetAlreadyRegistered) <==> old(self).is_admin(caller)
                && name@.len() > 0 && item_type@.len() > 0 && old(self).storage.has(asset_id@),
            r == Err::<(), _>(GameAssetError::OperationNotAllowed) <==> old(self).is_admin(caller)
                && name@.len() > 0 && item_type@.len() > 0 && !old(self).storage.has(asset_id@)
                && old(self).storage.asset_count == u32::MAX,
            r is Ok <==> old(self).is_admin(caller) && name@.len() > 0 && item_type@.len() > 0
                && !old(self).storage.has(asset_id@) && old(self).storage.asset_count < u32::MAX,
            r is Ok ==> {
                &&& final(self).storage.models() == old(self).storage.models().push(
                    GameAssetModel {
                        id: asset_id@,
                        owner,
                        metadata: AssetMetadataModel {
                            name: name@,
                            item_type: item_type@,
                            attributes: attributes_view(attributes@),
                        },
                        history: Seq::empty(),
                    },
                )
                &&& final(self).storage.asset_count == old(self).storage.asset_count + 1
                &&& final(self).storage.user_ids(owner) == old(self).storage.user_ids(owner).push(
                    asset_id@,
                )
                &&& forall|p: Principal|
                    p != owner ==> final(self).storage.user_ids(p) == old(self).storage.user_ids(p)
                &&& final(self).storage.admin == old(self).storage.admin
                &&& final(self).storage.has(asset_id@)
                &&& final(self).storage.model_of(asset_id@) == GameAssetModel {
                    id: asset_id@,
                    owner,
                    metadata: AssetMetadataModel {
                        name: name@,
                        item_type: item_type@,
                        attributes: attributes_view(attributes@),
                    },
                    history: Seq::empty(),
                }
            },
    {
        match self.storage.get_admin() {
            Some(admin) => {
                if admin != caller {
                    return Err(GameAssetError::Unauthorized);
                }
            },
            None => {
                return Err(GameAssetError::Unauthorized);
            },
        }
        if name.len() == 0 || item_type.len() == 0 {
            return Err(GameAssetError::InvalidInput);
        }
        if self.storage.has_asset(&asset_id) {
            return Err(GameAssetError::AssetAlreadyRegistered);
        }
        if self.storage.asset_count == u32::MAX {
            return Err(GameAssetError::OperationNotAllowed);
        }
        let ghost old_storage = self.storage;
        self.storage.add_user_asset(owner, &asset_id);
        let id_copy = copy_bytes(&asset_id);
        self.storage.all_asset_ids.push(id_copy);
        let asset = GameAsset {
            id: asset_id,
            owner,
            metadata: AssetMetadata { name, item_type, attributes },
            history: Vec::new(),
        };
        assert(history_view(asset.history@) =~= Seq::<OwnershipRecordModel>::empty());
        self.storage.assets.push(asset);
        self.storage.asset_count = self.storage.asset_count + 1;
        assert(self.storage.models() =~= old_storage.models().push(asset@));
        assert(self.storage.asset_ids() =~= old_storage.asset_ids().push(asset_id@));
        assert(ids_view(self.storage.all_asset_ids@) =~= ids_view(old_storage.all_asset_ids@).push(
            asset_id@,
        ));
        proof {
            let new = self.storage;
            let last = old_storage.assets@.len() as int;
            lemma_index_of(new, last);
            assert(!old_storage.user_ids(owner).contains(asset_id@));
            assert(new.user_ids(owner) == old_storage.user_ids(owner).push(asset_id@));
            assert forall|p: Principal, x: Seq<u8>| #[trigger]
                user_ids(new.user_assets@, p).contains(x) implies new.has(x) && new.model_of(x).owner
                == p by {
                assert(new.user_ids(p) == user_ids(new.user_assets@, p));
                if p == owner && x == asset_id@ {
                } else {
                    assert(old_storage.user_ids(p).contains(x)) by {
                        if p == owner {
                            let j = choose|j: int| 0 <= j < new.user_ids(p).len() && new.user_ids(p)[j] == x;
                            assert(old_storage.user_ids(p)[j] == x);
                        }
                    }
                    lemma_same_index(old_storage, new, x);
                }
            }
            assert forall|k: int| 0 <= k < new.assets@.len() implies user_ids(
                new.user_assets@,
                #[trigger] new.assets@[k].owner,
            ).contains(new.assets@[k].id@) by {
                if k == last {
                    assert(new.user_ids(owner)[old_storage.user_ids(owner).len() as int] == asset_id@);
                } else {
                    let o = old_storage.assets@[k].owner;
                    assert(old_storage.user_ids(o).contains(old_storage.assets@[k].id@));
                    if o == owner {
                        let j = choose|j: int| 0 <= j < old_storage.user_ids(o).len() && old_storage.user_ids(o)[j] == old_storage.assets@[k].id@;
                        assert(new.user_ids(o)[j] == old_storage.assets@[k].id@);
                    }
                }
            }
        }
        proof {
            lemma_index_of(self.storage, self.storage.assets@.len() - 1);
        }
        Ok(())
    }

    /// Moves an asset from `from` to `to`, recording `from` in its history;
    /// only the current owner may.
    pub fn transfer_asset(
        &mut self,
        from: Principal,
        to: Principal,
        asset_id: &Vec<u8>,
        reason: Vec<u8>,
        now: u64,
    ) -> (r: Result<(), GameAssetError>)
        requires
            old(self).wf(),
        ensures
            final(self).wf(),
            r is Err ==> *final(self) == *old(self),
            r == Err::<(), _>(GameAssetError::AssetNotFound) <==> !old(self).storage.has(asset_id@),
            r == Err::<(), _>(GameAssetError::Unauthorized) <==> old(self).storage.has(asset_id@)
                && old(self).storage.model_of(asset_id@).owner != from,
            r is Ok <==> old(self).storage.has(asset_id@) && old(self).storage.model_of(
                asset_id@,
            ).owner == from,
            r is Ok ==> {
                let before = old(self).storage.model_of(asset_id@);
                let after = GameAssetModel {
                    id: before.id,
                    owner: to,
                    metadata: before.metadata,
                    history: before.history.push(
                        OwnershipRecordModel { previous_owner: from, timestamp: now, reason: reason@ },
                    ),
                };
                &&& final(self).storage.models() == old(self).storage.models().update(
                    old(self).storage.index_of(asset_id@),
                    after,
                )
                &&& final(self).storage.has(asset_id@)
                &&& final(self).storage.model_of(asset_id@) == after
                &&& final(self).storage.user_ids(to).contains(asset_id@)
                &&& from != to ==> !final(self).storage.user_ids(from).contains(asset_id@)
                &&& from != to ==> final(self).storage.user_ids(to) == old(self).storage.user_ids(
                    to,
                ).push(asset_id@)
                &&& exists|k: int|
                    0 <= k < old(self).storage.user_ids(from).len() && #[trigger] old(
                        self,
                    ).storage.user_ids(from)[k] == asset_id@ && final(self).storage.user_ids(from)
                        == if from != to {
                        old(self).storage.user_ids(from).remove(k)
                    } else {
                        old(self).storage.user_ids(from).remove(k).push(asset_id@)
                    }
                &&& forall|p: Principal|
                    p != from && p != to ==> final(self).storage.user_ids(p)
                        == old(self).storage.user_ids(p)
                &&& final(self).storage.admin == old(self).storage.admin
                &&& final(self).storage.asset_count == old(self).storage.asset_count
                &&& final(self).storage.all_asset_ids == old(self).storage.all_asset_ids
            },
    {
        let i = match self.storage.find_asset(asset_id) {
            Some(i) => i,
            None => {
                return Err(GameAssetError::AssetNotFound);
            },
        };
        proof {
            lemma_index_of(self.storage, i as int);
        }
        if self.storage.assets[i].owner != from {
            return Err(GameAssetError::Unauthorized);
        }
        let ghost old_storage = self.storage;
        let record = OwnershipRecord { previous_owner: from, timestamp: now, reason };
        let ghost rec = record@;
        self.storage.assets[i].history.push(record);
        self.storage.assets[i].owner = to;
        let ghost before = old_storage.assets@[i as int]@;
        let ghost after = GameAssetModel {
            id: before.id,
            owner: to,
            metadata: before.metadata,
            history: before.history.push(rec),
        };
        assert(history_view(self.storage.assets@[i as int].history@) =~= before.history.push(rec));
        assert(self.storage.models() =~= old_storage.models().update(i as int, after));
        assert(self.storage.asset_ids() =~= old_storage.asset_ids());
        self.storage.remove_user_asset(from, asset_id);
        let ghost mid = self.storage;
        self.storage.add_user_asset(to, asset_id);
        proof {
            assert(self.storage.has(asset_id@)) by {
                assert(self.storage.asset_ids()[i as int] == asset_id@);
            }
            assert(self.storage.user_ids(to).contains(asset_id@)) by {
                if !mid.user_ids(to).contains(asset_id@) {
                    assert(self.storage.user_ids(to) == mid.user_ids(to).push(asset_id@));
                    assert(self.storage.user_ids(to)[mid.user_ids(to).len() as int] == asset_id@);
                }
            }
            let new = self.storage;
            let id = asset_id@;
            // The id sat in the sender's list only.
            assert(user_ids(old_storage.user_assets@, old_storage.assets@[i as int].owner).contains(
                old_storage.assets@[i as int].id@,
            ));
            assert(old_storage.user_ids(from).contains(id));
            if from != to {
                if user_ids(old_storage.user_assets@, to).contains(id) {
                    assert(old_storage.model_of(id).owner == to);
                }
                assert(!old_storage.user_ids(to).contains(id));
                assert(mid.user_ids(to) == old_storage.user_ids(to));
                assert(new.user_ids(to) == old_storage.user_ids(to).push(id));
            }
            let k = choose|k: int|
                0 <= k < old_storage.user_ids(from).len() && old_storage.user_ids(from)[k] == id
                    && mid.user_ids(from) == old_storage.user_ids(from).remove(k);
            if from == to {
                assert(!mid.user_ids(from).contains(id));
                assert(new.user_ids(from) == old_storage.user_ids(from).remove(k).push(id));
            }
            // What the two index updates did to the lists.
            assert forall|x: Seq<u8>| #[trigger] mid.user_ids(from).contains(x) implies old_storage.user_ids(
                from,
            ).contains(x) && x != id by {
                if old_storage.user_ids(from).contains(id) {
                    let k = choose|k: int|
                        0 <= k < old_storage.user_ids(from).len() && old_storage.user_ids(from)[k] == id
                            && mid.user_ids(from) == old_storage.user_ids(from).remove(k);
                    let j = choose|j: int| 0 <= j < mid.user_ids(from).len() && mid.user_ids(from)[j] == x;
                    if j < k {
                        assert(old_storage.user_ids(from)[j] == x);
                    } else {
                        assert(old_storage.user_ids(from)[j + 1] == x);
                    }
                }
            }
            assert forall|x: Seq<u8>|
                old_storage.user_ids(from).contains(x) && x != id implies #[trigger] mid.user_ids(
                from,
            ).contains(x) by {
                if old_storage.user_ids(from).contains(id) {
                    let k = choose|k: int|
                        0 <= k < old_storage.user_ids(from).len() && old_storage.user_ids(from)[k] == id
                            && mid.user_ids(from) == old_storage.user_ids(from).remove(k);
                    let j = choose|j: int| 0 <= j < old_storage.user_ids(from).len() && old_storage.user_ids(from)[j] == x;
                    if j < k {
                        assert(mid.user_ids(from)[j] == x);
                    } else {
                        assert(j != k);
                        assert(mid.user_ids(from)[j - 1] == x);
                    }
                }
            }
            assert forall|x: Seq<u8>| #[trigger] new.user_ids(to).contains(x) implies mid.user_ids(
                to,
            ).contains(x) || x == id by {
                if !mid.user_ids(to).contains(id) {
                    let j = choose|j: int| 0 <= j < new.user_ids(to).len() && new.user_ids(to)[j] == x;
                    if j < mid.user_ids(to).len() {
                        assert(mid.user_ids(to)[j] == x);
                    }
                }
            }
            assert forall|x: Seq<u8>| #[trigger] mid.user_ids(to).contains(x) implies new.user_ids(
                to,
            ).contains(x) by {
                if !mid.user_ids(to).contains(id) {
                    let j = choose|j: int| 0 <= j < mid.user_ids(to).len() && mid.user_ids(to)[j] == x;
                    assert(new.user_ids(to)[j] == x);
                }
            }
            // Every asset but the moved one keeps its place and its owner.
            assert forall|x: Seq<u8>| old_storage.has(x) && x != id implies new.has(x)
                && #[trigger] new.model_of(x).owner == old_storage.model_of(x).owner by {
                lemma_same_index(old_storage, new, x);
                lemma_has_index(old_storage, x);
            }
            assert forall|p: Principal, x: Seq<u8>| #[trigger]
                user_ids(new.user_assets@, p).contains(x) implies new.has(x) && new.model_of(x).owner
                == p by {
                assert(new.user_ids(p) == user_ids(new.user_assets@, p));
                if x == id {
                    lemma_index_of(new, i as int);
                    if p != to {
                        assert(mid.user_ids(p).contains(id));
                        if p != from {
                            assert(user_ids(old_storage.user_assets@, p).contains(id));
                            assert(old_storage.model_of(id).owner == p);
                        }
                    }
                } else {
                    if p == to {
                        assert(mid.user_ids(p).contains(x));
                    }
                    assert(mid.user_ids(p).contains(x));
                    assert(old_storage.user_ids(p).contains(x));
                    assert(user_ids(old_storage.user_assets@, p).contains(x));
                    assert(new.model_of(x).owner == old_storage.model_of(x).owner);
                }
            }
            assert forall|k: int| 0 <= k < new.assets@.len() implies user_ids(
                new.user_assets@,
                #[trigger] new.assets@[k].owner,
            ).contains(new.assets@[k].id@) by {
                if k != i {
                    let o = old_storage.assets@[k].owner;
                    let y = old_storage.assets@[k].id@;
                    assert(new.assets@[k] == old_storage.assets@[k]);
                    assert(old_storage.user_ids(o).contains(y));
                    assert(old_storage.asset_ids()[k] == y);
                    assert(old_storage.asset_ids()[i as int] == id);
                    assert(y != id);
                    assert(mid.user_ids(o).contains(y));
                    if o == to {
                        assert(new.user_ids(o).contains(y));
                    }
                }
            }
            lemma_index_of(self.storage, i as int);
            assert(ids_view(self.storage.all_asset_ids@) == self.storage.asset_ids());
        }
        Ok(())
    }

    /// Replaces an asset's metadata; the admin or the owner may.
    pub fn update_metadata(
        &mut self,
        user: Principal,
        asset_id: &Vec<u8>,
        name: Vec<u8>,
        item_type: Vec<u8>,
        attributes: Vec<Attribute>,
    ) -> (r: Result<(), GameAssetError>)
        requires
            old(self).wf(),
        ensures
            final(self).wf(),
            r is Err ==> *final(self) == *old(self),
            r == Err::<(), _>(GameAssetError::AssetNotFound) <==> !old(self).storage.has(asset_id@),
            r == Err::<(), _>(GameAssetError::Unauthorized) <==> old(self).storage.has(asset_id@)
                && !old(self).is_admin(user) && old(self).storage.model_of(asset_id@).owner != user,
            r is Ok <==> old(self).storage.has(asset_id@) && (old(self).is_admin(user) || old(
                self,
            ).storage.model_of(asset_id@).owner == user),
            r is Ok ==> {
                let before = old(self).storage.model_of(asset_id@);
                let after = GameAssetModel {
                    id: before.id,
                    owner: before.owner,
                    metadata: AssetMetadataModel {
                        name: name@,
                        item_type: item_type@,
                        attributes: attributes_view(attributes@),
                    },
                    history: before.history,
                };
                &&& final(self).storage.models() == old(self).storage.models().update(
                    old(self).storage.index_of(asset_id@),
                    after,
                )
                &&& final(self).storage.model_of(asset_id@) == after
                &&& final(self).storage.user_assets == old(self).storage.user_assets
                &&& final(self).storage.admin == old(self).storage.admin
                &&& final(self).storage.asset_count == old(self).storage.asset_count
                &&& final(self).storage.all_asset_ids == old(self).storage.all_asset_ids
            },
    {
        let i = match self.storage.find_asset(asset_id) {
            Some(i) => i,
            None => {
                return Err(GameAssetError::AssetNotFound);
            },
        };
        proof {
            lemma_index_of(self.storage, i as int);
        }
        let is_admin = match self.storage.get_admin() {
            Some(a) => a == user,
            None => false,
        };
        if !is_admin && self.storage.assets[i].owner != user {
            return Err(GameAssetError::Unauthorized);
        }
        let ghost old_storage = self.storage;
        let metadata = AssetMetadata { name, item_type, attributes };
        let ghost m = metadata@;
        self.storage.assets[i].metadata = metadata;
        let ghost before = old_storage.assets@[i as int]@;
        let ghost after = GameAssetModel {
            id: before.id,
            owner: before.owner,
            metadata: m,
            history: before.history,
        };
        assert(self.storage.models() =~= old_storage.models().update(i as int, after));
        assert(self.storage.asset_ids() =~= old_storage.asset_ids());
        proof {
            let new = self.storage;
            assert forall|x: Seq<u8>| old_storage.has(x) implies new.has(x)
                && #[trigger] new.model_of(x).owner == old_storage.model_of(x).owner by {
                lemma_same_index(old_storage, new, x);
                lemma_has_index(old_storage, x);
            }
            assert forall|p: Principal, x: Seq<u8>| #[trigger]
                user_ids(new.user_assets@, p).contains(x) implies new.has(x) && new.model_of(x).owner
                == p by {
                assert(user_ids(old_storage.user_assets@, p).contains(x));
            }
            assert forall|k: int| 0 <= k < new.assets@.len() implies user_ids(
                new.user_assets@,
                #[trigger] new.assets@[k].owner,
            ).contains(new.assets@[k].id@) by {
                assert(new.assets@[k].owner == old_storage.assets@[k].owner);
                assert(new.assets@[k].id@ == old_storage.assets@[k].id@);
            }
            lemma_index_of(self.storage, i as int);
        }
        Ok(())
    }

    /// The asset with this id.
    pub fn get_asset_info(&self, asset_id: &Vec<u8>) -> (r: Result<GameAsset, GameAssetError>)
        requires
            self.wf(),
        ensures
            match r {
                Ok(a) => self.storage.has(asset_id@) && a@ == self.storage.model_of(asset_id@),
                Err(e) => e == GameAssetError::AssetNotFound && !self.storage.has(asset_id@),
            },
    {
        match self.storage.find_asset(asset_id) {
            Some(i) => {
                proof {
                    lemma_index_of(self.storage, i as int);
                }
                Ok(self.storage.assets[i].copy())
            },
            None => Err(GameAssetError::AssetNotFound),
        }
    }

    /// The asset with this id.
    pub fn get_asset(&self, asset_id: &Vec<u8>) -> (r: Result<GameAsset, GameAssetError>)
        requires
            self.wf(),
        ensures
            match r {
                Ok(a) => self.storage.has(asset_id@) && a@ == self.storage.model_of(asset_id@),
                Err(e) => e == GameAssetError::AssetNotFound && !self.storage.has(asset_id@),
            },
    {
        self.get_asset_info(asset_id)
    }

    /// The metadata of the asset with this id.
    pub fn get_asset_metadata(&self, asset_id: &Vec<u8>) -> (r: Result<
        AssetMetadata,
        GameAssetError,
    >)
        requires
            self.wf(),
        ensures
            match r {
                Ok(m) => self.storage.has(asset_id@) && m@ == self.storage.model_of(
                    asset_id@,
                ).metadata,
                Err(e) => e == GameAssetError::AssetNotFound && !self.storage.has(asset_id@),
            },
    {
        match self.storage.find_asset(asset_id) {
            Some(i) => {
                proof {
                    lemma_index_of(self.storage, i as int);
                }
                Ok(self.storage.assets[i].metadata.copy())
            },
            None => Err(GameAssetError::AssetNotFound),
        }
    }

    /// The ownership history of the asset with this id, oldest first.
    pub fn get_asset_history(&self, asset_id: &Vec<u8>) -> (r: Result<
        Vec<OwnershipRecord>,
        GameAssetError,
    >)
        requires
            self.wf(),
        ensures
            match r {
                Ok(h) => self.storage.has(asset_id@) && history_view(h@) == self.storage.model_of(
                    asset_id@,
                ).history,
                Err(e) => e == GameAssetError::AssetNotFound && !self.storage.has(asset_id@),
            },
    {
        match self.storage.find_asset(asset_id) {
            Some(i) => {
                proof {
                    lemma_index_of(self.storage, i as int);
                }
                Ok(copy_history(&self.storage.assets[i].history))
            },
            None => Err(GameAssetError::AssetNotFound),
        }
    }

    /// The assets that `owner` holds, in the order of the owner index.
    pub fn get_user_assets(&self, owner: Principal) -> (r: Vec<GameAsset>)
        requires
            self.wf(),
        ensures
            r@.len() == self.storage.user_ids(owner).len(),
            forall|k: int|
                0 <= k < r@.len() ==> #[trigger] r@[k]@ == self.storage.model_of(
                    self.storage.user_ids(owner)[k],
                ),
    {
        let ids = self.storage.get_user_assets(owner);
        let mut r: Vec<GameAsset> = Vec::new();
        let mut k: usize = 0;
        while k < ids.len()
            invariant
                self.wf(),
                ids_view(ids@) == self.storage.user_ids(owner),
                0 <= k <= ids@.len(),
                r@.len() == k,
                forall|j: int|
                    0 <= j < k ==> #[trigger] r@[j]@ == self.storage.model_of(
                        self.storage.user_ids(owner)[j],
                    ),
            decreases ids@.len() - k,
        {
            proof {
                assert(self.storage.user_ids(owner)[k as int] == ids@[k as int]@);
                assert(self.storage.user_ids(owner).contains(ids@[k as int]@));
            }
            match self.storage.find_asset(&ids[k]) {
                Some(i) => {
                    proof {
                        lemma_index_of(self.storage, i as int);
                    }
                    r.push(self.storage.assets[i].copy());
                },
                None => {},
            }
            k = k + 1;
        }
        r
    }

    /// One page of all asset ids, in registration order.
    pub fn get_all_assets(&self, skip: u32, limit: u32) -> (r: Vec<Vec<u8>>)
        requires
            self.wf(),
        ensures
            ids_view(r@) == page(self.storage.asset_ids(), skip as int, limit as int),
    {
        paginate_ids(self.storage.get_all_asset_ids(), skip, limit)
    }

    pub fn asset_exists(&self, asset_id: &Vec<u8>) -> (r: bool)
        requires
            self.wf(),
        ensures
            r == self.storage.has(asset_id@),
    {
        self.storage.has_asset(asset_id)
    }

    /// The number of registered assets.
    pub fn get_asset_count(&self) -> (r: u32)
        requires
            self.wf(),
        ensures
            r == self.storage.assets@.len(),
    {
        self.storage.get_asset_count()
    }
}

} // verus!
