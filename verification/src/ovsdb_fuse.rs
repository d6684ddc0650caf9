//! The OVSDB filesystem: bridges, ports and interfaces under `/by-uuid` (directories of
//! attribute files) and `/by-name` (links into `/by-uuid`), with the inode table that
//! names every path, and the answers to the filesystem's requests.
use vstd::prelude::*;
use vstd::string::*;
use crate::text::{owned, push_str, texts, same_text, chars_of};
use crate::lines::{split_on, starts, split_char, starts_with_text, skip_text, lemma_split_nonempty};
use crate::json::{Json, json_get, json_same, copy_json};
use crate::keyed::{key_index, keyed_get, keys_distinct, lemma_key_index, lemma_key_index_at, upsert, get_keyed, upsert_pos, is_upsert, lemma_upserted_is_upsert, lemma_is_upsert};

verus! {

/// The root directory's inode.
pub const INODE_ROOT: u64 = 1;
pub const INODE_BY_UUID: u64 = 2;
pub const INODE_BY_NAME: u64 = 3;
pub const INODE_ALIASES: u64 = 4;
pub const INODE_BY_UUID_BRIDGES: u64 = 5;
pub const INODE_BY_UUID_PORTS: u64 = 6;
pub const INODE_BY_NAME_BRIDGES: u64 = 7;
pub const INODE_BY_NAME_PORTS: u64 = 8;
pub const INODE_BY_UUID_INTERFACES: u64 = 9;
pub const INODE_BY_NAME_INTERFACES: u64 = 10;

/// The first inode handed out for entity paths.
pub const FIRST_DYNAMIC_INODE: u64 = 100;

/// Kinds of OVSDB entities.
#[derive(Clone, Copy, PartialEq, Eq, Structural)]
pub enum EntityType {
    Bridge,
    Port,
    Interface,
}

/// Kinds of filesystem nodes.
#[derive(Clone, Copy, PartialEq, Eq, Structural)]
pub enum FileKind {
    Directory,
    Symlink,
    RegularFile,
}

/// A bridge, port or interface with its attributes.
pub struct OvsdbEntity {
    pub uuid: String,
    pub name: String,
    pub entity_type: EntityType,
    /// Attributes in document order (metadata left out).
    pub attributes: Vec<(String, Json)>,
    /// Related entities by relation (`ports` of a bridge, `interfaces` of a port).
    pub relationships: Vec<(String, Vec<String>)>,
    /// The entity's whole JSON record.
    pub raw_json: Json,
}

/// The cached OVSDB state and the inode table.
pub struct OvsdbCache {
    /// Entities by uuid, per kind.
    pub bridges: Vec<(String, OvsdbEntity)>,
    pub ports: Vec<(String, OvsdbEntity)>,
    pub interfaces: Vec<(String, OvsdbEntity)>,
    /// Uuids by name, per kind.
    pub bridge_names: Vec<(String, String)>,
    pub port_names: Vec<(String, String)>,
    pub interface_names: Vec<(String, String)>,
    /// The next inode to hand out.
    pub next_inode: u64,
    /// Inode and path of every named node.
    pub inodes: Vec<(u64, String)>,
}

/// The inode of `path` in a table of (inode, path) entries, if it has one.
pub open spec fn inode_of(t: Seq<(u64, Seq<char>)>, path: Seq<char>) -> Option<u64>
    decreases t.len(),
{
    if t.len() == 0 {
        None
    } else if t.last().1 == path {
        Some(t.last().0)
    } else {
        inode_of(t.drop_last(), path)
    }
}

/// The path of `inode` in a table of (inode, path) entries, if it names one.
pub open spec fn path_of(t: Seq<(u64, Seq<char>)>, inode: u64) -> Option<Seq<char>>
    decreases t.len(),
{
    if t.len() == 0 {
        None
    } else if t.last().0 == inode {
        Some(t.last().1)
    } else {
        path_of(t.drop_last(), inode)
    }
}

/// The inode table names each path once and uses each inode once.
pub open spec fn table_wf(t: Seq<(u64, Seq<char>)>) -> bool {
    &&& forall|i: int, j: int| 0 <= i < j < t.len() ==> t[i].0 != t[j].0
    &&& forall|i: int, j: int| 0 <= i < j < t.len() ==> t[i].1 != t[j].1
}

/// The table and next free inode after handing `path` an inode: unchanged when it has
/// one, else the next free inode is appended for it.
pub open spec fn alloc_one(t: Seq<(u64, Seq<char>)>, next: u64, path: Seq<char>) -> (Seq<(u64, Seq<char>)>, u64) {
    if inode_of(t, path) is Some {
        (t, next)
    } else {
        (t.push((next, path)), (next + 1) as u64)
    }
}

/// The table and next free inode after handing each of `paths` an inode, in order.
pub open spec fn alloc_all(t: Seq<(u64, Seq<char>)>, next: u64, paths: Seq<Seq<char>>) -> (Seq<(u64, Seq<char>)>, u64)
    decreases paths.len(),
{
    if paths.len() == 0 {
        (t, next)
    } else {
        let r = alloc_all(t, next, paths.drop_last());
        alloc_one(r.0, r.1, paths.last())
    }
}

/// In a consistent table, each entry's path names its inode and its inode its path; a path
/// or inode without an entry has none.
pub proof fn lemma_table_lookup(t: Seq<(u64, Seq<char>)>)
    requires
        table_wf(t),
    ensures
        forall|i: int| 0 <= i < t.len() ==> inode_of(t, #[trigger] t[i].1) == Some(t[i].0) && path_of(t, t[i].0) == Some(t[i].1),
        forall|p: Seq<char>| inode_of(t, p) is None ==> forall|i: int| 0 <= i < t.len() ==> #[trigger] t[i].1 != p,
        forall|n: u64| path_of(t, n) is None ==> forall|i: int| 0 <= i < t.len() ==> #[trigger] t[i].0 != n,
        forall|p: Seq<char>| #[trigger] inode_of(t, p) is Some ==> exists|i: int| 0 <= i < t.len() && t[i].0 == inode_of(t, p)->0 && t[i].1 == p,
        forall|n: u64| #[trigger] path_of(t, n) is Some ==> exists|i: int| 0 <= i < t.len() && t[i].0 == n && t[i].1 == path_of(t, n)->0,
    decreases t.len(),
{
    if t.len() > 0 {
        let s = t.drop_last();
        assert(table_wf(s));
        lemma_table_lookup(s);
        assert forall|i: int| 0 <= i < t.len() implies inode_of(t, #[trigger] t[i].1) == Some(t[i].0) && path_of(t, t[i].0) == Some(t[i].1) by {
            if i < t.len() - 1 {
                assert(s[i] == t[i]);
            }
        }
        assert forall|p: Seq<char>| inode_of(t, p) is None implies forall|i: int| 0 <= i < t.len() ==> #[trigger] t[i].1 != p by {
            assert forall|i: int| 0 <= i < t.len() implies #[trigger] t[i].1 != p by {
                if i < t.len() - 1 {
                    assert(s[i] == t[i]);
                }
            }
        }
        assert forall|n: u64| path_of(t, n) is None implies forall|i: int| 0 <= i < t.len() ==> #[trigger] t[i].0 != n by {
            assert forall|i: int| 0 <= i < t.len() implies #[trigger] t[i].0 != n by {
                if i < t.len() - 1 {
                    assert(s[i] == t[i]);
                }
            }
        }
        assert forall|p: Seq<char>| #[trigger] inode_of(t, p) is Some implies exists|i: int| 0 <= i < t.len() && t[i].0 == inode_of(t, p)->0 && t[i].1 == p by {
            let n = inode_of(t, p)->0;
            if t.last().1 == p {
                assert(t[t.len() - 1] == t.last());
            } else {
                assert(inode_of(s, p) == Some(n));
                let i = choose|i: int| 0 <= i < s.len() && s[i].0 == n && s[i].1 == p;
                assert(s[i] == t[i]);
            }
        }
        assert forall|n: u64| #[trigger] path_of(t, n) is Some implies exists|i: int| 0 <= i < t.len() && t[i].0 == n && t[i].1 == path_of(t, n)->0 by {
            let p = path_of(t, n)->0;
            if t.last().0 == n {
                assert(t[t.len() - 1] == t.last());
            } else {
                assert(path_of(s, n) == Some(p));
                let i = choose|i: int| 0 <= i < s.len() && s[i].0 == n && s[i].1 == p;
                assert(s[i] == t[i]);
            }
        }
    }
}

/// Paths and inodes correspond one to one: in a consistent table a path has inode `n`
/// exactly when `n` names that path.
pub proof fn law_inode_path_inverse(t: Seq<(u64, Seq<char>)>, p: Seq<char>, n: u64)
    requires
        table_wf(t),
    ensures
        inode_of(t, p) == Some(n) <==> path_of(t, n) == Some(p),
{
    lemma_table_lookup(t);
    if inode_of(t, p) == Some(n) {
        let i = choose|i: int| 0 <= i < t.len() && t[i].0 == n && t[i].1 == p;
        assert(path_of(t, t[i].0) == Some(t[i].1));
    }
    if path_of(t, n) == Some(p) {
        let i = choose|i: int| 0 <= i < t.len() && t[i].0 == n && t[i].1 == p;
        assert(inode_of(t, t[i].1) == Some(t[i].0));
    }
}

/// Asking again for the inode of a path changes nothing and gives the same inode.
pub proof fn law_allocation_stable(t: Seq<(u64, Seq<char>)>, next: u64, p: Seq<char>)
    ensures
        inode_of(alloc_one(t, next, p).0, p) is Some,
        alloc_one(alloc_one(t, next, p).0, alloc_one(t, next, p).1, p) == alloc_one(t, next, p),
{
    if inode_of(t, p) is None {
        let u = t.push((next, p));
        assert(u.last() == (next, p));
    }
}

/// Handing a path an inode keeps the inode of every path that had one.
pub proof fn lemma_alloc_one_keeps(t: Seq<(u64, Seq<char>)>, next: u64, path: Seq<char>, q: Seq<char>)
    requires
        inode_of(t, q) is Some,
    ensures
        inode_of(alloc_one(t, next, path).0, q) == inode_of(t, q),
{
    if inode_of(t, path) is None {
        let u = t.push((next, path));
        assert(u.drop_last() =~= t);
    }
}

/// The directory of a kind under `/by-uuid` or `/by-name`.
pub open spec fn kind_dir(by_uuid: bool, k: EntityType) -> Seq<char> {
    match (by_uuid, k) {
        (true, EntityType::Bridge) => "/by-uuid/bridges"@,
        (true, EntityType::Port) => "/by-uuid/ports"@,
        (true, EntityType::Interface) => "/by-uuid/interfaces"@,
        (false, EntityType::Bridge) => "/by-name/bridges"@,
        (false, EntityType::Port) => "/by-name/ports"@,
        (false, EntityType::Interface) => "/by-name/interfaces"@,
    }
}

/// The path of an entity's node: its kind's directory, a slash and its uuid or name.
pub open spec fn node_path(by_uuid: bool, k: EntityType, key: Seq<char>) -> Seq<char> {
    kind_dir(by_uuid, k) + "/"@ + key
}

/// The fixed directories and their inodes, in registration order.
pub open spec fn fixed_table() -> Seq<(u64, Seq<char>)> {
    seq![
        (1u64, "/"@),
        (2u64, "/by-uuid"@),
        (3u64, "/by-name"@),
        (4u64, "/aliases"@),
        (5u64, "/by-uuid/bridges"@),
        (6u64, "/by-uuid/ports"@),
        (9u64, "/by-uuid/interfaces"@),
        (7u64, "/by-name/bridges"@),
        (8u64, "/by-name/ports"@),
        (10u64, "/by-name/interfaces"@),
    ]
}

impl OvsdbCache {
    /// The inode table as (inode, path) pairs.
    pub open spec fn table(&self) -> Seq<(u64, Seq<char>)> {
        self.inodes@.map_values(|e: (u64, String)| (e.0, e.1@))
    }

    /// The entities of a kind, by uuid.
    pub open spec fn entities(&self, k: EntityType) -> Seq<(String, OvsdbEntity)> {
        match k {
            EntityType::Bridge => self.bridges@,
            EntityType::Port => self.ports@,
            EntityType::Interface => self.interfaces@,
        }
    }

    /// The uuids of a kind, by name.
    pub open spec fn names(&self, k: EntityType) -> Seq<(String, String)> {
        match k {
            EntityType::Bridge => self.bridge_names@,
            EntityType::Port => self.port_names@,
            EntityType::Interface => self.interface_names@,
        }
    }

    /// The entity of a kind registered under `name`.
    pub open spec fn by_name(&self, k: EntityType, name: Seq<char>) -> Option<OvsdbEntity> {
        match keyed_get(self.names(k), name) {
            Some(u) => keyed_get(self.entities(k), u@),
            None => None,
        }
    }

    /// Both caches hold the same entities and names.
    pub open spec fn same_entities(&self, other: &OvsdbCache) -> bool {
        &&& forall|k: EntityType| #[trigger] self.entities(k) == other.entities(k)
        &&& forall|k: EntityType| #[trigger] self.names(k) == other.names(k)
    }

    /// The inode table is consistent and starts with the fixed directories, every inode
    /// is below the next free one, the maps have distinct keys, and every entity's uuid
    /// path and every name's path have an inode.
    pub open spec fn wf(&self) -> bool {
        &&& table_wf(self.table())
        &&& forall|i: int| 0 <= i < self.table().len() ==> #[trigger] self.table()[i].0 < self.next_inode
        &&& self.table().len() >= fixed_table().len()
        &&& forall|i: int| 0 <= i < fixed_table().len() ==> #[trigger] self.table()[i] == fixed_table()[i]
        &&& forall|k: EntityType| #[trigger] keys_distinct(self.entities(k))
        &&& forall|k: EntityType| #[trigger] keys_distinct(self.names(k))
        &&& forall|k: EntityType, i: int|
            0 <= i < self.entities(k).len() ==> #[trigger] inode_of(self.table(), node_path(true, k, self.entities(k)[i].0@)) is Some
        &&& forall|k: EntityType, i: int|
            0 <= i < self.names(k).len() ==> #[trigger] inode_of(self.table(), node_path(false, k, self.names(k)[i].0@)) is Some
    }
}

/// In a table that starts with the fixed directories, each of them names its inode.
pub proof fn lemma_fixed(t: Seq<(u64, Seq<char>)>)
    requires
        table_wf(t),
        t.len() >= fixed_table().len(),
        forall|i: int| 0 <= i < fixed_table().len() ==> #[trigger] t[i] == fixed_table()[i],
    ensures
        forall|i: int| 0 <= i < fixed_table().len() ==> inode_of(t, #[trigger] fixed_table()[i].1) == Some(fixed_table()[i].0)
            && path_of(t, fixed_table()[i].0) == Some(fixed_table()[i].1),
{
    lemma_table_lookup(t);
    assert forall|i: int| 0 <= i < fixed_table().len() implies inode_of(t, #[trigger] fixed_table()[i].1) == Some(fixed_table()[i].0)
        && path_of(t, fixed_table()[i].0) == Some(fixed_table()[i].1) by {
        assert(t[i] == fixed_table()[i]);
    }
}

fn entry(inode: u64, path: &str) -> (r: (u64, String))
    ensures
        r.0 == inode,
        r.1@ == path@,
{
    (inode, owned(path))
}

impl OvsdbCache {
    /// A cache holding only the fixed directories, handing out inodes from 100.
    pub fn new() -> (r: OvsdbCache)
        ensures
            r.wf(),
            r.next_inode == FIRST_DYNAMIC_INODE,
            r.table() == fixed_table(),
            forall|k: EntityType| #[trigger] r.entities(k).len() == 0 && r.names(k).len() == 0,
    {
        proof {
            reveal_strlit("/");
            reveal_strlit("/by-uuid");
            reveal_strlit("/by-name");
            reveal_strlit("/aliases");
            reveal_strlit("/by-uuid/bridges");
            reveal_strlit("/by-uuid/ports");
            reveal_strlit("/by-uuid/interfaces");
            reveal_strlit("/by-name/bridges");
            reveal_strlit("/by-name/ports");
            reveal_strlit("/by-name/interfaces");
        }
        let mut t: Vec<(u64, String)> = Vec::new();
        t.push(entry(INODE_ROOT, "/"));
        t.push(entry(INODE_BY_UUID, "/by-uuid"));
        t.push(entry(INODE_BY_NAME, "/by-name"));
        t.push(entry(INODE_ALIASES, "/aliases"));
        t.push(entry(INODE_BY_UUID_BRIDGES, "/by-uuid/bridges"));
        t.push(entry(INODE_BY_UUID_PORTS, "/by-uuid/ports"));
        t.push(entry(INODE_BY_UUID_INTERFACES, "/by-uuid/interfaces"));
        t.push(entry(INODE_BY_NAME_BRIDGES, "/by-name/bridges"));
        t.push(entry(INODE_BY_NAME_PORTS, "/by-name/ports"));
        t.push(entry(INODE_BY_NAME_INTERFACES, "/by-name/interfaces"));
        let r = OvsdbCache {
            bridges: Vec::new(),
            ports: Vec::new(),
            interfaces: Vec::new(),
            bridge_names: Vec::new(),
            port_names: Vec::new(),
            interface_names: Vec::new(),
            next_inode: FIRST_DYNAMIC_INODE,
            inodes: t,
        };
        assert(r.table() =~= fixed_table());
        assert forall|i: int, j: int| 0 <= i < j < r.table().len() implies r.table()[i].1 != r.table()[j].1 by {
            let a = fixed_table()[i].1;
            let b = fixed_table()[j].1;
            if a.len() == b.len() && a.len() > 4 {
                assert(a[4] != b[4] || a[5] != b[5]);
            }
        }
        assert forall|k: EntityType| #[trigger] keys_distinct(r.entities(k)) by {}
        assert forall|k: EntityType| #[trigger] keys_distinct(r.names(k)) by {}
        r
    }

    /// The inode of a path.
    pub fn get_inode(&self, path: &str) -> (r: Option<u64>)
        ensures
            r == inode_of(self.table(), path@),
    {
        let mut i: usize = self.inodes.len();
        assert(self.table().subrange(0, self.table().len() as int) =~= self.table());
        while i > 0
            invariant
                i <= self.inodes@.len(),
                inode_of(self.table(), path@) == inode_of(self.table().subrange(0, i as int), path@),
            decreases i,
        {
            let ghost pre = self.table().subrange(0, i as int);
            assert(pre.drop_last() =~= self.table().subrange(0, i - 1));
            assert(pre.last() == self.table()[i - 1]);
            if same_text(self.inodes[i - 1].1.as_str(), path) {
                return Some(self.inodes[i - 1].0);
            }
            i = i - 1;
        }
        None
    }

    /// The path of an inode.
    pub fn get_path(&self, inode: u64) -> (r: Option<&str>)
        ensures
            match path_of(self.table(), inode) {
                Some(p) => r matches Some(s) && s@ == p,
                None => r is None,
            },
    {
        let mut i: usize = self.inodes.len();
        assert(self.table().subrange(0, self.table().len() as int) =~= self.table());
        while i > 0
            invariant
                i <= self.inodes@.len(),
                path_of(self.table(), inode) == path_of(self.table().subrange(0, i as int), inode),
            decreases i,
        {
            let ghost pre = self.table().subrange(0, i as int);
            assert(pre.drop_last() =~= self.table().subrange(0, i - 1));
            assert(pre.last() == self.table()[i - 1]);
            if self.inodes[i - 1].0 == inode {
                return Some(self.inodes[i - 1].1.as_str());
            }
            i = i - 1;
        }
        None
    }

    /// The inode of `path`, handing out the next free inode to a path without one.
    pub fn allocate_inode(&mut self, path: &str) -> (r: u64)
        requires
            old(self).wf(),
            old(self).next_inode < u64::MAX,
        ensures
            final(self).wf(),
            (final(self).table(), final(self).next_inode) == alloc_one(old(self).table(), old(self).next_inode, path@),
            final(self).same_entities(old(self)),
            inode_of(final(self).table(), path@) == Some(r),
            path_of(final(self).table(), r) == Some(path@),
    {
        proof {
            lemma_table_lookup(self.table());
        }
        match self.get_inode(path) {
            Some(n) => {
                proof {
                    let i = choose|i: int| 0 <= i < self.table().len() && self.table()[i].0 == n && self.table()[i].1 == path@;
                    assert(path_of(self.table(), self.table()[i].0) == Some(self.table()[i].1));
                }
                n
            },
            None => {
                let n = self.next_inode;
                let ghost before = self.table();
                self.inodes.push((n, owned(path)));
                self.next_inode = n + 1;
                proof {
                    assert(self.table() =~= before.push((n, path@)));
                    lemma_alloc_keeps_wf(*old(self), *self, path@);
                }
                n
            },
        }
    }
}

/// The directory of a kind, as text.
fn kind_dir_text(by_uuid: bool, k: EntityType) -> (r: &'static str)
    ensures
        r@ == kind_dir(by_uuid, k),
{
    match (by_uuid, k) {
        (true, EntityType::Bridge) => "/by-uuid/bridges",
        (true, EntityType::Port) => "/by-uuid/ports",
        (true, EntityType::Interface) => "/by-uuid/interfaces",
        (false, EntityType::Bridge) => "/by-name/bridges",
        (false, EntityType::Port) => "/by-name/ports",
        (false, EntityType::Interface) => "/by-name/interfaces",
    }
}

/// The path of an entity's node, as text.
pub fn node_path_text(by_uuid: bool, k: EntityType, key: &str) -> (r: String)
    ensures
        r@ == node_path(by_uuid, k, key@),
{
    let mut s = owned(kind_dir_text(by_uuid, k));
    push_str(&mut s, "/");
    push_str(&mut s, key);
    s
}

impl OvsdbCache {
    /// Registers an entity of kind `kind` under its uuid and its name, and gives both of
    /// its paths an inode.
    pub fn add_entity(&mut self, kind: EntityType, uuid: &str, name: &str, entity: OvsdbEntity)
        requires
            old(self).wf(),
            old(self).next_inode < u64::MAX - 1,
        ensures
            final(self).wf(),
            is_upsert(old(self).entities(kind), final(self).entities(kind), uuid@),
            final(self).entities(kind)[upsert_pos(old(self).entities(kind), uuid@)].1 == entity,
            is_upsert(old(self).names(kind), final(self).names(kind), name@),
            final(self).names(kind)[upsert_pos(old(self).names(kind), name@)].1@ == uuid@,
            keyed_get(final(self).entities(kind), uuid@) == Some(entity),
            final(self).by_name(kind, name@) == Some(entity),
            forall|q: Seq<char>| q != uuid@ ==> #[trigger] keyed_get(final(self).entities(kind), q) == keyed_get(old(self).entities(kind), q),
            forall|k: EntityType| k != kind ==> #[trigger] final(self).entities(k) == old(self).entities(k),
            forall|k: EntityType| k != kind ==> #[trigger] final(self).names(k) == old(self).names(k),
            (final(self).table(), final(self).next_inode) == alloc_all(
                old(self).table(),
                old(self).next_inode,
                seq![node_path(true, kind, uuid@), node_path(false, kind, name@)],
            ),
    {
        let by_uuid = node_path_text(true, kind, uuid);
        let by_name = node_path_text(false, kind, name);
        self.allocate_inode(by_uuid.as_str());
        let ghost first = *self;
        self.allocate_inode(by_name.as_str());
        let ghost mid = *self;
        proof {
            let ps = seq![node_path(true, kind, uuid@), node_path(false, kind, name@)];
            assert(ps.drop_last() =~= seq![node_path(true, kind, uuid@)]);
            assert(ps.drop_last().drop_last() =~= Seq::<Seq<char>>::empty());
            reveal_with_fuel(alloc_all, 3);
            lemma_alloc_one_keeps(first.table(), first.next_inode, node_path(false, kind, name@), node_path(true, kind, uuid@));
        }
        let u = owned(uuid);
        let n = owned(name);
        let k = owned(uuid);
        let ghost (ug, ng, kg, eg) = (u, n, k, entity);
        let ghost names_before = self.names(kind);
        let ghost entities_before = self.entities(kind);
        match kind {
            EntityType::Bridge => {
                upsert(&mut self.bridge_names, n, u);
                upsert(&mut self.bridges, k, entity);
            },
            EntityType::Port => {
                upsert(&mut self.port_names, n, u);
                upsert(&mut self.ports, k, entity);
            },
            EntityType::Interface => {
                upsert(&mut self.interface_names, n, u);
                upsert(&mut self.interfaces, k, entity);
            },
        }
        proof {
            lemma_upserted_is_upsert(entities_before, kg, eg);
            lemma_upserted_is_upsert(names_before, ng, ug);
            lemma_add_keeps_wf(mid, *self, kind, uuid@, name@);
            lemma_is_upsert(entities_before, self.entities(kind), uuid@);
            lemma_is_upsert(names_before, self.names(kind), name@);
            assert forall|k: EntityType| k != kind implies #[trigger] self.entities(k) == old(self).entities(k) by {
                assert(mid.entities(k) == first.entities(k));
                assert(first.entities(k) == old(self).entities(k));
            }
            assert forall|k: EntityType| k != kind implies #[trigger] self.names(k) == old(self).names(k) by {
                assert(mid.names(k) == first.names(k));
                assert(first.names(k) == old(self).names(k));
            }
        }
    }
}

/// Setting the entity of one kind under a uuid and a name whose paths have inodes keeps the
/// cache well formed.
proof fn lemma_add_keeps_wf(c: OvsdbCache, d: OvsdbCache, kind: EntityType, uuid: Seq<char>, name: Seq<char>)
    requires
        c.wf(),
        inode_of(c.table(), node_path(true, kind, uuid)) is Some,
        inode_of(c.table(), node_path(false, kind, name)) is Some,
        d.inodes == c.inodes,
        d.next_inode == c.next_inode,
        is_upsert(c.entities(kind), d.entities(kind), uuid),
        is_upsert(c.names(kind), d.names(kind), name),
        forall|k: EntityType| k != kind ==> #[trigger] d.entities(k) == c.entities(k),
        forall|k: EntityType| k != kind ==> #[trigger] d.names(k) == c.names(k),
    ensures
        d.wf(),
{
    assert(keys_distinct(c.entities(kind)));
    assert(keys_distinct(c.names(kind)));
    lemma_is_upsert(c.entities(kind), d.entities(kind), uuid);
    lemma_is_upsert(c.names(kind), d.names(kind), name);
    assert(d.table() == c.table());
    assert forall|k: EntityType| #[trigger] keys_distinct(d.entities(k)) by {
        if k != kind {
            assert(d.entities(k) == c.entities(k));
        }
    }
    assert forall|k: EntityType| #[trigger] keys_distinct(d.names(k)) by {
        if k != kind {
            assert(d.names(k) == c.names(k));
        }
    }
    assert forall|k: EntityType, i: int| 0 <= i < d.entities(k).len() implies #[trigger] inode_of(d.table(), node_path(true, k, d.entities(k)[i].0@)) is Some by {
        if k != kind {
            assert(d.entities(k) == c.entities(k));
        } else {
            let key = d.entities(k)[i].0@;
            if key != uuid {
                lemma_key_index_at(d.entities(k), i);
                assert(key_index(d.entities(k), key) is Some);
                lemma_key_index(c.entities(k), key);
                let j = key_index(c.entities(k), key)->0;
                assert(c.entities(k)[j].0@ == key);
            }
        }
    }
    assert forall|k: EntityType, i: int| 0 <= i < d.names(k).len() implies #[trigger] inode_of(d.table(), node_path(false, k, d.names(k)[i].0@)) is Some by {
        if k != kind {
            assert(d.names(k) == c.names(k));
        } else {
            let key = d.names(k)[i].0@;
            if key != name {
                lemma_key_index_at(d.names(k), i);
                assert(key_index(d.names(k), key) is Some);
                lemma_key_index(c.names(k), key);
                let j = key_index(c.names(k), key)->0;
                assert(c.names(k)[j].0@ == key);
            }
        }
    }
}

/// The uuid of an OVSDB record: the second element of its `_uuid` member, when that is a
/// string.
pub open spec fn json_uuid(j: Json) -> Option<Seq<char>> {
    match json_get(j, "_uuid"@) {
        Some(Json::Array(a)) => if a@.len() > 1 {
            match a@[1] {
                Json::Str(u) => Some(u@),
                _ => None,
            }
        } else {
            None
        },
        _ => None,
    }
}

/// Whether a member name is record metadata rather than an attribute.
pub open spec fn is_meta(k: Seq<char>) -> bool {
    k == "_uuid"@ || k == "_version"@
}

/// The members of a record that are attributes, in order.
pub open spec fn kept_members(ms: Seq<(String, Json)>) -> Seq<(String, Json)>
    decreases ms.len(),
{
    if ms.len() == 0 {
        seq![]
    } else {
        let r = kept_members(ms.drop_last());
        if is_meta(ms.last().0@) {
            r
        } else {
            r.push(ms.last())
        }
    }
}

/// The attributes of a record (none unless it is an object).
pub open spec fn attributes_of(j: Json) -> Seq<(String, Json)> {
    match j {
        Json::Object(ms) => kept_members(ms@),
        _ => seq![],
    }
}

/// `a` holds the entries of `b` with the same names and the same JSON content.
pub open spec fn attrs_match(a: Seq<(String, Json)>, b: Seq<(String, Json)>) -> bool {
    &&& a.len() == b.len()
    &&& forall|i: int| 0 <= i < a.len() ==> (#[trigger] a[i]).0@ == b[i].0@ && json_same(b[i].1, a[i].1)
}

/// The uuids that a list of OVSDB references names: the second element of each element
/// that is an array of at least two, when that is a string.
pub open spec fn ref_uuids(items: Seq<Json>) -> Seq<Seq<char>>
    decreases items.len(),
{
    if items.len() == 0 {
        seq![]
    } else {
        let r = ref_uuids(items.drop_last());
        match items.last() {
            Json::Array(a) => if a@.len() > 1 {
                match a@[1] {
                    Json::Str(u) => r.push(u@),
                    _ => r,
                }
            } else {
                r
            },
            _ => r,
        }
    }
}

/// The relation a kind of entity has to the next kind down: a bridge's ports and a
/// port's interfaces.
pub open spec fn relation_key(k: EntityType) -> Option<Seq<char>> {
    match k {
        EntityType::Bridge => Some("ports"@),
        EntityType::Port => Some("interfaces"@),
        EntityType::Interface => None,
    }
}

/// The relationships of a record of kind `k`: its relation's uuids, when the record has
/// that member as an array.
pub open spec fn relations_of(k: EntityType, j: Json) -> Seq<(Seq<char>, Seq<Seq<char>>)> {
    match relation_key(k) {
        Some(rk) => match json_get(j, rk) {
            Some(Json::Array(items)) => seq![(rk, ref_uuids(items@))],
            _ => seq![],
        },
        None => seq![],
    }
}

/// `r` holds the relationships `s`.
pub open spec fn relations_match(r: Seq<(String, Vec<String>)>, s: Seq<(Seq<char>, Seq<Seq<char>>)>) -> bool {
    &&& r.len() == s.len()
    &&& forall|i: int| 0 <= i < r.len() ==> (#[trigger] r[i]).0@ == s[i].0 && texts(r[i].1@) == s[i].1
}

/// `e` is the entity of kind `k` that the record `j` describes under `uuid` and `name`.
pub open spec fn entity_from(e: OvsdbEntity, k: EntityType, uuid: Seq<char>, name: Seq<char>, j: Json) -> bool {
    &&& e.uuid@ == uuid
    &&& e.name@ == name
    &&& e.entity_type == k
    &&& attrs_match(e.attributes@, attributes_of(j))
    &&& relations_match(e.relationships@, relations_of(k, j))
    &&& e.raw_json == j
}

/// The uuid of an OVSDB record.
pub fn record_uuid(j: &Json) -> (r: Option<String>)
    ensures
        match json_uuid(*j) {
            Some(u) => r matches Some(s) && s@ == u,
            None => r is None,
        },
{
    match j.get("_uuid") {
        Some(Json::Array(a)) => {
            if a.len() > 1 {
                match &a[1] {
                    Json::Str(u) => Some(u.clone()),
                    _ => None,
                }
            } else {
                None
            }
        },
        _ => None,
    }
}

/// Copies of the attribute members of a record.
pub fn record_attributes(j: &Json) -> (r: Vec<(String, Json)>)
    ensures
        attrs_match(r@, attributes_of(*j)),
{
    let mut out: Vec<(String, Json)> = Vec::new();
    match j {
        Json::Object(ms) => {
            let mut i: usize = 0;
            while i < ms.len()
                invariant
                    i <= ms@.len(),
                    attrs_match(out@, kept_members(ms@.take(i as int))),
                decreases ms@.len() - i,
            {
                proof {
                    assert(ms@.take(i + 1).drop_last() =~= ms@.take(i as int));
                    assert(ms@.take(i + 1).last() == ms@[i as int]);
                }
                let k = ms[i].0.as_str();
                if !same_text(k, "_uuid") && !same_text(k, "_version") {
                    proof {
                        reveal_strlit("_uuid");
                        reveal_strlit("_version");
                    }
                    let v = copy_json(&ms[i].1);
                    out.push((ms[i].0.clone(), v));
                } else {
                    proof {
                        reveal_strlit("_uuid");
                        reveal_strlit("_version");
                    }
                }
                i = i + 1;
            }
            assert(ms@.take(ms@.len() as int) =~= ms@);
        },
        _ => {},
    }
    out
}

/// The uuids named by a list of OVSDB references.
pub fn reference_uuids(items: &Vec<Json>) -> (r: Vec<String>)
    ensures
        texts(r@) == ref_uuids(items@),
{
    let mut out: Vec<String> = Vec::new();
    let mut i: usize = 0;
    while i < items.len()
        invariant
            i <= items@.len(),
            texts(out@) == ref_uuids(items@.take(i as int)),
        decreases items@.len() - i,
    {
        proof {
            assert(items@.take(i + 1).drop_last() =~= items@.take(i as int));
            assert(items@.take(i + 1).last() == items@[i as int]);
        }
        let ghost before = out@;
        match &items[i] {
            Json::Array(a) => {
                if a.len() > 1 {
                    match &a[1] {
                        Json::Str(u) => {
                            out.push(u.clone());
                            assert(texts(out@) =~= texts(before).push(u@));
                        },
                        _ => {},
                    }
                }
            },
            _ => {},
        }
        i = i + 1;
    }
    assert(items@.take(items@.len() as int) =~= items@);
    out
}

/// The relationships of a record of kind `k`.
pub fn record_relationships(k: EntityType, j: &Json) -> (r: Vec<(String, Vec<String>)>)
    ensures
        relations_match(r@, relations_of(k, *j)),
{
    let mut out: Vec<(String, Vec<String>)> = Vec::new();
    let key: &str = match k {
        EntityType::Bridge => "ports",
        EntityType::Port => "interfaces",
        EntityType::Interface => {
            return out;
        },
    };
    match j.get(key) {
        Some(Json::Array(items)) => {
            let uuids = reference_uuids(items);
            out.push((owned(key), uuids));
        },
        _ => {},
    }
    out
}

impl OvsdbCache {
    /// Registers the entity that an OVSDB record of kind `kind` describes under `name`; a
    /// record without a uuid changes nothing.
    pub fn add_from_json(&mut self, kind: EntityType, name: &str, json: Json)
        requires
            old(self).wf(),
            old(self).next_inode < u64::MAX - 1,
        ensures
            final(self).wf(),
            match json_uuid(json) {
                None => *final(self) == *old(self),
                Some(u) => {
                    &&& is_upsert(old(self).entities(kind), final(self).entities(kind), u)
                    &&& entity_from(final(self).entities(kind)[upsert_pos(old(self).entities(kind), u)].1, kind, u, name@, json)
                    &&& is_upsert(old(self).names(kind), final(self).names(kind), name@)
                    &&& final(self).names(kind)[upsert_pos(old(self).names(kind), name@)].1@ == u
                    &&& keyed_get(final(self).entities(kind), u) matches Some(e) && entity_from(e, kind, u, name@, json)
                    &&& final(self).by_name(kind, name@) == keyed_get(final(self).entities(kind), u)
                    &&& forall|k: EntityType| k != kind ==> #[trigger] final(self).entities(k) == old(self).entities(k)
                    &&& forall|k: EntityType| k != kind ==> #[trigger] final(self).names(k) == old(self).names(k)
                    &&& (final(self).table(), final(self).next_inode) == alloc_all(
                        old(self).table(),
                        old(self).next_inode,
                        seq![node_path(true, kind, u), node_path(false, kind, name@)],
                    )
                },
            },
    {
        let uuid = match record_uuid(&json) {
            Some(u) => u,
            None => {
                return;
            },
        };
        let attributes = record_attributes(&json);
        let relationships = record_relationships(kind, &json);
        let entity = OvsdbEntity {
            uuid: uuid.clone(),
            name: owned(name),
            entity_type: kind,
            attributes,
            relationships,
            raw_json: json,
        };
        self.add_entity(kind, uuid.as_str(), name, entity);
    }
}

impl OvsdbCache {
    /// The entity of a kind registered under a uuid.
    pub fn entity_by_uuid(&self, kind: EntityType, uuid: &str) -> (r: Option<&OvsdbEntity>)
        ensures
            match keyed_get(self.entities(kind), uuid@) {
                Some(e) => r matches Some(x) && *x == e,
                None => r is None,
            },
    {
        match kind {
            EntityType::Bridge => get_keyed(&self.bridges, uuid),
            EntityType::Port => get_keyed(&self.ports, uuid),
            EntityType::Interface => get_keyed(&self.interfaces, uuid),
        }
    }

    /// The entity of a kind registered under a name.
    pub fn entity_by_name(&self, kind: EntityType, name: &str) -> (r: Option<&OvsdbEntity>)
        ensures
            match self.by_name(kind, name@) {
                Some(e) => r matches Some(x) && *x == e,
                None => r is None,
            },
    {
        let u = match kind {
            EntityType::Bridge => get_keyed(&self.bridge_names, name),
            EntityType::Port => get_keyed(&self.port_names, name),
            EntityType::Interface => get_keyed(&self.interface_names, name),
        };
        match u {
            Some(u) => self.entity_by_uuid(kind, u.as_str()),
            None => None,
        }
    }
}

/// The strings among the elements of a JSON array (none for other values).
pub open spec fn str_items(j: Json) -> Seq<Seq<char>> {
    match j {
        Json::Array(xs) => strs(xs@),
        _ => seq![],
    }
}

/// The texts of the string values in a list, in order.
pub open spec fn strs(xs: Seq<Json>) -> Seq<Seq<char>>
    decreases xs.len(),
{
    if xs.len() == 0 {
        seq![]
    } else {
        match xs.last() {
            Json::Str(s) => strs(xs.drop_last()).push(s@),
            _ => strs(xs.drop_last()),
        }
    }
}

/// The strings among the elements of a JSON array, such as a list of names.
pub fn string_items(j: &Json) -> (r: Vec<String>)
    ensures
        texts(r@) == str_items(*j),
{
    let mut out: Vec<String> = Vec::new();
    match j {
        Json::Array(xs) => {
            let mut i: usize = 0;
            while i < xs.len()
                invariant
                    i <= xs@.len(),
                    texts(out@) == strs(xs@.take(i as int)),
                decreases xs@.len() - i,
            {
                proof {
                    assert(xs@.take(i + 1).drop_last() =~= xs@.take(i as int));
                    assert(xs@.take(i + 1).last() == xs@[i as int]);
                }
                let ghost before = out@;
                match &xs[i] {
                    Json::Str(s) => {
                        out.push(s.clone());
                        assert(texts(out@) =~= texts(before).push(s@));
                    },
                    _ => {},
                }
                i = i + 1;
            }
            assert(xs@.take(xs@.len() as int) =~= xs@);
        },
        _ => {
            assert(texts(out@) =~= Seq::<Seq<char>>::empty());
        },
    }
    out
}

/// Appending an entry for a path without an inode, under the next free inode, keeps the
/// cache well formed and names the new path.
proof fn lemma_alloc_keeps_wf(c: OvsdbCache, d: OvsdbCache, path: Seq<char>)
    requires
        c.wf(),
        c.next_inode < u64::MAX,
        inode_of(c.table(), path) is None,
        d.table() == c.table().push((c.next_inode, path)),
        d.next_inode == c.next_inode + 1,
        d.same_entities(&c),
    ensures
        d.wf(),
        inode_of(d.table(), path) == Some(c.next_inode),
        path_of(d.table(), c.next_inode) == Some(path),
{
    let before = c.table();
    let t = d.table();
    let n = c.next_inode;
    lemma_table_lookup(before);
    assert(t.drop_last() =~= before);
    assert(table_wf(t)) by {
        assert forall|i: int, j: int| 0 <= i < j < t.len() implies t[i].0 != t[j].0 by {
            if j == before.len() {
                assert(before[i].0 < n);
            } else {
                assert(t[i] == before[i]);
                assert(t[j] == before[j]);
            }
        }
        assert forall|i: int, j: int| 0 <= i < j < t.len() implies t[i].1 != t[j].1 by {
            if j == before.len() {
                assert(before[i].1 != path);
            } else {
                assert(t[i] == before[i]);
                assert(t[j] == before[j]);
            }
        }
    }
    lemma_table_lookup(t);
    assert(t[before.len() as int] == (n, path));
    assert forall|i: int| 0 <= i < t.len() implies #[trigger] t[i].0 < d.next_inode by {
        if i < before.len() {
            assert(t[i] == before[i]);
        }
    }
    assert forall|i: int| 0 <= i < fixed_table().len() implies #[trigger] t[i] == fixed_table()[i] by {
        assert(t[i] == before[i]);
    }
    assert forall|k: EntityType| #[trigger] keys_distinct(d.entities(k)) by {
        assert(d.entities(k) == c.entities(k));
    }
    assert forall|k: EntityType| #[trigger] keys_distinct(d.names(k)) by {
        assert(d.names(k) == c.names(k));
    }
    assert forall|k: EntityType, i: int| 0 <= i < d.entities(k).len() implies #[trigger] inode_of(t, node_path(true, k, d.entities(k)[i].0@)) is Some by {
        assert(d.entities(k) == c.entities(k));
        lemma_alloc_one_keeps(before, n, path, node_path(true, k, c.entities(k)[i].0@));
    }
    assert forall|k: EntityType, i: int| 0 <= i < d.names(k).len() implies #[trigger] inode_of(t, node_path(false, k, d.names(k)[i].0@)) is Some by {
        assert(d.names(k) == c.names(k));
        lemma_alloc_one_keeps(before, n, path, node_path(false, k, c.names(k)[i].0@));
    }
}


/// A directory's path with a slash: what the paths under it start with.
pub open spec fn under(by_uuid: bool, k: EntityType) -> Seq<char> {
    node_path(by_uuid, k, Seq::empty())
}

/// The kind of node that an entity's path is: a directory under `/by-uuid`, a link under
/// `/by-name`.
pub open spec fn node_kind(by_uuid: bool) -> FileKind {
    if by_uuid {
        FileKind::Directory
    } else {
        FileKind::Symlink
    }
}

/// The fixed directories that a lookup finds below the root.
pub open spec fn is_listed_dir(p: Seq<char>) -> bool {
    ||| p == "/by-uuid"@
    ||| p == "/by-name"@
    ||| p == "/aliases"@
    ||| p == "/by-uuid/bridges"@
    ||| p == "/by-uuid/ports"@
    ||| p == "/by-uuid/interfaces"@
    ||| p == "/by-name/bridges"@
    ||| p == "/by-name/ports"@
    ||| p == "/by-name/interfaces"@
}

/// The entity directory that a path lies under, tried in the order bridges by name,
/// bridges by uuid, ports by name, ports by uuid, interfaces by name, interfaces by uuid.
pub open spec fn prefix_kind(p: Seq<char>) -> Option<(bool, EntityType)> {
    if starts(p, under(false, EntityType::Bridge)) {
        Some((false, EntityType::Bridge))
    } else if starts(p, under(true, EntityType::Bridge)) {
        Some((true, EntityType::Bridge))
    } else if starts(p, under(false, EntityType::Port)) {
        Some((false, EntityType::Port))
    } else if starts(p, under(true, EntityType::Port)) {
        Some((true, EntityType::Port))
    } else if starts(p, under(false, EntityType::Interface)) {
        Some((false, EntityType::Interface))
    } else if starts(p, under(true, EntityType::Interface)) {
        Some((true, EntityType::Interface))
    } else {
        None
    }
}

/// Whether `name` is a registered uuid (`by_uuid`) or name of kind `k`.
pub open spec fn resolves(c: OvsdbCache, by_uuid: bool, k: EntityType, name: Seq<char>) -> bool {
    if by_uuid {
        keyed_get(c.entities(k), name) is Some
    } else {
        c.by_name(k, name) is Some
    }
}

/// What a lookup of `name` in directory `parent` finds: the path `parent/name` and its
/// kind, for a fixed directory or a registered entity under an entity directory.
pub open spec fn lookup_target(c: OvsdbCache, parent: u64, name: Seq<char>) -> Option<(Seq<char>, FileKind)> {
    match path_of(c.table(), parent) {
        None => None,
        Some(pp) => {
            let full = pp + "/"@ + name;
            if is_listed_dir(full) {
                Some((full, FileKind::Directory))
            } else {
                match prefix_kind(full) {
                    Some((b, k)) => if resolves(c, b, k, name) {
                        Some((full, node_kind(b)))
                    } else {
                        None
                    },
                    None => None,
                }
            }
        },
    }
}

/// The kind of node an inode is: the fixed inodes are directories; a path under
/// `/by-name/` is a link, one under `/by-uuid/` a directory, any other a file.
pub open spec fn attr_kind(c: OvsdbCache, ino: u64) -> Option<FileKind> {
    if 1 <= ino <= 10 {
        Some(FileKind::Directory)
    } else {
        match path_of(c.table(), ino) {
            None => None,
            Some(p) => Some(
                if starts(p, "/by-name/"@) {
                    FileKind::Symlink
                } else if starts(p, "/by-uuid/"@) {
                    FileKind::Directory
                } else {
                    FileKind::RegularFile
                },
            ),
        }
    }
}

/// The keys of a keyed list, in order.
pub open spec fn keys_of<V>(s: Seq<(String, V)>) -> Seq<Seq<char>> {
    s.map_values(|e: (String, V)| e.0@)
}

/// The entries (name, kind, path) of the nodes of kind `k` named by `keys`.
pub open spec fn node_entries(keys: Seq<Seq<char>>, by_uuid: bool, k: EntityType) -> Seq<(Seq<char>, FileKind, Seq<char>)> {
    keys.map_values(|key: Seq<char>| (key, node_kind(by_uuid), node_path(by_uuid, k, key)))
}

/// The uuid that a path under an entity directory names: its first piece after the
/// directory.
pub open spec fn uuid_in(p: Seq<char>, k: EntityType) -> Seq<char> {
    split_on(p.skip(under(true, k).len() as int), '/')[0]
}

/// The attribute files of the entity that a path under `/by-uuid` names.
pub open spec fn attr_entries(c: OvsdbCache, p: Seq<char>, k: EntityType) -> Seq<(Seq<char>, FileKind, Seq<char>)> {
    match keyed_get(c.entities(k), uuid_in(p, k)) {
        Some(e) => keys_of(e.attributes@).map_values(|a: Seq<char>| (a, FileKind::RegularFile, p + "/"@ + a)),
        None => seq![],
    }
}

/// The entries (name, kind, path) of directory `ino`, in order.
pub open spec fn listing(c: OvsdbCache, ino: u64) -> Seq<(Seq<char>, FileKind, Seq<char>)> {
    if ino == INODE_ROOT {
        seq![
            ("by-uuid"@, FileKind::Directory, "/by-uuid"@),
            ("by-name"@, FileKind::Directory, "/by-name"@),
            ("aliases"@, FileKind::Directory, "/aliases"@),
        ]
    } else if ino == INODE_BY_UUID {
        seq![
            ("bridges"@, FileKind::Directory, "/by-uuid/bridges"@),
            ("ports"@, FileKind::Directory, "/by-uuid/ports"@),
            ("interfaces"@, FileKind::Directory, "/by-uuid/interfaces"@),
        ]
    } else if ino == INODE_BY_NAME {
        seq![
            ("bridges"@, FileKind::Directory, "/by-name/bridges"@),
            ("ports"@, FileKind::Directory, "/by-name/ports"@),
            ("interfaces"@, FileKind::Directory, "/by-name/interfaces"@),
        ]
    } else if ino == INODE_BY_UUID_BRIDGES {
        node_entries(keys_of(c.entities(EntityType::Bridge)), true, EntityType::Bridge)
    } else if ino == INODE_BY_NAME_BRIDGES {
        node_entries(keys_of(c.names(EntityType::Bridge)), false, EntityType::Bridge)
    } else if ino == INODE_BY_UUID_PORTS {
        node_entries(keys_of(c.entities(EntityType::Port)), true, EntityType::Port)
    } else if ino == INODE_BY_NAME_PORTS {
        node_entries(keys_of(c.names(EntityType::Port)), false, EntityType::Port)
    } else if ino == INODE_BY_UUID_INTERFACES {
        node_entries(keys_of(c.entities(EntityType::Interface)), true, EntityType::Interface)
    } else if ino == INODE_BY_NAME_INTERFACES {
        node_entries(keys_of(c.names(EntityType::Interface)), false, EntityType::Interface)
    } else {
        match path_of(c.table(), ino) {
            Some(p) => if starts(p, under(true, EntityType::Bridge)) {
                attr_entries(c, p, EntityType::Bridge)
            } else if starts(p, under(true, EntityType::Port)) {
                attr_entries(c, p, EntityType::Port)
            } else if starts(p, under(true, EntityType::Interface)) {
                attr_entries(c, p, EntityType::Interface)
            } else {
                seq![]
            },
            None => seq![],
        }
    }
}

proof fn lemma_node_entries<V>(s: Seq<(String, V)>, by_uuid: bool, k: EntityType)
    ensures
        node_entries(keys_of(s), by_uuid, k).len() == s.len(),
        forall|i: int|
            0 <= i < s.len() ==> #[trigger] node_entries(keys_of(s), by_uuid, k)[i] == (
                s[i].0@,
                node_kind(by_uuid),
                kind_dir(by_uuid, k) + "/"@ + s[i].0@,
            ),
{
}

/// The entity directories list what is registered: `/by-uuid/<kind>` holds one directory
/// per registered uuid of that kind, and `/by-name/<kind>` one link per registered name of
/// that kind (the keys of the name index, not the uuids), each named by its key and at the
/// path of the directory, a slash and the key, in registration order.
pub proof fn law_entity_directories_list_registered_keys(c: OvsdbCache)
    ensures
        listing(c, INODE_BY_NAME_BRIDGES).len() == c.bridge_names@.len(),
        forall|i: int| 0 <= i < c.bridge_names@.len() ==> #[trigger] listing(c, INODE_BY_NAME_BRIDGES)[i] == (
            c.bridge_names@[i].0@,
            FileKind::Symlink,
            "/by-name/bridges"@ + "/"@ + c.bridge_names@[i].0@,
        ),
        listing(c, INODE_BY_NAME_PORTS).len() == c.port_names@.len(),
        forall|i: int| 0 <= i < c.port_names@.len() ==> #[trigger] listing(c, INODE_BY_NAME_PORTS)[i] == (
            c.port_names@[i].0@,
            FileKind::Symlink,
            "/by-name/ports"@ + "/"@ + c.port_names@[i].0@,
        ),
        listing(c, INODE_BY_NAME_INTERFACES).len() == c.interface_names@.len(),
        forall|i: int| 0 <= i < c.interface_names@.len() ==> #[trigger] listing(c, INODE_BY_NAME_INTERFACES)[i] == (
            c.interface_names@[i].0@,
            FileKind::Symlink,
            "/by-name/interfaces"@ + "/"@ + c.interface_names@[i].0@,
        ),
        listing(c, INODE_BY_UUID_BRIDGES).len() == c.bridges@.len(),
        forall|i: int| 0 <= i < c.bridges@.len() ==> #[trigger] listing(c, INODE_BY_UUID_BRIDGES)[i] == (
            c.bridges@[i].0@,
            FileKind::Directory,
            "/by-uuid/bridges"@ + "/"@ + c.bridges@[i].0@,
        ),
        listing(c, INODE_BY_UUID_PORTS).len() == c.ports@.len(),
        forall|i: int| 0 <= i < c.ports@.len() ==> #[trigger] listing(c, INODE_BY_UUID_PORTS)[i] == (
            c.ports@[i].0@,
            FileKind::Directory,
            "/by-uuid/ports"@ + "/"@ + c.ports@[i].0@,
        ),
        listing(c, INODE_BY_UUID_INTERFACES).len() == c.interfaces@.len(),
        forall|i: int| 0 <= i < c.interfaces@.len() ==> #[trigger] listing(c, INODE_BY_UUID_INTERFACES)[i] == (
            c.interfaces@[i].0@,
            FileKind::Directory,
            "/by-uuid/interfaces"@ + "/"@ + c.interfaces@[i].0@,
        ),
{
    lemma_node_entries(c.bridge_names@, false, EntityType::Bridge);
    lemma_node_entries(c.port_names@, false, EntityType::Port);
    lemma_node_entries(c.interface_names@, false, EntityType::Interface);
    lemma_node_entries(c.bridges@, true, EntityType::Bridge);
    lemma_node_entries(c.ports@, true, EntityType::Port);
    lemma_node_entries(c.interfaces@, true, EntityType::Interface);
}

/// The inode of the `/by-name` directory of a kind.
pub open spec fn name_dir_inode(k: EntityType) -> u64 {
    match k {
        EntityType::Bridge => INODE_BY_NAME_BRIDGES,
        EntityType::Port => INODE_BY_NAME_PORTS,
        EntityType::Interface => INODE_BY_NAME_INTERFACES,
    }
}

/// What `readdir` lists under `/by-name/<kind>`, `lookup` finds there: in a well-formed cache
/// whose name entry `i` names a registered entity, looking up the `i`-th listed name in the
/// same directory finds a link at that entry's path, and that link leads to the entity's
/// directory under `/by-uuid`.
#[verifier::rlimit(60)]
pub proof fn law_listed_names_are_found(c: OvsdbCache, k: EntityType, i: int)
    requires
        c.wf(),
        0 <= i < c.names(k).len(),
        keyed_get(c.entities(k), c.names(k)[i].1@) is Some,
    ensures
        ({
            let e = listing(c, name_dir_inode(k))[i];
            &&& lookup_target(c, name_dir_inode(k), e.0) == Some((e.2, FileKind::Symlink))
            &&& link_for(c, k, e.0) == Some(
                "../.."@ + kind_dir(true, k) + "/"@ + keyed_get(c.entities(k), c.names(k)[i].1@)->0.uuid@,
            )
        }),
{
    law_entity_directories_list_registered_keys(c);
    lemma_fixed(c.table());
    let name = c.names(k)[i].0@;
    lemma_key_index_at(c.names(k), i);
    assert(c.by_name(k, name) is Some);
    reveal_strlit("/by-uuid");
    reveal_strlit("/by-name");
    reveal_strlit("/aliases");
    reveal_strlit("/by-uuid/bridges");
    reveal_strlit("/by-uuid/ports");
    reveal_strlit("/by-uuid/interfaces");
    reveal_strlit("/by-name/bridges");
    reveal_strlit("/by-name/ports");
    reveal_strlit("/by-name/interfaces");
    reveal_strlit("/");
    reveal_strlit("/by-name/bridges/");
    reveal_strlit("/by-uuid/bridges/");
    reveal_strlit("/by-name/ports/");
    reveal_strlit("/by-uuid/ports/");
    reveal_strlit("/by-name/interfaces/");
    let dir = kind_dir(false, k);
    let full = dir + "/"@ + name;
    assert(fixed_table()[7] == (7u64, "/by-name/bridges"@));
    assert(fixed_table()[8] == (8u64, "/by-name/ports"@));
    assert(fixed_table()[9] == (10u64, "/by-name/interfaces"@));
    match k {
        EntityType::Bridge => assert(path_of(c.table(), fixed_table()[7].0) == Some(fixed_table()[7].1)),
        EntityType::Port => assert(path_of(c.table(), fixed_table()[8].0) == Some(fixed_table()[8].1)),
        EntityType::Interface => assert(path_of(c.table(), fixed_table()[9].0) == Some(fixed_table()[9].1)),
    }
    assert(path_of(c.table(), name_dir_inode(k)) == Some(dir));
    assert(full[4] == 'n');
    assert(full[9] == dir[9]);
    assert(full.len() > dir.len());
    assert(!is_listed_dir(full)) by {
        assert(full.len() >= 15);
        if full == "/by-name/bridges"@ || full == "/by-name/interfaces"@ || full == "/by-name/ports"@ {
            assert(full[9] == "/by-name/bridges"@[9] || full[9] == "/by-name/interfaces"@[9] || full.len() == 14);
        }
        if full == "/by-uuid/bridges"@ || full == "/by-uuid/interfaces"@ || full == "/by-uuid/ports"@ {
            assert(full[4] == 'u');
        }
    }
    let ub = under(false, EntityType::Bridge);
    let uub = under(true, EntityType::Bridge);
    let up = under(false, EntityType::Port);
    let uup = under(true, EntityType::Port);
    let ui = under(false, EntityType::Interface);
    assert(ub =~= "/by-name/bridges/"@);
    assert(uub =~= "/by-uuid/bridges/"@);
    assert(up =~= "/by-name/ports/"@);
    assert(uup =~= "/by-uuid/ports/"@);
    assert(ui =~= "/by-name/interfaces/"@);
    if starts(full, uub) {
        assert(full.subrange(0, uub.len() as int)[4] == full[4]);
    }
    if starts(full, uup) {
        assert(full.subrange(0, uup.len() as int)[4] == full[4]);
    }
    match k {
        EntityType::Bridge => {
            assert(full.subrange(0, ub.len() as int) =~= ub);
        },
        EntityType::Port => {
            if starts(full, ub) {
                assert(full.subrange(0, ub.len() as int)[9] == full[9]);
            }
            assert(full.subrange(0, up.len() as int) =~= up);
        },
        EntityType::Interface => {
            if starts(full, ub) {
                assert(full.subrange(0, ub.len() as int)[9] == full[9]);
            }
            if starts(full, up) {
                assert(full.subrange(0, up.len() as int)[9] == full[9]);
            }
            assert(full.subrange(0, ui.len() as int) =~= ui);
        },
    }
}

/// The paths of a listing, in order.
pub open spec fn listing_paths(l: Seq<(Seq<char>, FileKind, Seq<char>)>) -> Seq<Seq<char>> {
    l.map_values(|e: (Seq<char>, FileKind, Seq<char>)| e.2)
}

/// The target of a link: the entity's directory under `/by-uuid`, relative to the link.
pub open spec fn link_for(c: OvsdbCache, k: EntityType, name: Seq<char>) -> Option<Seq<char>> {
    match c.by_name(k, name) {
        Some(e) => Some("../.."@ + node_path(true, k, e.uuid@)),
        None => None,
    }
}

/// What the link `ino` points to.
pub open spec fn link_of(c: OvsdbCache, ino: u64) -> Option<Seq<char>> {
    match path_of(c.table(), ino) {
        None => None,
        Some(p) => if starts(p, under(false, EntityType::Bridge)) {
            link_for(c, EntityType::Bridge, p.skip(under(false, EntityType::Bridge).len() as int))
        } else if starts(p, under(false, EntityType::Port)) {
            link_for(c, EntityType::Port, p.skip(under(false, EntityType::Port).len() as int))
        } else if starts(p, under(false, EntityType::Interface)) {
            link_for(c, EntityType::Interface, p.skip(under(false, EntityType::Interface).len() as int))
        } else {
            None
        },
    }
}

/// The attribute value that a path `/by-uuid/<kind>/<uuid>/<attribute>` names.
pub open spec fn value_at(c: OvsdbCache, p: Seq<char>, k: EntityType) -> Option<Json> {
    let parts = split_on(p, '/');
    if parts.len() > 4 {
        match keyed_get(c.entities(k), parts[3]) {
            Some(e) => keyed_get(e.attributes@, parts[4]),
            None => None,
        }
    } else {
        None
    }
}

/// The attribute value that the file `ino` holds.
pub open spec fn value_of(c: OvsdbCache, ino: u64) -> Option<Json> {
    match path_of(c.table(), ino) {
        None => None,
        Some(p) => if starts(p, under(true, EntityType::Bridge)) {
            value_at(c, p, EntityType::Bridge)
        } else if starts(p, under(true, EntityType::Port)) {
            value_at(c, p, EntityType::Port)
        } else if starts(p, under(true, EntityType::Interface)) {
            value_at(c, p, EntityType::Interface)
        } else {
            None
        },
    }
}

/// The attributes of a node: its inode and kind, directories readable by all and
/// writable by the owner (0o755), other nodes 0o644; one link, owned by root, in blocks of
/// 512 bytes.
pub struct NodeAttr {
    pub ino: u64,
    pub size: u64,
    pub blocks: u64,
    pub kind: FileKind,
    pub perm: u16,
    pub nlink: u32,
    pub uid: u32,
    pub gid: u32,
    pub rdev: u32,
    pub blksize: u32,
    pub flags: u32,
}

impl OvsdbFuse {
    /// The attributes reported for a node.
    pub fn get_attr(ino: u64, kind: FileKind) -> (r: NodeAttr)
        ensures
            r.ino == ino,
            r.kind == kind,
            r.perm == (if kind == FileKind::Directory { 0o755u16 } else { 0o644u16 }),
            r.size == 0 && r.blocks == 0 && r.nlink == 1 && r.uid == 0 && r.gid == 0 && r.rdev == 0,
            r.blksize == 512 && r.flags == 0,
    {
        NodeAttr {
            ino,
            size: 0,
            blocks: 0,
            kind,
            perm: if kind == FileKind::Directory { 0o755 } else { 0o644 },
            nlink: 1,
            uid: 0,
            gid: 0,
            rdev: 0,
            blksize: 512,
            flags: 0,
        }
    }
}

/// The bytes of `data` from `offset` on (none for an offset outside it).
pub fn data_from(data: &Vec<u8>, offset: i64) -> (r: Vec<u8>)
    ensures
        r@ == (if 0 <= offset < data@.len() { data@.skip(offset as int) } else { Seq::<u8>::empty() }),
{
    let mut out: Vec<u8> = Vec::new();
    if offset < 0 {
        return out;
    }
    let n = data.len();
    let mut i: usize = if (offset as u64) < (n as u64) { offset as usize } else { n };
    let ghost start = i;
    while i < n
        invariant
            n == data@.len(),
            start <= i <= n,
            out@ == data@.subrange(start as int, i as int),
        decreases n - i,
    {
        out.push(data[i]);
        i = i + 1;
        assert(out@ =~= data@.subrange(start as int, i as int));
    }
    assert(data@.skip(start as int) =~= data@.subrange(start as int, n as int));
    out
}

/// The entries of a directory listing from position `offset` on, each with the offset of
/// the entry after it (none for a negative offset).
pub fn entries_from(entries: &Vec<(u64, FileKind, String)>, offset: i64) -> (r: Vec<(u64, i64, FileKind, String)>)
    requires
        entries@.len() < i64::MAX,
    ensures
        offset < 0 || offset >= entries@.len() ==> r@.len() == 0,
        0 <= offset < entries@.len() ==> r@.len() == entries@.len() - offset,
        forall|j: int| 0 <= j < r@.len() ==> {
            let e = entries@[offset + j];
            &&& (#[trigger] r@[j]).0 == e.0
            &&& r@[j].1 == offset + j + 1
            &&& r@[j].2 == e.1
            &&& r@[j].3@ == e.2@
        },
{
    let mut out: Vec<(u64, i64, FileKind, String)> = Vec::new();
    if offset < 0 {
        return out;
    }
    let n = entries.len();
    if (offset as u64) >= (n as u64) {
        return out;
    }
    let start = offset as usize;
    let mut i: usize = start;
    while i < n
        invariant
            n == entries@.len(),
            n < i64::MAX,
            0 <= offset,
            start == offset,
            start <= i <= n,
            out@.len() == i - start,
            forall|j: int| 0 <= j < out@.len() ==> {
                let e = entries@[offset + j];
                &&& (#[trigger] out@[j]).0 == e.0
                &&& out@[j].1 == offset + j + 1
                &&& out@[j].2 == e.1
                &&& out@[j].3@ == e.2@
            },
        decreases n - i,
    {
        let e = &entries[i];
        let next = (i + 1) as i64;
        out.push((e.0, next, e.1, e.2.clone()));
        i = i + 1;
    }
    out
}


/// The path a directory's nodes start with, as text.
fn under_text(by_uuid: bool, k: EntityType) -> (r: String)
    ensures
        r@ == under(by_uuid, k),
{
    proof {
        reveal_strlit("");
    }
    let r = node_path_text(by_uuid, k, "");
    assert(r@ =~= under(by_uuid, k));
    r
}

/// Whether a path is a fixed directory that a lookup finds.
fn is_listed_dir_text(p: &str) -> (r: bool)
    ensures
        r == is_listed_dir(p@),
{
    same_text(p, "/by-uuid") || same_text(p, "/by-name") || same_text(p, "/aliases") || same_text(p, "/by-uuid/bridges")
        || same_text(p, "/by-uuid/ports") || same_text(p, "/by-uuid/interfaces") || same_text(p, "/by-name/bridges")
        || same_text(p, "/by-name/ports") || same_text(p, "/by-name/interfaces")
}

/// The entity directory a path lies under.
fn prefix_kind_of(p: &str) -> (r: Option<(bool, EntityType)>)
    ensures
        r == prefix_kind(p@),
{
    if starts_with_text(p, under_text(false, EntityType::Bridge).as_str()) {
        Some((false, EntityType::Bridge))
    } else if starts_with_text(p, under_text(true, EntityType::Bridge).as_str()) {
        Some((true, EntityType::Bridge))
    } else if starts_with_text(p, under_text(false, EntityType::Port).as_str()) {
        Some((false, EntityType::Port))
    } else if starts_with_text(p, under_text(true, EntityType::Port).as_str()) {
        Some((true, EntityType::Port))
    } else if starts_with_text(p, under_text(false, EntityType::Interface).as_str()) {
        Some((false, EntityType::Interface))
    } else if starts_with_text(p, under_text(true, EntityType::Interface).as_str()) {
        Some((true, EntityType::Interface))
    } else {
        None
    }
}

/// In a well-formed cache each fixed directory that a lookup finds has an inode.
proof fn lemma_listed_dirs(c: OvsdbCache)
    requires
        c.wf(),
    ensures
        forall|p: Seq<char>| #[trigger] is_listed_dir(p) ==> inode_of(c.table(), p) is Some,
{
    let t = c.table();
    lemma_fixed(t);
    assert(inode_of(t, fixed_table()[1].1) is Some);
    assert(inode_of(t, fixed_table()[2].1) is Some);
    assert(inode_of(t, fixed_table()[3].1) is Some);
    assert(inode_of(t, fixed_table()[4].1) is Some);
    assert(inode_of(t, fixed_table()[5].1) is Some);
    assert(inode_of(t, fixed_table()[6].1) is Some);
    assert(inode_of(t, fixed_table()[7].1) is Some);
    assert(inode_of(t, fixed_table()[8].1) is Some);
    assert(inode_of(t, fixed_table()[9].1) is Some);
}

/// The listing as (name, kind, path) texts.
pub open spec fn listing_view(v: Seq<(String, FileKind, String)>) -> Seq<(Seq<char>, FileKind, Seq<char>)> {
    v.map_values(|e: (String, FileKind, String)| (e.0@, e.1, e.2@))
}

/// The entries of the nodes of kind `k` whose keys `s` holds.
fn key_nodes<V>(s: &Vec<(String, V)>, by_uuid: bool, k: EntityType) -> (r: Vec<(String, FileKind, String)>)
    ensures
        listing_view(r@) == node_entries(keys_of(s@), by_uuid, k),
{
    let mut out: Vec<(String, FileKind, String)> = Vec::new();
    let mut i: usize = 0;
    while i < s.len()
        invariant
            i <= s@.len(),
            listing_view(out@) == node_entries(keys_of(s@), by_uuid, k).take(i as int),
        decreases s@.len() - i,
    {
        let key = s[i].0.as_str();
        let kind = if by_uuid { FileKind::Directory } else { FileKind::Symlink };
        let ghost before = out@;
        out.push((owned(key), kind, node_path_text(by_uuid, k, key)));
        proof {
            let all = node_entries(keys_of(s@), by_uuid, k);
            assert(keys_of(s@)[i as int] == key@);
            assert(all[i as int] == (key@, kind, node_path(by_uuid, k, key@)));
            assert(listing_view(out@) =~= listing_view(before).push(all[i as int]));
            assert(all.take(i + 1) =~= all.take(i as int).push(all[i as int]));
        }
        i = i + 1;
    }
    assert(node_entries(keys_of(s@), by_uuid, k).take(i as int) =~= node_entries(keys_of(s@), by_uuid, k));
    out
}

/// An entry of a listing.
fn dir_entry(name: &str, kind: FileKind, path: &str) -> (r: (String, FileKind, String))
    ensures
        r.0@ == name@ && r.1 == kind && r.2@ == path@,
{
    (owned(name), kind, owned(path))
}

impl OvsdbCache {
    /// The attribute files of the entity of kind `k` that the path `p` under `/by-uuid`
    /// names.
    fn attr_nodes(&self, p: &str, k: EntityType) -> (r: Vec<(String, FileKind, String)>)
        requires
            starts(p@, under(true, k)),
        ensures
            listing_view(r@) == attr_entries(*self, p@, k),
    {
        let mut out: Vec<(String, FileKind, String)> = Vec::new();
        let pre = under_text(true, k);
        let n = chars_of(pre.as_str()).len();
        let rest = skip_text(p, n);
        let pieces = split_char(rest.as_str(), '/');
        proof {
            lemma_split_nonempty(rest@, '/');
            assert(texts(pieces@)[0] == pieces@[0]@);
        }
        match self.entity_by_uuid(k, pieces[0].as_str()) {
            Some(e) => {
                let ghost full = keys_of(e.attributes@).map_values(|a: Seq<char>| (a, FileKind::RegularFile, p@ + "/"@ + a));
                let mut i: usize = 0;
                while i < e.attributes.len()
                    invariant
                        i <= e.attributes@.len(),
                        full == keys_of(e.attributes@).map_values(|a: Seq<char>| (a, FileKind::RegularFile, p@ + "/"@ + a)),
                        listing_view(out@) == full.take(i as int),
                    decreases e.attributes@.len() - i,
                {
                    let name = e.attributes[i].0.as_str();
                    let mut path = owned(p);
                    push_str(&mut path, "/");
                    push_str(&mut path, name);
                    let ghost before = out@;
                    out.push((owned(name), FileKind::RegularFile, path));
                    proof {
                        assert(keys_of(e.attributes@)[i as int] == name@);
                        assert(full[i as int] == (name@, FileKind::RegularFile, p@ + "/"@ + name@));
                        assert(listing_view(out@) =~= listing_view(before).push(full[i as int]));
                        assert(full.take(i + 1) =~= full.take(i as int).push(full[i as int]));
                    }
                    i = i + 1;
                }
                assert(full.take(i as int) =~= full);
            },
            None => {},
        }
        out
    }
}


impl OvsdbCache {
    /// The entries (name, kind, path) of directory `ino`.
    pub fn listing_of(&self, ino: u64) -> (r: Vec<(String, FileKind, String)>)
        ensures
            listing_view(r@) == listing(*self, ino),
    {
        let mut out: Vec<(String, FileKind, String)> = Vec::new();
        if ino == INODE_ROOT {
            out.push(dir_entry("by-uuid", FileKind::Directory, "/by-uuid"));
            out.push(dir_entry("by-name", FileKind::Directory, "/by-name"));
            out.push(dir_entry("aliases", FileKind::Directory, "/aliases"));
            assert(listing_view(out@) =~= listing(*self, ino));
            out
        } else if ino == INODE_BY_UUID {
            out.push(dir_entry("bridges", FileKind::Directory, "/by-uuid/bridges"));
            out.push(dir_entry("ports", FileKind::Directory, "/by-uuid/ports"));
            out.push(dir_entry("interfaces", FileKind::Directory, "/by-uuid/interfaces"));
            assert(listing_view(out@) =~= listing(*self, ino));
            out
        } else if ino == INODE_BY_NAME {
            out.push(dir_entry("bridges", FileKind::Directory, "/by-name/bridges"));
            out.push(dir_entry("ports", FileKind::Directory, "/by-name/ports"));
            out.push(dir_entry("interfaces", FileKind::Directory, "/by-name/interfaces"));
            assert(listing_view(out@) =~= listing(*self, ino));
            out
        } else if ino == INODE_BY_UUID_BRIDGES {
            key_nodes(&self.bridges, true, EntityType::Bridge)
        } else if ino == INODE_BY_NAME_BRIDGES {
            key_nodes(&self.bridge_names, false, EntityType::Bridge)
        } else if ino == INODE_BY_UUID_PORTS {
            key_nodes(&self.ports, true, EntityType::Port)
        } else if ino == INODE_BY_NAME_PORTS {
            key_nodes(&self.port_names, false, EntityType::Port)
        } else if ino == INODE_BY_UUID_INTERFACES {
            key_nodes(&self.interfaces, true, EntityType::Interface)
        } else if ino == INODE_BY_NAME_INTERFACES {
            key_nodes(&self.interface_names, false, EntityType::Interface)
        } else {
            match self.get_path(ino) {
                Some(p) => {
                    if starts_with_text(p, under_text(true, EntityType::Bridge).as_str()) {
                        self.attr_nodes(p, EntityType::Bridge)
                    } else if starts_with_text(p, under_text(true, EntityType::Port).as_str()) {
                        self.attr_nodes(p, EntityType::Port)
                    } else if starts_with_text(p, under_text(true, EntityType::Interface).as_str()) {
                        self.attr_nodes(p, EntityType::Interface)
                    } else {
                        assert(listing_view(out@) =~= listing(*self, ino));
                        out
                    }
                },
                None => {
                    assert(listing_view(out@) =~= listing(*self, ino));
                    out
                },
            }
        }
    }
}

/// The OVSDB filesystem: the cache behind the filesystem's requests.
pub struct OvsdbFuse {
    pub cache: OvsdbCache,
}

impl OvsdbFuse {
    /// The cache is well formed.
    pub open spec fn wf(&self) -> bool {
        self.cache.wf()
    }

    /// A filesystem with only the fixed directories.
    pub fn new() -> (r: OvsdbFuse)
        ensures
            r.wf(),
            r.cache.next_inode == FIRST_DYNAMIC_INODE,
            r.cache.table() == fixed_table(),
            forall|k: EntityType| #[trigger] r.cache.entities(k).len() == 0 && r.cache.names(k).len() == 0,
    {
        OvsdbFuse { cache: OvsdbCache::new() }
    }

    /// Looks up `name` in directory `parent`: a fixed directory, or a registered entity
    /// under an entity directory (a directory by uuid, a link by name), whose path gets an
    /// inode if it has none; `None` for anything else.
    pub fn lookup(&mut self, parent: u64, name: &str) -> (r: Option<(u64, FileKind)>)
        requires
            old(self).wf(),
            old(self).cache.next_inode < u64::MAX,
        ensures
            final(self).wf(),
            match lookup_target(old(self).cache, parent, name@) {
                None => r is None && *final(self) == *old(self),
                Some((full, kind)) => {
                    &&& r matches Some((n, fk)) && fk == kind && inode_of(final(self).cache.table(), full) == Some(n)
                    &&& (final(self).cache.table(), final(self).cache.next_inode) == alloc_one(
                        old(self).cache.table(),
                        old(self).cache.next_inode,
                        full,
                    )
                    &&& final(self).cache.same_entities(&old(self).cache)
                },
            },
    {
        let mut full = match self.cache.get_path(parent) {
            Some(p) => owned(p),
            None => {
                return None;
            },
        };
        push_str(&mut full, "/");
        push_str(&mut full, name);
        if is_listed_dir_text(full.as_str()) {
            proof {
                lemma_listed_dirs(self.cache);
                assert(is_listed_dir(full@));
            }
            let n = self.cache.allocate_inode(full.as_str());
            return Some((n, FileKind::Directory));
        }
        match prefix_kind_of(full.as_str()) {
            Some((b, k)) => {
                let found = if b {
                    self.cache.entity_by_uuid(k, name).is_some()
                } else {
                    self.cache.entity_by_name(k, name).is_some()
                };
                if found {
                    let n = self.cache.allocate_inode(full.as_str());
                    let kind = if b { FileKind::Directory } else { FileKind::Symlink };
                    Some((n, kind))
                } else {
                    None
                }
            },
            None => None,
        }
    }

    /// The kind of node an inode is, if it names one.
    pub fn getattr(&self, ino: u64) -> (r: Option<FileKind>)
        ensures
            r == attr_kind(self.cache, ino),
    {
        if 1 <= ino && ino <= 10 {
            return Some(FileKind::Directory);
        }
        match self.cache.get_path(ino) {
            Some(p) => {
                if starts_with_text(p, "/by-name/") {
                    Some(FileKind::Symlink)
                } else if starts_with_text(p, "/by-uuid/") {
                    Some(FileKind::Directory)
                } else {
                    Some(FileKind::RegularFile)
                }
            },
            None => None,
        }
    }

    /// The entries (inode, kind, name) of directory `ino`, giving each path an inode if
    /// it has none.
    pub fn dir_entries(&mut self, ino: u64) -> (r: Vec<(u64, FileKind, String)>)
        requires
            old(self).wf(),
            old(self).cache.next_inode + listing(old(self).cache, ino).len() < u64::MAX,
        ensures
            final(self).wf(),
            final(self).cache.same_entities(&old(self).cache),
            r@.len() == listing(old(self).cache, ino).len(),
            forall|i: int| 0 <= i < r@.len() ==> {
                let e = listing(old(self).cache, ino)[i];
                &&& (#[trigger] r@[i]).2@ == e.0
                &&& r@[i].1 == e.1
                &&& inode_of(final(self).cache.table(), e.2) == Some(r@[i].0)
            },
            (final(self).cache.table(), final(self).cache.next_inode) == alloc_all(
                old(self).cache.table(),
                old(self).cache.next_inode,
                listing_paths(listing(old(self).cache, ino)),
            ),
    {
        let l = self.cache.listing_of(ino);
        let ghost lv = listing(self.cache, ino);
        let ghost paths = listing_paths(lv);
        let ghost t0 = self.cache.table();
        let ghost n0 = self.cache.next_inode;
        let mut out: Vec<(u64, FileKind, String)> = Vec::new();
        let mut i: usize = 0;
        assert(paths.take(0) =~= Seq::<Seq<char>>::empty());
        while i < l.len()
            invariant
                listing_view(l@) == lv,
                paths == listing_paths(lv),
                i <= l@.len(),
                self.wf(),
                self.cache.same_entities(&old(self).cache),
                self.cache.next_inode <= n0 + i,
                n0 + lv.len() < u64::MAX,
                (self.cache.table(), self.cache.next_inode) == alloc_all(t0, n0, paths.take(i as int)),
                out@.len() == i,
                forall|j: int| 0 <= j < i ==> {
                    let e = lv[j];
                    &&& (#[trigger] out@[j]).2@ == e.0
                    &&& out@[j].1 == e.1
                    &&& inode_of(self.cache.table(), e.2) == Some(out@[j].0)
                },
            decreases l@.len() - i,
        {
            let ghost before = self.cache;
            let n = self.cache.allocate_inode(l[i].2.as_str());
            proof {
                assert(listing_view(l@)[i as int] == (l@[i as int].0@, l@[i as int].1, l@[i as int].2@));
                assert(paths[i as int] == l@[i as int].2@);
                assert(paths.take(i + 1).drop_last() =~= paths.take(i as int));
                assert(paths.take(i + 1).last() == paths[i as int]);
                assert forall|j: int| 0 <= j < i implies inode_of(self.cache.table(), #[trigger] lv[j].2) == Some(out@[j].0) by {
                    let _ = out@[j];
                    assert(inode_of(before.table(), lv[j].2) == Some(out@[j].0));
                    lemma_alloc_one_keeps(before.table(), before.next_inode, paths[i as int], lv[j].2);
                }
                assert forall|k: EntityType| #[trigger] self.cache.entities(k) == old(self).cache.entities(k) by {
                    assert(before.entities(k) == old(self).cache.entities(k));
                }
                assert forall|k: EntityType| #[trigger] self.cache.names(k) == old(self).cache.names(k) by {
                    assert(before.names(k) == old(self).cache.names(k));
                }
            }
            out.push((n, l[i].1, l[i].0.clone()));
            i = i + 1;
        }
        assert(paths.take(i as int) =~= paths);
        out
    }

    /// The entries of directory `ino` from position `offset` on, each with the offset of
    /// the entry after it.
    pub fn readdir(&mut self, ino: u64, offset: i64) -> (r: Vec<(u64, i64, FileKind, String)>)
        requires
            old(self).wf(),
            old(self).cache.next_inode + listing(old(self).cache, ino).len() < u64::MAX,
            listing(old(self).cache, ino).len() < i64::MAX,
        ensures
            final(self).wf(),
            final(self).cache.same_entities(&old(self).cache),
            (final(self).cache.table(), final(self).cache.next_inode) == alloc_all(
                old(self).cache.table(),
                old(self).cache.next_inode,
                listing_paths(listing(old(self).cache, ino)),
            ),
            r@.len() == (if 0 <= offset < listing(old(self).cache, ino).len() {
                listing(old(self).cache, ino).len() - offset
            } else {
                0
            }),
            forall|j: int| 0 <= j < r@.len() ==> {
                let e = listing(old(self).cache, ino)[offset + j];
                &&& (#[trigger] r@[j]).3@ == e.0
                &&& r@[j].2 == e.1
                &&& r@[j].1 == offset + j + 1
                &&& inode_of(final(self).cache.table(), e.2) == Some(r@[j].0)
            },
    {
        let entries = self.dir_entries(ino);
        let r = entries_from(&entries, offset);
        proof {
            assert forall|j: int| 0 <= j < r@.len() implies {
                let e = listing(old(self).cache, ino)[offset + j];
                &&& (#[trigger] r@[j]).3@ == e.0
                &&& r@[j].2 == e.1
                &&& r@[j].1 == offset + j + 1
                &&& inode_of(self.cache.table(), e.2) == Some(r@[j].0)
            } by {
                assert(entries@[offset + j] == entries@[offset + j]);
            }
        }
        r
    }

    /// The target of link `ino`: the entity's directory under `/by-uuid`.
    pub fn readlink(&self, ino: u64) -> (r: Option<String>)
        ensures
            match link_of(self.cache, ino) {
                Some(t) => r matches Some(s) && s@ == t,
                None => r is None,
            },
    {
        let p = match self.cache.get_path(ino) {
            Some(p) => p,
            None => {
                return None;
            },
        };
        let k = if starts_with_text(p, under_text(false, EntityType::Bridge).as_str()) {
            EntityType::Bridge
        } else if starts_with_text(p, under_text(false, EntityType::Port).as_str()) {
            EntityType::Port
        } else if starts_with_text(p, under_text(false, EntityType::Interface).as_str()) {
            EntityType::Interface
        } else {
            return None;
        };
        let n = chars_of(under_text(false, k).as_str()).len();
        let name = skip_text(p, n);
        match self.cache.entity_by_name(k, name.as_str()) {
            Some(e) => {
                let mut t = owned("../..");
                let d = node_path_text(true, k, e.uuid.as_str());
                push_str(&mut t, d.as_str());
                proof {
                    reveal_strlit("../..");
                }
                Some(t)
            },
            None => None,
        }
    }

    /// The attribute value that file `ino` holds (what a read of it serves, from an
    /// offset, as pretty-printed JSON).
    pub fn read(&self, ino: u64) -> (r: Option<&Json>)
        ensures
            match value_of(self.cache, ino) {
                Some(v) => r matches Some(x) && *x == v,
                None => r is None,
            },
    {
        let p = match self.cache.get_path(ino) {
            Some(p) => p,
            None => {
                return None;
            },
        };
        let k = if starts_with_text(p, under_text(true, EntityType::Bridge).as_str()) {
            EntityType::Bridge
        } else if starts_with_text(p, under_text(true, EntityType::Port).as_str()) {
            EntityType::Port
        } else if starts_with_text(p, under_text(true, EntityType::Interface).as_str()) {
            EntityType::Interface
        } else {
            return None;
        };
        let parts = split_char(p, '/');
        if parts.len() <= 4 {
            return None;
        }
        proof {
            assert(texts(parts@)[3] == parts@[3]@);
            assert(texts(parts@)[4] == parts@[4]@);
        }
        match self.cache.entity_by_uuid(k, parts[3].as_str()) {
            Some(e) => get_keyed(&e.attributes, parts[4].as_str()),
            None => None,
        }
    }
}

impl Default for OvsdbFuse {
    fn default() -> (r: OvsdbFuse)
        ensures
            r.wf(),
            r.cache.next_inode == FIRST_DYNAMIC_INODE,
            r.cache.table() == fixed_table(),
            forall|k: EntityType| #[trigger] r.cache.entities(k).len() == 0 && r.cache.names(k).len() == 0,
    {
        OvsdbFuse::new()
    }
}

} // verus!
