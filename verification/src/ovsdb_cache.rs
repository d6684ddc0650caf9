//! The OVSDB cache on disk: a directory per bridge uuid holding its attributes as files,
//! and a link per bridge name pointing at that directory; the paths, file contents and
//! link targets it is made of, and reading a uuid back from a link.
use vstd::prelude::*;
use vstd::string::*;
use crate::text::{owned, push_str, texts};
use crate::lines::{split_on, lemma_split_last};

verus! {

/// A bridge as the cache records it.
pub struct OvsdbEntity {
    pub uuid: String,
    pub name: String,
    pub attributes: Vec<(String, String)>,
    pub relationships: Vec<(String, Vec<String>)>,
}

/// The cache under its directory.
pub struct OvsdbCache {
    pub cache_dir: String,
}

/// The last piece of a path when it is a plain name (not empty, `.` or `..`).
pub open spec fn plain_last(p: Seq<char>) -> Option<Seq<char>> {
    let last = split_on(p, '/').last();
    if last.len() > 0 && last != "."@ && last != ".."@ {
        Some(last)
    } else {
        None
    }
}

/// Calls `std::path::Path::file_name` and keeps the name as text. When the path's last
/// piece is a plain name, that name is what it returns; for paths ending in a slash, `.`
/// or `..` nothing is claimed.
#[verifier::external_body]
fn path_file_name(p: &str) -> (r: Option<String>)
    ensures
        plain_last(p@) is Some ==> r is Some && r->0@ == plain_last(p@)->0,
{
    std::path::Path::new(p).file_name().map(|n| n.to_string_lossy().to_string())
}

/// A path below the cache directory.
fn under_dir(dir: &str, rest: &str, name: &str) -> (r: String)
    ensures
        r@ == dir@ + rest@ + name@,
{
    let mut s = owned(dir);
    push_str(&mut s, rest);
    push_str(&mut s, name);
    s
}

/// The directory of bridge `uuid`.
pub open spec fn bridge_dir_of(dir: Seq<char>, uuid: Seq<char>) -> Seq<char> {
    dir + "/by-uuid/bridges/"@ + uuid
}

/// The link of bridge `name`.
pub open spec fn name_link_of(dir: Seq<char>, name: Seq<char>) -> Seq<char> {
    dir + "/by-name/bridges/"@ + name
}

/// The target of the link of a bridge: its directory, relative to the link.
pub open spec fn link_target_of(uuid: Seq<char>) -> Seq<char> {
    "../../by-uuid/bridges/"@ + uuid
}

/// The files of a bridge's directory, with their contents: `name`, `_uuid`, then one per
/// attribute.
pub open spec fn bridge_files_of(dir: Seq<char>, e: OvsdbEntity) -> Seq<(Seq<char>, Seq<char>)> {
    seq![
        (bridge_dir_of(dir, e.uuid@) + "/"@ + "name"@, e.name@),
        (bridge_dir_of(dir, e.uuid@) + "/"@ + "_uuid"@, e.uuid@),
    ] + Seq::new(e.attributes@.len(), |i: int| (bridge_dir_of(dir, e.uuid@) + "/"@ + e.attributes@[i].0@, e.attributes@[i].1@))
}

impl OvsdbCache {
    /// The cache in `/var/lib/ovsdb-cache`.
    pub fn new() -> (r: OvsdbCache)
        ensures
            r.cache_dir@ == "/var/lib/ovsdb-cache"@,
    {
        OvsdbCache { cache_dir: owned("/var/lib/ovsdb-cache") }
    }

    /// The directories the cache is made of.
    pub fn init_dirs(&self) -> (r: Vec<String>)
        ensures
            texts(r@) == seq![
                self.cache_dir@,
                self.cache_dir@ + "/by-uuid/bridges"@,
                self.cache_dir@ + "/by-uuid/ports"@,
                self.cache_dir@ + "/by-name/bridges"@,
                self.cache_dir@ + "/by-name/ports"@,
                self.cache_dir@ + "/aliases"@,
            ],
    {
        let d = self.cache_dir.as_str();
        let mut r: Vec<String> = Vec::new();
        r.push(owned(d));
        r.push(under_dir(d, "/by-uuid/bridges", ""));
        r.push(under_dir(d, "/by-uuid/ports", ""));
        r.push(under_dir(d, "/by-name/bridges", ""));
        r.push(under_dir(d, "/by-name/ports", ""));
        r.push(under_dir(d, "/aliases", ""));
        proof {
            reveal_strlit("");
        }
        assert(texts(r@) =~= seq![
            self.cache_dir@,
            self.cache_dir@ + "/by-uuid/bridges"@,
            self.cache_dir@ + "/by-uuid/ports"@,
            self.cache_dir@ + "/by-name/bridges"@,
            self.cache_dir@ + "/by-name/ports"@,
            self.cache_dir@ + "/aliases"@,
        ]);
        r
    }

    /// The directory of bridge `uuid`.
    pub fn bridge_dir(&self, uuid: &str) -> (r: String)
        ensures
            r@ == bridge_dir_of(self.cache_dir@, uuid@),
    {
        under_dir(self.cache_dir.as_str(), "/by-uuid/bridges/", uuid)
    }

    /// The link of bridge `name`.
    pub fn name_link(&self, name: &str) -> (r: String)
        ensures
            r@ == name_link_of(self.cache_dir@, name@),
    {
        under_dir(self.cache_dir.as_str(), "/by-name/bridges/", name)
    }

    /// The target of the link of bridge `uuid`.
    pub fn link_target(uuid: &str) -> (r: String)
        ensures
            r@ == link_target_of(uuid@),
    {
        let mut s = owned("../../by-uuid/bridges/");
        push_str(&mut s, uuid);
        s
    }

    /// The file of attribute `attr` of bridge `uuid`.
    pub fn attr_file(&self, uuid: &str, attr: &str) -> (r: String)
        ensures
            r@ == bridge_dir_of(self.cache_dir@, uuid@) + "/"@ + attr@,
    {
        let mut p = self.bridge_dir(uuid);
        push_str(&mut p, "/");
        push_str(&mut p, attr);
        p
    }

    /// The files a bridge is recorded as, with their contents.
    pub fn bridge_files(&self, entity: &OvsdbEntity) -> (r: Vec<(String, String)>)
        ensures
            r@.map_values(|f: (String, String)| (f.0@, f.1@)) == bridge_files_of(self.cache_dir@, *entity),
    {
        let mut r: Vec<(String, String)> = Vec::new();
        r.push((self.attr_file(entity.uuid.as_str(), "name"), entity.name.clone()));
        r.push((self.attr_file(entity.uuid.as_str(), "_uuid"), entity.uuid.clone()));
        assert(r@.map_values(|f: (String, String)| (f.0@, f.1@)) =~= bridge_files_of(self.cache_dir@, *entity).take(2));
        let mut i: usize = 0;
        while i < entity.attributes.len()
            invariant
                i <= entity.attributes@.len(),
                r@.map_values(|f: (String, String)| (f.0@, f.1@)) == bridge_files_of(self.cache_dir@, *entity).take(i + 2),
            decreases entity.attributes@.len() - i,
        {
            let a = &entity.attributes[i];
            let ghost before = r@;
            r.push((self.attr_file(entity.uuid.as_str(), a.0.as_str()), a.1.clone()));
            proof {
                let all = bridge_files_of(self.cache_dir@, *entity);
                assert(all[i + 2] == (bridge_dir_of(self.cache_dir@, entity.uuid@) + "/"@ + entity.attributes@[i as int].0@, entity.attributes@[i as int].1@));
                assert(r@.map_values(|f: (String, String)| (f.0@, f.1@)) =~= before.map_values(|f: (String, String)| (f.0@, f.1@)).push(all[i + 2]));
                assert(all.take(i + 3) =~= all.take(i + 2).push(all[i + 2]));
            }
            i = i + 1;
        }
        assert(bridge_files_of(self.cache_dir@, *entity).take(i + 2) =~= bridge_files_of(self.cache_dir@, *entity));
        r
    }

    /// The uuid a bridge's link points at: the last piece of its target.
    pub fn uuid_from_target(target: &str) -> (r: Option<String>)
        ensures
            plain_last(target@) matches Some(n) ==> (r matches Some(x) && x@ == n),
    {
        path_file_name(target)
    }
}


/// Reading the uuid back from the link written for a bridge gives that bridge's uuid,
/// for a uuid that is a plain name (not empty, `.` or `..`, without a slash).
pub proof fn law_link_target_names_uuid(uuid: Seq<char>)
    requires
        uuid.len() > 0,
        uuid != "."@,
        uuid != ".."@,
        forall|i: int| 0 <= i < uuid.len() ==> uuid[i] != '/',
    ensures
        plain_last(link_target_of(uuid)) == Some(uuid),
{
    reveal_strlit("../../by-uuid/bridges/");
    reveal_strlit("../../by-uuid/bridges");
    let pre = "../../by-uuid/bridges"@;
    assert(link_target_of(uuid) =~= pre + seq!['/'] + uuid);
    lemma_split_last(pre, uuid, '/');
}
} // verus!
