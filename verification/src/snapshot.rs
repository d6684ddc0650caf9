//! Ephemeral btrfs snapshots and the OVSDB interceptors built on them: snapshot names,
//! paths, the `btrfs` commands, and the normalized OVSDB record.
use vstd::prelude::*;
use vstd::string::*;
use crate::text::{owned, push_str, push_char, dec, texts, chars_of};
use crate::json::{json_object, object_text};

verus! {

/// Appends the decimal digits of a 128-bit number.
pub fn push_decimal_u128(s: &mut String, n: u128)
    ensures
        final(s)@ == old(s)@ + dec(n as nat),
    decreases n,
{
    if n >= 10 {
        push_decimal_u128(s, n / 10);
    }
    let d: u8 = (n % 10) as u8;
    let c: char = (48u8 + d) as char;
    push_char(s, c);
    proof {
        assert(c == crate::text::digit_char((n % 10) as nat));
    }
}

/// `comp` appended to `base` as a path component (`Path::join`): an absolute `comp`
/// replaces `base`; otherwise a `/` separates them unless `base` is empty or already ends
/// with one.
pub open spec fn join_path(base: Seq<char>, comp: Seq<char>) -> Seq<char> {
    if comp.len() > 0 && comp[0] == '/' {
        comp
    } else if base.len() == 0 {
        comp
    } else if base.last() == '/' {
        base + comp
    } else {
        base + "/"@ + comp
    }
}

/// Joins a path component onto a base path.
pub fn join(base: &str, comp: &str) -> (r: String)
    ensures
        r@ == join_path(base@, comp@),
{
    let b = chars_of(base);
    let c = chars_of(comp);
    if c.len() > 0 && c[0] == '/' {
        return owned(comp);
    }
    if b.len() == 0 {
        return owned(comp);
    }
    let mut r = owned(base);
    if b[b.len() - 1] != '/' {
        push_str(&mut r, "/");
    }
    push_str(&mut r, comp);
    r
}

/// A snapshot that is deleted when its guard goes.
pub struct SnapshotGuard {
    pub path: String,
}

impl SnapshotGuard {
    /// The snapshot's path.
    pub fn path(&self) -> (r: &str)
        ensures
            r@ == self.path@,
    {
        self.path.as_str()
    }

    /// The `btrfs` arguments that delete the snapshot.
    pub fn delete_args(&self) -> (r: Vec<String>)
        ensures
            texts(r@) == seq!["subvolume"@, "delete"@, self.path@],
    {
        let mut r: Vec<String> = Vec::new();
        r.push(owned("subvolume"));
        r.push(owned("delete"));
        r.push(self.path.clone());
        assert(texts(r@) =~= seq!["subvolume"@, "delete"@, self.path@]);
        r
    }
}

/// Makes ephemeral snapshots under a base directory.
pub struct BtrfsSnapshot {
    pub base_path: String,
}

/// The name of the snapshot taken at `timestamp` (nanoseconds).
pub open spec fn ephemeral_name(timestamp: u128) -> Seq<char> {
    "@ephemeral-"@ + dec(timestamp as nat)
}

/// A snapshot to take: where it goes and the `btrfs` arguments that take it.
pub struct SnapshotPlan {
    pub snapshot_path: String,
    pub args: Vec<String>,
}

impl BtrfsSnapshot {
    /// A manager for snapshots under `base_path`.
    pub fn new(base_path: String) -> (r: BtrfsSnapshot)
        ensures
            r.base_path@ == base_path@,
    {
        BtrfsSnapshot { base_path }
    }

    /// The read-only snapshot of `source` (under the base) taken at `timestamp`: named
    /// `@ephemeral-{timestamp}` under the base.
    pub fn plan_ephemeral(&self, source: &str, timestamp: u128) -> (r: SnapshotPlan)
        ensures
            r.snapshot_path@ == join_path(self.base_path@, ephemeral_name(timestamp)),
            texts(r.args@) == seq![
                "subvolume"@,
                "snapshot"@,
                "-r"@,
                join_path(self.base_path@, source@),
                join_path(self.base_path@, ephemeral_name(timestamp)),
            ],
    {
        let mut name = owned("@ephemeral-");
        push_decimal_u128(&mut name, timestamp);
        let snapshot_path = join(self.base_path.as_str(), name.as_str());
        let source_path = join(self.base_path.as_str(), source);
        let mut args: Vec<String> = Vec::new();
        args.push(owned("subvolume"));
        args.push(owned("snapshot"));
        args.push(owned("-r"));
        args.push(source_path);
        args.push(snapshot_path.clone());
        assert(texts(args@) =~= seq![
            "subvolume"@,
            "snapshot"@,
            "-r"@,
            join_path(self.base_path@, source@),
            join_path(self.base_path@, ephemeral_name(timestamp)),
        ]);
        SnapshotPlan { snapshot_path, args }
    }

    /// The guard of a snapshot taken at `snapshot_path`.
    pub fn guard(snapshot_path: String) -> (r: SnapshotGuard)
        ensures
            r.path@ == snapshot_path@,
    {
        SnapshotGuard { path: snapshot_path }
    }
}

/// Intercepts OVSDB through snapshots of `@ovsdb-current`.
pub struct OvsdbInterceptor {
    pub snapshot_manager: BtrfsSnapshot,
}

/// Intercepts `ovs-vsctl` output through snapshots of `@ovsdb-current`.
pub struct OvsctlInterceptor {
    pub snapshot_manager: BtrfsSnapshot,
}

/// The normalized OVSDB record (no bridges, ports or interfaces are read out of the
/// database yet).
pub open spec fn normalized_ovsdb() -> Seq<char> {
    json_object(seq![("bridges"@, "[]"@), ("interfaces"@, "[]"@), ("ports"@, "[]"@)])
}

impl OvsdbInterceptor {
    /// An interceptor for snapshots under `base_path`.
    pub fn new(base_path: String) -> (r: OvsdbInterceptor)
        ensures
            r.snapshot_manager.base_path@ == base_path@,
    {
        OvsdbInterceptor { snapshot_manager: BtrfsSnapshot::new(base_path) }
    }

    /// The snapshotted subvolume.
    pub fn source() -> (r: &'static str)
        ensures
            r@ == "@ovsdb-current"@,
    {
        "@ovsdb-current"
    }

    /// The database file inside a snapshot.
    pub fn db_path(snapshot_path: &str) -> (r: String)
        ensures
            r@ == join_path(snapshot_path@, "conf.db"@),
    {
        join(snapshot_path, "conf.db")
    }

    /// Normalizes the database text (as JSON text, members in key order).
    pub fn transform_ovsdb(data: &str) -> (r: String)
        ensures
            r@ == normalized_ovsdb(),
    {
        let mut ms: Vec<(String, String)> = Vec::new();
        ms.push((owned("bridges"), owned("[]")));
        ms.push((owned("interfaces"), owned("[]")));
        ms.push((owned("ports"), owned("[]")));
        assert(Seq::new(ms@.len(), |i: int| (ms@[i].0@, ms@[i].1@)) =~= seq![
            ("bridges"@, "[]"@),
            ("interfaces"@, "[]"@),
            ("ports"@, "[]"@),
        ]);
        object_text(&ms)
    }
}

impl OvsctlInterceptor {
    /// An interceptor for snapshots under `base_path`.
    pub fn new(base_path: String) -> (r: OvsctlInterceptor)
        ensures
            r.snapshot_manager.base_path@ == base_path@,
    {
        OvsctlInterceptor { snapshot_manager: BtrfsSnapshot::new(base_path) }
    }

    /// The file the command output is written to inside a snapshot.
    pub fn output_path(snapshot_path: &str) -> (r: String)
        ensures
            r@ == join_path(snapshot_path@, "output.txt"@),
    {
        join(snapshot_path, "output.txt")
    }
}

} // verus!
