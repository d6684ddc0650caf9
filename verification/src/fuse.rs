//! Proxmox veth bindings: their records, the hash footprint that seals a record, and the
//! paths and texts that expose a binding to Proxmox.
use vstd::prelude::*;
use vstd::string::*;
use crate::digest::{sha256, sha256_of, to_hex, hex_lower};
use crate::json::{push_json_str, push_json_key, push_json_opt_str, push_json_str_array, json_str, json_key, json_opt_str, json_str_array, lemma_json_str_injective};
use crate::text::{push_str, push_char, push_decimal, dec, owned, texts, push_utf8, same_text, lemma_dec_injective};
use crate::link::path_exists;
use crate::error::Error;

verus! {

/// Base directory of the bind mounts.
pub open spec fn fuse_mount_base() -> Seq<char> {
    "/var/lib/ovs-port-agent/fuse"@
}

/// Base directory of the Proxmox API view.
pub open spec fn proxmox_api_base() -> Seq<char> {
    "/var/lib/ovs-port-agent/proxmox"@
}

/// Hash footprint that seals a record.
pub struct HashFootprint {
    /// SHA-256 (lowercase hex) of the record's JSON text.
    pub config_hash: String,
    /// SHA-256 of the footprint's creation time.
    pub state_hash: String,
    /// SHA-256 of `config_hash:state_hash`.
    pub fingerprint: String,
    /// Creation time (RFC 3339).
    pub created_at: String,
    /// The record's top-level field names.
    pub hashed_fields: Vec<String>,
    /// Hash algorithm name.
    pub algorithm: String,
}

/// A footprint with every field empty.
pub open spec fn empty_footprint(f: HashFootprint) -> bool {
    &&& f.config_hash@.len() == 0
    &&& f.state_hash@.len() == 0
    &&& f.fingerprint@.len() == 0
    &&& f.created_at@.len() == 0
    &&& f.hashed_fields@.len() == 0
    &&& f.algorithm@.len() == 0
}

impl Default for HashFootprint {
    fn default() -> (r: Self)
        ensures
            empty_footprint(r),
    {
        HashFootprint {
            config_hash: String::new(),
            state_hash: String::new(),
            fingerprint: String::new(),
            created_at: String::new(),
            hashed_fields: Vec::new(),
            algorithm: String::new(),
        }
    }
}

/// A veth bound for Proxmox to an OVS interface.
pub struct InterfaceBinding {
    pub proxmox_veth: String,
    pub ovs_interface: String,
    pub vmid: u32,
    pub container_id: String,
    pub bridge: String,
    pub created_at: String,
    pub bind_mount: String,
    /// Footprint sealing the other fields.
    pub footprint: HashFootprint,
    /// Ledger block recording the binding.
    pub ledger_block_hash: Option<String>,
}

/// SHA-256 of a text's UTF-8 bytes, in lowercase hex.
pub open spec fn text_hash(s: Seq<char>) -> Seq<char> {
    hex_lower(sha256_of(vstd::utf8::encode_utf8(s)))
}

fn hash_string(data: &str) -> (r: String)
    ensures
        r@ == text_hash(data@),
{
    let mut bytes: Vec<u8> = Vec::new();
    push_utf8(&mut bytes, data);
    assert(bytes@ =~= vstd::utf8::encode_utf8(data@));
    let d = sha256(bytes.as_slice());
    to_hex(d.as_slice())
}

/// The JSON object of a footprint with the given fields.
pub open spec fn footprint_json_of(
    config_hash: Seq<char>,
    state_hash: Seq<char>,
    fingerprint: Seq<char>,
    created_at: Seq<char>,
    hashed_fields: Seq<Seq<char>>,
    algorithm: Seq<char>,
) -> Seq<char> {
    seq!['{'] + json_key("config_hash"@) + json_str(config_hash) + seq![','] + json_key("state_hash"@)
        + json_str(state_hash) + seq![','] + json_key("fingerprint"@) + json_str(fingerprint)
        + seq![','] + json_key("created_at"@) + json_str(created_at) + seq![','] + json_key(
        "hashed_fields"@,
    ) + json_str_array(hashed_fields) + seq![','] + json_key("algorithm"@) + json_str(algorithm)
        + seq!['}']
}

/// The JSON object of a footprint.
pub open spec fn footprint_json(f: HashFootprint) -> Seq<char> {
    footprint_json_of(
        f.config_hash@,
        f.state_hash@,
        f.fingerprint@,
        f.created_at@,
        texts(f.hashed_fields@),
        f.algorithm@,
    )
}

/// The compact JSON text of a binding, fields in declaration order.
#[verifier::opaque]
pub open spec fn binding_json(b: InterfaceBinding) -> Seq<char> {
    seq!['{'] + json_key("proxmox_veth"@) + json_str(b.proxmox_veth@) + seq![','] + json_key(
        "ovs_interface"@,
    ) + json_str(b.ovs_interface@) + seq![','] + json_key("vmid"@) + dec(b.vmid as nat) + seq![',']
        + json_key("container_id"@) + json_str(b.container_id@) + seq![','] + json_key("bridge"@)
        + json_str(b.bridge@) + seq![','] + json_key("created_at"@) + json_str(b.created_at@) + seq![
        ',',
    ] + json_key("bind_mount"@) + json_str(b.bind_mount@) + seq![','] + json_key("footprint"@)
        + footprint_json(b.footprint) + seq![','] + json_key("ledger_block_hash"@) + json_opt_str(
        match b.ledger_block_hash {
            Some(h) => Some(h@),
            None => None,
        },
    ) + seq!['}']
}

/// The JSON text a binding's footprint covers: the binding with an empty footprint and no
/// ledger link.
#[verifier::opaque]
pub open spec fn unsealed_json(b: InterfaceBinding) -> Seq<char> {
    seq!['{'] + json_key("proxmox_veth"@) + json_str(b.proxmox_veth@) + seq![','] + json_key(
        "ovs_interface"@,
    ) + json_str(b.ovs_interface@) + seq![','] + json_key("vmid"@) + dec(b.vmid as nat) + seq![',']
        + json_key("container_id"@) + json_str(b.container_id@) + seq![','] + json_key("bridge"@)
        + json_str(b.bridge@) + seq![','] + json_key("created_at"@) + json_str(b.created_at@) + seq![
        ',',
    ] + json_key("bind_mount"@) + json_str(b.bind_mount@) + seq![','] + json_key("footprint"@)
        + footprint_json_of(Seq::empty(), Seq::empty(), Seq::empty(), Seq::empty(), Seq::empty(), Seq::empty())
        + seq![','] + json_key("ledger_block_hash"@) + "null"@ + seq!['}']
}

fn push_footprint_json(out: &mut String, f: &HashFootprint)
    ensures
        final(out)@ == old(out)@ + footprint_json(*f),
{
    let ghost start = out@;
    push_char(out, '{');
    push_json_key(out, "config_hash");
    push_json_str(out, f.config_hash.as_str());
    push_char(out, ',');
    push_json_key(out, "state_hash");
    push_json_str(out, f.state_hash.as_str());
    push_char(out, ',');
    push_json_key(out, "fingerprint");
    push_json_str(out, f.fingerprint.as_str());
    push_char(out, ',');
    push_json_key(out, "created_at");
    push_json_str(out, f.created_at.as_str());
    push_char(out, ',');
    push_json_key(out, "hashed_fields");
    push_json_str_array(out, &f.hashed_fields);
    push_char(out, ',');
    push_json_key(out, "algorithm");
    push_json_str(out, f.algorithm.as_str());
    push_char(out, '}');
    assert(out@ =~= start + footprint_json(*f));
}

fn push_binding_head(out: &mut String, b: &InterfaceBinding)
    ensures
        final(out)@ == old(out)@ + seq!['{'] + json_key("proxmox_veth"@) + json_str(b.proxmox_veth@)
            + seq![','] + json_key("ovs_interface"@) + json_str(b.ovs_interface@) + seq![',']
            + json_key("vmid"@) + dec(b.vmid as nat) + seq![','] + json_key("container_id"@)
            + json_str(b.container_id@) + seq![','] + json_key("bridge"@) + json_str(b.bridge@)
            + seq![','] + json_key("created_at"@) + json_str(b.created_at@) + seq![','] + json_key(
            "bind_mount"@,
        ) + json_str(b.bind_mount@) + seq![','] + json_key("footprint"@),
{
    push_char(out, '{');
    push_json_key(out, "proxmox_veth");
    push_json_str(out, b.proxmox_veth.as_str());
    push_char(out, ',');
    push_json_key(out, "ovs_interface");
    push_json_str(out, b.ovs_interface.as_str());
    push_char(out, ',');
    push_json_key(out, "vmid");
    push_decimal(out, b.vmid as u64);
    push_char(out, ',');
    push_json_key(out, "container_id");
    push_json_str(out, b.container_id.as_str());
    push_char(out, ',');
    push_json_key(out, "bridge");
    push_json_str(out, b.bridge.as_str());
    push_char(out, ',');
    push_json_key(out, "created_at");
    push_json_str(out, b.created_at.as_str());
    push_char(out, ',');
    push_json_key(out, "bind_mount");
    push_json_str(out, b.bind_mount.as_str());
    push_char(out, ',');
    push_json_key(out, "footprint");
}

/// The binding as compact JSON text.
pub fn binding_to_json(b: &InterfaceBinding) -> (r: String)
    ensures
        r@ == binding_json(*b),
{
    let mut out = String::new();
    push_binding_head(&mut out, b);
    push_footprint_json(&mut out, &b.footprint);
    push_char(&mut out, ',');
    push_json_key(&mut out, "ledger_block_hash");
    push_json_opt_str(&mut out, &b.ledger_block_hash);
    push_char(&mut out, '}');
    reveal(binding_json);
    assert(out@ =~= binding_json(*b));
    out
}

/// The top-level field names of a binding's JSON object, in the (sorted) order in which a
/// JSON object map lists them.
pub open spec fn binding_fields() -> Seq<Seq<char>> {
    seq![
        "bind_mount"@,
        "bridge"@,
        "container_id"@,
        "created_at"@,
        "footprint"@,
        "ledger_block_hash"@,
        "ovs_interface"@,
        "proxmox_veth"@,
        "vmid"@,
    ]
}

fn binding_field_names() -> (r: Vec<String>)
    ensures
        texts(r@) == binding_fields(),
{
    let mut r: Vec<String> = Vec::new();
    r.push(owned("bind_mount"));
    r.push(owned("bridge"));
    r.push(owned("container_id"));
    r.push(owned("created_at"));
    r.push(owned("footprint"));
    r.push(owned("ledger_block_hash"));
    r.push(owned("ovs_interface"));
    r.push(owned("proxmox_veth"));
    r.push(owned("vmid"));
    assert(texts(r@) =~= binding_fields());
    r
}

/// The footprint of a binding record made at time `created_at`: the hash of the record's
/// JSON text, the hash of the time, and the hash of both joined by `:`.
pub open spec fn footprint_of(json: Seq<char>, created_at: Seq<char>, f: HashFootprint) -> bool {
    &&& f.config_hash@ == text_hash(json)
    &&& f.state_hash@ == text_hash(created_at)
    &&& f.fingerprint@ == text_hash(text_hash(json) + seq![':'] + text_hash(created_at))
    &&& f.created_at@ == created_at
    &&& texts(f.hashed_fields@) == binding_fields()
    &&& f.algorithm@ == "SHA-256"@
}

/// A binding sealed by `new_sealed` passes its integrity check: the check compares the
/// same record's hash with the one the footprint holds.
pub proof fn law_sealed_binding_verifies(b: InterfaceBinding, sealed_at: Seq<char>)
    requires
        footprint_of(unsealed_json(b), sealed_at, b.footprint),
    ensures
        text_hash(unsealed_json(b)) == b.footprint.config_hash@,
{
}

/// The footprint round trip: when `b`'s footprint was made by `from_config` from `b0`, which
/// is `b` itself with an empty footprint and no ledger link (as bindings are sealed), `b`
/// passes its integrity check, whatever ledger link it has gained since.
pub proof fn law_footprint_round_trip(b: InterfaceBinding, b0: InterfaceBinding, sealed_at: Seq<char>)
    requires
        b0.proxmox_veth@ == b.proxmox_veth@,
        b0.ovs_interface@ == b.ovs_interface@,
        b0.vmid == b.vmid,
        b0.container_id@ == b.container_id@,
        b0.bridge@ == b.bridge@,
        b0.created_at@ == b.created_at@,
        b0.bind_mount@ == b.bind_mount@,
        empty_footprint(b0.footprint),
        b0.ledger_block_hash is None,
        footprint_of(binding_json(b0), sealed_at, b.footprint),
    ensures
        text_hash(unsealed_json(b)) == b.footprint.config_hash@,
{
    reveal_strlit("null");
    assert(texts(b0.footprint.hashed_fields@) =~= Seq::<Seq<char>>::empty());
    assert(b0.footprint.config_hash@ =~= Seq::<char>::empty());
    assert(b0.footprint.state_hash@ =~= Seq::<char>::empty());
    assert(b0.footprint.fingerprint@ =~= Seq::<char>::empty());
    assert(b0.footprint.created_at@ =~= Seq::<char>::empty());
    assert(b0.footprint.algorithm@ =~= Seq::<char>::empty());
    reveal(binding_json);
    reveal(unsealed_json);
    assert(binding_json(b0) == unsealed_json(b));
}

/// `b` and `c` differ in exactly one sealed field, the one at position `k` in declaration
/// order: veth, OVS interface, VM id, container, bridge, creation time, bind mount.
pub open spec fn differ_only_at(b: InterfaceBinding, c: InterfaceBinding, k: int) -> bool {
    &&& 0 <= k < 7
    &&& (k == 0 <==> b.proxmox_veth@ != c.proxmox_veth@)
    &&& (k == 1 <==> b.ovs_interface@ != c.ovs_interface@)
    &&& (k == 2 <==> b.vmid != c.vmid)
    &&& (k == 3 <==> b.container_id@ != c.container_id@)
    &&& (k == 4 <==> b.bridge@ != c.bridge@)
    &&& (k == 5 <==> b.created_at@ != c.created_at@)
    &&& (k == 6 <==> b.bind_mount@ != c.bind_mount@)
}

/// What comes before the sealed field at position `i`: the opening brace or a comma, then
/// the field's key.
spec fn sealed_key(i: int) -> Seq<char> {
    if i == 0 {
        seq!['{'] + json_key("proxmox_veth"@)
    } else if i == 1 {
        seq![','] + json_key("ovs_interface"@)
    } else if i == 2 {
        seq![','] + json_key("vmid"@)
    } else if i == 3 {
        seq![','] + json_key("container_id"@)
    } else if i == 4 {
        seq![','] + json_key("bridge"@)
    } else if i == 5 {
        seq![','] + json_key("created_at"@)
    } else {
        seq![','] + json_key("bind_mount"@)
    }
}

/// The values of the sealed fields as they are written.
spec fn sealed_values(b: InterfaceBinding) -> Seq<Seq<char>> {
    seq![
        json_str(b.proxmox_veth@),
        json_str(b.ovs_interface@),
        dec(b.vmid as nat),
        json_str(b.container_id@),
        json_str(b.bridge@),
        json_str(b.created_at@),
        json_str(b.bind_mount@),
    ]
}

/// The first `n` sealed fields, keys and values, as written.
spec fn framed(p: Seq<Seq<char>>, n: nat) -> Seq<char>
    decreases n,
{
    if n == 0 {
        Seq::empty()
    } else {
        framed(p, (n - 1) as nat) + sealed_key(n - 1) + p[n - 1]
    }
}

/// What follows the sealed fields: the empty footprint, no ledger link, the closing brace.
spec fn unsealed_tail() -> Seq<char> {
    seq![','] + json_key("footprint"@) + footprint_json_of(Seq::empty(), Seq::empty(), Seq::empty(), Seq::empty(), Seq::empty(), Seq::empty())
        + seq![','] + json_key("ledger_block_hash"@) + "null"@ + seq!['}']
}

#[verifier::spinoff_prover]
#[verifier::rlimit(60)]
proof fn lemma_unsealed_framed(b: InterfaceBinding)
    ensures
        unsealed_json(b) == framed(sealed_values(b), 7) + unsealed_tail(),
{
    let p = sealed_values(b);
    let c = seq![','];
    assert(p[0] == json_str(b.proxmox_veth@) && p[1] == json_str(b.ovs_interface@) && p[2] == dec(b.vmid as nat)
        && p[3] == json_str(b.container_id@) && p[4] == json_str(b.bridge@) && p[5] == json_str(b.created_at@)
        && p[6] == json_str(b.bind_mount@));
    assert(framed(p, 1) =~= seq!['{'] + json_key("proxmox_veth"@) + p[0]) by {
        assert(framed(p, 0) =~= Seq::<char>::empty());
    }
    assert(framed(p, 2) =~= framed(p, 1) + c + json_key("ovs_interface"@) + p[1]);
    assert(framed(p, 3) =~= framed(p, 2) + c + json_key("vmid"@) + p[2]);
    assert(framed(p, 4) =~= framed(p, 3) + c + json_key("container_id"@) + p[3]);
    assert(framed(p, 5) =~= framed(p, 4) + c + json_key("bridge"@) + p[4]);
    assert(framed(p, 6) =~= framed(p, 5) + c + json_key("created_at"@) + p[5]);
    assert(framed(p, 7) =~= framed(p, 6) + c + json_key("bind_mount"@) + p[6]);
    let f = framed(p, 7);
    let fp = footprint_json_of(Seq::empty(), Seq::empty(), Seq::empty(), Seq::empty(), Seq::empty(), Seq::empty());
    assert(f + unsealed_tail() =~= f + c + json_key("footprint"@) + fp + c + json_key("ledger_block_hash"@) + "null"@
        + seq!['}']);
    reveal(unsealed_json);
    assert(unsealed_json(b) == f + c + json_key("footprint"@) + fp + c + json_key("ledger_block_hash"@) + "null"@
        + seq!['}']);
}

proof fn lemma_framed_prefix(p: Seq<Seq<char>>, q: Seq<Seq<char>>, n: nat)
    requires
        n <= p.len(),
        n <= q.len(),
        forall|i: int| 0 <= i < n ==> p[i] == q[i],
    ensures
        framed(p, n) == framed(q, n),
    decreases n,
{
    if n > 0 {
        lemma_framed_prefix(p, q, (n - 1) as nat);
    }
}

proof fn lemma_framed_differs(p: Seq<Seq<char>>, q: Seq<Seq<char>>, n: nat, k: int, t: Seq<char>)
    requires
        n <= p.len(),
        n <= q.len(),
        0 <= k < n,
        forall|i: int| 0 <= i < n && i != k ==> p[i] == q[i],
        p[k] != q[k],
    ensures
        framed(p, n) + t != framed(q, n) + t,
    decreases n,
{
    if n == k + 1 {
        lemma_framed_prefix(p, q, k as nat);
        let f = framed(p, k as nat) + sealed_key(k);
        assert(framed(p, n) + t =~= f + p[k] + t);
        assert(framed(q, n) + t =~= f + q[k] + t);
        if f + p[k] + t == f + q[k] + t {
            assert(p[k].len() == q[k].len());
            assert(p[k] =~= (f + p[k] + t).subrange(f.len() as int, (f.len() + p[k].len()) as int));
            assert(q[k] =~= (f + q[k] + t).subrange(f.len() as int, (f.len() + q[k].len()) as int));
        }
    } else {
        let m = (n - 1) as nat;
        let t2 = sealed_key(m as int) + p[m as int] + t;
        assert(framed(p, n) + t =~= framed(p, m) + t2);
        assert(framed(q, n) + t =~= framed(q, m) + t2);
        lemma_framed_differs(p, q, m, k, t2);
    }
}

/// A footprint tells the sealed fields apart: two bindings that differ in exactly one of
/// veth, OVS interface, VM id, container, bridge, creation time and bind mount have
/// different texts to hash, so a binding changed that way fails its integrity check unless
/// SHA-256 gives both texts the same hash.
pub proof fn law_changed_field_changes_sealed_text(b: InterfaceBinding, c: InterfaceBinding, k: int)
    requires
        differ_only_at(b, c, k),
    ensures
        unsealed_json(b) != unsealed_json(c),
{
    let p = sealed_values(b);
    let q = sealed_values(c);
    assert(p[k] != q[k]) by {
        if p[k] == q[k] {
            if k == 2 {
                lemma_dec_injective(b.vmid as nat, c.vmid as nat);
            } else if k == 0 {
                lemma_json_str_injective(b.proxmox_veth@, c.proxmox_veth@);
            } else if k == 1 {
                lemma_json_str_injective(b.ovs_interface@, c.ovs_interface@);
            } else if k == 3 {
                lemma_json_str_injective(b.container_id@, c.container_id@);
            } else if k == 4 {
                lemma_json_str_injective(b.bridge@, c.bridge@);
            } else if k == 5 {
                lemma_json_str_injective(b.created_at@, c.created_at@);
            } else {
                lemma_json_str_injective(b.bind_mount@, c.bind_mount@);
            }
        }
    }
    lemma_unsealed_framed(b);
    lemma_unsealed_framed(c);
    lemma_framed_differs(p, q, 7, k, unsealed_tail());
}

impl HashFootprint {
    /// Seals a binding record (serialized as it is) at time `created_at`.
    pub fn from_config(config: &InterfaceBinding, created_at: String) -> (r: Result<HashFootprint, Error>)
        ensures
            r matches Ok(f) && footprint_of(binding_json(*config), created_at@, f),
    {
        let json = binding_to_json(config);
        let config_hash = hash_string(json.as_str());
        let state_hash = hash_string(created_at.as_str());
        let mut joined = config_hash.clone();
        push_char(&mut joined, ':');
        push_str(&mut joined, state_hash.as_str());
        assert(joined@ =~= text_hash(json@) + seq![':'] + text_hash(created_at@));
        let fingerprint = hash_string(joined.as_str());
        Ok(HashFootprint {
            config_hash,
            state_hash,
            fingerprint,
            created_at,
            hashed_fields: binding_field_names(),
            algorithm: owned("SHA-256"),
        })
    }

    /// Whether `config` still serializes to the text this footprint sealed.
    pub fn verify(&self, config: &InterfaceBinding) -> (r: Result<bool, Error>)
        ensures
            r matches Ok(v) && v == (text_hash(binding_json(*config)) == self.config_hash@),
    {
        let json = binding_to_json(config);
        let h = hash_string(json.as_str());
        Ok(same_text(h.as_str(), self.config_hash.as_str()))
    }
}

/// The bind mount point of an OVS interface.
pub open spec fn mount_point(ovs_interface: Seq<char>) -> Seq<char> {
    fuse_mount_base() + "/"@ + ovs_interface
}

/// Builds the bind mount point of an OVS interface.
pub fn mount_point_of(ovs_interface: &str) -> (r: String)
    ensures
        r@ == mount_point(ovs_interface@),
{
    let mut p = owned("/var/lib/ovs-port-agent/fuse");
    push_str(&mut p, "/");
    push_str(&mut p, ovs_interface);
    p
}

impl InterfaceBinding {
    /// Whether the binding's fields still hash to its footprint's `config_hash` (checked on
    /// the binding with an empty footprint and no ledger link, as it was sealed).
    pub fn verify_integrity(&self) -> (r: Result<bool, Error>)
        ensures
            r matches Ok(v) && v == (text_hash(unsealed_json(*self)) == self.footprint.config_hash@),
    {
        let temp = InterfaceBinding {
            proxmox_veth: self.proxmox_veth.clone(),
            ovs_interface: self.ovs_interface.clone(),
            vmid: self.vmid,
            container_id: self.container_id.clone(),
            bridge: self.bridge.clone(),
            created_at: self.created_at.clone(),
            bind_mount: self.bind_mount.clone(),
            footprint: HashFootprint::default(),
            ledger_block_hash: None,
        };
        proof {
            reveal_strlit("null");
            assert(temp.footprint.hashed_fields@ =~= Seq::<String>::empty());
            assert(texts(temp.footprint.hashed_fields@) =~= Seq::<Seq<char>>::empty());
            assert(temp.footprint.config_hash@ =~= Seq::<char>::empty());
            assert(temp.footprint.state_hash@ =~= Seq::<char>::empty());
            assert(temp.footprint.fingerprint@ =~= Seq::<char>::empty());
            assert(temp.footprint.created_at@ =~= Seq::<char>::empty());
            assert(temp.footprint.algorithm@ =~= Seq::<char>::empty());
            reveal(binding_json);
            reveal(unsealed_json);
            assert(binding_json(temp) == unsealed_json(*self));
        }
        self.footprint.verify(&temp)
    }

    /// The binding's unique fingerprint.
    pub fn fingerprint(&self) -> (r: &str)
        ensures
            r@ == self.footprint.fingerprint@,
    {
        self.footprint.fingerprint.as_str()
    }

    /// A binding record for `proxmox_veth` on `ovs_interface`, made at `created_at`, sealed
    /// by a footprint made at `sealed_at`: its bind mount is the interface's mount point,
    /// and it has no ledger link yet.
    pub fn new_sealed(
        proxmox_veth: &str,
        ovs_interface: &str,
        vmid: u32,
        container_id: &str,
        bridge: &str,
        created_at: String,
        sealed_at: String,
    ) -> (r: InterfaceBinding)
        ensures
            r.proxmox_veth@ == proxmox_veth@,
            r.ovs_interface@ == ovs_interface@,
            r.vmid == vmid,
            r.container_id@ == container_id@,
            r.bridge@ == bridge@,
            r.created_at@ == created_at@,
            r.bind_mount@ == mount_point(ovs_interface@),
            r.ledger_block_hash is None,
            footprint_of(unsealed_json(r), sealed_at@, r.footprint),
    {
        let temp = InterfaceBinding {
            proxmox_veth: owned(proxmox_veth),
            ovs_interface: owned(ovs_interface),
            vmid,
            container_id: owned(container_id),
            bridge: owned(bridge),
            created_at: created_at.clone(),
            bind_mount: mount_point_of(ovs_interface),
            footprint: HashFootprint::default(),
            ledger_block_hash: None,
        };
        let footprint = match HashFootprint::from_config(&temp, sealed_at) {
            Ok(f) => f,
            Err(_) => HashFootprint::default(),
        };
        let r = InterfaceBinding {
            proxmox_veth: owned(proxmox_veth),
            ovs_interface: owned(ovs_interface),
            vmid,
            container_id: owned(container_id),
            bridge: owned(bridge),
            created_at,
            bind_mount: mount_point_of(ovs_interface),
            footprint,
            ledger_block_hash: None,
        };
        proof {
            reveal_strlit("null");
            assert(texts(temp.footprint.hashed_fields@) =~= Seq::<Seq<char>>::empty());
            assert(temp.footprint.config_hash@ =~= Seq::<char>::empty());
            assert(temp.footprint.state_hash@ =~= Seq::<char>::empty());
            assert(temp.footprint.fingerprint@ =~= Seq::<char>::empty());
            assert(temp.footprint.created_at@ =~= Seq::<char>::empty());
            assert(temp.footprint.algorithm@ =~= Seq::<char>::empty());
            reveal(binding_json);
            reveal(unsealed_json);
            assert(binding_json(temp) == unsealed_json(r));
        }
        r
    }
}

/// The Proxmox API directory of a VM.
pub open spec fn vm_dir(vmid: u32) -> Seq<char> {
    proxmox_api_base() + "/vm-"@ + dec(vmid as nat)
}

/// Builds the Proxmox API directory of a VM.
pub fn vm_dir_of(vmid: u32) -> (r: String)
    ensures
        r@ == vm_dir(vmid),
{
    let mut p = owned("/var/lib/ovs-port-agent/proxmox");
    push_str(&mut p, "/vm-");
    push_decimal(&mut p, vmid as u64);
    p
}

/// The Proxmox-style configuration file written for a binding.
pub open spec fn proxmox_config_text(b: InterfaceBinding) -> Seq<char> {
    "# Proxmox VE VM "@ + dec(b.vmid as nat) + " Network Interface Configuration\n"@
        + "# Generated by ovs-port-agent\n"@ + "[interface."@ + b.ovs_interface@ + "]\n"@
        + "type: veth\n"@ + "bridge: "@ + b.bridge@ + "\n"@ + "container: "@ + b.container_id@
        + "\n"@ + "proxmox-veth: "@ + b.proxmox_veth@ + "\n"@ + "ovs-interface: "@ + b.ovs_interface@
        + "\n"@ + "created: "@ + b.created_at@ + "\n"@
}

/// Builds the Proxmox-style configuration file of a binding.
pub fn proxmox_config(b: &InterfaceBinding) -> (r: String)
    ensures
        r@ == proxmox_config_text(*b),
{
    let mut s = owned("# Proxmox VE VM ");
    push_decimal(&mut s, b.vmid as u64);
    push_str(&mut s, " Network Interface Configuration\n");
    push_str(&mut s, "# Generated by ovs-port-agent\n");
    push_str(&mut s, "[interface.");
    push_str(&mut s, b.ovs_interface.as_str());
    push_str(&mut s, "]\n");
    push_str(&mut s, "type: veth\n");
    push_str(&mut s, "bridge: ");
    push_str(&mut s, b.bridge.as_str());
    push_str(&mut s, "\n");
    push_str(&mut s, "container: ");
    push_str(&mut s, b.container_id.as_str());
    push_str(&mut s, "\n");
    push_str(&mut s, "proxmox-veth: ");
    push_str(&mut s, b.proxmox_veth.as_str());
    push_str(&mut s, "\n");
    push_str(&mut s, "ovs-interface: ");
    push_str(&mut s, b.ovs_interface.as_str());
    push_str(&mut s, "\n");
    push_str(&mut s, "created: ");
    push_str(&mut s, b.created_at.as_str());
    push_str(&mut s, "\n");
    s
}

/// The four paths a synchronized binding needs, in the order they are checked: the OVS
/// link, the Proxmox veth, the bind mount, and the Proxmox API link.
pub open spec fn sync_paths(ovs_interface: Seq<char>, b: InterfaceBinding) -> Seq<Seq<char>> {
    seq![
        "/sys/class/net/"@ + ovs_interface,
        "/proc/net/veth/"@ + b.proxmox_veth@,
        mount_point(ovs_interface),
        vm_dir(b.vmid) + "/"@ + ovs_interface,
    ]
}

/// Builds the four paths a synchronized binding needs.
pub fn sync_paths_of(ovs_interface: &str, b: &InterfaceBinding) -> (r: Vec<String>)
    ensures
        texts(r@) == sync_paths(ovs_interface@, *b),
{
    let mut r: Vec<String> = Vec::new();
    let mut a = owned("/sys/class/net/");
    push_str(&mut a, ovs_interface);
    r.push(a);
    let mut v = owned("/proc/net/veth/");
    push_str(&mut v, b.proxmox_veth.as_str());
    r.push(v);
    r.push(mount_point_of(ovs_interface));
    let mut l = vm_dir_of(b.vmid);
    push_str(&mut l, "/");
    push_str(&mut l, ovs_interface);
    r.push(l);
    assert(texts(r@) =~= sync_paths(ovs_interface@, *b));
    r
}

/// The names of the bindings on `bridge`, in the given order.
pub open spec fn names_on_bridge(bindings: Seq<(String, InterfaceBinding)>, bridge: Seq<char>) -> Seq<Seq<char>>
    decreases bindings.len(),
{
    if bindings.len() == 0 {
        Seq::empty()
    } else if bindings.last().1.bridge@ == bridge {
        names_on_bridge(bindings.drop_last(), bridge).push(bindings.last().0@)
    } else {
        names_on_bridge(bindings.drop_last(), bridge)
    }
}

/// Every answer is yes.
pub open spec fn all_present(a: Seq<bool>) -> bool {
    forall|i: int| 0 <= i < a.len() ==> a[i]
}

/// Whether a binding is synchronized, from the existence answers for its four paths (in the
/// order `sync_paths_of` gives them): all four must exist.
pub fn binding_synchronized(exists: &Vec<bool>) -> (r: bool)
    requires
        exists@.len() == 4,
    ensures
        r == all_present(exists@),
{
    let mut i: usize = 0;
    while i < exists.len()
        invariant
            i <= exists@.len(),
            forall|j: int| 0 <= j < i ==> exists@[j],
        decreases exists@.len() - i,
    {
        if !exists[i] {
            return false;
        }
        i = i + 1;
    }
    true
}

/// The synchronization report of the bindings named `names`, given the existence answers
/// for each one's four paths: each name with whether all its paths exist.
pub fn synchronization_from(names: &Vec<String>, answers: &Vec<Vec<bool>>) -> (r: Vec<(String, bool)>)
    requires
        answers@.len() == names@.len(),
        forall|i: int| 0 <= i < answers@.len() ==> (#[trigger] answers@[i])@.len() == 4,
    ensures
        r@.len() == names@.len(),
        forall|i: int| 0 <= i < r@.len() ==> (#[trigger] r@[i]).0@ == names@[i]@ && r@[i].1 == all_present(answers@[i]@),
{
    let mut out: Vec<(String, bool)> = Vec::new();
    let mut i: usize = 0;
    while i < names.len()
        invariant
            i <= names@.len(),
            answers@.len() == names@.len(),
            forall|j: int| 0 <= j < answers@.len() ==> (#[trigger] answers@[j])@.len() == 4,
            out@.len() == i,
            forall|j: int| 0 <= j < i ==> (#[trigger] out@[j]).0@ == names@[j]@ && out@[j].1 == all_present(answers@[j]@),
        decreases names@.len() - i,
    {
        let ok = binding_synchronized(&answers[i]);
        out.push((names[i].clone(), ok));
        i = i + 1;
    }
    out
}

/// The four paths a binding on interface `name` needs to be synchronized: the OVS
/// interface's link in sysfs, the Proxmox veth, the interface's bind mount under the FUSE
/// base, and its entry in the VM's directory under the Proxmox API base.
pub proof fn law_sync_paths_are_the_binding_paths(name: Seq<char>, b: InterfaceBinding)
    ensures
        sync_paths(name, b) == seq![
            "/sys/class/net/"@ + name,
            "/proc/net/veth/"@ + b.proxmox_veth@,
            "/var/lib/ovs-port-agent/fuse"@ + "/"@ + name,
            "/var/lib/ovs-port-agent/proxmox"@ + "/vm-"@ + dec(b.vmid as nat) + "/"@ + name,
        ],
{
}

/// The bindings of a list that are on `bridge`, in order.
pub open spec fn bindings_on_bridge(bindings: Seq<(String, InterfaceBinding)>, bridge: Seq<char>) -> Seq<(String, InterfaceBinding)>
    decreases bindings.len(),
{
    if bindings.len() == 0 {
        Seq::empty()
    } else if bindings.last().1.bridge@ == bridge {
        bindings_on_bridge(bindings.drop_last(), bridge).push(bindings.last())
    } else {
        bindings_on_bridge(bindings.drop_last(), bridge)
    }
}

/// `present` is an answer the file system gave, through `Path::exists`, to whether `path`
/// exists: the answer of a call of `path_exists` on that very path.
pub closed spec fn answered(path: Seq<char>, present: bool) -> bool {
    exists|s: &str| s@ == path && call_ensures(path_exists, (s,), present)
}

/// Asks the file system whether `path` exists.
fn probe_path(path: &str) -> (r: bool)
    ensures
        answered(path@, r),
{
    let ask = path_exists;
    let r = ask(path);
    assert(path@ == path@ && call_ensures(path_exists, (path,), r));
    r
}

/// Checks each binding on `bridge` (keyed by its OVS interface) against the file system:
/// one entry per such binding, in the given order, whose flag is true exactly when the file
/// system answered that each of the binding's four paths (those `sync_paths_of` gives: the
/// OVS link, the Proxmox veth, the bind mount and the Proxmox API link) exists. The answers
/// come from the file system at the time of the call.
pub fn validate_bridge_synchronization(bindings: &Vec<(String, InterfaceBinding)>, bridge: &str) -> (r: Result<Vec<(String, bool)>, Error>)
    ensures
        r matches Ok(v) && Seq::new(v@.len(), |i: int| v@[i].0@) == names_on_bridge(bindings@, bridge@),
        r matches Ok(v) && v@.len() == bindings_on_bridge(bindings@, bridge@).len() && forall|i: int|
            0 <= i < v@.len() ==> {
                let on = #[trigger] bindings_on_bridge(bindings@, bridge@)[i];
                &&& v@[i].0@ == on.0@
                &&& exists|a: Seq<bool>|
                    a.len() == 4 && (forall|k: int| 0 <= k < 4 ==> answered(#[trigger] sync_paths(on.0@, on.1)[k], a[k]))
                        && v@[i].1 == (a[0] && a[1] && a[2] && a[3])
            },
{
    let mut names: Vec<String> = Vec::new();
    let mut answers: Vec<Vec<bool>> = Vec::new();
    let ghost mut on: Seq<(String, InterfaceBinding)> = Seq::empty();
    let mut i: usize = 0;
    while i < bindings.len()
        invariant
            i <= bindings@.len(),
            answers@.len() == names@.len(),
            on.len() == names@.len(),
            on == bindings_on_bridge(bindings@.subrange(0, i as int), bridge@),
            forall|j: int| 0 <= j < answers@.len() ==> (#[trigger] answers@[j])@.len() == 4,
            forall|j: int| 0 <= j < names@.len() ==> (#[trigger] names@[j])@ == on[j].0@,
            forall|j: int, k: int|
                0 <= j < answers@.len() && 0 <= k < 4 ==> answered(
                    sync_paths(on[j].0@, on[j].1)[k],
                    #[trigger] answers@[j]@[k],
                ),
            texts(names@) == names_on_bridge(bindings@.subrange(0, i as int), bridge@),
        decreases bindings@.len() - i,
    {
        let ghost pre = bindings@.subrange(0, i as int);
        let ghost post = bindings@.subrange(0, i + 1);
        assert(post.drop_last() =~= pre);
        let name = &bindings[i].0;
        let b = &bindings[i].1;
        if same_text(b.bridge.as_str(), bridge) {
            let paths = sync_paths_of(name.as_str(), b);
            proof {
                assert(paths@.len() == texts(paths@).len());
            }
            let mut present: Vec<bool> = Vec::new();
            let mut k: usize = 0;
            while k < paths.len()
                invariant
                    k <= paths@.len(),
                    paths@.len() == 4,
                    texts(paths@) == sync_paths(name@, *b),
                    present@.len() == k,
                    forall|m: int| 0 <= m < k ==> answered(sync_paths(name@, *b)[m], #[trigger] present@[m]),
                decreases paths@.len() - k,
            {
                let a = probe_path(paths[k].as_str());
                assert(texts(paths@)[k as int] == paths@[k as int]@);
                present.push(a);
                k = k + 1;
            }
            let ghost before = names@;
            let ghost ans_before = answers@;
            names.push(name.clone());
            answers.push(present);
            proof {
                on = on.push(bindings@[i as int]);
                assert(post.last() == bindings@[i as int]);
                assert(answers@[answers@.len() - 1] == present);
                assert forall|j: int, m: int|
                    0 <= j < answers@.len() && 0 <= m < 4 implies answered(
                    sync_paths(on[j].0@, on[j].1)[m],
                    #[trigger] answers@[j]@[m],
                ) by {
                    if j < ans_before.len() {
                        assert(answers@[j] == ans_before[j]);
                    }
                }
            }
            assert(texts(names@) =~= texts(before).push(name@));
        }
        i = i + 1;
    }
    assert(bindings@.subrange(0, bindings@.len() as int) =~= bindings@);
    let out = synchronization_from(&names, &answers);
    assert(Seq::new(out@.len(), |k: int| out@[k].0@) =~= texts(names@));
    proof {
        assert forall|j: int| 0 <= j < out@.len() implies {
            let o = #[trigger] on[j];
            &&& out@[j].0@ == o.0@
            &&& exists|a: Seq<bool>|
                a.len() == 4 && (forall|k: int| 0 <= k < 4 ==> answered(#[trigger] sync_paths(o.0@, o.1)[k], a[k]))
                    && out@[j].1 == (a[0] && a[1] && a[2] && a[3])
        } by {
            let a = answers@[j]@;
            assert(forall|k: int| 0 <= k < 4 ==> answered(sync_paths(on[j].0@, on[j].1)[k], #[trigger] answers@[j]@[k]));
            assert(out@[j].1 == all_present(a));
            assert(all_present(a) == (a[0] && a[1] && a[2] && a[3]));
        }
    }
    Ok(out)
}

} // verus!

