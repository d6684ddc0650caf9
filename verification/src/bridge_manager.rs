//! OVS bridges created through `ovs-vsctl`, and the declarative state recorded for them:
//! one record per bridge, keyed by its name.
use vstd::prelude::*;
use vstd::string::*;
use crate::text::{owned, push_str, texts, same_text};
use crate::error::Error;

verus! {

/// IP configuration of a bridge.
pub struct IpConfig {
    pub address: String,
    pub gateway: Option<String>,
    pub dns: Vec<String>,
}

/// The recorded state of a bridge.
pub struct BridgeState {
    pub name: String,
    pub uplink: Option<String>,
    pub stp_enabled: bool,
    pub ports: Vec<String>,
    pub ip_config: Option<IpConfig>,
}

/// The mathematical content of an IP configuration.
pub struct IpView {
    pub address: Seq<char>,
    pub gateway: Option<Seq<char>>,
    pub dns: Seq<Seq<char>>,
}

/// The mathematical content of a bridge record.
pub struct BridgeView {
    pub name: Seq<char>,
    pub uplink: Option<Seq<char>>,
    pub stp_enabled: bool,
    pub ports: Seq<Seq<char>>,
    pub ip_config: Option<IpView>,
}

/// The view of an optional string.
pub open spec fn opt_seq(o: Option<String>) -> Option<Seq<char>> {
    match o {
        Some(s) => Some(s@),
        None => None,
    }
}

impl View for IpConfig {
    type V = IpView;

    open spec fn view(&self) -> IpView {
        IpView { address: self.address@, gateway: opt_seq(self.gateway), dns: texts(self.dns@) }
    }
}

impl View for BridgeState {
    type V = BridgeView;

    open spec fn view(&self) -> BridgeView {
        BridgeView {
            name: self.name@,
            uplink: opt_seq(self.uplink),
            stp_enabled: self.stp_enabled,
            ports: texts(self.ports@),
            ip_config: match self.ip_config {
                Some(c) => Some(c@),
                None => None,
            },
        }
    }
}

fn copy_texts(v: &Vec<String>) -> (r: Vec<String>)
    ensures
        texts(r@) == texts(v@),
{
    let mut r: Vec<String> = Vec::new();
    let mut i: usize = 0;
    while i < v.len()
        invariant
            i <= v@.len(),
            texts(r@) == texts(v@.subrange(0, i as int)),
        decreases v@.len() - i,
    {
        let ghost before = r@;
        r.push(v[i].clone());
        assert(texts(r@) =~= texts(before).push(v@[i as int]@));
        assert(texts(r@) =~= texts(v@.subrange(0, i + 1)));
        i = i + 1;
    }
    assert(v@.subrange(0, v@.len() as int) =~= v@);
    r
}

fn copy_opt(o: &Option<String>) -> (r: Option<String>)
    ensures
        opt_seq(r) == opt_seq(*o),
{
    match o {
        Some(s) => Some(s.clone()),
        None => None,
    }
}

impl IpConfig {
    /// An independent copy.
    pub fn copy(&self) -> (r: IpConfig)
        ensures
            r@ == self@,
    {
        IpConfig { address: self.address.clone(), gateway: copy_opt(&self.gateway), dns: copy_texts(&self.dns) }
    }
}

impl BridgeState {
    /// An independent copy.
    pub fn copy(&self) -> (r: BridgeState)
        ensures
            r@ == self@,
    {
        BridgeState {
            name: self.name.clone(),
            uplink: copy_opt(&self.uplink),
            stp_enabled: self.stp_enabled,
            ports: copy_texts(&self.ports),
            ip_config: match &self.ip_config {
                Some(c) => Some(c.copy()),
                None => None,
            },
        }
    }
}

/// Bridge records by name.
pub struct ZbusBridgeManager {
    pub bridges: Vec<(String, BridgeState)>,
}

/// The records of a list, by name (a later entry with the same name wins).
pub open spec fn records(v: Seq<(String, BridgeState)>) -> Map<Seq<char>, BridgeView>
    decreases v.len(),
{
    if v.len() == 0 {
        Map::empty()
    } else {
        records(v.drop_last()).insert(v.last().0@, v.last().1@)
    }
}

/// The `ovs-vsctl` commands that create a bridge: add it, turn STP off, and add the uplink
/// port when there is one. A failing command stops the rest.
pub open spec fn bridge_commands_spec(name: Seq<char>, uplink: Option<Seq<char>>) -> Seq<Seq<Seq<char>>> {
    seq![seq!["add-br"@, name], seq!["set"@, "bridge"@, name, "stp_enable=false"@]] + match uplink {
        Some(u) => seq![seq!["add-port"@, name, u]],
        None => Seq::empty(),
    }
}

/// The record of a bridge just created.
pub open spec fn new_record(name: Seq<char>, uplink: Option<Seq<char>>) -> BridgeView {
    BridgeView {
        name,
        uplink,
        stp_enabled: false,
        ports: match uplink {
            Some(u) => seq![u],
            None => Seq::empty(),
        },
        ip_config: None,
    }
}

/// The view of an optional string slice.
pub open spec fn opt_str_view(o: Option<&str>) -> Option<Seq<char>> {
    match o {
        Some(s) => Some(s@),
        None => None,
    }
}

impl ZbusBridgeManager {
    /// No bridge names occur twice.
    pub open spec fn wf(&self) -> bool {
        forall|i: int, j: int| 0 <= i < j < self.bridges@.len() ==> self.bridges@[i].0@ != self.bridges@[j].0@
    }

    /// The records by name.
    pub open spec fn state(&self) -> Map<Seq<char>, BridgeView> {
        records(self.bridges@)
    }

    /// A manager with no bridges.
    pub fn new() -> (r: ZbusBridgeManager)
        ensures
            r.wf(),
            r.state() == Map::<Seq<char>, BridgeView>::empty(),
    {
        ZbusBridgeManager { bridges: Vec::new() }
    }

    /// The `ovs-vsctl` commands that create the bridge.
    pub fn bridge_commands(name: &str, uplink: Option<&str>) -> (r: Vec<Vec<String>>)
        ensures
            Seq::new(r@.len(), |i: int| texts(r@[i]@)) == bridge_commands_spec(name@, opt_str_view(uplink)),
    {
        let mut r: Vec<Vec<String>> = Vec::new();
        let mut a: Vec<String> = Vec::new();
        a.push(owned("add-br"));
        a.push(owned(name));
        let mut b: Vec<String> = Vec::new();
        b.push(owned("set"));
        b.push(owned("bridge"));
        b.push(owned(name));
        b.push(owned("stp_enable=false"));
        assert(texts(a@) =~= seq!["add-br"@, name@]);
        assert(texts(b@) =~= seq!["set"@, "bridge"@, name@, "stp_enable=false"@]);
        r.push(a);
        r.push(b);
        match uplink {
            Some(u) => {
                let mut c: Vec<String> = Vec::new();
                c.push(owned("add-port"));
                c.push(owned(name));
                c.push(owned(u));
                assert(texts(c@) =~= seq!["add-port"@, name@, u@]);
                r.push(c);
            },
            None => {},
        }
        assert(Seq::new(r@.len(), |i: int| texts(r@[i]@)) =~= bridge_commands_spec(name@, opt_str_view(uplink)));
        r
    }

    fn position(&self, name: &str) -> (r: Option<usize>)
        ensures
            match r {
                Some(i) => i < self.bridges@.len() && self.bridges@[i as int].0@ == name@,
                None => forall|j: int| 0 <= j < self.bridges@.len() ==> #[trigger] self.bridges@[j].0@ != name@,
            },
    {
        let mut i: usize = 0;
        while i < self.bridges.len()
            invariant
                i <= self.bridges@.len(),
                forall|j: int| 0 <= j < i ==> #[trigger] self.bridges@[j].0@ != name@,
            decreases self.bridges@.len() - i,
        {
            if same_text(self.bridges[i].0.as_str(), name) {
                return Some(i);
            }
            i = i + 1;
        }
        None
    }

    /// Records a bridge whose creation commands succeeded (replacing an earlier record of
    /// the same name) and returns its record.
    pub fn create_bridge(&mut self, name: &str, uplink: Option<&str>) -> (r: BridgeState)
        requires
            old(self).wf(),
        ensures
            final(self).wf(),
            r@ == new_record(name@, opt_str_view(uplink)),
            final(self).state() == old(self).state().insert(name@, new_record(name@, opt_str_view(uplink))),
    {
        let mut ports: Vec<String> = Vec::new();
        match uplink {
            Some(u) => {
                ports.push(owned(u));
            },
            None => {},
        }
        let state = BridgeState {
            name: owned(name),
            uplink: match uplink {
                Some(u) => Some(owned(u)),
                None => None,
            },
            stp_enabled: false,
            ports,
            ip_config: None,
        };
        assert(state@.ports =~= new_record(name@, opt_str_view(uplink)).ports);
        assert(state@ == new_record(name@, opt_str_view(uplink)));
        let copy = state.copy();
        match self.position(name) {
            Some(i) => {
                let ghost before = self.bridges@;
                self.bridges.set(i, (owned(name), copy));
                proof {
                    lemma_records_update(before, i as int, self.bridges@);
                }
            },
            None => {
                let ghost before = self.bridges@;
                self.bridges.push((owned(name), copy));
                assert(self.bridges@.drop_last() =~= before);
            },
        }
        state
    }

    /// Sets the IP configuration of a recorded bridge; an unknown bridge is refused and
    /// nothing changes.
    pub fn configure_ip(&mut self, bridge_name: &str, config: IpConfig) -> (r: Result<(), Error>)
        requires
            old(self).wf(),
        ensures
            final(self).wf(),
            old(self).state().dom().contains(bridge_name@) ==> r is Ok && final(self).state() == old(
                self,
            ).state().insert(
                bridge_name@,
                BridgeView { ip_config: Some(config@), ..old(self).state()[bridge_name@] },
            ),
            !old(self).state().dom().contains(bridge_name@) ==> (r matches Err(Error::Bridge(m)) && m@ == "Bridge "@
                + bridge_name@ + " not found"@ && final(self).state() == old(self).state()),
    {
        proof {
            lemma_records_dom(self.bridges@);
        }
        match self.position(bridge_name) {
            Some(i) => {
                let ghost before = self.bridges@;
                proof {
                    lemma_records_at(before, i as int);
                }
                let name = self.bridges[i].0.clone();
                let mut b = self.bridges[i].1.copy();
                b.ip_config = Some(config);
                self.bridges.set(i, (name, b));
                proof {
                    lemma_records_update(before, i as int, self.bridges@);
                }
                Ok(())
            },
            None => {
                let mut m = owned("Bridge ");
                push_str(&mut m, bridge_name);
                push_str(&mut m, " not found");
                Err(Error::Bridge(m))
            },
        }
    }

    /// A copy of every record.
    pub fn get_state(&self) -> (r: Vec<(String, BridgeState)>)
        ensures
            records(r@) == self.state(),
            r@.len() == self.bridges@.len(),
            forall|i: int| 0 <= i < r@.len() ==> #[trigger] r@[i].0@ == self.bridges@[i].0@ && r@[i].1@ == self.bridges@[i].1@,
    {
        let mut r: Vec<(String, BridgeState)> = Vec::new();
        let mut i: usize = 0;
        while i < self.bridges.len()
            invariant
                i <= self.bridges@.len(),
                r@.len() == i,
                forall|k: int| 0 <= k < i ==> #[trigger] r@[k].0@ == self.bridges@[k].0@ && r@[k].1@ == self.bridges@[k].1@,
            decreases self.bridges@.len() - i,
        {
            r.push((self.bridges[i].0.clone(), self.bridges[i].1.copy()));
            i = i + 1;
        }
        proof {
            lemma_records_same(r@, self.bridges@);
        }
        r
    }
}

proof fn lemma_records_same(a: Seq<(String, BridgeState)>, b: Seq<(String, BridgeState)>)
    requires
        a.len() == b.len(),
        forall|i: int| 0 <= i < a.len() ==> #[trigger] a[i].0@ == b[i].0@ && a[i].1@ == b[i].1@,
    ensures
        records(a) == records(b),
    decreases a.len(),
{
    if a.len() > 0 {
        assert forall|i: int| 0 <= i < a.drop_last().len() implies #[trigger] a.drop_last()[i].0@ == b.drop_last()[i].0@
            && a.drop_last()[i].1@ == b.drop_last()[i].1@ by {
            assert(a.drop_last()[i] == a[i]);
            assert(b.drop_last()[i] == b[i]);
        }
        lemma_records_same(a.drop_last(), b.drop_last());
        assert(a.last() == a[a.len() - 1]);
        assert(b.last() == b[b.len() - 1]);
    }
}

proof fn lemma_records_dom(v: Seq<(String, BridgeState)>)
    ensures
        forall|k: Seq<char>| #[trigger] records(v).dom().contains(k) <==> exists|i: int| 0 <= i < v.len() && v[i].0@ == k,
    decreases v.len(),
{
    if v.len() > 0 {
        lemma_records_dom(v.drop_last());
        assert forall|k: Seq<char>| #[trigger] records(v).dom().contains(k) <==> exists|i: int| 0 <= i < v.len() && v[i].0@ == k by {
            assert(records(v.drop_last()).dom().contains(k) <==> exists|i: int|
                0 <= i < v.drop_last().len() && v.drop_last()[i].0@ == k);
            if records(v).dom().contains(k) {
                if k == v.last().0@ {
                    assert(v[v.len() - 1].0@ == k);
                } else {
                    let i = choose|i: int| 0 <= i < v.drop_last().len() && v.drop_last()[i].0@ == k;
                    assert(v[i] == v.drop_last()[i]);
                }
            }
            if exists|i: int| 0 <= i < v.len() && v[i].0@ == k {
                let i = choose|i: int| 0 <= i < v.len() && v[i].0@ == k;
                if i < v.len() - 1 {
                    assert(v.drop_last()[i] == v[i]);
                }
            }
        }
    }
}

proof fn lemma_records_at(v: Seq<(String, BridgeState)>, i: int)
    requires
        0 <= i < v.len(),
        forall|a: int, b: int| 0 <= a < b < v.len() ==> v[a].0@ != v[b].0@,
    ensures
        records(v).dom().contains(v[i].0@),
        records(v)[v[i].0@] == v[i].1@,
    decreases v.len(),
{
    if i < v.len() - 1 {
        lemma_records_at(v.drop_last(), i);
        assert(v.drop_last()[i] == v[i]);
        assert(v.last().0@ != v[i].0@);
    }
}

proof fn lemma_records_update(before: Seq<(String, BridgeState)>, i: int, after: Seq<(String, BridgeState)>)
    requires
        0 <= i < before.len(),
        after.len() == before.len(),
        after[i].0@ == before[i].0@,
        forall|j: int| 0 <= j < before.len() && j != i ==> #[trigger] after[j] == before[j],
        forall|a: int, b: int| 0 <= a < b < before.len() ==> before[a].0@ != before[b].0@,
    ensures
        records(after) == records(before).insert(before[i].0@, after[i].1@),
        forall|a: int, b: int| 0 <= a < b < after.len() ==> after[a].0@ != after[b].0@,
    decreases before.len(),
{
    assert forall|a: int, b: int| 0 <= a < b < after.len() implies after[a].0@ != after[b].0@ by {
        if a != i {
            assert(after[a] == before[a]);
        }
        if b != i {
            assert(after[b] == before[b]);
        }
    }
    if i == before.len() - 1 {
        assert(after.drop_last() =~= before.drop_last()) by {
            assert forall|j: int| 0 <= j < after.drop_last().len() implies after.drop_last()[j] == before.drop_last()[j] by {
                assert(after[j] == before[j]);
            }
        }
        lemma_records_dom(before.drop_last());
        assert(records(before).insert(before[i].0@, after[i].1@) =~= records(before.drop_last()).insert(
            before[i].0@,
            after[i].1@,
        ));
    } else {
        assert forall|j: int| 0 <= j < before.drop_last().len() && j != i implies #[trigger] after.drop_last()[j]
            == before.drop_last()[j] by {
            assert(after[j] == before[j]);
        }
        lemma_records_update(before.drop_last(), i, after.drop_last());
        assert(after.last() == before.last());
        assert(before.last().0@ != before[i].0@);
        assert(records(after) =~= records(before).insert(before[i].0@, after[i].1@));
    }
}


/// A bridge just created accepts an IP configuration, and afterwards its record holds
/// that configuration and otherwise what creation recorded.
pub proof fn law_create_then_configure_ip(before: Map<Seq<char>, BridgeView>, name: Seq<char>, uplink: Option<Seq<char>>, ip: IpView)
    ensures
        ({
            let created = before.insert(name, new_record(name, uplink));
            &&& created.dom().contains(name)
            &&& created.insert(name, BridgeView { ip_config: Some(ip), ..created[name] })[name] == BridgeView {
                ip_config: Some(ip),
                ..new_record(name, uplink)
            }
        }),
{
}
} // verus!
