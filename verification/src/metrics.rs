//! The exporter's fixed set of gauges, the update that folds one cycle's
//! snapshots into the registry, and the all-or-nothing refresh cycle.

use vstd::prelude::*;
use vstd::string::StringExecFns;
use crate::data::{CoreData, Node, NodeUsage, NodeUsageResponse, SystemData, User, UserResponse};
use crate::error::APIError;
use crate::registry::{
    EntryModel, FamilyModel, MetricFamily, Registry, family_arity, family_index, family_wf,
    gauge_of, has_family, lemma_family_index_unique, lemma_set_preserves_others,
    lemma_set_reads_back, registry_wf, set_model, set_entry_model, has_entry, entry_index,
};
use crate::text::{dec_digits, push_u64};
use crate::value::GaugeValue;

verus! {

/// A family as it stands right after declaration: no entries yet.
pub open spec fn init_family(
    name: Seq<char>,
    help: Seq<char>,
    label_names: Seq<Seq<char>>,
) -> FamilyModel {
    FamilyModel { name: name, help: help, label_names: label_names, entries: Seq::empty() }
}

/// Every gauge this exporter declares, in declaration order, with its help
/// text and label schema.
pub open spec fn exporter_init() -> Seq<FamilyModel> {
    seq![
        init_family("node_usage_coefficient"@, "Node usage coefficient"@, seq!["node_name"@]),
        init_family("node_uplink"@, "Node uplink bandwidth in bytes"@, seq!["node_name"@]),
        init_family("node_downlink"@, "Node downlink bandwidth in bytes"@, seq!["node_name"@]),
        init_family(
            "node_version_info"@,
            "Node version information"@,
            seq!["node_name"@, "xray_version"@, "status"@, "address"@, "port"@, "api_port"@],
        ),
        init_family("system_mem_total"@, "Total memory in bytes"@, Seq::empty()),
        init_family("system_mem_used"@, "Used memory in bytes"@, Seq::empty()),
        init_family("system_cpu_cores"@, "Number of CPU cores"@, Seq::empty()),
        init_family("system_cpu_usage"@, "CPU usage percentage"@, Seq::empty()),
        init_family("system_total_user"@, "Total number of users"@, Seq::empty()),
        init_family("system_users_active"@, "Number of active users"@, Seq::empty()),
        init_family("system_incoming_bandwidth"@, "Incoming bandwidth in bytes"@, Seq::empty()),
        init_family("system_outgoing_bandwidth"@, "Outgoing bandwidth in bytes"@, Seq::empty()),
        init_family(
            "system_incoming_bandwidth_speed"@,
            "Incoming bandwidth speed in bytes per second"@,
            Seq::empty(),
        ),
        init_family(
            "system_outgoing_bandwidth_speed"@,
            "Outgoing bandwidth speed in bytes per second"@,
            Seq::empty(),
        ),
        init_family("system_version_info"@, "System version information"@, seq!["version"@]),
        init_family("core_started"@, "Core started status"@, Seq::empty()),
        init_family("core_version_info"@, "Core version information"@, seq!["version"@]),
        init_family(
            "user_used_traffic"@,
            "User used traffic in bytes"@,
            seq!["username"@, "status"@],
        ),
    ]
}

/// Whether a registry carries exactly the exporter's declared names and label
/// schemas, in order. The entries may hold anything.
pub open spec fn exporter_layout(fams: Seq<FamilyModel>) -> bool {
    &&& fams.len() == exporter_init().len()
    &&& forall|i: int|
        0 <= i < fams.len() ==> (#[trigger] fams[i]).name == exporter_init()[i].name
            && fams[i].label_names == exporter_init()[i].label_names
}

/// The exporter's declared names are pairwise distinct, and its initial
/// registry is well formed.
pub proof fn lemma_exporter_init_wf()
    ensures
        registry_wf(exporter_init()),
{
    reveal_strlit("node_usage_coefficient");
    reveal_strlit("node_uplink");
    reveal_strlit("node_downlink");
    reveal_strlit("node_version_info");
    reveal_strlit("system_mem_total");
    reveal_strlit("system_mem_used");
    reveal_strlit("system_cpu_cores");
    reveal_strlit("system_cpu_usage");
    reveal_strlit("system_total_user");
    reveal_strlit("system_users_active");
    reveal_strlit("system_incoming_bandwidth");
    reveal_strlit("system_outgoing_bandwidth");
    reveal_strlit("system_incoming_bandwidth_speed");
    reveal_strlit("system_outgoing_bandwidth_speed");
    reveal_strlit("system_version_info");
    reveal_strlit("core_started");
    reveal_strlit("core_version_info");
    reveal_strlit("user_used_traffic");
    assert forall|i: int, j: int|
        0 <= i < j < exporter_init().len() implies exporter_init()[i].name
        != exporter_init()[j].name by {
        assert(exporter_init()[i].name.len() != exporter_init()[j].name.len()
            || exporter_init()[i].name[7] != exporter_init()[j].name[7]
            || exporter_init()[i].name[0] != exporter_init()[j].name[0]
            || exporter_init()[i].name[5] != exporter_init()[j].name[5]
            || exporter_init()[i].name[11] != exporter_init()[j].name[11]);
    }
}

/// A fresh family record with the given schema and no entries.
fn make_family(name: &str, help: &str, label_names: Vec<String>) -> (f:
    MetricFamily)
    ensures
        f@ == init_family(name@, help@, label_names.deep_view()),
{
    let f = MetricFamily {
        name: String::from_str(name),
        help: String::from_str(help),
        label_names,
        entries: Vec::new(),
    };
    proof {
        assert(f@.entries =~= Seq::<EntryModel>::empty());
    }
    f
}

/// No labels.
fn labels0() -> (r: Vec<String>)
    ensures
        r.deep_view() == Seq::<Seq<char>>::empty(),
{
    let r: Vec<String> = Vec::new();
    proof {
        assert(r.deep_view() =~= Seq::<Seq<char>>::empty());
    }
    r
}

/// One label value.
fn labels1(a: String) -> (r: Vec<String>)
    ensures
        r.deep_view() == seq![a@],
{
    let ghost va = a@;
    let mut r: Vec<String> = Vec::new();
    r.push(a);
    proof {
        assert(r.deep_view() =~= seq![va]);
    }
    r
}

/// Two label values.
fn labels2(a: String, b: String) -> (r: Vec<String>)
    ensures
        r.deep_view() == seq![a@, b@],
{
    let ghost va = a@;
    let ghost vb = b@;
    let mut r: Vec<String> = Vec::new();
    r.push(a);
    r.push(b);
    proof {
        assert(r.deep_view() =~= seq![va, vb]);
    }
    r
}

/// Six label values.
fn labels6(a: String, b: String, c: String, d: String, e: String, f: String) -> (r: Vec<String>)
    ensures
        r.deep_view() == seq![a@, b@, c@, d@, e@, f@],
{
    let ghost va = a@;
    let ghost vb = b@;
    let ghost vc = c@;
    let ghost vd = d@;
    let ghost ve = e@;
    let ghost vf = f@;
    let mut r: Vec<String> = Vec::new();
    r.push(a);
    r.push(b);
    r.push(c);
    r.push(d);
    r.push(e);
    r.push(f);
    proof {
        assert(r.deep_view() =~= seq![va, vb, vc, vd, ve, vf]);
    }
    r
}

/// The decimal text of `n`, used for numeric label values.
fn u64_string(n: u64) -> (r: String)
    ensures
        r@ == dec_digits(n as nat),
{
    let mut r = String::new();
    push_u64(&mut r, n);
    r
}

/// An empty registry; the one the process creates at startup.
pub fn setup_metrics_registry() -> (r: Registry)
    ensures
        r@ == Seq::<FamilyModel>::empty(),
        r.wf(),
{
    Registry::new()
}

/// Declares every gauge the exporter exposes, with its help text and label
/// schema, into a fresh registry.
pub fn create_metrics(registry: &mut Registry)
    requires
        old(registry)@ == Seq::<FamilyModel>::empty(),
    ensures
        final(registry)@ == exporter_init(),
        final(registry).wf(),
        exporter_layout(final(registry)@),
{
    let mut fams: Vec<MetricFamily> = Vec::new();
    fams.push(
        make_family(
            "node_usage_coefficient",
            "Node usage coefficient",
            labels1(String::from_str("node_name")),
        ),
    );
    fams.push(
        make_family(
            "node_uplink",
            "Node uplink bandwidth in bytes",
            labels1(String::from_str("node_name")),
        ),
    );
    fams.push(
        make_family(
            "node_downlink",
            "Node downlink bandwidth in bytes",
            labels1(String::from_str("node_name")),
        ),
    );
    fams.push(
        make_family(
            "node_version_info",
            "Node version information",
            labels6(
                String::from_str("node_name"),
                String::from_str("xray_version"),
                String::from_str("status"),
                String::from_str("address"),
                String::from_str("port"),
                String::from_str("api_port"),
            ),
        ),
    );
    fams.push(make_family("system_mem_total", "Total memory in bytes", labels0()));
    fams.push(make_family("system_mem_used", "Used memory in bytes", labels0()));
    fams.push(make_family("system_cpu_cores", "Number of CPU cores", labels0()));
    fams.push(make_family("system_cpu_usage", "CPU usage percentage", labels0()));
    fams.push(make_family("system_total_user", "Total number of users", labels0()));
    fams.push(make_family("system_users_active", "Number of active users", labels0()));
    fams.push(make_family("system_incoming_bandwidth", "Incoming bandwidth in bytes", labels0()));
    fams.push(make_family("system_outgoing_bandwidth", "Outgoing bandwidth in bytes", labels0()));
    fams.push(
        make_family(
            "system_incoming_bandwidth_speed",
            "Incoming bandwidth speed in bytes per second",
            labels0(),
        ),
    );
    fams.push(
        make_family(
            "system_outgoing_bandwidth_speed",
            "Outgoing bandwidth speed in bytes per second",
            labels0(),
        ),
    );
    fams.push(
        make_family(
            "system_version_info",
            "System version information",
            labels1(String::from_str("version")),
        ),
    );
    fams.push(make_family("core_started", "Core started status", labels0()));
    fams.push(
        make_family(
            "core_version_info",
            "Core version information",
            labels1(String::from_str("version")),
        ),
    );
    fams.push(
        make_family(
            "user_used_traffic",
            "User used traffic in bytes",
            labels2(String::from_str("username"), String::from_str("status")),
        ),
    );
    registry.families = fams;
    proof {
        assert(registry@ =~= exporter_init());
        lemma_exporter_init_wf();
    }
}

/// The integer `n` as a gauge value.
pub open spec fn gv(n: u64) -> GaugeValue {
    GaugeValue { mantissa: n, scale: 0 }
}

/// The constant `1`, the value of every info-style marker gauge.
pub open spec fn one() -> GaugeValue {
    GaugeValue { mantissa: 1, scale: 0 }
}

/// One node folded in: its usage coefficient, and its version marker under
/// the full identifying label set.
pub open spec fn set_node(fams: Seq<FamilyModel>, n: Node) -> Seq<FamilyModel> {
    set_model(
        set_model(fams, "node_usage_coefficient"@, seq![n.name@], n.usage_coefficient),
        "node_version_info"@,
        seq![
            n.name@,
            n.xray_version@,
            n.status@,
            n.address@,
            dec_digits(n.port as nat),
            dec_digits(n.api_port as nat),
        ],
        one(),
    )
}

/// Every node folded in, in input order.
pub open spec fn update_nodes(fams: Seq<FamilyModel>, nodes: Seq<Node>) -> Seq<FamilyModel>
    decreases nodes.len(),
{
    if nodes.len() == 0 {
        fams
    } else {
        set_node(update_nodes(fams, nodes.drop_last()), nodes.last())
    }
}

/// One traffic record folded in: uplink and downlink under the node's name.
pub open spec fn set_usage(fams: Seq<FamilyModel>, u: NodeUsage) -> Seq<FamilyModel> {
    set_model(
        set_model(fams, "node_uplink"@, seq![u.node_name@], gv(u.uplink)),
        "node_downlink"@,
        seq![u.node_name@],
        gv(u.downlink),
    )
}

/// Every traffic record folded in, in input order.
pub open spec fn update_usages(fams: Seq<FamilyModel>, us: Seq<NodeUsage>) -> Seq<FamilyModel>
    decreases us.len(),
{
    if us.len() == 0 {
        fams
    } else {
        set_usage(update_usages(fams, us.drop_last()), us.last())
    }
}

/// The eleven system-wide scalars and the system version marker folded in.
pub open spec fn update_system(fams: Seq<FamilyModel>, s: SystemData) -> Seq<FamilyModel> {
    let f1 = set_model(fams, "system_mem_total"@, Seq::empty(), gv(s.mem_total));
    let f2 = set_model(f1, "system_mem_used"@, Seq::empty(), gv(s.mem_used));
    let f3 = set_model(f2, "system_cpu_cores"@, Seq::empty(), gv(s.cpu_cores as u64));
    let f4 = set_model(f3, "system_cpu_usage"@, Seq::empty(), s.cpu_usage);
    let f5 = set_model(f4, "system_total_user"@, Seq::empty(), gv(s.total_user as u64));
    let f6 = set_model(f5, "system_users_active"@, Seq::empty(), gv(s.users_active as u64));
    let f7 = set_model(f6, "system_incoming_bandwidth"@, Seq::empty(), gv(s.incoming_bandwidth));
    let f8 = set_model(f7, "system_outgoing_bandwidth"@, Seq::empty(), gv(s.outgoing_bandwidth));
    let f9 = set_model(
        f8,
        "system_incoming_bandwidth_speed"@,
        Seq::empty(),
        gv(s.incoming_bandwidth_speed),
    );
    let f10 = set_model(
        f9,
        "system_outgoing_bandwidth_speed"@,
        Seq::empty(),
        gv(s.outgoing_bandwidth_speed),
    );
    set_model(f10, "system_version_info"@, seq![s.version@], one())
}

/// The core flag and version marker folded in.
pub open spec fn update_core(fams: Seq<FamilyModel>, c: CoreData) -> Seq<FamilyModel> {
    set_model(
        set_model(fams, "core_started"@, Seq::empty(), gv(if c.started { 1u64 } else { 0u64 })),
        "core_version_info"@,
        seq![c.version@],
        one(),
    )
}

/// One user's traffic folded in, under the user's name and status.
pub open spec fn set_user(fams: Seq<FamilyModel>, u: User) -> Seq<FamilyModel> {
    set_model(fams, "user_used_traffic"@, seq![u.username@, u.status@], gv(u.used_traffic))
}

/// Every user folded in, in input order.
pub open spec fn update_users(fams: Seq<FamilyModel>, us: Seq<User>) -> Seq<FamilyModel>
    decreases us.len(),
{
    if us.len() == 0 {
        fams
    } else {
        set_user(update_users(fams, us.drop_last()), us.last())
    }
}

/// One whole refresh cycle folded into the registry: nodes, then traffic,
/// then system, then core, then users, each a pure overwrite-by-value.
pub open spec fn update_model(
    fams: Seq<FamilyModel>,
    nodes: Seq<Node>,
    usages: Seq<NodeUsage>,
    s: SystemData,
    c: CoreData,
    us: Seq<User>,
) -> Seq<FamilyModel> {
    update_users(update_core(update_system(update_usages(update_nodes(fams, nodes), usages), s), c), us)
}

/// Setting a gauge keeps the registry well formed, provided the value is
/// renderable and the labels fit the family's schema.
pub proof fn lemma_set_model_wf(
    fams: Seq<FamilyModel>,
    name: Seq<char>,
    labels: Seq<Seq<char>>,
    v: GaugeValue,
)
    requires
        registry_wf(fams),
        v.wf(),
        has_family(fams, name) ==> family_arity(fams, name) == labels.len(),
    ensures
        registry_wf(set_model(fams, name, labels, v)),
{
    if has_family(fams, name) {
        let fi = family_index(fams, name);
        let f = fams[fi];
        let g = set_entry_model(f, labels, v);
        let after = set_model(fams, name, labels, v);
        assert(family_wf(g)) by {
            if has_entry(f, labels) {
                let ei = entry_index(f, labels);
                assert forall|m: int|
                    0 <= m < g.entries.len() implies (#[trigger] g.entries[m]).labels.len()
                    == g.label_names.len() && g.entries[m].value.wf() by {
                    if m != ei {
                        assert(g.entries[m] == f.entries[m]);
                    }
                }
                assert forall|m: int, n: int|
                    0 <= m < n < g.entries.len() implies g.entries[m].labels
                    != g.entries[n].labels by {
                    assert(f.entries[ei].labels == labels);
                    if m != ei {
                        assert(g.entries[m] == f.entries[m]);
                    }
                    if n != ei {
                        assert(g.entries[n] == f.entries[n]);
                    }
                }
            } else {
                assert forall|m: int|
                    0 <= m < g.entries.len() implies (#[trigger] g.entries[m]).labels.len()
                    == g.label_names.len() && g.entries[m].value.wf() by {
                    if m < f.entries.len() {
                        assert(g.entries[m] == f.entries[m]);
                    }
                }
                assert forall|m: int, n: int|
                    0 <= m < n < g.entries.len() implies g.entries[m].labels
                    != g.entries[n].labels by {
                    if n < f.entries.len() {
                        assert(g.entries[m] == f.entries[m]);
                        assert(g.entries[n] == f.entries[n]);
                    } else {
                        assert(g.entries[m] == f.entries[m]);
                        assert(g.entries[n].labels == labels);
                        if f.entries[m].labels == labels {
                            assert(has_entry(f, labels));
                        }
                    }
                }
            }
        }
        assert forall|k: int| 0 <= k < after.len() implies family_wf(#[trigger] after[k]) by {
            if k != fi {
                assert(after[k] == fams[k]);
            }
        }
        assert forall|k: int, l: int|
            0 <= k < l < after.len() implies after[k].name != after[l].name by {
            assert(after[k].name == fams[k].name);
            assert(after[l].name == fams[l].name);
        }
    }
}

/// Setting a gauge never changes which families exist, their names, or their
/// label schemas.
pub proof fn lemma_set_model_layout(
    fams: Seq<FamilyModel>,
    name: Seq<char>,
    labels: Seq<Seq<char>>,
    v: GaugeValue,
)
    requires
        exporter_layout(fams),
    ensures
        exporter_layout(set_model(fams, name, labels, v)),
{
    let after = set_model(fams, name, labels, v);
    assert forall|i: int|
        0 <= i < after.len() implies (#[trigger] after[i]).name == exporter_init()[i].name
        && after[i].label_names == exporter_init()[i].label_names by {
        if has_family(fams, name) {
            let fi = family_index(fams, name);
            if i != fi {
                assert(after[i] == fams[i]);
            }
        }
    }
}

/// In a well-formed registry with the exporter's layout, slot `k` is found
/// under its declared name with its declared arity.
pub proof fn lemma_layout_slot(fams: Seq<FamilyModel>, k: int)
    requires
        registry_wf(fams),
        exporter_layout(fams),
        0 <= k < exporter_init().len(),
    ensures
        has_family(fams, exporter_init()[k].name),
        family_index(fams, exporter_init()[k].name) == k,
        family_arity(fams, exporter_init()[k].name) == exporter_init()[k].label_names.len(),
{
    assert(fams[k].name == exporter_init()[k].name);
    lemma_family_index_unique(fams, exporter_init()[k].name, k);
}

/// Sets one gauge whose slot in the exporter's layout is known, keeping the
/// layout.
fn set_gauge(
    registry: &mut Registry,
    name: &str,
    label_values: Vec<String>,
    value: GaugeValue,
    Ghost(k): Ghost<int>,
)
    requires
        old(registry).wf(),
        exporter_layout(old(registry)@),
        0 <= k < exporter_init().len(),
        name@ == exporter_init()[k].name,
        label_values.deep_view().len() == exporter_init()[k].label_names.len(),
        value.wf(),
    ensures
        final(registry).wf(),
        exporter_layout(final(registry)@),
        final(registry)@ == set_model(old(registry)@, name@, label_values.deep_view(), value),
{
    proof {
        lemma_layout_slot(registry@, k);
        assert(label_values.deep_view().len() == label_values@.len());
    }
    registry.set(name, label_values, value);
    proof {
        lemma_set_model_layout(old(registry)@, name@, label_values.deep_view(), value);
    }
}

/// Overwrites the registry's gauges from one cycle's snapshots: per-node
/// coefficients and version markers, per-node traffic, the system scalars and
/// version marker, the core flag and version marker, and per-user traffic.
/// Entries for label combinations not mentioned by the inputs keep their
/// previous values.
pub fn update_metrics(
    registry: &mut Registry,
    nodes: &Vec<Node>,
    node_usages: &NodeUsageResponse,
    system_data: &SystemData,
    core_data: &CoreData,
    users: &UserResponse,
)
    requires
        old(registry).wf(),
        exporter_layout(old(registry)@),
        forall|i: int|
            0 <= i < nodes@.len() ==> (#[trigger] nodes@[i]).usage_coefficient.wf(),
        system_data.cpu_usage.wf(),
    ensures
        final(registry).wf(),
        exporter_layout(final(registry)@),
        final(registry)@ == update_model(
            old(registry)@,
            nodes@,
            node_usages.usages@,
            *system_data,
            *core_data,
            users.users@,
        ),
{
    let ghost s0 = registry@;
    let mut i: usize = 0;
    while i < nodes.len()
        invariant
            registry.wf(),
            exporter_layout(registry@),
            i <= nodes@.len(),
            forall|j: int|
                0 <= j < nodes@.len() ==> (#[trigger] nodes@[j]).usage_coefficient.wf(),
            registry@ == update_nodes(s0, nodes@.take(i as int)),
        decreases nodes@.len() - i,
    {
        let n = &nodes[i];
        set_gauge(
            registry,
            "node_usage_coefficient",
            labels1(n.name.clone()),
            n.usage_coefficient,
            Ghost(0),
        );
        set_gauge(
            registry,
            "node_version_info",
            labels6(
                n.name.clone(),
                n.xray_version.clone(),
                n.status.clone(),
                n.address.clone(),
                u64_string(n.port as u64),
                u64_string(n.api_port as u64),
            ),
            GaugeValue::from_u64(1),
            Ghost(3),
        );
        proof {
            assert(nodes@.take(i as int + 1).drop_last() =~= nodes@.take(i as int));
            assert(registry@ == update_nodes(s0, nodes@.take(i as int + 1)));
        }
        i = i + 1;
    }
    proof {
        assert(nodes@.take(nodes@.len() as int) =~= nodes@);
    }
    let ghost s1 = registry@;
    let mut i: usize = 0;
    while i < node_usages.usages.len()
        invariant
            registry.wf(),
            exporter_layout(registry@),
            i <= node_usages.usages@.len(),
            registry@ == update_usages(s1, node_usages.usages@.take(i as int)),
        decreases node_usages.usages@.len() - i,
    {
        let u = &node_usages.usages[i];
        set_gauge(
            registry,
            "node_uplink",
            labels1(u.node_name.clone()),
            GaugeValue::from_u64(u.uplink),
            Ghost(1),
        );
        set_gauge(
            registry,
            "node_downlink",
            labels1(u.node_name.clone()),
            GaugeValue::from_u64(u.downlink),
            Ghost(2),
        );
        proof {
            assert(node_usages.usages@.take(i as int + 1).drop_last() =~= node_usages.usages@.take(
                i as int,
            ));
            assert(registry@ == update_usages(s1, node_usages.usages@.take(i as int + 1)));
        }
        i = i + 1;
    }
    proof {
        assert(node_usages.usages@.take(node_usages.usages@.len() as int)
            =~= node_usages.usages@);
    }
    let ghost s2 = registry@;
    set_gauge(
        registry,
        "system_mem_total",
        labels0(),
        GaugeValue::from_u64(system_data.mem_total),
        Ghost(4),
    );
    set_gauge(
        registry,
        "system_mem_used",
        labels0(),
        GaugeValue::from_u64(system_data.mem_used),
        Ghost(5),
    );
    set_gauge(
        registry,
        "system_cpu_cores",
        labels0(),
        GaugeValue::from_u64(system_data.cpu_cores as u64),
        Ghost(6),
    );
    set_gauge(registry, "system_cpu_usage", labels0(), system_data.cpu_usage, Ghost(7));
    set_gauge(
        registry,
        "system_total_user",
        labels0(),
        GaugeValue::from_u64(system_data.total_user as u64),
        Ghost(8),
    );
    set_gauge(
        registry,
        "system_users_active",
        labels0(),
        GaugeValue::from_u64(system_data.users_active as u64),
        Ghost(9),
    );
    set_gauge(
        registry,
        "system_incoming_bandwidth",
        labels0(),
        GaugeValue::from_u64(system_data.incoming_bandwidth),
        Ghost(10),
    );
    set_gauge(
        registry,
        "system_outgoing_bandwidth",
        labels0(),
        GaugeValue::from_u64(system_data.outgoing_bandwidth),
        Ghost(11),
    );
    set_gauge(
        registry,
        "system_incoming_bandwidth_speed",
        labels0(),
        GaugeValue::from_u64(system_data.incoming_bandwidth_speed),
        Ghost(12),
    );
    set_gauge(
        registry,
        "system_outgoing_bandwidth_speed",
        labels0(),
        GaugeValue::from_u64(system_data.outgoing_bandwidth_speed),
        Ghost(13),
    );
    set_gauge(
        registry,
        "system_version_info",
        labels1(system_data.version.clone()),
        GaugeValue::from_u64(1),
        Ghost(14),
    );
    proof {
        assert(registry@ == update_system(s2, *system_data));
    }
    let ghost s3 = registry@;
    set_gauge(
        registry,
        "core_started",
        labels0(),
        GaugeValue::from_bool(core_data.started),
        Ghost(15),
    );
    set_gauge(
        registry,
        "core_version_info",
        labels1(core_data.version.clone()),
        GaugeValue::from_u64(1),
        Ghost(16),
    );
    proof {
        assert(registry@ == update_core(s3, *core_data));
    }
    let ghost s4 = registry@;
    let mut i: usize = 0;
    while i < users.users.len()
        invariant
            registry.wf(),
            exporter_layout(registry@),
            i <= users.users@.len(),
            registry@ == update_users(s4, users.users@.take(i as int)),
        decreases users.users@.len() - i,
    {
        let u = &users.users[i];
        set_gauge(
            registry,
            "user_used_traffic",
            labels2(u.username.clone(), u.status.clone()),
            GaugeValue::from_u64(u.used_traffic),
            Ghost(17),
        );
        proof {
            assert(users.users@.take(i as int + 1).drop_last() =~= users.users@.take(i as int));
            assert(registry@ == update_users(s4, users.users@.take(i as int + 1)));
        }
        i = i + 1;
    }
    proof {
        assert(users.users@.take(users.users@.len() as int) =~= users.users@);
    }
}

/// One refresh cycle's decision: feed the registry only when every one of the
/// five fetches succeeded; on any failure, surface the first error in fetch
/// order and leave every gauge exactly as it was.
pub fn run_cycle(
    registry: &mut Registry,
    nodes: Result<Vec<Node>, APIError>,
    node_usages: Result<NodeUsageResponse, APIError>,
    system_data: Result<SystemData, APIError>,
    core_data: Result<CoreData, APIError>,
    users: Result<UserResponse, APIError>,
) -> (r: Result<(), APIError>)
    requires
        old(registry).wf(),
        exporter_layout(old(registry)@),
        nodes is Ok ==> forall|i: int|
            0 <= i < nodes->Ok_0@.len() ==> (#[trigger] nodes->Ok_0@[i]).usage_coefficient.wf(),
        system_data is Ok ==> system_data->Ok_0.cpu_usage.wf(),
    ensures
        final(registry).wf(),
        exporter_layout(final(registry)@),
        r is Ok <==> (nodes is Ok && node_usages is Ok && system_data is Ok && core_data is Ok
            && users is Ok),
        r is Ok ==> final(registry)@ == update_model(
            old(registry)@,
            nodes->Ok_0@,
            node_usages->Ok_0.usages@,
            system_data->Ok_0,
            core_data->Ok_0,
            users->Ok_0.users@,
        ),
        r is Err ==> final(registry)@ == old(registry)@,
        nodes is Err ==> r == Err::<(), APIError>(nodes->Err_0),
        nodes is Ok && node_usages is Err ==> r == Err::<(), APIError>(node_usages->Err_0),
        nodes is Ok && node_usages is Ok && system_data is Err ==> r == Err::<(), APIError>(
            system_data->Err_0,
        ),
        nodes is Ok && node_usages is Ok && system_data is Ok && core_data is Err ==> r == Err::<
            (),
            APIError,
        >(core_data->Err_0),
        nodes is Ok && node_usages is Ok && system_data is Ok && core_data is Ok && users is Err
            ==> r == Err::<(), APIError>(users->Err_0),
{
    let nodes = match nodes {
        Ok(v) => v,
        Err(e) => { return Err(e); },
    };
    let node_usages = match node_usages {
        Ok(v) => v,
        Err(e) => { return Err(e); },
    };
    let system_data = match system_data {
        Ok(v) => v,
        Err(e) => { return Err(e); },
    };
    let core_data = match core_data {
        Ok(v) => v,
        Err(e) => { return Err(e); },
    };
    let users = match users {
        Ok(v) => v,
        Err(e) => { return Err(e); },
    };
    update_metrics(registry, &nodes, &node_usages, &system_data, &core_data, &users);
    Ok(())
}


/// Folding any number of users in keeps the registry well formed and laid
/// out, and leaves every gauge not named `user_used_traffic` untouched.
pub proof fn lemma_users_fold_foreign(
    fams: Seq<FamilyModel>,
    us: Seq<User>,
    name: Seq<char>,
    labels: Seq<Seq<char>>,
)
    requires
        registry_wf(fams),
        exporter_layout(fams),
        name != "user_used_traffic"@,
    ensures
        registry_wf(update_users(fams, us)),
        exporter_layout(update_users(fams, us)),
        gauge_of(update_users(fams, us), name, labels) == gauge_of(fams, name, labels),
    decreases us.len(),
{
    if us.len() > 0 {
        lemma_users_fold_foreign(fams, us.drop_last(), name, labels);
        let prev = update_users(fams, us.drop_last());
        let u = us.last();
        lemma_layout_slot(prev, 17);
        lemma_set_model_wf(prev, "user_used_traffic"@, seq![u.username@, u.status@], gv(u.used_traffic));
        lemma_set_model_layout(prev, "user_used_traffic"@, seq![u.username@, u.status@], gv(u.used_traffic));
        lemma_set_preserves_others(prev, "user_used_traffic"@, seq![u.username@, u.status@], gv(u.used_traffic), name, labels);
    }
}

/// Folding any number of nodes in keeps the registry well formed and laid
/// out, and leaves every gauge named neither `node_usage_coefficient` nor
/// `node_version_info` untouched.
pub proof fn lemma_nodes_fold_foreign(
    fams: Seq<FamilyModel>,
    nodes: Seq<Node>,
    name: Seq<char>,
    labels: Seq<Seq<char>>,
)
    requires
        registry_wf(fams),
        exporter_layout(fams),
        forall|i: int| 0 <= i < nodes.len() ==> (#[trigger] nodes[i]).usage_coefficient.wf(),
        name != "node_usage_coefficient"@,
        name != "node_version_info"@,
    ensures
        registry_wf(update_nodes(fams, nodes)),
        exporter_layout(update_nodes(fams, nodes)),
        gauge_of(update_nodes(fams, nodes), name, labels) == gauge_of(fams, name, labels),
    decreases nodes.len(),
{
    if nodes.len() > 0 {
        lemma_nodes_fold_foreign(fams, nodes.drop_last(), name, labels);
        let prev = update_nodes(fams, nodes.drop_last());
        let n = nodes.last();
        let coeff_labels = seq![n.name@];
        let info_labels = seq![
            n.name@,
            n.xray_version@,
            n.status@,
            n.address@,
            dec_digits(n.port as nat),
            dec_digits(n.api_port as nat),
        ];
        lemma_layout_slot(prev, 0);
        lemma_set_model_wf(prev, "node_usage_coefficient"@, coeff_labels, n.usage_coefficient);
        lemma_set_model_layout(prev, "node_usage_coefficient"@, coeff_labels, n.usage_coefficient);
        lemma_set_preserves_others(prev, "node_usage_coefficient"@, coeff_labels, n.usage_coefficient, name, labels);
        let mid = set_model(prev, "node_usage_coefficient"@, coeff_labels, n.usage_coefficient);
        lemma_layout_slot(mid, 3);
        lemma_set_model_wf(mid, "node_version_info"@, info_labels, one());
        lemma_set_model_layout(mid, "node_version_info"@, info_labels, one());
        lemma_set_preserves_others(mid, "node_version_info"@, info_labels, one(), name, labels);
    }
}

/// Folding any number of traffic records in keeps the registry well formed
/// and laid out, and leaves every gauge named neither `node_uplink` nor
/// `node_downlink` untouched.
pub proof fn lemma_usages_fold_foreign(
    fams: Seq<FamilyModel>,
    us: Seq<NodeUsage>,
    name: Seq<char>,
    labels: Seq<Seq<char>>,
)
    requires
        registry_wf(fams),
        exporter_layout(fams),
        name != "node_uplink"@,
        name != "node_downlink"@,
    ensures
        registry_wf(update_usages(fams, us)),
        exporter_layout(update_usages(fams, us)),
        gauge_of(update_usages(fams, us), name, labels) == gauge_of(fams, name, labels),
    decreases us.len(),
{
    if us.len() > 0 {
        lemma_usages_fold_foreign(fams, us.drop_last(), name, labels);
        let prev = update_usages(fams, us.drop_last());
        let u = us.last();
        lemma_layout_slot(prev, 1);
        lemma_set_model_wf(prev, "node_uplink"@, seq![u.node_name@], gv(u.uplink));
        lemma_set_model_layout(prev, "node_uplink"@, seq![u.node_name@], gv(u.uplink));
        lemma_set_preserves_others(prev, "node_uplink"@, seq![u.node_name@], gv(u.uplink), name, labels);
        let mid = set_model(prev, "node_uplink"@, seq![u.node_name@], gv(u.uplink));
        lemma_layout_slot(mid, 2);
        lemma_set_model_wf(mid, "node_downlink"@, seq![u.node_name@], gv(u.downlink));
        lemma_set_model_layout(mid, "node_downlink"@, seq![u.node_name@], gv(u.downlink));
        lemma_set_preserves_others(mid, "node_downlink"@, seq![u.node_name@], gv(u.downlink), name, labels);
    }
}

/// After a whole successful cycle, the system gauges read exactly the
/// cycle's system snapshot — the memory totals as given, the CPU percentage
/// as the exact decimal that was fetched — and the core flag reads the
/// cycle's core status. Values from earlier cycles cannot shine through.
pub proof fn lemma_cycle_reflects(
    fams: Seq<FamilyModel>,
    nodes: Seq<Node>,
    usages: Seq<NodeUsage>,
    s: SystemData,
    c: CoreData,
    us: Seq<User>,
)
    requires
        registry_wf(fams),
        exporter_layout(fams),
        s.cpu_usage.wf(),
        forall|i: int| 0 <= i < nodes.len() ==> (#[trigger] nodes[i]).usage_coefficient.wf(),
    ensures
        gauge_of(update_model(fams, nodes, usages, s, c, us), "system_mem_total"@, Seq::empty())
            == Some(gv(s.mem_total)),
        gauge_of(update_model(fams, nodes, usages, s, c, us), "system_mem_used"@, Seq::empty())
            == Some(gv(s.mem_used)),
        gauge_of(update_model(fams, nodes, usages, s, c, us), "system_cpu_usage"@, Seq::empty())
            == Some(s.cpu_usage),
        gauge_of(update_model(fams, nodes, usages, s, c, us), "core_started"@, Seq::empty())
            == Some(gv(if c.started { 1u64 } else { 0u64 })),
{
    lemma_exporter_init_wf();
    let a1 = update_nodes(fams, nodes);
    lemma_nodes_fold_foreign(fams, nodes, "system_mem_total"@, Seq::empty());
    let a2 = update_usages(a1, usages);
    lemma_usages_fold_foreign(a1, usages, "system_mem_total"@, Seq::empty());
    // within update_system: each target is stored at its own step and kept by
    // every later one
    let f1 = set_model(a2, "system_mem_total"@, Seq::empty(), gv(s.mem_total));
    let f2 = set_model(f1, "system_mem_used"@, Seq::empty(), gv(s.mem_used));
    let f3 = set_model(f2, "system_cpu_cores"@, Seq::empty(), gv(s.cpu_cores as u64));
    let f4 = set_model(f3, "system_cpu_usage"@, Seq::empty(), s.cpu_usage);
    let f5 = set_model(f4, "system_total_user"@, Seq::empty(), gv(s.total_user as u64));
    let f6 = set_model(f5, "system_users_active"@, Seq::empty(), gv(s.users_active as u64));
    let f7 = set_model(f6, "system_incoming_bandwidth"@, Seq::empty(), gv(s.incoming_bandwidth));
    let f8 = set_model(f7, "system_outgoing_bandwidth"@, Seq::empty(), gv(s.outgoing_bandwidth));
    let f9 = set_model(f8, "system_incoming_bandwidth_speed"@, Seq::empty(), gv(s.incoming_bandwidth_speed));
    let f10 = set_model(f9, "system_outgoing_bandwidth_speed"@, Seq::empty(), gv(s.outgoing_bandwidth_speed));
    let f11 = set_model(f10, "system_version_info"@, seq![s.version@], one());
    assert(f11 == update_system(a2, s));
    lemma_layout_slot(a2, 4);
    lemma_set_reads_back(a2, "system_mem_total"@, Seq::empty(), gv(s.mem_total));
    lemma_set_model_wf(a2, "system_mem_total"@, Seq::empty(), gv(s.mem_total));
    lemma_set_model_layout(a2, "system_mem_total"@, Seq::empty(), gv(s.mem_total));
    lemma_layout_slot(f1, 5);
    lemma_set_reads_back(f1, "system_mem_used"@, Seq::empty(), gv(s.mem_used));
    lemma_set_preserves_others(f1, "system_mem_used"@, Seq::empty(), gv(s.mem_used), "system_mem_total"@, Seq::empty());
    lemma_set_model_wf(f1, "system_mem_used"@, Seq::empty(), gv(s.mem_used));
    lemma_set_model_layout(f1, "system_mem_used"@, Seq::empty(), gv(s.mem_used));
    lemma_layout_slot(f2, 6);
    lemma_set_preserves_others(f2, "system_cpu_cores"@, Seq::empty(), gv(s.cpu_cores as u64), "system_mem_total"@, Seq::empty());
    lemma_set_preserves_others(f2, "system_cpu_cores"@, Seq::empty(), gv(s.cpu_cores as u64), "system_mem_used"@, Seq::empty());
    lemma_set_model_wf(f2, "system_cpu_cores"@, Seq::empty(), gv(s.cpu_cores as u64));
    lemma_set_model_layout(f2, "system_cpu_cores"@, Seq::empty(), gv(s.cpu_cores as u64));
    lemma_layout_slot(f3, 7);
    lemma_set_reads_back(f3, "system_cpu_usage"@, Seq::empty(), s.cpu_usage);
    lemma_set_preserves_others(f3, "system_cpu_usage"@, Seq::empty(), s.cpu_usage, "system_mem_total"@, Seq::empty());
    lemma_set_preserves_others(f3, "system_cpu_usage"@, Seq::empty(), s.cpu_usage, "system_mem_used"@, Seq::empty());
    lemma_set_model_wf(f3, "system_cpu_usage"@, Seq::empty(), s.cpu_usage);
    lemma_set_model_layout(f3, "system_cpu_usage"@, Seq::empty(), s.cpu_usage);
    lemma_layout_slot(f4, 8);
    lemma_set_preserves_others(f4, "system_total_user"@, Seq::empty(), gv(s.total_user as u64), "system_mem_total"@, Seq::empty());
    lemma_set_preserves_others(f4, "system_total_user"@, Seq::empty(), gv(s.total_user as u64), "system_mem_used"@, Seq::empty());
    lemma_set_preserves_others(f4, "system_total_user"@, Seq::empty(), gv(s.total_user as u64), "system_cpu_usage"@, Seq::empty());
    lemma_set_model_wf(f4, "system_total_user"@, Seq::empty(), gv(s.total_user as u64));
    lemma_set_model_layout(f4, "system_total_user"@, Seq::empty(), gv(s.total_user as u64));
    lemma_layout_slot(f5, 9);
    lemma_set_preserves_others(f5, "system_users_active"@, Seq::empty(), gv(s.users_active as u64), "system_mem_total"@, Seq::empty());
    lemma_set_preserves_others(f5, "system_users_active"@, Seq::empty(), gv(s.users_active as u64), "system_mem_used"@, Seq::empty());
    lemma_set_preserves_others(f5, "system_users_active"@, Seq::empty(), gv(s.users_active as u64), "system_cpu_usage"@, Seq::empty());
    lemma_set_model_wf(f5, "system_users_active"@, Seq::empty(), gv(s.users_active as u64));
    lemma_set_model_layout(f5, "system_users_active"@, Seq::empty(), gv(s.users_active as u64));
    lemma_layout_slot(f6, 10);
    lemma_set_preserves_others(f6, "system_incoming_bandwidth"@, Seq::empty(), gv(s.incoming_bandwidth), "system_mem_total"@, Seq::empty());
    lemma_set_preserves_others(f6, "system_incoming_bandwidth"@, Seq::empty(), gv(s.incoming_bandwidth), "system_mem_used"@, Seq::empty());
    lemma_set_preserves_others(f6, "system_incoming_bandwidth"@, Seq::empty(), gv(s.incoming_bandwidth), "system_cpu_usage"@, Seq::empty());
    lemma_set_model_wf(f6, "system_incoming_bandwidth"@, Seq::empty(), gv(s.incoming_bandwidth));
    lemma_set_model_layout(f6, "system_incoming_bandwidth"@, Seq::empty(), gv(s.incoming_bandwidth));
    lemma_layout_slot(f7, 11);
    lemma_set_preserves_others(f7, "system_outgoing_bandwidth"@, Seq::empty(), gv(s.outgoing_bandwidth), "system_mem_total"@, Seq::empty());
    lemma_set_preserves_others(f7, "system_outgoing_bandwidth"@, Seq::empty(), gv(s.outgoing_bandwidth), "system_mem_used"@, Seq::empty());
    lemma_set_preserves_others(f7, "system_outgoing_bandwidth"@, Seq::empty(), gv(s.outgoing_bandwidth), "system_cpu_usage"@, Seq::empty());
    lemma_set_model_wf(f7, "system_outgoing_bandwidth"@, Seq::empty(), gv(s.outgoing_bandwidth));
    lemma_set_model_layout(f7, "system_outgoing_bandwidth"@, Seq::empty(), gv(s.outgoing_bandwidth));
    lemma_layout_slot(f8, 12);
    lemma_set_preserves_others(f8, "system_incoming_bandwidth_speed"@, Seq::empty(), gv(s.incoming_bandwidth_speed), "system_mem_total"@, Seq::empty());
    lemma_set_preserves_others(f8, "system_incoming_bandwidth_speed"@, Seq::empty(), gv(s.incoming_bandwidth_speed), "system_mem_used"@, Seq::empty());
    lemma_set_preserves_others(f8, "system_incoming_bandwidth_speed"@, Seq::empty(), gv(s.incoming_bandwidth_speed), "system_cpu_usage"@, Seq::empty());
    lemma_set_model_wf(f8, "system_incoming_bandwidth_speed"@, Seq::empty(), gv(s.incoming_bandwidth_speed));
    lemma_set_model_layout(f8, "system_incoming_bandwidth_speed"@, Seq::empty(), gv(s.incoming_bandwidth_speed));
    lemma_layout_slot(f9, 13);
    lemma_set_preserves_others(f9, "system_outgoing_bandwidth_speed"@, Seq::empty(), gv(s.outgoing_bandwidth_speed), "system_mem_total"@, Seq::empty());
    lemma_set_preserves_others(f9, "system_outgoing_bandwidth_speed"@, Seq::empty(), gv(s.outgoing_bandwidth_speed), "system_mem_used"@, Seq::empty());
    lemma_set_preserves_others(f9, "system_outgoing_bandwidth_speed"@, Seq::empty(), gv(s.outgoing_bandwidth_speed), "system_cpu_usage"@, Seq::empty());
    lemma_set_model_wf(f9, "system_outgoing_bandwidth_speed"@, Seq::empty(), gv(s.outgoing_bandwidth_speed));
    lemma_set_model_layout(f9, "system_outgoing_bandwidth_speed"@, Seq::empty(), gv(s.outgoing_bandwidth_speed));
    lemma_layout_slot(f10, 14);
    lemma_set_preserves_others(f10, "system_version_info"@, seq![s.version@], one(), "system_mem_total"@, Seq::empty());
    lemma_set_preserves_others(f10, "system_version_info"@, seq![s.version@], one(), "system_mem_used"@, Seq::empty());
    lemma_set_preserves_others(f10, "system_version_info"@, seq![s.version@], one(), "system_cpu_usage"@, Seq::empty());
    lemma_set_model_wf(f10, "system_version_info"@, seq![s.version@], one());
    lemma_set_model_layout(f10, "system_version_info"@, seq![s.version@], one());
    // core: the flag is stored, then kept by the version marker
    let g1 = set_model(f11, "core_started"@, Seq::empty(), gv(if c.started { 1u64 } else { 0u64 }));
    let g2 = set_model(g1, "core_version_info"@, seq![c.version@], one());
    assert(g2 == update_core(f11, c));
    lemma_layout_slot(f11, 15);
    lemma_set_reads_back(f11, "core_started"@, Seq::empty(), gv(if c.started { 1u64 } else { 0u64 }));
    lemma_set_preserves_others(f11, "core_started"@, Seq::empty(), gv(if c.started { 1u64 } else { 0u64 }), "system_mem_total"@, Seq::empty());
    lemma_set_preserves_others(f11, "core_started"@, Seq::empty(), gv(if c.started { 1u64 } else { 0u64 }), "system_mem_used"@, Seq::empty());
    lemma_set_preserves_others(f11, "core_started"@, Seq::empty(), gv(if c.started { 1u64 } else { 0u64 }), "system_cpu_usage"@, Seq::empty());
    lemma_set_model_wf(f11, "core_started"@, Seq::empty(), gv(if c.started { 1u64 } else { 0u64 }));
    lemma_set_model_layout(f11, "core_started"@, Seq::empty(), gv(if c.started { 1u64 } else { 0u64 }));
    lemma_layout_slot(g1, 16);
    lemma_set_preserves_others(g1, "core_version_info"@, seq![c.version@], one(), "system_mem_total"@, Seq::empty());
    lemma_set_preserves_others(g1, "core_version_info"@, seq![c.version@], one(), "system_mem_used"@, Seq::empty());
    lemma_set_preserves_others(g1, "core_version_info"@, seq![c.version@], one(), "system_cpu_usage"@, Seq::empty());
    lemma_set_preserves_others(g1, "core_version_info"@, seq![c.version@], one(), "core_started"@, Seq::empty());
    lemma_set_model_wf(g1, "core_version_info"@, seq![c.version@], one());
    lemma_set_model_layout(g1, "core_version_info"@, seq![c.version@], one());
    // users: a fold over a foreign name keeps all four targets
    lemma_users_fold_foreign(g2, us, "system_mem_total"@, Seq::empty());
    lemma_users_fold_foreign(g2, us, "system_mem_used"@, Seq::empty());
    lemma_users_fold_foreign(g2, us, "system_cpu_usage"@, Seq::empty());
    lemma_users_fold_foreign(g2, us, "core_started"@, Seq::empty());
}


/// The system and core stages keep the registry well formed and laid out.
pub proof fn lemma_system_core_wf(fams: Seq<FamilyModel>, s: SystemData, c: CoreData)
    requires
        registry_wf(fams),
        exporter_layout(fams),
        s.cpu_usage.wf(),
    ensures
        registry_wf(update_core(update_system(fams, s), c)),
        exporter_layout(update_core(update_system(fams, s), c)),
{
    let f1 = set_model(fams, "system_mem_total"@, Seq::empty(), gv(s.mem_total));
    lemma_layout_slot(fams, 4);
    lemma_set_model_wf(fams, "system_mem_total"@, Seq::empty(), gv(s.mem_total));
    lemma_set_model_layout(fams, "system_mem_total"@, Seq::empty(), gv(s.mem_total));
    let f2 = set_model(f1, "system_mem_used"@, Seq::empty(), gv(s.mem_used));
    lemma_layout_slot(f1, 5);
    lemma_set_model_wf(f1, "system_mem_used"@, Seq::empty(), gv(s.mem_used));
    lemma_set_model_layout(f1, "system_mem_used"@, Seq::empty(), gv(s.mem_used));
    let f3 = set_model(f2, "system_cpu_cores"@, Seq::empty(), gv(s.cpu_cores as u64));
    lemma_layout_slot(f2, 6);
    lemma_set_model_wf(f2, "system_cpu_cores"@, Seq::empty(), gv(s.cpu_cores as u64));
    lemma_set_model_layout(f2, "system_cpu_cores"@, Seq::empty(), gv(s.cpu_cores as u64));
    let f4 = set_model(f3, "system_cpu_usage"@, Seq::empty(), s.cpu_usage);
    lemma_layout_slot(f3, 7);
    lemma_set_model_wf(f3, "system_cpu_usage"@, Seq::empty(), s.cpu_usage);
    lemma_set_model_layout(f3, "system_cpu_usage"@, Seq::empty(), s.cpu_usage);
    let f5 = set_model(f4, "system_total_user"@, Seq::empty(), gv(s.total_user as u64));
    lemma_layout_slot(f4, 8);
    lemma_set_model_wf(f4, "system_total_user"@, Seq::empty(), gv(s.total_user as u64));
    lemma_set_model_layout(f4, "system_total_user"@, Seq::empty(), gv(s.total_user as u64));
    let f6 = set_model(f5, "system_users_active"@, Seq::empty(), gv(s.users_active as u64));
    lemma_layout_slot(f5, 9);
    lemma_set_model_wf(f5, "system_users_active"@, Seq::empty(), gv(s.users_active as u64));
    lemma_set_model_layout(f5, "system_users_active"@, Seq::empty(), gv(s.users_active as u64));
    let f7 = set_model(f6, "system_incoming_bandwidth"@, Seq::empty(), gv(s.incoming_bandwidth));
    lemma_layout_slot(f6, 10);
    lemma_set_model_wf(f6, "system_incoming_bandwidth"@, Seq::empty(), gv(s.incoming_bandwidth));
    lemma_set_model_layout(f6, "system_incoming_bandwidth"@, Seq::empty(), gv(s.incoming_bandwidth));
    let f8 = set_model(f7, "system_outgoing_bandwidth"@, Seq::empty(), gv(s.outgoing_bandwidth));
    lemma_layout_slot(f7, 11);
    lemma_set_model_wf(f7, "system_outgoing_bandwidth"@, Seq::empty(), gv(s.outgoing_bandwidth));
    lemma_set_model_layout(f7, "system_outgoing_bandwidth"@, Seq::empty(), gv(s.outgoing_bandwidth));
    let f9 = set_model(f8, "system_incoming_bandwidth_speed"@, Seq::empty(), gv(s.incoming_bandwidth_speed));
    lemma_layout_slot(f8, 12);
    lemma_set_model_wf(f8, "system_incoming_bandwidth_speed"@, Seq::empty(), gv(s.incoming_bandwidth_speed));
    lemma_set_model_layout(f8, "system_incoming_bandwidth_speed"@, Seq::empty(), gv(s.incoming_bandwidth_speed));
    let f10 = set_model(f9, "system_outgoing_bandwidth_speed"@, Seq::empty(), gv(s.outgoing_bandwidth_speed));
    lemma_layout_slot(f9, 13);
    lemma_set_model_wf(f9, "system_outgoing_bandwidth_speed"@, Seq::empty(), gv(s.outgoing_bandwidth_speed));
    lemma_set_model_layout(f9, "system_outgoing_bandwidth_speed"@, Seq::empty(), gv(s.outgoing_bandwidth_speed));
    let f11 = set_model(f10, "system_version_info"@, seq![s.version@], one());
    lemma_layout_slot(f10, 14);
    lemma_set_model_wf(f10, "system_version_info"@, seq![s.version@], one());
    lemma_set_model_layout(f10, "system_version_info"@, seq![s.version@], one());
    assert(f11 == update_system(fams, s));
    let g1 = set_model(f11, "core_started"@, Seq::empty(), gv(if c.started { 1u64 } else { 0u64 }));
    lemma_layout_slot(f11, 15);
    lemma_set_model_wf(f11, "core_started"@, Seq::empty(), gv(if c.started { 1u64 } else { 0u64 }));
    lemma_set_model_layout(f11, "core_started"@, Seq::empty(), gv(if c.started { 1u64 } else { 0u64 }));
    let g2 = set_model(g1, "core_version_info"@, seq![c.version@], one());
    lemma_layout_slot(g1, 16);
    lemma_set_model_wf(g1, "core_version_info"@, seq![c.version@], one());
    lemma_set_model_layout(g1, "core_version_info"@, seq![c.version@], one());
    assert(g2 == update_core(update_system(fams, s), c));
}

/// After folding users in, each user's traffic gauge holds the traffic of
/// that user's last occurrence in the input: a later record for the same
/// user and status supersedes an earlier one.
pub proof fn lemma_users_reflected(fams: Seq<FamilyModel>, us: Seq<User>, i: int)
    requires
        registry_wf(fams),
        exporter_layout(fams),
        0 <= i < us.len(),
        forall|j: int|
            i < j < us.len() ==> (us[j].username@ != us[i].username@ || us[j].status@
                != us[i].status@),
    ensures
        gauge_of(update_users(fams, us), "user_used_traffic"@, seq![us[i].username@, us[i].status@])
            == Some(gv(us[i].used_traffic)),
    decreases us.len(),
{
    lemma_exporter_init_wf();
    let prev = update_users(fams, us.drop_last());
    lemma_users_fold_foreign(fams, us.drop_last(), "core_started"@, Seq::empty());
    let u = us.last();
    lemma_layout_slot(prev, 17);
    if i == us.len() - 1 {
        lemma_set_reads_back(prev, "user_used_traffic"@, seq![u.username@, u.status@], gv(u.used_traffic));
    } else {
        lemma_users_reflected(fams, us.drop_last(), i);
        assert(seq![u.username@, u.status@] != seq![us[i].username@, us[i].status@]) by {
            if seq![u.username@, u.status@] == seq![us[i].username@, us[i].status@] {
                assert(seq![u.username@, u.status@][0] == seq![us[i].username@, us[i].status@][0]);
                assert(seq![u.username@, u.status@][1] == seq![us[i].username@, us[i].status@][1]);
            }
        }
        lemma_set_preserves_others(
            prev,
            "user_used_traffic"@,
            seq![u.username@, u.status@],
            gv(u.used_traffic),
            "user_used_traffic"@,
            seq![us[i].username@, us[i].status@],
        );
    }
}

/// After a whole successful cycle, each user's traffic gauge reads exactly
/// what the cycle fetched for that user's last occurrence.
pub proof fn lemma_cycle_reflects_users(
    fams: Seq<FamilyModel>,
    nodes: Seq<Node>,
    usages: Seq<NodeUsage>,
    s: SystemData,
    c: CoreData,
    us: Seq<User>,
    i: int,
)
    requires
        registry_wf(fams),
        exporter_layout(fams),
        s.cpu_usage.wf(),
        forall|k: int| 0 <= k < nodes.len() ==> (#[trigger] nodes[k]).usage_coefficient.wf(),
        0 <= i < us.len(),
        forall|j: int|
            i < j < us.len() ==> (us[j].username@ != us[i].username@ || us[j].status@
                != us[i].status@),
    ensures
        gauge_of(
            update_model(fams, nodes, usages, s, c, us),
            "user_used_traffic"@,
            seq![us[i].username@, us[i].status@],
        ) == Some(gv(us[i].used_traffic)),
{
    lemma_exporter_init_wf();
    lemma_nodes_fold_foreign(fams, nodes, "core_started"@, Seq::empty());
    let a1 = update_nodes(fams, nodes);
    lemma_usages_fold_foreign(a1, usages, "core_started"@, Seq::empty());
    let a2 = update_usages(a1, usages);
    lemma_system_core_wf(a2, s, c);
    lemma_users_reflected(update_core(update_system(a2, s), c), us, i);
}

} // verus!
