//! The `list` commands: packages, integration flows, service endpoints and
//! configuration parameters, from the service's answers to the rows shown.
use vstd::prelude::*;

use crate::adapters::{self, Adapter, adapter_columns};
use crate::auth::{is_success, status_ok};
use crate::text::{self, dec_string, owned, push_str, trim};
use crate::xml::{self, XmlNode, child_text_trimmed, desc_text_trimmed, first_child_named, first_desc_named, is_entry};

verus! {

pub open spec fn sv(o: Option<String>) -> Seq<char> {
    match o {
        Some(s) => s@,
        None => Seq::empty(),
    }
}

fn or_empty(o: &Option<String>) -> (r: String)
    ensures
        r@ == sv(*o),
{
    match o {
        Some(s) => s.clone(),
        None => String::new(),
    }
}

/// Appends the address of one of the API's collections to a tenant URL.
fn api_url(base_url: &str, path: &str) -> (r: String)
    ensures
        r@ == base_url@ + "/api/v1/"@ + path@,
{
    let mut r = owned(base_url);
    push_str(&mut r, "/api/v1/");
    push_str(&mut r, path);
    r
}

/// `[profile] n <what> found.`
pub fn found_line(profile: &str, n: usize, what: &str) -> (r: String)
    ensures
        r@ == "["@ + profile@ + "] "@ + text::dec(n as nat) + " "@ + what@ + " found."@,
{
    let mut r = owned("[");
    push_str(&mut r, profile);
    push_str(&mut r, "] ");
    push_str(&mut r, dec_string(n as u64).as_str());
    push_str(&mut r, " ");
    push_str(&mut r, what);
    push_str(&mut r, " found.");
    r
}

// ── packages ────────────────────────────────────────────────────────────────
/// An integration package as the service lists it.
#[derive(Debug)]
pub struct PackageRecord {
    pub id: String,
    pub name: String,
    pub vendor: String,
    pub mode: String,
}

/// A package as shown.
#[derive(Debug)]
pub struct PackageRow {
    pub name: String,
    pub vendor: String,
    pub mode: String,
}

/// The address that lists the integration packages.
pub fn packages_url(base_url: &str) -> (r: String)
    ensures
        r@ == base_url@ + "/api/v1/IntegrationPackages?$format=json"@,
{
    let r = api_url(base_url, "IntegrationPackages?$format=json");
    assert(r@ =~= base_url@ + "/api/v1/IntegrationPackages?$format=json"@) by {
        reveal_strlit("/api/v1/");
        reveal_strlit("IntegrationPackages?$format=json");
        reveal_strlit("/api/v1/IntegrationPackages?$format=json");
    }
    r
}

/// The packages as shown: name, vendor, mode, in the order listed.
pub fn package_rows(records: &Vec<PackageRecord>) -> (r: Vec<PackageRow>)
    ensures
        r@.len() == records@.len(),
        forall|i: int|
            0 <= i < r@.len() ==> (#[trigger] r@[i]).name@ == records@[i].name@ && r@[i].vendor@
                == records@[i].vendor@ && r@[i].mode@ == records@[i].mode@,
{
    let mut r: Vec<PackageRow> = Vec::new();
    let mut i: usize = 0;
    while i < records.len()
        invariant
            i <= records.len(),
            r@.len() == i,
            forall|k: int|
                0 <= k < i ==> (#[trigger] r@[k]).name@ == records@[k].name@ && r@[k].vendor@
                    == records@[k].vendor@ && r@[k].mode@ == records@[k].mode@,
        decreases records.len() - i,
    {
        let p = &records[i];
        r.push(PackageRow { name: p.name.clone(), vendor: p.vendor.clone(), mode: p.mode.clone() });
        i += 1;
    }
    r
}

// ── integration flows ───────────────────────────────────────────────────────
/// An integration flow as the service lists it.
#[derive(Debug)]
pub struct IflowRecord {
    pub id: Option<String>,
    pub name: Option<String>,
    pub version: Option<String>,
    pub sender: Option<String>,
    pub receiver: Option<String>,
}

/// A flow as shown by `list iflows`.
#[derive(Debug)]
pub struct IflowDisplayRow {
    pub name: String,
    pub version: String,
    pub sender: String,
    pub receiver: String,
    pub sender_adapter: String,
    pub receiver_adapter: String,
}

/// Why `list iflows` has no packages to read.
#[derive(Debug, Clone, Copy, PartialEq, Eq)]
pub enum ListError {
    EmptyPackageId,
    NoPackageChoice,
}

impl ListError {
    /// The message shown for the error.
    pub fn message(&self) -> (r: String)
        ensures
            r@ == match self {
                ListError::EmptyPackageId => "package_id cannot be empty"@,
                ListError::NoPackageChoice =>
                    "provide a package_id or use --all to fetch from all packages"@,
            },
    {
        match self {
            ListError::EmptyPackageId => owned("package_id cannot be empty"),
            ListError::NoPackageChoice => owned(
                "provide a package_id or use --all to fetch from all packages",
            ),
        }
    }
}

pub open spec fn package_ids(ps: Seq<PackageRecord>) -> Seq<Seq<char>> {
    ps.map_values(|p: PackageRecord| p.id@)
}

/// The packages whose flows `list iflows` reads: all with `--all`, else the
/// one given, which must not be blank.
pub fn select_package_ids(packages: &Vec<PackageRecord>, package_id: Option<&str>, all: bool) -> (r:
    Result<Vec<String>, ListError>)
    ensures
        all ==> (r matches Ok(v) && text::strings_view(v@) == package_ids(packages@)),
        !all ==> match package_id {
            Some(id) => if text::trim_spec(id@).len() == 0 {
                r == Err::<Vec<String>, ListError>(ListError::EmptyPackageId)
            } else {
                r matches Ok(v) && text::strings_view(v@) == seq![id@]
            },
            None => r == Err::<Vec<String>, ListError>(ListError::NoPackageChoice),
        },
{
    if all {
        let mut v: Vec<String> = Vec::new();
        let mut i: usize = 0;
        while i < packages.len()
            invariant
                i <= packages.len(),
                text::strings_view(v@) == package_ids(packages@).take(i as int),
            decreases packages.len() - i,
        {
            let id = packages[i].id.clone();
            proof {
                text::lemma_strings_view_push(v@, id);
                assert(package_ids(packages@).take(i + 1) =~= package_ids(packages@).take(
                    i as int,
                ).push(id@));
            }
            v.push(id);
            i += 1;
        }
        assert(package_ids(packages@).take(packages@.len() as int) =~= package_ids(packages@));
        return Ok(v);
    }
    match package_id {
        Some(id) => {
            if trim(id).as_str().is_empty() {
                return Err(ListError::EmptyPackageId);
            }
            let mut v: Vec<String> = Vec::new();
            let s = owned(id);
            proof {
                text::lemma_strings_view_push(v@, s);
            }
            v.push(s);
            assert(text::strings_view(v@) =~= seq![id@]);
            Ok(v)
        },
        None => Err(ListError::NoPackageChoice),
    }
}

/// The mode recorded for package `id`: that of the last package listed with
/// this id (a later entry replaces an earlier one in the lookup).
pub open spec fn mode_of(ps: Seq<PackageRecord>, id: Seq<char>, n: int) -> Option<Seq<char>>
    decreases n,
{
    if n <= 0 {
        None
    } else if ps[n - 1].id@ == id {
        Some(ps[n - 1].mode@)
    } else {
        mode_of(ps, id, n - 1)
    }
}

/// Whether package `id` is read-only (its mode is `READ_ONLY`); a package
/// that was not listed is not.
pub fn package_is_read_only(packages: &Vec<PackageRecord>, id: &str) -> (b: bool)
    ensures
        b == (mode_of(packages@, id@, packages@.len() as int) == Some("READ_ONLY"@)),
{
    let key = owned(id);
    let ro = owned("READ_ONLY");
    let mut k: usize = packages.len();
    while k > 0
        invariant
            k <= packages.len(),
            key@ == id@,
            ro@ == "READ_ONLY"@,
            mode_of(packages@, id@, packages@.len() as int) == mode_of(packages@, id@, k as int),
        decreases k,
    {
        if packages[k - 1].id == key {
            return packages[k - 1].mode == ro;
        }
        k -= 1;
    }
    false
}

/// The address that lists the flows of package `package_id`.
pub fn package_iflows_url(base_url: &str, package_id: &str) -> (r: String)
    ensures
        r@ == base_url@ + "/api/v1/IntegrationPackages('"@ + package_id@
            + "')/IntegrationDesigntimeArtifacts?$format=json"@,
{
    let mut r = owned(base_url);
    push_str(&mut r, "/api/v1/IntegrationPackages('");
    push_str(&mut r, package_id);
    push_str(&mut r, "')/IntegrationDesigntimeArtifacts?$format=json");
    r
}

/// What `list iflows` and `list configurations` do with the answer to one
/// package's flow listing.
#[derive(Debug)]
pub enum PackageAnswer {
    /// Read the flows from the body.
    Read,
    /// Skip the package, showing this warning.
    Skip(String),
}

/// A success status means the package's flows are read; any other skips the
/// package with a warning that names it and the status.
pub fn package_answer(package_id: &str, status: u16, status_text: &str) -> (r: PackageAnswer)
    ensures
        status_ok(status) ==> r is Read,
        !status_ok(status) ==> (r matches PackageAnswer::Skip(w) && w@ == "warning: skipping package '"@
            + package_id@ + "' — status "@ + status_text@),
{
    if is_success(status) {
        PackageAnswer::Read
    } else {
        let mut w = owned("warning: skipping package '");
        push_str(&mut w, package_id);
        push_str(&mut w, "' — status ");
        push_str(&mut w, status_text);
        PackageAnswer::Skip(w)
    }
}

/// Whether the adapters of a flow are fetched: not in a read-only package,
/// and only when the flow has an id and a version.
pub fn needs_adapters(item: &IflowRecord, read_only: bool) -> (b: bool)
    ensures
        b == (!read_only && sv(item.id).len() > 0 && sv(item.version).len() > 0),
{
    let id = or_empty(&item.id);
    let version = or_empty(&item.version);
    !read_only && !id.as_str().is_empty() && !version.as_str().is_empty()
}

/// A flow as shown by `list iflows`: `N/A` adapters in a read-only package,
/// `—` when the flow has no id or version or its adapters could not be
/// fetched (`fetched` is `None`), else the adapter summaries.
pub fn iflow_display_row(item: &IflowRecord, read_only: bool, fetched: Option<&Vec<Adapter>>) -> (r:
    IflowDisplayRow)
    ensures
        r.name@ == sv(item.name),
        r.version@ == sv(item.version),
        r.sender@ == sv(item.sender),
        r.receiver@ == sv(item.receiver),
        read_only ==> r.sender_adapter@ == "N/A"@ && r.receiver_adapter@ == "N/A"@,
        !read_only && !needs_adapters_spec(*item, read_only) ==> r.sender_adapter@ == "—"@
            && r.receiver_adapter@ == "—"@,
        needs_adapters_spec(*item, read_only) ==> match fetched {
            Some(a) => r.sender_adapter@ == adapters::column_spec(
                a@,
                adapters::AdapterDirection::Sender,
            ) && r.receiver_adapter@ == adapters::column_spec(
                a@,
                adapters::AdapterDirection::Receiver,
            ),
            None => r.sender_adapter@ == "—"@ && r.receiver_adapter@ == "—"@,
        },
{
    let (sa, ra) = if read_only {
        (owned("N/A"), owned("N/A"))
    } else if !needs_adapters(item, read_only) {
        (owned("—"), owned("—"))
    } else {
        adapter_columns(fetched)
    };
    IflowDisplayRow {
        name: or_empty(&item.name),
        version: or_empty(&item.version),
        sender: or_empty(&item.sender),
        receiver: or_empty(&item.receiver),
        sender_adapter: sa,
        receiver_adapter: ra,
    }
}

pub open spec fn needs_adapters_spec(item: IflowRecord, read_only: bool) -> bool {
    !read_only && sv(item.id).len() > 0 && sv(item.version).len() > 0
}

// ── service endpoints ───────────────────────────────────────────────────────
/// An endpoint as shown.
#[derive(Debug)]
pub struct ServiceEndpointRow {
    pub name: String,
    pub version: String,
    pub protocol: String,
    pub url: String,
}

pub type EndpointView = (Seq<char>, Seq<char>, Seq<char>, Seq<char>);

pub open spec fn endpoint_view(r: ServiceEndpointRow) -> EndpointView {
    (r.name@, r.version@, r.protocol@, r.url@)
}

/// The address that lists the service endpoints with their entry points.
pub fn service_endpoints_url(base_url: &str) -> (r: String)
    ensures
        r@ == base_url@ + "/api/v1/ServiceEndpoints?$expand=EntryPoints"@,
{
    let mut r = owned(base_url);
    push_str(&mut r, "/api/v1/ServiceEndpoints?$expand=EntryPoints");
    r
}

/// Node `k` is a `properties` element with a `Version` child.
pub open spec fn versioned_properties(ns: Seq<xml::NodeView>) -> spec_fn(int) -> bool {
    |k: int| 0 <= k < ns.len() && ns[k].1 == "properties"@ && xml::find_child(ns, k, "Version"@) is Some
}

/// The endpoint of entry `i`: from its first `properties` element that has
/// a `Version`, the name, version and protocol, and the text of the entry's
/// first `Url` element.
pub open spec fn endpoint_entry(ns: Seq<xml::NodeView>) -> spec_fn(int) -> Option<EndpointView> {
    |i: int|
        match xml::find_desc(ns, i, versioned_properties(ns)) {
            Some(p) => Some(
                (
                    xml::child_text_or_empty(ns, p, "Name"@),
                    xml::child_text_or_empty(ns, p, "Version"@),
                    xml::child_text_or_empty(ns, p, "Protocol"@),
                    xml::desc_text_or_empty(ns, i, "Url"@),
                ),
            ),
            None => None,
        }
}

fn versioned_properties_of(ns: &Vec<XmlNode>, i: usize) -> (r: Option<usize>)
    requires
        i < ns.len(),
    ensures
        match r {
            Some(k) => k < ns.len() && xml::find_desc(xml::nodes_view(ns@), i as int, versioned_properties(xml::nodes_view(ns@)))
                == Some(k as int),
            None => xml::find_desc(xml::nodes_view(ns@), i as int, versioned_properties(xml::nodes_view(ns@))) is None,
        },
{
    let ghost nv = xml::nodes_view(ns@);
    let ghost p = versioned_properties(nv);
    let tag = owned("properties");
    let mut k = i;
    while k < ns.len() && (k == i || ns[k].depth > ns[i].depth)
        invariant
            i <= k <= ns.len(),
            nv == xml::nodes_view(ns@),
            p == versioned_properties(nv),
            tag@ == "properties"@,
            xml::find_desc(nv, i as int, p) == xml::find_desc_from(nv, i as int, k as int, p),
        decreases ns.len() - k,
    {
        if ns[k].name == tag && first_child_named(ns, k, "Version").is_some() {
            return Some(k);
        }
        proof {
            xml::lemma_find_desc_skip(nv, i as int, k as int, p);
        }
        k += 1;
    }
    None
}

/// The service endpoints of a `ServiceEndpoints` response, in document order.
pub fn service_endpoint_rows(ns: &Vec<XmlNode>) -> (r: Vec<ServiceEndpointRow>)
    ensures
        r@.map_values(|e: ServiceEndpointRow| endpoint_view(e)) == xml::over_entries(
            xml::nodes_view(ns@),
            endpoint_entry(xml::nodes_view(ns@)),
            ns@.len() as int,
        ),
{
    let ghost nv = xml::nodes_view(ns@);
    let mut out: Vec<ServiceEndpointRow> = Vec::new();
    let mut k: usize = 0;
    while k < ns.len()
        invariant
            k <= ns.len(),
            nv == xml::nodes_view(ns@),
            out@.map_values(|e: ServiceEndpointRow| endpoint_view(e)) == xml::over_entries(
                nv,
                endpoint_entry(nv),
                k as int,
            ),
        decreases ns.len() - k,
    {
        if is_entry(ns, k) {
            if let Some(p) = versioned_properties_of(ns, k) {
                let row = ServiceEndpointRow {
                    name: child_text_trimmed(ns, p, "Name"),
                    version: child_text_trimmed(ns, p, "Version"),
                    protocol: child_text_trimmed(ns, p, "Protocol"),
                    url: desc_text_trimmed(ns, k, "Url"),
                };
                let ghost prev = out@.map_values(|e: ServiceEndpointRow| endpoint_view(e));
                let ghost rv = endpoint_view(row);
                out.push(row);
                assert(out@.map_values(|e: ServiceEndpointRow| endpoint_view(e)) =~= prev.push(rv));
            }
        }
        k += 1;
    }
    out
}

// ── configuration parameters ───────────────────────────────────────────────
/// The address of a flow version's configuration parameters.
pub fn iflow_configurations_url(base_url: &str, id: &str, version: &str) -> (r: String)
    ensures
        r@ == base_url@ + "/api/v1/IntegrationDesigntimeArtifacts(Id='"@ + id@ + "',Version='"@
            + version@ + "')/Configurations"@,
{
    let mut r = owned(base_url);
    push_str(&mut r, "/api/v1/IntegrationDesigntimeArtifacts(Id='");
    push_str(&mut r, id);
    push_str(&mut r, "',Version='");
    push_str(&mut r, version);
    push_str(&mut r, "')/Configurations");
    r
}

/// The parameter of entry `i`: key and value from its first `properties`
/// element, unless both are empty.
pub open spec fn parameter_entry(ns: Seq<xml::NodeView>) -> spec_fn(int) -> Option<(Seq<char>, Seq<char>)> {
    |i: int|
        match xml::find_desc(ns, i, xml::named(ns, "properties"@)) {
            Some(p) => {
                let k = xml::child_text_or_empty(ns, p, "ParameterKey"@);
                let v = xml::child_text_or_empty(ns, p, "ParameterValue"@);
                if k.len() == 0 && v.len() == 0 {
                    None
                } else {
                    Some((k, v))
                }
            },
            None => None,
        }
}

pub open spec fn pairs_view(v: Seq<(String, String)>) -> Seq<(Seq<char>, Seq<char>)> {
    v.map_values(|p: (String, String)| (p.0@, p.1@))
}

/// The parameters (key, value) of a `Configurations` response, in document
/// order, leaving out those with neither key nor value.
pub fn parameter_pairs(ns: &Vec<XmlNode>) -> (r: Vec<(String, String)>)
    ensures
        pairs_view(r@) == xml::over_entries(
            xml::nodes_view(ns@),
            parameter_entry(xml::nodes_view(ns@)),
            ns@.len() as int,
        ),
{
    let ghost nv = xml::nodes_view(ns@);
    let mut out: Vec<(String, String)> = Vec::new();
    let mut k: usize = 0;
    while k < ns.len()
        invariant
            k <= ns.len(),
            nv == xml::nodes_view(ns@),
            pairs_view(out@) == xml::over_entries(nv, parameter_entry(nv), k as int),
        decreases ns.len() - k,
    {
        if is_entry(ns, k) {
            if let Some(p) = first_desc_named(ns, k, "properties") {
                let key = child_text_trimmed(ns, p, "ParameterKey");
                let value = child_text_trimmed(ns, p, "ParameterValue");
                if !(key.as_str().is_empty() && value.as_str().is_empty()) {
                    let ghost prev = pairs_view(out@);
                    let ghost pv = (key@, value@);
                    out.push((key, value));
                    assert(pairs_view(out@) =~= prev.push(pv));
                }
            }
        }
        k += 1;
    }
    out
}

proof fn lemma_over_entries_keeps<T>(ns: Seq<xml::NodeView>, f: spec_fn(int) -> Option<T>, i: int, n: int)
    requires
        0 <= i < n <= ns.len(),
        ns[i].1 == "entry"@,
        f(i) is Some,
    ensures
        xml::over_entries(ns, f, n).contains(f(i).unwrap()),
    decreases n,
{
    let prev = xml::over_entries(ns, f, n - 1);
    let cur = xml::over_entries(ns, f, n);
    if n - 1 == i {
        assert(cur[prev.len() as int] == f(i).unwrap());
    } else {
        lemma_over_entries_keeps(ns, f, i, n - 1);
        let w = choose|w: int| 0 <= w < prev.len() && prev[w] == f(i).unwrap();
        assert(cur[w] == prev[w]);
    }
}

/// Every parameter of a `Configurations` answer whose key or value is not
/// blank is listed with its key and value (a key with an empty value too):
/// only an entry whose key and value are both blank is left out.
pub proof fn configuration_parameters_listed(ns: Seq<xml::NodeView>, i: int)
    requires
        0 <= i < ns.len(),
        ns[i].1 == "entry"@,
        xml::find_desc(ns, i, xml::named(ns, "properties"@)) is Some,
    ensures
        ({
            let p = xml::find_desc(ns, i, xml::named(ns, "properties"@)).unwrap();
            let k = xml::child_text_or_empty(ns, p, "ParameterKey"@);
            let v = xml::child_text_or_empty(ns, p, "ParameterValue"@);
            (k.len() > 0 || v.len() > 0) ==> xml::over_entries(ns, parameter_entry(ns), ns.len() as int).contains((k, v))
        }),
{
    let p = xml::find_desc(ns, i, xml::named(ns, "properties"@)).unwrap();
    let k = xml::child_text_or_empty(ns, p, "ParameterKey"@);
    let v = xml::child_text_or_empty(ns, p, "ParameterValue"@);
    if k.len() > 0 || v.len() > 0 {
        assert((parameter_entry(ns))(i) == Some((k, v)));
        lemma_over_entries_keeps(ns, parameter_entry(ns), i, ns.len() as int);
    }
}

/// No listed parameter has both a blank key and a blank value.
pub proof fn configuration_pairs_not_blank(ns: Seq<xml::NodeView>, n: int)
    requires
        0 <= n <= ns.len(),
    ensures
        forall|j: int|
            0 <= j < xml::over_entries(ns, parameter_entry(ns), n).len() ==> (#[trigger] xml::over_entries(
                ns,
                parameter_entry(ns),
                n,
            )[j]).0.len() > 0 || xml::over_entries(ns, parameter_entry(ns), n)[j].1.len() > 0,
    decreases n,
{
    if n > 0 {
        configuration_pairs_not_blank(ns, n - 1);
        let prev = xml::over_entries(ns, parameter_entry(ns), n - 1);
        let cur = xml::over_entries(ns, parameter_entry(ns), n);
        assert forall|j: int| 0 <= j < cur.len() implies (#[trigger] cur[j]).0.len() > 0 || cur[j].1.len() > 0 by {
            if j < prev.len() {
                assert(cur[j] == prev[j]);
            }
        }
    }
}

/// The parameters that a flow's `Configurations` answer gives: those of its
/// body (see `parameter_pairs`) when the status is a success, none otherwise.
pub fn configuration_answer(status: u16, body: &Vec<XmlNode>) -> (r: Vec<(String, String)>)
    ensures
        status_ok(status) ==> pairs_view(r@) == xml::over_entries(
            xml::nodes_view(body@),
            parameter_entry(xml::nodes_view(body@)),
            body@.len() as int,
        ),
        !status_ok(status) ==> r@.len() == 0,
{
    if is_success(status) {
        parameter_pairs(body)
    } else {
        Vec::new()
    }
}

/// A parameter as shown by `list configurations`.
#[derive(Debug)]
pub struct ConfigDisplayRow {
    pub iflow_name: String,
    pub key: String,
    pub value: String,
}

/// The package that `list configurations <filter>` narrows to: the first
/// whose id is exactly the filter.
pub open spec fn target_package_spec(ids: Seq<Seq<char>>, filter: Seq<char>, k: int) -> Option<int>
    decreases ids.len() - k,
{
    if k < 0 || k >= ids.len() {
        None
    } else if ids[k] == filter {
        Some(k)
    } else {
        target_package_spec(ids, filter, k + 1)
    }
}

/// Which packages `list configurations` reads and which flow name it keeps:
/// when the filter names a package, that package and every flow in it;
/// otherwise every package, keeping the flows whose name is the filter.
pub fn configuration_scope(all_packages: &Vec<String>, filter: Option<&str>) -> (r: (Vec<String>, Option<String>))
    ensures
        match filter {
            Some(f) => match target_package_spec(text::strings_view(all_packages@), f@, 0) {
                Some(k) => text::strings_view(r.0@) == seq![all_packages@[k]@] && r.1 is None,
                None => text::strings_view(r.0@) == text::strings_view(all_packages@) && (r.1 matches Some(x) && x@ == f@),
            },
            None => text::strings_view(r.0@) == text::strings_view(all_packages@) && r.1 is None,
        },
{
    let ghost av = text::strings_view(all_packages@);
    if let Some(f) = filter {
        let key = owned(f);
        let mut k: usize = 0;
        while k < all_packages.len()
            invariant
                k <= all_packages.len(),
                av == text::strings_view(all_packages@),
                target_package_spec(av, f@, 0) == target_package_spec(av, f@, k as int),
                filter == Some(f),
                key@ == f@,
            decreases all_packages.len() - k,
        {
            assert(av[k as int] == all_packages@[k as int]@);
            if all_packages[k] == key {
                assert(target_package_spec(av, f@, k as int) == Some(k as int));
                let mut v: Vec<String> = Vec::new();
                let s = all_packages[k].clone();
                proof {
                    text::lemma_strings_view_push(v@, s);
                }
                v.push(s);
                assert(text::strings_view(v@) =~= seq![all_packages@[k as int]@]);
                return (v, None);
            }
            k += 1;
        }
    }
    let mut v: Vec<String> = Vec::new();
    let mut i: usize = 0;
    while i < all_packages.len()
        invariant
            i <= all_packages.len(),
            av == text::strings_view(all_packages@),
            text::strings_view(v@) == av.take(i as int),
        decreases all_packages.len() - i,
    {
        let s = all_packages[i].clone();
        proof {
            text::lemma_strings_view_push(v@, s);
            assert(av.take(i + 1) =~= av.take(i as int).push(s@));
        }
        v.push(s);
        i += 1;
    }
    assert(av.take(all_packages@.len() as int) =~= av);
    match filter {
        Some(f) => (v, Some(owned(f))),
        None => (v, None),
    }
}

/// A flow whose parameters `list configurations` reads: its id, version and
/// name (the id when it has none).
pub struct ConfigTarget {
    pub id: String,
    pub version: String,
    pub name: String,
}

/// Whether a listed flow is read by `list configurations`, and as what: it
/// needs an id and a version, and with a name filter its name (or id) must
/// be exactly the filter.
pub fn configuration_target(item: &IflowRecord, name_filter: Option<&str>) -> (r: Option<ConfigTarget>)
    ensures
        ({
            let name = match item.name {
                Some(n) => n@,
                None => sv(item.id),
            };
            let keep = sv(item.id).len() > 0 && sv(item.version).len() > 0 && match name_filter {
                Some(f) => name == f@,
                None => true,
            };
            match r {
                Some(t) => keep && t.id@ == sv(item.id) && t.version@ == sv(item.version) && t.name@ == name,
                None => !keep,
            }
        }),
{
    let id = or_empty(&item.id);
    let version = or_empty(&item.version);
    let name = match &item.name {
        Some(n) => n.clone(),
        None => id.clone(),
    };
    if id.as_str().is_empty() || version.as_str().is_empty() {
        return None;
    }
    if let Some(f) = name_filter {
        if name != owned(f) {
            return None;
        }
    }
    Some(ConfigTarget { id, version, name })
}

/// Adds the parameters of one flow to the rows, and its id to the ids of the
/// flows that have some (kept distinct); a flow without parameters adds
/// nothing.
pub fn add_configuration_rows(
    rows: &mut Vec<ConfigDisplayRow>,
    flows: &mut Vec<String>,
    target: &ConfigTarget,
    params: &Vec<(String, String)>,
)
    ensures
        params@.len() == 0 ==> final(rows)@ == old(rows)@ && final(flows)@ == old(flows)@,
        params@.len() > 0 ==> text::strings_view(final(flows)@) == if text::strings_view(old(flows)@).contains(target.id@) {
            text::strings_view(old(flows)@)
        } else {
            text::strings_view(old(flows)@).push(target.id@)
        },
        final(rows)@.len() == old(rows)@.len() + params@.len(),
        forall|i: int| 0 <= i < old(rows)@.len() ==> #[trigger] final(rows)@[i] == old(rows)@[i],
        forall|j: int|
            0 <= j < params@.len() ==> (#[trigger] final(rows)@[old(rows)@.len() + j]).iflow_name@
                == target.name@ && final(rows)@[old(rows)@.len() + j].key@ == params@[j].0@
                && final(rows)@[old(rows)@.len() + j].value@ == params@[j].1@,
{
    if params.len() == 0 {
        return;
    }
    let mut known = false;
    let mut f: usize = 0;
    while f < flows.len()
        invariant
            f <= flows.len(),
            known == exists|k: int| 0 <= k < f && (#[trigger] flows@[k])@ == target.id@,
        decreases flows.len() - f,
    {
        if flows[f] == target.id {
            known = true;
        }
        f += 1;
    }
    proof {
        let fv = text::strings_view(flows@);
        if known {
            let k = choose|k: int| 0 <= k < flows@.len() && (#[trigger] flows@[k])@ == target.id@;
            assert(fv[k] == target.id@);
        } else {
            assert forall|k: int| 0 <= k < fv.len() implies fv[k] != target.id@ by {
                assert(fv[k] == flows@[k]@);
            }
        }
    }
    if !known {
        let s = target.id.clone();
        proof {
            text::lemma_strings_view_push(flows@, s);
        }
        flows.push(s);
    }
    let ghost r0 = rows@;
    let mut j: usize = 0;
    while j < params.len()
        invariant
            j <= params.len(),
            rows@.len() == r0.len() + j,
            forall|i: int| 0 <= i < r0.len() ==> #[trigger] rows@[i] == r0[i],
            forall|k: int|
                0 <= k < j ==> (#[trigger] rows@[r0.len() + k]).iflow_name@ == target.name@
                    && rows@[r0.len() + k].key@ == params@[k].0@ && rows@[r0.len() + k].value@
                    == params@[k].1@,
        decreases params.len() - j,
    {
        rows.push(
            ConfigDisplayRow {
                iflow_name: target.name.clone(),
                key: params[j].0.clone(),
                value: params[j].1.clone(),
            },
        );
        j += 1;
    }
}

/// `[profile] n configuration(s) found across m iflow(s).`
pub fn configurations_found_line(profile: &str, n: usize, flows: usize) -> (r: String)
    ensures
        r@ == "["@ + profile@ + "] "@ + text::dec(n as nat) + " configuration(s) found across "@
            + text::dec(flows as nat) + " iflow(s)."@,
{
    let mut r = owned("[");
    push_str(&mut r, profile);
    push_str(&mut r, "] ");
    push_str(&mut r, dec_string(n as u64).as_str());
    push_str(&mut r, " configuration(s) found across ");
    push_str(&mut r, dec_string(flows as u64).as_str());
    push_str(&mut r, " iflow(s).");
    r
}

} // verus!
