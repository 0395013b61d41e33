//! `get iflow`: one integration flow's details, and optionally its
//! configuration parameters and resources.
use vstd::prelude::*;

use crate::dates::{self, format_timestamp};
use crate::style;
use crate::text::{self, dec_string, owned, push_str};
use crate::xml::{self, XmlNode, child_text_trimmed, first_desc_named, is_entry};

verus! {

/// The `get` subcommands.
#[derive(Debug)]
pub enum GetCommands {
    /// Details of one flow version, with its parameters and resources on
    /// request.
    Iflow { id: String, version: String, configurations: bool, resources: bool },
}

/// One line of the details table.
#[derive(Debug)]
pub struct DetailRow {
    pub field: String,
    pub value: String,
}

/// A configuration parameter as shown.
#[derive(Debug)]
pub struct ConfigurationRow {
    pub key: String,
    pub value: String,
    pub data_type: String,
}

/// A resource (script, schema, mapping) as shown.
#[derive(Debug)]
pub struct ResourceRow {
    pub name: String,
    pub resource_type: String,
}

/// The address of a flow version, and of its parts (`suffix` is empty,
/// `/Configurations` or `/Resources`).
pub fn iflow_url(base_url: &str, id: &str, version: &str, suffix: &str) -> (r: String)
    ensures
        r@ == base_url@ + "/api/v1/IntegrationDesigntimeArtifacts(Id='"@ + id@ + "',Version='"@
            + version@ + "')"@ + suffix@,
{
    let mut r = owned(base_url);
    push_str(&mut r, "/api/v1/IntegrationDesigntimeArtifacts(Id='");
    push_str(&mut r, id);
    push_str(&mut r, "',Version='");
    push_str(&mut r, version);
    push_str(&mut r, "')");
    push_str(&mut r, suffix);
    r
}

/// The parameter of entry `i`, read from its first `properties` element.
pub open spec fn configuration_entry(ns: Seq<xml::NodeView>) -> spec_fn(int) -> Option<(Seq<char>, Seq<char>, Seq<char>)> {
    |i: int|
        match xml::find_desc(ns, i, xml::named(ns, "properties"@)) {
            Some(p) => Some(
                (
                    xml::child_text_or_empty(ns, p, "ParameterKey"@),
                    xml::child_text_or_empty(ns, p, "ParameterValue"@),
                    xml::child_text_or_empty(ns, p, "DataType"@),
                ),
            ),
            None => None,
        }
}

pub open spec fn configuration_view(r: ConfigurationRow) -> (Seq<char>, Seq<char>, Seq<char>) {
    (r.key@, r.value@, r.data_type@)
}

/// The parameters of a flow's `Configurations` response, in document order.
pub fn configuration_rows(ns: &Vec<XmlNode>) -> (r: Vec<ConfigurationRow>)
    ensures
        r@.map_values(|c: ConfigurationRow| configuration_view(c)) == xml::over_entries(
            xml::nodes_view(ns@),
            configuration_entry(xml::nodes_view(ns@)),
            ns@.len() as int,
        ),
{
    let ghost nv = xml::nodes_view(ns@);
    let mut out: Vec<ConfigurationRow> = Vec::new();
    let mut k: usize = 0;
    while k < ns.len()
        invariant
            k <= ns.len(),
            nv == xml::nodes_view(ns@),
            out@.map_values(|c: ConfigurationRow| configuration_view(c)) == xml::over_entries(
                nv,
                configuration_entry(nv),
                k as int,
            ),
        decreases ns.len() - k,
    {
        if is_entry(ns, k) {
            if let Some(p) = first_desc_named(ns, k, "properties") {
                let row = ConfigurationRow {
                    key: child_text_trimmed(ns, p, "ParameterKey"),
                    value: child_text_trimmed(ns, p, "ParameterValue"),
                    data_type: child_text_trimmed(ns, p, "DataType"),
                };
                let ghost prev = out@.map_values(|c: ConfigurationRow| configuration_view(c));
                let ghost rv = configuration_view(row);
                out.push(row);
                assert(out@.map_values(|c: ConfigurationRow| configuration_view(c)) =~= prev.push(rv));
            }
        }
        k += 1;
    }
    out
}

/// The resource of entry `i`, read from its first `properties` element.
pub open spec fn resource_entry(ns: Seq<xml::NodeView>) -> spec_fn(int) -> Option<(Seq<char>, Seq<char>)> {
    |i: int|
        match xml::find_desc(ns, i, xml::named(ns, "properties"@)) {
            Some(p) => Some(
                (
                    xml::child_text_or_empty(ns, p, "Name"@),
                    xml::child_text_or_empty(ns, p, "ResourceType"@),
                ),
            ),
            None => None,
        }
}

pub open spec fn resource_view(r: ResourceRow) -> (Seq<char>, Seq<char>) {
    (r.name@, r.resource_type@)
}

/// The resources of a flow's `Resources` response, in document order.
pub fn resource_rows(ns: &Vec<XmlNode>) -> (r: Vec<ResourceRow>)
    ensures
        r@.map_values(|c: ResourceRow| resource_view(c)) == xml::over_entries(
            xml::nodes_view(ns@),
            resource_entry(xml::nodes_view(ns@)),
            ns@.len() as int,
        ),
{
    let ghost nv = xml::nodes_view(ns@);
    let mut out: Vec<ResourceRow> = Vec::new();
    let mut k: usize = 0;
    while k < ns.len()
        invariant
            k <= ns.len(),
            nv == xml::nodes_view(ns@),
            out@.map_values(|c: ResourceRow| resource_view(c)) == xml::over_entries(
                nv,
                resource_entry(nv),
                k as int,
            ),
        decreases ns.len() - k,
    {
        if is_entry(ns, k) {
            if let Some(p) = first_desc_named(ns, k, "properties") {
                let row = ResourceRow {
                    name: child_text_trimmed(ns, p, "Name"),
                    resource_type: child_text_trimmed(ns, p, "ResourceType"),
                };
                let ghost prev = out@.map_values(|c: ResourceRow| resource_view(c));
                let ghost rv = resource_view(row);
                out.push(row);
                assert(out@.map_values(|c: ResourceRow| resource_view(c)) =~= prev.push(rv));
            }
        }
        k += 1;
    }
    out
}

/// The flow's `properties` element: the first in the document.
pub fn iflow_properties(ns: &Vec<XmlNode>) -> (r: Option<usize>)
    ensures
        match r {
            Some(p) => p < ns.len() && xml::find_desc(xml::nodes_view(ns@), 0, xml::named(xml::nodes_view(ns@), "properties"@))
                == Some(p as int),
            None => ns@.len() == 0 || xml::find_desc(xml::nodes_view(ns@), 0, xml::named(xml::nodes_view(ns@), "properties"@))
                is None,
        },
{
    if ns.len() == 0 {
        return None;
    }
    first_desc_named(ns, 0, "properties")
}

/// The message when the response has no properties.
pub fn missing_properties_message() -> (r: String)
    ensures
        r@ == "missing <m:properties> in response"@,
{
    owned("missing <m:properties> in response")
}

/// A text shown as `—` when empty.
pub open spec fn dash(s: Seq<char>) -> Seq<char> {
    if s.len() == 0 {
        "—"@
    } else {
        s
    }
}

fn dashed(s: String) -> (r: String)
    ensures
        r@ == dash(s@),
{
    if s.as_str().is_empty() {
        owned("—")
    } else {
        s
    }
}

/// The details table of a flow, from its properties element `p`.
pub open spec fn detail_spec(ns: Seq<xml::NodeView>, p: int, sa: Seq<char>, ra: Seq<char>) -> Seq<
    (Seq<char>, Seq<char>),
> {
    let get = |name: Seq<char>| xml::child_text_or_empty(ns, p, name);
    seq![
        ("ID"@, get("Id"@)),
        ("Name"@, get("Name"@)),
        ("Version"@, get("Version"@)),
        ("Package"@, get("PackageId"@)),
        ("Description"@, dash(get("Description"@))),
        ("Sender"@, dash(get("Sender"@))),
        ("Receiver"@, dash(get("Receiver"@))),
        ("Sender Adapter"@, sa),
        ("Receiver Adapter"@, ra),
        ("Created By"@, get("CreatedBy"@)),
        ("Created At"@, dates::timestamp_text(get("CreatedAt"@))),
        ("Modified By"@, get("ModifiedBy"@)),
        ("Modified At"@, dates::timestamp_text(get("ModifiedAt"@))),
        ("Comment"@, dash(get("Comment"@))),
    ]
}

pub open spec fn details_view(v: Seq<DetailRow>) -> Seq<(Seq<char>, Seq<char>)> {
    v.map_values(|d: DetailRow| (d.field@, d.value@))
}

fn push_row(rows: &mut Vec<DetailRow>, field: &str, value: String)
    ensures
        details_view(final(rows)@) == details_view(old(rows)@).push((field@, value@)),
{
    let ghost prev = details_view(rows@);
    let row = DetailRow { field: owned(field), value };
    let ghost rv = (row.field@, row.value@);
    rows.push(row);
    assert(details_view(rows@) =~= prev.push(rv));
}

/// The details table: id, name, version, package, description, sender,
/// receiver, the two adapter summaries, creator and creation time, modifier
/// and modification time, comment; blank description, sender, receiver and
/// comment shown as `—`, times through `format_timestamp`.
pub fn iflow_detail_rows(ns: &Vec<XmlNode>, p: usize, sender_adapter: String, receiver_adapter: String) -> (r:
    Vec<DetailRow>)
    requires
        p < ns.len(),
    ensures
        details_view(r@) == detail_spec(xml::nodes_view(ns@), p as int, sender_adapter@, receiver_adapter@),
{
    let ghost sa = sender_adapter@;
    let ghost ra = receiver_adapter@;
    let mut rows: Vec<DetailRow> = Vec::new();
    push_row(&mut rows, "ID", child_text_trimmed(ns, p, "Id"));
    push_row(&mut rows, "Name", child_text_trimmed(ns, p, "Name"));
    push_row(&mut rows, "Version", child_text_trimmed(ns, p, "Version"));
    push_row(&mut rows, "Package", child_text_trimmed(ns, p, "PackageId"));
    push_row(&mut rows, "Description", dashed(child_text_trimmed(ns, p, "Description")));
    push_row(&mut rows, "Sender", dashed(child_text_trimmed(ns, p, "Sender")));
    push_row(&mut rows, "Receiver", dashed(child_text_trimmed(ns, p, "Receiver")));
    push_row(&mut rows, "Sender Adapter", sender_adapter);
    push_row(&mut rows, "Receiver Adapter", receiver_adapter);
    push_row(&mut rows, "Created By", child_text_trimmed(ns, p, "CreatedBy"));
    let created = child_text_trimmed(ns, p, "CreatedAt");
    push_row(&mut rows, "Created At", format_timestamp(created.as_str()));
    push_row(&mut rows, "Modified By", child_text_trimmed(ns, p, "ModifiedBy"));
    let modified = child_text_trimmed(ns, p, "ModifiedAt");
    push_row(&mut rows, "Modified At", format_timestamp(modified.as_str()));
    push_row(&mut rows, "Comment", dashed(child_text_trimmed(ns, p, "Comment")));
    assert(details_view(rows@) =~= detail_spec(xml::nodes_view(ns@), p as int, sa, ra));
    rows
}

/// The heading of a section of `get iflow`: `── label (count) ` followed by
/// `pad` rules, bright cyan and bold.
pub open spec fn section_spec(label: Seq<char>, count: nat, pad: nat) -> Seq<char> {
    let plain = "── "@ + label + " ("@ + text::dec(count) + ") "@ + Seq::new(pad, |i: int| '─');
    "\x1b[1m"@ + ("\x1b[96m"@ + plain + "\x1b[39m"@) + "\x1b[0m"@
}

/// The heading of a section (see `section_spec`).
pub fn section_header(label: &str, count: usize, pad: usize) -> (r: String)
    ensures
        r@ == section_spec(label@, count as nat, pad as nat),
{
    let mut plain = owned("── ");
    push_str(&mut plain, label);
    push_str(&mut plain, " (");
    push_str(&mut plain, dec_string(count as u64).as_str());
    push_str(&mut plain, ") ");
    let ghost base = plain@;
    let mut i: usize = 0;
    while i < pad
        invariant
            i <= pad,
            plain@ == base + Seq::new(i as nat, |k: int| '─'),
        decreases pad - i,
    {
        plain.push('─');
        i += 1;
        assert(plain@ =~= base + Seq::new(i as nat, |k: int| '─'));
    }
    let colored = style::bright_cyan(plain.as_str());
    style::bold(colored.as_str())
}

} // verus!
