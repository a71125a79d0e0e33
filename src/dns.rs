use vstd::prelude::*;

use crate::text::text_eq;

verus! {

/// A DNS record as the API lists it.
#[derive(Debug)]
pub struct DnsRecord {
    pub id: String,
    pub name: String,
    pub record_type: String,
    pub content: String,
    pub proxied: Option<bool>,
    pub ttl: Option<u32>,
}

/// A DNS record to create or update.
#[derive(Debug)]
pub struct CreateDnsRecord {
    pub record_type: String,
    pub name: String,
    pub content: String,
    pub proxied: bool,
    pub ttl: Option<u32>,
}

/// The host name a tunnel answers on: `<tunnel id>.cfargotunnel.com`.
pub open spec fn tunnel_host(tunnel_id: Seq<char>) -> Seq<char> {
    tunnel_id + ".cfargotunnel.com"@
}

/// The CNAME target of a tunnel.
pub fn tunnel_cname(tunnel_id: &str) -> (r: String)
    ensures
        r@ == tunnel_host(tunnel_id@),
{
    let mut r = String::from_str(tunnel_id);
    r.append(".cfargotunnel.com");
    r
}

/// Some record is a CNAME named `hostname`.
pub open spec fn has_cname(records: Seq<DnsRecord>, hostname: Seq<char>) -> bool {
    exists|i: int|
        0 <= i < records.len() && records[i].name@ == hostname && records[i].record_type@
            == "CNAME"@
}

/// Whether a CNAME record for `hostname` already exists among `records`.
pub fn cname_exists(records: &Vec<DnsRecord>, hostname: &str) -> (r: bool)
    ensures
        r == has_cname(records@, hostname@),
{
    let mut i: usize = 0;
    while i < records.len()
        invariant
            i <= records.len(),
            forall|k: int|
                0 <= k < i ==> !(records@[k].name@ == hostname@ && records@[k].record_type@
                    == "CNAME"@),
        decreases records.len() - i,
    {
        let r = &records[i];
        if text_eq(r.name.as_str(), hostname) && text_eq(r.record_type.as_str(), "CNAME") {
            return true;
        }
        i = i + 1;
    }
    false
}

/// The proxied CNAME record that points `hostname` at a tunnel.
pub fn cname_record(hostname: &str, tunnel_id: &str) -> (r: CreateDnsRecord)
    ensures
        r.record_type@ == "CNAME"@,
        r.name@ == hostname@,
        r.content@ == tunnel_host(tunnel_id@),
        r.proxied,
        r.ttl is None,
{
    CreateDnsRecord {
        record_type: String::from_str("CNAME"),
        name: String::from_str(hostname),
        content: tunnel_cname(tunnel_id),
        proxied: true,
        ttl: None,
    }
}

} // verus!
