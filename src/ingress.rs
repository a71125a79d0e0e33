use vstd::prelude::*;

use crate::scan::DiscoveredService;
use crate::target::{bare_port_normalized, normalized};
use crate::text::{decimal, push_decimal, text_eq};

verus! {

/// A JSON value, carried through untouched.
#[verifier::external_type_specification]
#[verifier::external_body]
pub struct ExJsonValue(serde_json::Value);

/// One ingress rule: requests for `hostname` go to `service`; a rule without
/// a hostname is the catch-all. `origin_request` holds the rule's origin
/// settings as the remote configuration gives them, if any.
#[derive(Debug)]
pub struct IngressRule {
    pub hostname: Option<String>,
    pub service: String,
    pub origin_request: Option<serde_json::Value>,
}

/// The mathematical value of an ingress rule.
pub struct RuleView {
    pub hostname: Option<Seq<char>>,
    pub service: Seq<char>,
    pub origin_request: Option<serde_json::Value>,
}

impl View for IngressRule {
    type V = RuleView;

    open spec fn view(&self) -> RuleView {
        RuleView {
            hostname: match self.hostname {
                Some(h) => Some(h@),
                None => None,
            },
            service: self.service@,
            origin_request: self.origin_request,
        }
    }
}

/// A tunnel's local configuration: its identifier, its credentials file and
/// its ordered ingress rules.
#[derive(Debug)]
pub struct TunnelConfig {
    pub tunnel: String,
    pub credentials_file: String,
    pub ingress: Vec<IngressRule>,
}

/// Why a mapping edit was refused.
#[derive(Clone, Copy, Debug, PartialEq, Eq, Structural)]
pub enum MappingError {
    /// The hostname already has a rule.
    DuplicateHostname,
    /// No rule has the hostname.
    MappingNotFound,
}

/// What merging a discovered service did.
#[derive(Clone, Copy, Debug, PartialEq, Eq, Structural)]
pub enum MergeOutcome {
    Added,
    AlreadyMapped,
}

/// The rule list as a sequence of rule values.
pub open spec fn rules_model(rules: Seq<IngressRule>) -> Seq<RuleView> {
    rules.map_values(|r: IngressRule| r@)
}

/// Some rule of `list` has hostname `h`.
pub open spec fn has_host(list: Seq<RuleView>, h: Seq<char>) -> bool {
    exists|i: int| 0 <= i < list.len() && list[i].hostname == Some(h)
}

/// No two rules share a hostname.
pub open spec fn hosts_unique(list: Seq<RuleView>) -> bool {
    forall|i: int, j: int|
        0 <= i < list.len() && 0 <= j < list.len() && i != j && (#[trigger] list[i]).hostname
            is Some ==> list[i].hostname != (#[trigger] list[j]).hostname
}

/// The last rule is a catch-all.
pub open spec fn catch_all_last(list: Seq<RuleView>) -> bool {
    list.len() > 0 && list.last().hostname is None
}

/// `list` after a rule for `h` is put just before its last rule (at the front
/// of an empty list).
pub open spec fn inserted(list: Seq<RuleView>, h: Seq<char>, s: Seq<char>) -> Seq<RuleView> {
    let rule = RuleView { hostname: Some(h), service: s, origin_request: None };
    if list.len() == 0 {
        seq![rule]
    } else {
        list.insert(list.len() - 1, rule)
    }
}

/// `i` is the first position of a rule for `h`.
pub open spec fn first_host_at(list: Seq<RuleView>, h: Seq<char>, i: int) -> bool {
    &&& 0 <= i < list.len()
    &&& list[i].hostname == Some(h)
    &&& forall|k: int| 0 <= k < i ==> list[k].hostname != Some(h)
}

/// `list` without its first rule for `h`.
pub open spec fn removed(list: Seq<RuleView>, h: Seq<char>) -> Seq<RuleView> {
    list.remove(choose|i: int| first_host_at(list, h, i))
}

/// An edit of a rule list.
pub enum MappingEdit {
    Add { hostname: Seq<char>, service: Seq<char> },
    Remove { hostname: Seq<char> },
}

/// The list after one edit; a refused edit leaves it as it was.
pub open spec fn apply_edit(list: Seq<RuleView>, edit: MappingEdit) -> Seq<RuleView> {
    match edit {
        MappingEdit::Add { hostname, service } => {
            if has_host(list, hostname) {
                list
            } else {
                inserted(list, hostname, service)
            }
        },
        MappingEdit::Remove { hostname } => {
            if has_host(list, hostname) {
                removed(list, hostname)
            } else {
                list
            }
        },
    }
}

/// The list after a run of edits, in order.
pub open spec fn apply_edits(list: Seq<RuleView>, edits: Seq<MappingEdit>) -> Seq<RuleView>
    decreases edits.len(),
{
    if edits.len() == 0 {
        list
    } else {
        apply_edits(apply_edit(list, edits[0]), edits.drop_first())
    }
}

proof fn lemma_first_host_exists(list: Seq<RuleView>, h: Seq<char>, i: int)
    requires
        0 <= i < list.len(),
        list[i].hostname == Some(h),
    ensures
        exists|j: int| first_host_at(list, h, j),
    decreases i,
{
    if exists|k: int| 0 <= k < i && list[k].hostname == Some(h) {
        let k = choose|k: int| 0 <= k < i && list[k].hostname == Some(h);
        lemma_first_host_exists(list, h, k);
    } else {
        assert(first_host_at(list, h, i));
    }
}

proof fn lemma_first_host_unique(list: Seq<RuleView>, h: Seq<char>, i: int, j: int)
    requires
        first_host_at(list, h, i),
        first_host_at(list, h, j),
    ensures
        i == j,
{
    if i < j {
        assert(list[i].hostname != Some(h));
    } else if j < i {
        assert(list[j].hostname != Some(h));
    }
}

/// The position of the first rule for `hostname`, if any.
fn find_host(rules: &Vec<IngressRule>, hostname: &str) -> (r: Option<usize>)
    ensures
        r is None ==> !has_host(rules_model(rules@), hostname@),
        r matches Some(i) ==> first_host_at(rules_model(rules@), hostname@, i as int),
{
    let ghost list = rules_model(rules@);
    let mut i: usize = 0;
    while i < rules.len()
        invariant
            list == rules_model(rules@),
            i <= rules.len(),
            forall|k: int| 0 <= k < i ==> list[k].hostname != Some(hostname@),
        decreases rules.len() - i,
    {
        let found = match &rules[i].hostname {
            Some(h) => text_eq(h.as_str(), hostname),
            None => false,
        };
        if found {
            assert(first_host_at(list, hostname@, i as int));
            return Some(i);
        }
        i = i + 1;
    }
    assert(!has_host(list, hostname@)) by {
        if has_host(list, hostname@) {
            let j = choose|j: int| 0 <= j < list.len() && list[j].hostname == Some(hostname@);
            assert(list[j].hostname != Some(hostname@));
        }
    }
    None
}

/// Add a rule sending `hostname` to `service`, just before the last rule (the
/// catch-all) or as the only rule of an empty list. A hostname that already
/// has a rule is refused and the list is left as it was.
pub fn add_mapping(rules: &mut Vec<IngressRule>, hostname: &str, service: &str) -> (r: Result<
    (),
    MappingError,
>)
    ensures
        r is Err <==> has_host(rules_model(old(rules)@), hostname@),
        r matches Err(e) ==> e == MappingError::DuplicateHostname,
        rules_model(final(rules)@) == apply_edit(
            rules_model(old(rules)@),
            MappingEdit::Add { hostname: hostname@, service: service@ },
        ),
{
    if find_host(rules, hostname).is_some() {
        return Err(MappingError::DuplicateHostname);
    }
    let rule = IngressRule {
        hostname: Some(String::from_str(hostname)),
        service: String::from_str(service),
        origin_request: None,
    };
    let pos = if rules.len() == 0 {
        0
    } else {
        rules.len() - 1
    };
    let ghost before = rules_model(rules@);
    rules.insert(pos, rule);
    assert(rules_model(rules@) =~= inserted(before, hostname@, service@));
    Ok(())
}

/// Remove the rule for `hostname`. A hostname without a rule is refused and
/// the list is left as it was.
pub fn remove_mapping(rules: &mut Vec<IngressRule>, hostname: &str) -> (r: Result<
    (),
    MappingError,
>)
    ensures
        r is Err <==> !has_host(rules_model(old(rules)@), hostname@),
        r matches Err(e) ==> e == MappingError::MappingNotFound,
        rules_model(final(rules)@) == apply_edit(
            rules_model(old(rules)@),
            MappingEdit::Remove { hostname: hostname@ },
        ),
{
    match find_host(rules, hostname) {
        None => Err(MappingError::MappingNotFound),
        Some(i) => {
            let ghost before = rules_model(rules@);
            proof {
                let j = choose|j: int| first_host_at(before, hostname@, j);
                lemma_first_host_unique(before, hostname@, i as int, j);
            }
            rules.remove(i);
            assert(rules_model(rules@) =~= before.remove(i as int));
            Ok(())
        },
    }
}

proof fn lemma_edit_keeps_last(list: Seq<RuleView>, edit: MappingEdit)
    requires
        catch_all_last(list),
    ensures
        catch_all_last(apply_edit(list, edit)),
        apply_edit(list, edit).last() == list.last(),
{
    match edit {
        MappingEdit::Add { hostname, service } => {
            if !has_host(list, hostname) {
                let after = inserted(list, hostname, service);
                assert(after.last() == list.last());
            }
        },
        MappingEdit::Remove { hostname } => {
            if has_host(list, hostname) {
                let w = choose|w: int| 0 <= w < list.len() && list[w].hostname == Some(hostname);
                lemma_first_host_exists(list, hostname, w);
                let i = choose|i: int| first_host_at(list, hostname, i);
                assert(i != list.len() - 1);
                assert(removed(list, hostname).last() == list.last());
            }
        },
    }
}

/// Adding and removing mappings never moves the catch-all: when the last rule
/// of a list is a catch-all, that same rule is still last after any run of
/// edits.
pub proof fn catch_all_stays_last(list: Seq<RuleView>, edits: Seq<MappingEdit>)
    requires
        catch_all_last(list),
    ensures
        catch_all_last(apply_edits(list, edits)),
        apply_edits(list, edits).last() == list.last(),
    decreases edits.len(),
{
    if edits.len() > 0 {
        lemma_edit_keeps_last(list, edits[0]);
        catch_all_stays_last(apply_edit(list, edits[0]), edits.drop_first());
    }
}

proof fn lemma_edit_keeps_unique(list: Seq<RuleView>, edit: MappingEdit)
    requires
        hosts_unique(list),
    ensures
        hosts_unique(apply_edit(list, edit)),
{
    match edit {
        MappingEdit::Add { hostname, service } => {
            if !has_host(list, hostname) {
                let after = inserted(list, hostname, service);
                let p: int = if list.len() == 0 { 0 } else { list.len() - 1 };
                assert forall|i: int, j: int|
                    0 <= i < after.len() && 0 <= j < after.len() && i != j && (
                    #[trigger] after[i]).hostname is Some implies after[i].hostname != (
                    #[trigger] after[j]).hostname by {
                    let oi = if i < p { i } else { i - 1 };
                    let oj = if j < p { j } else { j - 1 };
                    if i == p {
                        assert(after[j] == list[oj]);
                    } else if j == p {
                        assert(after[i] == list[oi]);
                    } else {
                        assert(after[i] == list[oi]);
                        assert(after[j] == list[oj]);
                    }
                }
            }
        },
        MappingEdit::Remove { hostname } => {
            if has_host(list, hostname) {
                let w = choose|w: int| 0 <= w < list.len() && list[w].hostname == Some(hostname);
                lemma_first_host_exists(list, hostname, w);
                let p = choose|i: int| first_host_at(list, hostname, i);
                let after = removed(list, hostname);
                assert forall|i: int, j: int|
                    0 <= i < after.len() && 0 <= j < after.len() && i != j && (
                    #[trigger] after[i]).hostname is Some implies after[i].hostname != (
                    #[trigger] after[j]).hostname by {
                    let oi = if i < p { i } else { i + 1 };
                    let oj = if j < p { j } else { j + 1 };
                    assert(after[i] == list[oi]);
                    assert(after[j] == list[oj]);
                }
            }
        },
    }
}

/// Adding and removing mappings never creates two rules for one hostname:
/// a list whose hostnames are distinct keeps them distinct after any run of
/// edits.
pub proof fn hostnames_stay_unique(list: Seq<RuleView>, edits: Seq<MappingEdit>)
    requires
        hosts_unique(list),
    ensures
        hosts_unique(apply_edits(list, edits)),
    decreases edits.len(),
{
    if edits.len() > 0 {
        lemma_edit_keeps_unique(list, edits[0]);
        hostnames_stay_unique(apply_edit(list, edits[0]), edits.drop_first());
    }
}

/// Removing a mapping that was just added gives back the list as it was,
/// rule for rule and in the same order, when the hostname had no rule before.
pub proof fn add_then_remove_restores(list: Seq<RuleView>, h: Seq<char>, s: Seq<char>)
    requires
        !has_host(list, h),
    ensures
        apply_edit(
            apply_edit(list, MappingEdit::Add { hostname: h, service: s }),
            MappingEdit::Remove { hostname: h },
        ) == list,
{
    let after = inserted(list, h, s);
    let p: int = if list.len() == 0 { 0 } else { list.len() - 1 };
    assert(after[p].hostname == Some(h));
    assert(first_host_at(after, h, p)) by {
        assert forall|k: int| 0 <= k < p implies after[k].hostname != Some(h) by {
            assert(after[k] == list[k]);
        }
    }
    let q = choose|i: int| first_host_at(after, h, i);
    lemma_first_host_unique(after, h, p, q);
    assert(after.remove(p) =~= list);
}

/// The service target of a local port: `http://localhost:<port>`.
pub open spec fn localhost_target(port: u16) -> Seq<char> {
    "http://localhost:"@ + decimal(port as nat)
}

/// The service URL of a local port: what a bare port number normalises to.
pub fn localhost_url(port: u16) -> (r: String)
    ensures
        r@ == localhost_target(port),
        r@ == normalized(decimal(port as nat)),
{
    proof {
        bare_port_normalized(port as nat);
    }
    let mut r = String::from_str("http://localhost:");
    push_decimal(&mut r, port as u32);
    r
}

/// Offer a discovered service under `hostname`: a hostname that already has a
/// rule is skipped rather than refused; otherwise the service's local URL is
/// added as `add_mapping` adds it.
pub fn merge_discovered(
    rules: &mut Vec<IngressRule>,
    discovered: &DiscoveredService,
    hostname: &str,
) -> (r: MergeOutcome)
    ensures
        r == MergeOutcome::AlreadyMapped <==> has_host(rules_model(old(rules)@), hostname@),
        rules_model(final(rules)@) == apply_edit(
            rules_model(old(rules)@),
            MappingEdit::Add { hostname: hostname@, service: localhost_target(discovered.port) },
        ),
{
    let url = localhost_url(discovered.port);
    match add_mapping(rules, hostname, url.as_str()) {
        Ok(()) => MergeOutcome::Added,
        Err(_) => MergeOutcome::AlreadyMapped,
    }
}

/// The rule list a tunnel starts from: a lone catch-all answering 404.
pub fn default_ingress() -> (r: Vec<IngressRule>)
    ensures
        rules_model(r@) == seq![
            RuleView { hostname: None, service: "http_status:404"@, origin_request: None },
        ],
        catch_all_last(rules_model(r@)),
        hosts_unique(rules_model(r@)),
{
    let mut v: Vec<IngressRule> = Vec::new();
    v.push(
        IngressRule {
            hostname: None,
            service: String::from_str("http_status:404"),
            origin_request: None,
        },
    );
    assert(rules_model(v@) =~= seq![
        RuleView { hostname: None, service: "http_status:404"@, origin_request: None },
    ]);
    v
}

/// The hostnames of the rules, in order; the catch-all has none.
pub open spec fn hostnames_of(list: Seq<RuleView>) -> Seq<Seq<char>>
    decreases list.len(),
{
    if list.len() == 0 {
        seq![]
    } else {
        let rest = hostnames_of(list.drop_last());
        match list.last().hostname {
            Some(h) => rest.push(h),
            None => rest,
        }
    }
}

/// The hostnames that the rules map, in rule order.
pub fn rule_hostnames(rules: &Vec<IngressRule>) -> (r: Vec<String>)
    ensures
        r@.map_values(|h: String| h@) == hostnames_of(rules_model(rules@)),
{
    let ghost list = rules_model(rules@);
    let mut out: Vec<String> = Vec::new();
    let mut i: usize = 0;
    assert(list.take(0) =~= seq![]);
    while i < rules.len()
        invariant
            list == rules_model(rules@),
            i <= rules.len(),
            out@.map_values(|h: String| h@) == hostnames_of(list.take(i as int)),
        decreases rules.len() - i,
    {
        let ghost before = out@.map_values(|h: String| h@);
        assert(list.take(i + 1).drop_last() =~= list.take(i as int));
        match &rules[i].hostname {
            Some(h) => {
                out.push(h.clone());
                assert(out@.map_values(|h: String| h@) =~= before.push(h@));
            },
            None => {},
        }
        i = i + 1;
    }
    assert(list.take(rules.len() as int) =~= list);
    out
}

/// The hostnames that a tunnel's configuration maps (the catch-all excluded).
pub fn configured_hostnames(config: &TunnelConfig) -> (r: Vec<String>)
    ensures
        r@.map_values(|h: String| h@) == hostnames_of(rules_model(config.ingress@)),
{
    rule_hostnames(&config.ingress)
}

/// How many rules map a hostname.
pub fn mapping_count(rules: &Vec<IngressRule>) -> (r: usize)
    ensures
        r == hostnames_of(rules_model(rules@)).len(),
{
    let names = rule_hostnames(rules);
    names.len()
}

} // verus!
