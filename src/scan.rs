use vstd::prelude::*;

use crate::text::{all_digits, is_digit, push_char, trim, trimmed};

verus! {

/// A local TCP port that answered, with a human label for what usually
/// listens there.
#[derive(Debug)]
pub struct DiscoveredService {
    pub port: u16,
    pub description: String,
}

/// The mathematical value of a discovered service.
pub struct ServiceView {
    pub port: u16,
    pub description: Seq<char>,
}

impl View for DiscoveredService {
    type V = ServiceView;

    open spec fn view(&self) -> ServiceView {
        ServiceView { port: self.port, description: self.description@ }
    }
}

impl DiscoveredService {
    /// A copy of this entry.
    pub fn duplicate(&self) -> (r: DiscoveredService)
        ensures
            r@ == self@,
    {
        DiscoveredService { port: self.port, description: self.description.clone() }
    }
}

/// The services as a sequence of values.
pub open spec fn services_model(v: Seq<DiscoveredService>) -> Seq<ServiceView> {
    v.map_values(|s: DiscoveredService| s@)
}

/// The development ports probed on every scan, with their labels.
pub open spec fn well_known() -> Seq<ServiceView> {
    seq![
        ServiceView { port: 80, description: "HTTP"@ },
        ServiceView { port: 443, description: "HTTPS"@ },
        ServiceView { port: 3000, description: "React / Node.js"@ },
        ServiceView { port: 3001, description: "React Dev"@ },
        ServiceView { port: 4000, description: "GraphQL / Phoenix"@ },
        ServiceView { port: 4200, description: "Angular"@ },
        ServiceView { port: 5000, description: "Flask / Python"@ },
        ServiceView { port: 5173, description: "Vite"@ },
        ServiceView { port: 5432, description: "PostgreSQL"@ },
        ServiceView { port: 6379, description: "Redis"@ },
        ServiceView { port: 8000, description: "Django / Uvicorn"@ },
        ServiceView { port: 8080, description: "HTTP Alternate"@ },
        ServiceView { port: 8443, description: "HTTPS Alternate"@ },
        ServiceView { port: 8888, description: "Jupyter"@ },
        ServiceView { port: 9000, description: "PHP-FPM / SonarQube"@ },
        ServiceView { port: 9090, description: "Prometheus"@ },
        ServiceView { port: 27017, description: "MongoDB"@ },
    ]
}

fn known(port: u16, description: &str) -> (r: DiscoveredService)
    ensures
        r@ == (ServiceView { port, description: description@ }),
{
    DiscoveredService { port, description: String::from_str(description) }
}

/// The well-known development ports and their labels, in table order.
pub fn well_known_ports() -> (r: Vec<DiscoveredService>)
    ensures
        services_model(r@) == well_known(),
{
    let mut v: Vec<DiscoveredService> = Vec::new();
    v.push(known(80, "HTTP"));
    v.push(known(443, "HTTPS"));
    v.push(known(3000, "React / Node.js"));
    v.push(known(3001, "React Dev"));
    v.push(known(4000, "GraphQL / Phoenix"));
    v.push(known(4200, "Angular"));
    v.push(known(5000, "Flask / Python"));
    v.push(known(5173, "Vite"));
    v.push(known(5432, "PostgreSQL"));
    v.push(known(6379, "Redis"));
    v.push(known(8000, "Django / Uvicorn"));
    v.push(known(8080, "HTTP Alternate"));
    v.push(known(8443, "HTTPS Alternate"));
    v.push(known(8888, "Jupyter"));
    v.push(known(9000, "PHP-FPM / SonarQube"));
    v.push(known(9090, "Prometheus"));
    v.push(known(27017, "MongoDB"));
    assert(services_model(v@) =~= well_known());
    v
}

/// `s` cut at every comma, empty pieces kept; `cur` is the piece read so far.
pub open spec fn split_from(s: Seq<char>, cur: Seq<char>) -> Seq<Seq<char>>
    decreases s.len(),
{
    if s.len() == 0 {
        seq![cur]
    } else if s[0] == ',' {
        seq![cur] + split_from(s.drop_first(), seq![])
    } else {
        split_from(s.drop_first(), cur.push(s[0]))
    }
}

/// The comma-separated pieces of `s`.
pub open spec fn comma_pieces(s: Seq<char>) -> Seq<Seq<char>> {
    split_from(s, seq![])
}

/// The value of a string of decimal digits.
pub open spec fn digits_value(s: Seq<char>) -> nat
    decreases s.len(),
{
    if s.len() == 0 {
        0
    } else {
        digits_value(s.drop_last()) * 10 + (s.last() as nat - 48) as nat
    }
}

/// The port number a token names: an optional `+`, then one or more decimal
/// digits worth at most 65535.
pub open spec fn port_number(t: Seq<char>) -> Option<u16> {
    let d = if t.len() > 0 && t[0] == '+' {
        t.drop_first()
    } else {
        t
    };
    if d.len() > 0 && all_digits(d) && digits_value(d) <= 65535 {
        Some(digits_value(d) as u16)
    } else {
        None
    }
}

/// Some entry of `v` has port `p`.
pub open spec fn has_port(v: Seq<ServiceView>, p: u16) -> bool {
    exists|i: int| 0 <= i < v.len() && v[i].port == p
}

/// No two entries share a port.
pub open spec fn ports_distinct(v: Seq<ServiceView>) -> bool {
    forall|i: int, j: int|
        0 <= i < v.len() && 0 <= j < v.len() && i != j ==> (#[trigger] v[i]).port != (
        #[trigger] v[j]).port
}

/// `cands` after the ports that `tokens` name, in order: a token that names
/// no port, or a port already present, adds nothing; a new port is labelled
/// `custom`.
pub open spec fn with_extra(cands: Seq<ServiceView>, tokens: Seq<Seq<char>>) -> Seq<ServiceView>
    decreases tokens.len(),
{
    if tokens.len() == 0 {
        cands
    } else {
        let next = match port_number(trimmed(tokens[0])) {
            Some(p) => if has_port(cands, p) {
                cands
            } else {
                cands.push(ServiceView { port: p, description: "custom"@ })
            },
            None => cands,
        };
        with_extra(next, tokens.drop_first())
    }
}

/// The ports a scan probes: the well-known ones, then the extra ones that are
/// new.
pub open spec fn candidates(extra: Option<Seq<char>>) -> Seq<ServiceView> {
    match extra {
        None => well_known(),
        Some(e) => with_extra(well_known(), comma_pieces(e)),
    }
}

/// Cut `s` at every comma.
pub fn split_commas(s: &str) -> (r: Vec<String>)
    ensures
        r@.map_values(|p: String| p@) == comma_pieces(s@),
{
    let n = s.unicode_len();
    let mut out: Vec<String> = Vec::new();
    let mut cur = String::new();
    let mut i: usize = 0;
    assert(s@.skip(0) =~= s@);
    while i < n
        invariant
            n == s@.len(),
            i <= n,
            out@.map_values(|p: String| p@) + split_from(s@.skip(i as int), cur@) == comma_pieces(
                s@,
            ),
        decreases n - i,
    {
        let c = s.get_char(i);
        let ghost rest = s@.skip(i as int);
        assert(rest[0] == c);
        assert(rest.drop_first() =~= s@.skip(i + 1));
        if c == ',' {
            let ghost before = out@.map_values(|p: String| p@);
            let piece = cur;
            out.push(piece);
            cur = String::new();
            assert(out@.map_values(|p: String| p@) =~= before.push(piece@));
            assert(before + (seq![piece@] + split_from(s@.skip(i + 1), seq![])) =~= before.push(
                piece@,
            ) + split_from(s@.skip(i + 1), cur@));
        } else {
            push_char(&mut cur, c);
        }
        i = i + 1;
    }
    let ghost before = out@.map_values(|p: String| p@);
    let last = cur;
    out.push(last);
    assert(out@.map_values(|p: String| p@) =~= before.push(last@));
    assert(before + seq![last@] =~= before.push(last@));
    out
}

proof fn lemma_digits_value_grows(s: Seq<char>, i: int, j: int)
    requires
        0 <= i <= j <= s.len(),
        all_digits(s),
    ensures
        digits_value(s.take(i)) <= digits_value(s.take(j)),
    decreases j - i,
{
    if i < j {
        lemma_digits_value_grows(s, i, j - 1);
        assert(s.take(j).drop_last() =~= s.take(j - 1));
        assert(is_digit(s[j - 1]));
    }
}

/// The port number `token` names, white space around it ignored.
pub fn parse_port(token: &str) -> (r: Option<u16>)
    ensures
        r == port_number(trimmed(token@)),
{
    let t = trim(token);
    let n = t.unicode_len();
    let start: usize = if n > 0 && t.get_char(0) == '+' {
        1
    } else {
        0
    };
    let ghost d = if n > 0 && t@[0] == '+' {
        t@.drop_first()
    } else {
        t@
    };
    assert(d =~= t@.skip(start as int));
    if start >= n {
        return None;
    }
    let mut value: u32 = 0;
    let mut i: usize = start;
    assert(d.take(0) =~= seq![]);
    while i < n
        invariant
            n == t@.len(),
            start <= i <= n,
            t@ == trimmed(token@),
            d == (if t@.len() > 0 && t@[0] == '+' {
                t@.drop_first()
            } else {
                t@
            }),
            d =~= t@.skip(start as int),
            forall|k: int| 0 <= k < i - start ==> is_digit(#[trigger] d[k]),
            value == digits_value(d.take(i - start)),
            value <= 65535,
        decreases n - i,
    {
        let c = t.get_char(i);
        if !('0' <= c && c <= '9') {
            assert(!all_digits(d)) by {
                assert(d[i - start] == c);
            }
            return None;
        }
        let ghost k = i - start;
        assert(d.take(k + 1).drop_last() =~= d.take(k));
        let next = value * 10 + (c as u32 - 48);
        if next > 65535 {
            assert(all_digits(d) ==> digits_value(d) > 65535) by {
                if all_digits(d) {
                    lemma_digits_value_grows(d, k + 1, d.len() as int);
                    assert(d.take(d.len() as int) =~= d);
                }
            }
            return None;
        }
        value = next;
        i = i + 1;
    }
    assert(d.take(d.len() as int) =~= d);
    Some(value as u16)
}

/// Whether some entry of `v` has port `p`.
fn contains_port(v: &Vec<DiscoveredService>, p: u16) -> (r: bool)
    ensures
        r == has_port(services_model(v@), p),
{
    let mut i: usize = 0;
    while i < v.len()
        invariant
            i <= v.len(),
            forall|k: int| 0 <= k < i ==> v@[k].port != p,
        decreases v.len() - i,
    {
        if v[i].port == p {
            assert(services_model(v@)[i as int].port == p);
            return true;
        }
        i = i + 1;
    }
    assert(!has_port(services_model(v@), p)) by {
        if has_port(services_model(v@), p) {
            let k = choose|k: int|
                0 <= k < services_model(v@).len() && services_model(v@)[k].port == p;
            assert(v@[k].port == p);
        }
    }
    false
}

/// The ports a scan probes: the well-known ports with their labels, then each
/// port that the comma-separated `extra` names and that is not already
/// listed, labelled `custom`. Pieces that name no port are skipped.
pub fn candidate_ports(extra: Option<&str>) -> (r: Vec<DiscoveredService>)
    ensures
        services_model(r@) == candidates(
            match extra {
                Some(e) => Some(e@),
                None => None,
            },
        ),
        ports_distinct(services_model(r@)),
{
    proof {
        extra_ports_dedup(
            match extra {
                Some(e) => Some(e@),
                None => None,
            },
        );
    }
    let mut cands = well_known_ports();
    let e = match extra {
        None => {
            return cands;
        },
        Some(e) => e,
    };
    let tokens = split_commas(e);
    let ghost toks = tokens@.map_values(|p: String| p@);
    let mut i: usize = 0;
    assert(toks.skip(0) =~= toks);
    while i < tokens.len()
        invariant
            i <= tokens.len(),
            toks == tokens@.map_values(|p: String| p@),
            toks == comma_pieces(e@),
            with_extra(services_model(cands@), toks.skip(i as int)) == with_extra(
                well_known(),
                toks,
            ),
        decreases tokens.len() - i,
    {
        let ghost before = services_model(cands@);
        assert(toks.skip(i as int)[0] == tokens@[i as int]@);
        assert(toks.skip(i as int).drop_first() =~= toks.skip(i + 1));
        match parse_port(tokens[i].as_str()) {
            Some(p) => {
                if !contains_port(&cands, p) {
                    cands.push(DiscoveredService { port: p, description: String::from_str("custom") });
                    assert(services_model(cands@) =~= before.push(
                        ServiceView { port: p, description: "custom"@ },
                    ));
                }
            },
            None => {},
        }
        i = i + 1;
    }
    assert(toks.skip(tokens.len() as int) =~= seq![]);
    cands
}

proof fn lemma_well_known_distinct()
    ensures
        ports_distinct(well_known()),
        well_known().len() == 17,
{
    let w = well_known();
    assert(w[0].port == 80 && w[1].port == 443 && w[2].port == 3000 && w[3].port == 3001
        && w[4].port == 4000 && w[5].port == 4200 && w[6].port == 5000 && w[7].port == 5173
        && w[8].port == 5432 && w[9].port == 6379 && w[10].port == 8000 && w[11].port == 8080
        && w[12].port == 8443 && w[13].port == 8888 && w[14].port == 9000 && w[15].port == 9090
        && w[16].port == 27017);
    assert forall|i: int, j: int|
        0 <= i < w.len() && 0 <= j < w.len() && i != j implies (#[trigger] w[i]).port != (
        #[trigger] w[j]).port by {
        if i < j {
            assert(w[i].port < w[j].port);
        } else {
            assert(w[j].port < w[i].port);
        }
    }
}

proof fn lemma_with_extra_keeps(cands: Seq<ServiceView>, tokens: Seq<Seq<char>>)
    requires
        ports_distinct(cands),
    ensures
        ports_distinct(with_extra(cands, tokens)),
        with_extra(cands, tokens).len() >= cands.len(),
        with_extra(cands, tokens).take(cands.len() as int) == cands,
    decreases tokens.len(),
{
    if tokens.len() > 0 {
        let next = match port_number(trimmed(tokens[0])) {
            Some(p) => if has_port(cands, p) {
                cands
            } else {
                cands.push(ServiceView { port: p, description: "custom"@ })
            },
            None => cands,
        };
        assert(ports_distinct(next)) by {
            if next.len() > cands.len() {
                let p = next.last().port;
                assert forall|i: int, j: int|
                    0 <= i < next.len() && 0 <= j < next.len() && i != j implies (
                    #[trigger] next[i]).port != (#[trigger] next[j]).port by {
                    if i == cands.len() {
                        assert(next[j] == cands[j]);
                    } else if j == cands.len() {
                        assert(next[i] == cands[i]);
                    } else {
                        assert(next[i] == cands[i]);
                        assert(next[j] == cands[j]);
                    }
                }
            }
        }
        lemma_with_extra_keeps(next, tokens.drop_first());
        assert(next.take(cands.len() as int) =~= cands);
        let all = with_extra(next, tokens.drop_first());
        assert(all.take(cands.len() as int) =~= all.take(next.len() as int).take(
            cands.len() as int,
        ));
    } else {
        assert(cands.take(cands.len() as int) =~= cands);
    }
}

/// Extra ports never duplicate a port: every candidate port is probed once,
/// and a well-known port keeps its well-known label even when it is also
/// given as an extra port.
pub proof fn extra_ports_dedup(extra: Option<Seq<char>>)
    ensures
        ports_distinct(candidates(extra)),
        forall|i: int, j: int|
            0 <= i < well_known().len() && 0 <= j < candidates(extra).len() && (
            #[trigger] candidates(extra)[j]).port == (#[trigger] well_known()[i]).port
                ==> candidates(extra)[j] == well_known()[i],
{
    lemma_well_known_distinct();
    let w = well_known();
    let c = candidates(extra);
    match extra {
        None => {},
        Some(e) => {
            lemma_with_extra_keeps(w, comma_pieces(e));
        },
    }
    assert(c.take(w.len() as int) == w);
    assert forall|i: int, j: int|
        0 <= i < w.len() && 0 <= j < c.len() && (#[trigger] c[j]).port == (
        #[trigger] w[i]).port implies c[j] == w[i] by {
        assert(c[i] == c.take(w.len() as int)[i]);
    }
}

/// Some open candidate is `x`.
pub open spec fn is_open_entry(cands: Seq<ServiceView>, open: Seq<bool>, x: ServiceView) -> bool {
    exists|i: int| 0 <= i < cands.len() && open[i] && cands[i] == x
}

/// Ports rise strictly from each entry to the next.
pub open spec fn ascending(v: Seq<ServiceView>) -> bool {
    forall|i: int, j: int| 0 <= i < j < v.len() ==> (#[trigger] v[i]).port < (#[trigger] v[j]).port
}

/// The candidates whose probe found a listener (`open[i]` for
/// `candidates[i]`), sorted by port.
pub fn collect_open(candidates: &Vec<DiscoveredService>, open: &Vec<bool>) -> (r: Vec<
    DiscoveredService,
>)
    requires
        open.len() == candidates.len(),
        ports_distinct(services_model(candidates@)),
    ensures
        ascending(services_model(r@)),
        forall|x: ServiceView|
            services_model(r@).contains(x) <==> is_open_entry(
                services_model(candidates@),
                open@,
                x,
            ),
{
    let ghost cands = services_model(candidates@);
    let mut found: Vec<DiscoveredService> = Vec::new();
    let mut i: usize = 0;
    while i < candidates.len()
        invariant
            cands == services_model(candidates@),
            open.len() == candidates.len(),
            ports_distinct(cands),
            i <= candidates.len(),
            ascending(services_model(found@)),
            forall|x: ServiceView|
                services_model(found@).contains(x) <==> exists|k: int|
                    0 <= k < i && open@[k] && cands[k] == x,
        decreases candidates.len() - i,
    {
        if open[i] {
            let item = candidates[i].duplicate();
            let p = item.port;
            let ghost before = services_model(found@);
            let mut pos: usize = 0;
            while pos < found.len() && found[pos].port <= p
                invariant
                    before == services_model(found@),
                    pos <= found.len(),
                    forall|a: int| 0 <= a < pos ==> before[a].port <= p,
                decreases found.len() - pos,
            {
                pos = pos + 1;
            }
            proof {
                assert forall|a: int| 0 <= a < pos implies before[a].port < p by {
                    assert(before.contains(before[a]));
                    let k = choose|k: int| 0 <= k < i && open@[k] && cands[k] == before[a];
                    assert(cands[k].port != cands[i as int].port);
                }
            }
            found.insert(pos, item);
            let ghost after = services_model(found@);
            assert(after =~= before.insert(pos as int, cands[i as int]));
            assert forall|a: int, b: int| 0 <= a < b < after.len() implies (
            #[trigger] after[a]).port < (#[trigger] after[b]).port by {
                if b < pos {
                } else if b == pos {
                } else if a < pos {
                    assert(after[b] == before[b - 1]);
                    assert(before[pos as int].port > p);
                    assert(b - 1 == pos || before[pos as int].port < before[b - 1].port);
                } else if a == pos {
                    assert(after[b] == before[b - 1]);
                    assert(b - 1 == pos || before[pos as int].port < before[b - 1].port);
                } else {
                    assert(after[a] == before[a - 1]);
                    assert(after[b] == before[b - 1]);
                }
            }
            assert forall|x: ServiceView| after.contains(x) <==> exists|k: int|
                0 <= k < i + 1 && open@[k] && cands[k] == x by {
                if after.contains(x) {
                    let a = choose|a: int| 0 <= a < after.len() && after[a] == x;
                    if a < pos {
                        assert(before.contains(before[a]));
                    } else if a > pos {
                        assert(before.contains(before[a - 1]));
                    }
                }
                if exists|k: int| 0 <= k < i + 1 && open@[k] && cands[k] == x {
                    let k = choose|k: int| 0 <= k < i + 1 && open@[k] && cands[k] == x;
                    if k == i {
                        assert(after[pos as int] == x);
                    } else {
                        assert(before.contains(x));
                        let a = choose|a: int| 0 <= a < before.len() && before[a] == x;
                        if a < pos {
                            assert(after[a] == x);
                        } else {
                            assert(after[a + 1] == x);
                        }
                    }
                }
            }
        }
        i = i + 1;
    }
    found
}

} // verus!
