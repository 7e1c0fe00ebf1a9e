//! The nmap service table: which ports a protocol lists, under which names.
use std::collections::HashMap;
use vstd::prelude::*;

use crate::protocol::{get_transport_layer_protocol_name, protocol_name, TransportLayerProtocol};
use crate::text::{decimal_value, is_ascii_digit, parse_port, parses_as_port, port_value, unsigned_digits};

verus! {

broadcast use vstd::std_specs::hash::group_hash_axioms;

/// A line of the table matched by the pattern: the service name (group 1)
/// and the port digits (group 2).
pub type CaptureView = (Seq<char>, Seq<char>);

/// What `regex::Regex::captures_iter` yields, in order, for the regex
/// compiled from `pattern` run over `text`: groups 1 and 2 of each match.
pub uninterp spec fn regex_group_pairs(pattern: Seq<char>, text: Seq<char>) -> Seq<CaptureView>;

/// The regex that selects the lines of a protocol: `(\w+)\t(\d+)/<name>`.
pub open spec fn service_pattern(t: TransportLayerProtocol) -> Seq<char> {
    seq!['(', '\\', 'w', '+', ')', '\\', 't', '(', '\\', 'd', '+', ')', '/'] + protocol_name(t)
}

/// A pattern that `service_pattern` builds for some protocol.
pub open spec fn is_service_pattern(p: Seq<char>) -> bool {
    exists|t: TransportLayerProtocol| p == service_pattern(t)
}

/// The group pairs of the lines of `text` that list protocol `t`.
pub open spec fn service_captures(t: TransportLayerProtocol, text: Seq<char>) -> Seq<CaptureView> {
    regex_group_pairs(service_pattern(t), text)
}

/// The plain view of pairs of strings.
pub open spec fn pairs_view(v: Seq<(String, String)>) -> Seq<CaptureView> {
    v.map_values(|p: (String, String)| (p.0@, p.1@))
}

/// Runs `regex::Regex::captures_iter` with the regex compiled by
/// `regex::Regex::new` from `pattern` over `text`, and hands out groups 1
/// and 2 of each match. The contract claims that the result is the named
/// value `regex_group_pairs` of the pattern and the text, nothing more; the
/// `requires` admits only the patterns of `service_pattern`, which compile
/// and whose two groups take part in every match, so neither the
/// compilation nor the group indexing panics.
#[verifier::external_body]
fn regex_captures(pattern: &str, text: &str) -> (caps: Vec<(String, String)>)
    requires
        is_service_pattern(pattern@),
    ensures
        pairs_view(caps@) == regex_group_pairs(pattern@, text@),
{
    let re = regex::Regex::new(pattern).unwrap();
    re.captures_iter(text).map(|c| (c[1].to_string(), c[2].to_string())).collect()
}

/// Builds the regex source that selects the lines of protocol `t`.
pub fn service_table_pattern(t: TransportLayerProtocol) -> (p: String)
    ensures
        p@ == service_pattern(t),
{
    let prefix = "(\\w+)\\t(\\d+)/";
    proof {
        reveal_strlit("(\\w+)\\t(\\d+)/");
    }
    let mut p = String::from_str(prefix);
    p.append(get_transport_layer_protocol_name(t));
    assert(p@ =~= service_pattern(t));
    p
}

/// The service name and port digits of each line of `ports_str` that lists
/// protocol `t`, in the order of the table.
pub fn service_captures_of(ports_str: &str, t: TransportLayerProtocol) -> (caps: Vec<(String, String)>)
    ensures
        pairs_view(caps@) == service_captures(t, ports_str@),
{
    let pattern = service_table_pattern(t);
    regex_captures(pattern.as_str(), ports_str)
}

/// Every captured port is a number that fits in a `u16`.
pub open spec fn ports_parse(caps: Seq<CaptureView>) -> bool {
    forall|i: int| 0 <= i < caps.len() ==> #[trigger] parses_as_port(caps[i].1)
}

/// Every port that fits in a `u16` is accepted, up to 65535: where each
/// captured port is a non-empty run of ASCII digits denoting at most 65535,
/// the captures parse, and each port is the number its digits denote.
pub proof fn lemma_u16_ports_accepted(caps: Seq<CaptureView>)
    requires
        forall|i: int|
            0 <= i < caps.len() ==> {
                &&& (#[trigger] caps[i]).1.len() > 0
                &&& forall|j: int| 0 <= j < caps[i].1.len() ==> is_ascii_digit(#[trigger] caps[i].1[j])
                &&& decimal_value(caps[i].1) <= 65535
            },
    ensures
        ports_parse(caps),
        forall|i: int| 0 <= i < caps.len() ==> ports_of(caps)[i] as int == decimal_value(#[trigger] caps[i].1),
{
    assert forall|i: int| 0 <= i < caps.len() implies #[trigger] parses_as_port(caps[i].1) by {
        let d = caps[i].1;
        assert(is_ascii_digit(d[0]));
        assert(unsigned_digits(d) == d);
    }
    assert forall|i: int| 0 <= i < caps.len() implies ports_of(caps)[i] as int == decimal_value(#[trigger] caps[i].1) by {
        let d = caps[i].1;
        assert(is_ascii_digit(d[0]));
        assert(unsigned_digits(d) == d);
    }
}

/// The ports of the captured lines, in order.
pub open spec fn ports_of(caps: Seq<CaptureView>) -> Seq<u16> {
    caps.map_values(|c: CaptureView| port_value(c.1))
}

/// The name of each captured port; where a port is listed twice, the later
/// line wins.
pub open spec fn names_by_port(caps: Seq<CaptureView>) -> Map<u16, Seq<char>>
    decreases caps.len(),
{
    if caps.len() == 0 {
        Map::empty()
    } else {
        names_by_port(caps.drop_last()).insert(port_value(caps.last().1), caps.last().0)
    }
}

/// `m` with `suffix` appended to each value.
pub open spec fn with_suffix(m: Map<u16, Seq<char>>, suffix: Seq<char>) -> Map<u16, Seq<char>> {
    Map::new(|k: u16| m.dom().contains(k), |k: u16| m[k] + suffix)
}

/// A map of strings holds exactly the keys and (viewed) values of `s`.
pub open spec fn models(m: Map<u16, String>, s: Map<u16, Seq<char>>) -> bool {
    &&& m.dom() == s.dom()
    &&& forall|k: u16| #[trigger] m.dom().contains(k) ==> m[k]@ == s[k]
}

/// Whether every captured port parses.
pub fn all_ports_parse(caps: &Vec<(String, String)>) -> (b: bool)
    ensures
        b == ports_parse(pairs_view(caps@)),
{
    let ghost cv = pairs_view(caps@);
    let mut i: usize = 0;
    while i < caps.len()
        invariant
            cv == pairs_view(caps@),
            i <= caps.len(),
            forall|j: int| 0 <= j < i ==> #[trigger] parses_as_port(cv[j].1),
        decreases caps.len() - i,
    {
        assert(cv[i as int].1 == caps@[i as int].1@);
        if parse_port(caps[i].1.as_str()).is_none() {
            assert(!parses_as_port(cv[i as int].1));
            return false;
        }
        i = i + 1;
    }
    true
}

/// Inserts, in order, each captured port with its name followed by `suffix`.
fn insert_names(
    m: &mut HashMap<u16, String>,
    caps: &Vec<(String, String)>,
    suffix: &str,
    Ghost(base): Ghost<Map<u16, Seq<char>>>,
)
    requires
        ports_parse(pairs_view(caps@)),
        models(old(m)@, base),
    ensures
        models(
            final(m)@,
            base.union_prefer_right(with_suffix(names_by_port(pairs_view(caps@)), suffix@)),
        ),
{
    let ghost cv = pairs_view(caps@);
    let mut i: usize = 0;
    assert(cv.take(0) =~= Seq::<CaptureView>::empty());
    assert(base.union_prefer_right(with_suffix(names_by_port(cv.take(0)), suffix@)) =~= base);
    while i < caps.len()
        invariant
            cv == pairs_view(caps@),
            ports_parse(cv),
            i <= caps.len(),
            models(m@, base.union_prefer_right(with_suffix(names_by_port(cv.take(i as int)), suffix@))),
        decreases caps.len() - i,
    {
        let ghost before = base.union_prefer_right(with_suffix(names_by_port(cv.take(i as int)), suffix@));
        assert(cv[i as int] == (caps@[i as int].0@, caps@[i as int].1@));
        assert(parses_as_port(cv[i as int].1));
        let port = match parse_port(caps[i].1.as_str()) {
            Some(v) => v,
            None => {
                assert(false);
                0
            },
        };
        let mut value = caps[i].0.clone();
        value.append(suffix);
        let ghost v = value@;
        m.insert(port, value);
        proof {
            let t1 = cv.take(i + 1);
            assert(t1.drop_last() =~= cv.take(i as int));
            assert(t1.last() == cv[i as int]);
            let after = base.union_prefer_right(with_suffix(names_by_port(t1), suffix@));
            assert(after =~= before.insert(port, v));
        }
        i = i + 1;
    }
    assert(cv.take(caps.len() as int) =~= cv);
}

/// The service name of every port that the captured lines list.
pub fn names_from_captures(caps: &Vec<(String, String)>) -> (m: HashMap<u16, String>)
    requires
        ports_parse(pairs_view(caps@)),
    ensures
        models(m@, names_by_port(pairs_view(caps@))),
{
    let mut m: HashMap<u16, String> = HashMap::new();
    let empty = "";
    proof {
        reveal_strlit("");
    }
    insert_names(&mut m, caps, empty, Ghost(Map::empty()));
    proof {
        let n = names_by_port(pairs_view(caps@));
        assert forall|k: u16| n.dom().contains(k) implies n[k] + empty@ == n[k] by {
            assert(n[k] + empty@ =~= n[k]);
        }
        assert(Map::<u16, Seq<char>>::empty().union_prefer_right(with_suffix(n, empty@)) =~= n);
    }
    m
}

/// The port of every captured line, in order.
pub fn ports_from_captures(caps: &Vec<(String, String)>) -> (v: Vec<u16>)
    requires
        ports_parse(pairs_view(caps@)),
    ensures
        v@ == ports_of(pairs_view(caps@)),
{
    let ghost cv = pairs_view(caps@);
    let mut v: Vec<u16> = Vec::new();
    let mut i: usize = 0;
    while i < caps.len()
        invariant
            cv == pairs_view(caps@),
            ports_parse(cv),
            i <= caps.len(),
            v@ == ports_of(cv).take(i as int),
        decreases caps.len() - i,
    {
        assert(cv[i as int].1 == caps@[i as int].1@);
        assert(parses_as_port(cv[i as int].1));
        let port = match parse_port(caps[i].1.as_str()) {
            Some(p) => p,
            None => {
                assert(false);
                0
            },
        };
        v.push(port);
        assert(ports_of(cv).take(i + 1) =~= ports_of(cv).take(i as int).push(port));
        i = i + 1;
    }
    assert(ports_of(cv).take(caps.len() as int) =~= ports_of(cv));
    v
}

/// The service name of every port that the table `ports_str` lists for
/// protocol `t`; where a port is listed twice, the later line wins.
pub fn get_most_common_ports_with_name(ports_str: &str, t: TransportLayerProtocol) -> (m: HashMap<
    u16,
    String,
>)
    requires
        ports_parse(service_captures(t, ports_str@)),
    ensures
        models(m@, names_by_port(service_captures(t, ports_str@))),
{
    let caps = service_captures_of(ports_str, t);
    names_from_captures(&caps)
}

/// As `get_most_common_ports_with_name`, or `None` where a listed port of
/// protocol `t` does not fit in a `u16`.
pub fn try_get_most_common_ports_with_name(ports_str: &str, t: TransportLayerProtocol) -> (r:
    Option<HashMap<u16, String>>)
    ensures
        r is Some <==> ports_parse(service_captures(t, ports_str@)),
        r matches Some(m) ==> models(m@, names_by_port(service_captures(t, ports_str@))),
{
    let caps = service_captures_of(ports_str, t);
    if all_ports_parse(&caps) {
        Some(get_most_common_ports_with_name(ports_str, t))
    } else {
        None
    }
}

/// The ports that the table `ports_str` lists for protocol `t`, in the
/// order of the table, repeats included.
pub fn get_most_common_ports(ports_str: &str, t: TransportLayerProtocol) -> (v: Vec<u16>)
    requires
        ports_parse(service_captures(t, ports_str@)),
    ensures
        v@ == ports_of(service_captures(t, ports_str@)),
{
    let caps = service_captures_of(ports_str, t);
    ports_from_captures(&caps)
}

/// As `get_most_common_ports`, or `None` where a listed port of protocol `t`
/// does not fit in a `u16`.
pub fn try_get_most_common_ports(ports_str: &str, t: TransportLayerProtocol) -> (r: Option<
    Vec<u16>,
>)
    ensures
        r is Some <==> ports_parse(service_captures(t, ports_str@)),
        r matches Some(v) ==> v@ == ports_of(service_captures(t, ports_str@)),
{
    let caps = service_captures_of(ports_str, t);
    if all_ports_parse(&caps) {
        Some(get_most_common_ports(ports_str, t))
    } else {
        None
    }
}

/// The gap between a service name and its protocol in the detail table.
pub open spec fn detail_gap() -> Seq<char> {
    seq![' ', ' ', ' ', ' ', ' ', ' ', ' ']
}

/// The names of protocol `t`, each followed by the gap and the protocol name.
pub open spec fn tagged_names(t: TransportLayerProtocol, text: Seq<char>) -> Map<u16, Seq<char>> {
    with_suffix(names_by_port(service_captures(t, text)), detail_gap() + protocol_name(t))
}

/// The detail table: every port of udp, tcp or sctp with its tagged name,
/// where sctp takes precedence over tcp, and tcp over udp.
pub open spec fn details_of(text: Seq<char>) -> Map<u16, Seq<char>> {
    tagged_names(TransportLayerProtocol::Udp, text).union_prefer_right(
        tagged_names(TransportLayerProtocol::Tcp, text),
    ).union_prefer_right(tagged_names(TransportLayerProtocol::Sctp, text))
}

/// All three protocols of the detail table list only ports that parse.
pub open spec fn details_parse(text: Seq<char>) -> bool {
    &&& ports_parse(service_captures(TransportLayerProtocol::Udp, text))
    &&& ports_parse(service_captures(TransportLayerProtocol::Tcp, text))
    &&& ports_parse(service_captures(TransportLayerProtocol::Sctp, text))
}

fn detail_suffix(t: TransportLayerProtocol) -> (s: String)
    ensures
        s@ == detail_gap() + protocol_name(t),
{
    let gap = "       ";
    proof {
        reveal_strlit("       ");
    }
    let mut s = String::from_str(gap);
    s.append(get_transport_layer_protocol_name(t));
    assert(s@ =~= detail_gap() + protocol_name(t));
    s
}

/// The port detail table of the service table `ports_str`: each port of
/// udp, tcp and sctp, with its service name, seven spaces and the protocol;
/// a port listed for several protocols keeps the entry of the last of udp,
/// tcp, sctp.
pub fn get_details(ports_str: &str) -> (m: HashMap<u16, String>)
    requires
        details_parse(ports_str@),
    ensures
        models(m@, details_of(ports_str@)),
{
    let udp = service_captures_of(ports_str, TransportLayerProtocol::Udp);
    let tcp = service_captures_of(ports_str, TransportLayerProtocol::Tcp);
    let sctp = service_captures_of(ports_str, TransportLayerProtocol::Sctp);
    let mut m: HashMap<u16, String> = HashMap::new();
    let ghost empty = Map::<u16, Seq<char>>::empty();
    let ghost text = ports_str@;
    let s_udp = detail_suffix(TransportLayerProtocol::Udp);
    insert_names(&mut m, &udp, s_udp.as_str(), Ghost(empty));
    let ghost m1 = empty.union_prefer_right(tagged_names(TransportLayerProtocol::Udp, text));
    assert(m1 =~= tagged_names(TransportLayerProtocol::Udp, text));
    let s_tcp = detail_suffix(TransportLayerProtocol::Tcp);
    insert_names(&mut m, &tcp, s_tcp.as_str(), Ghost(m1));
    let ghost m2 = m1.union_prefer_right(tagged_names(TransportLayerProtocol::Tcp, text));
    let s_sctp = detail_suffix(TransportLayerProtocol::Sctp);
    insert_names(&mut m, &sctp, s_sctp.as_str(), Ghost(m2));
    m
}

/// As `get_details`, or `None` where a listed port of udp, tcp or sctp does
/// not fit in a `u16`.
pub fn try_get_details(ports_str: &str) -> (r: Option<HashMap<u16, String>>)
    ensures
        r is Some <==> details_parse(ports_str@),
        r matches Some(m) ==> models(m@, details_of(ports_str@)),
{
    let udp = service_captures_of(ports_str, TransportLayerProtocol::Udp);
    let tcp = service_captures_of(ports_str, TransportLayerProtocol::Tcp);
    let sctp = service_captures_of(ports_str, TransportLayerProtocol::Sctp);
    if all_ports_parse(&udp) && all_ports_parse(&tcp) && all_ports_parse(&sctp) {
        Some(get_details(ports_str))
    } else {
        None
    }
}

/// A port has a name in the table of a protocol exactly when the port list
/// of that protocol holds it: `get_most_common_ports_with_name` and
/// `get_most_common_ports` agree on which ports a protocol lists.
pub proof fn lemma_named_ports_are_listed(caps: Seq<CaptureView>)
    ensures
        names_by_port(caps).dom() == ports_of(caps).to_set(),
    decreases caps.len(),
{
    if caps.len() == 0 {
        assert(ports_of(caps).to_set() =~= Set::empty());
    } else {
        let init = caps.drop_last();
        lemma_named_ports_are_listed(init);
        assert(ports_of(caps) =~= ports_of(init).push(port_value(caps.last().1)));
        assert forall|p: u16| ports_of(caps).to_set().contains(p) == names_by_port(caps).dom().contains(p) by {
            if ports_of(caps).to_set().contains(p) {
                let j = choose|j: int| 0 <= j < ports_of(caps).len() && ports_of(caps)[j] == p;
                if j < init.len() {
                    assert(ports_of(init)[j] == p);
                    assert(ports_of(init).to_set().contains(p));
                }
            }
            if names_by_port(caps).dom().contains(p) && p != port_value(caps.last().1) {
                assert(ports_of(init).to_set().contains(p));
                let j = choose|j: int| 0 <= j < ports_of(init).len() && ports_of(init)[j] == p;
                assert(ports_of(caps)[j] == p);
            }
            if p == port_value(caps.last().1) {
                assert(ports_of(caps)[caps.len() - 1] == p);
            }
        }
        assert(names_by_port(caps).dom() =~= ports_of(caps).to_set());
    }
}

/// The name that a table gives a port is that of the last line listing it.
pub proof fn lemma_later_line_wins(caps: Seq<CaptureView>, i: int)
    requires
        0 <= i < caps.len(),
        forall|j: int| i < j < caps.len() ==> port_value(#[trigger] caps[j].1) != port_value(caps[i].1),
    ensures
        names_by_port(caps).dom().contains(port_value(caps[i].1)),
        names_by_port(caps)[port_value(caps[i].1)] == caps[i].0,
    decreases caps.len(),
{
    if i < caps.len() - 1 {
        let init = caps.drop_last();
        assert forall|j: int| i < j < init.len() implies port_value(#[trigger] init[j].1) != port_value(init[i].1) by {
            assert(init[j] == caps[j]);
        }
        lemma_later_line_wins(init, i);
        assert(caps[caps.len() - 1] == caps.last());
    }
}

/// The detail table lists exactly the ports of udp, tcp and sctp; a port
/// takes the sctp entry where sctp lists it, else the tcp entry where tcp
/// lists it, else the udp entry.
pub proof fn lemma_details_precedence(text: Seq<char>, k: u16)
    ensures
        details_of(text).dom().contains(k) <==> (names_by_port(
            service_captures(TransportLayerProtocol::Udp, text),
        ).dom().contains(k) || names_by_port(
            service_captures(TransportLayerProtocol::Tcp, text),
        ).dom().contains(k) || names_by_port(
            service_captures(TransportLayerProtocol::Sctp, text),
        ).dom().contains(k)),
        names_by_port(service_captures(TransportLayerProtocol::Sctp, text)).dom().contains(k)
            ==> details_of(text)[k] == names_by_port(
            service_captures(TransportLayerProtocol::Sctp, text),
        )[k] + detail_gap() + protocol_name(TransportLayerProtocol::Sctp),
        !names_by_port(service_captures(TransportLayerProtocol::Sctp, text)).dom().contains(k)
            && names_by_port(service_captures(TransportLayerProtocol::Tcp, text)).dom().contains(k)
            ==> details_of(text)[k] == names_by_port(
            service_captures(TransportLayerProtocol::Tcp, text),
        )[k] + detail_gap() + protocol_name(TransportLayerProtocol::Tcp),
        !names_by_port(service_captures(TransportLayerProtocol::Sctp, text)).dom().contains(k)
            && !names_by_port(service_captures(TransportLayerProtocol::Tcp, text)).dom().contains(k)
            && names_by_port(service_captures(TransportLayerProtocol::Udp, text)).dom().contains(k)
            ==> details_of(text)[k] == names_by_port(
            service_captures(TransportLayerProtocol::Udp, text),
        )[k] + detail_gap() + protocol_name(TransportLayerProtocol::Udp),
{
    let u = names_by_port(service_captures(TransportLayerProtocol::Udp, text));
    let t = names_by_port(service_captures(TransportLayerProtocol::Tcp, text));
    let s = names_by_port(service_captures(TransportLayerProtocol::Sctp, text));
    let su = detail_gap() + protocol_name(TransportLayerProtocol::Udp);
    let st = detail_gap() + protocol_name(TransportLayerProtocol::Tcp);
    let ss = detail_gap() + protocol_name(TransportLayerProtocol::Sctp);
    assert(u.dom().contains(k) ==> u[k] + su == u[k] + detail_gap() + protocol_name(
        TransportLayerProtocol::Udp,
    )) by {
        if u.dom().contains(k) {
            assert(u[k] + su =~= u[k] + detail_gap() + protocol_name(TransportLayerProtocol::Udp));
        }
    }
    assert(t.dom().contains(k) ==> t[k] + st == t[k] + detail_gap() + protocol_name(
        TransportLayerProtocol::Tcp,
    )) by {
        if t.dom().contains(k) {
            assert(t[k] + st =~= t[k] + detail_gap() + protocol_name(TransportLayerProtocol::Tcp));
        }
    }
    assert(s.dom().contains(k) ==> s[k] + ss == s[k] + detail_gap() + protocol_name(
        TransportLayerProtocol::Sctp,
    )) by {
        if s.dom().contains(k) {
            assert(s[k] + ss =~= s[k] + detail_gap() + protocol_name(TransportLayerProtocol::Sctp));
        }
    }
}

/// A udp entry never overrides a tcp or sctp one: where two tables hold the
/// same tcp lines and the same sctp lines, a port that tcp or sctp lists has
/// the same detail entry in both, whatever udp lines either holds.
pub proof fn lemma_udp_never_overrides(text1: Seq<char>, text2: Seq<char>, k: u16)
    requires
        service_captures(TransportLayerProtocol::Tcp, text1) == service_captures(
            TransportLayerProtocol::Tcp,
            text2,
        ),
        service_captures(TransportLayerProtocol::Sctp, text1) == service_captures(
            TransportLayerProtocol::Sctp,
            text2,
        ),
        names_by_port(service_captures(TransportLayerProtocol::Tcp, text1)).dom().contains(k)
            || names_by_port(service_captures(TransportLayerProtocol::Sctp, text1)).dom().contains(
            k,
        ),
    ensures
        details_of(text1).dom().contains(k),
        details_of(text2).dom().contains(k),
        details_of(text1)[k] == details_of(text2)[k],
{
    lemma_details_precedence(text1, k);
    lemma_details_precedence(text2, k);
}

/// The directory that holds the local copy of the service table.
pub fn frizz_dir(home: &str) -> (dir: String)
    ensures
        dir@ == home@ + "/.frizz/"@,
{
    let mut dir = String::from_str(home);
    dir.append("/.frizz/");
    dir
}

/// The local copy of the service table under the home directory `home`.
pub fn get_service_file(home: &str) -> (path: String)
    ensures
        path@ == home@ + "/.frizz/nmap-services"@,
{
    let mut path = String::from_str(home);
    path.append("/.frizz/nmap-services");
    path
}

} // verus!
