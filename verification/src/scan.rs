//! Planning a port scan and the command line decisions of the client.
use vstd::prelude::*;

use crate::text::{contains_seq, contains_str, parse_unsigned, parses_as_unsigned, decimal_value, unsigned_digits};

verus! {

/// The ports `min_port..=max_port`, ascending (none where `min_port > max_port`).
pub open spec fn port_range(min_port: u16, max_port: u16) -> Seq<u16> {
    if min_port <= max_port {
        Seq::new((max_port - min_port + 1) as nat, |i: int| (min_port + i) as u16)
    } else {
        Seq::empty()
    }
}

/// The ports that a scan of `min_port..=max_port` probes, in order.
pub fn scan_ports(min_port: u16, max_port: u16) -> (ports: Vec<u16>)
    ensures
        ports@ == port_range(min_port, max_port),
{
    let mut ports: Vec<u16> = Vec::new();
    if min_port > max_port {
        return ports;
    }
    let mut p: u16 = min_port;
    loop
        invariant
            min_port <= p <= max_port,
            ports@ == port_range(min_port, max_port).take(p - min_port),
        decreases max_port - p,
    {
        ports.push(p);
        assert(port_range(min_port, max_port).take(p - min_port + 1) =~= port_range(
            min_port,
            max_port,
        ).take(p - min_port).push(p));
        if p == max_port {
            assert(port_range(min_port, max_port).take(p - min_port + 1) =~= port_range(
                min_port,
                max_port,
            ));
            return ports;
        }
        p = p + 1;
    }
}

/// A scan probes every port of its range exactly once, in ascending order.
pub proof fn lemma_scan_covers_range(min_port: u16, max_port: u16, p: u16)
    ensures
        port_range(min_port, max_port).contains(p) <==> min_port <= p <= max_port,
        forall|i: int, j: int|
            0 <= i < j < port_range(min_port, max_port).len() ==> port_range(min_port, max_port)[i]
                < port_range(min_port, max_port)[j],
{
    if min_port <= p <= max_port {
        assert(port_range(min_port, max_port)[p - min_port] == p);
    }
}

/// The two port bounds given on the command line, in ascending order.
pub fn ordered_ports(a: u16, b: u16) -> (r: (u16, u16))
    ensures
        r.0 <= r.1,
        (r.0 == a && r.1 == b) || (r.0 == b && r.1 == a),
{
    if a <= b {
        (a, b)
    } else {
        (b, a)
    }
}

/// The connect timeout in seconds given as `text`; 1 where it is no `u64`.
pub fn timeout_or_default(text: &str) -> (secs: u64)
    ensures
        secs == if parses_as_unsigned(text@, u64::MAX) {
            decimal_value(unsigned_digits(text@)) as u64
        } else {
            1
        },
{
    match parse_unsigned(text, u64::MAX) {
        Some(v) => v,
        None => 1,
    }
}

/// The number of ports probed at once given as `text`; 1024 where it is no
/// `usize`.
pub fn concurrency_or_default(text: &str) -> (n: usize)
    ensures
        n == if parses_as_unsigned(text@, usize::MAX as u64) {
            decimal_value(unsigned_digits(text@)) as usize
        } else {
            1024
        },
{
    match parse_unsigned(text, usize::MAX as u64) {
        Some(v) => v as usize,
        None => 1024,
    }
}

/// The method token sent: the one asked for (`GET` by default); `GET` with
/// data becomes `POST`; an uploaded file makes it `PUT`.
pub open spec fn chosen_method(requested: Option<Seq<char>>, has_data: bool, uploads_file: bool) -> Seq<char> {
    let asked = match requested {
        Some(m) => m,
        None => "GET"@,
    };
    if uploads_file {
        "PUT"@
    } else if asked == "GET"@ && has_data {
        "POST"@
    } else {
        asked
    }
}

/// An upload is always sent with `PUT`, whatever method was asked for and
/// whether data was given; without an upload, data turns only a `GET` into a
/// `POST`, and any other request keeps the method asked for (`GET` where none
/// was).
pub proof fn lemma_method_choice(requested: Option<Seq<char>>, has_data: bool)
    ensures
        chosen_method(requested, has_data, true) == "PUT"@,
        chosen_method(None, false, false) == "GET"@,
        chosen_method(None, true, false) == "POST"@,
        chosen_method(Some("GET"@), true, false) == "POST"@,
        forall|m: Seq<char>| m != "GET"@ ==> #[trigger] chosen_method(Some(m), has_data, false) == m,
        chosen_method(requested, false, false) == match requested {
            Some(m) => m,
            None => "GET"@,
        },
{
}

pub fn select_method(requested: Option<&str>, has_data: bool, uploads_file: bool) -> (m: String)
    ensures
        m@ == chosen_method(
            match requested {
                Some(r) => Some(r@),
                None => None,
            },
            has_data,
            uploads_file,
        ),
{
    if uploads_file {
        return String::from_str("PUT");
    }
    let get = "GET";
    let asked = match requested {
        Some(r) => String::from_str(r),
        None => String::from_str(get),
    };
    let get_string = String::from_str(get);
    if asked == get_string && has_data {
        String::from_str("POST")
    } else {
        asked
    }
}

/// The post data that uploads the file at `path`.
pub fn upload_post_data(path: &str) -> (data: String)
    ensures
        data@ == "@"@ + path@,
{
    let mut data = String::from_str("@");
    data.append(path);
    data
}

/// The user agent sent where none is given.
pub fn default_user_agent(version: &str) -> (agent: String)
    ensures
        agent@ == "frizz / "@ + version@,
{
    let mut agent = String::from_str("frizz / ");
    agent.append(version);
    agent
}

/// The target is fetched over HTTP(S) when it starts with `http`; other
/// targets are scanned or opened as a socket.
pub fn is_http_target(target: &str) -> (b: bool)
    ensures
        b == (target@.len() >= 4 && target@.take(4) == "http"@),
{
    let c = crate::text::chars_of(target);
    let h = "http";
    proof {
        reveal_strlit("http");
    }
    if c.len() < 4 {
        return false;
    }
    let r = c[0] == 'h' && c[1] == 't' && c[2] == 't' && c[3] == 'p';
    if r {
        assert(c@.take(4) =~= h@);
    } else {
        assert(c@.take(4)[0] != h@[0] || c@.take(4)[1] != h@[1] || c@.take(4)[2] != h@[2]
            || c@.take(4)[3] != h@[3]);
    }
    r
}

/// With `--fail`, the output of a request whose status does not hold `200`
/// is dropped.
pub fn output_suppressed(fail: bool, status_code: &str) -> (b: bool)
    ensures
        b == (fail && !contains_seq(status_code@, "200"@)),
{
    fail && !contains_str(status_code, "200")
}

} // verus!
