//! The forwarding proxy's request and response shaping: the outbound
//! target URL, the outbound header set (every inbound header but the
//! hop-specific host header, plus the gateway marker), the relayed
//! response with its instrumentation headers, and the mapping of an
//! upstream transport failure to the bad-gateway response.

use vstd::prelude::*;
use vstd::string::StringExecFns;
use vstd::string::StrSliceExecFns;
use crate::numfmt::dec_rep;
use crate::numfmt::latency_rep;
use crate::numfmt::latency_value;
use crate::numfmt::u64_to_decimal;

verus! {

/// One HTTP header as the gateway moves it around: a lower-case name and
/// its value.
pub struct Header {
    pub name: String,
    pub value: String,
}

impl View for Header {
    type V = (Seq<char>, Seq<char>);

    open spec fn view(&self) -> (Seq<char>, Seq<char>) {
        (self.name@, self.value@)
    }
}

/// The header views of a header list, in order.
pub open spec fn views(hs: Seq<Header>) -> Seq<(Seq<char>, Seq<char>)> {
    hs.map_values(|h: Header| h@)
}

/// Whether a header name is the hop-specific host header, in any casing.
pub open spec fn is_host_name(name: Seq<char>) -> bool {
    &&& name.len() == 4
    &&& (name[0] == 'h' || name[0] == 'H')
    &&& (name[1] == 'o' || name[1] == 'O')
    &&& (name[2] == 's' || name[2] == 'S')
    &&& (name[3] == 't' || name[3] == 'T')
}

/// Whether `name` names the host header.
pub fn is_host_header(name: &str) -> (b: bool)
    ensures
        b == is_host_name(name@),
{
    if name.unicode_len() != 4 {
        return false;
    }
    let c0 = name.get_char(0);
    let c1 = name.get_char(1);
    let c2 = name.get_char(2);
    let c3 = name.get_char(3);
    (c0 == 'h' || c0 == 'H') && (c1 == 'o' || c1 == 'O') && (c2 == 's' || c2 == 'S') && (c3 == 't'
        || c3 == 'T')
}

/// The marker header sent upstream on every forwarded request, naming the
/// gateway and its version.
pub open spec fn marker_header() -> (Seq<char>, Seq<char>) {
    ("x-forwarded-by"@, "nexusai-gateway/3.0"@)
}

/// The inbound headers that forwarding keeps: all of them, in order, except
/// the host header.
pub open spec fn kept_headers(hs: Seq<(Seq<char>, Seq<char>)>) -> Seq<(Seq<char>, Seq<char>)>
    decreases hs.len(),
{
    if hs.len() == 0 {
        Seq::empty()
    } else {
        let rest = kept_headers(hs.drop_last());
        if is_host_name(hs.last().0) {
            rest
        } else {
            rest.push(hs.last())
        }
    }
}

/// Builds the outbound header set for a forwarded request: every inbound
/// header except the host header, in inbound order, then the gateway
/// marker.
pub fn forward_headers(inbound: &Vec<Header>) -> (out: Vec<Header>)
    ensures
        views(out@) == kept_headers(views(inbound@)).push(marker_header()),
{
    let ghost m = views(inbound@);
    let mut out: Vec<Header> = Vec::new();
    let n = inbound.len();
    let mut i: usize = 0;
    while i < n
        invariant
            i <= n,
            n == inbound@.len(),
            m == views(inbound@),
            views(out@) == kept_headers(m.take(i as int)),
        decreases n - i,
    {
        proof {
            assert(m.take(i + 1 as int).drop_last() =~= m.take(i as int));
            assert(m.take(i + 1 as int).last() == inbound@[i as int]@);
        }
        if !is_host_header(inbound[i].name.as_str()) {
            let ghost prev = out@;
            let h = Header { name: inbound[i].name.clone(), value: inbound[i].value.clone() };
            assert(h@ == inbound@[i as int]@);
            out.push(h);
            proof {
                assert(views(out@) =~= views(prev).push(inbound@[i as int]@));
            }
        }
        i = i + 1;
    }
    proof {
        assert(m.take(n as int) =~= m);
    }
    let ghost before_marker = out@;
    out.push(
        Header {
            name: String::from_str("x-forwarded-by"),
            value: String::from_str("nexusai-gateway/3.0"),
        },
    );
    proof {
        assert(views(out@) =~= views(before_marker).push(marker_header()));
    }
    out
}

/// Passthrough fidelity of the outbound header set: the host header is
/// never among the kept headers, every kept header is an inbound one, and
/// every inbound header other than the host header is kept.
pub proof fn lemma_kept_headers_fidelity(hs: Seq<(Seq<char>, Seq<char>)>)
    ensures
        forall|j: int|
            0 <= j < kept_headers(hs).len() ==> !is_host_name(#[trigger] kept_headers(hs)[j].0),
        forall|j: int|
            0 <= j < kept_headers(hs).len() ==> hs.contains(#[trigger] kept_headers(hs)[j]),
        forall|i: int|
            0 <= i < hs.len() && !is_host_name(hs[i].0) ==> kept_headers(hs).contains(
                #[trigger] hs[i],
            ),
    decreases hs.len(),
{
    if hs.len() > 0 {
        let d = hs.drop_last();
        let k = kept_headers(hs);
        let kd = kept_headers(d);
        lemma_kept_headers_fidelity(d);
        assert forall|x: (Seq<char>, Seq<char>)| d.contains(x) implies hs.contains(x) by {
            let i = choose|i: int| 0 <= i < d.len() && d[i] == x;
            assert(hs[i] == x);
        }
        assert forall|x: (Seq<char>, Seq<char>)| kd.contains(x) implies k.contains(x) by {
            let j = choose|j: int| 0 <= j < kd.len() && kd[j] == x;
            assert(k[j] == x);
        }
        assert(hs.contains(hs.last())) by {
            assert(hs[hs.len() - 1] == hs.last());
        }
        if !is_host_name(hs.last().0) {
            assert(k.contains(hs.last())) by {
                assert(k[k.len() - 1] == hs.last());
            }
        }
        assert forall|i: int| 0 <= i < hs.len() && !is_host_name(hs[i].0) implies k.contains(
            hs[i],
        ) by {
            if i < hs.len() - 1 {
                assert(d[i] == hs[i]);
            }
        }
    }
}

/// The host header never goes upstream: no header in the full outbound
/// set — the kept inbound headers plus the gateway marker — names it.
pub proof fn lemma_forwarded_never_host(hs: Seq<(Seq<char>, Seq<char>)>)
    ensures
        forall|j: int|
            0 <= j < kept_headers(hs).push(marker_header()).len() ==> !is_host_name(
                #[trigger] kept_headers(hs).push(marker_header())[j].0,
            ),
{
    reveal_strlit("x-forwarded-by");
    lemma_kept_headers_fidelity(hs);
    let out = kept_headers(hs).push(marker_header());
    assert forall|j: int| 0 <= j < out.len() implies !is_host_name(out[j].0) by {
        if j < kept_headers(hs).len() {
            assert(out[j] == kept_headers(hs)[j]);
        } else {
            assert(out[j] == marker_header());
        }
    }
}

/// The target of a forwarded request: the configured upstream origin with
/// the inbound path and query appended verbatim (the root path when the
/// request had none).
pub fn upstream_url(origin: &str, path_and_query: Option<String>) -> (u: String)
    ensures
        u@ == origin@ + (match path_and_query {
            Option::Some(p) => p@,
            Option::None => "/"@,
        }),
{
    let mut u = origin.to_owned();
    match path_and_query {
        Option::Some(p) => u.append(p.as_str()),
        Option::None => u.append("/"),
    }
    u
}

/// An upstream response as received: status code, headers, and the full
/// buffered body.
pub struct UpstreamResponse {
    pub status: u16,
    pub headers: Vec<Header>,
    pub body: Vec<u8>,
}

/// The response the gateway returns to the caller.
pub struct GatewayResponse {
    pub status: u16,
    pub headers: Vec<Header>,
    pub body: Vec<u8>,
}

/// The latency instrumentation header for a request that took `hundredths`
/// hundredths of a millisecond.
pub open spec fn latency_header(hundredths: u64) -> (Seq<char>, Seq<char>) {
    ("x-gateway-latency-ms"@, latency_rep(hundredths as nat))
}

/// The remaining-quota telemetry header.
pub open spec fn remaining_header(remaining: u64) -> (Seq<char>, Seq<char>) {
    ("x-ratelimit-remaining"@, dec_rep(remaining as nat))
}

/// Shapes the caller's response for an admitted, successfully forwarded
/// request: the upstream status and body verbatim, the upstream headers in
/// order, then the latency header, then — when the rate check supplied one
/// — the remaining-quota header (a fail-open request carries none).
pub fn respond_admitted(upstream: UpstreamResponse, remaining: Option<u64>, hundredths: u64) -> (r:
    GatewayResponse)
    ensures
        r.status == upstream.status,
        r.body@ == upstream.body@,
        views(r.headers@) == views(upstream.headers@).push(latency_header(hundredths)) + (
        match remaining {
            Option::Some(n) => seq![remaining_header(n)],
            Option::None => Seq::empty(),
        }),
{
    let UpstreamResponse { status, mut headers, body } = upstream;
    let ghost base = headers@;
    headers.push(
        Header { name: String::from_str("x-gateway-latency-ms"), value: latency_value(hundredths) },
    );
    proof {
        assert(views(headers@) =~= views(base).push(latency_header(hundredths)));
    }
    let ghost with_latency = headers@;
    match remaining {
        Option::Some(n) => {
            headers.push(
                Header {
                    name: String::from_str("x-ratelimit-remaining"),
                    value: u64_to_decimal(n),
                },
            );
            proof {
                assert(views(headers@) =~= views(with_latency).push(remaining_header(n)));
                assert(views(headers@) =~= views(base).push(latency_header(hundredths)) + seq![
                    remaining_header(n),
                ]);
            }
        },
        Option::None => {
            proof {
                assert(views(headers@) =~= views(base).push(latency_header(hundredths))
                    + Seq::<(Seq<char>, Seq<char>)>::empty());
            }
        },
    }
    GatewayResponse { status, headers, body }
}

/// Maps an upstream transport failure to the terminal bad-gateway
/// response: status 502 with a structured payload naming the failure.
pub fn upstream_failure_response(error: &str) -> (r: (u16, String))
    ensures
        r.0 == 502,
        r.1@ == "{\"detail\":\"Upstream unavailable\",\"error\":\""@ + error@ + "\"}"@,
{
    let mut body = String::from_str("{\"detail\":\"Upstream unavailable\",\"error\":\"");
    body.append(error);
    body.append("\"}");
    (502, body)
}

} // verus!
