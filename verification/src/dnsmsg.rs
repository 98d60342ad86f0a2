//! The DNS message handling the proxy needs: recognizing a query and
//! extracting its first question's name, and synthesizing the blocked-query
//! response — the query itself turned into a success response with one
//! additional record appended, a SOA under a reserved invalid domain with a
//! five-second TTL, serving as a negative-cache hint.
//!
//! Only the message header and the first question are validated; full
//! RFC-complete validation of every section is out of scope, and a
//! compressed name in the question (a label length of 64 or more) is
//! treated as malformed.

use crate::chars::lower_char;
use crate::chars::lower_char_exec;
use crate::chars::string_from_chars;
use crate::codec::append_bytes;
use crate::codec::be16;
use crate::codec::be16_exec;
use crate::codec::push_u16;
use crate::codec::u16_hi;
use crate::codec::u16_lo;
use crate::codec::vec_range;
use vstd::prelude::*;

verus! {

/// Time to live, in seconds, of the negative-cache record a blocked query
/// is answered with.
pub const NEGATIVE_CACHE_TTL_SECONDS: u32 = 5;

/// The wire-format name of a DNS question starting at `i`: its labels
/// joined with dots, and the index just past the closing zero byte. Nothing
/// for a truncated name or a label length of 64 or more.
pub open spec fn spec_parse_name(b: Seq<u8>, i: int) -> Option<(Seq<u8>, int)>
    decreases b.len() - i,
{
    if i < 0 || i >= b.len() {
        None
    } else {
        let l = b[i] as int;
        if l == 0 {
            Some((Seq::empty(), i + 1))
        } else if l >= 64 {
            None
        } else if i + 1 + l > b.len() {
            None
        } else {
            match spec_parse_name(b, i + 1 + l) {
                None => None,
                Some(p) => {
                    let lab = b.subrange(i + 1, i + 1 + l);
                    Some(
                        (
                            if p.0.len() == 0 {
                                lab
                            } else {
                                lab + seq![46u8] + p.0
                            },
                            p.1,
                        ),
                    )
                },
            }
        }
    }
}

/// The lookup key a name's bytes yield: each byte as a character, ASCII
/// lowercased.
pub open spec fn spec_dns_name_chars(nb: Seq<u8>) -> Seq<char> {
    nb.map_values(|x: u8| lower_char(x as char))
}

/// The lookup key of a DNS query: present exactly when the payload holds a
/// message header, at least one question, and a well-formed first question.
pub open spec fn spec_dns_query_name(b: Seq<u8>) -> Option<Seq<char>> {
    if b.len() < 12 {
        None
    } else if be16(b[4], b[5]) == 0 {
        None
    } else {
        match spec_parse_name(b, 12) {
            None => None,
            Some(p) => if p.1 + 4 <= b.len() {
                Some(spec_dns_name_chars(p.0))
            } else {
                None
            },
        }
    }
}

fn parse_name(b: &Vec<u8>, i: usize) -> (r: Option<(Vec<u8>, usize)>)
    ensures
        match r {
            Some(p) => spec_parse_name(b@, i as int) == Some((p.0@, p.1 as int)) && i < p.1
                <= b@.len(),
            None => spec_parse_name(b@, i as int) is None,
        },
    decreases b@.len() - i,
{
    let n = b.len();
    if i >= n {
        return None;
    }
    let l = b[i] as usize;
    if l == 0 {
        let empty: Vec<u8> = Vec::new();
        return Some((empty, i + 1));
    }
    if l >= 64 {
        return None;
    }
    if l > n - i - 1 {
        return None;
    }
    match parse_name(b, i + 1 + l) {
        None => None,
        Some(p) => {
            let rest = p.0;
            let next = p.1;
            let mut nameb = vec_range(b, i + 1, i + 1 + l);
            if rest.len() > 0 {
                nameb.push(46);
                append_bytes(&mut nameb, &rest);
                proof {
                    assert(nameb@ =~= b@.subrange(i + 1, i + 1 + l as int) + seq![46u8]
                        + rest@);
                }
            }
            Some((nameb, next))
        },
    }
}

/// The first question's name of a DNS query, ASCII-lowercased; see
/// `spec_dns_query_name` for exactly when a name comes out.
pub fn dns_query_name(payload: &Vec<u8>) -> (r: Option<String>)
    ensures
        match r {
            Some(s) => spec_dns_query_name(payload@) == Some(s@),
            None => spec_dns_query_name(payload@) is None,
        },
{
    let n = payload.len();
    if n < 12 {
        return None;
    }
    if be16_exec(payload[4], payload[5]) == 0 {
        return None;
    }
    match parse_name(payload, 12) {
        None => None,
        Some(p) => {
            let nb = p.0;
            let next = p.1;
            if next > n - 4 {
                return None;
            }
            let m = nb.len();
            let mut chars: Vec<char> = Vec::new();
            let mut j: usize = 0;
            while j < m
                invariant
                    j <= m,
                    m == nb@.len(),
                    chars@ == spec_dns_name_chars(nb@.take(j as int)),
                decreases m - j,
            {
                chars.push(lower_char_exec(nb[j] as char));
                proof {
                    assert(nb@.take(j + 1) =~= nb@.take(j as int).push(nb@[j as int]));
                    assert(spec_dns_name_chars(nb@.take(j + 1)) =~= spec_dns_name_chars(
                        nb@.take(j as int),
                    ).push(lower_char(nb@[j as int] as char)));
                }
                j += 1;
            }
            proof {
                assert(nb@.take(m as int) =~= nb@);
            }
            Some(string_from_chars(&chars))
        },
    }
}

/// The name `dnsnet.dnsnet.invalid.` in wire format: the reserved domain
/// the negative-cache record lives under.
pub open spec fn spec_soa_name() -> Seq<u8> {
    seq![
        6u8,
        100u8,
        110u8,
        115u8,
        110u8,
        101u8,
        116u8,
        6u8,
        100u8,
        110u8,
        115u8,
        110u8,
        101u8,
        116u8,
        7u8,
        105u8,
        110u8,
        118u8,
        97u8,
        108u8,
        105u8,
        100u8,
        0u8,
    ]
}

/// The negative-cache additional record: a SOA record under the reserved
/// invalid domain, class IN, TTL five seconds, whose minimum field is the
/// same five seconds — the value a resolver takes as its negative-cache
/// time.
pub open spec fn spec_negative_record() -> Seq<u8> {
    spec_soa_name() + seq![0u8, 6u8, 0u8, 1u8, 0u8, 0u8, 0u8, 5u8, 0u8, 66u8] + spec_soa_name()
        + spec_soa_name() + Seq::new(19, |k: int| 0u8) + seq![5u8]
}

fn push_soa_name(out: &mut Vec<u8>)
    ensures
        final(out)@ == old(out)@ + spec_soa_name(),
{
    out.push(6);
    out.push(100);
    out.push(110);
    out.push(115);
    out.push(110);
    out.push(101);
    out.push(116);
    out.push(6);
    out.push(100);
    out.push(110);
    out.push(115);
    out.push(110);
    out.push(101);
    out.push(116);
    out.push(7);
    out.push(105);
    out.push(110);
    out.push(118);
    out.push(97);
    out.push(108);
    out.push(105);
    out.push(100);
    out.push(0);
    proof {
        assert(out@ =~= old(out)@ + spec_soa_name());
    }
}

fn append_negative_record(out: &mut Vec<u8>)
    ensures
        final(out)@ == old(out)@ + spec_negative_record(),
{
    let ghost base = out@;
    push_soa_name(out);
    out.push(0);
    out.push(6);
    out.push(0);
    out.push(1);
    out.push(0);
    out.push(0);
    out.push(0);
    out.push(5);
    out.push(0);
    out.push(66);
    push_soa_name(out);
    push_soa_name(out);
    let mut j: usize = 0;
    while j < 19
        invariant
            j <= 19,
            out@ == base + spec_soa_name() + seq![0u8, 6u8, 0u8, 1u8, 0u8, 0u8, 0u8, 5u8, 0u8, 66u8]
                + spec_soa_name() + spec_soa_name() + Seq::new(j as nat, |k: int| 0u8),
        decreases 19 - j,
    {
        out.push(0);
        proof {
            assert(Seq::new((j + 1) as nat, |k: int| 0u8) =~= Seq::new(j as nat, |k: int| 0u8).push(
                0u8,
            ));
            assert(out@ =~= base + spec_soa_name() + seq![
                0u8,
                6u8,
                0u8,
                1u8,
                0u8,
                0u8,
                0u8,
                5u8,
                0u8,
                66u8,
            ] + spec_soa_name() + spec_soa_name() + Seq::new((j + 1) as nat, |k: int| 0u8));
        }
        j += 1;
    }
    out.push(5);
    proof {
        assert(out@ =~= base + spec_negative_record());
    }
}

/// What a blocked query is answered with: the query itself with the
/// response flag set, a success response code, the additional-record count
/// raised by one, and the negative-cache record appended. Nothing for a
/// payload that is no well-formed query, or whose additional-record count
/// is already full.
pub open spec fn spec_blocked_reply(q: Seq<u8>) -> Option<Seq<u8>> {
    if spec_dns_query_name(q) is None {
        None
    } else if be16(q[10], q[11]) == 0xFFFF {
        None
    } else {
        let arc = (be16(q[10], q[11]) + 1) as u16;
        Some(
            q.update(2, ((q[2] as int) % 128 + 128) as u8).update(
                3,
                ((q[3] as int) / 16 * 16) as u8,
            ).update(10, u16_hi(arc)).update(11, u16_lo(arc)) + spec_negative_record(),
        )
    }
}

/// Builds the blocked-query response; see `spec_blocked_reply`.
pub fn blocked_reply(q: &Vec<u8>) -> (r: Option<Vec<u8>>)
    ensures
        match r {
            Some(v) => spec_blocked_reply(q@) == Some(v@),
            None => spec_blocked_reply(q@) is None,
        },
{
    let n = q.len();
    if n < 12 {
        return None;
    }
    if be16_exec(q[4], q[5]) == 0 {
        return None;
    }
    match parse_name(q, 12) {
        None => {
            return None;
        },
        Some(p) => {
            if p.1 > n - 4 {
                return None;
            }
        },
    }
    let arc = be16_exec(q[10], q[11]);
    if arc == 0xFFFF {
        return None;
    }
    let arc2 = arc + 1;
    let mut out: Vec<u8> = Vec::new();
    out.push(q[0]);
    out.push(q[1]);
    out.push(q[2] % 128 + 128);
    out.push((q[3] / 16) * 16);
    let mid = vec_range(q, 4, 10);
    append_bytes(&mut out, &mid);
    push_u16(&mut out, arc2);
    let rest = vec_range(q, 12, n);
    append_bytes(&mut out, &rest);
    proof {
        assert(out@ =~= q@.update(2, ((q@[2] as int) % 128 + 128) as u8).update(
            3,
            ((q@[3] as int) / 16 * 16) as u8,
        ).update(10, u16_hi(arc2)).update(11, u16_lo(arc2)));
    }
    append_negative_record(&mut out);
    Some(out)
}

} // verus!
