//! The outbound wire encoding: JSON text frames built byte by byte, with
//! a verified string escaper, plus the WebSocket URL. The exact bytes of
//! every frame the harness sends are pinned down here.

use vstd::prelude::*;
use crate::bytes::{ascii_bytes, ascii_view, push_bytes, push_lit, spec_dec_render, spec_hex_digit,
    render_u16_dec};
use crate::filter::FilterValue;
use crate::tokens::views_of;

verus! {

/// The JSON escape of one byte: quote and backslash get a backslash,
/// control bytes become `\u00XX`, everything else stands as itself.
pub open spec fn spec_escaped_byte(b: u8) -> Seq<u8> {
    if b == 0x22 {
        seq![0x5c as u8, 0x22 as u8]
    } else if b == 0x5c {
        seq![0x5c as u8, 0x5c as u8]
    } else if b < 0x20 {
        seq![
            0x5c as u8,
            'u' as u8,
            '0' as u8,
            '0' as u8,
            spec_hex_digit((b >> 4) as u32),
            spec_hex_digit((b & 0xF) as u32),
        ]
    } else {
        seq![b]
    }
}

/// The JSON escape of a byte string.
pub open spec fn spec_escaped(s: Seq<u8>) -> Seq<u8>
    decreases s.len(),
{
    if s.len() == 0 {
        Seq::empty()
    } else {
        spec_escaped(s.drop_last()) + spec_escaped_byte(s.last())
    }
}

/// Append the JSON escape of `s`.
fn push_escaped(out: &mut Vec<u8>, s: &Vec<u8>)
    ensures
        final(out)@ == old(out)@ + spec_escaped(s@),
{
    let ghost base = out@;
    let mut i: usize = 0;
    while i < s.len()
        invariant
            0 <= i <= s@.len(),
            out@ =~= base + spec_escaped(s@.take(i as int)),
        decreases s@.len() - i,
    {
        let b = s[i];
        if b == 0x22 {
            out.push(0x5c);
            out.push(0x22);
        } else if b == 0x5c {
            out.push(0x5c);
            out.push(0x5c);
        } else if b < 0x20 {
            let hi = b >> 4;
            let lo = b & 0xF;
            proof {
                assert((b >> 4) < 16 && (b & 0xF) < 16) by (bit_vector);
            }
            out.push(0x5c);
            out.push('u' as u8);
            out.push('0' as u8);
            out.push('0' as u8);
            out.push(if hi < 10 {
                0x30 + hi
            } else {
                0x57 + hi
            });
            out.push(if lo < 10 {
                0x30 + lo
            } else {
                0x57 + lo
            });
        } else {
            out.push(b);
        }
        proof {
            assert(s@.take(i + 1).drop_last() =~= s@.take(i as int));
            assert(s@.take(i + 1).last() == s@[i as int]);
            assert(out@ =~= base + spec_escaped(s@.take(i + 1)));
        }
        i = i + 1;
    }
    proof {
        assert(s@.take(s@.len() as int) =~= s@);
    }
}

/// One address rendered as a quoted, escaped JSON string.
pub open spec fn spec_quoted(s: Seq<u8>) -> Seq<u8> {
    ascii_view("\"") + spec_escaped(s) + ascii_view("\"")
}

/// A comma-separated JSON array body of quoted addresses.
pub open spec fn spec_vals_json(vs: Seq<Seq<u8>>) -> Seq<u8>
    decreases vs.len(),
{
    if vs.len() == 0 {
        Seq::empty()
    } else if vs.len() == 1 {
        spec_quoted(vs[0])
    } else {
        spec_vals_json(vs.drop_last()) + ascii_view(",") + spec_quoted(vs.last())
    }
}

/// The filter document as JSON: `{"key":"…","cmp":"eq","val":"…"}` or
/// `{"key":"…","cmp":"in","vals":["…",…]}`.
pub open spec fn spec_filter_json(f: FilterValue) -> Seq<u8> {
    match f {
        FilterValue::Single { key, cmp, val } => ascii_view("{\"key\":\"") + spec_escaped(key@)
            + ascii_view("\",\"cmp\":\"") + spec_escaped(cmp@) + ascii_view("\",\"val\":\"")
            + spec_escaped(val@) + ascii_view("\"}"),
        FilterValue::Multiple { key, cmp, vals } => ascii_view("{\"key\":\"") + spec_escaped(key@)
            + ascii_view("\",\"cmp\":\"") + spec_escaped(cmp@) + ascii_view("\",\"vals\":[")
            + spec_vals_json(views_of(vals@)) + ascii_view("]}"),
    }
}

/// Encode a filter document.
pub fn filter_json(f: &FilterValue) -> (r: Vec<u8>)
    ensures
        r@ == spec_filter_json(*f),
{
    proof {
        reveal_strlit("{\"key\":\"");
        reveal_strlit("\",\"cmp\":\"");
        reveal_strlit("\",\"val\":\"");
        reveal_strlit("\",\"vals\":[");
        reveal_strlit("\"}");
        reveal_strlit("]}");
        reveal_strlit("\"");
        reveal_strlit(",");
    }
    let mut out: Vec<u8> = Vec::new();
    match f {
        FilterValue::Single { key, cmp, val } => {
            push_lit(&mut out, "{\"key\":\"");
            push_escaped(&mut out, key);
            push_lit(&mut out, "\",\"cmp\":\"");
            push_escaped(&mut out, cmp);
            push_lit(&mut out, "\",\"val\":\"");
            push_escaped(&mut out, val);
            push_lit(&mut out, "\"}");
            proof {
                assert(out@ =~= spec_filter_json(*f));
            }
        },
        FilterValue::Multiple { key, cmp, vals } => {
            push_lit(&mut out, "{\"key\":\"");
            push_escaped(&mut out, key);
            push_lit(&mut out, "\",\"cmp\":\"");
            push_escaped(&mut out, cmp);
            push_lit(&mut out, "\",\"vals\":[");
            let ghost base = out@;
            let mut k: usize = 0;
            while k < vals.len()
                invariant
                    0 <= k <= vals@.len(),
                    out@ =~= base + spec_vals_json(views_of(vals@).take(k as int)),
                decreases vals@.len() - k,
            {
                proof {
                    reveal_strlit("\"");
                    reveal_strlit(",");
                }
                if k > 0 {
                    push_lit(&mut out, ",");
                }
                push_lit(&mut out, "\"");
                push_escaped(&mut out, &vals[k]);
                push_lit(&mut out, "\"");
                proof {
                    let vs = views_of(vals@);
                    assert(vs.take(k + 1).drop_last() =~= vs.take(k as int));
                    assert(vs.take(k + 1).last() == vs[k as int]);
                    assert(vs[k as int] == vals@[k as int]@);
                    if k == 0 {
                        assert(spec_vals_json(vs.take(1)) == spec_quoted(vs[0]));
                        assert(out@ =~= base + spec_vals_json(vs.take(k + 1)));
                    } else {
                        assert(out@ =~= base + spec_vals_json(vs.take(k + 1)));
                    }
                }
                k = k + 1;
            }
            push_lit(&mut out, "]}");
            proof {
                assert(views_of(vals@).take(vals@.len() as int) =~= views_of(vals@));
                assert(out@ =~= spec_filter_json(*f));
            }
        },
    }
    out
}

/// The subscribe (and filter-update) frame:
/// `{"event":"pusher:subscribe","data":{"channel":"…","filter":…}}`.
pub open spec fn spec_subscribe_json(channel: Seq<u8>, f: FilterValue) -> Seq<u8> {
    ascii_view("{\"event\":\"pusher:subscribe\",\"data\":{\"channel\":\"") + spec_escaped(channel)
        + ascii_view("\",\"filter\":") + spec_filter_json(f) + ascii_view("}}")
}

/// Encode a subscribe frame.
pub fn subscribe_json(channel: &Vec<u8>, f: &FilterValue) -> (r: Vec<u8>)
    ensures
        r@ == spec_subscribe_json(channel@, *f),
{
    proof {
        reveal_strlit("{\"event\":\"pusher:subscribe\",\"data\":{\"channel\":\"");
        reveal_strlit("\",\"filter\":");
        reveal_strlit("}}");
    }
    let mut out: Vec<u8> = Vec::new();
    push_lit(&mut out, "{\"event\":\"pusher:subscribe\",\"data\":{\"channel\":\"");
    push_escaped(&mut out, channel);
    push_lit(&mut out, "\",\"filter\":");
    let mut fj = filter_json(f);
    out.append(&mut fj);
    push_lit(&mut out, "}}");
    proof {
        assert(out@ =~= spec_subscribe_json(channel@, *f));
    }
    out
}

/// The reply to a `pusher:ping` control event.
pub open spec fn spec_pong_control() -> Seq<u8> {
    ascii_view("{\"event\":\"pusher:pong\",\"data\":{}}")
}

/// Encode the `pusher:pong` control reply.
pub fn pong_control() -> (r: Vec<u8>)
    ensures
        r@ == spec_pong_control(),
{
    proof {
        reveal_strlit("{\"event\":\"pusher:pong\",\"data\":{}}");
    }
    ascii_bytes("{\"event\":\"pusher:pong\",\"data\":{}}")
}

/// The raw heartbeat text and its reply.
pub open spec fn spec_raw_ping() -> Seq<u8> {
    ascii_view("ping")
}

pub open spec fn spec_raw_pong() -> Seq<u8> {
    ascii_view("pong")
}

/// Encode the raw heartbeat reply.
pub fn raw_pong() -> (r: Vec<u8>)
    ensures
        r@ == spec_raw_pong(),
{
    proof {
        reveal_strlit("pong");
    }
    ascii_bytes("pong")
}

/// The WebSocket URL: `wss://host:port/app/key` when the port is 443,
/// `ws://…` otherwise.
pub open spec fn spec_url(host: Seq<u8>, port: u16, app_key: Seq<u8>) -> Seq<u8> {
    (if port == 443 {
        ascii_view("wss://")
    } else {
        ascii_view("ws://")
    }) + host + ascii_view(":") + spec_dec_render(port as int) + ascii_view("/app/") + app_key
}

/// Build the WebSocket URL for a host, port and application key.
pub fn build_url(host: &Vec<u8>, port: u16, app_key: &Vec<u8>) -> (r: Vec<u8>)
    ensures
        r@ == spec_url(host@, port, app_key@),
{
    proof {
        reveal_strlit("wss://");
        reveal_strlit("ws://");
        reveal_strlit(":");
        reveal_strlit("/app/");
    }
    let mut out: Vec<u8> = Vec::new();
    if port == 443 {
        push_lit(&mut out, "wss://");
    } else {
        push_lit(&mut out, "ws://");
    }
    push_bytes(&mut out, host);
    push_lit(&mut out, ":");
    let mut p = render_u16_dec(port);
    out.append(&mut p);
    push_lit(&mut out, "/app/");
    push_bytes(&mut out, app_key);
    proof {
        assert(out@ =~= spec_url(host@, port, app_key@));
    }
    out
}

} // verus!
