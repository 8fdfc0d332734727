//! Broker message framing: the two MQTT 3.1.1 packets this process sends,
//! CONNECT and PUBLISH at quality-of-service zero, built as exact byte
//! strings for the transport to write.

use vstd::prelude::*;

use crate::bytes::{ascii_bytes, lit, push_bytes};

verus! {

/// The variable-length remaining-length encoding: seven bits per byte,
/// least significant group first, high bit set on every byte but the last.
pub open spec fn varint(n: nat) -> Seq<u8>
    decreases n,
{
    if n < 128 {
        seq![n as u8]
    } else {
        seq![(128 + n % 128) as u8] + varint(n / 128)
    }
}

/// A big-endian two-byte length.
pub open spec fn len16(n: nat) -> Seq<u8>
    recommends
        n < 65536,
{
    seq![(n / 256) as u8, (n % 256) as u8]
}

/// A length-prefixed field.
pub open spec fn prefixed(s: Seq<u8>) -> Seq<u8>
    recommends
        s.len() < 65536,
{
    len16(s.len()) + s
}

/// The CONNECT packet: protocol name and level, the flags asking for a
/// clean session with username and password, the keepalive, and the three
/// credential fields.
pub open spec fn spec_connect_packet(
    client_id: Seq<u8>,
    username: Seq<u8>,
    password: Seq<u8>,
    keepalive: nat,
) -> Seq<u8> {
    let body = prefixed(ascii_bytes("MQTT"@)) + seq![4u8, 0xc2u8] + len16(keepalive) + prefixed(
        client_id,
    ) + prefixed(username) + prefixed(password);
    seq![0x10u8] + varint(body.len()) + body
}

/// The PUBLISH packet at quality-of-service zero: the retain bit, the
/// topic, and the raw payload.
pub open spec fn spec_publish_packet(topic: Seq<u8>, payload: Seq<u8>, retain: bool) -> Seq<u8> {
    let body = prefixed(topic) + payload;
    seq![
        (if retain {
            0x31u8
        } else {
            0x30u8
        }),
    ] + varint(body.len()) + body
}

/// Appends the remaining-length encoding of `n`.
fn push_varint(n: u32, out: &mut Vec<u8>)
    ensures
        final(out)@ == old(out)@ + varint(n as nat),
    decreases n,
{
    if n < 128 {
        out.push(n as u8);
        proof {
            assert(out@ =~= old(out)@ + varint(n as nat));
        }
    } else {
        out.push(128 + (n % 128) as u8);
        push_varint(n / 128, out);
        proof {
            assert(out@ =~= old(out)@ + varint(n as nat));
        }
    }
}

/// Appends a big-endian two-byte length.
fn push_len16(n: u16, out: &mut Vec<u8>)
    ensures
        final(out)@ == old(out)@ + len16(n as nat),
{
    out.push((n / 256) as u8);
    out.push((n % 256) as u8);
    proof {
        assert(out@ =~= old(out)@ + len16(n as nat));
    }
}

/// Appends a length-prefixed field.
fn push_prefixed(s: &[u8], out: &mut Vec<u8>)
    requires
        s@.len() < 65536,
    ensures
        final(out)@ == old(out)@ + prefixed(s@),
{
    push_len16(s.len() as u16, out);
    push_bytes(out, s);
    proof {
        assert(out@ =~= old(out)@ + prefixed(s@));
    }
}

/// Builds the CONNECT packet for the broker session.
pub fn connect_packet(
    client_id: &[u8],
    username: &[u8],
    password: &[u8],
    keepalive: u16,
) -> (r: Vec<u8>)
    requires
        client_id@.len() < 65536,
        username@.len() < 65536,
        password@.len() < 65536,
    ensures
        r@ == spec_connect_packet(client_id@, username@, password@, keepalive as nat),
{
    proof {
        reveal_strlit("MQTT");
    }
    let mut body: Vec<u8> = Vec::new();
    let proto = lit("MQTT");
    push_prefixed(proto.as_slice(), &mut body);
    body.push(4u8);
    body.push(0xc2u8);
    push_len16(keepalive, &mut body);
    push_prefixed(client_id, &mut body);
    push_prefixed(username, &mut body);
    push_prefixed(password, &mut body);
    let mut r: Vec<u8> = Vec::new();
    r.push(0x10u8);
    push_varint(body.len() as u32, &mut r);
    push_bytes(&mut r, body.as_slice());
    proof {
        assert(r@ =~= spec_connect_packet(client_id@, username@, password@, keepalive as nat));
    }
    r
}

/// Builds a PUBLISH packet for one sample.
pub fn publish_packet(topic: &[u8], payload: &[u8], retain: bool) -> (r: Vec<u8>)
    requires
        topic@.len() < 65536,
        payload@.len() < 200000000,
    ensures
        r@ == spec_publish_packet(topic@, payload@, retain),
{
    let mut body: Vec<u8> = Vec::new();
    push_prefixed(topic, &mut body);
    push_bytes(&mut body, payload);
    let mut r: Vec<u8> = Vec::new();
    if retain {
        r.push(0x31u8);
    } else {
        r.push(0x30u8);
    }
    push_varint(body.len() as u32, &mut r);
    push_bytes(&mut r, body.as_slice());
    proof {
        assert(r@ =~= spec_publish_packet(topic@, payload@, retain));
    }
    r
}

} // verus!
