//! Wire codec: the binary encoding of the two message shapes that travel
//! between client and service.
//!
//! Both shapes use the classic protocol-buffer scalar wire format: integers
//! as base-128 varints (least significant group first, high bit of a byte
//! set when more bytes follow) and strings as a tag byte, a varint length,
//! and the raw bytes.

use vstd::prelude::*;
use vstd::arithmetic::div_mod::lemma_fundamental_div_mod;
use vstd::slice::{slice_subrange, slice_to_vec};
use crate::messages::ServiceError;
use crate::messages::DeviceIdentityMessage;
use crate::messages::ids_view;
use crate::messages::{AbConfig, AbInstallType, InstallConfig, OtaType, UpdateMetadataMessage, UpdateSummary};

verus! {

/// Smallest value whose varint continuation would overflow 64 bits: 2^57.
pub const VARINT_OVERFLOW_BOUND: u64 = 0x200000000000000;

/// One more than the largest value a varint may decode to: 2^64.
pub open spec fn varint_value_limit() -> int {
    0x10000000000000000
}

/// The bytes of the base-128 varint encoding of `n`, least significant
/// seven-bit group first; every byte but the last has its high bit set.
pub open spec fn varint_bytes(n: nat) -> Seq<u8>
    decreases n,
{
    if n < 128 {
        seq![n as u8]
    } else {
        seq![(128 + n % 128) as u8] + varint_bytes(n / 128)
    }
}

/// What a varint at the front of `s` decodes to, together with how many
/// bytes it occupies; `None` on empty or truncated input and on a value
/// that does not fit in 64 bits.
pub open spec fn varint_decode(s: Seq<u8>) -> Option<(int, int)>
    decreases s.len(),
{
    if s.len() == 0 {
        None
    } else if s[0] < 128 {
        Some((s[0] as int, 1))
    } else {
        match varint_decode(s.skip(1)) {
            None => None,
            Some((v, c)) => if v < VARINT_OVERFLOW_BOUND {
                Some((v * 128 + (s[0] - 128), c + 1))
            } else {
                None
            },
        }
    }
}

/// Appends the varint encoding of `n` to `out`.
pub fn encode_varint(out: &mut Vec<u8>, n: u64)
    ensures
        final(out)@ == old(out)@ + varint_bytes(n as nat),
    decreases n,
{
    if n < 128 {
        out.push(n as u8);
        assert(out@ =~= old(out)@ + varint_bytes(n as nat));
    } else {
        out.push((128 + n % 128) as u8);
        assert(n / 128 < n) by {
            lemma_fundamental_div_mod(n as int, 128);
        }
        encode_varint(out, n / 128);
        assert(out@ =~= old(out)@ + varint_bytes(n as nat));
    }
}

/// Reads the varint that starts at `pos`; returns its value and the
/// position of the first byte after it.
pub fn decode_varint(s: &[u8], pos: usize) -> (r: Option<(u64, usize)>)
    requires
        pos <= s@.len(),
    ensures
        match r {
            Some(vp) => {
                &&& varint_decode(s@.skip(pos as int)) == Some((vp.0 as int, vp.1 - pos as int))
                &&& pos < vp.1 <= s@.len()
            },
            None => varint_decode(s@.skip(pos as int)) is None,
        },
    decreases s@.len() - pos,
{
    if pos == s.len() {
        None
    } else {
        let b = s[pos];
        assert(s@.skip(pos as int)[0] == s@[pos as int]);
        if b < 128 {
            Some((b as u64, pos + 1))
        } else {
            assert(s@.skip(pos as int).skip(1) =~= s@.skip(pos as int + 1));
            match decode_varint(s, pos + 1) {
                None => None,
                Some((v, after)) => {
                    if v < VARINT_OVERFLOW_BOUND {
                        Some((v * 128 + (b - 128) as u64, after))
                    } else {
                        None
                    }
                },
            }
        }
    }
}

/// A varint encoding occupies at least one byte.
pub proof fn lemma_varint_bytes_nonempty(n: nat)
    ensures
        varint_bytes(n).len() >= 1,
{
}

/// Decoding a varint encoding recovers the encoded value, whatever bytes
/// follow it.
pub proof fn lemma_varint_round_trip(n: nat, rest: Seq<u8>)
    requires
        n < varint_value_limit(),
    ensures
        varint_decode(varint_bytes(n) + rest) == Some((
            n as int,
            varint_bytes(n).len() as int,
        )),
    decreases n,
{
    let e = varint_bytes(n);
    if n < 128 {
        assert((e + rest)[0] == n as u8);
    } else {
        let b: u8 = (128 + n % 128) as u8;
        assert((e + rest)[0] == b);
        assert(b >= 128);
        assert(n / 128 < n && n / 128 < VARINT_OVERFLOW_BOUND) by {
            lemma_fundamental_div_mod(n as int, 128);
        }
        assert((e + rest).skip(1) =~= varint_bytes(n / 128) + rest);
        lemma_varint_round_trip(n / 128, rest);
        assert((n / 128) * 128 + n % 128 == n) by {
            lemma_fundamental_div_mod(n as int, 128);
        }
        assert(b - 128 == n % 128);
    }
}

/// Tag byte of the repeated device identifier field of a device identity
/// message: field number 1, length-delimited.
pub const IDENTITY_DEVICE_TAG: u8 = 0x0a;

/// The encoding of a single device identifier record: tag, length, bytes.
pub open spec fn identity_record_bytes(id: Seq<u8>) -> Seq<u8> {
    seq![IDENTITY_DEVICE_TAG] + varint_bytes(id.len()) + id
}

/// The encoding of a whole device identity message: its identifier
/// records, in order, concatenated.
pub open spec fn identity_bytes(ids: Seq<Seq<u8>>) -> Seq<u8>
    decreases ids.len(),
{
    if ids.len() == 0 {
        Seq::empty()
    } else {
        identity_record_bytes(ids[0]) + identity_bytes(ids.skip(1))
    }
}

/// A device identity message is well formed when every identifier's
/// length has a varint encoding, i.e. fits in 64 bits.
pub open spec fn ids_wf(ids: Seq<Seq<u8>>) -> bool {
    forall|i: int| 0 <= i < ids.len() ==> #[trigger] ids[i].len() < varint_value_limit()
}

/// What a byte buffer parses to as a device identity message: the ordered
/// identifier list, or `None` on a foreign tag, a truncated or overlong
/// varint, or a length that runs past the end of the buffer.
pub open spec fn identity_parse(s: Seq<u8>) -> Option<Seq<Seq<u8>>>
    decreases s.len(),
{
    if s.len() == 0 {
        Some(Seq::empty())
    } else if s[0] != IDENTITY_DEVICE_TAG {
        None
    } else {
        match varint_decode(s.skip(1)) {
            None => None,
            Some((l, c)) => if 0 <= l && 1 <= c && 1 + c + l <= s.len() {
                match identity_parse(s.skip(1 + c + l)) {
                    None => None,
                    Some(rest) => Some(seq![s.subrange(1 + c, 1 + c + l)] + rest),
                }
            } else {
                None
            },
        }
    }
}

/// Serializes a device identity message.  Deterministic and total: the
/// result is a function of the identifier list alone.
pub fn encode_identity(msg: &DeviceIdentityMessage) -> (r: Vec<u8>)
    ensures
        r@ == identity_bytes(msg@),
{
    let mut out: Vec<u8> = Vec::new();
    assert(out@ =~= Seq::<u8>::empty() + out@);
    encode_ids_from(&msg.devices, 0, &mut out);
    proof {
        assert(ids_view(msg.devices@).skip(0) =~= msg@);
        assert(Seq::<u8>::empty() + identity_bytes(msg@) =~= identity_bytes(msg@));
    }
    out
}

/// Appends the records of `devices[i..]` to `out`.
fn encode_ids_from(devices: &Vec<Vec<u8>>, i: usize, out: &mut Vec<u8>)
    requires
        i <= devices@.len(),
    ensures
        final(out)@ == old(out)@ + identity_bytes(ids_view(devices@).skip(i as int)),
    decreases devices@.len() - i,
{
    let ghost ids = ids_view(devices@);
    if i == devices.len() {
        assert(identity_bytes(ids.skip(i as int)) =~= Seq::<u8>::empty());
        assert(out@ =~= out@ + Seq::<u8>::empty());
    } else {
        let d = &devices[i];
        out.push(IDENTITY_DEVICE_TAG);
        encode_varint(out, d.len() as u64);
        push_bytes(out, d.as_slice());
        encode_ids_from(devices, i + 1, out);
        proof {
            assert(ids.skip(i as int)[0] == ids[i as int]);
            assert(ids.skip(i as int).skip(1) =~= ids.skip(i as int + 1));
            assert(identity_bytes(ids.skip(i as int)) == identity_record_bytes(ids[i as int])
                + identity_bytes(ids.skip(i as int + 1)));
            assert(final(out)@ =~= old(out)@ + identity_bytes(ids.skip(i as int)));
        }
    }
}

/// Appends a whole slice to `out`.
fn push_bytes(out: &mut Vec<u8>, s: &[u8])
    ensures
        final(out)@ == old(out)@ + s@,
{
    let mut i: usize = 0;
    assert(out@ =~= old(out)@ + s@.take(0));
    while i < s.len()
        invariant
            i <= s@.len(),
            out@ == old(out)@ + s@.take(i as int),
        decreases s@.len() - i,
    {
        out.push(s[i]);
        assert(out@ =~= old(out)@ + s@.take(i as int + 1));
        i += 1;
    }
    assert(s@.take(s@.len() as int) =~= s@);
}

/// Parses a byte buffer as a device identity message.  Fails, and never
/// panics, on malformed input; the error contract is exact: it fails on
/// precisely the buffers `identity_parse` rejects.
pub fn decode_identity(bytes: &[u8]) -> (r: Result<DeviceIdentityMessage, ServiceError>)
    ensures
        match r {
            Ok(m) => identity_parse(bytes@) == Some(m@),
            Err(e) => identity_parse(bytes@) is None && e == ServiceError::MalformedWirePayload,
        },
{
    assert(bytes@.skip(0) =~= bytes@);
    match decode_ids_from(bytes, 0) {
        Ok(devices) => Ok(DeviceIdentityMessage { devices }),
        Err(e) => Err(e),
    }
}

/// Parses the records that start at `pos` and run to the end of `s`.
fn decode_ids_from(s: &[u8], pos: usize) -> (r: Result<Vec<Vec<u8>>, ServiceError>)
    requires
        pos <= s@.len(),
    ensures
        match r {
            Ok(ids) => identity_parse(s@.skip(pos as int)) == Some(ids_view(ids@)),
            Err(e) => {
                &&& identity_parse(s@.skip(pos as int)) is None
                &&& e == ServiceError::MalformedWirePayload
            },
        },
    decreases s@.len() - pos,
{
    let ghost t = s@.skip(pos as int);
    if pos == s.len() {
        let ids: Vec<Vec<u8>> = Vec::new();
        assert(ids_view(ids@) =~= Seq::<Seq<u8>>::empty());
        Ok(ids)
    } else {
        assert(t[0] == s@[pos as int]);
        if s[pos] != IDENTITY_DEVICE_TAG {
            Err(ServiceError::MalformedWirePayload)
        } else {
            assert(t.skip(1) =~= s@.skip(pos as int + 1));
            match decode_varint(s, pos + 1) {
                None => Err(ServiceError::MalformedWirePayload),
                Some((l, body_start)) => {
                    let remaining = s.len() - body_start;
                    if l > remaining as u64 {
                        Err(ServiceError::MalformedWirePayload)
                    } else {
                        let l_us = l as usize;
                        let body_end = body_start + l_us;
                        let ghost c = body_start - pos - 1;
                        assert(1 + c + l <= t.len());
                        let id = slice_to_vec(slice_subrange(s, body_start, body_end));
                        assert(id@ =~= t.subrange(1 + c, 1 + c + l));
                        assert(t.skip(1 + c + l) =~= s@.skip(body_end as int));
                        match decode_ids_from(s, body_end) {
                            Err(e) => Err(e),
                            Ok(mut rest) => {
                                rest.insert(0, id);
                                proof {
                                    let parsed = identity_parse(s@.skip(body_end as int));
                                    assert(ids_view(rest@) =~= seq![t.subrange(1 + c, 1 + c + l)]
                                        + parsed.unwrap());
                                }
                                Ok(rest)
                            },
                        }
                    }
                },
            }
        }
    }
}

/// Round trip: decoding an encoded device identity message recovers the
/// message exactly, for every well-formed identifier list.
pub proof fn lemma_identity_round_trip(ids: Seq<Seq<u8>>)
    requires
        ids_wf(ids),
    ensures
        identity_parse(identity_bytes(ids)) == Some(ids),
    decreases ids.len(),
{
    if ids.len() == 0 {
        assert(identity_parse(identity_bytes(ids)) == Some(Seq::<Seq<u8>>::empty()));
        assert(ids =~= Seq::<Seq<u8>>::empty());
    } else {
        let id = ids[0];
        let l = id.len() as int;
        let e = varint_bytes(id.len());
        let c = e.len() as int;
        let rest_bytes = identity_bytes(ids.skip(1));
        let s = identity_bytes(ids);
        assert(s == identity_record_bytes(id) + rest_bytes);
        assert(s[0] == IDENTITY_DEVICE_TAG);
        assert(s.skip(1) =~= e + (id + rest_bytes));
        lemma_varint_round_trip(id.len(), id + rest_bytes);
        assert(varint_decode(s.skip(1)) == Some((l, c)));
        lemma_varint_bytes_nonempty(id.len());
        assert(s.len() == 1 + c + l + rest_bytes.len());
        assert(s.subrange(1 + c, 1 + c + l) =~= id);
        assert(s.skip(1 + c + l) =~= rest_bytes);
        assert(ids_wf(ids.skip(1)));
        lemma_identity_round_trip(ids.skip(1));
        assert(seq![id] + ids.skip(1) =~= ids);
    }
}

/// Numeric wire value of a partition scheme.
pub open spec fn ota_type_code(t: OtaType) -> nat {
    match t {
        OtaType::SinglePartition => 0,
        OtaType::DualPartition => 1,
    }
}

/// Numeric wire value of an install type.
pub open spec fn ab_install_type_code(t: AbInstallType) -> nat {
    match t {
        AbInstallType::Streaming => 0,
        AbInstallType::NonStreaming => 1,
    }
}

/// Numeric wire value of a boolean.
pub open spec fn bool_code(b: bool) -> nat {
    if b {
        1
    } else {
        0
    }
}

/// A tagged varint-valued field.
pub open spec fn varint_field(tag: u8, value: nat) -> Seq<u8> {
    seq![tag] + varint_bytes(value)
}

/// A tagged length-delimited field.
pub open spec fn delimited_field(tag: u8, body: Seq<u8>) -> Seq<u8> {
    seq![tag] + varint_bytes(body.len()) + body
}

/// The encoding of an A/B slot policy sub-message.
pub open spec fn ab_config_bytes(c: AbConfig) -> Seq<u8> {
    varint_field(0x08, bool_code(c.force_switch_slot))
}

/// The encoding of a wipe policy sub-message.
pub open spec fn install_config_bytes(c: InstallConfig) -> Seq<u8> {
    varint_field(0x08, bool_code(c.wipe)) + varint_field(0x10, bool_code(c.retrofit_dynamic_partitions))
}

/// The canonical encoding of an update metadata message: every field
/// present, in field-number order (name 1, url 2, changelog 3, size 4,
/// partition scheme 5, install type 6, A/B policy 7, wipe policy 8).
pub open spec fn metadata_bytes(m: UpdateSummary) -> Seq<u8> {
    delimited_field(0x0a, m.name) + delimited_field(0x12, m.url) + delimited_field(
        0x1a,
        m.changelog_url,
    ) + varint_field(0x20, m.size_bytes as nat) + varint_field(0x28, ota_type_code(m.ota_type))
        + varint_field(0x30, ab_install_type_code(m.ab_install_type)) + delimited_field(
        0x3a,
        ab_config_bytes(m.ab_config),
    ) + delimited_field(0x42, install_config_bytes(m.install_config))
}

/// The numeric wire value of a boolean, executable form.
fn bool_value(b: bool) -> (r: u64)
    ensures
        r as nat == bool_code(b),
{
    if b {
        1
    } else {
        0
    }
}

/// Appends a tagged varint-valued field to `out`.
fn push_varint_field(out: &mut Vec<u8>, tag: u8, value: u64)
    ensures
        final(out)@ == old(out)@ + varint_field(tag, value as nat),
{
    out.push(tag);
    encode_varint(out, value);
    assert(final(out)@ =~= old(out)@ + varint_field(tag, value as nat));
}

/// Appends a tagged length-delimited field to `out`.
fn push_delimited_field(out: &mut Vec<u8>, tag: u8, body: &[u8])
    ensures
        final(out)@ == old(out)@ + delimited_field(tag, body@),
{
    out.push(tag);
    encode_varint(out, body.len() as u64);
    push_bytes(out, body);
    assert(final(out)@ =~= old(out)@ + delimited_field(tag, body@));
}

/// Serializes an update metadata message.  Deterministic: the bytes are a
/// function of the logical message alone, so equal messages always encode
/// to equal byte strings.  Defined on every well-formed message, i.e. one
/// whose size is a byte count; every message built from a validated build
/// record is.
pub fn encode_metadata(m: &UpdateMetadataMessage) -> (r: Vec<u8>)
    requires
        m.wf(),
    ensures
        r@ == metadata_bytes(m@),
{
    let mut out: Vec<u8> = Vec::new();
    push_delimited_field(&mut out, 0x0a, m.name.as_slice());
    push_delimited_field(&mut out, 0x12, m.url.as_slice());
    push_delimited_field(&mut out, 0x1a, m.changelog_url.as_slice());
    push_varint_field(&mut out, 0x20, m.size_bytes as u64);
    let ota_code: u64 = match m.ota_type {
        OtaType::SinglePartition => 0,
        OtaType::DualPartition => 1,
    };
    push_varint_field(&mut out, 0x28, ota_code);
    let install_code: u64 = match m.ab_install_type {
        AbInstallType::Streaming => 0,
        AbInstallType::NonStreaming => 1,
    };
    push_varint_field(&mut out, 0x30, install_code);
    let mut ab: Vec<u8> = Vec::new();
    push_varint_field(&mut ab, 0x08, bool_value(m.ab_config.force_switch_slot));
    assert(ab@ =~= ab_config_bytes(m.ab_config));
    push_delimited_field(&mut out, 0x3a, ab.as_slice());
    let mut ic: Vec<u8> = Vec::new();
    push_varint_field(&mut ic, 0x08, bool_value(m.install_config.wipe));
    push_varint_field(&mut ic, 0x10, bool_value(m.install_config.retrofit_dynamic_partitions));
    assert(ic@ =~= install_config_bytes(m.install_config));
    push_delimited_field(&mut out, 0x42, ic.as_slice());
    assert(out@ =~= metadata_bytes(m@));
    out
}

} // verus!
