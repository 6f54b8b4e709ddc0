use vstd::prelude::*;
use vstd::utf8::{decode_utf8, valid_utf8};

use crate::model::{
    default_device, Device, DeviceView, MndpPacket, MndpPacketView, MndpPart, MndpPartView, MndpValue,
    MndpValueView,
};
use crate::time::TimeSpan;
use crate::tlv::{spec_tlv_type, MndpTlvType};

verus! {

/// Why a datagram could not be decoded.
#[derive(Debug, Clone, Copy, PartialEq, Eq, Structural)]
pub enum DecodeError {
    /// The datagram holds no byte at all.
    EmptyBuffer,
    /// The datagram ends inside a field.
    UnexpectedEof,
}

/// A 16-bit value written high byte first.
pub open spec fn be16(hi: u8, lo: u8) -> u16 {
    (hi as int * 256 + lo as int) as u16
}

/// A 32-bit value written low byte first.
pub open spec fn le32(b0: u8, b1: u8, b2: u8, b3: u8) -> u32 {
    (b0 as int + b1 as int * 256 + b2 as int * 65536 + b3 as int * 16777216) as u32
}

/// The text that `String::from_utf8_lossy` makes of a byte string.
pub uninterp spec fn lossy_utf8(bytes: Seq<u8>) -> Seq<char>;

/// Calls `String::from_utf8_lossy` and takes ownership of its result. The
/// result is what the function makes of `bytes`; where `bytes` is valid
/// UTF-8, it is exactly the text those bytes encode (the function then
/// borrows the input unchanged, as its documentation says).
#[verifier::external_body]
fn utf8_lossy(bytes: &[u8]) -> (s: String)
    ensures
        s@ == lossy_utf8(bytes@),
        valid_utf8(bytes@) ==> s@ == decode_utf8(bytes@),
{
    String::from_utf8_lossy(bytes).into_owned()
}

/// Reads a big-endian `u16` at `*pos` and moves past it; at the end of the
/// buffer it fails and leaves the position at the end.
pub fn read_u16_be(buf: &[u8], pos: &mut usize) -> (r: Result<u16, DecodeError>)
    ensures
        *old(pos) + 2 <= buf@.len() ==> {
            &&& r == Ok::<u16, DecodeError>(be16(buf@[*old(pos) as int], buf@[*old(pos) + 1]))
            &&& *final(pos) == *old(pos) + 2
        },
        *old(pos) + 2 > buf@.len() ==> {
            &&& r == Err::<u16, DecodeError>(DecodeError::UnexpectedEof)
            &&& *final(pos) == buf@.len()
        },
{
    if *pos > buf.len() || buf.len() - *pos < 2 {
        *pos = buf.len();
        return Err(DecodeError::UnexpectedEof);
    }
    let hi = buf[*pos];
    let lo = buf[*pos + 1];
    *pos = *pos + 2;
    Ok((hi as u16) * 256 + (lo as u16))
}

/// Reads a little-endian `u32` at `*pos` and moves past it; at the end of
/// the buffer it fails and leaves the position at the end.
pub fn read_u32_le(buf: &[u8], pos: &mut usize) -> (r: Result<u32, DecodeError>)
    ensures
        *old(pos) + 4 <= buf@.len() ==> {
            &&& r == Ok::<u32, DecodeError>(
                le32(
                    buf@[*old(pos) as int],
                    buf@[*old(pos) + 1],
                    buf@[*old(pos) + 2],
                    buf@[*old(pos) + 3],
                ),
            )
            &&& *final(pos) == *old(pos) + 4
        },
        *old(pos) + 4 > buf@.len() ==> {
            &&& r == Err::<u32, DecodeError>(DecodeError::UnexpectedEof)
            &&& *final(pos) == buf@.len()
        },
{
    if *pos > buf.len() || buf.len() - *pos < 4 {
        *pos = buf.len();
        return Err(DecodeError::UnexpectedEof);
    }
    let p = *pos;
    let b0 = buf[p] as u32;
    let b1 = buf[p + 1] as u32;
    let b2 = buf[p + 2] as u32;
    let b3 = buf[p + 3] as u32;
    *pos = p + 4;
    Ok(b0 + b1 * 256 + b2 * 65536 + b3 * 16777216)
}

/// Whether records of this kind carry text.
pub open spec fn is_text(ty: MndpTlvType) -> bool {
    ty is Identity || ty is Version || ty is Platform || ty is SoftwareId || ty is Board
        || ty is InterfaceName
}

/// How many value bytes follow the header of a record of kind `ty` whose
/// length field says `len`. Addresses and the uptime have a fixed size and
/// their length field is not consulted.
pub open spec fn value_width(ty: MndpTlvType, len: u16) -> nat {
    match ty {
        MndpTlvType::MacAddress => 6,
        MndpTlvType::Uptime => 4,
        MndpTlvType::IPv4Address => 4,
        MndpTlvType::IPv6Address => 16,
        _ => len as nat,
    }
}

/// The value of a record of kind `ty` whose value bytes are `bytes`.
pub open spec fn record_value(ty: MndpTlvType, bytes: Seq<u8>) -> MndpValueView {
    match ty {
        MndpTlvType::MacAddress => MndpValueView::Mac(bytes),
        MndpTlvType::Uptime => MndpValueView::Uptime(
            TimeSpan { secs: le32(bytes[0], bytes[1], bytes[2], bytes[3]) as u64, nanos: 0 },
        ),
        MndpTlvType::IPv4Address => MndpValueView::Ipv4(bytes),
        MndpTlvType::IPv6Address => MndpValueView::Ipv6(bytes),
        _ => if is_text(ty) {
            MndpValueView::String(lossy_utf8(bytes))
        } else {
            MndpValueView::Bytes(bytes)
        },
    }
}

/// The record at the start of `s` and the number of bytes it takes: a
/// big-endian type code, a big-endian length, then the value. `None` where
/// `s` ends before the record does.
pub open spec fn spec_record(s: Seq<u8>) -> Option<(MndpPartView, nat)> {
    if s.len() < 4 {
        None
    } else {
        let ty = spec_tlv_type(be16(s[0], s[1]));
        let w = value_width(ty, be16(s[2], s[3]));
        if s.len() < 4 + w {
            None
        } else {
            Some((MndpPartView { ty, value: record_value(ty, s.subrange(4, 4 + w as int)) }, 4 + w))
        }
    }
}

/// The records that fill `s` exactly, in order; `None` where the last one
/// is cut short.
pub open spec fn spec_parts(s: Seq<u8>) -> Option<Seq<MndpPartView>>
    decreases s.len(),
{
    if s.len() == 0 {
        Some(Seq::empty())
    } else {
        match spec_record(s) {
            None => None,
            Some((p, n)) => if 0 < n <= s.len() {
                match spec_parts(s.skip(n as int)) {
                    None => None,
                    Some(rest) => Some(seq![p] + rest),
                }
            } else {
                None
            },
        }
    }
}

/// A datagram: a little-endian sequence number, then records up to its end.
pub open spec fn spec_decode_packet(buf: Seq<u8>) -> Result<MndpPacketView, DecodeError> {
    if buf.len() < 4 {
        Err(DecodeError::UnexpectedEof)
    } else {
        match spec_parts(buf.skip(4)) {
            None => Err(DecodeError::UnexpectedEof),
            Some(parts) => Ok(
                MndpPacketView { seq_no: le32(buf[0], buf[1], buf[2], buf[3]), parts },
            ),
        }
    }
}

/// What one record tells about a device: the field it names takes its value;
/// records of other kinds leave the device as it is.
pub open spec fn spec_apply(d: DeviceView, p: MndpPartView) -> DeviceView {
    match (p.ty, p.value) {
        (MndpTlvType::MacAddress, MndpValueView::Mac(m)) => DeviceView { mac_address: m, ..d },
        (MndpTlvType::Identity, MndpValueView::String(s)) => DeviceView { identity: s, ..d },
        (MndpTlvType::Version, MndpValueView::String(s)) => DeviceView { version: s, ..d },
        (MndpTlvType::Platform, MndpValueView::String(s)) => DeviceView { platform: s, ..d },
        (MndpTlvType::SoftwareId, MndpValueView::String(s)) => DeviceView { software_id: s, ..d },
        (MndpTlvType::Board, MndpValueView::String(s)) => DeviceView { board: s, ..d },
        (MndpTlvType::InterfaceName, MndpValueView::String(s)) => DeviceView {
            interface_name: s,
            ..d
        },
        (MndpTlvType::Uptime, MndpValueView::Uptime(t)) => DeviceView { uptime: t, ..d },
        (MndpTlvType::IPv4Address, MndpValueView::Ipv4(a)) => DeviceView { ipv4_address: a, ..d },
        (MndpTlvType::IPv6Address, MndpValueView::Ipv6(a)) => DeviceView { ipv6_address: a, ..d },
        _ => d,
    }
}

/// The device after reading, in order, the records that fill `s` exactly.
pub open spec fn spec_fill(d: DeviceView, s: Seq<u8>) -> Option<DeviceView>
    decreases s.len(),
{
    if s.len() == 0 {
        Some(d)
    } else {
        match spec_record(s) {
            None => None,
            Some((p, n)) => if 0 < n <= s.len() {
                spec_fill(spec_apply(d, p), s.skip(n as int))
            } else {
                None
            },
        }
    }
}

/// The device that a datagram describes.
pub open spec fn spec_decode(buf: Seq<u8>) -> Result<DeviceView, DecodeError> {
    if buf.len() == 0 {
        Err(DecodeError::EmptyBuffer)
    } else if buf.len() < 4 {
        Err(DecodeError::UnexpectedEof)
    } else {
        match spec_fill(default_device(), buf.skip(4)) {
            None => Err(DecodeError::UnexpectedEof),
            Some(d) => Ok(d),
        }
    }
}

/// Copies `len` bytes of `buf` from `start` on.
fn copy_bytes(buf: &[u8], start: usize, len: usize) -> (v: Vec<u8>)
    requires
        start + len <= buf@.len(),
    ensures
        v@ == buf@.subrange(start as int, start + len),
{
    let mut v: Vec<u8> = Vec::new();
    let mut i: usize = 0;
    while i < len
        invariant
            start + len <= buf.len(),
            i <= len,
            v@ == buf@.subrange(start as int, start + i),
        decreases len - i,
    {
        v.push(buf[start + i]);
        i = i + 1;
        assert(v@ =~= buf@.subrange(start as int, start + i));
    }
    v
}

/// Reads the value of a record of kind `ty`, `len` bytes long by its header,
/// whose value bytes start at `pos`.
fn read_value(buf: &[u8], pos: usize, ty: MndpTlvType, len: u16) -> (r: Result<
    (MndpValue, usize),
    DecodeError,
>)
    requires
        pos <= buf@.len(),
    ensures
        pos + value_width(ty, len) <= buf@.len() ==> {
            &&& r is Ok
            &&& r->Ok_0.0@ == record_value(
                ty,
                buf@.subrange(pos as int, pos + value_width(ty, len)),
            )
            &&& r->Ok_0.1 == pos + value_width(ty, len)
        },
        pos + value_width(ty, len) > buf@.len() ==> r == Err::<(MndpValue, usize), DecodeError>(
            DecodeError::UnexpectedEof,
        ),
{
    let avail = buf.len() - pos;
    match ty {
        MndpTlvType::MacAddress => {
            if avail < 6 {
                return Err(DecodeError::UnexpectedEof);
            }
            let mac = [buf[pos], buf[pos + 1], buf[pos + 2], buf[pos + 3], buf[pos + 4], buf[pos + 5]];
            assert(mac@ =~= buf@.subrange(pos as int, pos + 6));
            Ok((MndpValue::Mac(mac), pos + 6))
        },
        MndpTlvType::Uptime => {
            let mut p = pos;
            match read_u32_le(buf, &mut p) {
                Ok(secs) => Ok((MndpValue::Uptime(TimeSpan::from_secs(secs as u64)), p)),
                Err(e) => Err(e),
            }
        },
        MndpTlvType::IPv4Address => {
            if avail < 4 {
                return Err(DecodeError::UnexpectedEof);
            }
            let ip = [buf[pos], buf[pos + 1], buf[pos + 2], buf[pos + 3]];
            assert(ip@ =~= buf@.subrange(pos as int, pos + 4));
            Ok((MndpValue::Ipv4(ip), pos + 4))
        },
        MndpTlvType::IPv6Address => {
            if avail < 16 {
                return Err(DecodeError::UnexpectedEof);
            }
            let ip = [
                buf[pos],
                buf[pos + 1],
                buf[pos + 2],
                buf[pos + 3],
                buf[pos + 4],
                buf[pos + 5],
                buf[pos + 6],
                buf[pos + 7],
                buf[pos + 8],
                buf[pos + 9],
                buf[pos + 10],
                buf[pos + 11],
                buf[pos + 12],
                buf[pos + 13],
                buf[pos + 14],
                buf[pos + 15],
            ];
            assert(ip@ =~= buf@.subrange(pos as int, pos + 16));
            Ok((MndpValue::Ipv6(ip), pos + 16))
        },
        MndpTlvType::Identity
        | MndpTlvType::Version
        | MndpTlvType::Platform
        | MndpTlvType::SoftwareId
        | MndpTlvType::Board
        | MndpTlvType::InterfaceName => {
            let n = len as usize;
            if avail < n {
                return Err(DecodeError::UnexpectedEof);
            }
            let bytes = copy_bytes(buf, pos, n);
            let text = utf8_lossy(bytes.as_slice());
            Ok((MndpValue::String(text), pos + n))
        },
        _ => {
            let n = len as usize;
            if avail < n {
                return Err(DecodeError::UnexpectedEof);
            }
            let bytes = copy_bytes(buf, pos, n);
            Ok((MndpValue::Bytes(bytes), pos + n))
        },
    }
}

/// Reads the record that starts at `pos` and returns it with the position
/// just past it.
pub fn read_record(buf: &[u8], pos: usize) -> (r: Result<(MndpPart, usize), DecodeError>)
    requires
        pos <= buf@.len(),
    ensures
        match spec_record(buf@.skip(pos as int)) {
            Some((p, n)) => {
                &&& r is Ok
                &&& r->Ok_0.0@ == p
                &&& r->Ok_0.1 == pos + n
            },
            None => r == Err::<(MndpPart, usize), DecodeError>(DecodeError::UnexpectedEof),
        },
{
    let ghost s = buf@.skip(pos as int);
    let mut p = pos;
    let code = match read_u16_be(buf, &mut p) {
        Ok(c) => c,
        Err(e) => return Err(e),
    };
    let len = match read_u16_be(buf, &mut p) {
        Ok(l) => l,
        Err(e) => return Err(e),
    };
    let ty = MndpTlvType::from(code);
    proof {
        assert(s[0] == buf@[pos as int] && s[1] == buf@[pos + 1]);
        assert(s[2] == buf@[pos + 2] && s[3] == buf@[pos + 3]);
    }
    match read_value(buf, p, ty, len) {
        Ok((value, next)) => {
            proof {
                let w = value_width(ty, len);
                assert(s.subrange(4, 4 + w as int) =~= buf@.subrange(p as int, p + w));
            }
            Ok((MndpPart { ty, value }, next))
        },
        Err(e) => Err(e),
    }
}

/// The views of a sequence of records.
pub open spec fn parts_view(parts: Seq<MndpPart>) -> Seq<MndpPartView> {
    parts.map_values(|p: MndpPart| p@)
}

/// Decodes a whole MNDP datagram into its sequence number and its records.
pub fn decode_packet(buf: &[u8]) -> (r: Result<MndpPacket, DecodeError>)
    ensures
        match spec_decode_packet(buf@) {
            Ok(v) => r is Ok && r->Ok_0@ == v,
            Err(e) => r == Err::<MndpPacket, DecodeError>(e),
        },
{
    let mut pos: usize = 0;
    let seq_no = match read_u32_le(buf, &mut pos) {
        Ok(n) => n,
        Err(e) => return Err(e),
    };
    let mut parts: Vec<MndpPart> = Vec::new();
    assert(buf@.skip(pos as int) == buf@.skip(4));
    while pos < buf.len()
        invariant
            4 <= pos <= buf@.len(),
            seq_no == le32(buf@[0], buf@[1], buf@[2], buf@[3]),
            spec_parts(buf@.skip(4)) == match spec_parts(buf@.skip(pos as int)) {
                Some(rest) => Some(parts_view(parts@) + rest),
                None => None,
            },
        decreases buf@.len() - pos,
    {
        let ghost s = buf@.skip(pos as int);
        match read_record(buf, pos) {
            Ok((part, next)) => {
                let ghost old_parts = parts@;
                proof {
                    assert(s.skip(next - pos) =~= buf@.skip(next as int));
                }
                parts.push(part);
                assert(parts_view(parts@) =~= parts_view(old_parts) + seq![part@]);
                proof {
                    match spec_parts(buf@.skip(next as int)) {
                        Some(rest) => {
                            assert(parts_view(old_parts) + (seq![part@] + rest) =~= parts_view(
                                parts@,
                            ) + rest);
                        },
                        None => {},
                    }
                }
                pos = next;
            },
            Err(e) => {
                return Err(e);
            },
        }
    }
    assert(buf@.skip(pos as int) =~= Seq::<u8>::empty());
    assert(parts_view(parts@) + Seq::<MndpPartView>::empty() =~= parts_view(parts@));
    let packet = MndpPacket { seq_no, parts };
    assert(packet@.parts =~= parts_view(packet.parts@));
    Ok(packet)
}

/// Records what `part` tells about `device`.
fn apply_part(device: &mut Device, part: MndpPart)
    ensures
        final(device)@ == spec_apply(old(device)@, part@),
{
    match (part.ty, part.value) {
        (MndpTlvType::MacAddress, MndpValue::Mac(m)) => device.mac_address = m,
        (MndpTlvType::Identity, MndpValue::String(s)) => device.identity = s,
        (MndpTlvType::Version, MndpValue::String(s)) => device.version = s,
        (MndpTlvType::Platform, MndpValue::String(s)) => device.platform = s,
        (MndpTlvType::SoftwareId, MndpValue::String(s)) => device.software_id = s,
        (MndpTlvType::Board, MndpValue::String(s)) => device.board = s,
        (MndpTlvType::InterfaceName, MndpValue::String(s)) => device.interface_name = s,
        (MndpTlvType::Uptime, MndpValue::Uptime(t)) => device.uptime = t,
        (MndpTlvType::IPv4Address, MndpValue::Ipv4(a)) => device.ipv4_address = a,
        (MndpTlvType::IPv6Address, MndpValue::Ipv6(a)) => device.ipv6_address = a,
        _ => {},
    }
}

/// Decodes an MNDP datagram into the device it describes. Each field takes
/// the value of the last record of its kind; the others keep their default.
pub fn decode(buf: &[u8]) -> (r: Result<Device, DecodeError>)
    ensures
        match spec_decode(buf@) {
            Ok(d) => r is Ok && r->Ok_0@ == d,
            Err(e) => r == Err::<Device, DecodeError>(e),
        },
{
    if buf.len() == 0 {
        return Err(DecodeError::EmptyBuffer);
    }
    let mut pos: usize = 0;
    match read_u32_le(buf, &mut pos) {
        Ok(_) => {},
        Err(e) => return Err(e),
    }
    let mut device = Device::new();
    assert(buf@.skip(pos as int) == buf@.skip(4));
    while pos < buf.len()
        invariant
            4 <= pos <= buf@.len(),
            spec_fill(default_device(), buf@.skip(4)) == spec_fill(device@, buf@.skip(pos as int)),
        decreases buf@.len() - pos,
    {
        let ghost s = buf@.skip(pos as int);
        match read_record(buf, pos) {
            Ok((part, next)) => {
                proof {
                    assert(s.skip(next - pos) =~= buf@.skip(next as int));
                }
                apply_part(&mut device, part);
                pos = next;
            },
            Err(e) => {
                return Err(e);
            },
        }
    }
    assert(buf@.skip(pos as int) =~= Seq::<u8>::empty());
    Ok(device)
}

/// The device after applying `parts` to `d` in order.
pub open spec fn spec_fold(d: DeviceView, parts: Seq<MndpPartView>) -> DeviceView
    decreases parts.len(),
{
    if parts.len() == 0 {
        d
    } else {
        spec_fold(spec_apply(d, parts[0]), parts.drop_first())
    }
}

/// Reading records into a device is the same as decoding them as a record
/// list and then applying that list in order.
proof fn lemma_fill_is_fold(d: DeviceView, s: Seq<u8>)
    ensures
        spec_fill(d, s) == match spec_parts(s) {
            Some(ps) => Some(spec_fold(d, ps)),
            None => None::<DeviceView>,
        },
    decreases s.len(),
{
    if s.len() != 0 {
        if let Some((p, n)) = spec_record(s) {
            if 0 < n <= s.len() {
                lemma_fill_is_fold(spec_apply(d, p), s.skip(n as int));
                if let Some(rest) = spec_parts(s.skip(n as int)) {
                    assert((seq![p] + rest).drop_first() =~= rest);
                }
            }
        }
    }
}

/// The device that `decode` gives for a non-empty datagram is the default
/// device with the records that `decode_packet` finds applied in order, the
/// last record of each kind winning; and `decode` fails, with the same
/// error, exactly where `decode_packet` fails.
pub proof fn lemma_decode_folds_packet(buf: Seq<u8>)
    requires
        buf.len() > 0,
    ensures
        spec_decode(buf) == match spec_decode_packet(buf) {
            Ok(p) => Ok(spec_fold(default_device(), p.parts)),
            Err(e) => Err::<DeviceView, DecodeError>(e),
        },
{
    if buf.len() >= 4 {
        lemma_fill_is_fold(default_device(), buf.skip(4));
    }
}

/// A record read at the start of a byte string is read the same way when
/// more bytes follow it.
proof fn lemma_record_prefix(a: Seq<u8>, b: Seq<u8>)
    requires
        spec_record(a) is Some,
    ensures
        spec_record(a + b) == spec_record(a),
        (spec_record(a)->0).1 <= a.len(),
{
    let ab = a + b;
    assert(ab[0] == a[0] && ab[1] == a[1] && ab[2] == a[2] && ab[3] == a[3]);
    let (p, n) = spec_record(a)->0;
    assert(ab.subrange(4, n as int) =~= a.subrange(4, n as int));
}

/// Records lie one after another: the records of two complete record areas
/// written back to back are the records of the first followed by those of
/// the second.
pub proof fn lemma_parts_concat(a: Seq<u8>, b: Seq<u8>)
    requires
        spec_parts(a) is Some,
        spec_parts(b) is Some,
    ensures
        spec_parts(a + b) == Some(spec_parts(a)->0 + spec_parts(b)->0),
    decreases a.len(),
{
    if a.len() == 0 {
        assert(a + b =~= b);
        assert(spec_parts(a)->0 + spec_parts(b)->0 =~= spec_parts(b)->0);
    } else {
        let (p, n) = spec_record(a)->0;
        lemma_record_prefix(a, b);
        assert((a + b).skip(n as int) =~= a.skip(n as int) + b);
        lemma_parts_concat(a.skip(n as int), b);
        let ra = spec_parts(a.skip(n as int))->0;
        assert(seq![p] + (ra + spec_parts(b)->0) =~= (seq![p] + ra) + spec_parts(b)->0);
    }
}

/// Decoding records is incremental: reading two complete record areas back
/// to back leaves the device as reading the first and then, from the device
/// it left, the second.
pub proof fn lemma_fill_concat(d: DeviceView, a: Seq<u8>, b: Seq<u8>)
    requires
        spec_parts(a) is Some,
    ensures
        spec_fill(d, a + b) == spec_fill(spec_fill(d, a)->0, b),
    decreases a.len(),
{
    lemma_fill_is_fold(d, a);
    if a.len() == 0 {
        assert(a + b =~= b);
    } else {
        let (p, n) = spec_record(a)->0;
        lemma_record_prefix(a, b);
        assert((a + b).skip(n as int) =~= a.skip(n as int) + b);
        lemma_fill_is_fold(spec_apply(d, p), a.skip(n as int));
        lemma_fill_concat(spec_apply(d, p), a.skip(n as int), b);
    }
}

/// An uptime record (type code 10) always takes eight bytes, whatever its
/// length field says, and its uptime is the whole little-endian 32-bit
/// number in its four value bytes, in seconds: every one of the four bytes
/// counts.
pub proof fn lemma_uptime_record(s: Seq<u8>)
    requires
        s.len() >= 8,
        s[0] == 0,
        s[1] == 10,
    ensures
        spec_record(s) is Some,
        (spec_record(s)->0).1 == 8,
        (spec_record(s)->0).0.ty == MndpTlvType::Uptime,
        (spec_record(s)->0).0.value is Uptime,
        (spec_record(s)->0).0.value->Uptime_0.secs == s[4] as int + s[5] as int * 256 + s[6] as int
            * 65536 + s[7] as int * 16777216,
        (spec_record(s)->0).0.value->Uptime_0.nanos == 0,
{
    assert(be16(s[0], s[1]) == 10);
    let v = s.subrange(4, 8);
    assert(v[0] == s[4] && v[1] == s[5] && v[2] == s[6] && v[3] == s[7]);
    assert(s[4] as int + s[5] as int * 256 + s[6] as int * 65536 + s[7] as int * 16777216
        < 0x1_0000_0000);
}

/// A datagram made of any four header bytes and one uptime record decodes
/// to a device whose uptime, in seconds, is the little-endian 32-bit number
/// in the record's four value bytes; its other fields keep their default.
pub proof fn lemma_decode_uptime(header: Seq<u8>, b0: u8, b1: u8, b2: u8, b3: u8)
    requires
        header.len() == 4,
    ensures
        ({
            let buf = header + seq![0u8, 10u8, 0u8, 4u8, b0, b1, b2, b3];
            &&& spec_decode(buf) is Ok
            &&& spec_decode(buf)->Ok_0.uptime.secs == b0 as int + b1 as int * 256 + b2 as int
                * 65536 + b3 as int * 16777216
            &&& spec_decode(buf)->Ok_0.uptime.nanos == 0
            &&& spec_decode(buf)->Ok_0.identity == default_device().identity
        }),
{
    let buf = header + seq![0u8, 10u8, 0u8, 4u8, b0, b1, b2, b3];
    let r = buf.skip(4);
    assert(r =~= seq![0u8, 10u8, 0u8, 4u8, b0, b1, b2, b3]);
    lemma_uptime_record(r);
    assert(r.skip(8) =~= Seq::<u8>::empty());
    let p = (spec_record(r)->0).0;
    assert(spec_fill(spec_apply(default_device(), p), r.skip(8)) == Some(
        spec_apply(default_device(), p),
    ));
}

/// The sequence number of a decoded datagram is the little-endian 32-bit
/// number in its first four bytes: every one of the four bytes counts.
pub proof fn lemma_packet_seq_no(buf: Seq<u8>)
    requires
        spec_decode_packet(buf) is Ok,
    ensures
        buf.len() >= 4,
        spec_decode_packet(buf)->Ok_0.seq_no == buf[0] as int + buf[1] as int * 256 + buf[2] as int
            * 65536 + buf[3] as int * 16777216,
{
    assert(buf[0] as int + buf[1] as int * 256 + buf[2] as int * 65536 + buf[3] as int * 16777216
        < 0x1_0000_0000);
}

/// A datagram of four header bytes and no record decodes, and its sequence
/// number is the little-endian number in those bytes.
pub proof fn lemma_header_only_packet(buf: Seq<u8>)
    requires
        buf.len() == 4,
    ensures
        spec_decode_packet(buf) is Ok,
        spec_decode_packet(buf)->Ok_0.parts.len() == 0,
        spec_decode_packet(buf)->Ok_0.seq_no == buf[0] as int + buf[1] as int * 256 + buf[2] as int
            * 65536 + buf[3] as int * 16777216,
{
    assert(buf.skip(4) =~= Seq::<u8>::empty());
    lemma_packet_seq_no(buf);
}

} // verus!
