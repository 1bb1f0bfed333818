//! Resource records and their wire form.
use vstd::prelude::*;
use vstd::slice::slice_to_vec;

use crate::buffer::{
    at16, at32, be16, be32, splice, stop_pos, BytePacketBuffer, WireError, BUF_SIZE,
};
use crate::emit::{
    after, emitted, emitted_after, emitted_next, emitted_none, in_turn, named, plain, put_bytes,
    put_name, put_u16, put_u32, put_u8, Emission,
};
use crate::name::{name_at, name_end};
use crate::net::{Ipv4Addr, Ipv6Addr};
use crate::question::QueryType;
use crate::memory::{fits, room_of, room_sum, rooms_hold};
use crate::text::byte_len;

verus! {

/// A resource record of class IN.
#[allow(inconsistent_fields)]
#[derive(Debug, Clone, PartialEq, Eq, Hash, PartialOrd, Ord)]
pub enum DnsRecord {
    UNKNOWN { domain: String, qtype: u16, data: Vec<u8>, ttl: u32 },
    A { domain: String, addr: Ipv4Addr, ttl: u32 },
    NS { domain: String, host: String, ttl: u32 },
    SOA {
        domain: String,
        mname: String,
        rname: String,
        serial: u32,
        refresh: u32,
        retry: u32,
        expire: u32,
        minimum: u32,
        ttl: u32,
    },
    CNAME { domain: String, host: String, ttl: u32 },
    PTR { domain: String, host: String, ttl: u32 },
    MX { domain: String, priority: u16, host: String, ttl: u32 },
    AAAA { domain: String, addr: Ipv6Addr, ttl: u32 },
    DNSKEY {
        domain: String,
        flags: u16,
        protocol: u8,
        algorithm: u8,
        public_key: Vec<u8>,
        ttl: u32,
    },
    DS {
        domain: String,
        key_tag: u16,
        algorithm: u8,
        digest_type: u8,
        digest: Vec<u8>,
        ttl: u32,
    },
    RRSIG {
        domain: String,
        type_covered: u16,
        algorithm: u8,
        labels: u8,
        original_ttl: u32,
        expiration: u32,
        inception: u32,
        key_tag: u16,
        signer_name: String,
        signature: Vec<u8>,
        ttl: u32,
    },
    NSEC { domain: String, next_domain: String, type_bitmap: Vec<u8>, ttl: u32 },
    NSEC3 {
        domain: String,
        hash_algorithm: u8,
        flags: u8,
        iterations: u16,
        salt: Vec<u8>,
        next_hashed_owner: Vec<u8>,
        type_bitmap: Vec<u8>,
        ttl: u32,
    },
}

/// What a record says of its name.
#[allow(inconsistent_fields)]
pub enum RdataView {
    Unknown { qtype: u16, data: Seq<u8> },
    A { addr: Ipv4Addr },
    Ns { host: Seq<char> },
    Soa {
        mname: Seq<char>,
        rname: Seq<char>,
        serial: u32,
        refresh: u32,
        retry: u32,
        expire: u32,
        minimum: u32,
    },
    Cname { host: Seq<char> },
    Ptr { host: Seq<char> },
    Mx { priority: u16, host: Seq<char> },
    Aaaa { addr: Ipv6Addr },
    Dnskey { flags: u16, protocol: u8, algorithm: u8, public_key: Seq<u8> },
    Ds { key_tag: u16, algorithm: u8, digest_type: u8, digest: Seq<u8> },
    Rrsig {
        type_covered: u16,
        algorithm: u8,
        labels: u8,
        original_ttl: u32,
        expiration: u32,
        inception: u32,
        key_tag: u16,
        signer_name: Seq<char>,
        signature: Seq<u8>,
    },
    Nsec { next_domain: Seq<char>, type_bitmap: Seq<u8> },
    Nsec3 {
        hash_algorithm: u8,
        flags: u8,
        iterations: u16,
        salt: Seq<u8>,
        next_hashed_owner: Seq<u8>,
        type_bitmap: Seq<u8>,
    },
}

/// A record: the name it is about, how long it may be kept, and what it says.
pub struct RecordView {
    pub domain: Seq<char>,
    pub ttl: u32,
    pub data: RdataView,
}

impl View for DnsRecord {
    type V = RecordView;

    open spec fn view(&self) -> RecordView {
        match self {
            DnsRecord::UNKNOWN { domain, qtype, data, ttl } => RecordView {
                domain: domain@,
                ttl: *ttl,
                data: RdataView::Unknown { qtype: *qtype, data: data@ },
            },
            DnsRecord::A { domain, addr, ttl } => RecordView {
                domain: domain@,
                ttl: *ttl,
                data: RdataView::A { addr: *addr },
            },
            DnsRecord::NS { domain, host, ttl } => RecordView {
                domain: domain@,
                ttl: *ttl,
                data: RdataView::Ns { host: host@ },
            },
            DnsRecord::SOA {
                domain,
                mname,
                rname,
                serial,
                refresh,
                retry,
                expire,
                minimum,
                ttl,
            } => RecordView {
                domain: domain@,
                ttl: *ttl,
                data: RdataView::Soa {
                    mname: mname@,
                    rname: rname@,
                    serial: *serial,
                    refresh: *refresh,
                    retry: *retry,
                    expire: *expire,
                    minimum: *minimum,
                },
            },
            DnsRecord::CNAME { domain, host, ttl } => RecordView {
                domain: domain@,
                ttl: *ttl,
                data: RdataView::Cname { host: host@ },
            },
            DnsRecord::PTR { domain, host, ttl } => RecordView {
                domain: domain@,
                ttl: *ttl,
                data: RdataView::Ptr { host: host@ },
            },
            DnsRecord::MX { domain, priority, host, ttl } => RecordView {
                domain: domain@,
                ttl: *ttl,
                data: RdataView::Mx { priority: *priority, host: host@ },
            },
            DnsRecord::AAAA { domain, addr, ttl } => RecordView {
                domain: domain@,
                ttl: *ttl,
                data: RdataView::Aaaa { addr: *addr },
            },
            DnsRecord::DNSKEY { domain, flags, protocol, algorithm, public_key, ttl } => RecordView {
                domain: domain@,
                ttl: *ttl,
                data: RdataView::Dnskey {
                    flags: *flags,
                    protocol: *protocol,
                    algorithm: *algorithm,
                    public_key: public_key@,
                },
            },
            DnsRecord::DS { domain, key_tag, algorithm, digest_type, digest, ttl } => RecordView {
                domain: domain@,
                ttl: *ttl,
                data: RdataView::Ds {
                    key_tag: *key_tag,
                    algorithm: *algorithm,
                    digest_type: *digest_type,
                    digest: digest@,
                },
            },
            DnsRecord::RRSIG {
                domain,
                type_covered,
                algorithm,
                labels,
                original_ttl,
                expiration,
                inception,
                key_tag,
                signer_name,
                signature,
                ttl,
            } => RecordView {
                domain: domain@,
                ttl: *ttl,
                data: RdataView::Rrsig {
                    type_covered: *type_covered,
                    algorithm: *algorithm,
                    labels: *labels,
                    original_ttl: *original_ttl,
                    expiration: *expiration,
                    inception: *inception,
                    key_tag: *key_tag,
                    signer_name: signer_name@,
                    signature: signature@,
                },
            },
            DnsRecord::NSEC { domain, next_domain, type_bitmap, ttl } => RecordView {
                domain: domain@,
                ttl: *ttl,
                data: RdataView::Nsec { next_domain: next_domain@, type_bitmap: type_bitmap@ },
            },
            DnsRecord::NSEC3 {
                domain,
                hash_algorithm,
                flags,
                iterations,
                salt,
                next_hashed_owner,
                type_bitmap,
                ttl,
            } => RecordView {
                domain: domain@,
                ttl: *ttl,
                data: RdataView::Nsec3 {
                    hash_algorithm: *hash_algorithm,
                    flags: *flags,
                    iterations: *iterations,
                    salt: salt@,
                    next_hashed_owner: next_hashed_owner@,
                    type_bitmap: type_bitmap@,
                },
            },
        }
    }
}

impl RdataView {
    /// The type of records that say this.
    pub open spec fn qtype(&self) -> QueryType {
        match self {
            RdataView::Unknown { qtype, .. } => QueryType::UNKNOWN(*qtype),
            RdataView::A { .. } => QueryType::A,
            RdataView::Ns { .. } => QueryType::NS,
            RdataView::Soa { .. } => QueryType::SOA,
            RdataView::Cname { .. } => QueryType::CNAME,
            RdataView::Ptr { .. } => QueryType::PTR,
            RdataView::Mx { .. } => QueryType::MX,
            RdataView::Aaaa { .. } => QueryType::AAAA,
            RdataView::Dnskey { .. } => QueryType::DNSKEY,
            RdataView::Ds { .. } => QueryType::DS,
            RdataView::Rrsig { .. } => QueryType::RRSIG,
            RdataView::Nsec { .. } => QueryType::NSEC,
            RdataView::Nsec3 { .. } => QueryType::NSEC3,
        }
    }
}

// ---------------------------------------------------------------------------
// Reading
// ---------------------------------------------------------------------------

/// Reading at a position: what was read and where reading goes on, or the
/// error and where reading stopped.
pub type Reading<T> = Result<(T, int), (WireError, int)>;

/// Reading a name.
pub open spec fn name_reading(buf: Seq<u8>, p: int) -> Reading<Seq<char>> {
    let (text, err) = name_at(buf, p, 0, true);
    let end = match name_end(buf, p) {
        Some(e) => e,
        None => p,
    };
    match err {
        None => Ok((text, end)),
        Some(e) => Err((e, end)),
    }
}

/// Whether `n` single bytes can be read.
pub open spec fn fixed_reading(p: int, n: int) -> Reading<()> {
    if p + n <= BUF_SIZE {
        Ok(((), p + n))
    } else {
        Err((WireError::EndOfBuffer, stop_pos(p)))
    }
}

/// Reading the bytes up to `end`, with `short` for an end that was passed.
pub open spec fn tail_reading(buf: Seq<u8>, p: int, end: int, short: WireError) -> Reading<
    Seq<u8>,
> {
    if end < p {
        Err((short, p))
    } else if end > BUF_SIZE {
        Err((WireError::EndOfBuffer, p))
    } else {
        Ok((buf.subrange(p, end), end))
    }
}

/// The IPv6 address in the 16 bytes at `p`.
pub open spec fn at128(buf: Seq<u8>, p: int) -> u128 {
    (((at32(buf, p) * 0x1_0000_0000 + at32(buf, p + 4)) * 0x1_0000_0000 + at32(buf, p + 8))
        * 0x1_0000_0000 + at32(buf, p + 12)) as u128
}

/// Reading the data of a record of type `qtype` whose data is said to be `len`
/// bytes long.
#[verifier::opaque]
pub open spec fn rdata_reading(buf: Seq<u8>, p: int, qtype: u16, len: u16) -> Reading<RdataView> {
    if qtype == 1 {
        match fixed_reading(p, 4) {
            Err(e) => Err(e),
            Ok((_, q)) => Ok((RdataView::A { addr: Ipv4Addr { bits: at32(buf, p) } }, q)),
        }
    } else if qtype == 28 {
        match fixed_reading(p, 16) {
            Err(e) => Err(e),
            Ok((_, q)) => Ok((RdataView::Aaaa { addr: Ipv6Addr { bits: at128(buf, p) } }, q)),
        }
    } else if qtype == 2 {
        match name_reading(buf, p) {
            Err(e) => Err(e),
            Ok((host, q)) => Ok((RdataView::Ns { host }, q)),
        }
    } else if qtype == 5 {
        match name_reading(buf, p) {
            Err(e) => Err(e),
            Ok((host, q)) => Ok((RdataView::Cname { host }, q)),
        }
    } else if qtype == 12 {
        match name_reading(buf, p) {
            Err(e) => Err(e),
            Ok((host, q)) => Ok((RdataView::Ptr { host }, q)),
        }
    } else if qtype == 15 {
        match fixed_reading(p, 2) {
            Err(e) => Err(e),
            Ok((_, q)) => match name_reading(buf, q) {
                Err(e) => Err(e),
                Ok((host, r)) => Ok((RdataView::Mx { priority: at16(buf, p), host }, r)),
            },
        }
    } else if qtype == 48 {
        match fixed_reading(p, 4) {
            Err(e) => Err(e),
            Ok((_, q)) => match tail_reading(buf, q, p + len, WireError::DnskeyTooShort) {
                Err(e) => Err(e),
                Ok((public_key, r)) => Ok(
                    (
                        RdataView::Dnskey {
                            flags: at16(buf, p),
                            protocol: buf[p + 2],
                            algorithm: buf[p + 3],
                            public_key,
                        },
                        r,
                    ),
                ),
            },
        }
    } else if qtype == 43 {
        match fixed_reading(p, 4) {
            Err(e) => Err(e),
            Ok((_, q)) => match tail_reading(buf, q, p + len, WireError::DsTooShort) {
                Err(e) => Err(e),
                Ok((digest, r)) => Ok(
                    (
                        RdataView::Ds {
                            key_tag: at16(buf, p),
                            algorithm: buf[p + 2],
                            digest_type: buf[p + 3],
                            digest,
                        },
                        r,
                    ),
                ),
            },
        }
    } else if qtype == 46 {
        match fixed_reading(p, 18) {
            Err(e) => Err(e),
            Ok((_, q)) => match name_reading(buf, q) {
                Err(e) => Err(e),
                Ok((signer_name, r)) => match tail_reading(
                    buf,
                    r,
                    p + len,
                    WireError::RrsigTooShort,
                ) {
                    Err(e) => Err(e),
                    Ok((signature, t)) => Ok(
                        (
                            RdataView::Rrsig {
                                type_covered: at16(buf, p),
                                algorithm: buf[p + 2],
                                labels: buf[p + 3],
                                original_ttl: at32(buf, p + 4),
                                expiration: at32(buf, p + 8),
                                inception: at32(buf, p + 12),
                                key_tag: at16(buf, p + 16),
                                signer_name,
                                signature,
                            },
                            t,
                        ),
                    ),
                },
            },
        }
    } else if qtype == 47 {
        match name_reading(buf, p) {
            Err(e) => Err(e),
            Ok((next_domain, q)) => match tail_reading(buf, q, p + len, WireError::NsecTooShort) {
                Err(e) => Err(e),
                Ok((type_bitmap, r)) => Ok((RdataView::Nsec { next_domain, type_bitmap }, r)),
            },
        }
    } else if qtype == 50 {
        match fixed_reading(p, 5) {
            Err(e) => Err(e),
            Ok((_, q)) => match tail_reading(buf, q, q + buf[p + 4], WireError::EndOfBuffer) {
                Err(e) => Err(e),
                Ok((salt, r)) => match fixed_reading(r, 1) {
                    Err(e) => Err(e),
                    Ok((_, s)) => match tail_reading(buf, s, s + buf[r], WireError::EndOfBuffer) {
                        Err(e) => Err(e),
                        Ok((next_hashed_owner, t)) => match tail_reading(
                            buf,
                            t,
                            p + len,
                            WireError::Nsec3TooShort,
                        ) {
                            Err(e) => Err(e),
                            Ok((type_bitmap, u)) => Ok(
                                (
                                    RdataView::Nsec3 {
                                        hash_algorithm: buf[p],
                                        flags: buf[p + 1],
                                        iterations: at16(buf, p + 2),
                                        salt,
                                        next_hashed_owner,
                                        type_bitmap,
                                    },
                                    u,
                                ),
                            ),
                        },
                    },
                },
            },
        }
    } else if qtype == 6 {
        match name_reading(buf, p) {
            Err(e) => Err(e),
            Ok((mname, q)) => match name_reading(buf, q) {
                Err(e) => Err(e),
                Ok((rname, r)) => match fixed_reading(r, 20) {
                    Err(e) => Err(e),
                    Ok((_, s)) => Ok(
                        (
                            RdataView::Soa {
                                mname,
                                rname,
                                serial: at32(buf, r),
                                refresh: at32(buf, r + 4),
                                retry: at32(buf, r + 8),
                                expire: at32(buf, r + 12),
                                minimum: at32(buf, r + 16),
                            },
                            s,
                        ),
                    ),
                },
            },
        }
    } else {
        match tail_reading(buf, p, p + len, WireError::EndOfBuffer) {
            Err(e) => Err(e),
            Ok((data, q)) => Ok((RdataView::Unknown { qtype, data }, q)),
        }
    }
}

/// Reading a record.
pub open spec fn record_reading(buf: Seq<u8>, p: int) -> Reading<RecordView> {
    match name_reading(buf, p) {
        Err(e) => Err(e),
        Ok((domain, q)) => match fixed_reading(q, 10) {
            Err(e) => Err(e),
            Ok((_, r)) => match rdata_reading(buf, r, at16(buf, q), at16(buf, q + 8)) {
                Err(e) => Err(e),
                Ok((data, s)) => Ok((RecordView { domain, ttl: at32(buf, q + 4), data }, s)),
            },
        },
    }
}

/// Whether a read that turned `old` into `new` and returned `r` was `reading`.
pub open spec fn was_read(
    old: BytePacketBuffer,
    new: BytePacketBuffer,
    r: Result<DnsRecord, WireError>,
    reading: Reading<RecordView>,
) -> bool {
    &&& old.same_but_pos(&new)
    &&& match reading {
        Ok((rec, end)) => r is Ok && r->Ok_0@ == rec && new.pos == end,
        Err((e, end)) => r == Err::<DnsRecord, WireError>(e) && new.pos == end,
    }
}

/// The reading of a record whose name and time to live were read before.
pub open spec fn with_head(
    domain: Seq<char>,
    ttl: u32,
    reading: Reading<RdataView>,
) -> Reading<RecordView> {
    match reading {
        Err(e) => Err(e),
        Ok((data, s)) => Ok((RecordView { domain, ttl, data }, s)),
    }
}

/// A name that is read without an error ends within the buffer.
pub proof fn name_reading_ends(buf: Seq<u8>, p: int)
    requires
        buf.len() == BUF_SIZE,
    ensures
        name_reading(buf, p) matches Ok((_, q)) ==> p < q <= BUF_SIZE,
{
    name_at_ends(buf, p, true);
}

proof fn name_at_ends(buf: Seq<u8>, p: int, first: bool)
    requires
        buf.len() == BUF_SIZE,
    ensures
        name_at(buf, p, 0, first).1 is None ==> name_end(buf, p) is Some && p < name_end(buf, p)->0
            <= BUF_SIZE,
    decreases BUF_SIZE - p,
{
    if 0 <= p < BUF_SIZE {
        let len = buf[p];
        if 0 < len < 0x40 && p + 1 + len <= BUF_SIZE {
            name_at_ends(buf, p + 1 + len, false);
        }
    }
}

/// Reads a name at the position.
pub(crate) fn read_name(buffer: &mut BytePacketBuffer) -> (r: Result<String, WireError>)
    ensures
        old(buffer).same_but_pos(final(buffer)),
        match name_reading(old(buffer).buf@, old(buffer).pos as int) {
            Ok((text, end)) => r is Ok && r->Ok_0@ == text && final(buffer).pos == end && end
                <= BUF_SIZE,
            Err((e, end)) => r == Err::<String, WireError>(e) && final(buffer).pos == end,
        },
{
    proof {
        name_reading_ends(buffer.buf@, buffer.pos as int);
    }
    let mut s = String::new();
    buffer.read_qname(&mut s)?;
    assert(s@ =~= name_at(old(buffer).buf@, old(buffer).pos as int, 0, true).0);
    Ok(s)
}

/// Reads the bytes from the position to `end`.
pub(crate) fn read_tail(buffer: &mut BytePacketBuffer, end: usize, short: WireError) -> (r: Result<
    Vec<u8>,
    WireError,
>)
    requires
        old(buffer).pos <= BUF_SIZE,
    ensures
        old(buffer).same_but_pos(final(buffer)),
        match tail_reading(old(buffer).buf@, old(buffer).pos as int, end as int, short) {
            Ok((bytes, e)) => r is Ok && r->Ok_0@ == bytes && final(buffer).pos == e,
            Err((e, p)) => r == Err::<Vec<u8>, WireError>(e) && final(buffer).pos == p,
        },
{
    let at: usize = buffer.pos();
    if end < at {
        return Err(short);
    }
    let data = slice_to_vec(buffer.get_range(at, end - at)?);
    buffer.step(end - at)?;
    Ok(data)
}

impl DnsRecord {
    /// Reads a record. The position moves behind it, or stays where reading failed.
    pub fn read(buffer: &mut BytePacketBuffer) -> (r: Result<DnsRecord, WireError>)
        ensures
            was_read(
                *old(buffer),
                *final(buffer),
                r,
                record_reading(old(buffer).buf@, old(buffer).pos as int),
            ),
    {
        let domain = read_name(buffer)?;
        let qtype_num = buffer.read_u16()?;
        let _class = buffer.read_u16()?;
        let ttl = buffer.read_u32()?;
        let data_len = buffer.read_u16()?;
        match QueryType::from_num(qtype_num) {
            QueryType::A | QueryType::AAAA => Self::read_address(
                buffer,
                domain,
                ttl,
                qtype_num,
                Ghost(data_len),
            ),
            QueryType::NS | QueryType::CNAME | QueryType::PTR | QueryType::MX
            | QueryType::SOA => Self::read_hosts(
                buffer,
                domain,
                ttl,
                qtype_num,
                Ghost(data_len),
            ),
            QueryType::DNSKEY => Self::read_dnskey(buffer, domain, ttl, data_len),
            QueryType::DS => Self::read_ds(buffer, domain, ttl, data_len),
            QueryType::RRSIG => Self::read_rrsig(buffer, domain, ttl, data_len),
            QueryType::NSEC => Self::read_nsec(buffer, domain, ttl, data_len),
            QueryType::NSEC3 => Self::read_nsec3(buffer, domain, ttl, data_len),
            _ => Self::read_unknown(buffer, domain, ttl, qtype_num, data_len),
        }
    }

    /// Whether records of a type are read as bytes.
    spec fn opaque_type(qtype: u16) -> bool {
        !(qtype == 1 || qtype == 28 || qtype == 2 || qtype == 5 || qtype == 12 || qtype == 15
            || qtype == 6 || qtype == 48 || qtype == 43 || qtype == 46 || qtype == 47 || qtype
            == 50)
    }

    /// Reads the data of a record of any other type, as bytes.
    fn read_unknown(
        buffer: &mut BytePacketBuffer,
        domain: String,
        ttl: u32,
        qtype: u16,
        len: u16,
    ) -> (r: Result<DnsRecord, WireError>)
        requires
            old(buffer).pos <= BUF_SIZE,
            Self::opaque_type(qtype),
        ensures
            was_read(
                *old(buffer),
                *final(buffer),
                r,
                with_head(
                    domain@,
                    ttl,
                    rdata_reading(old(buffer).buf@, old(buffer).pos as int, qtype, len),
                ),
            ),
    {
        reveal(rdata_reading);
        let end: usize = buffer.pos() + len as usize;
        let data = read_tail(buffer, end, WireError::EndOfBuffer)?;
        Ok(DnsRecord::UNKNOWN { domain, qtype, data, ttl })
    }

    /// Reads the data of an address record.
    fn read_address(
        buffer: &mut BytePacketBuffer,
        domain: String,
        ttl: u32,
        qtype: u16,
        Ghost(len): Ghost<u16>,
    ) -> (r: Result<DnsRecord, WireError>)
        requires
            qtype == 1 || qtype == 28,
        ensures
            was_read(
                *old(buffer),
                *final(buffer),
                r,
                with_head(
                    domain@,
                    ttl,
                    rdata_reading(old(buffer).buf@, old(buffer).pos as int, qtype, len),
                ),
            ),
    {
        reveal(rdata_reading);
        let a = buffer.read_u32()?;
        if qtype == 1 {
            return Ok(DnsRecord::A { domain, addr: Ipv4Addr { bits: a }, ttl });
        }
        let b = buffer.read_u32()?;
        let c = buffer.read_u32()?;
        let d = buffer.read_u32()?;
        let bits: u128 = ((a as u128 * 0x1_0000_0000 + b as u128) * 0x1_0000_0000 + c as u128)
            * 0x1_0000_0000 + d as u128;
        Ok(DnsRecord::AAAA { domain, addr: Ipv6Addr { bits }, ttl })
    }

    /// Reads the data of a record that is made of names and numbers.
    fn read_hosts(
        buffer: &mut BytePacketBuffer,
        domain: String,
        ttl: u32,
        qtype: u16,
        Ghost(len): Ghost<u16>,
    ) -> (r: Result<DnsRecord, WireError>)
        requires
            qtype == 2 || qtype == 5 || qtype == 12 || qtype == 15 || qtype == 6,
        ensures
            was_read(
                *old(buffer),
                *final(buffer),
                r,
                with_head(
                    domain@,
                    ttl,
                    rdata_reading(old(buffer).buf@, old(buffer).pos as int, qtype, len),
                ),
            ),
    {
        reveal(rdata_reading);
        if qtype == 15 {
            let priority = buffer.read_u16()?;
            let host = read_name(buffer)?;
            return Ok(DnsRecord::MX { domain, priority, host, ttl });
        }
        let host = read_name(buffer)?;
        if qtype == 2 {
            Ok(DnsRecord::NS { domain, host, ttl })
        } else if qtype == 5 {
            Ok(DnsRecord::CNAME { domain, host, ttl })
        } else if qtype == 12 {
            Ok(DnsRecord::PTR { domain, host, ttl })
        } else {
            let rname = read_name(buffer)?;
            let serial = buffer.read_u32()?;
            let refresh = buffer.read_u32()?;
            let retry = buffer.read_u32()?;
            let expire = buffer.read_u32()?;
            let minimum = buffer.read_u32()?;
            Ok(
                DnsRecord::SOA {
                    domain,
                    mname: host,
                    rname,
                    serial,
                    refresh,
                    retry,
                    expire,
                    minimum,
                    ttl,
                },
            )
        }
    }

    /// Reads the data of a DNSKEY record.
    fn read_dnskey(buffer: &mut BytePacketBuffer, domain: String, ttl: u32, len: u16) -> (r: Result<
        DnsRecord,
        WireError,
    >)
        requires
            old(buffer).pos <= BUF_SIZE,
        ensures
            was_read(
                *old(buffer),
                *final(buffer),
                r,
                with_head(
                    domain@,
                    ttl,
                    rdata_reading(old(buffer).buf@, old(buffer).pos as int, 48, len),
                ),
            ),
    {
        reveal(rdata_reading);
        let end: usize = buffer.pos() + len as usize;
        let flags = buffer.read_u16()?;
        let protocol = buffer.read()?;
        let algorithm = buffer.read()?;
        let public_key = read_tail(buffer, end, WireError::DnskeyTooShort)?;
        Ok(DnsRecord::DNSKEY { domain, flags, protocol, algorithm, public_key, ttl })
    }

    /// Reads the data of a DS record.
    fn read_ds(buffer: &mut BytePacketBuffer, domain: String, ttl: u32, len: u16) -> (r: Result<
        DnsRecord,
        WireError,
    >)
        requires
            old(buffer).pos <= BUF_SIZE,
        ensures
            was_read(
                *old(buffer),
                *final(buffer),
                r,
                with_head(
                    domain@,
                    ttl,
                    rdata_reading(old(buffer).buf@, old(buffer).pos as int, 43, len),
                ),
            ),
    {
        reveal(rdata_reading);
        let end: usize = buffer.pos() + len as usize;
        let key_tag = buffer.read_u16()?;
        let algorithm = buffer.read()?;
        let digest_type = buffer.read()?;
        let digest = read_tail(buffer, end, WireError::DsTooShort)?;
        Ok(DnsRecord::DS { domain, key_tag, algorithm, digest_type, digest, ttl })
    }

    /// Reads the data of an RRSIG record.
    fn read_rrsig(buffer: &mut BytePacketBuffer, domain: String, ttl: u32, len: u16) -> (r: Result<
        DnsRecord,
        WireError,
    >)
        requires
            old(buffer).pos <= BUF_SIZE,
        ensures
            was_read(
                *old(buffer),
                *final(buffer),
                r,
                with_head(
                    domain@,
                    ttl,
                    rdata_reading(old(buffer).buf@, old(buffer).pos as int, 46, len),
                ),
            ),
    {
        reveal(rdata_reading);
        let end: usize = buffer.pos() + len as usize;
        let type_covered = buffer.read_u16()?;
        let algorithm = buffer.read()?;
        let labels = buffer.read()?;
        let original_ttl = buffer.read_u32()?;
        let expiration = buffer.read_u32()?;
        let inception = buffer.read_u32()?;
        let key_tag = buffer.read_u16()?;
        let signer_name = read_name(buffer)?;
        let signature = read_tail(buffer, end, WireError::RrsigTooShort)?;
        Ok(
            DnsRecord::RRSIG {
                domain,
                type_covered,
                algorithm,
                labels,
                original_ttl,
                expiration,
                inception,
                key_tag,
                signer_name,
                signature,
                ttl,
            },
        )
    }

    /// Reads the data of an NSEC record.
    fn read_nsec(buffer: &mut BytePacketBuffer, domain: String, ttl: u32, len: u16) -> (r: Result<
        DnsRecord,
        WireError,
    >)
        requires
            old(buffer).pos <= BUF_SIZE,
        ensures
            was_read(
                *old(buffer),
                *final(buffer),
                r,
                with_head(
                    domain@,
                    ttl,
                    rdata_reading(old(buffer).buf@, old(buffer).pos as int, 47, len),
                ),
            ),
    {
        reveal(rdata_reading);
        let end: usize = buffer.pos() + len as usize;
        let next_domain = read_name(buffer)?;
        let type_bitmap = read_tail(buffer, end, WireError::NsecTooShort)?;
        Ok(DnsRecord::NSEC { domain, next_domain, type_bitmap, ttl })
    }

    /// Reads the data of an NSEC3 record.
    fn read_nsec3(buffer: &mut BytePacketBuffer, domain: String, ttl: u32, len: u16) -> (r: Result<
        DnsRecord,
        WireError,
    >)
        requires
            old(buffer).pos <= BUF_SIZE,
        ensures
            was_read(
                *old(buffer),
                *final(buffer),
                r,
                with_head(
                    domain@,
                    ttl,
                    rdata_reading(old(buffer).buf@, old(buffer).pos as int, 50, len),
                ),
            ),
    {
        reveal(rdata_reading);
        let end: usize = buffer.pos() + len as usize;
        let hash_algorithm = buffer.read()?;
        let flags = buffer.read()?;
        let iterations = buffer.read_u16()?;
        let salt_length = buffer.read()?;
        let salt_end: usize = buffer.pos() + salt_length as usize;
        let salt = read_tail(buffer, salt_end, WireError::EndOfBuffer)?;
        let hash_length = buffer.read()?;
        let hash_end: usize = buffer.pos() + hash_length as usize;
        let next_hashed_owner = read_tail(buffer, hash_end, WireError::EndOfBuffer)?;
        let type_bitmap = read_tail(buffer, end, WireError::Nsec3TooShort)?;
        Ok(
            DnsRecord::NSEC3 {
                domain,
                hash_algorithm,
                flags,
                iterations,
                salt,
                next_hashed_owner,
                type_bitmap,
                ttl,
            },
        )
    }
}

// ---------------------------------------------------------------------------
// Writing
// ---------------------------------------------------------------------------

/// The bytes of an IPv6 address, first segment first.
pub open spec fn be128(v: u128) -> Seq<u8> {
    be32((v / 0x1_0000_0000_0000_0000_0000_0000) as u32) + be32(
        (v / 0x1_0000_0000_0000_0000 % 0x1_0000_0000) as u32,
    ) + be32((v / 0x1_0000_0000 % 0x1_0000_0000) as u32) + be32((v % 0x1_0000_0000) as u32)
}

/// The parts that a record's data is written in.
#[verifier::opaque]
pub open spec fn rdata_parts(d: RdataView) -> Seq<Emission> {
    match d {
        RdataView::Unknown { data, .. } => seq![plain(data)],
        RdataView::A { addr } => seq![plain(be32(addr.bits))],
        RdataView::Ns { host } => seq![named(host)],
        RdataView::Soa { mname, rname, serial, refresh, retry, expire, minimum } => seq![
            named(mname),
            named(rname),
            plain(be32(serial)),
            plain(be32(refresh)),
            plain(be32(retry)),
            plain(be32(expire)),
            plain(be32(minimum)),
        ],
        RdataView::Cname { host } => seq![named(host)],
        RdataView::Ptr { host } => seq![named(host)],
        RdataView::Mx { priority, host } => seq![plain(be16(priority)), named(host)],
        RdataView::Aaaa { addr } => seq![plain(be128(addr.bits))],
        RdataView::Dnskey { flags, protocol, algorithm, public_key } => seq![
            plain(be16(flags)),
            plain(seq![protocol]),
            plain(seq![algorithm]),
            plain(public_key),
        ],
        RdataView::Ds { key_tag, algorithm, digest_type, digest } => seq![
            plain(be16(key_tag)),
            plain(seq![algorithm]),
            plain(seq![digest_type]),
            plain(digest),
        ],
        RdataView::Rrsig {
            type_covered,
            algorithm,
            labels,
            original_ttl,
            expiration,
            inception,
            key_tag,
            signer_name,
            signature,
        } => seq![
            plain(be16(type_covered)),
            plain(seq![algorithm]),
            plain(seq![labels]),
            plain(be32(original_ttl)),
            plain(be32(expiration)),
            plain(be32(inception)),
            plain(be16(key_tag)),
            named(signer_name),
            plain(signature),
        ],
        RdataView::Nsec { next_domain, type_bitmap } => seq![
            named(next_domain),
            plain(type_bitmap),
        ],
        RdataView::Nsec3 {
            hash_algorithm,
            flags,
            iterations,
            salt,
            next_hashed_owner,
            type_bitmap,
        } => seq![
            plain(seq![hash_algorithm]),
            plain(seq![flags]),
            plain(be16(iterations)),
            plain(seq![(salt.len() % 256) as u8]),
            plain(salt),
            plain(seq![(next_hashed_owner.len() % 256) as u8]),
            plain(next_hashed_owner),
            plain(type_bitmap),
        ],
    }
}

/// Something with the number of its bytes before it: zero where it breaks off,
/// and the low 16 bits of that number where it is complete.
pub open spec fn counted(e: Emission) -> Emission {
    Emission {
        bytes: be16(
            if e.error is Some {
                0
            } else {
                (e.bytes.len() % 65536) as u16
            },
        ) + e.bytes,
        error: e.error,
    }
}

/// The parts that stand before a record's data.
pub open spec fn head_parts(domain: Seq<char>, qtype: u16, ttl: u32) -> Seq<Emission> {
    seq![named(domain), plain(be16(qtype)), plain(be16(1)), plain(be32(ttl))]
}

/// What writing a record comes to.
pub open spec fn record_emission(rec: RecordView) -> Emission {
    after(
        in_turn(head_parts(rec.domain, rec.data.qtype().num(), rec.ttl)),
        counted(in_turn(rdata_parts(rec.data))),
    )
}

/// Writes what stands before a record's data: its name, type, class IN and
/// time to live.
pub fn write_header(buffer: &mut BytePacketBuffer, domain: &str, qtype: u16, ttl: u32) -> (r:
    Result<(), WireError>)
    ensures
        emitted(*old(buffer), *final(buffer), r, in_turn(head_parts(domain@, qtype, ttl))),
{
    let ghost start = *buffer;
    let ghost parts = head_parts(domain@, qtype, ttl);
    if buffer.pos() > BUF_SIZE {
        let r = buffer.write_u8(0);
        return r;
    }
    proof {
        emitted_none(start, parts);
    }
    put_name(buffer, domain, Ghost(start), Ghost(parts), Ghost(0))?;
    put_u16(buffer, qtype, Ghost(start), Ghost(parts), Ghost(1))?;
    put_u16(buffer, 1, Ghost(start), Ghost(parts), Ghost(2))?;
    put_u32(buffer, ttl, Ghost(start), Ghost(parts), Ghost(3))?;
    Ok(())
}

/// Writes names and numbers: the data of a record that is made of those.
fn write_hosts(rec: &DnsRecord, buffer: &mut BytePacketBuffer) -> (r: Result<(), WireError>)
    requires
        old(buffer).pos <= BUF_SIZE,
        rec is NS || rec is CNAME || rec is PTR || rec is MX || rec is SOA,
    ensures
        emitted(*old(buffer), *final(buffer), r, in_turn(rdata_parts(rec@.data))),
{
    reveal(rdata_parts);
    let ghost start = *buffer;
    let ghost parts = rdata_parts(rec@.data);
    proof {
        emitted_none(start, parts);
    }
    match rec {
        DnsRecord::NS { host, .. } | DnsRecord::CNAME { host, .. } | DnsRecord::PTR { host, .. } => {
            put_name(buffer, host.as_str(), Ghost(start), Ghost(parts), Ghost(0))
        },
        DnsRecord::MX { priority, host, .. } => {
            put_u16(buffer, *priority, Ghost(start), Ghost(parts), Ghost(0))?;
            put_name(buffer, host.as_str(), Ghost(start), Ghost(parts), Ghost(1))
        },
        DnsRecord::SOA { mname, rname, serial, refresh, retry, expire, minimum, .. } => {
            put_name(buffer, mname.as_str(), Ghost(start), Ghost(parts), Ghost(0))?;
            put_name(buffer, rname.as_str(), Ghost(start), Ghost(parts), Ghost(1))?;
            put_u32(buffer, *serial, Ghost(start), Ghost(parts), Ghost(2))?;
            put_u32(buffer, *refresh, Ghost(start), Ghost(parts), Ghost(3))?;
            put_u32(buffer, *retry, Ghost(start), Ghost(parts), Ghost(4))?;
            put_u32(buffer, *expire, Ghost(start), Ghost(parts), Ghost(5))?;
            put_u32(buffer, *minimum, Ghost(start), Ghost(parts), Ghost(6))
        },
        _ => Ok(()),
    }
}

/// Writes the data of a record of DNSSEC.
fn write_dnssec(rec: &DnsRecord, buffer: &mut BytePacketBuffer) -> (r: Result<(), WireError>)
    requires
        old(buffer).pos <= BUF_SIZE,
        rec is DNSKEY || rec is DS || rec is RRSIG || rec is NSEC || rec is NSEC3,
    ensures
        emitted(*old(buffer), *final(buffer), r, in_turn(rdata_parts(rec@.data))),
{
    reveal(rdata_parts);
    let ghost start = *buffer;
    let ghost parts = rdata_parts(rec@.data);
    proof {
        emitted_none(start, parts);
    }
    match rec {
        DnsRecord::DNSKEY { flags, protocol, algorithm, public_key, .. } => {
            put_u16(buffer, *flags, Ghost(start), Ghost(parts), Ghost(0))?;
            put_u8(buffer, *protocol, Ghost(start), Ghost(parts), Ghost(1))?;
            put_u8(buffer, *algorithm, Ghost(start), Ghost(parts), Ghost(2))?;
            put_bytes(buffer, public_key.as_slice(), Ghost(start), Ghost(parts), Ghost(3))
        },
        DnsRecord::DS { key_tag, algorithm, digest_type, digest, .. } => {
            put_u16(buffer, *key_tag, Ghost(start), Ghost(parts), Ghost(0))?;
            put_u8(buffer, *algorithm, Ghost(start), Ghost(parts), Ghost(1))?;
            put_u8(buffer, *digest_type, Ghost(start), Ghost(parts), Ghost(2))?;
            put_bytes(buffer, digest.as_slice(), Ghost(start), Ghost(parts), Ghost(3))
        },
        DnsRecord::RRSIG {
            type_covered,
            algorithm,
            labels,
            original_ttl,
            expiration,
            inception,
            key_tag,
            signer_name,
            signature,
            ..
        } => {
            put_u16(buffer, *type_covered, Ghost(start), Ghost(parts), Ghost(0))?;
            put_u8(buffer, *algorithm, Ghost(start), Ghost(parts), Ghost(1))?;
            put_u8(buffer, *labels, Ghost(start), Ghost(parts), Ghost(2))?;
            put_u32(buffer, *original_ttl, Ghost(start), Ghost(parts), Ghost(3))?;
            put_u32(buffer, *expiration, Ghost(start), Ghost(parts), Ghost(4))?;
            put_u32(buffer, *inception, Ghost(start), Ghost(parts), Ghost(5))?;
            put_u16(buffer, *key_tag, Ghost(start), Ghost(parts), Ghost(6))?;
            put_name(buffer, signer_name.as_str(), Ghost(start), Ghost(parts), Ghost(7))?;
            put_bytes(buffer, signature.as_slice(), Ghost(start), Ghost(parts), Ghost(8))
        },
        DnsRecord::NSEC { next_domain, type_bitmap, .. } => {
            put_name(buffer, next_domain.as_str(), Ghost(start), Ghost(parts), Ghost(0))?;
            put_bytes(buffer, type_bitmap.as_slice(), Ghost(start), Ghost(parts), Ghost(1))
        },
        DnsRecord::NSEC3 {
            hash_algorithm,
            flags,
            iterations,
            salt,
            next_hashed_owner,
            type_bitmap,
            ..
        } => {
            let salt_len: u8 = (salt.len() % 256) as u8;
            let hash_len: u8 = (next_hashed_owner.len() % 256) as u8;
            put_u8(buffer, *hash_algorithm, Ghost(start), Ghost(parts), Ghost(0))?;
            put_u8(buffer, *flags, Ghost(start), Ghost(parts), Ghost(1))?;
            put_u16(buffer, *iterations, Ghost(start), Ghost(parts), Ghost(2))?;
            put_u8(buffer, salt_len, Ghost(start), Ghost(parts), Ghost(3))?;
            put_bytes(buffer, salt.as_slice(), Ghost(start), Ghost(parts), Ghost(4))?;
            put_u8(buffer, hash_len, Ghost(start), Ghost(parts), Ghost(5))?;
            put_bytes(buffer, next_hashed_owner.as_slice(), Ghost(start), Ghost(parts), Ghost(6))?;
            put_bytes(buffer, type_bitmap.as_slice(), Ghost(start), Ghost(parts), Ghost(7))
        },
        _ => Ok(()),
    }
}

/// Writes an IPv6 address.
fn write_v6(buffer: &mut BytePacketBuffer, bits: u128) -> (r: Result<(), WireError>)
    requires
        old(buffer).pos <= BUF_SIZE,
    ensures
        emitted(*old(buffer), *final(buffer), r, plain(be128(bits))),
{
    let a: u32 = (bits / 0x1_0000_0000_0000_0000_0000_0000) as u32;
    let b: u32 = (bits / 0x1_0000_0000_0000_0000 % 0x1_0000_0000) as u32;
    let c: u32 = (bits / 0x1_0000_0000 % 0x1_0000_0000) as u32;
    let d: u32 = (bits % 0x1_0000_0000) as u32;
    let ghost start = *buffer;
    let ghost parts = seq![plain(be32(a)), plain(be32(b)), plain(be32(c)), plain(be32(d))];
    proof {
        emitted_none(start, parts);
        reveal_with_fuel(in_turn, 5);
        assert(parts.drop_last().drop_last().drop_last().drop_last().len() == 0);
        assert(in_turn(parts).bytes =~= be128(bits));
        assert(in_turn(parts).error is None);
    }
    put_u32(buffer, a, Ghost(start), Ghost(parts), Ghost(0))?;
    put_u32(buffer, b, Ghost(start), Ghost(parts), Ghost(1))?;
    put_u32(buffer, c, Ghost(start), Ghost(parts), Ghost(2))?;
    put_u32(buffer, d, Ghost(start), Ghost(parts), Ghost(3))?;
    Ok(())
}

/// Writes a record's data.
fn write_rdata(rec: &DnsRecord, buffer: &mut BytePacketBuffer) -> (r: Result<(), WireError>)
    requires
        old(buffer).pos <= BUF_SIZE,
    ensures
        emitted(*old(buffer), *final(buffer), r, in_turn(rdata_parts(rec@.data))),
{
    reveal(rdata_parts);
    let ghost start = *buffer;
    let ghost parts = rdata_parts(rec@.data);
    proof {
        emitted_none(start, parts);
    }
    match rec {
        DnsRecord::A { addr, .. } => put_u32(
            buffer,
            addr.bits,
            Ghost(start),
            Ghost(parts),
            Ghost(0),
        ),
        DnsRecord::AAAA { addr, .. } => {
            let r = write_v6(buffer, addr.bits);
            proof {
                emitted_next(start, start, *buffer, r, parts, 0);
            }
            r
        },
        DnsRecord::UNKNOWN { data, .. } => put_bytes(
            buffer,
            data.as_slice(),
            Ghost(start),
            Ghost(parts),
            Ghost(0),
        ),
        DnsRecord::NS { .. } | DnsRecord::CNAME { .. } | DnsRecord::PTR { .. }
        | DnsRecord::MX { .. } | DnsRecord::SOA { .. } => write_hosts(rec, buffer),
        _ => write_dnssec(rec, buffer),
    }
}

/// Writes a record's data after the number of its bytes.
fn write_counted(rec: &DnsRecord, buffer: &mut BytePacketBuffer) -> (r: Result<(), WireError>)
    requires
        old(buffer).pos <= BUF_SIZE,
    ensures
        emitted(*old(buffer), *final(buffer), r, counted(in_turn(rdata_parts(rec@.data)))),
{
    let ghost start = *buffer;
    let ghost data = in_turn(rdata_parts(rec@.data));
    let len_pos: usize = buffer.pos();
    buffer.write_u16(0)?;
    let ghost placed = *buffer;
    let r = write_rdata(rec, buffer);
    proof {
        emitted_after(start, placed, *buffer, r, plain(be16(0)), data);
    }
    r?;
    let ghost body = *buffer;
    let len: usize = buffer.pos() - len_pos - 2;
    assert(len == data.bytes.len());
    buffer.set_u16(len_pos, len as u16)?;
    assert(buffer.buf@ =~= splice(start.buf@, start.pos as int, counted(data).bytes));
    Ok(())
}

impl DnsRecord {
    /// Writes a record, and says how many bytes that took.
    pub fn write(&self, buffer: &mut BytePacketBuffer) -> (r: Result<usize, WireError>)
        ensures
            emitted(
                *old(buffer),
                *final(buffer),
                (match r {
                    Ok(_) => Ok(()),
                    Err(e) => Err(e),
                }),
                record_emission(self@),
            ),
            r matches Ok(n) ==> n == record_emission(self@).bytes.len(),
    {
        let start_pos: usize = buffer.pos();
        let ghost start = *buffer;
        write_header(buffer, self.domain(), self.query_type().to_num(), self.ttl())?;
        let ghost headed = *buffer;
        let r = write_counted(self, buffer);
        proof {
            emitted_after(
                start,
                headed,
                *buffer,
                r,
                in_turn(head_parts(self@.domain, self@.data.qtype().num(), self@.ttl)),
                counted(in_turn(rdata_parts(self@.data))),
            );
        }
        r?;
        Ok(buffer.pos() - start_pos)
    }

    /// The name that the record is about.
    pub fn domain(&self) -> (s: &str)
        ensures
            s@ == self@.domain,
    {
        match self {
            DnsRecord::A { domain, .. } | DnsRecord::NS { domain, .. } | DnsRecord::CNAME {
                domain,
                ..
            } | DnsRecord::PTR { domain, .. } | DnsRecord::MX { domain, .. } | DnsRecord::AAAA {
                domain,
                ..
            } | DnsRecord::DNSKEY { domain, .. } | DnsRecord::DS { domain, .. }
            | DnsRecord::RRSIG { domain, .. } | DnsRecord::NSEC { domain, .. }
            | DnsRecord::NSEC3 { domain, .. } | DnsRecord::SOA { domain, .. }
            | DnsRecord::UNKNOWN { domain, .. } => domain.as_str(),
        }
    }

    /// The type of the record.
    pub fn query_type(&self) -> (t: QueryType)
        ensures
            t == self@.data.qtype(),
    {
        match self {
            DnsRecord::A { .. } => QueryType::A,
            DnsRecord::AAAA { .. } => QueryType::AAAA,
            DnsRecord::NS { .. } => QueryType::NS,
            DnsRecord::CNAME { .. } => QueryType::CNAME,
            DnsRecord::PTR { .. } => QueryType::PTR,
            DnsRecord::MX { .. } => QueryType::MX,
            DnsRecord::SOA { .. } => QueryType::SOA,
            DnsRecord::DNSKEY { .. } => QueryType::DNSKEY,
            DnsRecord::DS { .. } => QueryType::DS,
            DnsRecord::RRSIG { .. } => QueryType::RRSIG,
            DnsRecord::NSEC { .. } => QueryType::NSEC,
            DnsRecord::NSEC3 { .. } => QueryType::NSEC3,
            DnsRecord::UNKNOWN { qtype, .. } => QueryType::UNKNOWN(*qtype),
        }
    }

    /// How many seconds the record may be kept.
    pub fn ttl(&self) -> (t: u32)
        ensures
            t == self@.ttl,
    {
        match self {
            DnsRecord::A { ttl, .. } | DnsRecord::NS { ttl, .. } | DnsRecord::CNAME { ttl, .. }
            | DnsRecord::PTR { ttl, .. } | DnsRecord::MX { ttl, .. } | DnsRecord::AAAA {
                ttl,
                ..
            } | DnsRecord::DNSKEY { ttl, .. } | DnsRecord::DS { ttl, .. } | DnsRecord::RRSIG {
                ttl,
                ..
            } | DnsRecord::NSEC { ttl, .. } | DnsRecord::NSEC3 { ttl, .. } | DnsRecord::SOA {
                ttl,
                ..
            } | DnsRecord::UNKNOWN { ttl, .. } => *ttl,
        }
    }

    /// Sets how many seconds the record may be kept.
    pub fn set_ttl(&mut self, new_ttl: u32)
        ensures
            final(self)@ == (RecordView { ttl: new_ttl, ..old(self)@ }),
    {
        match self {
            DnsRecord::UNKNOWN { ttl, .. } => *ttl = new_ttl,
            DnsRecord::A { ttl, .. } => *ttl = new_ttl,
            DnsRecord::NS { ttl, .. } => *ttl = new_ttl,
            DnsRecord::SOA { ttl, .. } => *ttl = new_ttl,
            DnsRecord::CNAME { ttl, .. } => *ttl = new_ttl,
            DnsRecord::PTR { ttl, .. } => *ttl = new_ttl,
            DnsRecord::MX { ttl, .. } => *ttl = new_ttl,
            DnsRecord::AAAA { ttl, .. } => *ttl = new_ttl,
            DnsRecord::DNSKEY { ttl, .. } => *ttl = new_ttl,
            DnsRecord::DS { ttl, .. } => *ttl = new_ttl,
            DnsRecord::RRSIG { ttl, .. } => *ttl = new_ttl,
            DnsRecord::NSEC { ttl, .. } => *ttl = new_ttl,
            DnsRecord::NSEC3 { ttl, .. } => *ttl = new_ttl,
        }
    }

    /// Sets the name that the record is about.
    pub fn set_domain(&mut self, new_domain: String)
        ensures
            final(self)@ == (RecordView { domain: new_domain@, ..old(self)@ }),
    {
        match self {
            DnsRecord::UNKNOWN { domain, .. } => *domain = new_domain,
            DnsRecord::A { domain, .. } => *domain = new_domain,
            DnsRecord::NS { domain, .. } => *domain = new_domain,
            DnsRecord::SOA { domain, .. } => *domain = new_domain,
            DnsRecord::CNAME { domain, .. } => *domain = new_domain,
            DnsRecord::PTR { domain, .. } => *domain = new_domain,
            DnsRecord::MX { domain, .. } => *domain = new_domain,
            DnsRecord::AAAA { domain, .. } => *domain = new_domain,
            DnsRecord::DNSKEY { domain, .. } => *domain = new_domain,
            DnsRecord::DS { domain, .. } => *domain = new_domain,
            DnsRecord::RRSIG { domain, .. } => *domain = new_domain,
            DnsRecord::NSEC { domain, .. } => *domain = new_domain,
            DnsRecord::NSEC3 { domain, .. } => *domain = new_domain,
        }
    }
}

impl DnsRecord {
    /// The same record again.
    pub fn copy(&self) -> (r: DnsRecord)
        ensures
            r@ == self@,
    {
        match self {
            DnsRecord::UNKNOWN { domain, qtype, data, ttl } => DnsRecord::UNKNOWN {
                domain: domain.clone(),
                qtype: *qtype,
                data: slice_to_vec(data.as_slice()),
                ttl: *ttl,
            },
            DnsRecord::A { domain, addr, ttl } => DnsRecord::A {
                domain: domain.clone(),
                addr: *addr,
                ttl: *ttl,
            },
            DnsRecord::NS { domain, host, ttl } => DnsRecord::NS {
                domain: domain.clone(),
                host: host.clone(),
                ttl: *ttl,
            },
            DnsRecord::SOA {
                domain,
                mname,
                rname,
                serial,
                refresh,
                retry,
                expire,
                minimum,
                ttl,
            } => DnsRecord::SOA {
                domain: domain.clone(),
                mname: mname.clone(),
                rname: rname.clone(),
                serial: *serial,
                refresh: *refresh,
                retry: *retry,
                expire: *expire,
                minimum: *minimum,
                ttl: *ttl,
            },
            DnsRecord::CNAME { domain, host, ttl } => DnsRecord::CNAME {
                domain: domain.clone(),
                host: host.clone(),
                ttl: *ttl,
            },
            DnsRecord::PTR { domain, host, ttl } => DnsRecord::PTR {
                domain: domain.clone(),
                host: host.clone(),
                ttl: *ttl,
            },
            DnsRecord::MX { domain, priority, host, ttl } => DnsRecord::MX {
                domain: domain.clone(),
                priority: *priority,
                host: host.clone(),
                ttl: *ttl,
            },
            DnsRecord::AAAA { domain, addr, ttl } => DnsRecord::AAAA {
                domain: domain.clone(),
                addr: *addr,
                ttl: *ttl,
            },
            DnsRecord::DNSKEY { domain, flags, protocol, algorithm, public_key, ttl } => {
                DnsRecord::DNSKEY {
                    domain: domain.clone(),
                    flags: *flags,
                    protocol: *protocol,
                    algorithm: *algorithm,
                    public_key: slice_to_vec(public_key.as_slice()),
                    ttl: *ttl,
                }
            },
            DnsRecord::DS { domain, key_tag, algorithm, digest_type, digest, ttl } => DnsRecord::DS {
                domain: domain.clone(),
                key_tag: *key_tag,
                algorithm: *algorithm,
                digest_type: *digest_type,
                digest: slice_to_vec(digest.as_slice()),
                ttl: *ttl,
            },
            DnsRecord::RRSIG {
                domain,
                type_covered,
                algorithm,
                labels,
                original_ttl,
                expiration,
                inception,
                key_tag,
                signer_name,
                signature,
                ttl,
            } => DnsRecord::RRSIG {
                domain: domain.clone(),
                type_covered: *type_covered,
                algorithm: *algorithm,
                labels: *labels,
                original_ttl: *original_ttl,
                expiration: *expiration,
                inception: *inception,
                key_tag: *key_tag,
                signer_name: signer_name.clone(),
                signature: slice_to_vec(signature.as_slice()),
                ttl: *ttl,
            },
            DnsRecord::NSEC { domain, next_domain, type_bitmap, ttl } => DnsRecord::NSEC {
                domain: domain.clone(),
                next_domain: next_domain.clone(),
                type_bitmap: slice_to_vec(type_bitmap.as_slice()),
                ttl: *ttl,
            },
            DnsRecord::NSEC3 {
                domain,
                hash_algorithm,
                flags,
                iterations,
                salt,
                next_hashed_owner,
                type_bitmap,
                ttl,
            } => DnsRecord::NSEC3 {
                domain: domain.clone(),
                hash_algorithm: *hash_algorithm,
                flags: *flags,
                iterations: *iterations,
                salt: slice_to_vec(salt.as_slice()),
                next_hashed_owner: slice_to_vec(next_hashed_owner.as_slice()),
                type_bitmap: slice_to_vec(type_bitmap.as_slice()),
                ttl: *ttl,
            },
        }
    }
}

/// `Vec::capacity` of std, for bytes: how many the vector has room for, which are
/// no fewer than it holds. How many more is up to the allocator.
#[verifier::external_body]
fn byte_room(v: &Vec<u8>) -> (n: usize)
    ensures
        n >= v@.len(),
{
    v.capacity()
}

impl RdataView {
    /// What the texts and byte strings in the data hold, in bytes.
    pub open spec fn held(&self) -> Seq<nat> {
        match self {
            RdataView::Unknown { data, .. } => seq![data.len()],
            RdataView::A { .. } => Seq::empty(),
            RdataView::Aaaa { .. } => Seq::empty(),
            RdataView::Ns { host } => seq![byte_len(*host)],
            RdataView::Cname { host } => seq![byte_len(*host)],
            RdataView::Ptr { host } => seq![byte_len(*host)],
            RdataView::Mx { host, .. } => seq![byte_len(*host)],
            RdataView::Soa { mname, rname, .. } => seq![byte_len(*mname), byte_len(*rname)],
            RdataView::Dnskey { public_key, .. } => seq![public_key.len()],
            RdataView::Ds { digest, .. } => seq![digest.len()],
            RdataView::Rrsig { signer_name, signature, .. } => seq![
                byte_len(*signer_name),
                signature.len(),
            ],
            RdataView::Nsec { next_domain, type_bitmap } => seq![
                byte_len(*next_domain),
                type_bitmap.len(),
            ],
            RdataView::Nsec3 { salt, next_hashed_owner, type_bitmap, .. } => seq![
                salt.len(),
                next_hashed_owner.len(),
                type_bitmap.len(),
            ],
        }
    }
}

impl RecordView {
    /// What the domain and the texts and byte strings in the data hold, in bytes.
    pub open spec fn held(&self) -> Seq<nat> {
        seq![byte_len(self.domain)] + self.data.held()
    }
}

impl DnsRecord {
    /// The room of the domain and of the texts and byte strings in the data, each
    /// no less than what it holds.
    fn rooms(&self) -> (v: Vec<usize>)
        ensures
            fits(v@, self@.held()),
    {
        let mut v: Vec<usize> = Vec::new();
        match self {
            DnsRecord::A { domain, .. } => {
                v.push(domain.capacity());
            },
            DnsRecord::AAAA { domain, .. } => {
                v.push(domain.capacity());
            },
            DnsRecord::NS { domain, host, .. } => {
                v.push(domain.capacity());
                v.push(host.capacity());
            },
            DnsRecord::CNAME { domain, host, .. } => {
                v.push(domain.capacity());
                v.push(host.capacity());
            },
            DnsRecord::PTR { domain, host, .. } => {
                v.push(domain.capacity());
                v.push(host.capacity());
            },
            DnsRecord::MX { domain, host, .. } => {
                v.push(domain.capacity());
                v.push(host.capacity());
            },
            DnsRecord::SOA { domain, mname, rname, .. } => {
                v.push(domain.capacity());
                v.push(mname.capacity());
                v.push(rname.capacity());
            },
            DnsRecord::DNSKEY { domain, public_key, .. } => {
                v.push(domain.capacity());
                v.push(byte_room(public_key));
            },
            DnsRecord::DS { domain, digest, .. } => {
                v.push(domain.capacity());
                v.push(byte_room(digest));
            },
            DnsRecord::RRSIG { domain, signer_name, signature, .. } => {
                v.push(domain.capacity());
                v.push(signer_name.capacity());
                v.push(byte_room(signature));
            },
            DnsRecord::NSEC { domain, next_domain, type_bitmap, .. } => {
                v.push(domain.capacity());
                v.push(next_domain.capacity());
                v.push(byte_room(type_bitmap));
            },
            DnsRecord::NSEC3 { domain, salt, next_hashed_owner, type_bitmap, .. } => {
                v.push(domain.capacity());
                v.push(byte_room(salt));
                v.push(byte_room(next_hashed_owner));
                v.push(byte_room(type_bitmap));
            },
            DnsRecord::UNKNOWN { domain, data, .. } => {
                v.push(domain.capacity());
                v.push(byte_room(data));
            },
        }
        v
    }

    /// An estimate of the memory that the record holds outside of itself: the
    /// room of its texts and byte strings, or the largest number. How much more
    /// room they have than they need is up to the allocator.
    pub fn heap_bytes(&self) -> (n: usize)
        ensures
            exists|rooms: Seq<usize>| #[trigger] room_of(n, 0, self@.held(), rooms),
    {
        let rooms = self.rooms();
        let n: usize = room_sum(&rooms);
        proof {
            rooms_hold(rooms@, self@.held());
            assert(room_of(n, 0, self@.held(), rooms@));
        }
        n
    }
}

} // verus!
