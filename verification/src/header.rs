//! Message headers.
use vstd::prelude::*;

verus! {

/// The outcome that a response reports.
#[derive(Debug, Clone, Copy, PartialEq, Eq, Structural)]
pub enum ResultCode {
    NOERROR,
    FORMERR,
    SERVFAIL,
    NXDOMAIN,
    NOTIMP,
    REFUSED,
}

impl ResultCode {
    /// The number of the outcome in messages.
    pub open spec fn num(&self) -> u8 {
        match self {
            ResultCode::NOERROR => 0,
            ResultCode::FORMERR => 1,
            ResultCode::SERVFAIL => 2,
            ResultCode::NXDOMAIN => 3,
            ResultCode::NOTIMP => 4,
            ResultCode::REFUSED => 5,
        }
    }

    /// The outcome with a number. Numbers without a name count as no error.
    pub open spec fn of_num(n: u8) -> ResultCode {
        if n == 1 {
            ResultCode::FORMERR
        } else if n == 2 {
            ResultCode::SERVFAIL
        } else if n == 3 {
            ResultCode::NXDOMAIN
        } else if n == 4 {
            ResultCode::NOTIMP
        } else if n == 5 {
            ResultCode::REFUSED
        } else {
            ResultCode::NOERROR
        }
    }

    /// The number of the outcome in messages.
    pub fn to_num(&self) -> (n: u8)
        ensures
            n == self.num(),
    {
        match self {
            ResultCode::NOERROR => 0,
            ResultCode::FORMERR => 1,
            ResultCode::SERVFAIL => 2,
            ResultCode::NXDOMAIN => 3,
            ResultCode::NOTIMP => 4,
            ResultCode::REFUSED => 5,
        }
    }

    /// The outcome with a number.
    pub fn from_num(n: u8) -> (r: ResultCode)
        ensures
            r == ResultCode::of_num(n),
    {
        match n {
            1 => ResultCode::FORMERR,
            2 => ResultCode::SERVFAIL,
            3 => ResultCode::NXDOMAIN,
            4 => ResultCode::NOTIMP,
            5 => ResultCode::REFUSED,
            _ => ResultCode::NOERROR,
        }
    }

    /// The name of the outcome.
    pub open spec fn name(&self) -> Seq<char> {
        match self {
            ResultCode::NOERROR => "NOERROR"@,
            ResultCode::FORMERR => "FORMERR"@,
            ResultCode::SERVFAIL => "SERVFAIL"@,
            ResultCode::NXDOMAIN => "NXDOMAIN"@,
            ResultCode::NOTIMP => "NOTIMP"@,
            ResultCode::REFUSED => "REFUSED"@,
        }
    }

    /// The name of the outcome.
    pub fn as_str(&self) -> (s: &'static str)
        ensures
            s@ == self.name(),
    {
        match self {
            ResultCode::NOERROR => "NOERROR",
            ResultCode::FORMERR => "FORMERR",
            ResultCode::SERVFAIL => "SERVFAIL",
            ResultCode::NXDOMAIN => "NXDOMAIN",
            ResultCode::NOTIMP => "NOTIMP",
            ResultCode::REFUSED => "REFUSED",
        }
    }
}

/// The header of a message, without the counts of its sections.
#[derive(Debug, Clone, Copy, PartialEq, Eq, Structural)]
pub struct DnsHeader {
    pub id: u16,
    pub recursion_desired: bool,
    pub truncated_message: bool,
    pub authoritative_answer: bool,
    pub opcode: u8,
    pub response: bool,
    pub rescode: ResultCode,
    pub checking_disabled: bool,
    pub authed_data: bool,
    pub z: bool,
    pub recursion_available: bool,
}

/// One for true, zero for false.
#[verifier::opaque]
pub open spec fn bit(b: bool) -> int {
    if b {
        1
    } else {
        0
    }
}

proof fn bit_is(b: bool)
    ensures
        0 <= bit(b) < 2,
        bit(b) == 1 <==> b,
{
    reveal(bit);
}

impl DnsHeader {
    /// The header of a query that asks for nothing in particular.
    pub open spec fn blank() -> DnsHeader {
        DnsHeader {
            id: 0,
            recursion_desired: false,
            truncated_message: false,
            authoritative_answer: false,
            opcode: 0,
            response: false,
            rescode: ResultCode::NOERROR,
            checking_disabled: false,
            authed_data: false,
            z: false,
            recursion_available: false,
        }
    }

    /// The header of a query that asks for nothing in particular.
    pub fn new() -> (r: DnsHeader)
        ensures
            r == DnsHeader::blank(),
    {
        DnsHeader {
            id: 0,
            recursion_desired: false,
            truncated_message: false,
            authoritative_answer: false,
            opcode: 0,
            response: false,
            rescode: ResultCode::NOERROR,
            checking_disabled: false,
            authed_data: false,
            z: false,
            recursion_available: false,
        }
    }

    /// The two bytes of flags, as a number.
    #[verifier::opaque]
    pub open spec fn flags(&self) -> int {
        self.high_flags() + self.low_flags()
    }

    /// The first byte of flags, as the high byte of a number.
    pub open spec fn high_flags(&self) -> int {
        bit(self.response) * 32768 + (self.opcode % 16) * 2048 + bit(self.authoritative_answer)
            * 1024 + bit(self.truncated_message) * 512 + bit(self.recursion_desired) * 256
    }

    /// The second byte of flags.
    pub open spec fn low_flags(&self) -> int {
        bit(self.recursion_available) * 128 + bit(self.z) * 64 + bit(self.authed_data) * 32 + bit(
            self.checking_disabled,
        ) * 16 + self.rescode.num()
    }

    fn high_byte(&self) -> (n: u16)
        ensures
            n == self.high_flags(),
            n <= 65280,
    {
        reveal(bit);
        let opcode: u16 = (self.opcode % 16) as u16;
        let mut n: u16 = opcode * 2048;
        if self.response {
            n = n + 32768;
        }
        if self.authoritative_answer {
            n = n + 1024;
        }
        if self.truncated_message {
            n = n + 512;
        }
        if self.recursion_desired {
            n = n + 256;
        }
        n
    }

    fn low_byte(&self) -> (n: u16)
        ensures
            n == self.low_flags(),
            n <= 255,
    {
        reveal(bit);
        let mut n: u16 = self.rescode.to_num() as u16;
        if self.recursion_available {
            n = n + 128;
        }
        if self.z {
            n = n + 64;
        }
        if self.authed_data {
            n = n + 32;
        }
        if self.checking_disabled {
            n = n + 16;
        }
        n
    }

    /// The two bytes of flags, as a number.
    pub fn to_flags(&self) -> (n: u16)
        ensures
            n == self.flags(),
    {
        reveal(DnsHeader::flags);
        let high = self.high_byte();
        let low = self.low_byte();
        high + low
    }

    /// The header with an id and two bytes of flags.
    pub open spec fn of_flags(id: u16, n: u16) -> DnsHeader {
        DnsHeader {
            id,
            recursion_desired: n / 256 % 2 == 1,
            truncated_message: n / 512 % 2 == 1,
            authoritative_answer: n / 1024 % 2 == 1,
            opcode: (n / 2048 % 16) as u8,
            response: n / 32768 == 1,
            rescode: ResultCode::of_num((n % 16) as u8),
            checking_disabled: n / 16 % 2 == 1,
            authed_data: n / 32 % 2 == 1,
            z: n / 64 % 2 == 1,
            recursion_available: n / 128 % 2 == 1,
        }
    }

    /// The header with an id and two bytes of flags.
    pub fn from_flags(id: u16, n: u16) -> (r: DnsHeader)
        ensures
            r == DnsHeader::of_flags(id, n),
    {
        DnsHeader {
            id,
            recursion_desired: n / 256 % 2 == 1,
            truncated_message: n / 512 % 2 == 1,
            authoritative_answer: n / 1024 % 2 == 1,
            opcode: (n / 2048 % 16) as u8,
            response: n / 32768 == 1,
            rescode: ResultCode::from_num((n % 16) as u8),
            checking_disabled: n / 16 % 2 == 1,
            authed_data: n / 32 % 2 == 1,
            z: n / 64 % 2 == 1,
            recursion_available: n / 128 % 2 == 1,
        }
    }
}

/// The binary digit of a number that stands between higher and lower ones.
proof fn digit_of(n: int, m: int, high: int, b: int, low: int)
    requires
        n == (high * 2 + b) * m + low,
        0 <= low < m,
        0 <= b < 2,
        0 <= high,
    ensures
        n / m == high * 2 + b,
        n / m % 2 == b,
{
    vstd::arithmetic::div_mod::lemma_fundamental_div_mod_converse(n, m, high * 2 + b, low);
}

/// The digits of a number of flags.
proof fn flag_digits(
    n: int,
    qr: int,
    op: int,
    aa: int,
    tc: int,
    rd: int,
    ra: int,
    z: int,
    ad: int,
    cd: int,
    rc: int,
)
    requires
        n == qr * 32768 + op * 2048 + aa * 1024 + tc * 512 + rd * 256 + ra * 128 + z * 64 + ad * 32
            + cd * 16 + rc,
        0 <= qr < 2 && 0 <= op < 16 && 0 <= aa < 2 && 0 <= tc < 2 && 0 <= rd < 2,
        0 <= ra < 2 && 0 <= z < 2 && 0 <= ad < 2 && 0 <= cd < 2 && 0 <= rc < 16,
    ensures
        0 <= n <= 65535,
        n / 32768 == qr,
        n / 2048 % 16 == op,
        n / 1024 % 2 == aa,
        n / 512 % 2 == tc,
        n / 256 % 2 == rd,
        n / 128 % 2 == ra,
        n / 64 % 2 == z,
        n / 32 % 2 == ad,
        n / 16 % 2 == cd,
        n % 16 == rc,
{
    let top = qr * 16 + op;
    let high = top * 8 + aa * 4 + tc * 2 + rd;
    assert(n / 1024 % 2 == aa) by {
        digit_of(n, 1024, top, aa, tc * 512 + rd * 256 + ra * 128 + z * 64 + ad * 32 + cd * 16 + rc);
    }
    assert(n / 512 % 2 == tc) by {
        digit_of(n, 512, top * 2 + aa, tc, rd * 256 + ra * 128 + z * 64 + ad * 32 + cd * 16 + rc);
    }
    assert(n / 256 % 2 == rd) by {
        digit_of(n, 256, top * 4 + aa * 2 + tc, rd, ra * 128 + z * 64 + ad * 32 + cd * 16 + rc);
    }
    assert(n / 128 % 2 == ra) by {
        digit_of(n, 128, high, ra, z * 64 + ad * 32 + cd * 16 + rc);
    }
    assert(n / 64 % 2 == z) by {
        digit_of(n, 64, high * 2 + ra, z, ad * 32 + cd * 16 + rc);
    }
    assert(n / 32 % 2 == ad) by {
        digit_of(n, 32, high * 4 + ra * 2 + z, ad, cd * 16 + rc);
    }
    assert(n / 16 % 2 == cd) by {
        digit_of(n, 16, high * 8 + ra * 4 + z * 2 + ad, cd, rc);
    }
}

/// The flags fit two bytes.
pub proof fn flags_fit(h: DnsHeader)
    ensures
        0 <= h.flags() <= 65535,
{
    reveal(DnsHeader::flags);
    reveal(bit);
}

/// A header is read back as it was written.
pub proof fn header_reads_back(h: DnsHeader)
    requires
        h.opcode < 16,
    ensures
        0 <= h.flags() <= 65535,
        DnsHeader::of_flags(h.id, h.flags() as u16) == h,
{
    let n = h.flags();
    flags_of_header(h);
    bit_is(h.response);
    bit_is(h.authoritative_answer);
    bit_is(h.truncated_message);
    bit_is(h.recursion_desired);
    bit_is(h.recursion_available);
    bit_is(h.z);
    bit_is(h.authed_data);
    bit_is(h.checking_disabled);
    assert(n as u16 as int == n);
}

proof fn flags_of_header(h: DnsHeader)
    requires
        h.opcode < 16,
    ensures
        0 <= h.flags() <= 65535,
        h.flags() / 32768 == bit(h.response),
        h.flags() / 2048 % 16 == h.opcode,
        h.flags() / 1024 % 2 == bit(h.authoritative_answer),
        h.flags() / 512 % 2 == bit(h.truncated_message),
        h.flags() / 256 % 2 == bit(h.recursion_desired),
        h.flags() / 128 % 2 == bit(h.recursion_available),
        h.flags() / 64 % 2 == bit(h.z),
        h.flags() / 32 % 2 == bit(h.authed_data),
        h.flags() / 16 % 2 == bit(h.checking_disabled),
        h.flags() % 16 == h.rescode.num(),
{
    let n = h.flags();
    let qr = bit(h.response);
    let aa = bit(h.authoritative_answer);
    let tc = bit(h.truncated_message);
    let rd = bit(h.recursion_desired);
    let ra = bit(h.recursion_available);
    let z = bit(h.z);
    let ad = bit(h.authed_data);
    let cd = bit(h.checking_disabled);
    bit_is(h.response);
    bit_is(h.authoritative_answer);
    bit_is(h.truncated_message);
    bit_is(h.recursion_desired);
    bit_is(h.recursion_available);
    bit_is(h.z);
    bit_is(h.authed_data);
    bit_is(h.checking_disabled);
    assert(n == qr * 32768 + h.opcode * 2048 + aa * 1024 + tc * 512 + rd * 256 + ra * 128 + z * 64
        + ad * 32 + cd * 16 + h.rescode.num()) by {
        reveal(DnsHeader::flags);
    }
    flag_digits(n, qr, h.opcode as int, aa, tc, rd, ra, z, ad, cd, h.rescode.num() as int);
}

} // verus!
