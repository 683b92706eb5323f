//! Network Time Protocol messages and the arithmetic of one exchange with
//! an NTP server: the client request, reading the server's receive and
//! transmit timestamps, and the clock offset and round-trip delay.
use vstd::prelude::*;
use byteorder::{BigEndian, ReadBytesExt};

verus! {

/// The length of an NTP message in bytes.
pub const NTP_MESSAGE_LENGTH: usize = 48;

/// Seconds from the NTP epoch (1900) to the UNIX epoch (1970).
pub const NTP_TO_UNIX_SECONDS: i64 = 2_208_988_800;

#[verifier::external_type_specification]
#[verifier::external_body]
pub struct ExIoError(std::io::Error);

/// The big-endian `u32` held in the first four of `b`.
pub open spec fn be_u32(b: Seq<u8>) -> u32 {
    (b[0] as int * 0x100_0000 + b[1] as int * 0x1_0000 + b[2] as int * 0x100 + b[3] as int) as u32
}

/// `ReadBytesExt::read_u32::<BigEndian>` on a byte slice: with at least four
/// bytes left it gives their big-endian value and moves past them. With
/// fewer it fails; what is left of the slice then is not stated.
#[verifier::external_body]
fn read_u32_be(reader: &mut &[u8]) -> (r: Result<u32, std::io::Error>)
    ensures
        old(reader)@.len() >= 4 ==> r == Ok::<u32, std::io::Error>(be_u32(old(reader)@)) && final(reader)@
            == old(reader)@.skip(4),
        old(reader)@.len() < 4 ==> r is Err,
{
    reader.read_u32::<BigEndian>()
}

/// A timestamp as NTP carries it: seconds since 1900 and a binary fraction
/// of a second.
#[derive(Default, Debug, Copy, Clone)]
pub struct NTPTimestamp {
    pub seconds: u32,
    pub fraction: u32,
}

/// An NTP message, as sent and received.
pub struct NTPMessage {
    pub data: [u8; NTP_MESSAGE_LENGTH],
}

/// The UNIX time, in whole seconds, of NTP seconds `seconds`.
pub open spec fn spec_unix_seconds(seconds: int) -> int {
    seconds - NTP_TO_UNIX_SECONDS
}

/// The NTP seconds field for UNIX time `unix_seconds`, modulo 2^32.
pub open spec fn spec_ntp_seconds(unix_seconds: int) -> int {
    (unix_seconds + NTP_TO_UNIX_SECONDS) % 0x1_0000_0000
}

/// Turning NTP seconds into UNIX seconds and back gives the NTP seconds.
pub proof fn lemma_ntp_seconds_round_trip(seconds: u32)
    ensures
        spec_ntp_seconds(spec_unix_seconds(seconds as int)) == seconds,
{
}

/// Turning UNIX seconds of the current NTP era (1900 to 2036) into NTP
/// seconds and back gives the UNIX seconds.
pub proof fn lemma_unix_seconds_round_trip(unix_seconds: int)
    requires
        -NTP_TO_UNIX_SECONDS <= unix_seconds < 0x1_0000_0000 - NTP_TO_UNIX_SECONDS,
    ensures
        spec_unix_seconds(spec_ntp_seconds(unix_seconds)) == unix_seconds,
{
}

/// Within one NTP era, a later UNIX second has a later NTP seconds field.
pub proof fn lemma_ntp_seconds_monotonic(u1: int, u2: int)
    requires
        -NTP_TO_UNIX_SECONDS <= u1 <= u2 < 0x1_0000_0000 - NTP_TO_UNIX_SECONDS,
    ensures
        spec_ntp_seconds(u1) <= spec_ntp_seconds(u2),
{
}

impl NTPTimestamp {
    /// The UNIX time, in whole seconds, of this timestamp.
    pub fn unix_seconds(&self) -> (s: i64)
        ensures
            s == spec_unix_seconds(self.seconds as int),
    {
        self.seconds as i64 - NTP_TO_UNIX_SECONDS
    }
}

/// The NTP seconds field for a UNIX time of `unix_seconds`: the seconds
/// since 1900, kept modulo 2^32 as the field's width does.
pub fn ntp_seconds(unix_seconds: i64) -> (s: u32)
    requires
        unix_seconds <= i64::MAX - NTP_TO_UNIX_SECONDS,
    ensures
        s == spec_ntp_seconds(unix_seconds as int),
{
    let seconds = unix_seconds + NTP_TO_UNIX_SECONDS;
    let s = #[verifier::truncate] (seconds as u32);
    assert(s == seconds % 0x1_0000_0000) by (bit_vector)
        requires
            s == #[verifier::truncate] (seconds as u32),
    ;
    s
}

impl NTPMessage {
    /// A message of zero bytes.
    pub fn new() -> (m: Self)
        ensures
            forall|i: int| 0 <= i < 48 ==> m.data[i] == 0,
    {
        Self { data: [0; NTP_MESSAGE_LENGTH] }
    }

    /// A client request: protocol version 3, mode 3 (client), and zero in
    /// every other field.
    pub fn client() -> (m: Self)
        ensures
            m.data[0] == 0x1b,
            forall|i: int| 1 <= i < 48 ==> m.data[i] == 0,
    {
        let version: u8 = 0b00_011_000;
        let mode: u8 = 0b00_000_011;
        let mut msg = NTPMessage::new();
        msg.data[0] = msg.data[0] | version;
        msg.data[0] = msg.data[0] | mode;
        assert((0u8 | 0b00_011_000u8) | 0b00_000_011u8 == 0x1bu8) by (bit_vector);
        msg
    }

    /// The timestamp stored in bytes `i` to `i + 8`: big-endian seconds,
    /// then big-endian fraction.
    pub fn parse_timestamp(&self, i: usize) -> (r: Result<NTPTimestamp, std::io::Error>)
        requires
            i + 8 <= 48,
        ensures
            r matches Ok(t) && t.seconds == be_u32(self.data@.subrange(i as int, i + 4))
                && t.fraction == be_u32(self.data@.subrange(i + 4, i + 8)),
    {
        let mut reader = vstd::slice::slice_subrange(self.data.as_slice(), i, i + 8);
        let seconds = match read_u32_be(&mut reader) {
            Ok(v) => v,
            Err(e) => {
                return Err(e);
            },
        };
        let fraction = match read_u32_be(&mut reader) {
            Ok(v) => v,
            Err(e) => {
                return Err(e);
            },
        };
        assert(self.data@.subrange(i as int, i + 8).skip(4) =~= self.data@.subrange(i + 4, i + 8));
        Ok(NTPTimestamp { seconds, fraction })
    }

    /// The server's receive timestamp.
    pub fn rx_time(&self) -> (r: Result<NTPTimestamp, std::io::Error>)
        ensures
            r matches Ok(t) && t.seconds == be_u32(self.data@.subrange(32, 36)) && t.fraction
                == be_u32(self.data@.subrange(36, 40)),
    {
        self.parse_timestamp(32)
    }

    /// The server's transmit timestamp.
    pub fn tx_time(&self) -> (r: Result<NTPTimestamp, std::io::Error>)
        ensures
            r matches Ok(t) && t.seconds == be_u32(self.data@.subrange(40, 44)) && t.fraction
                == be_u32(self.data@.subrange(44, 48)),
    {
        self.parse_timestamp(40)
    }
}


/// The largest number of seconds from the UNIX epoch, either way, of a
/// UTC time: beyond every date a calendar time can name.
pub const MAX_ABS_UNIX_SECONDS: i64 = 10_000_000_000_000;

/// A UTC instant: whole seconds since the UNIX epoch and nanoseconds
/// within that second.
#[derive(Debug, Copy, Clone)]
pub struct UtcTime {
    pub secs: i64,
    pub nanos: u32,
}

impl UtcTime {
    /// Within the range of calendar times, with nanoseconds below a second.
    pub open spec fn valid(self) -> bool {
        &&& -MAX_ABS_UNIX_SECONDS <= self.secs <= MAX_ABS_UNIX_SECONDS
        &&& self.nanos < 1_000_000_000
    }

    /// Nanoseconds since the UNIX epoch.
    pub open spec fn total_nanos(self) -> int {
        self.secs * 1_000_000_000 + self.nanos
    }
}

/// `a / b` rounded toward zero, for `b > 0`.
pub open spec fn div_toward_zero(a: int, b: int) -> int {
    if a >= 0 {
        a / b
    } else {
        -((-a) / b)
    }
}

/// Whole milliseconds in `nanos` nanoseconds, rounded toward zero.
pub open spec fn whole_millis(nanos: int) -> int {
    div_toward_zero(nanos, 1_000_000)
}

/// The four times of one exchange: the request sent (`t1`, local clock),
/// received (`t2`, server clock), the reply sent (`t3`, server clock) and
/// received (`t4`, local clock).
#[derive(Debug)]
pub struct NTPResult {
    pub t1: UtcTime,
    pub t2: UtcTime,
    pub t3: UtcTime,
    pub t4: UtcTime,
}

impl NTPResult {
    /// All four times are valid.
    pub open spec fn valid(self) -> bool {
        self.t1.valid() && self.t2.valid() && self.t3.valid() && self.t4.valid()
    }

    /// The estimated offset of the server's clock from the local one, in
    /// milliseconds: half of the whole milliseconds in `(t2 - t1) + (t4 - t3)`.
    pub open spec fn spec_offset(self) -> int {
        div_toward_zero(
            whole_millis(
                (self.t2.total_nanos() - self.t1.total_nanos()) + (self.t4.total_nanos()
                    - self.t3.total_nanos()),
            ),
            2,
        )
    }

    /// The round-trip delay in milliseconds: the whole milliseconds in
    /// `(t4 - t1) - (t3 - t2)`.
    pub open spec fn spec_delay(self) -> int {
        whole_millis(
            (self.t4.total_nanos() - self.t1.total_nanos()) - (self.t3.total_nanos()
                - self.t2.total_nanos()),
        )
    }

    /// The estimated clock offset, in milliseconds.
    pub fn offset(&self) -> (ms: i64)
        requires
            self.valid(),
        ensures
            ms == self.spec_offset(),
    {
        let d = (nanos_between(&self.t1, &self.t2)) + (nanos_between(&self.t3, &self.t4));
        let ms = trunc_div(d, 1_000_000);
        trunc_div(ms, 2) as i64
    }

    /// The round-trip delay, in milliseconds.
    pub fn delay(&self) -> (ms: i64)
        requires
            self.valid(),
        ensures
            ms == self.spec_delay(),
    {
        let d = (nanos_between(&self.t1, &self.t4)) - (nanos_between(&self.t2, &self.t3));
        trunc_div(d, 1_000_000) as i64
    }
}

/// The nanoseconds from `a` to `b`.
fn nanos_between(a: &UtcTime, b: &UtcTime) -> (d: i128)
    requires
        a.valid(),
        b.valid(),
    ensures
        d == b.total_nanos() - a.total_nanos(),
        -30_000_000_000_000_000_000_000 <= d <= 30_000_000_000_000_000_000_000,
{
    let na = a.secs as i128 * 1_000_000_000 + a.nanos as i128;
    let nb = b.secs as i128 * 1_000_000_000 + b.nanos as i128;
    nb - na
}

/// `a / b` rounded toward zero.
fn trunc_div(a: i128, b: i128) -> (q: i128)
    requires
        b > 0,
        -100_000_000_000_000_000_000_000 <= a <= 100_000_000_000_000_000_000_000,
    ensures
        q == div_toward_zero(a as int, b as int),
        a >= 0 ==> 0 <= q <= a,
        a < 0 ==> a <= q <= 0,
{
    if a >= 0 {
        assert(a / b <= a) by (nonlinear_arith)
            requires
                a >= 0,
                b > 0,
        ;
        a / b
    } else {
        let n = -a;
        assert(n / b <= n) by (nonlinear_arith)
            requires
                n >= 0,
                b > 0,
        ;
        -(n / b)
    }
}

} // verus!
