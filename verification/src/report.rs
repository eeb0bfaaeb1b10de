//! The two fixed report layouts that are written to a device.
//!
//! Every report starts with the report identifier `0x00`, followed by a marker
//! and the telemetry fields. Nothing in a report tells its length or protects
//! it: the device knows the layout beforehand.
//!
//! * time and level: `00 FF CC 00 AA`, the time as eight bytes and the level
//!   as four bytes, least significant byte first. That is the identifier and a
//!   payload of sixteen bytes, so that both fields are sent in full.
//! * processor and memory: `00 66 66`, one byte of processor load, one byte of
//!   memory load, and zeros up to a payload of thirty-three bytes.

use vstd::prelude::*;

use crate::info::Snapshot;

verus! {

/// Identifier that starts every report.
pub const REPORT_ID: u8 = 0x00;

/// Bytes that follow the identifier in a report of time and level.
pub const AUDIO_PAYLOAD_LENGTH: usize = 16;

/// Bytes that follow the identifier in a report of processor and memory load.
pub const SYSTEM_PAYLOAD_LENGTH: usize = 33;

/// Marker byte that is sent twice in a report of processor and memory load.
pub const SYSTEM_MARKER: u8 = 0x66;

/// `256` to the power `width`: the number of values that `width` bytes hold.
pub open spec fn radix(width: nat) -> nat
    decreases width,
{
    if width == 0 {
        1
    } else {
        256 * radix((width - 1) as nat)
    }
}

/// The `width` lowest base-256 digits of `value`, least significant first.
pub open spec fn le_bytes(value: nat, width: nat) -> Seq<u8>
    decreases width,
{
    if width == 0 {
        Seq::empty()
    } else {
        seq![(value % 256) as u8] + le_bytes(value / 256, (width - 1) as nat)
    }
}

/// The number whose base-256 digits are `bytes`, least significant first.
pub open spec fn le_value(bytes: Seq<u8>) -> nat
    decreases bytes.len(),
{
    if bytes.len() == 0 {
        0
    } else {
        bytes[0] as nat + 256 * le_value(bytes.drop_first())
    }
}

/// The unsigned number with the same sixty-four bits as `t` in two's
/// complement.
pub open spec fn twos_complement(t: i64) -> nat {
    if t >= 0 {
        t as nat
    } else {
        (t + 0x1_0000_0000_0000_0000) as nat
    }
}

/// The signed number with the same sixty-four bits as `n`.
pub open spec fn from_twos_complement(n: nat) -> i64
    recommends
        n < 0x1_0000_0000_0000_0000,
{
    if n < 0x8000_0000_0000_0000 {
        n as i64
    } else {
        (n - 0x1_0000_0000_0000_0000) as i64
    }
}

/// The five bytes that start a report of time and level.
pub open spec fn audio_header() -> Seq<u8> {
    seq![0x00u8, 0xFFu8, 0xCCu8, 0x00u8, 0xAAu8]
}

/// The report that carries the time `time` and the level `level`.
pub open spec fn audio_report(time: i64, level: u32) -> Seq<u8> {
    audio_header() + le_bytes(twos_complement(time), 8) + le_bytes(level as nat, 4)
}

/// The report that carries the processor load `cpu` and the memory load
/// `mem`.
pub open spec fn system_report(cpu: u8, mem: u8) -> Seq<u8> {
    seq![0x00u8, 0x66u8, 0x66u8, cpu, mem] + Seq::new(29, |i: int| 0u8)
}

/// The report that shows `snapshot`: of time and level where it tracks
/// those, of processor and memory load where it tracks those. The number of
/// processes is tracked and not sent.
pub open spec fn report_of(snapshot: Snapshot) -> Seq<u8> {
    match snapshot {
        Snapshot::Audio { unix_time_seconds, level } => audio_report(unix_time_seconds, level),
        Snapshot::System { cpu_usage_percent, mem_usage_percent, process_count } => system_report(
            cpu_usage_percent,
            mem_usage_percent,
        ),
    }
}

/// Whether `bytes` has the length and the five leading bytes of a report of
/// time and level. Every such sequence is the report of one time and level.
pub open spec fn is_audio_report(bytes: Seq<u8>) -> bool {
    &&& bytes.len() == 17
    &&& bytes.subrange(0, 5) == audio_header()
}

/// Whether `bytes` has the length, the identifier, the markers and the
/// trailing zeros of a report of processor and memory load.
pub open spec fn is_system_report(bytes: Seq<u8>) -> bool {
    &&& bytes.len() == 34
    &&& bytes[0] == 0x00
    &&& bytes[1] == 0x66
    &&& bytes[2] == 0x66
    &&& forall|i: int| 5 <= i < 34 ==> bytes[i] == 0
}

/// The time and level that `bytes` carries, if it is a report of them.
pub open spec fn audio_fields(bytes: Seq<u8>) -> Option<(i64, u32)> {
    if is_audio_report(bytes) {
        Some(
            (
                from_twos_complement(le_value(bytes.subrange(5, 13))),
                le_value(bytes.subrange(13, 17)) as u32,
            ),
        )
    } else {
        None
    }
}

/// The processor and memory load that `bytes` carries, if it is a report of
/// them.
pub open spec fn system_fields(bytes: Seq<u8>) -> Option<(u8, u8)> {
    if is_system_report(bytes) {
        Some((bytes[3], bytes[4]))
    } else {
        None
    }
}

/// The values that one to eight bytes hold.
pub proof fn lemma_radix_values()
    ensures
        radix(0) == 1,
        radix(1) == 0x100,
        radix(2) == 0x1_0000,
        radix(3) == 0x100_0000,
        radix(4) == 0x1_0000_0000,
        radix(5) == 0x100_0000_0000,
        radix(6) == 0x1_0000_0000_0000,
        radix(7) == 0x100_0000_0000_0000,
        radix(8) == 0x1_0000_0000_0000_0000,
{
    reveal_with_fuel(radix, 10);
}

/// Digits are as many as were asked for.
pub proof fn lemma_le_bytes_len(value: nat, width: nat)
    ensures
        le_bytes(value, width).len() == width,
    decreases width,
{
    if width > 0 {
        lemma_le_bytes_len(value / 256, (width - 1) as nat);
    }
}

/// A number read from `n` bytes is below `256` to the power `n`.
pub proof fn lemma_le_value_bound(bytes: Seq<u8>)
    ensures
        le_value(bytes) < radix(bytes.len()),
    decreases bytes.len(),
{
    if bytes.len() > 0 {
        lemma_le_value_bound(bytes.drop_first());
    }
}

/// Reading the digits of a number that fits in `width` bytes gives the number
/// back.
pub proof fn lemma_le_value_of_bytes(value: nat, width: nat)
    requires
        value < radix(width),
    ensures
        le_value(le_bytes(value, width)) == value,
    decreases width,
{
    if width > 0 {
        let rest = le_bytes(value / 256, (width - 1) as nat);
        lemma_le_value_of_bytes(value / 256, (width - 1) as nat);
        assert(le_bytes(value, width).drop_first() =~= rest);
    }
}

/// Writing the digits of a number that was read from bytes gives the bytes
/// back.
pub proof fn lemma_le_bytes_of_value(bytes: Seq<u8>)
    ensures
        le_bytes(le_value(bytes), bytes.len()) == bytes,
    decreases bytes.len(),
{
    if bytes.len() > 0 {
        let tail = bytes.drop_first();
        lemma_le_bytes_of_value(tail);
        let value = le_value(bytes);
        assert(value % 256 == bytes[0] as nat);
        assert(value / 256 == le_value(tail));
        assert(le_bytes(value, bytes.len()) =~= seq![bytes[0]] + tail);
        assert(seq![bytes[0]] + tail =~= bytes);
    } else {
        assert(le_bytes(le_value(bytes), bytes.len()) =~= bytes);
    }
}

/// The sixty-four bits of a signed number name that number and no other.
pub proof fn lemma_twos_complement(t: i64)
    ensures
        twos_complement(t) < radix(8),
        from_twos_complement(twos_complement(t)) == t,
{
    lemma_radix_values();
}

/// Every pattern of sixty-four bits is that of its signed number.
pub proof fn lemma_from_twos_complement(n: nat)
    requires
        n < radix(8),
    ensures
        twos_complement(from_twos_complement(n)) == n,
{
    lemma_radix_values();
}

/// Appends the `width` lowest base-256 digits of `value` to `out`, least
/// significant first.
fn push_le_bytes(out: &mut Vec<u8>, value: u64, width: usize)
    ensures
        final(out)@ == old(out)@ + le_bytes(value as nat, width as nat),
{
    let mut rest: u64 = value;
    let mut k: usize = 0;
    while k < width
        invariant
            k <= width,
            old(out)@ + le_bytes(value as nat, width as nat) == out@ + le_bytes(
                rest as nat,
                (width - k) as nat,
            ),
        decreases width - k,
    {
        let digit: u8 = (rest % 256) as u8;
        proof {
            let tail = le_bytes((rest / 256) as nat, (width - k - 1) as nat);
            assert(le_bytes(rest as nat, (width - k) as nat) == seq![digit] + tail);
            assert(out@ + (seq![digit] + tail) =~= out@.push(digit) + tail);
        }
        out.push(digit);
        rest = rest / 256;
        k += 1;
    }
    assert(out@ + le_bytes(rest as nat, 0) =~= out@);
}

/// Reads the number whose base-256 digits are the `width` bytes of `bytes`
/// from `start` on, least significant first.
fn read_le_bytes(bytes: &[u8], start: usize, width: usize) -> (value: u64)
    requires
        width <= 8,
        start + width <= bytes@.len(),
    ensures
        value == le_value(bytes@.subrange(start as int, start + width)),
{
    let total: usize = bytes.len();
    let ghost end: int = start + width;
    let mut value: u64 = 0;
    let mut k: usize = width;
    while k > 0
        invariant
            k <= width <= 8,
            end == start + width,
            end <= total,
            total == bytes@.len(),
            value == le_value(bytes@.subrange(start + k, end)),
        decreases k,
    {
        proof {
            let upper = bytes@.subrange(start + k, end);
            let whole = bytes@.subrange(start + k - 1, end);
            lemma_le_value_bound(upper);
            lemma_radix_values();
            assert(radix(upper.len()) <= radix(7)) by {
                reveal_with_fuel(radix, 10);
            }
            assert(whole.drop_first() =~= upper);
            assert(whole[0] == bytes@[start + k - 1]);
        }
        k -= 1;
        value = value * 256 + bytes[start + k] as u64;
    }
    value
}

/// The unsigned number with the same bits as `t`.
pub fn bits_of(t: i64) -> (n: u64)
    ensures
        n == twos_complement(t),
{
    if t >= 0 {
        t as u64
    } else {
        let above_min: u64 = (t - i64::MIN) as u64;
        above_min + 0x8000_0000_0000_0000u64
    }
}

/// The signed number with the same bits as `n`.
pub fn signed_of(n: u64) -> (t: i64)
    ensures
        t == from_twos_complement(n as nat),
{
    if n < 0x8000_0000_0000_0000u64 {
        n as i64
    } else {
        let above_min: i64 = (n - 0x8000_0000_0000_0000u64) as i64;
        above_min + i64::MIN
    }
}

/// Builds the report of time and level.
pub fn encode_audio_report(time: i64, level: u32) -> (report: Vec<u8>)
    ensures
        report@ == audio_report(time, level),
        report@.len() == AUDIO_PAYLOAD_LENGTH + 1,
        audio_fields(report@) == Some((time, level)),
{
    let mut report: Vec<u8> = Vec::new();
    report.push(REPORT_ID);
    report.push(0xFF);
    report.push(0xCC);
    report.push(0x00);
    report.push(0xAA);
    assert(report@ =~= audio_header());
    push_le_bytes(&mut report, bits_of(time), 8);
    push_le_bytes(&mut report, level as u64, 4);
    proof {
        lemma_audio_report_fields(time, level);
    }
    report
}

/// Builds the report of processor and memory load.
pub fn encode_system_report(cpu: u8, mem: u8) -> (report: Vec<u8>)
    ensures
        report@ == system_report(cpu, mem),
        report@.len() == SYSTEM_PAYLOAD_LENGTH + 1,
        system_fields(report@) == Some((cpu, mem)),
{
    let mut report: Vec<u8> = Vec::new();
    report.push(REPORT_ID);
    report.push(SYSTEM_MARKER);
    report.push(SYSTEM_MARKER);
    report.push(cpu);
    report.push(mem);
    let mut k: usize = 5;
    while k < SYSTEM_PAYLOAD_LENGTH + 1
        invariant
            5 <= k <= SYSTEM_PAYLOAD_LENGTH + 1,
            report@.len() == k,
            report@.subrange(0, 5) == seq![0x00u8, 0x66u8, 0x66u8, cpu, mem],
            forall|i: int| 5 <= i < k ==> report@[i] == 0,
        decreases SYSTEM_PAYLOAD_LENGTH + 1 - k,
    {
        let ghost before = report@;
        report.push(0);
        assert(report@.subrange(0, 5) =~= before.subrange(0, 5));
        k += 1;
    }
    assert(report@ =~= system_report(cpu, mem)) by {
        assert forall|i: int| 0 <= i < 5 implies report@[i] == system_report(cpu, mem)[i] by {
            assert(report@[i] == report@.subrange(0, 5)[i]);
        }
    }
    proof {
        lemma_system_report_fields(cpu, mem);
    }
    report
}

/// Builds the report that shows `snapshot`.
pub fn encode_report(snapshot: &Snapshot) -> (report: Vec<u8>)
    ensures
        report@ == report_of(*snapshot),
{
    match snapshot {
        Snapshot::Audio { unix_time_seconds, level } => encode_audio_report(
            *unix_time_seconds,
            *level,
        ),
        Snapshot::System { cpu_usage_percent, mem_usage_percent, process_count } => {
            encode_system_report(*cpu_usage_percent, *mem_usage_percent)
        },
    }
}

/// Reads a report of time and level: the two fields where `bytes` has that
/// layout, nothing where it has not.
pub fn decode_audio_report(bytes: &[u8]) -> (fields: Option<(i64, u32)>)
    ensures
        fields == audio_fields(bytes@),
        fields is Some <==> is_audio_report(bytes@),
{
    if bytes.len() != AUDIO_PAYLOAD_LENGTH + 1 {
        return None;
    }
    if bytes[0] != REPORT_ID || bytes[1] != 0xFF || bytes[2] != 0xCC || bytes[3] != 0x00 || bytes[4]
        != 0xAA {
        assert(!is_audio_report(bytes@)) by {
            if is_audio_report(bytes@) {
                assert(forall|i: int| 0 <= i < 5 ==> bytes@[i] == bytes@.subrange(0, 5)[i]);
            }
        }
        return None;
    }
    assert(bytes@.subrange(0, 5) =~= audio_header());
    let time: i64 = signed_of(read_le_bytes(bytes, 5, 8));
    let low: u64 = read_le_bytes(bytes, 13, 4);
    proof {
        lemma_le_value_bound(bytes@.subrange(13, 17));
        lemma_radix_values();
    }
    Some((time, low as u32))
}

/// Reads a report of processor and memory load: the two fields where `bytes`
/// has that layout, nothing where it has not.
pub fn decode_system_report(bytes: &[u8]) -> (fields: Option<(u8, u8)>)
    ensures
        fields == system_fields(bytes@),
        fields is Some <==> is_system_report(bytes@),
{
    if bytes.len() != SYSTEM_PAYLOAD_LENGTH + 1 {
        return None;
    }
    if bytes[0] != REPORT_ID || bytes[1] != SYSTEM_MARKER || bytes[2] != SYSTEM_MARKER {
        return None;
    }
    let mut k: usize = 5;
    while k < SYSTEM_PAYLOAD_LENGTH + 1
        invariant
            5 <= k <= SYSTEM_PAYLOAD_LENGTH + 1,
            bytes@.len() == SYSTEM_PAYLOAD_LENGTH + 1,
            forall|i: int| 5 <= i < k ==> bytes@[i] == 0,
        decreases SYSTEM_PAYLOAD_LENGTH + 1 - k,
    {
        if bytes[k] != 0 {
            return None;
        }
        k += 1;
    }
    Some((bytes[3], bytes[4]))
}

/// Reading a report of time and level gives back exactly the time and the
/// level that it was built from.
pub proof fn lemma_audio_report_fields(time: i64, level: u32)
    ensures
        audio_report(time, level).len() == 17,
        is_audio_report(audio_report(time, level)),
        audio_fields(audio_report(time, level)) == Some((time, level)),
{
    let stamp = le_bytes(twos_complement(time), 8);
    let loud = le_bytes(level as nat, 4);
    let report = audio_report(time, level);
    lemma_le_bytes_len(twos_complement(time), 8);
    lemma_le_bytes_len(level as nat, 4);
    lemma_radix_values();
    lemma_twos_complement(time);
    lemma_le_value_of_bytes(twos_complement(time), 8);
    lemma_le_value_of_bytes(level as nat, 4);
    assert(report.subrange(0, 5) =~= audio_header());
    assert(report.subrange(5, 13) =~= stamp);
    assert(report.subrange(13, 17) =~= loud);
}

/// Every sequence with the layout of a report of time and level is the
/// report of the fields read from it.
pub proof fn lemma_audio_fields_report(bytes: Seq<u8>)
    requires
        is_audio_report(bytes),
    ensures
        audio_fields(bytes) matches Some((time, level)) && audio_report(time, level) == bytes,
{
    let stamp = bytes.subrange(5, 13);
    let loud = bytes.subrange(13, 17);
    lemma_radix_values();
    lemma_le_value_bound(stamp);
    lemma_le_value_bound(loud);
    lemma_from_twos_complement(le_value(stamp));
    lemma_le_bytes_of_value(stamp);
    lemma_le_bytes_of_value(loud);
    assert(bytes =~= bytes.subrange(0, 5) + stamp + loud);
}

/// Reading a report of processor and memory load gives back the identifier
/// `0x00`, the marker `0x66` twice, exactly the two bytes that it was built
/// from, and zeros after them.
pub proof fn lemma_system_report_fields(cpu: u8, mem: u8)
    ensures
        system_report(cpu, mem).len() == 34,
        system_report(cpu, mem)[0] == 0x00,
        system_report(cpu, mem)[1] == 0x66,
        system_report(cpu, mem)[2] == 0x66,
        system_report(cpu, mem)[3] == cpu,
        system_report(cpu, mem)[4] == mem,
        forall|i: int| 5 <= i < 34 ==> system_report(cpu, mem)[i] == 0,
        is_system_report(system_report(cpu, mem)),
        system_fields(system_report(cpu, mem)) == Some((cpu, mem)),
{
}

/// Every sequence with the layout of a report of processor and memory load is
/// the report of the fields read from it.
pub proof fn lemma_system_fields_report(bytes: Seq<u8>)
    requires
        is_system_report(bytes),
    ensures
        system_fields(bytes) matches Some((cpu, mem)) && system_report(cpu, mem) == bytes,
{
    assert(system_report(bytes[3], bytes[4]) =~= bytes);
}

} // verus!
