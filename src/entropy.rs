use crate::errors::SecretError;
use rand::RngCore;
use vstd::prelude::*;

verus! {

/// Bytes drawn from the random source for each collection.
pub const RANDOM_SIZE: usize = 32;

/// `mac_address::MacAddressError`, returned when the interface query fails.
#[verifier::external_type_specification]
#[verifier::external_body]
pub struct ExMacAddressError(mac_address::MacAddressError);

/// Relies on `mac_address::get_mac_address`: the primary interface's
/// hardware address, `None` where there is none, rendered by its `Display`
/// impl as UTF-8 bytes: six two-digit hexadecimal fields joined by colons,
/// 17 bytes. Which address it returns depends on the machine.
#[verifier::external_body]
fn primary_mac_address() -> (r: Result<Option<Vec<u8>>, mac_address::MacAddressError>)
    ensures
        r matches Ok(Some(t)) ==> t@.len() == 17,
{
    mac_address::get_mac_address().map(|m| m.map(|a| a.to_string().into_bytes()))
}

/// Relies on `std::time::SystemTime::duration_since` of `SystemTime::now()`
/// and `UNIX_EPOCH`: the time since the epoch as whole seconds and the
/// nanoseconds past them, which `Duration::subsec_nanos` documents as below
/// one billion; `None` where the clock reads before the epoch. What it
/// returns depends on the clock.
#[verifier::external_body]
fn since_unix_epoch() -> (r: Option<(u64, u32)>)
    ensures
        r matches Some((_, n)) ==> n < 1_000_000_000,
{
    std::time::SystemTime::now()
        .duration_since(std::time::UNIX_EPOCH)
        .ok()
        .map(|d| (d.as_secs(), d.subsec_nanos()))
}

/// Relies on `chrono::DateTime::from_timestamp`, read back through
/// `timestamp_nanos_opt` and `timestamp_micros`: `None` where the instant is
/// outside chrono's range; otherwise the instant in nanoseconds (`None` where
/// that does not fit an `i64`) and in microseconds since the epoch.
#[verifier::external_body]
fn utc_timestamps(secs: i64, nsecs: u32) -> (r: Option<(Option<i64>, i64)>)
    ensures
        nsecs < 1_000_000_000 ==> (r matches Some((n, u)) ==> u == secs * 1_000_000 + nsecs
            / 1000 && (n matches Some(v) ==> v == secs * 1_000_000_000 + nsecs)),
{
    chrono::DateTime::from_timestamp(secs, nsecs).map(|d| (d.timestamp_nanos_opt(), d.timestamp_micros()))
}

/// The current time in nanoseconds (`None` where that does not fit an
/// `i64`) and microseconds since the Unix epoch. Fails with
/// [`SecretError::ClockOutOfRange`] where the clock reads before the epoch
/// or past what a timestamp can hold.
pub fn read_clock() -> (r: Result<(Option<i64>, i64), SecretError>)
    ensures
        r is Err ==> r->Err_0 is ClockOutOfRange,
{
    match since_unix_epoch() {
        None => Err(SecretError::ClockOutOfRange),
        Some((secs, nsecs)) => timestamps_of(secs, nsecs),
    }
}

/// The timestamps for `secs` seconds and `nsecs` nanoseconds past the
/// epoch. Fails with [`SecretError::ClockOutOfRange`] where the instant is
/// past what a timestamp can hold.
pub fn timestamps_of(secs: u64, nsecs: u32) -> (r: Result<(Option<i64>, i64), SecretError>)
    ensures
        r is Err ==> r->Err_0 is ClockOutOfRange,
        nsecs < 1_000_000_000 ==> (r matches Ok((n, u)) ==> u == secs * 1_000_000 + nsecs / 1000
            && (n matches Some(v) ==> v == secs * 1_000_000_000 + nsecs)),
        secs > i64::MAX ==> r is Err,
{
    if secs > i64::MAX as u64 {
        return Err(SecretError::ClockOutOfRange);
    }
    match utc_timestamps(secs as i64, nsecs) {
        Some(t) => Ok(t),
        None => Err(SecretError::ClockOutOfRange),
    }
}

/// Relies on `rand::RngCore::try_fill_bytes` of `rand::rngs::OsRng`: fills
/// `buf` from the operating system's secure random source, or returns that
/// source's error; the length of `buf` is kept either way. It does not panic.
#[verifier::external_body]
pub(crate) fn fill_random(buf: &mut [u8]) -> (r: Result<(), rand::Error>)
    ensures
        final(buf)@.len() == old(buf)@.len(),
{
    rand::rngs::OsRng.try_fill_bytes(buf)
}

/// Relies on `hostname::get`: the host's name as UTF-8 bytes, `None` where
/// it cannot be read or is not UTF-8. What it returns depends on the machine.
#[verifier::external_body]
fn host_name() -> (r: Option<Vec<u8>>) {
    hostname::get().ok().and_then(|h| h.into_string().ok()).map(|s| s.into_bytes())
}

/// The ASCII code of a decimal digit.
pub open spec fn digit_byte(d: nat) -> u8 {
    (48 + d) as u8
}

/// The decimal digits of `n`, most significant first, in ASCII.
pub open spec fn decimal_digits(n: nat) -> Seq<u8>
    decreases n,
{
    if n < 10 {
        seq![digit_byte(n)]
    } else {
        decimal_digits(n / 10).push(digit_byte(n % 10))
    }
}

/// `n` in decimal, with a leading `-` where it is negative, in ASCII.
pub open spec fn decimal_text(n: int) -> Seq<u8> {
    if n < 0 {
        seq![45u8] + decimal_digits((-n) as nat)
    } else {
        decimal_digits(n as nat)
    }
}

/// The time at two precisions: nanoseconds, a `:`, microseconds.
pub open spec fn timestamp_text(nanos: Option<i64>, micros: i64) -> Seq<u8> {
    let n: int = match nanos {
        Some(v) => v as int,
        None => 0,
    };
    decimal_text(n) + seq![58u8] + decimal_text(micros as int)
}

/// The process id's four little-endian bytes, twice.
pub open spec fn process_id_text(pid: u32) -> Seq<u8> {
    let le = seq![
        (pid % 256) as u8,
        (pid / 256 % 256) as u8,
        (pid / 65536 % 256) as u8,
        (pid / 16777216) as u8,
    ];
    le + le
}

/// The placeholder for a host name that cannot be read: `unknown`.
pub open spec fn unknown_host() -> Seq<u8> {
    seq![117u8, 110u8, 107u8, 110u8, 111u8, 119u8, 110u8]
}

/// The entropy bytes, in their fixed order: hardware address, timestamp,
/// process id, random bytes, host name (or the placeholder).
pub open spec fn entropy_layout(
    mac: Seq<u8>,
    nanos: Option<i64>,
    micros: i64,
    pid: u32,
    random: Seq<u8>,
    host: Option<Seq<u8>>,
) -> Seq<u8> {
    let h = match host {
        Some(h) => h,
        None => unknown_host(),
    };
    mac + timestamp_text(nanos, micros) + process_id_text(pid) + random + h
}

/// Appends the decimal digits of `n`.
fn push_digits(out: &mut Vec<u8>, n: u64)
    ensures
        final(out)@ == old(out)@ + decimal_digits(n as nat),
    decreases n,
{
    if n >= 10 {
        push_digits(out, n / 10);
    }
    out.push((48 + n % 10) as u8);
}

/// Appends `n` in decimal.
pub fn push_decimal(out: &mut Vec<u8>, n: i64)
    ensures
        final(out)@ == old(out)@ + decimal_text(n as int),
{
    if n < 0 {
        out.push(45u8);
        let magnitude: u64 = ((-(n + 1)) as u64) + 1;
        push_digits(out, magnitude);
    } else {
        push_digits(out, n as u64);
    }
}

/// The timestamp's bytes.
pub fn timestamp_bytes(nanos: Option<i64>, micros: i64) -> (r: Vec<u8>)
    ensures
        r@ == timestamp_text(nanos, micros),
{
    let mut out: Vec<u8> = Vec::new();
    let n: i64 = match nanos {
        Some(v) => v,
        None => 0,
    };
    push_decimal(&mut out, n);
    out.push(58u8);
    push_decimal(&mut out, micros);
    out
}

/// The process id widened to eight bytes by repeating its little-endian form.
pub fn process_id_bytes(pid: u32) -> (r: [u8; 8])
    ensures
        r@ == process_id_text(pid),
{
    let b0 = (pid % 256) as u8;
    let b1 = (pid / 256 % 256) as u8;
    let b2 = (pid / 65536 % 256) as u8;
    let b3 = (pid / 16777216) as u8;
    let r: [u8; 8] = [b0, b1, b2, b3, b0, b1, b2, b3];
    proof {
        assert(r@ == process_id_text(pid));
    }
    r
}

/// Joins the collected parts into the entropy bytes.
pub fn assemble_entropy(
    mac: &[u8],
    nanos: Option<i64>,
    micros: i64,
    pid: u32,
    random: &[u8],
    host: Option<&[u8]>,
) -> (r: Vec<u8>)
    ensures
        r@ == entropy_layout(
            mac@,
            nanos,
            micros,
            pid,
            random@,
            match host {
                Some(h) => Some(h@),
                None => None,
            },
        ),
{
    let mut out: Vec<u8> = Vec::new();
    out.extend_from_slice(mac);
    let ts = timestamp_bytes(nanos, micros);
    out.extend_from_slice(ts.as_slice());
    let pid_bytes = process_id_bytes(pid);
    out.extend_from_slice(&pid_bytes);
    out.extend_from_slice(random);
    match host {
        Some(h) => {
            out.extend_from_slice(h);
        },
        None => {
            let unknown: Vec<u8> = vec![117u8, 110u8, 107u8, 110u8, 111u8, 119u8, 110u8];
            proof {
                assert(unknown@ == unknown_host());
            }
            out.extend_from_slice(unknown.as_slice());
        },
    }
    out
}

/// The hardware address from the address query's result: the address
/// where one was found; [`SecretError::NoMacAddress`] where the query failed
/// or found none. No weaker source stands in for it.
pub fn hardware_address(query: Result<Option<Vec<u8>>, mac_address::MacAddressError>) -> (r: Result<
    Vec<u8>,
    SecretError,
>)
    ensures
        query matches Ok(Some(m)) ==> r matches Ok(a) && a@ == m@,
        !(query matches Ok(Some(_))) ==> r matches Err(SecretError::NoMacAddress),
{
    match query {
        Ok(Some(m)) => Ok(m),
        Ok(None) => Err(SecretError::NoMacAddress),
        Err(_) => Err(SecretError::NoMacAddress),
    }
}

/// Collects the entropy bytes for process `pid`: the hardware address, the
/// time, the process id, 32 random bytes and the host name, in that order.
/// The address is queried first: where the query fails or finds no address,
/// the collection fails with [`SecretError::NoMacAddress`] before anything
/// else is read. It fails with [`SecretError::ClockOutOfRange`] where the
/// clock cannot be read as a timestamp, and with
/// [`SecretError::RandomSource`] where the random source fails; a host name
/// that cannot be read becomes `unknown`.
pub fn collect_entropy(pid: u32) -> (r: Result<Vec<u8>, SecretError>)
    ensures
        r matches Ok(e) ==> exists|
            mac: Seq<u8>,
            nanos: Option<i64>,
            micros: i64,
            random: Seq<u8>,
            host: Option<Seq<u8>>,
        |
            random.len() == RANDOM_SIZE && e@ == #[trigger] entropy_layout(
                mac,
                nanos,
                micros,
                pid,
                random,
                host,
            ),
        r is Err ==> r->Err_0 is NoMacAddress || r->Err_0 is ClockOutOfRange
            || r->Err_0 is RandomSource,
{
    let mac = match hardware_address(primary_mac_address()) {
        Ok(m) => m,
        Err(e) => {
            return Err(e);
        },
    };
    let (nanos, micros) = match read_clock() {
        Ok(t) => t,
        Err(e) => {
            return Err(e);
        },
    };
    let mut random: [u8; RANDOM_SIZE] = [0u8; RANDOM_SIZE];
    if let Err(e) = fill_random(&mut random) {
        return Err(SecretError::RandomSource(e));
    }
    let host = host_name();
    let e = match &host {
        Some(h) => assemble_entropy(mac.as_slice(), nanos, micros, pid, &random, Some(h.as_slice())),
        None => assemble_entropy(mac.as_slice(), nanos, micros, pid, &random, None),
    };
    proof {
        let hv: Option<Seq<u8>> = match host {
            Some(h) => Some(h@),
            None => None,
        };
        assert(e@ == entropy_layout(mac@, nanos, micros, pid, random@, hv));
    }
    Ok(e)
}

} // verus!
