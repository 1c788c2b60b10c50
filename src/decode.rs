use crate::calendar::{civil_time_of, format_date_in_portuguese, render, utc_civil};
use crate::packet::{
    be32, lemma_be32_parts, read_be32, read_be32_at, PACKET_SIZE, TX_SECONDS_OFFSET,
};
use vstd::prelude::*;
use vstd::string::StringExecFns;

verus! {

/// Seconds from the protocol epoch (1900-01-01) to the Unix epoch (1970-01-01).
pub const NTP_TO_UNIX_SECONDS: u32 = 2_208_988_800;

/// Why a reply could not be decoded.
#[derive(Clone, Copy, Debug, PartialEq, Eq, Structural)]
pub enum DecodeError {
    /// The reply is shorter than a protocol message.
    MalformedResponse,
    /// The transmit time predates the Unix epoch.
    EpochUnderflow,
}

/// The Unix seconds that a reply reports in its transmit timestamp.
pub open spec fn spec_unix_seconds(reply: Seq<u8>) -> Result<u32, DecodeError> {
    if reply.len() < PACKET_SIZE {
        Err(DecodeError::MalformedResponse)
    } else if read_be32(reply, TX_SECONDS_OFFSET as int) < NTP_TO_UNIX_SECONDS {
        Err(DecodeError::EpochUnderflow)
    } else {
        Ok((read_be32(reply, TX_SECONDS_OFFSET as int) - NTP_TO_UNIX_SECONDS) as u32)
    }
}

/// The transmit time of a reply as rendered text.
pub open spec fn spec_parse(reply: Seq<u8>) -> Result<Seq<char>, DecodeError> {
    match spec_unix_seconds(reply) {
        Ok(s) => Ok(render(utc_civil(s as int))),
        Err(e) => Err(e),
    }
}

/// Reads the transmit seconds of a reply (only its first 48 bytes are consulted) and shifts
/// them to the Unix epoch. The fraction of a second is discarded.
pub fn unix_seconds_of(reply: &[u8]) -> (r: Result<u32, DecodeError>)
    ensures
        r == spec_unix_seconds(reply@),
{
    if reply.len() < PACKET_SIZE {
        return Err(DecodeError::MalformedResponse);
    }
    let tx = read_be32_at(reply, TX_SECONDS_OFFSET);
    if tx < NTP_TO_UNIX_SECONDS {
        Err(DecodeError::EpochUnderflow)
    } else {
        Ok(tx - NTP_TO_UNIX_SECONDS)
    }
}

/// Renders a Unix timestamp, taken as a point in Coordinated Universal Time.
pub fn format_unix_seconds(unix_seconds: u32) -> (r: String)
    ensures
        r@ == render(utc_civil(unix_seconds as int)),
{
    let t = civil_time_of(unix_seconds);
    format_date_in_portuguese(&t)
}

/// Decodes a reply into the rendered transmit time.
pub fn parse_ntp_response(reply: &[u8]) -> (r: Result<String, DecodeError>)
    ensures
        r matches Ok(s) ==> spec_parse(reply@) == Ok::<Seq<char>, DecodeError>(s@),
        r matches Err(e) ==> spec_parse(reply@) == Err::<Seq<char>, DecodeError>(e),
{
    match unix_seconds_of(reply) {
        Ok(s) => Ok(format_unix_seconds(s)),
        Err(e) => Err(e),
    }
}

/// Prefix of every line reported to the user.
pub open spec fn report_prefix() -> Seq<char> {
    "Data/hora: "@
}

/// Reported when no reply of a message's size came back.
pub open spec fn contact_failure_line() -> Seq<char> {
    "Data/hora: não foi possível contactar servidor"@
}

/// Reported when a reply of the right size could not be interpreted.
pub open spec fn interpret_failure_line() -> Seq<char> {
    "Data/hora: erro ao interpretar a resposta"@
}

/// The line reported for what was received: nothing (`None`, a transport failure or a
/// timeout), or the bytes of a reply.
pub open spec fn spec_report(received: Option<Seq<u8>>) -> Seq<char> {
    match received {
        None => contact_failure_line(),
        Some(reply) => match spec_parse(reply) {
            Ok(text) => report_prefix() + text,
            Err(DecodeError::MalformedResponse) => contact_failure_line(),
            Err(DecodeError::EpochUnderflow) => interpret_failure_line(),
        },
    }
}

/// The single line shown to the user for the outcome of one exchange. A reply too short to be
/// a message counts as no contact, like a transport failure.
pub fn report_line(received: Option<&[u8]>) -> (r: String)
    ensures
        r@ == spec_report(
            match received {
                Some(b) => Some(b@),
                None => None,
            },
        ),
{
    match received {
        None => String::from_str("Data/hora: não foi possível contactar servidor"),
        Some(reply) => match parse_ntp_response(reply) {
            Ok(text) => {
                let mut out = String::from_str("Data/hora: ");
                out.append(text.as_str());
                out
            },
            Err(DecodeError::MalformedResponse) => String::from_str(
                "Data/hora: não foi possível contactar servidor",
            ),
            Err(DecodeError::EpochUnderflow) => String::from_str(
                "Data/hora: erro ao interpretar a resposta",
            ),
        },
    }
}

/// A reply shorter than a message is reported as a failure to contact the server, never as a
/// reply that could not be interpreted.
pub proof fn lemma_short_reply_is_contact_failure(reply: Seq<u8>)
    requires
        reply.len() < PACKET_SIZE,
    ensures
        spec_report(Some(reply)) == contact_failure_line(),
        spec_report(Some(reply)) != interpret_failure_line(),
{
    reveal_strlit("Data/hora: não foi possível contactar servidor");
    reveal_strlit("Data/hora: erro ao interpretar a resposta");
    assert(contact_failure_line()[11] != interpret_failure_line()[11]);
}

/// A reply whose transmit seconds field holds `s` decodes to `s` shifted to the Unix epoch
/// when `s` is at or after it, and fails with `EpochUnderflow` otherwise.
pub proof fn lemma_transmit_seconds_shift(reply: Seq<u8>, s: u32)
    requires
        reply.len() >= PACKET_SIZE,
        reply.subrange(TX_SECONDS_OFFSET as int, TX_SECONDS_OFFSET as int + 4) == be32(s),
    ensures
        s >= NTP_TO_UNIX_SECONDS ==> spec_unix_seconds(reply) == Ok::<u32, DecodeError>(
            (s - NTP_TO_UNIX_SECONDS) as u32,
        ),
        s < NTP_TO_UNIX_SECONDS ==> spec_unix_seconds(reply) == Err::<u32, DecodeError>(
            DecodeError::EpochUnderflow,
        ),
{
    let w = reply.subrange(TX_SECONDS_OFFSET as int, TX_SECONDS_OFFSET as int + 4);
    assert(reply[40] == w[0] && reply[41] == w[1] && reply[42] == w[2] && reply[43] == w[3]);
    lemma_be32_parts(s);
}

/// The rendering of a timestamp depends on the timestamp alone: equal seconds give equal text,
/// whatever the process's locale or time zone.
pub proof fn lemma_render_is_function_of_seconds(a: u32, b: u32)
    requires
        a == b,
    ensures
        render(utc_civil(a as int)) == render(utc_civil(b as int)),
{
}

} // verus!
