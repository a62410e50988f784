//! The head of an HTTP/1.1 response as the first server wrote it: status
//! line, server name, date, headers.
use vstd::prelude::*;

use chrono::{Datelike, Timelike};

use crate::wire::{ascii, ascii_vec, decimal, decimal_bytes, push_all};

verus! {

/// The fields of a moment in UTC as the date line shows them: the weekday's
/// short name, the day of the month, the month's number, the year, the hour,
/// the minute and the second.
pub struct DateParts {
    pub weekday: String,
    pub day: u32,
    pub month: u32,
    pub year: i32,
    pub hour: u32,
    pub minute: u32,
    pub second: u32,
}

/// The decimal digits of a signed number, with `-` before a negative one.
pub open spec fn signed_decimal(n: int) -> Seq<u8> {
    if n < 0 {
        seq![45u8] + decimal((-n) as nat)
    } else {
        decimal(n as nat)
    }
}

/// The date line `Date: <weekday>, <day> <month> <year> <hour>:<minute>:<second>`,
/// numbers without padding, ended by CRLF.
pub open spec fn date_line(d: DateParts) -> Seq<u8> {
    ascii("Date: "@) + crate::response::utf8(d.weekday@) + seq![44u8, 32u8] + decimal(d.day as nat) + seq![32u8]
        + decimal(d.month as nat) + seq![32u8] + signed_decimal(d.year as int) + seq![32u8] + decimal(
        d.hour as nat,
    ) + seq![58u8] + decimal(d.minute as nat) + seq![58u8] + decimal(d.second as nat) + seq![13u8, 10u8]
}

/// The ranges chrono gives the parts of a moment.
pub open spec fn date_parts_in_range(d: DateParts) -> bool {
    &&& (d.weekday@ == "Mon"@ || d.weekday@ == "Tue"@ || d.weekday@ == "Wed"@ || d.weekday@ == "Thu"@
        || d.weekday@ == "Fri"@ || d.weekday@ == "Sat"@ || d.weekday@ == "Sun"@)
    &&& 1 <= d.month <= 12
    &&& 1 <= d.day <= 31
    &&& d.hour <= 23
    &&& d.minute <= 59
    &&& d.second <= 59
}

/// `chrono::Utc::now()`, in its weekday (`Weekday`'s `Display`), day, month,
/// year, hour, minute and second. The moment depends on the clock; what chrono
/// documents of every moment is stated: the weekday is one of its seven
/// three-letter names, the month 1 to 12, the day 1 to 31, the hour 0 to 23,
/// the minute and the second 0 to 59.
#[verifier::external_body]
fn utc_now_parts() -> (r: DateParts)
    ensures
        date_parts_in_range(r),
{
    let now = chrono::offset::Utc::now();
    DateParts {
        weekday: now.weekday().to_string(),
        day: now.day(),
        month: now.month(),
        year: now.year(),
        hour: now.hour(),
        minute: now.minute(),
        second: now.second(),
    }
}

/// The date line of a moment (see `date_line`).
pub fn date_line_of(d: &DateParts) -> (r: Vec<u8>)
    ensures
        r@ == date_line(*d),
{
    proof {
        reveal_strlit("Date: ");
    }
    let mut out = ascii_vec("Date: ");
    push_all(&mut out, d.weekday.as_str().as_bytes());
    out.push(44);
    out.push(32);
    push_all(&mut out, decimal_bytes(d.day as u64).as_slice());
    out.push(32);
    push_all(&mut out, decimal_bytes(d.month as u64).as_slice());
    out.push(32);
    if d.year < 0 {
        out.push(45);
        push_all(&mut out, decimal_bytes((0 - (d.year as i64)) as u64).as_slice());
    } else {
        push_all(&mut out, decimal_bytes(d.year as u64).as_slice());
    }
    out.push(32);
    push_all(&mut out, decimal_bytes(d.hour as u64).as_slice());
    out.push(58);
    push_all(&mut out, decimal_bytes(d.minute as u64).as_slice());
    out.push(58);
    push_all(&mut out, decimal_bytes(d.second as u64).as_slice());
    out.push(13);
    out.push(10);
    assert(out@ =~= date_line(*d));
    out
}

/// The date line of the current moment (see `date_line`).
pub fn generate_http_date_header() -> (r: Vec<u8>)
    ensures
        exists|d: DateParts| date_parts_in_range(d) && r@ == date_line(d),
{
    let d = utc_now_parts();
    date_line_of(&d)
}

/// Each header as a line `name: value`, in order.
pub open spec fn header_block(h: Seq<(Seq<u8>, Seq<u8>)>) -> Seq<u8>
    decreases h.len(),
{
    if h.len() == 0 {
        seq![]
    } else {
        header_block(h.drop_last()) + h.last().0 + seq![58u8, 32u8] + h.last().1 + seq![13u8, 10u8]
    }
}

/// The head of a response: `HTTP/1.1 <status>`, the server line, the date
/// line, the header lines, and an empty line.
pub open spec fn response_head(status: Seq<char>, date: Seq<u8>, headers: Seq<(Seq<u8>, Seq<u8>)>) -> Seq<u8> {
    ascii("HTTP/1.1 "@) + crate::response::utf8(status) + seq![13u8, 10u8] + ascii("Server: feather\r\n"@) + date
        + header_block(headers) + seq![13u8, 10u8]
}

/// The head of a response of `status` (its code and reason, as `200 OK`),
/// dated now, with these headers (see `response_head`).
pub fn serialize_header(status: &str, headers: &[(Vec<u8>, Vec<u8>)]) -> (r: Vec<u8>)
    ensures
        exists|d: DateParts|
            date_parts_in_range(d) && r@ == response_head(status@, date_line(d), crate::wire::pairs_view(headers@)),
{
    proof {
        reveal_strlit("HTTP/1.1 ");
        reveal_strlit("Server: feather\r\n");
    }
    let mut out = ascii_vec("HTTP/1.1 ");
    push_all(&mut out, status.as_bytes());
    out.push(13);
    out.push(10);
    let server = ascii_vec("Server: feather\r\n");
    push_all(&mut out, server.as_slice());
    let d = utc_now_parts();
    let date = date_line_of(&d);
    push_all(&mut out, date.as_slice());
    let ghost head = out@;
    let ghost hv = crate::wire::pairs_view(headers@);
    let mut i: usize = 0;
    while i < headers.len()
        invariant
            i <= headers@.len(),
            hv == crate::wire::pairs_view(headers@),
            out@ == head + header_block(hv.subrange(0, i as int)),
        decreases headers@.len() - i,
    {
        push_all(&mut out, headers[i].0.as_slice());
        out.push(58);
        out.push(32);
        push_all(&mut out, headers[i].1.as_slice());
        out.push(13);
        out.push(10);
        proof {
            let hs = hv.subrange(0, i + 1);
            assert(hs.drop_last() =~= hv.subrange(0, i as int));
            assert(out@ =~= head + header_block(hs));
        }
        i = i + 1;
    }
    assert(hv.subrange(0, hv.len() as int) =~= hv);
    out.push(13);
    out.push(10);
    assert(out@ =~= response_head(status@, date_line(d), hv));
    out
}

} // verus!
