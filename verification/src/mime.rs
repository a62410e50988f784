//! Content types by file extension (`mime_guess`) and the date of a response (`chrono`).
use vstd::prelude::*;

verus! {

/// What `mime_guess::from_ext(ext).first_raw()` gives: the first content type
/// registered for an extension (case-insensitive), if any.
pub uninterp spec fn mime_first_raw(ext: Seq<char>) -> Option<Seq<char>>;

/// `mime_guess::from_ext(ext).first_raw()`, as an owned string. It is a
/// function of the extension alone; an empty extension has none.
#[verifier::external_body]
pub(crate) fn mime_first(ext: &str) -> (r: Option<String>)
    ensures
        match r {
            Some(m) => mime_first_raw(ext@) == Some(m@),
            None => mime_first_raw(ext@) is None,
        },
        ext@.len() == 0 ==> r is None,
{
    mime_guess::from_ext(ext).first_raw().map(|m| m.to_string())
}

/// What `chrono` writes for a moment in UTC, given as seconds and
/// nanoseconds since the epoch, in a strftime format.
pub uninterp spec fn utc_format(fmt: Seq<char>, secs: i64, nanos: u32) -> Seq<char>;

/// `chrono::Utc::now()`, as its seconds (`timestamp`) and nanoseconds
/// (`timestamp_subsec_nanos`) since the epoch, and written out with
/// `format(fmt)`. The moment depends on the clock, so nothing is stated of
/// it; the text is a function of the moment and the format, named `utc_format`.
/// An unknown specifier makes `to_string` panic, so the format is the one
/// date format of the library, whose specifiers chrono all knows.
#[verifier::external_body]
pub(crate) fn format_now_utc(fmt: &str) -> (r: (i64, u32, String))
    requires
        fmt@ == crate::response::date_format(),
    ensures
        r.2@ == utc_format(fmt@, r.0, r.1),
{
    let now = chrono::Utc::now();
    (now.timestamp(), now.timestamp_subsec_nanos(), now.format(fmt).to_string())
}

} // verus!
