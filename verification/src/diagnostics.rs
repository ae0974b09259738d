//! Texts of the durable log files.

use crate::text::{decimal, put_decimal};
use vstd::prelude::*;

verus! {

/// The size at which a log file is set aside for a new one.
pub const ROTATION_BYTES: u64 = 4_194_304;

/// The name of the file that keeps a role's connection warnings. Separate roles avoid rotation
/// races between processes.
pub fn warning_file(role: &str) -> (r: String)
    ensures
        r@ == "connection-"@ + role@ + ".log"@,
{
    let mut name = String::new();
    name.append("connection-");
    name.append(role);
    name.append(".log");
    assert(name@ =~= "connection-"@ + role@ + ".log"@);
    name
}

/// The extension of the file that a full log is kept under.
pub fn backup_extension() -> (r: &'static str)
    ensures
        r == "previous.log",
{
    "previous.log"
}

/// Whether a log of this length is set aside before the next line.
pub fn rotates(length: u64) -> (r: bool)
    ensures
        r == (length >= ROTATION_BYTES),
{
    length >= ROTATION_BYTES
}

/// Where a panic happened.
pub struct Place<'a> {
    pub file: &'a str,
    pub line: u32,
    pub column: u32,
}

pub open spec fn place_text(place: Option<Place>) -> Seq<char> {
    match place {
        Some(place) => place.file@ + ":"@ + decimal(place.line as nat) + ":"@ + decimal(
            place.column as nat,
        ),
        None => "<unknown location>"@,
    }
}

/// A panic as it is recorded; what is not known is named as such.
pub struct Crash<'a> {
    /// The process that panicked, such as the daemon or the GUI.
    pub role: &'a str,
    pub pid: u32,
    /// Seconds since the Unix epoch.
    pub when: u64,
    pub thread: Option<&'a str>,
    pub place: Option<Place<'a>>,
    pub message: Option<&'a str>,
    pub backtrace: &'a str,
}

pub open spec fn record_text(crash: Crash) -> Seq<char> {
    "\n==== mousehop "@ + crash.role@ + " panic \u{2014} pid "@ + decimal(crash.pid as nat)
        + ", unix "@ + decimal(crash.when as nat) + "s ====\nthread '"@ + (match crash.thread {
        Some(name) => name@,
        None => "<unnamed>"@,
    }) + "' panicked at "@ + place_text(crash.place) + ":\n"@ + (match crash.message {
        Some(message) => message@,
        None => "<non-string panic payload>"@,
    }) + "\nstack backtrace:\n"@ + crash.backtrace@ + "\n"@
}

/// The record that a panic leaves.
pub fn panic_record(crash: Crash) -> (r: String)
    ensures
        r@ == record_text(crash),
{
    let mut text = String::new();
    text.append("\n==== mousehop ");
    text.append(crash.role);
    text.append(" panic \u{2014} pid ");
    put_decimal(&mut text, crash.pid as u64);
    text.append(", unix ");
    put_decimal(&mut text, crash.when);
    text.append("s ====\nthread '");
    match crash.thread {
        Some(name) => text.append(name),
        None => text.append("<unnamed>"),
    }
    text.append("' panicked at ");
    let ghost head = text@;
    match &crash.place {
        Some(place) => {
            text.append(place.file);
            text.append(":");
            put_decimal(&mut text, place.line as u64);
            text.append(":");
            put_decimal(&mut text, place.column as u64);
            assert(text@ =~= head + place_text(crash.place));
        },
        None => {
            text.append("<unknown location>");
            assert(text@ =~= head + place_text(crash.place));
        },
    }
    text.append(":\n");
    match crash.message {
        Some(message) => text.append(message),
        None => text.append("<non-string panic payload>"),
    }
    text.append("\nstack backtrace:\n");
    text.append(crash.backtrace);
    text.append("\n");
    assert(text@ =~= record_text(crash));
    text
}

/// A log of four mebibytes or more is set aside, and no shorter one.
pub proof fn law_long_logs_rotate(length: u64, r: bool, name: &'static str, role: &str, file: String)
    requires
        call_ensures(rotates, (length,), r),
        call_ensures(backup_extension, (), name),
        call_ensures(warning_file, (role,), file),
    ensures
        r <==> length >= 4 * 1024 * 1024,
        name@ == "previous.log"@,
        file@.len() == 15 + role@.len(),
        file@.subrange(11, 11 + role@.len() as int) == role@,
{
    reveal_strlit("connection-");
    reveal_strlit(".log");
    assert(file@.subrange(11, 11 + role@.len() as int) =~= role@);
}

/// A crash record ends with the whole backtrace, after the message if there is one.
pub proof fn law_records_keep_the_backtrace(crash: Crash, message: &str, r: String)
    requires
        call_ensures(panic_record, (crash,), r),
        crash.message == Some(message),
    ensures
        ({
            let (n, m) = (crash.backtrace@.len() as int, message@.len() as int);
            let end = r@.len() as int - 1;
            &&& end >= n + 18 + m
            &&& r@.subrange(end - n, end) == crash.backtrace@
            &&& r@.subrange(end - n - 18 - m, end - n - 18) == message@
        }),
{
    reveal_strlit("\nstack backtrace:\n");
    reveal_strlit("\n");
    let (n, m) = (crash.backtrace@.len() as int, message@.len() as int);
    let end = r@.len() as int - 1;
    assert(r@.subrange(end - n, end) =~= crash.backtrace@);
    assert(r@.subrange(end - n - 18 - m, end - n - 18) =~= message@);
}

} // verus!
