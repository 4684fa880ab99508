//! Finding out which port the worker listens on: reading the bootstrap
//! marker from its standard output, sweeping a fixed range of ports, and
//! falling back on a persisted hint.

use crate::text::{
    chars_of, decimal_digits, decimal_string, find, find_from, first_word, first_word_of,
    is_digit, is_space, lemma_decimal_round_trip, lemma_find_from_hits, lemma_find_from_is_first,
    lemma_parse_written, lemma_skip_word_stops, occurs_at, parse_decimal, parse_unsigned,
    skip_spaces, slice_of,
};
use vstd::prelude::*;
use vstd::string::*;

verus! {

/// The token that the worker prints in front of its port number.
pub open spec fn port_marker() -> Seq<char> {
    "FLASK_PORT:"@
}

/// The largest port number.
pub const MAX_PORT: u64 = 65535;

/// The first port of the sweep.
pub const SWEEP_FIRST_PORT: u16 = 5000;

/// The last port of the sweep.
pub const SWEEP_LAST_PORT: u16 = 5100;

/// The port assumed for a status check when nothing better is known.
pub const DEFAULT_PORT: u16 = 5000;

/// The event that tells the presentation layer the worker's port.
pub const PORT_EVENT: &'static str = "flask-port-ready";

/// The file in the storage directory that may name the port of an earlier
/// run.
pub const PORT_HINT_FILE: &'static str = "port.txt";

/// The text between the first marker of `line` and the next one, or the end
/// of the line where no other marker follows; nothing for a line without a
/// marker.
pub open spec fn marker_field(line: Seq<char>) -> Option<Seq<char>> {
    match find_from(line, port_marker(), 0) {
        None => None,
        Some(at) => {
            let start = at + port_marker().len();
            match find_from(line, port_marker(), start) {
                Some(next) => Some(line.subrange(start, next)),
                None => Some(line.subrange(start, line.len() as int)),
            }
        },
    }
}

/// Reads `s` as a port number.
pub open spec fn port_number(s: Seq<char>) -> Option<u16> {
    match parse_unsigned(s, MAX_PORT as nat) {
        Some(n) => Some(n as u16),
        None => None,
    }
}

/// The port that a line of the worker's output announces: the first word
/// behind the marker, read as a port number.
pub open spec fn port_in_line(line: Seq<char>) -> Option<u16> {
    match marker_field(line) {
        Some(field) => port_number(first_word(field)),
        None => None,
    }
}

/// Computes [`port_number`].
pub fn parse_port(chars: &Vec<char>) -> (r: Option<u16>)
    ensures
        r == port_number(chars@),
{
    match parse_decimal(chars, MAX_PORT) {
        Some(n) => Some(n as u16),
        None => None,
    }
}

/// Scans one line of the worker's standard output for the bootstrap marker
/// and returns the port announced behind it.
pub fn parse_port_line(line: &str) -> (r: Option<u16>)
    ensures
        r == port_in_line(line@),
{
    let chars = chars_of(line);
    let marker = chars_of("FLASK_PORT:");
    match find(&chars, &marker, 0) {
        None => None,
        Some(at) => {
            proof {
                lemma_find_from_is_first(chars@, marker@, 0);
            }
            let start = at + marker.len();
            let end = match find(&chars, &marker, start) {
                Some(next) => {
                    proof {
                        lemma_find_from_is_first(chars@, marker@, start as int);
                    }
                    next
                },
                None => chars.len(),
            };
            let field = slice_of(&chars, start, end);
            let word = first_word_of(&field);
            parse_port(&word)
        },
    }
}

/// The address of the worker's health check on `port`.
pub open spec fn health_url_text(port: u16) -> Seq<char> {
    "http://localhost:"@ + decimal_digits(port as nat) + "/api/health"@
}

/// The address at which the worker on `port` takes the request to shut
/// down.
pub open spec fn shutdown_url_text(port: u16) -> Seq<char> {
    "http://localhost:"@ + decimal_digits(port as nat) + "/api/stop"@
}

/// The address of a path of the worker's interface on `port`.
fn local_url(port: u16, path: &str) -> (url: String)
    ensures
        url@ == "http://localhost:"@ + decimal_digits(port as nat) + path@,
{
    let number = decimal_string(port as u64);
    let mut url = String::from_str("http://localhost:");
    url.append(number.as_str());
    url.append(path);
    url
}

/// Renders [`health_url_text`].
pub fn health_url(port: u16) -> (url: String)
    ensures
        url@ == health_url_text(port),
{
    local_url(port, "/api/health")
}

/// Renders [`shutdown_url_text`].
pub fn shutdown_url(port: u16) -> (url: String)
    ensures
        url@ == shutdown_url_text(port),
{
    local_url(port, "/api/stop")
}

/// The ports from `first` to `last`, both included, in rising order; none
/// where `last` is below `first`.
pub fn sweep_ports(first: u16, last: u16) -> (ports: Vec<u16>)
    ensures
        ports@.len() == if first <= last {
            last - first + 1
        } else {
            0
        },
        forall|i: int| 0 <= i < ports@.len() ==> ports@[i] == first + i,
{
    let mut ports: Vec<u16> = Vec::new();
    if first > last {
        return ports;
    }
    let mut port: u16 = first;
    loop
        invariant
            first <= port <= last,
            ports@.len() == port - first,
            forall|i: int| 0 <= i < ports@.len() ==> ports@[i] == first + i,
        decreases last - port,
    {
        ports.push(port);
        if port == last {
            return ports;
        }
        port += 1;
    }
}

/// A line in which the marker stands for the first time right in front of
/// a written port number, with white space or nothing behind the number,
/// announces that port, whatever stands before the marker and whatever
/// follows the white space.
pub proof fn lemma_announced_port_is_read(before: Seq<char>, port: u16, after: Seq<char>)
    requires
        find_from(before + port_marker(), port_marker(), 0) == Some(before.len() as int),
        after.len() == 0 || is_space(after[0]),
    ensures
        port_in_line(before + port_marker() + decimal_digits(port as nat) + after) == Some(port),
{
    reveal_strlit("FLASK_PORT:");
    let marker = port_marker();
    let digits = decimal_digits(port as nat);
    let line = before + marker + digits + after;
    let at = before.len() as int;
    let start = at + marker.len();
    let end = start + digits.len();
    assert(marker.len() == 11);
    assert(marker[0] == 'F');
    lemma_decimal_round_trip(port as nat);
    lemma_parse_written(port as nat, MAX_PORT as nat);
    lemma_find_from_is_first(before + marker, marker, 0);
    assert(occurs_at(line, marker, at)) by {
        assert(line.subrange(at, at + marker.len()) =~= marker);
    }
    assert forall|j: int| 0 <= j < at implies !occurs_at(line, marker, j) by {
        if occurs_at(line, marker, j) {
            assert((before + marker).subrange(j, j + marker.len()) =~= line.subrange(
                j,
                j + marker.len(),
            ));
            assert(occurs_at(before + marker, marker, j));
        }
    }
    lemma_find_from_hits(line, marker, 0, at);
    assert forall|j: int| start <= j < end implies is_digit(line[j]) by {
        assert(line[j] == digits[j - start]);
    }
    assert forall|j: int| start <= j <= end implies !occurs_at(line, marker, j) by {
        if occurs_at(line, marker, j) {
            assert(line.subrange(j, j + marker.len())[0] == marker[0]);
            assert(line[j] == 'F');
            if j < end {
                assert(is_digit(line[j]));
            } else {
                assert(line[j] == after[0]);
            }
        }
    }
    lemma_find_from_is_first(line, marker, start);
    let stop = match find_from(line, marker, start) {
        Some(next) => next,
        None => line.len() as int,
    };
    assert(end <= stop <= line.len());
    assert(after.len() > 0 ==> end < stop) by {
        if after.len() > 0 && find_from(line, marker, start) is Some {
            assert(!occurs_at(line, marker, end));
        }
    }
    let field = line.subrange(start, stop);
    assert(marker_field(line) == Some(field));
    assert forall|j: int| 0 <= j < digits.len() implies !is_space(field[j]) by {
        assert(field[j] == digits[j]);
        assert(is_digit(digits[j]));
    }
    assert(skip_spaces(field, 0) == 0);
    assert(digits.len() < field.len() ==> is_space(field[digits.len() as int])) by {
        if digits.len() < field.len() {
            assert(field[digits.len() as int] == after[0]);
        }
    }
    lemma_skip_word_stops(field, 0, digits.len() as int);
    assert(first_word(field) =~= digits);
}

} // verus!
