//! Finding the process that listens on a port in the listing that
//! `netstat -ano` prints.

use crate::text::{
    chars_of, decimal_digits, end_of_line, find, find_from, last_word, last_word_of, line_end,
    parse_decimal, parse_unsigned, push_decimal, slice_of,
};
use vstd::prelude::*;

verus! {

/// The largest process identifier.
pub const MAX_PID: u64 = 0xffff_ffff;

/// The way the listing names a port: a colon and the number.
pub open spec fn port_pattern(port: u16) -> Seq<char> {
    seq![':'] + decimal_digits(port as nat)
}

/// The process identifier that one line of the listing gives: the last word
/// of a line that holds `pattern` and names a listening socket, read as a
/// number.
pub open spec fn pid_in_line(line: Seq<char>, pattern: Seq<char>) -> Option<u32> {
    if find_from(line, pattern, 0) is Some && find_from(line, "LISTENING"@, 0) is Some {
        match parse_unsigned(last_word(line), MAX_PID as nat) {
            Some(pid) => Some(pid as u32),
            None => None,
        }
    } else {
        None
    }
}

/// The process identifier that the first line gives that gives one, among
/// the lines from the index `from` on. Lines end at a line feed.
pub open spec fn pid_in_lines(listing: Seq<char>, pattern: Seq<char>, from: int) -> Option<u32>
    decreases listing.len() + 1 - from,
{
    let end = line_end(listing, from);
    if from < 0 || from >= listing.len() || end < from || end > listing.len() {
        None
    } else {
        match pid_in_line(listing.subrange(from, end), pattern) {
            Some(pid) => Some(pid),
            None => pid_in_lines(listing, pattern, end + 1),
        }
    }
}

/// The process that the listing shows to listen on `port`.
pub open spec fn listening_pid(listing: Seq<char>, port: u16) -> Option<u32> {
    pid_in_lines(listing, port_pattern(port), 0)
}

/// Computes [`pid_in_line`].
pub fn read_pid_line(line: &Vec<char>, pattern: &Vec<char>) -> (pid: Option<u32>)
    ensures
        pid == pid_in_line(line@, pattern@),
{
    let listening = chars_of("LISTENING");
    if find(line, pattern, 0).is_some() && find(line, &listening, 0).is_some() {
        match parse_decimal(&last_word_of(line), MAX_PID) {
            Some(pid) => Some(pid as u32),
            None => None,
        }
    } else {
        None
    }
}

/// Searches the listing of `netstat -ano` for the process that listens on
/// `port`.
pub fn find_pid_by_port(listing: &str, port: u16) -> (pid: Option<u32>)
    ensures
        pid == listening_pid(listing@, port),
{
    let chars = chars_of(listing);
    let mut pattern: Vec<char> = Vec::new();
    pattern.push(':');
    push_decimal(&mut pattern, port as u64);
    assert(pattern@ =~= port_pattern(port));
    let mut from: usize = 0;
    while from < chars.len()
        invariant
            chars@ == listing@,
            pattern@ == port_pattern(port),
            listening_pid(listing@, port) == pid_in_lines(listing@, pattern@, from as int),
        decreases chars.len() - from,
    {
        let end = end_of_line(&chars, from);
        let line = slice_of(&chars, from, end);
        match read_pid_line(&line, &pattern) {
            Some(pid) => {
                return Some(pid);
            },
            None => {},
        }
        if end == chars.len() {
            assert(pid_in_lines(listing@, pattern@, end + 1) is None);
            return None;
        }
        from = end + 1;
    }
    None
}

} // verus!
