//! The record of a server that runs in the background.

use vstd::prelude::*;
use vstd::string::*;

use crate::text::{chars_of, digits_of, is_space, law_decimal_round_trip, law_number_line_round_trip,
    law_numbers_are_read, law_only_numbers_are_read, law_trimming_takes_white_space_off,
    lemma_spelled_has_no_space, number, number_in, parse_number, spelled, trim, trimmed};

verus! {

/// The text that records a process.
pub fn pid_record(pid: u32) -> (result: String)
    ensures
        result@ == digits_of(pid as nat).push('\n'),
{
    let text = number(pid as u64).concat("\n");
    proof {
        reveal_strlit("\n");
        assert(text@ =~= digits_of(pid as nat).push('\n'));
    }
    text
}

/// The process in a record, if the record is one.
pub open spec fn recorded_pid(record: Seq<char>) -> Option<nat> {
    number_in(trimmed(record), u32::MAX as nat)
}

/// The process in a record, if the record is one.
pub fn parse_pid(record: &str) -> (result: Option<u32>)
    ensures
        match result {
            Some(pid) => recorded_pid(record@) == Some(pid as nat),
            None => recorded_pid(record@) is None,
        },
{
    parse_number(&trim(&chars_of(record)), u32::MAX)
}

/// What a record says of a server in the background.
#[derive(Clone, Copy, Debug, PartialEq, Eq, Structural)]
pub enum Background {
    /// It runs as this process.
    Running(u32),
    /// It does not run, and the record is out of date.
    Stale,
    /// There is no record.
    Absent,
    /// The record is none.
    Invalid,
}

/// Says what a record, if there is one, says of a server in the background. `running` is whether
/// the process in the record, if there is one, runs.
pub fn background(record: Option<&str>, running: bool) -> (result: Background)
    ensures
        match record {
            None => result == Background::Absent,
            Some(record) => match recorded_pid(record@) {
                None => result == Background::Invalid,
                Some(pid) => result == if running {
                    Background::Running(pid as u32)
                } else {
                    Background::Stale
                },
            },
        },
{
    match record {
        None => Background::Absent,
        Some(record) => match parse_pid(record) {
            None => Background::Invalid,
            Some(pid) => {
                if running {
                    Background::Running(pid)
                } else {
                    Background::Stale
                }
            },
        },
    }
}

/// The record of a process names the process.
pub proof fn law_pid_record_round_trip(pid: u32)
    ensures
        recorded_pid(digits_of(pid as nat).push('\n')) == Some(pid as nat),
{
    law_number_line_round_trip(pid as nat);
    law_decimal_round_trip(pid as nat, u32::MAX as nat);
}

/// A record names a process where it is the process's number in decimal with white space around
/// it, and names none where it is anything else.
pub proof fn law_records_name_processes(
    pid: u32,
    before: Seq<char>,
    zeros: nat,
    after: Seq<char>,
    record: &str,
    written: String,
    parsed: Option<u32>,
    running: bool,
    state: Background,
    absent: Background,
)
    requires
        call_ensures(pid_record, (pid,), written),
        call_ensures(parse_pid, (record,), parsed),
        call_ensures(background, (Some(record), running), state),
        call_ensures(background, (None::<&str>, running), absent),
        forall|i: int| 0 <= i < before.len() ==> is_space(#[trigger] before[i]),
        forall|i: int| 0 <= i < after.len() ==> is_space(#[trigger] after[i]),
    ensures
        absent == Background::Absent,
        written@ == digits_of(pid as nat) + seq!['\n'],
        record@ == before + spelled(zeros, pid as nat) + after ==> {
            &&& parsed == Some(pid)
            &&& running ==> state == Background::Running(pid)
            &&& !running ==> state == Background::Stale
        },
        parsed is None ==> state == Background::Invalid,
        parsed matches Some(n) ==> exists|zeros: nat|
            trimmed(record@) == #[trigger] spelled(zeros, n as nat) || trimmed(record@) == seq!['+']
                + spelled(zeros, n as nat),
{
    assert(written@ =~= digits_of(pid as nat) + seq!['\n']);
    let core = spelled(zeros, pid as nat);
    law_numbers_are_read(zeros, pid as nat, u32::MAX as nat);
    law_only_numbers_are_read(trimmed(record@), u32::MAX as nat);
    if record@ == before + core + after {
        lemma_spelled_has_no_space(zeros, pid as nat);
        law_trimming_takes_white_space_off(before, core, after);
    }
}

} // verus!
