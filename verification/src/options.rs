//! The command line of the capture program.
use vstd::prelude::*;
use vstd::string::{StrSliceExecFns, StringExecFns};

use crate::config::{Capacities, Limits};
use crate::recording::WAVE_HEADER_BYTES;

verus! {

/// How many options take a value.
pub const OPTION_COUNT: usize = 12;

/// The option at a place in the list of options.
pub open spec fn option_text(index: nat) -> Seq<char> {
    if index == 0 {
        "--output"@
    } else if index == 1 {
        "--listen"@
    } else if index == 2 {
        "--max-connections"@
    } else if index == 3 {
        "--queue-records"@
    } else if index == 4 {
        "--payload-bytes"@
    } else if index == 5 {
        "--turn-steps"@
    } else if index == 6 {
        "--retained-bytes"@
    } else if index == 7 {
        "--max-active-recordings"@
    } else if index == 8 {
        "--max-recordings-per-run"@
    } else if index == 9 {
        "--max-file-bytes"@
    } else if index == 10 {
        "--max-recording-summary-bytes"@
    } else {
        "--max-run-status-bytes"@
    }
}

/// Returns the option at a place in the list of options.
fn option_name(index: usize) -> (name: &'static str)
    requires
        index < 12,
    ensures
        name@ == option_text(index as nat),
{
    match index {
        0 => "--output",
        1 => "--listen",
        2 => "--max-connections",
        3 => "--queue-records",
        4 => "--payload-bytes",
        5 => "--turn-steps",
        6 => "--retained-bytes",
        7 => "--max-active-recordings",
        8 => "--max-recordings-per-run",
        9 => "--max-file-bytes",
        10 => "--max-recording-summary-bytes",
        _ => "--max-run-status-bytes",
    }
}

/// The place of an option in the list of options, from `from` on.
pub open spec fn option_place(name: Seq<char>, from: nat) -> Option<nat>
    decreases 12 - from,
{
    if from >= 12 {
        None
    } else if option_text(from) == name {
        Some(from)
    } else {
        option_place(name, from + 1)
    }
}

/// Returns whether two texts are the same.
fn same_text(left: &str, right: &str) -> (same: bool)
    ensures
        same == (left@ == right@),
{
    let one = String::from_str(left);
    let other = String::from_str(right);
    one == other
}

/// Returns a text with another behind it.
fn joined(first: &str, second: &str) -> (text: String)
    ensures
        text@ == first@ + second@,
{
    let mut text = String::from_str(first);
    text.append(second);
    text
}

/// Finds an option in the list of options.
fn find_option(name: &str) -> (place: Option<usize>)
    ensures
        match place {
            Some(index) => index < 12 && option_place(name@, 0) == Some(index as nat),
            None => option_place(name@, 0) is None,
        },
{
    let mut index: usize = 0;
    while index < OPTION_COUNT
        invariant
            index <= 12,
            option_place(name@, 0) == option_place(name@, index as nat),
        decreases 12 - index,
    {
        if same_text(option_name(index), name) {
            return Some(index);
        }
        index = index + 1;
    }
    None
}

/// What the program tells about its use.
pub open spec fn help_text() -> Seq<char> {
    "Usage: phonowire-capture --output DIRECTORY [options]\nOptions: --listen ADDR --max-connections N --queue-records N --payload-bytes N\n--turn-steps N --retained-bytes N --max-active-recordings N --max-recordings-per-run N\n--max-file-bytes N --max-recording-summary-bytes N --max-run-status-bytes N --help"@
}

/// Returns what the program tells about its use.
#[must_use]
pub fn help() -> (text: &'static str)
    ensures
        text@ == help_text(),
{
    "Usage: phonowire-capture --output DIRECTORY [options]\nOptions: --listen ADDR --max-connections N --queue-records N --payload-bytes N\n--turn-steps N --retained-bytes N --max-active-recordings N --max-recordings-per-run N\n--max-file-bytes N --max-recording-summary-bytes N --max-run-status-bytes N --help"
}

/// Whether a text begins with two dashes.
pub open spec fn begins_with_dashes(text: Seq<char>) -> bool {
    text.len() >= 2 && text[0] == '-' && text[1] == '-'
}

/// The values that arguments give to the options, from the argument at `index` on,
/// or the complaint about the first argument that is not in order.
pub open spec fn scan(arguments: Seq<Seq<char>>, index: nat, values: Seq<Option<Seq<char>>>) -> Result<
    Seq<Option<Seq<char>>>,
    Seq<char>,
>
    decreases arguments.len() - index,
{
    if index >= arguments.len() {
        Ok(values)
    } else {
        let option = arguments[index as int];
        match option_place(option, 0) {
            None => Err("unknown option: "@ + option),
            Some(place) => if index + 1 >= arguments.len() || begins_with_dashes(
                arguments[index as int + 1],
            ) {
                Err("missing value for "@ + option)
            } else if values[place as int] is Some {
                Err("duplicate option: "@ + option)
            } else {
                scan(
                    arguments,
                    index + 2,
                    values.update(place as int, Some(arguments[index as int + 1])),
                )
            },
        }
    }
}

/// No option has a value.
pub open spec fn no_values() -> Seq<Option<Seq<char>>> {
    Seq::new(12, |i: int| None)
}

/// The values that a command line gives to the options, or the complaint about it.
/// The first argument is the program's name.
pub open spec fn read_arguments(arguments: Seq<Seq<char>>) -> Result<
    Seq<Option<Seq<char>>>,
    Seq<char>,
> {
    if arguments.len() == 2 && arguments[1] == "--help"@ {
        Err(help_text())
    } else if arguments.contains("--help"@) {
        Err("--help cannot be combined with other options"@)
    } else {
        scan(arguments, 1, no_values())
    }
}

/// The texts of some strings.
pub open spec fn texts(strings: Seq<String>) -> Seq<Seq<char>> {
    strings.map_values(|text: String| text@)
}

/// The text of an optional string.
pub open spec fn optional_text(value: Option<String>) -> Option<Seq<char>> {
    match value {
        Some(text) => Some(text@),
        None => None,
    }
}

/// The output directory that the options name, if they do.
pub open spec fn output_in(values: Seq<Option<Seq<char>>>) -> Option<Seq<char>> {
    values[0]
}

/// The address that the options name, or the loopback port of the program.
pub open spec fn address_in(values: Seq<Option<Seq<char>>>) -> Seq<char> {
    match values[1] {
        Some(address) => address,
        None => "127.0.0.1:9092"@,
    }
}

/// The values that a command line gives to the options.
pub struct Options {
    values: Vec<Option<String>>,
}

impl View for Options {
    type V = Seq<Option<Seq<char>>>;

    closed spec fn view(&self) -> Seq<Option<Seq<char>>> {
        self.values@.map_values(|value: Option<String>| optional_text(value))
    }
}

impl Options {
    #[verifier::type_invariant]
    spec fn complete(self) -> bool {
        self.values@.len() == 12
    }

    /// Reads a command line, of which the first argument is the program's name.
    pub fn read(arguments: &[String]) -> (result: Result<Options, String>)
        ensures
            match result {
                Ok(options) => read_arguments(texts(arguments@)) == Ok::<_, Seq<char>>(options@),
                Err(complaint) => read_arguments(texts(arguments@)) == Err::<
                    Seq<Option<Seq<char>>>,
                    _,
                >(complaint@),
            },
    {
        let ghost given = texts(arguments@);
        assert(arguments@.len() == 2 ==> given[1] == arguments@[1]@);
        if arguments.len() == 2 && same_text(arguments[1].as_str(), "--help") {
            return Err(String::from_str(help()));
        }
        let mut index: usize = 0;
        while index < arguments.len()
            invariant
                index <= arguments@.len(),
                given == texts(arguments@),
                !(given.len() == 2 && given[1] == "--help"@),
                forall|k: int| 0 <= k < index ==> given[k] != "--help"@,
            decreases arguments@.len() - index,
        {
            assert(given[index as int] == arguments@[index as int]@);
            if same_text(arguments[index].as_str(), "--help") {
                assert(given.contains("--help"@));
                return Err(String::from_str("--help cannot be combined with other options"));
            }
            index = index + 1;
        }
        assert(!given.contains("--help"@));
        let mut values: Vec<Option<String>> = Vec::new();
        while values.len() < OPTION_COUNT
            invariant
                values@.len() <= 12,
                forall|k: int| 0 <= k < values@.len() ==> values@[k] is None,
            decreases 12 - values@.len(),
        {
            values.push(None);
        }
        let ghost mut view = values@.map_values(|value: Option<String>| optional_text(value));
        assert(view =~= no_values());
        index = 1;
        while index < arguments.len()
            invariant
                values@.len() == 12,
                given == texts(arguments@),
                view == values@.map_values(|value: Option<String>| optional_text(value)),
                scan(given, 1, no_values()) == scan(given, index as nat, view),
                read_arguments(given) == scan(given, 1, no_values()),
            decreases arguments@.len() - index,
        {
            let option: &str = arguments[index].as_str();
            assert(given[index as int] == option@);
            let place: usize = match find_option(option) {
                Some(place) => place,
                None => return Err(joined("unknown option: ", option)),
            };
            if arguments.len() - index < 2 {
                return Err(joined("missing value for ", option));
            }
            let value: &str = arguments[index + 1].as_str();
            assert(given[index + 1] == value@);
            if value.unicode_len() >= 2 && value.get_char(0) == '-' && value.get_char(1) == '-' {
                return Err(joined("missing value for ", option));
            }
            assert(view[place as int] == optional_text(values@[place as int]));
            if values[place].is_some() {
                return Err(joined("duplicate option: ", option));
            }
            values[place] = Some(String::from_str(value));
            proof {
                let after = values@.map_values(|value: Option<String>| optional_text(value));
                assert(after =~= view.update(place as int, Some(value@)));
                view = after;
            }
            if arguments.len() - index == 2 {
                assert(scan(given, (index + 2) as nat, view) == Ok::<_, Seq<char>>(view));
                return Ok(Options { values });
            }
            index = index + 2;
        }
        Ok(Options { values })
    }

    /// Returns the output directory that the command line names.
    pub fn output(&self) -> (result: Result<String, String>)
        ensures
            match result {
                Ok(output) => output_in(self@) == Some(output@),
                Err(complaint) => output_in(self@) is None && complaint@
                    == "--output is required"@,
            },
    {
        proof {
            use_type_invariant(self);
            assert(self@[0] == optional_text(self.values@[0]));
        }
        match &self.values[0] {
            Some(output) => Ok(output.clone()),
            None => Err(String::from_str("--output is required")),
        }
    }

    /// Returns the address to listen on: the one that the command line names, or the
    /// loopback port of the program.
    #[must_use]
    pub fn listen(&self) -> (address: String)
        ensures
            address@ == address_in(self@),
    {
        proof {
            use_type_invariant(self);
            assert(self@[1] == optional_text(self.values@[1]));
        }
        match &self.values[1] {
            Some(address) => address.clone(),
            None => String::from_str("127.0.0.1:9092"),
        }
    }
}

/// Whether a character is a decimal digit.
pub open spec fn is_digit(character: char) -> bool {
    '0' <= character && character <= '9'
}

/// The number that decimal digits write.
pub open spec fn decimal_value(digits: Seq<char>) -> nat
    decreases digits.len(),
{
    if digits.len() == 0 {
        0
    } else {
        decimal_value(digits.drop_last()) * 10 + (digits.last() as u32 - 48) as nat
    }
}

/// The digits of a number, behind its plus sign if it has one.
pub open spec fn unsigned_digits(text: Seq<char>) -> Seq<char> {
    if text.len() > 0 && text[0] == '+' {
        text.skip(1)
    } else {
        text
    }
}

/// The number that a text writes: an optional plus sign and one or more decimal
/// digits, as far as 64 bits hold it.
pub open spec fn number_in(text: Seq<char>) -> Option<u64> {
    let digits = unsigned_digits(text);
    if digits.len() > 0 && (forall|i: int| 0 <= i < digits.len() ==> is_digit(#[trigger] digits[i]))
        && decimal_value(digits) <= u64::MAX {
        Some(decimal_value(digits) as u64)
    } else {
        None
    }
}

proof fn lemma_prefix_is_smaller(digits: Seq<char>, length: int)
    requires
        0 <= length <= digits.len(),
    ensures
        decimal_value(digits.take(length)) <= decimal_value(digits),
    decreases digits.len() - length,
{
    if length == digits.len() {
        assert(digits.take(length) =~= digits);
    } else {
        lemma_prefix_is_smaller(digits, length + 1);
        assert(digits.take(length + 1).drop_last() =~= digits.take(length));
    }
}

/// Reads a number.
fn read_number(text: &str) -> (number: Option<u64>)
    ensures
        number == number_in(text@),
{
    let length: usize = text.unicode_len();
    let start: usize = if length > 0 && text.get_char(0) == '+' {
        1
    } else {
        0
    };
    let ghost digits = unsigned_digits(text@);
    assert(digits.len() == length - start);
    if length == start {
        return None;
    }
    let mut value: u64 = 0;
    let mut index: usize = start;
    while index < length
        invariant
            start <= index <= length,
            length == text@.len(),
            digits.len() == length - start,
            start == 0 ==> digits == text@,
            start == 1 ==> digits == text@.skip(1),
            start <= 1,
            digits == unsigned_digits(text@),
            value == decimal_value(digits.take(index - start)),
            forall|i: int| 0 <= i < index - start ==> is_digit(#[trigger] digits[i]),
        decreases length - index,
    {
        let character: char = text.get_char(index);
        assert(digits[index - start] == character);
        if character < '0' || character > '9' {
            assert(!is_digit(digits[index - start]));
            return None;
        }
        let digit: u64 = (character as u32 - 48) as u64;
        proof {
            let next = digits.take(index - start + 1);
            assert(next.drop_last() =~= digits.take(index - start));
            assert(next.last() == character);
            lemma_prefix_is_smaller(digits, index - start + 1);
        }
        value = match value.checked_mul(10) {
            Some(tens) => match tens.checked_add(digit) {
                Some(value) => value,
                None => return None,
            },
            None => return None,
        };
        index = index + 1;
    }
    assert(digits.take(index - start) =~= digits);
    Some(value)
}

/// The number that an option gives, or its default.
pub open spec fn number_or(values: Seq<Option<Seq<char>>>, place: nat, default: u64) -> Option<u64> {
    match values[place as int] {
        Some(text) => number_in(text),
        None => Some(default),
    }
}

/// The limits that a command line sets.
#[derive(Clone, Copy, Debug, PartialEq, Eq, Structural)]
pub struct Config {
    /// Simultaneous connections.
    pub connections: usize,
    /// Records waiting in the handoff queue.
    pub queue: usize,
    /// Payload bytes that a decoder can assemble.
    pub payload: u16,
    /// Steps in one turn of a task.
    pub turns: usize,
    /// Bytes that records can retain.
    pub retained: usize,
    /// Recordings that are open at once.
    pub active: usize,
    /// Recordings in the whole run.
    pub run: u64,
    /// Bytes in each data file.
    pub file: u64,
    /// Bytes in each recording summary.
    pub summary: u64,
    /// Bytes in the run status.
    pub status: u64,
}

/// Whether a number fits the type of the limit that an option sets.
pub open spec fn fits(place: nat, number: u64) -> bool {
    if place == 4 {
        number <= u16::MAX
    } else if place >= 8 {
        true
    } else {
        number <= usize::MAX
    }
}

/// Whether the option at a place gives a number that fits its limit.
pub open spec fn readable(values: Seq<Option<Seq<char>>>, place: nat) -> bool {
    number_or(values, place, option_default(place)) matches Some(number) && fits(place, number)
}

/// Whether the numbers of all limits can be read.
pub open spec fn all_readable(values: Seq<Option<Seq<char>>>) -> bool {
    forall|place: nat| 2 <= place < 12 ==> #[trigger] readable(values, place)
}

/// Whether this is the complaint about the first limit whose number cannot be read.
pub open spec fn first_unreadable(values: Seq<Option<Seq<char>>>, complaint: Seq<char>) -> bool {
    exists|place: nat|
        {
            &&& 2 <= place < 12
            &&& !#[trigger] readable(values, place)
            &&& forall|earlier: nat| 2 <= earlier < place ==> #[trigger] readable(values, earlier)
            &&& complaint == "invalid "@ + option_text(place)
        }
}

/// The default of the limit that an option sets.
pub open spec fn option_default(place: nat) -> u64 {
    if place == 2 {
        16
    } else if place == 3 {
        128
    } else if place == 4 {
        4096
    } else if place == 5 {
        64
    } else if place == 6 {
        1_048_576
    } else if place == 7 {
        16
    } else if place == 8 {
        64
    } else if place == 9 {
        67_108_864
    } else {
        4096
    }
}

/// The number that the option at a place sets.
pub open spec fn limit_at(values: Seq<Option<Seq<char>>>, place: nat) -> u64 {
    number_or(values, place, option_default(place))->0
}

/// The limits that the options set, once all of them are readable.
pub open spec fn limits_in(values: Seq<Option<Seq<char>>>) -> Config {
    Config {
        connections: limit_at(values, 2) as usize,
        queue: limit_at(values, 3) as usize,
        payload: limit_at(values, 4) as u16,
        turns: limit_at(values, 5) as usize,
        retained: limit_at(values, 6) as usize,
        active: limit_at(values, 7) as usize,
        run: limit_at(values, 8),
        file: limit_at(values, 9),
        summary: limit_at(values, 10),
        status: limit_at(values, 11),
    }
}

impl Options {
    /// Returns the number that the option at a place sets, or the complaint about it.
    fn number(&self, place: usize, default: u64) -> (result: Result<u64, String>)
        requires
            place < 12,
            default == option_default(place as nat),
        ensures
            match result {
                Ok(number) => number_or(self@, place as nat, default) == Some(number),
                Err(complaint) => {
                    &&& number_or(self@, place as nat, default) is None
                    &&& complaint@ == "invalid "@ + option_text(place as nat)
                },
            },
    {
        proof {
            use_type_invariant(self);
            assert(self@[place as int] == optional_text(self.values@[place as int]));
        }
        match &self.values[place] {
            None => Ok(default),
            Some(text) => match read_number(text.as_str()) {
                Some(number) => Ok(number),
                None => Err(joined("invalid ", option_name(place))),
            },
        }
    }

    /// Returns the number that the option at a place sets, if it fits `usize`.
    fn size(&self, place: usize, default: u64) -> (result: Result<usize, String>)
        requires
            place < 12,
            place < 8 && place != 4,
            default == option_default(place as nat),
        ensures
            match result {
                Ok(number) => readable(self@, place as nat) && number == limit_at(
                    self@,
                    place as nat,
                ),
                Err(complaint) => {
                    &&& !readable(self@, place as nat)
                    &&& complaint@ == "invalid "@ + option_text(place as nat)
                },
            },
    {
        match self.number(place, default) {
            Err(complaint) => Err(complaint),
            Ok(number) => {
                if number > usize::MAX as u64 {
                    return Err(joined("invalid ", option_name(place)));
                }
                Ok(number as usize)
            },
        }
    }

    /// Returns the limits that the command line sets, or the complaint about the first
    /// option whose number cannot be read.
    pub fn limits(&self) -> (result: Result<Config, String>)
        ensures
            match result {
                Ok(config) => all_readable(self@) && config == limits_in(self@),
                Err(complaint) => first_unreadable(self@, complaint@),
            },
    {
        let connections: usize = match self.size(2, 16) {
            Ok(number) => number,
            Err(complaint) => {
                assert(!readable(self@, 2));
                return Err(complaint);
            },
        };
        assert(readable(self@, 2));
        let queue: usize = match self.size(3, 128) {
            Ok(number) => number,
            Err(complaint) => {
                assert(!readable(self@, 3));
                return Err(complaint);
            },
        };
        assert(readable(self@, 3));
        let wide: u64 = match self.number(4, 4096) {
            Ok(number) => number,
            Err(complaint) => {
                assert(!readable(self@, 4));
                return Err(complaint);
            },
        };
        if wide > 65_535 {
            assert(!readable(self@, 4));
            return Err(joined("invalid ", option_name(4)));
        }
        assert(readable(self@, 4));
        let payload: u16 = wide as u16;
        let turns: usize = match self.size(5, 64) {
            Ok(number) => number,
            Err(complaint) => {
                assert(!readable(self@, 5));
                return Err(complaint);
            },
        };
        assert(readable(self@, 5));
        let retained: usize = match self.size(6, 1_048_576) {
            Ok(number) => number,
            Err(complaint) => {
                assert(!readable(self@, 6));
                return Err(complaint);
            },
        };
        assert(readable(self@, 6));
        let active: usize = match self.size(7, 16) {
            Ok(number) => number,
            Err(complaint) => {
                assert(!readable(self@, 7));
                return Err(complaint);
            },
        };
        assert(readable(self@, 7));
        let run: u64 = match self.number(8, 64) {
            Ok(number) => number,
            Err(complaint) => {
                assert(!readable(self@, 8));
                return Err(complaint);
            },
        };
        assert(readable(self@, 8));
        let file: u64 = match self.number(9, 67_108_864) {
            Ok(number) => number,
            Err(complaint) => {
                assert(!readable(self@, 9));
                return Err(complaint);
            },
        };
        assert(readable(self@, 9));
        let summary: u64 = match self.number(10, 4096) {
            Ok(number) => number,
            Err(complaint) => {
                assert(!readable(self@, 10));
                return Err(complaint);
            },
        };
        assert(readable(self@, 10));
        let status: u64 = match self.number(11, 4096) {
            Ok(number) => number,
            Err(complaint) => {
                assert(!readable(self@, 11));
                return Err(complaint);
            },
        };
        assert(readable(self@, 11));
        Ok(
            Config {
                connections,
                queue,
                payload,
                turns,
                retained,
                active,
                run,
                file,
                summary,
                status,
            },
        )
    }
}

/// The most bytes that a run can write: three data files and a summary for each
/// recording, and one run status.
pub open spec fn output_bound(recordings: u64, file: u64, summary: u64, status: u64) -> int {
    recordings * (3 * file + summary) + status
}

/// Computes the most bytes that a run can write, as far as 64 bits hold that and the
/// share of each recording.
pub fn checked_output_bound(
    recordings: u64,
    file_bytes: u64,
    summary_bytes: u64,
    status_bytes: u64,
) -> (result: Result<u64, String>)
    ensures
        match result {
            Ok(bound) => {
                &&& bound == output_bound(recordings, file_bytes, summary_bytes, status_bytes)
                &&& 3 * file_bytes + summary_bytes <= u64::MAX
            },
            Err(complaint) => {
                &&& complaint@ == "output limit overflow"@
                &&& 3 * file_bytes + summary_bytes > u64::MAX || output_bound(
                    recordings,
                    file_bytes,
                    summary_bytes,
                    status_bytes,
                ) > u64::MAX
            },
        },
{
    let share: u64 = match file_bytes.checked_mul(3) {
        None => return Err(String::from_str("output limit overflow")),
        Some(files) => match files.checked_add(summary_bytes) {
            None => return Err(String::from_str("output limit overflow")),
            Some(share) => share,
        },
    };
    match recordings.checked_mul(share) {
        None => Err(String::from_str("output limit overflow")),
        Some(all) => match all.checked_add(status_bytes) {
            None => Err(String::from_str("output limit overflow")),
            Some(bound) => Ok(bound),
        },
    }
}

/// What is wrong with the limits of a run, if anything is.
pub open spec fn config_complaint(config: Config) -> Option<Seq<char>> {
    if config.file < 44 || config.summary == 0 || config.status == 0 {
        Some("infeasible output limits"@)
    } else if config.active == 0 || config.active > config.connections {
        Some(
            "max active recordings must be positive and no greater than max connections"@,
        )
    } else if config.connections == 0 || config.queue == 0 || config.payload == 0 || config.turns
        == 0 || config.retained == 0 || config.run == 0 {
        Some("receiver and recording limits must be positive"@)
    } else if 3 * config.file + config.summary > u64::MAX || output_bound(
        config.run,
        config.file,
        config.summary,
        config.status,
    ) > u64::MAX {
        Some("output limit overflow"@)
    } else {
        None
    }
}

impl Config {
    /// Checks the limits of a run.
    pub fn validate(&self) -> (result: Result<(), String>)
        ensures
            match result {
                Ok(()) => config_complaint(*self) is None,
                Err(complaint) => config_complaint(*self) == Some(complaint@),
            },
    {
        if self.file < WAVE_HEADER_BYTES as u64 || self.summary == 0 || self.status == 0 {
            return Err(String::from_str("infeasible output limits"));
        }
        if self.active == 0 || self.active > self.connections {
            return Err(
                String::from_str(
                    "max active recordings must be positive and no greater than max connections",
                ),
            );
        }
        if self.connections == 0 || self.queue == 0 || self.payload == 0 || self.turns == 0
            || self.retained == 0 || self.run == 0 {
            return Err(String::from_str("receiver and recording limits must be positive"));
        }
        match checked_output_bound(self.run, self.file, self.summary, self.status) {
            Ok(_) => Ok(()),
            Err(complaint) => Err(complaint),
        }
    }
}

/// What the options of a run come to, or the first complaint about them.
pub open spec fn settled(
    values: Seq<Option<Seq<char>>>,
    address: bool,
    directory: bool,
    result: Result<(String, Config), String>,
) -> bool {
    match result {
        Ok((output, config)) => {
            &&& output_in(values) == Some(output@)
            &&& address
            &&& all_readable(values)
            &&& config == limits_in(values)
            &&& directory
            &&& config_complaint(config) is None
        },
        Err(complaint) => if output_in(values) is None {
            complaint@ == "--output is required"@
        } else if !address {
            complaint@ == "invalid --listen"@
        } else if !all_readable(values) {
            first_unreadable(values, complaint@)
        } else if !directory {
            complaint@ == "--output must be an existing directory"@
        } else {
            config_complaint(limits_in(values)) == Some(complaint@)
        },
    }
}

impl Options {
    /// Returns the output directory and the limits of a run, or the first complaint:
    /// about a missing directory option, an address that cannot be read, a number that
    /// cannot, a directory that is not there, and limits that do not go together.
    pub fn settle(&self, address: bool, directory: bool) -> (result: Result<(String, Config), String>)
        ensures
            settled(self@, address, directory, result),
    {
        let output = match self.output() {
            Ok(output) => output,
            Err(complaint) => return Err(complaint),
        };
        if !address {
            return Err(String::from_str("invalid --listen"));
        }
        let config = match self.limits() {
            Ok(config) => config,
            Err(complaint) => return Err(complaint),
        };
        if !directory {
            return Err(String::from_str("--output must be an existing directory"));
        }
        match config.validate() {
            Ok(()) => Ok((output, config)),
            Err(complaint) => Err(complaint),
        }
    }
}

/// The capacities that the limits of a run ask of its receiver.
pub open spec fn capacities_of(config: Config) -> Capacities {
    Capacities {
        connections: config.connections as nat,
        queue_slots: config.queue as nat,
        payload: config.payload as nat,
        turn_steps: config.turns as nat,
    }
}

/// The complaint about limits that a receiver cannot have, if there is one.
pub open spec fn receiver_complaint(config: Config) -> Option<Seq<char>> {
    if config.connections == 0 {
        Some("max connections is zero"@)
    } else if config.queue == 0 {
        Some("queue is zero"@)
    } else if config.payload == 0 {
        Some("payload is zero"@)
    } else if config.turns == 0 {
        Some("turn steps is zero"@)
    } else if config.payload < 16 {
        Some("payload capacity is below 16 UUID bytes"@)
    } else if capacities_of(config).fixed_buffers() > usize::MAX {
        Some("fixed buffer capacity exceeds usize"@)
    } else if config.retained == 0 {
        Some("retained bytes is zero"@)
    } else {
        None
    }
}

impl Config {
    /// Returns the receiver limits of a run whose byte budget can be made.
    pub fn receiver_limits(&self) -> (result: Result<Limits, String>)
        ensures
            match result {
                Ok(limits) => {
                    &&& receiver_complaint(*self) is None
                    &&& limits@ == capacities_of(*self)
                },
                Err(complaint) => receiver_complaint(*self) == Some(complaint@),
            },
    {
        if self.connections == 0 {
            return Err(String::from_str("max connections is zero"));
        }
        if self.queue == 0 {
            return Err(String::from_str("queue is zero"));
        }
        if self.payload == 0 {
            return Err(String::from_str("payload is zero"));
        }
        if self.turns == 0 {
            return Err(String::from_str("turn steps is zero"));
        }
        match Limits::new(self.connections, self.queue, self.payload, self.turns) {
            Err(error) => Err(String::from_str(error.message())),
            Ok(limits) => {
                if self.retained == 0 {
                    return Err(String::from_str("retained bytes is zero"));
                }
                Ok(limits)
            },
        }
    }
}

/// Whether a write at a position stays within the cap of a file.
pub open spec fn has_room(position: u64, length: usize, cap: u64) -> bool {
    position + length <= cap
}

/// Returns whether a write at a position stays within the cap of a file. Replacing
/// bytes that are there is no extension.
#[must_use]
pub fn within_cap(position: u64, length: usize, cap: u64) -> (within: bool)
    ensures
        within == has_room(position, length, cap),
{
    match position.checked_add(length as u64) {
        Some(end) => end <= cap,
        None => false,
    }
}

proof fn lemma_options_differ(one: nat, other: nat)
    requires
        one < other < 12,
    ensures
        option_text(one) != option_text(other),
{
    reveal_strlit("--output");
    reveal_strlit("--listen");
    reveal_strlit("--max-connections");
    reveal_strlit("--queue-records");
    reveal_strlit("--payload-bytes");
    reveal_strlit("--turn-steps");
    reveal_strlit("--retained-bytes");
    reveal_strlit("--max-active-recordings");
    reveal_strlit("--max-recordings-per-run");
    reveal_strlit("--max-file-bytes");
    reveal_strlit("--max-recording-summary-bytes");
    reveal_strlit("--max-run-status-bytes");
    assert(option_text(one).len() != option_text(other).len() || option_text(one)[2] != option_text(
        other,
    )[2]);
}

proof fn lemma_option_is_found(place: nat, from: nat)
    requires
        from <= place < 12,
    ensures
        option_place(option_text(place), from) == Some(place),
    decreases place - from,
{
    if from < place {
        lemma_options_differ(from, place);
        lemma_option_is_found(place, from + 1);
    }
}

proof fn lemma_found_options(name: Seq<char>, from: nat)
    ensures
        option_place(name, from) matches Some(place) ==> from <= place < 12 && option_text(place)
            == name,
    decreases 12 - from,
{
    if from < 12 && option_text(from) != name {
        lemma_found_options(name, from + 1);
    }
}

/// An option that has a value keeps it.
proof fn lemma_scan_keeps(
    arguments: Seq<Seq<char>>,
    index: nat,
    values: Seq<Option<Seq<char>>>,
    place: nat,
)
    requires
        values.len() == 12,
        place < 12,
        scan(arguments, index, values) is Ok,
        values[place as int] is Some || (forall|k: int|
            index <= k < arguments.len() ==> #[trigger] arguments[k] != option_text(place)),
    ensures
        scan(arguments, index, values)->Ok_0.len() == 12,
        scan(arguments, index, values)->Ok_0[place as int] == values[place as int],
    decreases arguments.len() - index,
{
    if index < arguments.len() {
        let option = arguments[index as int];
        lemma_found_options(option, 0);
        if let Some(found) = option_place(option, 0) {
            let next = values.update(found as int, Some(arguments[index as int + 1]));
            lemma_scan_keeps(arguments, index + 2, next, place);
        }
    }
}

/// An option gets the argument behind it.
proof fn lemma_scan_takes(
    arguments: Seq<Seq<char>>,
    index: nat,
    values: Seq<Option<Seq<char>>>,
    at: int,
)
    requires
        values.len() == 12,
        scan(arguments, index, values) is Ok,
        index <= at < arguments.len(),
        (at - index) % 2 == 0,
    ensures
        at + 1 < arguments.len(),
        scan(arguments, index, values)->Ok_0.len() == 12,
        option_place(arguments[at], 0) matches Some(place) && scan(
            arguments,
            index,
            values,
        )->Ok_0[place as int] == Some(arguments[at + 1]),
        !begins_with_dashes(arguments[at + 1]),
    decreases arguments.len() - index,
{
    let option = arguments[index as int];
    lemma_found_options(option, 0);
    if let Some(found) = option_place(option, 0) {
        let next = values.update(found as int, Some(arguments[index as int + 1]));
        if at == index {
            lemma_scan_keeps(arguments, index + 2, next, found);
        } else {
            lemma_scan_takes(arguments, index + 2, next, at);
        }
    }
}

/// Each option sets what it is named for: the argument behind the name of a limit is the
/// number of that limit, whatever stands elsewhere on the command line, and those behind
/// the two other names are the output directory and the address.
pub proof fn law_options_set_what_they_name(
    arguments: Seq<Seq<char>>,
    values: Seq<Option<Seq<char>>>,
    at: int,
)
    requires
        read_arguments(arguments) == Ok::<_, Seq<char>>(values),
        all_readable(values),
        1 <= at < arguments.len(),
        at % 2 == 1,
    ensures
        at + 1 < arguments.len(),
        ({
            let name = arguments[at];
            let value = arguments[at + 1];
            let number = number_in(value);
            let config = limits_in(values);
            &&& name == "--output"@ ==> output_in(values) == Some(value)
            &&& name == "--listen"@ ==> address_in(values) == value
            &&& name == "--max-connections"@ ==> number == Some(config.connections as u64)
            &&& name == "--queue-records"@ ==> number == Some(config.queue as u64)
            &&& name == "--payload-bytes"@ ==> number == Some(config.payload as u64)
            &&& name == "--turn-steps"@ ==> number == Some(config.turns as u64)
            &&& name == "--retained-bytes"@ ==> number == Some(config.retained as u64)
            &&& name == "--max-active-recordings"@ ==> number == Some(config.active as u64)
            &&& name == "--max-recordings-per-run"@ ==> number == Some(config.run)
            &&& name == "--max-file-bytes"@ ==> number == Some(config.file)
            &&& name == "--max-recording-summary-bytes"@ ==> number == Some(config.summary)
            &&& name == "--max-run-status-bytes"@ ==> number == Some(config.status)
        }),
{
    lemma_scan_takes(arguments, 1, no_values(), at);
    lemma_found_options(arguments[at], 0);
    let place = option_place(arguments[at], 0)->0;
    assert(readable(values, 2));
    assert(readable(values, 3));
    assert(readable(values, 4));
    assert(readable(values, 5));
    assert(readable(values, 6));
    assert(readable(values, 7));
    assert(readable(values, 8));
    assert(readable(values, 9));
    assert(readable(values, 10));
    assert(readable(values, 11));
    assert forall|k: nat| k < 12 && option_text(k) == arguments[at] implies k == place by {
        lemma_option_is_found(k, 0);
    }
    assert(option_text(0) == "--output"@);
    assert(option_text(1) == "--listen"@);
    assert(option_text(2) == "--max-connections"@);
    assert(option_text(3) == "--queue-records"@);
    assert(option_text(4) == "--payload-bytes"@);
    assert(option_text(5) == "--turn-steps"@);
    assert(option_text(6) == "--retained-bytes"@);
    assert(option_text(7) == "--max-active-recordings"@);
    assert(option_text(8) == "--max-recordings-per-run"@);
    assert(option_text(9) == "--max-file-bytes"@);
    assert(option_text(10) == "--max-recording-summary-bytes"@);
    assert(option_text(11) == "--max-run-status-bytes"@);
}

/// A limit whose option does not stand on the command line has its default, whatever
/// the others are.
pub proof fn law_absent_options_leave_their_defaults(
    arguments: Seq<Seq<char>>,
    values: Seq<Option<Seq<char>>>,
)
    requires
        read_arguments(arguments) == Ok::<_, Seq<char>>(values),
        all_readable(values),
    ensures
        ({
            let config = limits_in(values);
            &&& !arguments.contains("--output"@) ==> output_in(values) is None
            &&& !arguments.contains("--listen"@) ==> address_in(values) == "127.0.0.1:9092"@
            &&& !arguments.contains("--max-connections"@) ==> config.connections == 16
            &&& !arguments.contains("--queue-records"@) ==> config.queue == 128
            &&& !arguments.contains("--payload-bytes"@) ==> config.payload == 4096
            &&& !arguments.contains("--turn-steps"@) ==> config.turns == 64
            &&& !arguments.contains("--retained-bytes"@) ==> config.retained == 1024 * 1024
            &&& !arguments.contains("--max-active-recordings"@) ==> config.active == 16
            &&& !arguments.contains("--max-recordings-per-run"@) ==> config.run == 64
            &&& !arguments.contains("--max-file-bytes"@) ==> config.file == 64 * 1024 * 1024
            &&& !arguments.contains("--max-recording-summary-bytes"@) ==> config.summary == 4096
            &&& !arguments.contains("--max-run-status-bytes"@) ==> config.status == 4096
        }),
{
    assert forall|place: nat| #![trigger values[place as int]]
        place < 12 && !arguments.contains(option_text(place)) implies values[place as int] is None by {
        assert forall|k: int| 1 <= k < arguments.len() implies #[trigger] arguments[k]
            != option_text(place) by {
            assert(arguments.contains(arguments[k]));
        }
        lemma_scan_keeps(arguments, 1, no_values(), place);
    }
    assert(values[0] is Some || values[0] is None);
    assert(values[1] is Some || values[1] is None);
    assert(values[2] is Some || values[2] is None);
    assert(values[3] is Some || values[3] is None);
    assert(values[4] is Some || values[4] is None);
    assert(values[5] is Some || values[5] is None);
    assert(values[6] is Some || values[6] is None);
    assert(values[7] is Some || values[7] is None);
    assert(values[8] is Some || values[8] is None);
    assert(values[9] is Some || values[9] is None);
    assert(values[10] is Some || values[10] is None);
    assert(values[11] is Some || values[11] is None);
    lemma_defaults_are_used(values);
    assert(option_text(0) == "--output"@);
    assert(option_text(1) == "--listen"@);
    assert(option_text(2) == "--max-connections"@);
    assert(option_text(3) == "--queue-records"@);
    assert(option_text(4) == "--payload-bytes"@);
    assert(option_text(5) == "--turn-steps"@);
    assert(option_text(6) == "--retained-bytes"@);
    assert(option_text(7) == "--max-active-recordings"@);
    assert(option_text(8) == "--max-recordings-per-run"@);
    assert(option_text(9) == "--max-file-bytes"@);
    assert(option_text(10) == "--max-recording-summary-bytes"@);
    assert(option_text(11) == "--max-run-status-bytes"@);
}

proof fn lemma_defaults_are_used(values: Seq<Option<Seq<char>>>)
    ensures
        values[2] is None ==> limits_in(values).connections == 16,
        values[3] is None ==> limits_in(values).queue == 128,
        values[4] is None ==> limits_in(values).payload == 4096,
        values[5] is None ==> limits_in(values).turns == 64,
        values[6] is None ==> limits_in(values).retained == 1_048_576,
        values[7] is None ==> limits_in(values).active == 16,
        values[8] is None ==> limits_in(values).run == 64,
        values[9] is None ==> limits_in(values).file == 67_108_864,
        values[10] is None ==> limits_in(values).summary == 4096,
        values[11] is None ==> limits_in(values).status == 4096,
{
}

/// Changing the value of one option changes no limit but its own.
pub proof fn law_options_are_independent(
    values: Seq<Option<Seq<char>>>,
    place: int,
    value: Option<Seq<char>>,
)
    requires
        values.len() == 12,
        0 <= place < 12,
    ensures
        ({
            let one = limits_in(values);
            let other = limits_in(values.update(place, value));
            &&& place != 2 ==> one.connections == other.connections
            &&& place != 3 ==> one.queue == other.queue
            &&& place != 4 ==> one.payload == other.payload
            &&& place != 5 ==> one.turns == other.turns
            &&& place != 6 ==> one.retained == other.retained
            &&& place != 7 ==> one.active == other.active
            &&& place != 8 ==> one.run == other.run
            &&& place != 9 ==> one.file == other.file
            &&& place != 10 ==> one.summary == other.summary
            &&& place != 11 ==> one.status == other.status
        }),
{
}

/// The command line of options with their values is read if every other argument is the
/// name of an option, none stands twice, and no value looks like an option.
pub proof fn law_orderly_command_lines_are_read(arguments: Seq<Seq<char>>)
    requires
        arguments.len() % 2 == 1,
        !arguments.contains("--help"@),
        forall|at: int|
            1 <= at < arguments.len() && at % 2 == 1 ==> option_place(#[trigger] arguments[at], 0)
                is Some,
        forall|at: int|
            1 <= at < arguments.len() && at % 2 == 0 ==> !((#[trigger] arguments[at]).len() >= 2
                && arguments[at][0] == '-' && arguments[at][1] == '-'),
        forall|i: int, j: int|
            1 <= i < j < arguments.len() && i % 2 == 1 && j % 2 == 1 ==> #[trigger] arguments[i]
                != #[trigger] arguments[j],
    ensures
        read_arguments(arguments) is Ok,
{
    assert forall|place: nat| #![trigger no_values()[place as int]] place < 12
        && no_values()[place as int] is Some implies exists|k: int|
        1 <= k < 1 && k % 2 == 1 && #[trigger] arguments[k] == option_text(place) by {}
    lemma_orderly_scan(arguments, 1, no_values());
}

proof fn lemma_orderly_scan(
    arguments: Seq<Seq<char>>,
    index: nat,
    values: Seq<Option<Seq<char>>>,
)
    requires
        index % 2 == 1,
        1 <= index <= arguments.len(),
        arguments.len() % 2 == 1,
        values.len() == 12,
        forall|at: int|
            1 <= at < arguments.len() && at % 2 == 1 ==> option_place(#[trigger] arguments[at], 0)
                is Some,
        forall|at: int|
            1 <= at < arguments.len() && at % 2 == 0 ==> !begins_with_dashes(
                #[trigger] arguments[at],
            ),
        forall|i: int, j: int|
            1 <= i < j < arguments.len() && i % 2 == 1 && j % 2 == 1 ==> #[trigger] arguments[i]
                != #[trigger] arguments[j],
        forall|place: nat|
            #![trigger values[place as int]]
            place < 12 && values[place as int] is Some ==> exists|k: int|
                1 <= k < index && k % 2 == 1 && #[trigger] arguments[k] == option_text(place),
    ensures
        scan(arguments, index, values) is Ok,
    decreases arguments.len() - index,
{
    if index < arguments.len() {
        let option = arguments[index as int];
        assert(option_place(option, 0) is Some);
        lemma_found_options(option, 0);
        let found = option_place(option, 0)->0;
        let value = arguments[index as int + 1];
        let next = values.update(found as int, Some(value));
        assert(values[found as int] is None);
        assert forall|place: nat|
            #![trigger next[place as int]]
            place < 12 && next[place as int] is Some implies exists|k: int|
            1 <= k < index + 2 && k % 2 == 1 && #[trigger] arguments[k] == option_text(place) by {
            if place == found {
                assert(arguments[index as int] == option_text(place));
            } else {
                assert(values[place as int] is Some);
                let k = choose|k: int|
                    1 <= k < index && k % 2 == 1 && #[trigger] arguments[k] == option_text(place);
                assert(arguments[k] == option_text(place));
            }
        }
        lemma_orderly_scan(arguments, index + 2, next);
    }
}

proof fn lemma_decimal_digits(value: nat)
    ensures
        crate::text::decimal(value).len() > 0,
        forall|i: int|
            0 <= i < crate::text::decimal(value).len() ==> is_digit(
                #[trigger] crate::text::decimal(value)[i],
            ),
        decimal_value(crate::text::decimal(value)) == value,
    decreases value,
{
    let text = crate::text::decimal(value);
    if value < 10 {
        assert(text.drop_last() =~= Seq::<char>::empty());
        assert(decimal_value(Seq::<char>::empty()) == 0);
        assert(text.last() == crate::text::digit(value));
    } else {
        lemma_decimal_digits(value / 10);
        assert(text.drop_last() =~= crate::text::decimal(value / 10));
        assert(text.last() == crate::text::digit(value % 10));
    }
}

/// A number that is written in decimal is read back, with and without a plus sign. This
/// holds of what the program tells in its reports as of what it is told.
pub proof fn law_written_numbers_are_read_back(value: u64)
    ensures
        number_in(crate::text::decimal(value as nat)) == Some(value),
        number_in(seq!['+'] + crate::text::decimal(value as nat)) == Some(value),
{
    let text = crate::text::decimal(value as nat);
    lemma_decimal_digits(value as nat);
    assert(is_digit(text[0]));
    assert(unsigned_digits(text) == text);
    assert((seq!['+'] + text).skip(1) =~= text);
}

/// Numbers are read digit by digit: a further digit makes ten times the number and the
/// digit. Nothing but digits, behind an optional plus sign, is a number.
pub proof fn law_numbers_are_read_by_their_digits(text: Seq<char>, further: char)
    ensures
        number_in(text) matches Some(number) ==> {
            &&& '0' <= further <= '9' && 10 * number + (further as u32 - '0' as u32) <= u64::MAX
                ==> number_in(text.push(further)) == Some(
                (10 * number + (further as u32 - '0' as u32)) as u64,
            )
            &&& forall|i: int|
                0 <= i < text.len() ==> '0' <= #[trigger] text[i] <= '9' || (i == 0 && text[i]
                    == '+')
            &&& text.len() > 0
        },
        !('0' <= further <= '9') && text.len() > 0 ==> number_in(text.push(further)) is None,
        '0' <= further <= '9' ==> number_in(seq![further]) == Some(
            (further as u32 - '0' as u32) as u64,
        ),
{
    let digits = unsigned_digits(text);
    let longer = text.push(further);
    let single = seq![further];
    assert(single.drop_last() =~= Seq::<char>::empty());
    assert(decimal_value(Seq::<char>::empty()) == 0);
    assert(single.last() == further);
    if text.len() > 0 {
        assert(longer[0] == text[0]);
        assert(unsigned_digits(longer) =~= digits.push(further));
        assert(digits.push(further).drop_last() =~= digits);
        assert(digits.push(further).last() == further);
        assert(digits.push(further)[digits.len() as int] == further);
    }
    if number_in(text) is Some {
        assert forall|i: int| 0 <= i < text.len() implies '0' <= #[trigger] text[i] <= '9' || (i
            == 0 && text[i] == '+') by {
            if text[0] == '+' && i > 0 {
                assert(digits[i - 1] == text[i]);
                assert(is_digit(digits[i - 1]));
            } else if text[0] != '+' {
                assert(is_digit(digits[i]));
            }
        }
        assert forall|i: int| 0 <= i < digits.push(further).len() && is_digit(
            further,
        ) implies is_digit(#[trigger] digits.push(further)[i]) by {
            if i < digits.len() {
                assert(is_digit(digits[i]));
            }
        }
    }
}

/// The most bytes that a run can write are those of its status and, for every recording,
/// of three data files and a summary.
pub proof fn law_each_recording_adds_its_share(recordings: u64, file: u64, summary: u64, status: u64)
    requires
        recordings < u64::MAX,
    ensures
        output_bound(0, file, summary, status) == status,
        output_bound((recordings + 1) as u64, file, summary, status) == output_bound(
            recordings,
            file,
            summary,
            status,
        ) + file + file + file + summary,
{
    let share = 3 * file + summary;
    assert((recordings + 1) * share == recordings * share + share) by (nonlinear_arith);
    assert(0 * share == 0) by (nonlinear_arith);
}

/// Limits go together exactly if a data file holds a WAVE header, there is room for the
/// summaries, every limit is positive, no more recordings are open than connections, and
/// all output of the run can be counted.
pub proof fn law_accepted_limits_go_together(config: Config)
    ensures
        config_complaint(config) is None <==> {
            &&& config.file >= 44
            &&& config.summary > 0
            &&& config.status > 0
            &&& 0 < config.active <= config.connections
            &&& config.queue > 0
            &&& config.payload > 0
            &&& config.turns > 0
            &&& config.retained > 0
            &&& config.run > 0
            &&& config.run * (3 * config.file + config.summary) + config.status <= u64::MAX
        },
{
    let share = 3 * config.file + config.summary;
    if config.run > 0 {
        assert(config.run * share >= share) by (nonlinear_arith)
            requires
                config.run >= 1,
                share >= 0,
        ;
    }
}

/// A receiver can have the limits of a run exactly if all of them are positive, a body
/// has room for an identity, and the buffers of all connections can be counted.
pub proof fn law_receivers_have_the_limits_that_they_can(config: Config)
    ensures
        receiver_complaint(config) is None <==> {
            &&& config.connections > 0
            &&& config.queue > 0
            &&& config.payload >= 16
            &&& config.turns > 0
            &&& config.retained > 0
            &&& config.connections * (4096 + config.payload) <= usize::MAX
        },
        capacities_of(config).fixed_buffers() == config.connections * (4096 + config.payload),
        config_complaint(config) is None && config.payload >= 16 && config.connections * (4096
            + config.payload) <= usize::MAX ==> receiver_complaint(config) is None,
{
}

/// A run is settled exactly if it has an output directory that is there, an address that
/// can be read, numbers that can be read, and limits that go together; and then with what
/// its options say.
pub proof fn law_runs_are_settled_by_their_options(
    values: Seq<Option<Seq<char>>>,
    address: bool,
    directory: bool,
    result: Result<(String, Config), String>,
)
    requires
        settled(values, address, directory, result),
    ensures
        result is Ok ==> output_in(values) is Some && address && directory && all_readable(values)
            && config_complaint(limits_in(values)) is None,
        result is Ok ==> (result->Ok_0).0@ == output_in(values)->0 && (result->Ok_0).1 == limits_in(
            values,
        ),
        output_in(values) is Some && address && directory && all_readable(values)
            && config_complaint(limits_in(values)) is None ==> result is Ok,
{
}

/// A file can be written up to its cap and not one byte further, wherever the write
/// begins, and whatever fits, a part of it fits too.
pub proof fn law_files_are_written_up_to_their_cap(
    position: u64,
    length: usize,
    less: usize,
    cap: u64,
)
    requires
        less <= length,
    ensures
        has_room(position, length, cap) ==> has_room(position, less, cap),
        position <= cap <==> has_room(position, 0, cap),
        has_room(position, length, cap) && length < usize::MAX ==> (has_room(
            position,
            (length + 1) as usize,
            cap,
        ) <==> position + length < cap),
        has_room(position, length, cap) ==> position + length - cap <= 0,
        length <= cap && position == cap - length ==> has_room(position, length, cap),
{
}

/// Whether a text holds a name at a place.
pub open spec fn names_at(text: Seq<char>, name: Seq<char>, at: int) -> bool {
    &&& 0 <= at
    &&& at + name.len() <= text.len()
    &&& text.subrange(at, at + name.len()) =~= name
}

/// What the program tells about its use names every option that it reads.
#[verifier::spinoff_prover]
#[verifier::rlimit(60)]
pub proof fn law_the_help_names_every_option(index: nat)
    requires
        index < 12,
    ensures
        exists|at: int| #[trigger] names_at(help_text(), option_text(index), at),
{
    reveal_strlit(
        "Usage: phonowire-capture --output DIRECTORY [options]\nOptions: --listen ADDR --max-connections N --queue-records N --payload-bytes N\n--turn-steps N --retained-bytes N --max-active-recordings N --max-recordings-per-run N\n--max-file-bytes N --max-recording-summary-bytes N --max-run-status-bytes N --help",
    );
    if index == 0 {
        reveal_strlit("--output");
        assert(names_at(help_text(), option_text(index), 25));
    } else if index == 1 {
        reveal_strlit("--listen");
        assert(names_at(help_text(), option_text(index), 63));
    } else if index == 2 {
        reveal_strlit("--max-connections");
        assert(names_at(help_text(), option_text(index), 77));
    } else if index == 3 {
        reveal_strlit("--queue-records");
        assert(names_at(help_text(), option_text(index), 97));
    } else if index == 4 {
        reveal_strlit("--payload-bytes");
        assert(names_at(help_text(), option_text(index), 115));
    } else if index == 5 {
        reveal_strlit("--turn-steps");
        assert(names_at(help_text(), option_text(index), 133));
    } else if index == 6 {
        reveal_strlit("--retained-bytes");
        assert(names_at(help_text(), option_text(index), 148));
    } else if index == 7 {
        reveal_strlit("--max-active-recordings");
        assert(names_at(help_text(), option_text(index), 167));
    } else if index == 8 {
        reveal_strlit("--max-recordings-per-run");
        assert(names_at(help_text(), option_text(index), 193));
    } else if index == 9 {
        reveal_strlit("--max-file-bytes");
        assert(names_at(help_text(), option_text(index), 220));
    } else if index == 10 {
        reveal_strlit("--max-recording-summary-bytes");
        assert(names_at(help_text(), option_text(index), 239));
    } else {
        reveal_strlit("--max-run-status-bytes");
        assert(names_at(help_text(), option_text(index), 271));
    }
}

} // verus!
