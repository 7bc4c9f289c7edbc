//! Plain-text renderings: numbers, names and diagnostic forms of library values.
use vstd::prelude::*;
use vstd::string::StringExecFns;

use crate::audio::SampleRate;
use crate::decoder::{DecodeError, FinishError};
use crate::error::TypedMessageError;
use crate::memory::BudgetError;
use crate::message::Uuid;
use crate::session::{IncomingSessionError, Rejection};

verus! {

/// The character of a hexadecimal digit.
pub open spec fn digit(value: nat) -> char {
    if value < 10 {
        ((48 + value) as u8) as char
    } else {
        ((87 + value) as u8) as char
    }
}

/// A number in decimal, without leading zeros.
pub open spec fn decimal(value: nat) -> Seq<char>
    decreases value,
{
    if value < 10 {
        seq![digit(value)]
    } else {
        decimal(value / 10).push(digit(value % 10))
    }
}

/// A number in lower-case hexadecimal, without leading zeros.
pub open spec fn hexadecimal(value: nat) -> Seq<char>
    decreases value,
{
    if value < 16 {
        seq![digit(value)]
    } else {
        hexadecimal(value / 16).push(digit(value % 16))
    }
}

/// A byte in two lower-case hexadecimal digits.
pub open spec fn hex_byte(value: u8) -> Seq<char> {
    seq![digit((value / 16) as nat), digit((value % 16) as nat)]
}

/// The decimal forms of some bytes, separated by a comma and a space.
pub open spec fn decimal_list(bytes: Seq<u8>) -> Seq<char>
    decreases bytes.len(),
{
    if bytes.len() == 0 {
        Seq::empty()
    } else if bytes.len() == 1 {
        decimal(bytes[0] as nat)
    } else {
        decimal_list(bytes.drop_last()) + ", "@ + decimal(bytes.last() as nat)
    }
}

/// The two-digit hexadecimal forms of some bytes, separated by a comma and a space.
pub open spec fn hex_list(bytes: Seq<u8>) -> Seq<char>
    decreases bytes.len(),
{
    if bytes.len() == 0 {
        Seq::empty()
    } else if bytes.len() == 1 {
        hex_byte(bytes[0])
    } else {
        hex_list(bytes.drop_last()) + ", "@ + hex_byte(bytes.last())
    }
}

/// The digit of a value below sixteen, as text.
fn digit_text(value: u8) -> (text: &'static str)
    requires
        value < 16,
    ensures
        text@ == seq![digit(value as nat)],
{
    proof {
        reveal_strlit("0");
        reveal_strlit("1");
        reveal_strlit("2");
        reveal_strlit("3");
        reveal_strlit("4");
        reveal_strlit("5");
        reveal_strlit("6");
        reveal_strlit("7");
        reveal_strlit("8");
        reveal_strlit("9");
        reveal_strlit("a");
        reveal_strlit("b");
        reveal_strlit("c");
        reveal_strlit("d");
        reveal_strlit("e");
        reveal_strlit("f");
    }
    let text = match value {
        0 => "0",
        1 => "1",
        2 => "2",
        3 => "3",
        4 => "4",
        5 => "5",
        6 => "6",
        7 => "7",
        8 => "8",
        9 => "9",
        10 => "a",
        11 => "b",
        12 => "c",
        13 => "d",
        14 => "e",
        _ => "f",
    };
    assert(text@ =~= seq![digit(value as nat)]);
    text
}

/// Appends a number in decimal.
pub fn push_decimal(out: &mut String, value: u64)
    ensures
        final(out)@ == old(out)@ + decimal(value as nat),
    decreases value,
{
    let ghost start = out@;
    if value >= 10 {
        push_decimal(out, value / 10);
    }
    out.append(digit_text((value % 10) as u8));
    assert(out@ =~= start + decimal(value as nat));
}

/// Appends a number in hexadecimal.
pub fn push_hexadecimal(out: &mut String, value: u64)
    ensures
        final(out)@ == old(out)@ + hexadecimal(value as nat),
    decreases value,
{
    let ghost start = out@;
    if value >= 16 {
        push_hexadecimal(out, value / 16);
    }
    out.append(digit_text((value % 16) as u8));
    assert(out@ =~= start + hexadecimal(value as nat));
}

/// Appends a byte in two hexadecimal digits.
pub fn push_hex_byte(out: &mut String, value: u8)
    ensures
        final(out)@ == old(out)@ + hex_byte(value),
{
    let ghost start = out@;
    out.append(digit_text(value / 16));
    out.append(digit_text(value % 16));
    assert(out@ =~= start + hex_byte(value));
}

/// Appends the decimal forms of some bytes, separated by a comma and a space.
pub fn push_decimal_list(out: &mut String, bytes: &[u8])
    ensures
        final(out)@ == old(out)@ + decimal_list(bytes@),
{
    let ghost start = out@;
    let mut i: usize = 0;
    assert(out@ =~= start + decimal_list(bytes@.subrange(0, 0)));
    while i < bytes.len()
        invariant
            i <= bytes@.len(),
            out@ == start + decimal_list(bytes@.subrange(0, i as int)),
        decreases bytes@.len() - i,
    {
        let ghost before = bytes@.subrange(0, i as int);
        let ghost after = bytes@.subrange(0, i + 1);
        if i > 0 {
            out.append(", ");
        }
        push_decimal(out, bytes[i] as u64);
        proof {
            assert(after.drop_last() =~= before);
            assert(after.last() == bytes@[i as int]);
            assert(out@ =~= start + decimal_list(after));
        }
        i = i + 1;
    }
    assert(bytes@.subrange(0, i as int) =~= bytes@);
}

/// Appends the hexadecimal forms of some bytes, separated by a comma and a space.
pub fn push_hex_list(out: &mut String, bytes: &[u8])
    ensures
        final(out)@ == old(out)@ + hex_list(bytes@),
{
    let ghost start = out@;
    let mut i: usize = 0;
    assert(out@ =~= start + hex_list(bytes@.subrange(0, 0)));
    while i < bytes.len()
        invariant
            i <= bytes@.len(),
            out@ == start + hex_list(bytes@.subrange(0, i as int)),
        decreases bytes@.len() - i,
    {
        let ghost before = bytes@.subrange(0, i as int);
        let ghost after = bytes@.subrange(0, i + 1);
        if i > 0 {
            out.append(", ");
        }
        push_hex_byte(out, bytes[i]);
        proof {
            assert(after.drop_last() =~= before);
            assert(after.last() == bytes@[i as int]);
            assert(out@ =~= start + hex_list(after));
        }
        i = i + 1;
    }
    assert(bytes@.subrange(0, i as int) =~= bytes@);
}

/// The diagnostic form of a UUID, for instance `Uuid([1, 2, ..])`.
pub open spec fn uuid_form(uuid: Seq<u8>) -> Seq<char> {
    "Uuid(["@ + decimal_list(uuid) + "])"@
}

/// The diagnostic form of an optional UUID.
pub open spec fn identity_form(identity: Option<Seq<u8>>) -> Seq<char> {
    match identity {
        None => "None"@,
        Some(uuid) => "Some("@ + uuid_form(uuid) + ")"@,
    }
}

/// Appends the diagnostic form of an optional UUID.
pub fn push_identity(out: &mut String, identity: Option<Uuid>)
    ensures
        final(out)@ == old(out)@ + identity_form(crate::session::identity_bytes(identity)),
{
    let ghost start = out@;
    match identity {
        None => {
            out.append("None");
        },
        Some(uuid) => {
            let bytes = uuid.bytes();
            out.append("Some(");
            out.append("Uuid([");
            push_decimal_list(out, &bytes);
            out.append("])");
            out.append(")");
            assert(out@ =~= start + ("Some("@ + uuid_form(uuid@) + ")"@));
        },
    }
}

/// The name of a sample rate.
pub open spec fn rate_name(rate: SampleRate) -> Seq<char> {
    match rate {
        SampleRate::Khz8 => "Khz8"@,
        SampleRate::Khz12 => "Khz12"@,
        SampleRate::Khz16 => "Khz16"@,
        SampleRate::Khz24 => "Khz24"@,
        SampleRate::Khz32 => "Khz32"@,
        SampleRate::Khz44_1 => "Khz44_1"@,
        SampleRate::Khz48 => "Khz48"@,
        SampleRate::Khz96 => "Khz96"@,
        SampleRate::Khz192 => "Khz192"@,
    }
}

/// Returns the name of a sample rate.
pub fn rate_text(rate: SampleRate) -> (text: &'static str)
    ensures
        text@ == rate_name(rate),
{
    match rate {
        SampleRate::Khz8 => "Khz8",
        SampleRate::Khz12 => "Khz12",
        SampleRate::Khz16 => "Khz16",
        SampleRate::Khz24 => "Khz24",
        SampleRate::Khz32 => "Khz32",
        SampleRate::Khz44_1 => "Khz44_1",
        SampleRate::Khz48 => "Khz48",
        SampleRate::Khz96 => "Khz96",
        SampleRate::Khz192 => "Khz192",
    }
}

/// The name of a typed-conversion failure.
pub open spec fn typed_error_name(error: TypedMessageError) -> Seq<char> {
    match error {
        TypedMessageError::TerminatePayload => "TerminatePayload"@,
        TypedMessageError::UuidLength => "UuidLength"@,
        TypedMessageError::DtmfLength => "DtmfLength"@,
        TypedMessageError::DtmfNotAscii => "DtmfNotAscii"@,
        TypedMessageError::OddPcmLength => "OddPcmLength"@,
        TypedMessageError::UnknownTypeClassification => "UnknownTypeClassification"@,
    }
}

/// Returns the name of a typed-conversion failure.
pub fn typed_error_text(error: TypedMessageError) -> (text: &'static str)
    ensures
        text@ == typed_error_name(error),
{
    match error {
        TypedMessageError::TerminatePayload => "TerminatePayload",
        TypedMessageError::UuidLength => "UuidLength",
        TypedMessageError::DtmfLength => "DtmfLength",
        TypedMessageError::DtmfNotAscii => "DtmfNotAscii",
        TypedMessageError::OddPcmLength => "OddPcmLength",
        TypedMessageError::UnknownTypeClassification => "UnknownTypeClassification",
    }
}

/// The diagnostic form of a value with two numeric fields.
pub open spec fn pair_form(
    name: Seq<char>,
    first: Seq<char>,
    a: usize,
    second: Seq<char>,
    b: usize,
) -> Seq<char> {
    name + " { "@ + first + ": "@ + decimal(a as nat) + ", "@ + second + ": "@ + decimal(b as nat)
        + " }"@
}

/// Appends the diagnostic form of a value with two numeric fields.
fn push_pair(out: &mut String, name: &str, first: &str, a: usize, second: &str, b: usize)
    ensures
        final(out)@ == old(out)@ + pair_form(name@, first@, a, second@, b),
{
    let ghost start = out@;
    out.append(name);
    out.append(" { ");
    out.append(first);
    out.append(": ");
    push_decimal(out, a as u64);
    out.append(", ");
    out.append(second);
    out.append(": ");
    push_decimal(out, b as u64);
    out.append(" }");
    assert(out@ =~= start + pair_form(name@, first@, a, second@, b));
}

/// The diagnostic form of a decoder error.
pub open spec fn decode_error_form(error: DecodeError) -> Seq<char> {
    match error {
        DecodeError::InvalidLength(inner) => "InvalidLength("@ + typed_error_name(inner) + ")"@,
        DecodeError::ResourceLimit { required, capacity } => pair_form(
            "ResourceLimit"@,
            "required"@,
            required,
            "capacity"@,
            capacity,
        ),
        DecodeError::InvalidContent(inner) => "InvalidContent("@ + typed_error_name(inner) + ")"@,
        DecodeError::Failed => "Failed"@,
    }
}

/// Appends the diagnostic form of a decoder error.
pub fn push_decode_error(out: &mut String, error: DecodeError)
    ensures
        final(out)@ == old(out)@ + decode_error_form(error),
{
    let ghost start = out@;
    match error {
        DecodeError::InvalidLength(inner) => {
            out.append("InvalidLength(");
            out.append(typed_error_text(inner));
            out.append(")");
        },
        DecodeError::ResourceLimit { required, capacity } => {
            push_pair(out, "ResourceLimit", "required", required, "capacity", capacity);
        },
        DecodeError::InvalidContent(inner) => {
            out.append("InvalidContent(");
            out.append(typed_error_text(inner));
            out.append(")");
        },
        DecodeError::Failed => {
            out.append("Failed");
        },
    }
    assert(out@ =~= start + decode_error_form(error));
}

/// The diagnostic form of a truncation.
pub open spec fn finish_error_form(error: FinishError) -> Seq<char> {
    match error {
        FinishError::TruncatedHeader { expected, received } => pair_form(
            "TruncatedHeader"@,
            "expected"@,
            expected,
            "received"@,
            received,
        ),
        FinishError::TruncatedPayload { expected, received } => pair_form(
            "TruncatedPayload"@,
            "expected"@,
            expected,
            "received"@,
            received,
        ),
        FinishError::Failed => "Failed"@,
    }
}

/// Appends the diagnostic form of a truncation.
pub fn push_finish_error(out: &mut String, error: FinishError)
    ensures
        final(out)@ == old(out)@ + finish_error_form(error),
{
    match error {
        FinishError::TruncatedHeader { expected, received } => {
            push_pair(out, "TruncatedHeader", "expected", expected, "received", received);
        },
        FinishError::TruncatedPayload { expected, received } => {
            push_pair(out, "TruncatedPayload", "expected", expected, "received", received);
        },
        FinishError::Failed => {
            out.append("Failed");
        },
    }
}

/// The diagnostic form of a budget refusal.
pub open spec fn budget_error_form(error: BudgetError) -> Seq<char> {
    match error {
        BudgetError::TooLarge { required, capacity } => pair_form(
            "TooLarge"@,
            "required"@,
            required,
            "capacity"@,
            capacity,
        ),
        BudgetError::Full { required, available } => pair_form(
            "Full"@,
            "required"@,
            required,
            "available"@,
            available,
        ),
    }
}

/// Appends the diagnostic form of a budget refusal.
pub fn push_budget_error(out: &mut String, error: BudgetError)
    ensures
        final(out)@ == old(out)@ + budget_error_form(error),
{
    match error {
        BudgetError::TooLarge { required, capacity } => {
            push_pair(out, "TooLarge", "required", required, "capacity", capacity);
        },
        BudgetError::Full { required, available } => {
            push_pair(out, "Full", "required", required, "available", available);
        },
    }
}

/// The diagnostic form of a policy rejection.
pub open spec fn rejection_form(rejection: Rejection) -> Seq<char> {
    match rejection {
        Rejection::MissingUuid => "MissingUuid"@,
        Rejection::DuplicateUuid => "DuplicateUuid"@,
        Rejection::UnsupportedRate(rate) => "UnsupportedRate("@ + rate_name(rate) + ")"@,
        Rejection::UnsupportedDigit(value) => "UnsupportedDigit(Dtmf("@ + decimal(value as nat)
            + "))"@,
        Rejection::UnsupportedType(value) => "UnsupportedType(UnknownWireType("@ + decimal(
            value as nat,
        ) + "))"@,
        Rejection::AfterEnd => "AfterEnd"@,
    }
}

/// Appends the diagnostic form of a policy rejection.
pub fn push_rejection(out: &mut String, error: IncomingSessionError)
    ensures
        final(out)@ == old(out)@ + rejection_form(error@),
{
    let ghost start = out@;
    match error {
        IncomingSessionError::MissingUuid => {
            out.append("MissingUuid");
        },
        IncomingSessionError::DuplicateUuid => {
            out.append("DuplicateUuid");
        },
        IncomingSessionError::UnsupportedRate(rate) => {
            out.append("UnsupportedRate(");
            out.append(rate_text(rate));
            out.append(")");
        },
        IncomingSessionError::UnsupportedDigit(digit) => {
            out.append("UnsupportedDigit(Dtmf(");
            push_decimal(out, digit.value() as u64);
            out.append("))");
        },
        IncomingSessionError::UnsupportedType(wire_type) => {
            out.append("UnsupportedType(UnknownWireType(");
            push_decimal(out, wire_type.value() as u64);
            out.append("))");
        },
        IncomingSessionError::AfterEnd => {
            out.append("AfterEnd");
        },
    }
    assert(out@ =~= start + rejection_form(error@));
}

/// The digits are those of lower-case hexadecimal, in order.
pub proof fn law_digits_are_hexadecimal(value: nat)
    requires
        value < 16,
    ensures
        digit(value) == "0123456789abcdef"@[value as int],
{
    reveal_strlit("0123456789abcdef");
}

/// The number that hexadecimal digits write.
pub open spec fn hexadecimal_value(digits: Seq<char>) -> nat
    decreases digits.len(),
{
    if digits.len() == 0 {
        0
    } else {
        let last = digits.last() as u32;
        hexadecimal_value(digits.drop_last()) * 16 + if last < 97 {
            (last - 48) as nat
        } else {
            (last - 87) as nat
        }
    }
}

/// A number that is written in hexadecimal can be read back, and a byte is always
/// written in two digits.
pub proof fn law_hexadecimal_reads_back(value: nat, byte: u8)
    ensures
        hexadecimal_value(hexadecimal(value)) == value,
        hex_byte(byte).len() == 2,
        hexadecimal_value(hex_byte(byte)) == byte,
    decreases value,
{
    let text = hexadecimal(value);
    let pair = hex_byte(byte);
    assert(pair.drop_last().drop_last() =~= Seq::<char>::empty());
    assert(pair.drop_last().last() == digit((byte / 16) as nat));
    assert(pair.last() == digit((byte % 16) as nat));
    assert(hexadecimal_value(Seq::<char>::empty()) == 0);
    assert(hexadecimal_value(pair.drop_last()) == byte / 16);
    if value < 16 {
        assert(text.drop_last() =~= Seq::<char>::empty());
        assert(text.last() == digit(value));
    } else {
        law_hexadecimal_reads_back(value / 16, byte);
        assert(text.drop_last() =~= hexadecimal(value / 16));
        assert(text.last() == digit(value % 16));
    }
}

/// The bytes of an identity stand in its list in order, each in two digits: with their
/// separators four characters apart.
pub proof fn law_listed_bytes_stand_in_order(bytes: Seq<u8>, index: int)
    requires
        0 <= index < bytes.len(),
    ensures
        hex_list(bytes).len() == 4 * bytes.len() - 2,
        hex_list(bytes)[4 * index] == digit((bytes[index] / 16) as nat),
        hex_list(bytes)[4 * index + 1] == digit((bytes[index] % 16) as nat),
    decreases bytes.len(),
{
    reveal_strlit(", ");
    if bytes.len() > 1 {
        let fewer = bytes.drop_last();
        if index < fewer.len() {
            law_listed_bytes_stand_in_order(fewer, index);
        } else {
            law_listed_bytes_stand_in_order(fewer, 0);
        }
    }
}

/// The numbers of a list stand in order, each whole and separated from the one before
/// it.
pub proof fn law_listed_numbers_stand_in_order(bytes: Seq<u8>, index: int)
    requires
        0 < index < bytes.len(),
    ensures
        decimal_list(bytes.take(index + 1)) == decimal_list(bytes.take(index)) + ", "@ + decimal(
            bytes[index] as nat,
        ),
        decimal_list(bytes.take(1)) == decimal(bytes[0] as nat),
        decimal_list(bytes.take(index + 1)).is_prefix_of(decimal_list(bytes)),
    decreases bytes.len() - index,
{
    assert(bytes.take(index + 1).drop_last() =~= bytes.take(index));
    assert(bytes.take(index + 1).last() == bytes[index]);
    if index + 1 < bytes.len() {
        law_listed_numbers_stand_in_order(bytes, index + 1);
        let shorter = decimal_list(bytes.take(index + 1));
        let longer = decimal_list(bytes.take(index + 2));
        assert(shorter.is_prefix_of(longer));
    } else {
        assert(bytes.take(index + 1) =~= bytes);
    }
}

/// A rejection of a rate, a key or a type tells which one it was.
pub proof fn law_rejections_tell_what_they_reject(rate: SampleRate, value: u8)
    ensures
        rejection_form(Rejection::UnsupportedRate(rate)) == "UnsupportedRate("@ + (rate_name(rate)
            + ")"@),
        rejection_form(Rejection::UnsupportedDigit(value)) == "UnsupportedDigit(Dtmf("@ + (decimal(
            value as nat,
        ) + "))"@),
        rejection_form(Rejection::UnsupportedType(value)) == "UnsupportedType(UnknownWireType("@ + (
        decimal(value as nat) + "))"@),
{
}

} // verus!
