//! One line of diagnostic text for each observation.
use vstd::prelude::*;
use vstd::string::StringExecFns;

use crate::options::{law_written_numbers_are_read_back, number_in};
use crate::record::{ConnectionId, Content, EndReason, Ending, Record, RecordKind};
use crate::text::{
    budget_error_form, decimal, decimal_list, decode_error_form, finish_error_form, hex_list, hexadecimal,
    identity_form, push_budget_error, push_decimal, push_decode_error, push_finish_error,
    push_hex_list, push_hexadecimal, push_identity, push_rejection, rate_name, rate_text,
    rejection_form, typed_error_name, typed_error_text,
};

verus! {

/// `String::push` of std: the character goes behind those that are there.
pub assume_specification[ String::push ](text: &mut String, character: char)
    ensures
        final(text)@ == old(text)@.push(character),
;

/// The quoted diagnostic form of an ASCII character.
pub open spec fn ascii_form(value: u8) -> Seq<char> {
    "'"@ + if value == 0 {
        "\\0"@
    } else if value == 9 {
        "\\t"@
    } else if value == 10 {
        "\\n"@
    } else if value == 13 {
        "\\r"@
    } else if value == 39 {
        "\\'"@
    } else if value == 92 {
        "\\\\"@
    } else if 32 <= value <= 126 {
        seq![value as char]
    } else {
        "\\u{"@ + hexadecimal(value as nat) + "}"@
    } + "'"@
}

/// Appends the quoted diagnostic form of an ASCII character.
fn push_ascii(out: &mut String, value: u8)
    ensures
        final(out)@ == old(out)@ + ascii_form(value),
{
    let ghost start = out@;
    out.append("'");
    match value {
        0 => out.append("\\0"),
        9 => out.append("\\t"),
        10 => out.append("\\n"),
        13 => out.append("\\r"),
        39 => out.append("\\'"),
        92 => out.append("\\\\"),
        32..=126 => out.push(value as char),
        _ => {
            out.append("\\u{");
            push_hexadecimal(out, value as u64);
            out.append("}");
        },
    }
    out.append("'");
    assert(out@ =~= start + ascii_form(value));
}

/// The diagnostic form of a terminal result; `transport` is that of the failure
/// of a socket operation.
pub open spec fn ending_form(ending: Ending, transport: Seq<char>) -> Seq<char> {
    match ending {
        Ending::CleanEof => "clean-eof"@,
        Ending::Terminate => "terminate"@,
        Ending::PeerError(bytes) => "peer-error bytes="@ + decimal(bytes.len()),
        Ending::InvalidMessage(error) => "invalid-message detail="@ + typed_error_name(error),
        Ending::Decode(error) => "decode detail="@ + decode_error_form(error),
        Ending::Truncated(error) => "truncated detail="@ + finish_error_form(error),
        Ending::Policy(rejection) => "policy detail="@ + rejection_form(rejection),
        Ending::Transport(_) => "transport detail="@ + transport,
        Ending::ResourceRefused(error) => "resource-refused detail="@ + budget_error_form(error),
        Ending::OffsetExhausted => "offset-exhausted"@,
    }
}

/// The diagnostic form of an observation's content. Payloads are told by their
/// length only.
pub open spec fn content_form(content: Content, transport: Seq<char>) -> Seq<char> {
    match content {
        Content::Connected(peer) => "connected peer="@ + peer,
        Content::Wire(bytes) => "wire bytes="@ + decimal(bytes.len()),
        Content::Started(uuid) => "started uuid=["@ + hex_list(uuid) + "]"@,
        Content::Audio(uuid, rate, pcm) => "audio uuid=["@ + hex_list(uuid) + "] rate="@
            + rate_name(rate) + " bytes="@ + decimal(pcm.len()),
        Content::Dtmf(uuid, value) => "dtmf uuid=["@ + hex_list(uuid) + "] digit="@ + ascii_form(
            value,
        ),
        Content::Ended(identity, ending) => "ended uuid="@ + identity_form(identity) + " reason="@
            + ending_form(ending, transport),
    }
}

/// The diagnostic line of an observation that was made at the clock reading
/// `observed`.
pub open spec fn line_of(
    id: (u64, usize),
    offset: u64,
    observed: Seq<char>,
    content: Content,
    transport: Seq<char>,
) -> Seq<char> {
    "instance="@ + decimal(id.0 as nat) + " connection="@ + decimal(id.1 as nat) + " offset="@
        + decimal(offset as nat) + " observed="@ + observed + " "@ + content_form(
        content,
        transport,
    ) + "\n"@
}

fn push_ending(out: &mut String, reason: &EndReason, transport: &str)
    ensures
        final(out)@ == old(out)@ + ending_form(reason@, transport@),
{
    let ghost start = out@;
    match reason {
        EndReason::CleanEof => out.append("clean-eof"),
        EndReason::Terminate => out.append("terminate"),
        EndReason::PeerError(bytes) => {
            out.append("peer-error bytes=");
            push_decimal(out, bytes.as_slice().len() as u64);
        },
        EndReason::InvalidMessage(error) => {
            out.append("invalid-message detail=");
            out.append(typed_error_text(*error));
        },
        EndReason::Decode(error) => {
            out.append("decode detail=");
            push_decode_error(out, *error);
        },
        EndReason::Truncated(error) => {
            out.append("truncated detail=");
            push_finish_error(out, *error);
        },
        EndReason::Policy(error) => {
            out.append("policy detail=");
            push_rejection(out, *error);
        },
        EndReason::Transport(_) => {
            out.append("transport detail=");
            out.append(transport);
        },
        EndReason::ResourceRefused(error) => {
            out.append("resource-refused detail=");
            push_budget_error(out, *error);
        },
        EndReason::OffsetExhausted => out.append("offset-exhausted"),
    }
    assert(out@ =~= start + ending_form(reason@, transport@));
}

fn push_content(out: &mut String, kind: &RecordKind, transport: &str)
    ensures
        final(out)@ == old(out)@ + content_form(kind@, transport@),
{
    let ghost start = out@;
    match kind {
        RecordKind::Connected { peer } => {
            out.append("connected peer=");
            out.append(peer.as_str());
        },
        RecordKind::Wire { bytes } => {
            out.append("wire bytes=");
            push_decimal(out, bytes.as_slice().len() as u64);
        },
        RecordKind::Started { uuid } => {
            let identity = uuid.bytes();
            out.append("started uuid=[");
            push_hex_list(out, &identity);
            out.append("]");
        },
        RecordKind::Audio { uuid, rate, bytes } => {
            let identity = uuid.bytes();
            out.append("audio uuid=[");
            push_hex_list(out, &identity);
            out.append("] rate=");
            out.append(rate_text(*rate));
            out.append(" bytes=");
            push_decimal(out, bytes.as_slice().len() as u64);
        },
        RecordKind::Dtmf { uuid, digit } => {
            let identity = uuid.bytes();
            out.append("dtmf uuid=[");
            push_hex_list(out, &identity);
            out.append("] digit=");
            push_ascii(out, digit.value());
        },
        RecordKind::Ended { uuid, reason } => {
            out.append("ended uuid=");
            push_identity(out, *uuid);
            out.append(" reason=");
            push_ending(out, reason, transport);
        },
    }
    assert(out@ =~= start + content_form(kind@, transport@));
}

/// Returns the diagnostic line of a record, given the diagnostic forms of its
/// clock reading and of the failure of a socket operation.
pub fn describe(id: ConnectionId, record: &Record, observed: &str, transport: &str) -> (line: String)
    ensures
        line@ == line_of(id@, record.offset@, observed@, record.kind@, transport@),
{
    let mut out = String::new();
    out.append("instance=");
    push_decimal(&mut out, id.instance());
    out.append(" connection=");
    push_decimal(&mut out, id.sequence() as u64);
    out.append(" offset=");
    push_decimal(&mut out, record.offset.get());
    out.append(" observed=");
    out.append(observed);
    out.append(" ");
    push_content(&mut out, &record.kind, transport);
    out.append("\n");
    assert(out@ =~= line_of(id@, record.offset@, observed@, record.kind@, transport@));
    out
}

/// The diagnostic form that std gives a string: quoted, with what is not
/// printable escaped.
pub uninterp spec fn quoted(text: Seq<char>) -> Seq<char>;

/// The `Debug` form of a `str` in std.
#[verifier::external_body]
fn quote(text: &str) -> (form: String)
    ensures
        form@ == quoted(text@),
{
    format!("{text:?}")
}

/// The diagnostic form of a clock reading.
pub uninterp spec fn clock_form(instant: std::time::Instant) -> Seq<char>;

/// The `Debug` form of a `std::time::Instant`. It tells nothing but the reading, so
/// that every call gives the same; what it looks like is left to std.
#[verifier::external_body]
fn instant_form(instant: &std::time::Instant) -> (form: String)
    ensures
        form@ == clock_form(*instant),
{
    format!("{instant:?}")
}

/// The `Display` form of a `std::io::Error`. Nothing is claimed of the text, which
/// depends on the platform's messages.
#[verifier::external_body]
pub(crate) fn error_text(error: &std::io::Error) -> (text: String) {
    error.to_string()
}

/// Returns the diagnostic line of a record. The text of a failed socket operation is
/// the platform's.
pub fn description(id: ConnectionId, record: &Record) -> (line: String)
    ensures
        exists|error: Seq<char>|
            line@ == line_of(
                id@,
                record.offset@,
                clock_form(record.observed_at),
                record.kind@,
                #[trigger] quoted_where_failed(record.kind@, error),
            ),
{
    let observed = instant_form(&record.observed_at);
    match &record.kind {
        RecordKind::Ended { reason: EndReason::Transport(error), .. } => {
            let text = error_text(error);
            let transport = quote(text.as_str());
            let line = describe(id, record, observed.as_str(), transport.as_str());
            assert(quoted_where_failed(record.kind@, text@) == transport@);
            line
        },
        _ => {
            let line = describe(id, record, observed.as_str(), "");
            assert(quoted_where_failed(record.kind@, Seq::empty()) == ""@);
            line
        },
    }
}

/// The diagnostic form of an error text, where the content tells a failed socket
/// operation.
pub open spec fn quoted_where_failed(content: Content, error: Seq<char>) -> Seq<char> {
    match content {
        Content::Ended(_, Ending::Transport(_)) => quoted(error),
        _ => ""@,
    }
}

/// A key of a telephone is told as itself between quotation marks.
pub proof fn law_keys_are_told_as_themselves(value: u8)
    requires
        48 <= value <= 57 || value == 42 || value == 35 || 65 <= value <= 68,
    ensures
        ascii_form(value).len() == 3,
        ascii_form(value)[1] == value as char,
{
    reveal_strlit("'");
}

/// A line begins with the connection and the offset, in decimal, and the clock reading,
/// and ends with a line feed: its record can be found again by it.
pub proof fn law_lines_tell_their_place(
    id: (u64, usize),
    offset: u64,
    observed: Seq<char>,
    content: Content,
    transport: Seq<char>,
)
    ensures
        ({
            let line = line_of(id, offset, observed, content, transport);
            &&& ("instance="@ + decimal(id.0 as nat) + " connection="@ + decimal(id.1 as nat)
                + " offset="@ + decimal(offset as nat) + " observed="@ + observed).is_prefix_of(line)
            &&& line.last() == '\n'
        }),
{
    reveal_strlit("\n");
    let place = "instance="@ + decimal(id.0 as nat) + " connection="@ + decimal(id.1 as nat)
        + " offset="@ + decimal(offset as nat) + " observed="@ + observed;
    let line = line_of(id, offset, observed, content, transport);
    assert(line =~= place + (" "@ + content_form(content, transport) + "\n"@));
}

/// A payload is told by its length, which can be read back: that of wire bytes, of
/// samples and of a peer's error, however long they are.
pub proof fn law_payloads_are_told_by_their_length(
    bytes: Seq<u8>,
    uuid: Seq<u8>,
    rate: crate::audio::SampleRate,
    transport: Seq<char>,
)
    requires
        bytes.len() <= u64::MAX,
    ensures
        number_in(content_form(Content::Wire(bytes), transport).skip(11)) == Some(
            bytes.len() as u64,
        ),
        number_in(ending_form(Ending::PeerError(bytes), transport).skip(17)) == Some(
            bytes.len() as u64,
        ),
        number_in(
            content_form(Content::Audio(uuid, rate, bytes), transport).skip(
                26 + hex_list(uuid).len() + rate_name(rate).len() as int,
            ),
        ) == Some(bytes.len() as u64),
{
    reveal_strlit("wire bytes=");
    reveal_strlit("peer-error bytes=");
    reveal_strlit("audio uuid=[");
    reveal_strlit("] rate=");
    reveal_strlit(" bytes=");
    law_written_numbers_are_read_back(bytes.len() as u64);
    let number = decimal(bytes.len());
    assert(content_form(Content::Wire(bytes), transport).skip(11) =~= number);
    assert(ending_form(Ending::PeerError(bytes), transport).skip(17) =~= number);
    let head = hex_list(uuid).len() + rate_name(rate).len() as int;
    assert(content_form(Content::Audio(uuid, rate, bytes), transport).skip(26 + head) =~= number);
}

/// What a session observed is told with the identity of the session in hexadecimal, and
/// with the rate or the key by its name; its end with the identity if there is one.
pub proof fn law_contents_tell_their_session(
    uuid: Seq<u8>,
    rate: crate::audio::SampleRate,
    pcm: Seq<u8>,
    value: u8,
    ending: Ending,
    transport: Seq<char>,
)
    ensures
        content_form(Content::Started(uuid), transport) == "started uuid=["@ + (hex_list(uuid)
            + "]"@),
        content_form(Content::Audio(uuid, rate, pcm), transport) == "audio uuid=["@ + (hex_list(uuid)
            + ("] rate="@ + (rate_name(rate) + (" bytes="@ + decimal(pcm.len()))))),
        content_form(Content::Dtmf(uuid, value), transport) == "dtmf uuid=["@ + (hex_list(uuid) + (
        "] digit="@ + ascii_form(value))),
        content_form(Content::Ended(None, ending), transport) == "ended uuid=None"@ + (" reason="@
            + ending_form(ending, transport)),
        content_form(Content::Ended(Some(uuid), ending), transport) == "ended uuid=Some(Uuid(["@ + (
        decimal_list(uuid) + ("])) reason="@ + ending_form(ending, transport))),
{
    reveal_strlit("ended uuid=");
    reveal_strlit("None");
    reveal_strlit("ended uuid=None");
    reveal_strlit("Some(");
    reveal_strlit("Uuid([");
    reveal_strlit("ended uuid=Some(Uuid([");
    reveal_strlit("])");
    reveal_strlit(")");
    reveal_strlit(" reason=");
    reveal_strlit("])) reason=");
    assert("ended uuid="@ + "None"@ =~= "ended uuid=None"@);
    assert("ended uuid="@ + ("Some("@ + "Uuid(["@) =~= "ended uuid=Some(Uuid(["@);
    assert("])"@ + (")"@ + " reason="@) =~= "])) reason="@);
    let end = ending_form(ending, transport);
    let list = decimal_list(uuid);
    assert(content_form(Content::Ended(Some(uuid), ending), transport) =~= ("ended uuid="@ + (
    "Some("@ + "Uuid(["@)) + (list + (("])"@ + (")"@ + " reason="@)) + end)));
    assert(content_form(Content::Ended(None, ending), transport) =~= ("ended uuid="@ + "None"@) + (
    " reason="@ + end));
}

/// A character stands in quotes: a printable one as itself, a quote, a backslash and the
/// common control characters behind a backslash, and any other by its number in
/// hexadecimal.
pub proof fn law_characters_are_quoted(value: u8)
    ensures
        ascii_form(value)[0] == '\'',
        ascii_form(value).last() == '\'',
        ({
            let form = ascii_form(value);
            let escaped = value == 0 || value == 9 || value == 10 || value == 13 || value == 39
                || value == 92;
            &&& escaped <==> form.len() == 4
            &&& escaped ==> form[1] == '\\'
            &&& form.len() == 4 ==> (form[2] == '0' <==> value == 0)
            &&& form.len() == 4 ==> (form[2] == 't' <==> value == 9)
            &&& form.len() == 4 ==> (form[2] == 'n' <==> value == 10)
            &&& form.len() == 4 ==> (form[2] == 'r' <==> value == 13)
            &&& form.len() == 4 ==> (form[2] == '\'' <==> value == 39)
            &&& form.len() == 4 ==> (form[2] == '\\' <==> value == 92)
            &&& !escaped && 32 <= value <= 126 ==> form.len() == 3 && form[1] == value as char
            &&& !escaped && !(32 <= value <= 126) ==> form == "'\\u{"@ + hexadecimal(value as nat)
                + "}'"@
        }),
{
    reveal_strlit("'");
    reveal_strlit("\\0");
    reveal_strlit("\\t");
    reveal_strlit("\\n");
    reveal_strlit("\\r");
    reveal_strlit("\\'");
    reveal_strlit("\\\\");
    reveal_strlit("\\u{");
    reveal_strlit("}");
    reveal_strlit("'\\u{");
    reveal_strlit("}'");
    assert("'"@ + "\\u{"@ =~= "'\\u{"@);
    assert("}"@ + "'"@ =~= "}'"@);
    let number = hexadecimal(value as nat);
    assert("'"@ + ("\\u{"@ + number + "}"@) + "'"@ =~= ("'"@ + "\\u{"@) + number + ("}"@ + "'"@));
}

} // verus!
