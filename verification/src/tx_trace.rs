//! Lines that tell when a transmission starts and how it finishes.
//!
//! Only the header fields in [TxTraceHeader] and the place of the frame in its queue are told, never
//! addresses or contents.
use vstd::prelude::*;
use vstd::string::StringExecFns;

use crate::radio::TxError;
use crate::tx_queue::{
    trace_header, tx_trace_header, InProgressTransmission, PendingFrame, TxTraceHeader,
};

verus! {

/// A decimal digit.
pub open spec fn digit(value: nat) -> char {
    seq!['0', '1', '2', '3', '4', '5', '6', '7', '8', '9'][value as int]
}

/// A number in decimal digits.
pub open spec fn decimal(number: nat) -> Seq<char>
    decreases number,
{
    if number < 10 {
        seq![digit(number)]
    } else {
        decimal(number / 10).push(digit(number % 10))
    }
}

/// A number that may be unknown.
pub open spec fn optional_number(number: Option<nat>) -> Seq<char> {
    match number {
        Some(number) => "Some("@ + decimal(number) + ")"@,
        None => "None"@,
    }
}

/// A flag that may be unknown.
pub open spec fn optional_flag(flag: Option<bool>) -> Seq<char> {
    match flag {
        Some(true) => "Some(true)"@,
        Some(false) => "Some(false)"@,
        None => "None"@,
    }
}

/// The header fields of a frame.
pub open spec fn header_text(header: TxTraceHeader) -> Seq<char> {
    let number = |field: Option<u8>| match field {
        Some(value) => Some(value as nat),
        None => None,
    };
    let sequence = match header.sequence {
        Some(value) => Some(value as nat),
        None => None,
    };
    "TxTraceHeader { kind: "@ + optional_number(number(header.kind)) + ", subtype: "@
        + optional_number(number(header.subtype)) + ", protected: "@ + optional_flag(
        header.protected,
    ) + ", sequence: "@ + optional_number(sequence) + " }"@
}

/// The name of an error.
pub open spec fn error_text(error: TxError) -> Seq<char> {
    match error {
        TxError::ChannelAccess => "ChannelAccess"@,
        TxError::CtsTimeout => "CtsTimeout"@,
        TxError::AckTimeout => "AckTimeout"@,
        TxError::InvalidKeyId => "InvalidKeyId"@,
        TxError::Unknown => "Unknown"@,
        TxError::BufferTooShort => "BufferTooShort"@,
        TxError::DisabledKeySlot => "DisabledKeySlot"@,
        TxError::OutOfBounds => "OutOfBounds"@,
        TxError::InvalidEdcaParameters => "InvalidEdcaParameters"@,
    }
}

/// The result of a transmission.
pub open spec fn result_text(result: Result<u8, TxError>) -> Seq<char> {
    match result {
        Ok(retries) => "Ok("@ + decimal(retries as nat) + ")"@,
        Err(error) => "Err("@ + error_text(error) + ")"@,
    }
}

/// Append a digit.
fn append_digit(text: &mut String, value: u64)
    requires
        value < 10,
    ensures
        final(text)@ == old(text)@.push(digit(value as nat)),
{
    let character = match value {
        0 => "0",
        1 => "1",
        2 => "2",
        3 => "3",
        4 => "4",
        5 => "5",
        6 => "6",
        7 => "7",
        8 => "8",
        _ => "9",
    };
    proof {
        reveal_strlit("0");
        reveal_strlit("1");
        reveal_strlit("2");
        reveal_strlit("3");
        reveal_strlit("4");
        reveal_strlit("5");
        reveal_strlit("6");
        reveal_strlit("7");
        reveal_strlit("8");
        reveal_strlit("9");
        assert(character@ =~= seq![digit(value as nat)]);
    }
    text.append(character);
    assert(text@ =~= old(text)@.push(digit(value as nat)));
}

/// Append a number.
fn append_decimal(text: &mut String, number: u64)
    ensures
        final(text)@ == old(text)@ + decimal(number as nat),
    decreases number,
{
    if number >= 10 {
        append_decimal(text, number / 10);
    }
    append_digit(text, number % 10);
    assert(text@ =~= old(text)@ + decimal(number as nat));
}

/// Append a number that may be unknown.
fn append_optional(text: &mut String, number: Option<u64>)
    ensures
        final(text)@ == old(text)@ + optional_number(
            match number {
                Some(number) => Some(number as nat),
                None => None,
            },
        ),
{
    match number {
        Some(number) => {
            text.append("Some(");
            append_decimal(text, number);
            text.append(")");
            assert(text@ =~= old(text)@ + optional_number(Some(number as nat)));
        },
        None => text.append("None"),
    }
}

/// Append a flag that may be unknown.
fn append_flag(text: &mut String, flag: Option<bool>)
    ensures
        final(text)@ == old(text)@ + optional_flag(flag),
{
    match flag {
        Some(true) => text.append("Some(true)"),
        Some(false) => text.append("Some(false)"),
        None => text.append("None"),
    }
}

/// Append the header fields of a frame.
fn append_header(text: &mut String, header: &TxTraceHeader)
    ensures
        final(text)@ == old(text)@ + header_text(*header),
{
    text.append("TxTraceHeader { kind: ");
    append_optional(
        text,
        match header.kind {
            Some(kind) => Some(kind as u64),
            None => None,
        },
    );
    text.append(", subtype: ");
    append_optional(
        text,
        match header.subtype {
            Some(subtype) => Some(subtype as u64),
            None => None,
        },
    );
    text.append(", protected: ");
    append_flag(text, header.protected);
    text.append(", sequence: ");
    append_optional(
        text,
        match header.sequence {
            Some(sequence) => Some(sequence as u64),
            None => None,
        },
    );
    text.append(" }");
    assert(text@ =~= old(text)@ + header_text(*header));
}

/// Append the result of a transmission.
fn append_result(text: &mut String, result: Result<u8, TxError>)
    ensures
        final(text)@ == old(text)@ + result_text(result),
{
    match result {
        Ok(retries) => {
            text.append("Ok(");
            append_decimal(text, retries as u64);
        },
        Err(error) => {
            text.append("Err(");
            text.append(
                match error {
                    TxError::ChannelAccess => "ChannelAccess",
                    TxError::CtsTimeout => "CtsTimeout",
                    TxError::AckTimeout => "AckTimeout",
                    TxError::InvalidKeyId => "InvalidKeyId",
                    TxError::Unknown => "Unknown",
                    TxError::BufferTooShort => "BufferTooShort",
                    TxError::DisabledKeySlot => "DisabledKeySlot",
                    TxError::OutOfBounds => "OutOfBounds",
                    TxError::InvalidEdcaParameters => "InvalidEdcaParameters",
                },
            );
        },
    }
    text.append(")");
    assert(text@ =~= old(text)@ + result_text(result));
}

/// What is told of a transmission.
#[derive(Clone, Copy, Debug)]
pub struct TxTrace {
    /// The hardware queue.
    pub queue: usize,
    /// The generation of the frame.
    pub generation: u64,
    /// The interface that transmits.
    pub interface: u8,
    /// The length of the frame.
    pub length: usize,
    /// The header fields of the frame.
    pub header: TxTraceHeader,
}

impl TxTrace {
    /// What both lines tell.
    pub open spec fn text(&self) -> Seq<char> {
        " queue="@ + decimal(self.queue as nat) + " generation="@ + decimal(self.generation as nat)
            + " interface="@ + decimal(self.interface as nat) + " len="@ + decimal(
            self.length as nat,
        ) + " header="@ + header_text(self.header)
    }

    /// Look at a transmission from a hardware queue.
    ///
    /// The radio may assign the sequence number, so the frame looks different before and after.
    pub fn of(queue: usize, active: &InProgressTransmission, pending: &PendingFrame) -> (trace: Self)
        requires
            pending.frame_length <= pending.frame.bytes@.len(),
        ensures
            trace == (TxTrace {
                queue,
                generation: active.generation,
                interface: pending.interface,
                length: pending.frame_length,
                header: trace_header(
                    pending.frame.bytes@.subrange(0, pending.frame_length as int),
                ),
            }),
    {
        TxTrace {
            queue,
            generation: active.generation,
            interface: pending.interface,
            length: pending.frame_length,
            header: tx_trace_header(&pending.frame.bytes[0..pending.frame_length]),
        }
    }

    fn append_to(&self, text: &mut String)
        ensures
            final(text)@ == old(text)@ + self.text(),
    {
        text.append(" queue=");
        append_decimal(text, self.queue as u64);
        text.append(" generation=");
        append_decimal(text, self.generation);
        text.append(" interface=");
        append_decimal(text, self.interface as u64);
        text.append(" len=");
        append_decimal(text, self.length as u64);
        text.append(" header=");
        append_header(text, &self.header);
        assert(text@ =~= old(text)@ + self.text());
    }

    /// The line for the start of a transmission.
    pub fn start_line(&self) -> (line: String)
        ensures
            line@ == "FOA_TX start"@ + self.text(),
    {
        let mut line = String::new();
        line.append("FOA_TX start");
        self.append_to(&mut line);
        assert(line@ =~= "FOA_TX start"@ + self.text());
        line
    }

    /// The line for the completion of a transmission.
    pub fn finish_line(&self, result: Result<u8, TxError>) -> (line: String)
        ensures
            line@ == "FOA_TX finish"@ + self.text() + " result="@ + result_text(result),
    {
        let mut line = String::new();
        line.append("FOA_TX finish");
        self.append_to(&mut line);
        line.append(" result=");
        append_result(&mut line, result);
        assert(line@ =~= "FOA_TX finish"@ + self.text() + " result="@ + result_text(result));
        line
    }
}

/// Frames of one length that agree in the frame control field and the sequence control field are
/// traced alike: nothing else of a frame is told.
pub proof fn trace_ignores_contents(frame: Seq<u8>, other: Seq<u8>)
    requires
        frame.len() == other.len(),
        forall|i: int|
            0 <= i < frame.len() && (i < 2 || 22 <= i < 24) ==> #[trigger] frame[i] == other[i],
    ensures
        trace_header(frame) == trace_header(other),
{
    if frame.len() >= 24 {
        assert(frame.subrange(22, 24) =~= other.subrange(22, 24));
    }
}

/// The number that decimal digits spell.
pub open spec fn spelled(digits: Seq<char>) -> int
    decreases digits.len(),
{
    if digits.len() == 0 {
        0
    } else {
        10 * spelled(digits.drop_last()) + (digits.last() as u32 as int - 48)
    }
}

/// Numbers are told by the digits that spell them, without a zero in front.
pub proof fn decimals_spell_their_number(number: nat)
    ensures
        spelled(decimal(number)) == number,
        number >= 10 ==> decimal(number)[0] != '0',
        number > 0 ==> decimal(number)[0] != '0',
        decimal(number).len() >= 1,
    decreases number,
{
    let text = decimal(number);
    let last = number % 10;
    assert(digit(last) as u32 == 48 + last);
    if number < 10 {
        assert(text.drop_last() =~= Seq::<char>::empty());
        assert(spelled(Seq::<char>::empty()) == 0);
    } else {
        decimals_spell_their_number(number / 10);
        assert(text.drop_last() =~= decimal(number / 10));
        assert(text[0] == decimal(number / 10)[0]);
    }
}

} // verus!
