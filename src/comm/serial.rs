use vstd::prelude::*;

use crate::text::{spec_split, split_at_char, str_eq};

verus! {

/// Parity of a serial line.
#[derive(Debug, Clone, Copy, PartialEq, Eq, Structural)]
pub enum Parity {
    Disabled,
    Even,
    Odd,
}

/// Why a serial port descriptor `device:baud:bits:parity:stop` was refused.
#[derive(Debug, Clone, Copy, PartialEq, Eq, Structural)]
pub enum SerialError {
    NoBaudRate,
    NoCharSize,
    NoParity,
    NoStopBits,
    BaudRate,
    CharSize,
    Parity,
    StopBits,
}

/// The settings of a serial port.
#[derive(Debug, Clone, PartialEq, Eq)]
pub struct SerialParams {
    pub port_dev: String,
    pub baud_rate: u32,
    pub char_size: u8,
    pub parity: Parity,
    pub stop_bits: u8,
}

pub open spec fn spec_baud_rate(s: Seq<char>) -> Option<u32> {
    if s == "110"@ {
        Some(110u32)
    } else if s == "300"@ {
        Some(300u32)
    } else if s == "600"@ {
        Some(600u32)
    } else if s == "1200"@ {
        Some(1200u32)
    } else if s == "2400"@ {
        Some(2400u32)
    } else if s == "4800"@ {
        Some(4800u32)
    } else if s == "9600"@ {
        Some(9600u32)
    } else if s == "19200"@ {
        Some(19200u32)
    } else if s == "38400"@ {
        Some(38400u32)
    } else if s == "57600"@ {
        Some(57600u32)
    } else if s == "115200"@ {
        Some(115200u32)
    } else {
        None
    }
}

pub open spec fn spec_char_size(s: Seq<char>) -> Option<u8> {
    if s == "5"@ {
        Some(5u8)
    } else if s == "6"@ {
        Some(6u8)
    } else if s == "7"@ {
        Some(7u8)
    } else if s == "8"@ {
        Some(8u8)
    } else {
        None
    }
}

pub open spec fn spec_parity(s: Seq<char>) -> Option<Parity> {
    if s == "N"@ {
        Some(Parity::Disabled)
    } else if s == "E"@ {
        Some(Parity::Even)
    } else if s == "O"@ {
        Some(Parity::Odd)
    } else {
        None
    }
}

pub open spec fn spec_stop_bits(s: Seq<char>) -> Option<u8> {
    if s == "1"@ {
        Some(1u8)
    } else if s == "2"@ {
        Some(2u8)
    } else {
        None
    }
}

/// The first error of a descriptor, fields checked in order; `None` when
/// it is valid. Fields after the stop bits are ignored.
pub open spec fn spec_path_error(path: Seq<char>) -> Option<SerialError> {
    let p = spec_split(path, ':');
    if p.len() < 2 {
        Some(SerialError::NoBaudRate)
    } else if p.len() < 3 {
        Some(SerialError::NoCharSize)
    } else if p.len() < 4 {
        Some(SerialError::NoParity)
    } else if p.len() < 5 {
        Some(SerialError::NoStopBits)
    } else if spec_baud_rate(p[1]) is None {
        Some(SerialError::BaudRate)
    } else if spec_char_size(p[2]) is None {
        Some(SerialError::CharSize)
    } else if spec_parity(p[3]) is None {
        Some(SerialError::Parity)
    } else if spec_stop_bits(p[4]) is None {
        Some(SerialError::StopBits)
    } else {
        None
    }
}

fn baud_rate(s: &str) -> (r: Option<u32>)
    ensures
        r == spec_baud_rate(s@),
{
    if str_eq(s, "110") {
        Some(110)
    } else if str_eq(s, "300") {
        Some(300)
    } else if str_eq(s, "600") {
        Some(600)
    } else if str_eq(s, "1200") {
        Some(1200)
    } else if str_eq(s, "2400") {
        Some(2400)
    } else if str_eq(s, "4800") {
        Some(4800)
    } else if str_eq(s, "9600") {
        Some(9600)
    } else if str_eq(s, "19200") {
        Some(19200)
    } else if str_eq(s, "38400") {
        Some(38400)
    } else if str_eq(s, "57600") {
        Some(57600)
    } else if str_eq(s, "115200") {
        Some(115200)
    } else {
        None
    }
}

fn char_size(s: &str) -> (r: Option<u8>)
    ensures
        r == spec_char_size(s@),
{
    if str_eq(s, "5") {
        Some(5)
    } else if str_eq(s, "6") {
        Some(6)
    } else if str_eq(s, "7") {
        Some(7)
    } else if str_eq(s, "8") {
        Some(8)
    } else {
        None
    }
}

fn parity(s: &str) -> (r: Option<Parity>)
    ensures
        r == spec_parity(s@),
{
    if str_eq(s, "N") {
        Some(Parity::Disabled)
    } else if str_eq(s, "E") {
        Some(Parity::Even)
    } else if str_eq(s, "O") {
        Some(Parity::Odd)
    } else {
        None
    }
}

fn stop_bits(s: &str) -> (r: Option<u8>)
    ensures
        r == spec_stop_bits(s@),
{
    if str_eq(s, "1") {
        Some(1)
    } else if str_eq(s, "2") {
        Some(2)
    } else {
        None
    }
}

/// Reads a serial port descriptor such as `/dev/ttyS0:9600:8:N:1`.
pub fn parse_path(path: &str) -> (r: Result<SerialParams, SerialError>)
    ensures
        r is Err <==> spec_path_error(path@) is Some,
        r matches Err(e) ==> spec_path_error(path@) == Some(e),
        r matches Ok(p) ==> ({
            let parts = spec_split(path@, ':');
            &&& p.port_dev@ == parts[0]
            &&& spec_baud_rate(parts[1]) == Some(p.baud_rate)
            &&& spec_char_size(parts[2]) == Some(p.char_size)
            &&& spec_parity(parts[3]) == Some(p.parity)
            &&& spec_stop_bits(parts[4]) == Some(p.stop_bits)
        }),
{
    let sp = split_at_char(path, ':');
    let ghost pv = sp@.map_values(|p: &str| p@);
    proof {
        crate::text::lemma_split_nonempty(path@, ':');
    }
    assert(sp@.len() == pv.len());
    if sp.len() < 2 {
        return Err(SerialError::NoBaudRate);
    }
    if sp.len() < 3 {
        return Err(SerialError::NoCharSize);
    }
    if sp.len() < 4 {
        return Err(SerialError::NoParity);
    }
    if sp.len() < 5 {
        return Err(SerialError::NoStopBits);
    }
    assert(pv[0] == sp@[0]@ && pv[1] == sp@[1]@ && pv[2] == sp@[2]@ && pv[3] == sp@[3]@ && pv[4] == sp@[4]@);
    let baud_rate = match baud_rate(sp[1]) {
        Some(v) => v,
        None => {
            return Err(SerialError::BaudRate);
        },
    };
    let char_size = match char_size(sp[2]) {
        Some(v) => v,
        None => {
            return Err(SerialError::CharSize);
        },
    };
    let parity = match parity(sp[3]) {
        Some(v) => v,
        None => {
            return Err(SerialError::Parity);
        },
    };
    let stop_bits = match stop_bits(sp[4]) {
        Some(v) => v,
        None => {
            return Err(SerialError::StopBits);
        },
    };
    Ok(SerialParams { port_dev: String::from_str(sp[0]), baud_rate, char_size, parity, stop_bits })
}

/// Checks a serial port descriptor.
pub fn check_path(path: &str) -> (r: Result<(), SerialError>)
    ensures
        r is Ok <==> spec_path_error(path@) is None,
        r matches Err(e) ==> spec_path_error(path@) == Some(e),
{
    match parse_path(path) {
        Ok(_) => Ok(()),
        Err(e) => Err(e),
    }
}

} // verus!
