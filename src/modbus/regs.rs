use vstd::prelude::*;

use crate::text::{parse_u64, spec_parse_u64, spec_split, split_at_char};

verus! {

/// The kind of a register.
#[derive(Debug, Clone, Copy, PartialEq, Eq, Structural)]
pub enum Kind {
    Coil,
    Discrete,
    Input,
    Holding,
}

impl Kind {
    /// The container type of values of this kind.
    pub fn as_helper_type_str(self) -> (r: &'static str)
        ensures
            r@ == (if self == Kind::Coil || self == Kind::Discrete { "Coils"@ } else { "Registers"@ }),
    {
        match self {
            Kind::Coil | Kind::Discrete => "Coils",
            Kind::Holding | Kind::Input => "Registers",
        }
    }

    /// The type of one value of this kind.
    pub fn as_type_str(self) -> (r: &'static str)
        ensures
            r@ == (if self == Kind::Coil || self == Kind::Discrete { "bool"@ } else { "u16"@ }),
    {
        match self {
            Kind::Coil | Kind::Discrete => "bool",
            Kind::Holding | Kind::Input => "u16",
        }
    }

    /// The default value of one value of this kind.
    pub fn as_type_default_value_str(self) -> (r: &'static str)
        ensures
            r@ == (if self == Kind::Coil || self == Kind::Discrete { "false"@ } else { "0"@ }),
    {
        match self {
            Kind::Coil | Kind::Discrete => "false",
            Kind::Holding | Kind::Input => "0",
        }
    }
}

/// Why a register or offset text was refused.
#[derive(Debug, Clone, Copy, PartialEq, Eq, Structural)]
pub enum RegError {
    /// The register does not start with `c`, `d`, `i` or `h`.
    InvalidKind,
    /// The register number is no 16-bit unsigned number.
    InvalidNumber,
    /// The end of a range lies before its start, has another kind, or the
    /// range holds more than 65535 registers.
    InvalidRange,
    /// An offset is no sum of 16-bit numbers, overflows, or lies below the
    /// base.
    InvalidOffset,
}

pub open spec fn spec_parse_u16(s: Seq<char>) -> Option<u16> {
    match spec_parse_u64(s) {
        Some(v) => if v <= u16::MAX as u64 {
            Some(v as u16)
        } else {
            None
        },
        None => None,
    }
}

/// Reads a 16-bit unsigned number as Rust's `u16` parsing does.
pub fn parse_u16(s: &str) -> (r: Option<u16>)
    ensures
        r == spec_parse_u16(s@),
{
    match parse_u64(s) {
        Some(v) => if v <= u16::MAX as u64 {
            Some(v as u16)
        } else {
            None
        },
        None => None,
    }
}

pub open spec fn kind_of_char(c: char) -> Option<Kind> {
    if c == 'c' {
        Some(Kind::Coil)
    } else if c == 'd' {
        Some(Kind::Discrete)
    } else if c == 'i' {
        Some(Kind::Input)
    } else if c == 'h' {
        Some(Kind::Holding)
    } else {
        None
    }
}

/// A register written as its kind letter and number, such as `h100`.
pub open spec fn spec_kind_offset(r: Seq<char>) -> Result<(Kind, u16), RegError> {
    if r.len() > 0 && kind_of_char(r[0]) is Some {
        match spec_parse_u16(r.drop_first()) {
            Some(o) => Ok((kind_of_char(r[0]).unwrap(), o)),
            None => Err(RegError::InvalidNumber),
        }
    } else {
        Err(RegError::InvalidKind)
    }
}

/// Reads a register written as its kind letter and number.
pub fn parse_kind_offset(r: &str) -> (res: Result<(Kind, u16), RegError>)
    ensures
        res == spec_kind_offset(r@),
{
    let n = r.unicode_len();
    if n == 0 {
        return Err(RegError::InvalidKind);
    }
    let c = r.get_char(0);
    let kind = if c == 'c' {
        Kind::Coil
    } else if c == 'd' {
        Kind::Discrete
    } else if c == 'i' {
        Kind::Input
    } else if c == 'h' {
        Kind::Holding
    } else {
        return Err(RegError::InvalidKind);
    };
    let rest = r.substring_char(1, n);
    assert(rest@ =~= r@.drop_first());
    match parse_u16(rest) {
        Some(o) => Ok((kind, o)),
        None => Err(RegError::InvalidNumber),
    }
}

/// A block of registers of one kind: its first register and how many.
#[derive(Debug, Clone, Copy, PartialEq, Eq, Structural)]
pub struct RegBase {
    pub kind: Kind,
    pub offset: u16,
    pub number: u16,
}

/// A block written as one register (`h100`) or as a range whose end is a
/// number or a register of the same kind (`h100-110`, `h100-h110`).
pub open spec fn spec_reg_base(s: Seq<char>) -> Result<RegBase, RegError> {
    let parts = spec_split(s, '-');
    match spec_kind_offset(parts[0]) {
        Err(e) => Err(e),
        Ok((kind, offset)) => {
            let next: Result<Option<u16>, RegError> = if parts.len() < 2 {
                Ok(None)
            } else if spec_parse_u16(parts[1]) is Some {
                Ok(spec_parse_u16(parts[1]))
            } else {
                match spec_kind_offset(parts[1]) {
                    Err(e) => Err(e),
                    Ok((kind2, offset2)) => if kind2 != kind {
                        Err(RegError::InvalidRange)
                    } else {
                        Ok(Some(offset2))
                    },
                }
            };
            match next {
                Err(e) => Err(e),
                Ok(None) => Ok(RegBase { kind, offset, number: 1 }),
                Ok(Some(no)) => if no < offset || no - offset + 1 > u16::MAX {
                    Err(RegError::InvalidRange)
                } else {
                    Ok(RegBase { kind, offset, number: (no - offset + 1) as u16 })
                },
            }
        },
    }
}

impl RegBase {
    /// Reads a block of registers.
    pub fn from_str(s: &str) -> (r: Result<RegBase, RegError>)
        ensures
            r == spec_reg_base(s@),
    {
        let sp = split_at_char(s, '-');
        let ghost pv = sp@.map_values(|p: &str| p@);
        proof {
            crate::text::lemma_split_nonempty(s@, '-');
        }
        assert(sp@.len() == pv.len());
        assert(pv[0] == sp@[0]@);
        let (kind, offset) = match parse_kind_offset(sp[0]) {
            Ok(v) => v,
            Err(e) => {
                return Err(e);
            },
        };
        let next_offset: Option<u16> = if sp.len() >= 2 {
            assert(pv[1] == sp@[1]@);
            match parse_u16(sp[1]) {
                Some(v) => Some(v),
                None => match parse_kind_offset(sp[1]) {
                    Ok((kind2, offset2)) => {
                        if kind2 != kind {
                            return Err(RegError::InvalidRange);
                        }
                        Some(offset2)
                    },
                    Err(e) => {
                        return Err(e);
                    },
                },
            }
        } else {
            None
        };
        let number: u16 = match next_offset {
            Some(no) => {
                if no < offset || no - offset == u16::MAX {
                    return Err(RegError::InvalidRange);
                }
                no - offset + 1
            },
            None => 1,
        };
        Ok(RegBase { kind, offset, number })
    }
}

/// A register block of a mapping; an explicit `number` overrides the
/// block's own count.
#[derive(Debug, Clone, Copy, PartialEq, Eq, Structural)]
pub struct Reg {
    pub reg: RegBase,
    pub number: Option<u16>,
}

impl Reg {
    /// A mapping of the block written `reg`, with an optional count.
    pub fn new(reg: &str, number: Option<u16>) -> (r: Result<Reg, RegError>)
        ensures
            r matches Ok(x) ==> spec_reg_base(reg@) == Ok::<RegBase, RegError>(x.reg) && x.number == number,
            r matches Err(e) ==> spec_reg_base(reg@) == Err::<RegBase, RegError>(e),
    {
        match RegBase::from_str(reg) {
            Ok(b) => Ok(Reg { reg: b, number }),
            Err(e) => Err(e),
        }
    }

    /// The kind of the block.
    pub fn kind(&self) -> (r: Kind)
        ensures
            r == self.reg.kind,
    {
        self.reg.kind
    }

    /// How many registers are mapped.
    pub fn number(&self) -> (r: u16)
        ensures
            r == match self.number {
                Some(n) => n,
                None => self.reg.number,
            },
    {
        match self.number {
            Some(n) => n,
            None => self.reg.number,
        }
    }

    /// The first register of the block.
    pub fn offset(&self) -> (r: u16)
        ensures
            r == self.reg.offset,
    {
        self.reg.offset
    }

    /// Fixes the count: with none given, the block's own count.
    pub fn update(&mut self)
        ensures
            final(self).reg == old(self).reg,
            final(self).number == Some(
                match old(self).number {
                    Some(n) => n,
                    None => old(self).reg.number,
                },
            ),
    {
        if self.number.is_none() {
            self.number = Some(self.reg.number);
        }
    }
}

/// The sum of the 16-bit numbers in `parts`, `None` when one is no number.
pub open spec fn spec_sum_offsets(parts: Seq<Seq<char>>) -> Option<int>
    decreases parts.len(),
{
    if parts.len() == 0 {
        Some(0)
    } else {
        match (spec_sum_offsets(parts.drop_last()), spec_parse_u16(parts.last())) {
            (Some(a), Some(b)) => Some(a + b as int),
            _ => None,
        }
    }
}

/// An offset written as a sum such as `10+2`.
pub open spec fn spec_calc_offset(s: Seq<char>) -> Result<u16, RegError> {
    match spec_sum_offsets(spec_split(s, '+')) {
        Some(v) => if v <= u16::MAX {
            Ok(v as u16)
        } else {
            Err(RegError::InvalidOffset)
        },
        None => Err(RegError::InvalidOffset),
    }
}

proof fn lemma_sum_prefix(parts: Seq<Seq<char>>, k: int)
    requires
        0 <= k <= parts.len(),
        spec_sum_offsets(parts) is Some,
    ensures
        spec_sum_offsets(parts.subrange(0, k)) is Some,
        spec_sum_offsets(parts.subrange(0, k)).unwrap() <= spec_sum_offsets(parts).unwrap(),
        spec_sum_offsets(parts.subrange(0, k)).unwrap() >= 0,
    decreases parts.len(),
{
    if k < parts.len() {
        lemma_sum_prefix(parts.drop_last(), k);
        assert(parts.drop_last().subrange(0, k) == parts.subrange(0, k));
    } else {
        assert(parts.subrange(0, k) == parts);
        lemma_sum_nonneg(parts);
    }
}

proof fn lemma_sum_nonneg(parts: Seq<Seq<char>>)
    requires
        spec_sum_offsets(parts) is Some,
    ensures
        spec_sum_offsets(parts).unwrap() >= 0,
    decreases parts.len(),
{
    if parts.len() > 0 {
        lemma_sum_nonneg(parts.drop_last());
    }
}

/// Computes an offset written as a sum.
pub fn calc_offset(s: &str) -> (r: Result<u16, RegError>)
    ensures
        r == spec_calc_offset(s@),
{
    let parts = split_at_char(s, '+');
    let ghost pv = parts@.map_values(|p: &str| p@);
    let mut o: u16 = 0;
    let mut i: usize = 0;
    assert(pv.subrange(0, 0) =~= Seq::<Seq<char>>::empty());
    while i < parts.len()
        invariant
            pv == parts@.map_values(|p: &str| p@),
            pv == spec_split(s@, '+'),
            i <= parts@.len(),
            spec_sum_offsets(pv.subrange(0, i as int)) == Some(o as int),
        decreases parts@.len() - i,
    {
        assert(pv.subrange(0, i + 1).drop_last() == pv.subrange(0, i as int));
        assert(pv[i as int] == parts@[i as int]@);
        let v = match parse_u16(parts[i]) {
            Some(v) => v,
            None => {
                proof {
                    if spec_sum_offsets(pv) is Some {
                        lemma_sum_prefix(pv, i + 1);
                    }
                }
                return Err(RegError::InvalidOffset);
            },
        };
        match o.checked_add(v) {
            Some(x) => o = x,
            None => {
                proof {
                    if spec_sum_offsets(pv) is Some {
                        lemma_sum_prefix(pv, i + 1);
                    }
                }
                return Err(RegError::InvalidOffset);
            },
        }
        i = i + 1;
    }
    assert(pv.subrange(0, parts@.len() as int) == pv);
    Ok(o)
}

/// An offset relative to a base: `=` before the sum makes it absolute, and
/// the base is taken off.
pub open spec fn spec_calc_offset_base(s: Seq<char>, base: u16) -> Result<u16, RegError> {
    if s.len() > 0 && s[0] == '=' {
        match spec_calc_offset(s.drop_first()) {
            Ok(o) => if o < base {
                Err(RegError::InvalidOffset)
            } else {
                Ok((o - base) as u16)
            },
            Err(e) => Err(e),
        }
    } else {
        spec_calc_offset(s)
    }
}

/// Computes an offset relative to the base `base_offset`.
pub fn calc_offset_base(s: &str, base_offset: u16) -> (r: Result<u16, RegError>)
    ensures
        r == spec_calc_offset_base(s@, base_offset),
{
    let n = s.unicode_len();
    if n > 0 && s.get_char(0) == '=' {
        let rest = s.substring_char(1, n);
        assert(rest@ =~= s@.drop_first());
        match calc_offset(rest) {
            Ok(o) => if o < base_offset {
                Err(RegError::InvalidOffset)
            } else {
                Ok(o - base_offset)
            },
            Err(e) => Err(e),
        }
    } else {
        calc_offset(s)
    }
}

/// An offset as configured: still text, or a number once normalized.
#[derive(Debug, Clone, PartialEq, Eq)]
pub enum Offset {
    Str(String),
    Num(u16),
}

/// The offset of a mapping.
#[derive(Debug, Clone)]
pub struct MapOffset {
    pub offset: Offset,
}

impl MapOffset {
    /// An offset given as text, to be normalized.
    pub fn from_text(s: &str) -> (r: MapOffset)
        ensures
            r.offset matches Offset::Str(t) && t@ == s@,
    {
        MapOffset { offset: Offset::Str(String::from_str(s)) }
    }

    /// An offset given as a number.
    pub fn from_num(v: u16) -> (r: MapOffset)
        ensures
            r.offset == Offset::Num(v),
    {
        MapOffset { offset: Offset::Num(v) }
    }

    /// Turns a text offset into a number relative to `base_offset`.
    pub fn normalize(&mut self, base_offset: u16) -> (r: Result<(), RegError>)
        ensures
            old(self).offset matches Offset::Num(_) ==> r is Ok && final(self).offset == old(self).offset,
            old(self).offset matches Offset::Str(t) ==> match spec_calc_offset_base(t@, base_offset) {
                Ok(v) => r is Ok && final(self).offset == Offset::Num(v),
                Err(e) => r == Err::<(), RegError>(e) && final(self).offset == old(self).offset,
            },
    {
        let v = match &self.offset {
            Offset::Str(s) => match calc_offset_base(s.as_str(), base_offset) {
                Ok(v) => v,
                Err(e) => {
                    return Err(e);
                },
            },
            Offset::Num(_) => {
                return Ok(());
            },
        };
        self.offset = Offset::Num(v);
        Ok(())
    }

    /// Whether the offset is a number.
    pub fn is_normalized(&self) -> (r: bool)
        ensures
            r == (self.offset is Num),
    {
        match self.offset {
            Offset::Num(_) => true,
            Offset::Str(_) => false,
        }
    }

    /// The offset; it must be normalized.
    pub fn offset(&self) -> (r: u16)
        requires
            self.offset is Num,
        ensures
            self.offset == Offset::Num(r),
    {
        match self.offset {
            Offset::Num(v) => v,
            Offset::Str(_) => 0,
        }
    }
}

} // verus!
