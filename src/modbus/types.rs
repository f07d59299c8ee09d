use vstd::prelude::*;

verus! {

/// A register or coil range that the data does not cover.
#[derive(Debug, Clone, Copy, PartialEq, Eq, Structural)]
pub enum ModbusError {
    InvalidData,
}

/// Coil values.
#[derive(Debug, Clone)]
pub struct Coils(pub Vec<bool>);

/// The coils from some position to the end.
#[derive(Debug, Clone)]
pub struct CoilSlice<'a>(pub &'a [bool]);

/// Register values.
#[derive(Debug, Clone)]
pub struct Registers(pub Vec<u16>);

/// The registers from some position to the end.
#[derive(Debug, Clone)]
pub struct RegisterSlice<'a>(pub &'a [u16]);

/// The two registers of a 32-bit value, most significant first.
pub open spec fn words32(b: u32) -> Seq<u16> {
    seq![(b / 65536) as u16, (b % 65536) as u16]
}

/// The four registers of a 64-bit value, most significant first.
pub open spec fn words64(b: u64) -> Seq<u16> {
    seq![
        (b / 0x1_0000_0000_0000) as u16,
        (b / 0x1_0000_0000 % 65536) as u16,
        (b / 65536 % 65536) as u16,
        (b % 65536) as u16,
    ]
}

/// The 32-bit value of two registers, most significant first.
pub open spec fn value32(w0: u16, w1: u16) -> u32 {
    (w0 as int * 65536 + w1 as int) as u32
}

/// The 64-bit value of four registers, most significant first.
pub open spec fn value64(w0: u16, w1: u16, w2: u16, w3: u16) -> u64 {
    (w0 as int * 0x1_0000_0000_0000 + w1 as int * 0x1_0000_0000 + w2 as int * 65536 + w3 as int) as u64
}

/// The two's complement bits of a signed value, and back.
pub open spec fn i16_bits(v: i16) -> u16 {
    if v >= 0 { v as u16 } else { (v + 65536) as u16 }
}

pub open spec fn i16_of_bits(b: u16) -> i16 {
    if b < 0x8000 { b as i16 } else { (b - 65536) as i16 }
}

pub open spec fn i32_bits(v: i32) -> u32 {
    if v >= 0 { v as u32 } else { (v + 0x1_0000_0000) as u32 }
}

pub open spec fn i32_of_bits(b: u32) -> i32 {
    if b < 0x8000_0000 { b as i32 } else { (b - 0x1_0000_0000) as i32 }
}

pub open spec fn i64_bits(v: i64) -> u64 {
    if v >= 0 { v as u64 } else { (v + 0x1_0000_0000_0000_0000) as u64 }
}

pub open spec fn i64_of_bits(b: u64) -> i64 {
    if b < 0x8000_0000_0000_0000 { b as i64 } else { (b - 0x1_0000_0000_0000_0000) as i64 }
}

fn i16_to_bits(v: i16) -> (r: u16)
    ensures
        r == i16_bits(v),
{
    if v >= 0 { v as u16 } else { (v as i32 + 65536) as u16 }
}

fn bits_to_i16(b: u16) -> (r: i16)
    ensures
        r == i16_of_bits(b),
{
    if b < 0x8000 { b as i16 } else { (b as i32 - 65536) as i16 }
}

fn i32_to_bits(v: i32) -> (r: u32)
    ensures
        r == i32_bits(v),
{
    if v >= 0 { v as u32 } else { (v as i64 + 0x1_0000_0000) as u32 }
}

fn bits_to_i32(b: u32) -> (r: i32)
    ensures
        r == i32_of_bits(b),
{
    if b < 0x8000_0000 { b as i32 } else { (b as i64 - 0x1_0000_0000) as i32 }
}

fn i64_to_bits(v: i64) -> (r: u64)
    ensures
        r == i64_bits(v),
{
    if v >= 0 { v as u64 } else { (v as i128 + 0x1_0000_0000_0000_0000) as u64 }
}

fn bits_to_i64(b: u64) -> (r: i64)
    ensures
        r == i64_of_bits(b),
{
    if b < 0x8000_0000_0000_0000 { b as i64 } else { (b as i128 - 0x1_0000_0000_0000_0000) as i64 }
}

/// The registers of a 32-bit value, most significant first.
pub fn u32_to_modbus_array(val: u32) -> (r: [u16; 2])
    ensures
        r@ == words32(val),
{
    let r = [(val / 65536) as u16, (val % 65536) as u16];
    assert(r@ =~= words32(val));
    r
}

/// The registers of a 64-bit value, most significant first.
pub fn u64_to_modbus_array(val: u64) -> (r: [u16; 4])
    ensures
        r@ == words64(val),
{
    let r = [
        (val / 0x1_0000_0000_0000) as u16,
        (val / 0x1_0000_0000 % 65536) as u16,
        (val / 65536 % 65536) as u16,
        (val % 65536) as u16,
    ];
    assert(r@ =~= words64(val));
    r
}

fn read32(s: &[u16], i: usize) -> (r: u32)
    requires
        i + 1 < s@.len(),
    ensures
        r == value32(s@[i as int], s@[i + 1]),
{
    s[i] as u32 * 65536 + s[i + 1] as u32
}

fn read64(s: &[u16], i: usize) -> (r: u64)
    requires
        i + 3 < s@.len(),
    ensures
        r == value64(s@[i as int], s@[i + 1], s@[i + 2], s@[i + 3]),
{
    s[i] as u64 * 0x1_0000_0000_0000 + s[i + 1] as u64 * 0x1_0000_0000 + s[i + 2] as u64 * 65536 + s[i + 3] as u64
}

/// Words of a 32-bit value decoded back give the value.
pub proof fn lemma_words32_round_trip(b: u32)
    ensures
        value32(words32(b)[0], words32(b)[1]) == b,
{
}

/// Words of a 64-bit value decoded back give the value.
pub proof fn lemma_words64_round_trip(b: u64)
    ensures
        value64(words64(b)[0], words64(b)[1], words64(b)[2], words64(b)[3]) == b,
{
}

impl Coils {
    /// A single coil.
    pub fn from_bool(v: bool) -> (r: Coils)
        ensures
            r.0@ == seq![v],
    {
        let mut c: Vec<bool> = Vec::new();
        c.push(v);
        assert(c@ =~= seq![v]);
        Coils(c)
    }

    /// The coils of a list of values.
    pub fn from_bools(v: &[bool]) -> (r: Coils)
        ensures
            r.0@ == v@,
    {
        Coils(vstd::slice::slice_to_vec(v))
    }

    /// The coils from `idx` on; `idx` must lie inside.
    pub fn slice_at(&self, idx: usize) -> (r: Result<CoilSlice<'_>, ModbusError>)
        ensures
            r is Err <==> idx >= self.0@.len(),
            r matches Ok(s) ==> s.0@ == self.0@.subrange(idx as int, self.0@.len() as int),
    {
        if idx < self.0.len() {
            let (_, tail) = self.0.as_slice().split_at(idx);
            Ok(CoilSlice(tail))
        } else {
            Err(ModbusError::InvalidData)
        }
    }
}

impl<'a> CoilSlice<'a> {
    /// The first coil.
    pub fn to_bool(&self) -> (r: Result<bool, ModbusError>)
        ensures
            r is Err <==> self.0@.len() == 0,
            r matches Ok(v) ==> v == self.0@[0],
    {
        if self.0.len() == 0 {
            Err(ModbusError::InvalidData)
        } else {
            Ok(self.0[0])
        }
    }

    /// The first `n` coils.
    pub fn to_bools(&self, n: usize) -> (r: Result<Vec<bool>, ModbusError>)
        ensures
            r is Err <==> n > self.0@.len(),
            r matches Ok(v) ==> v@ == self.0@.subrange(0, n as int),
    {
        if n > self.0.len() {
            return Err(ModbusError::InvalidData);
        }
        let (head, _) = self.0.split_at(n);
        Ok(vstd::slice::slice_to_vec(head))
    }
}

impl Registers {
    /// The registers from `idx` on; `idx` must lie inside.
    pub fn slice_at(&self, idx: usize) -> (r: Result<RegisterSlice<'_>, ModbusError>)
        ensures
            r is Err <==> idx >= self.0@.len(),
            r matches Ok(s) ==> s.0@ == self.0@.subrange(idx as int, self.0@.len() as int),
    {
        if idx < self.0.len() {
            let (_, tail) = self.0.as_slice().split_at(idx);
            Ok(RegisterSlice(tail))
        } else {
            Err(ModbusError::InvalidData)
        }
    }

    /// A single register.
    pub fn from_u16(v: u16) -> (r: Registers)
        ensures
            r.0@ == seq![v],
    {
        let mut c: Vec<u16> = Vec::new();
        c.push(v);
        assert(c@ =~= seq![v]);
        Registers(c)
    }

    /// The registers of a list of values.
    pub fn from_u16s(v: &[u16]) -> (r: Registers)
        ensures
            r.0@ == v@,
    {
        Registers(vstd::slice::slice_to_vec(v))
    }

    /// A single register holding a signed value.
    pub fn from_i16(v: i16) -> (r: Registers)
        ensures
            r.0@ == seq![i16_bits(v)],
    {
        Registers::from_u16(i16_to_bits(v))
    }

    /// The registers of a list of signed values.
    pub fn from_i16s(v: &[i16]) -> (r: Registers)
        ensures
            r.0@ == v@.map_values(|x: i16| i16_bits(x)),
    {
        let mut out: Vec<u16> = Vec::new();
        let mut i: usize = 0;
        while i < v.len()
            invariant
                i <= v@.len(),
                out@ == v@.subrange(0, i as int).map_values(|x: i16| i16_bits(x)),
            decreases v@.len() - i,
        {
            out.push(i16_to_bits(v[i]));
            assert(v@.subrange(0, i + 1) == v@.subrange(0, i as int).push(v@[i as int]));
            assert(out@ =~= v@.subrange(0, i + 1).map_values(|x: i16| i16_bits(x)));
            i = i + 1;
        }
        assert(v@.subrange(0, v@.len() as int) == v@);
        Registers(out)
    }
}

impl<'a> RegisterSlice<'a> {
    /// The first register.
    pub fn to_u16(&self) -> (r: Result<u16, ModbusError>)
        ensures
            r is Err <==> self.0@.len() == 0,
            r matches Ok(v) ==> v == self.0@[0],
    {
        if self.0.len() == 0 {
            Err(ModbusError::InvalidData)
        } else {
            Ok(self.0[0])
        }
    }

    /// The first `n` registers.
    pub fn to_u16s(&self, n: usize) -> (r: Result<Vec<u16>, ModbusError>)
        ensures
            r is Err <==> n > self.0@.len(),
            r matches Ok(v) ==> v@ == self.0@.subrange(0, n as int),
    {
        if n > self.0.len() {
            return Err(ModbusError::InvalidData);
        }
        let (head, _) = self.0.split_at(n);
        Ok(vstd::slice::slice_to_vec(head))
    }

    /// The first register as a signed value.
    pub fn to_i16(&self) -> (r: Result<i16, ModbusError>)
        ensures
            r is Err <==> self.0@.len() == 0,
            r matches Ok(v) ==> v == i16_of_bits(self.0@[0]),
    {
        if self.0.len() == 0 {
            Err(ModbusError::InvalidData)
        } else {
            Ok(bits_to_i16(self.0[0]))
        }
    }

    /// The first `n` registers as signed values.
    pub fn to_i16s(&self, n: usize) -> (r: Result<Vec<i16>, ModbusError>)
        ensures
            r is Err <==> n > self.0@.len(),
            r matches Ok(v) ==> v@ == self.0@.subrange(0, n as int).map_values(|b: u16| i16_of_bits(b)),
    {
        if n > self.0.len() {
            return Err(ModbusError::InvalidData);
        }
        let mut out: Vec<i16> = Vec::new();
        let mut i: usize = 0;
        while i < n
            invariant
                n <= self.0@.len(),
                i <= n,
                out@ == self.0@.subrange(0, i as int).map_values(|b: u16| i16_of_bits(b)),
            decreases n - i,
        {
            out.push(bits_to_i16(self.0[i]));
            assert(self.0@.subrange(0, i + 1) == self.0@.subrange(0, i as int).push(self.0@[i as int]));
            assert(out@ =~= self.0@.subrange(0, i + 1).map_values(|b: u16| i16_of_bits(b)));
            i = i + 1;
        }
        Ok(out)
    }
}

/// The registers of a `u32` value, most significant first.
pub open spec fn words_u32(v: u32) -> Seq<u16> {
    words32(v)
}

/// The registers of a list of `u32` values, one after the other.
pub open spec fn words_u32_all(vs: Seq<u32>) -> Seq<u16>
    decreases vs.len(),
{
    if vs.len() == 0 {
        Seq::<u16>::empty()
    } else {
        words_u32_all(vs.drop_last()) + words_u32(vs.last())
    }
}

/// The `u32` held by the registers of `s` from position `i`.
pub open spec fn decode_u32(s: Seq<u16>, i: int) -> u32 {
    value32(s[i], s[i + 1])
}

/// The registers of a `i32` value, most significant first.
pub open spec fn words_i32(v: i32) -> Seq<u16> {
    words32(i32_bits(v))
}

/// The registers of a list of `i32` values, one after the other.
pub open spec fn words_i32_all(vs: Seq<i32>) -> Seq<u16>
    decreases vs.len(),
{
    if vs.len() == 0 {
        Seq::<u16>::empty()
    } else {
        words_i32_all(vs.drop_last()) + words_i32(vs.last())
    }
}

/// The `i32` held by the registers of `s` from position `i`.
pub open spec fn decode_i32(s: Seq<u16>, i: int) -> i32 {
    i32_of_bits(value32(s[i], s[i + 1]))
}

/// The registers of a `u64` value, most significant first.
pub open spec fn words_u64(v: u64) -> Seq<u16> {
    words64(v)
}

/// The registers of a list of `u64` values, one after the other.
pub open spec fn words_u64_all(vs: Seq<u64>) -> Seq<u16>
    decreases vs.len(),
{
    if vs.len() == 0 {
        Seq::<u16>::empty()
    } else {
        words_u64_all(vs.drop_last()) + words_u64(vs.last())
    }
}

/// The `u64` held by the registers of `s` from position `i`.
pub open spec fn decode_u64(s: Seq<u16>, i: int) -> u64 {
    value64(s[i], s[i + 1], s[i + 2], s[i + 3])
}

/// The registers of a `i64` value, most significant first.
pub open spec fn words_i64(v: i64) -> Seq<u16> {
    words64(i64_bits(v))
}

/// The registers of a list of `i64` values, one after the other.
pub open spec fn words_i64_all(vs: Seq<i64>) -> Seq<u16>
    decreases vs.len(),
{
    if vs.len() == 0 {
        Seq::<u16>::empty()
    } else {
        words_i64_all(vs.drop_last()) + words_i64(vs.last())
    }
}

/// The `i64` held by the registers of `s` from position `i`.
pub open spec fn decode_i64(s: Seq<u16>, i: int) -> i64 {
    i64_of_bits(value64(s[i], s[i + 1], s[i + 2], s[i + 3]))
}

/// The registers of a `u32` bit pattern, least significant first.
pub open spec fn words_f32_bits(v: u32) -> Seq<u16> {
    words32(v).reverse()
}

/// The registers of a list of `u32` bit patterns, one after the other.
pub open spec fn words_f32_bits_all(vs: Seq<u32>) -> Seq<u16>
    decreases vs.len(),
{
    if vs.len() == 0 {
        Seq::<u16>::empty()
    } else {
        words_f32_bits_all(vs.drop_last()) + words_f32_bits(vs.last())
    }
}

/// The `u32` held by the registers of `s` from position `i`.
pub open spec fn decode_f32_bits(s: Seq<u16>, i: int) -> u32 {
    value32(s[i + 1], s[i])
}

/// The registers of a `u64` bit pattern, least significant first.
pub open spec fn words_f64_bits(v: u64) -> Seq<u16> {
    words64(v).reverse()
}

/// The registers of a list of `u64` bit patterns, one after the other.
pub open spec fn words_f64_bits_all(vs: Seq<u64>) -> Seq<u16>
    decreases vs.len(),
{
    if vs.len() == 0 {
        Seq::<u16>::empty()
    } else {
        words_f64_bits_all(vs.drop_last()) + words_f64_bits(vs.last())
    }
}

/// The `u64` held by the registers of `s` from position `i`.
pub open spec fn decode_f64_bits(s: Seq<u16>, i: int) -> u64 {
    value64(s[i + 3], s[i + 2], s[i + 1], s[i])
}

impl Registers {

    /// The registers of a `u32`.
    pub fn from_u32(v: u32) -> (r: Registers)
        ensures
            r.0@ == words_u32(v),
    {
        let a = u32_to_modbus_array(v);
        let mut out: Vec<u16> = Vec::new();
        out.push(a[0]);
        out.push(a[1]);
        assert(out@ =~= words_u32(v));
        Registers(out)
    }

    /// The registers of a list of `u32` values, one after the other.
    pub fn from_u32s(vs: &[u32]) -> (r: Registers)
        ensures
            r.0@ == words_u32_all(vs@),
    {
        let mut out: Vec<u16> = Vec::new();
        let mut i: usize = 0;
        while i < vs.len()
            invariant
                i <= vs@.len(),
                out@ == words_u32_all(vs@.subrange(0, i as int)),
            decreases vs@.len() - i,
        {
            let a = u32_to_modbus_array(vs[i]);
            out.push(a[0]);
            out.push(a[1]);
            assert(vs@.subrange(0, i + 1).drop_last() == vs@.subrange(0, i as int));
            assert(out@ =~= words_u32_all(vs@.subrange(0, i + 1)));
            i = i + 1;
        }
        assert(vs@.subrange(0, vs@.len() as int) == vs@);
        Registers(out)
    }

    /// The registers of a `i32`.
    pub fn from_i32(v: i32) -> (r: Registers)
        ensures
            r.0@ == words_i32(v),
    {
        let a = u32_to_modbus_array(i32_to_bits(v));
        let mut out: Vec<u16> = Vec::new();
        out.push(a[0]);
        out.push(a[1]);
        assert(out@ =~= words_i32(v));
        Registers(out)
    }

    /// The registers of a list of `i32` values, one after the other.
    pub fn from_i32s(vs: &[i32]) -> (r: Registers)
        ensures
            r.0@ == words_i32_all(vs@),
    {
        let mut out: Vec<u16> = Vec::new();
        let mut i: usize = 0;
        while i < vs.len()
            invariant
                i <= vs@.len(),
                out@ == words_i32_all(vs@.subrange(0, i as int)),
            decreases vs@.len() - i,
        {
            let a = u32_to_modbus_array(i32_to_bits(vs[i]));
            out.push(a[0]);
            out.push(a[1]);
            assert(vs@.subrange(0, i + 1).drop_last() == vs@.subrange(0, i as int));
            assert(out@ =~= words_i32_all(vs@.subrange(0, i + 1)));
            i = i + 1;
        }
        assert(vs@.subrange(0, vs@.len() as int) == vs@);
        Registers(out)
    }

    /// The registers of a `u64`.
    pub fn from_u64(v: u64) -> (r: Registers)
        ensures
            r.0@ == words_u64(v),
    {
        let a = u64_to_modbus_array(v);
        let mut out: Vec<u16> = Vec::new();
        out.push(a[0]);
        out.push(a[1]);
        out.push(a[2]);
        out.push(a[3]);
        assert(out@ =~= words_u64(v));
        Registers(out)
    }

    /// The registers of a list of `u64` values, one after the other.
    pub fn from_u64s(vs: &[u64]) -> (r: Registers)
        ensures
            r.0@ == words_u64_all(vs@),
    {
        let mut out: Vec<u16> = Vec::new();
        let mut i: usize = 0;
        while i < vs.len()
            invariant
                i <= vs@.len(),
                out@ == words_u64_all(vs@.subrange(0, i as int)),
            decreases vs@.len() - i,
        {
            let a = u64_to_modbus_array(vs[i]);
            out.push(a[0]);
            out.push(a[1]);
            out.push(a[2]);
            out.push(a[3]);
            assert(vs@.subrange(0, i + 1).drop_last() == vs@.subrange(0, i as int));
            assert(out@ =~= words_u64_all(vs@.subrange(0, i + 1)));
            i = i + 1;
        }
        assert(vs@.subrange(0, vs@.len() as int) == vs@);
        Registers(out)
    }

    /// The registers of a `i64`.
    pub fn from_i64(v: i64) -> (r: Registers)
        ensures
            r.0@ == words_i64(v),
    {
        let a = u64_to_modbus_array(i64_to_bits(v));
        let mut out: Vec<u16> = Vec::new();
        out.push(a[0]);
        out.push(a[1]);
        out.push(a[2]);
        out.push(a[3]);
        assert(out@ =~= words_i64(v));
        Registers(out)
    }

    /// The registers of a list of `i64` values, one after the other.
    pub fn from_i64s(vs: &[i64]) -> (r: Registers)
        ensures
            r.0@ == words_i64_all(vs@),
    {
        let mut out: Vec<u16> = Vec::new();
        let mut i: usize = 0;
        while i < vs.len()
            invariant
                i <= vs@.len(),
                out@ == words_i64_all(vs@.subrange(0, i as int)),
            decreases vs@.len() - i,
        {
            let a = u64_to_modbus_array(i64_to_bits(vs[i]));
            out.push(a[0]);
            out.push(a[1]);
            out.push(a[2]);
            out.push(a[3]);
            assert(vs@.subrange(0, i + 1).drop_last() == vs@.subrange(0, i as int));
            assert(out@ =~= words_i64_all(vs@.subrange(0, i + 1)));
            i = i + 1;
        }
        assert(vs@.subrange(0, vs@.len() as int) == vs@);
        Registers(out)
    }

    /// The registers of a `u32` bit pattern.
    pub fn from_f32_bits(v: u32) -> (r: Registers)
        ensures
            r.0@ == words_f32_bits(v),
    {
        let a = u32_to_modbus_array(v);
        let mut out: Vec<u16> = Vec::new();
        out.push(a[1]);
        out.push(a[0]);
        assert(out@ =~= words_f32_bits(v));
        Registers(out)
    }

    /// The registers of a list of `u32` bit patterns, one after the other.
    pub fn from_f32_bits_all(vs: &[u32]) -> (r: Registers)
        ensures
            r.0@ == words_f32_bits_all(vs@),
    {
        let mut out: Vec<u16> = Vec::new();
        let mut i: usize = 0;
        while i < vs.len()
            invariant
                i <= vs@.len(),
                out@ == words_f32_bits_all(vs@.subrange(0, i as int)),
            decreases vs@.len() - i,
        {
            let a = u32_to_modbus_array(vs[i]);
            out.push(a[1]);
            out.push(a[0]);
            assert(vs@.subrange(0, i + 1).drop_last() == vs@.subrange(0, i as int));
            assert(out@ =~= words_f32_bits_all(vs@.subrange(0, i + 1)));
            i = i + 1;
        }
        assert(vs@.subrange(0, vs@.len() as int) == vs@);
        Registers(out)
    }

    /// The registers of a `u64` bit pattern.
    pub fn from_f64_bits(v: u64) -> (r: Registers)
        ensures
            r.0@ == words_f64_bits(v),
    {
        let a = u64_to_modbus_array(v);
        let mut out: Vec<u16> = Vec::new();
        out.push(a[3]);
        out.push(a[2]);
        out.push(a[1]);
        out.push(a[0]);
        assert(out@ =~= words_f64_bits(v));
        Registers(out)
    }

    /// The registers of a list of `u64` bit patterns, one after the other.
    pub fn from_f64_bits_all(vs: &[u64]) -> (r: Registers)
        ensures
            r.0@ == words_f64_bits_all(vs@),
    {
        let mut out: Vec<u16> = Vec::new();
        let mut i: usize = 0;
        while i < vs.len()
            invariant
                i <= vs@.len(),
                out@ == words_f64_bits_all(vs@.subrange(0, i as int)),
            decreases vs@.len() - i,
        {
            let a = u64_to_modbus_array(vs[i]);
            out.push(a[3]);
            out.push(a[2]);
            out.push(a[1]);
            out.push(a[0]);
            assert(vs@.subrange(0, i + 1).drop_last() == vs@.subrange(0, i as int));
            assert(out@ =~= words_f64_bits_all(vs@.subrange(0, i + 1)));
            i = i + 1;
        }
        assert(vs@.subrange(0, vs@.len() as int) == vs@);
        Registers(out)
    }
}

impl<'a> RegisterSlice<'a> {

    /// The `u32` held by the first 2 registers.
    pub fn to_u32(&self) -> (r: Result<u32, ModbusError>)
        ensures
            r is Err <==> self.0@.len() < 2,
            r matches Ok(v) ==> v == decode_u32(self.0@, 0),
    {
        if self.0.len() < 2 {
            return Err(ModbusError::InvalidData);
        }
        let b: u32 = read32(self.0, 0);
        Ok(b)
    }

    /// The first `n` values of `u32`, 2 registers each.
    pub fn to_u32s(&self, n: usize) -> (r: Result<Vec<u32>, ModbusError>)
        ensures
            r is Err <==> 2 * n > self.0@.len(),
            r matches Ok(v) ==> v@.len() == n && forall|k: int| 0 <= k < n ==> #[trigger] v@[k] == decode_u32(self.0@, 2 * k),
    {
        if n > self.0.len() / 2 {
            return Err(ModbusError::InvalidData);
        }
        let mut out: Vec<u32> = Vec::new();
        let mut i: usize = 0;
        while i < n
            invariant
                n <= self.0@.len() / 2,
                i <= n,
                out@.len() == i,
                forall|k: int| 0 <= k < i ==> #[trigger] out@[k] == decode_u32(self.0@, 2 * k),
            decreases n - i,
        {
            let len = self.0.len();
            assert(i * 2 + 2 <= self.0@.len()) by (nonlinear_arith)
                requires i < n, n <= self.0@.len() / 2;
            let j = i * 2;
            let b: u32 = read32(self.0, j);
            out.push(b);
            i = i + 1;
        }
        Ok(out)
    }

    /// The `i32` held by the first 2 registers.
    pub fn to_i32(&self) -> (r: Result<i32, ModbusError>)
        ensures
            r is Err <==> self.0@.len() < 2,
            r matches Ok(v) ==> v == decode_i32(self.0@, 0),
    {
        if self.0.len() < 2 {
            return Err(ModbusError::InvalidData);
        }
        let b: u32 = read32(self.0, 0);
        Ok(bits_to_i32(b))
    }

    /// The first `n` values of `i32`, 2 registers each.
    pub fn to_i32s(&self, n: usize) -> (r: Result<Vec<i32>, ModbusError>)
        ensures
            r is Err <==> 2 * n > self.0@.len(),
            r matches Ok(v) ==> v@.len() == n && forall|k: int| 0 <= k < n ==> #[trigger] v@[k] == decode_i32(self.0@, 2 * k),
    {
        if n > self.0.len() / 2 {
            return Err(ModbusError::InvalidData);
        }
        let mut out: Vec<i32> = Vec::new();
        let mut i: usize = 0;
        while i < n
            invariant
                n <= self.0@.len() / 2,
                i <= n,
                out@.len() == i,
                forall|k: int| 0 <= k < i ==> #[trigger] out@[k] == decode_i32(self.0@, 2 * k),
            decreases n - i,
        {
            let len = self.0.len();
            assert(i * 2 + 2 <= self.0@.len()) by (nonlinear_arith)
                requires i < n, n <= self.0@.len() / 2;
            let j = i * 2;
            let b: u32 = read32(self.0, j);
            out.push(bits_to_i32(b));
            i = i + 1;
        }
        Ok(out)
    }

    /// The `u64` held by the first 4 registers.
    pub fn to_u64(&self) -> (r: Result<u64, ModbusError>)
        ensures
            r is Err <==> self.0@.len() < 4,
            r matches Ok(v) ==> v == decode_u64(self.0@, 0),
    {
        if self.0.len() < 4 {
            return Err(ModbusError::InvalidData);
        }
        let b: u64 = read64(self.0, 0);
        Ok(b)
    }

    /// The first `n` values of `u64`, 4 registers each.
    pub fn to_u64s(&self, n: usize) -> (r: Result<Vec<u64>, ModbusError>)
        ensures
            r is Err <==> 4 * n > self.0@.len(),
            r matches Ok(v) ==> v@.len() == n && forall|k: int| 0 <= k < n ==> #[trigger] v@[k] == decode_u64(self.0@, 4 * k),
    {
        if n > self.0.len() / 4 {
            return Err(ModbusError::InvalidData);
        }
        let mut out: Vec<u64> = Vec::new();
        let mut i: usize = 0;
        while i < n
            invariant
                n <= self.0@.len() / 4,
                i <= n,
                out@.len() == i,
                forall|k: int| 0 <= k < i ==> #[trigger] out@[k] == decode_u64(self.0@, 4 * k),
            decreases n - i,
        {
            let len = self.0.len();
            assert(i * 4 + 4 <= self.0@.len()) by (nonlinear_arith)
                requires i < n, n <= self.0@.len() / 4;
            let j = i * 4;
            let b: u64 = read64(self.0, j);
            out.push(b);
            i = i + 1;
        }
        Ok(out)
    }

    /// The `i64` held by the first 4 registers.
    pub fn to_i64(&self) -> (r: Result<i64, ModbusError>)
        ensures
            r is Err <==> self.0@.len() < 4,
            r matches Ok(v) ==> v == decode_i64(self.0@, 0),
    {
        if self.0.len() < 4 {
            return Err(ModbusError::InvalidData);
        }
        let b: u64 = read64(self.0, 0);
        Ok(bits_to_i64(b))
    }

    /// The first `n` values of `i64`, 4 registers each.
    pub fn to_i64s(&self, n: usize) -> (r: Result<Vec<i64>, ModbusError>)
        ensures
            r is Err <==> 4 * n > self.0@.len(),
            r matches Ok(v) ==> v@.len() == n && forall|k: int| 0 <= k < n ==> #[trigger] v@[k] == decode_i64(self.0@, 4 * k),
    {
        if n > self.0.len() / 4 {
            return Err(ModbusError::InvalidData);
        }
        let mut out: Vec<i64> = Vec::new();
        let mut i: usize = 0;
        while i < n
            invariant
                n <= self.0@.len() / 4,
                i <= n,
                out@.len() == i,
                forall|k: int| 0 <= k < i ==> #[trigger] out@[k] == decode_i64(self.0@, 4 * k),
            decreases n - i,
        {
            let len = self.0.len();
            assert(i * 4 + 4 <= self.0@.len()) by (nonlinear_arith)
                requires i < n, n <= self.0@.len() / 4;
            let j = i * 4;
            let b: u64 = read64(self.0, j);
            out.push(bits_to_i64(b));
            i = i + 1;
        }
        Ok(out)
    }

    /// The `u32` held by the first 2 registers.
    pub fn to_f32_bits(&self) -> (r: Result<u32, ModbusError>)
        ensures
            r is Err <==> self.0@.len() < 2,
            r matches Ok(v) ==> v == decode_f32_bits(self.0@, 0),
    {
        if self.0.len() < 2 {
            return Err(ModbusError::InvalidData);
        }
        let b: u32 = (self.0[1] as u32 * 65536 + self.0[0] as u32);
        Ok(b)
    }

    /// The first `n` values of `u32`, 2 registers each.
    pub fn to_f32_bits_all(&self, n: usize) -> (r: Result<Vec<u32>, ModbusError>)
        ensures
            r is Err <==> 2 * n > self.0@.len(),
            r matches Ok(v) ==> v@.len() == n && forall|k: int| 0 <= k < n ==> #[trigger] v@[k] == decode_f32_bits(self.0@, 2 * k),
    {
        if n > self.0.len() / 2 {
            return Err(ModbusError::InvalidData);
        }
        let mut out: Vec<u32> = Vec::new();
        let mut i: usize = 0;
        while i < n
            invariant
                n <= self.0@.len() / 2,
                i <= n,
                out@.len() == i,
                forall|k: int| 0 <= k < i ==> #[trigger] out@[k] == decode_f32_bits(self.0@, 2 * k),
            decreases n - i,
        {
            let len = self.0.len();
            assert(i * 2 + 2 <= self.0@.len()) by (nonlinear_arith)
                requires i < n, n <= self.0@.len() / 2;
            let j = i * 2;
            let b: u32 = (self.0[j + 1] as u32 * 65536 + self.0[j] as u32);
            out.push(b);
            i = i + 1;
        }
        Ok(out)
    }

    /// The `u64` held by the first 4 registers.
    pub fn to_f64_bits(&self) -> (r: Result<u64, ModbusError>)
        ensures
            r is Err <==> self.0@.len() < 4,
            r matches Ok(v) ==> v == decode_f64_bits(self.0@, 0),
    {
        if self.0.len() < 4 {
            return Err(ModbusError::InvalidData);
        }
        let b: u64 = (self.0[3] as u64 * 0x1_0000_0000_0000 + self.0[2] as u64 * 0x1_0000_0000 + self.0[1] as u64 * 65536 + self.0[0] as u64);
        Ok(b)
    }

    /// The first `n` values of `u64`, 4 registers each.
    pub fn to_f64_bits_all(&self, n: usize) -> (r: Result<Vec<u64>, ModbusError>)
        ensures
            r is Err <==> 4 * n > self.0@.len(),
            r matches Ok(v) ==> v@.len() == n && forall|k: int| 0 <= k < n ==> #[trigger] v@[k] == decode_f64_bits(self.0@, 4 * k),
    {
        if n > self.0.len() / 4 {
            return Err(ModbusError::InvalidData);
        }
        let mut out: Vec<u64> = Vec::new();
        let mut i: usize = 0;
        while i < n
            invariant
                n <= self.0@.len() / 4,
                i <= n,
                out@.len() == i,
                forall|k: int| 0 <= k < i ==> #[trigger] out@[k] == decode_f64_bits(self.0@, 4 * k),
            decreases n - i,
        {
            let len = self.0.len();
            assert(i * 4 + 4 <= self.0@.len()) by (nonlinear_arith)
                requires i < n, n <= self.0@.len() / 4;
            let j = i * 4;
            let b: u64 = (self.0[j + 3] as u64 * 0x1_0000_0000_0000 + self.0[j + 2] as u64 * 0x1_0000_0000 + self.0[j + 1] as u64 * 65536 + self.0[j] as u64);
            out.push(b);
            i = i + 1;
        }
        Ok(out)
    }
}

} // verus!
