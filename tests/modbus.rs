use rplc::modbus::regs::{calc_offset, calc_offset_base, Kind, MapOffset, Reg, RegBase, RegError};
use rplc::modbus::types::{Coils, Registers};

#[test]
fn test_coils() {
    let coil = true;
    let coils = Coils::from_bool(coil);
    assert_eq!(coils.0, vec![true]);
    let coils = Coils::from_bools(&[true, false, true, true]);
    let coil: bool = coils.slice_at(0).unwrap().to_bool().unwrap();
    assert_eq!(coil, true);
    let coil_array = coils.slice_at(1).unwrap().to_bools(3).unwrap();
    assert_eq!(coil_array, [false, true, true]);
    assert!(coils.slice_at(2).unwrap().to_bools(3).is_err());
}

#[test]
fn test_u16() {
    let reg = 0xFFAAu16;
    let regs = Registers::from_u16(reg);
    assert_eq!(regs.0, vec![reg]);
    let regs = Registers::from_u16s(&[0xAABBu16, 0xCCDD, 0xEEFF, 0x1122]);
    let reg: u16 = regs.slice_at(0).unwrap().to_u16().unwrap();
    assert_eq!(reg, 0xAABB);
    let reg_array = regs.slice_at(1).unwrap().to_u16s(3).unwrap();
    assert_eq!(reg_array, [0xCCDD, 0xEEFF, 0x1122]);
    assert!(regs.slice_at(2).unwrap().to_u16s(3).is_err());
}

#[test]
fn test_i16() {
    let reg = -1122i16;
    let regs = Registers::from_i16(reg);
    assert_eq!(regs.0, vec![0xFB9E]);
    let regs = Registers::from_u16s(&[0xEE99u16, 0xFB9E, 0xDB96, 0xE42D]);
    let reg: i16 = regs.slice_at(0).unwrap().to_i16().unwrap();
    assert_eq!(reg, -4455);
    let reg_array = regs.slice_at(1).unwrap().to_i16s(3).unwrap();
    assert_eq!(reg_array, [-1122, -9322, -7123]);
    assert!(regs.slice_at(2).unwrap().to_i16s(3).is_err());
}

#[test]
fn test_u32() {
    let reg = 0xFFAA1122u32;
    let regs = Registers::from_u32(reg);
    assert_eq!(regs.0, vec![0xFFAA, 0x1122]);
    let vals = [
        0x378cu16, 0x50e, 0x2ead, 0xaf67, 0x1302, 0x3cc4, 0x495e, 0xcbdf,
    ];
    let regs = Registers::from_u16s(&vals);
    let reg: u32 = regs.slice_at(0).unwrap().to_u32().unwrap();
    assert_eq!(reg, 931923214);
    let reg_array = regs.slice_at(2).unwrap().to_u32s(3).unwrap();
    assert_eq!(reg_array, [783134567, 318913732, 1230949343]);
    assert!(regs.slice_at(4).unwrap().to_u32s(3).is_err());
    let arr = [931923214u32, 783134567, 318913732, 1230949343];
    let regs = Registers::from_u32s(&arr);
    assert_eq!(regs.0, vals);
    let arr2 = regs.slice_at(0).unwrap().to_u32s(4).unwrap();
    assert_eq!(arr.to_vec(), arr2);
}

#[test]
fn test_i32() {
    let reg = -1230949343i32;
    let regs = Registers::from_i32(reg);
    assert_eq!(regs.slice_at(0).unwrap().to_i32().unwrap(), -1230949343i32);
    assert_eq!(regs.0, vec![0xb6a1u16, 0x3421]);
    let vals = [
        0xb6a1u16, 0x3421, 0xc86d, 0xe06f, 0xd0c6, 0x1b75, 0xd7df, 0x94e2,
    ];
    let regs = Registers::from_u16s(&vals);
    let reg: i32 = regs.slice_at(0).unwrap().to_i32().unwrap();
    assert_eq!(reg, -1230949343i32);
    let reg_array = regs.slice_at(2).unwrap().to_i32s(3).unwrap();
    assert_eq!(reg_array, [-932323217, -792323211, -673213214]);
    assert!(regs.slice_at(4).unwrap().to_i32s(3).is_err());
    let arr = [-1230949343i32, -932323217, -792323211, -673213214];
    let regs = Registers::from_i32s(&arr);
    assert_eq!(regs.0, vals);
    let arr2 = regs.slice_at(0).unwrap().to_i32s(4).unwrap();
    assert_eq!(arr.to_vec(), arr2);
}

#[test]
fn test_u64() {
    let reg = 0xFFAA112299FF5577u64;
    let regs = Registers::from_u64(reg);
    assert_eq!(regs.0, vec![0xFFAA, 0x1122, 0x99FF, 0x5577]);
    let vals = [
        0x5d6du16, 0x5685, 0xa5b0, 0x63f7, 0x6b2a, 0x873f, 0xcfcf, 0x91d7, 0xeefe, 0x7662,
        0xde73, 0x1997, 0x70b7, 0x9d21, 0x458b, 0x82a5,
    ];
    let regs = Registers::from_u16s(&vals);
    let reg: u64 = regs.slice_at(0).unwrap().to_u64().unwrap();
    assert_eq!(reg, 6732132149999199223);
    let reg_array = regs.slice_at(4).unwrap().to_u64s(3).unwrap();
    assert_eq!(
        reg_array,
        [
            7722133219219313111,
            17221332192122313111,
            8122133219212231333
        ]
    );
    assert!(regs.slice_at(8).unwrap().to_u64s(3).is_err());
    let arr = [
        6732132149999199223u64,
        7722133219219313111,
        17221332192122313111,
        8122133219212231333,
    ];
    let regs = Registers::from_u64s(&arr);
    assert_eq!(regs.0, vals);
    let arr2 = regs.slice_at(0).unwrap().to_u64s(4).unwrap();
    assert_eq!(arr.to_vec(), arr2);
}

#[test]
fn test_i64() {
    let reg = -8122133219212231333i64;
    let regs = Registers::from_i64(reg);
    assert_eq!(regs.0, vec![0x8f48, 0x62de, 0xba74, 0x7d5b]);
    let vals = [
        0x8f48u16, 0x62de, 0xba74, 0x7d5b, 0xd3ad, 0x43e0, 0x9b4, 0xd91b, 0x9a6c, 0x54ac,
        0xd3a1, 0x3ca3, 0xfcca, 0x788a, 0xd88c, 0xd4a3,
    ];
    let regs = Registers::from_u16s(&vals);
    let reg: i64 = regs.slice_at(0).unwrap().to_i64().unwrap();
    assert_eq!(reg, -8122133219212231333i64);
    let reg_array = regs.slice_at(4).unwrap().to_i64s(3).unwrap();
    assert_eq!(
        reg_array,
        [
            -3193821931221231333,
            -7319382193122231133,
            -231239893122231133,
        ]
    );
    assert!(regs.slice_at(8).unwrap().to_u64s(3).is_err());
    let arr = [
        -8122133219212231333i64,
        -3193821931221231333,
        -7319382193122231133,
        -231239893122231133,
    ];
    let regs = Registers::from_i64s(&arr);
    assert_eq!(regs.0, vals);
    let arr2 = regs.slice_at(0).unwrap().to_i64s(4).unwrap();
    assert_eq!(arr.to_vec(), arr2);
}

#[test]
fn test_f32() {
    let reg = 38321.312f32;
    let regs = Registers::from_f32_bits(reg.to_bits());
    assert_eq!(regs.0, vec![0xb150, 0x4715]);
    let vals = [
        0xb150u16, 0x4715, 0xb8e3, 0x45f4, 0x51ec, 0xc49a, 0x3148, 0xc7b2,
    ];
    let regs = Registers::from_u16s(&vals);
    let reg = f32::from_bits(regs.slice_at(0).unwrap().to_f32_bits().unwrap());
    assert_eq!(reg, 38321.312);
    let reg_array: Vec<f32> = regs
        .slice_at(2)
        .unwrap()
        .to_f32_bits_all(3)
        .unwrap()
        .into_iter()
        .map(f32::from_bits)
        .collect();
    assert_eq!(reg_array, [7831.111, -1234.56, -91234.56]);
    assert!(regs.slice_at(4).unwrap().to_f32_bits_all(3).is_err());
    let arr = [38321.312f32, 7831.111, -1234.56, -91234.56];
    let bits: Vec<u32> = arr.iter().map(|v| v.to_bits()).collect();
    let regs = Registers::from_f32_bits_all(&bits);
    assert_eq!(regs.0, vals);
    let arr2: Vec<f32> = regs
        .slice_at(0)
        .unwrap()
        .to_f32_bits_all(4)
        .unwrap()
        .into_iter()
        .map(f32::from_bits)
        .collect();
    assert_eq!(arr.to_vec(), arr2);
}

#[test]
fn test_f64() {
    let reg1 = 3832194.312f64;
    let regs = Registers::from_f64_bits(reg1.to_bits());
    assert_eq!(regs.0, vec![0x9db2, 0x27ef, 0x3cc1, 0x414d,]);
    let reg2 = 9832194.971f64;
    let regs = Registers::from_f64_bits(reg2.to_bits());
    assert_eq!(regs.0, vec![0x6e98, 0x5f12, 0xc0e0, 0x4162,]);
    let reg3 = -9732194.121f64;
    let regs = Registers::from_f64_bits(reg3.to_bits());
    assert_eq!(regs.0, vec![0x3b64, 0x43df, 0x900c, 0xc162,]);
    let reg4 = -1132194.92192f64;
    let regs = Registers::from_f64_bits(reg4.to_bits());
    assert_eq!(regs.0, vec![0xf2fa, 0xec02, 0x46a2, 0xc131,]);
    let vals = [
        0x9db2u16, 0x27ef, 0x3cc1, 0x414d, 0x6e98, 0x5f12, 0xc0e0, 0x4162, 0x3b64, 0x43df,
        0x900c, 0xc162, 0xf2fa, 0xec02, 0x46a2, 0xc131,
    ];
    let regs = Registers::from_u16s(&vals);
    let reg = f64::from_bits(regs.slice_at(0).unwrap().to_f64_bits().unwrap());
    assert_eq!(reg, reg1);
    let reg_array: Vec<f64> = regs
        .slice_at(4)
        .unwrap()
        .to_f64_bits_all(3)
        .unwrap()
        .into_iter()
        .map(f64::from_bits)
        .collect();
    assert_eq!(reg_array, [reg2, reg3, reg4]);
    assert!(regs.slice_at(8).unwrap().to_f64_bits_all(3).is_err());
    let arr = [reg1, reg2, reg3, reg4];
    let bits: Vec<u64> = arr.iter().map(|v| v.to_bits()).collect();
    let regs = Registers::from_f64_bits_all(&bits);
    assert_eq!(regs.0, vals);
    let arr2: Vec<f64> = regs
        .slice_at(0)
        .unwrap()
        .to_f64_bits_all(4)
        .unwrap()
        .into_iter()
        .map(f64::from_bits)
        .collect();
    assert_eq!(arr.to_vec(), arr2);
}

#[test]
fn register_blocks_parse() {
    assert_eq!(
        RegBase::from_str("h100"),
        Ok(RegBase { kind: Kind::Holding, offset: 100, number: 1 })
    );
    assert_eq!(
        RegBase::from_str("c10-19"),
        Ok(RegBase { kind: Kind::Coil, offset: 10, number: 10 })
    );
    assert_eq!(
        RegBase::from_str("i5-i7"),
        Ok(RegBase { kind: Kind::Input, offset: 5, number: 3 })
    );
    assert_eq!(RegBase::from_str("i5-h7"), Err(RegError::InvalidRange));
    assert_eq!(RegBase::from_str("d9-3"), Err(RegError::InvalidRange));
    assert_eq!(RegBase::from_str("x1"), Err(RegError::InvalidKind));
    assert_eq!(RegBase::from_str("h70000"), Err(RegError::InvalidNumber));
    assert_eq!(RegBase::from_str("h0-65535"), Err(RegError::InvalidRange));
    let mut reg = Reg::new("h2-5", None).unwrap();
    assert_eq!(reg.kind(), Kind::Holding);
    assert_eq!(reg.offset(), 2);
    assert_eq!(reg.number(), 4);
    reg.update();
    assert_eq!(reg.number, Some(4));
    let reg = Reg::new("d1", Some(8)).unwrap();
    assert_eq!(reg.number(), 8);
    assert_eq!(Kind::Coil.as_helper_type_str(), "Coils");
    assert_eq!(Kind::Holding.as_type_str(), "u16");
    assert_eq!(Kind::Input.as_type_default_value_str(), "0");
}

#[test]
fn offsets_normalize() {
    assert_eq!(calc_offset("10+2+3"), Ok(15));
    assert_eq!(calc_offset("65535+1"), Err(RegError::InvalidOffset));
    assert_eq!(calc_offset("1+x"), Err(RegError::InvalidOffset));
    assert_eq!(calc_offset_base("=120+5", 100), Ok(25));
    assert_eq!(calc_offset_base("=50", 100), Err(RegError::InvalidOffset));
    assert_eq!(calc_offset_base("7", 100), Ok(7));
    let mut mo = MapOffset::from_text("=1010");
    assert!(!mo.is_normalized());
    assert_eq!(mo.normalize(1000), Ok(()));
    assert_eq!(mo.offset(), 10);
    let mut mo = MapOffset::from_num(4);
    assert_eq!(mo.normalize(1000), Ok(()));
    assert_eq!(mo.offset(), 4);
}
