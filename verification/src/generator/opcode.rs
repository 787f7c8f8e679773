//! The fixed opcode table of the Simpla virtual machine. Arithmetic,
//! comparison, load, store, store-to-parameter, read and write come in
//! per-kind variants; the suffix names the kind (integer, real,
//! boolean, string).

use vstd::prelude::*;

verus! {

pub const ADDI: u8 = 0;

pub const SUBI: u8 = 1;

pub const MULI: u8 = 2;

pub const DIVI: u8 = 3;

pub const GEQI: u8 = 4;

pub const GRI: u8 = 5;

pub const LEQI: u8 = 6;

pub const LESQI: u8 = 7;

pub const EQI: u8 = 8;

pub const NEI: u8 = 9;

pub const ADDR: u8 = 10;

pub const SUBR: u8 = 11;

pub const MULR: u8 = 12;

pub const DIVR: u8 = 13;

pub const GEQR: u8 = 14;

pub const GRR: u8 = 15;

pub const LEQR: u8 = 16;

pub const LESQR: u8 = 17;

pub const EQR: u8 = 18;

pub const NER: u8 = 19;

pub const CSTI: u8 = 20;

pub const CSTR: u8 = 21;

pub const OR: u8 = 22;

pub const AND: u8 = 23;

pub const RDI: u8 = 24;

pub const RDR: u8 = 25;

pub const RDB: u8 = 26;

pub const RDS: u8 = 27;

pub const WRI: u8 = 28;

pub const WRR: u8 = 29;

pub const WRB: u8 = 30;

pub const WRS: u8 = 31;

pub const WRLI: u8 = 32;

pub const WRLR: u8 = 33;

pub const WRLB: u8 = 34;

pub const WRLS: u8 = 35;

pub const LDI: u8 = 36;

pub const LDR: u8 = 37;

pub const LDB: u8 = 38;

pub const LDS: u8 = 39;

pub const STRI: u8 = 40;

pub const STRR: u8 = 41;

pub const STRB: u8 = 42;

pub const STRS: u8 = 43;

pub const JUMP: u8 = 44;

pub const JEQ: u8 = 45;

pub const JNE: u8 = 46;

pub const LBL: u8 = 47;

pub const CALL: u8 = 48;

pub const RET: u8 = 49;

pub const EXT: u8 = 50;

pub const LDIC: u8 = 51;

pub const LDRC: u8 = 52;

pub const LDBC: u8 = 53;

pub const LDSC: u8 = 54;

pub const PARAM: u8 = 55;

pub const STRIP: u8 = 56;

pub const STRRP: u8 = 57;

pub const STRBP: u8 = 58;

pub const STRSP: u8 = 59;

pub const FUNC: u8 = 60;

pub const EQB: u8 = 61;

pub const NEB: u8 = 62;

pub const GRB: u8 = 63;

pub const GEQB: u8 = 64;

pub const LESQB: u8 = 65;

pub const LEQB: u8 = 66;

pub const EQS: u8 = 67;

pub const NES: u8 = 68;

pub const GRS: u8 = 69;

pub const GEQS: u8 = 70;

pub const LESQS: u8 = 71;

pub const LEQS: u8 = 72;

pub const NEGI: u8 = 73;

pub const NEGR: u8 = 74;

pub const NOT: u8 = 75;

pub const INIT: u8 = 76;

pub const FLU: u8 = 77;

pub const FLN: u8 = 78;

pub const BFOR: u8 = 79;

pub const CFOR: u8 = 80;

pub const EFOR: u8 = 81;

} // verus!
