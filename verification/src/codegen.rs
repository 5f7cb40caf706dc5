//! Lowering of parsed instructions into field codes, and the packing of the
//! codes into 40-bit microinstruction words.
//!
//! A word is laid out, from the most significant bit down, as
//! `LB:4 | RB:4 | AL:3 | SH:3 | SB:4 | MM:2 | SQ:4 | low:16`.

use vstd::prelude::*;
use crate::error::{AsmError, AsmErrorView};
use crate::parser::{
    Alu,
    CalculationStatement,
    ExStatement,
    Flag,
    FlagState,
    Instruction,
    InstructionView,
    instruction_views,
    Lbus,
    LbusOrRbus,
    LbusSource,
    MachineAddress,
    MachineCode,
    MemoryStatement,
    Rbus,
    RbusSource,
    Sbus,
    Shift,
    Statement,
    TestAndSequenceStatement,
    TestAndSequenceStatementView,
};
use crate::symbol::SymbolTable;
use crate::text::str_eq;

verus! {

/// What drives the left bus.
#[derive(Clone, Copy, Debug, PartialEq, Eq, Structural)]
pub enum Lb {
    R0l,
    R1l,
    R2l,
    R3l,
    R4l,
    R5l,
    R6l,
    R7l,
    Rb,
    Rbp,
    Pc,
    Io,
    Mm,
    Ir,
    Fsr,
    Nlb,
}

impl Lb {
    /// The field value that a parsed left bus stands for. `ZERO` drives nothing.
    pub open spec fn spec_from(from: &Lbus) -> Lb {
        match *from {
            Lbus::R0 => Lb::R0l,
            Lbus::R1 => Lb::R1l,
            Lbus::R2 => Lb::R2l,
            Lbus::R3 => Lb::R3l,
            Lbus::R4 => Lb::R4l,
            Lbus::R5 => Lb::R5l,
            Lbus::R6 => Lb::R6l,
            Lbus::R7 => Lb::R7l,
            Lbus::Rb => Lb::Rb,
            Lbus::Rbp => Lb::Rbp,
            Lbus::Pc => Lb::Pc,
            Lbus::Io => Lb::Io,
            Lbus::Mm => Lb::Mm,
            Lbus::Ir => Lb::Ir,
            Lbus::Fsr => Lb::Fsr,
            Lbus::Zero => Lb::Nlb,
        }
    }

    /// Turns a parsed left bus into its field value.
    #[verifier::when_used_as_spec(spec_from)]
    pub fn from(from: &Lbus) -> (r: Lb)
        ensures
            r == Lb::spec_from(from),
    {
        match from {
            Lbus::R0 => Lb::R0l,
            Lbus::R1 => Lb::R1l,
            Lbus::R2 => Lb::R2l,
            Lbus::R3 => Lb::R3l,
            Lbus::R4 => Lb::R4l,
            Lbus::R5 => Lb::R5l,
            Lbus::R6 => Lb::R6l,
            Lbus::R7 => Lb::R7l,
            Lbus::Rb => Lb::Rb,
            Lbus::Rbp => Lb::Rbp,
            Lbus::Pc => Lb::Pc,
            Lbus::Io => Lb::Io,
            Lbus::Mm => Lb::Mm,
            Lbus::Ir => Lb::Ir,
            Lbus::Fsr => Lb::Fsr,
            Lbus::Zero => Lb::Nlb,
        }
    }

    /// The 4-bit code of the field.
    pub open spec fn code(self) -> MachineCode {
        match self {
            Lb::R0l => 0x0,
            Lb::R1l => 0x1,
            Lb::R2l => 0x2,
            Lb::R3l => 0x3,
            Lb::R4l => 0x4,
            Lb::R5l => 0x5,
            Lb::R6l => 0x6,
            Lb::R7l => 0x7,
            Lb::Rb => 0x8,
            Lb::Rbp => 0x9,
            Lb::Pc => 0xA,
            Lb::Io => 0xB,
            Lb::Mm => 0xC,
            Lb::Ir => 0xD,
            Lb::Fsr => 0xE,
            Lb::Nlb => 0xF,
        }
    }

    /// The code, moved to the field's place in the word.
    pub fn machine_code(&self) -> (r: MachineCode)
        ensures
            r == self.code() << 36,
    {
        let code: MachineCode = match self {
            Lb::R0l => 0x0,
            Lb::R1l => 0x1,
            Lb::R2l => 0x2,
            Lb::R3l => 0x3,
            Lb::R4l => 0x4,
            Lb::R5l => 0x5,
            Lb::R6l => 0x6,
            Lb::R7l => 0x7,
            Lb::Rb => 0x8,
            Lb::Rbp => 0x9,
            Lb::Pc => 0xA,
            Lb::Io => 0xB,
            Lb::Mm => 0xC,
            Lb::Ir => 0xD,
            Lb::Fsr => 0xE,
            Lb::Nlb => 0xF,
        };
        code << 36
    }
}

/// What drives the right bus. A literal is short when it fits in 9 bits.
#[derive(Clone, Copy, Debug, PartialEq, Eq, Structural)]
pub enum Rb {
    R0r,
    R1r,
    R2r,
    R3r,
    R4r,
    R5r,
    R6r,
    R7r,
    Ra,
    Rap,
    Slt(u16),
    Llt(u16),
    Nrb,
}

impl Rb {
    /// The field value that a parsed right bus stands for. The literal 0
    /// drives nothing, one below 512 is short, any other is long.
    pub open spec fn spec_from(from: &Rbus) -> Rb {
        match *from {
            Rbus::R0 => Rb::R0r,
            Rbus::R1 => Rb::R1r,
            Rbus::R2 => Rb::R2r,
            Rbus::R3 => Rb::R3r,
            Rbus::R4 => Rb::R4r,
            Rbus::R5 => Rb::R5r,
            Rbus::R6 => Rb::R6r,
            Rbus::R7 => Rb::R7r,
            Rbus::Ra => Rb::Ra,
            Rbus::Rap => Rb::Rap,
            Rbus::Literal(literal) => if literal == 0 {
                Rb::Nrb
            } else if literal < 512 {
                Rb::Slt(literal)
            } else {
                Rb::Llt(literal)
            },
        }
    }

    /// Turns a parsed right bus into its field value.
    #[verifier::when_used_as_spec(spec_from)]
    pub fn from(from: &Rbus) -> (r: Rb)
        ensures
            r == Rb::spec_from(from),
    {
        match from {
            Rbus::R0 => Rb::R0r,
            Rbus::R1 => Rb::R1r,
            Rbus::R2 => Rb::R2r,
            Rbus::R3 => Rb::R3r,
            Rbus::R4 => Rb::R4r,
            Rbus::R5 => Rb::R5r,
            Rbus::R6 => Rb::R6r,
            Rbus::R7 => Rb::R7r,
            Rbus::Ra => Rb::Ra,
            Rbus::Rap => Rb::Rap,
            Rbus::Literal(literal) => {
                if *literal == 0 {
                    Rb::Nrb
                } else if *literal < 512u16 {
                    Rb::Slt(*literal)
                } else {
                    Rb::Llt(*literal)
                }
            },
        }
    }

    /// The 4-bit code of the field.
    pub open spec fn code(self) -> MachineCode {
        match self {
            Rb::R0r => 0x0,
            Rb::R1r => 0x1,
            Rb::R2r => 0x2,
            Rb::R3r => 0x3,
            Rb::R4r => 0x4,
            Rb::R5r => 0x5,
            Rb::R6r => 0x6,
            Rb::R7r => 0x7,
            Rb::Ra => 0x8,
            Rb::Rap => 0x9,
            Rb::Slt(_) => 0xA,
            Rb::Llt(_) => 0xB,
            Rb::Nrb => 0xF,
        }
    }

    /// The code, moved to the field's place in the word.
    pub fn machine_code(&self) -> (r: MachineCode)
        ensures
            r == self.code() << 32,
    {
        let code: MachineCode = match self {
            Rb::R0r => 0x0,
            Rb::R1r => 0x1,
            Rb::R2r => 0x2,
            Rb::R3r => 0x3,
            Rb::R4r => 0x4,
            Rb::R5r => 0x5,
            Rb::R6r => 0x6,
            Rb::R7r => 0x7,
            Rb::Ra => 0x8,
            Rb::Rap => 0x9,
            Rb::Slt(_) => 0xA,
            Rb::Llt(_) => 0xB,
            Rb::Nrb => 0xF,
        };
        code << 32
    }
}

/// The operation of the ALU.
#[derive(Clone, Copy, Debug, PartialEq, Eq, Structural)]
pub enum Al {
    Add,
    Sub,
    And,
    Or,
    Xor,
    Ial,
    Nal,
}

impl Al {
    /// The field value that a parsed ALU operator stands for.
    pub open spec fn spec_from(from: &Alu) -> Al {
        match *from {
            Alu::Plus => Al::Add,
            Alu::Minus => Al::Sub,
            Alu::And => Al::And,
            Alu::Or => Al::Or,
            Alu::Xor => Al::Xor,
            Alu::Dollar => Al::Ial,
            Alu::At => Al::Nal,
        }
    }

    /// Turns a parsed ALU operator into its field value.
    #[verifier::when_used_as_spec(spec_from)]
    pub fn from(from: &Alu) -> (r: Al)
        ensures
            r == Al::spec_from(from),
    {
        match from {
            Alu::Plus => Al::Add,
            Alu::Minus => Al::Sub,
            Alu::And => Al::And,
            Alu::Or => Al::Or,
            Alu::Xor => Al::Xor,
            Alu::Dollar => Al::Ial,
            Alu::At => Al::Nal,
        }
    }

    /// The 3-bit code of the field.
    pub open spec fn code(self) -> MachineCode {
        match self {
            Al::Add => 0x0,
            Al::Sub => 0x1,
            Al::And => 0x2,
            Al::Or => 0x3,
            Al::Xor => 0x4,
            Al::Ial => 0x5,
            Al::Nal => 0x7,
        }
    }

    /// The code, moved to the field's place in the word.
    pub fn machine_code(&self) -> (r: MachineCode)
        ensures
            r == self.code() << 29,
    {
        let code: MachineCode = match self {
            Al::Add => 0x0,
            Al::Sub => 0x1,
            Al::And => 0x2,
            Al::Or => 0x3,
            Al::Xor => 0x4,
            Al::Ial => 0x5,
            Al::Nal => 0x7,
        };
        code << 29
    }
}

/// The operation of the shifter.
#[derive(Clone, Copy, Debug, PartialEq, Eq, Structural)]
pub enum Sh {
    Sll,
    Srl,
    Sla,
    Sra,
    Snx,
    Swp,
    Nsh,
}

impl Sh {
    /// The field value that a parsed shift stands for. `NSB` and the absence
    /// of a shift both leave the value as it is.
    pub open spec fn spec_from(from: &Option<Shift>) -> Sh {
        match *from {
            Some(Shift::Sll) => Sh::Sll,
            Some(Shift::Srl) => Sh::Srl,
            Some(Shift::Sla) => Sh::Sla,
            Some(Shift::Sra) => Sh::Sra,
            Some(Shift::Snx) => Sh::Snx,
            Some(Shift::Swp) => Sh::Swp,
            Some(Shift::Nsb) => Sh::Nsh,
            None => Sh::Nsh,
        }
    }

    /// Turns a parsed shift into its field value.
    #[verifier::when_used_as_spec(spec_from)]
    pub fn from(from: &Option<Shift>) -> (r: Sh)
        ensures
            r == Sh::spec_from(from),
    {
        if let Some(value) = from {
            match value {
                Shift::Sll => Sh::Sll,
                Shift::Srl => Sh::Srl,
                Shift::Sla => Sh::Sla,
                Shift::Sra => Sh::Sra,
                Shift::Snx => Sh::Snx,
                Shift::Swp => Sh::Swp,
                Shift::Nsb => Sh::Nsh,
            }
        } else {
            Sh::Nsh
        }
    }

    /// The 3-bit code of the field.
    pub open spec fn code(self) -> MachineCode {
        match self {
            Sh::Sll => 0x0,
            Sh::Srl => 0x1,
            Sh::Sla => 0x2,
            Sh::Sra => 0x3,
            Sh::Snx => 0x4,
            Sh::Swp => 0x5,
            Sh::Nsh => 0x7,
        }
    }

    /// The code, moved to the field's place in the word.
    pub fn machine_code(&self) -> (r: MachineCode)
        ensures
            r == self.code() << 26,
    {
        let code: MachineCode = match self {
            Sh::Sll => 0x0,
            Sh::Srl => 0x1,
            Sh::Sla => 0x2,
            Sh::Sra => 0x3,
            Sh::Snx => 0x4,
            Sh::Swp => 0x5,
            Sh::Nsh => 0x7,
        };
        code << 26
    }
}

/// Where the store bus writes.
#[derive(Clone, Copy, Debug, PartialEq, Eq, Structural)]
pub enum Sb {
    R0s,
    R1s,
    R2s,
    R3s,
    R4s,
    R5s,
    R6s,
    R7s,
    Sa,
    Sap,
    Sb,
    Sbp,
    Pcs,
    Nsb,
}

impl Sb {
    /// The field value that a parsed store bus stands for.
    pub open spec fn spec_from(from: &Sbus) -> Sb {
        match *from {
            Sbus::R0 => Sb::R0s,
            Sbus::R1 => Sb::R1s,
            Sbus::R2 => Sb::R2s,
            Sbus::R3 => Sb::R3s,
            Sbus::R4 => Sb::R4s,
            Sbus::R5 => Sb::R5s,
            Sbus::R6 => Sb::R6s,
            Sbus::R7 => Sb::R7s,
            Sbus::Ra => Sb::Sa,
            Sbus::Rap => Sb::Sap,
            Sbus::Rb => Sb::Sb,
            Sbus::Rbp => Sb::Sbp,
            Sbus::Pc => Sb::Pcs,
        }
    }

    /// Turns a parsed store bus into its field value.
    #[verifier::when_used_as_spec(spec_from)]
    pub fn from(from: &Sbus) -> (r: Sb)
        ensures
            r == Sb::spec_from(from),
    {
        match from {
            Sbus::R0 => Sb::R0s,
            Sbus::R1 => Sb::R1s,
            Sbus::R2 => Sb::R2s,
            Sbus::R3 => Sb::R3s,
            Sbus::R4 => Sb::R4s,
            Sbus::R5 => Sb::R5s,
            Sbus::R6 => Sb::R6s,
            Sbus::R7 => Sb::R7s,
            Sbus::Ra => Sb::Sa,
            Sbus::Rap => Sb::Sap,
            Sbus::Rb => Sb::Sb,
            Sbus::Rbp => Sb::Sbp,
            Sbus::Pc => Sb::Pcs,
        }
    }

    /// The 4-bit code of the field.
    pub open spec fn code(self) -> MachineCode {
        match self {
            Sb::R0s => 0x0,
            Sb::R1s => 0x1,
            Sb::R2s => 0x2,
            Sb::R3s => 0x3,
            Sb::R4s => 0x4,
            Sb::R5s => 0x5,
            Sb::R6s => 0x6,
            Sb::R7s => 0x7,
            Sb::Sa => 0x8,
            Sb::Sap => 0x9,
            Sb::Sb => 0xA,
            Sb::Sbp => 0xB,
            Sb::Pcs => 0xC,
            Sb::Nsb => 0xF,
        }
    }

    /// The code, moved to the field's place in the word.
    pub fn machine_code(&self) -> (r: MachineCode)
        ensures
            r == self.code() << 22,
    {
        let code: MachineCode = match self {
            Sb::R0s => 0x0,
            Sb::R1s => 0x1,
            Sb::R2s => 0x2,
            Sb::R3s => 0x3,
            Sb::R4s => 0x4,
            Sb::R5s => 0x5,
            Sb::R6s => 0x6,
            Sb::R7s => 0x7,
            Sb::Sa => 0x8,
            Sb::Sap => 0x9,
            Sb::Sb => 0xA,
            Sb::Sbp => 0xB,
            Sb::Pcs => 0xC,
            Sb::Nsb => 0xF,
        };
        code << 22
    }
}

/// The five datapath fields of one instruction.
#[derive(Clone, Copy, Debug, PartialEq, Eq)]
pub struct Calculation(pub Lb, pub Rb, pub Al, pub Sh, pub Sb);

impl Calculation {
    /// The datapath fields of a right-hand side, without the store bus. A
    /// single bus that passes through leaves the other bus undriven and takes
    /// `through` for the ALU.
    pub open spec fn of_statement(statement: Statement, through: Al, sb: Sb) -> Calculation {
        match statement {
            Statement::First(lbus, alu_and_shift, rbus) => Calculation(
                Lb::from(&lbus),
                Rb::from(&rbus),
                Al::from(&alu_and_shift.alu),
                Sh::from(&alu_and_shift.shift),
                sb,
            ),
            Statement::AluThrough(alu_through) => match alu_through.lbus_or_rbus {
                LbusOrRbus::Lbus(lbus) => Calculation(
                    Lb::from(&lbus),
                    Rb::Nrb,
                    through,
                    Sh::from(&alu_through.shift),
                    sb,
                ),
                LbusOrRbus::Rbus(rbus) => Calculation(
                    Lb::Nlb,
                    Rb::from(&rbus),
                    through,
                    Sh::from(&alu_through.shift),
                    sb,
                ),
            },
        }
    }

    /// The datapath fields of a calculation. An assignment stores its result
    /// and passes a single bus through no ALU operation; `SET BY` stores
    /// nothing and passes a single bus through `OR`. Without a calculation
    /// every field is idle.
    pub open spec fn spec_from(from: &Option<CalculationStatement>) -> Calculation {
        match *from {
            Some(CalculationStatement::Alu(sbus, statement)) => Calculation::of_statement(
                statement,
                Al::Nal,
                Sb::from(&sbus),
            ),
            Some(CalculationStatement::SetBy(statement)) => Calculation::of_statement(
                statement,
                Al::Or,
                Sb::Nsb,
            ),
            None => Calculation(Lb::Nlb, Rb::Nrb, Al::Nal, Sh::Nsh, Sb::Nsb),
        }
    }

    /// Turns a parsed calculation into its field values.
    #[verifier::when_used_as_spec(spec_from)]
    pub fn from(from: &Option<CalculationStatement>) -> (r: Calculation)
        ensures
            r == Calculation::spec_from(from),
    {
        if let Some(value) = from {
            match value {
                CalculationStatement::Alu(sbus, statement) => match statement {
                    Statement::First(lbus, alu_and_shift, rbus) => Calculation(
                        Lb::from(lbus),
                        Rb::from(rbus),
                        Al::from(&alu_and_shift.alu),
                        Sh::from(&alu_and_shift.shift),
                        Sb::from(sbus),
                    ),
                    Statement::AluThrough(alu_through) => match &alu_through.lbus_or_rbus {
                        LbusOrRbus::Lbus(lbus) => Calculation(
                            Lb::from(lbus),
                            Rb::Nrb,
                            Al::Nal,
                            Sh::from(&alu_through.shift),
                            Sb::from(sbus),
                        ),
                        LbusOrRbus::Rbus(rbus) => Calculation(
                            Lb::Nlb,
                            Rb::from(rbus),
                            Al::Nal,
                            Sh::from(&alu_through.shift),
                            Sb::from(sbus),
                        ),
                    },
                },
                CalculationStatement::SetBy(statement) => match statement {
                    Statement::First(lbus, alu_and_shift, rbus) => Calculation(
                        Lb::from(lbus),
                        Rb::from(rbus),
                        Al::from(&alu_and_shift.alu),
                        Sh::from(&alu_and_shift.shift),
                        Sb::Nsb,
                    ),
                    Statement::AluThrough(alu_through) => match &alu_through.lbus_or_rbus {
                        LbusOrRbus::Lbus(lbus) => Calculation(
                            Lb::from(lbus),
                            Rb::Nrb,
                            Al::Or,
                            Sh::from(&alu_through.shift),
                            Sb::Nsb,
                        ),
                        LbusOrRbus::Rbus(rbus) => Calculation(
                            Lb::Nlb,
                            Rb::from(rbus),
                            Al::Or,
                            Sh::from(&alu_through.shift),
                            Sb::Nsb,
                        ),
                    },
                },
            }
        } else {
            Calculation(Lb::Nlb, Rb::Nrb, Al::Nal, Sh::Nsh, Sb::Nsb)
        }
    }
}

/// The memory action.
#[derive(Clone, Copy, Debug, PartialEq, Eq, Structural)]
pub enum Mm {
    Rm,
    Wm,
    Nmm,
}

impl Mm {
    /// The field value that a parsed memory action stands for.
    pub open spec fn spec_from(from: &Option<MemoryStatement>) -> Mm {
        match *from {
            Some(MemoryStatement::Read) => Mm::Rm,
            Some(MemoryStatement::Write) => Mm::Wm,
            None => Mm::Nmm,
        }
    }

    /// Turns a parsed memory action into its field value.
    #[verifier::when_used_as_spec(spec_from)]
    pub fn from(from: &Option<MemoryStatement>) -> (r: Mm)
        ensures
            r == Mm::spec_from(from),
    {
        if let Some(value) = from {
            match value {
                MemoryStatement::Read => Mm::Rm,
                MemoryStatement::Write => Mm::Wm,
            }
        } else {
            Mm::Nmm
        }
    }

    /// The 2-bit code of the field.
    pub open spec fn code(self) -> MachineCode {
        match self {
            Mm::Rm => 0x0,
            Mm::Wm => 0x1,
            Mm::Nmm => 0x3,
        }
    }

    /// The code, moved to the field's place in the word.
    pub fn machine_code(&self) -> (r: MachineCode)
        ensures
            r == self.code() << 20,
    {
        let code: MachineCode = match self {
            Mm::Rm => 0x0,
            Mm::Wm => 0x1,
            Mm::Nmm => 0x3,
        };
        code << 20
    }
}

/// The sequence opcode: how the next address is formed.
#[derive(Clone, Copy, Debug, PartialEq, Eq, Structural)]
pub enum Sq {
    B,
    Bp,
    Rtn,
    Bt,
    Bf,
    Iop,
    Ira,
    Iab,
    Ei,
    Nsq,
}

impl Sq {
    /// The 4-bit code of the field.
    pub open spec fn code(self) -> MachineCode {
        match self {
            Sq::B => 0x0,
            Sq::Bp => 0x1,
            Sq::Rtn => 0x2,
            Sq::Bt => 0x3,
            Sq::Bf => 0x4,
            Sq::Iop => 0x5,
            Sq::Ira => 0x6,
            Sq::Iab => 0x7,
            Sq::Ei => 0x8,
            Sq::Nsq => 0xF,
        }
    }

    /// The code, moved to the field's place in the word.
    pub fn machine_code(&self) -> (r: MachineCode)
        ensures
            r == self.code() << 16,
    {
        let code: MachineCode = match self {
            Sq::B => 0x0,
            Sq::Bp => 0x1,
            Sq::Rtn => 0x2,
            Sq::Bt => 0x3,
            Sq::Bf => 0x4,
            Sq::Iop => 0x5,
            Sq::Ira => 0x6,
            Sq::Iab => 0x7,
            Sq::Ei => 0x8,
            Sq::Nsq => 0xF,
        };
        code << 16
    }
}

/// The flag that a conditional sequence tests.
#[derive(Clone, Copy, Debug, PartialEq, Eq, Structural)]
pub enum Ts {
    Zer,
    Neg,
    Cry,
    Ov,
    T,
    Cz,
    Nts,
}

impl Ts {
    /// The field value that a parsed flag stands for.
    pub open spec fn spec_from(from: &Flag) -> Ts {
        match *from {
            Flag::Zer => Ts::Zer,
            Flag::Neg => Ts::Neg,
            Flag::Cry => Ts::Cry,
            Flag::Ov => Ts::Ov,
            Flag::Cz => Ts::Cz,
            Flag::T => Ts::T,
        }
    }

    /// Turns a parsed flag into its field value.
    #[verifier::when_used_as_spec(spec_from)]
    pub fn from(from: &Flag) -> (r: Ts)
        ensures
            r == Ts::spec_from(from),
    {
        match from {
            Flag::Zer => Ts::Zer,
            Flag::Neg => Ts::Neg,
            Flag::Cry => Ts::Cry,
            Flag::Ov => Ts::Ov,
            Flag::Cz => Ts::Cz,
            Flag::T => Ts::T,
        }
    }

    /// The 3-bit code of the field.
    pub open spec fn code(self) -> MachineCode {
        match self {
            Ts::Zer => 0x0,
            Ts::Neg => 0x1,
            Ts::Cry => 0x2,
            Ts::Ov => 0x3,
            Ts::T => 0x4,
            Ts::Cz => 0x5,
            Ts::Nts => 0x7,
        }
    }

    /// The code, moved to the field's place in the word.
    pub fn machine_code(&self) -> (r: MachineCode)
        ensures
            r == self.code() << 13,
    {
        let code: MachineCode = match self {
            Ts::Zer => 0x0,
            Ts::Neg => 0x1,
            Ts::Cry => 0x2,
            Ts::Ov => 0x3,
            Ts::T => 0x4,
            Ts::Cz => 0x5,
            Ts::Nts => 0x7,
        };
        code << 13
    }
}

/// The auxiliary action. The three loads keep the bus that their source
/// names, or nothing where the source is the bus of the calculation.
#[derive(Clone, Copy, Debug, PartialEq, Eq, Structural)]
pub enum Ex {
    Cm1,
    Fls,
    Asc,
    As1,
    Lir(Option<Lb>),
    Lio(Option<Lb>),
    Sc(Option<Rb>),
    Eio,
    St,
    Rt,
    Ina,
    Inb,
    Dcb,
    Hlt,
    Ov,
    Nex,
}

impl Ex {
    /// The bus that the source of a load from the left bus names.
    pub open spec fn left_source(source: LbusSource) -> Option<Lb> {
        match source {
            LbusSource::Lbus => None,
            LbusSource::Source(src) => Some(Lb::from(&src)),
        }
    }

    /// The bus that the source of a load from the right bus names.
    pub open spec fn right_source(source: RbusSource) -> Option<Rb> {
        match source {
            RbusSource::Rbus => None,
            RbusSource::Source(src) => Some(Rb::from(&src)),
        }
    }

    /// The field value that a parsed auxiliary action stands for.
    pub open spec fn spec_from(from: &Option<ExStatement>) -> Ex {
        match *from {
            Some(ExStatement::DecrimentC) => Ex::Cm1,
            Some(ExStatement::FlagSave) => Ex::Fls,
            Some(ExStatement::WithCry) => Ex::Asc,
            Some(ExStatement::WithOne) => Ex::As1,
            Some(ExStatement::Ir(lbus)) => Ex::Lir(Ex::left_source(lbus)),
            Some(ExStatement::Io(lbus)) => Ex::Lio(Ex::left_source(lbus)),
            Some(ExStatement::C(rbus)) => Ex::Sc(Ex::right_source(rbus)),
            Some(ExStatement::ExecuteIo) => Ex::Eio,
            Some(ExStatement::Assign1ToT) => Ex::St,
            Some(ExStatement::Assign0ToT) => Ex::Rt,
            Some(ExStatement::IraPlus1) => Ex::Ina,
            Some(ExStatement::IrbPlus1) => Ex::Inb,
            Some(ExStatement::IrbMinus1) => Ex::Dcb,
            Some(ExStatement::SetHlt) => Ex::Hlt,
            Some(ExStatement::SetOv) => Ex::Ov,
            Some(ExStatement::Nex) => Ex::Nex,
            None => Ex::Nex,
        }
    }

    /// Turns a parsed auxiliary action into its field value.
    #[verifier::when_used_as_spec(spec_from)]
    pub fn from(from: &Option<ExStatement>) -> (r: Ex)
        ensures
            r == Ex::spec_from(from),
    {
        if let Some(value) = from {
            match value {
                ExStatement::DecrimentC => Ex::Cm1,
                ExStatement::FlagSave => Ex::Fls,
                ExStatement::WithCry => Ex::Asc,
                ExStatement::WithOne => Ex::As1,
                ExStatement::Ir(lbus) => Ex::Lir(
                    match lbus {
                        LbusSource::Lbus => None,
                        LbusSource::Source(src) => Some(Lb::from(src)),
                    },
                ),
                ExStatement::Io(lbus) => Ex::Lio(
                    match lbus {
                        LbusSource::Lbus => None,
                        LbusSource::Source(src) => Some(Lb::from(src)),
                    },
                ),
                ExStatement::C(rbus) => Ex::Sc(
                    match rbus {
                        RbusSource::Rbus => None,
                        RbusSource::Source(src) => Some(Rb::from(src)),
                    },
                ),
                ExStatement::ExecuteIo => Ex::Eio,
                ExStatement::Assign1ToT => Ex::St,
                ExStatement::Assign0ToT => Ex::Rt,
                ExStatement::IraPlus1 => Ex::Ina,
                ExStatement::IrbPlus1 => Ex::Inb,
                ExStatement::IrbMinus1 => Ex::Dcb,
                ExStatement::SetHlt => Ex::Hlt,
                ExStatement::SetOv => Ex::Ov,
                ExStatement::Nex => Ex::Nex,
            }
        } else {
            Ex::Nex
        }
    }

    /// The 4-bit code of the field.
    pub open spec fn code(self) -> MachineCode {
        match self {
            Ex::Cm1 => 0x0,
            Ex::Fls => 0x1,
            Ex::Asc => 0x2,
            Ex::As1 => 0x3,
            Ex::Lir(_) => 0x4,
            Ex::Lio(_) => 0x5,
            Ex::Sc(_) => 0x6,
            Ex::Eio => 0x7,
            Ex::St => 0x8,
            Ex::Rt => 0x9,
            Ex::Ina => 0xA,
            Ex::Inb => 0xB,
            Ex::Dcb => 0xC,
            Ex::Hlt => 0xD,
            Ex::Ov => 0xE,
            Ex::Nex => 0xF,
        }
    }

    /// The code, moved to the field's place in the word.
    pub fn machine_code(&self) -> (r: MachineCode)
        ensures
            r == self.code() << 9,
    {
        let code: MachineCode = match self {
            Ex::Cm1 => 0x0,
            Ex::Fls => 0x1,
            Ex::Asc => 0x2,
            Ex::As1 => 0x3,
            Ex::Lir(_) => 0x4,
            Ex::Lio(_) => 0x5,
            Ex::Sc(_) => 0x6,
            Ex::Eio => 0x7,
            Ex::St => 0x8,
            Ex::Rt => 0x9,
            Ex::Ina => 0xA,
            Ex::Inb => 0xB,
            Ex::Dcb => 0xC,
            Ex::Hlt => 0xD,
            Ex::Ov => 0xE,
            Ex::Nex => 0xF,
        };
        code << 9
    }
}

/// The test, the sequence opcode and the label of a sequence field.
#[derive(Clone, Debug, PartialEq, Eq)]
pub struct TestAndSequence(pub Ts, pub Sq, pub Option<String>);

/// The mathematical value of a [`TestAndSequence`].
pub struct TestAndSequenceView(pub Ts, pub Sq, pub Option<Seq<char>>);

impl View for TestAndSequence {
    type V = TestAndSequenceView;

    open spec fn view(&self) -> TestAndSequenceView {
        TestAndSequenceView(
            self.0,
            self.1,
            match self.2 {
                Some(label) => Some(label@),
                None => None,
            },
        )
    }
}

impl TestAndSequence {
    /// The fields that a sequence statement stands for. `GOTO FETCH` ends the
    /// instruction and carries no label; a conditional branch with
    /// `ELSE FETCH` ends the instruction where the test fails.
    pub open spec fn spec_from(from: Option<TestAndSequenceStatementView>) -> TestAndSequenceView {
        match from {
            Some(TestAndSequenceStatementView::Goto(label)) => if label == "FETCH"@ {
                TestAndSequenceView(Ts::Nts, Sq::Ei, None)
            } else {
                TestAndSequenceView(Ts::Nts, Sq::B, Some(label))
            },
            Some(TestAndSequenceStatementView::Call(label)) => TestAndSequenceView(
                Ts::Nts,
                Sq::Bp,
                Some(label),
            ),
            Some(TestAndSequenceStatementView::Return) => TestAndSequenceView(
                Ts::Nts,
                Sq::Rtn,
                None,
            ),
            Some(TestAndSequenceStatementView::If(flag, flag_state, label, else_exists)) => {
                let sq = if else_exists {
                    Sq::Ei
                } else if flag_state == FlagState::One {
                    Sq::Bt
                } else {
                    Sq::Bf
                };
                TestAndSequenceView(Ts::from(&flag), sq, Some(label))
            },
            Some(TestAndSequenceStatementView::Iop(label)) => TestAndSequenceView(
                Ts::Nts,
                Sq::Iop,
                Some(label),
            ),
            Some(TestAndSequenceStatementView::Ira(label)) => TestAndSequenceView(
                Ts::Nts,
                Sq::Ira,
                Some(label),
            ),
            Some(TestAndSequenceStatementView::Iab(label)) => TestAndSequenceView(
                Ts::Nts,
                Sq::Iab,
                Some(label),
            ),
            Some(TestAndSequenceStatementView::Nsq) => TestAndSequenceView(Ts::Nts, Sq::Nsq, None),
            None => TestAndSequenceView(Ts::Nts, Sq::Nsq, None),
        }
    }

    /// Turns a parsed sequence statement into its fields.
    pub fn from(from: &Option<TestAndSequenceStatement>) -> (r: TestAndSequence)
        ensures
            r@ == TestAndSequence::spec_from(
                match *from {
                    Some(statement) => Some(statement@),
                    None => None,
                },
            ),
    {
        if let Some(value) = from {
            match value {
                TestAndSequenceStatement::Goto(label) => {
                    if str_eq(label.as_str(), "FETCH") {
                        TestAndSequence(Ts::Nts, Sq::Ei, None)
                    } else {
                        TestAndSequence(Ts::Nts, Sq::B, Some(label.clone()))
                    }
                },
                TestAndSequenceStatement::Call(label) => {
                    TestAndSequence(Ts::Nts, Sq::Bp, Some(label.clone()))
                },
                TestAndSequenceStatement::Return => TestAndSequence(Ts::Nts, Sq::Rtn, None),
                TestAndSequenceStatement::If(flag, flag_state, label, else_exists) => {
                    let ts = Ts::from(flag);
                    if *else_exists {
                        TestAndSequence(ts, Sq::Ei, Some(label.clone()))
                    } else if *flag_state == FlagState::One {
                        TestAndSequence(ts, Sq::Bt, Some(label.clone()))
                    } else {
                        TestAndSequence(ts, Sq::Bf, Some(label.clone()))
                    }
                },
                TestAndSequenceStatement::Iop(label) => {
                    TestAndSequence(Ts::Nts, Sq::Iop, Some(label.clone()))
                },
                TestAndSequenceStatement::Ira(label) => {
                    TestAndSequence(Ts::Nts, Sq::Ira, Some(label.clone()))
                },
                TestAndSequenceStatement::Iab(label) => {
                    TestAndSequence(Ts::Nts, Sq::Iab, Some(label.clone()))
                },
                TestAndSequenceStatement::Nsq => TestAndSequence(Ts::Nts, Sq::Nsq, None),
            }
        } else {
            TestAndSequence(Ts::Nts, Sq::Nsq, None)
        }
    }
}

/// A reference to a label: by name, or by the address that the name stands for.
#[derive(Clone, Debug, PartialEq, Eq)]
pub enum Reference {
    Unresolved(String),
    Resolved(MachineAddress),
}

/// The mathematical value of a [`Reference`].
pub enum ReferenceView {
    Unresolved(Seq<char>),
    Resolved(MachineAddress),
}

impl View for Reference {
    type V = ReferenceView;

    open spec fn view(&self) -> ReferenceView {
        match self {
            Reference::Unresolved(name) => ReferenceView::Unresolved(name@),
            Reference::Resolved(address) => ReferenceView::Resolved(*address),
        }
    }
}

impl ReferenceView {
    /// The reference with its name replaced by the address that `table`
    /// gives it; nothing where `table` does not define the name.
    pub open spec fn resolve(self, table: Map<Seq<char>, MachineAddress>) -> Option<ReferenceView> {
        match self {
            ReferenceView::Unresolved(name) => if table.dom().contains(name) {
                Some(ReferenceView::Resolved(table[name]))
            } else {
                None
            },
            ReferenceView::Resolved(_) => Some(self),
        }
    }

    /// The name of a reference that `table` cannot resolve.
    pub open spec fn missing(self, table: Map<Seq<char>, MachineAddress>) -> Option<Seq<char>> {
        match self {
            ReferenceView::Unresolved(name) => if table.dom().contains(name) {
                None
            } else {
                Some(name)
            },
            ReferenceView::Resolved(_) => None,
        }
    }
}

impl Reference {
    /// Looks the reference up in `table`. A reference that already holds an
    /// address keeps it.
    pub fn resolve(&self, table: &SymbolTable) -> (r: Result<Reference, AsmError>)
        ensures
            match r {
                Ok(reference) => self@.resolve(table@) == Some(reference@),
                Err(e) => self@.resolve(table@) is None && self@.missing(table@) is Some && e@
                    == AsmErrorView::UnresolvedLabel(self@.missing(table@)->0),
            },
    {
        match self {
            Reference::Unresolved(label) => {
                if let Some(address) = table.get(label.as_str()) {
                    Ok(Reference::Resolved(address))
                } else {
                    Err(AsmError::UnresolvedLabel(label.clone()))
                }
            },
            Reference::Resolved(address) => Ok(Reference::Resolved(*address)),
        }
    }
}

/// The low 16 bits of a microinstruction, which serve one of four purposes.
#[derive(Clone, Debug, PartialEq, Eq)]
pub enum MicroInstructionLSB16 {
    /// A long literal for the right bus; no test and no auxiliary action.
    Llt(u16),
    /// A test and an auxiliary action.
    TsAndEx(Ts, Ex),
    /// A test, an auxiliary action and a short literal for the right bus.
    TsExAndLt(Ts, Ex, u16),
    /// A test, an auxiliary action and the target of the sequence opcode.
    WithReference(Ts, Ex, Reference),
}

/// The mathematical value of a [`MicroInstructionLSB16`].
pub enum MicroInstructionLSB16View {
    Llt(u16),
    TsAndEx(Ts, Ex),
    TsExAndLt(Ts, Ex, u16),
    WithReference(Ts, Ex, ReferenceView),
}

impl View for MicroInstructionLSB16 {
    type V = MicroInstructionLSB16View;

    open spec fn view(&self) -> MicroInstructionLSB16View {
        match self {
            MicroInstructionLSB16::Llt(literal) => MicroInstructionLSB16View::Llt(*literal),
            MicroInstructionLSB16::TsAndEx(ts, ex) => MicroInstructionLSB16View::TsAndEx(*ts, *ex),
            MicroInstructionLSB16::TsExAndLt(ts, ex, literal) => MicroInstructionLSB16View::TsExAndLt(
                *ts,
                *ex,
                *literal,
            ),
            MicroInstructionLSB16::WithReference(ts, ex, reference) => {
                MicroInstructionLSB16View::WithReference(*ts, *ex, reference@)
            },
        }
    }
}

impl MicroInstructionLSB16View {
    /// The low half with its reference, if it has one, resolved by `table`.
    pub open spec fn resolve(self, table: Map<Seq<char>, MachineAddress>) -> Option<
        MicroInstructionLSB16View,
    > {
        match self {
            MicroInstructionLSB16View::WithReference(ts, ex, reference) => match reference.resolve(
                table,
            ) {
                Some(resolved) => Some(MicroInstructionLSB16View::WithReference(ts, ex, resolved)),
                None => None,
            },
            _ => Some(self),
        }
    }

    /// The name of the reference that `table` cannot resolve.
    pub open spec fn missing(self, table: Map<Seq<char>, MachineAddress>) -> Option<Seq<char>> {
        match self {
            MicroInstructionLSB16View::WithReference(_, _, reference) => reference.missing(table),
            _ => None,
        }
    }

    /// The half that holds the test, the auxiliary action and, where the
    /// sequence field names a label, the reference to it.
    pub open spec fn plain(ts: Ts, ex: Ex, reference: Option<Seq<char>>) -> MicroInstructionLSB16View {
        match reference {
            Some(label) => MicroInstructionLSB16View::WithReference(
                ts,
                ex,
                ReferenceView::Unresolved(label),
            ),
            None => MicroInstructionLSB16View::TsAndEx(ts, ex),
        }
    }
}

impl MicroInstructionLSB16 {
    /// Resolves the reference, if the half holds one; the other forms are
    /// handed back as they are.
    pub fn resolve(&self, table: &SymbolTable) -> (r: Result<MicroInstructionLSB16, AsmError>)
        ensures
            match r {
                Ok(lsb) => self@.resolve(table@) == Some(lsb@),
                Err(e) => self@.resolve(table@) is None && self@.missing(table@) is Some && e@
                    == AsmErrorView::UnresolvedLabel(self@.missing(table@)->0),
            },
    {
        match self {
            MicroInstructionLSB16::WithReference(ts, ex, reference) => {
                match reference.resolve(table) {
                    Ok(reference) => Ok(MicroInstructionLSB16::WithReference(*ts, *ex, reference)),
                    Err(e) => Err(e),
                }
            },
            MicroInstructionLSB16::Llt(literal) => Ok(MicroInstructionLSB16::Llt(*literal)),
            MicroInstructionLSB16::TsAndEx(ts, ex) => Ok(MicroInstructionLSB16::TsAndEx(*ts, *ex)),
            MicroInstructionLSB16::TsExAndLt(ts, ex, literal) => Ok(
                MicroInstructionLSB16::TsExAndLt(*ts, *ex, *literal),
            ),
        }
    }

    fn plain(ts: Ts, ex: Ex, reference: Option<String>) -> (r: MicroInstructionLSB16)
        ensures
            r@ == MicroInstructionLSB16View::plain(
                ts,
                ex,
                match reference {
                    Some(label) => Some(label@),
                    None => None,
                },
            ),
    {
        if let Some(reference) = reference {
            MicroInstructionLSB16::WithReference(ts, ex, Reference::Unresolved(reference))
        } else {
            MicroInstructionLSB16::TsAndEx(ts, ex)
        }
    }
}

/// One microinstruction as field values: the seven fields that have a place
/// of their own in the word, and the low half.
#[derive(Clone, Debug, PartialEq, Eq)]
pub struct MicroInstruction {
    pub lb: Lb,
    pub rb: Rb,
    pub al: Al,
    pub sh: Sh,
    pub sb: Sb,
    pub mm: Mm,
    pub sq: Sq,
    pub lsb: MicroInstructionLSB16,
}

/// The mathematical value of a [`MicroInstruction`].
pub struct MicroInstructionView {
    pub lb: Lb,
    pub rb: Rb,
    pub al: Al,
    pub sh: Sh,
    pub sb: Sb,
    pub mm: Mm,
    pub sq: Sq,
    pub lsb: MicroInstructionLSB16View,
}

impl View for MicroInstruction {
    type V = MicroInstructionView;

    open spec fn view(&self) -> MicroInstructionView {
        MicroInstructionView {
            lb: self.lb,
            rb: self.rb,
            al: self.al,
            sh: self.sh,
            sb: self.sb,
            mm: self.mm,
            sq: self.sq,
            lsb: self.lsb@,
        }
    }
}

/// The microinstruction that an instruction is lowered to, or nothing where
/// its fields cannot share one word. The rules, in the order in which they
/// are tried:
///
/// 1. A long literal on the right bus takes the whole low half: there may be
///    no test, no label and no auxiliary action beside it.
/// 2. A short literal on the right bus takes the low 9 bits: there may be no
///    label beside it.
/// 3. A load of `IR`, `IO` or `C` that names its source drives the bus
///    itself: there may be no calculation beside it. A literal source of `C`
///    is held to the first two rules, so a long one is never accepted.
/// 4. Otherwise the low half holds the test, the auxiliary action and the
///    reference to the label, if there is one.
pub open spec fn lower(instruction: InstructionView) -> Option<MicroInstructionView> {
    let TestAndSequenceView(ts, sq, reference) = TestAndSequence::spec_from(
        instruction.test_and_sequence_statement,
    );
    let Calculation(lb, rb, al, sh, sb) = Calculation::from(&instruction.calculation_statement);
    let ex = Ex::from(&instruction.ex_statement);
    let idle = instruction.calculation_statement is None;
    let base = MicroInstructionView {
        lb,
        rb,
        al,
        sh,
        sb,
        mm: Mm::from(&instruction.memory_statement),
        sq,
        lsb: MicroInstructionLSB16View::plain(ts, ex, reference),
    };
    match (rb, ex) {
        (Rb::Llt(literal), _) => if ts == Ts::Nts && reference is None && ex == Ex::Nex {
            Some(MicroInstructionView { lsb: MicroInstructionLSB16View::Llt(literal), ..base })
        } else {
            None
        },
        (Rb::Slt(literal), _) => if reference is None {
            Some(
                MicroInstructionView {
                    lsb: MicroInstructionLSB16View::TsExAndLt(ts, ex, literal),
                    ..base
                },
            )
        } else {
            None
        },
        (_, Ex::Lir(Some(src))) | (_, Ex::Lio(Some(src))) => if idle {
            Some(MicroInstructionView { lb: src, ..base })
        } else {
            None
        },
        (_, Ex::Sc(Some(src))) => if !idle {
            None
        } else {
            match src {
                Rb::Llt(_) => None,
                Rb::Slt(literal) => if reference is None {
                    Some(
                        MicroInstructionView {
                            rb: src,
                            lsb: MicroInstructionLSB16View::TsExAndLt(ts, ex, literal),
                            ..base
                        },
                    )
                } else {
                    None
                },
                _ => Some(MicroInstructionView { rb: src, ..base }),
            }
        },
        _ => Some(base),
    }
}

impl MicroInstructionView {
    /// A short literal fits in 9 bits and a resolved address in 12.
    pub open spec fn well_formed(self) -> bool {
        match self.lsb {
            MicroInstructionLSB16View::TsExAndLt(_, _, literal) => literal < 512,
            MicroInstructionLSB16View::WithReference(_, _, ReferenceView::Resolved(address)) => address
                <= 0xFFF,
            _ => true,
        }
    }

    /// The microinstruction with its reference, if it has one, resolved by `table`.
    pub open spec fn resolve(self, table: Map<Seq<char>, MachineAddress>) -> Option<
        MicroInstructionView,
    > {
        match self.lsb.resolve(table) {
            Some(lsb) => Some(MicroInstructionView { lsb, ..self }),
            None => None,
        }
    }
}

impl MicroInstruction {
    /// Lowers a parsed instruction into field values. The label of the
    /// sequence field is kept by name.
    pub fn try_from(value: &Instruction) -> (r: Result<MicroInstruction, AsmError>)
        ensures
            match r {
                Ok(code) => lower(value@) == Some(code@) && code@.well_formed(),
                Err(e) => lower(value@) is None && e@ == AsmErrorView::IllegalEncoding,
            },
    {
        let TestAndSequence(ts, sq, reference) = TestAndSequence::from(
            &value.test_and_sequence_statement,
        );
        let mm = Mm::from(&value.memory_statement);
        let Calculation(lb, rb, al, sh, sb) = Calculation::from(&value.calculation_statement);
        let ex = Ex::from(&value.ex_statement);

        if let Rb::Llt(literal) = rb {
            if matches!(ts, Ts::Nts) && reference.is_none() && matches!(ex, Ex::Nex) {
                Ok(
                    MicroInstruction {
                        lb,
                        rb,
                        al,
                        sh,
                        sb,
                        mm,
                        sq,
                        lsb: MicroInstructionLSB16::Llt(literal),
                    },
                )
            } else {
                Err(AsmError::IllegalEncoding)
            }
        } else if let Rb::Slt(literal) = rb {
            if reference.is_none() {
                Ok(
                    MicroInstruction {
                        lb,
                        rb,
                        al,
                        sh,
                        sb,
                        mm,
                        sq,
                        lsb: MicroInstructionLSB16::TsExAndLt(ts, ex, literal),
                    },
                )
            } else {
                Err(AsmError::IllegalEncoding)
            }
        } else {
            match ex {
                Ex::Lir(Some(src)) | Ex::Lio(Some(src)) => {
                    if value.calculation_statement.is_none() {
                        Ok(
                            MicroInstruction {
                                lb: src,
                                rb,
                                al,
                                sh,
                                sb,
                                mm,
                                sq,
                                lsb: MicroInstructionLSB16::plain(ts, ex, reference),
                            },
                        )
                    } else {
                        Err(AsmError::IllegalEncoding)
                    }
                },
                Ex::Sc(Some(src)) => {
                    if value.calculation_statement.is_none() {
                        match src {
                            Rb::Llt(_) => Err(AsmError::IllegalEncoding),
                            Rb::Slt(literal) => {
                                if reference.is_none() {
                                    Ok(
                                        MicroInstruction {
                                            lb,
                                            rb: src,
                                            al,
                                            sh,
                                            sb,
                                            mm,
                                            sq,
                                            lsb: MicroInstructionLSB16::TsExAndLt(ts, ex, literal),
                                        },
                                    )
                                } else {
                                    Err(AsmError::IllegalEncoding)
                                }
                            },
                            _ => Ok(
                                MicroInstruction {
                                    lb,
                                    rb: src,
                                    al,
                                    sh,
                                    sb,
                                    mm,
                                    sq,
                                    lsb: MicroInstructionLSB16::plain(ts, ex, reference),
                                },
                            ),
                        }
                    } else {
                        Err(AsmError::IllegalEncoding)
                    }
                },
                _ => Ok(
                    MicroInstruction {
                        lb,
                        rb,
                        al,
                        sh,
                        sb,
                        mm,
                        sq,
                        lsb: MicroInstructionLSB16::plain(ts, ex, reference),
                    },
                ),
            }
        }
    }

    /// Replaces the label of the sequence field by the address that `table`
    /// gives it.
    pub fn resolve(&self, table: &SymbolTable) -> (r: Result<MicroInstruction, AsmError>)
        ensures
            match r {
                Ok(code) => self@.resolve(table@) == Some(code@),
                Err(e) => self@.resolve(table@) is None && self@.lsb.missing(table@) is Some && e@
                    == AsmErrorView::UnresolvedLabel(self@.lsb.missing(table@)->0),
            },
    {
        match self.lsb.resolve(table) {
            Ok(lsb) => Ok(
                MicroInstruction {
                    lb: self.lb,
                    rb: self.rb,
                    al: self.al,
                    sh: self.sh,
                    sb: self.sb,
                    mm: self.mm,
                    sq: self.sq,
                    lsb,
                },
            ),
            Err(e) => Err(e),
        }
    }
}

/// The bits 15 to 13 of a word that refers to the address `address`: its top
/// three bits for a branch, its top bit for the two dispatches that keep it,
/// and the test otherwise.
pub open spec fn scatter_high(sq: Sq, ts: Ts, address: MachineAddress) -> MachineCode {
    match sq {
        Sq::B | Sq::Bp => ((address as MachineCode) & 0xE00) << 4,
        Sq::Ira | Sq::Iab => ((address as MachineCode) & 0x800) << 2,
        _ => ts.code() << 13,
    }
}

/// The bits 8 to 0 of a word that refers to the address `address`.
pub open spec fn scatter_low(sq: Sq, address: MachineAddress) -> MachineCode {
    match sq {
        Sq::Iop => (address as MachineCode) >> 4,
        Sq::Ira => ((((address as MachineCode) & 0x7F0) >> 2) + ((address as MachineCode)
            & 0x003)) as MachineCode,
        Sq::Iab => ((((address as MachineCode) & 0x7C0) >> 2) + ((address as MachineCode)
            & 0x003)) as MachineCode,
        _ => (address as MachineCode) & 0x1FF,
    }
}

impl MicroInstructionView {
    /// The seven fields that have a place of their own, each at its place.
    pub open spec fn fixed_fields(self) -> MachineCode {
        (self.lb.code() << 36) | (self.rb.code() << 32) | (self.al.code() << 29) | (self.sh.code()
            << 26) | (self.sb.code() << 22) | (self.mm.code() << 20) | (self.sq.code() << 16)
    }

    /// The low 16 bits of the word; nothing while the reference is a name.
    pub open spec fn low_half(self) -> Option<MachineCode> {
        match self.lsb {
            MicroInstructionLSB16View::Llt(literal) => Some(literal as MachineCode),
            MicroInstructionLSB16View::TsAndEx(ts, ex) => Some((ts.code() << 13) | (ex.code() << 9)),
            MicroInstructionLSB16View::TsExAndLt(ts, ex, literal) => Some(
                (ts.code() << 13) | (ex.code() << 9) | (literal as MachineCode),
            ),
            MicroInstructionLSB16View::WithReference(ts, ex, ReferenceView::Resolved(address)) => Some(
                scatter_high(self.sq, ts, address) | (ex.code() << 9) | scatter_low(
                    self.sq,
                    address,
                ),
            ),
            MicroInstructionLSB16View::WithReference(_, _, ReferenceView::Unresolved(_)) => None,
        }
    }

    /// The name that still stands where the word needs an address.
    pub open spec fn unresolved(self) -> Option<Seq<char>> {
        match self.lsb {
            MicroInstructionLSB16View::WithReference(_, _, ReferenceView::Unresolved(name)) => Some(
                name,
            ),
            _ => None,
        }
    }

    /// The 40-bit word of the microinstruction.
    pub open spec fn encode(self) -> Option<MachineCode> {
        match self.low_half() {
            Some(low) => Some(self.fixed_fields() | low),
            None => None,
        }
    }
}

/// The field of `width_mask` bits that `word` holds `shift` bits above its
/// lowest bit.
pub open spec fn field(word: MachineCode, shift: MachineCode, width_mask: MachineCode) -> MachineCode {
    (word >> shift) & width_mask
}

proof fn lemma_pack(
    lb: MachineCode,
    rb: MachineCode,
    al: MachineCode,
    sh: MachineCode,
    sb: MachineCode,
    mm: MachineCode,
    sq: MachineCode,
    low: MachineCode,
)
    by (bit_vector)
    requires
        lb <= 0xF,
        rb <= 0xF,
        al <= 0x7,
        sh <= 0x7,
        sb <= 0xF,
        mm <= 0x3,
        sq <= 0xF,
        low <= 0xFFFF,
    ensures
        ({
            let word = (lb << 36) | (rb << 32) | (al << 29) | (sh << 26) | (sb << 22) | (mm << 20)
                | (sq << 16) | low;
            &&& word <= 0xFF_FFFF_FFFF
            &&& word >> 40 == 0
            &&& (word >> 36) & 0xF == lb
            &&& (word >> 32) & 0xF == rb
            &&& (word >> 29) & 0x7 == al
            &&& (word >> 26) & 0x7 == sh
            &&& (word >> 22) & 0xF == sb
            &&& (word >> 20) & 0x3 == mm
            &&& (word >> 16) & 0xF == sq
            &&& word & 0xFFFF == low
        }),
{
}

proof fn lemma_low_plain(ts: MachineCode, ex: MachineCode, literal: MachineCode)
    by (bit_vector)
    requires
        ts <= 0x7,
        ex <= 0xF,
        literal <= 0xFFFF,
    ensures
        (ts << 13) | (ex << 9) <= 0xFFFF,
        (ts << 13) | (ex << 9) | literal <= 0xFFFF,
        (((ts << 13) | (ex << 9)) >> 13) & 0x7 == ts,
        (((ts << 13) | (ex << 9)) >> 9) & 0xF == ex,
        ((ts << 13) | (ex << 9)) & 0x1FF == 0,
        literal < 512 ==> (((ts << 13) | (ex << 9) | literal) >> 13) & 0x7 == ts,
        literal < 512 ==> (((ts << 13) | (ex << 9) | literal) >> 9) & 0xF == ex,
        literal < 512 ==> ((ts << 13) | (ex << 9) | literal) & 0x1FF == literal,
{
}

proof fn lemma_low_branch(ex: MachineCode, a: MachineCode)
    by (bit_vector)
    requires
        ex <= 0xF,
        a <= 0xFFFF,
    ensures
        ({
            let low = ((a & 0xE00) << 4) | (ex << 9) | (a & 0x1FF);
            &&& low <= 0xFFFF
            &&& (low >> 9) & 0xF == ex
            &&& a <= 0xFFF ==> ((low >> 4) & 0xE00) | (low & 0x1FF) == a
        }),
{
}

proof fn lemma_low_iop(ts: MachineCode, ex: MachineCode, a: MachineCode)
    by (bit_vector)
    requires
        ts <= 0x7,
        ex <= 0xF,
        a <= 0xFFFF,
    ensures
        ({
            let low = (ts << 13) | (ex << 9) | (a >> 4);
            &&& low <= 0xFFFF
            &&& a <= 0xFFF ==> (low >> 13) & 0x7 == ts
            &&& a <= 0xFFF ==> (low >> 9) & 0xF == ex
            &&& a <= 0xFFF && a & 0xF == 0 ==> (low & 0x1FF) << 4 == a
        }),
{
}

proof fn lemma_low_ira(ex: MachineCode, a: MachineCode)
    by (bit_vector)
    requires
        ex <= 0xF,
        a <= 0xFFFF,
    ensures
        ({
            let index = (((a & 0x7F0) >> 2) + (a & 0x003)) as u64;
            let low = ((a & 0x800) << 2) | (ex << 9) | index;
            &&& ((a & 0x7F0) >> 2) + (a & 0x003) <= 0x1FF
            &&& index == ((a & 0x7F0) >> 2) | (a & 0x003)
            &&& low <= 0xFFFF
            &&& (low >> 9) & 0xF == ex
            &&& a <= 0xFFF && a & 0xC == 0 ==> ((low >> 2) & 0x800) | ((low & 0x1FC) << 2) | (low
                & 0x003) == a
        }),
{
}

proof fn lemma_low_iab(ex: MachineCode, a: MachineCode)
    by (bit_vector)
    requires
        ex <= 0xF,
        a <= 0xFFFF,
    ensures
        ({
            let index = (((a & 0x7C0) >> 2) + (a & 0x003)) as u64;
            let low = ((a & 0x800) << 2) | (ex << 9) | index;
            &&& ((a & 0x7C0) >> 2) + (a & 0x003) <= 0x1FF
            &&& index == ((a & 0x7C0) >> 2) | (a & 0x003)
            &&& low <= 0xFFFF
            &&& (low >> 9) & 0xF == ex
            &&& a <= 0xFFF && a & 0x3C == 0 ==> ((low >> 2) & 0x800) | ((low & 0x1F0) << 2) | (low
                & 0x003) == a
        }),
{
}

proof fn lemma_low_other(ts: MachineCode, ex: MachineCode, a: MachineCode)
    by (bit_vector)
    requires
        ts <= 0x7,
        ex <= 0xF,
        a <= 0xFFFF,
    ensures
        ({
            let low = (ts << 13) | (ex << 9) | (a & 0x1FF);
            &&& low <= 0xFFFF
            &&& (low >> 13) & 0x7 == ts
            &&& (low >> 9) & 0xF == ex
            &&& low & 0x1FF == a & 0x1FF
        }),
{
}

/// The low half of a word fits in 16 bits.
pub proof fn lemma_low_half_fits(code: MicroInstructionView)
    requires
        code.low_half() is Some,
    ensures
        code.low_half()->0 <= 0xFFFF,
{
    match code.lsb {
        MicroInstructionLSB16View::Llt(literal) => {},
        MicroInstructionLSB16View::TsAndEx(ts, ex) => {
            lemma_low_plain(ts.code(), ex.code(), 0);
        },
        MicroInstructionLSB16View::TsExAndLt(ts, ex, literal) => {
            lemma_low_plain(ts.code(), ex.code(), literal as MachineCode);
        },
        MicroInstructionLSB16View::WithReference(ts, ex, ReferenceView::Resolved(address)) => {
            let a = address as MachineCode;
            match code.sq {
                Sq::B | Sq::Bp => lemma_low_branch(ex.code(), a),
                Sq::Iop => lemma_low_iop(ts.code(), ex.code(), a),
                Sq::Ira => lemma_low_ira(ex.code(), a),
                Sq::Iab => lemma_low_iab(ex.code(), a),
                _ => lemma_low_other(ts.code(), ex.code(), a),
            }
        },
        MicroInstructionLSB16View::WithReference(_, _, ReferenceView::Unresolved(_)) => {},
    }
}

/// An encoded word takes 40 bits: the top 24 bits of the 64 are zero.
pub proof fn lemma_word_is_40_bits(code: MicroInstructionView)
    requires
        code.encode() is Some,
    ensures
        code.encode()->0 <= 0xFF_FFFF_FFFF,
        code.encode()->0 >> 40 == 0,
{
    lemma_low_half_fits(code);
    lemma_pack(
        code.lb.code(),
        code.rb.code(),
        code.al.code(),
        code.sh.code(),
        code.sb.code(),
        code.mm.code(),
        code.sq.code(),
        code.low_half()->0,
    );
}

/// Reading the seven fixed fields and the low half back from an encoded word
/// gives the codes that were packed into it.
pub proof fn lemma_fields_round_trip(code: MicroInstructionView)
    requires
        code.encode() is Some,
    ensures
        field(code.encode()->0, 36, 0xF) == code.lb.code(),
        field(code.encode()->0, 32, 0xF) == code.rb.code(),
        field(code.encode()->0, 29, 0x7) == code.al.code(),
        field(code.encode()->0, 26, 0x7) == code.sh.code(),
        field(code.encode()->0, 22, 0xF) == code.sb.code(),
        field(code.encode()->0, 20, 0x3) == code.mm.code(),
        field(code.encode()->0, 16, 0xF) == code.sq.code(),
        code.encode()->0 & 0xFFFF == code.low_half()->0,
{
    lemma_low_half_fits(code);
    lemma_pack(
        code.lb.code(),
        code.rb.code(),
        code.al.code(),
        code.sh.code(),
        code.sb.code(),
        code.mm.code(),
        code.sq.code(),
        code.low_half()->0,
    );
}

/// Reading the low half of a well-formed microinstruction back gives what it
/// was made of: the literal; the test and the auxiliary action, and the short
/// literal beside them; and, where it refers to an address, the auxiliary
/// action, the test wherever the address leaves its place free, and as much of
/// the address as the sequence opcode keeps, which is all of it for a branch
/// and for a dispatch to an address with the alignment of that dispatch.
pub proof fn lemma_low_half_round_trip(code: MicroInstructionView)
    requires
        code.well_formed(),
        code.low_half() is Some,
    ensures
        ({
            let low = code.low_half()->0;
            match code.lsb {
                MicroInstructionLSB16View::Llt(literal) => low == literal,
                MicroInstructionLSB16View::TsAndEx(ts, ex) => {
                    &&& field(low, 13, 0x7) == ts.code()
                    &&& field(low, 9, 0xF) == ex.code()
                    &&& low & 0x1FF == 0
                },
                MicroInstructionLSB16View::TsExAndLt(ts, ex, literal) => {
                    &&& field(low, 13, 0x7) == ts.code()
                    &&& field(low, 9, 0xF) == ex.code()
                    &&& low & 0x1FF == literal
                },
                MicroInstructionLSB16View::WithReference(ts, ex, reference) => {
                    let address = reference->Resolved_0 as MachineCode;
                    &&& field(low, 9, 0xF) == ex.code()
                    &&& match code.sq {
                        Sq::B | Sq::Bp => ((low >> 4) & 0xE00) | (low & 0x1FF) == address,
                        Sq::Iop => {
                            &&& field(low, 13, 0x7) == ts.code()
                            &&& address & 0xF == 0 ==> (low & 0x1FF) << 4 == address
                        },
                        Sq::Ira => address & 0xC == 0 ==> ((low >> 2) & 0x800) | ((low & 0x1FC)
                            << 2) | (low & 0x003) == address,
                        Sq::Iab => address & 0x3C == 0 ==> ((low >> 2) & 0x800) | ((low & 0x1F0)
                            << 2) | (low & 0x003) == address,
                        _ => {
                            &&& field(low, 13, 0x7) == ts.code()
                            &&& low & 0x1FF == address & 0x1FF
                        },
                    }
                },
            }
        }),
{
    match code.lsb {
        MicroInstructionLSB16View::Llt(literal) => {},
        MicroInstructionLSB16View::TsAndEx(ts, ex) => {
            lemma_low_plain(ts.code(), ex.code(), 0);
        },
        MicroInstructionLSB16View::TsExAndLt(ts, ex, literal) => {
            lemma_low_plain(ts.code(), ex.code(), literal as MachineCode);
        },
        MicroInstructionLSB16View::WithReference(ts, ex, ReferenceView::Resolved(address)) => {
            let a = address as MachineCode;
            match code.sq {
                Sq::B | Sq::Bp => lemma_low_branch(ex.code(), a),
                Sq::Iop => lemma_low_iop(ts.code(), ex.code(), a),
                Sq::Ira => lemma_low_ira(ex.code(), a),
                Sq::Iab => lemma_low_iab(ex.code(), a),
                _ => lemma_low_other(ts.code(), ex.code(), a),
            }
        },
        MicroInstructionLSB16View::WithReference(_, _, ReferenceView::Unresolved(_)) => {},
    }
}

impl MicroInstruction {
    /// Packs the microinstruction into its 40-bit word. The reference of the
    /// sequence field must have been resolved.
    pub fn machine_code(&self) -> (r: Result<MachineCode, AsmError>)
        ensures
            match r {
                Ok(word) => self@.encode() == Some(word) && word <= 0xFF_FFFF_FFFF,
                Err(e) => self@.encode() is None && self@.unresolved() is Some && e@
                    == AsmErrorView::UnresolvedLabel(self@.unresolved()->0),
            },
    {
        let fixed = self.lb.machine_code() | self.rb.machine_code() | self.al.machine_code()
            | self.sh.machine_code() | self.sb.machine_code() | self.mm.machine_code()
            | self.sq.machine_code();
        let low: MachineCode = match &self.lsb {
            MicroInstructionLSB16::Llt(literal) => *literal as MachineCode,
            MicroInstructionLSB16::TsAndEx(ts, ex) => ts.machine_code() | ex.machine_code(),
            MicroInstructionLSB16::TsExAndLt(ts, ex, slt) => ts.machine_code() | ex.machine_code()
                | (*slt as MachineCode),
            MicroInstructionLSB16::WithReference(ts, ex, reference) => match reference {
                Reference::Unresolved(name) => {
                    return Err(AsmError::UnresolvedLabel(name.clone()));
                },
                Reference::Resolved(literal) => {
                    let address = *literal as MachineCode;
                    proof {
                        lemma_low_ira(ex.code(), address);
                        lemma_low_iab(ex.code(), address);
                    }
                    let high = match self.sq {
                        Sq::B | Sq::Bp => (address & 0xE00) << 4,
                        Sq::Ira | Sq::Iab => (address & 0x800) << 2,
                        _ => ts.machine_code(),
                    };
                    let index = match self.sq {
                        Sq::Iop => address >> 4,
                        Sq::Ira => ((address & 0x7F0) >> 2) + (address & 0x003),
                        Sq::Iab => ((address & 0x7C0) >> 2) + (address & 0x003),
                        _ => address & 0x1FF,
                    };
                    high | ex.machine_code() | index
                },
            },
        };
        proof {
            lemma_word_is_40_bits(self@);
        }
        Ok(fixed | low)
    }
}

/// The address and the microinstruction that code generation gives for one
/// instruction: the instruction must carry an address, and its fields must
/// share one word.
pub open spec fn generate_one(instruction: InstructionView) -> Result<
    (MachineAddress, MicroInstructionView),
    AsmErrorView,
> {
    match instruction.address {
        None => Err(AsmErrorView::MissingAddress),
        Some(address) => match lower(instruction) {
            Some(code) => Ok((address, code)),
            None => Err(AsmErrorView::IllegalEncoding),
        },
    }
}

/// The instruction `i` is the first of the program for which code generation fails.
pub open spec fn first_failure(instructions: Seq<InstructionView>, i: int) -> bool {
    &&& 0 <= i < instructions.len()
    &&& generate_one(instructions[i]) is Err
    &&& forall|j: int| 0 <= j < i ==> generate_one(#[trigger] instructions[j]) is Ok
}

/// What code generation gives for a program: the address and the
/// microinstruction of every instruction, or the error of the first
/// instruction for which it fails.
pub open spec fn generated(instructions: Seq<InstructionView>) -> Result<
    Seq<(MachineAddress, MicroInstructionView)>,
    AsmErrorView,
> {
    if forall|i: int| 0 <= i < instructions.len() ==> generate_one(#[trigger] instructions[i]) is Ok {
        Ok(Seq::new(instructions.len(), |i: int| generate_one(instructions[i])->Ok_0))
    } else {
        Err(generate_one(instructions[choose|i: int| first_failure(instructions, i)])->Err_0)
    }
}

/// Where code generation fails for some instruction, it fails for a first one.
pub proof fn lemma_some_first_failure(instructions: Seq<InstructionView>, i: int)
    requires
        0 <= i < instructions.len(),
        generate_one(instructions[i]) is Err,
    ensures
        exists|k: int| first_failure(instructions, k),
    decreases i,
{
    if exists|j: int| 0 <= j < i && generate_one(#[trigger] instructions[j]) is Err {
        let j = choose|j: int| 0 <= j < i && generate_one(#[trigger] instructions[j]) is Err;
        lemma_some_first_failure(instructions, j);
    } else {
        assert(first_failure(instructions, i));
    }
}

/// A program has at most one first failure, and it decides what code
/// generation gives.
pub proof fn lemma_first_failure(instructions: Seq<InstructionView>, i: int)
    requires
        first_failure(instructions, i),
    ensures
        generated(instructions) == Err::<Seq<(MachineAddress, MicroInstructionView)>, AsmErrorView>(
            generate_one(instructions[i])->Err_0,
        ),
{
    let k = choose|k: int| first_failure(instructions, k);
    if k < i {
        assert(generate_one(instructions[k]) is Ok);
    } else if i < k {
        assert(generate_one(instructions[i]) is Ok);
    }
}

/// The values of a list of addresses and microinstructions, in order.
pub open spec fn code_views(code: Seq<(MachineAddress, MicroInstruction)>) -> Seq<
    (MachineAddress, MicroInstructionView),
> {
    Seq::new(code.len(), |i: int| (code[i].0, code[i].1@))
}

/// Lowers every instruction of a placed program, in order, and pairs each
/// with its address. The first instruction that has no address or cannot be
/// lowered ends the run with its error.
pub fn generate(instructions: &Vec<Instruction>) -> (r: Result<
    Vec<(MachineAddress, MicroInstruction)>,
    AsmError,
>)
    ensures
        match r {
            Ok(code) => {
                &&& generated(instruction_views(instructions@)) == Ok::<
                    Seq<(MachineAddress, MicroInstructionView)>,
                    AsmErrorView,
                >(code_views(code@))
                &&& forall|i: int| 0 <= i < code.len() ==> (#[trigger] code[i]).1@.well_formed()
            },
            Err(e) => generated(instruction_views(instructions@)) == Err::<
                Seq<(MachineAddress, MicroInstructionView)>,
                AsmErrorView,
            >(e@),
        },
{
    let ghost views = instruction_views(instructions@);
    let mut ret: Vec<(MachineAddress, MicroInstruction)> = Vec::new();
    let mut index: usize = 0;
    while index < instructions.len()
        invariant
            index <= instructions.len(),
            views == instruction_views(instructions@),
            ret.len() == index,
            forall|i: int|
                0 <= i < index ==> generate_one(#[trigger] views[i]) == Ok::<
                    (MachineAddress, MicroInstructionView),
                    AsmErrorView,
                >((ret[i].0, ret[i].1@)),
            forall|i: int| 0 <= i < index ==> (#[trigger] ret[i]).1@.well_formed(),
        decreases instructions.len() - index,
    {
        let instruction = &instructions[index];
        assert(views[index as int] == instruction@);
        let address = if let Some(constant) = instruction.address {
            constant
        } else {
            proof {
                lemma_first_failure(views, index as int);
            }
            return Err(AsmError::MissingAddress);
        };
        let code = match MicroInstruction::try_from(instruction) {
            Ok(code) => code,
            Err(e) => {
                proof {
                    lemma_first_failure(views, index as int);
                }
                return Err(e);
            },
        };
        ret.push((address, code));
        index += 1;
    }
    assert(code_views(ret@) =~= generated(views)->Ok_0);
    Ok(ret)
}

/// The word of one microinstruction, once `table` has resolved its
/// reference, with its address.
pub open spec fn encode_one(
    table: Map<Seq<char>, MachineAddress>,
    code: (MachineAddress, MicroInstructionView),
) -> Result<(MachineAddress, MachineCode), AsmErrorView> {
    match code.1.resolve(table) {
        None => Err(AsmErrorView::UnresolvedLabel(code.1.lsb.missing(table)->0)),
        Some(resolved) => match resolved.encode() {
            Some(word) => Ok((code.0, word)),
            None => Err(AsmErrorView::UnresolvedLabel(resolved.unresolved()->0)),
        },
    }
}

/// The microinstruction `i` is the first that cannot be encoded.
pub open spec fn first_unencoded(
    table: Map<Seq<char>, MachineAddress>,
    code: Seq<(MachineAddress, MicroInstructionView)>,
    i: int,
) -> bool {
    &&& 0 <= i < code.len()
    &&& encode_one(table, code[i]) is Err
    &&& forall|j: int| 0 <= j < i ==> encode_one(table, #[trigger] code[j]) is Ok
}

/// The words of a program with their addresses, or the error of the first
/// microinstruction that cannot be encoded.
pub open spec fn encoded(
    table: Map<Seq<char>, MachineAddress>,
    code: Seq<(MachineAddress, MicroInstructionView)>,
) -> Result<Seq<(MachineAddress, MachineCode)>, AsmErrorView> {
    if forall|i: int| 0 <= i < code.len() ==> encode_one(table, #[trigger] code[i]) is Ok {
        Ok(Seq::new(code.len(), |i: int| encode_one(table, code[i])->Ok_0))
    } else {
        Err(encode_one(table, code[choose|i: int| first_unencoded(table, code, i)])->Err_0)
    }
}

/// A program has at most one first microinstruction that cannot be encoded,
/// and it decides what encoding gives.
pub proof fn lemma_first_unencoded(
    table: Map<Seq<char>, MachineAddress>,
    code: Seq<(MachineAddress, MicroInstructionView)>,
    i: int,
)
    requires
        first_unencoded(table, code, i),
    ensures
        encoded(table, code) == Err::<Seq<(MachineAddress, MachineCode)>, AsmErrorView>(
            encode_one(table, code[i])->Err_0,
        ),
{
    let k = choose|k: int| first_unencoded(table, code, k);
    if k < i {
        assert(encode_one(table, code[k]) is Ok);
    } else if i < k {
        assert(encode_one(table, code[i]) is Ok);
    }
}

/// Resolves and packs every microinstruction of a program, in order. Every
/// word takes 40 bits. The first reference that `symbol_table` cannot
/// resolve ends the run with its error.
pub fn encode(
    code: &Vec<(MachineAddress, MicroInstruction)>,
    symbol_table: &SymbolTable,
) -> (r: Result<Vec<(MachineAddress, MachineCode)>, AsmError>)
    ensures
        match r {
            Ok(words) => {
                &&& encoded(symbol_table@, code_views(code@)) == Ok::<
                    Seq<(MachineAddress, MachineCode)>,
                    AsmErrorView,
                >(words@)
                &&& forall|i: int| 0 <= i < words.len() ==> (#[trigger] words[i]).1 <= 0xFF_FFFF_FFFF
            },
            Err(e) => encoded(symbol_table@, code_views(code@)) == Err::<
                Seq<(MachineAddress, MachineCode)>,
                AsmErrorView,
            >(e@),
        },
{
    let ghost views = code_views(code@);
    let mut words: Vec<(MachineAddress, MachineCode)> = Vec::new();
    let mut index: usize = 0;
    while index < code.len()
        invariant
            index <= code.len(),
            views == code_views(code@),
            words.len() == index,
            forall|i: int|
                0 <= i < index ==> encode_one(symbol_table@, #[trigger] views[i]) == Ok::<
                    (MachineAddress, MachineCode),
                    AsmErrorView,
                >(words[i]),
            forall|i: int| 0 <= i < index ==> (#[trigger] words[i]).1 <= 0xFF_FFFF_FFFF,
        decreases code.len() - index,
    {
        assert(views[index as int] == (code[index as int].0, code[index as int].1@));
        let resolved = match code[index].1.resolve(symbol_table) {
            Ok(resolved) => resolved,
            Err(e) => {
                proof {
                    lemma_first_unencoded(symbol_table@, views, index as int);
                }
                return Err(e);
            },
        };
        let word = match resolved.machine_code() {
            Ok(word) => word,
            Err(e) => {
                proof {
                    lemma_first_unencoded(symbol_table@, views, index as int);
                }
                return Err(e);
            },
        };
        words.push((code[index].0, word));
        index += 1;
    }
    assert(words@ =~= encoded(symbol_table@, views)->Ok_0);
    Ok(words)
}

} // verus!
