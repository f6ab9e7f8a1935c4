use vstd::prelude::*;

use crate::instruction::{Register, Value};
use crate::vm::{Vm, VmView};

verus! {

/// The type of arithmetic operation to perform.
#[derive(Debug, Clone, Copy, PartialEq, Eq, Structural)]
pub enum ArthimeticOp {
    /// Addition.
    Add,
    /// Subtraction.
    Sub,
    /// Shift left in place (extended dialects).
    Shl,
    /// Shift right in place (extended dialects).
    Shr,
    /// Shift the second register left into the first (base dialect).
    ShlOld,
    /// Shift the second register right into the first (base dialect).
    ShrOld,
}

/// The values used for arithmetic.
#[derive(Debug, Clone, Copy, PartialEq, Eq, Structural)]
pub enum ArthimeticValue {
    /// A single register.
    Register(Register),
    /// A register and an immediate value.
    RegisterValue(Register, Value),
    /// A register and a register.
    RegisterRegister(Register, Register),
}

/// An arithmetic instruction.
#[derive(Debug, Clone, Copy, PartialEq, Eq, Structural)]
pub struct ArthimeticInstruction {
    /// The type of arithmetic operation to perform.
    pub op: ArthimeticOp,
    /// The registers/values used for the operation.
    pub values: ArthimeticValue,
    /// Whether the flag register is written on carry/borrow.
    pub carry_flag: bool,
    /// Whether the order of operands is inverted (the "subtract-N" form).
    pub inverted: bool,
}

impl ArthimeticInstruction {
    /// The operand shapes the decoder can produce: register indices are
    /// nibbles, in-place shifts take a single register, base-dialect shifts
    /// take two, and add/sub take either two registers or a register and an
    /// immediate.
    pub open spec fn wf(self) -> bool {
        match self.values {
            ArthimeticValue::Register(x) => x < 16 && (self.op is Shl || self.op is Shr),
            ArthimeticValue::RegisterValue(x, _) => x < 16 && (self.op is Add || self.op is Sub),
            ArthimeticValue::RegisterRegister(x, y) =>
                x < 16 && y < 16 && !(self.op is Shl || self.op is Shr),
        }
    }
}

/// 8-bit wraparound sum.
pub open spec fn spec_add_result(a: u8, b: u8) -> u8 {
    if a + b > 255 {
        (a + b - 256) as u8
    } else {
        (a + b) as u8
    }
}

/// 1 iff the 8-bit sum overflowed.
pub open spec fn spec_add_carry(a: u8, b: u8) -> u8 {
    if a + b > 255 {
        1
    } else {
        0
    }
}

/// 8-bit wraparound difference `a - b`.
pub open spec fn spec_sub_result(a: u8, b: u8) -> u8 {
    if a >= b {
        (a - b) as u8
    } else {
        (a + 256 - b) as u8
    }
}

/// The "not-borrow" flag: 1 iff no borrow occurred in `a - b`.
pub open spec fn spec_sub_flag(a: u8, b: u8) -> u8 {
    if a >= b {
        1
    } else {
        0
    }
}

/// Add or subtract into register `x` with operands `a` (the register's
/// value) and `b`, honouring the carry flag request and operand inversion.
/// The result is written first; the flag register is written after it, as
/// the machine does.
pub open spec fn spec_arith_add_sub(
    regs: Seq<u8>,
    op: ArthimeticOp,
    carry_flag: bool,
    inverted: bool,
    x: u8,
    a: u8,
    b: u8,
) -> Seq<u8> {
    match op {
        ArthimeticOp::Add => {
            let written = regs.update(x as int, spec_add_result(a, b));
            if carry_flag {
                written.update(15, spec_add_carry(a, b))
            } else {
                written
            }
        },
        ArthimeticOp::Sub => {
            let p = if inverted { b } else { a };
            let q = if inverted { a } else { b };
            let written = regs.update(x as int, spec_sub_result(p, q));
            if carry_flag {
                written.update(15, spec_sub_flag(p, q))
            } else {
                written
            }
        },
        _ => regs,
    }
}

/// The register file after an arithmetic instruction. Shifts write the
/// shifted-out bit to the flag register first and then shift the target,
/// so a shift whose target is the flag register shifts the fresh flag.
pub open spec fn spec_arith(regs: Seq<u8>, i: ArthimeticInstruction) -> Seq<u8> {
    match i.values {
        ArthimeticValue::Register(x) => {
            let v = regs[x as int];
            match i.op {
                ArthimeticOp::Shl => {
                    let flagged = regs.update(15, (v >> 7) & 1);
                    flagged.update(x as int, flagged[x as int] << 1)
                },
                ArthimeticOp::Shr => {
                    let flagged = regs.update(15, v & 1);
                    flagged.update(x as int, flagged[x as int] >> 1)
                },
                _ => regs,
            }
        },
        ArthimeticValue::RegisterValue(x, v) => spec_arith_add_sub(
            regs,
            i.op,
            i.carry_flag,
            i.inverted,
            x,
            regs[x as int],
            v,
        ),
        ArthimeticValue::RegisterRegister(x, y) => {
            match i.op {
                ArthimeticOp::ShlOld => {
                    let flagged = regs.update(15, (regs[y as int] >> 7) & 1);
                    flagged.update(x as int, flagged[y as int] << 1)
                },
                ArthimeticOp::ShrOld => {
                    let flagged = regs.update(15, regs[y as int] & 1);
                    flagged.update(x as int, flagged[y as int] >> 1)
                },
                _ => spec_arith_add_sub(
                    regs,
                    i.op,
                    i.carry_flag,
                    i.inverted,
                    x,
                    regs[x as int],
                    regs[y as int],
                ),
            }
        },
    }
}

impl ArthimeticInstruction {
    /// Executes a single-register (in-place shift) instruction.
    fn execute_register(self, vm: &mut Vm, register: Register)
        requires
            old(vm).wf(),
            self.wf(),
            self.values == ArthimeticValue::Register(register),
        ensures
            final(vm).wf(),
            final(vm)@ == (VmView {
                registers: spec_arith(old(vm)@.registers, self),
                ..old(vm)@
            }),
    {
        let idx = register as usize;
        let value = vm.registers[idx];
        match self.op {
            ArthimeticOp::Shl => {
                vm.registers[0xF] = (value >> 7) & 1;
                let cur = vm.registers[idx];
                vm.registers[idx] = cur << 1;
            },
            ArthimeticOp::Shr => {
                vm.registers[0xF] = value & 1;
                let cur = vm.registers[idx];
                vm.registers[idx] = cur >> 1;
            },
            _ => {
                proof {
                    assert(false);
                }
            },
        }
        proof {
            assert(vm@ =~= (VmView {
                registers: spec_arith(old(vm)@.registers, self),
                ..old(vm)@
            }));
        }
    }

    /// Executes a register-register add, subtract or base-dialect shift.
    fn execute_register_register(self, vm: &mut Vm, register_a: Register, register_b: Register)
        requires
            old(vm).wf(),
            self.wf(),
            self.values == ArthimeticValue::RegisterRegister(register_a, register_b),
        ensures
            final(vm).wf(),
            final(vm)@ == (VmView {
                registers: spec_arith(old(vm)@.registers, self),
                ..old(vm)@
            }),
    {
        let ia = register_a as usize;
        let ib = register_b as usize;
        let value_a = vm.registers[ia];
        let value_b = vm.registers[ib];
        match self.op {
            ArthimeticOp::Add => {
                let total: u16 = value_a as u16 + value_b as u16;
                let result: u8 = if total > 255 {
                    (total - 256) as u8
                } else {
                    total as u8
                };
                vm.registers[ia] = result;
                if self.carry_flag {
                    vm.registers[0xF] = if total > 255 {
                        1
                    } else {
                        0
                    };
                }
            },
            ArthimeticOp::Sub => {
                let p = if self.inverted {
                    value_b
                } else {
                    value_a
                };
                let q = if self.inverted {
                    value_a
                } else {
                    value_b
                };
                let result: u8 = if p >= q {
                    p - q
                } else {
                    (p as u16 + 256 - q as u16) as u8
                };
                vm.registers[ia] = result;
                if self.carry_flag {
                    vm.registers[0xF] = if p >= q {
                        1
                    } else {
                        0
                    };
                }
            },
            ArthimeticOp::ShlOld => {
                vm.registers[0xF] = (value_b >> 7) & 1;
                let cur = vm.registers[ib];
                vm.registers[ia] = cur << 1;
            },
            ArthimeticOp::ShrOld => {
                vm.registers[0xF] = value_b & 1;
                let cur = vm.registers[ib];
                vm.registers[ia] = cur >> 1;
            },
            _ => {
                proof {
                    assert(false);
                }
            },
        }
        proof {
            assert(vm@ =~= (VmView {
                registers: spec_arith(old(vm)@.registers, self),
                ..old(vm)@
            }));
        }
    }

    /// Executes a register-immediate add or subtract.
    fn execute_register_value(self, vm: &mut Vm, register: Register, value: Value)
        requires
            old(vm).wf(),
            self.wf(),
            self.values == ArthimeticValue::RegisterValue(register, value),
        ensures
            final(vm).wf(),
            final(vm)@ == (VmView {
                registers: spec_arith(old(vm)@.registers, self),
                ..old(vm)@
            }),
    {
        let idx = register as usize;
        let register_value = vm.registers[idx];
        match self.op {
            ArthimeticOp::Add => {
                let total: u16 = register_value as u16 + value as u16;
                let result: u8 = if total > 255 {
                    (total - 256) as u8
                } else {
                    total as u8
                };
                vm.registers[idx] = result;
                if self.carry_flag {
                    vm.registers[0xF] = if total > 255 {
                        1
                    } else {
                        0
                    };
                }
            },
            ArthimeticOp::Sub => {
                let p = if self.inverted {
                    value
                } else {
                    register_value
                };
                let q = if self.inverted {
                    register_value
                } else {
                    value
                };
                let result: u8 = if p >= q {
                    p - q
                } else {
                    (p as u16 + 256 - q as u16) as u8
                };
                vm.registers[idx] = result;
                if self.carry_flag {
                    vm.registers[0xF] = if p >= q {
                        1
                    } else {
                        0
                    };
                }
            },
            _ => {
                proof {
                    assert(false);
                }
            },
        }
        proof {
            assert(vm@ =~= (VmView {
                registers: spec_arith(old(vm)@.registers, self),
                ..old(vm)@
            }));
        }
    }

    /// Executes the arithmetic instruction on the machine: only the
    /// register file changes, as `spec_arith` describes.
    pub fn execute(self, vm: &mut Vm)
        requires
            old(vm).wf(),
            self.wf(),
        ensures
            final(vm).wf(),
            final(vm)@ == (VmView {
                registers: spec_arith(old(vm)@.registers, self),
                ..old(vm)@
            }),
    {
        match self.values {
            ArthimeticValue::Register(register) => self.execute_register(vm, register),
            ArthimeticValue::RegisterValue(register, value) => {
                self.execute_register_value(vm, register, value);
            },
            ArthimeticValue::RegisterRegister(register_a, register_b) => {
                self.execute_register_register(vm, register_a, register_b);
            },
        }
    }
}

} // verus!
