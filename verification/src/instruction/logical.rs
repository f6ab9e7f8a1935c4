use vstd::prelude::*;

use crate::instruction::Register;
use crate::vm::{Vm, VmView};

verus! {

/// The type of logical operation to perform.
#[derive(Debug, Clone, Copy, PartialEq, Eq, Structural)]
pub enum LogicalOp {
    /// Logical AND.
    And,
    /// Logical OR.
    Or,
    /// Logical XOR.
    Xor,
}

/// A logical instruction.
#[derive(Debug, Clone, Copy, PartialEq, Eq, Structural)]
pub struct LogicalInstruction {
    /// The logical operation to perform.
    pub op: LogicalOp,
    /// The first operand register, which also receives the result.
    pub register_a: Register,
    /// The second operand register.
    pub register_b: Register,
}

impl LogicalInstruction {
    /// What the decoder can produce: register indices are nibbles.
    pub open spec fn wf(self) -> bool {
        self.register_a < 16 && self.register_b < 16
    }
}

/// The register file after a logical instruction: the first register
/// becomes the bitwise combination of the two operands; the flag register
/// is untouched (unless it is itself the destination).
pub open spec fn spec_logical(regs: Seq<u8>, i: LogicalInstruction) -> Seq<u8> {
    let a = regs[i.register_a as int];
    let b = regs[i.register_b as int];
    let r = match i.op {
        LogicalOp::And => a & b,
        LogicalOp::Or => a | b,
        LogicalOp::Xor => a ^ b,
    };
    regs.update(i.register_a as int, r)
}

impl LogicalInstruction {
    /// Executes the logical instruction: only the destination register
    /// changes.
    pub fn execute(self, vm: &mut Vm)
        requires
            old(vm).wf(),
            self.wf(),
        ensures
            final(vm).wf(),
            final(vm)@ == (VmView {
                registers: spec_logical(old(vm)@.registers, self),
                ..old(vm)@
            }),
    {
        let a = vm.registers[self.register_a as usize];
        let b = vm.registers[self.register_b as usize];
        let r = match self.op {
            LogicalOp::And => a & b,
            LogicalOp::Or => a | b,
            LogicalOp::Xor => a ^ b,
        };
        vm.registers[self.register_a as usize] = r;
        proof {
            assert(vm@ =~= (VmView {
                registers: spec_logical(old(vm)@.registers, self),
                ..old(vm)@
            }));
        }
    }
}

} // verus!
