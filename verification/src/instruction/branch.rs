use vstd::prelude::*;

use crate::instruction::{Address, Register, Value};
use crate::vm::{ProgramCounter, Vm, VmView};

verus! {

/// The condition under which the branch is taken.
#[derive(Debug, Clone, Copy, PartialEq, Eq, Structural)]
pub enum BranchType {
    /// The instruction unconditionally jumps to the target.
    Unconditional,
    /// The instruction jumps to the target, pushing the calling address
    /// onto the stack.
    Call,
    /// The instruction branches if the register equals the value.
    Equal { register: Register, value: Value },
    /// The instruction branches if the two registers are equal.
    EqualRegister { register_a: Register, register_b: Register },
    /// The instruction branches if the key named by the register is down.
    KeyPressed { register: Register },
}

/// Where the branch goes when its condition holds.
#[derive(Debug, Clone, Copy, PartialEq, Eq, Structural)]
pub enum BranchTarget {
    /// Jump to the target address.
    Address(Address),
    /// Jump to the target address plus the value of a register.
    AddressOffset(Address, Register),
    /// Skip the next instruction.
    Skip,
}

/// A branching instruction.
#[derive(Debug, Clone, Copy, PartialEq, Eq, Structural)]
pub struct BranchInstruction {
    /// The condition under which the branch is taken.
    pub branch_type: BranchType,
    /// Where the branch goes when the condition holds.
    pub branch_target: BranchTarget,
    /// Whether the condition is inverted.
    pub inverted: bool,
}

impl BranchInstruction {
    /// Creates a new branch instruction.
    pub fn new(branch_type: BranchType, branch_target: BranchTarget, inverted: bool) -> (r: Self)
        ensures
            r == (BranchInstruction { branch_type, branch_target, inverted }),
    {
        BranchInstruction { branch_type, branch_target, inverted }
    }

    /// What the decoder can produce: register indices are nibbles and
    /// target addresses are twelve bits.
    pub open spec fn wf(self) -> bool {
        &&& match self.branch_type {
            BranchType::Unconditional => true,
            BranchType::Call => true,
            BranchType::Equal { register, value } => register < 16,
            BranchType::EqualRegister { register_a, register_b } =>
                register_a < 16 && register_b < 16,
            BranchType::KeyPressed { register } => register < 16,
        }
        &&& match self.branch_target {
            BranchTarget::Address(a) => a < 0x1000,
            BranchTarget::AddressOffset(a, r) => a < 0x1000 && r < 16,
            BranchTarget::Skip => true,
        }
    }
}

/// Whether the branch condition (before inversion) holds. A key index
/// outside the sixteen keypad keys counts as not pressed.
pub open spec fn spec_branch_cond(
    regs: Seq<u8>,
    keypad: Seq<bool>,
    bt: BranchType,
) -> bool {
    match bt {
        BranchType::Unconditional => true,
        BranchType::Call => true,
        BranchType::Equal { register, value } => regs[register as int] == value,
        BranchType::EqualRegister { register_a, register_b } =>
            regs[register_a as int] == regs[register_b as int],
        BranchType::KeyPressed { register } => {
            let k = regs[register as int];
            k < 16 && keypad[k as int]
        },
    }
}

/// The program-counter directive of a taken branch.
pub open spec fn spec_branch_taken_target(regs: Seq<u8>, bt: BranchTarget) -> ProgramCounter {
    match bt {
        BranchTarget::Address(a) => ProgramCounter::Jump(a),
        BranchTarget::AddressOffset(a, r) => ProgramCounter::Jump((a + regs[r as int]) as u16),
        BranchTarget::Skip => ProgramCounter::Skip,
    }
}

/// The call stack after the branch: a call pushes the calling address
/// whether or not the branch is ultimately taken.
pub open spec fn spec_branch_stack(stack: Seq<u16>, pc: u16, i: BranchInstruction) -> Seq<u16> {
    if i.branch_type is Call {
        stack.push(pc)
    } else {
        stack
    }
}

/// The program-counter directive of the branch: the condition, XORed with
/// the inversion flag, selects the target or falls through.
pub open spec fn spec_branch_directive(
    regs: Seq<u8>,
    keypad: Seq<bool>,
    i: BranchInstruction,
) -> ProgramCounter {
    if spec_branch_cond(regs, keypad, i.branch_type) != i.inverted {
        spec_branch_taken_target(regs, i.branch_target)
    } else {
        ProgramCounter::Next
    }
}

impl BranchInstruction {
    /// Executes the branch: a call pushes the calling address, and the
    /// returned directive says how the program counter moves.
    pub fn execute(self, vm: &mut Vm) -> (r: ProgramCounter)
        requires
            old(vm).wf(),
            self.wf(),
            old(vm).program_counter < 0x1000,
        ensures
            final(vm).wf(),
            final(vm)@ == (VmView {
                stack: spec_branch_stack(old(vm)@.stack, old(vm)@.program_counter, self),
                ..old(vm)@
            }),
            r == spec_branch_directive(old(vm)@.registers, old(vm)@.keypad, self),
    {
        let should_branch = match self.branch_type {
            BranchType::Unconditional => true,
            BranchType::Call => {
                let pc = vm.program_counter;
                vm.stack.push(pc);
                true
            },
            BranchType::Equal { register, value } => {
                vm.registers[register as usize] == value
            },
            BranchType::EqualRegister { register_a, register_b } => {
                vm.registers[register_a as usize] == vm.registers[register_b as usize]
            },
            BranchType::KeyPressed { register } => {
                let k = vm.registers[register as usize];
                if (k as usize) < 16 {
                    vm.keypad[k as usize]
                } else {
                    false
                }
            },
        } ^ self.inverted;
        let r = if should_branch {
            match self.branch_target {
                BranchTarget::Address(address) => ProgramCounter::Jump(address),
                BranchTarget::AddressOffset(address, offset_register) => {
                    let offset = vm.registers[offset_register as usize] as u16;
                    ProgramCounter::Jump(address + offset)
                },
                BranchTarget::Skip => ProgramCounter::Skip,
            }
        } else {
            ProgramCounter::Next
        };
        proof {
            assert(vm@ =~= (VmView {
                stack: spec_branch_stack(old(vm)@.stack, old(vm)@.program_counter, self),
                ..old(vm)@
            }));
        }
        r
    }
}

} // verus!
