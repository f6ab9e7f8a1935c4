use vstd::prelude::*;

use crate::instruction::{Address, Register, Value};
use crate::instruction::wf_instruction;
use crate::vm::{spec_evicted, Vm, VmError, VmView};

verus! {

/// A location a value can be moved from or into.
#[derive(Debug, Clone, Copy, PartialEq, Eq, Structural)]
pub enum LoadTarget {
    /// A general-purpose register.
    Register(Register),
    /// A memory address.
    Address(Address),
    /// An immediate value.
    Value(Value),
    /// The index register; for block transfers, the base-dialect form that
    /// leaves the index register unchanged.
    I,
    /// The index register in the extended-dialect block-transfer form that
    /// increments the index register by the transferred count.
    IChip48,
    /// The font glyph for a digit.
    Font(u8),
    /// The delay timer.
    DelayTimer,
    /// The sound timer.
    SoundTimer,
    /// The three-digit decimal decomposition written at the index register.
    Bcd,
    /// The persistent RPL user flags.
    Rpl,
}

/// A loading instruction: moves a value (or a block of values) between two
/// locations.
#[derive(Debug, Clone, Copy, PartialEq, Eq, Structural)]
pub struct LoadInstruction {
    pub from: LoadTarget,
    pub into: LoadTarget,
}

impl LoadInstruction {
    /// The (from, into) pairings the decoder can produce. Validity depends
    /// only on which opcode produced the pair, so any other pairing is an
    /// internal contract violation, not a runtime condition.
    pub open spec fn wf(self) -> bool {
        match (self.from, self.into) {
            (LoadTarget::Address(a), LoadTarget::I) => a < 0x1000,
            (LoadTarget::Register(from), LoadTarget::Register(into)) => from < 16 && into < 16,
            (LoadTarget::Value(_), LoadTarget::Register(into)) => into < 16,
            (LoadTarget::DelayTimer, LoadTarget::Register(into)) => into < 16,
            (LoadTarget::Register(from), LoadTarget::DelayTimer) => from < 16,
            (LoadTarget::SoundTimer, LoadTarget::Register(into)) => into < 16,
            (LoadTarget::Register(from), LoadTarget::SoundTimer) => from < 16,
            (LoadTarget::Font(glyph), LoadTarget::I) => glyph < 16,
            (LoadTarget::Register(from), LoadTarget::Bcd) => from < 16,
            (LoadTarget::I, LoadTarget::Register(into)) => into < 16,
            (LoadTarget::IChip48, LoadTarget::Register(into)) => into < 16,
            (LoadTarget::Register(from), LoadTarget::I) => from < 16,
            (LoadTarget::Register(from), LoadTarget::IChip48) => from < 16,
            (LoadTarget::Register(from), LoadTarget::Rpl) => from < 16,
            (LoadTarget::Rpl, LoadTarget::Register(into)) => into < 16,
            _ => false,
        }
    }
}

/// The memory after registers `0..=x` are stored at base `i0`:
/// `cnt = x + 1` bytes are overwritten.
pub open spec fn spec_block_store_mem(mem: Seq<u8>, regs: Seq<u8>, i0: int, cnt: int) -> Seq<u8> {
    Seq::new(4096, |j: int| if i0 <= j < i0 + cnt {
        regs[j - i0]
    } else {
        mem[j]
    })
}

/// The state after a block store (registers `0..=x` to memory at the index
/// register): the written range is evicted from the instruction cache, and
/// the extended-dialect form advances the index register by the
/// transferred count. A transfer that would run past memory fails with no
/// state change.
pub open spec fn spec_block_store(s: VmView, x: u8, increment: bool) -> Result<VmView, VmError> {
    let i0 = s.index_register as int;
    let cnt = x as int + 1;
    if i0 + cnt > 4096 {
        Err(VmError::MemoryOutOfBounds { address: s.index_register })
    } else {
        Ok(VmView {
            memory: spec_block_store_mem(s.memory, s.registers, i0, cnt),
            cache: spec_evicted(s.cache, i0, i0 + cnt),
            index_register: if increment {
                (i0 + cnt) as u16
            } else {
                s.index_register
            },
            ..s
        })
    }
}

/// The register file after a block load of `cnt = x + 1` bytes from
/// memory at base `i0`.
pub open spec fn spec_block_load_regs(regs: Seq<u8>, mem: Seq<u8>, i0: int, cnt: int) -> Seq<u8> {
    Seq::new(16, |j: int| if 0 <= j < cnt {
        mem[i0 + j]
    } else {
        regs[j]
    })
}

/// The state after a block load (memory at the index register into
/// registers `0..=x`): the extended-dialect form advances the index
/// register by the transferred count. A transfer that would run past
/// memory fails with no state change.
pub open spec fn spec_block_load(s: VmView, x: u8, increment: bool) -> Result<VmView, VmError> {
    let i0 = s.index_register as int;
    let cnt = x as int + 1;
    if i0 + cnt > 4096 {
        Err(VmError::MemoryOutOfBounds { address: s.index_register })
    } else {
        Ok(VmView {
            registers: spec_block_load_regs(s.registers, s.memory, i0, cnt),
            index_register: if increment {
                (i0 + cnt) as u16
            } else {
                s.index_register
            },
            ..s
        })
    }
}

/// The state after the decimal decomposition of a register's value is
/// written at the index register: hundreds, tens, ones. A write that would
/// run past memory fails with no state change.
pub open spec fn spec_bcd(s: VmView, from: u8) -> Result<VmView, VmError> {
    let v = s.registers[from as int];
    let i0 = s.index_register as int;
    if i0 + 3 > 4096 {
        Err(VmError::MemoryOutOfBounds { address: s.index_register })
    } else {
        Ok(VmView {
            memory: s.memory.update(i0, (v / 100) as u8).update(i0 + 1, ((v / 10) % 10) as u8)
                .update(i0 + 2, (v % 10) as u8),
            ..s
        })
    }
}

/// How many values an RPL transfer moves: registers `0..=X` inclusive,
/// bounds-checked to at most the eight flag bytes.
pub open spec fn spec_rpl_count(x: u8) -> int {
    if (x as int) < 8 {
        x as int + 1
    } else {
        8
    }
}

/// The RPL flags after registers `0..=X` (bounds-checked) are saved into
/// them.
pub open spec fn spec_rpl_store(s: VmView, x: u8) -> VmView {
    VmView {
        rpl: Seq::new(8, |j: int| if 0 <= j < spec_rpl_count(x) {
            s.registers[j]
        } else {
            s.rpl[j]
        }),
        ..s
    }
}

/// The register file after the RPL flags are restored into registers
/// `0..=X` (bounds-checked).
pub open spec fn spec_rpl_load(s: VmView, x: u8) -> VmView {
    VmView {
        registers: Seq::new(16, |j: int| if 0 <= j < spec_rpl_count(x) {
            s.rpl[j]
        } else {
            s.registers[j]
        }),
        ..s
    }
}

/// The state after a load instruction, or the error it fails with. Every
/// pairing the decoder produces is covered; an impossible pairing is
/// mapped to the unchanged state.
pub open spec fn spec_load(s: VmView, i: LoadInstruction) -> Result<VmView, VmError> {
    match (i.from, i.into) {
        (LoadTarget::Address(address), LoadTarget::I) => Ok(VmView {
            index_register: address,
            ..s
        }),
        (LoadTarget::Register(from), LoadTarget::Register(into)) => Ok(VmView {
            registers: s.registers.update(into as int, s.registers[from as int]),
            ..s
        }),
        (LoadTarget::Value(from), LoadTarget::Register(into)) => Ok(VmView {
            registers: s.registers.update(into as int, from),
            ..s
        }),
        (LoadTarget::DelayTimer, LoadTarget::Register(into)) => Ok(VmView {
            registers: s.registers.update(into as int, s.delay_timer),
            ..s
        }),
        (LoadTarget::Register(from), LoadTarget::DelayTimer) => Ok(VmView {
            delay_timer: s.registers[from as int],
            ..s
        }),
        (LoadTarget::SoundTimer, LoadTarget::Register(into)) => Ok(VmView {
            registers: s.registers.update(into as int, s.sound_timer),
            ..s
        }),
        (LoadTarget::Register(from), LoadTarget::SoundTimer) => Ok(VmView {
            sound_timer: s.registers[from as int],
            ..s
        }),
        (LoadTarget::Font(glyph), LoadTarget::I) => Ok(VmView {
            index_register: (0x50 + glyph as int * 5) as u16,
            ..s
        }),
        (LoadTarget::Register(from), LoadTarget::Bcd) => spec_bcd(s, from),
        (LoadTarget::I, LoadTarget::Register(into)) => spec_block_load(s, into, false),
        (LoadTarget::IChip48, LoadTarget::Register(into)) => spec_block_load(s, into, true),
        (LoadTarget::Register(from), LoadTarget::I) => spec_block_store(s, from, false),
        (LoadTarget::Register(from), LoadTarget::IChip48) => spec_block_store(s, from, true),
        (LoadTarget::Register(from), LoadTarget::Rpl) => Ok(spec_rpl_store(s, from)),
        (LoadTarget::Rpl, LoadTarget::Register(into)) => Ok(spec_rpl_load(s, into)),
        _ => Ok(s),
    }
}

fn block_store(vm: &mut Vm, x: u8, increment: bool) -> (r: Result<(), VmError>)
    requires
        old(vm).wf(),
        x < 16,
    ensures
        final(vm).wf(),
        (spec_block_store(old(vm)@, x, increment) matches Ok(v) ==> r is Ok && final(vm)@ == v),
        (spec_block_store(old(vm)@, x, increment) matches Err(e) ==> r
            == Result::<(), VmError>::Err(e) && final(vm)@ == old(vm)@),
{
    let i0 = vm.index_register as usize;
    let cnt = x as usize + 1;
    if i0 + cnt > 4096 {
        return Err(VmError::MemoryOutOfBounds { address: vm.index_register });
    }
    let mut j: usize = 0;
    while j < cnt
        invariant
            old(vm).wf(),
            i0 + cnt <= 4096,
            cnt == x as int + 1,
            x < 16,
            i0 == old(vm)@.index_register as int,
            j <= cnt,
            vm.memory@.len() == 4096,
            forall|t: int|
                i0 <= t < i0 + j ==> vm.memory@[t] == old(vm)@.registers[t - i0],
            forall|t: int|
                (0 <= t < i0 || i0 + j <= t < 4096) ==> vm.memory@[t] == old(vm)@.memory[t],
            *vm == (Vm { memory: vm.memory, ..*old(vm) }),
        decreases cnt - j,
    {
        vm.memory[i0 + j] = vm.registers[j];
        j = j + 1;
    }
    proof {
        assert(vm.memory@ =~= spec_block_store_mem(
            old(vm)@.memory,
            old(vm)@.registers,
            i0 as int,
            cnt as int,
        ));
        assert forall|a: u16| vm@.cache.dom().contains(a) implies wf_instruction(
            vm@.cache[a],
        ) by {
            assert(vm@.cache == old(vm)@.cache);
            assert(wf_instruction(old(vm)@.cache[a]));
        }
        assert(vm.wf());
    }
    vm.invalidate_cache(i0, i0 + cnt);
    if increment {
        vm.index_register = (i0 + cnt) as u16;
    }
    proof {
        assert(vm@ =~= spec_block_store(old(vm)@, x, increment)->Ok_0);
    }
    Ok(())
}

fn block_load(vm: &mut Vm, x: u8, increment: bool) -> (r: Result<(), VmError>)
    requires
        old(vm).wf(),
        x < 16,
    ensures
        final(vm).wf(),
        (spec_block_load(old(vm)@, x, increment) matches Ok(v) ==> r is Ok && final(vm)@ == v),
        (spec_block_load(old(vm)@, x, increment) matches Err(e) ==> r
            == Result::<(), VmError>::Err(e) && final(vm)@ == old(vm)@),
{
    let i0 = vm.index_register as usize;
    let cnt = x as usize + 1;
    if i0 + cnt > 4096 {
        return Err(VmError::MemoryOutOfBounds { address: vm.index_register });
    }
    let mut j: usize = 0;
    while j < cnt
        invariant
            old(vm).wf(),
            i0 + cnt <= 4096,
            cnt == x as int + 1,
            x < 16,
            i0 == old(vm)@.index_register as int,
            j <= cnt,
            vm.registers@.len() == 16,
            forall|t: int| 0 <= t < j ==> vm.registers@[t] == old(vm)@.memory[i0 + t],
            forall|t: int| j <= t < 16 ==> vm.registers@[t] == old(vm)@.registers[t],
            *vm == (Vm { registers: vm.registers, ..*old(vm) }),
        decreases cnt - j,
    {
        vm.registers[j] = vm.memory[i0 + j];
        j = j + 1;
    }
    if increment {
        vm.index_register = (i0 + cnt) as u16;
    }
    proof {
        assert(vm.registers@ =~= spec_block_load_regs(
            old(vm)@.registers,
            old(vm)@.memory,
            i0 as int,
            cnt as int,
        ));
        assert(vm@ =~= spec_block_load(old(vm)@, x, increment)->Ok_0);
    }
    Ok(())
}

fn write_bcd(vm: &mut Vm, from: u8) -> (r: Result<(), VmError>)
    requires
        old(vm).wf(),
        from < 16,
    ensures
        final(vm).wf(),
        (spec_bcd(old(vm)@, from) matches Ok(v) ==> r is Ok && final(vm)@ == v),
        (spec_bcd(old(vm)@, from) matches Err(e) ==> r == Result::<(), VmError>::Err(e)
            && final(vm)@ == old(vm)@),
{
    let i0 = vm.index_register as usize;
    if i0 + 3 > 4096 {
        return Err(VmError::MemoryOutOfBounds { address: vm.index_register });
    }
    let value = vm.registers[from as usize];
    vm.memory[i0] = value / 100;
    vm.memory[i0 + 1] = (value / 10) % 10;
    vm.memory[i0 + 2] = value % 10;
    proof {
        assert(vm@ =~= spec_bcd(old(vm)@, from)->Ok_0);
    }
    Ok(())
}

fn rpl_store(vm: &mut Vm, from: u8)
    requires
        old(vm).wf(),
        from < 16,
    ensures
        final(vm).wf(),
        final(vm)@ == spec_rpl_store(old(vm)@, from),
{
    let cnt: usize = if (from as usize) < 8 {
        from as usize + 1
    } else {
        8
    };
    let mut j: usize = 0;
    while j < cnt
        invariant
            old(vm).wf(),
            cnt == spec_rpl_count(from),
            cnt <= 8,
            j <= cnt,
            vm.rpl@.len() == 8,
            forall|t: int| 0 <= t < j ==> vm.rpl@[t] == old(vm)@.registers[t],
            forall|t: int| j <= t < 8 ==> vm.rpl@[t] == old(vm)@.rpl[t],
            *vm == (Vm { rpl: vm.rpl, ..*old(vm) }),
        decreases cnt - j,
    {
        vm.rpl[j] = vm.registers[j];
        j = j + 1;
    }
    proof {
        assert(vm.rpl@ =~= spec_rpl_store(old(vm)@, from).rpl);
        assert(vm@ =~= spec_rpl_store(old(vm)@, from));
    }
}

fn rpl_load(vm: &mut Vm, into: u8)
    requires
        old(vm).wf(),
        into < 16,
    ensures
        final(vm).wf(),
        final(vm)@ == spec_rpl_load(old(vm)@, into),
{
    let cnt: usize = if (into as usize) < 8 {
        into as usize + 1
    } else {
        8
    };
    let mut j: usize = 0;
    while j < cnt
        invariant
            old(vm).wf(),
            cnt == spec_rpl_count(into),
            cnt <= 8,
            j <= cnt,
            vm.registers@.len() == 16,
            forall|t: int| 0 <= t < j ==> vm.registers@[t] == old(vm)@.rpl[t],
            forall|t: int| j <= t < 16 ==> vm.registers@[t] == old(vm)@.registers[t],
            *vm == (Vm { registers: vm.registers, ..*old(vm) }),
        decreases cnt - j,
    {
        vm.registers[j] = vm.rpl[j];
        j = j + 1;
    }
    proof {
        assert(vm.registers@ =~= spec_rpl_load(old(vm)@, into).registers);
        assert(vm@ =~= spec_rpl_load(old(vm)@, into));
    }
}

impl LoadInstruction {
    /// Executes the load instruction: moves the value or block between its
    /// two locations, with the dialect-dependent index-register update and
    /// the cache eviction over any program-space bytes written.
    pub fn execute(self, vm: &mut Vm) -> (r: Result<(), VmError>)
        requires
            old(vm).wf(),
            self.wf(),
        ensures
            final(vm).wf(),
            (spec_load(old(vm)@, self) matches Ok(v) ==> r is Ok && final(vm)@ == v),
            (spec_load(old(vm)@, self) matches Err(e) ==> r == Result::<(), VmError>::Err(e)
                && final(vm)@ == old(vm)@),
    {
        match (self.from, self.into) {
            (LoadTarget::Address(address), LoadTarget::I) => {
                vm.index_register = address;
                proof {
                    assert(vm@ =~= spec_load(old(vm)@, self)->Ok_0);
                }
                Ok(())
            },
            (LoadTarget::Register(from), LoadTarget::Register(into)) => {
                let v = vm.registers[from as usize];
                vm.registers[into as usize] = v;
                proof {
                    assert(vm@ =~= spec_load(old(vm)@, self)->Ok_0);
                }
                Ok(())
            },
            (LoadTarget::Value(from), LoadTarget::Register(into)) => {
                vm.registers[into as usize] = from;
                proof {
                    assert(vm@ =~= spec_load(old(vm)@, self)->Ok_0);
                }
                Ok(())
            },
            (LoadTarget::DelayTimer, LoadTarget::Register(into)) => {
                vm.registers[into as usize] = vm.delay_timer;
                proof {
                    assert(vm@ =~= spec_load(old(vm)@, self)->Ok_0);
                }
                Ok(())
            },
            (LoadTarget::Register(from), LoadTarget::DelayTimer) => {
                vm.delay_timer = vm.registers[from as usize];
                proof {
                    assert(vm@ =~= spec_load(old(vm)@, self)->Ok_0);
                }
                Ok(())
            },
            (LoadTarget::SoundTimer, LoadTarget::Register(into)) => {
                vm.registers[into as usize] = vm.sound_timer;
                proof {
                    assert(vm@ =~= spec_load(old(vm)@, self)->Ok_0);
                }
                Ok(())
            },
            (LoadTarget::Register(from), LoadTarget::SoundTimer) => {
                vm.sound_timer = vm.registers[from as usize];
                proof {
                    assert(vm@ =~= spec_load(old(vm)@, self)->Ok_0);
                }
                Ok(())
            },
            (LoadTarget::Font(glyph), LoadTarget::I) => {
                vm.index_register = 0x50 + (glyph as u16) * 5;
                proof {
                    assert(vm@ =~= spec_load(old(vm)@, self)->Ok_0);
                }
                Ok(())
            },
            (LoadTarget::Register(from), LoadTarget::Bcd) => write_bcd(vm, from),
            (LoadTarget::I, LoadTarget::Register(into)) => block_load(vm, into, false),
            (LoadTarget::IChip48, LoadTarget::Register(into)) => block_load(vm, into, true),
            (LoadTarget::Register(from), LoadTarget::I) => block_store(vm, from, false),
            (LoadTarget::Register(from), LoadTarget::IChip48) => block_store(vm, from, true),
            (LoadTarget::Register(from), LoadTarget::Rpl) => {
                rpl_store(vm, from);
                Ok(())
            },
            (LoadTarget::Rpl, LoadTarget::Register(into)) => {
                rpl_load(vm, into);
                Ok(())
            },
            _ => {
                proof {
                    assert(false);
                }
                Ok(())
            },
        }
    }
}

} // verus!
