use std::collections::HashMap;

use nanorand::Rng;

use vstd::prelude::*;

use crate::instruction::arthimetic::spec_arith;
use crate::instruction::branch::{spec_branch_directive, spec_branch_stack};
use crate::instruction::draw::spec_draw;
use crate::instruction::load::spec_load;
use crate::instruction::logical::spec_logical;
use crate::instruction::{lemma_parse_wf, spec_parse, wf_instruction, Instruction};

verus! {

broadcast use vstd::std_specs::hash::group_hash_axioms;

/// Which of the three instruction-set personalities the machine follows.
/// The dialect affects both decoding and several execution semantics.
#[derive(Debug, Copy, Clone, PartialEq, Eq, Structural)]
pub enum VmMode {
    /// Interpret as the original CHIP-8 interpreter would.
    Chip8,
    /// Interpret using CHIP-48.
    Chip48,
    /// Interpret using SUPER-CHIP.
    SuperChip,
}

/// How the program counter moves after an instruction executes.
#[derive(Debug, Copy, Clone, PartialEq, Eq, Structural)]
pub enum ProgramCounter {
    /// Retry the same address on the next step (blocking key wait).
    Pause,
    /// Advance past the current two-byte instruction.
    Next,
    /// Skip over the following instruction.
    Skip,
    /// Jump to an absolute address.
    Jump(u16),
}

/// A fatal condition raised by the execution engine. There is no recovery
/// path inside the engine; the surrounding application decides whether to
/// reset, reload, or stop.
#[derive(Debug, Copy, Clone, PartialEq, Eq, Structural)]
pub enum VmError {
    /// The two bytes at the faulting address do not decode in the current
    /// dialect.
    InvalidOpcode { opcode: u16, address: u16 },
    /// A return was executed with an empty call stack.
    StackUnderflow { address: u16 },
    /// A system-call instruction was executed (unsupported hardware call).
    SystemCall { address: u16 },
    /// The program counter left the executable range before a fetch.
    PcOutOfRange { pc: u16 },
    /// An instruction would have read or written past the 4096-byte memory.
    MemoryOutOfBounds { address: u16 },
}

/// The display bitmap, held as a bit-packed vector from the bitvec crate.
/// Verus sees the type opaquely; its contents are named by
/// `spec_display_bits` and reached through the wrappers below.
#[verifier::external_body]
pub struct DisplayBuffer {
    bits: bitvec::vec::BitVec,
}

/// What the display buffer holds: one boolean per pixel, row-major.
pub uninterp spec fn spec_display_bits(b: &DisplayBuffer) -> Seq<bool>;

impl DisplayBuffer {
    /// Relies on bitvec's `BitVec::repeat`: a fresh vector of `len` copies
    /// of the given bit, here always false.
    #[verifier::external_body]
    pub(crate) fn all_false(len: usize) -> (r: DisplayBuffer)
        ensures
            spec_display_bits(&r) == Seq::new(len as nat, |i: int| false),
    {
        DisplayBuffer { bits: bitvec::vec::BitVec::repeat(false, len) }
    }

    /// Relies on bitvec's `BitSlice::len`: the number of bits held.
    #[verifier::external_body]
    pub(crate) fn bit_count(&self) -> (r: usize)
        ensures
            r == spec_display_bits(self).len(),
    {
        self.bits.len()
    }

    /// Relies on bitvec's `BitSlice::set`: writes one bit in place.
    #[verifier::external_body]
    pub(crate) fn write(&mut self, index: usize, value: bool)
        requires
            index < spec_display_bits(old(self)).len(),
        ensures
            spec_display_bits(final(self)) == spec_display_bits(old(self)).update(
                index as int,
                value,
            ),
    {
        self.bits.set(index, value);
    }

    /// Relies on bitvec's `BitSlice` index operator: reads one bit.
    #[verifier::external_body]
    pub(crate) fn read(&self, index: usize) -> (r: bool)
        requires
            index < spec_display_bits(self).len(),
        ensures
            r == spec_display_bits(self)[index as int],
    {
        self.bits[index]
    }
}

/// Relies on nanorand's `tls_rng` and `Rng::generate`: one byte drawn from
/// the thread-local generator. Nothing is promised of the value.
#[verifier::external_body]
fn random_byte() -> u8 {
    let mut rng = nanorand::tls_rng();
    rng.generate::<u8>()
}

/// The CHIP-8 virtual machine and interpreter.
pub struct Vm {
    /// The dialect the machine currently follows.
    pub mode: VmMode,
    /// The memory of the virtual machine: always 4096 bytes.
    pub memory: Vec<u8>,
    /// The cache of parsed instructions, keyed by address.
    pub instruction_cache: HashMap<u16, Instruction>,
    /// The sixteen general-purpose registers.
    pub registers: Vec<u8>,
    /// The index register.
    pub index_register: u16,
    /// The program counter.
    pub program_counter: u16,
    /// The call stack of return addresses.
    pub stack: Vec<u16>,
    /// The delay timer.
    pub delay_timer: u8,
    /// The sound timer.
    pub sound_timer: u8,
    /// The sixteen keypad key states, written by the caller before a step.
    pub keypad: Vec<bool>,
    /// The display bitmap, row-major.
    pub display: DisplayBuffer,
    /// The eight persistent RPL user flags.
    pub rpl: Vec<u8>,
    /// Whether high-resolution mode is enabled.
    pub high_resolution: bool,
    /// Whether the machine is paused.
    pub paused: bool,
    /// How many instructions the machine has executed.
    pub cycles: usize,
}

/// The mathematical state of the machine: what every contract speaks of.
#[verifier::ext_equal]
pub ghost struct VmView {
    pub mode: VmMode,
    pub memory: Seq<u8>,
    pub cache: Map<u16, Instruction>,
    pub registers: Seq<u8>,
    pub index_register: u16,
    pub program_counter: u16,
    pub stack: Seq<u16>,
    pub delay_timer: u8,
    pub sound_timer: u8,
    pub keypad: Seq<bool>,
    pub display: Seq<bool>,
    pub rpl: Seq<u8>,
    pub high_resolution: bool,
    pub paused: bool,
    pub cycles: usize,
}

impl View for Vm {
    type V = VmView;

    open spec fn view(&self) -> VmView {
        VmView {
            mode: self.mode,
            memory: self.memory@,
            cache: self.instruction_cache@,
            registers: self.registers@,
            index_register: self.index_register,
            program_counter: self.program_counter,
            stack: self.stack@,
            delay_timer: self.delay_timer,
            sound_timer: self.sound_timer,
            keypad: self.keypad@,
            display: spec_display_bits(&self.display),
            rpl: self.rpl@,
            high_resolution: self.high_resolution,
            paused: self.paused,
            cycles: self.cycles,
        }
    }
}

/// How many pixels the display holds in each resolution.
pub open spec fn spec_display_len(high_resolution: bool) -> int {
    if high_resolution {
        (128 * 64) as int
    } else {
        (64 * 32) as int
    }
}

/// Well-formedness of a machine state: the fixed sizes of the state
/// arrays, the display sized to its resolution, every stacked return
/// address inside the address space, and every cached instruction shaped
/// as the decoder shapes them.
pub open spec fn wf_state(s: VmView) -> bool {
    &&& s.memory.len() == 4096
    &&& s.registers.len() == 16
    &&& s.keypad.len() == 16
    &&& s.rpl.len() == 8
    &&& s.display.len() == spec_display_len(s.high_resolution)
    &&& (forall|i: int| 0 <= i < s.stack.len() ==> s.stack[i] < 0x1000)
    &&& (forall|a: u16| s.cache.dom().contains(a) ==> wf_instruction(s.cache[a]))
}

impl Vm {
    /// Well-formedness of the machine; every public operation preserves it.
    pub open spec fn wf(&self) -> bool {
        wf_state(self@)
    }
}

/// The five-byte font glyphs for the sixteen hexadecimal digits.
pub open spec fn spec_font() -> Seq<u8> {
    seq![
        0xF0u8, 0x90, 0x90, 0x90, 0xF0, // 0
        0x20, 0x60, 0x20, 0x20, 0x70, // 1
        0xF0, 0x10, 0xF0, 0x80, 0xF0, // 2
        0xF0, 0x10, 0xF0, 0x10, 0xF0, // 3
        0x90, 0x90, 0xF0, 0x10, 0x10, // 4
        0xF0, 0x80, 0xF0, 0x10, 0xF0, // 5
        0xF0, 0x80, 0xF0, 0x90, 0xF0, // 6
        0xF0, 0x10, 0x20, 0x40, 0x40, // 7
        0xF0, 0x90, 0xF0, 0x90, 0xF0, // 8
        0xF0, 0x90, 0xF0, 0x10, 0xF0, // 9
        0xF0, 0x90, 0xF0, 0x90, 0x90, // A
        0xE0, 0x90, 0xE0, 0x90, 0xE0, // B
        0xF0, 0x80, 0x80, 0x80, 0xF0, // C
        0xE0, 0x90, 0x90, 0x90, 0xE0, // D
        0xF0, 0x80, 0xF0, 0x80, 0xF0, // E
        0xF0, 0x80, 0xF0, 0x80, 0x80, // F
    ]
}

/// Memory as `setup_memory` leaves it: zero everywhere but the font table.
pub open spec fn spec_memory_after_setup() -> Seq<u8> {
    Seq::new(4096, |i: int| if 0x50 <= i < 0xA0 {
        spec_font()[i - 0x50]
    } else {
        0u8
    })
}

fn font_table() -> (r: Vec<u8>)
    ensures
        r@ == spec_font(),
{
    let r: Vec<u8> = vec![
        0xF0u8, 0x90, 0x90, 0x90, 0xF0, // 0
        0x20, 0x60, 0x20, 0x20, 0x70, // 1
        0xF0, 0x10, 0xF0, 0x80, 0xF0, // 2
        0xF0, 0x10, 0xF0, 0x10, 0xF0, // 3
        0x90, 0x90, 0xF0, 0x10, 0x10, // 4
        0xF0, 0x80, 0xF0, 0x10, 0xF0, // 5
        0xF0, 0x80, 0xF0, 0x90, 0xF0, // 6
        0xF0, 0x10, 0x20, 0x40, 0x40, // 7
        0xF0, 0x90, 0xF0, 0x90, 0xF0, // 8
        0xF0, 0x90, 0xF0, 0x10, 0xF0, // 9
        0xF0, 0x90, 0xF0, 0x90, 0x90, // A
        0xE0, 0x90, 0xE0, 0x90, 0xE0, // B
        0xF0, 0x80, 0x80, 0x80, 0xF0, // C
        0xE0, 0x90, 0x90, 0x90, 0xE0, // D
        0xF0, 0x80, 0xF0, 0x80, 0xF0, // E
        0xF0, 0x80, 0xF0, 0x80, 0x80, // F
    ];
    proof {
        assert(r@ =~= spec_font());
    }
    r
}

fn zeroed_bytes(n: usize) -> (r: Vec<u8>)
    ensures
        r@ == Seq::new(n as nat, |i: int| 0u8),
{
    let mut r: Vec<u8> = Vec::new();
    let mut i: usize = 0;
    while i < n
        invariant
            i <= n,
            r@ =~= Seq::new(i as nat, |j: int| 0u8),
        decreases n - i,
    {
        r.push(0);
        i = i + 1;
        proof {
            assert(r@ =~= Seq::new(i as nat, |j: int| 0u8));
        }
    }
    proof {
        assert(r@ =~= Seq::new(n as nat, |j: int| 0u8));
    }
    r
}

fn falses(n: usize) -> (r: Vec<bool>)
    ensures
        r@ == Seq::new(n as nat, |i: int| false),
{
    let mut r: Vec<bool> = Vec::new();
    let mut i: usize = 0;
    while i < n
        invariant
            i <= n,
            r@ =~= Seq::new(i as nat, |j: int| false),
        decreases n - i,
    {
        r.push(false);
        i = i + 1;
        proof {
            assert(r@ =~= Seq::new(i as nat, |j: int| false));
        }
    }
    proof {
        assert(r@ =~= Seq::new(n as nat, |j: int| false));
    }
    r
}

/// The state of a freshly constructed machine: zeroed, base dialect,
/// standard resolution, paused, with the program counter at the start of
/// program space.
pub open spec fn spec_initial_vm() -> VmView {
    VmView {
        mode: VmMode::Chip8,
        memory: Seq::new(4096, |i: int| 0u8),
        cache: Map::empty(),
        registers: Seq::new(16, |i: int| 0u8),
        index_register: 0,
        program_counter: 0x200,
        stack: Seq::empty(),
        delay_timer: 0,
        sound_timer: 0,
        keypad: Seq::new(16, |i: int| false),
        display: Seq::new((64 * 32) as nat, |i: int| false),
        rpl: Seq::new(8, |i: int| 0u8),
        high_resolution: false,
        paused: true,
        cycles: 0,
    }
}

impl Default for Vm {
    /// A freshly constructed, paused machine.
    fn default() -> (r: Self)
        ensures
            r@ == spec_initial_vm(),
            r.wf(),
    {
        let r = Vm {
            mode: VmMode::Chip8,
            memory: zeroed_bytes(4096),
            instruction_cache: HashMap::new(),
            registers: zeroed_bytes(16),
            index_register: 0,
            program_counter: 0x200,
            stack: Vec::new(),
            delay_timer: 0,
            sound_timer: 0,
            keypad: falses(16),
            display: DisplayBuffer::all_false(64 * 32),
            rpl: zeroed_bytes(8),
            high_resolution: false,
            paused: true,
            cycles: 0,
        };
        proof {
            assert(r@ =~= spec_initial_vm());
        }
        r
    }
}

impl Vm {
    /// Creates a new CHIP-8 virtual machine.
    pub fn new() -> (r: Self)
        ensures
            r@ == spec_initial_vm(),
            r.wf(),
    {
        Self::default()
    }

    /// Zeroes memory and writes the font table at its fixed offset.
    pub fn setup_memory(&mut self)
        requires
            old(self).wf(),
        ensures
            final(self).wf(),
            final(self)@ == (VmView { memory: spec_memory_after_setup(), ..old(self)@ }),
    {
        let mut i: usize = 0;
        while i < 4096
            invariant
                i <= 4096,
                self.memory@.len() == 4096,
                forall|j: int| 0 <= j < i ==> self.memory@[j] == 0u8,
                forall|j: int| i <= j < 4096 ==> self.memory@[j] == old(self).memory@[j],
                *self == (Vm { memory: self.memory, ..*old(self) }),
            decreases 4096 - i,
        {
            self.memory[i] = 0;
            i = i + 1;
        }
        let font = font_table();
        let mut j: usize = 0;
        while j < 80
            invariant
                j <= 80,
                font@ == spec_font(),
                self.memory@.len() == 4096,
                forall|k: int| 0 <= k < 0x50 ==> self.memory@[k] == 0u8,
                forall|k: int| 0x50 <= k < 0x50 + j ==> self.memory@[k] == spec_font()[k - 0x50],
                forall|k: int| 0x50 + j <= k < 4096 ==> self.memory@[k] == 0u8,
                *self == (Vm { memory: self.memory, ..*old(self) }),
            decreases 80 - j,
        {
            self.memory[0x50 + j] = font[j];
            j = j + 1;
        }
        proof {
            assert(self.memory@ =~= spec_memory_after_setup());
            assert(self@ =~= (VmView { memory: spec_memory_after_setup(), ..old(self)@ }));
        }
    }

    /// Sets the dialect of the machine. Changing the dialect does not
    /// flush the instruction cache: entries decoded under the previous
    /// dialect stay until evicted or until a program is loaded.
    pub fn set_mode(&mut self, mode: VmMode)
        requires
            old(self).wf(),
        ensures
            final(self).wf(),
            final(self)@ == (VmView { mode, ..old(self)@ }),
    {
        self.mode = mode;
    }

    /// Sets every display cell to false, keeping the current size.
    pub(crate) fn clear_display(&mut self)
        requires
            old(self).wf(),
        ensures
            final(self).wf(),
            final(self)@ == (VmView {
                display: Seq::new(old(self)@.display.len(), |i: int| false),
                ..old(self)@
            }),
    {
        let n = self.display.bit_count();
        let mut i: usize = 0;
        while i < n
            invariant
                i <= n,
                n == spec_display_bits(&self.display).len(),
                forall|j: int| 0 <= j < i ==> !spec_display_bits(&self.display)[j],
                forall|j: int|
                    i <= j < n ==> spec_display_bits(&self.display)[j] == spec_display_bits(
                        &old(self).display,
                    )[j],
                *self == (Vm { display: self.display, ..*old(self) }),
            decreases n - i,
        {
            self.display.write(i, false);
            i = i + 1;
        }
        proof {
            assert(spec_display_bits(&self.display) =~= Seq::new(
                old(self)@.display.len(),
                |i: int| false,
            ));
            assert(self@ =~= (VmView {
                display: Seq::new(old(self)@.display.len(), |i: int| false),
                ..old(self)@
            }));
        }
    }

    /// Switches between the 128 by 64 high-resolution display and the
    /// 64 by 32 standard one. Resizing clears the buffer.
    pub fn set_high_resolution(&mut self, high_resolution: bool)
        requires
            old(self).wf(),
        ensures
            final(self).wf(),
            final(self)@ == (VmView {
                high_resolution,
                display: Seq::new(spec_display_len(high_resolution) as nat, |i: int| false),
                ..old(self)@
            }),
    {
        self.high_resolution = high_resolution;
        self.display = DisplayBuffer::all_false(
            if high_resolution {
                128 * 64
            } else {
                64 * 32
            },
        );
        proof {
            assert(self@ =~= (VmView {
                high_resolution,
                display: Seq::new(spec_display_len(high_resolution) as nat, |i: int| false),
                ..old(self)@
            }));
        }
    }

}

/// The instruction cache with every key in `[start, end)` evicted.
pub open spec fn spec_evicted(c: Map<u16, Instruction>, start: int, end: int) -> Map<
    u16,
    Instruction,
> {
    c.remove_keys(Set::new(|k: u16| start <= (k as int) && (k as int) < end))
}

impl Vm {
    /// Evicts every cached instruction whose address lies in
    /// `[start, end)`. Memory-writing instructions call this over exactly
    /// the bytes they wrote, which is what makes self-modifying code
    /// decode its fresh bytes.
    pub fn invalidate_cache(&mut self, start: usize, end: usize)
        requires
            old(self).wf(),
        ensures
            final(self).wf(),
            final(self)@ == (VmView {
                cache: spec_evicted(old(self)@.cache, start as int, end as int),
                ..old(self)@
            }),
    {
        let stop: usize = if end > 0x10000 {
            0x10000
        } else {
            end
        };
        let mut a: usize = if start < stop {
            start
        } else {
            stop
        };
        proof {
            assert(self.instruction_cache@ =~= spec_evicted(
                old(self)@.cache,
                start as int,
                a as int,
            ));
        }
        while a < stop
            invariant
                start <= a || a == stop,
                a <= stop,
                stop <= 0x10000,
                stop <= end,
                self.instruction_cache@ == spec_evicted(
                    old(self)@.cache,
                    start as int,
                    a as int,
                ),
                *self == (Vm { instruction_cache: self.instruction_cache, ..*old(self) }),
            decreases stop - a,
        {
            let ghost prev = self.instruction_cache@;
            self.instruction_cache.remove(&(a as u16));
            proof {
                assert(self.instruction_cache@ == prev.remove(a as u16));
                assert(self.instruction_cache@ =~= spec_evicted(
                    old(self)@.cache,
                    start as int,
                    a as int + 1,
                ));
            }
            a = a + 1;
        }
        proof {
            assert(self.instruction_cache@ =~= spec_evicted(
                old(self)@.cache,
                start as int,
                end as int,
            ));
            assert(self@ =~= (VmView {
                cache: spec_evicted(old(self)@.cache, start as int, end as int),
                ..old(self)@
            }));
        }
    }
}

/// A timer value after one tick: decremented, saturating at zero.
pub open spec fn spec_timer_tick(t: u8) -> u8 {
    if t > 0 {
        (t - 1) as u8
    } else {
        0
    }
}

impl Vm {
    /// Decrements both timers by one, saturating at zero. The caller runs
    /// this at its own fixed real-time cadence, decoupled from the
    /// instruction rate.
    pub fn tick_timers(&mut self)
        requires
            old(self).wf(),
        ensures
            final(self).wf(),
            final(self)@ == (VmView {
                delay_timer: spec_timer_tick(old(self)@.delay_timer),
                sound_timer: spec_timer_tick(old(self)@.sound_timer),
                ..old(self)@
            }),
    {
        self.delay_timer = self.delay_timer.saturating_sub(1);
        self.sound_timer = self.sound_timer.saturating_sub(1);
        proof {
            assert(self@ =~= (VmView {
                delay_timer: spec_timer_tick(old(self)@.delay_timer),
                sound_timer: spec_timer_tick(old(self)@.sound_timer),
                ..old(self)@
            }));
        }
    }
}

/// The machine state right after a program load: registers, counters,
/// keypad, display and cache reset, memory rewritten with the font table
/// and the program at the start of program space, and the machine
/// unpaused. The dialect, timers, resolution, call stack and RPL flags
/// are kept.
pub open spec fn spec_after_load(s: VmView, p: Seq<u8>) -> VmView {
    VmView {
        registers: Seq::new(16, |i: int| 0u8),
        index_register: 0,
        program_counter: 0x200,
        cycles: 0,
        keypad: Seq::new(16, |i: int| false),
        display: Seq::new(s.display.len(), |i: int| false),
        cache: Map::empty(),
        memory: Seq::new(4096, |i: int| if 0x200 <= i < 0x200 + p.len() {
            p[i - 0x200]
        } else {
            spec_memory_after_setup()[i]
        }),
        paused: false,
        ..s
    }
}

impl Vm {
    /// Loads a program into the machine: fully resets the transient state,
    /// rewrites memory, copies the program to the start of program space
    /// and unpauses.
    pub fn load_program(&mut self, program: &[u8])
        requires
            old(self).wf(),
            program@.len() <= 0xE00,
        ensures
            final(self).wf(),
            final(self)@ == spec_after_load(old(self)@, program@),
    {
        let mut i: usize = 0;
        while i < 16
            invariant
                old(self).wf(),
                i <= 16,
                self.registers@.len() == 16,
                forall|j: int| 0 <= j < i ==> self.registers@[j] == 0u8,
                *self == (Vm { registers: self.registers, ..*old(self) }),
            decreases 16 - i,
        {
            self.registers[i] = 0;
            i = i + 1;
        }
        self.index_register = 0;
        self.program_counter = 0x200;
        self.cycles = 0;
        let mut k: usize = 0;
        while k < 16
            invariant
                old(self).wf(),
                k <= 16,
                self.keypad@.len() == 16,
                forall|j: int| 0 <= j < k ==> !self.keypad@[j],
                self.registers@ =~= Seq::new(16, |j: int| 0u8),
                self.index_register == 0,
                self.program_counter == 0x200,
                self.cycles == 0,
                *self == (Vm {
                    registers: self.registers,
                    index_register: self.index_register,
                    program_counter: self.program_counter,
                    cycles: self.cycles,
                    keypad: self.keypad,
                    ..*old(self)
                }),
            decreases 16 - k,
        {
            self.keypad[k] = false;
            k = k + 1;
        }
        proof {
            assert(self.keypad@ =~= Seq::new(16, |j: int| false));
            assert forall|a: u16| self@.cache.dom().contains(a) implies wf_instruction(
                self@.cache[a],
            ) by {
                assert(self@.cache == old(self)@.cache);
                assert(wf_instruction(old(self)@.cache[a]));
            }
            assert(wf_state(self@));
        }
        self.clear_display();
        self.instruction_cache.clear();
        self.setup_memory();
        let ghost pre = *self;
        let n = program.len();
        let mut c: usize = 0;
        while c < n
            invariant
                c <= n,
                n == program@.len(),
                n <= 0xE00,
                self.memory@.len() == 4096,
                forall|j: int|
                    0x200 <= j < 0x200 + c ==> self.memory@[j] == program@[j - 0x200],
                forall|j: int|
                    (0 <= j < 0x200 || 0x200 + c <= j < 4096) ==> self.memory@[j]
                        == spec_memory_after_setup()[j],
                *self == (Vm { memory: self.memory, ..pre }),
            decreases n - c,
        {
            self.memory[0x200 + c] = program[c];
            c = c + 1;
        }
        self.paused = false;
        proof {
            assert(self.memory@ =~= Seq::new(4096, |i: int| if 0x200 <= i < 0x200
                + program@.len() {
                program@[i - 0x200]
            } else {
                spec_memory_after_setup()[i]
            }));
            assert(self@ =~= spec_after_load(old(self)@, program@));
        }
    }
}

/// The program counter after a transition directive is applied.
pub open spec fn spec_apply_pc(s: VmView, d: ProgramCounter) -> VmView {
    match d {
        ProgramCounter::Pause => s,
        ProgramCounter::Next => VmView { program_counter: (s.program_counter + 2) as u16, ..s },
        ProgramCounter::Skip => VmView { program_counter: (s.program_counter + 4) as u16, ..s },
        ProgramCounter::Jump(address) => VmView { program_counter: address, ..s },
    }
}

impl ProgramCounter {
    /// Applies the transition: `Pause` retries the same address, `Next`
    /// advances by exactly 2, `Skip` by exactly 4, and `Jump` sets the
    /// program counter to exactly its target.
    pub fn next(self, vm: &mut Vm)
        requires
            old(vm).wf(),
            old(vm).program_counter < 0x1000,
        ensures
            final(vm).wf(),
            final(vm)@ == spec_apply_pc(old(vm)@, self),
    {
        match self {
            ProgramCounter::Pause => {},
            ProgramCounter::Next => {
                vm.program_counter = vm.program_counter + 2;
            },
            ProgramCounter::Skip => {
                vm.program_counter = vm.program_counter + 4;
            },
            ProgramCounter::Jump(address) => {
                vm.program_counter = address;
            },
        }
        proof {
            assert(vm@ =~= spec_apply_pc(old(vm)@, self));
        }
    }
}

/// The 16-bit big-endian opcode held at `addr` in memory.
pub open spec fn spec_opcode_at(mem: Seq<u8>, addr: int) -> u16 {
    (mem[addr] * 256 + mem[addr + 1]) as u16
}

/// What a fetch at the current program counter yields: the cached
/// instruction if one is present, else a fresh decode of the two bytes
/// under the current dialect.
pub open spec fn spec_fetch(s: VmView) -> Option<Instruction> {
    if s.cache.dom().contains(s.program_counter) {
        Some(s.cache[s.program_counter])
    } else {
        spec_parse(spec_opcode_at(s.memory, s.program_counter as int), s.mode)
    }
}

/// 16-bit wraparound addition.
pub open spec fn spec_wrapping_add_u16(x: u16, y: u16) -> u16 {
    if x + y > 0xFFFF {
        (x + y - 0x10000) as u16
    } else {
        (x + y) as u16
    }
}

/// The cycle counter after one more instruction.
pub open spec fn spec_next_cycles(c: usize) -> usize {
    if c == usize::MAX {
        0
    } else {
        (c + 1) as usize
    }
}

/// The effect of one decoded instruction on the machine state, given the
/// environment's inputs: `rand` is the byte the entropy source supplies
/// (used only by the random instruction) and `key` is the key currently
/// transitioning to pressed, if any (used only by the key-wait
/// instruction). Returns the mutated state and the program-counter
/// directive, or the fatal error.
pub open spec fn spec_execute_instruction(
    s: VmView,
    i: Instruction,
    rand: u8,
    key: Option<u8>,
) -> Result<(VmView, ProgramCounter), VmError> {
    match i {
        Instruction::Sys => Err(VmError::SystemCall { address: s.program_counter }),
        Instruction::Clear => Ok((
            VmView { display: Seq::new(s.display.len(), |j: int| false), ..s },
            ProgramCounter::Next,
        )),
        Instruction::Return => {
            if s.stack.len() == 0 {
                Err(VmError::StackUnderflow { address: s.program_counter })
            } else {
                Ok((
                    VmView { stack: s.stack.drop_last(), ..s },
                    ProgramCounter::Jump((s.stack.last() + 2) as u16),
                ))
            }
        },
        Instruction::Random(x, mask) => Ok((
            VmView { registers: s.registers.update(x as int, rand & mask), ..s },
            ProgramCounter::Next,
        )),
        Instruction::Draw(x, y, n) => {
            match spec_draw(s, x, y, n) {
                Ok(v) => Ok((v, ProgramCounter::Next)),
                Err(e) => Err(e),
            }
        },
        Instruction::LoadKey(x) => {
            match key {
                Some(k) => Ok((
                    VmView { registers: s.registers.update(x as int, k), ..s },
                    ProgramCounter::Next,
                )),
                None => Ok((s, ProgramCounter::Pause)),
            }
        },
        Instruction::AddI(x) => Ok((
            VmView {
                index_register: spec_wrapping_add_u16(
                    s.index_register,
                    s.registers[x as int] as u16,
                ),
                ..s
            },
            ProgramCounter::Next,
        )),
        Instruction::SetHighResolution(b) => Ok((
            VmView {
                high_resolution: b,
                display: Seq::new(spec_display_len(b) as nat, |j: int| false),
                ..s
            },
            ProgramCounter::Next,
        )),
        Instruction::Load(l) => {
            match spec_load(s, l) {
                Ok(v) => Ok((v, ProgramCounter::Next)),
                Err(e) => Err(e),
            }
        },
        Instruction::Branch(b) => Ok((
            VmView { stack: spec_branch_stack(s.stack, s.program_counter, b), ..s },
            spec_branch_directive(s.registers, s.keypad, b),
        )),
        Instruction::Logical(l) => Ok((
            VmView { registers: spec_logical(s.registers, l), ..s },
            ProgramCounter::Next,
        )),
        Instruction::Arthimetic(a) => Ok((
            VmView { registers: spec_arith(s.registers, a), ..s },
            ProgramCounter::Next,
        )),
    }
}

/// One full engine step, as a function of the starting state and the
/// environment's inputs. A paused machine does nothing. Otherwise the
/// program counter is checked, the instruction is fetched (from the cache,
/// or decoded and memoized), executed, and the program-counter transition
/// applied; the cycle counter then advances. A fatal error reports the
/// offending opcode and address and leaves the machine as it was, except
/// that a successfully decoded instruction stays memoized. The last byte
/// of memory cannot hold a full two-byte instruction, so a fetch there is
/// out of range too.
pub open spec fn spec_step(s: VmView, rand: u8, key: Option<u8>) -> (VmView, Result<
    (),
    VmError,
>) {
    if s.paused {
        (s, Ok(()))
    } else if !(0x200 <= s.program_counter && s.program_counter < 0xFFF) {
        (s, Err(VmError::PcOutOfRange { pc: s.program_counter }))
    } else {
        match spec_fetch(s) {
            None => (
                s,
                Err(VmError::InvalidOpcode {
                    opcode: spec_opcode_at(s.memory, s.program_counter as int),
                    address: s.program_counter,
                }),
            ),
            Some(i) => {
                let s1 = VmView { cache: s.cache.insert(s.program_counter, i), ..s };
                match spec_execute_instruction(s1, i, rand, key) {
                    Err(e) => (s1, Err(e)),
                    Ok((s2, d)) => {
                        let s3 = spec_apply_pc(s2, d);
                        (VmView { cycles: spec_next_cycles(s3.cycles), ..s3 }, Ok(()))
                    },
                }
            },
        }
    }
}

/// Whether one observed step (pre-state, post-state, outcome) is what
/// `spec_step` prescribes for the given environment inputs.
pub open spec fn spec_step_matches(
    pre: VmView,
    post: VmView,
    r: Result<(), VmError>,
    rand: u8,
    key: Option<u8>,
) -> bool {
    spec_step(pre, rand, key) == (post, r)
}

impl Vm {
    /// Executes one instruction. `pressed_key` is the key currently
    /// transitioning to pressed, if any, supplied by the input collaborator
    /// before the step; the entropy for the random instruction is drawn
    /// internally, so the contract holds for some byte value. A paused
    /// machine does nothing and reports success.
    #[verifier::rlimit(100)]
    pub fn execute(&mut self, pressed_key: Option<u8>) -> (r: Result<(), VmError>)
        requires
            old(self).wf(),
        ensures
            final(self).wf(),
            exists|rand: u8|
                #[trigger] spec_step_matches(old(self)@, final(self)@, r, rand, pressed_key),
    {
        if self.paused {
            proof {
                assert(spec_step_matches(old(self)@, self@, Ok(()), 0u8, pressed_key));
            }
            return Ok(());
        }
        let pc = self.program_counter;
        if !(pc >= 0x200 && pc < 0xFFF) {
            proof {
                assert(spec_step_matches(
                    old(self)@,
                    self@,
                    Err(VmError::PcOutOfRange { pc }),
                    0u8,
                    pressed_key,
                ));
            }
            return Err(VmError::PcOutOfRange { pc });
        }
        let cached: Option<Instruction> = match self.instruction_cache.get(&pc) {
            Some(i) => Some(*i),
            None => None,
        };
        let instruction: Instruction = match cached {
            Some(i) => {
                proof {
                    assert(self.instruction_cache@ =~= old(self)@.cache.insert(pc, i));
                }
                i
            },
            None => {
                let hi = self.memory[pc as usize];
                let lo = self.memory[pc as usize + 1];
                let opcode: u16 = (hi as u16) * 256 + (lo as u16);
                match Instruction::parse(opcode, self.mode) {
                    Some(i) => {
                        proof {
                            lemma_parse_wf(opcode, self.mode);
                        }
                        self.instruction_cache.insert(pc, i);
                        i
                    },
                    None => {
                        proof {
                            assert(spec_step_matches(
                                old(self)@,
                                self@,
                                Err(VmError::InvalidOpcode { opcode, address: pc }),
                                0u8,
                                pressed_key,
                            ));
                        }
                        return Err(VmError::InvalidOpcode { opcode, address: pc });
                    },
                }
            },
        };
        let ghost s1v = VmView { cache: old(self)@.cache.insert(pc, instruction), ..old(self)@ };
        proof {
            assert(self@ =~= s1v);
            assert(spec_fetch(old(self)@) == Some(instruction));
            assert(wf_instruction(instruction));
            assert forall|a: u16| self@.cache.dom().contains(a) implies wf_instruction(
                self@.cache[a],
            ) by {
                if a != pc {
                    assert(old(self)@.cache.dom().contains(a));
                    assert(wf_instruction(old(self)@.cache[a]));
                }
            }
            assert(self.wf());
        }
        let ghost mut rand_used: u8 = 0u8;
        let directive: ProgramCounter = match instruction {
            Instruction::Sys => {
                proof {
                    assert(spec_step_matches(
                        old(self)@,
                        self@,
                        Err(VmError::SystemCall { address: pc }),
                        0u8,
                        pressed_key,
                    ));
                }
                return Err(VmError::SystemCall { address: pc });
            },
            Instruction::Clear => {
                crate::instruction::draw::clear(self);
                ProgramCounter::Next
            },
            Instruction::Return => {
                match self.stack.pop() {
                    None => {
                        proof {
                            assert(spec_step_matches(
                                old(self)@,
                                self@,
                                Err(VmError::StackUnderflow { address: pc }),
                                0u8,
                                pressed_key,
                            ));
                        }
                        return Err(VmError::StackUnderflow { address: pc });
                    },
                    Some(return_address) => {
                        proof {
                            assert(s1v.stack[s1v.stack.len() - 1] < 0x1000);
                        }
                        ProgramCounter::Jump(return_address + 2)
                    },
                }
            },
            Instruction::Random(x, mask) => {
                let b = random_byte();
                proof {
                    rand_used = b;
                }
                self.registers[x as usize] = b & mask;
                ProgramCounter::Next
            },
            Instruction::Draw(x, y, n) => {
                match crate::instruction::draw::draw(self, x, y, n) {
                    Ok(()) => ProgramCounter::Next,
                    Err(e) => {
                        proof {
                            assert(spec_step_matches(old(self)@, self@, Err(e), 0u8, pressed_key));
                        }
                        return Err(e);
                    },
                }
            },
            Instruction::LoadKey(x) => {
                match pressed_key {
                    Some(k) => {
                        self.registers[x as usize] = k;
                        ProgramCounter::Next
                    },
                    None => ProgramCounter::Pause,
                }
            },
            Instruction::AddI(x) => {
                let v = self.registers[x as usize] as u16;
                self.index_register = self.index_register.wrapping_add(v);
                ProgramCounter::Next
            },
            Instruction::SetHighResolution(b) => {
                self.set_high_resolution(b);
                ProgramCounter::Next
            },
            Instruction::Load(l) => {
                match l.execute(self) {
                    Ok(()) => ProgramCounter::Next,
                    Err(e) => {
                        proof {
                            assert(spec_step_matches(old(self)@, self@, Err(e), 0u8, pressed_key));
                        }
                        return Err(e);
                    },
                }
            },
            Instruction::Branch(b) => b.execute(self),
            Instruction::Logical(l) => {
                l.execute(self);
                ProgramCounter::Next
            },
            Instruction::Arthimetic(a) => {
                a.execute(self);
                ProgramCounter::Next
            },
        };
        proof {
            assert(spec_execute_instruction(s1v, instruction, rand_used, pressed_key)
                == Ok::<(VmView, ProgramCounter), VmError>((self@, directive)));
        }
        let ghost s2v = self@;
        directive.next(self);
        self.cycles = if self.cycles == usize::MAX {
            0
        } else {
            self.cycles + 1
        };
        proof {
            assert(self@ =~= (VmView {
                cycles: spec_next_cycles(spec_apply_pc(s2v, directive).cycles),
                ..spec_apply_pc(s2v, directive)
            }));
            assert(spec_step_matches(old(self)@, self@, Ok(()), rand_used, pressed_key));
        }
        Ok(())
    }

    /// The display width in pixels for the current resolution.
    pub fn display_width(&self) -> (r: usize)
        ensures
            r == crate::instruction::draw::spec_draw_width(self@.high_resolution),
    {
        if self.high_resolution {
            128
        } else {
            64
        }
    }

    /// The display height in pixels for the current resolution.
    pub fn display_height(&self) -> (r: usize)
        ensures
            r == crate::instruction::draw::spec_draw_height(self@.high_resolution),
    {
        if self.high_resolution {
            64
        } else {
            32
        }
    }

    /// One pixel of the display, row-major.
    pub fn pixel(&self, index: usize) -> (r: bool)
        requires
            index < self@.display.len(),
        ensures
            r == self@.display[index as int],
    {
        self.display.read(index)
    }

    /// Writes one display pixel, row-major, as a debugger may while
    /// execution is paused.
    pub fn set_pixel(&mut self, index: usize, value: bool)
        requires
            old(self).wf(),
            index < old(self)@.display.len(),
        ensures
            final(self).wf(),
            final(self)@ == (VmView {
                display: old(self)@.display.update(index as int, value),
                ..old(self)@
            }),
    {
        self.display.write(index, value);
        proof {
            assert(self@ =~= (VmView {
                display: old(self)@.display.update(index as int, value),
                ..old(self)@
            }));
        }
    }

    /// A row-major snapshot of the display buffer.
    pub fn display_snapshot(&self) -> (r: Vec<bool>)
        ensures
            r@ == self@.display,
    {
        let n = self.display.bit_count();
        let mut r: Vec<bool> = Vec::new();
        let mut i: usize = 0;
        while i < n
            invariant
                i <= n,
                n == self@.display.len(),
                r@ =~= self@.display.take(i as int),
            decreases n - i,
        {
            r.push(self.display.read(i));
            i = i + 1;
            proof {
                assert(r@ =~= self@.display.take(i as int));
            }
        }
        proof {
            assert(r@ =~= self@.display);
        }
        r
    }

    /// The decoded instruction memoized at an address, if that address has
    /// been decoded and not evicted since; an address never decoded reports
    /// nothing rather than forcing a decode.
    pub fn cached_instruction(&self, address: u16) -> (r: Option<Instruction>)
        ensures
            self@.cache.dom().contains(address) ==> r == Some(self@.cache[address]),
            !self@.cache.dom().contains(address) ==> r is None,
    {
        match self.instruction_cache.get(&address) {
            Some(i) => Some(*i),
            None => None,
        }
    }

    /// Sets one keypad key's state, as the input collaborator does before
    /// each step.
    pub fn set_key(&mut self, key: u8, down: bool)
        requires
            old(self).wf(),
            key < 16,
        ensures
            final(self).wf(),
            final(self)@ == (VmView {
                keypad: old(self)@.keypad.update(key as int, down),
                ..old(self)@
            }),
    {
        self.keypad[key as usize] = down;
        proof {
            assert(self@ =~= (VmView {
                keypad: old(self)@.keypad.update(key as int, down),
                ..old(self)@
            }));
        }
    }
}

/// Apart from the random instruction, a step is deterministic: the
/// entropy source's byte cannot influence it. Together with the decoder
/// being a pure function of opcode and dialect, this pins every
/// non-random step completely.
pub proof fn lemma_step_rand_independent(s: VmView, r1: u8, r2: u8, key: Option<u8>)
    requires
        (spec_fetch(s) matches Some(i) ==> !(i is Random)),
    ensures
        spec_step(s, r1, key) == spec_step(s, r2, key),
{
    if !s.paused && 0x200 <= s.program_counter && s.program_counter < 0xFFF {
        match spec_fetch(s) {
            Some(i) => {
                let s1 = VmView { cache: s.cache.insert(s.program_counter, i), ..s };
                assert(spec_execute_instruction(s1, i, r1, key) == spec_execute_instruction(
                    s1,
                    i,
                    r2,
                    key,
                ));
            },
            None => {},
        }
    }
}

/// Cache coherence after a block store. If the machine's next instruction
/// is a block store of registers `0..=x` at the index register, and the
/// step succeeds, then every address in the written range has been
/// evicted from the instruction cache, the bytes there are the stored
/// register values, and a subsequent fetch at such an address re-decodes
/// from those fresh bytes instead of returning a stale cached
/// instruction.
pub proof fn lemma_block_store_coherence(s: VmView, rand: u8, key: Option<u8>, x: u8, a: u16)
    requires
        wf_state(s),
        !s.paused,
        (spec_fetch(s) == Some(
            Instruction::Load(crate::instruction::load::LoadInstruction {
                from: crate::instruction::load::LoadTarget::Register(x),
                into: crate::instruction::load::LoadTarget::I,
            }),
        ) || spec_fetch(s) == Some(
            Instruction::Load(crate::instruction::load::LoadInstruction {
                from: crate::instruction::load::LoadTarget::Register(x),
                into: crate::instruction::load::LoadTarget::IChip48,
            }),
        )),
        spec_step(s, rand, key).1 is Ok,
        s.index_register <= a,
        (a as int) < s.index_register as int + x as int + 1,
    ensures
        ({
            let post = spec_step(s, rand, key).0;
            &&& !post.cache.dom().contains(a)
            &&& post.memory[a as int] == s.registers[a as int - s.index_register as int]
            &&& spec_fetch(VmView { program_counter: a, ..post }) == spec_parse(
                spec_opcode_at(post.memory, a as int),
                post.mode,
            )
        }),
{
    let post = spec_step(s, rand, key).0;
    let i = spec_fetch(s)->Some_0;
    let s1 = VmView { cache: s.cache.insert(s.program_counter, i), ..s };
    let i0 = s.index_register as int;
    let cnt = x as int + 1;
    assert(spec_execute_instruction(s1, i, rand, key) is Ok);
    let stored = spec_execute_instruction(s1, i, rand, key)->Ok_0;
    assert(stored.0.cache == spec_evicted(s1.cache, i0, i0 + cnt));
    assert(!stored.0.cache.dom().contains(a));
    assert(stored.0.memory == crate::instruction::load::spec_block_store_mem(
        s.memory,
        s.registers,
        i0,
        cnt,
    ));
    assert(post.cache == stored.0.cache);
    assert(post.memory == stored.0.memory);
}

} // verus!
