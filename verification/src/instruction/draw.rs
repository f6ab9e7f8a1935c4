use vstd::prelude::*;

use crate::instruction::{Register, Value};
use crate::vm::{spec_display_bits, wf_state, Vm, VmError, VmView};

verus! {

/// The geometry of one sprite-draw operation: display width and height,
/// the wrapped base coordinates, the clipped row and column counts, and
/// the sprite's base address in memory.
pub ghost struct SpriteOp {
    pub w: int,
    pub h: int,
    pub x0: int,
    pub y0: int,
    pub rows: int,
    pub cols: int,
    pub i0: int,
}

/// The display width for a resolution.
pub open spec fn spec_draw_width(high_resolution: bool) -> int {
    if high_resolution {
        128
    } else {
        64
    }
}

/// The display height for a resolution.
pub open spec fn spec_draw_height(high_resolution: bool) -> int {
    if high_resolution {
        64
    } else {
        32
    }
}

/// The geometry of drawing an `n`-row sprite at the coordinates held in
/// registers `x` and `y`: base coordinates wrap at draw start; rows and
/// columns that would fall outside the display are clipped.
pub open spec fn spec_sprite_op(s: VmView, x: u8, y: u8, n: u8) -> SpriteOp {
    let w = spec_draw_width(s.high_resolution);
    let h = spec_draw_height(s.high_resolution);
    let x0 = (s.registers[x as int] as int) % w;
    let y0 = (s.registers[y as int] as int) % h;
    SpriteOp {
        w,
        h,
        x0,
        y0,
        rows: if n as int <= h - y0 {
            n as int
        } else {
            h - y0
        },
        cols: if 8 <= w - x0 {
            8
        } else {
            w - x0
        },
        i0: s.index_register as int,
    }
}

/// The sprite row a display cell falls in, counted from the draw base.
pub open spec fn cell_row(g: SpriteOp, idx: int) -> int {
    idx / g.w - g.y0
}

/// The sprite column a display cell falls in, counted from the draw base.
pub open spec fn cell_col(g: SpriteOp, idx: int) -> int {
    idx % g.w - g.x0
}

/// Whether the draw touches the display cell at `idx`.
pub open spec fn spec_cell_touched(g: SpriteOp, idx: int) -> bool {
    &&& 0 <= cell_row(g, idx) < g.rows
    &&& 0 <= cell_col(g, idx) < g.cols
}

/// Whether a cell has already been processed once `pr` full rows and
/// `pc` cells of the next row are done.
pub open spec fn spec_cell_done(g: SpriteOp, idx: int, pr: int, pc: int) -> bool {
    cell_row(g, idx) < pr || (cell_row(g, idx) == pr && cell_col(g, idx) < pc)
}

/// The sprite bit drawn at a cell: bit `7 - col` of the sprite byte for
/// the cell's row, so the most significant bit lands at the smallest x.
pub open spec fn spec_sprite_bit(byte: u8, col: int) -> bool {
    (byte >> ((7 - col) as u8)) & 1 == 1
}

/// The sprite bit that the draw XORs into the cell at `idx`.
pub open spec fn spec_cell_bit(g: SpriteOp, mem: Seq<u8>, idx: int) -> bool {
    spec_sprite_bit(mem[g.i0 + cell_row(g, idx)], cell_col(g, idx))
}

/// The display after the cells processed so far: each touched, processed
/// cell is the XOR of its prior value and its sprite bit; everything else
/// keeps its prior value.
pub open spec fn spec_draw_display_upto(
    g: SpriteOp,
    disp: Seq<bool>,
    mem: Seq<u8>,
    pr: int,
    pc: int,
) -> Seq<bool> {
    Seq::new(disp.len(), |idx: int| if spec_cell_touched(g, idx) && spec_cell_done(
        g,
        idx,
        pr,
        pc,
    ) {
        disp[idx] != spec_cell_bit(g, mem, idx)
    } else {
        disp[idx]
    })
}

/// Whether the cell at `idx` produces a collision: it is touched and
/// processed, its sprite bit is set, and the cell was already lit.
pub open spec fn spec_cell_collides(
    g: SpriteOp,
    disp: Seq<bool>,
    mem: Seq<u8>,
    pr: int,
    pc: int,
    idx: int,
) -> bool {
    &&& spec_cell_touched(g, idx)
    &&& spec_cell_done(g, idx, pr, pc)
    &&& spec_cell_bit(g, mem, idx)
    &&& disp[idx]
}

/// Whether any cell processed so far collides.
pub open spec fn spec_draw_collision_upto(
    g: SpriteOp,
    disp: Seq<bool>,
    mem: Seq<u8>,
    pr: int,
    pc: int,
) -> bool {
    exists|idx: int|
        0 <= idx < disp.len() && #[trigger] spec_cell_collides(g, disp, mem, pr, pc, idx)
}

/// The display after the whole draw.
pub open spec fn spec_draw_display(g: SpriteOp, disp: Seq<bool>, mem: Seq<u8>) -> Seq<bool> {
    spec_draw_display_upto(g, disp, mem, g.rows, 0)
}

/// Whether the whole draw collides anywhere.
pub open spec fn spec_draw_collision(g: SpriteOp, disp: Seq<bool>, mem: Seq<u8>) -> bool {
    spec_draw_collision_upto(g, disp, mem, g.rows, 0)
}

/// The state after a draw, or the error it fails with: the flag register
/// becomes 1 exactly when some drawn bit lands on an already-lit cell,
/// and 0 otherwise. A sprite whose unclipped rows would be read from past
/// the end of memory fails with no state change.
pub open spec fn spec_draw(s: VmView, x: u8, y: u8, n: u8) -> Result<VmView, VmError> {
    let g = spec_sprite_op(s, x, y, n);
    if g.rows > 0 && g.i0 + g.rows > 4096 {
        Err(VmError::MemoryOutOfBounds { address: s.index_register })
    } else {
        Ok(VmView {
            display: spec_draw_display(g, s.display, s.memory),
            registers: s.registers.update(15, if spec_draw_collision(g, s.display, s.memory) {
                1u8
            } else {
                0u8
            }),
            ..s
        })
    }
}

/// A cell index decomposes uniquely into its row and column.
proof fn lemma_cell_index(w: int, h: int, yy: int, xx: int)
    requires
        w >= 1,
        0 <= yy < h,
        0 <= xx < w,
    ensures
        0 <= w * yy + xx < w * h,
        (w * yy + xx) / w == yy,
        (w * yy + xx) % w == xx,
{
    assert(w * yy + xx == yy * w + xx) by (nonlinear_arith);
    vstd::arithmetic::div_mod::lemma_fundamental_div_mod_converse(w * yy + xx, w, yy, xx);
    assert(0 <= w * yy + xx < w * h) by (nonlinear_arith)
        requires
            w >= 1,
            0 <= yy < h,
            0 <= xx < w,
    ;
}

/// Sets every display cell to false.
pub fn clear(vm: &mut Vm)
    requires
        old(vm).wf(),
    ensures
        final(vm).wf(),
        final(vm)@ == (VmView {
            display: Seq::new(old(vm)@.display.len(), |i: int| false),
            ..old(vm)@
        }),
{
    vm.clear_display();
}

/// Draws an `n`-row sprite from memory at the index register, at the
/// wrapped coordinates held in registers `x_reg` and `y_reg`, clipping at
/// the display edges; sets the flag register to 1 exactly when a drawn
/// bit collides with a lit pixel.
pub fn draw(vm: &mut Vm, x_reg: Register, y_reg: Register, rows: Value) -> (r: Result<
    (),
    VmError,
>)
    requires
        old(vm).wf(),
        x_reg < 16,
        y_reg < 16,
        rows < 16,
    ensures
        final(vm).wf(),
        (spec_draw(old(vm)@, x_reg, y_reg, rows) matches Ok(v) ==> r is Ok && final(vm)@ == v),
        (spec_draw(old(vm)@, x_reg, y_reg, rows) matches Err(e) ==> r == Result::<
            (),
            VmError,
        >::Err(e) && final(vm)@ == old(vm)@),
{
    let ghost g = spec_sprite_op(old(vm)@, x_reg, y_reg, rows);
    let ghost disp0 = old(vm)@.display;
    let ghost mem0 = old(vm)@.memory;
    let ghost regs0 = old(vm)@.registers;
    let w: usize = if vm.high_resolution {
        128
    } else {
        64
    };
    let h: usize = if vm.high_resolution {
        64
    } else {
        32
    };
    let x0 = (vm.registers[x_reg as usize] as usize) % w;
    let y0 = (vm.registers[y_reg as usize] as usize) % h;
    let rd: usize = if (rows as usize) <= h - y0 {
        rows as usize
    } else {
        h - y0
    };
    let cd: usize = if 8 <= w - x0 {
        8
    } else {
        w - x0
    };
    let i0 = vm.index_register as usize;
    proof {
        assert(g.w == w && g.h == h && g.x0 == x0 && g.y0 == y0 && g.rows == rd && g.cols == cd
            && g.i0 == i0);
    }
    if rd > 0 && i0 + rd > 4096 {
        return Err(VmError::MemoryOutOfBounds { address: vm.index_register });
    }
    vm.registers[0xF] = 0;
    proof {
        assert(vm.registers@ =~= regs0.update(15, 0u8));
        assert(spec_draw_display_upto(g, disp0, mem0, 0, 0) =~= disp0);
    }
    let mut row: usize = 0;
    while row < rd
        invariant
            old(vm).wf(),
            g == spec_sprite_op(old(vm)@, x_reg, y_reg, rows),
            disp0 == old(vm)@.display,
            mem0 == old(vm)@.memory,
            regs0 == old(vm)@.registers,
            g.w == w && g.h == h && g.x0 == x0 && g.y0 == y0 && g.rows == rd && g.cols == cd
                && g.i0 == i0,
            w >= 1 && h >= 1,
            x0 < w,
            y0 < h,
            y0 + rd <= h,
            x0 + cd <= w,
            cd <= 8,
            rd <= 15,
            rd > 0 ==> i0 + rd <= 4096,
            disp0.len() == w * h,
            row <= rd,
            spec_display_bits(&vm.display) == spec_draw_display_upto(
                g,
                disp0,
                mem0,
                row as int,
                0,
            ),
            vm.registers@ == regs0.update(15, if spec_draw_collision_upto(
                g,
                disp0,
                mem0,
                row as int,
                0,
            ) {
                1u8
            } else {
                0u8
            }),
            *vm == (Vm { registers: vm.registers, display: vm.display, ..*old(vm) }),
        decreases rd - row,
    {
        let pixel = vm.memory[i0 + row];
        let mut col: usize = 0;
        while col < cd
            invariant
                old(vm).wf(),
                g == spec_sprite_op(old(vm)@, x_reg, y_reg, rows),
                disp0 == old(vm)@.display,
                mem0 == old(vm)@.memory,
                regs0 == old(vm)@.registers,
                g.w == w && g.h == h && g.x0 == x0 && g.y0 == y0 && g.rows == rd && g.cols == cd
                    && g.i0 == i0,
                w >= 1 && h >= 1,
                x0 < w,
                y0 < h,
                y0 + rd <= h,
                x0 + cd <= w,
                cd <= 8,
                rd <= 15,
                i0 + rd <= 4096,
                disp0.len() == w * h,
                row < rd,
                col <= cd,
                pixel == mem0[i0 + row],
                spec_display_bits(&vm.display) == spec_draw_display_upto(
                    g,
                    disp0,
                    mem0,
                    row as int,
                    col as int,
                ),
                vm.registers@ == regs0.update(15, if spec_draw_collision_upto(
                    g,
                    disp0,
                    mem0,
                    row as int,
                    col as int,
                ) {
                    1u8
                } else {
                    0u8
                }),
                *vm == (Vm { registers: vm.registers, display: vm.display, ..*old(vm) }),
            decreases cd - col,
        {
            let idx = w * (y0 + row) + (x0 + col);
            proof {
                lemma_cell_index(w as int, h as int, y0 + row, x0 + col);
                assert(cell_row(g, idx as int) == row);
                assert(cell_col(g, idx as int) == col);
                assert(spec_cell_touched(g, idx as int));
                assert(!spec_cell_done(g, idx as int, row as int, col as int));
            }
            let sh: u8 = (7 - col) as u8;
            let bit = (pixel >> sh) & 1 != 0;
            let set_pixel = vm.display.read(idx);
            proof {
                assert(set_pixel == disp0[idx as int]);
                assert(((pixel >> sh) & 1) < 2) by (bit_vector);
                assert(bit == spec_cell_bit(g, mem0, idx as int));
            }
            if bit && set_pixel {
                vm.registers[0xF] = 1;
                proof {
                    assert(spec_cell_collides(
                        g,
                        disp0,
                        mem0,
                        row as int,
                        col as int + 1,
                        idx as int,
                    ));
                    assert(spec_draw_collision_upto(g, disp0, mem0, row as int, col as int + 1));
                    assert(vm.registers@ =~= regs0.update(15, 1u8));
                }
            } else {
                proof {
                    lemma_collision_unchanged(g, disp0, mem0, row as int, col as int, idx as int);
                }
            }
            vm.display.write(idx, bit ^ set_pixel);
            proof {
                assert forall|t: int|
                    0 <= t < disp0.len() implies spec_display_bits(&vm.display)[t]
                    == spec_draw_display_upto(g, disp0, mem0, row as int, col as int + 1)[t] by {
                    vstd::arithmetic::div_mod::lemma_fundamental_div_mod(t, g.w);
                }
                assert(spec_display_bits(&vm.display) =~= spec_draw_display_upto(
                    g,
                    disp0,
                    mem0,
                    row as int,
                    col as int + 1,
                ));
            }
            col = col + 1;
        }
        proof {
            assert forall|t: int|
                0 <= t < disp0.len() implies spec_draw_display_upto(
                g,
                disp0,
                mem0,
                row as int,
                cd as int,
            )[t] == spec_draw_display_upto(g, disp0, mem0, row as int + 1, 0)[t] by {}
            assert(spec_draw_display_upto(g, disp0, mem0, row as int, cd as int)
                =~= spec_draw_display_upto(g, disp0, mem0, row as int + 1, 0));
            lemma_collision_row_step(g, disp0, mem0, row as int);
        }
        row = row + 1;
    }
    proof {
        assert(spec_draw_display_upto(g, disp0, mem0, rd as int, 0) =~= spec_draw_display(
            g,
            disp0,
            mem0,
        ));
        assert(vm@ =~= spec_draw(old(vm)@, x_reg, y_reg, rows)->Ok_0);
    }
    Ok(())
}

/// Processing a non-colliding cell leaves the collision verdict as it
/// was.
proof fn lemma_collision_unchanged(
    g: SpriteOp,
    disp: Seq<bool>,
    mem: Seq<u8>,
    pr: int,
    pc: int,
    idx: int,
)
    requires
        0 <= idx < disp.len(),
        cell_row(g, idx) == pr,
        cell_col(g, idx) == pc,
        g.w >= 1,
        !(spec_cell_bit(g, mem, idx) && disp[idx]),
    ensures
        spec_draw_collision_upto(g, disp, mem, pr, pc + 1) == spec_draw_collision_upto(
            g,
            disp,
            mem,
            pr,
            pc,
        ),
{
    if spec_draw_collision_upto(g, disp, mem, pr, pc + 1) {
        let t = choose|t: int|
            0 <= t < disp.len() && #[trigger] spec_cell_collides(g, disp, mem, pr, pc + 1, t);
        vstd::arithmetic::div_mod::lemma_fundamental_div_mod(t, g.w);
        vstd::arithmetic::div_mod::lemma_fundamental_div_mod(idx, g.w);
        if t == idx {
            assert(false);
        } else {
            assert(spec_cell_done(g, t, pr, pc));
            assert(spec_cell_collides(g, disp, mem, pr, pc, t));
            assert(spec_draw_collision_upto(g, disp, mem, pr, pc));
        }
    }
    if spec_draw_collision_upto(g, disp, mem, pr, pc) {
        let t = choose|t: int|
            0 <= t < disp.len() && #[trigger] spec_cell_collides(g, disp, mem, pr, pc, t);
        assert(spec_cell_collides(g, disp, mem, pr, pc + 1, t));
        assert(spec_draw_collision_upto(g, disp, mem, pr, pc + 1));
    }
}

/// Finishing a row is the same as starting the next one.
proof fn lemma_collision_row_step(g: SpriteOp, disp: Seq<bool>, mem: Seq<u8>, pr: int)
    ensures
        spec_draw_collision_upto(g, disp, mem, pr, g.cols) == spec_draw_collision_upto(
            g,
            disp,
            mem,
            pr + 1,
            0,
        ),
{
    if spec_draw_collision_upto(g, disp, mem, pr, g.cols) {
        let t = choose|t: int|
            0 <= t < disp.len() && #[trigger] spec_cell_collides(g, disp, mem, pr, g.cols, t);
        assert(spec_cell_collides(g, disp, mem, pr + 1, 0, t));
        assert(spec_draw_collision_upto(g, disp, mem, pr + 1, 0));
    }
    if spec_draw_collision_upto(g, disp, mem, pr + 1, 0) {
        let t = choose|t: int|
            0 <= t < disp.len() && #[trigger] spec_cell_collides(g, disp, mem, pr + 1, 0, t);
        assert(spec_cell_collides(g, disp, mem, pr, g.cols, t));
        assert(spec_draw_collision_upto(g, disp, mem, pr, g.cols));
    }
}

/// XOR self-cancellation with collision detection. If every cell a draw
/// touches starts dark and at least one drawn sprite bit survives
/// clipping, then the first draw reports no collision and lights exactly
/// the drawn bits, and drawing the same sprite again at the same position
/// clears the toggled pixels back to false and reports a collision.
pub proof fn lemma_draw_twice(g: SpriteOp, disp: Seq<bool>, mem: Seq<u8>)
    requires
        forall|t: int| 0 <= t < disp.len() && #[trigger] spec_cell_touched(g, t) ==> !disp[t],
        exists|t: int|
            0 <= t < disp.len() && #[trigger] spec_cell_touched(g, t) && spec_cell_bit(g, mem, t),
    ensures
        !spec_draw_collision(g, disp, mem),
        spec_draw_display(g, spec_draw_display(g, disp, mem), mem) == disp,
        spec_draw_collision(g, spec_draw_display(g, disp, mem), mem),
{
    let disp1 = spec_draw_display(g, disp, mem);
    if spec_draw_collision(g, disp, mem) {
        let t = choose|t: int|
            0 <= t < disp.len() && #[trigger] spec_cell_collides(g, disp, mem, g.rows, 0, t);
        assert(spec_cell_touched(g, t));
        assert(!disp[t]);
        assert(false);
    }
    assert(spec_draw_display(g, disp1, mem) =~= disp);
    let t0 = choose|t: int|
        0 <= t < disp.len() && #[trigger] spec_cell_touched(g, t) && spec_cell_bit(g, mem, t);
    assert(disp1[t0]);
    assert(spec_cell_collides(g, disp1, mem, g.rows, 0, t0));
    assert(spec_draw_collision(g, disp1, mem));
}

/// The same law at the machine level: if the next draw's touched cells
/// all start dark and some drawn bit survives clipping, the draw succeeds
/// with flag register 0, and repeating it restores the display exactly
/// and sets the flag register to 1. The coordinate registers must not be
/// the flag register itself, which the first draw overwrites.
pub proof fn lemma_draw_twice_vm(s: VmView, x: u8, y: u8, n: u8)
    requires
        wf_state(s),
        x < 15,
        y < 15,
        n < 16,
        spec_draw(s, x, y, n) is Ok,
        ({
            let g = spec_sprite_op(s, x, y, n);
            &&& (forall|t: int|
                0 <= t < s.display.len() && #[trigger] spec_cell_touched(g, t) ==> !s.display[t])
            &&& (exists|t: int|
                0 <= t < s.display.len() && #[trigger] spec_cell_touched(g, t)
                    && spec_cell_bit(g, s.memory, t))
        }),
    ensures
        ({
            let s1 = spec_draw(s, x, y, n)->Ok_0;
            &&& s1.registers[15] == 0
            &&& spec_draw(s1, x, y, n) is Ok
            &&& spec_draw(s1, x, y, n)->Ok_0.display == s.display
            &&& spec_draw(s1, x, y, n)->Ok_0.registers[15] == 1
        }),
{
    let g = spec_sprite_op(s, x, y, n);
    let s1 = spec_draw(s, x, y, n)->Ok_0;
    lemma_draw_twice(g, s.display, s.memory);
    assert(s1.registers[x as int] == s.registers[x as int]);
    assert(s1.registers[y as int] == s.registers[y as int]);
    assert(spec_sprite_op(s1, x, y, n) =~= g);
    assert(spec_draw(s1, x, y, n)->Ok_0.display == s.display);
    assert(spec_draw(s1, x, y, n)->Ok_0.registers =~= s1.registers.update(15, 1u8));
}

} // verus!