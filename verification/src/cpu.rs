//! The interpreter: fetch, decode and execute against the machine state.
//!
//! The whole machine-visible state is abstracted by [`CpuView`]; the effect
//! of every instruction is the mathematical transition [`spec_exec`], and
//! the executable dispatcher is proved to realize it exactly.

use vstd::prelude::*;

use rand::Rng;

verus! {

use crate::clock::Clock;
use crate::clock::Timer;
use crate::clock::DEFAULT_HZ;
use crate::clock::HZ_STEP;
use crate::clock::MIN_HZ;
use crate::display_buffer::DISPLAY_HEIGHT;
use crate::display_buffer::DISPLAY_WIDTH;
use crate::display_buffer::DisplayBuffer;
use crate::display_buffer::blank_grid;
use crate::display_buffer::cell_index;
use crate::keypad::KEY_COUNT;
use crate::keypad::Keypad;
use crate::keypad::first_key_from;
use crate::keypad::lemma_first_key_from;
use crate::opcodes::Instr;
use crate::opcodes::OpCodes;
use crate::opcodes::instr_ok;
use crate::opcodes::lemma_decode_ok;
use crate::opcodes::spec_decode;
use crate::ram::FONT_ADDRESS;
use crate::ram::MEMORY_SIZE;
use crate::ram::RAM;
use crate::ram::ROM_ADDRESS;
use crate::ram::font_table;
use crate::registers::INITIAL_PC;
use crate::registers::REGISTER_COUNT;
use crate::registers::Registers;

/// The machine-visible state: everything an instruction can read or write.
/// Clock frequencies and last-fire timestamps are pacing state, not
/// machine state, and live outside this view.
#[verifier::ext_equal]
pub ghost struct CpuView {
    /// Return addresses, most recent last.
    pub stack: Seq<usize>,
    /// Delay timer counter.
    pub dt: u8,
    /// Sound timer counter.
    pub st: u8,
    /// The sixteen general registers.
    pub regs: Seq<u8>,
    /// Program counter.
    pub pc: usize,
    /// Index register.
    pub i: usize,
    /// The 4096 memory bytes.
    pub ram: Seq<u8>,
    /// The sixteen key latches.
    pub keys: Seq<bool>,
    /// The pixel grid, laid out as `cell_index`.
    pub grid: Seq<bool>,
    /// The instruction word most recently fetched.
    pub opcode: u16,
    /// Raised by every draw instruction; the embedder lowers it after
    /// rendering.
    pub should_redraw: bool,
}

/// The dimensions every reachable machine state has.
pub open spec fn view_wf(s: CpuView) -> bool {
    &&& s.regs.len() == REGISTER_COUNT
    &&& s.ram.len() == MEMORY_SIZE
    &&& s.keys.len() == KEY_COUNT
    &&& s.grid.len() == DISPLAY_WIDTH * DISPLAY_HEIGHT
}

/// 8-bit addition with wraparound.
pub open spec fn wrap_add8(a: u8, b: u8) -> u8 {
    if a + b > 255 {
        (a + b - 256) as u8
    } else {
        (a + b) as u8
    }
}

/// 8-bit subtraction with wraparound.
pub open spec fn wrap_sub8(a: u8, b: u8) -> u8 {
    if a - b < 0 {
        (a - b + 256) as u8
    } else {
        (a - b) as u8
    }
}

/// Law: the wrapped sum is the true sum reduced modulo 256.
pub proof fn lemma_wrap_add8_is_mod(a: u8, b: u8)
    ensures
        wrap_add8(a, b) == ((a + b) % 256) as u8,
{
}

/// Law: the wrapped difference is the true difference reduced modulo 256
/// (with the nonnegative remainder).
pub proof fn lemma_wrap_sub8_is_mod(a: u8, b: u8)
    ensures
        wrap_sub8(a, b) == ((a - b) % 256) as u8,
{
}

/// Bit `pos` of a sprite row byte, most significant bit first.
pub open spec fn sprite_bit(byte: u8, pos: int) -> bool {
    byte & (1u8 << (7 - pos)) > 0
}

/// The cells an n-row sprite drawn at origin (ox, oy) covers: 8 columns
/// from ox, n rows from oy.  Cells beyond the grid edge do not exist, so
/// the sprite is clipped there, not wrapped.
pub open spec fn draw_hits(ox: int, oy: int, n: int, cx: int, cy: int) -> bool {
    ox <= cx < ox + 8 && oy <= cy < oy + n
}

/// The sprite bit that lands on cell (cx, cy), read from the sprite rows
/// at memory index `i`.
pub open spec fn draw_bit(ram: Seq<u8>, i: int, ox: int, oy: int, cx: int, cy: int) -> bool {
    sprite_bit(ram[i + (cy - oy)], cx - ox)
}

/// The grid after the draw: every covered cell is XORed with its sprite
/// bit; every other cell keeps its value.
pub open spec fn draw_grid(
    grid: Seq<bool>,
    ram: Seq<u8>,
    i: int,
    ox: int,
    oy: int,
    n: int,
) -> Seq<bool> {
    Seq::new(
        grid.len(),
        |c: int|
            {
                let cx = c / (DISPLAY_HEIGHT as int);
                let cy = c % (DISPLAY_HEIGHT as int);
                if draw_hits(ox, oy, n, cx, cy) {
                    grid[c] != draw_bit(ram, i, ox, oy, cx, cy)
                } else {
                    grid[c]
                }
            },
    )
}

/// Cell (cx, cy) is covered, its sprite bit is set, and it was already
/// lit: the draw clears it.
pub open spec fn draw_clears_cell(
    grid: Seq<bool>,
    ram: Seq<u8>,
    i: int,
    ox: int,
    oy: int,
    n: int,
    cx: int,
    cy: int,
) -> bool {
    &&& 0 <= cx < DISPLAY_WIDTH
    &&& 0 <= cy < DISPLAY_HEIGHT
    &&& draw_hits(ox, oy, n, cx, cy)
    &&& draw_bit(ram, i, ox, oy, cx, cy)
    &&& grid[cell_index(cx, cy)]
}

/// The draw reports a collision exactly when it clears some cell.
pub open spec fn draw_collides(
    grid: Seq<bool>,
    ram: Seq<u8>,
    i: int,
    ox: int,
    oy: int,
    n: int,
) -> bool {
    exists|cx: int, cy: int| #[trigger] draw_clears_cell(grid, ram, i, ox, oy, n, cx, cy)
}

/// Rows of the sprite that are actually drawn: the sprite height clipped
/// at the bottom edge.
pub open spec fn rows_drawn(oy: int, n: int) -> int {
    if n <= (DISPLAY_HEIGHT as int) - oy {
        n
    } else {
        (DISPLAY_HEIGHT as int) - oy
    }
}

/// A state with one register replaced.
pub open spec fn with_reg(s: CpuView, x: usize, v: u8) -> CpuView {
    CpuView { regs: s.regs.update(x as int, v), ..s }
}

/// A state with the program counter moved past the next instruction.
pub open spec fn skip2(s: CpuView) -> CpuView {
    CpuView { pc: (s.pc + 2) as usize, ..s }
}

/// The instruction word in memory at the program counter, big-endian.
pub open spec fn word_at(s: CpuView) -> u16 {
    ((s.ram[s.pc as int] as u16) << 8) | (s.ram[s.pc + 1] as u16)
}

/// One fetch: the word at the program counter lands in the opcode
/// register and the program counter moves past it.
pub open spec fn spec_fetch(s: CpuView) -> CpuView {
    CpuView { opcode: word_at(s), pc: (s.pc + 2) as usize, ..s }
}

/// The machine-limit and memory-bound conditions under which an
/// instruction executes without a fatal error.  Out-of-bounds memory or
/// key indices are programmer errors: the embedder checks them (see
/// `can_decode`) instead of letting the interpreter corrupt state.
pub open spec fn exec_safe(s: CpuView, instr: Instr) -> bool {
    match instr {
        Instr::SkipEqImm(_, _) => s.pc + 2 <= usize::MAX,
        Instr::SkipNeImm(_, _) => s.pc + 2 <= usize::MAX,
        Instr::SkipEqReg(_, _) => s.pc + 2 <= usize::MAX,
        Instr::SkipNeReg(_, _) => s.pc + 2 <= usize::MAX,
        Instr::SkipIfKey(x) => s.regs[x as int] < 16 && s.pc + 2 <= usize::MAX,
        Instr::SkipIfNotKey(x) => s.regs[x as int] < 16 && s.pc + 2 <= usize::MAX,
        Instr::AddIndex(x) => s.i + s.regs[x as int] <= usize::MAX,
        Instr::WaitKey(_) => first_key_from(s.keys, 0) is None ==> s.pc >= 2,
        Instr::Draw(_, y, n) => {
            let oy = (s.regs[y as int] as int) % (DISPLAY_HEIGHT as int);
            rows_drawn(oy, n as int) > 0 ==> s.i + rows_drawn(oy, n as int) <= MEMORY_SIZE
        },
        Instr::StoreBcd(_) => s.i + 3 <= MEMORY_SIZE,
        Instr::StoreRegs(x) => s.i + x < MEMORY_SIZE,
        Instr::LoadRegs(x) => s.i + x < MEMORY_SIZE,
        _ => true,
    }
}

/// The opcode table as one mathematical transition: the state after
/// executing `instr` from `s`.  `rand` is the byte the random-number
/// instruction consumes; every other instruction ignores it.
pub open spec fn spec_exec(s: CpuView, instr: Instr, rand: u8) -> CpuView {
    match instr {
        Instr::ClearScreen => CpuView { grid: blank_grid(), ..s },
        Instr::Ret => if s.stack.len() == 0 {
            s
        } else {
            CpuView { pc: s.stack.last(), stack: s.stack.drop_last(), ..s }
        },
        Instr::Jump(nnn) => CpuView { pc: nnn, ..s },
        Instr::Call(nnn) => CpuView { stack: s.stack.push(s.pc), pc: nnn, ..s },
        Instr::SkipEqImm(x, nn) => if s.regs[x as int] == nn {
            skip2(s)
        } else {
            s
        },
        Instr::SkipNeImm(x, nn) => if s.regs[x as int] != nn {
            skip2(s)
        } else {
            s
        },
        Instr::SkipEqReg(x, y) => if s.regs[x as int] == s.regs[y as int] {
            skip2(s)
        } else {
            s
        },
        Instr::SkipNeReg(x, y) => if s.regs[x as int] != s.regs[y as int] {
            skip2(s)
        } else {
            s
        },
        Instr::SetImm(x, nn) => with_reg(s, x, nn),
        Instr::AddImm(x, nn) => with_reg(s, x, wrap_add8(s.regs[x as int], nn)),
        Instr::Assign(x, y) => with_reg(s, x, s.regs[y as int]),
        Instr::Or(x, y) => with_reg(s, x, s.regs[x as int] | s.regs[y as int]),
        Instr::And(x, y) => with_reg(s, x, s.regs[x as int] & s.regs[y as int]),
        Instr::Xor(x, y) => with_reg(s, x, s.regs[x as int] ^ s.regs[y as int]),
        Instr::AddCarry(x, y) => {
            let vx = s.regs[x as int];
            let vy = s.regs[y as int];
            CpuView {
                regs: s.regs.update(x as int, wrap_add8(vx, vy)).update(
                    0xF,
                    if vx + vy > 255 {
                        1u8
                    } else {
                        0u8
                    },
                ),
                ..s
            }
        },
        Instr::SubBorrow(x, y) => {
            let vx = s.regs[x as int];
            let vy = s.regs[y as int];
            CpuView {
                regs: s.regs.update(x as int, wrap_sub8(vx, vy)).update(
                    0xF,
                    if vx >= vy {
                        1u8
                    } else {
                        0u8
                    },
                ),
                ..s
            }
        },
        Instr::ShiftRight(x, y) => {
            let vx = s.regs[x as int];
            let vy = s.regs[y as int];
            CpuView { regs: s.regs.update(x as int, vy >> 1).update(0xF, vx & 1), ..s }
        },
        Instr::SubReverse(x, y) => {
            let vx = s.regs[x as int];
            let vy = s.regs[y as int];
            CpuView {
                regs: s.regs.update(x as int, wrap_sub8(vy, vx)).update(
                    0xF,
                    if vy >= vx {
                        1u8
                    } else {
                        0u8
                    },
                ),
                ..s
            }
        },
        Instr::ShiftLeft(x, y) => {
            let vx = s.regs[x as int];
            let vy = s.regs[y as int];
            CpuView { regs: s.regs.update(x as int, vy << 1).update(0xF, (vx & 0x80) >> 7), ..s }
        },
        Instr::SetIndex(nnn) => CpuView { i: nnn, ..s },
        Instr::JumpPlusV0(nnn) => CpuView { pc: (nnn + s.regs[0]) as usize, ..s },
        Instr::Random(x, nn) => with_reg(s, x, rand & nn),
        Instr::Draw(x, y, n) => {
            let ox = (s.regs[x as int] as int) % (DISPLAY_WIDTH as int);
            let oy = (s.regs[y as int] as int) % (DISPLAY_HEIGHT as int);
            let coll = draw_collides(s.grid, s.ram, s.i as int, ox, oy, n as int);
            CpuView {
                grid: draw_grid(s.grid, s.ram, s.i as int, ox, oy, n as int),
                regs: s.regs.update(
                    0xF,
                    if coll {
                        1u8
                    } else {
                        0u8
                    },
                ),
                should_redraw: true,
                ..s
            }
        },
        Instr::SkipIfKey(x) => if s.keys[s.regs[x as int] as int] {
            skip2(s)
        } else {
            s
        },
        Instr::SkipIfNotKey(x) => if !s.keys[s.regs[x as int] as int] {
            skip2(s)
        } else {
            s
        },
        Instr::ReadDelay(x) => with_reg(s, x, s.dt),
        Instr::SetDelay(x) => CpuView { dt: s.regs[x as int], ..s },
        Instr::SetSound(x) => CpuView { st: s.regs[x as int], ..s },
        Instr::AddIndex(x) => CpuView { i: (s.i + s.regs[x as int]) as usize, ..s },
        Instr::WaitKey(x) => match first_key_from(s.keys, 0) {
            Some(k) => with_reg(s, x, k),
            None => CpuView { pc: (s.pc - 2) as usize, ..s },
        },
        Instr::FontChar(x) => CpuView {
            i: (FONT_ADDRESS + (s.regs[x as int] & 0xF) * 5) as usize,
            ..s
        },
        Instr::StoreBcd(x) => {
            let vx = s.regs[x as int];
            CpuView {
                ram: s.ram.update(s.i as int, vx / 100).update(s.i + 1, (vx / 10) % 10).update(
                    s.i + 2,
                    vx % 10,
                ),
                ..s
            }
        },
        Instr::StoreRegs(x) => CpuView {
            ram: Seq::new(
                s.ram.len(),
                |a: int|
                    if s.i <= a <= s.i + x {
                        s.regs[a - s.i]
                    } else {
                        s.ram[a]
                    },
            ),
            ..s
        },
        Instr::LoadRegs(x) => CpuView {
            regs: Seq::new(
                s.regs.len(),
                |r: int|
                    if r <= x {
                        s.ram[s.i + r]
                    } else {
                        s.regs[r]
                    },
            ),
            ..s
        },
        Instr::Unknown(_) => s,
    }
}

/// One uniformly random byte.
///
/// Relies on `rand::thread_rng` and `rand::Rng::gen_range` over the
/// inclusive range `0x0..=0xFF`: the range is non-empty, so the call
/// cannot panic, and any byte may come back.  Nothing can be promised of
/// the value.
#[verifier::external_body]
fn random_byte() -> u8 {
    let mut rng = rand::thread_rng();
    rng.gen_range(0x0..=0xFF)
}

/// Partially drawn grid: `row` full sprite rows applied, plus the first
/// `px` columns of the next row.
spec fn draw_grid_partial(
    grid: Seq<bool>,
    ram: Seq<u8>,
    i: int,
    ox: int,
    oy: int,
    row: int,
    px: int,
) -> Seq<bool> {
    Seq::new(
        grid.len(),
        |c: int|
            {
                let cx = c / (DISPLAY_HEIGHT as int);
                let cy = c % (DISPLAY_HEIGHT as int);
                if draw_hits(ox, oy, row, cx, cy) || (cy == oy + row && ox <= cx < ox + px) {
                    grid[c] != draw_bit(ram, i, ox, oy, cx, cy)
                } else {
                    grid[c]
                }
            },
    )
}

/// Partial collision predicate matching `draw_grid_partial`.
spec fn draw_clears_cell_partial(
    grid: Seq<bool>,
    ram: Seq<u8>,
    i: int,
    ox: int,
    oy: int,
    row: int,
    px: int,
    cx: int,
    cy: int,
) -> bool {
    &&& 0 <= cx < DISPLAY_WIDTH
    &&& 0 <= cy < DISPLAY_HEIGHT
    &&& (draw_hits(ox, oy, row, cx, cy) || (cy == oy + row && ox <= cx < ox + px))
    &&& draw_bit(ram, i, ox, oy, cx, cy)
    &&& grid[cell_index(cx, cy)]
}

spec fn draw_collides_partial(
    grid: Seq<bool>,
    ram: Seq<u8>,
    i: int,
    ox: int,
    oy: int,
    row: int,
    px: int,
) -> bool {
    exists|cx: int, cy: int|
        #[trigger] draw_clears_cell_partial(grid, ram, i, ox, oy, row, px, cx, cy)
}

/// Draws an `n`-row sprite read from `ram` at index `i0` with origin
/// (`ori_x`, `ori_y`), XOR-ing bits into the grid and reporting whether
/// any lit cell was cleared.
#[verifier::rlimit(60)]
fn draw_sprite(
    db: &mut DisplayBuffer,
    ram: &RAM,
    i0: usize,
    ori_x: usize,
    ori_y: usize,
    n: u8,
) -> (collided: bool)
    requires
        old(db).wf(),
        ram.wf(),
        ori_x < DISPLAY_WIDTH,
        ori_y < DISPLAY_HEIGHT,
        n < 16,
        rows_drawn(ori_y as int, n as int) > 0 ==> i0 + rows_drawn(ori_y as int, n as int)
            <= MEMORY_SIZE,
    ensures
        final(db).wf(),
        final(db)@ == draw_grid(old(db)@, ram@, i0 as int, ori_x as int, ori_y as int, n as int),
        collided == draw_collides(old(db)@, ram@, i0 as int, ori_x as int, ori_y as int, n as int),
        final(db).scale == old(db).scale,
{
    let ghost g0 = old(db)@;
    let rows: usize = if (n as usize) > DISPLAY_HEIGHT - ori_y {
        DISPLAY_HEIGHT - ori_y
    } else {
        n as usize
    };
    let cols: usize = if 8 > DISPLAY_WIDTH - ori_x {
        DISPLAY_WIDTH - ori_x
    } else {
        8
    };
    let mut collided = false;
    let mut row: usize = 0;
    proof {
        assert(db@ =~= draw_grid_partial(g0, ram@, i0 as int, ori_x as int, ori_y as int, 0, 0));
    }
    while row < rows
        invariant
            db.wf(),
            ram.wf(),
            db.scale == old(db).scale,
            g0 == old(db)@,
            g0.len() == DISPLAY_WIDTH * DISPLAY_HEIGHT,
            ori_x < DISPLAY_WIDTH,
            ori_y < DISPLAY_HEIGHT,
            n < 16,
            rows as int == rows_drawn(ori_y as int, n as int),
            rows > 0 ==> i0 + rows <= MEMORY_SIZE,
            cols == if 8 > DISPLAY_WIDTH - ori_x {
                (DISPLAY_WIDTH - ori_x) as int
            } else {
                8int
            },
            0 <= row <= rows,
            db@ == draw_grid_partial(g0, ram@, i0 as int, ori_x as int, ori_y as int, row as int, 0),
            collided == draw_collides_partial(
                g0,
                ram@,
                i0 as int,
                ori_x as int,
                ori_y as int,
                row as int,
                0,
            ),
        decreases rows - row,
    {
        let sprite = ram.read8(i0 + row);
        let yy = ori_y + row;
        let mut px: usize = 0;
        while px < cols
            invariant
                db.wf(),
                ram.wf(),
                db.scale == old(db).scale,
                g0 == old(db)@,
                g0.len() == DISPLAY_WIDTH * DISPLAY_HEIGHT,
                ori_x < DISPLAY_WIDTH,
                ori_y < DISPLAY_HEIGHT,
                n < 16,
                rows as int == rows_drawn(ori_y as int, n as int),
                rows > 0 ==> i0 + rows <= MEMORY_SIZE,
                cols == if 8 > DISPLAY_WIDTH - ori_x {
                    (DISPLAY_WIDTH - ori_x) as int
                } else {
                    8int
                },
                0 <= row < rows,
                yy == ori_y + row,
                sprite == ram@[i0 + row],
                0 <= px <= cols,
                db@ == draw_grid_partial(
                    g0,
                    ram@,
                    i0 as int,
                    ori_x as int,
                    ori_y as int,
                    row as int,
                    px as int,
                ),
                collided == draw_collides_partial(
                    g0,
                    ram@,
                    i0 as int,
                    ori_x as int,
                    ori_y as int,
                    row as int,
                    px as int,
                ),
            decreases cols - px,
        {
            let ghost pre = db@;
            let xx = ori_x + px;
            let bit = (sprite & (1u8 << ((7 - px) as u32))) > 0;
            let cleared = db.xor_pixel(xx, yy, bit);
            proof {
                let gi = i0 as int;
                let gox = ori_x as int;
                let goy = ori_y as int;
                let grow = row as int;
                let gpx = px as int;
                let c0 = cell_index(xx as int, yy as int);
                assert(c0 == (gox + gpx) * 32 + (goy + grow));
                assert(c0 / 32 == gox + gpx && c0 % 32 == goy + grow) by (nonlinear_arith)
                    requires
                        c0 == (gox + gpx) * 32 + (goy + grow),
                        0 <= goy + grow < 32,
                        0 <= gox + gpx,
                ;
                assert(bit == draw_bit(ram@, gi, gox, goy, c0 / 32, c0 % 32));
                // the touched cell had not been visited yet, so it still
                // held its pre-draw value
                assert(pre[c0] == g0[c0]);
                assert(db@ =~= draw_grid_partial(g0, ram@, gi, gox, goy, grow, gpx + 1));
                // collision extension, both directions
                let newc = collided || cleared;
                if newc {
                    if collided {
                        let (wx, wy) = choose|wx: int, wy: int|
                            #[trigger] draw_clears_cell_partial(
                                g0,
                                ram@,
                                gi,
                                gox,
                                goy,
                                grow,
                                gpx,
                                wx,
                                wy,
                            );
                        assert(draw_clears_cell_partial(
                            g0,
                            ram@,
                            gi,
                            gox,
                            goy,
                            grow,
                            gpx + 1,
                            wx,
                            wy,
                        ));
                    } else {
                        assert(draw_clears_cell_partial(
                            g0,
                            ram@,
                            gi,
                            gox,
                            goy,
                            grow,
                            gpx + 1,
                            gox + gpx,
                            goy + grow,
                        ));
                    }
                }
                if draw_collides_partial(g0, ram@, gi, gox, goy, grow, gpx + 1) {
                    let (wx, wy) = choose|wx: int, wy: int|
                        #[trigger] draw_clears_cell_partial(
                            g0,
                            ram@,
                            gi,
                            gox,
                            goy,
                            grow,
                            gpx + 1,
                            wx,
                            wy,
                        );
                    if wx == gox + gpx && wy == goy + grow {
                        assert(newc);
                    } else {
                        assert(draw_clears_cell_partial(g0, ram@, gi, gox, goy, grow, gpx, wx, wy));
                        assert(newc);
                    }
                }
            }
            collided = collided || cleared;
            px += 1;
        }
        proof {
            let gi = i0 as int;
            let gox = ori_x as int;
            let goy = ori_y as int;
            let grow = row as int;
            // a full row at clipped width is a full row at sprite width:
            // the missing columns are beyond the grid edge
            assert(db@ =~= draw_grid_partial(g0, ram@, gi, gox, goy, grow + 1, 0));
            if draw_collides_partial(g0, ram@, gi, gox, goy, grow, cols as int) {
                let (wx, wy) = choose|wx: int, wy: int|
                    #[trigger] draw_clears_cell_partial(
                        g0,
                        ram@,
                        gi,
                        gox,
                        goy,
                        grow,
                        cols as int,
                        wx,
                        wy,
                    );
                assert(draw_clears_cell_partial(g0, ram@, gi, gox, goy, grow + 1, 0, wx, wy));
            }
            if draw_collides_partial(g0, ram@, gi, gox, goy, grow + 1, 0) {
                let (wx, wy) = choose|wx: int, wy: int|
                    #[trigger] draw_clears_cell_partial(
                        g0,
                        ram@,
                        gi,
                        gox,
                        goy,
                        grow + 1,
                        0,
                        wx,
                        wy,
                    );
                assert(draw_clears_cell_partial(g0, ram@, gi, gox, goy, grow, cols as int, wx, wy));
            }
            assert(draw_collides_partial(g0, ram@, gi, gox, goy, grow + 1, 0)
                == draw_collides_partial(g0, ram@, gi, gox, goy, grow, cols as int));
        }
        row += 1;
    }
    proof {
        let gi = i0 as int;
        let gox = ori_x as int;
        let goy = ori_y as int;
        // drawing the clipped rows is drawing the whole sprite: the
        // missing rows are beyond the bottom edge
        assert(db@ =~= draw_grid(g0, ram@, gi, gox, goy, n as int));
        if draw_collides_partial(g0, ram@, gi, gox, goy, rows as int, 0) {
            let (wx, wy) = choose|wx: int, wy: int|
                #[trigger] draw_clears_cell_partial(g0, ram@, gi, gox, goy, rows as int, 0, wx, wy);
            assert(draw_clears_cell(g0, ram@, gi, gox, goy, n as int, wx, wy));
        }
        if draw_collides(g0, ram@, gi, gox, goy, n as int) {
            let (wx, wy) = choose|wx: int, wy: int|
                #[trigger] draw_clears_cell(g0, ram@, gi, gox, goy, n as int, wx, wy);
            assert(draw_clears_cell_partial(g0, ram@, gi, gox, goy, rows as int, 0, wx, wy));
        }
        assert(collided == draw_collides(g0, ram@, gi, gox, goy, n as int));
    }
    collided
}

pub struct CPU {
    stack: Vec<usize>,
    dt: Timer,
    st: Timer,
    clock: Clock,
    regs: Registers,
    ram: RAM,
    keypad: Keypad,
    db: DisplayBuffer,
    op: OpCodes,
    /// Raised by every draw instruction; the embedder lowers it after
    /// rendering.
    pub should_redraw: bool,
}

impl View for CPU {
    type V = CpuView;

    closed spec fn view(&self) -> CpuView {
        CpuView {
            stack: self.stack@,
            dt: self.dt.tick,
            st: self.st.tick,
            regs: self.regs@,
            pc: self.regs.pc,
            i: self.regs.i,
            ram: self.ram@,
            keys: self.keypad@,
            grid: self.db@,
            opcode: self.op.opcode,
            should_redraw: self.should_redraw,
        }
    }
}

impl CPU {
    pub closed spec fn wf(&self) -> bool {
        &&& self.regs.wf()
        &&& self.ram.wf()
        &&& self.keypad.wf()
        &&& self.db.wf()
        &&& self.op.wf()
        &&& self.dt.wf()
        &&& self.st.wf()
        &&& self.clock.wf()
    }

    /// The pacing state, which no instruction touches: the three clocks.
    pub closed spec fn timing(&self) -> (Clock, Clock, Clock) {
        (self.clock, self.dt.clock, self.st.clock)
    }

    /// The instruction clock.
    pub closed spec fn instruction_clock(&self) -> Clock {
        self.clock
    }

    /// The delay timer's own fixed-rate clock.
    pub closed spec fn delay_clock(&self) -> Clock {
        self.dt.clock
    }

    /// The sound timer's own fixed-rate clock.
    pub closed spec fn sound_clock(&self) -> Clock {
        self.st.clock
    }

    /// A fresh machine: fonts in memory, everything else at its initial
    /// value, all clocks at the default frequency.
    pub fn new() -> (r: CPU)
        ensures
            r.wf(),
            view_wf(r@),
            r@.stack == Seq::<usize>::empty(),
            r@.dt == 0xFF,
            r@.st == 0xFF,
            r@.regs == Seq::new(REGISTER_COUNT as nat, |k: int| 0u8),
            r@.pc == INITIAL_PC,
            r@.i == 0,
            forall|k: int| 0 <= k < 80 ==> r@.ram[FONT_ADDRESS + k] == font_table()[k],
            forall|a: int|
                0 <= a < MEMORY_SIZE && !(FONT_ADDRESS <= a < FONT_ADDRESS + 80) ==> r@.ram[a]
                    == 0u8,
            r@.keys == Seq::new(KEY_COUNT as nat, |k: int| false),
            r@.grid == blank_grid(),
            r@.opcode == 0,
            r@.should_redraw == false,
            r.instruction_clock().clock_hz == DEFAULT_HZ,
            r.delay_clock().clock_hz == DEFAULT_HZ,
            r.sound_clock().clock_hz == DEFAULT_HZ,
            r.spec_display_scale() == 10,
    {
        let mut ram = RAM::new();
        ram.init_fonts();
        CPU {
            stack: Vec::new(),
            dt: Timer::new(),
            st: Timer::new(),
            clock: Clock::new(),
            regs: Registers::new(),
            ram,
            keypad: Keypad::new(),
            db: DisplayBuffer::new(10),
            op: OpCodes::new(0),
            should_redraw: false,
        }
    }

    /// Reads the instruction word at the program counter into the opcode
    /// register and advances the program counter past it.
    pub fn fetch(&mut self)
        requires
            old(self).wf(),
            old(self)@.pc + 1 < MEMORY_SIZE,
        ensures
            final(self).wf(),
            view_wf(old(self)@) ==> view_wf(final(self)@),
            final(self)@ == spec_fetch(old(self)@),
            final(self).timing() == old(self).timing(),
    {
        let word = self.ram.read16(self.regs.pc);
        self.op = OpCodes::new(word);
        self.regs.increment_pc();
    }

    /// Whether the program counter points at a whole instruction word.
    pub fn can_fetch(&self) -> (r: bool)
        ensures
            r == (self@.pc + 1 < MEMORY_SIZE),
    {
        self.regs.pc < MEMORY_SIZE - 1
    }

    /// Executes one decoded instruction, consuming `rand` as the random
    /// byte if the instruction wants one.  The new machine state is
    /// exactly the mathematical transition `spec_exec`.
    #[verifier::rlimit(60)]
    pub fn execute(&mut self, instr: Instr, rand: u8)
        requires
            old(self).wf(),
            instr_ok(instr),
            exec_safe(old(self)@, instr),
        ensures
            final(self).wf(),
            final(self)@ == spec_exec(old(self)@, instr, rand),
            final(self).timing() == old(self).timing(),
    {
        match instr {
            Instr::ClearScreen => {
                self.db.clear();
            },
            Instr::Ret => {
                match self.stack.pop() {
                    Some(value) => {
                        self.regs.pc = value;
                    },
                    None => {},
                }
                proof {
                    if old(self)@.stack.len() > 0 {
                        assert(self@.stack =~= old(self)@.stack.drop_last());
                    }
                }
            },
            Instr::Jump(nnn) => {
                self.regs.pc = nnn;
            },
            Instr::Call(nnn) => {
                self.stack.push(self.regs.pc);
                self.regs.pc = nnn;
            },
            Instr::SkipEqImm(x, nn) => {
                if self.regs.get(x) == nn {
                    self.regs.increment_pc();
                }
            },
            Instr::SkipNeImm(x, nn) => {
                if self.regs.get(x) != nn {
                    self.regs.increment_pc();
                }
            },
            Instr::SkipEqReg(x, y) => {
                if self.regs.get(x) == self.regs.get(y) {
                    self.regs.increment_pc();
                }
            },
            Instr::SkipNeReg(x, y) => {
                if self.regs.get(x) != self.regs.get(y) {
                    self.regs.increment_pc();
                }
            },
            Instr::SetImm(x, nn) => {
                self.regs.set(x, nn);
            },
            Instr::AddImm(x, nn) => {
                let vx = self.regs.get(x);
                self.regs.set(x, nn.wrapping_add(vx));
            },
            Instr::Assign(x, y) => {
                let vy = self.regs.get(y);
                self.regs.set(x, vy);
            },
            Instr::Or(x, y) => {
                let vx = self.regs.get(x);
                let vy = self.regs.get(y);
                self.regs.set(x, vx | vy);
            },
            Instr::And(x, y) => {
                let vx = self.regs.get(x);
                let vy = self.regs.get(y);
                self.regs.set(x, vx & vy);
            },
            Instr::Xor(x, y) => {
                let vx = self.regs.get(x);
                let vy = self.regs.get(y);
                self.regs.set(x, vx ^ vy);
            },
            Instr::AddCarry(x, y) => {
                let vx = self.regs.get(x);
                let vy = self.regs.get(y);
                self.regs.set(x, vx.wrapping_add(vy));
                self.regs.set(0xF, if (vx as u16) + (vy as u16) > 255 { 1 } else { 0 });
            },
            Instr::SubBorrow(x, y) => {
                let vx = self.regs.get(x);
                let vy = self.regs.get(y);
                self.regs.set(x, vx.wrapping_sub(vy));
                self.regs.set(0xF, if vx >= vy { 1 } else { 0 });
            },
            Instr::ShiftRight(x, y) => {
                let vx = self.regs.get(x);
                let vy = self.regs.get(y);
                self.regs.set(x, vy >> 1);
                self.regs.set(0xF, vx & 0x1);
            },
            Instr::SubReverse(x, y) => {
                let vx = self.regs.get(x);
                let vy = self.regs.get(y);
                self.regs.set(x, vy.wrapping_sub(vx));
                self.regs.set(0xF, if vy >= vx { 1 } else { 0 });
            },
            Instr::ShiftLeft(x, y) => {
                let vx = self.regs.get(x);
                let vy = self.regs.get(y);
                self.regs.set(x, vy << 1);
                self.regs.set(0xF, (vx & 0x80) >> 7);
            },
            Instr::SetIndex(nnn) => {
                self.regs.i = nnn;
            },
            Instr::JumpPlusV0(nnn) => {
                self.regs.pc = nnn + self.regs.get(0x0) as usize;
            },
            Instr::Random(x, nn) => {
                self.regs.set(x, rand & nn);
            },
            Instr::Draw(x, y, n) => {
                let ori_x = (self.regs.get(x) as usize) % DISPLAY_WIDTH;
                let ori_y = (self.regs.get(y) as usize) % DISPLAY_HEIGHT;
                let collided = draw_sprite(&mut self.db, &self.ram, self.regs.i, ori_x, ori_y, n);
                self.regs.set(0xF, if collided { 1 } else { 0 });
                self.should_redraw = true;
            },
            Instr::SkipIfKey(x) => {
                if self.keypad.get_status(self.regs.get(x) as usize) {
                    self.regs.increment_pc();
                }
            },
            Instr::SkipIfNotKey(x) => {
                if !self.keypad.get_status(self.regs.get(x) as usize) {
                    self.regs.increment_pc();
                }
            },
            Instr::ReadDelay(x) => {
                let tick = self.dt.tick;
                self.regs.set(x, tick);
            },
            Instr::SetDelay(x) => {
                self.dt.tick = self.regs.get(x);
            },
            Instr::SetSound(x) => {
                self.st.tick = self.regs.get(x);
            },
            Instr::AddIndex(x) => {
                let vx = self.regs.get(x);
                self.regs.i = self.regs.i + vx as usize;
            },
            Instr::WaitKey(x) => {
                match self.keypad.being_pressed() {
                    Some(key) => {
                        self.regs.set(x, key);
                    },
                    None => {
                        self.regs.decrement_pc();
                    },
                }
            },
            Instr::FontChar(x) => {
                let ch = (self.regs.get(x) & 0xF) as usize;
                self.regs.i = self.ram.get_font_address() + ch * 5;
            },
            Instr::StoreBcd(x) => {
                let vx = self.regs.get(x);
                let i0 = self.regs.i;
                self.ram.write8(i0, vx / 100);
                self.ram.write8(i0 + 1, vx / 10 % 10);
                self.ram.write8(i0 + 2, vx % 10);
            },
            Instr::StoreRegs(x) => {
                let i0 = self.regs.i;
                let mut r: usize = 0;
                while r < x + 1
                    invariant
                        self.wf(),
                        x < 16,
                        i0 == self.regs.i,
                        i0 + x < MEMORY_SIZE,
                        0 <= r <= x + 1,
                        self.regs == old(self).regs,
                        self.stack == old(self).stack,
                        self.dt == old(self).dt,
                        self.st == old(self).st,
                        self.clock == old(self).clock,
                        self.keypad == old(self).keypad,
                        self.db == old(self).db,
                        self.op == old(self).op,
                        self.should_redraw == old(self).should_redraw,
                        self.ram@.len() == MEMORY_SIZE,
                        forall|a: int|
                            i0 <= a < i0 + r ==> self.ram@[a] == old(self)@.regs[a - i0],
                        forall|a: int|
                            0 <= a < MEMORY_SIZE && !(i0 <= a < i0 + r) ==> self.ram@[a] == old(
                                self,
                            )@.ram[a],
                    decreases x + 1 - r,
                {
                    let value = self.regs.get(r);
                    self.ram.write8(i0 + r, value);
                    r += 1;
                }
                proof {
                    let s = old(self)@;
                    assert(self@.ram =~= Seq::new(
                        s.ram.len(),
                        |a: int|
                            if s.i <= a <= s.i + x {
                                s.regs[a - s.i]
                            } else {
                                s.ram[a]
                            },
                    ));
                }
            },
            Instr::LoadRegs(x) => {
                let i0 = self.regs.i;
                let mut r: usize = 0;
                while r < x + 1
                    invariant
                        self.wf(),
                        x < 16,
                        i0 == self.regs.i,
                        i0 + x < MEMORY_SIZE,
                        0 <= r <= x + 1,
                        self.regs.pc == old(self).regs.pc,
                        self.regs.i == old(self).regs.i,
                        self.stack == old(self).stack,
                        self.dt == old(self).dt,
                        self.st == old(self).st,
                        self.clock == old(self).clock,
                        self.keypad == old(self).keypad,
                        self.db == old(self).db,
                        self.op == old(self).op,
                        self.ram == old(self).ram,
                        self.should_redraw == old(self).should_redraw,
                        self.regs@.len() == REGISTER_COUNT,
                        forall|k: int| 0 <= k < r ==> self.regs@[k] == old(self)@.ram[i0 + k],
                        forall|k: int|
                            r <= k < REGISTER_COUNT ==> self.regs@[k] == old(self)@.regs[k],
                    decreases x + 1 - r,
                {
                    let value = self.ram.read8(i0 + r);
                    self.regs.set(r, value);
                    r += 1;
                }
                proof {
                    let s = old(self)@;
                    assert(self@.regs =~= Seq::new(
                        s.regs.len(),
                        |k: int|
                            if k <= x {
                                s.ram[s.i + k]
                            } else {
                                s.regs[k]
                            },
                    ));
                }
            },
            Instr::Unknown(_) => {},
        }
    }

    /// Whether the instruction the opcode register currently holds can be
    /// executed without a fatal error.  The embedder checks this before
    /// `decode`, as running an instruction whose memory or key operand is
    /// out of bounds would be a programmer error.
    pub fn can_decode(&self) -> (r: bool)
        requires
            self.wf(),
        ensures
            r == exec_safe(self@, spec_decode(self@.opcode)),
    {
        let instr = self.op.to_instr();
        proof {
            lemma_decode_ok(self.op.opcode);
        }
        match instr {
            Instr::SkipEqImm(_, _) => self.regs.pc <= usize::MAX - 2,
            Instr::SkipNeImm(_, _) => self.regs.pc <= usize::MAX - 2,
            Instr::SkipEqReg(_, _) => self.regs.pc <= usize::MAX - 2,
            Instr::SkipNeReg(_, _) => self.regs.pc <= usize::MAX - 2,
            Instr::SkipIfKey(x) => self.regs.get(x) < 16 && self.regs.pc <= usize::MAX - 2,
            Instr::SkipIfNotKey(x) => self.regs.get(x) < 16 && self.regs.pc <= usize::MAX - 2,
            Instr::AddIndex(x) => self.regs.i <= usize::MAX - self.regs.get(x) as usize,
            Instr::WaitKey(_) => self.keypad.being_pressed().is_some() || self.regs.pc >= 2,
            Instr::Draw(_, y, n) => {
                let oy = (self.regs.get(y) as usize) % DISPLAY_HEIGHT;
                let rows = if (n as usize) > DISPLAY_HEIGHT - oy {
                    DISPLAY_HEIGHT - oy
                } else {
                    n as usize
                };
                rows == 0 || self.regs.i <= MEMORY_SIZE - rows
            },
            Instr::StoreBcd(_) => self.regs.i <= MEMORY_SIZE - 3,
            Instr::StoreRegs(x) => self.regs.i < MEMORY_SIZE - x,
            Instr::LoadRegs(x) => self.regs.i < MEMORY_SIZE - x,
            _ => true,
        }
    }

    /// Decodes the opcode register and executes the one matching
    /// instruction, drawing the random byte itself when the instruction
    /// needs one.  An unknown word executes as a no-op, so a guest
    /// program cannot take the interpreter down; the result reports such
    /// a word so the embedder can log it.
    pub fn decode(&mut self) -> (unknown: bool)
        requires
            old(self).wf(),
            exec_safe(old(self)@, spec_decode(old(self)@.opcode)),
        ensures
            final(self).wf(),
            final(self).timing() == old(self).timing(),
            unknown == (spec_decode(old(self)@.opcode) matches Instr::Unknown(_)),
            (spec_decode(old(self)@.opcode) matches Instr::Random(_, _)) ==> exists|r: u8|
                final(self)@ == #[trigger] spec_exec(
                    old(self)@,
                    spec_decode(old(self)@.opcode),
                    r,
                ),
            !(spec_decode(old(self)@.opcode) matches Instr::Random(_, _)) ==> final(self)@
                == spec_exec(old(self)@, spec_decode(old(self)@.opcode), 0),
    {
        let instr = self.op.to_instr();
        proof {
            lemma_decode_ok(self.op.opcode);
        }
        let rand = match instr {
            Instr::Random(_, _) => random_byte(),
            _ => 0,
        };
        let unknown = match instr {
            Instr::Unknown(_) => true,
            _ => false,
        };
        self.execute(instr, rand);
        proof {
            if spec_decode(old(self)@.opcode) matches Instr::Random(_, _) {
                assert(self@ == spec_exec(
                    old(self)@,
                    spec_decode(old(self)@.opcode),
                    rand,
                ));
            }
        }
        unknown
    }

    /// Restarts the current ROM: the program counter returns to the start
    /// of the ROM region; nothing else changes.
    pub fn reset_rom(&mut self)
        requires
            old(self).wf(),
        ensures
            final(self).wf(),
            final(self)@ == (CpuView { pc: INITIAL_PC, ..old(self)@ }),
            final(self).timing() == old(self).timing(),
    {
        self.regs.reset_pc();
    }

    /// Raises the instruction clock's frequency by one step.  The two
    /// timer clocks run at their own fixed rate and are untouched.
    pub fn increase_clock(&mut self)
        requires
            old(self).wf(),
        ensures
            final(self).wf(),
            final(self)@ == old(self)@,
            final(self).instruction_clock().clock_hz == if old(self).instruction_clock().clock_hz
                + HZ_STEP <= u32::MAX {
                (old(self).instruction_clock().clock_hz + HZ_STEP) as u32
            } else {
                old(self).instruction_clock().clock_hz
            },
            final(self).instruction_clock().last_fire_micros == old(
                self,
            ).instruction_clock().last_fire_micros,
            final(self).delay_clock() == old(self).delay_clock(),
            final(self).sound_clock() == old(self).sound_clock(),
    {
        self.clock.increase_clock();
    }

    /// Lowers the instruction clock's frequency by one step, never below
    /// the floor.  The two timer clocks run at their own fixed rate and
    /// are untouched.
    pub fn decrease_clock(&mut self)
        requires
            old(self).wf(),
        ensures
            final(self).wf(),
            final(self)@ == old(self)@,
            final(self).instruction_clock().clock_hz == if old(self).instruction_clock().clock_hz
                > MIN_HZ {
                (old(self).instruction_clock().clock_hz - HZ_STEP) as u32
            } else {
                old(self).instruction_clock().clock_hz
            },
            final(self).instruction_clock().last_fire_micros == old(
                self,
            ).instruction_clock().last_fire_micros,
            final(self).delay_clock() == old(self).delay_clock(),
            final(self).sound_clock() == old(self).sound_clock(),
    {
        self.clock.decrease_clock();
    }

    /// Latches a key down.
    pub fn press_key(&mut self, key_index: usize)
        requires
            old(self).wf(),
            key_index < KEY_COUNT,
        ensures
            final(self).wf(),
            final(self)@ == (CpuView {
                keys: old(self)@.keys.update(key_index as int, true),
                ..old(self)@
            }),
            final(self).timing() == old(self).timing(),
    {
        self.keypad.press(key_index);
    }

    /// Releases a key.
    pub fn release_key(&mut self, key_index: usize)
        requires
            old(self).wf(),
            key_index < KEY_COUNT,
        ensures
            final(self).wf(),
            final(self)@ == (CpuView {
                keys: old(self)@.keys.update(key_index as int, false),
                ..old(self)@
            }),
            final(self).timing() == old(self).timing(),
    {
        self.keypad.release(key_index);
    }

    /// The delay timer's counter.
    pub fn get_delay_timer(&self) -> (r: u8)
        ensures
            r == self@.dt,
    {
        self.dt.tick
    }

    /// Sets the delay timer's counter.
    pub fn set_delay_timer(&mut self, tick: u8)
        requires
            old(self).wf(),
        ensures
            final(self).wf(),
            final(self)@ == (CpuView { dt: tick, ..old(self)@ }),
            final(self).timing() == old(self).timing(),
    {
        self.dt.tick = tick;
    }

    /// The sound timer's counter.
    pub fn get_sound_timer(&self) -> (r: u8)
        ensures
            r == self@.st,
    {
        self.st.tick
    }

    /// Sets the sound timer's counter.
    pub fn set_sound_timer(&mut self, tick: u8)
        requires
            old(self).wf(),
        ensures
            final(self).wf(),
            final(self)@ == (CpuView { st: tick, ..old(self)@ }),
            final(self).timing() == old(self).timing(),
    {
        self.st.tick = tick;
    }

    /// Polls the delay timer against the wall clock: it decrements,
    /// saturating at zero, when its own fixed-rate clock fires, and that
    /// clock's period then restarts at the reading.  The other two clocks
    /// are untouched.
    pub fn tick_delay_timer(&mut self) -> (fired: bool)
        requires
            old(self).wf(),
        ensures
            final(self).wf(),
            final(self)@ == (CpuView {
                dt: if fired && old(self)@.dt > 0 {
                    (old(self)@.dt - 1) as u8
                } else {
                    old(self)@.dt
                },
                ..old(self)@
            }),
            final(self).instruction_clock() == old(self).instruction_clock(),
            final(self).sound_clock() == old(self).sound_clock(),
            final(self).delay_clock().clock_hz == old(self).delay_clock().clock_hz,
            !fired ==> final(self).delay_clock() == old(self).delay_clock(),
            fired ==> exists|now: u64|
                #[trigger] old(self).delay_clock().spec_fires(now) && final(self).delay_clock()
                    == (Clock { last_fire_micros: now, ..old(self).delay_clock() }),
    {
        let fired = self.dt.tick();
        proof {
            if fired {
                let now = choose|now: u64|
                    #[trigger] old(self).dt.clock.spec_fires(now) && self.dt.clock == (Clock {
                        last_fire_micros: now,
                        ..old(self).dt.clock
                    });
                assert(old(self).delay_clock().spec_fires(now) && self.delay_clock() == (Clock {
                    last_fire_micros: now,
                    ..old(self).delay_clock()
                }));
            }
        }
        fired
    }

    /// Polls the sound timer against the wall clock, exactly as the delay
    /// timer is polled; the other two clocks are untouched.
    pub fn tick_sound_timer(&mut self) -> (fired: bool)
        requires
            old(self).wf(),
        ensures
            final(self).wf(),
            final(self)@ == (CpuView {
                st: if fired && old(self)@.st > 0 {
                    (old(self)@.st - 1) as u8
                } else {
                    old(self)@.st
                },
                ..old(self)@
            }),
            final(self).instruction_clock() == old(self).instruction_clock(),
            final(self).delay_clock() == old(self).delay_clock(),
            final(self).sound_clock().clock_hz == old(self).sound_clock().clock_hz,
            !fired ==> final(self).sound_clock() == old(self).sound_clock(),
            fired ==> exists|now: u64|
                #[trigger] old(self).sound_clock().spec_fires(now) && final(self).sound_clock()
                    == (Clock { last_fire_micros: now, ..old(self).sound_clock() }),
    {
        let fired = self.st.tick();
        proof {
            if fired {
                let now = choose|now: u64|
                    #[trigger] old(self).st.clock.spec_fires(now) && self.st.clock == (Clock {
                        last_fire_micros: now,
                        ..old(self).st.clock
                    });
                assert(old(self).sound_clock().spec_fires(now) && self.sound_clock() == (Clock {
                    last_fire_micros: now,
                    ..old(self).sound_clock()
                }));
            }
        }
        fired
    }

    /// Polls the instruction clock against the wall clock: true grants
    /// one instruction this iteration.  Machine state never changes, nor
    /// do the two timer clocks.
    pub fn tick(&mut self) -> (fired: bool)
        requires
            old(self).wf(),
        ensures
            final(self).wf(),
            final(self)@ == old(self)@,
            final(self).delay_clock() == old(self).delay_clock(),
            final(self).sound_clock() == old(self).sound_clock(),
            final(self).instruction_clock().clock_hz == old(
                self,
            ).instruction_clock().clock_hz,
            !fired ==> final(self).instruction_clock() == old(self).instruction_clock(),
            fired ==> exists|now: u64|
                #[trigger] old(self).instruction_clock().spec_fires(now)
                    && final(self).instruction_clock() == (Clock {
                    last_fire_micros: now,
                    ..old(self).instruction_clock()
                }),
    {
        let fired = self.clock.tick();
        proof {
            if fired {
                let now = choose|now: u64|
                    #[trigger] old(self).clock.spec_fires(now) && self.clock == (Clock {
                        last_fire_micros: now,
                        ..old(self).clock
                    });
                assert(old(self).instruction_clock().spec_fires(now) && self.instruction_clock()
                    == (Clock { last_fire_micros: now, ..old(self).instruction_clock() }));
            }
        }
        fired
    }

    /// Places a ROM image at the ROM region; an image larger than the
    /// space there is rejected and nothing changes.
    pub fn load_rom(&mut self, rom: &[u8]) -> (ok: bool)
        requires
            old(self).wf(),
        ensures
            final(self).wf(),
            ok == (rom@.len() <= MEMORY_SIZE - ROM_ADDRESS),
            ok ==> forall|k: int|
                0 <= k < rom@.len() ==> final(self)@.ram[ROM_ADDRESS + k] == rom@[k],
            ok ==> forall|a: int|
                0 <= a < MEMORY_SIZE && !(ROM_ADDRESS <= a < ROM_ADDRESS + rom@.len())
                    ==> final(self)@.ram[a] == old(self)@.ram[a],
            final(self)@.ram.len() == old(self)@.ram.len(),
            !ok ==> final(self)@ == old(self)@,
            final(self)@ == (CpuView { ram: final(self)@.ram, ..old(self)@ }),
            final(self).timing() == old(self).timing(),
    {
        self.ram.load_rom(rom)
    }

    /// A general register's value.
    pub fn get_register(&self, register: usize) -> (r: u8)
        requires
            self.wf(),
            register < REGISTER_COUNT,
        ensures
            r == self@.regs[register as int],
    {
        self.regs.get(register)
    }

    /// The program counter.
    pub fn get_pc(&self) -> (r: usize)
        ensures
            r == self@.pc,
    {
        self.regs.pc
    }

    /// The instruction word most recently fetched — what `decode` acted
    /// on, for the embedder's diagnostics on unknown words.
    pub fn get_opcode(&self) -> (r: u16)
        ensures
            r == self@.opcode,
    {
        self.op.opcode
    }

    /// The index register.
    pub fn get_index(&self) -> (r: usize)
        ensures
            r == self@.i,
    {
        self.regs.i
    }

    /// The renderer's zoom factor.
    pub fn get_display_scale(&self) -> (r: u32)
        ensures
            r == self.spec_display_scale(),
    {
        self.db.scale
    }

    pub closed spec fn spec_display_scale(&self) -> u32 {
        self.db.scale
    }

    /// A copy of the pixel grid, as columns of cells, for the renderer.
    pub fn get_display_buffer(&self) -> (g: Vec<Vec<bool>>)
        requires
            self.wf(),
        ensures
            g@.len() == DISPLAY_WIDTH,
            forall|cx: int| 0 <= cx < DISPLAY_WIDTH ==> (#[trigger] g@[cx])@.len()
                == DISPLAY_HEIGHT,
            forall|cx: int, cy: int|
                0 <= cx < DISPLAY_WIDTH && 0 <= cy < DISPLAY_HEIGHT ==> g@[cx]@[cy] == self@.grid[
                cell_index(cx, cy)],
    {
        let mut g: Vec<Vec<bool>> = Vec::new();
        let mut cx: usize = 0;
        while cx < DISPLAY_WIDTH
            invariant
                self.wf(),
                0 <= cx <= DISPLAY_WIDTH,
                g@.len() == cx,
                forall|a: int| 0 <= a < cx ==> (#[trigger] g@[a])@.len() == DISPLAY_HEIGHT,
                forall|a: int, b: int|
                    0 <= a < cx && 0 <= b < DISPLAY_HEIGHT ==> g@[a]@[b] == self@.grid[cell_index(
                        a,
                        b,
                    )],
            decreases DISPLAY_WIDTH - cx,
        {
            let mut col: Vec<bool> = Vec::new();
            let mut cy: usize = 0;
            while cy < DISPLAY_HEIGHT
                invariant
                    self.wf(),
                    cx < DISPLAY_WIDTH,
                    0 <= cy <= DISPLAY_HEIGHT,
                    col@.len() == cy,
                    forall|b: int|
                        0 <= b < cy ==> col@[b] == self@.grid[cell_index(cx as int, b)],
                decreases DISPLAY_HEIGHT - cy,
            {
                col.push(self.db.get(cx, cy));
                cy += 1;
            }
            g.push(col);
            cx += 1;
        }
        g
    }
}

/// Law: every instruction that executes without a fatal error preserves
/// the machine's dimensions — sixteen registers, 4096 memory bytes,
/// sixteen key latches and the full pixel grid — whatever the random
/// byte.
pub proof fn lemma_exec_preserves_wf(s: CpuView, instr: Instr, rand: u8)
    requires
        view_wf(s),
        instr_ok(instr),
        exec_safe(s, instr),
    ensures
        view_wf(spec_exec(s, instr, rand)),
{
    match instr {
        Instr::Ret => {
            if s.stack.len() > 0 {
                assert(view_wf(spec_exec(s, instr, rand)));
            }
        },
        Instr::WaitKey(x) => {
            match first_key_from(s.keys, 0) {
                Some(k) => {
                    assert(view_wf(spec_exec(s, instr, rand)));
                },
                None => {
                    assert(view_wf(spec_exec(s, instr, rand)));
                },
            }
        },
        _ => {},
    }
}

/// Law: one fetch preserves the machine's dimensions too.
pub proof fn lemma_fetch_preserves_wf(s: CpuView)
    requires
        view_wf(s),
    ensures
        view_wf(spec_fetch(s)),
{
}

/// Law: the block-for-key instruction holds the machine in place.  When
/// the word at the program counter decodes to the wait-for-key instruction
/// and no key is latched, a whole fetch-and-execute cycle brings the
/// machine back to where it was: the program counter points at the same
/// instruction again, and nothing changes but the opcode register.
pub proof fn lemma_wait_key_blocks(s: CpuView, rand: u8)
    requires
        view_wf(s),
        s.pc + 1 < MEMORY_SIZE,
        spec_decode(word_at(s)) matches Instr::WaitKey(_),
        forall|k: int| 0 <= k < KEY_COUNT ==> !s.keys[k],
    ensures
        spec_exec(spec_fetch(s), spec_decode(word_at(s)), rand) == (CpuView {
            opcode: word_at(s),
            ..s
        }),
{
    lemma_first_key_from(s.keys, 0);
    if let Some(idx) = first_key_from(s.keys, 0) {
        assert(s.keys[idx as int]);
        assert(false);
    }
}

} // verus!
