//! The CPU: owns memory, registers, call stack, program counter, timers and
//! key pad, and implements the fetch-decode-execute cycle over the CHIP-8
//! instruction set. The host owns the display surface and passes it into
//! each cycle; rendering and event polling happen outside this crate.

use vstd::prelude::*;

use crate::display::Display;
use crate::display::draw_collision;
use crate::display::draw_covered;
use crate::display::draw_surface;
use crate::display::flip01;
use crate::display::lemma_rowmajor;
use crate::display::lemma_rowmajor_bound;
use crate::display::sprite_bit;
use crate::keypad::Key;
use crate::keypad::Keypad;
use crate::keypad::lowest_down;
use crate::keypad::spec_key_index;
use crate::memory::FONT_BASE;
use crate::memory::MEMORY_SIZE;
use crate::memory::Memory;
use crate::memory::read16;
use crate::opcode::Opcode;
use crate::opcode::lemma_nibbles_recompose;
use crate::opcode::nib_category;
use crate::opcode::nib_n;
use crate::opcode::nib_x;
use crate::opcode::nib_y;
use crate::opcode::word_kk;
use crate::opcode::word_nnn;
use crate::program_counter::PROGRAM_START;
use crate::program_counter::ProgramCounter;
use crate::stack::Stack;
use crate::timer::Timer;
use crate::timer::tick1;

verus! {

/// The largest program image that fits between the load address and the end
/// of memory.
pub const MAX_ROM_SIZE: usize = 3584;

/// A fatal machine fault: the current program cannot continue.
#[derive(Clone, Copy, Debug, PartialEq, Eq)]
pub enum Chip8Error {
    /// A memory access (fetch, sprite read, register dump or load, or BCD
    /// store) would touch an address at or past the end of memory. Carries
    /// the base address of the faulting access.
    OutOfBounds(u16),
    /// A subroutine return was executed with no frame on the call stack.
    StackUnderflow,
    /// A key-state instruction named a key index past `0xF`. Carries the
    /// offending register value.
    KeyOutOfRange(u8),
    /// A program image larger than `MAX_ROM_SIZE` bytes was offered; nothing
    /// was loaded.
    RomTooLarge,
}

/// What one successful cycle did, for the host: whether the display surface
/// changed in a way that asks for an immediate refresh, and the fetched
/// instruction word if it matched no known pattern (a soft no-op).
#[derive(Clone, Copy, Debug, PartialEq, Eq)]
pub struct CycleOutcome {
    pub redraw: bool,
    pub unsupported: Option<u16>,
}

/// The parts of the machine no register or jump instruction touches:
/// memory, call stack, both timers, and the key pad.
pub open spec fn frame_core(pre: Chip8, post: Chip8) -> bool {
    &&& post.spec_mem() == pre.spec_mem()
    &&& post.spec_stack() == pre.spec_stack()
    &&& post.spec_delay() == pre.spec_delay()
    &&& post.spec_sound() == pre.spec_sound()
    &&& post.spec_keys() == pre.spec_keys()
    &&& post.spec_latch() == pre.spec_latch()
}

/// Everything but the call stack is untouched.
pub open spec fn frame_stack_op(pre: Chip8, post: Chip8) -> bool {
    &&& post.spec_mem() == pre.spec_mem()
    &&& post.spec_delay() == pre.spec_delay()
    &&& post.spec_sound() == pre.spec_sound()
    &&& post.spec_keys() == pre.spec_keys()
    &&& post.spec_latch() == pre.spec_latch()
}

/// Everything but the timers is untouched.
pub open spec fn frame_timer_op(pre: Chip8, post: Chip8) -> bool {
    &&& post.spec_mem() == pre.spec_mem()
    &&& post.spec_stack() == pre.spec_stack()
    &&& post.spec_keys() == pre.spec_keys()
    &&& post.spec_latch() == pre.spec_latch()
}

/// Everything but memory is untouched.
pub open spec fn frame_mem_op(pre: Chip8, post: Chip8) -> bool {
    &&& post.spec_stack() == pre.spec_stack()
    &&& post.spec_delay() == pre.spec_delay()
    &&& post.spec_sound() == pre.spec_sound()
    &&& post.spec_keys() == pre.spec_keys()
    &&& post.spec_latch() == pre.spec_latch()
}

/// Everything but the key pad's wait latch is untouched.
pub open spec fn frame_latch_op(pre: Chip8, post: Chip8) -> bool {
    &&& post.spec_mem() == pre.spec_mem()
    &&& post.spec_stack() == pre.spec_stack()
    &&& post.spec_delay() == pre.spec_delay()
    &&& post.spec_sound() == pre.spec_sound()
    &&& post.spec_keys() == pre.spec_keys()
}

/// Memory after `Fx55`: the bytes at `i0` through `i0 + x` hold registers
/// `V0` through `Vx`; everything else is untouched.
pub open spec fn mem_after_store(mem: Seq<u8>, i0: int, regs: Seq<u8>, x: int) -> Seq<u8> {
    Seq::new(
        mem.len(),
        |k: int|
            if i0 <= k <= i0 + x {
                regs[k - i0]
            } else {
                mem[k]
            },
    )
}

/// Registers after `Fx65`: `V0` through `Vx` hold the bytes at `i0` through
/// `i0 + x`; the higher registers are untouched.
pub open spec fn regs_after_load(regs: Seq<u8>, mem: Seq<u8>, i0: int, x: int) -> Seq<u8> {
    Seq::new(
        regs.len(),
        |k: int|
            if 0 <= k <= x {
                mem[i0 + k]
            } else {
                regs[k]
            },
    )
}

/// Round trip of the register dump and load: storing `V0..Vx` at `i0` and
/// then loading `V0..Vx` back from `i0` — whatever the registers held in
/// between — reproduces the stored values exactly.
pub proof fn lemma_store_load_round_trip(
    regs: Seq<u8>,
    fresh: Seq<u8>,
    mem: Seq<u8>,
    i0: int,
    x: int,
)
    requires
        regs.len() == 16,
        fresh.len() == 16,
        0 <= x < 16,
        0 <= i0,
        i0 + x < mem.len(),
    ensures
        forall|k: int|
            0 <= k <= x ==> regs_after_load(fresh, mem_after_store(mem, i0, regs, x), i0, x)[k]
                == regs[k],
{
}

/// How many sprite rows are actually drawn: the sprite's `n` rows, clipped
/// to the rows that fit between `y0` and the bottom edge of an `h`-row grid.
pub open spec fn spec_draw_rows(n: int, h: int, y0: int) -> int {
    if n <= h - y0 {
        n
    } else {
        h - y0
    }
}

/// The draw origin column of `Dxyn`: `Vx` wrapped to the grid width.
pub open spec fn dxyn_x0(pre: Chip8, d: Display, op: Opcode) -> int {
    (pre.spec_regs()[op.x as int] as int) % (d.spec_width() as int)
}

/// The draw origin row of `Dxyn`: `Vy` wrapped to the grid height.
pub open spec fn dxyn_y0(pre: Chip8, d: Display, op: Opcode) -> int {
    (pre.spec_regs()[op.y as int] as int) % (d.spec_height() as int)
}

/// The number of sprite rows `Dxyn` draws after clipping.
pub open spec fn dxyn_rows(pre: Chip8, d: Display, op: Opcode) -> int {
    spec_draw_rows(op.n as int, d.spec_height() as int, dxyn_y0(pre, d, op))
}

/// The sprite bytes `Dxyn` reads: one byte per drawn row, starting at the
/// index register.
pub open spec fn dxyn_sprite(pre: Chip8, d: Display, op: Opcode) -> Seq<u8> {
    pre.spec_mem().subrange(
        pre.spec_index() as int,
        pre.spec_index() + dxyn_rows(pre, d, op),
    )
}

/// Whether every sprite byte `Dxyn` would read lies inside memory.
pub open spec fn dxyn_in_bounds(pre: Chip8, d: Display, op: Opcode) -> bool {
    pre.spec_index() + dxyn_rows(pre, d, op) <= MEMORY_SIZE
}

/// Whether the draw loop has already visited cell `(px, py)` when it stands
/// at sprite row `r`, column `c`: full rows before `r`, plus the first `c`
/// columns of row `r`.
spec fn dxyn_processed(
    w: int,
    h: int,
    x0: int,
    y0: int,
    nrows: int,
    r: int,
    c: int,
    px: int,
    py: int,
) -> bool {
    &&& draw_covered(w, h, x0, y0, nrows, px, py)
    &&& (py - y0 < r || (py - y0 == r && px - x0 < c))
}

/// The surface byte at cell index `k` once the draw loop stands at sprite
/// row `r`, column `c`: visited cells under a set sprite bit are flipped,
/// everything else still holds its original value.
spec fn dxyn_cell_at(
    pre_s: Seq<u8>,
    spr: Seq<u8>,
    w: int,
    h: int,
    x0: int,
    y0: int,
    r: int,
    c: int,
    k: int,
) -> u8 {
    let px = k % w;
    let py = k / w;
    if dxyn_processed(w, h, x0, y0, spr.len() as int, r, c, px, py) && sprite_bit(
        spr[py - y0],
        px - x0,
    ) == 1 {
        flip01(pre_s[k])
    } else {
        pre_s[k]
    }
}

/// Whether any visited cell so far collided: a set sprite bit over a pixel
/// that was already on.
spec fn dxyn_partial_collision(
    pre_s: Seq<u8>,
    spr: Seq<u8>,
    w: int,
    h: int,
    x0: int,
    y0: int,
    r: int,
    c: int,
) -> bool {
    exists|py: int, px: int|
        dxyn_processed(w, h, x0, y0, spr.len() as int, r, c, px, py) && sprite_bit(
            spr[py - y0],
            px - x0,
        ) == 1 && pre_s[px + py * w] == 1
}

/// Before any cell is visited the surface is untouched and nothing has
/// collided.
proof fn lemma_dxyn_start(pre_s: Seq<u8>, spr: Seq<u8>, w: int, h: int, x0: int, y0: int)
    requires
        0 <= y0,
        0 <= x0,
    ensures
        forall|k: int|
            0 <= k < pre_s.len() ==> dxyn_cell_at(pre_s, spr, w, h, x0, y0, 0, 0, k) == pre_s[k],
        !dxyn_partial_collision(pre_s, spr, w, h, x0, y0, 0, 0),
{
    assert forall|py: int, px: int|
        !dxyn_processed(w, h, x0, y0, spr.len() as int, 0, 0, px, py) by {}
}

/// Moving the draw loop one column forward changes the visited set by at
/// most the single cell `(x0 + c, y0 + r)`, and only when that cell is on
/// the grid and its sprite bit is set.
proof fn lemma_dxyn_cell_step(
    pre_s: Seq<u8>,
    spr: Seq<u8>,
    w: int,
    h: int,
    x0: int,
    y0: int,
    r: int,
    c: int,
    c1: int,
    idx: int,
)
    requires
        w >= 1,
        h >= 1,
        0 <= x0 < w,
        0 <= y0,
        y0 + spr.len() <= h,
        pre_s.len() == w * h,
        0 <= r < spr.len(),
        0 <= c < 8,
        c1 == c + 1,
        idx == (x0 + c) + (y0 + r) * w,
    ensures
        forall|k: int|
            0 <= k < pre_s.len() ==> dxyn_cell_at(pre_s, spr, w, h, x0, y0, r, c1, k) == (
            if k == idx && x0 + c < w && sprite_bit(spr[r], c) == 1 {
                flip01(pre_s[k])
            } else {
                dxyn_cell_at(pre_s, spr, w, h, x0, y0, r, c, k)
            }),
{
    assert forall|k: int| 0 <= k < pre_s.len() implies dxyn_cell_at(
        pre_s,
        spr,
        w,
        h,
        x0,
        y0,
        r,
        c1,
        k,
    ) == (if k == idx && x0 + c < w && sprite_bit(spr[r], c) == 1 {
        flip01(pre_s[k])
    } else {
        dxyn_cell_at(pre_s, spr, w, h, x0, y0, r, c, k)
    }) by {
        let px = k % w;
        let py = k / w;
        assert(0 <= px < w && 0 <= py < h && px + py * w == k) by (nonlinear_arith)
            requires
                w >= 1,
                h >= 1,
                0 <= k < w * h,
                px == k % w,
                py == k / w,
        ;
        if x0 + c < w {
            lemma_rowmajor(x0 + c, y0 + r, w);
            if k == idx {
                assert(px == x0 + c && py == y0 + r);
            } else {
                assert(!(px == x0 + c && py == y0 + r));
            }
        }
    }
}

/// Moving one column forward adds a collision exactly when the cell
/// `(x0 + c, y0 + r)` is on the grid, its sprite bit is set, and the pixel
/// under it was already on.
proof fn lemma_dxyn_coll_step(
    pre_s: Seq<u8>,
    spr: Seq<u8>,
    w: int,
    h: int,
    x0: int,
    y0: int,
    r: int,
    c: int,
)
    requires
        w >= 1,
        h >= 1,
        0 <= x0 < w,
        0 <= y0,
        y0 + spr.len() <= h,
        pre_s.len() == w * h,
        0 <= r < spr.len(),
        0 <= c < 8,
    ensures
        dxyn_partial_collision(pre_s, spr, w, h, x0, y0, r, c + 1) == (dxyn_partial_collision(
            pre_s,
            spr,
            w,
            h,
            x0,
            y0,
            r,
            c,
        ) || (x0 + c < w && sprite_bit(spr[r], c) == 1 && pre_s[(x0 + c) + (y0 + r) * w] == 1)),
{
    let nrows = spr.len() as int;
    let c1 = c + 1;
    if dxyn_partial_collision(pre_s, spr, w, h, x0, y0, r, c) {
        let (py, px): (int, int) = choose|py: int, px: int|
            dxyn_processed(w, h, x0, y0, nrows, r, c, px, py) && sprite_bit(spr[py - y0], px - x0)
                == 1 && pre_s[px + py * w] == 1;
        assert(dxyn_processed(w, h, x0, y0, nrows, r, c1, px, py));
        assert(dxyn_partial_collision(pre_s, spr, w, h, x0, y0, r, c1));
    }
    if x0 + c < w && sprite_bit(spr[r], c) == 1 && pre_s[(x0 + c) + (y0 + r) * w] == 1 {
        let px = x0 + c;
        let py = y0 + r;
        assert(dxyn_processed(w, h, x0, y0, nrows, r, c1, px, py));
        assert(dxyn_partial_collision(pre_s, spr, w, h, x0, y0, r, c1));
    }
    if dxyn_partial_collision(pre_s, spr, w, h, x0, y0, r, c1) {
        let (py, px): (int, int) = choose|py: int, px: int|
            dxyn_processed(w, h, x0, y0, nrows, r, c1, px, py) && sprite_bit(
                spr[py - y0],
                px - x0,
            ) == 1 && pre_s[px + py * w] == 1;
        if dxyn_processed(w, h, x0, y0, nrows, r, c, px, py) {
            assert(dxyn_partial_collision(pre_s, spr, w, h, x0, y0, r, c));
        } else {
            assert(px == x0 + c && py == y0 + r);
        }
    }
}

/// When the column loop stops — after eight columns or at the right edge —
/// the visited set is exactly the one the next row starts from.
proof fn lemma_dxyn_row_step(
    pre_s: Seq<u8>,
    spr: Seq<u8>,
    w: int,
    h: int,
    x0: int,
    y0: int,
    r: int,
    c_end: int,
)
    requires
        w >= 1,
        h >= 1,
        0 <= x0 < w,
        0 <= y0,
        y0 + spr.len() <= h,
        pre_s.len() == w * h,
        0 <= r < spr.len(),
        0 <= c_end <= 8,
        c_end == 8 || x0 + c_end >= w,
    ensures
        forall|k: int|
            0 <= k < pre_s.len() ==> dxyn_cell_at(pre_s, spr, w, h, x0, y0, r, c_end, k)
                == dxyn_cell_at(pre_s, spr, w, h, x0, y0, r + 1, 0, k),
        dxyn_partial_collision(pre_s, spr, w, h, x0, y0, r, c_end) == dxyn_partial_collision(
            pre_s,
            spr,
            w,
            h,
            x0,
            y0,
            r + 1,
            0,
        ),
{
    let nrows = spr.len() as int;
    let r1 = r + 1;
    assert forall|py: int, px: int|
        dxyn_processed(w, h, x0, y0, nrows, r, c_end, px, py) == dxyn_processed(
            w,
            h,
            x0,
            y0,
            nrows,
            r1,
            0,
            px,
            py,
        ) by {}
    if dxyn_partial_collision(pre_s, spr, w, h, x0, y0, r, c_end) {
        let (py, px): (int, int) = choose|py: int, px: int|
            dxyn_processed(w, h, x0, y0, nrows, r, c_end, px, py) && sprite_bit(
                spr[py - y0],
                px - x0,
            ) == 1 && pre_s[px + py * w] == 1;
        assert(dxyn_processed(w, h, x0, y0, nrows, r1, 0, px, py));
    }
    if dxyn_partial_collision(pre_s, spr, w, h, x0, y0, r1, 0) {
        let (py, px): (int, int) = choose|py: int, px: int|
            dxyn_processed(w, h, x0, y0, nrows, r1, 0, px, py) && sprite_bit(
                spr[py - y0],
                px - x0,
            ) == 1 && pre_s[px + py * w] == 1;
        assert(dxyn_processed(w, h, x0, y0, nrows, r, c_end, px, py));
    }
}

/// Once every sprite row has been visited, the loop's pointwise picture is
/// exactly the drawn surface, and its collision flag is exactly the draw's
/// collision verdict.
proof fn lemma_dxyn_finish(pre_s: Seq<u8>, spr: Seq<u8>, w: int, h: int, x0: int, y0: int)
    requires
        w >= 1,
        h >= 1,
        0 <= x0 < w,
        0 <= y0,
        y0 + spr.len() <= h,
        pre_s.len() == w * h,
    ensures
        forall|k: int|
            0 <= k < pre_s.len() ==> dxyn_cell_at(pre_s, spr, w, h, x0, y0, spr.len() as int, 0, k)
                == draw_surface(pre_s, spr, w, h, x0, y0)[k],
        dxyn_partial_collision(pre_s, spr, w, h, x0, y0, spr.len() as int, 0) == draw_collision(
            pre_s,
            spr,
            w,
            h,
            x0,
            y0,
        ),
{
    let nrows = spr.len() as int;
    assert forall|py: int, px: int|
        dxyn_processed(w, h, x0, y0, nrows, nrows, 0, px, py) == draw_covered(
            w,
            h,
            x0,
            y0,
            nrows,
            px,
            py,
        ) by {}
    if dxyn_partial_collision(pre_s, spr, w, h, x0, y0, nrows, 0) {
        let (py, px): (int, int) = choose|py: int, px: int|
            dxyn_processed(w, h, x0, y0, nrows, nrows, 0, px, py) && sprite_bit(
                spr[py - y0],
                px - x0,
            ) == 1 && pre_s[px + py * w] == 1;
        assert(draw_covered(w, h, x0, y0, nrows, px, py) && sprite_bit(spr[py - y0], px - x0)
            == 1 && pre_s[px + py * w] == 1);
    }
    if draw_collision(pre_s, spr, w, h, x0, y0) {
        let (py, px): (int, int) = choose|py: int, px: int|
            draw_covered(w, h, x0, y0, nrows, px, py) && sprite_bit(spr[py - y0], px - x0) == 1
                && pre_s[px + py * w] == 1;
        assert(dxyn_processed(w, h, x0, y0, nrows, nrows, 0, px, py));
        assert(dxyn_partial_collision(pre_s, spr, w, h, x0, y0, nrows, 0));
    }
}

/// Relies on `rand::random`: draws a value of the requested type from the
/// thread-local generator. Nothing can be promised of the result.
pub assume_specification<T>[ rand::random::<T> ]() -> (r: T)
    where
        rand::distributions::Standard: rand::distributions::Distribution<T>,
;

/// Both timers one tick further down.
pub open spec fn ticked(pre: Chip8, post: Chip8) -> bool {
    &&& post.spec_delay() == tick1(pre.spec_delay())
    &&& post.spec_sound() == tick1(pre.spec_sound())
}

/// What an ordinary instruction's cycle leaves alone: memory, call stack
/// and key pad; the timers have ticked once.
pub open spec fn cycle_frame(pre: Chip8, post: Chip8) -> bool {
    &&& post.spec_mem() == pre.spec_mem()
    &&& post.spec_stack() == pre.spec_stack()
    &&& post.spec_keys() == pre.spec_keys()
    &&& post.spec_latch() == pre.spec_latch()
    &&& ticked(pre, post)
}

/// A cycle that completed with nothing for the host to do.
pub open spec fn res_plain(r: Result<CycleOutcome, Chip8Error>) -> bool {
    r == Ok::<CycleOutcome, Chip8Error>(CycleOutcome { redraw: false, unsupported: None })
}

/// The registers after `Cxkk` with the drawn byte `b`.
pub open spec fn cxkk_post(pre_regs: Seq<u8>, post_regs: Seq<u8>, x: int, kk: u8, b: u8) -> bool {
    post_regs == pre_regs.update(x, b & kk)
}

/// The two machines are the same in every observable part.
pub open spec fn same_state(pre: Chip8, post: Chip8) -> bool {
    &&& post.spec_regs() == pre.spec_regs()
    &&& post.spec_pc() == pre.spec_pc()
    &&& post.spec_index() == pre.spec_index()
    &&& frame_core(pre, post)
}

/// The two displays have the same size and the same pixels.
pub open spec fn same_display(pre: Display, post: Display) -> bool {
    &&& post.spec_width() == pre.spec_width()
    &&& post.spec_height() == pre.spec_height()
    &&& post.spec_surface() == pre.spec_surface()
}

/// What one call of `emulate_cycle` does, given that the fetch itself was
/// in bounds: the effect of the instruction word `w`, branch by branch in
/// the dispatcher's order. Faults leave the machine and the display exactly
/// as they were; every completed cycle ends with both timers ticked once.
pub open spec fn cycle_rel_decoded(
    pre: Chip8,
    dpre: Display,
    post: Chip8,
    dpost: Display,
    r: Result<CycleOutcome, Chip8Error>,
    w: u16,
) -> bool {
    let c = nib_category(w);
    let x = nib_x(w);
    let y = nib_y(w);
    let n = nib_n(w);
    let kk = word_kk(w);
    let nnn = word_nnn(w);
    let pc2 = pre.spec_pc() + 2;
    let regs = pre.spec_regs();
    if c == 0x0 && x == 0 && y == 0xE && n == 0x0 {
        // 00E0: clear the display
        &&& res_plain(r)
        &&& post.spec_regs() == regs
        &&& post.spec_pc() == pc2
        &&& post.spec_index() == pre.spec_index()
        &&& cycle_frame(pre, post)
        &&& dpost.spec_width() == dpre.spec_width()
        &&& dpost.spec_height() == dpre.spec_height()
        &&& dpost.spec_surface().len() == dpre.spec_surface().len()
        &&& forall|k: int| 0 <= k < dpost.spec_surface().len() ==> dpost.spec_surface()[k] == 0
    } else if c == 0x0 && x == 0 && y == 0xE && n == 0xE {
        // 00EE: return from subroutine
        if pre.spec_stack().len() == 0 {
            &&& r == Err::<CycleOutcome, Chip8Error>(Chip8Error::StackUnderflow)
            &&& same_state(pre, post)
            &&& same_display(dpre, dpost)
        } else {
            &&& res_plain(r)
            &&& post.spec_pc() == pre.spec_stack().last()
            &&& post.spec_stack() == pre.spec_stack().drop_last()
            &&& post.spec_regs() == regs
            &&& post.spec_index() == pre.spec_index()
            &&& post.spec_mem() == pre.spec_mem()
            &&& post.spec_keys() == pre.spec_keys()
            &&& post.spec_latch() == pre.spec_latch()
            &&& ticked(pre, post)
            &&& same_display(dpre, dpost)
        }
    } else if c == 0x1 {
        // 1nnn: jump
        &&& res_plain(r)
        &&& post.spec_pc() == nnn
        &&& post.spec_regs() == regs
        &&& post.spec_index() == pre.spec_index()
        &&& cycle_frame(pre, post)
        &&& same_display(dpre, dpost)
    } else if c == 0x2 {
        // 2nnn: call subroutine
        &&& res_plain(r)
        &&& post.spec_stack() == pre.spec_stack().push((pc2) as u16)
        &&& post.spec_pc() == nnn
        &&& post.spec_regs() == regs
        &&& post.spec_index() == pre.spec_index()
        &&& post.spec_mem() == pre.spec_mem()
        &&& post.spec_keys() == pre.spec_keys()
        &&& post.spec_latch() == pre.spec_latch()
        &&& ticked(pre, post)
        &&& same_display(dpre, dpost)
    } else if c == 0x3 {
        // 3xkk: skip if Vx == kk
        &&& res_plain(r)
        &&& post.spec_pc() == if regs[x] == kk {
            pc2 + 2
        } else {
            pc2
        }
        &&& post.spec_regs() == regs
        &&& post.spec_index() == pre.spec_index()
        &&& cycle_frame(pre, post)
        &&& same_display(dpre, dpost)
    } else if c == 0x4 {
        // 4xkk: skip if Vx != kk
        &&& res_plain(r)
        &&& post.spec_pc() == if regs[x] != kk {
            pc2 + 2
        } else {
            pc2
        }
        &&& post.spec_regs() == regs
        &&& post.spec_index() == pre.spec_index()
        &&& cycle_frame(pre, post)
        &&& same_display(dpre, dpost)
    } else if c == 0x5 {
        // 5xy0: skip if Vx == Vy
        &&& res_plain(r)
        &&& post.spec_pc() == if regs[x] == regs[y] {
            pc2 + 2
        } else {
            pc2
        }
        &&& post.spec_regs() == regs
        &&& post.spec_index() == pre.spec_index()
        &&& cycle_frame(pre, post)
        &&& same_display(dpre, dpost)
    } else if c == 0x6 {
        // 6xkk: Vx = kk
        &&& res_plain(r)
        &&& post.spec_regs() == regs.update(x, kk)
        &&& post.spec_pc() == pc2
        &&& post.spec_index() == pre.spec_index()
        &&& cycle_frame(pre, post)
        &&& same_display(dpre, dpost)
    } else if c == 0x7 {
        // 7xkk: Vx += kk, wrapping, no flag
        &&& res_plain(r)
        &&& post.spec_regs() == regs.update(x, ((regs[x] + kk) % 256) as u8)
        &&& post.spec_pc() == pc2
        &&& post.spec_index() == pre.spec_index()
        &&& cycle_frame(pre, post)
        &&& same_display(dpre, dpost)
    } else if c == 0x8 && n == 0x0 {
        // 8xy0: Vx = Vy
        &&& res_plain(r)
        &&& post.spec_regs() == regs.update(x, regs[y])
        &&& post.spec_pc() == pc2
        &&& post.spec_index() == pre.spec_index()
        &&& cycle_frame(pre, post)
        &&& same_display(dpre, dpost)
    } else if c == 0x8 && n == 0x1 {
        // 8xy1: Vx |= Vy, VF cleared first
        &&& res_plain(r)
        &&& post.spec_regs() == {
            let base = regs.update(15, 0u8);
            base.update(x, base[x] | base[y])
        }
        &&& post.spec_pc() == pc2
        &&& post.spec_index() == pre.spec_index()
        &&& cycle_frame(pre, post)
        &&& same_display(dpre, dpost)
    } else if c == 0x8 && n == 0x2 {
        // 8xy2: Vx &= Vy, VF cleared first
        &&& res_plain(r)
        &&& post.spec_regs() == {
            let base = regs.update(15, 0u8);
            base.update(x, base[x] & base[y])
        }
        &&& post.spec_pc() == pc2
        &&& post.spec_index() == pre.spec_index()
        &&& cycle_frame(pre, post)
        &&& same_display(dpre, dpost)
    } else if c == 0x8 && n == 0x3 {
        // 8xy3: Vx ^= Vy, VF cleared first
        &&& res_plain(r)
        &&& post.spec_regs() == {
            let base = regs.update(15, 0u8);
            base.update(x, base[x] ^ base[y])
        }
        &&& post.spec_pc() == pc2
        &&& post.spec_index() == pre.spec_index()
        &&& cycle_frame(pre, post)
        &&& same_display(dpre, dpost)
    } else if c == 0x8 && n == 0x4 {
        // 8xy4: Vx += Vy with carry in VF
        &&& res_plain(r)
        &&& post.spec_regs() == {
            let sum = regs[x] + regs[y];
            regs.update(x, (sum % 256) as u8).update(
                15,
                if sum > 255 {
                    1u8
                } else {
                    0u8
                },
            )
        }
        &&& post.spec_pc() == pc2
        &&& post.spec_index() == pre.spec_index()
        &&& cycle_frame(pre, post)
        &&& same_display(dpre, dpost)
    } else if c == 0x8 && n == 0x5 {
        // 8xy5: Vx -= Vy with no-borrow flag in VF
        &&& res_plain(r)
        &&& post.spec_regs() == {
            let vx = regs[x];
            let vy = regs[y];
            regs.update(x, ((vx - vy + 256) % 256) as u8).update(
                15,
                if vx >= vy {
                    1u8
                } else {
                    0u8
                },
            )
        }
        &&& post.spec_pc() == pc2
        &&& post.spec_index() == pre.spec_index()
        &&& cycle_frame(pre, post)
        &&& same_display(dpre, dpost)
    } else if c == 0x8 && n == 0x6 {
        // 8xy6: Vx = Vy >> 1, VF = bit shifted out
        &&& res_plain(r)
        &&& post.spec_regs() == {
            let vy = regs[y];
            regs.update(x, (vy / 2) as u8).update(15, (vy % 2) as u8)
        }
        &&& post.spec_pc() == pc2
        &&& post.spec_index() == pre.spec_index()
        &&& cycle_frame(pre, post)
        &&& same_display(dpre, dpost)
    } else if c == 0x8 && n == 0x7 {
        // 8xy7: Vx = Vy - Vx with no-borrow flag in VF
        &&& res_plain(r)
        &&& post.spec_regs() == {
            let vx = regs[x];
            let vy = regs[y];
            regs.update(x, ((vy - vx + 256) % 256) as u8).update(
                15,
                if vy >= vx {
                    1u8
                } else {
                    0u8
                },
            )
        }
        &&& post.spec_pc() == pc2
        &&& post.spec_index() == pre.spec_index()
        &&& cycle_frame(pre, post)
        &&& same_display(dpre, dpost)
    } else if c == 0x8 && n == 0xE {
        // 8xyE: Vx = Vy << 1, VF = bit shifted out
        &&& res_plain(r)
        &&& post.spec_regs() == {
            let vy = regs[y];
            regs.update(x, ((vy * 2) % 256) as u8).update(15, (vy / 128) as u8)
        }
        &&& post.spec_pc() == pc2
        &&& post.spec_index() == pre.spec_index()
        &&& cycle_frame(pre, post)
        &&& same_display(dpre, dpost)
    } else if c == 0x9 {
        // 9xy0: skip if Vx != Vy
        &&& res_plain(r)
        &&& post.spec_pc() == if regs[x] != regs[y] {
            pc2 + 2
        } else {
            pc2
        }
        &&& post.spec_regs() == regs
        &&& post.spec_index() == pre.spec_index()
        &&& cycle_frame(pre, post)
        &&& same_display(dpre, dpost)
    } else if c == 0xA {
        // Annn: I = nnn
        &&& res_plain(r)
        &&& post.spec_index() == nnn
        &&& post.spec_regs() == regs
        &&& post.spec_pc() == pc2
        &&& cycle_frame(pre, post)
        &&& same_display(dpre, dpost)
    } else if c == 0xB {
        // Bnnn: jump to nnn + V0
        &&& res_plain(r)
        &&& post.spec_pc() == nnn + regs[0]
        &&& post.spec_regs() == regs
        &&& post.spec_index() == pre.spec_index()
        &&& cycle_frame(pre, post)
        &&& same_display(dpre, dpost)
    } else if c == 0xC {
        // Cxkk: Vx = random byte AND kk
        &&& res_plain(r)
        &&& exists|b: u8| cxkk_post(regs, post.spec_regs(), x, kk, b)
        &&& post.spec_pc() == pc2
        &&& post.spec_index() == pre.spec_index()
        &&& cycle_frame(pre, post)
        &&& same_display(dpre, dpost)
    } else if c == 0xD {
        // Dxyn: draw a sprite, collision in VF
        let wd = dpre.spec_width() as int;
        let hd = dpre.spec_height() as int;
        let x0 = (regs[x] as int) % wd;
        let y0 = (regs[y] as int) % hd;
        let rows = spec_draw_rows(n as int, hd, y0);
        let i0 = pre.spec_index() as int;
        if i0 + rows > MEMORY_SIZE {
            &&& r == Err::<CycleOutcome, Chip8Error>(
                Chip8Error::OutOfBounds(pre.spec_index()),
            )
            &&& same_state(pre, post)
            &&& same_display(dpre, dpost)
        } else {
            let spr = pre.spec_mem().subrange(i0, i0 + rows);
            &&& r == Ok::<CycleOutcome, Chip8Error>(
                CycleOutcome { redraw: true, unsupported: None },
            )
            &&& dpost.spec_width() == dpre.spec_width()
            &&& dpost.spec_height() == dpre.spec_height()
            &&& dpost.spec_surface() == draw_surface(dpre.spec_surface(), spr, wd, hd, x0, y0)
            &&& post.spec_regs() == regs.update(
                15,
                if draw_collision(dpre.spec_surface(), spr, wd, hd, x0, y0) {
                    1u8
                } else {
                    0u8
                },
            )
            &&& post.spec_pc() == pc2
            &&& post.spec_index() == pre.spec_index()
            &&& cycle_frame(pre, post)
        }
    } else if c == 0xE && y == 0x9 && n == 0xE {
        // Ex9E: skip if key Vx is down
        if regs[x] >= 16 {
            &&& r == Err::<CycleOutcome, Chip8Error>(Chip8Error::KeyOutOfRange(regs[x]))
            &&& same_state(pre, post)
            &&& same_display(dpre, dpost)
        } else {
            &&& res_plain(r)
            &&& post.spec_pc() == if pre.spec_keys()[regs[x] as int] {
                pc2 + 2
            } else {
                pc2
            }
            &&& post.spec_regs() == regs
            &&& post.spec_index() == pre.spec_index()
            &&& cycle_frame(pre, post)
            &&& same_display(dpre, dpost)
        }
    } else if c == 0xE && y == 0xA && n == 0x1 {
        // ExA1: skip if key Vx is up
        if regs[x] >= 16 {
            &&& r == Err::<CycleOutcome, Chip8Error>(Chip8Error::KeyOutOfRange(regs[x]))
            &&& same_state(pre, post)
            &&& same_display(dpre, dpost)
        } else {
            &&& res_plain(r)
            &&& post.spec_pc() == if !pre.spec_keys()[regs[x] as int] {
                pc2 + 2
            } else {
                pc2
            }
            &&& post.spec_regs() == regs
            &&& post.spec_index() == pre.spec_index()
            &&& cycle_frame(pre, post)
            &&& same_display(dpre, dpost)
        }
    } else if c == 0xF && y == 0x0 && n == 0x7 {
        // Fx07: Vx = delay timer (read before the tick)
        &&& res_plain(r)
        &&& post.spec_regs() == regs.update(x, pre.spec_delay())
        &&& post.spec_pc() == pc2
        &&& post.spec_index() == pre.spec_index()
        &&& cycle_frame(pre, post)
        &&& same_display(dpre, dpost)
    } else if c == 0xF && y == 0x0 && n == 0xA {
        // Fx0A: blocking key-wait through the release latch
        &&& res_plain(r)
        &&& post.spec_index() == pre.spec_index()
        &&& post.spec_mem() == pre.spec_mem()
        &&& post.spec_stack() == pre.spec_stack()
        &&& post.spec_keys() == pre.spec_keys()
        &&& ticked(pre, post)
        &&& same_display(dpre, dpost)
        &&& match pre.spec_latch() {
            None => {
                &&& post.spec_latch() == lowest_down(pre.spec_keys())
                &&& post.spec_regs() == regs
                &&& post.spec_pc() == pre.spec_pc()
            },
            Some(k) => {
                if pre.spec_keys()[k as int] {
                    &&& post.spec_latch() == Some(k)
                    &&& post.spec_regs() == regs
                    &&& post.spec_pc() == pre.spec_pc()
                } else {
                    &&& post.spec_latch() is None
                    &&& post.spec_regs() == regs.update(x, k)
                    &&& post.spec_pc() == pc2
                }
            },
        }
    } else if c == 0xF && y == 0x1 && n == 0x5 {
        // Fx15: delay timer = Vx (then the cycle's tick)
        &&& res_plain(r)
        &&& post.spec_delay() == tick1(regs[x])
        &&& post.spec_sound() == tick1(pre.spec_sound())
        &&& post.spec_regs() == regs
        &&& post.spec_pc() == pc2
        &&& post.spec_index() == pre.spec_index()
        &&& post.spec_mem() == pre.spec_mem()
        &&& post.spec_stack() == pre.spec_stack()
        &&& post.spec_keys() == pre.spec_keys()
        &&& post.spec_latch() == pre.spec_latch()
        &&& same_display(dpre, dpost)
    } else if c == 0xF && y == 0x1 && n == 0x8 {
        // Fx18: sound timer = Vx (then the cycle's tick)
        &&& res_plain(r)
        &&& post.spec_sound() == tick1(regs[x])
        &&& post.spec_delay() == tick1(pre.spec_delay())
        &&& post.spec_regs() == regs
        &&& post.spec_pc() == pc2
        &&& post.spec_index() == pre.spec_index()
        &&& post.spec_mem() == pre.spec_mem()
        &&& post.spec_stack() == pre.spec_stack()
        &&& post.spec_keys() == pre.spec_keys()
        &&& post.spec_latch() == pre.spec_latch()
        &&& same_display(dpre, dpost)
    } else if c == 0xF && y == 0x1 && n == 0xE {
        // Fx1E: I += Vx, wrapping, no flag
        &&& res_plain(r)
        &&& post.spec_index() == (pre.spec_index() + regs[x]) % 0x10000
        &&& post.spec_regs() == regs
        &&& post.spec_pc() == pc2
        &&& cycle_frame(pre, post)
        &&& same_display(dpre, dpost)
    } else if c == 0xF && y == 0x2 && n == 0x9 {
        // Fx29: I = font glyph address of digit Vx
        &&& res_plain(r)
        &&& post.spec_index() == regs[x] * 5 + FONT_BASE
        &&& post.spec_regs() == regs
        &&& post.spec_pc() == pc2
        &&& cycle_frame(pre, post)
        &&& same_display(dpre, dpost)
    } else if c == 0xF && y == 0x3 && n == 0x3 {
        // Fx33: BCD of Vx at I, I+1, I+2
        if pre.spec_index() + 2 >= MEMORY_SIZE {
            &&& r == Err::<CycleOutcome, Chip8Error>(
                Chip8Error::OutOfBounds(pre.spec_index()),
            )
            &&& same_state(pre, post)
            &&& same_display(dpre, dpost)
        } else {
            &&& res_plain(r)
            &&& post.spec_mem() == {
                let vx = regs[x];
                let i0 = pre.spec_index() as int;
                pre.spec_mem().update(i0, (vx / 100) as u8).update(
                    i0 + 1,
                    ((vx / 10) % 10) as u8,
                ).update(i0 + 2, (vx % 10) as u8)
            }
            &&& post.spec_regs() == regs
            &&& post.spec_pc() == pc2
            &&& post.spec_index() == pre.spec_index()
            &&& post.spec_stack() == pre.spec_stack()
            &&& post.spec_keys() == pre.spec_keys()
            &&& post.spec_latch() == pre.spec_latch()
            &&& ticked(pre, post)
            &&& same_display(dpre, dpost)
        }
    } else if c == 0xF && y == 0x5 && n == 0x5 {
        // Fx55: store V0..Vx at I; I advances past the block
        if pre.spec_index() + x >= MEMORY_SIZE {
            &&& r == Err::<CycleOutcome, Chip8Error>(
                Chip8Error::OutOfBounds(pre.spec_index()),
            )
            &&& same_state(pre, post)
            &&& same_display(dpre, dpost)
        } else {
            &&& res_plain(r)
            &&& post.spec_mem() == mem_after_store(
                pre.spec_mem(),
                pre.spec_index() as int,
                regs,
                x,
            )
            &&& post.spec_index() == pre.spec_index() + x + 1
            &&& post.spec_regs() == regs
            &&& post.spec_pc() == pc2
            &&& post.spec_stack() == pre.spec_stack()
            &&& post.spec_keys() == pre.spec_keys()
            &&& post.spec_latch() == pre.spec_latch()
            &&& ticked(pre, post)
            &&& same_display(dpre, dpost)
        }
    } else if c == 0xF && y == 0x6 && n == 0x5 {
        // Fx65: load V0..Vx from I; I advances past the block
        if pre.spec_index() + x >= MEMORY_SIZE {
            &&& r == Err::<CycleOutcome, Chip8Error>(
                Chip8Error::OutOfBounds(pre.spec_index()),
            )
            &&& same_state(pre, post)
            &&& same_display(dpre, dpost)
        } else {
            &&& res_plain(r)
            &&& post.spec_regs() == regs_after_load(regs, pre.spec_mem(), pre.spec_index() as int, x)
            &&& post.spec_index() == pre.spec_index() + x + 1
            &&& post.spec_pc() == pc2
            &&& cycle_frame(pre, post)
            &&& same_display(dpre, dpost)
        }
    } else {
        // No pattern matched: a soft no-op, reported to the host
        &&& r == Ok::<CycleOutcome, Chip8Error>(
            CycleOutcome { redraw: false, unsupported: Some(w) },
        )
        &&& post.spec_regs() == regs
        &&& post.spec_pc() == pc2
        &&& post.spec_index() == pre.spec_index()
        &&& cycle_frame(pre, post)
        &&& same_display(dpre, dpost)
    }
}

/// What one call of `emulate_cycle` does. A fetch address at the end of
/// memory is a fault that changes nothing; otherwise the word at the
/// program counter is decoded and `cycle_rel_decoded` describes its effect.
pub open spec fn cycle_rel(
    pre: Chip8,
    dpre: Display,
    post: Chip8,
    dpost: Display,
    r: Result<CycleOutcome, Chip8Error>,
) -> bool {
    if pre.spec_pc() + 1 >= MEMORY_SIZE {
        &&& r == Err::<CycleOutcome, Chip8Error>(Chip8Error::OutOfBounds(pre.spec_pc()))
        &&& same_state(pre, post)
        &&& same_display(dpre, dpost)
    } else {
        cycle_rel_decoded(pre, dpre, post, dpost, r, read16(pre.spec_mem(), pre.spec_pc() as int))
    }
}

/// The blocking key-wait blocks: over any completed cycle whose fetched
/// word is an `Fx0A`, with no key down and no key latched, the program
/// counter does not move past the wait instruction, the registers are
/// untouched, and nothing becomes latched.
pub proof fn lemma_wait_blocks(
    pre: Chip8,
    dpre: Display,
    post: Chip8,
    dpost: Display,
    r: Result<CycleOutcome, Chip8Error>,
)
    requires
        cycle_rel(pre, dpre, post, dpost, r),
        pre.wf(),
        pre.spec_pc() + 1 < MEMORY_SIZE,
        nib_category(read16(pre.spec_mem(), pre.spec_pc() as int)) == 0xF,
        nib_y(read16(pre.spec_mem(), pre.spec_pc() as int)) == 0x0,
        nib_n(read16(pre.spec_mem(), pre.spec_pc() as int)) == 0xA,
        forall|j: int| 0 <= j < 16 ==> !pre.spec_keys()[j],
        pre.spec_latch() is None,
    ensures
        r is Ok,
        post.spec_pc() == pre.spec_pc(),
        post.spec_regs() == pre.spec_regs(),
        post.spec_latch() is None,
{
    crate::keypad::lemma_lowest_down_none(pre.spec_keys());
}

/// The blocking key-wait completes: over any completed cycle whose fetched
/// word is an `Fx0A`, once the latched key has been released the cycle
/// stores that key in `Vx` and the program counter moves past the wait
/// instruction.
pub proof fn lemma_wait_release(
    pre: Chip8,
    dpre: Display,
    post: Chip8,
    dpost: Display,
    r: Result<CycleOutcome, Chip8Error>,
    k: u8,
)
    requires
        cycle_rel(pre, dpre, post, dpost, r),
        pre.wf(),
        pre.spec_pc() + 1 < MEMORY_SIZE,
        nib_category(read16(pre.spec_mem(), pre.spec_pc() as int)) == 0xF,
        nib_y(read16(pre.spec_mem(), pre.spec_pc() as int)) == 0x0,
        nib_n(read16(pre.spec_mem(), pre.spec_pc() as int)) == 0xA,
        pre.spec_latch() == Some(k),
        !pre.spec_keys()[k as int],
    ensures
        r is Ok,
        post.spec_regs() == pre.spec_regs().update(
            nib_x(read16(pre.spec_mem(), pre.spec_pc() as int)),
            k,
        ),
        post.spec_pc() == pre.spec_pc() + 2,
        post.spec_latch() is None,
{
}

pub struct Chip8 {
    program_counter: ProgramCounter,
    memory: Memory,
    registers: Vec<u8>,
    index_register: u16,
    stack: Stack,
    delay_timer: Timer,
    sound_timer: Timer,
    key_pad: Keypad,
}

impl Chip8 {
    /// The sixteen general-purpose registers V0 through VF.
    pub closed spec fn spec_regs(self) -> Seq<u8> {
        self.registers@
    }

    /// The current program counter.
    pub closed spec fn spec_pc(self) -> u16 {
        self.program_counter.spec_get()
    }

    /// The index register I.
    pub closed spec fn spec_index(self) -> u16 {
        self.index_register
    }

    /// The 4096 bytes of memory.
    pub closed spec fn spec_mem(self) -> Seq<u8> {
        self.memory@
    }

    /// The call stack, bottom first.
    pub closed spec fn spec_stack(self) -> Seq<u16> {
        self.stack@
    }

    /// The delay timer value.
    pub closed spec fn spec_delay(self) -> u8 {
        self.delay_timer.spec_value()
    }

    /// The sound timer value.
    pub closed spec fn spec_sound(self) -> u8 {
        self.sound_timer.spec_value()
    }

    /// The down/up state of the sixteen keys.
    pub closed spec fn spec_keys(self) -> Seq<bool> {
        self.key_pad.spec_keys()
    }

    /// The key latched by a pending blocking key-wait, if any.
    pub closed spec fn spec_latch(self) -> Option<u8> {
        self.key_pad.spec_latched()
    }

    /// Sixteen registers, full-size memory, a well-formed key pad.
    pub open spec fn wf(self) -> bool {
        &&& self.spec_regs().len() == 16
        &&& self.spec_mem().len() == MEMORY_SIZE
        &&& self.spec_keys().len() == 16
        &&& match self.spec_latch() {
            Some(k) => k < 16,
            None => true,
        }
    }

    /// A fresh machine around the given memory image: execution starts at
    /// the program load address with cleared registers, empty stack, zeroed
    /// timers and an idle key pad.
    pub fn new(memory: Memory) -> (r: Chip8)
        requires
            memory.wf(),
        ensures
            r.wf(),
            r.spec_pc() == PROGRAM_START,
            r.spec_mem() == memory@,
            r.spec_regs() == Seq::new(16, |i: int| 0u8),
            r.spec_index() == 0,
            r.spec_stack() == Seq::<u16>::empty(),
            r.spec_delay() == 0,
            r.spec_sound() == 0,
            r.spec_keys() == Seq::new(16, |i: int| false),
            r.spec_latch() is None,
    {
        let machine = Chip8 {
            program_counter: ProgramCounter::new(),
            memory,
            registers: vec![0u8; 16],
            index_register: 0,
            stack: Stack::new(),
            delay_timer: Timer::new(),
            sound_timer: Timer::new(),
            key_pad: Keypad::new(),
        };
        proof {
            assert(machine.registers@ =~= Seq::new(16, |i: int| 0u8));
        }
        machine
    }

    /// Copy a program image into memory at the load address. An image
    /// larger than the space above the load address is rejected whole:
    /// nothing is copied.
    pub fn load(&mut self, rom: &Vec<u8>) -> (r: Result<(), Chip8Error>)
        requires
            old(self).wf(),
        ensures
            final(self).wf(),
            rom@.len() > MAX_ROM_SIZE ==> r == Err::<(), Chip8Error>(Chip8Error::RomTooLarge)
                && *final(self) == *old(self),
            rom@.len() <= MAX_ROM_SIZE ==> {
                &&& r == Ok::<(), Chip8Error>(())
                &&& final(self).spec_mem().len() == MEMORY_SIZE
                &&& forall|a: int|
                    PROGRAM_START <= a < PROGRAM_START + rom@.len() ==> final(self).spec_mem()[a]
                        == rom@[a - PROGRAM_START]
                &&& forall|a: int|
                    0 <= a < MEMORY_SIZE && !(PROGRAM_START <= a < PROGRAM_START + rom@.len())
                        ==> final(self).spec_mem()[a] == old(self).spec_mem()[a]
            },
            final(self).spec_regs() == old(self).spec_regs(),
            final(self).spec_pc() == old(self).spec_pc(),
            final(self).spec_index() == old(self).spec_index(),
            final(self).spec_stack() == old(self).spec_stack(),
            final(self).spec_delay() == old(self).spec_delay(),
            final(self).spec_sound() == old(self).spec_sound(),
            final(self).spec_keys() == old(self).spec_keys(),
            final(self).spec_latch() == old(self).spec_latch(),
    {
        if rom.len() > MAX_ROM_SIZE {
            return Err(Chip8Error::RomTooLarge);
        }
        let n = rom.len();
        let mut i: usize = 0;
        while i < n
            invariant
                self.spec_regs() == old(self).spec_regs(),
                self.spec_pc() == old(self).spec_pc(),
                self.spec_index() == old(self).spec_index(),
                self.spec_stack() == old(self).spec_stack(),
                self.spec_delay() == old(self).spec_delay(),
                self.spec_sound() == old(self).spec_sound(),
                self.spec_keys() == old(self).spec_keys(),
                self.spec_latch() == old(self).spec_latch(),
                self.wf(),
                n == rom@.len(),
                n <= MAX_ROM_SIZE,
                i <= n,
                self.spec_mem().len() == MEMORY_SIZE,
                forall|a: int|
                    PROGRAM_START <= a < PROGRAM_START + i ==> self.spec_mem()[a] == rom@[a
                        - PROGRAM_START],
                forall|a: int|
                    0 <= a < MEMORY_SIZE && !(PROGRAM_START <= a < PROGRAM_START + i)
                        ==> self.spec_mem()[a] == old(self).spec_mem()[a],
            decreases n - i,
        {
            self.memory.set((PROGRAM_START as usize + i) as u16, rom[i]);
            i = i + 1;
        }
        Ok(())
    }

    /// Forward a key-release event to the key pad.
    pub fn handle_key_up(&mut self, key: Key)
        requires
            old(self).wf(),
        ensures
            final(self).wf(),
            final(self).spec_keys() == old(self).spec_keys().update(spec_key_index(key), false),
            final(self).spec_latch() == old(self).spec_latch(),
            final(self).spec_regs() == old(self).spec_regs(),
            final(self).spec_pc() == old(self).spec_pc(),
            final(self).spec_index() == old(self).spec_index(),
            final(self).spec_mem() == old(self).spec_mem(),
            final(self).spec_stack() == old(self).spec_stack(),
            final(self).spec_delay() == old(self).spec_delay(),
            final(self).spec_sound() == old(self).spec_sound(),
    {
        self.key_pad.key_up(key);
    }

    /// Forward a key-press event to the key pad.
    pub fn handle_key_down(&mut self, key: Key)
        requires
            old(self).wf(),
        ensures
            final(self).wf(),
            final(self).spec_keys() == old(self).spec_keys().update(spec_key_index(key), true),
            final(self).spec_latch() == old(self).spec_latch(),
            final(self).spec_regs() == old(self).spec_regs(),
            final(self).spec_pc() == old(self).spec_pc(),
            final(self).spec_index() == old(self).spec_index(),
            final(self).spec_mem() == old(self).spec_mem(),
            final(self).spec_stack() == old(self).spec_stack(),
            final(self).spec_delay() == old(self).spec_delay(),
            final(self).spec_sound() == old(self).spec_sound(),
    {
        self.key_pad.key_down(key);
    }

    /// Read the instruction word at the program counter, advance past it,
    /// and decode it.
    pub fn fetch(&mut self) -> (r: Opcode)
        requires
            old(self).wf(),
            old(self).spec_pc() + 1 < MEMORY_SIZE,
        ensures
            final(self).wf(),
            r.wf(),
            r.decodes(read16(old(self).spec_mem(), old(self).spec_pc() as int)),
            final(self).spec_pc() == old(self).spec_pc() + 2,
            final(self).spec_regs() == old(self).spec_regs(),
            final(self).spec_index() == old(self).spec_index(),
            final(self).spec_mem() == old(self).spec_mem(),
            final(self).spec_stack() == old(self).spec_stack(),
            final(self).spec_delay() == old(self).spec_delay(),
            final(self).spec_sound() == old(self).spec_sound(),
            final(self).spec_keys() == old(self).spec_keys(),
            final(self).spec_latch() == old(self).spec_latch(),
    {
        let program_counter = self.program_counter.get();
        let opcode = self.memory.get_as_u16(program_counter);
        self.program_counter.increment();

        Opcode::from_word(opcode)
    }

    /// `00E0`: clear the display surface.
    pub fn op_00e0(&self, display: &mut Display)
        requires
            old(display).wf(),
        ensures
            final(display).wf(),
            final(display).spec_width() == old(display).spec_width(),
            final(display).spec_height() == old(display).spec_height(),
            final(display).spec_surface().len() == old(display).spec_surface().len(),
            forall|k: int|
                0 <= k < final(display).spec_surface().len() ==> final(display).spec_surface()[k]
                    == 0,
    {
        display.clear();
    }

    /// `00EE`: return from a subroutine; the program counter is popped off
    /// the call stack.
    pub fn op_00ee(&mut self)
        requires
            old(self).wf(),
            old(self).spec_stack().len() > 0,
        ensures
            final(self).wf(),
            final(self).spec_pc() == old(self).spec_stack().last(),
            final(self).spec_stack() == old(self).spec_stack().drop_last(),
            final(self).spec_regs() == old(self).spec_regs(),
            final(self).spec_index() == old(self).spec_index(),
            frame_stack_op(*old(self), *final(self)),
    {
        let target = self.stack.pop();
        self.program_counter.set(target);
    }

    /// `1nnn`: jump to address `nnn`.
    pub fn op_1nnn(&mut self, opcode: &Opcode)
        requires
            old(self).wf(),
            opcode.wf(),
        ensures
            final(self).wf(),
            final(self).spec_pc() == opcode.spec_nnn(),
            final(self).spec_regs() == old(self).spec_regs(),
            final(self).spec_index() == old(self).spec_index(),
            frame_core(*old(self), *final(self)),
    {
        self.program_counter.set(opcode.nnn());
    }

    /// `2nnn`: call the subroutine at `nnn`; the current program counter is
    /// pushed as the return address.
    pub fn op_2nnn(&mut self, opcode: &Opcode)
        requires
            old(self).wf(),
            opcode.wf(),
        ensures
            final(self).wf(),
            final(self).spec_stack() == old(self).spec_stack().push(old(self).spec_pc()),
            final(self).spec_pc() == opcode.spec_nnn(),
            final(self).spec_regs() == old(self).spec_regs(),
            final(self).spec_index() == old(self).spec_index(),
            frame_stack_op(*old(self), *final(self)),
    {
        self.stack.push(self.program_counter.get());
        self.program_counter.set(opcode.nnn());
    }

    /// `3xkk`: skip the next instruction if `Vx == kk`.
    pub fn op_3xkk(&mut self, opcode: &Opcode)
        requires
            old(self).wf(),
            opcode.wf(),
            old(self).spec_pc() + 2 <= u16::MAX,
        ensures
            final(self).wf(),
            final(self).spec_pc() == if old(self).spec_regs()[opcode.x as int]
                == opcode.spec_kk() {
                old(self).spec_pc() + 2
            } else {
                old(self).spec_pc() as int
            },
            final(self).spec_regs() == old(self).spec_regs(),
            final(self).spec_index() == old(self).spec_index(),
            frame_core(*old(self), *final(self)),
    {
        if self.registers[opcode.x] == opcode.kk() {
            self.program_counter.increment();
        }
    }

    /// `4xkk`: skip the next instruction if `Vx != kk`.
    pub fn op_4xkk(&mut self, opcode: &Opcode)
        requires
            old(self).wf(),
            opcode.wf(),
            old(self).spec_pc() + 2 <= u16::MAX,
        ensures
            final(self).wf(),
            final(self).spec_pc() == if old(self).spec_regs()[opcode.x as int]
                != opcode.spec_kk() {
                old(self).spec_pc() + 2
            } else {
                old(self).spec_pc() as int
            },
            final(self).spec_regs() == old(self).spec_regs(),
            final(self).spec_index() == old(self).spec_index(),
            frame_core(*old(self), *final(self)),
    {
        if self.registers[opcode.x] != opcode.kk() {
            self.program_counter.increment();
        }
    }

    /// `5xy0`: skip the next instruction if `Vx == Vy`.
    pub fn op_5xy0(&mut self, opcode: &Opcode)
        requires
            old(self).wf(),
            opcode.wf(),
            old(self).spec_pc() + 2 <= u16::MAX,
        ensures
            final(self).wf(),
            final(self).spec_pc() == if old(self).spec_regs()[opcode.x as int] == old(
                self,
            ).spec_regs()[opcode.y as int] {
                old(self).spec_pc() + 2
            } else {
                old(self).spec_pc() as int
            },
            final(self).spec_regs() == old(self).spec_regs(),
            final(self).spec_index() == old(self).spec_index(),
            frame_core(*old(self), *final(self)),
    {
        if self.registers[opcode.x] == self.registers[opcode.y] {
            self.program_counter.increment();
        }
    }

    /// `9xy0`: skip the next instruction if `Vx != Vy`.
    pub fn op_9xy0(&mut self, opcode: &Opcode)
        requires
            old(self).wf(),
            opcode.wf(),
            old(self).spec_pc() + 2 <= u16::MAX,
        ensures
            final(self).wf(),
            final(self).spec_pc() == if old(self).spec_regs()[opcode.x as int] != old(
                self,
            ).spec_regs()[opcode.y as int] {
                old(self).spec_pc() + 2
            } else {
                old(self).spec_pc() as int
            },
            final(self).spec_regs() == old(self).spec_regs(),
            final(self).spec_index() == old(self).spec_index(),
            frame_core(*old(self), *final(self)),
    {
        if self.registers[opcode.x] != self.registers[opcode.y] {
            self.program_counter.increment();
        }
    }

    /// `6xkk`: load the immediate `kk` into `Vx`.
    pub fn op_6xkk(&mut self, opcode: &Opcode)
        requires
            old(self).wf(),
            opcode.wf(),
        ensures
            final(self).wf(),
            final(self).spec_regs() == old(self).spec_regs().update(
                opcode.x as int,
                opcode.spec_kk() as u8,
            ),
            final(self).spec_pc() == old(self).spec_pc(),
            final(self).spec_index() == old(self).spec_index(),
            frame_core(*old(self), *final(self)),
    {
        self.registers[opcode.x] = opcode.kk();
    }

    /// `7xkk`: add the immediate `kk` to `Vx`, wrapping modulo 256; the
    /// flag register VF is not an output of this instruction.
    pub fn op_7xkk(&mut self, opcode: &Opcode)
        requires
            old(self).wf(),
            opcode.wf(),
        ensures
            final(self).wf(),
            final(self).spec_regs() == old(self).spec_regs().update(
                opcode.x as int,
                ((old(self).spec_regs()[opcode.x as int] + opcode.spec_kk()) % 256) as u8,
            ),
            final(self).spec_pc() == old(self).spec_pc(),
            final(self).spec_index() == old(self).spec_index(),
            frame_core(*old(self), *final(self)),
    {
        let sum: u16 = self.registers[opcode.x] as u16 + opcode.kk() as u16;
        self.registers[opcode.x] = (sum % 256) as u8;
    }

    /// `8xy0`: copy `Vy` into `Vx`.
    pub fn op_8xy0(&mut self, opcode: &Opcode)
        requires
            old(self).wf(),
            opcode.wf(),
        ensures
            final(self).wf(),
            final(self).spec_regs() == old(self).spec_regs().update(
                opcode.x as int,
                old(self).spec_regs()[opcode.y as int],
            ),
            final(self).spec_pc() == old(self).spec_pc(),
            final(self).spec_index() == old(self).spec_index(),
            frame_core(*old(self), *final(self)),
    {
        self.registers[opcode.x] = self.registers[opcode.y];
    }

    /// `8xy1`: bitwise OR of `Vy` into `Vx`; VF is cleared first as a side
    /// effect, so it takes part in the OR when `x` or `y` is `F`.
    pub fn op_8xy1(&mut self, opcode: &Opcode)
        requires
            old(self).wf(),
            opcode.wf(),
        ensures
            final(self).wf(),
            final(self).spec_regs() == {
                let base = old(self).spec_regs().update(15, 0u8);
                base.update(opcode.x as int, base[opcode.x as int] | base[opcode.y as int])
            },
            final(self).spec_pc() == old(self).spec_pc(),
            final(self).spec_index() == old(self).spec_index(),
            frame_core(*old(self), *final(self)),
    {
        self.registers[15] = 0;
        let vx = self.registers[opcode.x];
        let vy = self.registers[opcode.y];
        self.registers[opcode.x] = vx | vy;
    }

    /// `8xy2`: bitwise AND of `Vy` into `Vx`; VF is cleared first as a side
    /// effect.
    pub fn op_8xy2(&mut self, opcode: &Opcode)
        requires
            old(self).wf(),
            opcode.wf(),
        ensures
            final(self).wf(),
            final(self).spec_regs() == {
                let base = old(self).spec_regs().update(15, 0u8);
                base.update(opcode.x as int, base[opcode.x as int] & base[opcode.y as int])
            },
            final(self).spec_pc() == old(self).spec_pc(),
            final(self).spec_index() == old(self).spec_index(),
            frame_core(*old(self), *final(self)),
    {
        self.registers[15] = 0;
        let vx = self.registers[opcode.x];
        let vy = self.registers[opcode.y];
        self.registers[opcode.x] = vx & vy;
    }

    /// `8xy3`: bitwise XOR of `Vy` into `Vx`; VF is cleared first as a side
    /// effect.
    pub fn op_8xy3(&mut self, opcode: &Opcode)
        requires
            old(self).wf(),
            opcode.wf(),
        ensures
            final(self).wf(),
            final(self).spec_regs() == {
                let base = old(self).spec_regs().update(15, 0u8);
                base.update(opcode.x as int, base[opcode.x as int] ^ base[opcode.y as int])
            },
            final(self).spec_pc() == old(self).spec_pc(),
            final(self).spec_index() == old(self).spec_index(),
            frame_core(*old(self), *final(self)),
    {
        self.registers[15] = 0;
        let vx = self.registers[opcode.x];
        let vy = self.registers[opcode.y];
        self.registers[opcode.x] = vx ^ vy;
    }

    /// `8xy4`: add `Vy` to `Vx`; `Vx` keeps the low byte of the sum and VF
    /// becomes the carry: `1` exactly when the full sum exceeds 255.
    pub fn op_8xy4(&mut self, opcode: &Opcode)
        requires
            old(self).wf(),
            opcode.wf(),
        ensures
            final(self).wf(),
            final(self).spec_regs() == {
                let sum = old(self).spec_regs()[opcode.x as int] + old(self).spec_regs()[opcode.y
                    as int];
                old(self).spec_regs().update(opcode.x as int, (sum % 256) as u8).update(
                    15,
                    if sum > 255 {
                        1u8
                    } else {
                        0u8
                    },
                )
            },
            final(self).spec_pc() == old(self).spec_pc(),
            final(self).spec_index() == old(self).spec_index(),
            frame_core(*old(self), *final(self)),
    {
        let sum: u16 = self.registers[opcode.y] as u16 + self.registers[opcode.x] as u16;
        self.registers[opcode.x] = (sum % 256) as u8;
        self.registers[15] = if sum > 0xFF {
            1
        } else {
            0
        };
    }

    /// `8xy5`: subtract `Vy` from `Vx`, wrapping modulo 256; VF becomes the
    /// no-borrow flag: `1` exactly when `Vx >= Vy`.
    pub fn op_8xy5(&mut self, opcode: &Opcode)
        requires
            old(self).wf(),
            opcode.wf(),
        ensures
            final(self).wf(),
            final(self).spec_regs() == {
                let vx = old(self).spec_regs()[opcode.x as int];
                let vy = old(self).spec_regs()[opcode.y as int];
                old(self).spec_regs().update(opcode.x as int, ((vx - vy + 256) % 256) as u8).update(
                    15,
                    if vx >= vy {
                        1u8
                    } else {
                        0u8
                    },
                )
            },
            final(self).spec_pc() == old(self).spec_pc(),
            final(self).spec_index() == old(self).spec_index(),
            frame_core(*old(self), *final(self)),
    {
        let vx = self.registers[opcode.x];
        let vy = self.registers[opcode.y];
        let diff: u8 = if vx >= vy {
            vx - vy
        } else {
            (vx as u16 + 256 - vy as u16) as u8
        };
        self.registers[opcode.x] = diff;
        self.registers[15] = if vx >= vy {
            1
        } else {
            0
        };
    }

    /// `8xy7`: store `Vy - Vx` into `Vx`, wrapping modulo 256; VF becomes
    /// the no-borrow flag: `1` exactly when `Vy >= Vx`.
    pub fn op_8xy7(&mut self, opcode: &Opcode)
        requires
            old(self).wf(),
            opcode.wf(),
        ensures
            final(self).wf(),
            final(self).spec_regs() == {
                let vx = old(self).spec_regs()[opcode.x as int];
                let vy = old(self).spec_regs()[opcode.y as int];
                old(self).spec_regs().update(opcode.x as int, ((vy - vx + 256) % 256) as u8).update(
                    15,
                    if vy >= vx {
                        1u8
                    } else {
                        0u8
                    },
                )
            },
            final(self).spec_pc() == old(self).spec_pc(),
            final(self).spec_index() == old(self).spec_index(),
            frame_core(*old(self), *final(self)),
    {
        let vx = self.registers[opcode.x];
        let vy = self.registers[opcode.y];
        let diff: u8 = if vy >= vx {
            vy - vx
        } else {
            (vy as u16 + 256 - vx as u16) as u8
        };
        self.registers[opcode.x] = diff;
        self.registers[15] = if vy >= vx {
            1
        } else {
            0
        };
    }

    /// `8xy6`: copy `Vy` into `Vx`, then shift `Vx` right by one; VF becomes
    /// the bit shifted out (the copied value's lowest bit).
    pub fn op_8xy6(&mut self, opcode: &Opcode)
        requires
            old(self).wf(),
            opcode.wf(),
        ensures
            final(self).wf(),
            final(self).spec_regs() == {
                let vy = old(self).spec_regs()[opcode.y as int];
                old(self).spec_regs().update(opcode.x as int, (vy / 2) as u8).update(
                    15,
                    (vy % 2) as u8,
                )
            },
            final(self).spec_pc() == old(self).spec_pc(),
            final(self).spec_index() == old(self).spec_index(),
            frame_core(*old(self), *final(self)),
    {
        let vy = self.registers[opcode.y];
        self.registers[opcode.x] = vy / 2;
        self.registers[15] = vy % 2;
    }

    /// `8xyE`: copy `Vy` into `Vx`, then shift `Vx` left by one, wrapping;
    /// VF becomes the bit shifted out (the copied value's highest bit).
    pub fn op_8xye(&mut self, opcode: &Opcode)
        requires
            old(self).wf(),
            opcode.wf(),
        ensures
            final(self).wf(),
            final(self).spec_regs() == {
                let vy = old(self).spec_regs()[opcode.y as int];
                old(self).spec_regs().update(opcode.x as int, ((vy * 2) % 256) as u8).update(
                    15,
                    (vy / 128) as u8,
                )
            },
            final(self).spec_pc() == old(self).spec_pc(),
            final(self).spec_index() == old(self).spec_index(),
            frame_core(*old(self), *final(self)),
    {
        let vy = self.registers[opcode.y];
        self.registers[opcode.x] = ((vy as u16 * 2) % 256) as u8;
        self.registers[15] = vy / 128;
    }

    /// `Annn`: load the address `nnn` into the index register.
    pub fn op_annn(&mut self, opcode: &Opcode)
        requires
            old(self).wf(),
            opcode.wf(),
        ensures
            final(self).wf(),
            final(self).spec_index() == opcode.spec_nnn(),
            final(self).spec_regs() == old(self).spec_regs(),
            final(self).spec_pc() == old(self).spec_pc(),
            frame_core(*old(self), *final(self)),
    {
        self.index_register = opcode.nnn();
    }

    /// `Bnnn`: jump to `nnn` plus `V0`.
    pub fn op_bnnn(&mut self, opcode: &Opcode)
        requires
            old(self).wf(),
            opcode.wf(),
        ensures
            final(self).wf(),
            final(self).spec_pc() == opcode.spec_nnn() + old(self).spec_regs()[0],
            final(self).spec_regs() == old(self).spec_regs(),
            final(self).spec_index() == old(self).spec_index(),
            frame_core(*old(self), *final(self)),
    {
        self.program_counter.set(opcode.nnn() + self.registers[0] as u16);
    }

    /// `Cxkk`: load a random byte ANDed with `kk` into `Vx`. The random
    /// byte is drawn by the caller and handed in, so this handler is exact
    /// for every draw.
    pub fn op_cxkk(&mut self, opcode: &Opcode, random: u8)
        requires
            old(self).wf(),
            opcode.wf(),
        ensures
            final(self).wf(),
            final(self).spec_regs() == old(self).spec_regs().update(
                opcode.x as int,
                random & (opcode.spec_kk() as u8),
            ),
            final(self).spec_pc() == old(self).spec_pc(),
            final(self).spec_index() == old(self).spec_index(),
            frame_core(*old(self), *final(self)),
    {
        self.registers[opcode.x] = random & opcode.kk();
    }

    /// `Dxyn`: draw the `n`-row sprite at `memory[I .. I+n]` with its
    /// top-left corner at `(Vx mod width, Vy mod height)`. Each set sprite
    /// bit XOR-toggles the pixel under it; rows and columns that would run
    /// off the grid are clipped, not wrapped. VF reports a collision: `1`
    /// exactly when some toggle turned a pixel off.
    pub fn op_dxyn(&mut self, opcode: &Opcode, display: &mut Display)
        requires
            old(self).wf(),
            opcode.wf(),
            old(display).wf(),
            dxyn_in_bounds(*old(self), *old(display), *opcode),
        ensures
            final(self).wf(),
            final(display).wf(),
            final(display).spec_width() == old(display).spec_width(),
            final(display).spec_height() == old(display).spec_height(),
            final(display).spec_surface() == draw_surface(
                old(display).spec_surface(),
                dxyn_sprite(*old(self), *old(display), *opcode),
                old(display).spec_width() as int,
                old(display).spec_height() as int,
                dxyn_x0(*old(self), *old(display), *opcode),
                dxyn_y0(*old(self), *old(display), *opcode),
            ),
            final(self).spec_regs() == old(self).spec_regs().update(
                15,
                if draw_collision(
                    old(display).spec_surface(),
                    dxyn_sprite(*old(self), *old(display), *opcode),
                    old(display).spec_width() as int,
                    old(display).spec_height() as int,
                    dxyn_x0(*old(self), *old(display), *opcode),
                    dxyn_y0(*old(self), *old(display), *opcode),
                ) {
                    1u8
                } else {
                    0u8
                },
            ),
            final(self).spec_pc() == old(self).spec_pc(),
            final(self).spec_index() == old(self).spec_index(),
            frame_core(*old(self), *final(self)),
    {
        let vx = self.registers[opcode.x];
        let vy = self.registers[opcode.y];
        let w = display.width();
        let h = display.height();
        let x0: u16 = vx as u16 % w;
        let y0: u16 = vy as u16 % h;
        let nrows: u16 = if (opcode.n as u16) <= h - y0 {
            opcode.n as u16
        } else {
            h - y0
        };
        let ghost pre_s = old(display).spec_surface();
        let ghost wg = w as int;
        let ghost hg = h as int;
        let ghost x0g = x0 as int;
        let ghost y0g = y0 as int;
        let ghost spr = dxyn_sprite(*old(self), *old(display), *opcode);
        proof {
            assert(x0g == dxyn_x0(*old(self), *old(display), *opcode));
            assert(y0g == dxyn_y0(*old(self), *old(display), *opcode));
            assert(nrows as int == dxyn_rows(*old(self), *old(display), *opcode));
            assert(spr.len() == nrows);
            lemma_dxyn_start(pre_s, spr, wg, hg, x0g, y0g);
        }
        self.registers[15] = 0;
        let mut row: u16 = 0;
        while row < nrows
            invariant
                old(self).wf(),
                opcode.wf(),
                self.wf(),
                display.wf(),
                row <= nrows,
                wg == display.spec_width(),
                hg == display.spec_height(),
                wg == old(display).spec_width(),
                hg == old(display).spec_height(),
                wg >= 1,
                hg >= 1,
                0 <= x0g < wg,
                x0 as int == x0g,
                0 <= y0g < hg,
                y0 as int == y0g,
                w as int == wg,
                h as int == hg,
                nrows as int == spr.len(),
                nrows as int == dxyn_rows(*old(self), *old(display), *opcode),
                y0g + spr.len() <= hg,
                pre_s == old(display).spec_surface(),
                pre_s.len() == wg * hg,
                spr == dxyn_sprite(*old(self), *old(display), *opcode),
                old(self).spec_index() + spr.len() <= MEMORY_SIZE,
                self.spec_pc() == old(self).spec_pc(),
                self.spec_index() == old(self).spec_index(),
                self.spec_mem() == old(self).spec_mem(),
                frame_core(*old(self), *self),
                self.spec_regs() == old(self).spec_regs().update(15, self.spec_regs()[15]),
                self.spec_regs()[15] == 0 || self.spec_regs()[15] == 1,
                (self.spec_regs()[15] == 1) == dxyn_partial_collision(
                    pre_s,
                    spr,
                    wg,
                    hg,
                    x0g,
                    y0g,
                    row as int,
                    0,
                ),
                display.spec_surface().len() == pre_s.len(),
                forall|k: int|
                    0 <= k < pre_s.len() ==> display.spec_surface()[k] == dxyn_cell_at(
                        pre_s,
                        spr,
                        wg,
                        hg,
                        x0g,
                        y0g,
                        row as int,
                        0,
                        k,
                    ),
            decreases nrows - row,
        {
            let sprite_byte = self.memory.get_as_u8(self.index_register + row);
            proof {
                assert(sprite_byte == spr[row as int]);
            }
            let mut col: u16 = 0;
            while col < 8 && (x0 as usize) + (col as usize) < (w as usize)
                invariant
                    old(self).wf(),
                    opcode.wf(),
                    self.wf(),
                    display.wf(),
                    row < nrows,
                    col <= 8,
                    wg == display.spec_width(),
                    hg == display.spec_height(),
                    wg == old(display).spec_width(),
                    hg == old(display).spec_height(),
                    wg >= 1,
                    hg >= 1,
                    0 <= x0g < wg,
                    x0 as int == x0g,
                    0 <= y0g < hg,
                    y0 as int == y0g,
                    w as int == wg,
                    h as int == hg,
                    nrows as int == spr.len(),
                    nrows as int == dxyn_rows(*old(self), *old(display), *opcode),
                    y0g + spr.len() <= hg,
                    pre_s == old(display).spec_surface(),
                    pre_s.len() == wg * hg,
                    spr == dxyn_sprite(*old(self), *old(display), *opcode),
                    old(self).spec_index() + spr.len() <= MEMORY_SIZE,
                    sprite_byte == spr[row as int],
                    self.spec_pc() == old(self).spec_pc(),
                    self.spec_index() == old(self).spec_index(),
                    self.spec_mem() == old(self).spec_mem(),
                    frame_core(*old(self), *self),
                    self.spec_regs() == old(self).spec_regs().update(15, self.spec_regs()[15]),
                    self.spec_regs()[15] == 0 || self.spec_regs()[15] == 1,
                    (self.spec_regs()[15] == 1) == dxyn_partial_collision(
                        pre_s,
                        spr,
                        wg,
                        hg,
                        x0g,
                        y0g,
                        row as int,
                        col as int,
                    ),
                    display.spec_surface().len() == pre_s.len(),
                    forall|k: int|
                        0 <= k < pre_s.len() ==> display.spec_surface()[k] == dxyn_cell_at(
                            pre_s,
                            spr,
                            wg,
                            hg,
                            x0g,
                            y0g,
                            row as int,
                            col as int,
                        k,
                        ),
                decreases 8 - col,
            {
                let ghost rg = row as int;
                let ghost cg = col as int;
                let ghost c1 = cg + 1;
                let ghost idxg = (x0g + cg) + (y0g + rg) * wg;
                let shift: u8 = (7 - col) as u8;
                let bit: u8 = (sprite_byte >> shift) & 1;
                proof {
                    assert(bit == sprite_bit(spr[rg], cg));
                    lemma_dxyn_cell_step(pre_s, spr, wg, hg, x0g, y0g, rg, cg, c1, idxg);
                    lemma_dxyn_coll_step(pre_s, spr, wg, hg, x0g, y0g, rg, cg);
                }
                if bit == 1 {
                    let px = (x0 as usize) + (col as usize);
                    let py = (y0 + row) as usize;
                    proof {
                        lemma_rowmajor(x0g + cg, y0g + rg, wg);
                        lemma_rowmajor_bound(x0g + cg, y0g + rg, wg, hg);
                        assert(px as int == x0g + cg && py as int == y0g + rg);
                        assert(display.spec_surface()[idxg] == dxyn_cell_at(
                            pre_s,
                            spr,
                            wg,
                            hg,
                            x0g,
                            y0g,
                            rg,
                            cg,
                            idxg,
                        ));
                        assert(display.spec_surface()[idxg] == pre_s[idxg]);
                        assert(pre_s[idxg] == 0 || pre_s[idxg] == 1);
                    }
                    let ghost surf_before = display.spec_surface();
                    let on = display.flip_pixel(px, py);
                    if !on {
                        self.registers[15] = 1;
                        proof {
                            assert(self.spec_regs() =~= old(self).spec_regs().update(15, 1u8));
                        }
                    }
                    proof {
                        assert(display.spec_surface() == surf_before.update(
                            idxg,
                            flip01(pre_s[idxg]),
                        ));
                        assert(on == (flip01(pre_s[idxg]) == 1));
                        assert forall|k: int| 0 <= k < pre_s.len() implies display.spec_surface()[k]
                            == dxyn_cell_at(pre_s, spr, wg, hg, x0g, y0g, rg, c1, k) by {
                            if k == idxg {
                                assert(display.spec_surface()[k] == flip01(pre_s[idxg]));
                            } else {
                                assert(display.spec_surface()[k] == surf_before[k]);
                            }
                        }
                        if !on {
                            assert(pre_s[idxg] == 1);
                            assert(dxyn_partial_collision(pre_s, spr, wg, hg, x0g, y0g, rg, c1));
                        } else {
                            assert(pre_s[idxg] == 0);
                            assert(dxyn_partial_collision(pre_s, spr, wg, hg, x0g, y0g, rg, c1)
                                == dxyn_partial_collision(
                                pre_s,
                                spr,
                                wg,
                                hg,
                                x0g,
                                y0g,
                                rg,
                                cg,
                            ));
                        }
                    }
                } else {
                    proof {
                        assert forall|k: int| 0 <= k < pre_s.len() implies display.spec_surface()[k]
                            == dxyn_cell_at(pre_s, spr, wg, hg, x0g, y0g, rg, c1, k) by {
                            assert(display.spec_surface()[k] == dxyn_cell_at(
                                pre_s,
                                spr,
                                wg,
                                hg,
                                x0g,
                                y0g,
                                rg,
                                cg,
                                k,
                            ));
                        }
                        assert(dxyn_partial_collision(pre_s, spr, wg, hg, x0g, y0g, rg, c1)
                            == dxyn_partial_collision(pre_s, spr, wg, hg, x0g, y0g, rg, cg));
                    }
                }
                col = col + 1;
            }
            proof {
                lemma_dxyn_row_step(pre_s, spr, wg, hg, x0g, y0g, row as int, col as int);
            }
            row = row + 1;
        }
        proof {
            lemma_dxyn_finish(pre_s, spr, wg, hg, x0g, y0g);
            assert(display.spec_surface() =~= draw_surface(pre_s, spr, wg, hg, x0g, y0g));
            if draw_collision(pre_s, spr, wg, hg, x0g, y0g) {
                assert(self.spec_regs() == old(self).spec_regs().update(15, 1u8));
            } else {
                assert(self.spec_regs() == old(self).spec_regs().update(15, 0u8));
            }
        }
    }

    /// `Ex9E`: skip the next instruction if the key named by `Vx` is down.
    pub fn op_ex9e(&mut self, opcode: &Opcode)
        requires
            old(self).wf(),
            opcode.wf(),
            old(self).spec_regs()[opcode.x as int] < 16,
            old(self).spec_pc() + 2 <= u16::MAX,
        ensures
            final(self).wf(),
            final(self).spec_pc() == if old(self).spec_keys()[old(self).spec_regs()[opcode.x
                as int] as int] {
                old(self).spec_pc() + 2
            } else {
                old(self).spec_pc() as int
            },
            final(self).spec_regs() == old(self).spec_regs(),
            final(self).spec_index() == old(self).spec_index(),
            frame_core(*old(self), *final(self)),
    {
        if self.key_pad.is_key_down(self.registers[opcode.x]) {
            self.program_counter.increment();
        }
    }

    /// `ExA1`: skip the next instruction if the key named by `Vx` is up.
    pub fn op_exa1(&mut self, opcode: &Opcode)
        requires
            old(self).wf(),
            opcode.wf(),
            old(self).spec_regs()[opcode.x as int] < 16,
            old(self).spec_pc() + 2 <= u16::MAX,
        ensures
            final(self).wf(),
            final(self).spec_pc() == if !old(self).spec_keys()[old(self).spec_regs()[opcode.x
                as int] as int] {
                old(self).spec_pc() + 2
            } else {
                old(self).spec_pc() as int
            },
            final(self).spec_regs() == old(self).spec_regs(),
            final(self).spec_index() == old(self).spec_index(),
            frame_core(*old(self), *final(self)),
    {
        if !self.key_pad.is_key_down(self.registers[opcode.x]) {
            self.program_counter.increment();
        }
    }

    /// `Fx07`: read the delay timer into `Vx`.
    pub fn op_fx07(&mut self, opcode: &Opcode)
        requires
            old(self).wf(),
            opcode.wf(),
        ensures
            final(self).wf(),
            final(self).spec_regs() == old(self).spec_regs().update(
                opcode.x as int,
                old(self).spec_delay(),
            ),
            final(self).spec_pc() == old(self).spec_pc(),
            final(self).spec_index() == old(self).spec_index(),
            frame_core(*old(self), *final(self)),
    {
        self.registers[opcode.x] = self.delay_timer.get();
    }

    /// `Fx0A`: blocking key-wait. Each cycle polls the key pad's release
    /// latch; until a latched key is released the program counter steps back
    /// over this instruction so it replays next cycle, and on release the
    /// key lands in `Vx` with the program counter left past the
    /// instruction.
    pub fn op_fx0a(&mut self, opcode: &Opcode)
        requires
            old(self).wf(),
            opcode.wf(),
            old(self).spec_pc() >= 2,
        ensures
            final(self).wf(),
            final(self).spec_index() == old(self).spec_index(),
            frame_latch_op(*old(self), *final(self)),
            match old(self).spec_latch() {
                None => {
                    &&& final(self).spec_latch() == lowest_down(old(self).spec_keys())
                    &&& final(self).spec_regs() == old(self).spec_regs()
                    &&& final(self).spec_pc() == old(self).spec_pc() - 2
                },
                Some(k) => {
                    if old(self).spec_keys()[k as int] {
                        &&& final(self).spec_latch() == Some(k)
                        &&& final(self).spec_regs() == old(self).spec_regs()
                        &&& final(self).spec_pc() == old(self).spec_pc() - 2
                    } else {
                        &&& final(self).spec_latch() is None
                        &&& final(self).spec_regs() == old(self).spec_regs().update(
                            opcode.x as int,
                            k,
                        )
                        &&& final(self).spec_pc() == old(self).spec_pc()
                    }
                },
            },
    {
        let res = self.key_pad.get_any_key_up();
        match res {
            Some(released) => {
                self.registers[opcode.x] = released;
            },
            None => {
                self.program_counter.decrement();
            },
        }
    }

    /// `Fx15`: load `Vx` into the delay timer.
    pub fn op_fx15(&mut self, opcode: &Opcode)
        requires
            old(self).wf(),
            opcode.wf(),
        ensures
            final(self).wf(),
            final(self).spec_delay() == old(self).spec_regs()[opcode.x as int],
            final(self).spec_sound() == old(self).spec_sound(),
            final(self).spec_regs() == old(self).spec_regs(),
            final(self).spec_pc() == old(self).spec_pc(),
            final(self).spec_index() == old(self).spec_index(),
            frame_timer_op(*old(self), *final(self)),
    {
        self.delay_timer.set(self.registers[opcode.x]);
    }

    /// `Fx18`: load `Vx` into the sound timer.
    pub fn op_fx18(&mut self, opcode: &Opcode)
        requires
            old(self).wf(),
            opcode.wf(),
        ensures
            final(self).wf(),
            final(self).spec_sound() == old(self).spec_regs()[opcode.x as int],
            final(self).spec_delay() == old(self).spec_delay(),
            final(self).spec_regs() == old(self).spec_regs(),
            final(self).spec_pc() == old(self).spec_pc(),
            final(self).spec_index() == old(self).spec_index(),
            frame_timer_op(*old(self), *final(self)),
    {
        self.sound_timer.set(self.registers[opcode.x]);
    }

    /// `Fx1E`: add `Vx` to the index register, wrapping modulo 2^16; no
    /// flag is set.
    pub fn op_fx1e(&mut self, opcode: &Opcode)
        requires
            old(self).wf(),
            opcode.wf(),
        ensures
            final(self).wf(),
            final(self).spec_index() == (old(self).spec_index() + old(self).spec_regs()[opcode.x
                as int]) % 0x10000,
            final(self).spec_regs() == old(self).spec_regs(),
            final(self).spec_pc() == old(self).spec_pc(),
            frame_core(*old(self), *final(self)),
    {
        let vx = self.registers[opcode.x];
        let sum: u32 = self.index_register as u32 + vx as u32;
        self.index_register = (sum % 0x10000) as u16;
    }

    /// `Fx29`: point the index register at the font glyph for the digit in
    /// `Vx`: five bytes per glyph above the font base offset.
    pub fn op_fx29(&mut self, opcode: &Opcode)
        requires
            old(self).wf(),
            opcode.wf(),
        ensures
            final(self).wf(),
            final(self).spec_index() == old(self).spec_regs()[opcode.x as int] * 5 + FONT_BASE,
            final(self).spec_regs() == old(self).spec_regs(),
            final(self).spec_pc() == old(self).spec_pc(),
            frame_core(*old(self), *final(self)),
    {
        let vx = self.registers[opcode.x];
        self.index_register = vx as u16 * 5 + FONT_BASE;
    }

    /// `Fx33`: store the three decimal digits of `Vx` at the index register:
    /// hundreds at `I`, tens at `I + 1`, ones at `I + 2`.
    pub fn op_fx33(&mut self, opcode: &Opcode)
        requires
            old(self).wf(),
            opcode.wf(),
            old(self).spec_index() + 2 < MEMORY_SIZE,
        ensures
            final(self).wf(),
            final(self).spec_mem() == {
                let vx = old(self).spec_regs()[opcode.x as int];
                let i0 = old(self).spec_index() as int;
                old(self).spec_mem().update(i0, (vx / 100) as u8).update(
                    i0 + 1,
                    ((vx / 10) % 10) as u8,
                ).update(i0 + 2, (vx % 10) as u8)
            },
            final(self).spec_regs() == old(self).spec_regs(),
            final(self).spec_pc() == old(self).spec_pc(),
            final(self).spec_index() == old(self).spec_index(),
            frame_mem_op(*old(self), *final(self)),
    {
        let vx = self.registers[opcode.x];
        let i0 = self.index_register;
        self.memory.set(i0, vx / 100);
        self.memory.set(i0 + 1, (vx / 10) % 10);
        self.memory.set(i0 + 2, vx % 10);
    }

    /// `Fx55`: store registers `V0` through `Vx` to memory starting at the
    /// index register, which is left advanced past the written bytes.
    pub fn op_fx55(&mut self, opcode: &Opcode)
        requires
            old(self).wf(),
            opcode.wf(),
            old(self).spec_index() + opcode.x < MEMORY_SIZE,
        ensures
            final(self).wf(),
            final(self).spec_mem() == mem_after_store(
                old(self).spec_mem(),
                old(self).spec_index() as int,
                old(self).spec_regs(),
                opcode.x as int,
            ),
            final(self).spec_index() == old(self).spec_index() + opcode.x + 1,
            final(self).spec_regs() == old(self).spec_regs(),
            final(self).spec_pc() == old(self).spec_pc(),
            frame_mem_op(*old(self), *final(self)),
    {
        let ghost i0 = old(self).spec_index() as int;
        let ghost xg = opcode.x as int;
        let mut i: usize = 0;
        while i <= opcode.x
            invariant
                old(self).wf(),
                self.wf(),
                opcode.wf(),
                i0 + xg < MEMORY_SIZE,
                i0 == old(self).spec_index(),
                xg == opcode.x,
                i <= xg + 1,
                self.spec_index() == i0 + i,
                self.spec_regs() == old(self).spec_regs(),
                self.spec_pc() == old(self).spec_pc(),
                frame_mem_op(*old(self), *self),
                self.spec_mem().len() == MEMORY_SIZE,
                forall|k: int|
                    i0 <= k < i0 + i ==> self.spec_mem()[k] == old(self).spec_regs()[k - i0],
                forall|k: int|
                    0 <= k < MEMORY_SIZE && !(i0 <= k < i0 + i) ==> self.spec_mem()[k] == old(
                        self,
                    ).spec_mem()[k],
            decreases xg + 1 - i,
        {
            self.memory.set(self.index_register, self.registers[i]);
            self.index_register = self.index_register + 1;
            i = i + 1;
        }
        proof {
            assert(self.spec_mem() =~= mem_after_store(
                old(self).spec_mem(),
                i0,
                old(self).spec_regs(),
                xg,
            ));
        }
    }

    /// `Fx65`: load registers `V0` through `Vx` from memory starting at the
    /// index register, which is left advanced past the read bytes.
    pub fn op_fx65(&mut self, opcode: &Opcode)
        requires
            old(self).wf(),
            opcode.wf(),
            old(self).spec_index() + opcode.x < MEMORY_SIZE,
        ensures
            final(self).wf(),
            final(self).spec_regs() == regs_after_load(
                old(self).spec_regs(),
                old(self).spec_mem(),
                old(self).spec_index() as int,
                opcode.x as int,
            ),
            final(self).spec_index() == old(self).spec_index() + opcode.x + 1,
            final(self).spec_mem() == old(self).spec_mem(),
            final(self).spec_pc() == old(self).spec_pc(),
            frame_core(*old(self), *final(self)),
    {
        let ghost i0 = old(self).spec_index() as int;
        let ghost xg = opcode.x as int;
        let mut i: usize = 0;
        while i <= opcode.x
            invariant
                old(self).wf(),
                self.wf(),
                opcode.wf(),
                i0 + xg < MEMORY_SIZE,
                i0 == old(self).spec_index(),
                xg == opcode.x,
                i <= xg + 1,
                self.spec_index() == i0 + i,
                self.spec_mem() == old(self).spec_mem(),
                self.spec_pc() == old(self).spec_pc(),
                frame_core(*old(self), *self),
                self.spec_regs().len() == 16,
                forall|k: int|
                    0 <= k < i ==> self.spec_regs()[k] == old(self).spec_mem()[i0 + k],
                forall|k: int|
                    i <= k < 16 ==> self.spec_regs()[k] == old(self).spec_regs()[k],
            decreases xg + 1 - i,
        {
            self.registers[i] = self.memory.get_as_u8(self.index_register);
            self.index_register = self.index_register + 1;
            i = i + 1;
        }
        proof {
            assert(self.spec_regs() =~= regs_after_load(
                old(self).spec_regs(),
                old(self).spec_mem(),
                i0,
                xg,
            ));
        }
    }

    /// The once-per-cycle tick of both timers.
    fn tick_timers(&mut self)
        requires
            old(self).wf(),
        ensures
            final(self).wf(),
            ticked(*old(self), *final(self)),
            final(self).spec_regs() == old(self).spec_regs(),
            final(self).spec_pc() == old(self).spec_pc(),
            final(self).spec_index() == old(self).spec_index(),
            final(self).spec_mem() == old(self).spec_mem(),
            final(self).spec_stack() == old(self).spec_stack(),
            final(self).spec_keys() == old(self).spec_keys(),
            final(self).spec_latch() == old(self).spec_latch(),
    {
        self.delay_timer.tick();
        self.sound_timer.tick();
    }

    /// One fetch-decode-execute-tick step: read the instruction word at the
    /// program counter, advance past it, dispatch it, and tick both timers.
    /// A fault (fetch or instruction access out of bounds, stack underflow
    /// on return, key index past `0xF`) is returned with the machine and
    /// the display untouched; an unrecognized word is a soft no-op that the
    /// outcome reports to the host.
    #[verifier::rlimit(100)]
    pub fn emulate_cycle(&mut self, display: &mut Display) -> (r: Result<
        CycleOutcome,
        Chip8Error,
    >)
        requires
            old(self).wf(),
            old(display).wf(),
        ensures
            final(self).wf(),
            final(display).wf(),
            cycle_rel(*old(self), *old(display), *final(self), *final(display), r),
    {
        let pc = self.program_counter.get();
        if pc as usize + 1 >= MEMORY_SIZE {
            return Err(Chip8Error::OutOfBounds(pc));
        }
        let w = self.memory.get_as_u16(pc);
        let opcode = Opcode::from_word(w);
        proof {
            lemma_nibbles_recompose(w);
        }
        if opcode.category == 0x0 && opcode.x == 0x0 && opcode.y == 0xE && opcode.n == 0x0 {
            self.program_counter.increment();
            self.op_00e0(display);
            self.tick_timers();
            return Ok(CycleOutcome { redraw: false, unsupported: None });
        } else if opcode.category == 0x0 && opcode.x == 0x0 && opcode.y == 0xE && opcode.n
            == 0xE {
            if self.stack.len() == 0 {
                return Err(Chip8Error::StackUnderflow);
            }
            self.program_counter.increment();
            self.op_00ee();
            self.tick_timers();
            return Ok(CycleOutcome { redraw: false, unsupported: None });
        } else if opcode.category == 0x1 {
            self.program_counter.increment();
            self.op_1nnn(&opcode);
            self.tick_timers();
            return Ok(CycleOutcome { redraw: false, unsupported: None });
        } else if opcode.category == 0x2 {
            self.program_counter.increment();
            self.op_2nnn(&opcode);
            self.tick_timers();
            return Ok(CycleOutcome { redraw: false, unsupported: None });
        } else if opcode.category == 0x3 {
            self.program_counter.increment();
            self.op_3xkk(&opcode);
            self.tick_timers();
            return Ok(CycleOutcome { redraw: false, unsupported: None });
        } else if opcode.category == 0x4 {
            self.program_counter.increment();
            self.op_4xkk(&opcode);
            self.tick_timers();
            return Ok(CycleOutcome { redraw: false, unsupported: None });
        } else if opcode.category == 0x5 {
            self.program_counter.increment();
            self.op_5xy0(&opcode);
            self.tick_timers();
            return Ok(CycleOutcome { redraw: false, unsupported: None });
        } else if opcode.category == 0x6 {
            self.program_counter.increment();
            self.op_6xkk(&opcode);
            self.tick_timers();
            return Ok(CycleOutcome { redraw: false, unsupported: None });
        } else if opcode.category == 0x7 {
            self.program_counter.increment();
            self.op_7xkk(&opcode);
            self.tick_timers();
            return Ok(CycleOutcome { redraw: false, unsupported: None });
        } else if opcode.category == 0x8 && opcode.n == 0x0 {
            self.program_counter.increment();
            self.op_8xy0(&opcode);
            self.tick_timers();
            return Ok(CycleOutcome { redraw: false, unsupported: None });
        } else if opcode.category == 0x8 && opcode.n == 0x1 {
            self.program_counter.increment();
            self.op_8xy1(&opcode);
            self.tick_timers();
            return Ok(CycleOutcome { redraw: false, unsupported: None });
        } else if opcode.category == 0x8 && opcode.n == 0x2 {
            self.program_counter.increment();
            self.op_8xy2(&opcode);
            self.tick_timers();
            return Ok(CycleOutcome { redraw: false, unsupported: None });
        } else if opcode.category == 0x8 && opcode.n == 0x3 {
            self.program_counter.increment();
            self.op_8xy3(&opcode);
            self.tick_timers();
            return Ok(CycleOutcome { redraw: false, unsupported: None });
        } else if opcode.category == 0x8 && opcode.n == 0x4 {
            self.program_counter.increment();
            self.op_8xy4(&opcode);
            self.tick_timers();
            return Ok(CycleOutcome { redraw: false, unsupported: None });
        } else if opcode.category == 0x8 && opcode.n == 0x5 {
            self.program_counter.increment();
            self.op_8xy5(&opcode);
            self.tick_timers();
            return Ok(CycleOutcome { redraw: false, unsupported: None });
        } else if opcode.category == 0x8 && opcode.n == 0x6 {
            self.program_counter.increment();
            self.op_8xy6(&opcode);
            self.tick_timers();
            return Ok(CycleOutcome { redraw: false, unsupported: None });
        } else if opcode.category == 0x8 && opcode.n == 0x7 {
            self.program_counter.increment();
            self.op_8xy7(&opcode);
            self.tick_timers();
            return Ok(CycleOutcome { redraw: false, unsupported: None });
        } else if opcode.category == 0x8 && opcode.n == 0xE {
            self.program_counter.increment();
            self.op_8xye(&opcode);
            self.tick_timers();
            return Ok(CycleOutcome { redraw: false, unsupported: None });
        } else if opcode.category == 0x9 {
            self.program_counter.increment();
            self.op_9xy0(&opcode);
            self.tick_timers();
            return Ok(CycleOutcome { redraw: false, unsupported: None });
        } else if opcode.category == 0xA {
            self.program_counter.increment();
            self.op_annn(&opcode);
            self.tick_timers();
            return Ok(CycleOutcome { redraw: false, unsupported: None });
        } else if opcode.category == 0xB {
            self.program_counter.increment();
            self.op_bnnn(&opcode);
            self.tick_timers();
            return Ok(CycleOutcome { redraw: false, unsupported: None });
        } else if opcode.category == 0xC {
            let b: u8 = rand::random::<u8>();
            self.program_counter.increment();
            self.op_cxkk(&opcode, b);
            proof {
                assert(cxkk_post(
                    old(self).spec_regs(),
                    self.spec_regs(),
                    nib_x(w),
                    word_kk(w),
                    b,
                ));
            }
            self.tick_timers();
            return Ok(CycleOutcome { redraw: false, unsupported: None });
        } else if opcode.category == 0xD {
            let vy = self.registers[opcode.y];
            let h = display.height();
            let y0: u16 = vy as u16 % h;
            let rows: u16 = if (opcode.n as u16) <= h - y0 {
                opcode.n as u16
            } else {
                h - y0
            };
            if self.index_register as usize + rows as usize > MEMORY_SIZE {
                return Err(Chip8Error::OutOfBounds(self.index_register));
            }
            self.program_counter.increment();
            self.op_dxyn(&opcode, display);
            self.tick_timers();
            return Ok(CycleOutcome { redraw: true, unsupported: None });
        } else if opcode.category == 0xE && opcode.y == 0x9 && opcode.n == 0xE {
            if self.registers[opcode.x] >= 16 {
                return Err(Chip8Error::KeyOutOfRange(self.registers[opcode.x]));
            }
            self.program_counter.increment();
            self.op_ex9e(&opcode);
            self.tick_timers();
            return Ok(CycleOutcome { redraw: false, unsupported: None });
        } else if opcode.category == 0xE && opcode.y == 0xA && opcode.n == 0x1 {
            if self.registers[opcode.x] >= 16 {
                return Err(Chip8Error::KeyOutOfRange(self.registers[opcode.x]));
            }
            self.program_counter.increment();
            self.op_exa1(&opcode);
            self.tick_timers();
            return Ok(CycleOutcome { redraw: false, unsupported: None });
        } else if opcode.category == 0xF && opcode.y == 0x0 && opcode.n == 0x7 {
            self.program_counter.increment();
            self.op_fx07(&opcode);
            self.tick_timers();
            return Ok(CycleOutcome { redraw: false, unsupported: None });
        } else if opcode.category == 0xF && opcode.y == 0x0 && opcode.n == 0xA {
            self.program_counter.increment();
            self.op_fx0a(&opcode);
            self.tick_timers();
            return Ok(CycleOutcome { redraw: false, unsupported: None });
        } else if opcode.category == 0xF && opcode.y == 0x1 && opcode.n == 0x5 {
            self.program_counter.increment();
            self.op_fx15(&opcode);
            self.tick_timers();
            return Ok(CycleOutcome { redraw: false, unsupported: None });
        } else if opcode.category == 0xF && opcode.y == 0x1 && opcode.n == 0x8 {
            self.program_counter.increment();
            self.op_fx18(&opcode);
            self.tick_timers();
            return Ok(CycleOutcome { redraw: false, unsupported: None });
        } else if opcode.category == 0xF && opcode.y == 0x1 && opcode.n == 0xE {
            self.program_counter.increment();
            self.op_fx1e(&opcode);
            self.tick_timers();
            return Ok(CycleOutcome { redraw: false, unsupported: None });
        } else if opcode.category == 0xF && opcode.y == 0x2 && opcode.n == 0x9 {
            self.program_counter.increment();
            self.op_fx29(&opcode);
            self.tick_timers();
            return Ok(CycleOutcome { redraw: false, unsupported: None });
        } else if opcode.category == 0xF && opcode.y == 0x3 && opcode.n == 0x3 {
            if self.index_register as usize + 2 >= MEMORY_SIZE {
                return Err(Chip8Error::OutOfBounds(self.index_register));
            }
            self.program_counter.increment();
            self.op_fx33(&opcode);
            self.tick_timers();
            return Ok(CycleOutcome { redraw: false, unsupported: None });
        } else if opcode.category == 0xF && opcode.y == 0x5 && opcode.n == 0x5 {
            if self.index_register as usize + opcode.x >= MEMORY_SIZE {
                return Err(Chip8Error::OutOfBounds(self.index_register));
            }
            self.program_counter.increment();
            self.op_fx55(&opcode);
            self.tick_timers();
            return Ok(CycleOutcome { redraw: false, unsupported: None });
        } else if opcode.category == 0xF && opcode.y == 0x6 && opcode.n == 0x5 {
            if self.index_register as usize + opcode.x >= MEMORY_SIZE {
                return Err(Chip8Error::OutOfBounds(self.index_register));
            }
            self.program_counter.increment();
            self.op_fx65(&opcode);
            self.tick_timers();
            return Ok(CycleOutcome { redraw: false, unsupported: None });
        }
        self.program_counter.increment();
        self.tick_timers();
        Ok(CycleOutcome { redraw: false, unsupported: Some(w) })
    }

    /// The value of register `x`.
    pub fn get_register(&self, x: u8) -> (r: u8)
        requires
            self.wf(),
            x < 16,
        ensures
            r == self.spec_regs()[x as int],
    {
        self.registers[x as usize]
    }

    /// The current program counter.
    pub fn get_program_counter(&self) -> (r: u16)
        ensures
            r == self.spec_pc(),
    {
        self.program_counter.get()
    }

    /// The current index register.
    pub fn get_index_register(&self) -> (r: u16)
        ensures
            r == self.spec_index(),
    {
        self.index_register
    }

    /// The byte of memory at `addr`.
    pub fn read_memory(&self, addr: u16) -> (r: u8)
        requires
            self.wf(),
            addr < MEMORY_SIZE,
        ensures
            r == self.spec_mem()[addr as int],
    {
        self.memory.get_as_u8(addr)
    }

    /// The delay timer value.
    pub fn get_delay_timer(&self) -> (r: u8)
        ensures
            r == self.spec_delay(),
    {
        self.delay_timer.get()
    }

    /// The sound timer value.
    pub fn get_sound_timer(&self) -> (r: u8)
        ensures
            r == self.spec_sound(),
    {
        self.sound_timer.get()
    }
}

} // verus!
