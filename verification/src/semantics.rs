use vstd::prelude::*;

use crate::cpu::MachineView;
use crate::cpu::SCREEN_HEIGHT;
use crate::cpu::SCREEN_LINE_SIZE_IN_BYTES;
use crate::cpu::SCREEN_WIDTH;
use crate::cpu::STACK_SIZE;
use crate::display::byte_bit;
use crate::display::spec_pixel;
use crate::error::Chip8Error;
use crate::keyboard::key_down;
use crate::keyboard::lowest_key;
use crate::memory::spec_valid_range;
use crate::memory::MemoryUsage;
use crate::opcode::OpCode;

verus! {

/// The fault a machine in state `m` raises when asked to execute `op`, or
/// nothing when the operation can proceed. Every fault is detected before
/// any state is mutated.
pub open spec fn op_fault(m: MachineView, op: OpCode) -> Option<Chip8Error> {
    match op {
        OpCode::RET => if m.sp == 0 {
            Some(Chip8Error::StackUnderflow)
        } else if !spec_valid_range(m.stack[m.sp as int] + 2, 2, MemoryUsage::Execute) {
            Some(Chip8Error::InvalidMemoryRange)
        } else {
            None
        },
        OpCode::JP { addr } => if addr % 2 != 0 {
            Some(Chip8Error::MisalignedAddress)
        } else if !spec_valid_range(addr as int, 2, MemoryUsage::Execute) {
            Some(Chip8Error::InvalidMemoryRange)
        } else {
            None
        },
        OpCode::CALL { addr } => if addr % 2 != 0 {
            Some(Chip8Error::MisalignedAddress)
        } else if !spec_valid_range(addr as int, 2, MemoryUsage::Execute) {
            Some(Chip8Error::InvalidMemoryRange)
        } else if m.sp >= STACK_SIZE - 1 {
            Some(Chip8Error::StackOverflow)
        } else {
            None
        },
        OpCode::SE { .. } | OpCode::SNE { .. } | OpCode::SE2 { .. } | OpCode::SNE2 { .. } => if
        !spec_valid_range(m.pc as int, 6, MemoryUsage::Execute) {
            Some(Chip8Error::InvalidMemoryRange)
        } else {
            None
        },
        OpCode::SKP { reg } | OpCode::SKNP { reg } => if !spec_valid_range(
            m.pc as int,
            6,
            MemoryUsage::Execute,
        ) {
            Some(Chip8Error::InvalidMemoryRange)
        } else if m.regs[reg as int] >= 16 {
            Some(Chip8Error::InvalidKey)
        } else {
            None
        },
        OpCode::JP2 { addr } => if (addr + m.regs[0]) % 2 != 0 {
            Some(Chip8Error::MisalignedAddress)
        } else if !spec_valid_range(addr + m.regs[0], 2, MemoryUsage::Execute) {
            Some(Chip8Error::InvalidMemoryRange)
        } else {
            None
        },
        OpCode::DRW { reg_x: _, reg_y: _, size } => if size == 0 {
            Some(Chip8Error::InvalidRangeSize)
        } else if !spec_valid_range(m.index as int, size as int, MemoryUsage::Read) {
            Some(Chip8Error::InvalidMemoryRange)
        } else {
            None
        },
        OpCode::ADDI { reg } => if m.index + m.regs[reg as int] > 0xFFFF {
            Some(Chip8Error::AddressOverflow)
        } else {
            None
        },
        OpCode::LDF { reg } => if m.regs[reg as int] > 0xF {
            Some(Chip8Error::InvalidGlyphIndex)
        } else {
            None
        },
        OpCode::LDB { .. } => if !spec_valid_range(m.index as int, 3, MemoryUsage::Write) {
            Some(Chip8Error::InvalidMemoryRange)
        } else {
            None
        },
        OpCode::LDAI { reg } => if !spec_valid_range(
            m.index as int,
            reg + 1,
            MemoryUsage::Write,
        ) {
            Some(Chip8Error::InvalidMemoryRange)
        } else {
            None
        },
        OpCode::LDM { reg } => if !spec_valid_range(m.index as int, reg + 1, MemoryUsage::Read) {
            Some(Chip8Error::InvalidMemoryRange)
        } else {
            None
        },
        _ => None,
    }
}

/// An all-dark display surface.
pub open spec fn blank_screen() -> Seq<Seq<u8>> {
    Seq::new(
        SCREEN_HEIGHT as nat,
        |y: int| Seq::new(SCREEN_LINE_SIZE_IN_BYTES as nat, |b: int| 0u8),
    )
}

/// The memory image after copying registers 0 through `reg` to the range
/// starting at `index`.
pub open spec fn mem_with_regs(m: MachineView, reg: u8) -> Seq<u8> {
    Seq::new(
        m.mem.len(),
        |a: int|
            if m.index <= a <= m.index + reg {
                m.regs[a - m.index]
            } else {
                m.mem[a]
            },
    )
}

/// The register file after filling registers 0 through `reg` from the
/// memory range starting at `index`.
pub open spec fn regs_from_mem(m: MachineView, reg: u8) -> Seq<u8> {
    Seq::new(
        m.regs.len(),
        |r: int|
            if r <= reg {
                m.mem[m.index + r]
            } else {
                m.regs[r]
            },
    )
}

/// The state a fault-free execution of `op` leaves the machine in, for
/// every operation whose result is a function of the starting state. The
/// two operations that are not — RND, which draws a random byte, and DRW,
/// whose surface is pinned pixel by pixel — are described relationally by
/// `op_effect` and ignore this function.
pub open spec fn op_core(m: MachineView, op: OpCode) -> MachineView {
    match op {
        OpCode::CLS => MachineView { screen: blank_screen(), ..m },
        OpCode::RET => MachineView {
            pc: (m.stack[m.sp as int] + 2) as u16,
            sp: (m.sp - 1) as u8,
            ..m
        },
        OpCode::SYS { .. } => m,
        OpCode::JP { addr } => MachineView { pc: addr, ..m },
        OpCode::CALL { addr } => MachineView {
            sp: (m.sp + 1) as u8,
            stack: m.stack.update(m.sp + 1, m.pc),
            pc: addr,
            ..m
        },
        OpCode::SE { reg, value } => if m.regs[reg as int] == value {
            MachineView { pc: (m.pc + 4) as u16, ..m }
        } else {
            m
        },
        OpCode::SNE { reg, value } => if m.regs[reg as int] != value {
            MachineView { pc: (m.pc + 4) as u16, ..m }
        } else {
            m
        },
        OpCode::SE2 { reg_x, reg_y } => if m.regs[reg_x as int] == m.regs[reg_y as int] {
            MachineView { pc: (m.pc + 4) as u16, ..m }
        } else {
            m
        },
        OpCode::SNE2 { reg_x, reg_y } => if m.regs[reg_x as int] != m.regs[reg_y as int] {
            MachineView { pc: (m.pc + 4) as u16, ..m }
        } else {
            m
        },
        OpCode::LD { reg, value } => MachineView { regs: m.regs.update(reg as int, value), ..m },
        OpCode::ADD { reg, value } => MachineView {
            regs: m.regs.update(
                reg as int,
                vstd::wrapping::u8_specs::wrapping_add(m.regs[reg as int], value),
            ),
            ..m
        },
        OpCode::LD2 { reg_x, reg_y } => MachineView {
            regs: m.regs.update(reg_x as int, m.regs[reg_y as int]),
            ..m
        },
        OpCode::OR { reg_x, reg_y } => MachineView {
            regs: m.regs.update(reg_x as int, m.regs[reg_x as int] | m.regs[reg_y as int]),
            ..m
        },
        OpCode::AND { reg_x, reg_y } => MachineView {
            regs: m.regs.update(reg_x as int, m.regs[reg_x as int] & m.regs[reg_y as int]),
            ..m
        },
        OpCode::XOR { reg_x, reg_y } => MachineView {
            regs: m.regs.update(reg_x as int, m.regs[reg_x as int] ^ m.regs[reg_y as int]),
            ..m
        },
        // The carry is derived from the wrapped sum exceeding the first
        // addend, exactly as the interpreter computes it: a wrapped-around
        // sum never exceeds it, a strict growth always does.
        OpCode::ADD2 { reg_x, reg_y } => MachineView {
            regs: m.regs.update(
                reg_x as int,
                vstd::wrapping::u8_specs::wrapping_add(m.regs[reg_x as int], m.regs[reg_y as int]),
            ).update(
                15,
                if vstd::wrapping::u8_specs::wrapping_add(
                    m.regs[reg_x as int],
                    m.regs[reg_y as int],
                ) > m.regs[reg_x as int] {
                    0u8
                } else {
                    1u8
                },
            ),
            ..m
        },
        OpCode::SUB { reg_x, reg_y } => MachineView {
            regs: m.regs.update(
                reg_x as int,
                vstd::wrapping::u8_specs::wrapping_sub(m.regs[reg_x as int], m.regs[reg_y as int]),
            ).update(
                15,
                if m.regs[reg_x as int] > m.regs[reg_y as int] {
                    1u8
                } else {
                    0u8
                },
            ),
            ..m
        },
        OpCode::SUBN { reg_x, reg_y } => MachineView {
            regs: m.regs.update(
                reg_x as int,
                vstd::wrapping::u8_specs::wrapping_sub(m.regs[reg_y as int], m.regs[reg_x as int]),
            ).update(
                15,
                if m.regs[reg_y as int] > m.regs[reg_x as int] {
                    1u8
                } else {
                    0u8
                },
            ),
            ..m
        },
        OpCode::SHR { reg_x, reg_y: _ } => MachineView {
            regs: m.regs.update(reg_x as int, m.regs[reg_x as int] >> 1u8).update(
                15,
                m.regs[reg_x as int] & 0x01,
            ),
            ..m
        },
        OpCode::SHL { reg_x, reg_y: _ } => MachineView {
            regs: m.regs.update(reg_x as int, m.regs[reg_x as int] << 1u8).update(
                15,
                if m.regs[reg_x as int] & 0x80 != 0 {
                    1u8
                } else {
                    0u8
                },
            ),
            ..m
        },
        OpCode::LDI { addr } => MachineView { index: addr, ..m },
        OpCode::JP2 { addr } => MachineView { pc: (addr + m.regs[0]) as u16, ..m },
        OpCode::SKP { reg } => if key_down(m.keys, m.regs[reg as int]) {
            MachineView { pc: (m.pc + 4) as u16, ..m }
        } else {
            m
        },
        OpCode::SKNP { reg } => if !key_down(m.keys, m.regs[reg as int]) {
            MachineView { pc: (m.pc + 4) as u16, ..m }
        } else {
            m
        },
        OpCode::LDT { reg } => MachineView { regs: m.regs.update(reg as int, m.delay_timer), ..m },
        OpCode::LDK { reg } => if !m.waiting {
            MachineView { waiting: true, ..m }
        } else {
            let pressed = !m.keys_prev & m.keys;
            if pressed != 0 {
                MachineView {
                    regs: m.regs.update(reg as int, lowest_key(pressed) as u8),
                    waiting: false,
                    ..m
                }
            } else {
                m
            }
        },
        OpCode::LDDT { reg } => MachineView { delay_timer: m.regs[reg as int], ..m },
        OpCode::LDST { reg } => MachineView { sound_timer: m.regs[reg as int], ..m },
        OpCode::ADDI { reg } => MachineView { index: (m.index + m.regs[reg as int]) as u16, ..m },
        OpCode::LDF { reg } => MachineView { index: m.fonts[m.regs[reg as int] as int], ..m },
        OpCode::LDB { reg } => MachineView {
            mem: m.mem.update(m.index as int, ((m.regs[reg as int] / 100) % 10) as u8).update(
                m.index + 1,
                ((m.regs[reg as int] / 10) % 10) as u8,
            ).update(m.index + 2, (m.regs[reg as int] % 10) as u8),
            ..m
        },
        OpCode::LDAI { reg } => MachineView { mem: mem_with_regs(m, reg), ..m },
        OpCode::LDM { reg } => MachineView { regs: regs_from_mem(m, reg), ..m },
        OpCode::RND { .. } => m,
        OpCode::DRW { .. } => m,
    }
}

/// Whether the `size`-row sprite held at `index` in `mem`, blitted at
/// origin (`x0`, `y0`) with wraparound on both axes, puts a lit bit on
/// pixel (`x`, `y`). Row bytes are scanned most significant bit first.
pub open spec fn sprite_bit(
    mem: Seq<u8>,
    index: int,
    x0: int,
    y0: int,
    size: int,
    x: int,
    y: int,
) -> bool {
    exists|r: int, k: int|
        0 <= r < size && 0 <= k < 8 && (y0 + r) % (SCREEN_HEIGHT as int) == y && (x0 + k) % (
        SCREEN_WIDTH as int) == x && #[trigger] byte_bit(mem[index + r], (7 - k) as u8)
}

/// Whether blitting that sprite onto `m`'s surface erases some lit pixel.
pub open spec fn drw_collision(m: MachineView, x0: int, y0: int, size: int) -> bool {
    exists|x: int, y: int|
        0 <= x < SCREEN_WIDTH && 0 <= y < SCREEN_HEIGHT && spec_pixel(m.screen, x, y)
            && sprite_bit(m.mem, m.index as int, x0, y0, size, x, y)
}

/// The XOR blit of DRW: pixel by pixel, the new surface is the old one
/// XORed with the sprite read from memory at the index register, both
/// coordinates wrapping; VF reports whether some lit pixel was erased.
pub open spec fn drw_effect(
    pre: MachineView,
    post: MachineView,
    reg_x: u8,
    reg_y: u8,
    size: u8,
) -> bool {
    let x0 = pre.regs[reg_x as int] as int;
    let y0 = pre.regs[reg_y as int] as int;
    let lit = drw_collision(pre, x0, y0, size as int);
    &&& post.screen.len() == SCREEN_HEIGHT
    &&& (forall|y: int| 0 <= y < SCREEN_HEIGHT ==> (#[trigger] post.screen[y]).len()
        == SCREEN_LINE_SIZE_IN_BYTES)
    &&& (forall|x: int, y: int|
        0 <= x < SCREEN_WIDTH && 0 <= y < SCREEN_HEIGHT ==> spec_pixel(post.screen, x, y) == (
        spec_pixel(pre.screen, x, y) != sprite_bit(
            pre.mem,
            pre.index as int,
            x0,
            y0,
            size as int,
            x,
            y,
        )))
    &&& post == (MachineView {
        screen: post.screen,
        regs: pre.regs.update(
            15,
            if lit {
                1u8
            } else {
                0u8
            },
        ),
        ..pre
    })
}

/// How a fault-free `op` relates the machine before to the machine after,
/// before the post-execution rule is applied: a function of the starting
/// state for every operation but RND, whose drawn byte is arbitrary, and
/// DRW, whose surface is pinned pixel by pixel.
pub open spec fn op_effect(pre: MachineView, post: MachineView, op: OpCode) -> bool {
    match op {
        OpCode::RND { reg, value } => exists|random: u8|
            post == (MachineView { regs: pre.regs.update(reg as int, random & value), ..pre }),
        OpCode::DRW { reg_x, reg_y, size } => drw_effect(pre, post, reg_x, reg_y, size),
        _ => post == op_core(pre, op),
    }
}

/// The rule applied after every executed instruction: the program counter
/// advances by two only when the opcode left its value unchanged and the
/// machine is not blocked on a key read, and the key-state snapshot is
/// taken unconditionally.
pub open spec fn post_rule(pre: MachineView, mid: MachineView) -> MachineView {
    MachineView {
        pc: if mid.pc == pre.pc && !mid.waiting {
            vstd::wrapping::u16_specs::wrapping_add(mid.pc, 2)
        } else {
            mid.pc
        },
        keys_prev: mid.keys,
        ..mid
    }
}

/// The complete transition a fault-free instruction makes: its own effect
/// followed by the post-execution rule.
pub open spec fn op_step(pre: MachineView, post: MachineView, op: OpCode) -> bool {
    match op {
        OpCode::RND { .. } | OpCode::DRW { .. } => exists|mid: MachineView|
            op_effect(pre, mid, op) && post == post_rule(pre, mid),
        _ => post == post_rule(pre, op_core(pre, op)),
    }
}

/// The flag register after a DRW reports exactly whether the XOR blit
/// cleared some pixel that was lit before it.
pub proof fn lemma_drw_flag_reports_erasure(
    pre: MachineView,
    post: MachineView,
    reg_x: u8,
    reg_y: u8,
    size: u8,
)
    requires
        pre.wf(),
        reg_x < 16,
        reg_y < 16,
        drw_effect(pre, post, reg_x, reg_y, size),
    ensures
        post.regs[15] == 1 || post.regs[15] == 0,
        post.regs[15] == 1 <==> exists|x: int, y: int|
            0 <= x < SCREEN_WIDTH && 0 <= y < SCREEN_HEIGHT && spec_pixel(pre.screen, x, y) && !(
            #[trigger] spec_pixel(post.screen, x, y)),
{
    let x0 = pre.regs[reg_x as int] as int;
    let y0 = pre.regs[reg_y as int] as int;
    if drw_collision(pre, x0, y0, size as int) {
        let (x, y) = choose|x: int, y: int|
            0 <= x < SCREEN_WIDTH && 0 <= y < SCREEN_HEIGHT && #[trigger] spec_pixel(
                pre.screen,
                x,
                y,
            ) && sprite_bit(pre.mem, pre.index as int, x0, y0, size as int, x, y);
        assert(!spec_pixel(post.screen, x, y));
    }
    if exists|x: int, y: int|
        0 <= x < SCREEN_WIDTH && 0 <= y < SCREEN_HEIGHT && spec_pixel(pre.screen, x, y) && !(
        #[trigger] spec_pixel(post.screen, x, y)) {
        let (x, y) = choose|x: int, y: int|
            0 <= x < SCREEN_WIDTH && 0 <= y < SCREEN_HEIGHT && spec_pixel(pre.screen, x, y) && !(
            #[trigger] spec_pixel(post.screen, x, y));
        assert(sprite_bit(pre.mem, pre.index as int, x0, y0, size as int, x, y));
        assert(drw_collision(pre, x0, y0, size as int));
    }
}

/// A fault-free CALL followed by the matching fault-free RET restores the
/// stack pointer and leaves the program counter two past the call site.
/// The two call targets on which the claim does not hold are left out: a
/// call to its own address or to the following instruction makes the
/// post-execution rule advance the program counter once more.
pub proof fn lemma_call_then_ret(s0: MachineView, s1: MachineView, s2: MachineView, addr: u16)
    requires
        s0.wf(),
        op_fault(s0, OpCode::CALL { addr }) is None,
        op_step(s0, s1, OpCode::CALL { addr }),
        op_fault(s1, OpCode::RET) is None,
        op_step(s1, s2, OpCode::RET),
        addr != s0.pc,
        addr != s0.pc + 2,
    ensures
        s2.pc == s0.pc + 2,
        s2.sp == s0.sp,
{
    assert(s1.pc == addr);
    assert(s1.sp == s0.sp + 1);
    assert(s1.stack[s1.sp as int] == s0.pc);
}

/// The blocking key read: LDK raises the waiting flag on first entry and
/// then holds the program counter in place until some key goes down
/// between the two key snapshots. The first step that sees such a key
/// stores the lowest-numbered newly-pressed key in the target register,
/// clears the flag, and lets the program counter advance past the
/// instruction.
pub proof fn lemma_ldk_blocks_until_new_key(pre: MachineView, post: MachineView, reg: u8)
    requires
        pre.wf(),
        reg < 16,
        op_step(pre, post, OpCode::LDK { reg }),
    ensures
        post.keys_prev == pre.keys,
        !pre.waiting ==> post.waiting && post.pc == pre.pc && post.regs == pre.regs,
        pre.waiting && (!pre.keys_prev & pre.keys) == 0 ==> post.waiting && post.pc == pre.pc
            && post.regs == pre.regs,
        pre.waiting && (!pre.keys_prev & pre.keys) != 0 ==> {
            let newly = !pre.keys_prev & pre.keys;
            &&& !post.waiting
            &&& post.pc == vstd::wrapping::u16_specs::wrapping_add(pre.pc, 2)
            &&& post.regs == pre.regs.update(reg as int, lowest_key(newly) as u8)
            &&& key_down(newly, post.regs[reg as int])
            &&& (forall|j: u8| (j as int) < post.regs[reg as int] ==> !key_down(newly, j))
        },
{
    if pre.waiting && (!pre.keys_prev & pre.keys) != 0 {
        let newly = !pre.keys_prev & pre.keys;
        crate::keyboard::lemma_lowest_key_props(newly);
        assert(post.regs[reg as int] == lowest_key(newly) as u8);
    }
}

} // verus!
