//! Instruction decoding and semantics: the raw 16-bit opcode is decoded into
//! a closed enumeration of instruction variants, and the effect of each
//! variant on the machine state is a spec-level step function.

use crate::display::draw_collision;
use crate::display::draw_fb;
use crate::font::FONT_SPRITES_MEM_ADDR;
use crate::font::FONT_SPRITE_LEN;
use crate::state::Fault;
use crate::state::State;
use vstd::arithmetic::div_mod::lemma_fundamental_div_mod_converse_mod;
use vstd::prelude::*;

verus! {

/// One decoded instruction. `x` and `y` name registers (always below 16),
/// `kk` is an 8-bit immediate, `n` a 4-bit sprite height, and the `u16`
/// payloads are 12-bit addresses.
pub enum Instr {
    /// 00E0: turn every pixel off.
    ClearScreen,
    /// 00EE: pop the return address into the program counter.
    Return,
    /// 1nnn: jump.
    Jump(u16),
    /// 2nnn: push the program counter and jump.
    Call(u16),
    /// 3xkk: skip the next instruction if Vx equals the immediate.
    SkipEqImm { x: u8, kk: u8 },
    /// 4xkk: skip the next instruction if Vx differs from the immediate.
    SkipNeImm { x: u8, kk: u8 },
    /// 5xy0: skip the next instruction if Vx equals Vy.
    SkipEqReg { x: u8, y: u8 },
    /// 9xy0: skip the next instruction if Vx differs from Vy.
    SkipNeReg { x: u8, y: u8 },
    /// 6xkk: set Vx to the immediate.
    SetImm { x: u8, kk: u8 },
    /// 7xkk: add the immediate to Vx, wrapping, no flag.
    AddImm { x: u8, kk: u8 },
    /// 8xy0: copy Vy into Vx.
    Copy { x: u8, y: u8 },
    /// 8xy1: bitwise or.
    Or { x: u8, y: u8 },
    /// 8xy2: bitwise and.
    And { x: u8, y: u8 },
    /// 8xy3: bitwise xor.
    Xor { x: u8, y: u8 },
    /// 8xy4: add Vy to Vx; VF becomes the carry.
    Add { x: u8, y: u8 },
    /// 8xy5: subtract Vy from Vx; VF becomes 1 when there was no borrow.
    Sub { x: u8, y: u8 },
    /// 8xy7: set Vx to Vy minus Vx; VF becomes 1 when there was no borrow.
    SubFrom { x: u8, y: u8 },
    /// 8xy6: halve Vx; VF becomes the bit shifted out.
    ShiftRight { x: u8 },
    /// 8xyE: double Vx, wrapping; VF becomes the bit shifted out.
    ShiftLeft { x: u8 },
    /// Annn: set the index register.
    SetIndex(u16),
    /// Bnnn: set the index register to the address plus V0.
    IndexPlusV0(u16),
    /// Cxkk: set Vx to a random byte masked by the immediate.
    Random { x: u8, kk: u8 },
    /// Dxyn: draw the n-byte sprite at the index register anchored at (Vx, Vy).
    Draw { x: u8, y: u8, n: u8 },
    /// Ex9E: skip the next instruction if key Vx is pressed.
    SkipKey { x: u8 },
    /// ExA1: skip the next instruction if key Vx is not pressed.
    SkipNoKey { x: u8 },
    /// Fx07: copy the delay timer into Vx.
    GetDelay { x: u8 },
    /// Fx0A: suspend execution until a key press lands in Vx.
    WaitKey { x: u8 },
    /// Fx15: set the delay timer from Vx.
    SetDelay { x: u8 },
    /// Fx18: set the sound timer from Vx.
    SetSound { x: u8 },
    /// Fx1E: add Vx to the index register, wrapping, no flag.
    AddIndex { x: u8 },
    /// Fx29: point the index register at the glyph for digit Vx.
    FontAddr { x: u8 },
    /// Fx33: store the decimal digits of Vx at the index register.
    StoreBcd { x: u8 },
    /// Fx55: copy V0 through Vx into memory at the index register.
    StoreRegs { x: u8 },
    /// Fx65: load V0 through Vx from memory at the index register.
    LoadRegs { x: u8 },
}

/// What a 16-bit opcode decodes to; `None` for the byte patterns that match
/// no instruction of the set.
pub open spec fn spec_decode(op: u16) -> Option<Instr> {
    let a = op / 0x1000;
    let x = ((op / 0x100) % 0x10) as u8;
    let y = ((op / 0x10) % 0x10) as u8;
    let n = (op % 0x10) as u8;
    let kk = (op % 0x100) as u8;
    let nnn = op % 0x1000;
    match (a, x, y, n) {
        (0x0, 0x0, 0xE, 0x0) => Some(Instr::ClearScreen),
        (0x0, 0x0, 0xE, 0xE) => Some(Instr::Return),
        (0x1, _, _, _) => Some(Instr::Jump(nnn)),
        (0x2, _, _, _) => Some(Instr::Call(nnn)),
        (0x3, _, _, _) => Some(Instr::SkipEqImm { x, kk }),
        (0x4, _, _, _) => Some(Instr::SkipNeImm { x, kk }),
        (0x5, _, _, 0x0) => Some(Instr::SkipEqReg { x, y }),
        (0x6, _, _, _) => Some(Instr::SetImm { x, kk }),
        (0x7, _, _, _) => Some(Instr::AddImm { x, kk }),
        (0x8, _, _, 0x0) => Some(Instr::Copy { x, y }),
        (0x8, _, _, 0x1) => Some(Instr::Or { x, y }),
        (0x8, _, _, 0x2) => Some(Instr::And { x, y }),
        (0x8, _, _, 0x3) => Some(Instr::Xor { x, y }),
        (0x8, _, _, 0x4) => Some(Instr::Add { x, y }),
        (0x8, _, _, 0x5) => Some(Instr::Sub { x, y }),
        (0x8, _, _, 0x6) => Some(Instr::ShiftRight { x }),
        (0x8, _, _, 0x7) => Some(Instr::SubFrom { x, y }),
        (0x8, _, _, 0xE) => Some(Instr::ShiftLeft { x }),
        (0x9, _, _, 0x0) => Some(Instr::SkipNeReg { x, y }),
        (0xA, _, _, _) => Some(Instr::SetIndex(nnn)),
        (0xB, _, _, _) => Some(Instr::IndexPlusV0(nnn)),
        (0xC, _, _, _) => Some(Instr::Random { x, kk }),
        (0xD, _, _, _) => Some(Instr::Draw { x, y, n }),
        (0xE, _, 0x9, 0xE) => Some(Instr::SkipKey { x }),
        (0xE, _, 0xA, 0x1) => Some(Instr::SkipNoKey { x }),
        (0xF, _, 0x0, 0x7) => Some(Instr::GetDelay { x }),
        (0xF, _, 0x0, 0xA) => Some(Instr::WaitKey { x }),
        (0xF, _, 0x1, 0x5) => Some(Instr::SetDelay { x }),
        (0xF, _, 0x1, 0x8) => Some(Instr::SetSound { x }),
        (0xF, _, 0x1, 0xE) => Some(Instr::AddIndex { x }),
        (0xF, _, 0x2, 0x9) => Some(Instr::FontAddr { x }),
        (0xF, _, 0x3, 0x3) => Some(Instr::StoreBcd { x }),
        (0xF, _, 0x5, 0x5) => Some(Instr::StoreRegs { x }),
        (0xF, _, 0x6, 0x5) => Some(Instr::LoadRegs { x }),
        _ => None,
    }
}

/// Bounds that decoding guarantees: register operands are nibbles, sprite
/// heights are nibbles, addresses are 12 bits.
pub open spec fn instr_wf(i: Instr) -> bool {
    match i {
        Instr::ClearScreen => true,
        Instr::Return => true,
        Instr::Jump(nnn) => nnn < 0x1000,
        Instr::Call(nnn) => nnn < 0x1000,
        Instr::SkipEqImm { x, kk } => x < 16,
        Instr::SkipNeImm { x, kk } => x < 16,
        Instr::SkipEqReg { x, y } => x < 16 && y < 16,
        Instr::SkipNeReg { x, y } => x < 16 && y < 16,
        Instr::SetImm { x, kk } => x < 16,
        Instr::AddImm { x, kk } => x < 16,
        Instr::Copy { x, y } => x < 16 && y < 16,
        Instr::Or { x, y } => x < 16 && y < 16,
        Instr::And { x, y } => x < 16 && y < 16,
        Instr::Xor { x, y } => x < 16 && y < 16,
        Instr::Add { x, y } => x < 16 && y < 16,
        Instr::Sub { x, y } => x < 16 && y < 16,
        Instr::SubFrom { x, y } => x < 16 && y < 16,
        Instr::ShiftRight { x } => x < 16,
        Instr::ShiftLeft { x } => x < 16,
        Instr::SetIndex(nnn) => nnn < 0x1000,
        Instr::IndexPlusV0(nnn) => nnn < 0x1000,
        Instr::Random { x, kk } => x < 16,
        Instr::Draw { x, y, n } => x < 16 && y < 16 && n < 16,
        Instr::SkipKey { x } => x < 16,
        Instr::SkipNoKey { x } => x < 16,
        Instr::GetDelay { x } => x < 16,
        Instr::WaitKey { x } => x < 16,
        Instr::SetDelay { x } => x < 16,
        Instr::SetSound { x } => x < 16,
        Instr::AddIndex { x } => x < 16,
        Instr::FontAddr { x } => x < 16,
        Instr::StoreBcd { x } => x < 16,
        Instr::StoreRegs { x } => x < 16,
        Instr::LoadRegs { x } => x < 16,
    }
}

/// Splits an opcode into its four nibbles and picks the instruction variant.
pub fn decode(op: u16) -> (r: Option<Instr>)
    ensures
        r == spec_decode(op),
        r matches Some(i) ==> instr_wf(i),
{
    let a = op / 0x1000;
    let x = ((op / 0x100) % 0x10) as u8;
    let y = ((op / 0x10) % 0x10) as u8;
    let n = (op % 0x10) as u8;
    let kk = (op % 0x100) as u8;
    let nnn = op % 0x1000;
    match (a, x, y, n) {
        (0x0, 0x0, 0xE, 0x0) => Some(Instr::ClearScreen),
        (0x0, 0x0, 0xE, 0xE) => Some(Instr::Return),
        (0x1, _, _, _) => Some(Instr::Jump(nnn)),
        (0x2, _, _, _) => Some(Instr::Call(nnn)),
        (0x3, _, _, _) => Some(Instr::SkipEqImm { x, kk }),
        (0x4, _, _, _) => Some(Instr::SkipNeImm { x, kk }),
        (0x5, _, _, 0x0) => Some(Instr::SkipEqReg { x, y }),
        (0x6, _, _, _) => Some(Instr::SetImm { x, kk }),
        (0x7, _, _, _) => Some(Instr::AddImm { x, kk }),
        (0x8, _, _, 0x0) => Some(Instr::Copy { x, y }),
        (0x8, _, _, 0x1) => Some(Instr::Or { x, y }),
        (0x8, _, _, 0x2) => Some(Instr::And { x, y }),
        (0x8, _, _, 0x3) => Some(Instr::Xor { x, y }),
        (0x8, _, _, 0x4) => Some(Instr::Add { x, y }),
        (0x8, _, _, 0x5) => Some(Instr::Sub { x, y }),
        (0x8, _, _, 0x6) => Some(Instr::ShiftRight { x }),
        (0x8, _, _, 0x7) => Some(Instr::SubFrom { x, y }),
        (0x8, _, _, 0xE) => Some(Instr::ShiftLeft { x }),
        (0x9, _, _, 0x0) => Some(Instr::SkipNeReg { x, y }),
        (0xA, _, _, _) => Some(Instr::SetIndex(nnn)),
        (0xB, _, _, _) => Some(Instr::IndexPlusV0(nnn)),
        (0xC, _, _, _) => Some(Instr::Random { x, kk }),
        (0xD, _, _, _) => Some(Instr::Draw { x, y, n }),
        (0xE, _, 0x9, 0xE) => Some(Instr::SkipKey { x }),
        (0xE, _, 0xA, 0x1) => Some(Instr::SkipNoKey { x }),
        (0xF, _, 0x0, 0x7) => Some(Instr::GetDelay { x }),
        (0xF, _, 0x0, 0xA) => Some(Instr::WaitKey { x }),
        (0xF, _, 0x1, 0x5) => Some(Instr::SetDelay { x }),
        (0xF, _, 0x1, 0x8) => Some(Instr::SetSound { x }),
        (0xF, _, 0x1, 0xE) => Some(Instr::AddIndex { x }),
        (0xF, _, 0x2, 0x9) => Some(Instr::FontAddr { x }),
        (0xF, _, 0x3, 0x3) => Some(Instr::StoreBcd { x }),
        (0xF, _, 0x5, 0x5) => Some(Instr::StoreRegs { x }),
        (0xF, _, 0x6, 0x5) => Some(Instr::LoadRegs { x }),
        _ => None,
    }
}

/// 8-bit modular sum.
pub open spec fn add_wrap(a: u8, b: u8) -> u8 {
    ((a + b) % 256) as u8
}

/// 8-bit modular difference.
pub open spec fn sub_wrap(a: u8, b: u8) -> u8 {
    (if a >= b {
        a - b
    } else {
        a - b + 256
    }) as u8
}

/// Whether the instruction can run at all from state `s`; when this fails the
/// machine must refuse the step and stay unchanged.
pub open spec fn exec_ok(s: State, i: Instr) -> bool {
    match i {
        Instr::Return => s.stack.len() > 0,
        Instr::SkipKey { x } => s.v[x as int] < 16,
        Instr::SkipNoKey { x } => s.v[x as int] < 16,
        Instr::StoreBcd { x } => s.reg_i + 2 < 4096,
        Instr::StoreRegs { x } => s.reg_i + x < 4096,
        Instr::LoadRegs { x } => s.reg_i + x < 4096,
        Instr::Draw { x, y, n } => s.reg_i + n <= 4096,
        _ => true,
    }
}

/// The fault reported when `exec_ok` fails.
pub open spec fn exec_fault(s: State, i: Instr) -> Fault {
    match i {
        Instr::Return => Fault::StackUnderflow,
        Instr::SkipKey { x } => Fault::KeyOutOfRange,
        Instr::SkipNoKey { x } => Fault::KeyOutOfRange,
        _ => Fault::MemOutOfBounds,
    }
}

/// The state after executing one decoded instruction from `s`. `rnd` is the
/// byte the random source handed over; every instruction but `Random`
/// ignores it. Meaningful when `exec_ok(s, i)` and `s.wf()` hold and, for the
/// skip instructions, `s.pc + 2` still fits in 16 bits.
pub open spec fn exec_step(s: State, i: Instr, rnd: u8) -> State {
    match i {
        Instr::ClearScreen => State { fb: Seq::new(2048, |j: int| false), ..s },
        Instr::Return => State { pc: s.stack.last(), stack: s.stack.drop_last(), ..s },
        Instr::Jump(nnn) => State { pc: nnn, ..s },
        Instr::Call(nnn) => State { stack: s.stack.push(s.pc), pc: nnn, ..s },
        Instr::SkipEqImm { x, kk } => State {
            pc: if s.v[x as int] == kk {
                (s.pc + 2) as u16
            } else {
                s.pc
            },
            ..s
        },
        Instr::SkipNeImm { x, kk } => State {
            pc: if s.v[x as int] != kk {
                (s.pc + 2) as u16
            } else {
                s.pc
            },
            ..s
        },
        Instr::SkipEqReg { x, y } => State {
            pc: if s.v[x as int] == s.v[y as int] {
                (s.pc + 2) as u16
            } else {
                s.pc
            },
            ..s
        },
        Instr::SkipNeReg { x, y } => State {
            pc: if s.v[x as int] != s.v[y as int] {
                (s.pc + 2) as u16
            } else {
                s.pc
            },
            ..s
        },
        Instr::SetImm { x, kk } => State { v: s.v.update(x as int, kk), ..s },
        Instr::AddImm { x, kk } => State { v: s.v.update(x as int, add_wrap(s.v[x as int], kk)), ..s },
        Instr::Copy { x, y } => State { v: s.v.update(x as int, s.v[y as int]), ..s },
        Instr::Or { x, y } => State { v: s.v.update(x as int, s.v[x as int] | s.v[y as int]), ..s },
        Instr::And { x, y } => State { v: s.v.update(x as int, s.v[x as int] & s.v[y as int]), ..s },
        Instr::Xor { x, y } => State { v: s.v.update(x as int, s.v[x as int] ^ s.v[y as int]), ..s },
        Instr::Add { x, y } => State {
            v: s.v.update(x as int, add_wrap(s.v[x as int], s.v[y as int])).update(
                15,
                if s.v[x as int] + s.v[y as int] >= 256 {
                    1u8
                } else {
                    0u8
                },
            ),
            ..s
        },
        Instr::Sub { x, y } => State {
            v: s.v.update(x as int, sub_wrap(s.v[x as int], s.v[y as int])).update(
                15,
                if s.v[x as int] >= s.v[y as int] {
                    1u8
                } else {
                    0u8
                },
            ),
            ..s
        },
        Instr::SubFrom { x, y } => State {
            v: s.v.update(x as int, sub_wrap(s.v[y as int], s.v[x as int])).update(
                15,
                if s.v[y as int] >= s.v[x as int] {
                    1u8
                } else {
                    0u8
                },
            ),
            ..s
        },
        Instr::ShiftRight { x } => State {
            v: s.v.update(x as int, (s.v[x as int] / 2) as u8).update(
                15,
                (s.v[x as int] % 2) as u8,
            ),
            ..s
        },
        Instr::ShiftLeft { x } => State {
            v: s.v.update(x as int, ((2 * s.v[x as int]) % 256) as u8).update(
                15,
                (s.v[x as int] / 128) as u8,
            ),
            ..s
        },
        Instr::SetIndex(nnn) => State { reg_i: nnn, ..s },
        Instr::IndexPlusV0(nnn) => State { reg_i: (nnn + s.v[0]) as u16, ..s },
        Instr::Random { x, kk } => State { v: s.v.update(x as int, rnd & kk), ..s },
        Instr::Draw { x, y, n } => {
            let spr = s.mem.subrange(s.reg_i as int, s.reg_i as int + n as int);
            State {
                fb: draw_fb(s.fb, spr, s.v[x as int] as int, s.v[y as int] as int),
                v: s.v.update(
                    15,
                    if draw_collision(s.fb, spr, s.v[x as int] as int, s.v[y as int] as int) {
                        1u8
                    } else {
                        0u8
                    },
                ),
                ..s
            }
        },
        Instr::SkipKey { x } => State {
            pc: if s.keys[s.v[x as int] as int] {
                (s.pc + 2) as u16
            } else {
                s.pc
            },
            ..s
        },
        Instr::SkipNoKey { x } => State {
            pc: if !s.keys[s.v[x as int] as int] {
                (s.pc + 2) as u16
            } else {
                s.pc
            },
            ..s
        },
        Instr::GetDelay { x } => State { v: s.v.update(x as int, s.delay), ..s },
        Instr::WaitKey { x } => State { paused: true, wait_reg: x, ..s },
        Instr::SetDelay { x } => State { delay: s.v[x as int], ..s },
        Instr::SetSound { x } => State { sound: s.v[x as int], ..s },
        Instr::AddIndex { x } => State { reg_i: ((s.reg_i + s.v[x as int]) % 0x10000) as u16, ..s },
        Instr::FontAddr { x } => State {
            reg_i: (FONT_SPRITES_MEM_ADDR + FONT_SPRITE_LEN * s.v[x as int]) as u16,
            ..s
        },
        Instr::StoreBcd { x } => {
            let vx = s.v[x as int];
            let i = s.reg_i as int;
            State {
                mem: s.mem.update(i, (vx / 100) as u8).update(i + 1, ((vx % 100) / 10) as u8).update(
                    i + 2,
                    (vx % 10) as u8,
                ),
                ..s
            }
        },
        Instr::StoreRegs { x } => {
            let i = s.reg_i as int;
            State {
                mem: Seq::new(
                    s.mem.len(),
                    |j: int| if i <= j <= i + x as int { s.v[j - i] } else { s.mem[j] },
                ),
                ..s
            }
        },
        Instr::LoadRegs { x } => {
            let i = s.reg_i as int;
            State {
                v: Seq::new(
                    s.v.len(),
                    |k: int| if 0 <= k <= x as int { s.mem[i + k] } else { s.v[k] },
                ),
                ..s
            }
        },
    }
}

/// How the state after a successful step relates to the state before it: for
/// every instruction but `Random` the step function pins it down exactly; for
/// `Random` some byte from the random source explains it.
pub open spec fn step_result(pre: State, i: Instr, post: State) -> bool {
    match i {
        Instr::Random { x, kk } => exists|b: u8| post == #[trigger] exec_step(pre, i, b),
        _ => post == exec_step(pre, i, 0),
    }
}

/// For a value below twice the modulus, reducing is either the identity or
/// one subtraction.
pub proof fn lemma_wrap_mod(a: int, m: int)
    requires
        m > 0,
        0 <= a < 2 * m,
    ensures
        a % m == if a < m {
            a
        } else {
            a - m
        },
{
    if a < m {
        lemma_fundamental_div_mod_converse_mod(a, m, 0, a);
    } else {
        lemma_fundamental_div_mod_converse_mod(a, m, 1, a - m);
    }
}

} // verus!
