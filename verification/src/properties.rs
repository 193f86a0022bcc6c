//! Properties of the instruction set that relate several operations or
//! quantify over all operand values, proved once and for all against the
//! step function that the machine's contracts use.

use crate::instr::exec_step;
use crate::instr::instr_wf;
use crate::instr::Instr;
use crate::state::State;
use vstd::arithmetic::div_mod::lemma_fundamental_div_mod_converse_mod;
use vstd::prelude::*;

verus! {

/// For all 8-bit operands: the register add leaves the destination holding
/// the modular sum, and VF holding 1 exactly when the true sum does not fit
/// in eight bits. The destination clause leaves out VF itself, which the
/// carry overwrites.
pub proof fn lemma_add_sets_sum_and_carry(s: State, x: u8, y: u8)
    requires
        s.wf(),
        x < 16,
        y < 16,
    ensures
        ({
            let t = exec_step(s, Instr::Add { x, y }, 0);
            &&& t.v[15] == (if s.v[x as int] + s.v[y as int] >= 256 {
                1u8
            } else {
                0u8
            })
            &&& x != 15 ==> t.v[x as int] as int == (s.v[x as int] + s.v[y as int]) % 256
        }),
{
    let a = s.v[x as int] as int;
    let b = s.v[y as int] as int;
    if a + b < 256 {
        lemma_fundamental_div_mod_converse_mod(a + b, 256, 0, a + b);
    } else {
        lemma_fundamental_div_mod_converse_mod(a + b, 256, 1, a + b - 256);
    }
}

/// For all 8-bit operands: the register subtract leaves VF holding 1 exactly
/// when no borrow happened, that is when the minuend is at least the
/// subtrahend, and the destination holding the modular difference. The
/// destination clause leaves out VF itself, which the flag overwrites.
pub proof fn lemma_sub_sets_difference_and_borrow(s: State, x: u8, y: u8)
    requires
        s.wf(),
        x < 16,
        y < 16,
    ensures
        ({
            let t = exec_step(s, Instr::Sub { x, y }, 0);
            &&& t.v[15] == (if s.v[x as int] >= s.v[y as int] {
                1u8
            } else {
                0u8
            })
            &&& x != 15 ==> t.v[x as int] as int == (s.v[x as int] - s.v[y as int]) % 256
        }),
{
    let a = s.v[x as int] as int;
    let b = s.v[y as int] as int;
    if a >= b {
        lemma_fundamental_div_mod_converse_mod(a - b, 256, 0, a - b);
    } else {
        lemma_fundamental_div_mod_converse_mod(a - b, 256, -1, a - b + 256);
    }
}

/// Clearing the screen yields an all-off framebuffer whatever the prior
/// state was.
pub proof fn lemma_clear_screen_all_off(s: State)
    ensures
        forall|j: int| 0 <= j < 2048 ==> !exec_step(s, Instr::ClearScreen, 0).fb[j],
{
}

/// Round trip of the register file through memory: after dumping V0 through
/// Vx at the index register, any machine that still has that memory and that
/// index register — whatever happened to its registers in between — loads
/// the dumped values back into V0 through Vx.
pub proof fn lemma_store_load_round_trip(s: State, x: u8, t: State)
    requires
        s.wf(),
        t.wf(),
        x < 16,
        s.reg_i + x < 4096,
        t.mem == exec_step(s, Instr::StoreRegs { x }, 0).mem,
        t.reg_i == s.reg_i,
    ensures
        forall|k: int| 0 <= k <= x ==> exec_step(t, Instr::LoadRegs { x }, 0).v[k] == s.v[k],
{
    assert forall|k: int| 0 <= k <= x implies exec_step(t, Instr::LoadRegs { x }, 0).v[k]
        == s.v[k] by {
        assert(t.mem[t.reg_i as int + k] == s.v[k]);
    }
}

/// The six conditional-skip instructions.
pub open spec fn is_skip(i: Instr) -> bool {
    match i {
        Instr::SkipEqImm { x, kk } => true,
        Instr::SkipNeImm { x, kk } => true,
        Instr::SkipEqReg { x, y } => true,
        Instr::SkipNeReg { x, y } => true,
        Instr::SkipKey { x } => true,
        Instr::SkipNoKey { x } => true,
        _ => false,
    }
}

/// The condition under which a skip instruction skips.
pub open spec fn skip_cond(s: State, i: Instr) -> bool {
    match i {
        Instr::SkipEqImm { x, kk } => s.v[x as int] == kk,
        Instr::SkipNeImm { x, kk } => s.v[x as int] != kk,
        Instr::SkipEqReg { x, y } => s.v[x as int] == s.v[y as int],
        Instr::SkipNeReg { x, y } => s.v[x as int] != s.v[y as int],
        Instr::SkipKey { x } => s.keys[s.v[x as int] as int],
        Instr::SkipNoKey { x } => !s.keys[s.v[x as int] as int],
        _ => false,
    }
}

/// A skip instruction moves the program counter by exactly four — two for
/// the fetch, two for the skip — when its condition holds, and by exactly
/// the two of the fetch when it does not.
pub proof fn lemma_skip_advances_two_or_four(s: State, i: Instr)
    requires
        s.wf(),
        instr_wf(i),
        is_skip(i),
        s.pc + 4 <= 0xFFFF,
        i matches Instr::SkipKey { x } ==> s.v[x as int] < 16,
        i matches Instr::SkipNoKey { x } ==> s.v[x as int] < 16,
    ensures
        ({
            let fetched = State { pc: (s.pc + 2) as u16, ..s };
            exec_step(fetched, i, 0).pc as int == if skip_cond(s, i) {
                s.pc + 4
            } else {
                s.pc + 2
            }
        }),
{
}

} // verus!
