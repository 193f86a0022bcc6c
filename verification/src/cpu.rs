//! The virtual machine: memory, registers, call stack, timers, keyboard and
//! framebuffer, with load, single-step, timer-tick, key-event and beep-query
//! operations. Every contract speaks about the machine's view, a `State`.

use crate::display::Display;
use crate::font::font_bytes;
use crate::font::font_data;
use crate::font::FONT_SPRITES_MEM_ADDR;
use crate::font::FONT_TABLE_LEN;
use crate::instr::decode;
use crate::instr::exec_fault;
use crate::instr::exec_ok;
use crate::instr::exec_step;
use crate::instr::lemma_wrap_mod;
use crate::instr::spec_decode;
use crate::instr::step_result;
use crate::instr::Instr;
use crate::rng::random_byte;
use crate::state::fetch_op;
use crate::state::initial_state;
use crate::state::loaded_mem;
use crate::state::Fault;
use crate::state::State;
use vstd::prelude::*;

verus! {

/// Bytes of memory.
pub const RAM_SIZE: usize = 4096;

/// Address at which a program image is loaded and execution starts.
pub const PROGRAM_START: usize = 0x200;

/// The machine. The fields a host or a test reads and writes directly are
/// public; the wait-for-key pair stays private so that the target register
/// always names a register.
pub struct Chip8 {
    pub display: Display,
    pub ram: Vec<u8>,
    pub pc: u16,
    pub stack: Vec<u16>,
    pub reg_i: u16,
    pub reg_v: Vec<u8>,
    pub delay_timer: u8,
    pub sound_timer: u8,
    pub keyboard: Vec<bool>,
    paused: bool,
    store_keypress_in_reg: u8,
}

impl View for Chip8 {
    type V = State;

    closed spec fn view(&self) -> State {
        State {
            mem: self.ram@,
            pc: self.pc,
            stack: self.stack@,
            reg_i: self.reg_i,
            v: self.reg_v@,
            delay: self.delay_timer,
            sound: self.sound_timer,
            keys: self.keyboard@,
            paused: self.paused,
            wait_reg: self.store_keypress_in_reg,
            fb: self.display@,
        }
    }
}

/// `a` is `b` with possibly different memory.
pub open spec fn same_except_mem(a: State, b: State) -> bool {
    &&& a.pc == b.pc
    &&& a.stack == b.stack
    &&& a.reg_i == b.reg_i
    &&& a.v == b.v
    &&& a.delay == b.delay
    &&& a.sound == b.sound
    &&& a.keys == b.keys
    &&& a.paused == b.paused
    &&& a.wait_reg == b.wait_reg
    &&& a.fb == b.fb
}

/// `a` is `b` with possibly different registers V0-VF.
pub open spec fn same_except_v(a: State, b: State) -> bool {
    &&& a.mem == b.mem
    &&& a.pc == b.pc
    &&& a.stack == b.stack
    &&& a.reg_i == b.reg_i
    &&& a.delay == b.delay
    &&& a.sound == b.sound
    &&& a.keys == b.keys
    &&& a.paused == b.paused
    &&& a.wait_reg == b.wait_reg
    &&& a.fb == b.fb
}

/// The machine state after a key event: the key state is recorded, and a
/// press while waiting for a key lands in the wait target register and wakes
/// the machine.
pub open spec fn key_event(s: State, key: u8, pressed: bool) -> State {
    let s1 = if s.paused && pressed {
        State { v: s.v.update(s.wait_reg as int, key), paused: false, ..s }
    } else {
        s
    };
    State { keys: s1.keys.update(key as int, pressed), ..s1 }
}

/// The machine state after one timer tick: both timers go down by one,
/// floored at zero.
pub open spec fn timer_tick(s: State) -> State {
    State {
        delay: if s.delay > 0 {
            (s.delay - 1) as u8
        } else {
            0u8
        },
        sound: if s.sound > 0 {
            (s.sound - 1) as u8
        } else {
            0u8
        },
        ..s
    }
}

impl Chip8 {
    /// A well-formed machine, as `State::wf` has it.
    pub open spec fn wf(&self) -> bool {
        self@.wf()
    }

    /// A fresh machine: everything zeroed, the glyph table in low memory.
    pub fn new() -> (c: Chip8)
        ensures
            c.wf(),
            c@ == initial_state(),
    {
        let mut ram: Vec<u8> = Vec::new();
        let mut k: usize = 0;
        while k < RAM_SIZE
            invariant
                k <= 4096,
                ram@.len() == k,
                forall|j: int| 0 <= j < k ==> ram@[j] == 0u8,
            decreases 4096 - k,
        {
            ram.push(0);
            k += 1;
        }
        let mut reg_v: Vec<u8> = Vec::new();
        let mut k: usize = 0;
        while k < 16
            invariant
                k <= 16,
                reg_v@.len() == k,
                forall|j: int| 0 <= j < k ==> reg_v@[j] == 0u8,
            decreases 16 - k,
        {
            reg_v.push(0);
            k += 1;
        }
        let mut keyboard: Vec<bool> = Vec::new();
        let mut k: usize = 0;
        while k < 16
            invariant
                k <= 16,
                keyboard@.len() == k,
                forall|j: int| 0 <= j < k ==> !keyboard@[j],
            decreases 16 - k,
        {
            keyboard.push(false);
            k += 1;
        }
        let mut c = Chip8 {
            display: Display::new(),
            ram,
            pc: 0,
            stack: Vec::new(),
            reg_i: 0,
            reg_v,
            delay_timer: 0,
            sound_timer: 0,
            keyboard,
            paused: false,
            store_keypress_in_reg: 0,
        };
        c.load_sprites();
        proof {
            assert(c@ =~= initial_state());
        }
        c
    }

    /// Copies the glyph table into its fixed low-memory region; the rest of
    /// the machine is untouched.
    #[verifier::loop_isolation(false)]
    pub fn load_sprites(&mut self)
        requires
            old(self).wf(),
        ensures
            final(self).wf(),
            final(self)@ == (State {
                mem: Seq::new(
                    4096,
                    |j: int| if 0 <= j < 80 {
                        font_data()[j]
                    } else {
                        old(self)@.mem[j]
                    },
                ),
                ..old(self)@
            }),
    {
        let f = font_bytes();
        let mut k: usize = 0;
        while k < FONT_TABLE_LEN
            invariant
                k <= 80,
                self.ram@.len() == 4096,
                same_except_mem(self@, old(self)@),
                forall|j: int| 0 <= j < k ==> self.ram@[j] == font_data()[j],
                forall|j: int| k <= j < 4096 ==> self.ram@[j] == old(self)@.mem[j],
            decreases 80 - k,
        {
            let b = f[k];
            self.ram.set(k, b);
            k += 1;
        }
        proof {
            assert(self@ =~= (State {
                mem: Seq::new(
                    4096,
                    |j: int| if 0 <= j < 80 {
                        font_data()[j]
                    } else {
                        old(self)@.mem[j]
                    },
                ),
                ..old(self)@
            }));
        }
    }

    /// True iff the sound timer is running; the host plays a tone while it is.
    pub fn beep(&mut self) -> (r: bool)
        ensures
            r == (old(self)@.sound > 0),
            *final(self) == *old(self),
    {
        self.sound_timer > 0
    }

    /// Records a key event. Rejects a key index outside 0-15; a press while
    /// the machine waits for one lands in the wait target register and ends
    /// the wait, whatever key it is.
    pub fn key_pressed(&mut self, key: u8, state: bool) -> (r: Result<(), Fault>)
        requires
            old(self).wf(),
        ensures
            final(self).wf(),
            key >= 16 ==> r == Err::<(), Fault>(Fault::KeyOutOfRange) && final(self)@ == old(self)@,
            key < 16 ==> r == Ok::<(), Fault>(()) && final(self)@ == key_event(
                old(self)@,
                key,
                state,
            ),
    {
        if key >= 16 {
            return Err(Fault::KeyOutOfRange);
        }
        if self.paused && state {
            let reg = self.store_keypress_in_reg;
            self.reg_v.set(reg as usize, key);
            self.paused = false;
        }
        self.keyboard.set(key as usize, state);
        proof {
            assert(self@ =~= key_event(old(self)@, key, state));
        }
        Ok(())
    }

    /// Copies a program image into memory at 0x200 and points the program
    /// counter there. Rejects an image longer than the 3584 bytes available.
    #[verifier::loop_isolation(false)]
    pub fn load(&mut self, data: &[u8]) -> (r: Result<(), Fault>)
        requires
            old(self).wf(),
        ensures
            final(self).wf(),
            data@.len() > 3584 ==> r == Err::<(), Fault>(Fault::ProgramTooLarge) && final(self)@
                == old(self)@,
            data@.len() <= 3584 ==> r == Ok::<(), Fault>(()) && final(self)@ == (State {
                mem: loaded_mem(old(self)@.mem, data@),
                pc: 0x200u16,
                ..old(self)@
            }),
    {
        if data.len() > RAM_SIZE - PROGRAM_START {
            return Err(Fault::ProgramTooLarge);
        }
        let mut k: usize = 0;
        while k < data.len()
            invariant
                k <= data@.len(),
                self.ram@.len() == 4096,
                same_except_mem(self@, old(self)@),
                forall|j: int| 0x200 <= j < 0x200 + k ==> self.ram@[j] == data@[j - 0x200],
                forall|j: int|
                    0 <= j < 4096 && !(0x200 <= j < 0x200 + k) ==> self.ram@[j] == old(
                        self,
                    )@.mem[j],
            decreases data@.len() - k,
        {
            let b = data[k];
            self.ram.set(PROGRAM_START + k, b);
            k += 1;
        }
        self.pc = 0x200;
        proof {
            assert(self@.mem =~= loaded_mem(old(self)@.mem, data@));
            assert(self@ =~= (State {
                mem: loaded_mem(old(self)@.mem, data@),
                pc: 0x200u16,
                ..old(self)@
            }));
        }
        Ok(())
    }

    /// One timer tick: both countdown timers go down by one, floored at zero.
    pub fn dec_timers(&mut self)
        requires
            old(self).wf(),
        ensures
            final(self).wf(),
            final(self)@ == timer_tick(old(self)@),
    {
        if self.delay_timer > 0 {
            self.delay_timer = self.delay_timer - 1;
        }
        if self.sound_timer > 0 {
            self.sound_timer = self.sound_timer - 1;
        }
        proof {
            assert(self@ =~= timer_tick(old(self)@));
        }
    }

    /// Reads the two bytes under the program counter as a big-endian opcode
    /// and advances the program counter past them.
    fn fetch(&mut self) -> (op: u16)
        requires
            old(self).wf(),
            old(self).pc < 4095,
        ensures
            final(self).wf(),
            op == fetch_op(old(self)@),
            final(self)@ == (State { pc: (old(self)@.pc + 2) as u16, ..old(self)@ }),
    {
        let hb = self.ram[self.pc as usize];
        let lb = self.ram[self.pc as usize + 1];
        self.pc = self.pc + 2;
        proof {
            assert(self@ =~= (State { pc: (old(self)@.pc + 2) as u16, ..old(self)@ }));
        }
        (hb as u16) * 256 + (lb as u16)
    }

    /// Draws the `n`-byte sprite under the index register anchored at
    /// `(Vx, Vy)` and records the collision flag in VF; refuses a sprite that
    /// reaches past the end of memory.
    #[verifier::loop_isolation(false)]
    fn op_draw(&mut self, x: u8, y: u8, n: u8) -> (r: Result<(), Fault>)
        requires
            old(self).wf(),
            x < 16,
            y < 16,
            n < 16,
        ensures
            final(self).wf(),
            old(self)@.reg_i + n <= 4096 ==> r == Ok::<(), Fault>(()) && final(self)@ == exec_step(
                old(self)@,
                Instr::Draw { x, y, n },
                0,
            ),
            old(self)@.reg_i + n > 4096 ==> r == Err::<(), Fault>(Fault::MemOutOfBounds) && final(self)@ == old(self)@,
    {
        let i = self.reg_i as usize;
        let nn = n as usize;
        if i + nn > RAM_SIZE {
            return Err(Fault::MemOutOfBounds);
        }
        let mut sprite: Vec<u8> = Vec::new();
        let mut k: usize = 0;
        while k < nn
            invariant
                k <= nn,
                sprite@ == self.ram@.subrange(i as int, i as int + k as int),
            decreases nn - k,
        {
            let b = self.ram[i + k];
            sprite.push(b);
            proof {
                assert(sprite@ =~= self.ram@.subrange(i as int, i as int + k as int + 1));
            }
            k += 1;
        }
        let ghost spr = sprite@;
        let vx = self.reg_v[x as usize];
        let vy = self.reg_v[y as usize];
        let flag = self.display.draw(sprite, vx, vy);
        self.reg_v.set(15, if flag { 1 } else { 0 });
        proof {
            assert(spr == old(self)@.mem.subrange(
                old(self)@.reg_i as int,
                old(self)@.reg_i as int + n as int,
            ));
            assert(self@ =~= exec_step(old(self)@, Instr::Draw { x, y, n }, 0));
        }
        Ok(())
    }

    /// Stores the decimal digits of Vx at the index register; refuses an
    /// index register within two bytes of the end of memory.
    fn op_store_bcd(&mut self, x: u8) -> (r: Result<(), Fault>)
        requires
            old(self).wf(),
            x < 16,
        ensures
            final(self).wf(),
            old(self)@.reg_i + 2 < 4096 ==> r == Ok::<(), Fault>(()) && final(self)@ == exec_step(
                old(self)@,
                Instr::StoreBcd { x },
                0,
            ),
            old(self)@.reg_i + 2 >= 4096 ==> r == Err::<(), Fault>(Fault::MemOutOfBounds) && final(self)@ == old(self)@,
    {
        let i = self.reg_i as usize;
        if i + 2 >= RAM_SIZE {
            return Err(Fault::MemOutOfBounds);
        }
        let vx = self.reg_v[x as usize];
        self.ram.set(i, vx / 100);
        self.ram.set(i + 1, (vx % 100) / 10);
        self.ram.set(i + 2, vx % 10);
        proof {
            assert(self@ =~= exec_step(old(self)@, Instr::StoreBcd { x }, 0));
        }
        Ok(())
    }

    /// Copies V0 through Vx into memory at the index register; refuses a
    /// range that reaches past the end of memory.
    #[verifier::loop_isolation(false)]
    fn op_store_regs(&mut self, x: u8) -> (r: Result<(), Fault>)
        requires
            old(self).wf(),
            x < 16,
        ensures
            final(self).wf(),
            old(self)@.reg_i + x < 4096 ==> r == Ok::<(), Fault>(()) && final(self)@ == exec_step(
                old(self)@,
                Instr::StoreRegs { x },
                0,
            ),
            old(self)@.reg_i + x >= 4096 ==> r == Err::<(), Fault>(Fault::MemOutOfBounds) && final(self)@ == old(self)@,
    {
        let i = self.reg_i as usize;
        let xx = x as usize;
        if i + xx >= RAM_SIZE {
            return Err(Fault::MemOutOfBounds);
        }
        let mut k: usize = 0;
        while k < xx + 1
            invariant
                k <= xx + 1,
                self.ram@.len() == 4096,
                same_except_mem(self@, old(self)@),
                forall|j: int| i <= j < i + k ==> self.ram@[j] == old(self)@.v[j - i],
                forall|j: int|
                    0 <= j < 4096 && !(i <= j < i + k) ==> self.ram@[j] == old(self)@.mem[j],
            decreases xx + 1 - k,
        {
            let b = self.reg_v[k];
            self.ram.set(i + k, b);
            k += 1;
        }
        proof {
            assert(self@ =~= exec_step(old(self)@, Instr::StoreRegs { x }, 0));
        }
        Ok(())
    }

    /// Loads V0 through Vx from memory at the index register; refuses a
    /// range that reaches past the end of memory.
    #[verifier::loop_isolation(false)]
    fn op_load_regs(&mut self, x: u8) -> (r: Result<(), Fault>)
        requires
            old(self).wf(),
            x < 16,
        ensures
            final(self).wf(),
            old(self)@.reg_i + x < 4096 ==> r == Ok::<(), Fault>(()) && final(self)@ == exec_step(
                old(self)@,
                Instr::LoadRegs { x },
                0,
            ),
            old(self)@.reg_i + x >= 4096 ==> r == Err::<(), Fault>(Fault::MemOutOfBounds) && final(self)@ == old(self)@,
    {
        let i = self.reg_i as usize;
        let xx = x as usize;
        if i + xx >= RAM_SIZE {
            return Err(Fault::MemOutOfBounds);
        }
        let mut k: usize = 0;
        while k < xx + 1
            invariant
                k <= xx + 1,
                self.reg_v@.len() == 16,
                same_except_v(self@, old(self)@),
                forall|m: int| 0 <= m < k ==> self.reg_v@[m] == old(self)@.mem[i + m],
                forall|m: int| k <= m < 16 ==> self.reg_v@[m] == old(self)@.v[m],
            decreases xx + 1 - k,
        {
            let b = self.ram[i + k];
            self.reg_v.set(k, b);
            k += 1;
        }
        proof {
            assert(self@ =~= exec_step(old(self)@, Instr::LoadRegs { x }, 0));
        }
        Ok(())
    }

    /// Decodes and executes one opcode against the current state. An opcode
    /// matching no instruction, a return on an empty stack, a key lookup
    /// through a register holding 16 or more, and a memory access past the
    /// end of memory are refused with the matching fault, and the machine is
    /// left unchanged. The program counter must sit at least two below the
    /// 16-bit limit so that a skip can still advance it.
    pub fn execute(&mut self, opcode: u16) -> (r: Result<(), Fault>)
        requires
            old(self).wf(),
            old(self)@.pc <= 0xFFFD,
        ensures
            final(self).wf(),
            (match spec_decode(opcode) {
                None => r == Err::<(), Fault>(Fault::UnknownOpcode) && final(self)@ == old(self)@,
                Some(i) => if exec_ok(old(self)@, i) {
                    r == Ok::<(), Fault>(()) && step_result(old(self)@, i, final(self)@)
                } else {
                    r == Err::<(), Fault>(exec_fault(old(self)@, i)) && final(self)@ == old(self)@
                },
            }),
    {
        let instr = match decode(opcode) {
            None => {
                return Err(Fault::UnknownOpcode);
            },
            Some(instr) => instr,
        };
        match instr {
            Instr::ClearScreen => {
                self.display.clear();
                proof {
                    assert(self@ =~= exec_step(old(self)@, Instr::ClearScreen, 0));
                }
                Ok(())
            },
            Instr::Return => {
                match self.stack.pop() {
                    Some(addr) => {
                        self.pc = addr;
                        proof {
                            assert(self@.stack =~= old(self)@.stack.drop_last());
                            assert(self@ =~= exec_step(old(self)@, Instr::Return, 0));
                        }
                        Ok(())
                    },
                    None => Err(Fault::StackUnderflow),
                }
            },
            Instr::Jump(nnn) => {
                self.pc = nnn;
                proof {
                    assert(self@ =~= exec_step(old(self)@, Instr::Jump(nnn), 0));
                }
                Ok(())
            },
            Instr::Call(nnn) => {
                self.stack.push(self.pc);
                self.pc = nnn;
                proof {
                    assert(self@ =~= exec_step(old(self)@, Instr::Call(nnn), 0));
                }
                Ok(())
            },
            Instr::SkipEqImm { x, kk } => {
                if self.reg_v[x as usize] == kk {
                    self.pc = self.pc + 2;
                }
                proof {
                    assert(self@ =~= exec_step(old(self)@, Instr::SkipEqImm { x, kk }, 0));
                }
                Ok(())
            },
            Instr::SkipNeImm { x, kk } => {
                if self.reg_v[x as usize] != kk {
                    self.pc = self.pc + 2;
                }
                proof {
                    assert(self@ =~= exec_step(old(self)@, Instr::SkipNeImm { x, kk }, 0));
                }
                Ok(())
            },
            Instr::SkipEqReg { x, y } => {
                if self.reg_v[x as usize] == self.reg_v[y as usize] {
                    self.pc = self.pc + 2;
                }
                proof {
                    assert(self@ =~= exec_step(old(self)@, Instr::SkipEqReg { x, y }, 0));
                }
                Ok(())
            },
            Instr::SkipNeReg { x, y } => {
                if self.reg_v[x as usize] != self.reg_v[y as usize] {
                    self.pc = self.pc + 2;
                }
                proof {
                    assert(self@ =~= exec_step(old(self)@, Instr::SkipNeReg { x, y }, 0));
                }
                Ok(())
            },
            Instr::SetImm { x, kk } => {
                self.reg_v.set(x as usize, kk);
                proof {
                    assert(self@ =~= exec_step(old(self)@, Instr::SetImm { x, kk }, 0));
                }
                Ok(())
            },
            Instr::AddImm { x, kk } => {
                let vx = self.reg_v[x as usize];
                let sum = vx as u16 + kk as u16;
                let res = if sum >= 256 {
                    (sum - 256) as u8
                } else {
                    sum as u8
                };
                self.reg_v.set(x as usize, res);
                proof {
                    lemma_wrap_mod(vx as int + kk as int, 256);
                    assert(self@ =~= exec_step(old(self)@, Instr::AddImm { x, kk }, 0));
                }
                Ok(())
            },
            Instr::Copy { x, y } => {
                let vy = self.reg_v[y as usize];
                self.reg_v.set(x as usize, vy);
                proof {
                    assert(self@ =~= exec_step(old(self)@, Instr::Copy { x, y }, 0));
                }
                Ok(())
            },
            Instr::Or { x, y } => {
                let vx = self.reg_v[x as usize];
                let vy = self.reg_v[y as usize];
                self.reg_v.set(x as usize, vx | vy);
                proof {
                    assert(self@ =~= exec_step(old(self)@, Instr::Or { x, y }, 0));
                }
                Ok(())
            },
            Instr::And { x, y } => {
                let vx = self.reg_v[x as usize];
                let vy = self.reg_v[y as usize];
                self.reg_v.set(x as usize, vx & vy);
                proof {
                    assert(self@ =~= exec_step(old(self)@, Instr::And { x, y }, 0));
                }
                Ok(())
            },
            Instr::Xor { x, y } => {
                let vx = self.reg_v[x as usize];
                let vy = self.reg_v[y as usize];
                self.reg_v.set(x as usize, vx ^ vy);
                proof {
                    assert(self@ =~= exec_step(old(self)@, Instr::Xor { x, y }, 0));
                }
                Ok(())
            },
            Instr::Add { x, y } => {
                let vx = self.reg_v[x as usize];
                let vy = self.reg_v[y as usize];
                let sum = vx as u16 + vy as u16;
                let res = if sum >= 256 {
                    (sum - 256) as u8
                } else {
                    sum as u8
                };
                let carry: u8 = if sum >= 256 {
                    1
                } else {
                    0
                };
                self.reg_v.set(x as usize, res);
                self.reg_v.set(15, carry);
                proof {
                    lemma_wrap_mod(vx as int + vy as int, 256);
                    assert(self@ =~= exec_step(old(self)@, Instr::Add { x, y }, 0));
                }
                Ok(())
            },
            Instr::Sub { x, y } => {
                let vx = self.reg_v[x as usize];
                let vy = self.reg_v[y as usize];
                let res = if vx >= vy {
                    vx - vy
                } else {
                    (vx as u16 + 256 - vy as u16) as u8
                };
                let no_borrow: u8 = if vx >= vy {
                    1
                } else {
                    0
                };
                self.reg_v.set(x as usize, res);
                self.reg_v.set(15, no_borrow);
                proof {
                    assert(self@ =~= exec_step(old(self)@, Instr::Sub { x, y }, 0));
                }
                Ok(())
            },
            Instr::SubFrom { x, y } => {
                let vx = self.reg_v[x as usize];
                let vy = self.reg_v[y as usize];
                let res = if vy >= vx {
                    vy - vx
                } else {
                    (vy as u16 + 256 - vx as u16) as u8
                };
                let no_borrow: u8 = if vy >= vx {
                    1
                } else {
                    0
                };
                self.reg_v.set(x as usize, res);
                self.reg_v.set(15, no_borrow);
                proof {
                    assert(self@ =~= exec_step(old(self)@, Instr::SubFrom { x, y }, 0));
                }
                Ok(())
            },
            Instr::ShiftRight { x } => {
                let vx = self.reg_v[x as usize];
                self.reg_v.set(x as usize, vx / 2);
                self.reg_v.set(15, vx % 2);
                proof {
                    assert(self@ =~= exec_step(old(self)@, Instr::ShiftRight { x }, 0));
                }
                Ok(())
            },
            Instr::ShiftLeft { x } => {
                let vx = self.reg_v[x as usize];
                self.reg_v.set(x as usize, (vx % 128) * 2);
                self.reg_v.set(15, vx / 128);
                proof {
                    lemma_wrap_mod(vx as int, 128);
                    lemma_wrap_mod(2 * vx as int, 256);
                    assert(self@ =~= exec_step(old(self)@, Instr::ShiftLeft { x }, 0));
                }
                Ok(())
            },
            Instr::SetIndex(nnn) => {
                self.reg_i = nnn;
                proof {
                    assert(self@ =~= exec_step(old(self)@, Instr::SetIndex(nnn), 0));
                }
                Ok(())
            },
            Instr::IndexPlusV0(nnn) => {
                let v0 = self.reg_v[0];
                self.reg_i = nnn + v0 as u16;
                proof {
                    assert(self@ =~= exec_step(old(self)@, Instr::IndexPlusV0(nnn), 0));
                }
                Ok(())
            },
            Instr::Random { x, kk } => {
                let b = random_byte();
                self.reg_v.set(x as usize, b & kk);
                proof {
                    assert(self@ =~= exec_step(old(self)@, Instr::Random { x, kk }, b));
                    assert(step_result(old(self)@, Instr::Random { x, kk }, self@));
                }
                Ok(())
            },
            Instr::Draw { x, y, n } => self.op_draw(x, y, n),
            Instr::SkipKey { x } => {
                let vx = self.reg_v[x as usize];
                if vx >= 16 {
                    return Err(Fault::KeyOutOfRange);
                }
                if self.keyboard[vx as usize] {
                    self.pc = self.pc + 2;
                }
                proof {
                    assert(self@ =~= exec_step(old(self)@, Instr::SkipKey { x }, 0));
                }
                Ok(())
            },
            Instr::SkipNoKey { x } => {
                let vx = self.reg_v[x as usize];
                if vx >= 16 {
                    return Err(Fault::KeyOutOfRange);
                }
                if !self.keyboard[vx as usize] {
                    self.pc = self.pc + 2;
                }
                proof {
                    assert(self@ =~= exec_step(old(self)@, Instr::SkipNoKey { x }, 0));
                }
                Ok(())
            },
            Instr::GetDelay { x } => {
                let d = self.delay_timer;
                self.reg_v.set(x as usize, d);
                proof {
                    assert(self@ =~= exec_step(old(self)@, Instr::GetDelay { x }, 0));
                }
                Ok(())
            },
            Instr::WaitKey { x } => {
                self.paused = true;
                self.store_keypress_in_reg = x;
                proof {
                    assert(self@ =~= exec_step(old(self)@, Instr::WaitKey { x }, 0));
                }
                Ok(())
            },
            Instr::SetDelay { x } => {
                self.delay_timer = self.reg_v[x as usize];
                proof {
                    assert(self@ =~= exec_step(old(self)@, Instr::SetDelay { x }, 0));
                }
                Ok(())
            },
            Instr::SetSound { x } => {
                self.sound_timer = self.reg_v[x as usize];
                proof {
                    assert(self@ =~= exec_step(old(self)@, Instr::SetSound { x }, 0));
                }
                Ok(())
            },
            Instr::AddIndex { x } => {
                let vx = self.reg_v[x as usize];
                let sum = self.reg_i as u32 + vx as u32;
                self.reg_i = if sum >= 0x10000 {
                    (sum - 0x10000) as u16
                } else {
                    sum as u16
                };
                proof {
                    lemma_wrap_mod(old(self)@.reg_i as int + vx as int, 0x10000);
                    assert(self@ =~= exec_step(old(self)@, Instr::AddIndex { x }, 0));
                }
                Ok(())
            },
            Instr::FontAddr { x } => {
                let vx = self.reg_v[x as usize];
                self.reg_i = (FONT_SPRITES_MEM_ADDR as u16) + 5 * (vx as u16);
                proof {
                    assert(self@ =~= exec_step(old(self)@, Instr::FontAddr { x }, 0));
                }
                Ok(())
            },
            Instr::StoreBcd { x } => self.op_store_bcd(x),
            Instr::StoreRegs { x } => self.op_store_regs(x),
            Instr::LoadRegs { x } => self.op_load_regs(x),
        }
    }

    /// One machine step: a no-op while waiting for a key, otherwise fetch
    /// the opcode under the program counter, advance the counter past it,
    /// and execute it. A program counter that does not point at two bytes of
    /// memory is refused; a fault from the instruction itself leaves the
    /// counter advanced and the instruction unapplied.
    pub fn fetch_execute(&mut self) -> (r: Result<(), Fault>)
        requires
            old(self).wf(),
        ensures
            final(self).wf(),
            old(self)@.paused ==> r == Ok::<(), Fault>(()) && final(self)@ == old(self)@,
            !old(self)@.paused && old(self)@.pc >= 4095 ==> r == Err::<(), Fault>(
                Fault::PcOutOfBounds,
            ) && final(self)@ == old(self)@,
            !old(self)@.paused && old(self)@.pc < 4095 ==> ({
                let s1 = State { pc: (old(self)@.pc + 2) as u16, ..old(self)@ };
                match spec_decode(fetch_op(old(self)@)) {
                    None => r == Err::<(), Fault>(Fault::UnknownOpcode) && final(self)@ == s1,
                    Some(i) => if exec_ok(s1, i) {
                        r == Ok::<(), Fault>(()) && step_result(s1, i, final(self)@)
                    } else {
                        r == Err::<(), Fault>(exec_fault(s1, i)) && final(self)@ == s1
                    },
                }
            }),
    {
        if self.paused {
            return Ok(());
        }
        if self.pc >= 4095 {
            return Err(Fault::PcOutOfBounds);
        }
        let op = self.fetch();
        self.execute(op)
    }
}

} // verus!
