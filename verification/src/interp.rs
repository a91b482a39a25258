use vstd::prelude::*;

verus! {

use crate::font::{spec_font, font_set};
use crate::timer::Timer;
use crate::decode::{
    Op,
    spec_decode,
    decode,
    spec_x,
    spec_y,
    spec_kk,
    spec_nnn,
    spec_n,
    op_x,
    op_y,
    op_kk,
    op_nnn,
    op_n,
};
use crate::display::{
    spec_draw_vram,
    spec_draw_collision,
    sprite_bit,
    draw_target,
    hit_upto,
    lemma_draw_target_bounds,
    lemma_draw_target_injective,
    spec_pixels,
};

/// Bytes of addressable memory.
pub const MEMORY_SIZE: usize = 4096;

/// Where loaded programs start and the program counter boots.
pub const PROGRAM_START: u16 = 0x200;

/// The largest program image that fits between the entry point and the end
/// of memory.
pub const MAX_ROM_BYTES: usize = 3584;

/// Elapsed-time units that make one 1/60 s timer tick; each executed cycle
/// feeds this many units to both timers, so the nominal instruction rate is
/// one cycle per tick period.
pub const TIMER_PERIOD: u32 = 1;

/// Everything that can go wrong when loading or running a program.
///
/// A failed load leaves the machine exactly as it was. A fetch or execute
/// error is surfaced to the caller, which may halt, log or load anew; the
/// machine is left in a well-formed state either way.
#[derive(Clone, Copy, PartialEq, Eq, Structural, Debug)]
pub enum Chip8Error {
    /// The host could not read the program image at all.
    IoError,
    /// The image does not fit in the writable region above the entry point.
    RomTooLarge,
    /// The fetched opcode matches no template of the dispatch table.
    UnknownOpcode(u16),
    /// A subroutine return ran with an empty call stack.
    StackUnderflow,
    /// An instruction addressed memory beyond its fixed size.
    OutOfBounds,
}

/// The machine as contracts see it: every observable part of the
/// interpreter. The random source is deliberately absent — no contract
/// speaks about the values it yields.
#[verifier::ext_equal]
pub struct Chip8State {
    /// All 4096 memory bytes: font, program, working data.
    pub mem: Seq<u8>,
    /// The sixteen general-purpose registers; register 15 doubles as the
    /// carry, borrow and collision flag.
    pub regs: Seq<u8>,
    /// The sixteen-bit address register.
    pub address: u16,
    /// The program counter.
    pub pc: u16,
    /// The call stack of return addresses, deepest first. It is modelled
    /// and implemented as unbounded: calls always push, and only a return
    /// on an empty stack is an error.
    pub stack: Seq<u16>,
    /// The 64 by 32 monochrome display, row-major.
    pub vram: Seq<bool>,
    /// The delay timer.
    pub delay: Timer,
    /// The sound timer; the machine beeps while its value is nonzero.
    pub sound: Timer,
    /// The sixteen keypad states, true while held down.
    pub keys: Seq<bool>,
    /// Whether a program has been loaded and cycles should execute.
    pub running: bool,
    /// The debug verbosity the host asked for; the core only stores it.
    pub debug: u8,
}

impl Chip8State {
    /// Structural health: every buffer has its fixed size and both timers
    /// are consistent and share the cycle tick period.
    pub open spec fn wf(self) -> bool {
        &&& self.mem.len() == 4096
        &&& self.regs.len() == 16
        &&& self.vram.len() == 2048
        &&& self.keys.len() == 16
        &&& self.delay.wf()
        &&& self.sound.wf()
        &&& self.delay.period == TIMER_PERIOD
        &&& self.sound.period == TIMER_PERIOD
    }
}

/// The machine a fresh interpreter presents: font at the bottom of memory,
/// everything else zeroed, the program counter at the entry point, and no
/// program marked runnable.
pub open spec fn spec_initial(debug: u8) -> Chip8State {
    Chip8State {
        mem: Seq::new(4096nat, |i: int| if 0 <= i < 80 { spec_font()[i] } else { 0u8 }),
        regs: Seq::new(16nat, |i: int| 0u8),
        address: 0u16,
        pc: 0x200u16,
        stack: Seq::empty(),
        vram: Seq::new(2048nat, |i: int| false),
        delay: Timer { value: 0u8, accumulator: 0u32, period: TIMER_PERIOD },
        sound: Timer { value: 0u8, accumulator: 0u32, period: TIMER_PERIOD },
        keys: Seq::new(16nat, |i: int| false),
        running: false,
        debug: debug,
    }
}

/// The machine right after a successful load: a fresh machine carrying the
/// old debug level, with the image copied in at the entry point and cycles
/// enabled. Nothing else survives the load.
pub open spec fn spec_loaded(rom: Seq<u8>, debug: u8) -> Chip8State {
    Chip8State {
        mem: Seq::new(
            4096nat,
            |i: int|
                if 0x200 <= i < 0x200 + rom.len() {
                    rom[i - 0x200]
                } else if 0 <= i < 80 {
                    spec_font()[i]
                } else {
                    0u8
                },
        ),
        running: true,
        ..spec_initial(debug)
    }
}

/// An arithmetic result wrapped to eight bits. Every use wraps by at most
/// one range, so the two guards cover everything.
pub open spec fn wrap8(v: int) -> u8 {
    if v > 255 {
        (v - 256) as u8
    } else if v < 0 {
        (v + 256) as u8
    } else {
        v as u8
    }
}

/// An arithmetic result wrapped to sixteen bits.
pub open spec fn wrap16(v: int) -> u16 {
    if v > 0xFFFF {
        (v - 0x10000) as u16
    } else if v < 0 {
        (v + 0x10000) as u16
    } else {
        v as u16
    }
}

/// The lowest pressed key at index `i` or above, if any. The key-wait
/// instruction stores the value this names.
pub open spec fn first_pressed_from(keys: Seq<bool>, i: int) -> Option<u8>
    decreases 16 - i,
{
    if i < 0 || i >= 16 {
        None
    } else if keys[i] {
        Some(i as u8)
    } else {
        first_pressed_from(keys, i + 1)
    }
}

/// What executing one already-fetched opcode does to the machine. `s` is
/// the state with the program counter already moved past the opcode, and
/// `rand` is the byte the random source produced, read only by the
/// random-load operation.
///
/// Choices this specification pins down where the historical machine left
/// them open: the call stack is unbounded, and only a return on an empty
/// stack is an error; an opcode matching no template, and any instruction
/// that would touch memory beyond its fixed size, are errors that leave the
/// state unchanged; program-counter arithmetic wraps to sixteen bits; the
/// key-conditioned skips read only the low nibble of the register; ALU
/// operands are read before either destination is written, so when the
/// destination is the flag register the arithmetic result wins.
pub open spec fn spec_step(s: Chip8State, opcode: u16, rand: u8) -> Result<Chip8State, Chip8Error> {
    let x = spec_x(opcode) as int;
    let y = spec_y(opcode) as int;
    let kk = spec_kk(opcode);
    let nnn = spec_nnn(opcode);
    let n = spec_n(opcode) as int;
    let vx = s.regs[x];
    let vy = s.regs[y];
    match spec_decode(opcode) {
        Option::None => Err(Chip8Error::UnknownOpcode(opcode)),
        Option::Some(op) => match op {
            Op::ClearDisplay => Ok(
                Chip8State { vram: Seq::new(2048nat, |i: int| false), ..s },
            ),
            Op::Return => if s.stack.len() == 0 {
                Err(Chip8Error::StackUnderflow)
            } else {
                Ok(Chip8State { pc: s.stack.last(), stack: s.stack.drop_last(), ..s })
            },
            Op::Jump => Ok(Chip8State { pc: nnn, ..s }),
            Op::Call => Ok(Chip8State { stack: s.stack.push(s.pc), pc: nnn, ..s }),
            Op::SkipEqImm => Ok(
                if vx == kk {
                    Chip8State { pc: wrap16(s.pc + 2), ..s }
                } else {
                    s
                },
            ),
            Op::SkipNeImm => Ok(
                if vx != kk {
                    Chip8State { pc: wrap16(s.pc + 2), ..s }
                } else {
                    s
                },
            ),
            Op::SkipEqReg => Ok(
                if vx == vy {
                    Chip8State { pc: wrap16(s.pc + 2), ..s }
                } else {
                    s
                },
            ),
            Op::LoadImm => Ok(Chip8State { regs: s.regs.update(x, kk), ..s }),
            Op::AddImm => Ok(Chip8State { regs: s.regs.update(x, wrap8(vx + kk)), ..s }),
            Op::Move => Ok(Chip8State { regs: s.regs.update(x, vy), ..s }),
            Op::Or => Ok(Chip8State { regs: s.regs.update(x, vx | vy), ..s }),
            Op::And => Ok(Chip8State { regs: s.regs.update(x, vx & vy), ..s }),
            Op::Xor => Ok(Chip8State { regs: s.regs.update(x, vx ^ vy), ..s }),
            Op::AddReg => Ok(
                Chip8State {
                    regs: s.regs.update(15, if vx + vy > 255 { 1u8 } else { 0u8 }).update(
                        x,
                        wrap8(vx + vy),
                    ),
                    ..s
                },
            ),
            Op::SubReg => Ok(
                Chip8State {
                    regs: s.regs.update(15, if vx > vy { 1u8 } else { 0u8 }).update(
                        x,
                        wrap8(vx - vy),
                    ),
                    ..s
                },
            ),
            Op::ShiftRight => Ok(
                Chip8State {
                    regs: s.regs.update(15, vx & 1).update(x, vx / 2),
                    ..s
                },
            ),
            Op::SubFrom => Ok(
                Chip8State {
                    regs: s.regs.update(15, if vy > vx { 1u8 } else { 0u8 }).update(
                        x,
                        wrap8(vy - vx),
                    ),
                    ..s
                },
            ),
            Op::ShiftLeft => Ok(
                Chip8State {
                    regs: s.regs.update(15, vx >> 7).update(x, wrap8(2 * vx)),
                    ..s
                },
            ),
            Op::SkipNeReg => Ok(
                if vx != vy {
                    Chip8State { pc: wrap16(s.pc + 2), ..s }
                } else {
                    s
                },
            ),
            Op::LoadAddress => Ok(Chip8State { address: nnn, ..s }),
            Op::JumpPlus => Ok(Chip8State { pc: (nnn + s.regs[0]) as u16, ..s }),
            Op::Random => Ok(Chip8State { regs: s.regs.update(x, rand & kk), ..s }),
            Op::Draw => if n == 0 || s.address + n <= 4096 {
                Ok(
                    Chip8State {
                        vram: spec_draw_vram(s.vram, s.mem, s.address, vx, vy, n),
                        regs: s.regs.update(
                            15,
                            if spec_draw_collision(s.vram, s.mem, s.address, vx, vy, n) {
                                1u8
                            } else {
                                0u8
                            },
                        ),
                        ..s
                    },
                )
            } else {
                Err(Chip8Error::OutOfBounds)
            },
            Op::SkipKeyPressed => Ok(
                if s.keys[(vx & 0xF) as int] {
                    Chip8State { pc: wrap16(s.pc + 2), ..s }
                } else {
                    s
                },
            ),
            Op::SkipKeyNotPressed => Ok(
                if !s.keys[(vx & 0xF) as int] {
                    Chip8State { pc: wrap16(s.pc + 2), ..s }
                } else {
                    s
                },
            ),
            Op::ReadDelay => Ok(Chip8State { regs: s.regs.update(x, s.delay.value), ..s }),
            Op::WaitKey => Ok(
                match first_pressed_from(s.keys, 0) {
                    Option::Some(k) => Chip8State { regs: s.regs.update(x, k), ..s },
                    Option::None => Chip8State { pc: wrap16(s.pc - 2), ..s },
                },
            ),
            Op::SetDelay => Ok(Chip8State { delay: Timer { value: vx, ..s.delay }, ..s }),
            Op::SetSound => Ok(Chip8State { sound: Timer { value: vx, ..s.sound }, ..s }),
            Op::AddAddress => Ok(Chip8State { address: wrap16(s.address + vx), ..s }),
            Op::FontAddress => Ok(Chip8State { address: (vx * 5) as u16, ..s }),
            Op::StoreBcd => if s.address + 2 < 4096 {
                Ok(
                    Chip8State {
                        mem: s.mem.update(s.address as int, (vx / 100) as u8).update(
                            s.address + 1,
                            ((vx / 10) % 10) as u8,
                        ).update(s.address + 2, (vx % 10) as u8),
                        ..s
                    },
                )
            } else {
                Err(Chip8Error::OutOfBounds)
            },
            Op::StoreRegisters => if s.address + x < 4096 {
                Ok(
                    Chip8State {
                        mem: Seq::new(
                            4096nat,
                            |i: int|
                                if s.address <= i <= s.address + x {
                                    s.regs[i - s.address]
                                } else {
                                    s.mem[i]
                                },
                        ),
                        address: (s.address + x + 1) as u16,
                        ..s
                    },
                )
            } else {
                Err(Chip8Error::OutOfBounds)
            },
            Op::LoadRegisters => if s.address + x < 4096 {
                Ok(
                    Chip8State {
                        regs: Seq::new(
                            16nat,
                            |i: int|
                                if 0 <= i <= x {
                                    s.mem[s.address + i]
                                } else {
                                    s.regs[i]
                                },
                        ),
                        address: (s.address + x + 1) as u16,
                        ..s
                    },
                )
            } else {
                Err(Chip8Error::OutOfBounds)
            },
        },
    }
}

/// Chance is confined to the random-load operation: executing any other
/// opcode does not depend on what the random source yields, so for those
/// the step relation is a function of the machine and the opcode alone.
pub proof fn lemma_step_ignores_rand(s: Chip8State, opcode: u16, r1: u8, r2: u8)
    requires
        spec_decode(opcode) != Some(Op::Random),
    ensures
        spec_step(s, opcode, r1) == spec_step(s, opcode, r2),
{
}

/// One call of the cycle driver. Nothing happens while no program is
/// runnable. Otherwise the timers gain one unit of elapsed time, the
/// big-endian opcode at the program counter is fetched, the program counter
/// moves past it, and the opcode executes as `spec_step` says. The pair is
/// the machine after the call and the outcome: a fetch reaching past memory
/// is an error that changes nothing, and an execution error keeps the fetch
/// and timer effects so the caller can inspect the faulting position.
pub open spec fn spec_cycle(s: Chip8State, rand: u8) -> (Chip8State, Result<(), Chip8Error>) {
    if !s.running {
        (s, Ok(()))
    } else if s.pc + 1 >= 4096 {
        (s, Err(Chip8Error::OutOfBounds))
    } else {
        let opcode = (s.mem[s.pc as int] * 256 + s.mem[s.pc + 1]) as u16;
        let mid = Chip8State {
            pc: (s.pc + 2) as u16,
            delay: s.delay.spec_advance(TIMER_PERIOD),
            sound: s.sound.spec_advance(TIMER_PERIOD),
            ..s
        };
        match spec_step(mid, opcode, rand) {
            Ok(s2) => (s2, Ok(())),
            Err(e) => (mid, Err(e)),
        }
    }
}

/// The CHIP-8 interpreter: fixed memory image, register file, call stack,
/// display, timers, keypad and a random source, driven by `load_rom` and
/// `execute_cycle`.
pub struct Chip8Interpreter {
    memory: Vec<u8>,
    registers: Vec<u8>,
    address: u16,
    program_counter: u16,
    stack: Vec<u16>,
    rng: fastrand::Rng,
    vram: Vec<bool>,
    delay_timer: Timer,
    sound_timer: Timer,
    should_execute: bool,
    keyboard: Vec<bool>,
    debug: u8,
}

impl View for Chip8Interpreter {
    type V = Chip8State;

    closed spec fn view(&self) -> Chip8State {
        Chip8State {
            mem: self.memory@,
            regs: self.registers@,
            address: self.address,
            pc: self.program_counter,
            stack: self.stack@,
            vram: self.vram@,
            delay: self.delay_timer,
            sound: self.sound_timer,
            keys: self.keyboard@,
            running: self.should_execute,
            debug: self.debug,
        }
    }
}

/// A vector of `n` cleared flags.
fn falses(n: usize) -> (r: Vec<bool>)
    ensures
        r@ == Seq::new(n as nat, |i: int| false),
{
    let mut r: Vec<bool> = Vec::new();
    while r.len() < n
        invariant
            r@.len() <= n,
            forall|i: int| 0 <= i < r@.len() ==> !r@[i],
        decreases n - r@.len(),
    {
        r.push(false);
    }
    proof {
        assert(r@ =~= Seq::new(n as nat, |i: int| false));
    }
    r
}

impl Chip8Interpreter {
    /// Structural health of the live machine; see `Chip8State::wf`.
    pub open spec fn wf(&self) -> bool {
        self@.wf()
    }

    /// Builds a machine in its initial state, with a random source drawn
    /// from fresh entropy.
    pub fn new() -> (r: Self)
        ensures
            r@ == spec_initial(0),
            r.wf(),
    {
        let mut memory = font_set();
        while memory.len() < 4096
            invariant
                80 <= memory@.len() <= 4096,
                forall|i: int|
                    0 <= i < memory@.len() ==> memory@[i] == spec_initial(0).mem[i],
            decreases 4096 - memory@.len(),
        {
            memory.push(0);
        }
        let mut registers: Vec<u8> = Vec::new();
        while registers.len() < 16
            invariant
                registers@.len() <= 16,
                forall|i: int| 0 <= i < registers@.len() ==> registers@[i] == 0u8,
            decreases 16 - registers@.len(),
        {
            registers.push(0);
        }
        let r = Chip8Interpreter {
            memory,
            registers,
            address: 0,
            program_counter: PROGRAM_START,
            stack: Vec::new(),
            rng: crate::rng::fresh_rng(),
            vram: falses(2048),
            delay_timer: Timer::new(TIMER_PERIOD),
            sound_timer: Timer::new(TIMER_PERIOD),
            should_execute: false,
            keyboard: falses(16),
            debug: 0,
        };
        proof {
            assert(r@.mem =~= spec_initial(0).mem);
            assert(r@.regs =~= spec_initial(0).regs);
            assert(r@ =~= spec_initial(0));
        }
        r
    }

    /// Replaces the whole machine with a freshly loaded one. Only the debug
    /// level survives. An image longer than the writable region is refused
    /// before anything is touched, so a failed load changes nothing.
    pub fn load_rom(&mut self, rom: &Vec<u8>) -> (r: Result<(), Chip8Error>)
        requires
            old(self).wf(),
        ensures
            final(self).wf(),
            rom@.len() > 3584 ==> r == Err::<(), Chip8Error>(Chip8Error::RomTooLarge)
                && *final(self) == *old(self),
            rom@.len() <= 3584 ==> r == Ok::<(), Chip8Error>(())
                && final(self)@ == spec_loaded(rom@, old(self)@.debug),
    {
        if rom.len() > MAX_ROM_BYTES {
            return Err(Chip8Error::RomTooLarge);
        }
        let debug = self.debug;
        let mut fresh = Self::new();
        fresh.debug = debug;
        let mut i: usize = 0;
        while i < rom.len()
            invariant
                i <= rom@.len() <= 3584,
                fresh@.mem.len() == 4096,
                fresh@ =~= (Chip8State { mem: fresh@.mem, ..spec_initial(debug) }),
                forall|k: int|
                    0 <= k < 4096 ==> fresh@.mem[k] == (if 0x200 <= k < 0x200 + i {
                        rom@[k - 0x200]
                    } else {
                        spec_initial(debug).mem[k]
                    }),
            decreases rom@.len() - i,
        {
            fresh.memory.set(0x200 + i, rom[i]);
            i = i + 1;
        }
        fresh.should_execute = true;
        proof {
            assert(fresh@.mem =~= spec_loaded(rom@, debug).mem);
            assert(fresh@ =~= spec_loaded(rom@, debug));
        }
        *self = fresh;
        Ok(())
    }

    /// Records one keypad key as pressed or released.
    pub fn update_key(&mut self, position: usize, state: bool)
        requires
            old(self).wf(),
            position < 16,
        ensures
            final(self).wf(),
            final(self)@ == (Chip8State { keys: old(self)@.keys.update(position as int, state), ..old(self)@ }),
    {
        self.keyboard.set(position, state);
    }

    /// Whether the machine should be beeping: true while the sound timer is
    /// nonzero. A pure query.
    pub fn should_beep(&self) -> (r: bool)
        ensures
            r == (self@.sound.value > 0),
    {
        self.sound_timer.value > 0
    }

    /// Sets the debug verbosity, and reseeds the random source to a fixed
    /// value so that traced runs are reproducible. Nothing else changes.
    pub fn set_debug(&mut self, value: u8)
        ensures
            final(self)@ == (Chip8State { debug: value, ..old(self)@ }),
    {
        self.debug = value;
        self.rng = crate::rng::seeded_rng(0);
    }

    /// Turns every display cell off.
    fn clear_display(&mut self)
        requires
            old(self).wf(),
        ensures
            final(self).wf(),
            final(self)@ == (Chip8State {
                vram: Seq::new(2048nat, |i: int| false),
                ..old(self)@
            }),
    {
        self.vram = falses(2048);
        proof {
            assert(self@.vram =~= Seq::new(2048nat, |i: int| false));
            assert(self@ =~= (Chip8State {
                vram: Seq::new(2048nat, |i: int| false),
                ..old(self)@
            }));
        }
    }

    /// The lowest pressed key, if any key is down.
    fn lowest_pressed_key(&self) -> (r: Option<u8>)
        requires
            self.wf(),
        ensures
            r == first_pressed_from(self@.keys, 0),
    {
        let mut i: usize = 0;
        while i < 16
            invariant
                self.wf(),
                0 <= i <= 16,
                first_pressed_from(self@.keys, i as int) == first_pressed_from(self@.keys, 0),
            decreases 16 - i,
        {
            if self.keyboard[i] {
                return Some(i as u8);
            }
            i = i + 1;
        }
        None
    }

    /// Stores the three decimal digits of register `x` at the address
    /// register: hundreds first, ones last.
    fn store_bcd(&mut self, x: usize) -> (r: Result<(), Chip8Error>)
        requires
            old(self).wf(),
            x < 16,
        ensures
            final(self).wf(),
            (match r {
                Ok(()) => old(self)@.address + 2 < 4096 && final(self)@ == (Chip8State {
                    mem: old(self)@.mem.update(
                        old(self)@.address as int,
                        (old(self)@.regs[x as int] / 100) as u8,
                    ).update(
                        old(self)@.address + 1,
                        ((old(self)@.regs[x as int] / 10) % 10) as u8,
                    ).update(old(self)@.address + 2, (old(self)@.regs[x as int] % 10) as u8),
                    ..old(self)@
                }),
                Err(e) => e == Chip8Error::OutOfBounds && old(self)@.address + 2 >= 4096
                    && final(self)@ == old(self)@,
            }),
    {
        let addr = self.address as usize;
        if addr + 2 >= 4096 {
            return Err(Chip8Error::OutOfBounds);
        }
        let v = self.registers[x];
        self.memory.set(addr, v / 100);
        self.memory.set(addr + 1, (v / 10) % 10);
        self.memory.set(addr + 2, v % 10);
        Ok(())
    }

    /// Stores registers 0 through `x`, inclusive, to memory at the address
    /// register, then moves the address register past the block.
    fn store_registers(&mut self, x: usize) -> (r: Result<(), Chip8Error>)
        requires
            old(self).wf(),
            x < 16,
        ensures
            final(self).wf(),
            (match r {
                Ok(()) => old(self)@.address + x < 4096 && final(self)@ == (Chip8State {
                    mem: Seq::new(
                        4096nat,
                        |i: int|
                            if old(self)@.address <= i <= old(self)@.address + x {
                                old(self)@.regs[i - old(self)@.address]
                            } else {
                                old(self)@.mem[i]
                            },
                    ),
                    address: (old(self)@.address + x + 1) as u16,
                    ..old(self)@
                }),
                Err(e) => e == Chip8Error::OutOfBounds && old(self)@.address + x >= 4096
                    && final(self)@ == old(self)@,
            }),
    {
        let addr = self.address as usize;
        if addr + x >= 4096 {
            return Err(Chip8Error::OutOfBounds);
        }
        let ghost st0 = self@;
        let mut i: usize = 0;
        while i <= x
            invariant
                st0.wf(),
                x < 16,
                addr == st0.address,
                addr + x < 4096,
                0 <= i <= x + 1,
                self@ == (Chip8State { mem: self@.mem, ..st0 }),
                self@.mem.len() == 4096,
                forall|k: int|
                    0 <= k < 4096 ==> self@.mem[k] == (if addr <= k < addr + i {
                        st0.regs[k - addr]
                    } else {
                        st0.mem[k]
                    }),
            decreases x + 1 - i,
        {
            let v = self.registers[i];
            self.memory.set(addr + i, v);
            i = i + 1;
        }
        self.address = self.address + (x as u16) + 1;
        proof {
            assert(self@.mem =~= Seq::new(
                4096nat,
                |i: int|
                    if st0.address <= i <= st0.address + x {
                        st0.regs[i - st0.address]
                    } else {
                        st0.mem[i]
                    },
            ));
            assert(self@ =~= (Chip8State {
                mem: self@.mem,
                address: (st0.address + x + 1) as u16,
                ..st0
            }));
        }
        Ok(())
    }

    /// Loads registers 0 through `x`, inclusive, from memory at the address
    /// register, then moves the address register past the block.
    fn load_registers(&mut self, x: usize) -> (r: Result<(), Chip8Error>)
        requires
            old(self).wf(),
            x < 16,
        ensures
            final(self).wf(),
            (match r {
                Ok(()) => old(self)@.address + x < 4096 && final(self)@ == (Chip8State {
                    regs: Seq::new(
                        16nat,
                        |i: int|
                            if 0 <= i <= x {
                                old(self)@.mem[old(self)@.address + i]
                            } else {
                                old(self)@.regs[i]
                            },
                    ),
                    address: (old(self)@.address + x + 1) as u16,
                    ..old(self)@
                }),
                Err(e) => e == Chip8Error::OutOfBounds && old(self)@.address + x >= 4096
                    && final(self)@ == old(self)@,
            }),
    {
        let addr = self.address as usize;
        if addr + x >= 4096 {
            return Err(Chip8Error::OutOfBounds);
        }
        let ghost st0 = self@;
        let mut i: usize = 0;
        while i <= x
            invariant
                st0.wf(),
                x < 16,
                addr == st0.address,
                addr + x < 4096,
                0 <= i <= x + 1,
                self@ == (Chip8State { regs: self@.regs, ..st0 }),
                self@.regs.len() == 16,
                forall|k: int|
                    0 <= k < 16 ==> self@.regs[k] == (if 0 <= k < i {
                        st0.mem[addr + k]
                    } else {
                        st0.regs[k]
                    }),
            decreases x + 1 - i,
        {
            let v = self.memory[addr + i];
            self.registers.set(i, v);
            i = i + 1;
        }
        self.address = self.address + (x as u16) + 1;
        proof {
            assert(self@.regs =~= Seq::new(
                16nat,
                |i: int|
                    if 0 <= i <= x {
                        st0.mem[st0.address + i]
                    } else {
                        st0.regs[i]
                    },
            ));
            assert(self@ =~= (Chip8State {
                regs: self@.regs,
                address: (st0.address + x + 1) as u16,
                ..st0
            }));
        }
        Ok(())
    }

    /// Draws the `n`-row sprite at the address register with origin taken
    /// from registers `x` and `y`, XORing bits into the display, wrapping
    /// both coordinates, and leaving the collision flag in register 15.
    fn draw_sprite(&mut self, x: usize, y: usize, n: usize) -> (r: Result<(), Chip8Error>)
        requires
            old(self).wf(),
            x < 16,
            y < 16,
            n <= 15,
        ensures
            final(self).wf(),
            (match r {
                Ok(()) => (n == 0 || old(self)@.address + n <= 4096) && final(self)@
                    == (Chip8State {
                    vram: spec_draw_vram(
                        old(self)@.vram,
                        old(self)@.mem,
                        old(self)@.address,
                        old(self)@.regs[x as int],
                        old(self)@.regs[y as int],
                        n as int,
                    ),
                    regs: old(self)@.regs.update(
                        15,
                        if spec_draw_collision(
                            old(self)@.vram,
                            old(self)@.mem,
                            old(self)@.address,
                            old(self)@.regs[x as int],
                            old(self)@.regs[y as int],
                            n as int,
                        ) {
                            1u8
                        } else {
                            0u8
                        },
                    ),
                    ..old(self)@
                }),
                Err(e) => e == Chip8Error::OutOfBounds && n > 0 && old(self)@.address + n > 4096
                    && final(self)@ == old(self)@,
            }),
    {
        if n > 0 && self.address as usize + n > 4096 {
            return Err(Chip8Error::OutOfBounds);
        }
        let ghost st0 = self@;
        let vx = self.registers[x];
        let vy = self.registers[y];
        let addr = self.address as usize;
        let mut collided = false;
        let bits = 8 * n;
        let mut k: usize = 0;
        while k < bits
            invariant
                st0.wf(),
                x < 16,
                y < 16,
                n <= 15,
                bits == 8 * n,
                n == 0 || st0.address + n <= 4096,
                addr == st0.address,
                vx == st0.regs[x as int],
                vy == st0.regs[y as int],
                0 <= k <= bits,
                self@ == (Chip8State { vram: self@.vram, ..st0 }),
                self@.vram.len() == 2048,
                forall|cell: int|
                    0 <= cell < 2048 ==> self@.vram[cell] == (if hit_upto(
                        st0.mem,
                        st0.address,
                        vx,
                        vy,
                        k as int,
                        cell,
                    ) {
                        !st0.vram[cell]
                    } else {
                        st0.vram[cell]
                    }),
                collided == (exists|j: int|
                    0 <= j < k && sprite_bit(st0.mem, st0.address, j) && st0.vram[
                        #[trigger] draw_target(vx, vy, j)
                    ]),
            decreases bits - k,
        {
            let ghost kk = k as int;
            proof {
                vstd::arithmetic::div_mod::lemma_fundamental_div_mod(kk, 8);
                vstd::arithmetic::div_mod::lemma_mod_division_less_than_divisor(kk, 8);
                assert(kk / 8 < n);
            }
            let row = k / 8;
            let col = k % 8;
            let byte = self.memory[addr + row];
            let shift: u8 = (7 - col) as u8;
            let bit = (byte >> shift) & 1;
            proof {
                assert((bit == 1) == sprite_bit(st0.mem, st0.address, kk));
            }
            if bit == 1 {
                let yy = (vy as usize + row) % 32;
                let xx = (vx as usize + col) % 64;
                let cell = yy * 64 + xx;
                proof {
                    lemma_draw_target_bounds(vx, vy, kk);
                    assert(cell == draw_target(vx, vy, kk));
                    assert(!hit_upto(st0.mem, st0.address, vx, vy, kk, cell as int)) by {
                        if hit_upto(st0.mem, st0.address, vx, vy, kk, cell as int) {
                            let j = choose|j: int|
                                0 <= j < kk && (#[trigger] draw_target(vx, vy, j)) == cell
                                    && sprite_bit(st0.mem, st0.address, j);
                            lemma_draw_target_injective(vx, vy, j, kk);
                        }
                    }
                }
                let lit = self.vram[cell];
                if lit {
                    collided = true;
                }
                self.vram.set(cell, !lit);
                proof {
                    assert forall|c: int| 0 <= c < 2048 implies self@.vram[c] == (if hit_upto(
                        st0.mem,
                        st0.address,
                        vx,
                        vy,
                        kk + 1,
                        c,
                    ) {
                        !st0.vram[c]
                    } else {
                        st0.vram[c]
                    }) by {
                        if c == cell {
                            assert(hit_upto(st0.mem, st0.address, vx, vy, kk + 1, c));
                        } else {
                            if hit_upto(st0.mem, st0.address, vx, vy, kk + 1, c) {
                                let j = choose|j: int|
                                    0 <= j < kk + 1 && (#[trigger] draw_target(vx, vy, j)) == c
                                        && sprite_bit(st0.mem, st0.address, j);
                                assert(j != kk);
                                assert(hit_upto(st0.mem, st0.address, vx, vy, kk, c));
                            }
                            if hit_upto(st0.mem, st0.address, vx, vy, kk, c) {
                                let j = choose|j: int|
                                    0 <= j < kk && (#[trigger] draw_target(vx, vy, j)) == c
                                        && sprite_bit(st0.mem, st0.address, j);
                                assert(hit_upto(st0.mem, st0.address, vx, vy, kk + 1, c));
                            }
                        }
                    }
                    assert(collided == (exists|j: int|
                        0 <= j < kk + 1 && sprite_bit(st0.mem, st0.address, j) && st0.vram[
                            #[trigger] draw_target(vx, vy, j)
                        ])) by {
                        if lit {
                            assert(st0.vram[draw_target(vx, vy, kk)]);
                            assert(sprite_bit(st0.mem, st0.address, kk));
                        } else {
                            if exists|j: int|
                                0 <= j < kk + 1 && sprite_bit(st0.mem, st0.address, j) && st0.vram[
                                    #[trigger] draw_target(vx, vy, j)
                                ] {
                                let j = choose|j: int|
                                    0 <= j < kk + 1 && sprite_bit(st0.mem, st0.address, j)
                                        && st0.vram[#[trigger] draw_target(vx, vy, j)];
                                if j == kk {
                                    assert(st0.vram[draw_target(vx, vy, kk)] == lit);
                                }
                            }
                        }
                    }
                }
            } else {
                proof {
                    assert forall|c: int| 0 <= c < 2048 implies self@.vram[c] == (if hit_upto(
                        st0.mem,
                        st0.address,
                        vx,
                        vy,
                        kk + 1,
                        c,
                    ) {
                        !st0.vram[c]
                    } else {
                        st0.vram[c]
                    }) by {
                        if hit_upto(st0.mem, st0.address, vx, vy, kk + 1, c) {
                            let j = choose|j: int|
                                0 <= j < kk + 1 && (#[trigger] draw_target(vx, vy, j)) == c
                                    && sprite_bit(st0.mem, st0.address, j);
                            assert(j != kk);
                            assert(hit_upto(st0.mem, st0.address, vx, vy, kk, c));
                        }
                        if hit_upto(st0.mem, st0.address, vx, vy, kk, c) {
                            let j = choose|j: int|
                                0 <= j < kk && (#[trigger] draw_target(vx, vy, j)) == c
                                    && sprite_bit(st0.mem, st0.address, j);
                            assert(hit_upto(st0.mem, st0.address, vx, vy, kk + 1, c));
                        }
                    }
                    assert(collided == (exists|j: int|
                        0 <= j < kk + 1 && sprite_bit(st0.mem, st0.address, j) && st0.vram[
                            #[trigger] draw_target(vx, vy, j)
                        ])) by {
                        if exists|j: int|
                            0 <= j < kk + 1 && sprite_bit(st0.mem, st0.address, j) && st0.vram[
                                #[trigger] draw_target(vx, vy, j)
                            ] {
                            let j = choose|j: int|
                                0 <= j < kk + 1 && sprite_bit(st0.mem, st0.address, j) && st0.vram[
                                    #[trigger] draw_target(vx, vy, j)
                                ];
                            assert(j != kk);
                        }
                    }
                }
            }
            k = k + 1;
        }
        self.registers.set(15, if collided { 1 } else { 0 });
        proof {
            assert(self@.vram =~= spec_draw_vram(
                st0.vram,
                st0.mem,
                st0.address,
                vx,
                vy,
                n as int,
            ));
            assert(collided == spec_draw_collision(
                st0.vram,
                st0.mem,
                st0.address,
                vx,
                vy,
                n as int,
            ));
            assert(self@ =~= (Chip8State {
                vram: spec_draw_vram(st0.vram, st0.mem, st0.address, vx, vy, n as int),
                regs: st0.regs.update(
                    15,
                    if spec_draw_collision(st0.vram, st0.mem, st0.address, vx, vy, n as int) {
                        1u8
                    } else {
                        0u8
                    },
                ),
                ..st0
            }));
        }
        Ok(())
    }

    /// Decodes and executes one opcode against the current machine state;
    /// `spec_step` is the exact statement of what each operation does. On
    /// an error — unknown opcode, return on an empty stack, an instruction
    /// reaching past memory — the machine is left unchanged and the error
    /// is returned, so the caller can halt, log or load anew.
    pub fn handle_opcode(&mut self, opcode: u16) -> (r: Result<(), Chip8Error>)
        requires
            old(self).wf(),
        ensures
            final(self).wf(),
            (match r {
                Ok(()) => exists|rnd: u8|
                    rnd < 255 && spec_step(old(self)@, opcode, rnd) == Ok::<
                        Chip8State,
                        Chip8Error,
                    >(final(self)@),
                Err(e) => final(self)@ == old(self)@ && spec_step(old(self)@, opcode, 0u8)
                    == Err::<Chip8State, Chip8Error>(e),
            }),
    {
        let ghost st0 = self@;
        let op = match decode(opcode) {
            Option::None => {
                return Err(Chip8Error::UnknownOpcode(opcode));
            },
            Option::Some(op) => op,
        };
        let x = op_x(opcode) as usize;
        let y = op_y(opcode) as usize;
        let kk = op_kk(opcode);
        let nnn = op_nnn(opcode);
        let n = op_n(opcode) as usize;
        match op {
            Op::ClearDisplay => {
                self.clear_display();
            },
            Op::Return => {
                if self.stack.len() == 0 {
                    return Err(Chip8Error::StackUnderflow);
                }
                let a = self.stack.pop().unwrap();
                self.program_counter = a;
                proof {
                    assert(self@.stack =~= st0.stack.drop_last());
                }
            },
            Op::Jump => {
                self.program_counter = nnn;
            },
            Op::Call => {
                let pc = self.program_counter;
                self.stack.push(pc);
                self.program_counter = nnn;
            },
            Op::SkipEqImm => {
                if self.registers[x] == kk {
                    self.program_counter = self.program_counter.wrapping_add(2);
                }
            },
            Op::SkipNeImm => {
                if self.registers[x] != kk {
                    self.program_counter = self.program_counter.wrapping_add(2);
                }
            },
            Op::SkipEqReg => {
                if self.registers[x] == self.registers[y] {
                    self.program_counter = self.program_counter.wrapping_add(2);
                }
            },
            Op::LoadImm => {
                self.registers.set(x, kk);
            },
            Op::AddImm => {
                let a = self.registers[x];
                self.registers.set(x, a.wrapping_add(kk));
            },
            Op::Move => {
                let b = self.registers[y];
                self.registers.set(x, b);
            },
            Op::Or => {
                let a = self.registers[x];
                let b = self.registers[y];
                self.registers.set(x, a | b);
            },
            Op::And => {
                let a = self.registers[x];
                let b = self.registers[y];
                self.registers.set(x, a & b);
            },
            Op::Xor => {
                let a = self.registers[x];
                let b = self.registers[y];
                self.registers.set(x, a ^ b);
            },
            Op::AddReg => {
                let a = self.registers[x];
                let b = self.registers[y];
                self.registers.set(15, if a as u16 + b as u16 > 255 { 1 } else { 0 });
                self.registers.set(x, a.wrapping_add(b));
            },
            Op::SubReg => {
                let a = self.registers[x];
                let b = self.registers[y];
                self.registers.set(15, if a > b { 1 } else { 0 });
                self.registers.set(x, a.wrapping_sub(b));
            },
            Op::ShiftRight => {
                let a = self.registers[x];
                self.registers.set(15, a & 1);
                self.registers.set(x, a / 2);
            },
            Op::SubFrom => {
                let a = self.registers[x];
                let b = self.registers[y];
                self.registers.set(15, if b > a { 1 } else { 0 });
                self.registers.set(x, b.wrapping_sub(a));
            },
            Op::ShiftLeft => {
                let a = self.registers[x];
                self.registers.set(15, a >> 7);
                self.registers.set(x, a.wrapping_add(a));
            },
            Op::SkipNeReg => {
                if self.registers[x] != self.registers[y] {
                    self.program_counter = self.program_counter.wrapping_add(2);
                }
            },
            Op::LoadAddress => {
                self.address = nnn;
            },
            Op::JumpPlus => {
                self.program_counter = nnn + self.registers[0] as u16;
            },
            Op::Random => {
                let rnd = crate::rng::random_byte(&mut self.rng);
                self.registers.set(x, rnd & kk);
                proof {
                    assert(spec_step(st0, opcode, rnd) == Ok::<Chip8State, Chip8Error>(self@));
                }
            },
            Op::Draw => {
                match self.draw_sprite(x, y, n) {
                    Ok(()) => {},
                    Err(e) => {
                        return Err(e);
                    },
                }
            },
            Op::SkipKeyPressed => {
                let a = self.registers[x];
                let key = a & 0xF;
                proof {
                    assert(a & 0xF < 16) by (bit_vector);
                }
                if self.keyboard[key as usize] {
                    self.program_counter = self.program_counter.wrapping_add(2);
                }
            },
            Op::SkipKeyNotPressed => {
                let a = self.registers[x];
                let key = a & 0xF;
                proof {
                    assert(a & 0xF < 16) by (bit_vector);
                }
                if !self.keyboard[key as usize] {
                    self.program_counter = self.program_counter.wrapping_add(2);
                }
            },
            Op::ReadDelay => {
                let v = self.delay_timer.value;
                self.registers.set(x, v);
            },
            Op::WaitKey => {
                match self.lowest_pressed_key() {
                    Option::Some(key) => {
                        self.registers.set(x, key);
                    },
                    Option::None => {
                        self.program_counter = self.program_counter.wrapping_sub(2);
                    },
                }
            },
            Op::SetDelay => {
                let v = self.registers[x];
                self.delay_timer.value = v;
            },
            Op::SetSound => {
                let v = self.registers[x];
                self.sound_timer.value = v;
            },
            Op::AddAddress => {
                let v = self.registers[x] as u16;
                self.address = self.address.wrapping_add(v);
            },
            Op::FontAddress => {
                let v = self.registers[x] as u16;
                self.address = v * 5;
            },
            Op::StoreBcd => {
                match self.store_bcd(x) {
                    Ok(()) => {},
                    Err(e) => {
                        return Err(e);
                    },
                }
            },
            Op::StoreRegisters => {
                match self.store_registers(x) {
                    Ok(()) => {},
                    Err(e) => {
                        return Err(e);
                    },
                }
            },
            Op::LoadRegisters => {
                match self.load_registers(x) {
                    Ok(()) => {},
                    Err(e) => {
                        return Err(e);
                    },
                }
            },
        }
        proof {
            if spec_decode(opcode) != Some(Op::Random) {
                assert(spec_step(st0, opcode, 0u8) == Ok::<Chip8State, Chip8Error>(self@));
            }
        }
        Ok(())
    }

    /// Runs one machine cycle: a no-op while no program is runnable, else
    /// one timer tick and one fetched, decoded and executed instruction, as
    /// `spec_cycle` says, for the byte the random source happened to yield.
    pub fn execute_cycle(&mut self) -> (r: Result<(), Chip8Error>)
        requires
            old(self).wf(),
        ensures
            final(self).wf(),
            exists|rnd: u8| rnd < 255 && spec_cycle(old(self)@, rnd) == (final(self)@, r),
    {
        if !self.should_execute {
            proof {
                assert(spec_cycle(self@, 0u8) == (self@, Ok::<(), Chip8Error>(())));
            }
            return Ok(());
        }
        if self.program_counter as usize + 1 >= 4096 {
            proof {
                assert(spec_cycle(self@, 0u8) == (self@, Err::<(), Chip8Error>(
                    Chip8Error::OutOfBounds,
                )));
            }
            return Err(Chip8Error::OutOfBounds);
        }
        let ghost st0 = self@;
        let loc = self.program_counter as usize;
        let opcode: u16 = (self.memory[loc] as u16) * 256 + (self.memory[loc + 1] as u16);
        self.delay_timer.advance(TIMER_PERIOD);
        self.sound_timer.advance(TIMER_PERIOD);
        self.program_counter = self.program_counter + 2;
        let ghost mid = self@;
        let res = self.handle_opcode(opcode);
        proof {
            assert(opcode == (st0.mem[st0.pc as int] * 256 + st0.mem[st0.pc + 1]) as u16);
            assert(mid == (Chip8State {
                pc: (st0.pc + 2) as u16,
                delay: st0.delay.spec_advance(TIMER_PERIOD),
                sound: st0.sound.spec_advance(TIMER_PERIOD),
                ..st0
            }));
        }
        match res {
            Ok(()) => {
                proof {
                    let rnd = choose|rnd: u8|
                        rnd < 255 && spec_step(mid, opcode, rnd) == Ok::<Chip8State, Chip8Error>(
                            self@,
                        );
                    assert(spec_cycle(st0, rnd) == (self@, Ok::<(), Chip8Error>(())));
                }
                Ok(())
            },
            Err(e) => {
                proof {
                    assert(spec_cycle(st0, 0u8) == (self@, Err::<(), Chip8Error>(e)));
                }
                Err(e)
            },
        }
    }

    /// Projects the display into a caller-owned RGBA buffer of exactly four
    /// bytes per cell: bright white for a lit cell, black for a dark one,
    /// always fully opaque. The machine itself is untouched.
    pub fn draw_pixels(&mut self, pixels: &mut Vec<u8>)
        requires
            old(self).wf(),
            old(pixels)@.len() == 8192,
        ensures
            *final(self) == *old(self),
            final(pixels)@ == spec_pixels(old(self)@.vram),
    {
        let mut cell: usize = 0;
        while cell < 2048
            invariant
                self.wf(),
                *self == *old(self),
                pixels@.len() == 8192,
                0 <= cell <= 2048,
                forall|j: int|
                    0 <= j < 4 * cell ==> pixels@[j] == spec_pixels(self@.vram)[j],
            decreases 2048 - cell,
        {
            let on = self.vram[cell];
            let v: u8 = if on {
                255
            } else {
                0
            };
            pixels.set(4 * cell, v);
            pixels.set(4 * cell + 1, v);
            pixels.set(4 * cell + 2, v);
            pixels.set(4 * cell + 3, 255);
            cell = cell + 1;
        }
        proof {
            assert(pixels@ =~= spec_pixels(self@.vram));
        }
    }

    /// One general-purpose register.
    pub fn register(&self, index: usize) -> (r: u8)
        requires
            self.wf(),
            index < 16,
        ensures
            r == self@.regs[index as int],
    {
        self.registers[index]
    }

    /// The program counter.
    pub fn program_counter(&self) -> (r: u16)
        ensures
            r == self@.pc,
    {
        self.program_counter
    }

    /// The address register.
    pub fn address_register(&self) -> (r: u16)
        ensures
            r == self@.address,
    {
        self.address
    }

    /// One memory byte.
    pub fn memory_byte(&self, addr: usize) -> (r: u8)
        requires
            self.wf(),
            addr < 4096,
        ensures
            r == self@.mem[addr as int],
    {
        self.memory[addr]
    }

    /// One display cell, by screen coordinates.
    pub fn pixel(&self, x: usize, y: usize) -> (r: bool)
        requires
            self.wf(),
            x < 64,
            y < 32,
        ensures
            r == self@.vram[y * 64 + x],
    {
        self.vram[y * 64 + x]
    }

    /// The delay timer's current value.
    pub fn delay_value(&self) -> (r: u8)
        ensures
            r == self@.delay.value,
    {
        self.delay_timer.value
    }

    /// The sound timer's current value.
    pub fn sound_value(&self) -> (r: u8)
        ensures
            r == self@.sound.value,
    {
        self.sound_timer.value
    }

    /// How deep the call stack is.
    pub fn stack_depth(&self) -> (r: usize)
        ensures
            r == self@.stack.len(),
    {
        self.stack.len()
    }

    /// Whether a program is loaded and cycles execute.
    pub fn is_runnable(&self) -> (r: bool)
        ensures
            r == self@.running,
    {
        self.should_execute
    }

    /// The stored debug verbosity.
    pub fn debug_level(&self) -> (r: u8)
        ensures
            r == self@.debug,
    {
        self.debug
    }
}

/// Loading one image after another leaves exactly the state that loading
/// the second alone leaves: a load hands nothing to its successor beyond
/// the debug level, which every load preserves.
pub proof fn lemma_load_overrides(a: Seq<u8>, b: Seq<u8>, debug: u8)
    requires
        a.len() <= 3584,
        b.len() <= 3584,
    ensures
        spec_loaded(b, spec_loaded(a, debug).debug) == spec_loaded(b, debug),
{
}

} // verus!
