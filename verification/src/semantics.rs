//! What each instruction does to the machine's state, and what one step of
//! the machine is: the reference against which the engine is verified.

use vstd::prelude::*;
use crate::decode::decode_spec;
use crate::display::{address, draw_collides, draw_memory};
use crate::model::{Fault, Instruction, State, Status, StepError};

verus! {

/// 1 for true, 0 for false: the value a flag takes in `VF`.
pub open spec fn flag(b: bool) -> u8 {
    if b {
        1
    } else {
        0
    }
}

impl State {
    /// The sizes are those of the machine, and a machine that waits for a
    /// key has a register to fill and is not halted.
    pub open spec fn wf(self) -> bool {
        &&& self.regs.len() == 16
        &&& self.memory.len() == 4096
        &&& self.keys.len() == 16
        &&& self.stack.len() <= 16
        &&& (self.waiting matches Some(x) ==> x < 16 && self.pc <= 4094 && !self.halted)
    }

    /// What `status` reports of this state.
    pub open spec fn status(self) -> Status {
        if self.halted {
            Status::Halted
        } else if self.waiting.is_some() {
            Status::AwaitingKey
        } else {
            Status::Running
        }
    }

    /// The instruction word at the program counter, if two bytes are there.
    pub open spec fn fetch(self) -> Option<u16> {
        if self.pc <= 4094 {
            Some((self.memory[self.pc as int] * 256 + self.memory[self.pc + 1]) as u16)
        } else {
            None
        }
    }

    /// This state with the program counter moved to `pc`.
    pub open spec fn goto(self, pc: int) -> State {
        State { pc: pc as u16, ..self }
    }

    /// This state with the program counter past the current instruction,
    /// and past the one after it too if `skip` holds.
    pub open spec fn advance(self, skip: bool) -> State {
        self.goto(
            if skip {
                self.pc + 4
            } else {
                self.pc + 2
            },
        )
    }

    /// This state with `Vx` set to `v`.
    pub open spec fn with_reg(self, x: u8, v: u8) -> State {
        State { regs: self.regs.update(x as int, v), ..self }
    }

    /// This state with `Vx` set to `v` and then `VF` to the flag `f`: where
    /// `x` is 15 the flag is what remains.
    pub open spec fn with_reg_flag(self, x: u8, v: u8, f: bool) -> State {
        State { regs: self.regs.update(x as int, v).update(15, flag(f)), ..self }
    }

    /// Whether the key that the low four bits of `v` number is held down.
    pub open spec fn key_down(self, v: u8) -> bool {
        self.keys[v as int % 16]
    }

    /// This state after drawing the sprite of `rows` rows that the index
    /// register points to, anchored at pixel `(Vx mod 64, Vy mod 32)`: the
    /// display has the sprite XORed in, and `VF` says whether that turned
    /// off a pixel.
    pub open spec fn draw(self, x: u8, y: u8, rows: u8) -> State {
        let px = self.regs[x as int] as int % 64;
        let py = self.regs[y as int] as int % 32;
        State {
            memory: draw_memory(self.memory, self.index, px, py, rows as int),
            regs: self.regs.update(
                15,
                flag(draw_collides(self.memory, self.index, px, py, rows as int)),
            ),
            ..self
        }
    }

    /// The state that executing `instr`, found at the program counter,
    /// leaves, with `random` as the random byte; or the fault that refuses
    /// it, in which case the state stays as it is.
    pub open spec fn execute(self, instr: Instruction, random: u8) -> Result<State, Fault> {
        let s = self;
        match instr {
            Instruction::Cls => Ok(
                State {
                    memory: Seq::new(
                        4096,
                        |a: int|
                            if a >= 0xF00 {
                                0u8
                            } else {
                                s.memory[a]
                            },
                    ),
                    ..s.advance(false)
                },
            ),
            Instruction::Ret => if s.stack.len() == 0 {
                Err(Fault::StackUnderflow)
            } else {
                Ok(State { stack: s.stack.drop_last(), ..s.goto(s.stack.last() as int) })
            },
            Instruction::Jp { addr } => Ok(State { halted: addr == s.pc, ..s.goto(addr as int) }),
            Instruction::Call { addr } => if s.stack.len() >= 16 {
                Err(Fault::StackOverflow)
            } else {
                Ok(State { stack: s.stack.push((s.pc + 2) as u16), ..s.goto(addr as int) })
            },
            Instruction::SeByte { x, byte } => Ok(s.advance(s.regs[x as int] == byte)),
            Instruction::SneByte { x, byte } => Ok(s.advance(s.regs[x as int] != byte)),
            Instruction::SeReg { x, y } => Ok(s.advance(s.regs[x as int] == s.regs[y as int])),
            Instruction::SneReg { x, y } => Ok(s.advance(s.regs[x as int] != s.regs[y as int])),
            Instruction::LdByte { x, byte } => Ok(s.with_reg(x, byte).advance(false)),
            Instruction::AddByte { x, byte } => Ok(
                s.with_reg(x, ((s.regs[x as int] + byte) % 256) as u8).advance(false),
            ),
            Instruction::LdReg { x, y } => Ok(s.with_reg(x, s.regs[y as int]).advance(false)),
            Instruction::Or { x, y } => Ok(
                s.with_reg(x, s.regs[x as int] | s.regs[y as int]).advance(false),
            ),
            Instruction::And { x, y } => Ok(
                s.with_reg(x, s.regs[x as int] & s.regs[y as int]).advance(false),
            ),
            Instruction::Xor { x, y } => Ok(
                s.with_reg(x, s.regs[x as int] ^ s.regs[y as int]).advance(false),
            ),
            Instruction::AddReg { x, y } => {
                let sum = s.regs[x as int] + s.regs[y as int];
                Ok(s.with_reg_flag(x, (sum % 256) as u8, sum > 255).advance(false))
            },
            Instruction::Sub { x, y } => {
                let vx = s.regs[x as int];
                let vy = s.regs[y as int];
                Ok(s.with_reg_flag(x, ((vx - vy) % 256) as u8, vx >= vy).advance(false))
            },
            Instruction::Subn { x, y } => {
                let vx = s.regs[x as int];
                let vy = s.regs[y as int];
                Ok(s.with_reg_flag(x, ((vy - vx) % 256) as u8, vy >= vx).advance(false))
            },
            Instruction::Shr { x, y } => {
                let vy = s.regs[y as int];
                Ok(s.with_reg_flag(x, vy / 2, vy % 2 == 1).advance(false))
            },
            Instruction::Shl { x, y } => {
                let vy = s.regs[y as int];
                Ok(s.with_reg_flag(x, ((vy * 2) % 256) as u8, vy >= 128).advance(false))
            },
            Instruction::LdIndex { addr } => Ok(State { index: addr, ..s.advance(false) }),
            Instruction::JpV0 { addr } => Ok(s.goto(s.regs[0] + addr)),
            Instruction::Rnd { x, byte } => Ok(s.with_reg(x, random & byte).advance(false)),
            Instruction::Drw { x, y, rows } => {
                Ok(s.draw(x, y, rows).advance(false))
            },
            Instruction::Skp { x } => Ok(s.advance(s.key_down(s.regs[x as int]))),
            Instruction::Sknp { x } => Ok(s.advance(!s.key_down(s.regs[x as int]))),
            Instruction::LdFromDelay { x } => Ok(s.with_reg(x, s.delay_timer).advance(false)),
            Instruction::LdKey { x } => Ok(State { waiting: Some(x), ..s }),
            Instruction::LdDelay { x } => Ok(
                State { delay_timer: s.regs[x as int], ..s.advance(false) },
            ),
            Instruction::LdSound { x } => Ok(
                State { sound_timer: s.regs[x as int], ..s.advance(false) },
            ),
            Instruction::AddIndex { x } => Ok(
                State { index: ((s.index + s.regs[x as int]) % 0x10000) as u16, ..s.advance(false) },
            ),
            Instruction::LdGlyph { x } => Ok(
                State { index: ((s.regs[x as int] % 16) * 5) as u16, ..s.advance(false) },
            ),
            Instruction::LdBcd { x } => {
                let v = s.regs[x as int];
                Ok(
                    State {
                        memory: s.memory.update(address(s.index, 0), v / 100).update(
                            address(s.index, 1),
                            (v / 10) % 10,
                        ).update(address(s.index, 2), v % 10),
                        ..s.advance(false)
                    },
                )
            },
            Instruction::StoreRegs { x } => Ok(
                State {
                    memory: Seq::new(
                        4096,
                        |a: int|
                            if (a - s.index) % 4096 <= x {
                                s.regs[(a - s.index) % 4096]
                            } else {
                                s.memory[a]
                            },
                    ),
                    index: ((s.index + x + 1) % 0x10000) as u16,
                    ..s.advance(false)
                },
            ),
            Instruction::LoadRegs { x } => Ok(
                State {
                    regs: Seq::new(
                        16,
                        |k: int|
                            if k <= x {
                                s.memory[address(s.index, k)]
                            } else {
                                s.regs[k]
                            },
                    ),
                    index: ((s.index + x + 1) % 0x10000) as u16,
                    ..s.advance(false)
                },
            ),
        }
    }

    /// One step of the machine with `random` as the random byte: the state
    /// it leaves and what it reports. A halted or waiting machine does
    /// nothing. Otherwise the word at the program counter is fetched,
    /// decoded and executed; a fault leaves the state as it is and is
    /// reported with the word and the program counter.
    pub open spec fn step(self, random: u8) -> (State, Result<Status, StepError>) {
        if self.halted || self.waiting.is_some() {
            (self, Ok(self.status()))
        } else {
            match self.fetch() {
                None => (
                    self,
                    Err(StepError { fault: Fault::FetchOutOfRange, opcode: 0, pc: self.pc }),
                ),
                Some(op) => match decode_spec(op) {
                    None => (
                        self,
                        Err(StepError { fault: Fault::UnknownOpcode, opcode: op, pc: self.pc }),
                    ),
                    Some(instr) => match self.execute(instr, random) {
                        Err(fault) => (self, Err(StepError { fault, opcode: op, pc: self.pc })),
                        Ok(next) => (next, Ok(next.status())),
                    },
                },
            }
        }
    }

    /// Whether the next step executes `CXNN`, the one instruction whose
    /// effect depends on the random byte.
    pub open spec fn draws_random(self) -> bool {
        &&& !self.halted
        &&& self.waiting.is_none()
        &&& self.fetch().is_some()
        &&& decode_spec(self.fetch().unwrap()) matches Some(Instruction::Rnd { .. })
    }

    /// Up to `randoms.len()` steps, the `i`-th of them with `randoms[i]` as
    /// its random byte: the machine stops early when a step leaves it
    /// halted, waiting or faulted, and the last step's report is the
    /// report of the run.
    pub open spec fn run(self, randoms: Seq<u8>) -> (State, Result<Status, StepError>)
        decreases randoms.len(),
    {
        if randoms.len() == 0 {
            (self, Ok(self.status()))
        } else {
            let (next, report) = self.step(randoms[0]);
            if report == Ok::<Status, StepError>(Status::Running) {
                next.run(randoms.drop_first())
            } else {
                (next, report)
            }
        }
    }

    /// This state after a key was latched: a waiting machine stores the
    /// key's number, its low four bits, in the register it waits for and
    /// moves on; any other machine is unchanged.
    pub open spec fn latch_key(self, key: u8) -> State {
        match self.waiting {
            Some(x) => State {
                waiting: None,
                ..self.with_reg(x, key % 16).advance(false)
            },
            None => self,
        }
    }

    /// This state after one tick of the 60 Hz clock: each timer that is not
    /// zero goes down by one.
    pub open spec fn tick(self) -> State {
        State {
            delay_timer: if self.delay_timer > 0 {
                (self.delay_timer - 1) as u8
            } else {
                0
            },
            sound_timer: if self.sound_timer > 0 {
                (self.sound_timer - 1) as u8
            } else {
                0
            },
            ..self
        }
    }
}

/// Two states whose fields agree, the sequences element by element, are
/// one state.
pub proof fn lemma_same_state(a: State, b: State)
    requires
        a.regs =~= b.regs,
        a.memory =~= b.memory,
        a.stack =~= b.stack,
        a.keys =~= b.keys,
        a.index == b.index,
        a.pc == b.pc,
        a.delay_timer == b.delay_timer,
        a.sound_timer == b.sound_timer,
        a.halted == b.halted,
        a.waiting == b.waiting,
    ensures
        a == b,
{
}

/// A run that reports a status reports that of the state it ends in.
pub proof fn lemma_run_reports_status(s: State, randoms: Seq<u8>)
    ensures
        s.run(randoms).1 matches Ok(status) ==> status == s.run(randoms).0.status(),
    decreases randoms.len(),
{
    if randoms.len() > 0 {
        let (next, report) = s.step(randoms[0]);
        if report == Ok::<Status, StepError>(Status::Running) {
            lemma_run_reports_status(next, randoms.drop_first());
        }
    }
}

/// A run over `a` followed by `b` is the run over `a` and then, if that
/// leaves the machine running, the run over `b` from where it ended.
pub proof fn lemma_run_split(s: State, a: Seq<u8>, b: Seq<u8>)
    ensures
        s.run(a + b) == if s.run(a).1 == Ok::<Status, StepError>(Status::Running) {
            s.run(a).0.run(b)
        } else {
            s.run(a)
        },
    decreases a.len(),
{
    if a.len() == 0 {
        assert(a + b =~= b);
    } else {
        let (next, report) = s.step(a[0]);
        assert((a + b)[0] == a[0]);
        assert((a + b).drop_first() =~= a.drop_first() + b);
        if report == Ok::<Status, StepError>(Status::Running) {
            lemma_run_split(next, a.drop_first(), b);
        }
    }
}

} // verus!
