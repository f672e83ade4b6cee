//! The execution core: instruction fetch, decode, and single-step execution
//! over the register file, program counter, index register, and call stack.

use vstd::prelude::*;

use crate::ram::Ram;
use rand::Rng;

verus! {

use vstd::wrapping::u16_specs;
use vstd::wrapping::u8_specs;

/// Address at which loaded programs begin.
pub const PROGRAM_START: u16 = 0x200;

/// The operand fields of a 16-bit instruction word, all pure bit extractions.
#[derive(Clone, Copy, PartialEq, Eq, Structural, Debug)]
pub struct Decoded {
    /// Top nibble (bits 15-12): selects the opcode family.
    pub class: u8,
    /// Bits 11-8: first register index operand.
    pub x: u8,
    /// Bits 7-4: second register index operand.
    pub y: u8,
    /// Bits 3-0: 4-bit immediate / sub-opcode selector.
    pub n: u8,
    /// Bits 7-0: 8-bit immediate.
    pub nn: u8,
    /// Bits 11-0: 12-bit address immediate.
    pub nnn: u16,
}

/// Decoding is a pure function of the instruction word alone.
pub open spec fn spec_decode(w: u16) -> Decoded {
    Decoded {
        class: ((w & 0xF000) >> 12) as u8,
        x: ((w & 0x0F00) >> 8) as u8,
        y: ((w & 0x00F0) >> 4) as u8,
        n: (w & 0x000F) as u8,
        nn: (w & 0x00FF) as u8,
        nnn: w & 0x0FFF,
    }
}

/// Extract the operand fields from an instruction word.
pub fn decode(word: u16) -> (d: Decoded)
    ensures
        d == spec_decode(word),
        d.class < 16,
        d.x < 16,
        d.y < 16,
        d.n < 16,
        d.nnn < 0x1000,
{
    proof {
        assert(((word & 0xF000) >> 12) < 16) by (bit_vector);
        assert(((word & 0x0F00) >> 8) < 16) by (bit_vector);
        assert(((word & 0x00F0) >> 4) < 16) by (bit_vector);
        assert((word & 0x000F) < 16) by (bit_vector);
        assert((word & 0x0FFF) < 0x1000) by (bit_vector);
    }
    Decoded {
        class: ((word & 0xF000) >> 12) as u8,
        x: ((word & 0x0F00) >> 8) as u8,
        y: ((word & 0x00F0) >> 4) as u8,
        n: (word & 0x000F) as u8,
        nn: (word & 0x00FF) as u8,
        nnn: word & 0x0FFF,
    }
}

/// Mathematical model of the execution core's state.
pub ghost struct CpuView {
    /// The sixteen general-purpose registers V0-VF.
    pub vx: Seq<u8>,
    /// The program counter.
    pub pc: u16,
    /// The 16-bit index register.
    pub i: u16,
    /// The call stack of return addresses, last-in-first-out.
    pub stack: Seq<u16>,
}

impl CpuView {
    /// The register file always holds exactly sixteen registers.
    pub open spec fn wf(self) -> bool {
        self.vx.len() == 16
    }
}

/// A fatal condition raised by a single step.
#[derive(Clone, Copy, PartialEq, Eq, Structural, Debug)]
pub enum StepError {
    /// Decode produced a class/selector combination with no defined behavior.
    UnknownOpcode { word: u16, pc: u16 },
    /// Both instruction bytes are zero: execution has run off the end of the
    /// loaded program into zero-filled memory.
    HaltSignal { pc: u16 },
}

/// The display request produced by a successful step; the core itself never
/// renders, it hands the request to whatever drives it.
#[derive(PartialEq, Eq, Debug)]
pub enum DisplayAction {
    /// The step had no display effect.
    Silent,
    /// Clear-display request.
    Clear,
    /// Draw request: paint `rows` (one byte of eight pixels each, read from
    /// memory at the index register) at screen position (`x`, `y`).
    DrawSprite { x: u8, y: u8, rows: Vec<u8> },
}

/// The instruction word at `pc`: the byte at `pc` is the high byte, the byte
/// at `pc + 1` the low byte.
pub open spec fn fetch(mem: Seq<u8>, pc: u16) -> u16 {
    ((mem[pc as int] as u16) << 8) | (mem[pc as int + 1] as u16)
}

/// Whether the instruction word has a defined behavior.
pub open spec fn recognized(w: u16) -> bool {
    let d = spec_decode(w);
    if d.class == 0x0 {
        d.nn == 0xE0 || d.nn == 0xEE
    } else if d.class == 0x8 {
        d.n <= 0x7 || d.n == 0xE
    } else {
        d.class != 0xE
    }
}

/// The register file after an arithmetic/logic instruction (class 0x8).
/// Flag-producing operations write the destination first and VF second,
/// except the shifts, which write VF first; the later write wins when the
/// destination is VF itself. The subtractions compute the borrow flag by
/// unsigned comparison of the operands: VF is 1 exactly when the minuend
/// is at least the subtrahend, so no borrow occurred.
pub open spec fn alu_after(vx: Seq<u8>, d: Decoded) -> Seq<u8> {
    let xi = d.x as int;
    let a = vx[d.x as int];
    let b = vx[d.y as int];
    if d.n == 0x0 {
        vx.update(xi, b)
    } else if d.n == 0x1 {
        vx.update(xi, a | b)
    } else if d.n == 0x2 {
        vx.update(xi, a & b)
    } else if d.n == 0x3 {
        vx.update(xi, a ^ b)
    } else if d.n == 0x4 {
        vx.update(xi, u8_specs::wrapping_add(a, b)).update(15, if a + b > 0xFF { 1u8 } else { 0u8 })
    } else if d.n == 0x5 {
        vx.update(xi, u8_specs::wrapping_sub(a, b)).update(15, if a >= b { 1u8 } else { 0u8 })
    } else if d.n == 0x6 {
        vx.update(15, a & 0x1).update(xi, a >> 1)
    } else if d.n == 0x7 {
        vx.update(xi, u8_specs::wrapping_sub(b, a)).update(15, if b >= a { 1u8 } else { 0u8 })
    } else {
        // 0xE
        vx.update(15, a & 0x80).update(xi, a << 1)
    }
}

/// The core's state after executing the recognized, non-random instruction
/// `w` from state `pre`. Callers only consult this function for recognized
/// words outside class 0xC.
pub open spec fn cpu_after(pre: CpuView, w: u16) -> CpuView {
    let d = spec_decode(w);
    let c = d.class;
    let pc2 = (pre.pc + 2) as u16;
    let pc4 = (pre.pc + 4) as u16;
    if c == 0x0 {
        if d.nn == 0xE0 {
            CpuView { pc: pc2, ..pre }
        } else {
            // 0xEE: return; popping an empty stack is a defined no-op
            if pre.stack.len() == 0 {
                pre
            } else {
                CpuView { pc: pre.stack.last(), stack: pre.stack.drop_last(), ..pre }
            }
        }
    } else if c == 0x1 {
        CpuView { pc: d.nnn, ..pre }
    } else if c == 0x2 {
        CpuView { pc: d.nnn, stack: pre.stack.push(pc2), ..pre }
    } else if c == 0x3 {
        CpuView { pc: if pre.vx[d.x as int] == d.nn { pc4 } else { pc2 }, ..pre }
    } else if c == 0x4 {
        CpuView { pc: if pre.vx[d.x as int] != d.nn { pc4 } else { pc2 }, ..pre }
    } else if c == 0x5 {
        CpuView { pc: if pre.vx[d.x as int] == pre.vx[d.y as int] { pc4 } else { pc2 }, ..pre }
    } else if c == 0x6 {
        CpuView { vx: pre.vx.update(d.x as int, d.nn), pc: pc2, ..pre }
    } else if c == 0x7 {
        CpuView {
            vx: pre.vx.update(d.x as int, u8_specs::wrapping_add(pre.vx[d.x as int], d.nn)),
            pc: pc2,
            ..pre
        }
    } else if c == 0x8 {
        CpuView { vx: alu_after(pre.vx, d), pc: pc2, ..pre }
    } else if c == 0x9 {
        CpuView { pc: if pre.vx[d.x as int] != pre.vx[d.y as int] { pc4 } else { pc2 }, ..pre }
    } else if c == 0xA {
        CpuView { i: d.nnn, pc: pc2, ..pre }
    } else if c == 0xB {
        CpuView { pc: (pre.vx[0] + d.nnn) as u16, ..pre }
    } else if c == 0xD {
        CpuView { pc: pc2, ..pre }
    } else if c == 0xF {
        CpuView { i: u16_specs::wrapping_add(pre.i, pre.vx[d.x as int] as u16), pc: pc2, ..pre }
    } else {
        pre
    }
}

/// The sprite rows a draw instruction reads: `count` bytes starting at
/// `base`, the address wrapping around the 16-bit space.
pub open spec fn spec_sprite_rows(mem: Seq<u8>, base: u16, count: u8) -> Seq<u8> {
    Seq::new(count as nat, |k: int| mem[u16_specs::wrapping_add(base, k as u16) as int])
}

/// How the core's state changes on a successful step: exact for every class
/// but 0xC, whose freshly drawn byte only obeys the mask `nn`.
pub open spec fn step_ok(pre: CpuView, post: CpuView, w: u16) -> bool {
    let d = spec_decode(w);
    if d.class == 0xC {
        &&& post.vx.len() == pre.vx.len()
        &&& post.pc == pre.pc + 2
        &&& post.i == pre.i
        &&& post.stack == pre.stack
        &&& (forall|j: int| 0 <= j < pre.vx.len() && j != d.x ==> post.vx[j] == pre.vx[j])
        &&& post.vx[d.x as int] & !d.nn == 0
    } else {
        post == cpu_after(pre, w)
    }
}

/// The display request owed for a successful step.
pub open spec fn display_of(a: DisplayAction, pre: CpuView, mem: Seq<u8>, w: u16) -> bool {
    let d = spec_decode(w);
    if d.class == 0x0 && d.nn == 0xE0 {
        a is Clear
    } else if d.class == 0xD {
        a matches DisplayAction::DrawSprite { x, y, rows } && x == pre.vx[d.x as int] && y
            == pre.vx[d.y as int] && rows@ == spec_sprite_rows(mem, pre.i, d.n)
    } else {
        a is Silent
    }
}

/// The full contract of a single step: memory is never written; a zero word
/// halts, an unrecognized word faults, both leaving the core untouched; a
/// recognized word transforms the core per `step_ok` and owes the display
/// request per `display_of`.
pub open spec fn step_spec(
    pre: CpuView,
    pre_mem: Seq<u8>,
    post: CpuView,
    post_mem: Seq<u8>,
    r: Result<DisplayAction, StepError>,
) -> bool {
    let w = fetch(pre_mem, pre.pc);
    &&& post_mem == pre_mem
    &&& (w == 0 ==> post == pre && r == Err::<DisplayAction, StepError>(
        StepError::HaltSignal { pc: pre.pc },
    ))
    &&& (w != 0 && !recognized(w) ==> post == pre && r == Err::<DisplayAction, StepError>(
        StepError::UnknownOpcode { word: w, pc: pre.pc },
    ))
    &&& (w != 0 && recognized(w) ==> step_ok(pre, post, w) && (r matches Ok(a)
        && display_of(a, pre, pre_mem, w)))
}

/// Relies on `rand::thread_rng` and `Rng::gen_range` over the half-open
/// range `0..255`: the draw is uniform over that range, so every outcome is
/// below 255. Nothing more can be promised of a random value.
#[verifier::external_body]
fn random_byte() -> (r: u8)
    ensures
        r < 255,
{
    let mut rng = rand::thread_rng();
    rng.gen_range(0..255)
}

/// One sprite row as text: the eight pixels from the most significant bit
/// down, `*` for a set bit and `_` for a clear one, then a line break.
pub open spec fn render_row(b: u8) -> Seq<char> {
    Seq::new(
        9,
        |k: int|
            if k == 8 {
                '\n'
            } else if (b >> (7 - k) as u8) & 1 == 1 {
                '*'
            } else {
                '_'
            },
    )
}

/// The text for a whole sprite: each row rendered in order.
pub open spec fn render_rows_spec(rows: Seq<u8>) -> Seq<char>
    decreases rows.len(),
{
    if rows.len() == 0 {
        Seq::empty()
    } else {
        render_row(rows[0]) + render_rows_spec(rows.skip(1))
    }
}

proof fn lemma_render_rows_push(s: Seq<u8>, b: u8)
    ensures
        render_rows_spec(s.push(b)) == render_rows_spec(s) + render_row(b),
    decreases s.len(),
{
    if s.len() == 0 {
        assert(s.push(b).skip(1) =~= Seq::<u8>::empty());
        assert(render_row(b) + render_rows_spec(Seq::<u8>::empty()) =~= render_row(b));
        assert(render_rows_spec(s) + render_row(b) =~= render_row(b));
    } else {
        assert(s.push(b).skip(1) =~= s.skip(1).push(b));
        lemma_render_rows_push(s.skip(1), b);
        assert(render_row(s[0]) + (render_rows_spec(s.skip(1)) + render_row(b)) =~= (render_row(
            s[0],
        ) + render_rows_spec(s.skip(1))) + render_row(b));
    }
}

/// Render sprite rows as text, one line of eight pixel characters per row.
pub fn render_rows(rows: &Vec<u8>) -> (out: Vec<char>)
    ensures
        out@ == render_rows_spec(rows@),
{
    let mut out: Vec<char> = Vec::new();
    let mut r: usize = 0;
    while r < rows.len()
        invariant
            r <= rows@.len(),
            out@ == render_rows_spec(rows@.take(r as int)),
        decreases rows@.len() - r,
    {
        let mut b = rows[r];
        let ghost b0 = b;
        let ghost base = out@;
        proof {
            assert(b0 << 0u8 == b0) by (bit_vector);
        }
        let mut j: usize = 0;
        while j < 8
            invariant
                j <= 8,
                b == b0 << j as u8,
                out@ == base + render_row(b0).take(j as int),
            decreases 8 - j,
        {
            let top = (b & 0b1000_0000) >> 7;
            out.push(if top == 1 {
                '*'
            } else {
                '_'
            });
            proof {
                let jj = j as u8;
                assert(((b0 << jj) & 0b1000_0000) >> 7 == (b0 >> (7 - jj) as u8) & 1)
                    by (bit_vector)
                    requires
                        jj < 8,
                ;
                assert(render_row(b0).take(j as int + 1) =~= render_row(b0).take(j as int).push(
                    render_row(b0)[j as int],
                ));
                assert(base + render_row(b0).take(j as int + 1) =~= (base + render_row(b0).take(
                    j as int,
                )).push(render_row(b0)[j as int]));
            }
            b = b << 1;
            j += 1;
            proof {
                let jj = (j - 1) as u8;
                assert((b0 << jj) << 1 == b0 << (jj + 1) as u8) by (bit_vector)
                    requires
                        jj < 8,
                ;
            }
        }
        out.push('\n');
        r += 1;
        proof {
            assert(render_row(b0).take(8).push('\n') =~= render_row(b0));
            assert((base + render_row(b0).take(8)).push('\n') =~= base + render_row(b0));
            lemma_render_rows_push(rows@.take(r - 1), rows@[r - 1]);
            assert(rows@.take(r as int) =~= rows@.take(r - 1).push(rows@[r - 1]));
        }
    }
    proof {
        assert(rows@.take(r as int) =~= rows@);
    }
    out
}

/// The execution core: register file, program counter, index register, and
/// call stack. Memory is handed in at each step.
pub struct Cpu {
    pub vx: Vec<u8>,
    pub pc: u16,
    pub i: u16,
    pub stack: Vec<u16>,
}

impl View for Cpu {
    type V = CpuView;

    open spec fn view(&self) -> CpuView {
        CpuView { vx: self.vx@, pc: self.pc, i: self.i, stack: self.stack@ }
    }
}

/// The state a freshly initialized core is in: registers and index register
/// zeroed, program counter at the program origin, stack empty.
pub open spec fn init_cpu() -> CpuView {
    CpuView {
        vx: Seq::new(16, |k: int| 0u8),
        pc: PROGRAM_START,
        i: 0,
        stack: Seq::empty(),
    }
}

impl Cpu {
    /// Initialize the core.
    pub fn new() -> (r: Cpu)
        ensures
            r@ == init_cpu(),
            r@.wf(),
    {
        let mut vx: Vec<u8> = Vec::new();
        let mut k: usize = 0;
        while k < 16
            invariant
                vx@.len() == k,
                k <= 16,
                forall|j: int| 0 <= j < k ==> vx@[j] == 0u8,
            decreases 16 - k,
        {
            vx.push(0u8);
            k += 1;
        }
        proof {
            assert(vx@ =~= Seq::new(16, |j: int| 0u8));
        }
        Cpu { vx, pc: PROGRAM_START, i: 0, stack: Vec::new() }
    }

    /// Fetch, decode and execute the instruction at the program counter.
    ///
    /// The upper bound on the program counter is a machine limit: a skip
    /// advances it by four, which must still fit in sixteen bits.
    pub fn exec_instruction(&mut self, ram: &mut Ram) -> (r: Result<DisplayAction, StepError>)
        requires
            old(self)@.wf(),
            old(ram).wf(),
            old(self)@.pc + 4 <= u16::MAX,
        ensures
            final(self)@.wf(),
            final(ram).wf(),
            step_spec(old(self)@, old(ram)@, final(self)@, final(ram)@, r),
    {
        let hi = ram.read_byte(self.pc) as u16;
        let lo = ram.read_byte(self.pc + 1) as u16;
        let opcode: u16 = (hi << 8) | lo;
        proof {
            assert((hi << 8) | lo == 0 <==> (hi == 0 && lo == 0)) by (bit_vector)
                requires
                    hi < 256,
                    lo < 256,
            ;
        }

        if hi == 0 && lo == 0 {
            return Err(StepError::HaltSignal { pc: self.pc });
        }

        let d = decode(opcode);
        match d.class {
            0x0 => {
                if d.nn == 0xE0 {
                    // clear display: delegated to the display collaborator
                    self.pc += 2;
                    Ok(DisplayAction::Clear)
                } else if d.nn == 0xEE {
                    // return from subroutine; empty stack is a no-op
                    match self.stack.pop() {
                        Some(addr) => {
                            self.pc = addr;
                        },
                        None => {},
                    }
                    Ok(DisplayAction::Silent)
                } else {
                    Err(StepError::UnknownOpcode { word: opcode, pc: self.pc })
                }
            },
            0x1 => {
                // jump to nnn
                self.pc = d.nnn;
                Ok(DisplayAction::Silent)
            },
            0x2 => {
                // call subroutine at nnn
                let ret = self.pc + 2;
                self.stack.push(ret);
                self.pc = d.nnn;
                Ok(DisplayAction::Silent)
            },
            0x3 => {
                // skip next instruction if Vx == nn
                let a = self.read_reg_vx(d.x);
                if a == d.nn {
                    self.pc += 4;
                } else {
                    self.pc += 2;
                }
                Ok(DisplayAction::Silent)
            },
            0x4 => {
                // skip next instruction if Vx != nn
                let a = self.read_reg_vx(d.x);
                if a != d.nn {
                    self.pc += 4;
                } else {
                    self.pc += 2;
                }
                Ok(DisplayAction::Silent)
            },
            0x5 => {
                // skip next instruction if Vx == Vy
                let a = self.read_reg_vx(d.x);
                let b = self.read_reg_vx(d.y);
                if a == b {
                    self.pc += 4;
                } else {
                    self.pc += 2;
                }
                Ok(DisplayAction::Silent)
            },
            0x6 => {
                // Vx := nn
                self.write_reg_vx(d.x, d.nn);
                self.pc += 2;
                Ok(DisplayAction::Silent)
            },
            0x7 => {
                // Vx := Vx + nn, 8-bit wraparound, no flag effect
                let a = self.read_reg_vx(d.x);
                self.write_reg_vx(d.x, a.wrapping_add(d.nn));
                self.pc += 2;
                Ok(DisplayAction::Silent)
            },
            0x8 => {
                let a = self.read_reg_vx(d.x);
                let b = self.read_reg_vx(d.y);
                match d.n {
                    0x0 => {
                        // Vx := Vy
                        self.write_reg_vx(d.x, b);
                    },
                    0x1 => {
                        // Vx := Vx | Vy
                        self.write_reg_vx(d.x, a | b);
                    },
                    0x2 => {
                        // Vx := Vx & Vy
                        self.write_reg_vx(d.x, a & b);
                    },
                    0x3 => {
                        // Vx := Vx ^ Vy
                        self.write_reg_vx(d.x, a ^ b);
                    },
                    0x4 => {
                        // Vx := Vx + Vy; VF := carry out of the widened sum
                        let sum = a as u16 + b as u16;
                        self.write_reg_vx(d.x, a.wrapping_add(b));
                        self.write_reg_vx(0xF, if sum > 0xFF { 1 } else { 0 });
                    },
                    0x5 => {
                        // Vx := Vx - Vy; VF := 1 unless the subtraction borrows
                        self.write_reg_vx(d.x, a.wrapping_sub(b));
                        self.write_reg_vx(0xF, if a >= b { 1 } else { 0 });
                    },
                    0x6 => {
                        // VF := pre-shift low bit; Vx := Vx >> 1
                        self.write_reg_vx(0xF, a & 0x1);
                        self.write_reg_vx(d.x, a >> 1);
                    },
                    0x7 => {
                        // Vx := Vy - Vx; VF := 1 unless the subtraction borrows
                        self.write_reg_vx(d.x, b.wrapping_sub(a));
                        self.write_reg_vx(0xF, if b >= a { 1 } else { 0 });
                    },
                    0xE => {
                        // VF := pre-shift high bit, unnormalized; Vx := Vx << 1
                        self.write_reg_vx(0xF, a & 0x80);
                        self.write_reg_vx(d.x, a << 1);
                    },
                    _ => {
                        return Err(StepError::UnknownOpcode { word: opcode, pc: self.pc });
                    },
                }
                self.pc += 2;
                Ok(DisplayAction::Silent)
            },
            0x9 => {
                // skip next instruction if Vx != Vy
                let a = self.read_reg_vx(d.x);
                let b = self.read_reg_vx(d.y);
                if a != b {
                    self.pc += 4;
                } else {
                    self.pc += 2;
                }
                Ok(DisplayAction::Silent)
            },
            0xA => {
                // I := nnn
                self.i = d.nnn;
                self.pc += 2;
                Ok(DisplayAction::Silent)
            },
            0xB => {
                // PC := V0 + nnn
                let v0 = self.read_reg_vx(0);
                self.pc = v0 as u16 + d.nnn;
                Ok(DisplayAction::Silent)
            },
            0xC => {
                // Vx := random byte & nn
                let b = random_byte();
                self.write_reg_vx(d.x, b & d.nn);
                self.pc += 2;
                proof {
                    let m = d.nn;
                    assert((b & m) & !m == 0) by (bit_vector);
                }
                Ok(DisplayAction::Silent)
            },
            0xD => {
                // draw request: rows from memory at I, position (Vx, Vy)
                let sx = self.read_reg_vx(d.x);
                let sy = self.read_reg_vx(d.y);
                let rows = self.read_sprite(ram, d.n);
                self.pc += 2;
                Ok(DisplayAction::DrawSprite { x: sx, y: sy, rows })
            },
            0xF => {
                // I := I + Vx, 16-bit, no overflow flag
                let a = self.read_reg_vx(d.x);
                self.i = self.i.wrapping_add(a as u16);
                self.pc += 2;
                Ok(DisplayAction::Silent)
            },
            _ => Err(StepError::UnknownOpcode { word: opcode, pc: self.pc }),
        }
    }

    /// Read the `count` sprite rows starting at the index register.
    fn read_sprite(&self, ram: &Ram, count: u8) -> (rows: Vec<u8>)
        requires
            ram.wf(),
        ensures
            rows@ == spec_sprite_rows(ram@, self.i, count),
    {
        let mut rows: Vec<u8> = Vec::new();
        let mut a: u8 = 0;
        while a < count
            invariant
                a <= count,
                ram.wf(),
                rows@ == spec_sprite_rows(ram@, self.i, a),
            decreases count - a,
        {
            rows.push(ram.read_byte(self.i.wrapping_add(a as u16)));
            a += 1;
            proof {
                assert(rows@ =~= spec_sprite_rows(ram@, self.i, a));
            }
        }
        rows
    }

    /// Textual rendering of the sprite a draw instruction would read: one
    /// line per row, eight characters each, `*` for a set pixel and `_` for
    /// a clear one. The caller prints the result; the core itself performs
    /// no output. The screen position operands do not change the dump.
    #[allow(unused_variables)]
    pub fn debug_draw_sprite(&self, ram: &Ram, x: u8, y: u8, height: u8) -> (out: Vec<char>)
        requires
            ram.wf(),
        ensures
            out@ == render_rows_spec(spec_sprite_rows(ram@, self.i, height)),
    {
        let rows = self.read_sprite(ram, height);
        render_rows(&rows)
    }

    /// Write register `index`.
    pub fn write_reg_vx(&mut self, index: u8, value: u8)
        requires
            old(self)@.wf(),
            index < 16,
        ensures
            final(self)@.wf(),
            final(self)@ == (CpuView {
                vx: old(self)@.vx.update(index as int, value),
                ..old(self)@
            }),
    {
        self.vx.set(index as usize, value);
    }

    /// Read register `index`.
    pub fn read_reg_vx(&mut self, index: u8) -> (value: u8)
        requires
            old(self)@.wf(),
            index < 16,
        ensures
            final(self)@ == old(self)@,
            value == old(self)@.vx[index as int],
    {
        self.vx[index as usize]
    }
}

proof fn lemma_decode_fields(w: u16)
    ensures
        spec_decode(w).class < 16,
        spec_decode(w).x < 16,
        spec_decode(w).y < 16,
        spec_decode(w).n < 16,
        spec_decode(w).nnn < 0x1000,
{
    assert(((w & 0xF000) >> 12) < 16) by (bit_vector);
    assert(((w & 0x0F00) >> 8) < 16) by (bit_vector);
    assert(((w & 0x00F0) >> 4) < 16) by (bit_vector);
    assert((w & 0x000F) < 16) by (bit_vector);
    assert((w & 0x0FFF) < 0x1000) by (bit_vector);
}

/// Law: for the add instructions (class 0x7 immediate add and class 0x8
/// n=0x4 register add), the destination register ends holding the 8-bit
/// truncation of the true sum, and the register add sets VF to 1 exactly
/// when the true widened sum exceeds 255, else to 0. For the register add
/// the truncation clause needs a destination other than VF: the flag write
/// lands after the arithmetic write and wins on VF itself.
pub proof fn lemma_add_truncates(pre: CpuView, w: u16)
    requires
        pre.wf(),
        spec_decode(w).class == 0x7 || (spec_decode(w).class == 0x8 && spec_decode(w).n == 0x4),
    ensures
        ({
            let d = spec_decode(w);
            let post = cpu_after(pre, w);
            &&& (d.class == 0x7 ==> post.vx[d.x as int] == (pre.vx[d.x as int] + d.nn) % 256)
            &&& (d.class == 0x8 && d.x != 0xF ==> post.vx[d.x as int] == (pre.vx[d.x as int]
                + pre.vx[d.y as int]) % 256)
            &&& (d.class == 0x8 ==> post.vx[15] == (if pre.vx[d.x as int] + pre.vx[d.y as int]
                > 255 {
                1u8
            } else {
                0u8
            }))
        }),
{
    lemma_decode_fields(w);
}

/// Law: for the subtraction instructions (class 0x8, n=0x5 computing
/// Vx - Vy and n=0x7 computing Vy - Vx), VF ends 0 exactly when the
/// subtraction borrows (minuend below subtrahend) and 1 otherwise, for
/// every pair of register values.
pub proof fn lemma_sub_borrow_flag(pre: CpuView, w: u16)
    requires
        pre.wf(),
        spec_decode(w).class == 0x8,
        spec_decode(w).n == 0x5 || spec_decode(w).n == 0x7,
    ensures
        ({
            let d = spec_decode(w);
            let post = cpu_after(pre, w);
            let minuend = if d.n == 0x5 {
                pre.vx[d.x as int]
            } else {
                pre.vx[d.y as int]
            };
            let subtrahend = if d.n == 0x5 {
                pre.vx[d.y as int]
            } else {
                pre.vx[d.x as int]
            };
            &&& (post.vx[15] == 0 <==> minuend < subtrahend)
            &&& (post.vx[15] == 1 <==> minuend >= subtrahend)
        }),
{
    lemma_decode_fields(w);
}

/// Law: for the right shift (class 0x8, n=0x6), the destination register
/// ends holding the pre-shift value shifted right by one, that is, halved,
/// and VF the pre-shift value's least-significant bit. The VF clause needs
/// a destination other than VF: the shift writes VF first, so a VF
/// destination keeps the shifted value instead.
pub proof fn lemma_shr(pre: CpuView, w: u16)
    requires
        pre.wf(),
        spec_decode(w).class == 0x8,
        spec_decode(w).n == 0x6,
    ensures
        ({
            let d = spec_decode(w);
            let post = cpu_after(pre, w);
            let a = pre.vx[d.x as int];
            &&& (d.x != 0xF ==> post.vx[15] == a & 0x1)
            &&& post.vx[d.x as int] == a >> 1
            &&& post.vx[d.x as int] == a / 2
        }),
{
    lemma_decode_fields(w);
    let a = pre.vx[spec_decode(w).x as int];
    assert(a >> 1 == a / 2) by (bit_vector);
}

/// Law: the conditional skips (classes 0x3, 0x4, 0x5, 0x9) advance the
/// program counter by exactly 4 when their comparison holds and by exactly
/// 2 otherwise, and leave registers, index register and stack untouched.
pub proof fn lemma_skip_classes(pre: CpuView, w: u16)
    requires
        pre.wf(),
        pre.pc + 4 <= u16::MAX,
        spec_decode(w).class == 0x3 || spec_decode(w).class == 0x4 || spec_decode(w).class == 0x5
            || spec_decode(w).class == 0x9,
    ensures
        ({
            let d = spec_decode(w);
            let post = cpu_after(pre, w);
            let cmp_holds = if d.class == 0x3 {
                pre.vx[d.x as int] == d.nn
            } else if d.class == 0x4 {
                pre.vx[d.x as int] != d.nn
            } else if d.class == 0x5 {
                pre.vx[d.x as int] == pre.vx[d.y as int]
            } else {
                pre.vx[d.x as int] != pre.vx[d.y as int]
            };
            &&& post.pc == (if cmp_holds {
                pre.pc + 4
            } else {
                pre.pc + 2
            })
            &&& post.vx == pre.vx
            &&& post.i == pre.i
            &&& post.stack == pre.stack
        }),
{
}

/// Law: call/return round trip. A class-0x2 call from program counter P
/// pushes P + 2, the address of the instruction after the call, and jumps
/// to its target; a later 0x00EE return from any state whose stack is still
/// the one the call left behind pops that address: the program counter
/// lands on P + 2 and the stack is as before the call.
pub proof fn lemma_call_return_round_trip(pre: CpuView, mid: CpuView, w: u16)
    requires
        pre.wf(),
        pre.pc + 2 <= u16::MAX,
        spec_decode(w).class == 0x2,
        mid.stack == cpu_after(pre, w).stack,
    ensures
        cpu_after(pre, w).pc == spec_decode(w).nnn,
        cpu_after(pre, w).stack == pre.stack.push((pre.pc + 2) as u16),
        cpu_after(mid, 0x00EE).pc == pre.pc + 2,
        cpu_after(mid, 0x00EE).stack == pre.stack,
{
    assert((0x00EEu16 & 0xF000) >> 12 == 0x0) by (bit_vector);
    assert((0x00EEu16 & 0x00FF) == 0xEE) by (bit_vector);
    let pushed = pre.stack.push((pre.pc + 2) as u16);
    assert(pushed.len() > 0);
    assert(pushed.last() == (pre.pc + 2) as u16);
    assert(pushed.drop_last() =~= pre.stack);
}

/// Law: decoding is deterministic; equal instruction words always decode
/// to the same operand fields.
pub proof fn lemma_decode_deterministic(w1: u16, w2: u16)
    requires
        w1 == w2,
    ensures
        spec_decode(w1) == spec_decode(w2),
{
}

} // verus!
