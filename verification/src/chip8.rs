//! The whole machine: an execution core together with its memory store.

use vstd::prelude::*;

use crate::cpu::Cpu;
use crate::cpu::DisplayAction;
use crate::cpu::PROGRAM_START;
use crate::cpu::StepError;
use crate::cpu::init_cpu;
use crate::cpu::step_spec;
use crate::ram::MEM_SIZE;
use crate::ram::Ram;

verus! {

/// A machine instance: memory store plus execution core, created once and
/// mutated in place for the lifetime of the run.
pub struct Chip8 {
    pub ram: Ram,
    pub cpu: Cpu,
}

impl Chip8 {
    pub open spec fn wf(&self) -> bool {
        &&& self.ram.wf()
        &&& self.cpu@.wf()
    }

    /// A fresh machine: memory zero-filled, registers and index register
    /// zeroed, program counter at the program origin, stack empty.
    pub fn new() -> (r: Chip8)
        ensures
            r.wf(),
            r.cpu@ == init_cpu(),
            forall|a: int| 0 <= a < MEM_SIZE ==> r.ram@[a] == 0u8,
    {
        Chip8 { ram: Ram::new(), cpu: Cpu::new() }
    }

    /// Copy a program image into memory, byte by byte, starting at the
    /// program origin. The image must fit between the origin and the end of
    /// the address space. The core's state is untouched.
    pub fn load_rom(&mut self, data: &Vec<u8>)
        requires
            old(self).wf(),
            data@.len() <= MEM_SIZE - PROGRAM_START,
        ensures
            final(self).wf(),
            final(self).cpu == old(self).cpu,
            forall|k: int|
                0 <= k < data@.len() ==> final(self).ram@[PROGRAM_START + k] == data@[k],
            forall|a: int|
                0 <= a < MEM_SIZE && !(PROGRAM_START <= a < PROGRAM_START + data@.len())
                    ==> final(self).ram@[a] == old(self).ram@[a],
    {
        let mut i: usize = 0;
        while i < data.len()
            invariant
                self.wf(),
                self.cpu == old(self).cpu,
                i <= data@.len(),
                data@.len() <= MEM_SIZE - PROGRAM_START,
                forall|k: int| 0 <= k < i ==> self.ram@[PROGRAM_START + k] == data@[k],
                forall|a: int|
                    0 <= a < MEM_SIZE && !(PROGRAM_START <= a < PROGRAM_START + i)
                        ==> self.ram@[a] == old(self).ram@[a],
            decreases data@.len() - i,
        {
            self.ram.write_byte(PROGRAM_START + (i as u16), data[i]);
            i += 1;
        }
    }

    /// Execute the single instruction at the program counter; see
    /// `step_spec` for the full step contract.
    pub fn exec_instruction(&mut self) -> (r: Result<DisplayAction, StepError>)
        requires
            old(self).wf(),
            old(self).cpu@.pc + 4 <= u16::MAX,
        ensures
            final(self).wf(),
            step_spec(old(self).cpu@, old(self).ram@, final(self).cpu@, final(self).ram@, r),
    {
        self.cpu.exec_instruction(&mut self.ram)
    }
}

} // verus!
