//! The debug bridge: the state that the emulation thread and the debug
//! thread share, and every step either of them takes on it. The threads
//! themselves, and their waiting on each other, are the caller's; here is
//! what each step decides and changes.
//!
//! The emulation thread lends its CPU state with a break and gets it back
//! with the continue; in between it waits and the debug thread has the CPU
//! state to itself.

use std::collections::HashSet;
use vstd::prelude::*;
use crate::registers::{is_bank_of, is_written, read_bank, write_bank, written_pc, CpuState, Registers};
use crate::text::same_text;

verus! {

broadcast use vstd::std_specs::hash::group_hash_axioms;

/// The options of the debug plugin.
#[derive(Debug, Clone, PartialEq, Eq)]
pub struct Args {
    /// Name of the process to attach to when it starts
    pub file: String,
    /// If set, attach at once
    pub on_start: bool,
}

impl Default for Args {
    fn default() -> (r: Self)
        ensures
            r.file@ == "invalid"@,
            !r.on_start,
    {
        Args { file: String::from_str("invalid"), on_start: false }
    }
}

/// What the emulation thread tells the debug thread.
#[derive(Debug, Clone, Copy, PartialEq, Eq)]
pub enum BreakStatus {
    /// The guest stopped at an instruction.
    Break,
    /// The guest is gone.
    Exit,
}

/// How the debug client wants the guest resumed.
#[derive(Debug, Clone, Copy, PartialEq, Eq)]
pub enum ResumeAction {
    Continue,
    Step,
    ContinueWithSignal(u8),
    StepWithSignal(u8),
}

/// Why the guest stopped.
#[derive(Debug, Clone, Copy, PartialEq, Eq)]
pub enum StopReason {
    DoneStep,
    SwBreak,
    Exited(u8),
}

/// Why an operation of the debug client was not carried out.
#[derive(Debug, Clone, Copy, PartialEq, Eq)]
pub enum TargetError {
    /// The operation failed; the client may go on.
    NonFatal,
    /// The operation is not offered.
    Unsupported,
}

/// The two signals and what travels with them.
struct Rendezvous {
    cpu: Option<CpuState>,
    pc: u64,
    brk: Option<BreakStatus>,
    cont: bool,
    waiting: bool,
}

impl Rendezvous {
    #[verifier::type_invariant]
    spec fn inv(self) -> bool {
        self.cpu is Some ==> self.waiting
    }
}

/// The state shared by the two threads.
pub struct TargetState {
    pid: Option<i32>,
    single_stepping: bool,
    breakpoints: HashSet<u64>,
    rendezvous: Rendezvous,
}

/// The mathematical value of a `TargetState`.
pub ghost struct TargetView {
    /// The process being debugged, if any.
    pub pid: Option<i32>,
    /// Whether the guest is to stop at the next instruction.
    pub single_stepping: bool,
    pub breakpoints: Set<u64>,
    /// The CPU state that the emulation thread has lent, if any.
    pub cpu: Option<CpuState>,
    /// The program counter published with the last break.
    pub pc: u64,
    /// The break signal, while nobody has taken it.
    pub brk: Option<BreakStatus>,
    /// The continue signal, while nobody has taken it.
    pub cont: bool,
    /// Whether the emulation thread waits for the continue signal.
    pub waiting: bool,
}

impl TargetView {
    /// The state before anything happened.
    pub open spec fn initial() -> TargetView {
        TargetView {
            pid: None,
            single_stepping: false,
            breakpoints: Set::empty(),
            cpu: None,
            pc: 0,
            brk: None,
            cont: false,
            waiting: false,
        }
    }

    /// What holds of every state: while a CPU state is lent, the emulation
    /// thread waits.
    pub open spec fn wf(self) -> bool {
        self.cpu is Some ==> self.waiting
    }

    /// Whether the guest is to stop at `pc`.
    pub open spec fn should_break(self, pc: u64) -> bool {
        self.single_stepping || self.breakpoints.contains(pc)
    }

    /// Whether the debug thread may touch the CPU state: one is lent and the
    /// continue signal has not been given.
    pub open spec fn cpu_accessible(self) -> bool {
        self.cpu is Some && !self.cont
    }

    /// The state after the emulation thread came to the instruction at `pc`
    /// with the CPU state `cpu`: where the guest is to stop there, the single
    /// step is over, the CPU state and `pc` are published, the break is
    /// signalled and the emulation thread waits.
    pub open spec fn entered_break(self, cpu: CpuState, pc: u64) -> TargetView {
        if self.should_break(pc) {
            TargetView {
                single_stepping: false,
                cpu: Some(cpu),
                pc,
                brk: Some(BreakStatus::Break),
                waiting: true,
                ..self
            }
        } else {
            self
        }
    }

    /// Whether the emulation thread can stop waiting.
    pub open spec fn can_leave_break(self) -> bool {
        self.waiting && self.cont
    }

    /// The state after the emulation thread took the continue signal and
    /// its CPU state back.
    pub open spec fn left_break(self) -> TargetView {
        if self.can_leave_break() {
            TargetView { cpu: None, cont: false, waiting: false, ..self }
        } else {
            self
        }
    }

    /// Whether a process that starts under the name `name` is attached to,
    /// where `file` is the name to look for.
    pub open spec fn attaches(self, name: Seq<char>, file: Seq<char>) -> bool {
        self.pid is None && name == file
    }

    /// The state after the process `pid` started under the name `name`.
    pub open spec fn process_started(self, name: Seq<char>, file: Seq<char>, pid: i32) -> TargetView {
        if self.attaches(name, file) {
            TargetView { pid: Some(pid), single_stepping: true, ..self }
        } else {
            self
        }
    }

    /// The state after the process `pid` ended.
    pub open spec fn process_ended(self, pid: i32) -> TargetView {
        if self.pid == Some(pid) {
            TargetView { pid: None, brk: Some(BreakStatus::Exit), ..self }
        } else {
            self
        }
    }

    /// The state after the debug client asked to resume with `action`.
    pub open spec fn resumed(self, action: ResumeAction) -> TargetView {
        match action {
            ResumeAction::Step => TargetView { single_stepping: true, cont: true, ..self },
            ResumeAction::Continue => TargetView { cont: true, ..self },
            _ => self,
        }
    }

    /// The state after the debug client wrote the bank `regs`: where the
    /// CPU state is accessible, it holds the bank, and the bank's program
    /// counter is published.
    pub open spec fn is_written_by(self, before: TargetView, regs: Registers) -> bool {
        if before.cpu_accessible() {
            &&& self.cpu is Some
            &&& is_written(self.cpu->0, before.cpu->0, regs)
            &&& self.pc == match written_pc(before.cpu->0, regs) {
                Some(pc) => pc,
                None => before.pc,
            }
            &&& self == TargetView { cpu: self.cpu, pc: self.pc, ..before }
        } else {
            self == before
        }
    }
}

/// Why the guest stopped, given how it was resumed and what the emulation
/// thread signalled: a break ends a step as `DoneStep` and anything else
/// as `SwBreak`; an exit is `Exited(0)`.
pub open spec fn stop_reason_of(action: ResumeAction, status: BreakStatus) -> StopReason {
    match status {
        BreakStatus::Exit => StopReason::Exited(0),
        BreakStatus::Break => match action {
            ResumeAction::Step => StopReason::DoneStep,
            ResumeAction::StepWithSignal(_) => StopReason::DoneStep,
            _ => StopReason::SwBreak,
        },
    }
}

impl View for TargetState {
    type V = TargetView;

    closed spec fn view(&self) -> TargetView {
        TargetView {
            pid: self.pid,
            single_stepping: self.single_stepping,
            breakpoints: self.breakpoints@,
            cpu: self.rendezvous.cpu,
            pc: self.rendezvous.pc,
            brk: self.rendezvous.brk,
            cont: self.rendezvous.cont,
            waiting: self.rendezvous.waiting,
        }
    }
}

impl TargetState {
    /// The state before anything happened.
    pub fn new() -> (r: TargetState)
        ensures
            r@ == TargetView::initial(),
    {
        TargetState {
            pid: None,
            single_stepping: false,
            breakpoints: HashSet::new(),
            rendezvous: Rendezvous { cpu: None, pc: 0, brk: None, cont: false, waiting: false },
        }
    }

    pub fn start_single_stepping(&mut self)
        ensures
            final(self)@ == (TargetView { single_stepping: true, ..old(self)@ }),
    {
        self.single_stepping = true;
    }

    pub fn stop_single_stepping(&mut self)
        ensures
            final(self)@ == (TargetView { single_stepping: false, ..old(self)@ }),
    {
        self.single_stepping = false;
    }

    pub fn single_stepping(&self) -> (r: bool)
        ensures
            r == self@.single_stepping,
    {
        self.single_stepping
    }

    pub fn get_pid(&self) -> (r: Option<i32>)
        ensures
            r == self@.pid,
    {
        self.pid
    }

    pub fn is_pid_set(&self) -> (r: bool)
        ensures
            r == (self@.pid is Some),
    {
        self.pid.is_some()
    }

    pub fn set_pid(&mut self, pid: i32)
        ensures
            final(self)@ == (TargetView { pid: Some(pid), ..old(self)@ }),
    {
        self.pid = Some(pid);
    }

    pub fn unset_pid(&mut self)
        ensures
            final(self)@ == (TargetView { pid: None, ..old(self)@ }),
    {
        self.pid = None;
    }

    pub fn get_pc(&self) -> (r: u64)
        ensures
            r == self@.pc,
    {
        self.rendezvous.pc
    }

    pub fn set_pc(&mut self, pc: u64)
        ensures
            final(self)@ == (TargetView { pc, ..old(self)@ }),
    {
        proof {
            use_type_invariant(&self.rendezvous);
        }
        self.rendezvous.pc = pc;
    }

    pub fn breakpoints_contain(&self, pc: u64) -> (r: bool)
        ensures
            r == self@.breakpoints.contains(pc),
    {
        self.breakpoints.contains(&pc)
    }

    /// Adds a breakpoint; says whether the set changed.
    pub fn add_breakpoint(&mut self, pc: u64) -> (r: bool)
        ensures
            final(self)@ == (TargetView {
                breakpoints: old(self)@.breakpoints.insert(pc),
                ..old(self)@
            }),
            r == !old(self)@.breakpoints.contains(pc),
    {
        self.breakpoints.insert(pc)
    }

    /// Removes a breakpoint; says whether the set changed.
    pub fn remove_breakpoint(&mut self, pc: u64) -> (r: bool)
        ensures
            final(self)@ == (TargetView {
                breakpoints: old(self)@.breakpoints.remove(pc),
                ..old(self)@
            }),
            r == old(self)@.breakpoints.contains(pc),
    {
        self.breakpoints.remove(&pc)
    }

    /// Whether the emulation thread waits for the continue signal. While a
    /// CPU state is lent, it does.
    pub fn emulation_waits(&self) -> (r: bool)
        ensures
            r == self@.waiting,
            self@.wf(),
            self@.cpu_accessible() ==> r,
    {
        proof {
            use_type_invariant(&self.rendezvous);
        }
        self.rendezvous.waiting
    }

    /// Whether the debug thread may touch the CPU state. While it may, the
    /// emulation thread waits.
    pub fn cpu_accessible(&self) -> (r: bool)
        ensures
            r == self@.cpu_accessible(),
            r ==> self@.waiting,
    {
        proof {
            use_type_invariant(&self.rendezvous);
        }
        self.rendezvous.cpu.is_some() && !self.rendezvous.cont
    }

    /// Whether the instruction at `pc` is worth instrumenting: only if the
    /// guest might stop there.
    pub fn translate_instr(&self, pc: u64) -> (r: bool)
        ensures
            r == self@.should_break(pc),
    {
        self.single_stepping || self.breakpoints.contains(&pc)
    }

    /// The emulation thread is about to run the instruction at `pc`. Where
    /// the result is true the guest stops here: the caller wakes the debug
    /// thread and waits until `leave_break` succeeds.
    pub fn every_instruction(&mut self, cpu: CpuState, pc: u64) -> (r: bool)
        ensures
            final(self)@ == old(self)@.entered_break(cpu, pc),
            r == old(self)@.should_break(pc),
    {
        proof {
            use_type_invariant(&self.rendezvous);
        }
        if self.single_stepping || self.breakpoints.contains(&pc) {
            self.single_stepping = false;
            self.rendezvous.waiting = true;
            self.rendezvous.cpu = Some(cpu);
            self.rendezvous.pc = pc;
            self.rendezvous.brk = Some(BreakStatus::Break);
            true
        } else {
            false
        }
    }

    /// The emulation thread asks to go on. Where the continue signal was
    /// given, takes it and hands back the CPU state as the debug thread
    /// left it, with the program counter to go on from; else the guest
    /// stays stopped.
    pub fn leave_break(&mut self) -> (r: Option<(Option<CpuState>, u64)>)
        ensures
            final(self)@ == old(self)@.left_break(),
            r is Some <==> old(self)@.can_leave_break(),
            r matches Some((cpu, pc)) ==> cpu == old(self)@.cpu && pc == old(self)@.pc,
    {
        proof {
            use_type_invariant(&self.rendezvous);
        }
        if self.rendezvous.waiting && self.rendezvous.cont {
            let cpu = self.rendezvous.cpu;
            self.rendezvous.cpu = None;
            self.rendezvous.cont = false;
            self.rendezvous.waiting = false;
            Some((cpu, self.rendezvous.pc))
        } else {
            None
        }
    }

    /// Signals that the guest is gone.
    pub fn on_shutdown(&mut self)
        ensures
            final(self)@ == (TargetView { brk: Some(BreakStatus::Exit), ..old(self)@ }),
    {
        proof {
            use_type_invariant(&self.rendezvous);
        }
        self.rendezvous.brk = Some(BreakStatus::Exit);
    }

    /// The plugin starts. Where it is to attach at once, the guest stops at
    /// its first instruction; the result says whether the debug thread is
    /// to be started.
    pub fn init(&mut self, on_start: bool) -> (r: bool)
        ensures
            r == on_start,
            final(self)@ == if on_start {
                TargetView { single_stepping: true, ..old(self)@ }
            } else {
                old(self)@
            },
    {
        if on_start {
            self.single_stepping = true;
        }
        on_start
    }

    /// A process starts. If no process is being debugged and this one has
    /// the name `file`, it is attached to and stops at its next instruction;
    /// the result says whether the debug thread is to be started.
    pub fn on_process_start(&mut self, name: &str, file: &str, pid: i32) -> (r: bool)
        ensures
            r == old(self)@.attaches(name@, file@),
            final(self)@ == old(self)@.process_started(name@, file@, pid),
    {
        if self.pid.is_none() && same_text(name, file) {
            self.pid = Some(pid);
            self.single_stepping = true;
            true
        } else {
            false
        }
    }

    /// A process ends. If it is the one being debugged, it is let go and the
    /// exit is signalled; the result says whether it was.
    pub fn on_process_end(&mut self, pid: i32) -> (r: bool)
        ensures
            r == (old(self)@.pid == Some(pid)),
            final(self)@ == old(self)@.process_ended(pid),
    {
        proof {
            use_type_invariant(&self.rendezvous);
        }
        let attached = match self.pid {
            Some(p) => p == pid,
            None => false,
        };
        if attached {
            self.pid = None;
            self.rendezvous.brk = Some(BreakStatus::Exit);
        }
        attached
    }

    /// Takes the break signal, if one was given.
    pub fn take_break(&mut self) -> (r: Option<BreakStatus>)
        ensures
            r == old(self)@.brk,
            final(self)@ == (TargetView { brk: None, ..old(self)@ }),
    {
        proof {
            use_type_invariant(&self.rendezvous);
        }
        let taken = self.rendezvous.brk;
        self.rendezvous.brk = None;
        taken
    }
}

/// The debug client's side of the bridge.
#[derive(Debug, Clone, Copy, PartialEq, Eq)]
pub struct PandaTarget;

impl PandaTarget {
    /// Resumes the guest: a step first arms the single step; then the
    /// continue signal is given. The caller then waits for the break signal
    /// and reports `stop_reason` of it. Resuming with a signal is not
    /// offered, and changes nothing.
    pub fn resume(&mut self, state: &mut TargetState, action: ResumeAction) -> (r: Result<
        (),
        TargetError,
    >)
        ensures
            final(state)@ == old(state)@.resumed(action),
            r == match action {
                ResumeAction::Step => Ok::<(), TargetError>(()),
                ResumeAction::Continue => Ok::<(), TargetError>(()),
                _ => Err::<(), TargetError>(TargetError::Unsupported),
            },
    {
        proof {
            use_type_invariant(&state.rendezvous);
        }
        match action {
            ResumeAction::Step => {
                state.single_stepping = true;
                state.rendezvous.cont = true;
                Ok(())
            },
            ResumeAction::Continue => {
                state.rendezvous.cont = true;
                Ok(())
            },
            _ => Err(TargetError::Unsupported),
        }
    }

    /// Why the guest stopped, once the break signal `status` came in answer
    /// to `action`.
    pub fn stop_reason(&self, action: ResumeAction, status: BreakStatus) -> (r: StopReason)
        ensures
            r == stop_reason_of(action, status),
    {
        match status {
            BreakStatus::Exit => StopReason::Exited(0),
            BreakStatus::Break => match action {
                ResumeAction::Step => StopReason::DoneStep,
                ResumeAction::StepWithSignal(_) => StopReason::DoneStep,
                _ => StopReason::SwBreak,
            },
        }
    }

    /// Reads the register bank of the lent CPU state, with the published
    /// program counter. `None` while no CPU state is accessible: the caller
    /// waits for one.
    pub fn read_registers(&mut self, state: &TargetState) -> (r: Option<Registers>)
        ensures
            r is Some <==> state@.cpu_accessible(),
            r matches Some(regs) ==> is_bank_of(regs, state@.cpu->0, state@.pc),
            r is Some ==> state@.waiting,
    {
        proof {
            use_type_invariant(&state.rendezvous);
        }
        if state.rendezvous.cont {
            return None;
        }
        match &state.rendezvous.cpu {
            Some(cpu) => Some(read_bank(cpu, state.rendezvous.pc)),
            None => None,
        }
    }

    /// Writes the register bank to the lent CPU state and publishes its
    /// program counter. Says whether a CPU state was accessible; where none
    /// is, nothing changes and the caller waits for one.
    pub fn write_registers(&mut self, state: &mut TargetState, regs: &Registers) -> (r: bool)
        ensures
            r == old(state)@.cpu_accessible(),
            final(state)@.is_written_by(old(state)@, *regs),
    {
        proof {
            use_type_invariant(&state.rendezvous);
        }
        if state.rendezvous.cont {
            return false;
        }
        match state.rendezvous.cpu {
            Some(cpu) => {
                let mut cpu = cpu;
                let pc = write_bank(&mut cpu, regs);
                state.rendezvous.cpu = Some(cpu);
                match pc {
                    Some(pc) => {
                        state.rendezvous.pc = pc;
                    },
                    None => {},
                }
                true
            },
            None => false,
        }
    }

    /// The outcome of reading guest memory, given what the host returned:
    /// a failed read is reported as not fatal.
    pub fn read_addrs(&mut self, read: Option<Vec<u8>>) -> (r: Result<Vec<u8>, TargetError>)
        ensures
            r == match read {
                Some(bytes) => Ok::<Vec<u8>, TargetError>(bytes),
                None => Err::<Vec<u8>, TargetError>(TargetError::NonFatal),
            },
    {
        match read {
            Some(bytes) => Ok(bytes),
            None => Err(TargetError::NonFatal),
        }
    }

    /// Adds a software breakpoint; says whether the set changed.
    pub fn add_sw_breakpoint(&mut self, state: &mut TargetState, addr: u64) -> (r: bool)
        ensures
            final(state)@ == (TargetView {
                breakpoints: old(state)@.breakpoints.insert(addr),
                ..old(state)@
            }),
            r == !old(state)@.breakpoints.contains(addr),
    {
        state.add_breakpoint(addr)
    }

    /// Removes a software breakpoint; says whether the set changed.
    pub fn remove_sw_breakpoint(&mut self, state: &mut TargetState, addr: u64) -> (r: bool)
        ensures
            final(state)@ == (TargetView {
                breakpoints: old(state)@.breakpoints.remove(addr),
                ..old(state)@
            }),
            r == old(state)@.breakpoints.contains(addr),
    {
        state.remove_breakpoint(addr)
    }
}

/// While the debug thread may touch the CPU state, the emulation thread
/// waits for the continue signal: this holds at the start and after every
/// step of either thread that lends, changes or takes back the CPU state,
/// or gives a signal. (The other steps leave both as they are.)
pub proof fn lemma_exclusive_cpu_access(
    s: TargetView,
    cpu: CpuState,
    pc: u64,
    name: Seq<char>,
    file: Seq<char>,
    pid: i32,
    action: ResumeAction,
    regs: Registers,
    written: TargetView,
)
    requires
        s.wf(),
        written.is_written_by(s, regs),
    ensures
        TargetView::initial().wf(),
        s.cpu_accessible() ==> s.waiting,
        s.entered_break(cpu, pc).wf(),
        s.left_break().wf(),
        s.process_started(name, file, pid).wf(),
        s.process_ended(pid).wf(),
        s.resumed(action).wf(),
        written.wf(),
{
}

/// Only the debug thread ends a break: while it may touch the CPU state the
/// emulation thread cannot stop waiting, and the break ends by nothing but
/// a resume.
pub proof fn lemma_break_ends_by_resume(s: TargetView)
    requires
        s.wf(),
        s.cpu_accessible(),
    ensures
        !s.can_leave_break(),
        s.left_break() == s,
        s.resumed(ResumeAction::Continue).can_leave_break(),
        s.resumed(ResumeAction::Step).can_leave_break(),
        !s.resumed(ResumeAction::Continue).cpu_accessible(),
        !s.resumed(ResumeAction::Step).cpu_accessible(),
{
}

} // verus!
