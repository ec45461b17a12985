use vstd::prelude::*;

use crate::error::MachineError;
use crate::machine::Machine;

verus! {

/// What runs when an `Interrupt` instruction raises a signal. The handler
/// gets exclusive access to the whole machine.
pub trait InterruptHandler: Copy + Sized {
    fn handle(&self, vm: &mut Machine<Self>) -> Result<(), MachineError>;
}

/// Sets the machine's halt indicator.
pub fn halt_interrupt<H>(vm: &mut Machine<H>) -> (r: Result<(), MachineError>)
    ensures
        r is Ok,
        final(vm)@ == (crate::machine::MachineView { halt: true, ..old(vm)@ }),
        final(vm).interrupts@ == old(vm).interrupts@,
{
    vm.halt = true;
    Ok(())
}

/// The handler that halts the machine.
#[derive(Debug, Clone, Copy)]
pub struct HaltInterrupt;

impl InterruptHandler for HaltInterrupt {
    fn handle(&self, vm: &mut Machine<HaltInterrupt>) -> Result<(), MachineError> {
        halt_interrupt(vm)
    }
}

} // verus!
