//! Registration plumbing for asynchronous exceptions: the descriptor a
//! driver hands to an interrupt controller when it registers a handler.

use vstd::prelude::*;

verus! {

/// Implemented by drivers whose interrupts the controller dispatches.
/// Handlers are shared with the controller, so they must be `Sync`.
pub trait IRQHandler: Sync {
    /// Called when the corresponding interrupt fires.
    fn handle(&self) -> Result<(), &'static str>;
}

/// A handler registration: the controller-specific interrupt number, the
/// registering driver's name, and the handler to dispatch to.
pub struct IRQHandlerDescriptor<T>
    where T: Copy,
 {
    pub number: T,
    pub name: &'static str,
    pub handler: &'static (dyn IRQHandler),
}

impl<T> IRQHandlerDescriptor<T> where T: Copy {
    pub fn new(
        number: T,
        name: &'static str,
        handler: &'static (dyn IRQHandler),
    ) -> (r: Self)
        ensures
            r.number == number,
            r.name == name,
    {
        IRQHandlerDescriptor { number, name, handler }
    }

    pub fn number(&self) -> (r: T)
        ensures
            r == self.number,
    {
        self.number
    }

    pub fn name(&self) -> (r: &'static str)
        ensures
            r == self.name,
    {
        self.name
    }

    pub fn handler(&self) -> &'static (dyn IRQHandler) {
        self.handler
    }
}

/// Proof that execution is inside an interrupt context. Only the
/// exception entry code creates one; handlers receive it by reference
/// and can never store it beyond the handling of the interrupt.
pub struct IRQContext<'irq_context> {
    pub marker: core::marker::PhantomData<&'irq_context ()>,
}

/// Implemented by interrupt controllers: registration, unmasking and
/// dispatch of interrupt handlers.
pub trait IRQManager {
    type IRQNumberType: Copy;

    /// Register the given handler for its interrupt number.
    fn register_handler(
        &self,
        irq_handler_descriptor: IRQHandlerDescriptor<Self::IRQNumberType>,
    ) -> Result<(), &'static str>;

    /// Unmask the given interrupt at the controller.
    fn enable(&self, irq_number: &Self::IRQNumberType);

    /// Dispatch every pending interrupt to its registered handler.
    fn handle_pending_irqs<'irq_context>(
        &'irq_context self,
        ic: &IRQContext<'irq_context>,
    );
}

} // verus!
