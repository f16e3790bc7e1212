//! Host functions and call frames.

use vstd::prelude::*;

verus! {

/// What the dispatcher needs to know about a host function before it calls
/// it: how many registers hold results and parameters, and how large the
/// register window is that the call may touch.
#[derive(Clone)]
pub struct HostFunctionMetadata {
    pub name: &'static str,
    pub num_return_registers: usize,
    pub num_params: usize,
    pub num_registers: usize,
}

/// An append-only table of host callbacks of type `F`, each with its
/// metadata. The library stores the callbacks and hands them out by index;
/// it never invokes one.
pub struct HostFunctionRegistry<F> {
    pub funcs: Vec<F>,
    pub metadata: Vec<HostFunctionMetadata>,
}

impl<F> HostFunctionRegistry<F> {
    /// Every callback has exactly one metadata record.
    pub open spec fn wf(&self) -> bool {
        self.funcs@.len() == self.metadata@.len()
    }

    /// The number of registered host functions.
    pub open spec fn count(&self) -> nat {
        self.metadata@.len()
    }

    /// An empty registry.
    pub fn new() -> (r: Self)
        ensures
            r.wf(),
            r.count() == 0,
            r.funcs@.len() == 0,
    {
        HostFunctionRegistry { funcs: Vec::new(), metadata: Vec::new() }
    }

    /// Appends a host function and returns its index. Indices are dense and
    /// start at zero; earlier entries are unchanged.
    pub fn register(
        &mut self,
        name: &'static str,
        num_return_registers: usize,
        num_params: usize,
        num_registers: usize,
        func: F,
    ) -> (index: usize)
        requires
            old(self).wf(),
        ensures
            final(self).wf(),
            index == old(self).count(),
            final(self).funcs@ == old(self).funcs@.push(func),
            final(self).metadata@ == old(self).metadata@.push(
                (HostFunctionMetadata { name, num_return_registers, num_params, num_registers }),
            ),
    {
        let index: usize = self.funcs.len();
        self.funcs.push(func);
        self.metadata.push(
            HostFunctionMetadata { name, num_return_registers, num_params, num_registers },
        );
        index
    }
}

/// One frame of the call stack. `base` and `top` are the first and the last
/// absolute register index of the window that the frame may use.
#[derive(Debug, Clone)]
pub enum CallInfo {
    Global { base: usize, top: usize },
    Call { base: usize, top: usize, function_index: usize },
    CallHost { base: usize, top: usize, host_fn_index: usize },
}

impl CallInfo {
    /// The first absolute register index of the frame.
    pub open spec fn spec_base(&self) -> usize {
        match *self {
            CallInfo::Global { base, .. } => base,
            CallInfo::Call { base, .. } => base,
            CallInfo::CallHost { base, .. } => base,
        }
    }

    /// The first absolute register index of the frame.
    pub fn base(&self) -> (b: usize)
        ensures
            b == self.spec_base(),
    {
        match self {
            CallInfo::Global { base, .. } => *base,
            CallInfo::Call { base, .. } => *base,
            CallInfo::CallHost { base, .. } => *base,
        }
    }
}

} // verus!
