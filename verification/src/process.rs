//! The process: the registry of the loaded programs.

use vstd::prelude::*;
use crate::error::VmError;
use crate::stack::{Stack, StackView};
use crate::types::ProgramId;

verus! {

/// The registry as a mathematical value: the stacks, in the order in which
/// they were added.
pub struct ProcessView {
    pub stacks: Seq<StackView>,
}

impl ProcessView {
    /// The identifiers of the registered programs.
    pub open spec fn program_ids(self) -> Seq<ProgramId> {
        self.stacks.map_values(|s: StackView| s.program.id)
    }

    /// Where the stack of a program stands.
    pub open spec fn stack_index(self, id: ProgramId) -> Option<int> {
        self.program_ids().index_of_first(id)
    }

    /// The stack of a program.
    pub open spec fn stack(self, id: ProgramId) -> Option<StackView> {
        match self.stack_index(id) {
            Some(i) => Some(self.stacks[i]),
            None => None,
        }
    }

    pub open spec fn contains_program(self, id: ProgramId) -> bool {
        self.stack_index(id) is Some
    }

    /// The registry after a stack was added: in the place of the stack of the
    /// same program, if there is one, and at the end otherwise.
    pub open spec fn with_stack(self, stack: StackView) -> ProcessView {
        match self.stack_index(stack.program.id) {
            Some(i) => ProcessView { stacks: self.stacks.update(i, stack) },
            None => ProcessView { stacks: self.stacks.push(stack) },
        }
    }

    pub open spec fn wf(self) -> bool {
        forall|i: int| 0 <= i < self.stacks.len() ==> (#[trigger] self.stacks[i]).wf()
    }
}

/// The registry of the loaded programs. It is a value that its owner holds:
/// whoever shares it between threads guards it.
#[derive(Debug)]
pub struct Process {
    stacks: Vec<Stack>,
}

impl View for Process {
    type V = ProcessView;

    closed spec fn view(&self) -> ProcessView {
        ProcessView { stacks: self.stacks@.map_values(|s: Stack| s@) }
    }
}

impl Process {
    /// The representation invariant.
    pub open spec fn wf(&self) -> bool {
        self@.wf()
    }

    /// A process with no program.
    pub fn new() -> (process: Process)
        ensures
            process.wf(),
            process@.stacks.len() == 0,
    {
        Process { stacks: Vec::new() }
    }

    /// Where the stack of a program stands.
    fn find_stack(&self, id: ProgramId) -> (r: Option<usize>)
        ensures
            match r {
                Some(i) => self@.stack_index(id) == Some(i as int) && i < self.stacks@.len(),
                None => self@.stack_index(id) is None,
            },
    {
        let ghost ids = self@.program_ids();
        let mut i: usize = 0;
        while i < self.stacks.len()
            invariant
                i <= self.stacks.len(),
                ids == self@.program_ids(),
                forall|k: int| 0 <= k < i ==> ids[k] != id,
            decreases self.stacks.len() - i,
        {
            if self.stacks[i].program_id() == id {
                proof {
                    assert(ids[i as int] == id);
                    ids.index_of_first_ensures(id);
                }
                return Some(i);
            }
            i += 1;
        }
        proof {
            ids.index_of_first_ensures(id);
        }
        None
    }

    /// Whether a program is registered.
    pub fn contains_program(&self, id: ProgramId) -> (b: bool)
        ensures
            b == self@.contains_program(id),
    {
        self.find_stack(id).is_some()
    }

    /// The stack of a program.
    pub fn get_stack(&self, id: ProgramId) -> (r: Result<&Stack, VmError>)
        ensures
            match r {
                Ok(stack) => self@.stack(id) == Some(stack@) && (self.wf() ==> stack.wf()),
                Err(e) => self@.stack(id) is None && e == (VmError::ProgramNotFound {
                    program_id: id,
                }),
            },
    {
        match self.find_stack(id) {
            Some(i) => {
                proof {
                    let _ = self@.stacks[i as int];
                }
                Ok(&self.stacks[i])
            },
            None => Err(VmError::ProgramNotFound { program_id: id }),
        }
    }

    /// Registers a stack, in the place of the stack of the same program if
    /// there is one.
    pub fn add_stack(&mut self, stack: Stack)
        requires
            old(self).wf(),
            stack.wf(),
        ensures
            final(self).wf(),
            final(self)@ == old(self)@.with_stack(stack@),
            final(self)@.contains_program(stack@.program.id),
    {
        let ghost added = stack@;
        let id = stack.program_id();
        match self.find_stack(id) {
            Some(i) => {
                self.stacks.set(i, stack);
                proof {
                    assert(self@.stacks =~= old(self)@.stacks.update(i as int, added));
                    old(self)@.program_ids().index_of_first_ensures(id);
                    assert(old(self)@.program_ids()[i as int] == id);
                    assert(self@.program_ids() =~= old(self)@.program_ids());
                }
            },
            None => {
                self.stacks.push(stack);
                proof {
                    assert(self@.stacks =~= old(self)@.stacks.push(added));
                    let ids = self@.program_ids();
                    assert(ids[ids.len() - 1] == id);
                    ids.index_of_first_ensures(id);
                }
            },
        }
    }
}

} // verus!
