//! Call descriptors, call result records, and the model of what one executed
//! program did during its run: its syscalls, its return data, and whether it
//! aborted.

use vstd::prelude::*;
use crate::errors::PreExecutionError;
use crate::state::ContractAddress;
use crate::state::EntryPoint;
use crate::state::ContractClass;
use crate::syscall::Syscall;

verus! {

/// A call descriptor: the entry-point selector, the input data, the invoked
/// contract's address, and the caller's address. Immutable once constructed.
#[derive(Debug, PartialEq, Eq)]
pub struct CallEntryPoint {
    pub entry_point_selector: u128,
    pub calldata: Vec<u128>,
    pub storage_address: ContractAddress,
    pub caller_address: ContractAddress,
}

/// Decoded return data of one call.
#[derive(Debug, PartialEq, Eq)]
pub struct Retdata(pub Vec<u128>);

/// The validated execution output of one call.
#[derive(Debug, PartialEq, Eq)]
pub struct CallExecution {
    pub retdata: Retdata,
}

/// An event emitted by the executed program.
#[derive(Debug, PartialEq, Eq)]
pub struct Event {
    pub keys: Vec<u128>,
    pub data: Vec<u128>,
}

/// The mathematical content of an event.
pub ghost struct EventView {
    pub keys: Seq<u128>,
    pub data: Seq<u128>,
}

impl View for Event {
    type V = EventView;

    open spec fn view(&self) -> EventView {
        EventView { keys: self.keys@, data: self.data@ }
    }
}

/// An outbound message sent by the executed program.
#[derive(Debug, PartialEq, Eq)]
pub struct MessageToL1 {
    pub to_address: u128,
    pub payload: Vec<u128>,
}

/// The mathematical content of an outbound message.
pub ghost struct MessageView {
    pub to_address: u128,
    pub payload: Seq<u128>,
}

impl View for MessageToL1 {
    type V = MessageView;

    open spec fn view(&self) -> MessageView {
        MessageView { to_address: self.to_address, payload: self.payload@ }
    }
}

/// The contents of a sequence of events.
pub open spec fn events_view(es: Seq<Event>) -> Seq<EventView> {
    es.map_values(|e: Event| e@)
}

/// The contents of a sequence of outbound messages.
pub open spec fn messages_view(ms: Seq<MessageToL1>) -> Seq<MessageView> {
    ms.map_values(|m: MessageToL1| m@)
}

/// The result record of one call: its descriptor, its validated execution
/// output, the nested calls' records in invocation order, and the events and
/// outbound messages recorded during the call.
#[derive(Debug)]
pub struct CallInfo {
    pub call: CallEntryPoint,
    pub execution: CallExecution,
    pub inner_calls: Vec<CallInfo>,
    pub events: Vec<Event>,
    pub l2_to_l1_messages: Vec<MessageToL1>,
}

/// What one executed program did during its run, as far as the host can
/// observe it: the syscalls it made in order, the return data it left in the
/// machine's return registers, and whether it faulted instead of completing.
/// The instruction-level execution that produces this observable behaviour
/// belongs to the underlying machine and is outside this core.
#[derive(Debug)]
pub struct ProgramRun {
    pub syscalls: Vec<Syscall>,
    pub retdata: Vec<u128>,
    pub aborts: bool,
}

/// How many entry points of `eps` carry the selector `sel`.
pub open spec fn count_matching(eps: Seq<EntryPoint>, sel: u128) -> nat
    decreases eps.len(),
{
    if eps.len() == 0 {
        0
    } else {
        (if eps.last().selector == sel {
            1 as nat
        } else {
            0 as nat
        }) + count_matching(eps.drop_last(), sel)
    }
}

impl CallEntryPoint {
    /// Resolves this call's starting program-counter offset from the class's
    /// program metadata: succeeds exactly when exactly one entry point
    /// carries the requested selector, fails with `EntryPointNotFound` when
    /// none does and with `DuplicateEntryPoint` when more than one does.
    pub fn resolve_entry_point_pc(&self, contract_class: &ContractClass) -> (r: Result<
        usize,
        PreExecutionError,
    >)
        ensures
            r is Ok <==> count_matching(
                contract_class.entry_points@,
                self.entry_point_selector,
            ) == 1,
            r matches Ok(pc) ==> exists|i: int|
                0 <= i < contract_class.entry_points@.len()
                    && (#[trigger] contract_class.entry_points@[i]).selector
                    == self.entry_point_selector && contract_class.entry_points@[i].pc == pc,
            count_matching(contract_class.entry_points@, self.entry_point_selector) == 0 ==> r
                == Err::<usize, PreExecutionError>(
                PreExecutionError::EntryPointNotFound(self.entry_point_selector),
            ),
            count_matching(contract_class.entry_points@, self.entry_point_selector) > 1 ==> r
                == Err::<usize, PreExecutionError>(
                PreExecutionError::DuplicateEntryPoint(self.entry_point_selector),
            ),
    {
        let eps = &contract_class.entry_points;
        let n = eps.len();
        proof {
            assert(eps@.take(n as int) =~= eps@);
        }
        let mut i: usize = 0;
        let mut found: Option<usize> = None;
        let mut count: usize = 0;
        while i < n
            invariant
                i <= n,
                n == eps@.len(),
                count == count_matching(eps@.take(i as int), self.entry_point_selector),
                count <= i,
                count > 0 <==> found is Some,
                found matches Some(pc) ==> exists|j: int|
                    0 <= j < i && (#[trigger] eps@[j]).selector == self.entry_point_selector
                        && eps@[j].pc == pc,
            decreases n - i,
        {
            proof {
                assert(eps@.take(i + 1).drop_last() =~= eps@.take(i as int));
                assert(eps@.take(i + 1).last() == eps@[i as int]);
            }
            if eps[i].selector == self.entry_point_selector {
                count = count + 1;
                if found.is_none() {
                    found = Some(eps[i].pc);
                }
            }
            i = i + 1;
        }
        if count == 0 {
            Err(PreExecutionError::EntryPointNotFound(self.entry_point_selector))
        } else if count > 1 {
            Err(PreExecutionError::DuplicateEntryPoint(self.entry_point_selector))
        } else {
            match found {
                Some(pc) => Ok(pc),
                None => {
                    proof {
                        assert(false);
                    }
                    Err(PreExecutionError::EntryPointNotFound(self.entry_point_selector))
                },
            }
        }
    }
}

/// A copy of a vector of field elements.
pub fn clone_felts(v: &Vec<u128>) -> (r: Vec<u128>)
    ensures
        r@ == v@,
{
    let n = v.len();
    let mut out: Vec<u128> = Vec::new();
    let mut k: usize = 0;
    while k < n
        invariant
            k <= n,
            n == v@.len(),
            out@ == v@.take(k as int),
        decreases n - k,
    {
        out.push(v[k]);
        proof {
            assert(v@.take(k + 1) =~= v@.take(k as int).push(v@[k as int]));
        }
        k = k + 1;
    }
    proof {
        assert(v@.take(n as int) =~= v@);
    }
    out
}

} // verus!
