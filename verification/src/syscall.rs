//! The syscall collaborator for one call: it owns the read-only segment
//! ledger, tracks the machine's syscall communication region, and accumulates
//! the call's nested results, events, and outbound messages.
//!
//! Each syscall the executed program makes writes one fixed-width record into
//! the syscall communication segment — a selector cell, an argument cell, and
//! a response cell — and advances the collaborator's own region pointer by the
//! same amount; the post-execution validator later holds the program's claimed
//! region boundary to this bookkeeping.

use vstd::prelude::*;
use crate::entry_point::CallInfo;
use crate::entry_point::clone_felts;
use crate::entry_point::Event;
use crate::entry_point::EventView;
use crate::entry_point::events_view;
use crate::entry_point::MessageToL1;
use crate::entry_point::MessageView;
use crate::entry_point::messages_view;
use crate::execution_utils::ReadOnlySegments;
use crate::machine::VirtualMachine;
use crate::memory::MaybeRelocatable;
use crate::memory::Relocatable;
use crate::state::ClassHash;
use crate::state::ContractAddress;
use crate::state::StateStore;
use crate::state::StateView;

verus! {

/// The number of cells one syscall record occupies in the syscall
/// communication segment: selector, argument, response.
pub const SYSCALL_CELLS: usize = 3;

/// One request the executed program makes of the host during its run.
#[derive(Debug, PartialEq, Eq)]
pub enum Syscall {
    /// Read the invoked contract's storage cell `key`.
    StorageRead { key: u128 },
    /// Write `value` to the invoked contract's storage cell `key`.
    StorageWrite { key: u128, value: u128 },
    /// Read the class identifier bound at `address` in the state store.
    GetClassHashAt { address: ContractAddress },
    /// Emit an event.
    EmitEvent { event: Event },
    /// Send an outbound message.
    SendMessageToL1 { message: MessageToL1 },
}

/// The selector cell value of a syscall record.
pub open spec fn syscall_selector(c: Syscall) -> u128 {
    match c {
        Syscall::StorageRead { .. } => 1,
        Syscall::StorageWrite { .. } => 2,
        Syscall::GetClassHashAt { .. } => 3,
        Syscall::EmitEvent { .. } => 4,
        Syscall::SendMessageToL1 { .. } => 5,
    }
}

/// The argument cell value of a syscall record.
pub open spec fn syscall_argument(c: Syscall) -> u128 {
    match c {
        Syscall::StorageRead { key } => key,
        Syscall::StorageWrite { key, .. } => key,
        Syscall::GetClassHashAt { address } => address.0,
        Syscall::EmitEvent { event } => event.keys@.len() as u128,
        Syscall::SendMessageToL1 { message } => message.to_address,
    }
}

/// The response cell value of a syscall record, as observed against state
/// `s` by the contract at `addr`.
pub open spec fn syscall_response(s: StateView, addr: ContractAddress, c: Syscall) -> u128 {
    match c {
        Syscall::StorageRead { key } => s.storage[(addr, key)],
        Syscall::StorageWrite { value, .. } => value,
        Syscall::GetClassHashAt { address } => s.address_to_class[address].0,
        Syscall::EmitEvent { .. } => 0,
        Syscall::SendMessageToL1 { .. } => 0,
    }
}

/// The state after the contract at `addr` performs one syscall against `s`.
pub open spec fn apply_syscall(s: StateView, addr: ContractAddress, c: Syscall) -> StateView {
    match c {
        Syscall::StorageWrite { key, value } => StateView {
            storage: s.storage.insert((addr, key), value),
            address_to_class: s.address_to_class,
        },
        _ => s,
    }
}

/// The state after the contract at `addr` performs the syscalls in order.
pub open spec fn apply_syscalls(s: StateView, addr: ContractAddress, cs: Seq<Syscall>) -> StateView
    decreases cs.len(),
{
    if cs.len() == 0 {
        s
    } else {
        apply_syscalls(apply_syscall(s, addr, cs.first()), addr, cs.drop_first())
    }
}

/// The record one syscall writes into the syscall communication segment.
pub open spec fn syscall_cells_one(s: StateView, addr: ContractAddress, c: Syscall) -> Seq<
    Option<MaybeRelocatable>,
> {
    seq![
        Some(MaybeRelocatable::Int(syscall_selector(c))),
        Some(MaybeRelocatable::Int(syscall_argument(c))),
        Some(MaybeRelocatable::Int(syscall_response(s, addr, c))),
    ]
}

/// The cells an honest run appends to the syscall communication segment for
/// the syscalls in order, threading the state: a read after a write observes
/// the written value.
pub open spec fn syscall_cells(s: StateView, addr: ContractAddress, cs: Seq<Syscall>) -> Seq<
    Option<MaybeRelocatable>,
>
    decreases cs.len(),
{
    if cs.len() == 0 {
        Seq::empty()
    } else {
        syscall_cells_one(s, addr, cs.first()) + syscall_cells(
            apply_syscall(s, addr, cs.first()),
            addr,
            cs.drop_first(),
        )
    }
}

/// The contents of the events the syscalls emit, in order.
pub open spec fn events_of(cs: Seq<Syscall>) -> Seq<EventView>
    decreases cs.len(),
{
    if cs.len() == 0 {
        Seq::empty()
    } else {
        (match cs.first() {
            Syscall::EmitEvent { event } => seq![event@],
            _ => Seq::empty(),
        }) + events_of(cs.drop_first())
    }
}

/// The contents of the outbound messages the syscalls send, in order.
pub open spec fn messages_of(cs: Seq<Syscall>) -> Seq<MessageView>
    decreases cs.len(),
{
    if cs.len() == 0 {
        Seq::empty()
    } else {
        (match cs.first() {
            Syscall::SendMessageToL1 { message } => seq![message@],
            _ => Seq::empty(),
        }) + messages_of(cs.drop_first())
    }
}

/// Performing one more syscall after a sequence applies it to the state the
/// sequence left behind.
pub proof fn lemma_apply_syscalls_snoc(s: StateView, addr: ContractAddress, cs: Seq<Syscall>, c: Syscall)
    ensures
        apply_syscalls(s, addr, cs.push(c)) == apply_syscall(apply_syscalls(s, addr, cs), addr, c),
    decreases cs.len(),
{
    if cs.len() == 0 {
        assert(cs.push(c).first() == c);
        assert(cs.push(c).drop_first() =~= Seq::<Syscall>::empty());
        assert(apply_syscalls(apply_syscall(s, addr, c), addr, Seq::<Syscall>::empty())
            == apply_syscall(s, addr, c));
        assert(apply_syscalls(s, addr, cs) == s);
    } else {
        assert(cs.push(c).first() == cs.first());
        assert(cs.push(c).drop_first() =~= cs.drop_first().push(c));
        lemma_apply_syscalls_snoc(apply_syscall(s, addr, cs.first()), addr, cs.drop_first(), c);
        assert(apply_syscalls(s, addr, cs) == apply_syscalls(
            apply_syscall(s, addr, cs.first()),
            addr,
            cs.drop_first(),
        ));
    }
}

/// One more syscall appends its own record after the records of the
/// sequence, observed against the state the sequence left behind.
pub proof fn lemma_syscall_cells_snoc(s: StateView, addr: ContractAddress, cs: Seq<Syscall>, c: Syscall)
    ensures
        syscall_cells(s, addr, cs.push(c)) == syscall_cells(s, addr, cs) + syscall_cells_one(
            apply_syscalls(s, addr, cs),
            addr,
            c,
        ),
    decreases cs.len(),
{
    if cs.len() == 0 {
        assert(cs.push(c).first() == c);
        assert(cs.push(c).drop_first() =~= Seq::<Syscall>::empty());
        assert(syscall_cells(apply_syscall(s, addr, c), addr, Seq::<Syscall>::empty())
            =~= Seq::<Option<MaybeRelocatable>>::empty());
        assert(syscall_cells(s, addr, cs) =~= Seq::<Option<MaybeRelocatable>>::empty());
        assert(apply_syscalls(s, addr, cs) == s);
        assert(syscall_cells(s, addr, cs.push(c)) =~= syscall_cells(s, addr, cs)
            + syscall_cells_one(apply_syscalls(s, addr, cs), addr, c));
    } else {
        assert(cs.push(c).first() == cs.first());
        assert(cs.push(c).drop_first() =~= cs.drop_first().push(c));
        lemma_syscall_cells_snoc(apply_syscall(s, addr, cs.first()), addr, cs.drop_first(), c);
        assert(apply_syscalls(s, addr, cs) == apply_syscalls(
            apply_syscall(s, addr, cs.first()),
            addr,
            cs.drop_first(),
        ));
        assert(syscall_cells(s, addr, cs.push(c)) =~= syscall_cells(s, addr, cs)
            + syscall_cells_one(apply_syscalls(s, addr, cs), addr, c));
    }
}

/// One more syscall appends its event, if it emits one, after the events of
/// the sequence.
pub proof fn lemma_events_of_snoc(cs: Seq<Syscall>, c: Syscall)
    ensures
        events_of(cs.push(c)) == events_of(cs) + (match c {
            Syscall::EmitEvent { event } => seq![event@],
            _ => Seq::<EventView>::empty(),
        }),
    decreases cs.len(),
{
    if cs.len() == 0 {
        assert(cs.push(c).first() == c);
        assert(cs.push(c).drop_first() =~= Seq::<Syscall>::empty());
        assert(events_of(Seq::<Syscall>::empty()) =~= Seq::<EventView>::empty());
        assert(events_of(cs) =~= Seq::<EventView>::empty());
        assert(events_of(cs.push(c)) =~= events_of(cs) + (match c {
            Syscall::EmitEvent { event } => seq![event@],
            _ => Seq::<EventView>::empty(),
        }));
    } else {
        assert(cs.push(c).first() == cs.first());
        assert(cs.push(c).drop_first() =~= cs.drop_first().push(c));
        lemma_events_of_snoc(cs.drop_first(), c);
        assert(events_of(cs.push(c)) =~= events_of(cs) + (match c {
            Syscall::EmitEvent { event } => seq![event@],
            _ => Seq::<EventView>::empty(),
        }));
    }
}

/// One more syscall appends its message, if it sends one, after the messages
/// of the sequence.
pub proof fn lemma_messages_of_snoc(cs: Seq<Syscall>, c: Syscall)
    ensures
        messages_of(cs.push(c)) == messages_of(cs) + (match c {
            Syscall::SendMessageToL1 { message } => seq![message@],
            _ => Seq::<MessageView>::empty(),
        }),
    decreases cs.len(),
{
    if cs.len() == 0 {
        assert(cs.push(c).first() == c);
        assert(cs.push(c).drop_first() =~= Seq::<Syscall>::empty());
        assert(messages_of(Seq::<Syscall>::empty()) =~= Seq::<MessageView>::empty());
        assert(messages_of(cs) =~= Seq::<MessageView>::empty());
        assert(messages_of(cs.push(c)) =~= messages_of(cs) + (match c {
            Syscall::SendMessageToL1 { message } => seq![message@],
            _ => Seq::<MessageView>::empty(),
        }));
    } else {
        assert(cs.push(c).first() == cs.first());
        assert(cs.push(c).drop_first() =~= cs.drop_first().push(c));
        lemma_messages_of_snoc(cs.drop_first(), c);
        assert(messages_of(cs.push(c)) =~= messages_of(cs) + (match c {
            Syscall::SendMessageToL1 { message } => seq![message@],
            _ => Seq::<MessageView>::empty(),
        }));
    }
}

/// Each syscall writes exactly one fixed-width record.
pub proof fn lemma_syscall_cells_len(s: StateView, addr: ContractAddress, cs: Seq<Syscall>)
    ensures
        syscall_cells(s, addr, cs).len() == 3 * cs.len(),
    decreases cs.len(),
{
    if cs.len() > 0 {
        lemma_syscall_cells_len(apply_syscall(s, addr, cs.first()), addr, cs.drop_first());
    }
}

/// No syscall changes the deployment bindings: the bindings observed after a
/// sequence of syscalls are those observed before it.
pub proof fn lemma_apply_syscalls_bindings(s: StateView, addr: ContractAddress, cs: Seq<Syscall>)
    ensures
        apply_syscalls(s, addr, cs).address_to_class == s.address_to_class,
    decreases cs.len(),
{
    if cs.len() > 0 {
        lemma_apply_syscalls_bindings(apply_syscall(s, addr, cs.first()), addr, cs.drop_first());
    }
}

/// A constructor invocation that queries its own class binding as its first
/// syscall observes the binding already present: against a state in which
/// deployment registered the binding before the constructor ran, the first
/// syscall record's response cell holds the newly bound class identifier.
pub proof fn lemma_deployment_binding_visible(
    s: StateView,
    class_hash: ClassHash,
    deployed_contract_address: ContractAddress,
    cs: Seq<Syscall>,
)
    requires
        cs.len() > 0,
        cs[0] == (Syscall::GetClassHashAt { address: deployed_contract_address }),
    ensures
        ({
            let bound = StateView {
                storage: s.storage,
                address_to_class: s.address_to_class.insert(deployed_contract_address, class_hash),
            };
            syscall_cells(bound, deployed_contract_address, cs)[2] == Some(
                MaybeRelocatable::Int(class_hash.0),
            )
        }),
{
    let bound = StateView {
        storage: s.storage,
        address_to_class: s.address_to_class.insert(deployed_contract_address, class_hash),
    };
    assert(cs.first() == cs[0]);
    assert(syscall_cells(bound, deployed_contract_address, cs) == syscall_cells_one(
        bound,
        deployed_contract_address,
        cs.first(),
    ) + syscall_cells(
        apply_syscall(bound, deployed_contract_address, cs.first()),
        deployed_contract_address,
        cs.drop_first(),
    ));
    assert(syscall_response(bound, deployed_contract_address, cs.first()) == class_hash.0);
}

/// The syscall collaborator of one call: the invoked and calling addresses,
/// the current syscall-region pointer, the read-only segment ledger, and the
/// accumulated nested results, events, and outbound messages.
#[derive(Debug)]
pub struct SyscallHintProcessor {
    pub storage_address: ContractAddress,
    pub caller_address: ContractAddress,
    pub syscall_ptr: Relocatable,
    pub read_only_segments: ReadOnlySegments,
    pub inner_calls: Vec<CallInfo>,
    pub events: Vec<Event>,
    pub l2_to_l1_messages: Vec<MessageToL1>,
}

impl SyscallHintProcessor {
    /// A fresh collaborator for one call, starting at the syscall
    /// communication region's start pointer.
    pub fn new(
        initial_syscall_ptr: Relocatable,
        storage_address: ContractAddress,
        caller_address: ContractAddress,
    ) -> (r: SyscallHintProcessor)
        ensures
            r.storage_address == storage_address,
            r.caller_address == caller_address,
            r.syscall_ptr == initial_syscall_ptr,
            r.read_only_segments.0@.len() == 0,
            r.inner_calls@.len() == 0,
            r.events@.len() == 0,
            r.l2_to_l1_messages@.len() == 0,
    {
        SyscallHintProcessor {
            storage_address,
            caller_address,
            syscall_ptr: initial_syscall_ptr,
            read_only_segments: ReadOnlySegments::new(),
            inner_calls: Vec::new(),
            events: Vec::new(),
            l2_to_l1_messages: Vec::new(),
        }
    }

    /// Appends a completed nested call's result record to this call's
    /// accumulated list. Each nested call returns its result synchronously
    /// to its caller, whose dispatch layer appends it here, in invocation
    /// order; the result finalizer carries the accumulated list into the
    /// call's own result record.
    pub fn record_inner_call(&mut self, info: CallInfo)
        ensures
            final(self).inner_calls@ == old(self).inner_calls@.push(info),
            final(self).storage_address == old(self).storage_address,
            final(self).caller_address == old(self).caller_address,
            final(self).syscall_ptr == old(self).syscall_ptr,
            final(self).read_only_segments.0@ == old(self).read_only_segments.0@,
            final(self).events@ == old(self).events@,
            final(self).l2_to_l1_messages@ == old(self).l2_to_l1_messages@,
    {
        self.inner_calls.push(info);
    }

    /// Confirms that a computed syscall-region end pointer matches what this
    /// collaborator itself last advanced to.
    pub fn verify_syscall_ptr(&self, ptr: Relocatable) -> (r: bool)
        ensures
            r == (ptr == self.syscall_ptr),
    {
        ptr.segment_index == self.syscall_ptr.segment_index && ptr.offset
            == self.syscall_ptr.offset
    }

    /// Performs one syscall for the executed program: mutates the state as
    /// the syscall demands, writes the syscall record at the region pointer,
    /// and advances the pointer past it.
    pub fn execute_syscall(
        &mut self,
        vm: &mut VirtualMachine,
        state: &mut StateStore,
        syscall: &Syscall,
    )
        requires
            old(self).syscall_ptr.segment_index < old(vm).segments@.len(),
            old(self).syscall_ptr.offset == old(vm).used_size_of(
                old(self).syscall_ptr.segment_index as int,
            ),
            old(self).syscall_ptr.offset + SYSCALL_CELLS <= usize::MAX,
        ensures
            final(state).view_state() == apply_syscall(
                old(state).view_state(),
                old(self).storage_address,
                *syscall,
            ),
            final(state).classes@ == old(state).classes@,
            final(state).visited_pcs == old(state).visited_pcs,
            final(vm).segments@.len() == old(vm).segments@.len(),
            final(vm).segments@[old(self).syscall_ptr.segment_index as int].cells@ == old(
                vm,
            ).segments@[old(self).syscall_ptr.segment_index as int].cells@ + syscall_cells_one(
                old(state).view_state(),
                old(self).storage_address,
                *syscall,
            ),
            final(vm).segments@[old(self).syscall_ptr.segment_index as int].accessed == old(
                vm,
            ).segments@[old(self).syscall_ptr.segment_index as int].accessed,
            forall|i: int|
                0 <= i < old(vm).segments@.len() && i != old(self).syscall_ptr.segment_index
                    ==> #[trigger] final(vm).segments@[i] == old(vm).segments@[i],
            final(vm).builtins@ == old(vm).builtins@,
            final(vm).ap == old(vm).ap,
            final(self).syscall_ptr.segment_index == old(self).syscall_ptr.segment_index,
            final(self).syscall_ptr.offset == old(self).syscall_ptr.offset + SYSCALL_CELLS,
            final(self).storage_address == old(self).storage_address,
            final(self).caller_address == old(self).caller_address,
            final(self).read_only_segments.0@ == old(self).read_only_segments.0@,
            final(self).inner_calls@.len() == old(self).inner_calls@.len(),
            events_view(final(self).events@) == events_view(old(self).events@) + events_of(
                seq![*syscall],
            ),
            messages_view(final(self).l2_to_l1_messages@) == messages_view(
                old(self).l2_to_l1_messages@,
            ) + messages_of(seq![*syscall]),
    {
        let seg = self.syscall_ptr.segment_index;
        let selector: u128;
        let argument: u128;
        let response: u128;
        match syscall {
            Syscall::StorageRead { key } => {
                selector = 1;
                argument = *key;
                response = state.get_storage_at(self.storage_address, *key);
            },
            Syscall::StorageWrite { key, value } => {
                selector = 2;
                argument = *key;
                response = *value;
                state.set_storage_at(self.storage_address, *key, *value);
            },
            Syscall::GetClassHashAt { address } => {
                selector = 3;
                argument = address.0;
                response = state.get_class_hash_at(*address).0;
            },
            Syscall::EmitEvent { event } => {
                selector = 4;
                argument = event.keys.len() as u128;
                response = 0;
                self.events.push(
                    Event { keys: clone_felts(&event.keys), data: clone_felts(&event.data) },
                );
            },
            Syscall::SendMessageToL1 { message } => {
                selector = 5;
                argument = message.to_address;
                response = 0;
                self.l2_to_l1_messages.push(
                    MessageToL1 {
                        to_address: message.to_address,
                        payload: clone_felts(&message.payload),
                    },
                );
            },
        }
        vm.push_cell(seg, MaybeRelocatable::Int(selector));
        vm.push_cell(seg, MaybeRelocatable::Int(argument));
        vm.push_cell(seg, MaybeRelocatable::Int(response));
        self.syscall_ptr = Relocatable {
            segment_index: seg,
            offset: self.syscall_ptr.offset + SYSCALL_CELLS,
        };
        proof {
            assert(state.view_state().storage =~= apply_syscall(
                old(state).view_state(),
                old(self).storage_address,
                *syscall,
            ).storage);
            assert(state.view_state().address_to_class =~= apply_syscall(
                old(state).view_state(),
                old(self).storage_address,
                *syscall,
            ).address_to_class);
            assert(state.view_state() =~= apply_syscall(
                old(state).view_state(),
                old(self).storage_address,
                *syscall,
            ));
            assert(vm.segments@[old(self).syscall_ptr.segment_index as int].cells@ =~= old(
                vm,
            ).segments@[old(self).syscall_ptr.segment_index as int].cells@ + syscall_cells_one(
                old(state).view_state(),
                old(self).storage_address,
                *syscall,
            ));
            let single = seq![*syscall];
            assert(single.first() == *syscall);
            assert(single.drop_first() =~= Seq::<Syscall>::empty());
            assert(events_of(Seq::<Syscall>::empty()) =~= Seq::<EventView>::empty());
            assert(messages_of(Seq::<Syscall>::empty()) =~= Seq::<MessageView>::empty());
            match syscall {
                Syscall::EmitEvent { event } => {
                    assert(events_of(single) =~= seq![event@]);
                    assert(self.events@.last()@ == event@);
                },
                Syscall::SendMessageToL1 { message } => {
                    assert(messages_of(single) =~= seq![message@]);
                    assert(self.l2_to_l1_messages@.last()@ == message@);
                },
                _ => {
                    assert(events_of(single) =~= Seq::<EventView>::empty());
                    assert(messages_of(single) =~= Seq::<MessageView>::empty());
                },
            }
            assert(events_view(self.events@) =~= events_view(old(self).events@) + events_of(
                single,
            ));
            assert(messages_view(self.l2_to_l1_messages@) =~= messages_view(
                old(self).l2_to_l1_messages@,
            ) + messages_of(single));
        }
    }
}

} // verus!
