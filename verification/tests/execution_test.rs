use blockifier::entry_point::CallEntryPoint;
use blockifier::entry_point::CallExecution;
use blockifier::entry_point::Event;
use blockifier::entry_point::MessageToL1;
use blockifier::entry_point::ProgramRun;
use blockifier::entry_point::Retdata;
use blockifier::errors::EntryPointExecutionError;
use blockifier::errors::PostExecutionError;
use blockifier::errors::PreExecutionError;
use blockifier::errors::SecurityCheck;
use blockifier::errors::VirtualMachineExecutionError;
use blockifier::execution_utils::execute_deployment;
use blockifier::execution_utils::execute_entry_point_call;
use blockifier::execution_utils::finalize_execution;
use blockifier::execution_utils::get_felt_from_memory_cell;
use blockifier::execution_utils::initialize_execution_context;
use blockifier::execution_utils::prepare_call_arguments;
use blockifier::execution_utils::run_entry_point;
use blockifier::execution_utils::validate_run;
use blockifier::execution_utils::ExecutionContext;
use blockifier::execution_utils::CONSTRUCTOR_ENTRY_POINT_SELECTOR;
use blockifier::memory::MaybeRelocatable;
use blockifier::memory::Relocatable;
use blockifier::state::ClassHash;
use blockifier::state::ContractAddress;
use blockifier::state::ContractClass;
use blockifier::state::EntryPoint;
use blockifier::state::StateStore;
use blockifier::syscall::Syscall;

const TEST_CLASS_HASH: u128 = 0x111;
const TEST_SELECTOR: u128 = 0x17;
const TEST_ADDRESS: u128 = 0x100;
const N_BUILTINS: usize = 2;

// With two builtins the machine's segments are: program 0, execution 1,
// builtins 2 and 3, the syscall region 4, the calldata buffer 5.
const SYSCALL_SEGMENT: usize = 4;
const CALLDATA_SEGMENT: usize = 5;

fn state_with_class(class_hash: u128, selector: u128, pc: usize) -> StateStore {
    let mut state = StateStore::new();
    state.set_contract_class(
        ClassHash(class_hash),
        ContractClass { entry_points: vec![EntryPoint { selector, pc }] },
    );
    state
}

fn call_to(selector: u128, calldata: Vec<u128>) -> CallEntryPoint {
    CallEntryPoint {
        entry_point_selector: selector,
        calldata,
        storage_address: ContractAddress(TEST_ADDRESS),
        caller_address: ContractAddress(0),
    }
}

fn quiet_run() -> ProgramRun {
    ProgramRun { syscalls: vec![], retdata: vec![], aborts: false }
}

/// Builds the context, assembles the arguments, and drives the run to
/// completion; hands back everything the finalizer would consume.
fn run_pipeline(run: &ProgramRun, calldata: Vec<u128>) -> (
    StateStore,
    ExecutionContext,
    Vec<MaybeRelocatable>,
) {
    let mut state = state_with_class(TEST_CLASS_HASH, TEST_SELECTOR, 0);
    let call = call_to(TEST_SELECTOR, calldata);
    let mut ctx =
        initialize_execution_context(&call, ClassHash(TEST_CLASS_HASH), &state, N_BUILTINS)
            .unwrap();
    let (implicit_args, args) = prepare_call_arguments(
        &call,
        &mut ctx.vm,
        ctx.initial_syscall_ptr,
        &mut ctx.syscall_handler.read_only_segments,
    )
    .unwrap();
    run_entry_point(&mut ctx.vm, &mut state, &mut ctx.syscall_handler, ctx.entry_point_pc, &args, run)
        .unwrap();
    (state, ctx, implicit_args)
}

#[test]
fn test_entry_point_with_papyrus_state() {
    // Call an entry point that writes to storage, updating the state store.
    let key: u128 = 1234;
    let value: u128 = 18;
    let mut state = state_with_class(TEST_CLASS_HASH, TEST_SELECTOR, 0);
    let calldata = vec![key, value];
    let entry_point_call = call_to(TEST_SELECTOR, calldata);
    let storage_address = entry_point_call.storage_address;
    let run = ProgramRun {
        syscalls: vec![Syscall::StorageWrite { key, value }],
        retdata: vec![value],
        aborts: false,
    };
    let result = execute_entry_point_call(
        entry_point_call,
        ClassHash(TEST_CLASS_HASH),
        &mut state,
        &run,
        N_BUILTINS,
    )
    .unwrap();
    assert_eq!(result.execution, CallExecution { retdata: Retdata(vec![value]) });

    // Verify that the state has changed.
    let value_from_state = state.get_storage_at(storage_address, key);
    assert_eq!(value_from_state, value);
}

#[test]
fn honest_run_returns_machine_registers_exactly() {
    let run = ProgramRun {
        syscalls: vec![
            Syscall::StorageWrite { key: 5, value: 55 },
            Syscall::StorageRead { key: 5 },
        ],
        retdata: vec![55, 7, 9],
        aborts: false,
    };
    let mut state = state_with_class(TEST_CLASS_HASH, TEST_SELECTOR, 0);
    let result = execute_entry_point_call(
        call_to(TEST_SELECTOR, vec![1, 2]),
        ClassHash(TEST_CLASS_HASH),
        &mut state,
        &run,
        N_BUILTINS,
    )
    .unwrap();
    assert_eq!(result.execution.retdata, Retdata(vec![55, 7, 9]));
    assert!(result.inner_calls.is_empty());
}

#[test]
fn events_and_messages_are_recorded_in_order() {
    let event = Event { keys: vec![1], data: vec![2, 3] };
    let message = MessageToL1 { to_address: 9, payload: vec![4] };
    let run = ProgramRun {
        syscalls: vec![
            Syscall::EmitEvent { event: Event { keys: vec![1], data: vec![2, 3] } },
            Syscall::SendMessageToL1 {
                message: MessageToL1 { to_address: 9, payload: vec![4] },
            },
        ],
        retdata: vec![],
        aborts: false,
    };
    let mut state = state_with_class(TEST_CLASS_HASH, TEST_SELECTOR, 0);
    let result = execute_entry_point_call(
        call_to(TEST_SELECTOR, vec![]),
        ClassHash(TEST_CLASS_HASH),
        &mut state,
        &run,
        N_BUILTINS,
    )
    .unwrap();
    assert_eq!(result.events, vec![event]);
    assert_eq!(result.l2_to_l1_messages, vec![message]);
}

#[test]
fn class_not_found_is_rejected_before_execution() {
    let mut state = StateStore::new();
    let r = execute_entry_point_call(
        call_to(TEST_SELECTOR, vec![]),
        ClassHash(0xdead),
        &mut state,
        &quiet_run(),
        N_BUILTINS,
    );
    assert_eq!(
        r.unwrap_err(),
        EntryPointExecutionError::PreExecutionError(PreExecutionError::ClassNotFound(ClassHash(
            0xdead,
        ))),
    );
}

#[test]
fn unknown_selector_is_rejected() {
    let mut state = state_with_class(TEST_CLASS_HASH, TEST_SELECTOR, 0);
    let r = execute_entry_point_call(
        call_to(0x9999, vec![]),
        ClassHash(TEST_CLASS_HASH),
        &mut state,
        &quiet_run(),
        N_BUILTINS,
    );
    assert_eq!(
        r.unwrap_err(),
        EntryPointExecutionError::PreExecutionError(PreExecutionError::EntryPointNotFound(0x9999)),
    );
}

#[test]
fn ambiguous_selector_is_rejected() {
    let mut state = StateStore::new();
    state.set_contract_class(
        ClassHash(TEST_CLASS_HASH),
        ContractClass {
            entry_points: vec![
                EntryPoint { selector: TEST_SELECTOR, pc: 0 },
                EntryPoint { selector: TEST_SELECTOR, pc: 4 },
            ],
        },
    );
    let r = execute_entry_point_call(
        call_to(TEST_SELECTOR, vec![]),
        ClassHash(TEST_CLASS_HASH),
        &mut state,
        &quiet_run(),
        N_BUILTINS,
    );
    assert_eq!(
        r.unwrap_err(),
        EntryPointExecutionError::PreExecutionError(PreExecutionError::DuplicateEntryPoint(
            TEST_SELECTOR,
        )),
    );
}

#[test]
fn machine_fault_rejects_the_call_and_leaves_state_unchanged() {
    let mut state = state_with_class(TEST_CLASS_HASH, TEST_SELECTOR, 0);
    let faulting = ProgramRun {
        syscalls: vec![Syscall::StorageWrite { key: 1, value: 2 }],
        retdata: vec![],
        aborts: true,
    };
    let r = execute_entry_point_call(
        call_to(TEST_SELECTOR, vec![]),
        ClassHash(TEST_CLASS_HASH),
        &mut state,
        &faulting,
        N_BUILTINS,
    );
    assert_eq!(
        r.unwrap_err(),
        EntryPointExecutionError::VirtualMachineExecutionError(
            VirtualMachineExecutionError::Aborted,
        ),
    );
    assert_eq!(state.get_storage_at(ContractAddress(TEST_ADDRESS), 1), 0);
}

#[test]
fn untampered_run_passes_validation() {
    let run = ProgramRun {
        syscalls: vec![Syscall::StorageWrite { key: 1, value: 2 }],
        retdata: vec![2],
        aborts: false,
    };
    let (_state, ctx, implicit_args) = run_pipeline(&run, vec![1, 2]);
    let end = ctx.vm.get_ap().sub_usize(2).unwrap();
    let r = validate_run(&ctx.vm, &implicit_args, end, &ctx.syscall_handler);
    assert_eq!(r, Ok(()));
}

#[test]
fn altered_implicit_argument_count_fails_validation() {
    // Simulate a program that grew its implicit-argument region.
    let (_state, ctx, mut implicit_args) = run_pipeline(&quiet_run(), vec![]);
    implicit_args.push(MaybeRelocatable::Int(0));
    let end = ctx.vm.get_ap().sub_usize(2).unwrap();
    let r = validate_run(&ctx.vm, &implicit_args, end, &ctx.syscall_handler);
    assert_eq!(
        r,
        Err(PostExecutionError::SecurityValidationError(SecurityCheck::ImplicitArgsSegments)),
    );
}

#[test]
fn shrunk_implicit_argument_count_fails_validation() {
    let (_state, ctx, mut implicit_args) = run_pipeline(&quiet_run(), vec![]);
    implicit_args.pop();
    let end = ctx.vm.get_ap().sub_usize(2).unwrap();
    let r = validate_run(&ctx.vm, &implicit_args, end, &ctx.syscall_handler);
    assert_eq!(
        r,
        Err(PostExecutionError::SecurityValidationError(SecurityCheck::ImplicitArgsSegments)),
    );
}

#[test]
fn relocated_syscall_pointer_fails_validation() {
    // A syscall pointer not at offset zero of its segment is forged.
    let (_state, ctx, mut implicit_args) = run_pipeline(&quiet_run(), vec![]);
    implicit_args[0] = MaybeRelocatable::RelocatableValue(Relocatable {
        segment_index: SYSCALL_SEGMENT,
        offset: 1,
    });
    let end = ctx.vm.get_ap().sub_usize(2).unwrap();
    let r = validate_run(&ctx.vm, &implicit_args, end, &ctx.syscall_handler);
    assert_eq!(
        r,
        Err(PostExecutionError::SecurityValidationError(SecurityCheck::SyscallSegmentStart)),
    );
}

#[test]
fn inconsistent_syscall_end_fails_validation() {
    // Extra traffic in the syscall segment makes its used size disagree
    // with the claimed end pointer.
    let run = ProgramRun {
        syscalls: vec![Syscall::StorageRead { key: 0 }],
        retdata: vec![],
        aborts: false,
    };
    let (_state, mut ctx, implicit_args) = run_pipeline(&run, vec![]);
    ctx.vm.segments[SYSCALL_SEGMENT].cells.push(Some(MaybeRelocatable::Int(0)));
    let end = ctx.vm.get_ap().sub_usize(2).unwrap();
    let r = validate_run(&ctx.vm, &implicit_args, end, &ctx.syscall_handler);
    assert_eq!(
        r,
        Err(PostExecutionError::SecurityValidationError(SecurityCheck::SyscallSegmentSize)),
    );
}

#[test]
fn extra_write_to_read_only_segment_fails_validation() {
    // Calldata of length three, followed by a simulated extra write to the
    // read-only calldata buffer.
    let (_state, mut ctx, implicit_args) = run_pipeline(&quiet_run(), vec![10, 11, 12]);
    ctx.vm.segments[CALLDATA_SEGMENT].cells.push(Some(MaybeRelocatable::Int(0)));
    let end = ctx.vm.get_ap().sub_usize(2).unwrap();
    let r = validate_run(&ctx.vm, &implicit_args, end, &ctx.syscall_handler);
    assert_eq!(
        r,
        Err(PostExecutionError::SecurityValidationError(SecurityCheck::ReadOnlySegments)),
    );
}

#[test]
fn read_only_tampering_rejects_the_whole_call() {
    let (_state, mut ctx, implicit_args) = run_pipeline(&quiet_run(), vec![10, 11, 12]);
    ctx.vm.segments[CALLDATA_SEGMENT].cells.push(Some(MaybeRelocatable::Int(0)));
    let call = call_to(TEST_SELECTOR, vec![10, 11, 12]);
    let r = finalize_execution(ctx.vm, call, ctx.syscall_handler, implicit_args);
    assert_eq!(
        r.unwrap_err(),
        PostExecutionError::SecurityValidationError(SecurityCheck::ReadOnlySegments),
    );
}

// With two builtins and no calldata, the execution segment's final frame
// occupies offsets 6..11: the syscall end pointer at 6, the builtin stop
// pointers at 7 and 8, the return-data length at 9, and the return-data
// pointer at 10. The return-data segment is index 6.
const STOP_POINTER_OFFSET: usize = 8;
const RETDATA_SIZE_OFFSET: usize = 9;
const RETDATA_PTR_OFFSET: usize = 10;
const RETDATA_SEGMENT: usize = 6;

#[test]
fn malformed_builtin_final_stack_fails_validation() {
    let (_state, mut ctx, implicit_args) = run_pipeline(&quiet_run(), vec![]);
    ctx.vm.segments[1].cells[STOP_POINTER_OFFSET] = Some(MaybeRelocatable::Int(0));
    let end = ctx.vm.get_ap().sub_usize(2).unwrap();
    let r = validate_run(&ctx.vm, &implicit_args, end, &ctx.syscall_handler);
    assert_eq!(
        r,
        Err(PostExecutionError::SecurityValidationError(SecurityCheck::BuiltinFinalStack)),
    );
}

#[test]
fn claimed_boundary_disagreeing_with_collaborator_fails_validation() {
    let (_state, mut ctx, implicit_args) = run_pipeline(&quiet_run(), vec![]);
    ctx.syscall_handler.syscall_ptr.offset += 3;
    let end = ctx.vm.get_ap().sub_usize(2).unwrap();
    let r = validate_run(&ctx.vm, &implicit_args, end, &ctx.syscall_handler);
    assert_eq!(
        r,
        Err(PostExecutionError::SecurityValidationError(SecurityCheck::SyscallSegmentEnd)),
    );
}

#[test]
fn oversized_return_data_length_is_rejected() {
    let run = ProgramRun { syscalls: vec![], retdata: vec![1], aborts: false };
    let (_state, mut ctx, implicit_args) = run_pipeline(&run, vec![]);
    ctx.vm.segments[1].cells[RETDATA_SIZE_OFFSET] = Some(MaybeRelocatable::Int(u128::MAX));
    let call = call_to(TEST_SELECTOR, vec![]);
    let r = finalize_execution(ctx.vm, call, ctx.syscall_handler, implicit_args);
    assert_eq!(r.unwrap_err(), PostExecutionError::RetdataSizeOutOfRange(u128::MAX));
}

#[test]
fn return_data_length_past_the_written_range_is_rejected() {
    let run = ProgramRun { syscalls: vec![], retdata: vec![1], aborts: false };
    let (_state, mut ctx, implicit_args) = run_pipeline(&run, vec![]);
    ctx.vm.segments[1].cells[RETDATA_SIZE_OFFSET] = Some(MaybeRelocatable::Int(10));
    let call = call_to(TEST_SELECTOR, vec![]);
    let r = finalize_execution(ctx.vm, call, ctx.syscall_handler, implicit_args);
    assert_eq!(r.unwrap_err(), PostExecutionError::NoneInMemoryRange);
}

#[test]
fn pointer_cell_in_return_data_is_rejected() {
    let run = ProgramRun { syscalls: vec![], retdata: vec![1, 2], aborts: false };
    let (_state, mut ctx, implicit_args) = run_pipeline(&run, vec![]);
    let forged = MaybeRelocatable::RelocatableValue(Relocatable { segment_index: 0, offset: 0 });
    ctx.vm.segments[RETDATA_SEGMENT].cells[1] = Some(forged);
    let call = call_to(TEST_SELECTOR, vec![]);
    let r = finalize_execution(ctx.vm, call, ctx.syscall_handler, implicit_args);
    assert_eq!(r.unwrap_err(), PostExecutionError::ExpectedInteger(forged));
}

#[test]
fn value_cell_as_return_data_pointer_is_rejected() {
    let run = ProgramRun { syscalls: vec![], retdata: vec![1], aborts: false };
    let (_state, mut ctx, implicit_args) = run_pipeline(&run, vec![]);
    ctx.vm.segments[1].cells[RETDATA_PTR_OFFSET] = Some(MaybeRelocatable::Int(3));
    let call = call_to(TEST_SELECTOR, vec![]);
    let r = finalize_execution(ctx.vm, call, ctx.syscall_handler, implicit_args);
    assert!(matches!(r.unwrap_err(), PostExecutionError::MemoryError(_)));
}

#[test]
fn constructor_observes_its_own_binding() {
    // Deployment registers the address-to-class binding before the
    // constructor runs; a constructor querying its own binding sees it in
    // the response cell of its first syscall record.
    let address = ContractAddress(0x500);
    let class = ClassHash(0xabc);
    let mut state = state_with_class(0xabc, CONSTRUCTOR_ENTRY_POINT_SELECTOR, 0);
    state.set_class_hash_at(address, class);
    let run = ProgramRun {
        syscalls: vec![Syscall::GetClassHashAt { address }],
        retdata: vec![],
        aborts: false,
    };
    let call = CallEntryPoint {
        entry_point_selector: CONSTRUCTOR_ENTRY_POINT_SELECTOR,
        calldata: vec![],
        storage_address: address,
        caller_address: ContractAddress(1),
    };
    let mut ctx = initialize_execution_context(&call, class, &state, N_BUILTINS).unwrap();
    let (_implicit_args, args) = prepare_call_arguments(
        &call,
        &mut ctx.vm,
        ctx.initial_syscall_ptr,
        &mut ctx.syscall_handler.read_only_segments,
    )
    .unwrap();
    run_entry_point(&mut ctx.vm, &mut state, &mut ctx.syscall_handler, ctx.entry_point_pc, &args, &run)
        .unwrap();
    let response = ctx.vm.get_maybe(Relocatable { segment_index: SYSCALL_SEGMENT, offset: 2 });
    assert_eq!(response, Some(MaybeRelocatable::Int(0xabc)));
}

#[test]
fn deployment_binds_the_address_and_runs_the_constructor() {
    let address = ContractAddress(0x600);
    let class = ClassHash(0xabc);
    let mut state = state_with_class(0xabc, CONSTRUCTOR_ENTRY_POINT_SELECTOR, 0);
    let run = ProgramRun {
        syscalls: vec![Syscall::GetClassHashAt { address }],
        retdata: vec![0xabc],
        aborts: false,
    };
    let info = execute_deployment(
        &mut state,
        class,
        address,
        ContractAddress(1),
        vec![],
        &run,
        N_BUILTINS,
    )
    .unwrap();
    assert_eq!(state.get_class_hash_at(address), class);
    assert_eq!(info.call.storage_address, address);
    assert_eq!(info.call.caller_address, ContractAddress(1));
    assert_eq!(info.execution.retdata, Retdata(vec![0xabc]));
}

#[test]
fn storage_reads_observe_earlier_writes_in_the_same_run() {
    let run = ProgramRun {
        syscalls: vec![
            Syscall::StorageWrite { key: 77, value: 8 },
            Syscall::StorageRead { key: 77 },
        ],
        retdata: vec![],
        aborts: false,
    };
    let (_state, ctx, _implicit_args) = run_pipeline(&run, vec![]);
    // The second syscall record's response cell holds the value the first
    // record wrote.
    let response = ctx.vm.get_maybe(Relocatable { segment_index: SYSCALL_SEGMENT, offset: 5 });
    assert_eq!(response, Some(MaybeRelocatable::Int(8)));
}

#[test]
fn nested_call_results_are_carried_into_the_result_record() {
    // A nested call's completed record, handed back synchronously through
    // the syscall collaborator, appears in the parent's result record.
    let inner_run = ProgramRun { syscalls: vec![], retdata: vec![3], aborts: false };
    let mut inner_state = state_with_class(TEST_CLASS_HASH, TEST_SELECTOR, 0);
    let inner_info = execute_entry_point_call(
        call_to(TEST_SELECTOR, vec![]),
        ClassHash(TEST_CLASS_HASH),
        &mut inner_state,
        &inner_run,
        N_BUILTINS,
    )
    .unwrap();

    let (_state, mut ctx, implicit_args) = run_pipeline(&quiet_run(), vec![]);
    ctx.syscall_handler.record_inner_call(inner_info);
    let call = call_to(TEST_SELECTOR, vec![]);
    let parent = finalize_execution(ctx.vm, call, ctx.syscall_handler, implicit_args).unwrap();
    assert_eq!(parent.inner_calls.len(), 1);
    assert_eq!(parent.inner_calls[0].execution, CallExecution { retdata: Retdata(vec![3]) });
}

#[test]
fn decoding_a_value_cell_succeeds() {
    assert_eq!(get_felt_from_memory_cell(Some(MaybeRelocatable::Int(42))), Ok(42));
}

#[test]
fn decoding_a_pointer_cell_fails() {
    let cell = MaybeRelocatable::RelocatableValue(Relocatable { segment_index: 1, offset: 0 });
    assert_eq!(
        get_felt_from_memory_cell(Some(cell)),
        Err(PostExecutionError::ExpectedInteger(cell)),
    );
}

#[test]
fn decoding_an_unset_cell_fails() {
    assert_eq!(get_felt_from_memory_cell(None), Err(PostExecutionError::NoneInMemoryRange));
}
