use blockifier::machine::VirtualMachine;
use blockifier::memory::MaybeRelocatable;
use blockifier::memory::Relocatable;
use blockifier::state::ClassHash;
use blockifier::state::ContractAddress;
use blockifier::state::ContractClass;
use blockifier::state::EntryPoint;
use blockifier::state::StateStore;

#[test]
fn unwritten_storage_reads_as_zero() {
    let state = StateStore::new();
    assert_eq!(state.get_storage_at(ContractAddress(5), 77), 0);
    assert_eq!(state.get_class_hash_at(ContractAddress(5)), ClassHash(0));
}

#[test]
fn latest_storage_write_wins() {
    let mut state = StateStore::new();
    let address = ContractAddress(5);
    state.set_storage_at(address, 77, 1);
    state.set_storage_at(address, 77, 2);
    state.set_storage_at(address, 78, 9);
    assert_eq!(state.get_storage_at(address, 77), 2);
    assert_eq!(state.get_storage_at(address, 78), 9);
    assert_eq!(state.get_storage_at(ContractAddress(6), 77), 0);
}

#[test]
fn latest_deployment_binding_wins() {
    let mut state = StateStore::new();
    let address = ContractAddress(40);
    state.set_class_hash_at(address, ClassHash(1));
    state.set_class_hash_at(address, ClassHash(2));
    assert_eq!(state.get_class_hash_at(address), ClassHash(2));
}

#[test]
fn missing_class_is_reported() {
    let state = StateStore::new();
    assert!(state.get_contract_class(&ClassHash(3)).is_err());
}

#[test]
fn declared_class_is_resolved() {
    let mut state = StateStore::new();
    let class = ContractClass { entry_points: vec![EntryPoint { selector: 1, pc: 2 }] };
    state.set_contract_class(ClassHash(3), class);
    let resolved = state.get_contract_class(&ClassHash(3)).unwrap();
    assert_eq!(resolved.entry_points, vec![EntryPoint { selector: 1, pc: 2 }]);
}

#[test]
fn fresh_machine_has_a_segment_per_builtin() {
    let vm = VirtualMachine::new(3);
    assert_eq!(vm.segments.len(), 5);
    assert_eq!(vm.builtins.len(), 3);
    assert_eq!(vm.builtins[0].segment_index, 2);
    assert_eq!(vm.builtins[2].segment_index, 4);
    assert_eq!(vm.get_ap(), Relocatable { segment_index: 1, offset: 0 });
}

#[test]
fn load_data_appends_at_the_used_end() {
    let mut vm = VirtualMachine::new(0);
    let start = vm.add_memory_segment();
    let data = vec![MaybeRelocatable::Int(4), MaybeRelocatable::Int(5)];
    vm.load_data(start, &data).unwrap();
    assert_eq!(vm.get_segment_used_size(start.segment_index), Some(2));
    assert_eq!(
        vm.get_maybe(Relocatable { segment_index: start.segment_index, offset: 1 }),
        Some(MaybeRelocatable::Int(5)),
    );
}

#[test]
fn load_data_rejects_a_hole() {
    let mut vm = VirtualMachine::new(0);
    let start = vm.add_memory_segment();
    let past_the_end = Relocatable { segment_index: start.segment_index, offset: 3 };
    assert!(vm.load_data(past_the_end, &vec![MaybeRelocatable::Int(1)]).is_err());
}

#[test]
fn unset_and_out_of_range_cells_read_as_none() {
    let vm = VirtualMachine::new(0);
    assert_eq!(vm.get_maybe(Relocatable { segment_index: 1, offset: 0 }), None);
    assert_eq!(vm.get_maybe(Relocatable { segment_index: 9, offset: 0 }), None);
}
