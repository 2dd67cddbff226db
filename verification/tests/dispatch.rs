use bump_arena::dispatch::{
    provision, COUNTER_BINDING_SLOT, DEFAULT_HEAP_SIZE_BYTES, HEAP_BINDING_SLOT, TIMESTAMP_COUNT,
};
use bump_arena::readback::decode_word_le;

#[test]
fn provisioning_sizes_both_resources() {
    let plan = provision(8192);
    assert_eq!(plan.heap_size_bytes, 32768);
    assert_eq!(plan.counter_size_bytes, 4);
    assert_eq!(plan.counter_init.len(), 4);
    assert_eq!(decode_word_le(&plan.counter_init), 8192);
}

#[test]
fn binding_contract_is_fixed() {
    assert_eq!(HEAP_BINDING_SLOT, 0);
    assert_eq!(COUNTER_BINDING_SLOT, 1);
    assert_eq!(TIMESTAMP_COUNT, 2);
    assert_eq!(DEFAULT_HEAP_SIZE_BYTES, 32 * 1024);
}
