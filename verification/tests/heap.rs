//! The heap: sizes, interning, marking and sweeping.

use myula::backend::vm::heap::{
    Heap, FUNCTION_HEADER_SIZE, HARD_MEMORY_LIMIT, OPCODE_SIZE, STRING_HEADER_SIZE,
    TABLE_ENTRY_SIZE, TABLE_HEADER_SIZE, UPVALUE_HEADER_SIZE, VALUE_SIZE, VM_THRESHOLD,
};
use myula::common::object::{
    LFunction, LuaObject, LuaTable, LuaUpValue, LuaUpValueState, LuaValue, ObjectKind,
};
use myula::common::opcode::OpCode;

fn number(x: f64) -> LuaValue {
    LuaValue::Number(x.to_bits())
}

fn table_of(entries: Vec<(LuaValue, LuaValue)>) -> LuaTable {
    LuaTable { data: entries, metatable: None }
}

fn function_of(constants: Vec<LuaValue>, upvalues: Vec<usize>) -> LFunction {
    LFunction {
        name: "f".to_string(),
        opcodes: vec![OpCode::Halt, OpCode::Halt, OpCode::Halt],
        constants,
        upvalues,
        num_locals: 0,
        max_stack_size: 2,
    }
}

fn sum_of_sizes(heap: &Heap) -> usize {
    heap.all_objects.iter().flatten().map(|o| o.size).sum()
}

fn live(heap: &Heap) -> usize {
    heap.all_objects.iter().flatten().count()
}

#[test]
fn a_new_heap_is_empty() {
    let heap = Heap::new();
    assert_eq!(heap.all_objects.len(), 0);
    assert_eq!(heap.string_pool.len(), 0);
    assert_eq!(heap.total_allocated, 0);
    assert_eq!(heap.max_allocated, 0);
    assert_eq!(heap.threshold, VM_THRESHOLD);
    assert_eq!(VM_THRESHOLD, 1024 * 1024);
    assert_eq!(HARD_MEMORY_LIMIT, 512 * 1024 * 1024);
    assert!(!heap.check_gc_condition());
}

#[test]
fn a_string_counts_its_header_and_its_bytes() {
    let mut heap = Heap::new();
    let h = heap.alloc_string("hello".to_string()).unwrap();
    assert_eq!(heap.total_allocated, STRING_HEADER_SIZE + 5);
    assert_eq!(heap.all_objects[h].as_ref().unwrap().size, STRING_HEADER_SIZE + 5);
    assert_eq!(heap.all_objects[h].as_ref().unwrap().kind, ObjectKind::String);
    assert_eq!(heap.string_of(h), Some("hello".to_string()));
    assert_eq!(heap.string_len(h), Some(5));
    let e = heap.alloc_string("\u{e9}".to_string()).unwrap();
    assert_eq!(heap.all_objects[e].as_ref().unwrap().size, STRING_HEADER_SIZE + 2);
    assert_eq!(heap.string_len(e), Some(2));
    let empty = heap.alloc_string(String::new()).unwrap();
    assert_eq!(heap.all_objects[empty].as_ref().unwrap().size, STRING_HEADER_SIZE);
    assert_eq!(heap.total_allocated, 3 * STRING_HEADER_SIZE + 7);
}

#[test]
fn equal_texts_are_interned_once() {
    let mut heap = Heap::new();
    let a = heap.alloc_string("same".to_string()).unwrap();
    let size = heap.total_allocated;
    let b = heap.alloc_string("same".to_string()).unwrap();
    assert_eq!(a, b);
    assert_eq!(heap.total_allocated, size);
    assert_eq!(heap.all_objects.len(), 1);
    assert_eq!(heap.string_pool.len(), 1);
    let c = heap.alloc_string("other".to_string()).unwrap();
    assert_ne!(a, c);
    assert_eq!(heap.string_pool.len(), 2);
    assert_eq!(heap.find_interned(&"same".to_string()), Some(a));
    assert_eq!(heap.find_interned(&"other".to_string()), Some(c));
    assert_eq!(heap.find_interned(&"absent".to_string()), None);
}

#[test]
fn no_text_is_interned_twice_after_many_allocations() {
    let mut heap = Heap::new();
    for round in 0..3 {
        for i in 0..50 {
            heap.alloc_string(format!("s{}", (i * 7 + round) % 40)).unwrap();
        }
    }
    let mut texts: Vec<&String> = heap.string_pool.iter().map(|e| &e.0).collect();
    let n = texts.len();
    texts.sort();
    texts.dedup();
    assert_eq!(texts.len(), n);
    assert_eq!(n, 40);
    for (text, h) in &heap.string_pool {
        assert_eq!(heap.string_of(*h).as_ref(), Some(text));
    }
}

#[test]
fn a_table_counts_its_header_and_its_entries() {
    let mut heap = Heap::new();
    let empty = heap.alloc_table(table_of(vec![])).unwrap();
    assert_eq!(heap.all_objects[empty].as_ref().unwrap().size, TABLE_HEADER_SIZE);
    let three = heap
        .alloc_table(table_of(vec![
            (number(1.0), number(10.0)),
            (number(2.0), number(20.0)),
            (number(3.0), number(30.0)),
        ]))
        .unwrap();
    assert_eq!(
        heap.all_objects[three].as_ref().unwrap().size,
        TABLE_HEADER_SIZE + 3 * TABLE_ENTRY_SIZE
    );
    assert_eq!(heap.all_objects[three].as_ref().unwrap().kind, ObjectKind::Table);
    assert_eq!(heap.total_allocated, 2 * TABLE_HEADER_SIZE + 3 * TABLE_ENTRY_SIZE);
    assert_eq!(heap.table_len(three), Some(3));
    assert_eq!(heap.table_len(empty), Some(0));
}

#[test]
fn a_function_counts_its_header_its_code_and_its_constants() {
    let mut heap = Heap::new();
    let h = heap.alloc_function(function_of(vec![number(1.0), LuaValue::Nil], vec![])).unwrap();
    assert_eq!(
        heap.all_objects[h].as_ref().unwrap().size,
        FUNCTION_HEADER_SIZE + 3 * OPCODE_SIZE + 2 * VALUE_SIZE
    );
    assert_eq!(heap.all_objects[h].as_ref().unwrap().kind, ObjectKind::Function);
    let (name, upvalues) = heap.function_info(h).unwrap();
    assert_eq!(name, "f");
    assert!(upvalues.is_empty());
}

#[test]
fn an_upvalue_counts_its_header() {
    let mut heap = Heap::new();
    let h = heap
        .alloc_upvalue_object(LuaUpValue { value: LuaUpValueState::Open(3) })
        .unwrap();
    assert_eq!(heap.total_allocated, UPVALUE_HEADER_SIZE);
    assert_eq!(heap.all_objects[h].as_ref().unwrap().kind, ObjectKind::UpValue);
    assert!(matches!(heap.upvalue_state(h), Some(LuaUpValueState::Open(3))));
    assert!(heap.upvalue_close(h, number(42.0)));
    match heap.upvalue_state(h) {
        Some(LuaUpValueState::Closed(v)) => assert_eq!(v, number(42.0)),
        other => panic!("{:?}", other),
    }
    assert_eq!(heap.total_allocated, UPVALUE_HEADER_SIZE);
}

#[test]
fn handles_count_up_from_zero() {
    let mut heap = Heap::new();
    assert_eq!(heap.alloc_string("a".to_string()), Some(0));
    assert_eq!(heap.alloc_table(table_of(vec![])), Some(1));
    assert_eq!(heap.alloc_string("b".to_string()), Some(2));
    assert_eq!(heap.alloc_string("a".to_string()), Some(0));
}

#[test]
fn accessors_refuse_objects_of_another_kind() {
    let mut heap = Heap::new();
    let s = heap.alloc_string("a".to_string()).unwrap();
    let t = heap.alloc_table(table_of(vec![])).unwrap();
    assert_eq!(heap.string_of(t), None);
    assert_eq!(heap.string_of(99), None);
    assert_eq!(heap.table_len(s), None);
    assert_eq!(heap.table_get(s, &number(1.0)), None);
    assert!(!heap.table_put(s, number(1.0), number(2.0)));
    assert!(heap.upvalue_state(s).is_none());
    assert!(!heap.upvalue_close(t, LuaValue::Nil));
    assert!(heap.function_info(s).is_none());
}

#[test]
fn a_table_holds_one_value_for_a_key() {
    let mut heap = Heap::new();
    let t = heap.alloc_table(table_of(vec![])).unwrap();
    let k = heap.alloc_string("k".to_string()).unwrap();
    assert_eq!(heap.table_get(t, &number(1.0)), Some(LuaValue::Nil));
    assert!(heap.table_put(t, number(1.0), number(10.0)));
    assert!(heap.table_put(t, LuaValue::String(k), LuaValue::Boolean(true)));
    assert!(heap.table_put(t, number(1.0), number(11.0)));
    assert_eq!(heap.table_len(t), Some(2));
    assert_eq!(heap.table_get(t, &number(1.0)), Some(number(11.0)));
    assert_eq!(heap.table_get(t, &LuaValue::String(k)), Some(LuaValue::Boolean(true)));
    assert_eq!(heap.table_get(t, &number(2.0)), Some(LuaValue::Nil));
    assert_eq!(heap.table_get(t, &LuaValue::Boolean(true)), Some(LuaValue::Nil));
}

#[test]
fn number_keys_are_told_apart_by_their_patterns() {
    let mut heap = Heap::new();
    let t = heap.alloc_table(table_of(vec![])).unwrap();
    assert!(heap.table_put(t, number(0.0), number(1.0)));
    assert!(heap.table_put(t, number(-0.0), number(2.0)));
    assert!(heap.table_put(t, number(f64::NAN), number(3.0)));
    assert!(heap.table_put(t, number(f64::NAN), number(4.0)));
    assert_eq!(heap.table_len(t), Some(3));
    assert_eq!(heap.table_get(t, &number(0.0)), Some(number(1.0)));
    assert_eq!(heap.table_get(t, &number(-0.0)), Some(number(2.0)));
    assert_eq!(heap.table_get(t, &number(f64::NAN)), Some(number(4.0)));
}

#[test]
fn an_allocation_beyond_the_limit_is_refused() {
    let mut heap = Heap::new();
    let big = heap.alloc_raw_object(LuaObject::String("big".to_string()), HARD_MEMORY_LIMIT - 10);
    assert_eq!(big, Some(0));
    assert_eq!(heap.total_allocated, HARD_MEMORY_LIMIT - 10);
    assert_eq!(heap.alloc_string("x".to_string()), None);
    assert_eq!(heap.alloc_table(table_of(vec![])), None);
    assert_eq!(heap.alloc_function(function_of(vec![], vec![])), None);
    assert_eq!(
        heap.alloc_upvalue_object(LuaUpValue { value: LuaUpValueState::Closed(LuaValue::Nil) }),
        None
    );
    assert_eq!(heap.all_objects.len(), 1);
    assert_eq!(heap.string_pool.len(), 0);
    assert_eq!(heap.total_allocated, HARD_MEMORY_LIMIT - 10);
    assert_eq!(heap.alloc_raw_object(LuaObject::String("fits".to_string()), 10), Some(1));
    assert_eq!(heap.total_allocated, HARD_MEMORY_LIMIT);
    assert_eq!(heap.alloc_raw_object(LuaObject::String("one".to_string()), 1), None);
}

#[test]
fn the_threshold_doubles_and_saturates() {
    let mut heap = Heap::new();
    heap.expand_threshold();
    assert_eq!(heap.threshold, 2 * VM_THRESHOLD);
    heap.threshold = usize::MAX / 2 + 1;
    heap.expand_threshold();
    assert_eq!(heap.threshold, usize::MAX);
    heap.expand_threshold();
    assert_eq!(heap.threshold, usize::MAX);
}

#[test]
fn a_collection_is_due_above_the_threshold_only() {
    let mut heap = Heap::new();
    heap.alloc_raw_object(LuaObject::String("a".to_string()), VM_THRESHOLD).unwrap();
    assert!(!heap.check_gc_condition());
    heap.alloc_raw_object(LuaObject::String("b".to_string()), 1).unwrap();
    assert!(heap.check_gc_condition());
}

#[test]
fn the_peak_is_remembered() {
    let mut heap = Heap::new();
    heap.alloc_string("aaaa".to_string()).unwrap();
    heap.alloc_string("bbbb".to_string()).unwrap();
    let peak = heap.total_allocated;
    assert_eq!(heap.max_allocated, peak);
    let freed = heap.collect(vec![]);
    assert_eq!(freed, (2, peak));
    assert_eq!(heap.total_allocated, 0);
    assert_eq!(heap.max_allocated, peak);
}

#[test]
fn a_collection_keeps_what_the_roots_reach() {
    let mut heap = Heap::new();
    let kept_text = heap.alloc_string("kept".to_string()).unwrap();
    let lost_text = heap.alloc_string("lost".to_string()).unwrap();
    let key = heap.alloc_string("key".to_string()).unwrap();
    let inner = heap.alloc_table(table_of(vec![(number(1.0), LuaValue::String(kept_text))])).unwrap();
    let outer = heap
        .alloc_table(table_of(vec![(LuaValue::String(key), LuaValue::Table(inner))]))
        .unwrap();
    let lost_table = heap
        .alloc_table(table_of(vec![(number(1.0), LuaValue::String(lost_text))]))
        .unwrap();
    let before = heap.total_allocated;
    let lost_bytes = heap.all_objects[lost_text].as_ref().unwrap().size
        + heap.all_objects[lost_table].as_ref().unwrap().size;
    let freed = heap.collect(vec![outer]);
    assert_eq!(freed, (2, lost_bytes));
    assert_eq!(heap.total_allocated, before - lost_bytes);
    assert_eq!(heap.total_allocated, sum_of_sizes(&heap));
    assert_eq!(live(&heap), 4);
    assert!(heap.all_objects[lost_text].is_none());
    assert!(heap.all_objects[lost_table].is_none());
    assert_eq!(heap.string_of(kept_text), Some("kept".to_string()));
    assert_eq!(heap.string_of(key), Some("key".to_string()));
    assert_eq!(heap.table_get(outer, &LuaValue::String(key)), Some(LuaValue::Table(inner)));
    assert_eq!(heap.table_get(inner, &number(1.0)), Some(LuaValue::String(kept_text)));
    assert!(heap.all_objects.iter().flatten().all(|o| !o.mark));
}

#[test]
fn a_collection_follows_functions_and_upvalues() {
    let mut heap = Heap::new();
    let constant = heap.alloc_string("constant".to_string()).unwrap();
    let captured = heap.alloc_string("captured".to_string()).unwrap();
    let open = heap.alloc_upvalue_object(LuaUpValue { value: LuaUpValueState::Open(0) }).unwrap();
    let closed = heap
        .alloc_upvalue_object(LuaUpValue {
            value: LuaUpValueState::Closed(LuaValue::String(captured)),
        })
        .unwrap();
    let function = heap
        .alloc_function(function_of(vec![LuaValue::String(constant)], vec![open, closed]))
        .unwrap();
    let stray = heap.alloc_upvalue_object(LuaUpValue { value: LuaUpValueState::Open(1) }).unwrap();
    let freed = heap.collect(vec![function]);
    assert_eq!(freed, (1, UPVALUE_HEADER_SIZE));
    assert!(heap.all_objects[stray].is_none());
    assert_eq!(heap.string_of(constant), Some("constant".to_string()));
    assert_eq!(heap.string_of(captured), Some("captured".to_string()));
    assert!(matches!(heap.upvalue_state(open), Some(LuaUpValueState::Open(0))));
    assert!(matches!(heap.upvalue_state(closed), Some(LuaUpValueState::Closed(_))));
    assert_eq!(heap.total_allocated, sum_of_sizes(&heap));
}

#[test]
fn a_collection_ends_on_a_cycle() {
    let mut heap = Heap::new();
    let a = heap.alloc_table(table_of(vec![])).unwrap();
    let b = heap.alloc_table(table_of(vec![])).unwrap();
    let c = heap.alloc_table(table_of(vec![])).unwrap();
    assert!(heap.table_put(a, number(1.0), LuaValue::Table(b)));
    assert!(heap.table_put(b, number(1.0), LuaValue::Table(a)));
    assert!(heap.table_put(c, number(1.0), LuaValue::Table(c)));
    let freed = heap.collect(vec![a]);
    assert_eq!(freed.0, 1);
    assert!(heap.all_objects[a].is_some());
    assert!(heap.all_objects[b].is_some());
    assert!(heap.all_objects[c].is_none());
}

#[test]
fn roots_that_name_no_object_are_passed_over() {
    let mut heap = Heap::new();
    let a = heap.alloc_string("a".to_string()).unwrap();
    let freed = heap.collect(vec![17, a, a, 99]);
    assert_eq!(freed, (0, 0));
    assert_eq!(heap.string_of(a), Some("a".to_string()));
    let again = heap.collect(vec![17]);
    assert_eq!(again.0, 1);
    let nothing = heap.collect(vec![a]);
    assert_eq!(nothing, (0, 0));
}

#[test]
fn a_freed_text_leaves_the_intern_table() {
    let mut heap = Heap::new();
    let kept = heap.alloc_string("kept".to_string()).unwrap();
    let lost = heap.alloc_string("lost".to_string()).unwrap();
    heap.collect(vec![kept]);
    assert_eq!(heap.string_pool.len(), 1);
    assert_eq!(heap.find_interned(&"lost".to_string()), None);
    assert_eq!(heap.find_interned(&"kept".to_string()), Some(kept));
    let again = heap.alloc_string("lost".to_string()).unwrap();
    assert_ne!(again, lost);
    assert_eq!(heap.string_of(again), Some("lost".to_string()));
    assert_eq!(heap.string_of(lost), None);
    assert_eq!(heap.total_allocated, sum_of_sizes(&heap));
}

#[test]
fn a_sweep_frees_the_unmarked_and_clears_the_marks() {
    let mut heap = Heap::new();
    let a = heap.alloc_string("a".to_string()).unwrap();
    let b = heap.alloc_string("bb".to_string()).unwrap();
    let c = heap.alloc_table(table_of(vec![])).unwrap();
    heap.set_mark(a, true);
    heap.set_mark(c, true);
    let freed = heap.sweep();
    assert_eq!(freed, (1, STRING_HEADER_SIZE + 2));
    assert!(heap.all_objects[b].is_none());
    assert!(!heap.all_objects[a].as_ref().unwrap().mark);
    assert!(!heap.all_objects[c].as_ref().unwrap().mark);
    assert_eq!(heap.total_allocated, STRING_HEADER_SIZE + 1 + TABLE_HEADER_SIZE);
    assert_eq!(heap.total_allocated, sum_of_sizes(&heap));
    assert_eq!(heap.string_pool.len(), 1);
    let all = heap.sweep();
    assert_eq!(all.0, 2);
    assert_eq!(heap.total_allocated, 0);
    assert_eq!(heap.string_pool.len(), 0);
}

#[test]
fn marking_sets_the_mark_of_what_is_reached() {
    let mut heap = Heap::new();
    let text = heap.alloc_string("t".to_string()).unwrap();
    let table = heap.alloc_table(table_of(vec![(LuaValue::String(text), number(1.0))])).unwrap();
    let other = heap.alloc_string("o".to_string()).unwrap();
    heap.mark_from(vec![table]);
    assert!(heap.all_objects[text].as_ref().unwrap().mark);
    assert!(heap.all_objects[table].as_ref().unwrap().mark);
    assert!(!heap.all_objects[other].as_ref().unwrap().mark);
    assert_eq!(heap.total_allocated, sum_of_sizes(&heap));
}

#[test]
fn the_total_is_the_sum_of_the_sizes_through_allocations_and_collections() {
    let mut heap = Heap::new();
    let mut keep: Vec<usize> = Vec::new();
    for round in 0..20usize {
        for i in 0..30usize {
            let text = heap.alloc_string(format!("r{}i{}", round, i)).unwrap();
            let table = heap
                .alloc_table(table_of(vec![(number(i as f64), LuaValue::String(text))]))
                .unwrap();
            if i % 10 == 0 {
                keep.push(table);
            }
            assert_eq!(heap.total_allocated, sum_of_sizes(&heap));
        }
        if round % 2 == 1 {
            keep.truncate(keep.len() / 2);
        }
        let before = heap.total_allocated;
        let count = live(&heap);
        let (objects, bytes) = heap.collect(keep.clone());
        assert_eq!(heap.total_allocated + bytes, before);
        assert_eq!(live(&heap) + objects, count);
        assert_eq!(heap.total_allocated, sum_of_sizes(&heap));
        assert_eq!(live(&heap), 2 * keep.len());
        for t in &keep {
            assert_eq!(heap.table_len(*t), Some(1));
        }
        for (text, h) in &heap.string_pool {
            assert_eq!(heap.string_of(*h).as_ref(), Some(text));
        }
    }
}
