use std::collections::HashSet;

use fuzzcheck::ast::AST;
use fuzzcheck::integer::{
    binary_search_arbitrary, I16Mutator, I32Mutator, I64Mutator, I8Mutator, U16Mutator,
    U32Mutator, U64Mutator, U8Mutator,
};
use fuzzcheck::mutator::Mutator;
use fuzzcheck::recursive::RecursiveMutator;
use fuzzcheck::serializers::{ByteSerializer, JsonSerializer};

#[test]
fn binary_search_arbitrary_first_values() {
    assert_eq!(binary_search_arbitrary(0, 255, 0), 127);
    assert_eq!(binary_search_arbitrary(0, 255, 1), 191);
    assert_eq!(binary_search_arbitrary(0, 255, 2), 63);
    assert_eq!(binary_search_arbitrary(7, 7, 0), 7);
    assert_eq!(binary_search_arbitrary(4, 5, 0), 5);
    assert_eq!(binary_search_arbitrary(4, 5, 1), 4);
}

#[test]
fn binary_search_arbitrary_is_permutation() {
    let mut seen = HashSet::new();
    for step in 0..256u64 {
        let v = binary_search_arbitrary(0, 255, step);
        assert!(seen.insert(v), "value {} repeated at step {}", v, step);
    }
    assert_eq!(seen.len(), 256);
}

#[test]
fn u8_ordered_arbitrary_enumerates_all_bytes_then_stops() {
    let m = U8Mutator::default();
    let mut step: u64 = 0;
    let mut seen = HashSet::new();
    for _ in 0..256 {
        let (v, cplx) = m.ordered_arbitrary(&mut step, u64::MAX).unwrap();
        assert_eq!(cplx, 8);
        assert!(seen.insert(v));
    }
    assert_eq!(seen.len(), 256);
    assert!(m.ordered_arbitrary(&mut step, u64::MAX).is_none());
}

#[test]
fn u8_ordered_mutate_nudges_around_the_value() {
    let m = U8Mutator::default();
    let mut v: u8 = 100;
    let mut cache = ();
    let mut step: u64 = 0;
    let mut produced = Vec::new();
    for _ in 0..8 {
        let (token, cplx) = m.ordered_mutate(&mut v, &mut cache, &mut step, u64::MAX).unwrap();
        assert_eq!(cplx, 8);
        produced.push(v);
        m.unmutate(&mut v, &mut cache, token);
        assert_eq!(v, 100);
    }
    assert_eq!(produced, vec![101, 99, 102, 98, 103, 97, 104, 96]);
}

#[test]
fn u8_unmutate_restores_value_and_cache() {
    let m = U8Mutator::default();
    for start in [0u8, 1, 99, 255] {
        let mut v = start;
        let mut cache = ();
        let mut step: u64 = 0;
        for _ in 0..20 {
            if let Some((token, _)) = m.ordered_mutate(&mut v, &mut cache, &mut step, u64::MAX) {
                m.unmutate(&mut v, &mut cache, token);
                assert_eq!(v, start);
            }
        }
        let (token, _) = m.random_mutate(&mut v, &mut cache, u64::MAX);
        m.unmutate(&mut v, &mut cache, token);
        assert_eq!(v, start);
    }
}

#[test]
fn u8_complexity_is_within_bounds() {
    let m = U8Mutator::default();
    let cache = ();
    for v in [0u8, 100, 255] {
        let c = m.complexity(&v, &cache);
        assert!(m.min_complexity() <= c && c <= m.max_complexity());
        assert_eq!(c, 8);
    }
}

#[test]
fn u64_mutator_mutate_and_unmutate() {
    let m = U64Mutator::default();
    let mut v: u64 = 1_000_000;
    let mut cache = ();
    let mut step: u64 = 0;
    let mut produced = Vec::new();
    for _ in 0..8 {
        let (token, _) = m.ordered_mutate(&mut v, &mut cache, &mut step, u64::MAX).unwrap();
        produced.push(v);
        m.unmutate(&mut v, &mut cache, token);
        assert_eq!(v, 1_000_000);
    }
    assert_eq!(
        produced,
        vec![1_000_001, 999_999, 1_000_002, 999_998, 1_000_003, 999_997, 1_000_004, 999_996],
    );
    let mut s0: u64 = 0;
    let (first, cplx) = m.ordered_arbitrary(&mut s0, u64::MAX).unwrap();
    assert_eq!(cplx, 8);
    assert_eq!(s0, 1);
    // The enumeration is deterministic: a fresh cursor gives the same value.
    let mut s1: u64 = 0;
    let (again, _) = m.ordered_arbitrary(&mut s1, u64::MAX).unwrap();
    assert_eq!(first, again);
}

#[test]
fn u16_and_u32_mutators_nudge_and_restore() {
    let m16 = U16Mutator::default();
    let mut v16: u16 = 5000;
    let mut cache = ();
    let mut step: u64 = 0;
    let mut produced = Vec::new();
    for _ in 0..4 {
        let (token, _) = m16.ordered_mutate(&mut v16, &mut cache, &mut step, u64::MAX).unwrap();
        produced.push(v16);
        m16.unmutate(&mut v16, &mut cache, token);
        assert_eq!(v16, 5000);
    }
    assert_eq!(produced, vec![5001, 4999, 5002, 4998]);

    let m32 = U32Mutator::default();
    let mut v32: u32 = 70_000;
    let mut step32: u64 = 0;
    let (token, _) = m32.ordered_mutate(&mut v32, &mut cache, &mut step32, u64::MAX).unwrap();
    assert_eq!(v32, 70_001);
    m32.unmutate(&mut v32, &mut cache, token);
    assert_eq!(v32, 70_000);
    let (r, _) = m32.random_mutate(&mut v32, &mut cache, u64::MAX);
    m32.unmutate(&mut v32, &mut cache, r);
    assert_eq!(v32, 70_000);
}

#[test]
fn u16_enumeration_starts_from_the_shuffled_table() {
    let m = U16Mutator::default();
    let mut step: u64 = 0;
    // Step 0: high byte from table[0] = 127, low byte from
    // table[0 ^ 127] = table[127].
    let (v, _) = m.ordered_arbitrary(&mut step, u64::MAX).unwrap();
    let low = binary_search_arbitrary(0, 255, 127) as u16;
    assert_eq!(v, (127 << 8) | low);
}

#[test]
fn signed_mutators_nudge_and_wrap() {
    let m = I8Mutator::default();
    let mut v: i8 = -3;
    let mut cache = ();
    let mut step: u64 = 0;
    let mut produced = Vec::new();
    for _ in 0..4 {
        let (token, _) = m.ordered_mutate(&mut v, &mut cache, &mut step, u64::MAX).unwrap();
        produced.push(v);
        m.unmutate(&mut v, &mut cache, token);
        assert_eq!(v, -3);
    }
    assert_eq!(produced, vec![-2, -4, -1, -5]);
    // The nudges wrap around at the edges of the range.
    let mut edge: i8 = i8::MAX;
    let mut step_edge: u64 = 0;
    let (token, _) = m.ordered_mutate(&mut edge, &mut cache, &mut step_edge, u64::MAX).unwrap();
    assert_eq!(edge, i8::MIN);
    m.unmutate(&mut edge, &mut cache, token);
    assert_eq!(edge, i8::MAX);

    let m16 = I16Mutator::default();
    let mut v16: i16 = 0;
    let mut s16: u64 = 0;
    let (t, _) = m16.ordered_mutate(&mut v16, &mut cache, &mut s16, u64::MAX).unwrap();
    assert_eq!(v16, 1);
    m16.unmutate(&mut v16, &mut cache, t);

    let m32 = I32Mutator::default();
    let mut v32: i32 = -1000;
    let mut s32: u64 = 1;
    let (t, _) = m32.ordered_mutate(&mut v32, &mut cache, &mut s32, u64::MAX).unwrap();
    assert_eq!(v32, -1001);
    m32.unmutate(&mut v32, &mut cache, t);

    let m64 = I64Mutator::default();
    let mut v64: i64 = 1;
    let mut s64: u64 = 0;
    let (t, _) = m64.ordered_mutate(&mut v64, &mut cache, &mut s64, u64::MAX).unwrap();
    assert_eq!(v64, 2);
    m64.unmutate(&mut v64, &mut cache, t);
    assert_eq!(v64, 1);
}

#[test]
fn i8_ordered_arbitrary_enumerates_all_values_then_stops() {
    let m = I8Mutator::default();
    let mut step: u64 = 0;
    let mut seen = HashSet::new();
    for _ in 0..256 {
        let (v, _) = m.ordered_arbitrary(&mut step, u64::MAX).unwrap();
        assert!(seen.insert(v));
    }
    assert_eq!(seen.len(), 256);
    assert!(m.ordered_arbitrary(&mut step, u64::MAX).is_none());
}

#[test]
fn recursive_mutator_delegates_and_restores() {
    let mut handle = None;
    let rm = RecursiveMutator::new(|back| {
        handle = Some(back);
        U8Mutator::default()
    });
    let mut v: u8 = 42;
    let mut cache = rm.validate_value(&v).unwrap();
    let mut step = rm.default_mutation_step(&v, &cache);
    for _ in 0..12 {
        if let Some((token, _)) = rm.ordered_mutate(&mut v, &mut cache, &mut step, u64::MAX) {
            rm.unmutate(&mut v, &mut cache, token);
            assert_eq!(v, 42);
        }
    }
    let (token, _) = rm.random_mutate(&mut v, &mut cache, u64::MAX);
    rm.unmutate(&mut v, &mut cache, token);
    assert_eq!(v, 42);
    assert_eq!(rm.min_complexity(), 8);
    assert_eq!(rm.max_complexity(), 8);
}

#[test]
fn recur_to_mutator_reaches_its_target() {
    let mut handle = None;
    let rm = RecursiveMutator::new(|back| {
        handle = Some(back);
        U8Mutator::default()
    });
    let back = handle.unwrap();
    // The back-reference is alive and answers like the target.
    assert!(back.validate_value(&7u8).is_some());
    assert_eq!(back.min_complexity::<u8>(), 8);
    assert_eq!(back.max_complexity(), u64::MAX);
    let value: u8 = 7;
    let mut index = back.default_recursing_part_index();
    assert_eq!(index, false);
    // The whole value is a recursing part of itself under the very
    // mutator the back-reference points to.
    let part: Option<&u8> = back.recursing_part::<u8, u8, RecursiveMutator<U8Mutator>>(
        &rm,
        &value,
        &mut index,
    );
    assert_eq!(part, Some(&7u8));
    assert_eq!(index, true);
    // The single position is exhausted after one visit.
    let part2: Option<&u8> = back.recursing_part::<u8, u8, RecursiveMutator<U8Mutator>>(
        &rm,
        &value,
        &mut index,
    );
    assert_eq!(part2, None);
    // A different mutator of the same shape is not the recursion target.
    let other = RecursiveMutator::new(|_back| U8Mutator::default());
    let mut index3 = false;
    let part3: Option<&u8> = back.recursing_part::<u8, u8, RecursiveMutator<U8Mutator>>(
        &other,
        &value,
        &mut index3,
    );
    assert_eq!(part3, None);
}

#[test]
fn recur_to_mutator_fails_soft_once_the_target_is_gone() {
    let mut handle = None;
    {
        let _rm = RecursiveMutator::new(|back| {
            handle = Some(back);
            U8Mutator::default()
        });
    }
    let back = handle.unwrap();
    assert!(back.validate_value(&7u8).is_none());
    assert_eq!(back.min_complexity::<u8>(), 1);
    let mut v: u8 = 9;
    let mut cache = ();
    let mut step: u64 = 0;
    assert!(back.ordered_mutate(&mut v, &mut cache, &mut step, u64::MAX).is_none());
    assert_eq!(v, 9);
}

#[test]
fn ast_renders_its_tokens_in_order() {
    let ast = AST::Sequence(vec![
        AST::Token('h'),
        AST::Box(Box::new(AST::Token('e'))),
        AST::Sequence(vec![AST::Token('l'), AST::Token('l')]),
        AST::Token('o'),
    ]);
    assert_eq!(ast.to_string(), "hello");
    assert_eq!(AST::Token('x').to_string(), "x");
    assert_eq!(AST::Sequence(vec![]).to_string(), "");
}

#[test]
fn byte_serializer_round_trips() {
    let s = ByteSerializer::new("bin");
    assert_eq!(s.extension(), "bin");
    assert!(!s.is_utf8());
    for v in [vec![], vec![0u8], vec![1, 2, 3, 255]] {
        let data = s.to_data(&v);
        assert_eq!(s.from_data(&data), Some(v));
    }
}

#[test]
fn json_serializer_round_trips_numbers() {
    let s: JsonSerializer<u64> = JsonSerializer::default();
    assert!(s.is_utf8());
    assert_eq!(s.extension(), "json");
    for v in [0u64, 7, 123_456_789] {
        let data = s.to_data(&v);
        // The encoded form is JSON text, not the raw value.
        assert!(!data.is_empty());
        assert_eq!(s.from_data(&data), Some(v));
    }
    assert_eq!(s.from_data(b"not json"), None);
}
