use graph_core::asc::{
    AscBad, AscBadFixed, AscHeap, AscPtr, Bad, BadFixed, DeterministicHostError, GasCounter,
    IndexForAscTypeId, ASC_BAD_FIXED_SIZE, ASC_BAD_SIZE,
};

#[test]
fn manual_padding_should_fail() {
    let parm = Bad { nonce: i64::MAX as u64, str_suff: "suff".to_string(), tail: i64::MAX as u64 };
    let mut heap = AscHeap::new();
    let mut gas = GasCounter::new(1000);
    let obj = parm.to_asc_obj(&mut heap, &mut gas).unwrap();
    assert_eq!(obj.nonce, i64::MAX as u64);
    assert_eq!(obj.tail, i64::MAX as u64);
    assert_eq!(obj.str_suff, AscPtr { offset: 0 });
    let res = obj.to_asc_bytes();
    assert_eq!(
        res,
        Err(DeterministicHostError::PaddingMismatch { encoded: 20, expected: ASC_BAD_SIZE })
    );
}

#[test]
fn manual_padding_manualy_fixed_ok() {
    let parm =
        BadFixed { nonce: i64::MAX as u64, str_suff: "suff".to_string(), tail: i64::MAX as u64 };
    let mut heap = AscHeap::new();
    let mut gas = GasCounter::new(1000);
    let obj = parm.to_asc_obj(&mut heap, &mut gas).unwrap();
    assert_eq!(obj._padding, 0);
    assert_eq!(obj.str_suff, AscPtr { offset: 0 });
    assert_eq!(heap.memory, vec![4, 0, 0, 0, b's', b'u', b'f', b'f']);
    assert_eq!(gas.used, 8);
    let bytes = obj.to_asc_bytes().unwrap();
    assert_eq!(bytes.len(), ASC_BAD_FIXED_SIZE);
    assert_eq!(
        bytes,
        vec![
            0xff, 0xff, 0xff, 0xff, 0xff, 0xff, 0xff, 0x7f, 0, 0, 0, 0, 0, 0, 0, 0, 0xff, 0xff,
            0xff, 0xff, 0xff, 0xff, 0xff, 0x7f
        ]
    );
}

#[test]
fn encoded_size_matches_guest_size() {
    let fixed = AscBadFixed { nonce: 1, str_suff: AscPtr { offset: 0x0102_0304 }, _padding: 0, tail: 2 };
    let bytes = fixed.to_asc_bytes().unwrap();
    assert_eq!(bytes.len(), 24);
    assert_eq!(&bytes[8..12], &[4, 3, 2, 1]);
    let bad = AscBad { nonce: 1, str_suff: AscPtr { offset: 8 }, tail: 2 };
    assert!(bad.to_asc_bytes().is_err());
}

#[test]
fn type_ids_are_declared() {
    assert_eq!(AscBad::index_asc_type_id(), IndexForAscTypeId::UnitTestNetworkUnitTestTypeBool);
    assert_eq!(AscBadFixed::index_asc_type_id(), IndexForAscTypeId::UnitTestNetworkUnitTestTypeBool);
}

#[test]
fn heap_writes_length_header_and_payload() {
    let mut heap = AscHeap::new();
    let mut gas = GasCounter::new(100);
    let p = heap.asc_new_string("suff", &mut gas).unwrap();
    assert_eq!(p.offset, 0);
    assert_eq!(heap.memory, vec![4, 0, 0, 0, b's', b'u', b'f', b'f']);
    assert_eq!(gas.used, 8);
    let q = heap.asc_new_string("ab", &mut gas).unwrap();
    assert_eq!(q.offset, 8);
    assert_eq!(gas.used, 14);
}

#[test]
fn gas_exhaustion_leaves_heap_unchanged() {
    let mut heap = AscHeap::new();
    let mut gas = GasCounter::new(7);
    let r = heap.asc_new_string("suff", &mut gas);
    assert_eq!(r, Err(DeterministicHostError::GasExhausted));
    assert!(heap.memory.is_empty());
    assert_eq!(gas.used, 0);
    let parm = Bad { nonce: 0, str_suff: "suff".to_string(), tail: 0 };
    assert_eq!(parm.to_asc_obj(&mut heap, &mut gas), Err(DeterministicHostError::GasExhausted));
}

#[test]
fn gas_counter_consumes_up_to_limit() {
    let mut gas = GasCounter::new(10);
    assert_eq!(gas.consume(10), Ok(()));
    assert_eq!(gas.used, 10);
    assert_eq!(gas.consume(1), Err(DeterministicHostError::GasExhausted));
    assert_eq!(gas.used, 10);
}
