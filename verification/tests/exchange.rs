use float2rgba::codec::{BigEndian, LittleEndian};
use float2rgba::convert::SimpleColormap;
use float2rgba::exchange::{
    convert_all_simple_be, convert_all_simple_le, count_sentinel, grow_outcome, i_allocate,
    i_zero, o_allocate, reserve_request, try_convert_all, Exchange, ExchangeError, Region,
};

#[test]
fn new_exchange_is_empty() {
    let exchange = Exchange::new();
    assert!(exchange.is_wf());
    assert!(exchange.input.bytes.is_empty());
    assert!(exchange.output.bytes.is_empty());
    assert_eq!(exchange.input.capacity, 0);
    assert_eq!(exchange.output.capacity, 0);
}

#[test]
fn grow_covers_the_request() {
    let mut region = Region::new();
    let first = region.grow(16).unwrap();
    assert!(first >= 16);
    assert_eq!(region.capacity, first);
    assert_eq!(region.bytes.capacity(), first);
    assert!(region.bytes.is_empty());
    let second = region.grow(100).unwrap();
    assert!(second >= first + 100);
    assert_eq!(region.capacity, second);
    assert_eq!(region.bytes.capacity(), second);
    assert!(region.is_wf());
}

#[test]
fn grow_by_nothing_changes_nothing() {
    let mut region = Region::new();
    assert_eq!(region.grow(0), Ok(0));
    let capacity = region.grow(8).unwrap();
    assert_eq!(region.grow(0), Ok(capacity));
    assert_eq!(region.capacity, capacity);
}

#[test]
fn grow_beyond_the_address_space_fails() {
    let mut region = Region::new();
    let capacity = region.grow(8).unwrap();
    assert_eq!(region.grow(usize::MAX), Err(ExchangeError::AllocationFailed));
    assert_eq!(region.grow(usize::MAX / 2 + 1), Err(ExchangeError::AllocationFailed));
    assert_eq!(region.capacity, capacity);
    assert!(region.is_wf());
}

#[test]
fn grow_keeps_the_bytes() {
    let mut region = Region::new();
    region.grow(4).unwrap();
    region.zero_fill();
    for (i, b) in region.bytes.iter_mut().enumerate() {
        *b = i as u8 + 1;
    }
    let before = region.bytes.clone();
    let capacity = region.grow(1000).unwrap();
    assert!(capacity >= before.len() + 1000);
    assert_eq!(region.bytes, before);
}

#[test]
fn grow_outcome_by_cases() {
    assert_eq!(grow_outcome(10, 5, true, 15), Ok(15));
    assert_eq!(grow_outcome(10, 5, true, 64), Ok(64));
    assert_eq!(grow_outcome(10, 5, true, 14), Err(ExchangeError::AllocationFailed));
    assert_eq!(grow_outcome(10, 5, false, 64), Err(ExchangeError::AllocationFailed));
    assert_eq!(
        grow_outcome(usize::MAX, 1, true, usize::MAX),
        Err(ExchangeError::AllocationFailed)
    );
}

#[test]
fn zero_fill_reaches_the_capacity() {
    let mut region = Region::new();
    let capacity = region.grow(33).unwrap();
    assert_eq!(region.zero_fill(), capacity);
    assert_eq!(region.bytes.len(), capacity);
    assert!(region.bytes.iter().all(|b| *b == 0));
    for b in region.bytes.iter_mut() {
        *b = 0xEE;
    }
    assert_eq!(region.zero_fill(), capacity);
    assert_eq!(region.bytes, vec![0u8; capacity]);
    assert_eq!(region.capacity, capacity);
}

#[test]
fn zero_fill_of_an_empty_region() {
    let mut region = Region::new();
    assert_eq!(region.zero_fill(), 0);
    assert!(region.bytes.is_empty());
}

#[test]
fn sentinels() {
    assert_eq!(count_sentinel(Ok(0)), 0);
    assert_eq!(count_sentinel(Ok(12)), 12);
    assert_eq!(count_sentinel(Ok(i32::MAX as usize)), i32::MAX);
    assert_eq!(count_sentinel(Ok(i32::MAX as usize + 1)), -1);
    assert_eq!(count_sentinel(Ok(usize::MAX)), -1);
    assert_eq!(count_sentinel(Err(ExchangeError::Unreachable)), -1);
    assert_eq!(count_sentinel(Err(ExchangeError::AllocationFailed)), -1);
}

#[test]
fn unreachable_exchange() {
    assert_eq!(i_allocate(None, 8), -1);
    assert_eq!(o_allocate(None, 8), -1);
    assert_eq!(i_zero(None), -1);
    assert_eq!(convert_all_simple_le(None), -1);
    assert_eq!(convert_all_simple_be(None), -1);
    assert_eq!(
        try_convert_all(&SimpleColormap, &LittleEndian, &BigEndian, None),
        Err(ExchangeError::Unreachable)
    );
}

#[test]
fn negative_counts_are_refused() {
    let mut exchange = Exchange::new();
    assert_eq!(i_allocate(Some(&mut exchange), -1), -1);
    assert_eq!(o_allocate(Some(&mut exchange), i32::MIN), -1);
    assert_eq!(exchange.input.capacity, 0);
    assert_eq!(exchange.output.capacity, 0);
}

#[test]
fn allocate_returns_the_capacity() {
    let mut exchange = Exchange::new();
    let i = i_allocate(Some(&mut exchange), 64);
    assert!(i >= 64);
    assert_eq!(exchange.input.capacity, i as usize);
    assert_eq!(exchange.output.capacity, 0);
    let o = o_allocate(Some(&mut exchange), 20);
    assert!(o >= 20);
    assert_eq!(exchange.output.capacity, o as usize);
    assert_eq!(exchange.input.capacity, i as usize);
    assert_eq!(i_allocate(Some(&mut exchange), 0), i);
    let more = i_allocate(Some(&mut exchange), 10);
    assert!(more >= i + 10);
}

#[test]
fn the_call_sequence() {
    let mut exchange = Exchange::new();
    let samples = [0.0f32, 0.25, 0.5, 0.75, 1.0, 1.25];
    let capacity = i_allocate(Some(&mut exchange), 24);
    assert!(capacity >= 24);
    assert_eq!(i_zero(Some(&mut exchange)), capacity);
    assert_eq!(exchange.input.bytes.len(), capacity as usize);
    for (i, v) in samples.iter().enumerate() {
        exchange.input.bytes[4 * i..4 * i + 4].copy_from_slice(&v.to_le_bytes());
    }
    let len = convert_all_simple_le(Some(&mut exchange));
    assert_eq!(len, 4 * (capacity / 4));
    assert_eq!(exchange.output.bytes.len(), len as usize);
    assert_eq!(
        &exchange.output.bytes[..24],
        &[
            255, 0, 0, 255, 127, 127, 0, 255, 0, 255, 0, 255, 0, 127, 127, 255, 0, 0, 255, 255,
            0, 0, 0, 0
        ]
    );
    // What lies between the samples and the capacity is 0.0, which is red.
    for group in exchange.output.bytes[24..].chunks(4) {
        assert_eq!(group, &[255, 0, 0, 255]);
    }
    assert!(exchange.is_wf());
    assert!(exchange.output.capacity >= exchange.output.bytes.len());
}

#[test]
fn each_run_overwrites_the_output() {
    let mut exchange = Exchange::new();
    exchange.input.bytes.extend_from_slice(&1.0f32.to_be_bytes());
    exchange.input.bytes.extend_from_slice(&0.5f32.to_be_bytes());
    exchange.input.bytes.push(0x3F);
    exchange.input.capacity = exchange.input.bytes.capacity();
    assert_eq!(convert_all_simple_be(Some(&mut exchange)), 8);
    assert_eq!(exchange.output.bytes, vec![0, 0, 255, 255, 0, 255, 0, 255]);
    exchange.input.bytes.truncate(4);
    assert_eq!(convert_all_simple_be(Some(&mut exchange)), 4);
    assert_eq!(exchange.output.bytes, vec![0, 0, 255, 255]);
    assert_eq!(exchange.input.bytes, 1.0f32.to_be_bytes().to_vec());
    assert_eq!(
        try_convert_all(&SimpleColormap, &LittleEndian, &BigEndian, Some(&mut exchange)),
        Ok(4)
    );
    // Read in the other order, the bytes of 1.0 are a tiny positive scalar.
    assert_eq!(exchange.output.bytes, vec![255, 0, 0, 255]);
}

#[test]
fn growth_may_move_the_storage() {
    let mut region = Region::new();
    let small = region.grow(8).unwrap();
    region.zero_fill();
    region.bytes[0] = 0x11;
    let before = region.bytes.as_ptr();
    let large = region.grow(1 << 20).unwrap();
    assert!(large >= small + (1 << 20));
    let after = region.bytes.as_ptr();
    // Whether the address changed is the allocator's business.
    let _moved = before != after;
    assert_eq!(region.bytes[0], 0x11);
    assert_eq!(region.zero_fill(), large);
    region.bytes[large - 1] = 0x22;
    assert_eq!(region.bytes.as_ptr(), after);
    assert_eq!(region.bytes[large - 1], 0x22);
    assert_eq!(region.bytes.len(), large);
}

#[test]
fn reserve_request_by_cases() {
    assert_eq!(reserve_request(0, 0, 8), Some(8));
    assert_eq!(reserve_request(16, 16, 8), Some(8));
    assert_eq!(reserve_request(16, 4, 8), Some(20));
    assert_eq!(reserve_request(16, 0, 0), Some(16));
    assert_eq!(reserve_request(10, 10, 0), Some(0));
    assert_eq!(reserve_request(usize::MAX - 8, 3, 8), Some(usize::MAX - 3));
    assert_eq!(reserve_request(usize::MAX - 8, 3, 9), None);
    assert_eq!(reserve_request(usize::MAX, usize::MAX, 1), None);
}

#[test]
fn growing_twice_from_an_empty_region() {
    let mut region = Region::new();
    let first = region.grow(8).unwrap();
    assert!(first >= 8);
    let second = region.grow(8).unwrap();
    assert!(second >= first + 8);
    assert!(region.bytes.capacity() >= first + 8);
    let mut exchange = Exchange::new();
    let a = i_allocate(Some(&mut exchange), 8);
    let b = i_allocate(Some(&mut exchange), 8);
    assert!(a >= 8);
    assert!(b >= a + 8);
    let c = o_allocate(Some(&mut exchange), 8);
    let d = o_allocate(Some(&mut exchange), 8);
    assert!(c >= 8);
    assert!(d >= c + 8);
}

#[test]
fn growing_a_filled_region_asks_for_the_request_alone() {
    let mut region = Region::new();
    let capacity = region.grow(32).unwrap();
    region.zero_fill();
    assert_eq!(
        reserve_request(region.capacity, region.bytes.len(), 10),
        Some(10)
    );
    let grown = region.grow(10).unwrap();
    assert!(grown >= capacity + 10);
    assert_eq!(region.bytes.len(), capacity);
}
