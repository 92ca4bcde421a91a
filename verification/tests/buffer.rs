use gui_core::buffer::{Buffer, DynamicBuffer, FixedBuffer};

#[test]
fn test_dyn_buffer_alloc() {
    let mut dyb = DynamicBuffer::<i32>::new();

    {
        let new_slice = dyb.alloc_elements(5);
        (0..5).for_each(|idx| {
            let src = idx as i32 * 4;
            new_slice[idx] = src;
        });

        assert_eq!(new_slice[0], 0);
        assert_eq!(new_slice[1], 4);
        assert_eq!(new_slice[2], 8);
        assert_eq!(new_slice[3], 12);
        assert_eq!(new_slice[4], 16);
    }

    dyb.push(20);

    let elements = dyb.elements();
    assert_eq!(elements[0], 0);
    assert_eq!(elements[1], 4);
    assert_eq!(elements[2], 8);
    assert_eq!(elements[3], 12);
    assert_eq!(elements[4], 16);
    assert_eq!(elements[5], 20);
}

#[test]
fn test_fixed_buffer() {
    let mut fbstore: [i32; 16] = [0; 16];

    let mut fixb = FixedBuffer::<i32>::from_slice(&mut fbstore);

    fixb.push(1);
    fixb.push(2);
    fixb.push(3);
    fixb.push(4);

    assert_eq!(fixb.len(), 4);

    assert_eq!(fixb.storage()[0], 1);
    assert_eq!(fixb.storage()[1], 2);
    assert_eq!(fixb.storage()[2], 3);
    assert_eq!(fixb.storage()[3], 4);

    {
        let new_slice = fixb.alloc_elements(4);
        new_slice[0] = 5;
        new_slice[1] = 6;
        new_slice[2] = 7;
        new_slice[3] = 8;

        assert_eq!(fixb.storage()[4], 5);
        assert_eq!(fixb.storage()[5], 6);
        assert_eq!(fixb.storage()[6], 7);
        assert_eq!(fixb.storage()[7], 8);
    }

    let elements = fixb.elements();
    elements
        .iter()
        .enumerate()
        .for_each(|(i, v)| assert_eq!(i as i32 + 1, *v));

    // the buffer wrote into the storage it was given
    assert_eq!(&fbstore[..8], &[1, 2, 3, 4, 5, 6, 7, 8]);
    assert_eq!(&fbstore[8..], &[0; 8]);
}

#[test]
fn dynamic_buffer_new_elements_are_default() {
    let mut b = DynamicBuffer::<u8>::new_with_capacity(2);
    b.push(7);
    let s = b.alloc_elements(3);
    assert_eq!(s.len(), 3);
    assert!(s.iter().all(|v| *v == 0));
    assert_eq!(b.len(), 4);
    assert_eq!(b.elements(), &[7, 0, 0, 0]);
}

#[test]
fn dynamic_buffer_clear_and_elements_mut() {
    let mut b = DynamicBuffer::<i64>::new();
    b.push(1);
    b.push(2);
    b.elements_mut()[1] = 9;
    assert_eq!(b.elements(), &[1, 9]);
    b.clear();
    assert_eq!(b.len(), 0);
    assert!(b.elements().is_empty());
}

#[test]
fn fixed_buffer_fills_to_capacity_and_clears() {
    let mut store = [9u16; 3];
    let mut b = FixedBuffer::new(&mut store);
    assert_eq!(b.len(), 0);
    assert!(b.elements().is_empty());
    let s = b.alloc_elements(2);
    assert_eq!(s, &[9, 9]);
    s[1] = 4;
    b.push(5);
    assert_eq!(b.elements(), &[9, 4, 5]);
    assert_eq!(b.storage(), &[9, 4, 5]);
    b.clear();
    assert_eq!(b.len(), 0);
    assert_eq!(b.storage(), &[9, 4, 5]);
    b.push(1);
    assert_eq!(b.elements(), &[1]);
    b.elements_mut()[0] = 2;
    assert_eq!(b.storage(), &[2, 4, 5]);
    assert_eq!(store, [2, 4, 5]);
}

#[test]
fn buffer_element_layout() {
    assert_eq!(<DynamicBuffer<u32> as Buffer<u32>>::element_size(), 4);
    assert_eq!(<FixedBuffer<'static, u64> as Buffer<u64>>::element_alignment(), std::mem::align_of::<u64>());
}
