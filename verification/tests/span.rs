use bitvec::index::BitIdx;
use bitvec::order::BitOrder;
use bitvec::order::Lsb0;
use bitvec::order::Msb0;
use bitvec::slice::BitSlice;
use bitvec::span::words_for;
use bitvec::span::BitSpan;
use bitvec::span::BitSpanError;
use bitvec::span::MAX_BITS;
use bitvec::store::test_bit;
use bitvec::store::BitStore;
use bitvec::vec::BitVec;

#[test]
fn store_widths() {
    assert_eq!(<u8 as BitStore>::bits(), 8);
    assert_eq!(<u16 as BitStore>::bits(), 16);
    assert_eq!(<u32 as BitStore>::bits(), 32);
    assert_eq!(<u64 as BitStore>::bits(), 64);
    assert_eq!(<usize as BitStore>::bits() as u32, usize::BITS);
    assert_eq!(0xABu8.load(), 0xAB);
    assert_eq!(0xABCDu16.load(), 0xABCD);
    assert_eq!(u32::MAX.load(), 0xFFFF_FFFF);
    assert_eq!(u64::MAX.load(), u64::MAX);
    assert_eq!(7usize.load(), 7);
}

#[test]
fn bits_of_a_value() {
    assert!(test_bit(0b100, 2));
    assert!(!test_bit(0b100, 1));
    assert!(test_bit(1 << 63, 63));
    assert!(!test_bit(1 << 63, 0));
    assert!(!test_bit(u64::MAX, 64));
    assert!(!test_bit(u64::MAX, 255));
}

#[test]
fn order_positions() {
    assert_eq!(Lsb0::at(0, 8), 0);
    assert_eq!(Lsb0::at(7, 8), 7);
    assert_eq!(Lsb0::at(40, 64), 40);
    assert_eq!(Msb0::at(0, 8), 7);
    assert_eq!(Msb0::at(7, 8), 0);
    assert_eq!(Msb0::at(0, 64), 63);
    assert_eq!(Msb0::at(5, 16), 10);
    for width in [8u8, 16, 32, 64] {
        let mut seen_lsb = vec![false; width as usize];
        let mut seen_msb = vec![false; width as usize];
        for index in 0..width {
            let l = Lsb0::at(index, width);
            let m = Msb0::at(index, width);
            assert!(l < width && m < width);
            assert!(!seen_lsb[l as usize] && !seen_msb[m as usize]);
            seen_lsb[l as usize] = true;
            seen_msb[m as usize] = true;
        }
    }
}

#[test]
fn head_index_validity() {
    assert_eq!(BitIdx::new(8, 0), Some(BitIdx { width: 8, index: 0 }));
    assert_eq!(BitIdx::new(8, 7), Some(BitIdx { width: 8, index: 7 }));
    assert_eq!(BitIdx::new(8, 8), None);
    assert_eq!(BitIdx::new(64, 63), Some(BitIdx { width: 64, index: 63 }));
    assert_eq!(BitIdx::new(64, 64), None);
    assert_eq!(BitIdx::new(12, 3), None);
    assert_eq!(BitIdx::new(0, 0), None);
    assert_eq!(BitIdx::of::<u16>(15), Some(BitIdx { width: 16, index: 15 }));
    assert_eq!(BitIdx::of::<u16>(16), None);
    assert!(BitIdx { width: 8, index: 3 }.fits(8));
    assert!(!BitIdx { width: 8, index: 3 }.fits(16));
    assert!(!BitIdx { width: 8, index: 9 }.fits(8));
}

#[test]
fn word_counts() {
    assert_eq!(words_for(0, 0, 8), Some(0));
    assert_eq!(words_for(0, 1, 8), Some(1));
    assert_eq!(words_for(0, 8, 8), Some(1));
    assert_eq!(words_for(0, 9, 8), Some(2));
    assert_eq!(words_for(1, 7, 8), Some(1));
    assert_eq!(words_for(1, 8, 8), Some(2));
    assert_eq!(words_for(7, 1, 8), Some(1));
    assert_eq!(words_for(7, 2, 8), Some(2));
    assert_eq!(words_for(3, 0, 8), Some(1));
    assert_eq!(words_for(63, 2, 64), Some(2));
    assert_eq!(words_for(0, 64, 64), Some(1));
    assert_eq!(words_for(15, 17, 16), Some(2));
    assert_eq!(words_for(15, 18, 16), Some(3));
    assert_eq!(words_for(0, u64::MAX, 8), Some(1 << 61));
    assert_eq!(words_for(7, u64::MAX, 8), Some((1 << 61) + 1));
    assert_eq!(words_for(63, u64::MAX, 64), Some((1 << 58) + 1));
    assert_eq!(words_for(8, 1, 8), None);
    assert_eq!(words_for(0, 1, 12), None);
    assert_eq!(words_for(0, 1, 0), None);
}

#[test]
fn span_checks_in_order() {
    let head = |index| BitIdx { width: 8, index };
    assert!(BitSpan::<u8, Lsb0>::new(0, head(0), 0, 0).is_ok());
    let span = BitSpan::<u8, Lsb0>::new(2, head(3), 14, 5).unwrap();
    assert_eq!(span.base(), 2);
    assert_eq!(span.head(), head(3));
    assert_eq!(span.len(), 14);
    assert_eq!(span.elements(), 3);
    assert_eq!(span.locate(0), Some((2, 3)));
    assert_eq!(span.locate(4), Some((2, 7)));
    assert_eq!(span.locate(5), Some((3, 0)));
    assert_eq!(span.locate(13), Some((4, 0)));
    assert_eq!(span.locate(14), None);
    let msb = BitSpan::<u8, Msb0>::new(2, head(3), 14, 5).unwrap();
    assert_eq!(msb.locate(0), Some((2, 4)));
    assert_eq!(msb.locate(5), Some((3, 7)));

    assert_eq!(
        BitSpan::<u8, Lsb0>::new(0, head(8), 1, 4).unwrap_err(),
        BitSpanError::HeadOutOfRange { width: 8, index: 8 }
    );
    assert_eq!(
        BitSpan::<u8, Lsb0>::new(0, BitIdx { width: 16, index: 0 }, 1, 4).unwrap_err(),
        BitSpanError::HeadOutOfRange { width: 16, index: 0 }
    );
    assert_eq!(
        BitSpan::<u16, Lsb0>::new(0, head(0), 1, 4).unwrap_err(),
        BitSpanError::HeadOutOfRange { width: 8, index: 0 }
    );
    // The head is judged before the room, the room before the length.
    assert_eq!(
        BitSpan::<u8, Lsb0>::new(9, head(8), u64::MAX, 0).unwrap_err(),
        BitSpanError::HeadOutOfRange { width: 8, index: 8 }
    );
    assert_eq!(
        BitSpan::<u8, Lsb0>::new(0, head(0), 33, 4).unwrap_err(),
        BitSpanError::InsufficientBuffer { required: 5, available: 4 }
    );
    assert_eq!(
        BitSpan::<u8, Lsb0>::new(3, head(0), 9, 4).unwrap_err(),
        BitSpanError::InsufficientBuffer { required: 2, available: 1 }
    );
    assert_eq!(
        BitSpan::<u8, Lsb0>::new(5, head(0), 0, 4).unwrap_err(),
        BitSpanError::InsufficientBuffer { required: 0, available: 0 }
    );
    assert_eq!(
        BitSpan::<u8, Lsb0>::new(0, head(1), 0, 0).unwrap_err(),
        BitSpanError::InsufficientBuffer { required: 1, available: 0 }
    );
    assert_eq!(
        BitSpan::<u8, Lsb0>::new(0, head(0), u64::MAX, 4).unwrap_err(),
        BitSpanError::InsufficientBuffer { required: 1 << 61, available: 4 }
    );
    assert!(BitSpan::<u8, Lsb0>::new(4, head(0), 0, 4).is_ok());
    assert!(BitSpan::<u8, Lsb0>::new(0, head(7), 25, 4).is_ok());
}

#[test]
fn span_length_limit() {
    assert_eq!(MAX_BITS, usize::MAX >> 3);
    let head = BitIdx { width: 64, index: 0 };
    let most = MAX_BITS as u64;
    let span = BitSpan::<u64, Msb0>::new(0, head, most, usize::MAX).unwrap();
    assert_eq!(span.len(), MAX_BITS);
    assert_eq!(
        BitSpan::<u64, Msb0>::new(0, head, most + 1, usize::MAX).unwrap_err(),
        BitSpanError::LengthOverflow { bits: most + 1 }
    );
    assert_eq!(
        BitSpan::<u64, Msb0>::new(0, head, most + 1, usize::MAX).unwrap_err().message(),
        "bit count beyond the longest span"
    );
}

#[test]
fn span_parts() {
    let head = |index| BitIdx { width: 8, index };
    let span = BitSpan::<u8, Msb0>::new(1, head(6), 20, 9).unwrap();
    let part = span.narrow(3, 13).unwrap();
    assert_eq!(part.base(), 2);
    assert_eq!(part.head(), head(1));
    assert_eq!(part.len(), 10);
    for i in 0..10 {
        assert_eq!(part.locate(i), span.locate(3 + i));
    }
    assert!(span.narrow(0, 20).is_some());
    assert_eq!(span.narrow(20, 20).unwrap().len(), 0);
    assert!(span.narrow(0, 21).is_none());
    assert!(span.narrow(5, 4).is_none());
}

#[test]
fn views_read_bits_in_order() {
    let words = [0b0000_0101u8, 0b1000_0000];
    let lsb = BitSlice::<u8, Lsb0>::new(&words, 0, BitIdx { width: 8, index: 0 }, 16).unwrap();
    assert_eq!(lsb.get(0), Some(true));
    assert_eq!(lsb.get(1), Some(false));
    assert_eq!(lsb.get(2), Some(true));
    assert_eq!(lsb.get(15), Some(true));
    assert_eq!(lsb.get(16), None);
    let msb = BitSlice::<u8, Msb0>::new(&words, 0, BitIdx { width: 8, index: 0 }, 16).unwrap();
    assert_eq!(msb.get(5), Some(true));
    assert_eq!(msb.get(7), Some(true));
    assert_eq!(msb.get(8), Some(true));
    assert_eq!(msb.get(9), Some(false));
    assert!(!lsb.same_bits(&msb));
    assert!(!lsb.is_empty());
    assert_eq!(lsb.span().elements(), 2);

    let second = BitSlice::<u8, Msb0>::new(&words, 1, BitIdx { width: 8, index: 0 }, 3).unwrap();
    assert_eq!(second.to_bools(), vec![true, false, false]);
    assert_eq!(second.domain(), &[0b1000_0000u8][..]);
    assert_eq!(second.serialize().data, &[0b1000_0000u8][..]);

    let wide = [0x0000_8000u32];
    let other = BitSlice::<u32, Lsb0>::new(&wide, 0, BitIdx { width: 32, index: 15 }, 3).unwrap();
    assert!(second.same_bits(&other));
    assert!(other.same_bits(&second));
    let shorter = other.slice(0, 2).unwrap();
    assert!(!second.same_bits(&shorter));
}

#[test]
fn views_of_parts() {
    let words = [0xF0u8, 0x0F, 0xAA];
    let all = BitSlice::<u8, Msb0>::new(&words, 0, BitIdx { width: 8, index: 0 }, 24).unwrap();
    let bools = all.to_bools();
    for start in 0..=24usize {
        for end in start..=24usize {
            let part = all.slice(start, end).unwrap();
            assert_eq!(part.to_bools(), bools[start..end].to_vec());
            let record = part.serialize();
            assert_eq!(record.bits, (end - start) as u64);
            let back =
                BitSlice::<u8, Msb0>::deserialize(bitvec::serdes::wire::Input::Positional(
                    record.into_seq(),
                ))
                .unwrap();
            assert_eq!(back.to_bools(), part.to_bools());
            assert_eq!(back.head(), part.head());
        }
    }
    assert!(all.slice(3, 25).is_none());
    assert!(all.slice(4, 3).is_none());
    let empty = all.slice(24, 24).unwrap();
    assert!(empty.is_empty());
    assert_eq!(empty.domain().len(), 0);
}

#[test]
fn owned_bits() {
    let bits = BitVec::<u8, Lsb0>::new(vec![0b0001_0010u8], BitIdx { width: 8, index: 1 }, 4)
        .unwrap();
    assert_eq!(bits.len(), 4);
    assert!(!bits.is_empty());
    assert_eq!(bits.head(), BitIdx { width: 8, index: 1 });
    assert_eq!(bits.get(0), Some(true));
    assert_eq!(bits.get(4), None);
    assert_eq!(bits.to_bools(), vec![true, false, false, true]);
    assert_eq!(
        BitVec::<u8, Lsb0>::new(vec![0u8], BitIdx { width: 8, index: 1 }, 8).unwrap_err(),
        BitSpanError::InsufficientBuffer { required: 2, available: 1 }
    );
    assert_eq!(
        BitVec::<u8, Lsb0>::new(vec![0u8], BitIdx { width: 8, index: 1 }, 8)
            .unwrap_err()
            .message(),
        "too few words for the head index and the bit count"
    );
    assert_eq!(
        BitSpanError::HeadOutOfRange { width: 8, index: 9 }.message(),
        "head index out of range for the word width"
    );
}
