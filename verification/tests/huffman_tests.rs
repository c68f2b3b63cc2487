use demoparser::huffman::{create_huffman_lookup_table, msb};

#[test]
fn msb_counts_digits() {
    assert_eq!(msb(0), 0);
    assert_eq!(msb(1), 1);
    assert_eq!(msb(2), 2);
    assert_eq!(msb(255), 8);
    assert_eq!(msb(256), 9);
    assert_eq!(msb(131070), 17);
    assert_eq!(msb(u32::MAX), 32);
}

fn rev17(x: u32) -> usize {
    let mut r = 0u32;
    for i in 0..17 {
        if (x >> i) & 1 == 1 {
            r |= 1 << (16 - i);
        }
    }
    r as usize
}

#[test]
fn table_shape() {
    let table = create_huffman_lookup_table();
    assert_eq!(table.len(), 131071);
    let zeros = table.iter().filter(|e| **e == (0, 1)).count();
    assert_eq!(zeros, 65536);
    let op39 = table.iter().filter(|e| **e == (39, 2)).count();
    assert_eq!(op39, 32768);
    let op2 = table.iter().filter(|e| **e == (2, 6)).count();
    assert_eq!(op2, 2048);
    assert!(table.iter().all(|e| *e != (999999, 255)));
}

#[test]
fn table_entries() {
    let table = create_huffman_lookup_table();
    assert_eq!(table[0], (0, 1));
    assert_eq!(table[1], (39, 2));
    assert_eq!(table[3], (8, 5));
    assert_eq!(table[7], (1, 4));
    assert_eq!(table[15], (11, 4));
    assert_eq!(table[19], (2, 6));
    assert_eq!(table[51], (29, 6));
    assert_eq!(table[27], (30, 9));
    assert_eq!(table[283], (38, 10));
    assert_eq!(table[37659], (15, 17));
    assert_eq!(table[127771], (18, 17));
    assert_eq!(table[131069], (39, 2));
}

#[test]
fn every_code_decodes() {
    let table = create_huffman_lookup_table();
    let codes: [(u32, u32, u8); 39] = [
        (2, 39, 2), (24, 8, 5), (50, 2, 6), (51, 29, 6), (26, 4, 5), (432, 30, 9), (866, 38, 10),
        (55488, 35, 16), (55489, 34, 16), (27745, 27, 15), (55492, 25, 16), (55493, 24, 16),
        (55494, 33, 16), (55495, 28, 16), (55496, 13, 16), (110994, 15, 17), (110995, 14, 17),
        (27749, 6, 15), (111000, 21, 17), (111001, 20, 17), (111002, 23, 17), (111003, 22, 17),
        (111004, 17, 17), (111005, 16, 17), (111006, 19, 17), (111007, 18, 17), (3469, 5, 12),
        (1735, 36, 11), (217, 10, 8), (218, 7, 8), (438, 12, 9), (439, 37, 9), (220, 9, 8),
        (442, 31, 9), (443, 26, 9), (222, 32, 8), (223, 3, 8), (14, 1, 4), (15, 11, 4),
    ];
    for (code, opcode, len) in codes {
        let digits = msb(code);
        let shift = 17 - digits;
        for tail in [0u32, 1, ((1 << shift) - 1) >> 1] {
            let peek_in_order = (code << shift) | (tail & ((1 << shift) - 1));
            let p = rev17(peek_in_order);
            assert_eq!(table[p], (opcode, len), "code {}", code);
        }
    }
    // The entries 100 and 101 extend code 50 and decode as opcode 2.
    assert_eq!(table[rev17(101 << 10)], (2, 6));
    assert_eq!(table[rev17(100 << 10)], (2, 6));
}
