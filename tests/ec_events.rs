use ec_events::codec::{
    bytes_to_words_le_vec, coord_from_be, coord_to_be, point_from_be, point_to_be, reverse_bytes,
    words_to_bytes_le_vec,
};
use ec_events::curve::{
    add_points, bls12381_affine_from, bls12381_compress_x, bls12381_y_le, decompress_y,
    double_point, secp256k1_affine_from, CurveType,
};
use ec_events::ec::{
    create_ec_add_event, create_ec_decompress_event, create_ec_double_event, EcFault,
};
use ec_events::memory::{MemoryLocalEvent, MemoryRecord, SyscallContext};
use std::collections::HashMap;

const SECP_GX: &str = "79BE667EF9DCBBAC55A06295CE870B07029BFCDB2DCE28D959F2815B16F81798";
const SECP_GY: &str = "483ADA7726A3C4655DA4FBFC0E1108A8FD17B448A68554199C47D08FFB10D4B8";
const SECP_2GX: &str = "C6047F9441ED7D6D3045406E95C07CD85C778E4B8CEF3CA7ABAC09B95C709EE5";
const SECP_2GY: &str = "1AE168FEA63DC339A3C58419466CEAEEF7F632653266D0E1236431A950CFE52A";
const SECP_3GX: &str = "F9308A019258C31049344F85F89D5229B531C845836F99B08601F113BCE036F9";
const SECP_3GY: &str = "388F7B0F632DE8140FE337E62A37F3566500A99934C2231B6CB9FD7584B8E672";

const BLS_G: &str = "17f1d3a73197d7942695638c4fa9ac0fc3688c4f9774b905a14e3a3f171bac586c55e83ff97a1aeffb3af00adb22c6bb08b3f481e3aaa0f1a09e30ed741d8ae4fcf5e095d5d00af600db18cb2c04b3edd03cc744a2888ae40caa232946c5e7e1";
const BLS_2G: &str = "0572cbea904d67468808c8eb50a9450c9721db309128012543902d0ac358a62ae28f75bb8f1c7c42c39a8c5529bf0f4e166a9d8cabc673a322fda673779d8e3822ba3ecb8670e461f73bb9021d5fd76a4c56d9d4cd16bd1bba86881979749d28";
const BLS_3G: &str = "09ece308f9d1f0131765212deca99697b112d61f9be9a5f1f3780a51335b3ff981747a0b2ca2179b96d2c0c9024e5224032b80d3a6f5b09f8a84623389c5f80ca69a0cddabc3097f9d9c27310fd43be6e745256c634af45ca3473b0590ae30d1";

fn hex_bytes(s: &str) -> Vec<u8> {
    (0..s.len() / 2).map(|i| u8::from_str_radix(&s[2 * i..2 * i + 2], 16).unwrap()).collect()
}

/// Little-endian words of a big-endian hex field element.
fn le_words(hex: &str) -> Vec<u32> {
    let mut b = hex_bytes(hex);
    b.reverse();
    b.chunks(4).map(|c| u32::from_le_bytes([c[0], c[1], c[2], c[3]])).collect()
}

fn secp_point(x: &str, y: &str) -> Vec<u32> {
    let mut w = le_words(x);
    w.extend(le_words(y));
    w
}

fn bls_point(xy: &str) -> Vec<u32> {
    secp_point(&xy[..96], &xy[96..])
}

fn context() -> SyscallContext {
    SyscallContext {
        clk: 100,
        shard: 3,
        channel: 1,
        syscall_lookup_id: 42,
        memory: HashMap::new(),
        local_memory_access: HashMap::new(),
        forwarded_local_memory_access: Vec::new(),
    }
}

fn store(rt: &mut SyscallContext, base: u32, words: &[u32]) {
    for (i, w) in words.iter().enumerate() {
        rt.memory.insert(base + 4 * i as u32, MemoryRecord { shard: 1, timestamp: 7, value: *w });
    }
}

fn load(rt: &SyscallContext, base: u32, n: usize) -> Vec<u32> {
    (0..n).map(|i| rt.memory.get(&(base + 4 * i as u32)).map_or(0, |r| r.value)).collect()
}

#[test]
fn secp256k1_add_g_and_2g_gives_3g() {
    let mut rt = context();
    store(&mut rt, 0x1000, &secp_point(SECP_GX, SECP_GY));
    store(&mut rt, 0x2000, &secp_point(SECP_2GX, SECP_2GY));
    let ev = create_ec_add_event(&mut rt, CurveType::Secp256k1, 0x1000, 0x2000).unwrap();
    assert_eq!(load(&rt, 0x1000, 16), secp_point(SECP_3GX, SECP_3GY));
    assert_eq!(load(&rt, 0x2000, 16), secp_point(SECP_2GX, SECP_2GY));
    assert_eq!(ev.p, secp_point(SECP_GX, SECP_GY));
    assert_eq!(ev.q, secp_point(SECP_2GX, SECP_2GY));
    assert_eq!((ev.lookup_id, ev.shard, ev.channel, ev.clk), (42, 3, 1, 100));
    assert_eq!(rt.clk, 101);
    let written: Vec<u32> = ev.p_memory_records.iter().map(|r| r.value).collect();
    assert_eq!(written, secp_point(SECP_3GX, SECP_3GY));
    assert!(ev.p_memory_records.iter().all(|r| r.timestamp == 101 && r.prev_timestamp == 7));
    assert!(ev.q_memory_records.iter().all(|r| r.timestamp == 100 && r.prev_timestamp == 7));
}

#[test]
fn bls12381_add_g_and_2g_gives_3g() {
    let mut rt = context();
    store(&mut rt, 0x1000, &bls_point(BLS_G));
    store(&mut rt, 0x2000, &bls_point(BLS_2G));
    let ev = create_ec_add_event(&mut rt, CurveType::Bls12381, 0x1000, 0x2000).unwrap();
    assert_eq!(load(&rt, 0x1000, 24), bls_point(BLS_3G));
    assert_eq!(ev.q, bls_point(BLS_2G));
}

#[test]
fn secp256k1_double_agrees_with_add() {
    let g = secp_point(SECP_GX, SECP_GY);
    let mut rt = context();
    store(&mut rt, 0x1000, &g);
    let ev = create_ec_double_event(&mut rt, CurveType::Secp256k1, 0x1000, 0).unwrap();
    let doubled = load(&rt, 0x1000, 16);
    assert_eq!(doubled, secp_point(SECP_2GX, SECP_2GY));
    assert_eq!(ev.p, g);
    assert_eq!(rt.clk, 100);

    let mut rt2 = context();
    store(&mut rt2, 0x1000, &g);
    store(&mut rt2, 0x3000, &g);
    create_ec_add_event(&mut rt2, CurveType::Secp256k1, 0x1000, 0x3000).unwrap();
    assert_eq!(load(&rt2, 0x1000, 16), doubled);
}

#[test]
fn bls12381_double_agrees_with_add() {
    let g = bls_point(BLS_G);
    let mut rt = context();
    store(&mut rt, 0x1000, &g);
    create_ec_double_event(&mut rt, CurveType::Bls12381, 0x1000, 0).unwrap();
    let doubled = load(&rt, 0x1000, 24);
    assert_eq!(doubled, bls_point(BLS_2G));

    let mut rt2 = context();
    store(&mut rt2, 0x1000, &g);
    store(&mut rt2, 0x3000, &g);
    create_ec_add_event(&mut rt2, CurveType::Bls12381, 0x1000, 0x3000).unwrap();
    assert_eq!(load(&rt2, 0x1000, 24), doubled);
}

#[test]
fn aliased_add_doubles_and_orders_clock() {
    let mut rt = context();
    store(&mut rt, 0x1000, &secp_point(SECP_GX, SECP_GY));
    let ev = create_ec_add_event(&mut rt, CurveType::Secp256k1, 0x1000, 0x1000).unwrap();
    assert_eq!(load(&rt, 0x1000, 16), secp_point(SECP_2GX, SECP_2GY));
    for (w, r) in ev.p_memory_records.iter().zip(ev.q_memory_records.iter()) {
        assert_eq!(r.timestamp, 100);
        assert_eq!(w.prev_timestamp, 100);
        assert_eq!(w.timestamp, 101);
        assert_eq!(w.prev_value, r.value);
    }
    assert_eq!(ev.local_mem_access.len(), 32);
    assert!(rt.local_memory_access.is_empty());
}

#[test]
fn secp256k1_decompress_recovers_y() {
    let mut rt = context();
    store(&mut rt, 0x1000 + 32, &le_words(SECP_GX));
    let ev = create_ec_decompress_event(&mut rt, CurveType::Secp256k1, 0x1000, 0).unwrap();
    assert_eq!(load(&rt, 0x1000, 8), le_words(SECP_GY));
    let mut y_le = hex_bytes(SECP_GY);
    y_le.reverse();
    assert_eq!(ev.decompressed_y_bytes, y_le);
    let mut x_le = hex_bytes(SECP_GX);
    x_le.reverse();
    assert_eq!(ev.x_bytes, x_le);
    assert!(!ev.sign_bit);
    assert_eq!(ev.x_memory_records.len(), 8);
    assert_eq!(ev.y_memory_records.len(), 8);
}

#[test]
fn secp256k1_decompress_odd_sign_gives_negated_y() {
    let mut rt = context();
    store(&mut rt, 0x1000 + 32, &le_words(SECP_GX));
    let ev = create_ec_decompress_event(&mut rt, CurveType::Secp256k1, 0x1000, 1).unwrap();
    assert!(ev.sign_bit);
    assert_ne!(load(&rt, 0x1000, 8), le_words(SECP_GY));
    assert_eq!(ev.decompressed_y_bytes[0] % 2, 1);
}

#[test]
fn bls12381_decompress_recovers_y() {
    let mut rt = context();
    store(&mut rt, 0x1000 + 48, &le_words(&BLS_G[..96]));
    let ev = create_ec_decompress_event(&mut rt, CurveType::Bls12381, 0x1000, 0).unwrap();
    assert_eq!(load(&rt, 0x1000, 12), le_words(&BLS_G[96..]));
    assert_eq!(ev.decompressed_y_bytes.len(), 48);

    let mut rt2 = context();
    store(&mut rt2, 0x1000 + 48, &le_words(&BLS_2G[..96]));
    create_ec_decompress_event(&mut rt2, CurveType::Bls12381, 0x1000, 1).unwrap();
    assert_eq!(load(&rt2, 0x1000, 12), le_words(&BLS_2G[96..]));
}

#[test]
fn decompress_pads_y_to_field_length() {
    let mut rt = context();
    store(&mut rt, 0x1000 + 32, &le_words(SECP_2GX));
    let ev = create_ec_decompress_event(&mut rt, CurveType::Secp256k1, 0x1000, 0).unwrap();
    assert_eq!(ev.decompressed_y_bytes.len(), 32);
    assert_eq!(ev.y_memory_records.len(), 8);
    assert_eq!(load(&rt, 0x1000, 8), le_words(SECP_2GY));
    // BLS12-381 2G has a y whose most significant byte is below 0x20: still 48 bytes.
    let mut rt2 = context();
    store(&mut rt2, 0x1000 + 48, &le_words(&BLS_2G[..96]));
    let ev = create_ec_decompress_event(&mut rt2, CurveType::Bls12381, 0x1000, 1).unwrap();
    assert_eq!(ev.decompressed_y_bytes.len(), 48);
    assert_eq!(ev.decompressed_y_bytes[47], 0x16);
}

#[test]
fn misaligned_pointers_are_rejected_without_mutation() {
    let mut rt = context();
    store(&mut rt, 0x1000, &secp_point(SECP_GX, SECP_GY));
    let before = load(&rt, 0x1000, 16);
    let r = create_ec_add_event(&mut rt, CurveType::Secp256k1, 0x1002, 0x2000);
    assert!(matches!(r, Err(EcFault::MisalignedPointer)));
    let r = create_ec_add_event(&mut rt, CurveType::Secp256k1, 0x1000, 0x2001);
    assert!(matches!(r, Err(EcFault::MisalignedPointer)));
    let r = create_ec_double_event(&mut rt, CurveType::Secp256k1, 0x1003, 0);
    assert!(matches!(r, Err(EcFault::MisalignedPointer)));
    let r = create_ec_decompress_event(&mut rt, CurveType::Secp256k1, 0x1001, 0);
    assert!(matches!(r, Err(EcFault::MisalignedPointer)));
    assert_eq!(load(&rt, 0x1000, 16), before);
    assert_eq!(rt.clk, 100);
    assert_eq!(rt.memory.len(), 16);
    assert!(rt.local_memory_access.is_empty());
}

#[test]
fn sign_bit_above_one_is_rejected() {
    let mut rt = context();
    store(&mut rt, 0x1000 + 32, &le_words(SECP_GX));
    let r = create_ec_decompress_event(&mut rt, CurveType::Secp256k1, 0x1000, 2);
    assert!(matches!(r, Err(EcFault::InvalidSignBit)));
    assert_eq!(rt.memory.len(), 8);
}

#[test]
fn points_off_the_curve_are_rejected() {
    let mut rt = context();
    store(&mut rt, 0x1000, &[1u32; 16]);
    store(&mut rt, 0x2000, &secp_point(SECP_GX, SECP_GY));
    let r = create_ec_add_event(&mut rt, CurveType::Secp256k1, 0x1000, 0x2000);
    assert!(matches!(r, Err(EcFault::NoCurvePoint)));
    let r = create_ec_double_event(&mut rt, CurveType::Bls12381, 0x1000, 0);
    assert!(matches!(r, Err(EcFault::NoCurvePoint)));
    assert_eq!(load(&rt, 0x1000, 16), vec![1u32; 16]);
    assert_eq!(rt.clk, 100);
}

#[test]
fn sum_at_infinity_is_rejected() {
    let g = secp_point(SECP_GX, SECP_GY);
    let mut neg_y = hex_bytes("FFFFFFFFFFFFFFFFFFFFFFFFFFFFFFFFFFFFFFFFFFFFFFFFFFFFFFFEFFFFFC2F");
    // The field modulus minus y, big-endian, with borrow.
    let y = hex_bytes(SECP_GY);
    let mut borrow = 0i32;
    for i in (0..32).rev() {
        let d = neg_y[i] as i32 - y[i] as i32 - borrow;
        borrow = if d < 0 { 1 } else { 0 };
        neg_y[i] = (d + 256 * borrow) as u8;
    }
    let mut neg = le_words(SECP_GX);
    let mut b = neg_y.clone();
    b.reverse();
    neg.extend(b.chunks(4).map(|c| u32::from_le_bytes([c[0], c[1], c[2], c[3]])));
    let mut rt = context();
    store(&mut rt, 0x1000, &g);
    store(&mut rt, 0x2000, &neg);
    let r = create_ec_add_event(&mut rt, CurveType::Secp256k1, 0x1000, 0x2000);
    assert!(matches!(r, Err(EcFault::NoCurvePoint)));
    assert_eq!(load(&rt, 0x1000, 16), g);
}

#[test]
fn stale_local_entries_are_forwarded_before_own_accesses() {
    let mut rt = context();
    store(&mut rt, 0x1000, &secp_point(SECP_GX, SECP_GY));
    store(&mut rt, 0x2000, &secp_point(SECP_2GX, SECP_2GY));
    let old = MemoryRecord { shard: 1, timestamp: 5, value: 9 };
    let stale_q = MemoryLocalEvent { addr: 0x2004, initial_mem_access: old, final_mem_access: old };
    let stale_p = MemoryLocalEvent { addr: 0x1008, initial_mem_access: old, final_mem_access: old };
    let elsewhere = MemoryLocalEvent { addr: 0x9000, initial_mem_access: old, final_mem_access: old };
    rt.local_memory_access.insert(0x1008, stale_p);
    rt.local_memory_access.insert(0x2004, stale_q);
    rt.local_memory_access.insert(0x9000, elsewhere);
    let ev = create_ec_add_event(&mut rt, CurveType::Secp256k1, 0x1000, 0x2000).unwrap();
    assert_eq!(rt.forwarded_local_memory_access, vec![stale_q, stale_p]);
    assert_eq!(rt.local_memory_access.len(), 1);
    assert_eq!(rt.local_memory_access.get(&0x9000), Some(&elsewhere));
    assert_eq!(ev.local_mem_access.len(), 32);
    let addrs: Vec<u32> = ev.local_mem_access.iter().map(|e| e.addr).collect();
    let expected: Vec<u32> =
        (0..16).map(|i| 0x2000 + 4 * i).chain((0..16).map(|i| 0x1000 + 4 * i)).collect();
    assert_eq!(addrs, expected);
    let first = ev.local_mem_access[0];
    assert_eq!(first.initial_mem_access, MemoryRecord { shard: 1, timestamp: 7, value: ev.q[0] });
    assert_eq!(first.final_mem_access, MemoryRecord { shard: 3, timestamp: 100, value: ev.q[0] });
}

#[test]
fn record_counts_are_fixed_per_curve() {
    let mut rt = context();
    store(&mut rt, 0x1000, &bls_point(BLS_G));
    store(&mut rt, 0x2000, &bls_point(BLS_2G));
    let ev = create_ec_add_event(&mut rt, CurveType::Bls12381, 0x1000, 0x2000).unwrap();
    assert_eq!(ev.p_memory_records.len(), 24);
    assert_eq!(ev.q_memory_records.len(), 24);
    assert_eq!(ev.local_mem_access.len(), 48);
    let ev = create_ec_double_event(&mut rt, CurveType::Bls12381, 0x2000, 0).unwrap();
    assert_eq!(ev.p_memory_records.len(), 24);
    assert_eq!(ev.local_mem_access.len(), 24);
    assert_eq!(CurveType::Secp256k1.num_words_point(), 16);
    assert_eq!(CurveType::Bls12381.num_limbs(), 48);
}

#[test]
fn untouched_memory_reads_as_zero_record() {
    let mut rt = context();
    store(&mut rt, 0x1000, &secp_point(SECP_GX, SECP_GY));
    let ev = create_ec_double_event(&mut rt, CurveType::Secp256k1, 0x1000, 0).unwrap();
    assert_eq!(ev.p_memory_records[0].prev_shard, 1);
    let mut rt2 = context();
    store(&mut rt2, 0x1000 + 32, &le_words(SECP_GX));
    let ev = create_ec_decompress_event(&mut rt2, CurveType::Secp256k1, 0x1000, 0).unwrap();
    assert!(ev.y_memory_records.iter().all(|r| r.prev_value == 0 && r.prev_timestamp == 0));
}

#[test]
fn word_byte_codec_exact_values() {
    let bytes = words_to_bytes_le_vec(&vec![0x04030201, 0xddccbbaa]);
    assert_eq!(bytes, vec![1, 2, 3, 4, 0xaa, 0xbb, 0xcc, 0xdd]);
    assert_eq!(bytes_to_words_le_vec(&bytes), vec![0x04030201, 0xddccbbaa]);
    assert_eq!(reverse_bytes(&vec![1, 2, 3]), vec![3, 2, 1]);
    assert_eq!(coord_to_be(&vec![0x04030201, 0x08070605], 0, 2), vec![8, 7, 6, 5, 4, 3, 2, 1]);
    assert_eq!(coord_from_be(&vec![9, 8, 7, 6, 5, 4, 3, 2, 1], 1, 8), vec![0x04030201, 0x08070605]);
}

#[test]
fn point_encoding_round_trips() {
    let g = secp_point(SECP_GX, SECP_GY);
    let be = point_to_be(&g, 8);
    let mut expected = hex_bytes(SECP_GX);
    expected.extend(hex_bytes(SECP_GY));
    assert_eq!(be, expected);
    assert_eq!(point_from_be(&be, 0, 8), g);
    let b = bls_point(BLS_3G);
    assert_eq!(point_from_be(&point_to_be(&b, 12), 0, 12), b);
}

#[test]
fn curve_operations_on_words() {
    let g = secp_point(SECP_GX, SECP_GY);
    let two_g = secp_point(SECP_2GX, SECP_2GY);
    assert_eq!(add_points(CurveType::Secp256k1, &g, &two_g), Some(secp_point(SECP_3GX, SECP_3GY)));
    assert_eq!(double_point(CurveType::Secp256k1, &g), Some(two_g));
    let mut x_le = hex_bytes(SECP_GX);
    x_le.reverse();
    let mut y_le = hex_bytes(SECP_GY);
    y_le.reverse();
    assert_eq!(decompress_y(CurveType::Secp256k1, &x_le, false), Some(y_le));
    assert_eq!(add_points(CurveType::Bls12381, &bls_point(BLS_G), &bls_point(BLS_2G)), Some(bls_point(BLS_3G)));
}


#[test]
fn backend_encodings_decode_to_words() {
    let mut sec1 = vec![4u8];
    sec1.extend(hex_bytes(SECP_GX));
    sec1.extend(hex_bytes(SECP_GY));
    assert_eq!(secp256k1_affine_from(&sec1), Some(secp_point(SECP_GX, SECP_GY)));
    assert_eq!(secp256k1_affine_from(&vec![0u8]), None);
    assert_eq!(bls12381_affine_from(&hex_bytes(BLS_G)), Some(bls_point(BLS_G)));
    let mut infinity = vec![0u8; 96];
    infinity[0] = 0x40;
    assert_eq!(bls12381_affine_from(&infinity), None);
    let mut y_le = hex_bytes(&BLS_G[96..]);
    y_le.reverse();
    assert_eq!(bls12381_y_le(&hex_bytes(BLS_G)), y_le);
}

#[test]
fn bls12381_compression_flags() {
    let x = hex_bytes(&BLS_2G[..96]);
    let c = bls12381_compress_x(x.clone(), true);
    assert_eq!(c[0], 0xa5);
    assert_eq!(&c[1..], &x[1..]);
    assert_eq!(bls12381_compress_x(x, false)[0], 0x85);
}
