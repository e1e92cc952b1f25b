use packet_analysis::ip_header::IpHeader;
use packet_analysis::ip_reassembly::IpReassembler;

fn frag_header(ident: u16, offset_units: u16, more: bool) -> IpHeader {
    IpHeader {
        version: 4,
        ihl: 20,
        tos: 0,
        total_length: 0,
        identification: ident,
        flags_fragment_offset: offset_units | (if more { 0x2000 } else { 0 }),
        ttl: 64,
        protocol: 6,
        checksum: 0,
        src_ip: 0x0a000001,
        dst_ip: 0x0a000002,
    }
}

fn three_fragments() -> Vec<(IpHeader, Vec<u8>)> {
    vec![
        (frag_header(7, 0, true), (0u8..8).collect()),
        (frag_header(7, 1, true), (8u8..16).collect()),
        (frag_header(7, 2, false), (16u8..20).collect()),
    ]
}

#[test]
fn unfragmented_packet_passes_through() {
    let mut r = IpReassembler::new(30);
    let h = frag_header(1, 0, false);
    let out = r.process_fragment(&h, b"hello", 0);
    assert_eq!(out, Some(b"hello".to_vec()));
    assert_eq!(r.len(), 0);
}

#[test]
fn fragments_reassemble_in_order() {
    let mut r = IpReassembler::new(30);
    let frags = three_fragments();
    assert_eq!(r.process_fragment(&frags[0].0, &frags[0].1, 0), None);
    assert_eq!(r.process_fragment(&frags[1].0, &frags[1].1, 1), None);
    let out = r.process_fragment(&frags[2].0, &frags[2].1, 2);
    assert_eq!(out, Some((0u8..20).collect::<Vec<u8>>()));
    assert_eq!(r.len(), 0);
}

#[test]
fn fragments_reassemble_in_any_order() {
    // every arrival order yields the identical 20-byte reconstruction
    let orders: [[usize; 3]; 6] =
        [[0, 1, 2], [0, 2, 1], [1, 0, 2], [1, 2, 0], [2, 0, 1], [2, 1, 0]];
    for order in orders {
        let mut r = IpReassembler::new(30);
        let frags = three_fragments();
        let mut outputs = Vec::new();
        for &i in order.iter() {
            if let Some(out) = r.process_fragment(&frags[i].0, &frags[i].1, 0) {
                outputs.push(out);
            }
        }
        assert_eq!(outputs, vec![(0u8..20).collect::<Vec<u8>>()], "order {:?}", order);
        assert_eq!(r.len(), 0, "order {:?}", order);
    }
}

#[test]
fn fragment_subset_yields_no_output() {
    // any strict subset of the fragments never completes
    for withhold in 0..3usize {
        let mut r = IpReassembler::new(30);
        let frags = three_fragments();
        for i in 0..3usize {
            if i != withhold {
                assert_eq!(r.process_fragment(&frags[i].0, &frags[i].1, 0), None);
            }
        }
        assert_eq!(r.len(), 1);
    }
}

#[test]
fn duplicate_offset_overwrites() {
    let mut r = IpReassembler::new(30);
    let frags = three_fragments();
    assert_eq!(r.process_fragment(&frags[0].0, &[0xaa; 8], 0), None);
    // the same offset arrives again with the bytes that belong there
    assert_eq!(r.process_fragment(&frags[0].0, &frags[0].1, 1), None);
    assert_eq!(r.process_fragment(&frags[1].0, &frags[1].1, 2), None);
    let out = r.process_fragment(&frags[2].0, &frags[2].1, 3);
    assert_eq!(out, Some((0u8..20).collect::<Vec<u8>>()));
}

#[test]
fn stale_set_is_purged_and_never_contributes() {
    let mut r = IpReassembler::new(30);
    let frags = three_fragments();
    assert_eq!(r.process_fragment(&frags[0].0, &frags[0].1, 0), None);
    assert_eq!(r.process_fragment(&frags[1].0, &frags[1].1, 5), None);
    assert_eq!(r.len(), 1);
    // untouched for longer than the timeout: purged with no output
    r.cleanup(40);
    assert_eq!(r.len(), 0);
    // a later fragment for the same key starts a fresh set, so the datagram
    // never completes from the purged pieces
    assert_eq!(r.process_fragment(&frags[2].0, &frags[2].1, 41), None);
    assert_eq!(r.len(), 1);
}

#[test]
fn cleanup_keeps_fresh_sets() {
    let mut r = IpReassembler::new(30);
    let frags = three_fragments();
    assert_eq!(r.process_fragment(&frags[0].0, &frags[0].1, 0), None);
    r.cleanup(30); // age equals the timeout: not yet past it
    assert_eq!(r.len(), 1);
    r.cleanup(31);
    assert_eq!(r.len(), 0);
}

#[test]
fn distinct_keys_use_distinct_sets() {
    let mut r = IpReassembler::new(30);
    let a0 = frag_header(1, 0, true);
    let b0 = frag_header(2, 0, true);
    assert_eq!(r.process_fragment(&a0, &[1; 8], 0), None);
    assert_eq!(r.process_fragment(&b0, &[2; 8], 0), None);
    assert_eq!(r.len(), 2);
    let a1 = frag_header(1, 1, false);
    let out = r.process_fragment(&a1, &[3; 4], 1);
    let mut expected = vec![1u8; 8];
    expected.extend_from_slice(&[3; 4]);
    assert_eq!(out, Some(expected));
    assert_eq!(r.len(), 1);
}
