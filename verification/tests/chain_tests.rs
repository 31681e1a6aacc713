//! The chained index under overflow.

use datanexus::index_chain::IndexChain;

fn entry(i: usize) -> Vec<u8> {
    let mut v = vec![0u8; 32];
    v[0] = (i & 0xff) as u8;
    v[1] = ((i >> 8) & 0xff) as u8;
    v[31] = 7;
    v
}

#[test]
fn chain_overflow_preserves_every_entry() {
    let first_page = entry(1000);
    let second_page = entry(2000);
    let mut chain = IndexChain::singleton(&first_page);
    let mut expected: Vec<Vec<u8>> = Vec::new();

    // 128 entries fill the first page without chaining.
    for i in 0..128 {
        let e = entry(i);
        let grew = chain.append(&e, &second_page);
        assert!(!grew);
        expected.push(e);
    }
    assert_eq!(chain.pages.len(), 1);
    assert_eq!(chain.pages[0].record.pointer, None);

    // The 129th entry chains a fresh page rather than overwriting.
    let e = entry(128);
    let grew = chain.append(&e, &second_page);
    expected.push(e);
    assert!(grew);
    assert_eq!(chain.pages.len(), 2);
    assert_eq!(chain.pages[0].record.pointer, Some(second_page.clone()));
    assert_eq!(chain.pages[1].address, second_page);
    assert_eq!(chain.pages[1].record.pointer, None);

    // Walking the chain recovers all 129 entries in insertion order.
    let walked = chain.all_entries();
    assert_eq!(walked.len(), 129);
    assert_eq!(walked, expected);
}

#[test]
fn chain_append_after_overflow_uses_second_page() {
    let mut chain = IndexChain::singleton(&entry(1000));
    for i in 0..129 {
        chain.append(&entry(i), &entry(2000));
    }
    let grew = chain.append(&entry(129), &entry(3000));
    assert!(!grew);
    assert_eq!(chain.pages.len(), 2);
    let walked = chain.all_entries();
    assert_eq!(walked.len(), 130);
    assert_eq!(walked[129], entry(129));
}
