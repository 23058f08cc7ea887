use lightning_core::mock_dir::{entry, link, name, name_as_bytes, OwnedEntry, OwnedLink};

#[test]
fn name_of_zero_is_all_a() {
    assert_eq!(name(0), "AAAAAAAAAAAAAA");
}

#[test]
fn name_counts_in_base_26() {
    assert_eq!(name(1), "AAAAAAAAAAAAAB");
    assert_eq!(name(25), "AAAAAAAAAAAAAZ");
    assert_eq!(name(26), "AAAAAAAAAAAABA");
    assert_eq!(name(27), "AAAAAAAAAAAABB");
    assert_eq!(name(26 * 26), "AAAAAAAAAAABAA");
    assert_eq!(name(26 * 26 + 26 * 3 + 7), "AAAAAAAAAAABDH");
}

#[test]
fn name_of_the_largest_index_fits() {
    let text = name(usize::MAX);
    assert_eq!(text.len(), 14);
    assert!(text.bytes().all(|b| b.is_ascii_uppercase()));
    if usize::MAX as u128 == u64::MAX as u128 {
        assert_eq!(text, "HLHXCZMXSYUMQP");
    }
}

#[test]
fn names_sort_like_their_indices() {
    let indices = [0usize, 1, 2, 25, 26, 27, 675, 676, 677, 1000, 17575, 17576, 1 << 20, 1 << 40];
    for pair in indices.windows(2) {
        assert!(name(pair[0]) < name(pair[1]), "{} and {}", pair[0], pair[1]);
    }
}

#[test]
fn name_bytes_are_the_name() {
    for i in [0usize, 5, 26, 12345] {
        assert_eq!(name_as_bytes(i), name(i).into_bytes());
    }
}

#[test]
fn link_holds_the_index_in_little_endian() {
    let mut expected = [0u8; 32];
    expected[0] = 0x02;
    expected[1] = 0x01;
    assert_eq!(link(0x0102), OwnedLink::Content(expected));
    assert_eq!(link(0), OwnedLink::Content([0; 32]));

    let mut expected = [0u8; 32];
    expected[..8].copy_from_slice(&(usize::MAX as u64).to_le_bytes());
    assert_eq!(link(usize::MAX), OwnedLink::Content(expected));
}

#[test]
fn entry_joins_name_and_link() {
    let e = entry(27);
    assert_eq!(
        e,
        OwnedEntry { name: b"AAAAAAAAAAAABB".to_vec(), link: link(27) }
    );
}
