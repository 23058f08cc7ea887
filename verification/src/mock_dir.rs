//! Mock directory entries: the `i`-th name, link and entry of a synthetic
//! directory, ordered by `i`.

use crate::wire::{le_bytes, lemma_le_bytes_len, push_le};
use crate::text::push_char;
use vstd::prelude::*;

verus! {

/// What a directory entry points to.
#[derive(Clone, Debug, PartialEq, Eq)]
pub enum OwnedLink {
    /// The hash of a file's or a directory's content.
    Content([u8; 32]),
    /// The target path of a symbolic link.
    Link(Vec<u8>),
}

/// A directory entry that owns its name.
#[derive(Clone, Debug, PartialEq, Eq)]
pub struct OwnedEntry {
    pub name: Vec<u8>,
    pub link: OwnedLink,
}

/// Number of letters in a mock name.
pub const NAME_WIDTH: usize = 14;

/// The last `width` digits of `i` in base 26, most significant first, each
/// written as a capital letter (`A` for zero).
pub open spec fn name_bytes(i: nat, width: nat) -> Seq<u8>
    decreases width,
{
    if width == 0 {
        Seq::empty()
    } else {
        name_bytes(i / 26, (width - 1) as nat).push((65 + i % 26) as u8)
    }
}

/// The characters of the `i`-th mock name.
pub open spec fn name_text(i: nat) -> Seq<char> {
    name_bytes(i, NAME_WIDTH as nat).map_values(|b: u8| b as char)
}

/// The 32 bytes of the `i`-th mock link: `i` in eight little-endian bytes,
/// then zeros.
pub open spec fn link_bytes(i: nat) -> Seq<u8> {
    le_bytes(i, 8).add(Seq::new(24, |k: int| 0u8))
}

/// A mock name has as many letters as asked for.
pub proof fn lemma_name_bytes_len(i: nat, width: nat)
    ensures
        name_bytes(i, width).len() == width,
    decreases width,
{
    if width > 0 {
        lemma_name_bytes_len(i / 26, (width - 1) as nat);
    }
}

/// The number of names of `width` letters.
pub open spec fn name_count(width: nat) -> nat
    decreases width,
{
    if width == 0 {
        1
    } else {
        26 * name_count((width - 1) as nat)
    }
}

/// Every index has a name of fourteen letters.
pub proof fn lemma_every_index_has_a_name(i: usize)
    ensures
        i < name_count(NAME_WIDTH as nat),
{
    reveal_with_fuel(name_count, 15);
    assert(name_count(14) == 64509974703297150976);
}

/// Whether `a` comes before `b` in the order of the dictionary, for names of
/// one length: at the first place where they differ, `a` has the smaller
/// letter.
pub open spec fn sorts_before(a: Seq<u8>, b: Seq<u8>) -> bool {
    exists|k: int|
        0 <= k < a.len() && k < b.len() && a[k] < b[k] && forall|j: int|
            0 <= j < k ==> a[j] == b[j]
}

/// Names sort like their indices: of two indices that can be written in
/// `width` letters, the smaller has the name that comes first.
pub proof fn lemma_names_sort_like_indices(a: nat, b: nat, width: nat)
    requires
        a < b < name_count(width),
    ensures
        sorts_before(name_bytes(a, width), name_bytes(b, width)),
    decreases width,
{
    if width > 0 {
        let w = (width - 1) as nat;
        let x = name_bytes(a, width);
        let y = name_bytes(b, width);
        lemma_name_bytes_len(a / 26, w);
        lemma_name_bytes_len(b / 26, w);
        lemma_name_bytes_len(a, width);
        lemma_name_bytes_len(b, width);
        if a / 26 < b / 26 {
            lemma_names_sort_like_indices(a / 26, b / 26, w);
            let head_a = name_bytes(a / 26, w);
            let head_b = name_bytes(b / 26, w);
            let k = choose|k: int|
                0 <= k < head_a.len() && k < head_b.len() && head_a[k] < head_b[k] && forall|
                    j: int,
                |
                    0 <= j < k ==> head_a[j] == head_b[j];
            assert(x[k] == head_a[k] && y[k] == head_b[k]);
            assert forall|j: int| 0 <= j < k implies x[j] == y[j] by {
                assert(head_a[j] == head_b[j]);
            }
        } else {
            assert(a / 26 == b / 26);
            assert(a % 26 < b % 26);
            let k = w as int;
            assert(x[k] == (65 + a % 26) as u8);
            assert(y[k] == (65 + b % 26) as u8);
            assert forall|j: int| 0 <= j < k implies x[j] == y[j] by {
                assert(x[j] == name_bytes(a / 26, w)[j]);
                assert(y[j] == name_bytes(b / 26, w)[j]);
            }
        }
    }
}

fn push_name(out: &mut Vec<u8>, i: usize, width: usize)
    ensures
        final(out)@ == old(out)@.add(name_bytes(i as nat, width as nat)),
    decreases width,
{
    if width == 0 {
        assert(out@ =~= old(out)@.add(name_bytes(i as nat, 0)));
    } else {
        push_name(out, i / 26, width - 1);
        let letter: u8 = 65u8 + (i % 26) as u8;
        out.push(letter);
        assert(out@ =~= old(out)@.add(name_bytes(i as nat, width as nat)));
    }
}

/// The bytes of the `i`-th mock name.
pub fn name_as_bytes(i: usize) -> (bytes: Vec<u8>)
    ensures
        bytes@ == name_bytes(i as nat, NAME_WIDTH as nat),
{
    let mut bytes: Vec<u8> = Vec::new();
    push_name(&mut bytes, i, NAME_WIDTH);
    assert(bytes@ =~= name_bytes(i as nat, NAME_WIDTH as nat));
    bytes
}

/// Returns the `i`-th name: fourteen capital letters that spell `i` in base
/// 26, so that a smaller `i` gives a name that sorts first.
pub fn name(i: usize) -> (text: String)
    ensures
        text@ == name_text(i as nat),
{
    let bytes = name_as_bytes(i);
    proof {
        lemma_name_bytes_len(i as nat, NAME_WIDTH as nat);
    }
    let mut text = String::new();
    let mut k: usize = 0;
    while k < bytes.len()
        invariant
            k <= bytes.len(),
            text@ == bytes@.take(k as int).map_values(|b: u8| b as char),
        decreases bytes.len() - k,
    {
        let c: char = bytes[k] as char;
        push_char(&mut text, c);
        assert(text@ =~= bytes@.take(k + 1).map_values(|b: u8| b as char));
        k += 1;
    }
    assert(bytes@.take(k as int) =~= bytes@);
    text
}

/// Returns the `i`-th link: a content hash that holds `i`.
pub fn link(i: usize) -> (l: OwnedLink)
    ensures
        l matches OwnedLink::Content(hash) && hash@ == link_bytes(i as nat),
{
    let mut low: Vec<u8> = Vec::new();
    push_le(&mut low, i as u64, 8);
    proof {
        lemma_le_bytes_len(i as nat, 8);
        assert(low@ =~= le_bytes(i as nat, 8));
    }
    let mut hash: [u8; 32] = [0u8; 32];
    let mut k: usize = 0;
    while k < 8
        invariant
            k <= 8,
            low@.len() == 8,
            forall|j: int| 0 <= j < k ==> hash@[j] == low@[j],
            forall|j: int| k <= j < 32 ==> hash@[j] == 0u8,
        decreases 8 - k,
    {
        hash[k] = low[k];
        k += 1;
    }
    assert(hash@ =~= link_bytes(i as nat));
    OwnedLink::Content(hash)
}

/// Returns the `i`-th directory entry: the `i`-th name with the `i`-th link.
pub fn entry(i: usize) -> (e: OwnedEntry)
    ensures
        e.name@ == name_bytes(i as nat, NAME_WIDTH as nat),
        e.link matches OwnedLink::Content(hash) && hash@ == link_bytes(i as nat),
{
    OwnedEntry { name: name_as_bytes(i), link: link(i) }
}

} // verus!
