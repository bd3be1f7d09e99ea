//! Stable connection UUIDs derived from interface names.

use vstd::prelude::*;

use crate::text::{hex_fixed, hex_lower, push_char, push_hex_fixed};

verus! {

/// The 64-bit digest that std's `DefaultHasher` gives for `seed` followed by `name`.
pub uninterp spec fn default_hash(seed: Seq<char>, name: Seq<char>) -> u64;

/// Relies on `std::collections::hash_map::DefaultHasher`: `new` starts from
/// fixed keys, so the digest of the seed string followed by the name string
/// depends on the two strings alone.
#[verifier::external_body]
fn seeded_hash(seed: &str, name: &str) -> (r: u64)
    ensures
        r == default_hash(seed@, name@),
{
    let mut h = std::collections::hash_map::DefaultHasher::new();
    std::hash::Hash::hash(seed, &mut h);
    std::hash::Hash::hash(name, &mut h);
    std::hash::Hasher::finish(&h)
}

/// The UUID text for two digests: their 16 little-endian bytes laid out in
/// 8-4-4-4-12 groups of lower-case hex, each group read as a little-endian
/// number, with the low 16 bits of the final group forced to zero.
pub open spec fn uuid_text(h1: u64, h2: u64) -> Seq<char> {
    hex_fixed((h1 as nat) % 0x1_0000_0000, 8) + seq!['-'] + hex_fixed(
        ((h1 as nat) / 0x1_0000_0000) % 0x1_0000,
        4,
    ) + seq!['-'] + hex_fixed((h1 as nat) / 0x1_0000_0000_0000, 4) + seq!['-'] + hex_fixed(
        (h2 as nat) % 0x1_0000,
        4,
    ) + seq!['-'] + hex_fixed(((h2 as nat) / 0x1_0000_0000) * 0x1_0000, 12)
}

/// The UUID of the connection of the interface called `name`.
pub open spec fn connection_uuid_text(name: Seq<char>) -> Seq<char> {
    uuid_text(default_hash("nmlinkd"@, name), default_hash("nmlinkd2"@, name))
}

/// A lower-case hexadecimal digit.
pub open spec fn is_lower_hex(c: char) -> bool {
    ('0' <= c && c <= '9') || ('a' <= c && c <= 'f')
}

/// The canonical UUID layout: 36 characters, dashes at 8, 13, 18 and 23,
/// lower-case hex digits elsewhere.
pub open spec fn is_uuid_layout(s: Seq<char>) -> bool {
    &&& s.len() == 36
    &&& forall|i: int|
        0 <= i < 36 ==> if i == 8 || i == 13 || i == 18 || i == 23 {
            #[trigger] s[i] == '-'
        } else {
            is_lower_hex(s[i])
        }
}

proof fn lemma_hex_fixed(v: nat, width: nat)
    ensures
        hex_fixed(v, width).len() == width,
        forall|i: int| 0 <= i < width ==> is_lower_hex(#[trigger] hex_fixed(v, width)[i]),
    decreases width,
{
    if width > 0 {
        lemma_hex_fixed(v / 16, (width - 1) as nat);
        let d = (v % 16) as int;
        assert(is_lower_hex(hex_lower(d)));
    }
}

/// Formats two digests as a UUID (see `uuid_text`).
pub fn uuid_from_hashes(h1: u64, h2: u64) -> (r: String)
    ensures
        r@ == uuid_text(h1, h2),
        is_uuid_layout(r@),
{
    let mut r = String::new();
    push_hex_fixed(&mut r, h1 % 0x1_0000_0000, 8);
    push_char(&mut r, '-');
    push_hex_fixed(&mut r, (h1 / 0x1_0000_0000) % 0x1_0000, 4);
    push_char(&mut r, '-');
    push_hex_fixed(&mut r, h1 / 0x1_0000_0000_0000, 4);
    push_char(&mut r, '-');
    push_hex_fixed(&mut r, h2 % 0x1_0000, 4);
    push_char(&mut r, '-');
    push_hex_fixed(&mut r, (h2 / 0x1_0000_0000) * 0x1_0000, 12);
    assert(r@ =~= uuid_text(h1, h2));
    proof {
        lemma_uuid_layout(h1, h2);
    }
    r
}

proof fn lemma_uuid_layout(h1: u64, h2: u64)
    ensures
        is_uuid_layout(uuid_text(h1, h2)),
{
    let a = hex_fixed((h1 as nat) % 0x1_0000_0000, 8);
    let b = hex_fixed(((h1 as nat) / 0x1_0000_0000) % 0x1_0000, 4);
    let c = hex_fixed((h1 as nat) / 0x1_0000_0000_0000, 4);
    let d = hex_fixed((h2 as nat) % 0x1_0000, 4);
    let e = hex_fixed(((h2 as nat) / 0x1_0000_0000) * 0x1_0000, 12);
    lemma_hex_fixed((h1 as nat) % 0x1_0000_0000, 8);
    lemma_hex_fixed(((h1 as nat) / 0x1_0000_0000) % 0x1_0000, 4);
    lemma_hex_fixed((h1 as nat) / 0x1_0000_0000_0000, 4);
    lemma_hex_fixed((h2 as nat) % 0x1_0000, 4);
    lemma_hex_fixed(((h2 as nat) / 0x1_0000_0000) * 0x1_0000, 12);
    let s = uuid_text(h1, h2);
    assert(s =~= a + seq!['-'] + b + seq!['-'] + c + seq!['-'] + d + seq!['-'] + e);
    assert forall|i: int| 0 <= i < 36 implies if i == 8 || i == 13 || i == 18 || i == 23 {
        #[trigger] s[i] == '-'
    } else {
        is_lower_hex(s[i])
    } by {
        if i < 8 {
            assert(s[i] == a[i]);
        } else if i == 8 {
        } else if i < 13 {
            assert(s[i] == b[i - 9]);
        } else if i == 13 {
        } else if i < 18 {
            assert(s[i] == c[i - 14]);
        } else if i == 18 {
        } else if i < 23 {
            assert(s[i] == d[i - 19]);
        } else if i == 23 {
        } else {
            assert(s[i] == e[i - 24]);
        }
    }
}

/// The same interface name always gives the same UUID, and it has the
/// canonical 8-4-4-4-12 hexadecimal layout.
pub proof fn connection_uuid_is_canonical(name: Seq<char>)
    ensures
        is_uuid_layout(connection_uuid_text(name)),
        connection_uuid_text(name) == uuid_text(
            default_hash("nmlinkd"@, name),
            default_hash("nmlinkd2"@, name),
        ),
{
    lemma_uuid_layout(default_hash("nmlinkd"@, name), default_hash("nmlinkd2"@, name));
}

/// A stable UUID for the connection of the interface called `name`: two
/// digests of the name, under the seeds `nmlinkd` and `nmlinkd2`, laid out
/// as a UUID.
pub fn connection_uuid(name: &str) -> (r: String)
    ensures
        r@ == connection_uuid_text(name@),
        is_uuid_layout(r@),
{
    let h1 = seeded_hash("nmlinkd", name);
    let h2 = seeded_hash("nmlinkd2", name);
    uuid_from_hashes(h1, h2)
}

} // verus!
