//! Text forms: MAC addresses, decimal and hexadecimal numbers, and the
//! prefix test on interface names.

use vstd::prelude::*;

verus! {

/// Relies on `String::push`: the character is appended at the end.
#[verifier::external_body]
pub(crate) fn push_char(s: &mut String, c: char)
    ensures
        final(s)@ == old(s)@.push(c),
{
    s.push(c);
}

/// The upper-case hexadecimal digit of `n` (below 16).
pub open spec fn hex_upper(n: int) -> char {
    if n < 10 {
        (48 + n) as char
    } else {
        (55 + n) as char
    }
}

/// The lower-case hexadecimal digit of `n` (below 16).
pub open spec fn hex_lower(n: int) -> char {
    if n < 10 {
        (48 + n) as char
    } else {
        (87 + n) as char
    }
}

/// The value of a hexadecimal digit of either case; -1 for any other character.
pub open spec fn hex_value(c: char) -> int {
    if '0' <= c && c <= '9' {
        c as int - 48
    } else if 'A' <= c && c <= 'F' {
        c as int - 55
    } else if 'a' <= c && c <= 'f' {
        c as int - 87
    } else {
        -1
    }
}

/// The two upper-case hexadecimal digits of a byte.
pub open spec fn byte_text(b: u8) -> Seq<char> {
    seq![hex_upper(b as int / 16), hex_upper(b as int % 16)]
}

/// Bytes written as upper-case hex pairs joined by colons.
pub open spec fn mac_text(bytes: Seq<u8>) -> Seq<char>
    decreases bytes.len(),
{
    if bytes.len() == 0 {
        seq![]
    } else if bytes.len() == 1 {
        byte_text(bytes[0])
    } else {
        mac_text(bytes.drop_last()) + seq![':'] + byte_text(bytes.last())
    }
}

/// Reads colon-separated hex pairs back into bytes: byte `i` is the pair
/// that starts at character `3 * i`.
pub open spec fn parse_mac_text(s: Seq<char>) -> Seq<u8> {
    Seq::new(
        ((s.len() + 1) / 3) as nat,
        |i: int| (hex_value(s[3 * i]) * 16 + hex_value(s[3 * i + 1])) as u8,
    )
}

fn hex_digit_upper(n: u8) -> (c: char)
    requires
        n < 16,
    ensures
        c == hex_upper(n as int),
{
    if n < 10 {
        (n + 48) as char
    } else {
        (n + 55) as char
    }
}

fn hex_digit_lower(n: u8) -> (c: char)
    requires
        n < 16,
    ensures
        c == hex_lower(n as int),
{
    if n < 10 {
        (n + 48) as char
    } else {
        (n + 87) as char
    }
}

/// Formats bytes as upper-case hex pairs joined by `:` (`AA:BB:CC`).
pub fn format_mac(bytes: &[u8]) -> (r: String)
    ensures
        r@ == mac_text(bytes@),
{
    let mut r = String::new();
    let mut i: usize = 0;
    while i < bytes.len()
        invariant
            0 <= i <= bytes@.len(),
            r@ == mac_text(bytes@.subrange(0, i as int)),
        decreases bytes@.len() - i,
    {
        let b = bytes[i];
        if i > 0 {
            push_char(&mut r, ':');
        }
        push_char(&mut r, hex_digit_upper(b / 16));
        push_char(&mut r, hex_digit_upper(b % 16));
        proof {
            let next = bytes@.subrange(0, i + 1);
            assert(next.drop_last() =~= bytes@.subrange(0, i as int));
            assert(next.last() == b);
        }
        i += 1;
    }
    assert(bytes@.subrange(0, bytes@.len() as int) =~= bytes@);
    r
}

proof fn lemma_hex_upper_value(n: int)
    requires
        0 <= n < 16,
    ensures
        hex_value(hex_upper(n)) == n,
{
}

proof fn lemma_mac_text_shape(bytes: Seq<u8>)
    requires
        bytes.len() > 0,
    ensures
        mac_text(bytes).len() == 3 * bytes.len() - 1,
        forall|i: int|
            0 <= i < bytes.len() ==> {
                &&& #[trigger] mac_text(bytes)[3 * i] == hex_upper(bytes[i] as int / 16)
                &&& mac_text(bytes)[3 * i + 1] == hex_upper(bytes[i] as int % 16)
            },
    decreases bytes.len(),
{
    if bytes.len() > 1 {
        let front = bytes.drop_last();
        lemma_mac_text_shape(front);
        assert forall|i: int| 0 <= i < bytes.len() implies {
            &&& #[trigger] mac_text(bytes)[3 * i] == hex_upper(bytes[i] as int / 16)
            &&& mac_text(bytes)[3 * i + 1] == hex_upper(bytes[i] as int % 16)
        } by {
            if i < front.len() {
                assert(mac_text(front)[3 * i] == hex_upper(front[i] as int / 16));
            }
        }
    }
}

/// Reading the text of a six-byte MAC address back yields the same bytes.
pub proof fn format_mac_round_trip(bytes: Seq<u8>)
    requires
        bytes.len() == 6,
    ensures
        parse_mac_text(mac_text(bytes)) == bytes,
{
    lemma_mac_text_shape(bytes);
    let s = mac_text(bytes);
    let p = parse_mac_text(s);
    assert forall|i: int| 0 <= i < bytes.len() implies p[i] == bytes[i] by {
        let hi = bytes[i] as int / 16;
        let lo = bytes[i] as int % 16;
        assert(s[3 * i] == hex_upper(hi));
        lemma_hex_upper_value(hi);
        lemma_hex_upper_value(lo);
        assert(hi * 16 + lo == bytes[i] as int);
    }
    assert(p =~= bytes);
}

/// The decimal digits of `n`, most significant first.
pub open spec fn decimal_text(n: nat) -> Seq<char>
    decreases n,
{
    if n < 10 {
        seq![(48 + n) as char]
    } else {
        decimal_text(n / 10).push((48 + n % 10) as char)
    }
}

/// An integer in decimal, with a leading `-` when negative.
pub open spec fn int_text(i: int) -> Seq<char> {
    if i < 0 {
        seq!['-'] + decimal_text((-i) as nat)
    } else {
        decimal_text(i as nat)
    }
}

/// The lowest `width` hexadecimal digits of `v`, lower case, zero-padded.
pub open spec fn hex_fixed(v: nat, width: nat) -> Seq<char>
    decreases width,
{
    if width == 0 {
        seq![]
    } else {
        hex_fixed(v / 16, (width - 1) as nat).push(hex_lower((v % 16) as int))
    }
}

/// Appends the decimal digits of `n`.
fn push_decimal(s: &mut String, n: u64)
    ensures
        final(s)@ == old(s)@ + decimal_text(n as nat),
    decreases n,
{
    if n >= 10 {
        push_decimal(s, n / 10);
    }
    let d = (n % 10) as u8;
    push_char(s, (d + 48) as char);
    proof {
        assert(old(s)@ + decimal_text(n as nat) =~= final(s)@);
    }
}

/// Appends an integer in decimal, with a leading `-` when negative.
pub(crate) fn push_int(s: &mut String, i: i32)
    ensures
        final(s)@ == old(s)@ + int_text(i as int),
{
    if i < 0 {
        push_char(s, '-');
        let m: i64 = -(i as i64);
        push_decimal(s, m as u64);
        assert(final(s)@ =~= old(s)@ + int_text(i as int));
    } else {
        push_decimal(s, i as u64);
    }
}

/// Appends the lowest `width` hexadecimal digits of `v`, lower case.
pub(crate) fn push_hex_fixed(s: &mut String, v: u64, width: u32)
    ensures
        final(s)@ == old(s)@ + hex_fixed(v as nat, width as nat),
    decreases width,
{
    if width > 0 {
        push_hex_fixed(s, v / 16, width - 1);
        push_char(s, hex_digit_lower((v % 16) as u8));
        proof {
            assert(old(s)@ + hex_fixed(v as nat, width as nat) =~= final(s)@);
        }
    }
}

/// Appends the characters of a string slice.
pub(crate) fn push_str(s: &mut String, t: &str)
    ensures
        final(s)@ == old(s)@ + t@,
{
    s.append(t);
}

/// Whether `prefix` is a prefix of `s`.
pub fn starts_with(s: &str, prefix: &str) -> (r: bool)
    ensures
        r == prefix@.is_prefix_of(s@),
{
    let n = prefix.unicode_len();
    if n > s.unicode_len() {
        return false;
    }
    let mut i: usize = 0;
    while i < n
        invariant
            n == prefix@.len(),
            n <= s@.len(),
            0 <= i <= n,
            forall|j: int| 0 <= j < i ==> prefix@[j] == s@[j],
        decreases n - i,
    {
        if prefix.get_char(i) != s.get_char(i) {
            return false;
        }
        i += 1;
    }
    assert(prefix@ =~= s@.subrange(0, n as int));
    true
}

/// The name prefixes of interfaces that are never shown: loopback, container,
/// bridge, virtual-machine, tunnel and VPN interfaces.
pub open spec fn ignored_prefixes() -> Seq<Seq<char>> {
    seq![
        "lo"@,
        "docker"@,
        "veth"@,
        "br-"@,
        "virbr"@,
        "vnet"@,
        "wg"@,
        "tun"@,
        "tap"@,
        "tailscale"@,
        "podman"@,
    ]
}

/// Some ignored prefix starts `name`.
#[verifier::opaque]
pub open spec fn is_ignored_name(name: Seq<char>) -> bool {
    exists|k: int| 0 <= k < ignored_prefixes().len() && #[trigger] ignored_prefixes()[k].is_prefix_of(name)
}

/// Whether an interface of this name is left out of the model.
pub fn should_ignore_interface(name: &str) -> (r: bool)
    ensures
        r == is_ignored_name(name@),
{
    reveal(is_ignored_name);
    let ghost ps = ignored_prefixes();
    assert(ps.len() == 11);
    assert(ps[0] == "lo"@ && ps[1] == "docker"@ && ps[2] == "veth"@ && ps[3] == "br-"@);
    assert(ps[4] == "virbr"@ && ps[5] == "vnet"@ && ps[6] == "wg"@ && ps[7] == "tun"@);
    assert(ps[8] == "tap"@ && ps[9] == "tailscale"@ && ps[10] == "podman"@);
    if starts_with(name, "lo") {
        assert(ps[0].is_prefix_of(name@));
        return true;
    }
    if starts_with(name, "docker") {
        assert(ps[1].is_prefix_of(name@));
        return true;
    }
    if starts_with(name, "veth") {
        assert(ps[2].is_prefix_of(name@));
        return true;
    }
    if starts_with(name, "br-") {
        assert(ps[3].is_prefix_of(name@));
        return true;
    }
    if starts_with(name, "virbr") {
        assert(ps[4].is_prefix_of(name@));
        return true;
    }
    if starts_with(name, "vnet") {
        assert(ps[5].is_prefix_of(name@));
        return true;
    }
    if starts_with(name, "wg") {
        assert(ps[6].is_prefix_of(name@));
        return true;
    }
    if starts_with(name, "tun") {
        assert(ps[7].is_prefix_of(name@));
        return true;
    }
    if starts_with(name, "tap") {
        assert(ps[8].is_prefix_of(name@));
        return true;
    }
    if starts_with(name, "tailscale") {
        assert(ps[9].is_prefix_of(name@));
        return true;
    }
    if starts_with(name, "podman") {
        assert(ps[10].is_prefix_of(name@));
        return true;
    }
    assert forall|k: int| 0 <= k < ps.len() implies !(#[trigger] ps[k].is_prefix_of(name@)) by {
        if k == 0 {
        } else if k == 1 {
        } else if k == 2 {
        } else if k == 3 {
        } else if k == 4 {
        } else if k == 5 {
        } else if k == 6 {
        } else if k == 7 {
        } else if k == 8 {
        } else if k == 9 {
        } else {
        }
    }
    false
}

} // verus!
