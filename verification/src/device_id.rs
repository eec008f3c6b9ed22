use vstd::prelude::*;
use crate::track::{chars_of, copy_range, string_of};

verus! {

/// ASCII letters and digits, the alphabet every device identifier is drawn
/// from.
pub open spec fn is_alnum_char(c: char) -> bool {
    let u = c as u32;
    (0x30 <= u && u <= 0x39) || (0x41 <= u && u <= 0x5A) || (0x61 <= u && u <= 0x7A)
}

/// The uppercase hexadecimal digit for a value below sixteen.
pub open spec fn hex_digit(n: u8) -> char {
    if n < 10 {
        ((0x30 + n) as u8) as char
    } else {
        ((0x41 + (n - 10)) as u8) as char
    }
}

/// The canonical display form of a hardware address: zero-padded uppercase
/// hexadecimal pairs separated by colons.
pub open spec fn spec_mac_display(b: Seq<u8>) -> Seq<char>
    decreases b.len(),
{
    if b.len() == 0 {
        Seq::empty()
    } else if b.len() == 1 {
        seq![hex_digit(b[0] / 16), hex_digit(b[0] % 16)]
    } else {
        spec_mac_display(b.drop_last()) + seq![
            ':',
            hex_digit(b.last() / 16),
            hex_digit(b.last() % 16),
        ]
    }
}

/// The same address as bare hexadecimal pairs, no separators.
pub open spec fn mac_hex(b: Seq<u8>) -> Seq<char>
    decreases b.len(),
{
    if b.len() == 0 {
        Seq::empty()
    } else {
        mac_hex(b.drop_last()).push(hex_digit(b.last() / 16)).push(hex_digit(b.last() % 16))
    }
}

/// The sequence with every colon removed.
pub open spec fn strip_colons(s: Seq<char>) -> Seq<char>
    decreases s.len(),
{
    if s.len() == 0 {
        Seq::empty()
    } else {
        let rest = strip_colons(s.drop_last());
        if s.last() == ':' {
            rest
        } else {
            rest.push(s.last())
        }
    }
}

/// Removing the colons from the display form leaves exactly the bare pairs.
pub proof fn lemma_strip_display(b: Seq<u8>)
    ensures
        strip_colons(spec_mac_display(b)) == mac_hex(b),
    decreases b.len(),
{
    if b.len() == 0 {
    } else if b.len() == 1 {
        let h1 = hex_digit(b[0] / 16);
        let h2 = hex_digit(b[0] % 16);
        let d = spec_mac_display(b);
        assert(h1 != ':' && h2 != ':');
        assert(d =~= Seq::empty().push(h1).push(h2));
        assert(d.last() == h2);
        assert(d.drop_last() =~= Seq::<char>::empty().push(h1));
        assert(strip_colons(d) == strip_colons(d.drop_last()).push(h2));
        assert(d.drop_last().last() == h1);
        assert(d.drop_last().drop_last() =~= Seq::<char>::empty());
        assert(strip_colons(d.drop_last()) == strip_colons(d.drop_last().drop_last()).push(h1));
        assert(b[0] == b.last() && b.drop_last().len() == 0);
        assert(mac_hex(b) == mac_hex(b.drop_last()).push(h1).push(h2));
        assert(strip_colons(d) =~= mac_hex(b));
    } else {
        lemma_strip_display(b.drop_last());
        let head = spec_mac_display(b.drop_last());
        let h1 = hex_digit(b.last() / 16);
        let h2 = hex_digit(b.last() % 16);
        let d = spec_mac_display(b);
        assert(h1 != ':' && h2 != ':');
        assert(d =~= head.push(':').push(h1).push(h2));
        assert(d.drop_last() =~= head.push(':').push(h1));
        assert(d.drop_last().drop_last() =~= head.push(':'));
        assert(d.drop_last().drop_last().drop_last() =~= head);
        assert(d.last() == h2);
        assert(strip_colons(d) == strip_colons(d.drop_last()).push(h2));
        assert(d.drop_last().last() == h1);
        assert(strip_colons(d.drop_last()) == strip_colons(d.drop_last().drop_last()).push(h1));
        assert(d.drop_last().drop_last().last() == ':');
        assert(strip_colons(d.drop_last().drop_last()) == strip_colons(head));
        assert(mac_hex(b) == mac_hex(b.drop_last()).push(h1).push(h2));
        assert(strip_colons(d) =~= mac_hex(b));
    }
}

/// The bare pairs are twice as many characters as the address has bytes, and
/// every one of them is a letter or digit.
pub proof fn lemma_mac_hex_props(b: Seq<u8>)
    ensures
        mac_hex(b).len() == 2 * b.len(),
        forall|i: int| 0 <= i < mac_hex(b).len() ==> is_alnum_char(mac_hex(b)[i]),
    decreases b.len(),
{
    if b.len() > 0 {
        lemma_mac_hex_props(b.drop_last());
    }
}

/// True exactly when every byte of the address is zero; an all-zero address
/// is a placeholder reported by some interfaces, not a real hardware address.
pub fn is_zero_mac(mac: &Vec<u8>) -> (r: bool)
    ensures
        r == (forall|i: int| 0 <= i < mac@.len() ==> mac@[i] == 0),
{
    let mut i: usize = 0;
    while i < mac.len()
        invariant
            i <= mac@.len(),
            forall|j: int| 0 <= j < i ==> mac@[j] == 0,
        decreases mac@.len() - i,
    {
        if mac[i] != 0 {
            return false;
        }
        i += 1;
    }
    true
}

/// Relies on `mac_address::get_mac_address`: the first network interface's
/// hardware address, when the platform reports one; `MacAddress::bytes` is
/// its six-byte array. Which address comes back, if any, depends on the
/// machine, so nothing more is promised.
#[verifier::external_body]
fn mac_bytes() -> (r: Option<Vec<u8>>)
    ensures
        r matches Some(b) ==> b@.len() == 6,
{
    match mac_address::get_mac_address() {
        Ok(Some(m)) => Some(m.bytes().to_vec()),
        Ok(None) => None,
        Err(_) => None,
    }
}

/// Relies on rand's `Alphanumeric` distribution through
/// `SampleString::sample_string`: exactly `len` characters, each drawn from
/// a-z, A-Z and 0-9. The characters themselves are random.
#[verifier::external_body]
fn random_alphanumeric(len: usize) -> (r: String)
    ensures
        r@.len() == len,
        forall|i: int| 0 <= i < r@.len() ==> is_alnum_char(r@[i]),
{
    rand::distr::SampleString::sample_string(&rand::distr::Alphanumeric, &mut rand::rng(), len)
}

fn mac_display_string(b: &Vec<u8>) -> (r: String)
    requires
        b@.len() == 6,
    ensures
        r@ == spec_mac_display(b@),
{
    let mut out: Vec<char> = Vec::new();
    let mut k: usize = 0;
    while k < 6
        invariant
            b@.len() == 6,
            k <= 6,
            out@ == spec_mac_display(b@.subrange(0, k as int)),
        decreases 6 - k,
    {
        if k > 0 {
            out.push(':');
        }
        let byte = b[k];
        out.push(hex_digit_char(byte / 16));
        out.push(hex_digit_char(byte % 16));
        k += 1;
        proof {
            let pre = b@.subrange(0, k - 1);
            let cur = b@.subrange(0, k as int);
            assert(cur.drop_last() =~= pre);
            assert(cur.last() == b@[k - 1]);
            if k == 1 {
                assert(out@ =~= spec_mac_display(cur));
            } else {
                assert(out@ =~= spec_mac_display(pre) + seq![
                    ':',
                    hex_digit(cur.last() / 16),
                    hex_digit(cur.last() % 16),
                ]);
            }
        }
    }
    proof {
        assert(b@.subrange(0, 6) =~= b@);
    }
    string_of(&out)
}

fn hex_digit_char(n: u8) -> (c: char)
    requires
        n < 16,
    ensures
        c == hex_digit(n),
{
    if n < 10 {
        (0x30 + n) as char
    } else {
        (0x41 + (n - 10)) as char
    }
}

/// The display form of the machine's hardware address, unless the platform
/// reports none or only the all-zero placeholder.
pub fn get_primary_mac_address() -> (r: Option<String>)
    ensures
        r matches Some(s) ==> exists|b: Seq<u8>|
            b.len() == 6 && !(forall|i: int| 0 <= i < b.len() ==> b[i] == 0) && s@
                == spec_mac_display(b),
{
    match mac_bytes() {
        Some(mac) => {
            if !is_zero_mac(&mac) {
                let s = mac_display_string(&mac);
                proof {
                    assert(mac@.len() == 6 && !(forall|i: int| 0 <= i < mac@.len() ==> mac@[i]
                        == 0) && s@ == spec_mac_display(mac@));
                }
                Some(s)
            } else {
                None
            }
        },
        None => None,
    }
}

fn strip_colon_chars(v: &Vec<char>) -> (r: Vec<char>)
    ensures
        r@ == strip_colons(v@),
{
    let n = v.len();
    let mut r: Vec<char> = Vec::new();
    let mut i: usize = 0;
    while i < n
        invariant
            n == v@.len(),
            i <= n,
            r@ == strip_colons(v@.subrange(0, i as int)),
        decreases n - i,
    {
        let c = v[i];
        if c != ':' {
            r.push(c);
        }
        i += 1;
        proof {
            assert(v@.subrange(0, i as int).drop_last() =~= v@.subrange(0, i - 1));
            assert(v@.subrange(0, i as int).last() == v@[i - 1]);
        }
    }
    proof {
        assert(v@.subrange(0, n as int) =~= v@);
    }
    r
}

/// The identifier an address string yields: the separators removed, then
/// the last six characters (everything, when fewer remain).
pub fn device_id_from_mac(mac: &str) -> (r: String)
    ensures
        ({
            let clean = strip_colons(mac@);
            r@ == if clean.len() >= 6 {
                clean.subrange(clean.len() - 6, clean.len() as int)
            } else {
                clean
            }
        }),
{
    let chars = chars_of(mac);
    let clean = strip_colon_chars(&chars);
    let len = clean.len();
    let last_six = if len >= 6 {
        copy_range(&clean, len - 6, len)
    } else {
        clean
    };
    string_of(&last_six)
}

/// A six-character identifier for this machine: the last six hexadecimal
/// digits of its hardware address, or six random alphanumeric characters
/// when no usable address exists.
pub fn compute_device_id() -> (r: String)
    ensures
        r@.len() == 6,
        forall|i: int| 0 <= i < r@.len() ==> is_alnum_char(r@[i]),
{
    match get_primary_mac_address() {
        Some(mac) => {
            let ghost b = choose|b: Seq<u8>|
                b.len() == 6 && !(forall|i: int| 0 <= i < b.len() ==> b[i] == 0) && mac@
                    == spec_mac_display(b);
            proof {
                lemma_strip_display(b);
                lemma_mac_hex_props(b);
            }
            device_id_from_mac(mac.as_str())
        },
        None => random_alphanumeric(6),
    }
}

} // verus!
