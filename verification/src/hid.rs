use vstd::prelude::*;
use crate::track::chars_of;

verus! {

/// `needle` occurs in `hay` starting at `i`.
pub open spec fn substring_at(hay: Seq<char>, needle: Seq<char>, i: int) -> bool {
    0 <= i && i + needle.len() <= hay.len() && hay.subrange(i, i + needle.len()) == needle
}

/// `needle` occurs somewhere in `hay`; an empty needle occurs everywhere,
/// exactly as `str::contains` has it.
pub open spec fn spec_contains(hay: Seq<char>, needle: Seq<char>) -> bool {
    exists|i: int| substring_at(hay, needle, i)
}

/// Case-sensitive substring test.
pub fn contains_sub(hay: &str, needle: &str) -> (r: bool)
    ensures
        r == spec_contains(hay@, needle@),
{
    let h = chars_of(hay);
    let n = chars_of(needle);
    let hn = h.len();
    let nn = n.len();
    if nn > hn {
        return false;
    }
    let last = hn - nn;
    let mut i: usize = 0;
    loop
        invariant
            h@ == hay@,
            n@ == needle@,
            hn == h@.len(),
            nn == n@.len(),
            nn <= hn,
            last == hn - nn,
            i <= last,
            forall|ii: int| 0 <= ii < i ==> !substring_at(hay@, needle@, ii),
        decreases last - i,
    {
        let mut j: usize = 0;
        let mut hit = true;
        while j < nn
            invariant
                hn == h@.len(),
                nn == n@.len(),
                i + nn <= hn,
                j <= nn,
                hit ==> forall|k: int| 0 <= k < j ==> h@[i + k] == n@[k],
                !hit ==> !substring_at(h@, n@, i as int),
            decreases nn - j,
        {
            if h[i + j] != n[j] {
                proof {
                    assert(h@.subrange(i as int, i + n@.len()) != n@) by {
                        if h@.subrange(i as int, i + n@.len()) == n@ {
                            assert(h@.subrange(i as int, i + n@.len())[j as int] == h@[i + j]);
                        }
                    }
                }
                hit = false;
                j = nn;
            } else {
                j += 1;
            }
        }
        if hit {
            proof {
                assert(hay@.subrange(i as int, i + needle@.len()) =~= needle@);
                assert(substring_at(hay@, needle@, i as int));
            }
            return true;
        }
        if i == last {
            proof {
                assert(!substring_at(hay@, needle@, i as int));
                assert forall|ii: int| !substring_at(hay@, needle@, ii) by {
                    if 0 <= ii && ii + needle@.len() <= hay@.len() {
                        assert(ii <= last);
                    }
                }
            }
            return false;
        }
        i += 1;
    }
}

/// Identifying metadata of one enumerated endpoint, the part the selection
/// logic reads.
pub struct DeviceDescriptor {
    pub vendor_id: u16,
    pub product_id: u16,
    pub manufacturer: String,
    pub product: String,
}

/// The acceptance predicates for one kind of device: a vendor-id equality
/// check, and case-sensitive substring checks against the manufacturer and
/// product strings; any one of them suffices.
pub struct DeviceSignature {
    pub vendor_id: u16,
    pub manufacturer_needles: Vec<String>,
    pub product_needles: Vec<String>,
}

/// The descriptor satisfies the signature.
pub open spec fn spec_matches(d: DeviceDescriptor, sig: DeviceSignature) -> bool {
    ||| d.vendor_id == sig.vendor_id
    ||| exists|i: int|
        0 <= i < sig.manufacturer_needles@.len() && spec_contains(
            d.manufacturer@,
            sig.manufacturer_needles@[i]@,
        )
    ||| exists|i: int|
        0 <= i < sig.product_needles@.len() && spec_contains(d.product@, sig.product_needles@[i]@)
}

pub fn matches_signature(d: &DeviceDescriptor, sig: &DeviceSignature) -> (r: bool)
    ensures
        r == spec_matches(*d, *sig),
{
    if d.vendor_id == sig.vendor_id {
        return true;
    }
    let mut i: usize = 0;
    while i < sig.manufacturer_needles.len()
        invariant
            i <= sig.manufacturer_needles@.len(),
            forall|ii: int|
                0 <= ii < i ==> !spec_contains(d.manufacturer@, sig.manufacturer_needles@[ii]@),
        decreases sig.manufacturer_needles@.len() - i,
    {
        if contains_sub(d.manufacturer.as_str(), sig.manufacturer_needles[i].as_str()) {
            return true;
        }
        i += 1;
    }
    let mut i: usize = 0;
    while i < sig.product_needles.len()
        invariant
            i <= sig.product_needles@.len(),
            forall|ii: int| 0 <= ii < i ==> !spec_contains(d.product@, sig.product_needles@[ii]@),
            forall|ii: int|
                0 <= ii < sig.manufacturer_needles@.len() ==> !spec_contains(
                    d.manufacturer@,
                    sig.manufacturer_needles@[ii]@,
                ),
        decreases sig.product_needles@.len() - i,
    {
        if contains_sub(d.product.as_str(), sig.product_needles[i].as_str()) {
            return true;
        }
        i += 1;
    }
    false
}

/// Picks the first enumerated descriptor satisfying the signature — "first
/// match wins" is the only ordering promise — and over an empty candidate
/// list finds nothing.
pub fn first_match(devices: &Vec<DeviceDescriptor>, sig: &DeviceSignature) -> (r: Option<usize>)
    ensures
        match r {
            Some(i) => i < devices@.len() && spec_matches(devices@[i as int], *sig) && forall|j:
                int|
                0 <= j < i ==> !spec_matches(devices@[j], *sig),
            None => forall|j: int| 0 <= j < devices@.len() ==> !spec_matches(devices@[j], *sig),
        },
        devices@.len() == 0 ==> r is None,
{
    let mut i: usize = 0;
    while i < devices.len()
        invariant
            i <= devices@.len(),
            forall|j: int| 0 <= j < i ==> !spec_matches(devices@[j], *sig),
        decreases devices@.len() - i,
    {
        if matches_signature(&devices[i], sig) {
            return Some(i);
        }
        i += 1;
    }
    None
}

/// The positions, in enumeration order, of the descriptors among the first
/// `n` that satisfy the signature.
pub open spec fn spec_candidates(
    devices: Seq<DeviceDescriptor>,
    sig: DeviceSignature,
    n: int,
) -> Seq<usize>
    decreases n
    when 0 <= n <= devices.len() <= usize::MAX
{
    if n <= 0 {
        Seq::empty()
    } else {
        let rest = spec_candidates(devices, sig, n - 1);
        if spec_matches(devices[n - 1], sig) {
            rest.push((n - 1) as usize)
        } else {
            rest
        }
    }
}

/// Lists the positions of every descriptor satisfying the signature, in
/// enumeration order. Pure query: the caller resolves positions back to
/// devices.
pub fn list_candidates(devices: &Vec<DeviceDescriptor>, sig: &DeviceSignature) -> (r: Vec<usize>)
    ensures
        r@ == spec_candidates(devices@, *sig, devices@.len() as int),
{
    let n = devices.len();
    let mut r: Vec<usize> = Vec::new();
    let mut i: usize = 0;
    while i < n
        invariant
            n == devices@.len(),
            i <= n,
            r@ == spec_candidates(devices@, *sig, i as int),
        decreases n - i,
    {
        if matches_signature(&devices[i], sig) {
            r.push(i);
        }
        i += 1;
    }
    r
}

/// The signature the card-reader worker opens its device by.
pub fn magtek_signature() -> (sig: DeviceSignature)
    ensures
        sig.vendor_id == 0x0801,
        sig.manufacturer_needles@.len() == 2,
        sig.manufacturer_needles@[0]@ == "MagTek"@,
        sig.manufacturer_needles@[1]@ == "Mag-Tek"@,
        sig.product_needles@.len() == 1,
        sig.product_needles@[0]@ == "MagTek"@,
{
    let mut manufacturer_needles: Vec<String> = Vec::new();
    manufacturer_needles.push("MagTek".to_owned());
    manufacturer_needles.push("Mag-Tek".to_owned());
    let mut product_needles: Vec<String> = Vec::new();
    product_needles.push("MagTek".to_owned());
    DeviceSignature { vendor_id: 0x0801, manufacturer_needles, product_needles }
}

/// The signature the barcode-scanner worker opens its device by.
pub fn symbol_scanner_signature() -> (sig: DeviceSignature)
    ensures
        sig.vendor_id == 0x05e0,
        sig.manufacturer_needles@.len() == 2,
        sig.manufacturer_needles@[0]@ == "Symbol"@,
        sig.manufacturer_needles@[1]@ == "Zebra"@,
        sig.product_needles@.len() == 1,
        sig.product_needles@[0]@ == "Scanner"@,
{
    let mut manufacturer_needles: Vec<String> = Vec::new();
    manufacturer_needles.push("Symbol".to_owned());
    manufacturer_needles.push("Zebra".to_owned());
    let mut product_needles: Vec<String> = Vec::new();
    product_needles.push("Scanner".to_owned());
    DeviceSignature { vendor_id: 0x05e0, manufacturer_needles, product_needles }
}

} // verus!
