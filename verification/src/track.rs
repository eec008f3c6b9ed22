use vstd::prelude::*;

verus! {

// ---------------------------------------------------------------------------
// Character classes
// ---------------------------------------------------------------------------

/// The decimal digits `0` through `9`.
pub open spec fn is_digit_char(c: char) -> bool {
    0x30 <= c as u32 && c as u32 <= 0x39
}

/// The Unicode white-space characters, the set that both `str::trim` and a
/// regular expression's `\s` class accept.
pub open spec fn is_space_char(c: char) -> bool {
    let u = c as u32;
    u == 0x09 || u == 0x0A || u == 0x0B || u == 0x0C || u == 0x0D || u == 0x20 || u == 0x85
        || u == 0xA0 || u == 0x1680 || (0x2000 <= u && u <= 0x200A) || u == 0x2028 || u == 0x2029
        || u == 0x202F || u == 0x205F || u == 0x3000
}

pub fn digit_char(c: char) -> (r: bool)
    ensures
        r == is_digit_char(c),
{
    let u = c as u32;
    0x30 <= u && u <= 0x39
}

pub fn space_char(c: char) -> (r: bool)
    ensures
        r == is_space_char(c),
{
    let u = c as u32;
    u == 0x09 || u == 0x0A || u == 0x0B || u == 0x0C || u == 0x0D || u == 0x20 || u == 0x85
        || u == 0xA0 || u == 0x1680 || (0x2000 <= u && u <= 0x200A) || u == 0x2028 || u == 0x2029
        || u == 0x202F || u == 0x205F || u == 0x3000
}

// ---------------------------------------------------------------------------
// Trimming and searching
// ---------------------------------------------------------------------------

/// Index of the first non-space character at or after `i`, or the length when
/// only spaces remain.
pub open spec fn first_non_space_at(s: Seq<char>, i: int) -> int
    decreases s.len() - i
    when 0 <= i <= s.len()
{
    if i >= s.len() {
        s.len() as int
    } else if is_space_char(s[i]) {
        first_non_space_at(s, i + 1)
    } else {
        i
    }
}

/// One past the last non-space character strictly before `i`, or 0 when only
/// spaces precede `i`.
pub open spec fn last_non_space_before(s: Seq<char>, i: int) -> int
    decreases i
    when 0 <= i <= s.len()
{
    if i <= 0 {
        0
    } else if is_space_char(s[i - 1]) {
        last_non_space_before(s, i - 1)
    } else {
        i
    }
}

/// The sequence with leading and trailing white space removed, as `str::trim`
/// leaves it.
pub open spec fn spec_trim(s: Seq<char>) -> Seq<char> {
    let a = first_non_space_at(s, 0);
    let b = last_non_space_before(s, s.len() as int);
    if a <= b {
        s.subrange(a, b)
    } else {
        Seq::empty()
    }
}

/// Index of the first occurrence of `c` at or after `i`, or the length when
/// `c` does not occur there.
pub open spec fn find_char_at(s: Seq<char>, c: char, i: int) -> int
    decreases s.len() - i
    when 0 <= i <= s.len()
{
    if i >= s.len() {
        s.len() as int
    } else if s[i] == c {
        i
    } else {
        find_char_at(s, c, i + 1)
    }
}

// ---------------------------------------------------------------------------
// The track-1 grammar
// ---------------------------------------------------------------------------

/// A qualifying identifier run starts at `i`: seven digits followed by three
/// white-space characters of fixed-width padding.
pub open spec fn id_match_at(s: Seq<char>, i: int) -> bool {
    &&& 0 <= i
    &&& i + 10 <= s.len()
    &&& forall|k: int| i <= k < i + 7 ==> is_digit_char(s[k])
    &&& forall|k: int| i + 7 <= k < i + 10 ==> is_space_char(s[k])
}

/// The greatest index strictly below `n` where a qualifying run starts, or -1
/// when there is none.
pub open spec fn last_id_match_upto(s: Seq<char>, n: int) -> int
    decreases n
    when 0 <= n <= s.len()
{
    if n <= 0 {
        -1
    } else if id_match_at(s, n - 1) {
        n - 1
    } else {
        last_id_match_upto(s, n - 1)
    }
}

/// The portion of the frame that is decoded: white space trimmed away, then
/// everything from the first end-of-track sentinel onward discarded.
pub open spec fn spec_track1(s: Seq<char>) -> Seq<char> {
    let t = spec_trim(s);
    t.subrange(0, find_char_at(t, '?', 0))
}

/// The display name: the trimmed text between the first two field separators
/// (or from the first separator to the end), or nothing when no separator
/// exists.
pub open spec fn spec_name(t: Seq<char>) -> Option<Seq<char>> {
    let p1 = find_char_at(t, '^', 0);
    if p1 == t.len() {
        None
    } else {
        let p2 = find_char_at(t, '^', p1 + 1);
        Some(spec_trim(t.subrange(p1 + 1, p2)))
    }
}

/// The identifier: the digits of the last qualifying run, or nothing when no
/// run qualifies.
pub open spec fn spec_identifier(t: Seq<char>) -> Option<Seq<char>> {
    let m = last_id_match_upto(t, t.len() as int);
    if m < 0 {
        None
    } else {
        Some(t.subrange(m, m + 7))
    }
}

/// Decoding a whole frame: identifier and name must both be present.
pub open spec fn spec_decode(s: Seq<char>) -> Option<(Seq<char>, Seq<char>)> {
    let t = spec_track1(s);
    match (spec_identifier(t), spec_name(t)) {
        (Some(id), Some(name)) => Some((id, name)),
        _ => None,
    }
}

// ---------------------------------------------------------------------------
// Executable helpers
// ---------------------------------------------------------------------------

/// Relies on `String::push`: appends exactly the given character.
#[verifier::external_body]
fn push_char(s: &mut String, c: char)
    ensures
        final(s)@ == old(s)@.push(c),
{
    s.push(c)
}

/// Builds the owned string holding exactly the characters of `v`.
pub fn string_of(v: &Vec<char>) -> (r: String)
    ensures
        r@ == v@,
{
    let mut r = String::new();
    let mut i: usize = 0;
    while i < v.len()
        invariant
            i <= v@.len(),
            r@ == v@.subrange(0, i as int),
        decreases v@.len() - i,
    {
        push_char(&mut r, v[i]);
        i += 1;
        proof {
            assert(r@ =~= v@.subrange(0, i as int));
        }
    }
    proof {
        assert(r@ =~= v@);
    }
    r
}

/// Collects the characters of a string slice.
pub fn chars_of(data: &str) -> (v: Vec<char>)
    ensures
        v@ == data@,
{
    let n = data.unicode_len();
    let mut v: Vec<char> = Vec::new();
    let mut i: usize = 0;
    while i < n
        invariant
            n == data@.len(),
            i <= n,
            v@ == data@.subrange(0, i as int),
        decreases n - i,
    {
        v.push(data.get_char(i));
        i += 1;
        proof {
            assert(v@ =~= data@.subrange(0, i as int));
        }
    }
    proof {
        assert(v@ =~= data@);
    }
    v
}

/// Copies `v[a..b]`.
pub(crate) fn copy_range(v: &Vec<char>, a: usize, b: usize) -> (r: Vec<char>)
    requires
        a <= b <= v@.len(),
    ensures
        r@ == v@.subrange(a as int, b as int),
{
    let mut r: Vec<char> = Vec::new();
    let mut i: usize = a;
    while i < b
        invariant
            a <= i <= b <= v@.len(),
            r@ == v@.subrange(a as int, i as int),
        decreases b - i,
    {
        r.push(v[i]);
        i += 1;
        proof {
            assert(r@ =~= v@.subrange(a as int, i as int));
        }
    }
    r
}

/// Finds the first occurrence of `c` at or after `from`.
pub(crate) fn find_char(v: &Vec<char>, c: char, from: usize) -> (r: usize)
    requires
        from <= v@.len(),
    ensures
        r == find_char_at(v@, c, from as int),
        from <= r <= v@.len(),
{
    let mut i: usize = from;
    while i < v.len()
        invariant
            from <= i <= v@.len(),
            find_char_at(v@, c, from as int) == find_char_at(v@, c, i as int),
        decreases v@.len() - i,
    {
        if v[i] == c {
            return i;
        }
        i += 1;
    }
    i
}

/// Removes leading and trailing white space.
pub(crate) fn trim_chars(v: &Vec<char>) -> (r: Vec<char>)
    ensures
        r@ == spec_trim(v@),
{
    let mut a: usize = 0;
    while a < v.len() && space_char(v[a])
        invariant
            a <= v@.len(),
            first_non_space_at(v@, 0) == first_non_space_at(v@, a as int),
        decreases v@.len() - a,
    {
        a += 1;
    }
    let mut b: usize = v.len();
    while b > 0 && space_char(v[b - 1])
        invariant
            b <= v@.len(),
            last_non_space_before(v@, v@.len() as int) == last_non_space_before(v@, b as int),
        decreases b,
    {
        b -= 1;
    }
    if a <= b {
        copy_range(v, a, b)
    } else {
        Vec::new()
    }
}

/// The scan for the last qualifying run is sound and complete: its result is
/// a qualifying run, and no later position is one.
pub proof fn lemma_last_id_match_props(s: Seq<char>, n: int)
    requires
        0 <= n <= s.len(),
    ensures
        ({
            let m = last_id_match_upto(s, n);
            &&& -1 <= m < n || (m == -1 && n == 0)
            &&& m >= 0 ==> id_match_at(s, m)
            &&& forall|j: int| m < j < n ==> !id_match_at(s, j)
        }),
    decreases n,
{
    if n > 0 && !id_match_at(s, n - 1) {
        lemma_last_id_match_props(s, n - 1);
    }
}

/// Checks whether a qualifying identifier run starts at `i`.
fn is_id_match(v: &Vec<char>, i: usize) -> (r: bool)
    ensures
        r == id_match_at(v@, i as int),
{
    let n = v.len();
    if n < 10 || i > n - 10 {
        return false;
    }
    let mut k: usize = 0;
    while k < 7
        invariant
            n == v@.len(),
            i + 10 <= n,
            k <= 7,
            forall|j: int| i <= j < i + k ==> is_digit_char(v@[j]),
        decreases 7 - k,
    {
        if !digit_char(v[i + k]) {
            return false;
        }
        k += 1;
    }
    let mut k: usize = 7;
    while k < 10
        invariant
            n == v@.len(),
            i + 10 <= n,
            7 <= k <= 10,
            forall|j: int| i <= j < i + 7 ==> is_digit_char(v@[j]),
            forall|j: int| i + 7 <= j < i + k ==> is_space_char(v@[j]),
        decreases 10 - k,
    {
        if !space_char(v[i + k]) {
            return false;
        }
        k += 1;
    }
    true
}

/// Finds the start of the last qualifying identifier run, scanning the whole
/// sequence.
fn last_id_match(v: &Vec<char>) -> (r: Option<usize>)
    ensures
        match r {
            Some(m) => last_id_match_upto(v@, v@.len() as int) == m,
            None => last_id_match_upto(v@, v@.len() as int) == -1,
        },
{
    let mut best: Option<usize> = None;
    let mut i: usize = 0;
    while i < v.len()
        invariant
            i <= v@.len(),
            match best {
                Some(m) => last_id_match_upto(v@, i as int) == m,
                None => last_id_match_upto(v@, i as int) == -1,
            },
        decreases v@.len() - i,
    {
        if is_id_match(v, i) {
            best = Some(i);
        }
        i += 1;
    }
    best
}

// ---------------------------------------------------------------------------
// The decoder
// ---------------------------------------------------------------------------

/// One successfully decoded card swipe: the identifier digits and the
/// cardholder's display name.
#[derive(Clone)]
pub struct CardData {
    pub onecard: String,
    pub name: String,
}

/// Decodes the accumulated text of one card swipe, or reports that the frame
/// is not a parseable track: the identifier is the last qualifying digit run,
/// the name the text between the first two field separators.
pub fn parse_card_data(data: &str) -> (r: Option<CardData>)
    ensures
        match r {
            Some(card) => spec_decode(data@) == Some((card.onecard@, card.name@)),
            None => spec_decode(data@) is None,
        },
{
    let v = chars_of(data);
    parse_card_chars(&v)
}

/// Decodes one frame already held as a character sequence.
pub fn parse_card_chars(v: &Vec<char>) -> (r: Option<CardData>)
    ensures
        match r {
            Some(card) => spec_decode(v@) == Some((card.onecard@, card.name@)),
            None => spec_decode(v@) is None,
        },
{
    let trimmed = trim_chars(v);
    let q = find_char(&trimmed, '?', 0);
    let track1 = copy_range(&trimmed, 0, q);
    proof {
        assert(track1@ == spec_track1(v@));
    }
    let p1 = find_char(&track1, '^', 0);
    if p1 == track1.len() {
        return None;
    }
    let p2 = find_char(&track1, '^', p1 + 1);
    let name_raw = copy_range(&track1, p1 + 1, p2);
    let name_chars = trim_chars(&name_raw);
    let m = last_id_match(&track1);
    match m {
        Some(m) => {
            proof {
                lemma_last_id_match_props(track1@, track1@.len() as int);
            }
            let id_chars = copy_range(&track1, m, m + 7);
            Some(CardData { onecard: string_of(&id_chars), name: string_of(&name_chars) })
        },
        None => None,
    }
}

/// Law: when the track section of a frame holds a field separator and at
/// least one qualifying digit run, decoding succeeds, and the identifier
/// comes from the last qualifying run — no earlier run is ever chosen.
pub proof fn lemma_decode_takes_last_run(f: Seq<char>, i: int)
    requires
        find_char_at(spec_track1(f), '^', 0) < spec_track1(f).len(),
        id_match_at(spec_track1(f), i),
    ensures
        spec_decode(f) is Some,
        ({
            let t = spec_track1(f);
            let m = last_id_match_upto(t, t.len() as int);
            &&& id_match_at(t, m)
            &&& i <= m
            &&& forall|j: int| m < j < t.len() ==> !id_match_at(t, j)
            &&& (spec_decode(f)->0).0 == t.subrange(m, m + 7)
        }),
{
    let t = spec_track1(f);
    lemma_last_id_match_props(t, t.len() as int);
    let m = last_id_match_upto(t, t.len() as int);
    assert(i < t.len());
    if m < i {
        assert(!id_match_at(t, i));
    }
}

} // verus!
