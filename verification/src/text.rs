use vstd::prelude::*;
use vstd::string::StrSliceExecFns;

verus! {

// ---------------------------------------------------------------------------
// Character helpers
// ---------------------------------------------------------------------------

/// Uppercase an ASCII lowercase letter; leave every other character alone.
pub open spec fn spec_cap_char(c: char) -> char {
    if 97 <= c as u32 && c as u32 <= 122 {
        (((c as u32) - 32) as u8) as char
    } else {
        c
    }
}

/// Lowercase an ASCII uppercase letter; leave every other character alone.
pub open spec fn spec_low_char(c: char) -> char {
    if 65 <= c as u32 && c as u32 <= 90 {
        (((c as u32) + 32) as u8) as char
    } else {
        c
    }
}

/// A tag name is derived from a key by uppercasing only its first character.
pub open spec fn spec_capitalize(s: Seq<char>) -> Seq<char> {
    if s.len() == 0 {
        s
    } else {
        seq![spec_cap_char(s[0])] + s.skip(1)
    }
}

/// The inverse derivation: lowercase only the first character.
pub open spec fn spec_lowercase_first(s: Seq<char>) -> Seq<char> {
    if s.len() == 0 {
        s
    } else {
        seq![spec_low_char(s[0])] + s.skip(1)
    }
}

proof fn lemma_cap_char_idempotent(c: char)
    ensures
        spec_cap_char(spec_cap_char(c)) == spec_cap_char(c),
{
    if 97 <= c as u32 && c as u32 <= 122 {
        let d = (((c as u32) - 32) as u8) as char;
        assert(d as u32 == c as u32 - 32);
        assert(!(97 <= d as u32 && d as u32 <= 122));
    }
}

/// Capitalization is idempotent: deriving a tag name from a tag name
/// changes nothing, for every key.
pub proof fn lemma_capitalize_idempotent(k: Seq<char>)
    ensures
        spec_capitalize(spec_capitalize(k)) == spec_capitalize(k),
{
    if k.len() > 0 {
        let c = spec_cap_char(k[0]);
        let once = spec_capitalize(k);
        assert(once[0] == c);
        lemma_cap_char_idempotent(k[0]);
        assert(once.skip(1) =~= k.skip(1));
        assert(spec_capitalize(once) =~= once);
    }
}

// ---------------------------------------------------------------------------
// Executable string helpers
// ---------------------------------------------------------------------------

/// Relies on `String::from_iter` over `char`: the returned string holds
/// exactly the given characters, in order.
#[verifier::external_body]
pub fn chars_to_string(v: &Vec<char>) -> (s: String)
    ensures
        s@ == v@,
{
    v.iter().collect()
}

/// The characters of a string slice, in order.
pub fn str_chars(s: &str) -> (v: Vec<char>)
    ensures
        v@ == s@,
{
    let n = s.unicode_len();
    let mut v: Vec<char> = Vec::new();
    let mut i: usize = 0;
    while i < n
        invariant
            n == s@.len(),
            i <= n,
            v@ == s@.subrange(0, i as int),
        decreases n - i,
    {
        v.push(s.get_char(i));
        assert(v@ =~= s@.subrange(0, i + 1));
        i = i + 1;
    }
    assert(v@ =~= s@);
    v
}

/// Character-for-character equality of two string slices.
pub fn str_eq(a: &str, b: &str) -> (r: bool)
    ensures
        r == (a@ == b@),
{
    let an = a.unicode_len();
    let bn = b.unicode_len();
    if an != bn {
        assert(a@ != b@);
        return false;
    }
    let mut i: usize = 0;
    while i < an
        invariant
            an == a@.len(),
            an == b@.len(),
            i <= an,
            forall|j: int| 0 <= j < i ==> a@[j] == b@[j],
        decreases an - i,
    {
        if a.get_char(i) != b.get_char(i) {
            return false;
        }
        i = i + 1;
    }
    proof {
        assert(a@ =~= b@);
    }
    true
}

fn cap_char(c: char) -> (r: char)
    ensures
        r == spec_cap_char(c),
{
    let u = c as u32;
    if 97 <= u && u <= 122 {
        ((u - 32) as u8) as char
    } else {
        c
    }
}

fn low_char(c: char) -> (r: char)
    ensures
        r == spec_low_char(c),
{
    let u = c as u32;
    if 65 <= u && u <= 90 {
        ((u + 32) as u8) as char
    } else {
        c
    }
}

/// Uppercase the first character of a word; the rest passes through.
pub fn capitalize_word(word: &str) -> (r: String)
    ensures
        r@ == spec_capitalize(word@),
{
    let n = word.unicode_len();
    if n == 0 {
        let r = String::new();
        assert(r@ =~= spec_capitalize(word@));
        return r;
    }
    let mut v: Vec<char> = Vec::new();
    v.push(cap_char(word.get_char(0)));
    let mut i: usize = 1;
    while i < n
        invariant
            n == word@.len(),
            1 <= i <= n,
            v@ == seq![spec_cap_char(word@[0])] + word@.subrange(1, i as int),
        decreases n - i,
    {
        v.push(word.get_char(i));
        assert(v@ =~= seq![spec_cap_char(word@[0])] + word@.subrange(1, i + 1));
        i = i + 1;
    }
    assert(v@ =~= spec_capitalize(word@));
    chars_to_string(&v)
}

/// Lowercase the first character of a word; the rest passes through.
pub fn lowercase_first_word(word: &str) -> (r: String)
    ensures
        r@ == spec_lowercase_first(word@),
{
    let n = word.unicode_len();
    if n == 0 {
        let r = String::new();
        assert(r@ =~= spec_lowercase_first(word@));
        return r;
    }
    let mut v: Vec<char> = Vec::new();
    v.push(low_char(word.get_char(0)));
    let mut i: usize = 1;
    while i < n
        invariant
            n == word@.len(),
            1 <= i <= n,
            v@ == seq![spec_low_char(word@[0])] + word@.subrange(1, i as int),
        decreases n - i,
    {
        v.push(word.get_char(i));
        assert(v@ =~= seq![spec_low_char(word@[0])] + word@.subrange(1, i + 1));
        i = i + 1;
    }
    assert(v@ =~= spec_lowercase_first(word@));
    chars_to_string(&v)
}

// ---------------------------------------------------------------------------
// Decimal rendering of integers
// ---------------------------------------------------------------------------

/// The decimal digit character for one digit value.
pub open spec fn spec_digit_char(d: nat) -> char {
    ((48 + d) as u8) as char
}

/// The decimal rendering of a natural number, most significant digit first.
pub open spec fn spec_dec(n: nat) -> Seq<char>
    decreases n,
{
    if n < 10 {
        seq![spec_digit_char(n)]
    } else {
        spec_dec(n / 10).push(spec_digit_char(n % 10))
    }
}

/// The decimal rendering of a signed integer: a minus sign, then digits.
pub open spec fn spec_dec_signed(i: int) -> Seq<char> {
    if i >= 0 {
        spec_dec(i as nat)
    } else {
        seq!['-'] + spec_dec((-i) as nat)
    }
}

/// The decimal rendering of an unsigned machine integer.
pub fn u64_dec_chars(n: u64) -> (v: Vec<char>)
    ensures
        v@ == spec_dec(n as nat),
    decreases n,
{
    if n < 10 {
        let mut v: Vec<char> = Vec::new();
        v.push(((48 + n) as u8) as char);
        assert(v@ =~= spec_dec(n as nat));
        v
    } else {
        let mut v = u64_dec_chars(n / 10);
        v.push(((48 + (n % 10)) as u8) as char);
        v
    }
}

/// The decimal rendering of a signed machine integer.
pub fn i64_dec_chars(i: i64) -> (v: Vec<char>)
    ensures
        v@ == spec_dec_signed(i as int),
{
    if i >= 0 {
        u64_dec_chars(i as u64)
    } else {
        let m: u64 = ((-(i + 1)) as u64) + 1;
        assert(m as nat == (-(i as int)) as nat);
        let mut v: Vec<char> = Vec::new();
        v.push('-');
        let mut d = u64_dec_chars(m);
        v.append(&mut d);
        assert(v@ =~= spec_dec_signed(i as int));
        v
    }
}

/// Every character of an unsigned decimal rendering is a digit; in
/// particular it never holds a decimal point.
pub proof fn lemma_dec_digits_only(n: nat)
    ensures
        forall|j: int|
            0 <= j < spec_dec(n).len() ==> 48 <= #[trigger] (spec_dec(n)[j] as u32) <= 57,
    decreases n,
{
    if n < 10 {
        assert(spec_dec(n)[0] == spec_digit_char(n));
        assert(48 <= spec_digit_char(n) as u32 <= 57);
    } else {
        lemma_dec_digits_only(n / 10);
        assert(48 <= spec_digit_char(n % 10) as u32 <= 57);
        assert forall|j: int| 0 <= j < spec_dec(n).len() implies 48 <= #[trigger] (spec_dec(
            n,
        )[j] as u32) <= 57 by {
            if j < spec_dec(n / 10).len() {
                assert(spec_dec(n)[j] == spec_dec(n / 10)[j]);
            } else {
                assert(spec_dec(n)[j] == spec_digit_char(n % 10));
            }
        }
    }
}

} // verus!
