//! The sizes of fields given by a `bytes` attribute: `#[bytes(n)]` gives a
//! field of `n` bytes, `#[bytes(wl_n)]` one of `n` bytes plus its content
//! ("with length"), `#[bytes(kv_n)]` a list of key-value pairs whose keys and
//! values each take `n` bytes plus their content, `#[bytes(max_n)]` one of at
//! most `n` bytes. A field of `n` bytes, an optional field and each pair of
//! a key-value list add one identifier byte; a field `#[bytes(wl_n)]` that is
//! not optional takes exactly `n` plus its content's length. A size of 0 is
//! not counted.
use vstd::prelude::*;
use vstd::string::StringSliceAdditionalSpecFns;

verus! {

/// The prefix of a size attribute.
#[derive(Debug, Clone, Copy, PartialEq, Eq, Structural)]
pub enum Prefix {
    /// With length: the content's length is added.
    Wl,
    /// At most the size.
    Max,
    /// Key-value pairs.
    Kv,
    Unknown,
}

/// A size attribute that is not a number.
#[derive(Debug, Clone, Copy, PartialEq, Eq, Structural)]
pub enum SizeError {
    /// "The size provided is invalid".
    InvalidSize,
}

/// A field as its size attribute and value describe it.
#[derive(Debug, Clone, PartialEq, Eq)]
pub struct SizedField {
    pub prefix: Prefix,
    /// The size from the attribute; 0 when the field has none.
    pub length: usize,
    /// Whether the field is an `Option`.
    pub optional: bool,
    /// Whether an optional field holds a value.
    pub present: bool,
    /// The length of the content of a "with length" field.
    pub content_len: usize,
    /// The key and value lengths of a key-value list.
    pub pairs: Vec<(usize, usize)>,
}

pub open spec fn sum_pairs(p: Seq<(usize, usize)>, length: nat) -> nat
    decreases p.len(),
{
    if p.len() == 0 {
        0
    } else {
        sum_pairs(p.drop_last(), length) + (1 + length + p.last().0 + length + p.last().1) as nat
    }
}

/// The bytes a field takes.
pub open spec fn spec_field_size(f: SizedField) -> nat {
    if f.length == 0 {
        0
    } else if f.optional && f.prefix == Prefix::Wl {
        if f.present {
            (f.length + 1 + f.content_len) as nat
        } else {
            0
        }
    } else if f.optional && f.prefix == Prefix::Max {
        0
    } else if f.prefix == Prefix::Kv {
        sum_pairs(f.pairs@, f.length as nat)
    } else if f.optional {
        if f.present {
            (f.length + 1) as nat
        } else {
            0
        }
    } else if f.prefix == Prefix::Wl {
        (f.length + f.content_len) as nat
    } else {
        (f.length + 1) as nat
    }
}

pub open spec fn spec_fields_size(fs: Seq<SizedField>) -> nat
    decreases fs.len(),
{
    if fs.len() == 0 {
        0
    } else {
        spec_fields_size(fs.drop_last()) + spec_field_size(fs.last())
    }
}

/// The bytes a field takes; the total must fit a `usize`.
pub fn field_size(f: &SizedField) -> (r: usize)
    requires
        spec_field_size(*f) <= usize::MAX,
    ensures
        r == spec_field_size(*f),
{
    if f.length == 0 {
        return 0;
    }
    if f.optional && f.prefix == Prefix::Wl {
        return if f.present {
            f.length + 1 + f.content_len
        } else {
            0
        };
    }
    if f.optional && f.prefix == Prefix::Max {
        return 0;
    }
    if f.prefix == Prefix::Kv {
        let mut size: usize = 0;
        let mut i: usize = 0;
        while i < f.pairs.len()
            invariant
                i <= f.pairs.len(),
                size == sum_pairs(f.pairs@.take(i as int), f.length as nat),
                sum_pairs(f.pairs@, f.length as nat) <= usize::MAX,
                f.prefix == Prefix::Kv,
            decreases f.pairs.len() - i,
        {
            proof {
                lemma_sum_pairs_prefix(f.pairs@, f.length as nat, i + 1);
                assert(f.pairs@.take(i + 1).drop_last() =~= f.pairs@.take(i as int));
            }
            let (k, v) = f.pairs[i];
            size = size + (1 + f.length + k + f.length + v);
            i = i + 1;
        }
        assert(f.pairs@.take(i as int) =~= f.pairs@);
        return size;
    }
    if f.optional {
        return if f.present {
            f.length + 1
        } else {
            0
        };
    }
    if f.prefix == Prefix::Wl {
        return f.length + f.content_len;
    }
    f.length + 1
}

proof fn lemma_sum_pairs_prefix(p: Seq<(usize, usize)>, length: nat, i: int)
    requires
        0 <= i <= p.len(),
    ensures
        sum_pairs(p.take(i), length) <= sum_pairs(p, length),
    decreases p.len() - i,
{
    if i < p.len() {
        assert(p.take(i + 1).drop_last() =~= p.take(i));
        lemma_sum_pairs_prefix(p, length, i + 1);
    } else {
        assert(p.take(i) =~= p);
    }
}

proof fn lemma_fields_size_prefix(fs: Seq<SizedField>, i: int)
    requires
        0 <= i <= fs.len(),
    ensures
        spec_fields_size(fs.take(i)) <= spec_fields_size(fs),
    decreases fs.len() - i,
{
    if i < fs.len() {
        assert(fs.take(i + 1).drop_last() =~= fs.take(i));
        lemma_fields_size_prefix(fs, i + 1);
    } else {
        assert(fs.take(i) =~= fs);
    }
}

/// The bytes the fields take together; the total must fit a `usize`.
pub fn fields_size(fs: &Vec<SizedField>) -> (r: usize)
    requires
        spec_fields_size(fs@) <= usize::MAX,
    ensures
        r == spec_fields_size(fs@),
{
    let mut size: usize = 0;
    let mut i: usize = 0;
    while i < fs.len()
        invariant
            i <= fs.len(),
            size == spec_fields_size(fs@.take(i as int)),
            spec_fields_size(fs@) <= usize::MAX,
        decreases fs.len() - i,
    {
        proof {
            lemma_fields_size_prefix(fs@, i + 1);
            assert(fs@.take(i + 1).drop_last() =~= fs@.take(i as int));
        }
        size = size + field_size(&fs[i]);
        i = i + 1;
    }
    assert(fs@.take(i as int) =~= fs@);
    size
}

/// The bytes of "max", "wl" and "kv".
pub open spec fn max_bytes() -> Seq<u8> {
    seq![0x6Du8, 0x61u8, 0x78u8]
}

pub open spec fn wl_bytes() -> Seq<u8> {
    seq![0x77u8, 0x6Cu8]
}

pub open spec fn kv_bytes() -> Seq<u8> {
    seq![0x6Bu8, 0x76u8]
}

pub open spec fn starts_with(s: Seq<u8>, p: Seq<u8>) -> bool {
    s.len() >= p.len() && s.take(p.len() as int) == p
}

/// Whether a size attribute starts with a prefix.
pub open spec fn has_prefix(s: Seq<u8>) -> bool {
    starts_with(s, max_bytes()) || starts_with(s, wl_bytes()) || starts_with(s, kv_bytes())
}

/// The index of the first `_` of `s` at or after `i`, or its length.
pub open spec fn underscore_at(s: Seq<u8>, i: int) -> int
    decreases s.len() - i,
{
    if i >= s.len() {
        s.len() as int
    } else if s[i] == 0x5Fu8 {
        i
    } else {
        underscore_at(s, i + 1)
    }
}

/// The prefix that a name stands for, any letters lowered.
pub open spec fn spec_prefix_from(name: Seq<u8>) -> Prefix {
    if name == wl_bytes() {
        Prefix::Wl
    } else if name == max_bytes() {
        Prefix::Max
    } else if name == kv_bytes() {
        Prefix::Kv
    } else {
        Prefix::Unknown
    }
}

pub open spec fn is_digit(b: u8) -> bool {
    0x30 <= b <= 0x39
}

/// The value of a sequence of decimal digits.
pub open spec fn digits_value(s: Seq<u8>) -> nat
    decreases s.len(),
{
    if s.len() == 0 {
        0
    } else {
        digits_value(s.drop_last()) * 10 + (s.last() - 0x30) as nat
    }
}

/// A size without its optional leading `+`.
pub open spec fn unsigned_part(s: Seq<u8>) -> Seq<u8> {
    if s.len() > 0 && s[0] == 0x2Bu8 {
        s.skip(1)
    } else {
        s
    }
}

pub open spec fn all_digits(d: Seq<u8>) -> bool {
    forall|i: int| 0 <= i < d.len() ==> is_digit(#[trigger] d[i])
}

/// A size as a decimal number (an optional `+`, then at least one digit,
/// at most `usize::MAX`).
pub open spec fn spec_parse_size(s: Seq<u8>) -> Option<usize> {
    let d = unsigned_part(s);
    if d.len() > 0 && all_digits(d) && digits_value(d) <= usize::MAX {
        Some(digits_value(d) as usize)
    } else {
        None
    }
}

/// What a size attribute gives: with a prefix, the prefix before the first
/// `_` and the size after it; else no prefix and the whole as the size.
pub open spec fn spec_get_size(s: Seq<u8>) -> Result<(Option<Prefix>, usize), SizeError> {
    if has_prefix(s) {
        let i = underscore_at(s, 0);
        let rest = s.skip(i + 1);
        match spec_parse_size(rest.take(underscore_at(rest, 0))) {
            Some(n) => Ok((Some(spec_prefix_from(s.take(i))), n)),
            None => Err(SizeError::InvalidSize),
        }
    } else {
        match spec_parse_size(s) {
            Some(n) => Ok((None, n)),
            None => Err(SizeError::InvalidSize),
        }
    }
}

proof fn lemma_underscore_at(s: Seq<u8>, i: int)
    requires
        0 <= i <= s.len(),
    ensures
        i <= underscore_at(s, i) <= s.len(),
        underscore_at(s, i) < s.len() ==> s[underscore_at(s, i)] == 0x5Fu8,
        forall|j: int| i <= j < underscore_at(s, i) ==> s[j] != 0x5Fu8,
    decreases s.len() - i,
{
    if i < s.len() && s[i] != 0x5Fu8 {
        lemma_underscore_at(s, i + 1);
    }
}

fn find_underscore(s: &[u8], from: usize) -> (r: usize)
    requires
        from <= s@.len(),
    ensures
        r == underscore_at(s@, from as int),
{
    let mut i = from;
    while i < s.len() && s[i] != 0x5F
        invariant
            from <= i <= s@.len(),
            underscore_at(s@, i as int) == underscore_at(s@, from as int),
        decreases s@.len() - i,
    {
        i = i + 1;
    }
    i
}

fn starts_with_bytes(s: &[u8], p: &[u8]) -> (r: bool)
    ensures
        r == starts_with(s@, p@),
{
    if s.len() < p.len() {
        return false;
    }
    let mut i: usize = 0;
    while i < p.len()
        invariant
            i <= p@.len() <= s@.len(),
            forall|j: int| 0 <= j < i ==> s@[j] == p@[j],
        decreases p@.len() - i,
    {
        if s[i] != p[i] {
            assert(s@.take(p@.len() as int)[i as int] != p@[i as int]);
            return false;
        }
        i = i + 1;
    }
    assert(s@.take(p@.len() as int) =~= p@);
    true
}

fn bytes_equal(a: &[u8], lo: usize, hi: usize, p: &[u8]) -> (r: bool)
    requires
        lo <= hi <= a@.len(),
    ensures
        r == (a@.subrange(lo as int, hi as int) == p@),
{
    if hi - lo != p.len() {
        return false;
    }
    let mut i: usize = 0;
    while i < p.len()
        invariant
            i <= p@.len(),
            hi - lo == p@.len(),
            lo <= hi <= a@.len(),
            forall|j: int| 0 <= j < i ==> a@[lo + j] == p@[j],
        decreases p@.len() - i,
    {
        if a[lo + i] != p[i] {
            assert(a@.subrange(lo as int, hi as int)[i as int] != p@[i as int]);
            return false;
        }
        i = i + 1;
    }
    assert(a@.subrange(lo as int, hi as int) =~= p@);
    true
}

/// The prefix that `s[lo..hi]` names.
fn prefix_from(s: &[u8], lo: usize, hi: usize) -> (r: Prefix)
    requires
        lo <= hi <= s@.len(),
    ensures
        r == spec_prefix_from(s@.subrange(lo as int, hi as int)),
{
    let wl: [u8; 2] = [0x77, 0x6C];
    let max: [u8; 3] = [0x6D, 0x61, 0x78];
    let kv: [u8; 2] = [0x6B, 0x76];
    assert(wl@ =~= wl_bytes());
    assert(max@ =~= max_bytes());
    assert(kv@ =~= kv_bytes());
    if bytes_equal(s, lo, hi, &wl) {
        Prefix::Wl
    } else if bytes_equal(s, lo, hi, &max) {
        Prefix::Max
    } else if bytes_equal(s, lo, hi, &kv) {
        Prefix::Kv
    } else {
        Prefix::Unknown
    }
}

proof fn lemma_digits_step(d: Seq<u8>, i: int)
    requires
        0 <= i < d.len(),
    ensures
        digits_value(d.take(i + 1)) == digits_value(d.take(i)) * 10 + (d[i] - 0x30) as nat,
{
    assert(d.take(i + 1).drop_last() =~= d.take(i));
}

proof fn lemma_digits_mono(d: Seq<u8>, i: int)
    requires
        0 <= i <= d.len(),
    ensures
        digits_value(d.take(i)) <= digits_value(d),
    decreases d.len() - i,
{
    if i < d.len() {
        lemma_digits_step(d, i);
        lemma_digits_mono(d, i + 1);
        assert(digits_value(d.take(i)) <= digits_value(d.take(i)) * 10) by (nonlinear_arith);
    } else {
        assert(d.take(i) =~= d);
    }
}

/// Reads `s[lo..hi]` as a decimal size.
fn parse_size(s: &[u8], lo: usize, hi: usize) -> (r: Option<usize>)
    requires
        lo <= hi <= s@.len(),
    ensures
        r == spec_parse_size(s@.subrange(lo as int, hi as int)),
{
    let ghost t = s@.subrange(lo as int, hi as int);
    let mut start = lo;
    if lo < hi && s[lo] == 0x2B {
        start = lo + 1;
    }
    let ghost d = s@.subrange(start as int, hi as int);
    assert(d =~= unsigned_part(t));
    if start == hi {
        return None;
    }
    let mut value: usize = 0;
    let mut i = start;
    while i < hi
        invariant
            lo <= start < hi <= s@.len(),
            start <= i <= hi,
            d == s@.subrange(start as int, hi as int),
            t == s@.subrange(lo as int, hi as int),
            d == unsigned_part(t),
            forall|j: int| 0 <= j < i - start ==> is_digit(#[trigger] d[j]),
            value == digits_value(d.take(i - start)),
        decreases hi - i,
    {
        let b = s[i];
        assert(b == d[i - start]);
        if b < 0x30 || b > 0x39 {
            assert(!is_digit(d[i - start]));
            assert(!all_digits(d));
            return None;
        }
        proof {
            lemma_digits_step(d, i - start);
        }
        match value.checked_mul(10) {
            Some(v) => match v.checked_add((b - 0x30) as usize) {
                Some(w) => {
                    value = w;
                },
                None => {
                    proof {
                        lemma_digits_mono(d, i - start + 1);
                        assert(v == value * 10);
                        assert(digits_value(d.take(i - start + 1)) > usize::MAX);
                    }
                    return None;
                },
            },
            None => {
                proof {
                    lemma_digits_mono(d, i - start + 1);
                    assert(digits_value(d.take(i - start + 1)) >= value * 10);
                }
                return None;
            },
        }
        i = i + 1;
    }
    assert(d.take(i - start) =~= d);
    Some(value)
}

/// Reads a size attribute's text. An attribute with a prefix must hold a `_`.
pub fn get_size(token: &str) -> (r: Result<(Option<Prefix>, usize), SizeError>)
    requires
        has_prefix(token.spec_bytes()) ==> underscore_at(token.spec_bytes(), 0) < token.spec_bytes().len(),
    ensures
        r == spec_get_size(token.spec_bytes()),
{
    let s = token.as_bytes();
    let ghost b = s@;
    let max: [u8; 3] = [0x6D, 0x61, 0x78];
    let wl: [u8; 2] = [0x77, 0x6C];
    let kv: [u8; 2] = [0x6B, 0x76];
    assert(wl@ =~= wl_bytes());
    assert(max@ =~= max_bytes());
    assert(kv@ =~= kv_bytes());
    let prefixed = starts_with_bytes(s, &max) || starts_with_bytes(s, &wl) || starts_with_bytes(s, &kv);
    assert(b == token.spec_bytes());
    if prefixed {
        assert(has_prefix(b));
        let i = find_underscore(s, 0);
        proof {
            lemma_underscore_at(b, 0);
        }
        assert(i < b.len());
        let n = s.len();
        assert(i < n);
        let j = find_underscore(s, i + 1);
        proof {
            let rest = b.skip(i + 1);
            lemma_underscore_at(b, i + 1);
            lemma_underscore_at(rest, 0);
            assert forall|k: int| 0 <= k <= rest.len() implies underscore_at(rest, k) + i + 1 == underscore_at(
                b,
                k + i + 1,
            ) by {
                lemma_underscore_shift(b, i + 1, k);
            }
            assert(rest.take(underscore_at(rest, 0)) =~= b.subrange(i + 1, j as int));
            assert(b.take(i as int) =~= b.subrange(0, i as int));
        }
        let p = prefix_from(s, 0, i);
        match parse_size(s, i + 1, j) {
            Some(n) => Ok((Some(p), n)),
            None => Err(SizeError::InvalidSize),
        }
    } else {
        assert(b.subrange(0, b.len() as int) =~= b);
        match parse_size(s, 0, s.len()) {
            Some(n) => Ok((None, n)),
            None => Err(SizeError::InvalidSize),
        }
    }
}

proof fn lemma_underscore_shift(s: Seq<u8>, off: int, k: int)
    requires
        0 <= off <= s.len(),
        0 <= k <= s.len() - off,
    ensures
        underscore_at(s.skip(off), k) + off == underscore_at(s, k + off),
    decreases s.len() - off - k,
{
    if k < s.len() - off {
        assert(s.skip(off)[k] == s[k + off]);
        if s[k + off] != 0x5Fu8 {
            lemma_underscore_shift(s, off, k + 1);
        }
    }
}

/// The size of a field by its attribute: a field without a size attribute
/// (size 0) adds nothing. Otherwise a plain field of `n` bytes adds `n` and
/// one identifier byte, or nothing when it is an absent `Option`; a field
/// `wl_n` that is not optional adds `n` and its content's length; an
/// optional `wl_n` adds `n`, one identifier byte and its content's length
/// when present, nothing when absent; an optional `max_n` adds nothing; a
/// key-value list `kv_n` adds, for each pair, one identifier byte, `n` and
/// the key's length, and `n` and the value's length.
pub proof fn lemma_field_sizes(f: SizedField, k: usize, v: usize)
    ensures
        f.length == 0 ==> spec_field_size(f) == 0,
        f.length > 0 && f.prefix == Prefix::Wl && !f.optional ==> spec_field_size(f) == f.length + f.content_len,
        f.length > 0 && f.prefix == Prefix::Wl && f.optional ==> spec_field_size(f) == (if f.present {
            f.length + 1 + f.content_len
        } else {
            0
        }),
        f.length > 0 && f.prefix == Prefix::Max && f.optional ==> spec_field_size(f) == 0,
        f.length > 0 && (f.prefix == Prefix::Unknown || (f.prefix == Prefix::Max && !f.optional))
            ==> spec_field_size(f) == (if !f.optional || f.present {
            f.length + 1
        } else {
            0
        }),
        f.length > 0 && f.prefix == Prefix::Kv ==> spec_field_size(f) == sum_pairs(f.pairs@, f.length as nat),
        sum_pairs(Seq::empty(), f.length as nat) == 0,
        sum_pairs(f.pairs@.push((k, v)), f.length as nat) == sum_pairs(f.pairs@, f.length as nat) + 1 + 2
            * f.length + k + v,
{
    assert(f.pairs@.push((k, v)).drop_last() =~= f.pairs@);
}

} // verus!
