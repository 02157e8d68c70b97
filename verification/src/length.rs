//! The encoded size of a set of properties, counted field by field: what the
//! `Length` derive of the property structs computes. Each present field takes
//! its value's encoding plus one identifier byte (per entry, for the list
//! fields); a field marked `Ignore` is not counted, and one marked `NoId` takes
//! no identifier byte. An absent optional field takes nothing.
use vstd::prelude::*;
use vstd::utf8::*;

use crate::codec::utf8_len;
use crate::varint::{spec_variable_length, variable_length};

verus! {

broadcast use vstd::utf8::group_utf8_lib;

/// The value of a field, by the kinds of field that are measured.
#[derive(Debug, Clone, PartialEq, Eq)]
pub enum FieldValue {
    /// A string: its UTF-8 bytes and a two byte length.
    Str(String),
    /// A byte.
    U8(u8),
    /// A two byte integer.
    U16(u16),
    /// A four byte integer.
    U32(u32),
    /// A boolean: one byte.
    Bool(bool),
    /// Binary data: its bytes and a two byte length.
    Binary(Vec<u8>),
    /// Key-value string pairs: each key and value with its two byte length.
    Pairs(Vec<(String, String)>),
    /// Strings: each with its two byte length.
    Strs(Vec<String>),
    /// An integer written as a Variable Byte Integer.
    Size(usize),
    /// Integers, each written as a Variable Byte Integer.
    Sizes(Vec<usize>),
}

/// How a field is counted.
#[derive(Debug, Clone, Copy, PartialEq, Eq)]
pub enum FieldAttr {
    /// With an identifier byte (per entry for the list fields).
    Counted,
    /// Without an identifier byte.
    NoId,
    /// Not at all.
    Ignore,
}

/// A field: its value (`None` for an absent optional field) and how it is counted.
#[derive(Debug, Clone, PartialEq, Eq)]
pub struct Field {
    pub value: Option<FieldValue>,
    pub attr: FieldAttr,
}

/// The fields of a property struct, in order.
#[derive(Debug, Clone, PartialEq, Eq)]
pub struct FieldList {
    pub fields: Vec<Field>,
}

/// The sum of a sequence of sizes.
pub open spec fn sum(s: Seq<nat>) -> nat
    decreases s.len(),
{
    if s.len() == 0 {
        0
    } else {
        sum(s.drop_last()) + s.last()
    }
}

/// The identifier bytes that one entry of a field takes.
pub open spec fn id_bytes(attr: FieldAttr) -> nat {
    if attr == FieldAttr::NoId {
        0
    } else {
        1
    }
}

pub open spec fn str_size(s: String) -> nat {
    encode_utf8(s@).len() + 2
}

pub open spec fn pair_sizes(p: Seq<(String, String)>, id: nat) -> Seq<nat> {
    p.map_values(|kv: (String, String)| str_size(kv.0) + str_size(kv.1) + id)
}

pub open spec fn str_sizes(s: Seq<String>, id: nat) -> Seq<nat> {
    s.map_values(|x: String| str_size(x) + id)
}

pub open spec fn varint_sizes(s: Seq<usize>, id: nat) -> Seq<nat> {
    s.map_values(|x: usize| spec_variable_length(x as nat) + id)
}

/// The bytes that a value takes, with `id` identifier bytes per entry.
pub open spec fn value_size(v: FieldValue, id: nat) -> nat {
    match v {
        FieldValue::Str(s) => str_size(s) + id,
        FieldValue::U8(_) => 1 + id,
        FieldValue::U16(_) => 2 + id,
        FieldValue::U32(_) => 4 + id,
        FieldValue::Bool(_) => 1 + id,
        FieldValue::Binary(b) => b@.len() + 2 + id,
        FieldValue::Pairs(p) => sum(pair_sizes(p@, id)),
        FieldValue::Strs(s) => sum(str_sizes(s@, id)),
        FieldValue::Size(n) => spec_variable_length(n as nat) + id,
        FieldValue::Sizes(v) => sum(varint_sizes(v@, id)),
    }
}

/// The bytes that a field takes.
pub open spec fn field_size(f: Field) -> nat {
    if f.attr == FieldAttr::Ignore {
        0
    } else {
        match f.value {
            None => 0,
            Some(v) => value_size(v, id_bytes(f.attr)),
        }
    }
}

pub open spec fn field_sizes(fs: Seq<Field>) -> Seq<nat> {
    fs.map_values(|f: Field| field_size(f))
}

/// The sum of the first `i + 1` sizes is that of the first `i` and the next.
pub proof fn lemma_sum_take_next(s: Seq<nat>, i: int)
    requires
        0 <= i < s.len(),
    ensures
        sum(s.take(i + 1)) == sum(s.take(i)) + s[i],
{
    assert(s.take(i + 1).drop_last() =~= s.take(i));
}

/// A sum of a prefix is at most the whole sum.
pub proof fn lemma_sum_take_le(s: Seq<nat>, i: int)
    requires
        0 <= i <= s.len(),
    ensures
        sum(s.take(i)) <= sum(s),
    decreases s.len() - i,
{
    if i < s.len() {
        lemma_sum_take_next(s, i);
        lemma_sum_take_le(s, i + 1);
    } else {
        assert(s.take(i) =~= s);
    }
}

/// When the whole sum fits a `usize`, so does each running sum.
proof fn lemma_sum_step_fits(s: Seq<nat>, i: int)
    requires
        0 <= i < s.len(),
        sum(s) <= usize::MAX,
    ensures
        sum(s.take(i)) + s[i] <= usize::MAX,
        sum(s.take(i + 1)) == sum(s.take(i)) + s[i],
{
    lemma_sum_take_next(s, i);
    lemma_sum_take_le(s, i + 1);
}

fn str_len(s: &String) -> (r: usize)
    requires
        str_size(*s) <= usize::MAX,
    ensures
        r == str_size(*s),
{
    utf8_len(s) + 2
}

/// The bytes that `v` takes, with `id` identifier bytes per entry.
pub fn value_len(v: &FieldValue, id: usize) -> (r: usize)
    requires
        value_size(*v, id as nat) <= usize::MAX,
    ensures
        r == value_size(*v, id as nat),
{
    match v {
        FieldValue::Str(s) => str_len(s) + id,
        FieldValue::U8(_) => 1 + id,
        FieldValue::U16(_) => 2 + id,
        FieldValue::U32(_) => 4 + id,
        FieldValue::Bool(_) => 1 + id,
        FieldValue::Binary(b) => b.len() + 2 + id,
        FieldValue::Pairs(p) => {
            let ghost sizes = pair_sizes(p@, id as nat);
            let mut acc: usize = 0;
            let mut i: usize = 0;
            while i < p.len()
                invariant
                    i <= p.len(),
                    sizes == pair_sizes(p@, id as nat),
                    sum(sizes) <= usize::MAX,
                    acc == sum(sizes.take(i as int)),
                decreases p.len() - i,
            {
                proof {
                    lemma_sum_step_fits(sizes, i as int);
                }
                let (k, x) = &p[i];
                acc = acc + str_len(k) + str_len(x) + id;
                i = i + 1;
            }
            assert(sizes.take(i as int) =~= sizes);
            acc
        },
        FieldValue::Strs(s) => {
            let ghost sizes = str_sizes(s@, id as nat);
            let mut acc: usize = 0;
            let mut i: usize = 0;
            while i < s.len()
                invariant
                    i <= s.len(),
                    sizes == str_sizes(s@, id as nat),
                    sum(sizes) <= usize::MAX,
                    acc == sum(sizes.take(i as int)),
                decreases s.len() - i,
            {
                proof {
                    lemma_sum_step_fits(sizes, i as int);
                }
                acc = acc + str_len(&s[i]) + id;
                i = i + 1;
            }
            assert(sizes.take(i as int) =~= sizes);
            acc
        },
        FieldValue::Size(n) => variable_length(*n) + id,
        FieldValue::Sizes(v) => {
            let ghost sizes = varint_sizes(v@, id as nat);
            let mut acc: usize = 0;
            let mut i: usize = 0;
            while i < v.len()
                invariant
                    i <= v.len(),
                    sizes == varint_sizes(v@, id as nat),
                    sum(sizes) <= usize::MAX,
                    acc == sum(sizes.take(i as int)),
                decreases v.len() - i,
            {
                proof {
                    lemma_sum_step_fits(sizes, i as int);
                }
                acc = acc + variable_length(v[i]) + id;
                i = i + 1;
            }
            assert(sizes.take(i as int) =~= sizes);
            acc
        },
    }
}

/// The bytes that a field takes.
pub fn field_len(f: &Field) -> (r: usize)
    requires
        field_size(*f) <= usize::MAX,
    ensures
        r == field_size(*f),
{
    match f.attr {
        FieldAttr::Ignore => 0,
        attr => match &f.value {
            None => 0,
            Some(v) => {
                let id: usize = match attr {
                    FieldAttr::NoId => 0,
                    _ => 1,
                };
                value_len(v, id)
            },
        },
    }
}

impl FieldList {
    /// The bytes that the fields take together.
    pub open spec fn spec_len(&self) -> nat {
        sum(field_sizes(self.fields@))
    }

    /// The bytes that the fields take together; that total must fit a `usize`.
    pub fn len(&self) -> (r: usize)
        requires
            self.spec_len() <= usize::MAX,
        ensures
            r == self.spec_len(),
    {
        let ghost sizes = field_sizes(self.fields@);
        let mut acc: usize = 0;
        let mut i: usize = 0;
        while i < self.fields.len()
            invariant
                i <= self.fields.len(),
                sizes == field_sizes(self.fields@),
                sum(sizes) <= usize::MAX,
                acc == sum(sizes.take(i as int)),
            decreases self.fields.len() - i,
        {
            proof {
                lemma_sum_step_fits(sizes, i as int);
            }
            acc = acc + field_len(&self.fields[i]);
            i = i + 1;
        }
        assert(sizes.take(i as int) =~= sizes);
        acc
    }
}

/// Every measured field adds its own size, whatever comes before it: the size
/// of a list of fields with one more at the end is the old size plus that field's.
pub proof fn lemma_len_push(fs: Seq<Field>, f: Field)
    ensures
        sum(field_sizes(fs.push(f))) == sum(field_sizes(fs)) + field_size(f),
{
    assert(field_sizes(fs.push(f)).drop_last() =~= field_sizes(fs));
}

/// A field marked `Ignore` adds nothing.
pub proof fn lemma_ignored_field(fs: Seq<Field>, v: Option<FieldValue>)
    ensures
        sum(field_sizes(fs.push(Field { value: v, attr: FieldAttr::Ignore }))) == sum(field_sizes(fs)),
{
    lemma_len_push(fs, Field { value: v, attr: FieldAttr::Ignore });
}

/// What one field adds to the size: a string its UTF-8 length and two
/// length bytes, a byte or boolean one byte, integers two or four bytes,
/// binary data its length and two length bytes, an integer written as a
/// Variable Byte Integer its encoded length; plus one identifier byte when
/// counted with identifier, none when marked `NoId`. An ignored field or an
/// absent one adds nothing.
pub proof fn lemma_scalar_field_sizes(v: FieldValue, attr: FieldAttr)
    ensures
        field_size(Field { value: Some(v), attr }) == if attr == FieldAttr::Ignore {
            0
        } else {
            let id: nat = if attr == FieldAttr::Counted {
                1
            } else {
                0
            };
            match v {
                FieldValue::Str(s) => encode_utf8(s@).len() + 2 + id,
                FieldValue::U8(_) => 1 + id,
                FieldValue::U16(_) => 2 + id,
                FieldValue::U32(_) => 4 + id,
                FieldValue::Bool(_) => 1 + id,
                FieldValue::Binary(b) => b@.len() + 2 + id,
                FieldValue::Size(n) => spec_variable_length(n as nat) + id,
                _ => field_size(Field { value: Some(v), attr }),
            }
        },
        field_size(Field { value: None, attr }) == 0,
{
}

} // verus!
