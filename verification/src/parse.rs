//! Parsing of the comma-separated lists of CAN identifiers that configure a
//! node (its own identifiers and those it listens to).
//!
//! A list is written in hexadecimal, such as `0x123,0x456`; every field
//! between commas gives one identifier, kept to its 11 low bits. Characters
//! other than hexadecimal digits and commas are skipped, and at most
//! `MAX_IDS` identifiers are kept.

use vstd::prelude::*;
use vstd::string::StringSliceAdditionalSpecFns;

verus! {

/// Most identifiers that one list can configure.
pub const MAX_IDS: usize = 32;

/// Whether `b` is an ASCII hexadecimal digit.
pub open spec fn is_hex_digit(b: u8) -> bool {
    (48 <= b <= 57) || (97 <= b <= 102) || (65 <= b <= 70)
}

/// The value of an ASCII hexadecimal digit.
pub open spec fn hex_value(b: u8) -> int {
    if 48 <= b <= 57 {
        b - 48
    } else if 97 <= b <= 102 {
        b - 97 + 10
    } else {
        b - 65 + 10
    }
}

/// The fields of `s` between commas, in order; there is always at least one.
pub open spec fn fields(s: Seq<u8>) -> Seq<Seq<u8>>
    decreases s.len(),
{
    if s.len() == 0 {
        seq![Seq::<u8>::empty()]
    } else {
        let prev = fields(s.drop_last());
        if s.last() == 44 {
            prev.push(Seq::<u8>::empty())
        } else {
            prev.update(prev.len() - 1, prev.last().push(s.last()))
        }
    }
}

/// The hexadecimal number that the digits of a field spell, other characters skipped.
pub open spec fn field_value(f: Seq<u8>) -> int
    decreases f.len(),
{
    if f.len() == 0 {
        0
    } else if is_hex_digit(f.last()) {
        16 * field_value(f.drop_last()) + hex_value(f.last())
    } else {
        field_value(f.drop_last())
    }
}

/// Every field of `s` spells a number that fits in 16 bits.
pub open spec fn fields_fit_u16(s: Seq<u8>) -> bool {
    forall|k: int| 0 <= k < fields(s).len() ==> #[trigger] field_value(fields(s)[k]) <= 0xFFFF
}

pub open spec fn min_int(a: int, b: int) -> int {
    if a <= b {
        a
    } else {
        b
    }
}

/// The identifiers that a list configures: none for an empty list, else the
/// value of each of the first `MAX_IDS` fields, kept to its 11 low bits.
pub open spec fn spec_parse_ids(s: Seq<u8>) -> Seq<u16> {
    if s.len() == 0 {
        Seq::<u16>::empty()
    } else {
        Seq::new(
            min_int(fields(s).len() as int, MAX_IDS as int) as nat,
            |k: int| (field_value(fields(s)[k]) % 2048) as u16,
        )
    }
}

proof fn lemma_fields_nonempty(s: Seq<u8>)
    ensures
        fields(s).len() >= 1,
    decreases s.len(),
{
    if s.len() > 0 {
        lemma_fields_nonempty(s.drop_last());
    }
}

/// The fields of a prefix agree with those of the whole, but for the last
/// field of the prefix, which is a prefix of the corresponding whole field.
proof fn lemma_fields_prefix(s: Seq<u8>, i: int)
    requires
        0 <= i <= s.len(),
    ensures
        fields(s.take(i)).len() <= fields(s).len(),
        forall|k: int| 0 <= k < fields(s.take(i)).len() - 1 ==> fields(s.take(i))[k] == fields(s)[k],
        fields(s.take(i)).last().len() <= fields(s)[fields(s.take(i)).len() - 1].len(),
        fields(s)[fields(s.take(i)).len() - 1].take(fields(s.take(i)).last().len() as int)
            == fields(s.take(i)).last(),
    decreases s.len(),
{
    lemma_fields_nonempty(s);
    lemma_fields_nonempty(s.take(i));
    if i == s.len() {
        assert(s.take(i) =~= s);
        let f = fields(s).last();
        assert(f.take(f.len() as int) =~= f);
    } else {
        let d = s.drop_last();
        assert(s.take(i) =~= d.take(i));
        lemma_fields_prefix(d, i);
        lemma_fields_nonempty(d);
        let p = fields(d.take(i));
        let fd = fields(d);
        let j = p.len() - 1;
        if s.last() == 44 {
            assert(fields(s) == fd.push(Seq::<u8>::empty()));
        } else {
            assert(fields(s) == fd.update(fd.len() - 1, fd.last().push(s.last())));
            if j == fd.len() - 1 {
                let g = fd.last();
                assert(g.push(s.last()).take(p.last().len() as int) =~= g.take(p.last().len() as int));
            }
        }
    }
}

/// A field's value never drops as more of it is read.
proof fn lemma_field_value_prefix(f: Seq<u8>, j: int)
    requires
        0 <= j <= f.len(),
    ensures
        0 <= field_value(f.take(j)) <= field_value(f),
    decreases f.len(),
{
    if j == f.len() {
        assert(f.take(j) =~= f);
        lemma_field_value_nonneg(f);
    } else {
        assert(f.take(j) =~= f.drop_last().take(j));
        lemma_field_value_prefix(f.drop_last(), j);
    }
}

proof fn lemma_field_value_nonneg(f: Seq<u8>)
    ensures
        field_value(f) >= 0,
    decreases f.len(),
{
    if f.len() > 0 {
        lemma_field_value_nonneg(f.drop_last());
    }
}

proof fn lemma_mask_11(acc: u16)
    by (bit_vector)
    ensures
        acc & 0x7FFu16 == acc % 2048,
{
}

/// Whether every field of the list spells a number that fits in 16 bits,
/// as `parse_ids` needs.
pub fn fields_fit(s: &str) -> (b: bool)
    ensures
        b == fields_fit_u16(s.spec_bytes()),
{
    let bytes = s.as_bytes();
    let mut acc: u32 = 0;
    let mut i: usize = 0;
    proof {
        assert(bytes@.take(0) =~= Seq::<u8>::empty());
    }
    while i < bytes.len()
        invariant
            bytes@ == s.spec_bytes(),
            0 <= i <= bytes.len(),
            fields_fit_u16(bytes@.take(i as int)),
            acc as int == field_value(fields(bytes@.take(i as int)).last()),
        decreases bytes.len() - i,
    {
        let b = bytes[i];
        let ghost pre = bytes@.take(i as int);
        let ghost post = bytes@.take(i + 1);
        proof {
            assert(post.drop_last() =~= pre);
            assert(post.last() == b);
            lemma_fields_nonempty(pre);
            lemma_fields_nonempty(post);
            let fp = fields(post);
            let last = fields(pre).last();
            if b != 44 {
                assert(fp == fields(pre).update(fields(pre).len() - 1, last.push(b)));
                assert(last.push(b).drop_last() =~= last);
                assert(fp.last() == last.push(b));
                assert(forall|k: int| 0 <= k < fp.len() - 1 ==> fp[k] == fields(pre)[k]);
            } else {
                assert(fp == fields(pre).push(Seq::<u8>::empty()));
                assert(forall|k: int| 0 <= k < fp.len() - 1 ==> fp[k] == fields(pre)[k]);
            }
        }
        if b >= 48 && b <= 57 {
            acc = acc * 16 + (b - 48) as u32;
        } else if b >= 97 && b <= 102 {
            acc = acc * 16 + (b - 97 + 10) as u32;
        } else if b >= 65 && b <= 70 {
            acc = acc * 16 + (b - 65 + 10) as u32;
        } else if b == 44 {
            acc = 0;
        }
        if acc > 0xFFFF {
            proof {
                let fp = fields(post);
                lemma_fields_prefix(bytes@, i + 1);
                let whole = fields(bytes@)[fp.len() - 1];
                lemma_field_value_prefix(whole, fp.last().len() as int);
                assert(field_value(whole) > 0xFFFF);
            }
            return false;
        }
        proof {
            let fp = fields(post);
            assert forall|k: int| 0 <= k < fp.len() implies #[trigger] field_value(fp[k]) <= 0xFFFF by {
                if k < fp.len() - 1 {
                    assert(fp[k] == fields(pre)[k]);
                }
            }
        }
        i += 1;
    }
    proof {
        assert(bytes@.take(bytes@.len() as int) =~= bytes@);
    }
    true
}

/// Parses a list of identifiers. The array holds the identifiers in order
/// and zeros after them; the count says how many there are.
pub fn parse_ids(s: &str) -> (res: ([u16; 32], usize))
    requires
        fields_fit_u16(s.spec_bytes()),
    ensures
        res.1 == spec_parse_ids(s.spec_bytes()).len(),
        res.1 <= MAX_IDS,
        forall|k: int| 0 <= k < res.1 ==> res.0[k] == spec_parse_ids(s.spec_bytes())[k],
        forall|k: int| res.1 <= k < MAX_IDS ==> res.0[k] == 0,
{
    let bytes = s.as_bytes();
    if bytes.len() == 0 {
        return ([0u16; 32], 0);
    }
    let mut ids = [0u16; 32];
    let mut count: usize = 0;
    let mut acc: u16 = 0;
    let mut i: usize = 0;
    proof {
        assert(bytes@.take(0) =~= Seq::<u8>::empty());
    }
    while i < bytes.len()
        invariant
            bytes@ == s.spec_bytes(),
            fields_fit_u16(bytes@),
            0 <= i <= bytes.len(),
            count as int == min_int(fields(bytes@.take(i as int)).len() - 1, 32),
            acc as int == field_value(fields(bytes@.take(i as int)).last()),
            forall|k: int|
                0 <= k < count ==> ids@[k] == (field_value(fields(bytes@.take(i as int))[k]) % 2048) as u16,
            forall|k: int| count <= k < 32 ==> ids@[k] == 0,
        decreases bytes.len() - i,
    {
        let b = bytes[i];
        let ghost pre = bytes@.take(i as int);
        let ghost post = bytes@.take(i + 1);
        proof {
            assert(post.drop_last() =~= pre);
            assert(post.last() == b);
            lemma_fields_nonempty(pre);
            lemma_fields_nonempty(post);
            lemma_fields_prefix(bytes@, i + 1);
            let fp = fields(post);
            let whole = fields(bytes@)[fp.len() - 1];
            lemma_field_value_prefix(whole, fp.last().len() as int);
            assert(field_value(whole) <= 0xFFFF);
            if b != 44 {
                let last = fields(pre).last();
                assert(fp == fields(pre).update(fields(pre).len() - 1, last.push(b)));
                assert(last.push(b).drop_last() =~= last);
                assert(fp.last() == last.push(b));
            }
        }
        if b >= 48 && b <= 57 {
            acc = acc * 16 + (b - 48) as u16;
        } else if b >= 97 && b <= 102 {
            acc = acc * 16 + (b - 97 + 10) as u16;
        } else if b >= 65 && b <= 70 {
            acc = acc * 16 + (b - 65 + 10) as u16;
        } else if b == 44 {
            if count < 32 {
                proof {
                    lemma_mask_11(acc);
                }
                ids[count] = acc & 0x7FF;
                count += 1;
            }
            acc = 0;
        }
        i += 1;
    }
    proof {
        assert(bytes@.take(bytes@.len() as int) =~= bytes@);
        lemma_fields_nonempty(bytes@);
    }
    if count < 32 {
        proof {
            lemma_mask_11(acc);
        }
        ids[count] = acc & 0x7FF;
        count += 1;
    }
    (ids, count)
}

fn parsed_list(s: &str) -> (ids: Vec<u16>)
    requires
        fields_fit_u16(s.spec_bytes()),
    ensures
        ids@ == spec_parse_ids(s.spec_bytes()),
{
    let (arr, count) = parse_ids(s);
    let mut ids: Vec<u16> = Vec::new();
    let mut i: usize = 0;
    while i < count
        invariant
            count == spec_parse_ids(s.spec_bytes()).len(),
            count <= MAX_IDS,
            forall|k: int| 0 <= k < count ==> arr[k] == spec_parse_ids(s.spec_bytes())[k],
            0 <= i <= count,
            ids@ =~= spec_parse_ids(s.spec_bytes()).take(i as int),
        decreases count - i,
    {
        ids.push(arr[i]);
        i += 1;
    }
    assert(ids@ =~= spec_parse_ids(s.spec_bytes()));
    ids
}

/// The node's own identifiers, from their configured list `raw`.
pub fn my_ids(raw: &str) -> (ids: Vec<u16>)
    requires
        fields_fit_u16(raw.spec_bytes()),
    ensures
        ids@ == spec_parse_ids(raw.spec_bytes()),
{
    parsed_list(raw)
}

/// The identifiers the node listens to, from their configured list `raw`.
pub fn interested_ids(raw: &str) -> (ids: Vec<u16>)
    requires
        fields_fit_u16(raw.spec_bytes()),
    ensures
        ids@ == spec_parse_ids(raw.spec_bytes()),
{
    parsed_list(raw)
}

/// Every parsed identifier is a standard 11-bit CAN identifier, and a list
/// gives at most `MAX_IDS` of them.
pub proof fn lemma_parsed_ids_are_standard(s: Seq<u8>)
    ensures
        spec_parse_ids(s).len() <= MAX_IDS,
        forall|k: int| 0 <= k < spec_parse_ids(s).len() ==> #[trigger] spec_parse_ids(s)[k] <= 0x7FF,
{
    assert forall|k: int| 0 <= k < spec_parse_ids(s).len() implies #[trigger] spec_parse_ids(s)[k] <= 0x7FF by {
        let v = field_value(fields(s)[k]);
        lemma_field_value_nonneg(fields(s)[k]);
        assert(0 <= v % 2048 < 2048);
    }
}
} // verus!
