use vstd::prelude::*;

use crate::hex::{
    all_hex_digits, hex_u32, hex_u64, hex_value, is_hex_digit, lemma_hex_value_bound,
    parse_hex_u32, parse_hex_u64,
};
use crate::kinds::{kind_of_code, TrayItemKind};
use crate::text::{chars_of, push_char, string_of};
use crate::tray_files::{view_result, TrayEntry, TrayError, TrayFolderContent};

verus! {

/// Separates the type code from the identifier block in a file stem.
pub const ID_SEPARATOR: char = '!';

/// Whether `s` holds no separator.
pub open spec fn no_separator(s: Seq<char>) -> bool {
    forall|i: int| 0 <= i < s.len() ==> s[i] != ID_SEPARATOR
}

/// `p` is the position of the one and only separator in `s`.
pub open spec fn is_sole_separator(s: Seq<char>, p: int) -> bool {
    &&& 0 <= p < s.len()
    &&& s[p] == ID_SEPARATOR
    &&& no_separator(s.take(p))
    &&& no_separator(s.skip(p + 1))
}

/// How many separators `s` holds.
pub open spec fn separator_count(s: Seq<char>) -> nat
    decreases s.len(),
{
    if s.len() == 0 {
        0
    } else {
        separator_count(s.drop_last()) + if s.last() == ID_SEPARATOR {
            1nat
        } else {
            0nat
        }
    }
}

/// The type-code part with one optional `0x` prefix removed.
pub open spec fn type_digits(t: Seq<char>) -> Seq<char> {
    if t.len() >= 2 && t[0] == '0' && t[1] == 'x' {
        t.skip(2)
    } else {
        t
    }
}

/// The identifier part: its first four characters dropped, `00` put in front.
pub open spec fn id_digits(r: Seq<char>) -> Seq<char> {
    seq!['0', '0'] + r.skip(4)
}

/// Decodes the two halves of a stem into `(type, id)`.
pub open spec fn decode_parts(t: Seq<char>, r: Seq<char>) -> Option<(u32, u64)> {
    if r.len() < 4 {
        None
    } else {
        match (hex_u32(type_digits(t)), hex_u64(id_digits(r))) {
            (Some(ty), Some(id)) => Some((ty, id)),
            _ => None,
        }
    }
}

/// The `(type, id)` pair that a file stem encodes: it splits on the separator
/// into exactly two parts, each of which reads as hexadecimal.
pub open spec fn decode_stem(s: Seq<char>) -> Option<(u32, u64)> {
    if exists|p: int| is_sole_separator(s, p) {
        let p = choose|p: int| is_sole_separator(s, p);
        decode_parts(s.take(p), s.skip(p + 1))
    } else {
        None
    }
}

/// Decodes the `(type, id)` pair of a file stem (the file name without its
/// extension), such as `0x00000001!0x0000123456789abc`.
pub fn extract_id_and_type(stem: &str) -> (r: Option<(u32, u64)>)
    ensures
        r == decode_stem(stem@),
{
    let cs = chars_of(stem);
    let n = cs.len();
    let mut p: usize = 0;
    while p < n && cs[p] != ID_SEPARATOR
        invariant
            0 <= p <= n == cs@.len(),
            no_separator(cs@.take(p as int)),
        decreases n - p,
    {
        p = p + 1;
        assert(no_separator(cs@.take(p as int))) by {
            assert forall|i: int| 0 <= i < p implies cs@.take(p as int)[i] != ID_SEPARATOR by {
                if i < p - 1 {
                    assert(cs@.take(p as int)[i] == cs@.take(p - 1)[i]);
                }
            }
        }
    }
    if p == n {
        assert(cs@.take(n as int) =~= cs@);
        assert(forall|q: int| !is_sole_separator(cs@, q));
        return None;
    }
    let mut q: usize = p + 1;
    while q < n
        invariant
            p < q <= n == cs@.len(),
            cs@ == stem@,
            cs@[p as int] == ID_SEPARATOR,
            no_separator(cs@.take(p as int)),
            forall|i: int| p < i < q ==> cs@[i] != ID_SEPARATOR,
        decreases n - q,
    {
        if cs[q] == ID_SEPARATOR {
            assert forall|x: int| !is_sole_separator(cs@, x) by {
                if is_sole_separator(cs@, x) {
                    if x < q {
                        assert(cs@.skip(x + 1)[q - x - 1] == cs@[q as int]);
                        assert(no_separator(cs@.skip(x + 1)));
                    } else {
                        assert(cs@.take(x)[p as int] == cs@[p as int]);
                        assert(no_separator(cs@.take(x)));
                    }
                }
            }
            return None;
        }
        q = q + 1;
    }
    assert(is_sole_separator(cs@, p as int)) by {
        assert forall|i: int| 0 <= i < cs@.skip(p + 1).len() implies #[trigger] cs@.skip(p + 1)[i] != ID_SEPARATOR by {
            assert(cs@.skip(p + 1)[i] == cs@[p + 1 + i]);
        }
    }
    proof {
        let x = choose|x: int| is_sole_separator(cs@, x);
        if x < p {
            assert(cs@.take(p as int)[x] == cs@[x]);
        } else if x > p {
            assert(cs@.take(x)[p as int] == cs@[p as int]);
        }
        assert(x == p);
    }
    if n - (p + 1) < 4 {
        return None;
    }
    let ty_start: usize = if p >= 2 && cs[0] == '0' && cs[1] == 'x' { 2 } else { 0 };
    let ty = parse_hex_u32(&cs.as_slice()[ty_start..p]);
    let mut id_chars: Vec<char> = Vec::new();
    id_chars.push('0');
    id_chars.push('0');
    let mut k: usize = p + 5;
    while k < n
        invariant
            p + 5 <= n == cs@.len(),
            p + 5 <= k <= n,
            id_chars@ == seq!['0', '0'] + cs@.subrange(p + 5, k as int),
        decreases n - k,
    {
        id_chars.push(cs[k]);
        k = k + 1;
        assert(id_chars@ =~= seq!['0', '0'] + cs@.subrange(p + 5, k as int));
    }
    let ghost t = cs@.take(p as int);
    let ghost r = cs@.skip(p + 1);
    assert(r.skip(4) =~= cs@.subrange(p + 5, n as int));
    assert(id_chars@ =~= id_digits(r));
    assert(cs@.subrange(ty_start as int, p as int) =~= type_digits(t));
    let id = parse_hex_u64(id_chars.as_slice());
    match (ty, id) {
        (Some(ty), Some(id)) => Some((ty, id)),
        _ => None,
    }
}

/// Separators in a concatenation add up.
proof fn lemma_separator_count_concat(a: Seq<char>, b: Seq<char>)
    ensures
        separator_count(a + b) == separator_count(a) + separator_count(b),
    decreases b.len(),
{
    if b.len() == 0 {
        assert(a + b =~= a);
    } else {
        assert((a + b).drop_last() =~= a + b.drop_last());
        lemma_separator_count_concat(a, b.drop_last());
    }
}

/// A run with no separator counts none.
proof fn lemma_no_separator_count(s: Seq<char>)
    requires
        no_separator(s),
    ensures
        separator_count(s) == 0,
    decreases s.len(),
{
    if s.len() > 0 {
        assert(s[s.len() - 1] != ID_SEPARATOR);
        lemma_no_separator_count(s.drop_last());
    }
}

/// A stem with no separator, or with more than one, never decodes.
pub proof fn lemma_decode_needs_one_separator(s: Seq<char>)
    requires
        separator_count(s) != 1,
    ensures
        decode_stem(s) is None,
{
    if exists|p: int| is_sole_separator(s, p) {
        let p = choose|p: int| is_sole_separator(s, p);
        let a = s.take(p);
        let b = s.skip(p + 1);
        assert(s =~= a + seq![ID_SEPARATOR] + b);
        lemma_separator_count_concat(a + seq![ID_SEPARATOR], b);
        lemma_separator_count_concat(a, seq![ID_SEPARATOR]);
        lemma_no_separator_count(a);
        lemma_no_separator_count(b);
        assert(seq![ID_SEPARATOR].drop_last() =~= Seq::<char>::empty());
        assert(separator_count(Seq::<char>::empty()) == 0);
        assert(separator_count(seq![ID_SEPARATOR]) == 1);
    }
}

/// Leading zeros do not change a hexadecimal value.
proof fn lemma_hex_leading_zeros(x: Seq<char>)
    ensures
        hex_value(seq!['0', '0'] + x) == hex_value(x),
    decreases x.len(),
{
    let z = seq!['0', '0'];
    if x.len() == 0 {
        assert(z + x =~= z);
        assert(z.drop_last() =~= seq!['0']);
        assert(seq!['0'].drop_last() =~= Seq::<char>::empty());
        assert(hex_value(Seq::<char>::empty()) == 0);
        assert(hex_value(seq!['0']) == 0);
        assert(hex_value(z) == 0);
    } else {
        assert((z + x).drop_last() =~= z + x.drop_last());
        assert((z + x).last() == x.last());
        lemma_hex_leading_zeros(x.drop_last());
    }
}

/// A stem made of a type code (an optional `0x`, then at most eight hex
/// digits), the separator, four discriminator characters and at most fourteen
/// hex digits decodes, to the values of those two runs of digits. Since
/// `extract_id_and_type` returns `decode_stem` of its input, every call on such
/// a stem returns that same pair.
pub proof fn lemma_valid_stem_decodes(t: Seq<char>, r: Seq<char>)
    requires
        no_separator(t),
        no_separator(r),
        type_digits(t).len() > 0,
        type_digits(t).len() <= 8,
        all_hex_digits(type_digits(t)),
        r.len() >= 4,
        r.len() <= 18,
        all_hex_digits(r.skip(4)),
    ensures
        decode_stem(t + seq![ID_SEPARATOR] + r) == Some(
            (hex_value(type_digits(t)) as u32, hex_value(r.skip(4)) as u64),
        ),
{
    let s = t + seq![ID_SEPARATOR] + r;
    let p = t.len() as int;
    assert(s.take(p) =~= t);
    assert(s.skip(p + 1) =~= r);
    assert(is_sole_separator(s, p));
    let x = choose|x: int| is_sole_separator(s, x);
    if x < p {
        assert(s.take(p)[x] == s[x]);
    } else if x > p {
        assert(s.take(x)[p] == s[p]);
    }
    assert(x == p);
    lemma_hex_value_bound(type_digits(t));
    let d = id_digits(r);
    assert(all_hex_digits(d)) by {
        assert forall|i: int| 0 <= i < d.len() implies #[trigger] is_hex_digit(d[i]) by {
            if i >= 2 {
                assert(d[i] == r.skip(4)[i - 2]);
            }
        }
    }
    lemma_hex_value_bound(d);
    lemma_hex_leading_zeros(r.skip(4));
}

/// Separates a file name's stem from its extension.
pub const EXTENSION_DOT: char = '.';

/// `p` is the dot that starts a file name's extension: the last dot, and not
/// the first character.
pub open spec fn is_extension_dot(s: Seq<char>, p: int) -> bool {
    &&& 0 < p < s.len()
    &&& s[p] == EXTENSION_DOT
    &&& forall|i: int| p < i < s.len() ==> s[i] != EXTENSION_DOT
}

/// The file name without its extension.
pub open spec fn file_stem(s: Seq<char>) -> Seq<char> {
    if exists|p: int| is_extension_dot(s, p) {
        s.take(choose|p: int| is_extension_dot(s, p))
    } else {
        s
    }
}

/// The file name's extension, without its dot, if it has one.
pub open spec fn file_extension(s: Seq<char>) -> Option<Seq<char>> {
    if exists|p: int| is_extension_dot(s, p) {
        Some(s.skip((choose|p: int| is_extension_dot(s, p)) + 1))
    } else {
        None
    }
}

/// Splits a file name into its stem and its extension.
pub fn split_file_name(file_name: &str) -> (r: (String, Option<String>))
    ensures
        r.0@ == file_stem(file_name@),
        r.1 is Some == file_extension(file_name@) is Some,
        r.1 is Some ==> r.1.unwrap()@ == file_extension(file_name@).unwrap(),
{
    let cs = chars_of(file_name);
    let n = cs.len();
    let mut i: usize = n;
    while i > 0 && cs[i - 1] != EXTENSION_DOT
        invariant
            0 <= i <= n == cs@.len(),
            forall|j: int| i <= j < n ==> cs@[j] != EXTENSION_DOT,
        decreases i,
    {
        i = i - 1;
    }
    if i <= 1 {
        assert forall|p: int| !is_extension_dot(cs@, p) by {
            if is_extension_dot(cs@, p) {
                assert(cs@[p] == EXTENSION_DOT);
            }
        }
        assert(cs@.subrange(0, n as int) =~= cs@);
        return (string_of(cs.as_slice(), 0, n), None);
    }
    let d: usize = i - 1;
    assert(is_extension_dot(cs@, d as int));
    proof {
        let p = choose|p: int| is_extension_dot(cs@, p);
        if p < d {
            assert(cs@[d as int] != EXTENSION_DOT);
        } else if p > d {
            assert(cs@[p] != EXTENSION_DOT);
        }
    }
    assert(cs@.subrange(0, d as int) =~= cs@.take(d as int));
    assert(cs@.subrange(i as int, n as int) =~= cs@.skip(i as int));
    (string_of(cs.as_slice(), 0, d), Some(string_of(cs.as_slice(), i, n)))
}

/// Each byte read as the character with the same code point.
pub open spec fn latin1(bytes: Seq<u8>) -> Seq<char> {
    bytes.map_values(|b: u8| b as char)
}

/// Reads `length` bytes from `offset` as a string of one character per byte.
pub fn extract_string(content: &Vec<u8>, offset: usize, length: u8) -> (r: String)
    requires
        offset + length <= content@.len(),
    ensures
        r@ == latin1(content@.subrange(offset as int, offset + length)),
{
    let len = content.len();
    assert(offset + length <= len);
    let end: usize = offset + length as usize;
    let mut r = String::new();
    let mut i: usize = offset;
    while i < end
        invariant
            offset <= i <= end <= content@.len(),
            end == offset + length,
            r@ == latin1(content@.subrange(offset as int, i as int)),
        decreases end - i,
    {
        push_char(&mut r, content[i] as char);
        i = i + 1;
        assert(r@ =~= latin1(content@.subrange(offset as int, i as int)));
    }
    r
}

/// The display name held in a primary item's header: a length byte at the
/// offset of the item's kind, then that many bytes of name.
pub open spec fn name_field(content: Seq<u8>, file_type: u32) -> Result<Seq<char>, TrayError> {
    match kind_of_code(file_type) {
        None => Err(TrayError::UnknownItemType),
        Some(kind) => {
            let offset = kind.spec_name_offset() as int;
            if content.len() < offset + 1 || content.len() < offset + 1 + content[offset] {
                Err(TrayError::TruncatedHeader)
            } else {
                Ok(latin1(content.subrange(offset + 1, offset + 1 + content[offset])))
            }
        },
    }
}

/// Decodes the display name from a primary item's file contents.
pub fn parse_item_name(content: &Vec<u8>, file_type: u32) -> (r: Result<String, TrayError>)
    ensures
        view_result(r) == name_field(content@, file_type),
{
    let kind = match TrayItemKind::from_code(file_type) {
        Some(kind) => kind,
        None => return Err(TrayError::UnknownItemType),
    };
    let offset = kind.name_offset();
    if content.len() < offset + 1 {
        return Err(TrayError::TruncatedHeader);
    }
    let length = content[offset];
    if content.len() - (offset + 1) < length as usize {
        return Err(TrayError::TruncatedHeader);
    }
    Ok(extract_string(content, offset + 1, length))
}

/// A household header whose length byte is `name.len()`, followed by the
/// bytes of `name`, yields exactly `name`, one character per byte.
pub proof fn lemma_household_name(content: Seq<u8>, name: Seq<u8>)
    requires
        content.len() >= 0x27 + name.len(),
        content[0x26] == name.len(),
        content.subrange(0x27, 0x27 + name.len() as int) == name,
    ensures
        name_field(content, 0x01) == Ok::<Seq<char>, TrayError>(latin1(name)),
{
}

/// A header that ends before its name field does fails as truncated; the
/// bytes past its end are never read.
pub proof fn lemma_short_header_truncated(content: Seq<u8>, file_type: u32)
    requires
        kind_of_code(file_type) is Some,
        ({
            let offset = kind_of_code(file_type).unwrap().spec_name_offset() as int;
            content.len() <= offset || content.len() < offset + 1 + content[offset]
        }),
    ensures
        name_field(content, file_type) == Err::<Seq<char>, TrayError>(TrayError::TruncatedHeader),
{
}

/// Sorts the regular files of a tray folder into primary items, auxiliary
/// files and sequel files, keeping the order of `entries` in each, and lists
/// the files left out with the reason. One bad file never stops the others.
pub fn read_tray_files(entries: &Vec<TrayEntry>) -> (r: TrayFolderContent)
    ensures
        r.sorted_from(entries@),
{
    let mut r = TrayFolderContent::new();
    let mut i: usize = 0;
    while i < entries.len()
        invariant
            0 <= i <= entries@.len(),
            r.sorted_from(entries@.take(i as int)),
        decreases entries@.len() - i,
    {
        r.add_entry(&entries[i]);
        assert(entries@.take(i as int).push(entries@[i as int]) =~= entries@.take(i + 1));
        i = i + 1;
    }
    assert(entries@.take(entries@.len() as int) =~= entries@);
    r
}

} // verus!
