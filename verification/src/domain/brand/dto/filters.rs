//! Display helpers for the pages: the letter and the colour of the round
//! avatar shown beside a name.
use vstd::prelude::*;
use vstd::utf8::encode_utf8;
use crate::text::{is_space, lemma_trim_shape, owned, trim, trim_str};

verus! {

/// Names what `char::to_uppercase` gives for `c`, as the characters of the
/// string that it makes (one or more characters, from Unicode's case tables).
pub uninterp spec fn upper_case_of(c: char) -> Seq<char>;

/// Calls `char::to_uppercase` and collects what it yields into a string.
/// Trusted: the contract claims only that the result is the upper case of
/// `c` as named by `upper_case_of`; the mapping itself is std's.
#[verifier::external_body]
fn char_to_uppercase(c: char) -> (r: String)
    ensures
        r@ == upper_case_of(c),
{
    c.to_uppercase().to_string()
}

/// Shown for a name that is blank.
pub open spec fn no_letter() -> Seq<char> {
    "؟"@
}

/// The avatar letter of a name: the upper case of its first character after
/// trimming, or a question mark when the name is blank.
pub open spec fn spec_first_letter(name: Seq<char>) -> Seq<char> {
    let t = trim(name);
    if t.len() == 0 {
        no_letter()
    } else {
        upper_case_of(t[0])
    }
}

/// The capitalised first character of a name, for the avatar circle.
pub fn first_letter(name: &str) -> (r: String)
    ensures
        r@ == spec_first_letter(name@),
{
    let t = trim_str(name);
    if t.is_empty() {
        owned("؟")
    } else {
        char_to_uppercase(t.get_char(0))
    }
}

/// The avatar letter is the upper case of the first character of the name
/// that is not white space, or a question mark when there is none.
pub proof fn lemma_first_letter(name: Seq<char>)
    ensures
        (forall|k: int| 0 <= k < name.len() ==> is_space(#[trigger] name[k])) ==> spec_first_letter(name)
            == "؟"@,
        forall|k: int|
            0 <= k < name.len() && !is_space(#[trigger] name[k]) && (forall|j: int| 0 <= j < k ==> is_space(name[j]))
                ==> spec_first_letter(name) == upper_case_of(name[k]),
{
    let (i, j) = lemma_trim_shape(name);
    if forall|k: int| 0 <= k < name.len() ==> is_space(#[trigger] name[k]) {
        if i < j {
            assert(is_space(name[i]));
        }
    }
    assert forall|k: int|
        0 <= k < name.len() && !is_space(#[trigger] name[k]) && (forall|j2: int| 0 <= j2 < k ==> is_space(name[j2]))
        implies spec_first_letter(name) == upper_case_of(name[k]) by {
        if k < i {
        } else if k > i {
            if i < j {
                assert(is_space(name[i]));
            } else {
                assert(k >= j);
            }
        } else {
            if i == j {
                assert(is_space(name[k]));
            }
            assert(trim(name)[0] == name[i]);
        }
    }
}

/// The sum of bytes adds up over pieces: it is the sum of the first piece
/// plus the sum of the second, and a single byte sums to itself.
pub proof fn lemma_byte_sum_concat(a: Seq<u8>, b: Seq<u8>)
    ensures
        byte_sum(a + b) == byte_sum(a) + byte_sum(b),
        byte_sum(Seq::<u8>::empty()) == 0,
        forall|x: u8| byte_sum(#[trigger] seq![x]) == x,
    decreases b.len(),
{
    assert forall|x: u8| byte_sum(#[trigger] seq![x]) == x by {
        assert(seq![x].drop_last() =~= Seq::<u8>::empty());
        assert(seq![x].last() == x);
        assert(byte_sum(seq![x].drop_last()) == 0);
    }
    if b.len() == 0 {
        assert(a + b =~= a);
    } else {
        lemma_byte_sum_concat(a, b.drop_last());
        assert((a + b).drop_last() =~= a + b.drop_last());
        assert((a + b).last() == b.last());
    }
}

/// The avatar colours, chosen by position.
pub open spec fn palette(i: int) -> Seq<char> {
    if i == 0 {
        "#0E7C66"@
    } else if i == 1 {
        "#2563EB"@
    } else if i == 2 {
        "#D97706"@
    } else if i == 3 {
        "#7C3AED"@
    } else if i == 4 {
        "#DB2777"@
    } else {
        "#0891B2"@
    }
}

/// The number of colours in the palette.
pub const PALETTE_LEN: usize = 6;

/// The colour at position `i` of the palette.
fn palette_color(i: usize) -> (r: &'static str)
    requires
        i < PALETTE_LEN,
    ensures
        r@ == palette(i as int),
{
    if i == 0 {
        "#0E7C66"
    } else if i == 1 {
        "#2563EB"
    } else if i == 2 {
        "#D97706"
    } else if i == 3 {
        "#7C3AED"
    } else if i == 4 {
        "#DB2777"
    } else {
        "#0891B2"
    }
}

/// The sum of a sequence of bytes.
pub open spec fn byte_sum(b: Seq<u8>) -> int
    decreases b.len(),
{
    if b.len() == 0 {
        0
    } else {
        byte_sum(b.drop_last()) + b.last()
    }
}

/// A prefix never sums to more than the whole.
pub proof fn lemma_byte_sum_prefix(b: Seq<u8>, i: int)
    requires
        0 <= i <= b.len(),
    ensures
        0 <= byte_sum(b.take(i)) <= byte_sum(b),
    decreases b.len(),
{
    if i == b.len() {
        assert(b.take(i) =~= b);
        if b.len() > 0 {
            lemma_byte_sum_prefix(b.drop_last(), i - 1);
            assert(b.drop_last().take(i - 1) =~= b.drop_last());
        }
    } else {
        lemma_byte_sum_prefix(b.drop_last(), i);
        assert(b.drop_last().take(i) =~= b.take(i));
    }
}

/// The avatar colour of a name: the palette entry at the sum of the bytes of
/// its UTF-8 encoding, modulo the size of the palette. The same name always
/// gets the same colour.
pub open spec fn spec_initial_color(name: Seq<char>) -> Seq<char> {
    palette(byte_sum(encode_utf8(name)) % (PALETTE_LEN as int))
}

/// The avatar background colour of a name, as a hex code.
pub fn initial_color(name: &str) -> (r: String)
    requires
        byte_sum(encode_utf8(name@)) <= u32::MAX,
    ensures
        r@ == spec_initial_color(name@),
{
    let bytes = name.as_bytes();
    let n = bytes.len();
    let mut sum: u32 = 0;
    let mut i: usize = 0;
    while i < n
        invariant
            i <= n,
            n == bytes@.len(),
            bytes@ == encode_utf8(name@),
            byte_sum(bytes@) <= u32::MAX,
            sum == byte_sum(bytes@.take(i as int)),
        decreases n - i,
    {
        proof {
            assert(bytes@.take(i + 1).drop_last() =~= bytes@.take(i as int));
            lemma_byte_sum_prefix(bytes@, i + 1);
        }
        sum = sum + bytes[i] as u32;
        i = i + 1;
    }
    assert(bytes@.take(n as int) =~= bytes@);
    owned(palette_color(sum as usize % PALETTE_LEN))
}

/// Every avatar colour is one of the six palette entries.
pub proof fn lemma_initial_color_in_palette(name: Seq<char>)
    ensures
        exists|i: int| 0 <= i < PALETTE_LEN && #[trigger] palette(i) == spec_initial_color(name),
{
    let i = byte_sum(encode_utf8(name)) % (PALETTE_LEN as int);
    assert(palette(i) == spec_initial_color(name));
}

} // verus!
