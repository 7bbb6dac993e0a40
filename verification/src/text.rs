//! Text conversions the kernel takes from the standard library.
use vstd::prelude::*;
use vstd::std_specs::iter::IteratorSpec;

verus! {

/// What `String::from_utf16` makes of a sequence of UTF-16 code units: a
/// unit outside the surrogate range is the character of that number; a high
/// surrogate followed by a low one is the character the pair encodes; any
/// other surrogate makes the whole sequence invalid (`None`).
pub open spec fn utf16_decode(units: Seq<u16>) -> Option<Seq<char>>
    decreases units.len(),
{
    if units.len() == 0 {
        Some(Seq::empty())
    } else {
        let u = units[0];
        if u < 0xD800 || u > 0xDFFF {
            match utf16_decode(units.drop_first()) {
                Some(rest) => Some(seq![(u as u32) as char] + rest),
                None => None,
            }
        } else if u <= 0xDBFF && units.len() >= 2 && 0xDC00 <= units[1] <= 0xDFFF {
            let c = 0x10000 + (u - 0xD800) * 0x400 + (units[1] - 0xDC00);
            match utf16_decode(units.subrange(2, units.len() as int)) {
                Some(rest) => Some(seq![(c as u32) as char] + rest),
                None => None,
            }
        } else {
            None
        }
    }
}

/// What `String::from_utf8` makes of a byte sequence: the characters the
/// bytes encode when they are valid UTF-8, `None` otherwise (by vstd's
/// definitions of UTF-8).
pub open spec fn utf8_decode(bytes: Seq<u8>) -> Option<Seq<char>> {
    if vstd::utf8::valid_utf8(bytes) {
        Some(vstd::utf8::decode_utf8(bytes))
    } else {
        None
    }
}

/// Whether a character has the Unicode `White_Space` property, which
/// `char::is_whitespace` tests and `str::trim` strips.
pub open spec fn is_white_space(c: char) -> bool {
    let u = c as u32;
    ||| 0x9 <= u <= 0xD
    ||| u == 0x20
    ||| u == 0x85
    ||| u == 0xA0
    ||| u == 0x1680
    ||| 0x2000 <= u <= 0x200A
    ||| u == 0x2028
    ||| u == 0x2029
    ||| u == 0x202F
    ||| u == 0x205F
    ||| u == 0x3000
}

/// Index of the first character of `s` that is not white space (its length
/// when all are).
pub open spec fn first_non_white(s: Seq<char>) -> int
    decreases s.len(),
{
    if s.len() == 0 {
        0
    } else if is_white_space(s[0]) {
        1 + first_non_white(s.drop_first())
    } else {
        0
    }
}

/// One past the last character of `s` that is not white space (0 when all
/// are).
pub open spec fn end_non_white(s: Seq<char>) -> int
    decreases s.len(),
{
    if s.len() == 0 {
        0
    } else if is_white_space(s.last()) {
        end_non_white(s.drop_last())
    } else {
        s.len() as int
    }
}

/// What `str::trim` makes of a string: the string without leading and
/// trailing white space.
pub open spec fn trim_spec(s: Seq<char>) -> Seq<char> {
    if first_non_white(s) >= end_non_white(s) {
        Seq::empty()
    } else {
        s.subrange(first_non_white(s), end_non_white(s))
    }
}

/// What `str::to_uppercase` makes of a string.
pub uninterp spec fn uppercase_spec(s: Seq<char>) -> Seq<char>;

/// A `String` holding exactly the given characters (`String`'s
/// `FromIterator<char>`, through `collect`).
#[verifier::external_body]
pub(crate) fn string_from_chars(chars: &Vec<char>) -> (s: String)
    ensures
        s@ == chars@,
{
    chars.iter().collect()
}

/// The characters of a string, in order.
pub fn chars_of(s: &str) -> (v: Vec<char>)
    ensures
        v@ == s@,
{
    let mut it = s.chars();
    let mut v: Vec<char> = Vec::new();
    loop
        invariant
            v@ + it.remaining() == s@,
            it.decrease() is Some,
        ensures
            v@ == s@,
        decreases it.decrease()->0,
    {
        match it.next() {
            Some(c) => {
                v.push(c);
            },
            None => {
                break;
            },
        }
    }
    v
}

/// The character of a Unicode scalar value (`char::from_u32`): `None` for
/// a surrogate or a number past `0x10FFFF`.
#[verifier::external_body]
fn char_from_u32(x: u32) -> (r: Option<char>)
    ensures
        r is Some <==> (x < 0xD800 || (0xE000 <= x && x <= 0x10FFFF)),
        r matches Some(c) ==> c as u32 == x,
{
    char::from_u32(x)
}

/// Decode UTF-16 code units as `String::from_utf16` does; `None` when they
/// are not valid UTF-16.
pub fn decode_utf16(units: &Vec<u16>) -> (r: Option<Vec<char>>)
    ensures
        match r {
            Some(v) => utf16_decode(units@) == Some(v@),
            None => utf16_decode(units@) is None,
        },
{
    let n = units.len();
    let mut out: Vec<char> = Vec::new();
    let mut i: usize = 0;
    proof {
        assert(units@.subrange(0, n as int) =~= units@);
        match utf16_decode(units@) {
            Some(rest) => assert(out@ + rest =~= rest),
            None => {},
        }
    }
    while i < n
        invariant
            i <= n,
            n == units@.len(),
            utf16_decode(units@) == match utf16_decode(units@.subrange(i as int, n as int)) {
                Some(rest) => Some(out@ + rest),
                None => None::<Seq<char>>,
            },
        decreases n - i,
    {
        let ghost tail = units@.subrange(i as int, n as int);
        let u = units[i];
        if u < 0xD800 || u > 0xDFFF {
            let c = match char_from_u32(u as u32) {
                Some(c) => c,
                None => return None,
            };
            proof {
                assert(tail.drop_first() =~= units@.subrange(i + 1, n as int));
                vstd::utf8::char_u32_cast(c, u as u32);
                match utf16_decode(tail.drop_first()) {
                    Some(rest) => assert(out@.push(c) + rest =~= out@ + (seq![c] + rest)),
                    None => {},
                }
            }
            out.push(c);
            i = i + 1;
        } else if u <= 0xDBFF && i + 1 < n && 0xDC00 <= units[i + 1] && units[i + 1] <= 0xDFFF {
            let lo = units[i + 1];
            let x: u32 = 0x10000 + ((u - 0xD800) as u32) * 0x400 + ((lo - 0xDC00) as u32);
            let c = match char_from_u32(x) {
                Some(c) => c,
                None => return None,
            };
            proof {
                assert(tail.subrange(2, tail.len() as int) =~= units@.subrange(i + 2, n as int));
                assert(x == 0x10000 + (u - 0xD800) * 0x400 + (lo - 0xDC00));
                vstd::utf8::char_u32_cast(c, x);
                match utf16_decode(tail.subrange(2, tail.len() as int)) {
                    Some(rest) => assert(out@.push(c) + rest =~= out@ + (seq![c] + rest)),
                    None => {},
                }
            }
            out.push(c);
            i = i + 2;
        } else {
            return None;
        }
    }
    proof {
        assert(units@.subrange(n as int, n as int) =~= Seq::<u16>::empty());
        assert(out@ + Seq::<char>::empty() =~= out@);
    }
    Some(out)
}

/// Decode UTF-8 bytes (`String::from_utf8`); `None` when they are not valid
/// UTF-8. The contract claims that `String::from_utf8` accepts exactly the
/// byte sequences vstd calls valid UTF-8 and decodes them as vstd does.
#[verifier::external_body]
pub(crate) fn decode_utf8(bytes: Vec<u8>) -> (r: Option<String>)
    ensures
        match r {
            Some(s) => utf8_decode(bytes@) == Some(s@),
            None => utf8_decode(bytes@) is None,
        },
{
    String::from_utf8(bytes).ok()
}

proof fn lemma_first_non_white(s: Seq<char>, i: int)
    requires
        0 <= i <= s.len(),
        forall|k: int| 0 <= k < i ==> is_white_space(#[trigger] s[k]),
        i == s.len() || !is_white_space(s[i]),
    ensures
        first_non_white(s) == i,
    decreases i,
{
    if i > 0 {
        let t = s.drop_first();
        assert forall|k: int| 0 <= k < i - 1 implies is_white_space(#[trigger] t[k]) by {
            assert(t[k] == s[k + 1]);
        }
        if i < s.len() {
            assert(t[i - 1] == s[i]);
        }
        lemma_first_non_white(t, i - 1);
    }
}

proof fn lemma_end_non_white(s: Seq<char>, j: int)
    requires
        0 <= j <= s.len(),
        forall|k: int| j <= k < s.len() ==> is_white_space(#[trigger] s[k]),
        j == 0 || !is_white_space(s[j - 1]),
    ensures
        end_non_white(s) == j,
    decreases s.len(),
{
    if s.len() > j {
        let t = s.drop_last();
        assert(is_white_space(s[s.len() - 1]));
        assert forall|k: int| j <= k < t.len() implies is_white_space(#[trigger] t[k]) by {
            assert(t[k] == s[k]);
        }
        if j > 0 {
            assert(t[j - 1] == s[j - 1]);
        }
        lemma_end_non_white(t, j);
    }
}

proof fn lemma_end_non_white_below(s: Seq<char>, i: int)
    requires
        0 <= i,
        forall|k: int| i <= k < s.len() ==> is_white_space(#[trigger] s[k]),
    ensures
        end_non_white(s) <= i,
        end_non_white(s) <= s.len(),
    decreases s.len(),
{
    if s.len() > 0 {
        let t = s.drop_last();
        assert forall|k: int| i <= k < t.len() implies is_white_space(#[trigger] t[k]) by {
            assert(t[k] == s[k]);
        }
        lemma_end_non_white_below(t, i);
        if s.len() > i {
            assert(is_white_space(s[s.len() - 1]));
        }
    }
}

/// Whether a character is white space (`char::is_whitespace`).
fn white_space(c: char) -> (r: bool)
    ensures
        r == is_white_space(c),
{
    let u = c as u32;
    (0x9 <= u && u <= 0xD) || u == 0x20 || u == 0x85 || u == 0xA0 || u == 0x1680 || (0x2000 <= u && u <= 0x200A)
        || u == 0x2028 || u == 0x2029 || u == 0x202F || u == 0x205F || u == 0x3000
}

/// The characters without leading and trailing white space, as `str::trim`
/// leaves them.
pub fn trim_chars(chars: &Vec<char>) -> (r: Vec<char>)
    ensures
        r@ == trim_spec(chars@),
{
    let n = chars.len();
    let mut i: usize = 0;
    while i < n && white_space(chars[i])
        invariant
            i <= n,
            n == chars@.len(),
            forall|k: int| 0 <= k < i ==> is_white_space(#[trigger] chars@[k]),
        decreases n - i,
    {
        i = i + 1;
    }
    let mut j: usize = n;
    while j > i && white_space(chars[j - 1])
        invariant
            i <= j <= n,
            n == chars@.len(),
            forall|k: int| j <= k < n ==> is_white_space(#[trigger] chars@[k]),
        decreases j - i,
    {
        j = j - 1;
    }
    proof {
        lemma_first_non_white(chars@, i as int);
        if j > i {
            lemma_end_non_white(chars@, j as int);
        } else {
            lemma_end_non_white_below(chars@, i as int);
        }
    }
    let mut r: Vec<char> = Vec::new();
    let mut k: usize = i;
    while k < j
        invariant
            i <= k <= j <= n,
            n == chars@.len(),
            r@ == chars@.subrange(i as int, k as int),
        decreases j - k,
    {
        r.push(chars[k]);
        k = k + 1;
    }
    r
}

/// Upper-case a string (`str::to_uppercase`). The result is named:
/// `uppercase_spec`.
#[verifier::external_body]
pub(crate) fn to_uppercase(s: &str) -> (r: Vec<char>)
    ensures
        r@ == uppercase_spec(s@),
{
    s.to_uppercase().chars().collect()
}

/// Whether two character sequences are equal.
pub fn chars_eq(a: &Vec<char>, b: &Vec<char>) -> (r: bool)
    ensures
        r == (a@ == b@),
{
    if a.len() != b.len() {
        return false;
    }
    let mut i: usize = 0;
    while i < a.len()
        invariant
            i <= a@.len(),
            a@.len() == b@.len(),
            forall|k: int| 0 <= k < i ==> a@[k] == b@[k],
        decreases a@.len() - i,
    {
        if a[i] != b[i] {
            return false;
        }
        i = i + 1;
    }
    assert(a@ =~= b@);
    true
}

} // verus!
