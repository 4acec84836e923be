use vstd::prelude::*;
use vstd::string::StringSliceAdditionalSpecFns;
use vstd::utf8::*;

verus! {

/// The characters with the Unicode `White_Space` property, which is what `char::is_whitespace`
/// tests and what `str::trim` and `str::split_whitespace` separate on.
pub open spec fn is_whitespace(c: char) -> bool {
    ||| c == '\t'
    ||| c == '\n'
    ||| c == '\x0B'
    ||| c == '\x0C'
    ||| c == '\r'
    ||| c == ' '
    ||| c == '\u{85}'
    ||| c == '\u{A0}'
    ||| c == '\u{1680}'
    ||| ('\u{2000}' <= c && c <= '\u{200A}')
    ||| c == '\u{2028}'
    ||| c == '\u{2029}'
    ||| c == '\u{202F}'
    ||| c == '\u{205F}'
    ||| c == '\u{3000}'
}

/// Whether `c` is Unicode white space.
pub fn whitespace(c: char) -> (ws: bool)
    ensures
        ws == is_whitespace(c),
{
    c == '\t' || c == '\n' || c == '\x0B' || c == '\x0C' || c == '\r' || c == ' ' || c == '\u{85}'
        || c == '\u{A0}' || c == '\u{1680}' || ('\u{2000}' <= c && c <= '\u{200A}') || c
        == '\u{2028}' || c == '\u{2029}' || c == '\u{202F}' || c == '\u{205F}' || c == '\u{3000}'
}

/// Index of the first line feed at or after `p`, or the text length when there is none.
pub open spec fn line_end(s: Seq<char>, p: int) -> int
    decreases s.len() - p,
{
    if p >= s.len() {
        s.len() as int
    } else if s[p] == '\n' {
        p
    } else {
        line_end(s, p + 1)
    }
}

pub proof fn lemma_line_end(s: Seq<char>, p: int)
    requires
        0 <= p <= s.len(),
    ensures
        p <= line_end(s, p) <= s.len(),
        line_end(s, p) < s.len() ==> s[line_end(s, p)] == '\n',
    decreases s.len() - p,
{
    if p < s.len() && s[p] != '\n' {
        lemma_line_end(s, p + 1);
    }
}

/// First index in `[i, hi)` that does not hold white space, or `hi`.
pub open spec fn skip_whitespace(s: Seq<char>, i: int, hi: int) -> int
    decreases hi - i,
{
    if i >= hi {
        hi
    } else if is_whitespace(s[i]) {
        skip_whitespace(s, i + 1, hi)
    } else {
        i
    }
}

/// First index in `[i, hi)` that holds white space, or `hi`.
pub open spec fn skip_field(s: Seq<char>, i: int, hi: int) -> int
    decreases hi - i,
{
    if i >= hi {
        hi
    } else if is_whitespace(s[i]) {
        i
    } else {
        skip_field(s, i + 1, hi)
    }
}

pub proof fn lemma_skip_whitespace(s: Seq<char>, i: int, hi: int)
    requires
        i <= hi,
    ensures
        i <= skip_whitespace(s, i, hi) <= hi,
        skip_whitespace(s, i, hi) < hi ==> !is_whitespace(s[skip_whitespace(s, i, hi)]),
    decreases hi - i,
{
    if i < hi && is_whitespace(s[i]) {
        lemma_skip_whitespace(s, i + 1, hi);
    }
}

pub proof fn lemma_skip_field(s: Seq<char>, i: int, hi: int)
    requires
        i <= hi,
    ensures
        i <= skip_field(s, i, hi) <= hi,
        i < hi && !is_whitespace(s[i]) ==> i < skip_field(s, i, hi),
    decreases hi - i,
{
    if i < hi && !is_whitespace(s[i]) {
        lemma_skip_field(s, i + 1, hi);
    }
}

/// The white-space separated fields of `s[i..hi]`, as `[start, end)` index pairs, in order.
/// This is what `str::split_whitespace` yields for that slice.
pub open spec fn field_ranges(s: Seq<char>, i: int, hi: int) -> Seq<(int, int)>
    decreases hi - i,
{
    let a = skip_whitespace(s, i, hi);
    if a >= hi {
        Seq::empty()
    } else {
        let b = skip_field(s, a, hi);
        proof {
            lemma_skip_whitespace(s, i, hi);
            lemma_skip_field(s, a, hi);
        }
        seq![(a, b)] + field_ranges(s, b, hi)
    }
}

pub proof fn lemma_field_ranges_bounds(s: Seq<char>, i: int, hi: int)
    requires
        0 <= i <= hi,
    ensures
        forall|k: int|
            0 <= k < field_ranges(s, i, hi).len() ==> i <= (#[trigger] field_ranges(s, i, hi)[k]).0
                < field_ranges(s, i, hi)[k].1 <= hi,
        field_ranges(s, i, hi).len() > 0 ==> !is_whitespace(s[field_ranges(s, i, hi)[0].0]),
    decreases hi - i,
{
    let a = skip_whitespace(s, i, hi);
    lemma_skip_whitespace(s, i, hi);
    if a < hi {
        let b = skip_field(s, a, hi);
        lemma_skip_field(s, a, hi);
        lemma_field_ranges_bounds(s, b, hi);
        let rest = field_ranges(s, b, hi);
        assert forall|k: int|
            0 <= k < field_ranges(s, i, hi).len() implies i <= (#[trigger] field_ranges(
            s,
            i,
            hi,
        )[k]).0 < field_ranges(s, i, hi)[k].1 <= hi by {
            if k > 0 {
                assert(field_ranges(s, i, hi)[k] == rest[k - 1]);
            }
        }
    }
}

proof fn lemma_skip_whitespace_push(s: Seq<char>, c: char, i: int)
    requires
        0 <= i <= s.len(),
        is_whitespace(c),
    ensures
        skip_whitespace(s.push(c), i, s.len() + 1 as int) == if skip_whitespace(s, i, s.len() as int)
            < s.len() {
            skip_whitespace(s, i, s.len() as int)
        } else {
            s.len() + 1 as int
        },
    decreases s.len() - i,
{
    let t = s.push(c);
    if i < s.len() {
        assert(t[i] == s[i]);
        if is_whitespace(s[i]) {
            lemma_skip_whitespace_push(s, c, i + 1);
        }
    } else {
        assert(t[i] == c);
        assert(skip_whitespace(t, i + 1, s.len() + 1 as int) == s.len() + 1);
    }
}

proof fn lemma_skip_field_push(s: Seq<char>, c: char, i: int)
    requires
        0 <= i <= s.len(),
        is_whitespace(c),
    ensures
        skip_field(s.push(c), i, s.len() + 1 as int) == skip_field(s, i, s.len() as int),
    decreases s.len() - i,
{
    let t = s.push(c);
    if i < s.len() {
        assert(t[i] == s[i]);
        if !is_whitespace(s[i]) {
            lemma_skip_field_push(s, c, i + 1);
        }
    } else {
        assert(t[i] == c);
    }
}

/// White space ends a field: appending any character with the Unicode `White_Space` property
/// (code points 9 to 13, 32, 133, 160, 5760, 8192 to 8202, 8232, 8233, 8239, 8287 and 12288;
/// among them the carriage return of a CRLF line end) to a line leaves its fields unchanged.
pub proof fn lemma_trailing_white_space_adds_no_field(s: Seq<char>, c: char, i: int)
    requires
        0 <= i <= s.len(),
        ({
            let n = c as int;
            ||| 9 <= n <= 13
            ||| n == 32
            ||| n == 133
            ||| n == 160
            ||| n == 5760
            ||| 8192 <= n <= 8202
            ||| n == 8232
            ||| n == 8233
            ||| n == 8239
            ||| n == 8287
            ||| n == 12288
        }),
    ensures
        field_ranges(s.push(c), i, s.len() + 1 as int) == field_ranges(s, i, s.len() as int),
    decreases s.len() - i,
{
    let t = s.push(c);
    let n = s.len() as int;
    assert(is_whitespace(c));
    lemma_skip_whitespace_push(s, c, i);
    lemma_skip_whitespace(s, i, n);
    let a = skip_whitespace(s, i, n);
    if a < n {
        lemma_skip_field_push(s, c, a);
        lemma_skip_field(s, a, n);
        let b = skip_field(s, a, n);
        lemma_trailing_white_space_adds_no_field(s, c, b);
        assert(field_ranges(t, i, n + 1) == seq![(a, b)] + field_ranges(t, b, n + 1));
    }
}

/// A character without the Unicode `White_Space` property is never a separator: on its own it is
/// one field.
pub proof fn lemma_other_characters_form_fields(c: char)
    requires
        !({
            let n = c as int;
            ||| 9 <= n <= 13
            ||| n == 32
            ||| n == 133
            ||| n == 160
            ||| n == 5760
            ||| 8192 <= n <= 8202
            ||| n == 8232
            ||| n == 8233
            ||| n == 8239
            ||| n == 8287
            ||| n == 12288
        }),
    ensures
        field_ranges(seq![c], 0, 1) == seq![(0int, 1int)],
{
    assert(!is_whitespace(c));
    let s = seq![c];
    assert(skip_whitespace(s, 0, 1) == 0);
    assert(skip_field(s, 0, 1) == 1) by {
        assert(skip_field(s, 1, 1) == 1);
    }
    assert(field_ranges(s, 1, 1) =~= Seq::<(int, int)>::empty()) by {
        assert(skip_whitespace(s, 1, 1) == 1);
    }
    assert(field_ranges(s, 0, 1) =~= seq![(0int, 1int)] + Seq::<(int, int)>::empty());
}

/// Casts index pairs to mathematical integers.
pub open spec fn ranges_view(ranges: Seq<(usize, usize)>) -> Seq<(int, int)> {
    ranges.map_values(|r: (usize, usize)| (r.0 as int, r.1 as int))
}

/// Index of the first line feed at or after `p`, or the text length.
pub fn find_line_end(s: &Vec<char>, p: usize) -> (e: usize)
    requires
        p <= s@.len(),
    ensures
        e == line_end(s@, p as int),
{
    let mut i = p;
    while i < s.len() && s[i] != '\n'
        invariant
            p <= i <= s@.len(),
            line_end(s@, p as int) == line_end(s@, i as int),
        decreases s@.len() - i,
    {
        i = i + 1;
    }
    i
}

/// The white-space separated fields of `s[lo..hi]`, as absolute `[start, end)` index pairs.
pub fn split_fields(s: &Vec<char>, lo: usize, hi: usize) -> (fields: Vec<(usize, usize)>)
    requires
        lo <= hi <= s@.len(),
    ensures
        ranges_view(fields@) == field_ranges(s@, lo as int, hi as int),
{
    let mut fields: Vec<(usize, usize)> = Vec::new();
    let mut i = lo;
    while i < hi
        invariant
            lo <= i <= hi <= s@.len(),
            field_ranges(s@, lo as int, hi as int) == ranges_view(fields@) + field_ranges(
                s@,
                i as int,
                hi as int,
            ),
        decreases hi - i,
    {
        let mut a = i;
        while a < hi && whitespace(s[a])
            invariant
                i <= a <= hi <= s@.len(),
                skip_whitespace(s@, i as int, hi as int) == skip_whitespace(s@, a as int, hi as int),
            decreases hi - a,
        {
            a = a + 1;
        }
        if a >= hi {
            assert(field_ranges(s@, i as int, hi as int) =~= Seq::<(int, int)>::empty());
            assert(ranges_view(fields@) + Seq::<(int, int)>::empty() =~= ranges_view(fields@));
            i = hi;
        } else {
            let mut b = a;
            while b < hi && !whitespace(s[b])
                invariant
                    a <= b <= hi <= s@.len(),
                    skip_field(s@, a as int, hi as int) == skip_field(s@, b as int, hi as int),
                decreases hi - b,
            {
                b = b + 1;
            }
            proof {
                lemma_skip_whitespace(s@, i as int, hi as int);
                lemma_skip_field(s@, a as int, hi as int);
            }
            let ghost before = ranges_view(fields@);
            fields.push((a, b));
            proof {
                assert(ranges_view(fields@) =~= before + seq![(a as int, b as int)]);
                assert(field_ranges(s@, i as int, hi as int) == seq![(a as int, b as int)]
                    + field_ranges(s@, b as int, hi as int));
                assert(before + (seq![(a as int, b as int)] + field_ranges(s@, b as int, hi as int))
                    =~= ranges_view(fields@) + field_ranges(s@, b as int, hi as int));
            }
            i = b;
        }
    }
    proof {
        assert(field_ranges(s@, i as int, hi as int) =~= Seq::<(int, int)>::empty());
        assert(ranges_view(fields@) + Seq::<(int, int)>::empty() =~= ranges_view(fields@));
    }
    fields
}

/// `str::from_utf8`: a string slice over `bytes` exactly when they are well-formed UTF-8.
#[verifier::external_body]
fn str_from_utf8(bytes: &[u8]) -> (text: Option<&str>)
    ensures
        text is Some <==> valid_utf8(bytes@),
        text matches Some(t) ==> t.spec_bytes() == bytes@,
{
    core::str::from_utf8(bytes).ok()
}

/// The characters of a string slice, in order.
pub fn str_chars(text: &str) -> (chars: Vec<char>)
    ensures
        chars@ == text@,
{
    let mut chars: Vec<char> = Vec::new();
    for c in it: text.chars()
        invariant
            it.seq() == text@,
            chars@ == text@.take(it.index() as int),
    {
        chars.push(c);
    }
    assert(chars@ =~= text@);
    chars
}

/// Decodes UTF-8 into characters; `None` when the bytes are not well-formed UTF-8.
pub fn decode_chars(bytes: &[u8]) -> (chars: Option<Vec<char>>)
    ensures
        chars is Some <==> valid_utf8(bytes@),
        chars matches Some(c) ==> c@ == decode_utf8(bytes@),
{
    match str_from_utf8(bytes) {
        None => None,
        Some(text) => {
            let chars = str_chars(text);
            proof {
                broadcast use encode_utf8_decode_utf8;

            }
            Some(chars)
        },
    }
}

} // verus!
