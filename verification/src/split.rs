//! Taking text apart.
use vstd::prelude::*;

verus! {

/// `s` without what `blank` holds of at either end.
pub open spec fn trimmed<A>(s: Seq<A>, blank: spec_fn(A) -> bool) -> Seq<A>
    decreases s.len(),
{
    if s.len() == 0 {
        s
    } else if blank(s[0]) {
        trimmed(s.drop_first(), blank)
    } else if blank(s.last()) {
        trimmed(s.drop_last(), blank)
    } else {
        s
    }
}

/// Where `sep` stands first in `s`, or the length of `s`.
pub open spec fn first_index<A>(s: Seq<A>, sep: A) -> int
    decreases s.len(),
{
    if s.len() == 0 {
        0
    } else if s[0] == sep {
        0
    } else {
        1 + first_index(s.drop_first(), sep)
    }
}

pub proof fn first_index_bounds<A>(s: Seq<A>, sep: A)
    ensures
        0 <= first_index(s, sep) <= s.len(),
    decreases s.len(),
{
    if s.len() > 0 && s[0] != sep {
        first_index_bounds(s.drop_first(), sep);
    }
}

/// What stands at the first index is `sep`.
pub proof fn first_index_at<A>(s: Seq<A>, sep: A)
    requires
        first_index(s, sep) < s.len(),
    ensures
        s[first_index(s, sep)] == sep,
    decreases s.len(),
{
    first_index_bounds(s, sep);
    if s[0] != sep {
        first_index_bounds(s.drop_first(), sep);
        first_index_at(s.drop_first(), sep);
        assert(s.drop_first()[first_index(s.drop_first(), sep)] == s[first_index(s, sep)]);
    }
}

/// `sep` stands first at `i`.
pub proof fn first_index_is<A>(s: Seq<A>, sep: A, i: int)
    requires
        0 <= i <= s.len(),
        forall|j: int| 0 <= j < i ==> s[j] != sep,
        i < s.len() ==> s[i] == sep,
    ensures
        first_index(s, sep) == i,
    decreases s.len(),
{
    if i > 0 {
        assert(s[0] != sep);
        first_index_is(s.drop_first(), sep, i - 1);
    }
}

/// What stands between the occurrences of `sep` in `s`.
pub open spec fn pieces<A>(s: Seq<A>, sep: A) -> Seq<Seq<A>>
    decreases s.len(),
{
    let i = first_index(s, sep);
    if 0 <= i < s.len() {
        seq![s.take(i)] + pieces(s.skip(i + 1), sep)
    } else {
        seq![s]
    }
}

/// Advancing over elements that are not `sep`.
proof fn first_index_from<A>(s: Seq<A>, sep: A, i: int)
    requires
        0 <= i < s.len(),
        s[i] != sep,
    ensures
        first_index(s.skip(i), sep) == 1 + first_index(s.skip(i + 1), sep),
{
    assert(s.skip(i).drop_first() =~= s.skip(i + 1));
}

/// Unicode white space.
pub open spec fn is_white_space(c: char) -> bool {
    let u = c as u32;
    ||| 0x9 <= u <= 0xd
    ||| u == 0x20
    ||| u == 0x85
    ||| u == 0xa0
    ||| u == 0x1680
    ||| 0x2000 <= u <= 0x200a
    ||| u == 0x2028
    ||| u == 0x2029
    ||| u == 0x202f
    ||| u == 0x205f
    ||| u == 0x3000
}

pub fn white_space(c: char) -> (r: bool)
    ensures
        r == is_white_space(c),
{
    let u: u32 = c as u32;
    (0x9 <= u && u <= 0xd) || u == 0x20 || u == 0x85 || u == 0xa0 || u == 0x1680 || (0x2000 <= u
        && u <= 0x200a) || u == 0x2028 || u == 0x2029 || u == 0x202f || u == 0x205f || u == 0x3000
}

/// `s` without the white space at either end.
pub open spec fn trim_text(s: Seq<char>) -> Seq<char> {
    trimmed(s, |c: char| is_white_space(c))
}

/// `text` without the white space at either end.
pub fn trim(text: &[char]) -> (r: &[char])
    ensures
        r@ == trim_text(text@),
{
    let mut from: usize = 0;
    let mut to: usize = text.len();
    assert(text@.subrange(0, to as int) =~= text@);
    while from < to && white_space(text[from])
        invariant
            from <= to <= text.len(),
            trim_text(text@) == trim_text(text@.subrange(from as int, to as int)),
        decreases to - from,
    {
        assert(text@.subrange(from as int, to as int).drop_first() =~= text@.subrange(
            from + 1,
            to as int,
        ));
        from = from + 1;
    }
    while from < to && white_space(text[to - 1])
        invariant
            from <= to <= text.len(),
            from < to ==> !is_white_space(text@[from as int]),
            trim_text(text@) == trim_text(text@.subrange(from as int, to as int)),
        decreases to - from,
    {
        assert(text@.subrange(from as int, to as int).drop_last() =~= text@.subrange(
            from as int,
            to - 1,
        ));
        to = to - 1;
    }
    vstd::slice::slice_subrange(text, from, to)
}

/// Where `sep` stands first in `text`, from `from` on.
fn find_char(text: &[char], from: usize, sep: char) -> (r: usize)
    requires
        from <= text@.len(),
    ensures
        from <= r <= text@.len(),
        r == from + first_index(text@.skip(from as int), sep),
{
    let mut i: usize = from;
    while i < text.len() && text[i] != sep
        invariant
            from <= i <= text.len(),
            from + first_index(text@.skip(from as int), sep) == i + first_index(
                text@.skip(i as int),
                sep,
            ),
        decreases text.len() - i,
    {
        proof {
            first_index_from(text@, sep, i as int);
        }
        i = i + 1;
    }
    if i < text.len() {
        assert(text@.skip(i as int)[0] == sep);
    }
    i
}

/// What stands before and behind the first `sep` in `text`.
pub fn split_once(text: &[char], sep: char) -> (r: Option<(&[char], &[char])>)
    ensures
        r is Some <==> first_index(text@, sep) < text@.len(),
        r matches Some((before, behind)) ==> before@ == text@.take(first_index(text@, sep))
            && behind@ == text@.skip(first_index(text@, sep) + 1),
{
    assert(text@.skip(0) =~= text@);
    let i: usize = find_char(text, 0, sep);
    if i == text.len() {
        return None;
    }
    let before = vstd::slice::slice_subrange(text, 0, i);
    let behind = vstd::slice::slice_subrange(text, i + 1, text.len());
    assert(before@ =~= text@.take(i as int));
    assert(behind@ =~= text@.skip(i + 1));
    Some((before, behind))
}

/// The pieces of `text` between the occurrences of `sep`.
pub fn split(text: &[char], sep: char) -> (r: Vec<Vec<char>>)
    ensures
        r@.len() == pieces(text@, sep).len(),
        forall|i: int| 0 <= i < r@.len() ==> (#[trigger] r@[i])@ == pieces(text@, sep)[i],
{
    let mut out: Vec<Vec<char>> = Vec::new();
    let mut from: usize = 0;
    assert(text@.skip(0) =~= text@);
    let ghost all = pieces(text@, sep);
    loop
        invariant_except_break
            from <= text@.len(),
            all == pieces(text@, sep),
            out@.len() + pieces(text@.skip(from as int), sep).len() == all.len(),
            forall|i: int| 0 <= i < out@.len() ==> (#[trigger] out@[i])@ == all[i],
            forall|i: int|
                0 <= i < pieces(text@.skip(from as int), sep).len() ==> #[trigger] pieces(
                    text@.skip(from as int),
                    sep,
                )[i] == all[out@.len() + i],
        ensures
            out@.len() == all.len(),
            forall|i: int| 0 <= i < out@.len() ==> (#[trigger] out@[i])@ == all[i],
        decreases text@.len() - from,
    {
        let ghost rest = text@.skip(from as int);
        let i: usize = find_char(text, from, sep);
        let piece = vstd::slice::slice_to_vec(vstd::slice::slice_subrange(text, from, i));
        assert(piece@ =~= rest.take(i - from));
        let ghost before = out@;
        if i == text.len() {
            assert(piece@ =~= rest);
            assert(pieces(rest, sep)[0] == rest);
            out.push(piece);
            break;
        }
        assert(rest.skip(i - from + 1) =~= text@.skip(i + 1));
        assert(pieces(rest, sep) == seq![rest.take(i - from)] + pieces(text@.skip(i + 1), sep));
        assert(pieces(rest, sep)[0] == rest.take(i - from));
        out.push(piece);
        assert forall|k: int| 0 <= k < pieces(text@.skip(i + 1), sep).len() implies #[trigger] pieces(
            text@.skip(i + 1),
            sep,
        )[k] == all[out@.len() + k] by {
            assert(pieces(rest, sep)[k + 1] == pieces(text@.skip(i + 1), sep)[k]);
        }
        from = i + 1;
    }
    out
}

/// A space or a tab.
pub open spec fn is_blank(b: u8) -> bool {
    b == 32 || b == 9
}

/// `s` without the blanks at either end.
pub open spec fn trim_blanks(s: Seq<u8>) -> Seq<u8> {
    trimmed(s, |b: u8| is_blank(b))
}

/// `bytes` without the blanks at either end.
pub fn trim_bytes(bytes: &[u8]) -> (r: &[u8])
    ensures
        r@ == trim_blanks(bytes@),
{
    let mut from: usize = 0;
    let mut to: usize = bytes.len();
    assert(bytes@.subrange(0, to as int) =~= bytes@);
    while from < to && (bytes[from] == 32 || bytes[from] == 9)
        invariant
            from <= to <= bytes.len(),
            trim_blanks(bytes@) == trim_blanks(bytes@.subrange(from as int, to as int)),
        decreases to - from,
    {
        assert(bytes@.subrange(from as int, to as int).drop_first() =~= bytes@.subrange(
            from + 1,
            to as int,
        ));
        from = from + 1;
    }
    while from < to && (bytes[to - 1] == 32 || bytes[to - 1] == 9)
        invariant
            from <= to <= bytes.len(),
            from < to ==> !is_blank(bytes@[from as int]),
            trim_blanks(bytes@) == trim_blanks(bytes@.subrange(from as int, to as int)),
        decreases to - from,
    {
        assert(bytes@.subrange(from as int, to as int).drop_last() =~= bytes@.subrange(
            from as int,
            to - 1,
        ));
        to = to - 1;
    }
    vstd::slice::slice_subrange(bytes, from, to)
}

/// The pieces of `bytes` between the occurrences of `sep`.
pub fn split_bytes(bytes: &[u8], sep: u8) -> (r: Vec<Vec<u8>>)
    ensures
        r@.len() == pieces(bytes@, sep).len(),
        forall|i: int| 0 <= i < r@.len() ==> (#[trigger] r@[i])@ == pieces(bytes@, sep)[i],
{
    let mut out: Vec<Vec<u8>> = Vec::new();
    let mut from: usize = 0;
    assert(bytes@.skip(0) =~= bytes@);
    let ghost all = pieces(bytes@, sep);
    loop
        invariant_except_break
            from <= bytes@.len(),
            all == pieces(bytes@, sep),
            out@.len() + pieces(bytes@.skip(from as int), sep).len() == all.len(),
            forall|i: int| 0 <= i < out@.len() ==> (#[trigger] out@[i])@ == all[i],
            forall|i: int|
                0 <= i < pieces(bytes@.skip(from as int), sep).len() ==> #[trigger] pieces(
                    bytes@.skip(from as int),
                    sep,
                )[i] == all[out@.len() + i],
        ensures
            out@.len() == all.len(),
            forall|i: int| 0 <= i < out@.len() ==> (#[trigger] out@[i])@ == all[i],
        decreases bytes@.len() - from,
    {
        let ghost rest = bytes@.skip(from as int);
        let mut i: usize = from;
        while i < bytes.len() && bytes[i] != sep
            invariant
                from <= i <= bytes.len(),
                from + first_index(rest, sep) == i + first_index(bytes@.skip(i as int), sep),
            decreases bytes.len() - i,
        {
            proof {
                first_index_from(bytes@, sep, i as int);
            }
            i = i + 1;
        }
        let piece = vstd::slice::slice_to_vec(vstd::slice::slice_subrange(bytes, from, i));
        assert(piece@ =~= rest.take(i - from));
        if i == bytes.len() {
            assert(piece@ =~= rest);
            assert(pieces(rest, sep)[0] == rest);
            out.push(piece);
            break;
        }
        assert(bytes@.skip(i as int)[0] == sep);
        assert(rest.skip(i - from + 1) =~= bytes@.skip(i + 1));
        assert(pieces(rest, sep) == seq![rest.take(i - from)] + pieces(bytes@.skip(i + 1), sep));
        assert(pieces(rest, sep)[0] == rest.take(i - from));
        out.push(piece);
        assert forall|k: int| 0 <= k < pieces(bytes@.skip(i + 1), sep).len() implies #[trigger] pieces(
            bytes@.skip(i + 1),
            sep,
        )[k] == all[out@.len() + k] by {
            assert(pieces(rest, sep)[k + 1] == pieces(bytes@.skip(i + 1), sep)[k]);
        }
        from = i + 1;
    }
    out
}

/// The characters of a text.
pub fn chars_of(text: &str) -> (r: Vec<char>)
    ensures
        r@ == text@,
{
    let mut out: Vec<char> = Vec::new();
    for c in iter: text.chars()
        invariant
            out@ == text@.take(iter.index() as int),
            iter.seq() == text@,
    {
        proof {
            assert(text@.take(iter.index() as int).push(c) =~= text@.take(iter.index() + 1));
        }
        out.push(c);
    }
    assert(out@ =~= text@);
    out
}

/// `String::push`: one more character at the end.
pub assume_specification[ String::push ](text: &mut String, c: char)
    ensures
        final(text)@ == old(text)@.push(c),
;

/// The text of characters.
pub fn string_of(chars: &[char]) -> (r: String)
    ensures
        r@ == chars@,
{
    let mut out = String::new();
    let mut i: usize = 0;
    assert(out@ =~= chars@.take(0));
    while i < chars.len()
        invariant
            i <= chars.len(),
            out@ == chars@.take(i as int),
        decreases chars.len() - i,
    {
        out.push(chars[i]);
        assert(chars@.take(i as int).push(chars@[i as int]) =~= chars@.take(i + 1));
        i = i + 1;
    }
    assert(chars@.take(i as int) =~= chars@);
    out
}

/// Texts put together again, with `sep` between each two.
pub open spec fn rejoined<A>(parts: Seq<Seq<A>>, sep: A) -> Seq<A>
    decreases parts.len(),
{
    if parts.len() == 0 {
        Seq::empty()
    } else if parts.len() == 1 {
        parts[0]
    } else {
        parts[0].push(sep) + rejoined(parts.drop_first(), sep)
    }
}

/// Where a piece stands: between two separators or an end, and without one.
pub proof fn piece_stands<A>(s: Seq<A>, sep: A, j: int) -> (at: (int, int))
    requires
        0 <= j < pieces(s, sep).len(),
    ensures
        0 <= at.0 <= at.1 <= s.len(),
        pieces(s, sep)[j] == s.subrange(at.0, at.1),
        at.0 == 0 || s[at.0 - 1] == sep,
        at.1 == s.len() || s[at.1] == sep,
        forall|k: int| at.0 <= k < at.1 ==> #[trigger] s[k] != sep,
    decreases s.len(),
{
    let i = first_index(s, sep);
    first_index_bounds(s, sep);
    before_the_first(s, sep);
    if i < s.len() {
        first_index_at(s, sep);
        if j == 0 {
            assert(s.take(i) =~= s.subrange(0, i));
            (0, i)
        } else {
            let rest = s.skip(i + 1);
            assert(pieces(s, sep)[j] == pieces(rest, sep)[j - 1]);
            let (a, b) = piece_stands(rest, sep, j - 1);
            assert(rest.subrange(a, b) =~= s.subrange(i + 1 + a, i + 1 + b));
            assert forall|k: int| i + 1 + a <= k < i + 1 + b implies #[trigger] s[k] != sep by {
                assert(rest[k - i - 1] == s[k]);
            }
            assert(a > 0 ==> rest[a - 1] == s[i + a]);
            assert(b < rest.len() ==> rest[b] == s[i + 1 + b]);
            (i + 1 + a, i + 1 + b)
        }
    } else {
        assert(s.subrange(0, s.len() as int) =~= s);
        (0, s.len() as int)
    }
}

/// Nothing before the first separator is one.
pub proof fn before_the_first<A>(s: Seq<A>, sep: A)
    ensures
        forall|k: int| 0 <= k < first_index(s, sep) ==> #[trigger] s[k] != sep,
    decreases s.len(),
{
    first_index_bounds(s, sep);
    if s.len() > 0 && s[0] != sep {
        let rest = s.drop_first();
        before_the_first(rest, sep);
        assert forall|k: int| 0 <= k < first_index(s, sep) implies #[trigger] s[k] != sep by {
            if k > 0 {
                assert(rest[k - 1] == s[k]);
            }
        }
    }
}

/// What stands between two separators or an end, and holds none, is a piece.
pub proof fn piece_is_found<A>(s: Seq<A>, sep: A, a: int, b: int) -> (j: int)
    requires
        0 <= a <= b <= s.len(),
        a == 0 || s[a - 1] == sep,
        b == s.len() || s[b] == sep,
        forall|k: int| a <= k < b ==> #[trigger] s[k] != sep,
    ensures
        0 <= j < pieces(s, sep).len(),
        pieces(s, sep)[j] == s.subrange(a, b),
    decreases s.len(),
{
    let i = first_index(s, sep);
    first_index_bounds(s, sep);
    before_the_first(s, sep);
    if a == 0 {
        if b < s.len() {
            first_index_is(s, sep, b);
            assert(s.take(b) =~= s.subrange(0, b));
        } else {
            if i < s.len() {
                first_index_at(s, sep);
            }
            assert(s.subrange(0, b) =~= s);
        }
        0
    } else {
        assert(i <= a - 1) by {
            if i > a - 1 {
                assert(s[a - 1] != sep);
            }
        }
        let rest = s.skip(i + 1);
        assert forall|k: int| a - i - 1 <= k < b - i - 1 implies #[trigger] rest[k] != sep by {
            assert(rest[k] == s[k + i + 1]);
        }
        assert(a - i - 1 > 0 ==> rest[a - i - 2] == s[a - 1]);
        assert(b < s.len() ==> rest[b - i - 1] == s[b]);
        let j = piece_is_found(rest, sep, a - i - 1, b - i - 1);
        assert(rest.subrange(a - i - 1, b - i - 1) =~= s.subrange(a, b));
        assert(pieces(s, sep)[j + 1] == pieces(rest, sep)[j]);
        j + 1
    }
}

proof fn pieces_rejoin<A>(s: Seq<A>, sep: A)
    ensures
        pieces(s, sep).len() > 0,
        rejoined(pieces(s, sep), sep) == s,
    decreases s.len(),
{
    let i = first_index(s, sep);
    first_index_bounds(s, sep);
    let all = pieces(s, sep);
    if i < s.len() {
        first_index_at(s, sep);
        let rest = s.skip(i + 1);
        pieces_rejoin(rest, sep);
        assert(all.drop_first() =~= pieces(rest, sep));
        assert(all[0] == s.take(i));
        assert(s.take(i).push(sep) + rest =~= s);
    }
}

/// What is split at a separator is whole when it is put together with it again,
/// and no piece holds the separator. There is always a piece.
pub proof fn a_split_loses_nothing(text: &[char], sep: char, r: Vec<Vec<char>>)
    requires
        call_ensures(split, (text, sep), r),
    ensures
        r@.len() > 0,
        rejoined(r@.map_values(|piece: Vec<char>| piece@), sep) == text@,
        forall|i: int, k: int|
            0 <= i < r@.len() && 0 <= k < r@[i]@.len() ==> #[trigger] r@[i]@[k] != sep,
{
    pieces_rejoin(text@, sep);
    assert(r@.map_values(|piece: Vec<char>| piece@) =~= pieces(text@, sep));
    assert forall|i: int, k: int|
        0 <= i < r@.len() && 0 <= k < r@[i]@.len() implies #[trigger] r@[i]@[k] != sep by {
        let (a, b) = piece_stands(text@, sep, i);
        assert(r@[i]@ == text@.subrange(a, b));
        assert(text@[a + k] != sep);
    }
}

/// The same of bytes.
pub proof fn a_split_of_bytes_loses_nothing(bytes: &[u8], sep: u8, r: Vec<Vec<u8>>)
    requires
        call_ensures(split_bytes, (bytes, sep), r),
    ensures
        r@.len() > 0,
        rejoined(r@.map_values(|piece: Vec<u8>| piece@), sep) == bytes@,
        forall|i: int, k: int|
            0 <= i < r@.len() && 0 <= k < r@[i]@.len() ==> #[trigger] r@[i]@[k] != sep,
{
    pieces_rejoin(bytes@, sep);
    assert(r@.map_values(|piece: Vec<u8>| piece@) =~= pieces(bytes@, sep));
    assert forall|i: int, k: int|
        0 <= i < r@.len() && 0 <= k < r@[i]@.len() implies #[trigger] r@[i]@[k] != sep by {
        let (a, b) = piece_stands(bytes@, sep, i);
        assert(r@[i]@ == bytes@.subrange(a, b));
        assert(bytes@[a + k] != sep);
    }
}

/// A text is split once exactly where it holds the separator: what stands before
/// holds none, and the two make the text with the separator between them.
pub proof fn a_split_is_at_the_first(text: &[char], sep: char)
    ensures
        forall|r: Option<(&[char], &[char])>| #[trigger]
            call_ensures(split_once, (text, sep), r) ==> {
                &&& r is None <==> !text@.contains(sep)
                &&& r matches Some((before, behind)) ==> !before@.contains(sep) && text@
                    == before@.push(sep) + behind@
            },
{
    let i = first_index(text@, sep);
    first_index_bounds(text@, sep);
    before_the_first(text@, sep);
    assert forall|r: Option<(&[char], &[char])>| #[trigger]
        call_ensures(split_once, (text, sep), r) implies {
        &&& r is None <==> !text@.contains(sep)
        &&& r matches Some((before, behind)) ==> !before@.contains(sep) && text@ == before@.push(sep)
            + behind@
    } by {
        if i < text@.len() {
            first_index_at(text@, sep);
            assert(text@.contains(sep));
            if let Some((before, behind)) = r {
                assert(text@ =~= before@.push(sep) + behind@);
                if before@.contains(sep) {
                    let k = choose|k: int| 0 <= k < before@.len() && before@[k] == sep;
                    assert(text@[k] == sep);
                }
            }
        } else if text@.contains(sep) {
            let k = choose|k: int| 0 <= k < text@.len() && text@[k] == sep;
            assert(text@[k] != sep);
        }
    }
}

/// Where what is left of a trimmed text stands: nothing but blanks stands
/// around it, and it begins and ends with none.
pub proof fn trimmed_stands<A>(s: Seq<A>, blank: spec_fn(A) -> bool) -> (at: (int, int))
    ensures
        0 <= at.0 <= at.1 <= s.len(),
        trimmed(s, blank) == s.subrange(at.0, at.1),
        forall|k: int| 0 <= k < at.0 ==> blank(#[trigger] s[k]),
        forall|k: int| at.1 <= k < s.len() ==> blank(#[trigger] s[k]),
        at.0 < at.1 ==> !blank(s[at.0]) && !blank(s[at.1 - 1]),
    decreases s.len(),
{
    if s.len() == 0 {
        assert(s.subrange(0, 0) =~= s);
        (0, 0)
    } else if blank(s[0]) {
        let rest = s.drop_first();
        let (a, b) = trimmed_stands(rest, blank);
        assert(trimmed(s, blank) == trimmed(rest, blank));
        assert(rest.subrange(a, b) =~= s.subrange(a + 1, b + 1));
        assert forall|k: int| 0 <= k < a + 1 implies blank(#[trigger] s[k]) by {
            if k > 0 {
                assert(rest[k - 1] == s[k]);
            }
        }
        assert forall|k: int| b + 1 <= k < s.len() implies blank(#[trigger] s[k]) by {
            assert(rest[k - 1] == s[k]);
        }
        assert(a < b ==> rest[a] == s[a + 1] && rest[b - 1] == s[b]);
        (a + 1, b + 1)
    } else if blank(s.last()) {
        let rest = s.drop_last();
        let (a, b) = trimmed_stands(rest, blank);
        assert(trimmed(s, blank) == trimmed(rest, blank));
        assert(rest.subrange(a, b) =~= s.subrange(a, b));
        assert forall|k: int| 0 <= k < a implies blank(#[trigger] s[k]) by {
            assert(rest[k] == s[k]);
        }
        assert forall|k: int| b <= k < s.len() implies blank(#[trigger] s[k]) by {
            if k < rest.len() {
                assert(rest[k] == s[k]);
            }
        }
        assert(a < b ==> rest[a] == s[a] && rest[b - 1] == s[b - 1]);
        (a, b)
    } else {
        assert(s.subrange(0, s.len() as int) =~= s);
        (0, s.len() as int)
    }
}

/// What is between blanks, and begins and ends with none, is what trimming
/// leaves.
pub proof fn trimmed_is<A>(s: Seq<A>, blank: spec_fn(A) -> bool, c: int, d: int)
    requires
        0 <= c < d <= s.len(),
        forall|k: int| 0 <= k < c ==> blank(#[trigger] s[k]),
        forall|k: int| d <= k < s.len() ==> blank(#[trigger] s[k]),
        !blank(s[c]),
        !blank(s[d - 1]),
    ensures
        trimmed(s, blank) == s.subrange(c, d),
{
    let (a, b) = trimmed_stands(s, blank);
    assert(a <= c) by {
        if c < a {
            assert(blank(s[c]));
        }
    }
    assert(d <= b) by {
        if b < d {
            assert(blank(s[d - 1]));
        }
    }
    assert(a == c) by {
        if a < c {
            assert(blank(s[a]));
        }
    }
    assert(b == d) by {
        if d < b {
            assert(blank(s[b - 1]));
        }
    }
}

/// Trimming takes white space off both ends of a text, all of it, and nothing
/// else. White space is what Unicode says it is.
pub proof fn trimming_takes_white_space(text: &[char], r: &[char]) -> (at: (int, int))
    requires
        call_ensures(trim, (text,), r),
    ensures
        0 <= at.0 <= at.1 <= text@.len(),
        r@ == text@.subrange(at.0, at.1),
        forall|k: int|
            0 <= k < at.0 || at.1 <= k < text@.len() ==> {
                let u = (#[trigger] text@[k]) as u32;
                ||| u == 0x9 || u == 0xa || u == 0xb || u == 0xc || u == 0xd || u == 0x20
                ||| u == 0x85 || u == 0xa0 || u == 0x1680 || 0x2000 <= u <= 0x200a
                ||| u == 0x2028 || u == 0x2029 || u == 0x202f || u == 0x205f || u == 0x3000
            },
        forall|k: int|
            at.0 < at.1 && (k == at.0 || k == at.1 - 1) ==> {
                let u = (#[trigger] text@[k]) as u32;
                &&& !(0x9 <= u <= 0xd) && u != 0x20 && u != 0x85 && u != 0xa0 && u != 0x1680
                &&& !(0x2000 <= u <= 0x200a) && u != 0x2028 && u != 0x2029 && u != 0x202f
                &&& u != 0x205f && u != 0x3000
            },
{
    let blank = |c: char| is_white_space(c);
    let at = trimmed_stands(text@, blank);
    assert forall|k: int| 0 <= k < at.0 || at.1 <= k < text@.len() implies is_white_space(
        #[trigger] text@[k],
    ) by {
        assert(blank(text@[k]));
    }
    at
}

/// Trimming takes spaces and tabs off both ends of bytes, all of them, and
/// nothing else.
pub proof fn trimming_takes_blanks(bytes: &[u8], r: &[u8]) -> (at: (int, int))
    requires
        call_ensures(trim_bytes, (bytes,), r),
    ensures
        0 <= at.0 <= at.1 <= bytes@.len(),
        r@ == bytes@.subrange(at.0, at.1),
        forall|k: int|
            0 <= k < at.0 || at.1 <= k < bytes@.len() ==> (#[trigger] bytes@[k]) == 32 || bytes@[k]
                == 9,
        at.0 < at.1 ==> bytes@[at.0] != 32 && bytes@[at.0] != 9 && bytes@[at.1 - 1] != 32
            && bytes@[at.1 - 1] != 9,
{
    let blank = |b: u8| is_blank(b);
    let at = trimmed_stands(bytes@, blank);
    assert forall|k: int| 0 <= k < at.0 || at.1 <= k < bytes@.len() implies is_blank(
        #[trigger] bytes@[k],
    ) by {
        assert(blank(bytes@[k]));
    }
    at
}

/// Taking a text apart into characters and putting them together gives the text.
pub proof fn characters_make_the_text(text: &str, chars: Vec<char>)
    requires
        call_ensures(chars_of, (text,), chars),
    ensures
        chars@ == text@,
        forall|slice: &[char], r: String| #[trigger]
            call_ensures(string_of, (slice,), r) ==> r@ == slice@,
{
}

/// White space is what Unicode says it is.
pub proof fn white_space_is_known(c: char, r: bool)
    requires
        call_ensures(white_space, (c,), r),
    ensures
        ({
            let u = c as u32;
            r <==> {
                ||| u == 0x9 || u == 0xa || u == 0xb || u == 0xc || u == 0xd || u == 0x20
                ||| u == 0x85 || u == 0xa0 || u == 0x1680 || 0x2000 <= u <= 0x200a
                ||| u == 0x2028 || u == 0x2029 || u == 0x202f || u == 0x205f || u == 0x3000
            }
        }),
{
}

} // verus!
