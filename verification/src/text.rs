//! Names as they are compared: a query parted at `&`, and every name
//! trimmed and in lower case.
use vstd::prelude::*;

verus! {

/// The lower-case form of a text, as `str::to_lowercase` gives it.
pub uninterp spec fn lowercase(s: Seq<char>) -> Seq<char>;

/// Whether a character is white space: whether it has the property
/// White_Space of Unicode. These are the characters U+0009 to U+000D, U+0020,
/// U+0085, U+00A0, U+1680, U+2000 to U+200A, U+2028, U+2029, U+202F, U+205F
/// and U+3000.
pub open spec fn white_space(c: char) -> bool {
    let n = c as u32;
    (0x09 <= n <= 0x0D) || n == 0x20 || n == 0x85 || n == 0xA0 || n == 0x1680 || (0x2000 <= n
        <= 0x200A) || n == 0x2028 || n == 0x2029 || n == 0x202F || n == 0x205F || n == 0x3000
}

/// `str::to_lowercase` of std: the result depends on the text alone and is
/// named [`lowercase`]; nothing else is claimed of it.
#[verifier::external_body]
pub(crate) fn to_lowercase(s: &str) -> (r: String)
    ensures
        r@ == lowercase(s@),
{
    s.to_lowercase()
}

/// `char::is_whitespace` of std, which tells whether a character has the
/// property White_Space of Unicode: the claim is that these are the
/// characters that [`white_space`] lists.
#[verifier::external_body]
pub(crate) fn is_whitespace(c: char) -> (r: bool)
    ensures
        r == white_space(c),
{
    c.is_whitespace()
}

/// `String::from_utf8` of std: the text whose UTF-8 bytes are the given
/// ones, and none exactly where the bytes are not UTF-8.
#[verifier::external_body]
pub(crate) fn text_of(bytes: Vec<u8>) -> (r: Option<String>)
    ensures
        match r {
            Some(text) => vstd::utf8::valid_utf8(bytes@) && vstd::utf8::encode_utf8(text@)
                == bytes@,
            None => !vstd::utf8::valid_utf8(bytes@),
        },
{
    String::from_utf8(bytes).ok()
}

/// A text without the white space it begins with.
pub open spec fn trim_start(s: Seq<char>) -> Seq<char>
    decreases s.len(),
{
    if s.len() > 0 && white_space(s.first()) {
        trim_start(s.drop_first())
    } else {
        s
    }
}

/// A text without the white space it ends with.
pub open spec fn trim_end(s: Seq<char>) -> Seq<char>
    decreases s.len(),
{
    if s.len() > 0 && white_space(s.last()) {
        trim_end(s.drop_last())
    } else {
        s
    }
}

/// A text without the white space around it.
pub open spec fn trimmed(s: Seq<char>) -> Seq<char> {
    trim_end(trim_start(s))
}

/// The pieces of a text between the occurrences of `sep`. Read from the left,
/// `sep` closes a piece and opens an empty one, and any other character
/// lengthens the last piece; so there is always at least one piece.
pub open spec fn split_on(s: Seq<char>, sep: char) -> Seq<Seq<char>>
    decreases s.len(),
{
    if s.len() == 0 {
        seq![Seq::empty()]
    } else {
        let before = split_on(s.drop_last(), sep);
        if s.last() == sep {
            before.push(Seq::empty())
        } else {
            before.drop_last().push(before.last().push(s.last()))
        }
    }
}

/// The key of a name: the name trimmed, then in lower case. Names are
/// compared by their keys, the pieces of a query and the names on the list
/// alike.
pub open spec fn key_of(piece: Seq<char>) -> Seq<char> {
    lowercase(trimmed(piece))
}

/// The keys that a query asks for: one for each piece between `&`.
pub open spec fn keys_of(query: Seq<char>) -> Seq<Seq<char>> {
    split_on(query, '&').map_values(|piece: Seq<char>| key_of(piece))
}

/// Where the first `a` characters are white space and the next one is not,
/// the text without the white space it begins with starts at `a`.
pub proof fn lemma_trim_start_at(s: Seq<char>, a: int)
    requires
        0 <= a <= s.len(),
        forall|j: int| 0 <= j < a ==> white_space(#[trigger] s[j]),
        a < s.len() ==> !white_space(s[a]),
    ensures
        trim_start(s) == s.subrange(a, s.len() as int),
    decreases a,
{
    if a == 0 {
        assert(s.subrange(0, s.len() as int) == s);
    } else {
        let t = s.drop_first();
        assert forall|j: int| 0 <= j < a - 1 implies white_space(#[trigger] t[j]) by {
            assert(t[j] == s[j + 1]);
        }
        lemma_trim_start_at(t, a - 1);
        assert(t.subrange(a - 1, t.len() as int) == s.subrange(a, s.len() as int));
    }
}

/// Where the characters from `b` on are white space and the one before is
/// not, the text without the white space it ends with ends at `b`.
pub proof fn lemma_trim_end_at(s: Seq<char>, b: int)
    requires
        0 <= b <= s.len(),
        forall|j: int| b <= j < s.len() ==> white_space(#[trigger] s[j]),
        0 < b ==> !white_space(s[b - 1]),
    ensures
        trim_end(s) == s.subrange(0, b),
    decreases s.len() - b,
{
    if b == s.len() {
        assert(s.subrange(0, s.len() as int) == s);
    } else {
        let t = s.drop_last();
        lemma_trim_end_at(t, b);
        assert(t.subrange(0, b) == s.subrange(0, b));
    }
}

/// White space put before a text is trimmed away with the white space that
/// the text begins with.
pub proof fn lemma_trim_start_skips(before: Seq<char>, s: Seq<char>)
    requires
        forall|j: int| 0 <= j < before.len() ==> white_space(#[trigger] before[j]),
    ensures
        trim_start(before + s) == trim_start(s),
    decreases before.len(),
{
    if before.len() == 0 {
        assert(before + s == s);
    } else {
        let rest = before.drop_first();
        assert((before + s).first() == before[0]);
        assert((before + s).drop_first() == rest + s);
        assert forall|j: int| 0 <= j < rest.len() implies white_space(#[trigger] rest[j]) by {
            assert(rest[j] == before[j + 1]);
        }
        lemma_trim_start_skips(rest, s);
    }
}

/// White space put behind a text is trimmed away with the white space that
/// the text ends with.
pub proof fn lemma_trim_end_skips(s: Seq<char>, after: Seq<char>)
    requires
        forall|j: int| 0 <= j < after.len() ==> white_space(#[trigger] after[j]),
    ensures
        trim_end(s + after) == trim_end(s),
    decreases after.len(),
{
    if after.len() == 0 {
        assert(s + after == s);
    } else {
        let rest = after.drop_last();
        assert((s + after).last() == after[after.len() - 1]);
        assert((s + after).drop_last() == s + rest);
        assert forall|j: int| 0 <= j < rest.len() implies white_space(#[trigger] rest[j]) by {
            assert(rest[j] == after[j]);
        }
        lemma_trim_end_skips(s, rest);
    }
}

/// What follows a text stays where the white space that the text begins
/// with is taken off, unless the text is white space throughout.
pub proof fn lemma_trim_start_keeps(s: Seq<char>, after: Seq<char>)
    ensures
        trim_start(s + after) == if trim_start(s).len() == 0 {
            trim_start(after)
        } else {
            trim_start(s) + after
        },
        trim_start(s).len() == 0 ==> forall|j: int| 0 <= j < s.len() ==> white_space(#[trigger] s[j]),
    decreases s.len(),
{
    if s.len() == 0 {
        assert(s + after == after);
    } else if white_space(s.first()) {
        let rest = s.drop_first();
        assert((s + after).first() == s.first());
        assert((s + after).drop_first() == rest + after);
        lemma_trim_start_keeps(rest, after);
        assert forall|j: int| 0 <= j < s.len() && trim_start(s).len() == 0 implies white_space(
            #[trigger] s[j],
        ) by {
            if j > 0 {
                assert(s[j] == rest[j - 1]);
            }
        }
    } else {
        assert((s + after).first() == s.first());
    }
}

/// White space put around a text does not change its trimmed form.
pub proof fn lemma_trimmed_padded(before: Seq<char>, s: Seq<char>, after: Seq<char>)
    requires
        forall|j: int| 0 <= j < before.len() ==> white_space(#[trigger] before[j]),
        forall|j: int| 0 <= j < after.len() ==> white_space(#[trigger] after[j]),
    ensures
        trimmed(before + s + after) == trimmed(s),
{
    assert(before + s + after == before + (s + after));
    lemma_trim_start_skips(before, s + after);
    lemma_trim_start_keeps(s, after);
    if trim_start(s).len() == 0 {
        lemma_trim_start_at(after, after.len() as int);
        assert(after.subrange(after.len() as int, after.len() as int) == trim_start(s));
    } else {
        lemma_trim_end_skips(trim_start(s), after);
    }
}

/// A text without the separator is one piece.
pub proof fn lemma_split_unbroken(s: Seq<char>, sep: char)
    requires
        !s.contains(sep),
    ensures
        split_on(s, sep) == seq![s],
    decreases s.len(),
{
    if s.len() == 0 {
        assert(s == Seq::<char>::empty());
    } else {
        let t = s.drop_last();
        assert forall|j: int| 0 <= j < t.len() implies t[j] != sep by {
            assert(s.contains(s[j]));
        }
        lemma_split_unbroken(t, sep);
        assert(s.contains(s.last()));
        assert(t.push(s.last()) == s);
        assert(seq![t].drop_last().push(t.push(s.last())) == seq![s]);
    }
}

/// A query without `&` asks for one key.
pub proof fn lemma_keys_single(query: Seq<char>)
    requires
        !query.contains('&'),
    ensures
        keys_of(query) == seq![key_of(query)],
{
    lemma_split_unbroken(query, '&');
    assert(keys_of(query) =~= seq![key_of(query)]);
}

/// Whether two texts are the same, character by character.
pub fn same_text(a: &str, b: &str) -> (r: bool)
    ensures
        r == (a@ == b@),
{
    let x = a.as_bytes();
    let y = b.as_bytes();
    proof {
        vstd::utf8::encode_utf8_decode_utf8(a@);
        vstd::utf8::encode_utf8_decode_utf8(b@);
    }
    if x.len() != y.len() {
        return false;
    }
    let mut i: usize = 0;
    while i < x.len()
        invariant
            i <= x@.len(),
            x@.len() == y@.len(),
            x@ == vstd::utf8::encode_utf8(a@),
            y@ == vstd::utf8::encode_utf8(b@),
            forall|j: int| 0 <= j < i ==> x@[j] == y@[j],
        decreases x@.len() - i,
    {
        if x[i] != y[i] {
            return false;
        }
        i = i + 1;
    }
    assert(x@ =~= y@);
    true
}

/// The text without the white space around it.
pub fn trim(s: &str) -> (r: &str)
    ensures
        r@ == trimmed(s@),
{
    let n = s.unicode_len();
    let mut first: usize = 0;
    let mut end: usize = 0;
    let mut i: usize = 0;
    for c in it: s.chars()
        invariant
            i == it.index(),
            it.seq() == s@,
            n == s@.len(),
            first <= end <= i,
            forall|j: int| 0 <= j < first ==> white_space(#[trigger] s@[j]),
            forall|j: int| end <= j < i ==> white_space(#[trigger] s@[j]),
            first < end ==> !white_space(s@[first as int]) && !white_space(s@[end - 1]),
            first == end ==> first == i,
    {
        if !is_whitespace(c) {
            if first == end {
                first = i;
            }
            end = i + 1;
        } else if first == end {
            first = i + 1;
            end = i + 1;
        }
        i += 1;
    }
    proof {
        lemma_trim_start_at(s@, first as int);
        let t = s@.subrange(first as int, n as int);
        assert forall|j: int| end - first <= j < t.len() implies white_space(#[trigger] t[j]) by {
            assert(t[j] == s@[j + first]);
        }
        lemma_trim_end_at(t, end - first);
        assert(t.subrange(0, end - first) == s@.subrange(first as int, end as int));
    }
    s.substring_char(first, end)
}

/// The key of a name, or of one piece of a query.
pub fn piece_key(piece: &str) -> (r: String)
    ensures
        r@ == key_of(piece@),
{
    to_lowercase(trim(piece))
}

/// The keys that a query asks for, in the order of its pieces.
pub fn query_keys(query: &str) -> (keys: Vec<String>)
    ensures
        keys.deep_view() == keys_of(query@),
{
    let n = query.unicode_len();
    let mut keys: Vec<String> = Vec::new();
    let ghost mut pieces: Seq<Seq<char>> = Seq::empty();
    let mut start: usize = 0;
    let mut i: usize = 0;
    proof {
        assert(query@.take(0).len() == 0);
        assert(query@.subrange(0, 0) == Seq::<char>::empty());
        assert(pieces.push(query@.subrange(0, 0)) == seq![Seq::<char>::empty()]);
    }
    for c in it: query.chars()
        invariant
            i == it.index(),
            it.seq() == query@,
            n == query@.len(),
            start <= i,
            split_on(query@.take(i as int), '&') == pieces.push(
                query@.subrange(start as int, i as int),
            ),
            keys.deep_view() == pieces.map_values(|piece: Seq<char>| key_of(piece)),
    {
        proof {
            let head = query@.take(i + 1);
            assert(head.drop_last() == query@.take(i as int));
            assert(head.last() == c);
            assert(pieces.push(query@.subrange(start as int, i as int)).drop_last() == pieces);
            assert(query@.subrange(start as int, i as int).push(c) == query@.subrange(
                start as int,
                i + 1,
            ));
        }
        if c == '&' {
            let key = piece_key(query.substring_char(start, i));
            proof {
                let piece = query@.subrange(start as int, i as int);
                assert(keys.deep_view().push(key@) == pieces.push(piece).map_values(
                    |piece: Seq<char>| key_of(piece),
                ));
                pieces = pieces.push(piece);
            }
            let ghost before = keys.deep_view();
            keys.push(key);
            assert(keys.deep_view() == before.push(key@));
            start = i + 1;
            assert(query@.subrange(start as int, i + 1) == Seq::<char>::empty());
        }
        i += 1;
    }
    let key = piece_key(query.substring_char(start, n));
    proof {
        let piece = query@.subrange(start as int, n as int);
        assert(query@.take(n as int) == query@);
        assert(keys.deep_view().push(key@) == pieces.push(piece).map_values(
            |piece: Seq<char>| key_of(piece),
        ));
    }
    let ghost before = keys.deep_view();
    keys.push(key);
    assert(keys.deep_view() == before.push(key@));
    keys
}

} // verus!
