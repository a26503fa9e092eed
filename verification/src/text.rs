//! Text as a sequence of characters: whitespace, runs of it, and trimming.

use vstd::prelude::*;
use vstd::std_specs::iter::IteratorSpec;
use vstd::string::StringSliceAdditionalSpecFns;
use vstd::utf8::{decode_utf8, encode_utf8, valid_utf8};

verus! {

/// Whether `c` is whitespace: a character that Unicode classes as
/// `White_Space`.
pub open spec fn is_space(c: char) -> bool {
    let n = c as u32;
    ||| 0x09 <= n <= 0x0D
    ||| n == 0x20
    ||| n == 0x85
    ||| n == 0xA0
    ||| n == 0x1680
    ||| 0x2000 <= n <= 0x200A
    ||| n == 0x2028
    ||| n == 0x2029
    ||| n == 0x202F
    ||| n == 0x205F
    ||| n == 0x3000
}

/// The length of the longest prefix of `s` whose characters all are
/// whitespace (`space` true) or all are not (`space` false).
pub open spec fn leading_run(s: Seq<char>, space: bool) -> nat
    decreases s.len(),
{
    if s.len() > 0 && is_space(s[0]) == space {
        1 + leading_run(s.drop_first(), space)
    } else {
        0
    }
}

/// The length of the longest suffix of `s` whose characters all are
/// whitespace (`space` true) or all are not (`space` false).
pub open spec fn trailing_run(s: Seq<char>, space: bool) -> nat
    decreases s.len(),
{
    if s.len() > 0 && is_space(s.last()) == space {
        1 + trailing_run(s.drop_last(), space)
    } else {
        0
    }
}

/// `s` without the whitespace at its start.
pub open spec fn trim_start(s: Seq<char>) -> Seq<char> {
    s.skip(leading_run(s, true) as int)
}

/// `s` without the whitespace at its end.
pub open spec fn trim_end(s: Seq<char>) -> Seq<char> {
    s.take(s.len() - trailing_run(s, true))
}

/// `s` without the whitespace at its start and at its end.
pub open spec fn trim(s: Seq<char>) -> Seq<char> {
    trim_end(trim_start(s))
}

/// The words of `s`: its longest runs of characters that are not
/// whitespace, in order.
pub open spec fn words(s: Seq<char>) -> Seq<Seq<char>>
    decreases s.len(),
{
    let from = trim_start(s);
    let len = leading_run(from, false);
    if len == 0 {
        Seq::empty()
    } else {
        proof {
            lemma_leading_run_bound(s, true);
            lemma_leading_run_bound(from, false);
        }
        seq![from.take(len as int)] + words(from.skip(len as int))
    }
}

/// The texts of `strings`, in order.
pub open spec fn texts_of(strings: Seq<String>) -> Seq<Seq<char>> {
    Seq::new(strings.len(), |i: int| strings[i]@)
}

/// Whether `s` holds a whitespace character.
pub open spec fn has_space(s: Seq<char>) -> bool {
    exists|i: int| 0 <= i < s.len() && is_space(#[trigger] s[i])
}

/// A run never exceeds the sequence.
pub proof fn lemma_leading_run_bound(s: Seq<char>, space: bool)
    ensures
        leading_run(s, space) <= s.len(),
    decreases s.len(),
{
    if s.len() > 0 && is_space(s[0]) == space {
        lemma_leading_run_bound(s.drop_first(), space);
    }
}

/// A run never exceeds the sequence.
pub proof fn lemma_trailing_run_bound(s: Seq<char>, space: bool)
    ensures
        trailing_run(s, space) <= s.len(),
    decreases s.len(),
{
    if s.len() > 0 && is_space(s.last()) == space {
        lemma_trailing_run_bound(s.drop_last(), space);
    }
}

/// A prefix of `k` characters of one kind, followed by the end or by a
/// character of the other kind, is the leading run.
pub proof fn lemma_leading_run_is(s: Seq<char>, space: bool, k: nat)
    requires
        k <= s.len(),
        forall|j: int| 0 <= j < k ==> is_space(#[trigger] s[j]) == space,
        k < s.len() ==> is_space(s[k as int]) != space,
    ensures
        leading_run(s, space) == k,
    decreases k,
{
    if k > 0 {
        let t = s.drop_first();
        assert forall|j: int| 0 <= j < k - 1 implies is_space(#[trigger] t[j]) == space by {
            assert(t[j] == s[j + 1]);
        }
        lemma_leading_run_is(t, space, (k - 1) as nat);
    }
}

/// A suffix of `k` characters of one kind, preceded by the start or by a
/// character of the other kind, is the trailing run.
pub proof fn lemma_trailing_run_is(s: Seq<char>, space: bool, k: nat)
    requires
        k <= s.len(),
        forall|j: int| s.len() - k <= j < s.len() ==> is_space(#[trigger] s[j]) == space,
        k < s.len() ==> is_space(s[s.len() - k - 1]) != space,
    ensures
        trailing_run(s, space) == k,
    decreases k,
{
    if k > 0 {
        let t = s.drop_last();
        assert forall|j: int| t.len() - (k - 1) <= j < t.len() implies is_space(#[trigger] t[j])
            == space by {
            assert(t[j] == s[j]);
        }
        lemma_trailing_run_is(t, space, (k - 1) as nat);
    }
}

/// The leading run of the other kind ends at the first whitespace: `s` holds
/// whitespace exactly when that run stops before the end.
pub proof fn lemma_has_space(s: Seq<char>)
    ensures
        has_space(s) <==> leading_run(s, false) < s.len(),
        leading_run(s, false) < s.len() ==> is_space(s[leading_run(s, false) as int]),
        forall|j: int| 0 <= j < leading_run(s, false) ==> !is_space(#[trigger] s[j]),
    decreases s.len(),
{
    if s.len() > 0 && !is_space(s[0]) {
        let t = s.drop_first();
        lemma_has_space(t);
        lemma_leading_run_bound(t, false);
        assert forall|j: int| 0 <= j < leading_run(s, false) implies !is_space(
            #[trigger] s[j],
        ) by {
            if j > 0 {
                assert(s[j] == t[j - 1]);
            }
        }
        if has_space(s) {
            let i = choose|i: int| 0 <= i < s.len() && is_space(#[trigger] s[i]);
            assert(is_space(t[i - 1]));
        }
        if has_space(t) {
            let i = choose|i: int| 0 <= i < t.len() && is_space(#[trigger] t[i]);
            assert(is_space(s[i + 1]));
        }
    } else if s.len() > 0 {
        assert(is_space(s[0]));
    }
}

/// Text without whitespace is its own trimmed text.
pub proof fn lemma_trim_without_space(s: Seq<char>)
    requires
        !has_space(s),
    ensures
        trim(s) == s,
{
    lemma_leading_run_is(s, true, 0);
    assert(s.skip(0) =~= s);
    lemma_trailing_run_is(s, true, 0);
    assert(s.take(s.len() as int) =~= s);
}

/// The bytes of text that is not empty are not empty.
pub proof fn lemma_encoded_text_is_not_empty(s: Seq<char>)
    requires
        s.len() > 0,
    ensures
        encode_utf8(s).len() > 0,
{
    vstd::utf8::encode_utf8_decode_utf8(s);
    if encode_utf8(s).len() == 0 {
        assert(decode_utf8(encode_utf8(s)).len() == 0);
    }
}

/// `std::str::from_utf8`: the text that `bytes` encode, where they are valid
/// UTF-8, and nothing where they are not.
#[verifier::external_body]
pub(crate) fn utf8_text(bytes: &[u8]) -> (text: Option<&str>)
    ensures
        text is Some <==> valid_utf8(bytes@),
        text matches Some(t) ==> t.spec_bytes() == bytes@,
{
    match std::str::from_utf8(bytes) {
        Ok(text) => Some(text),
        Err(_) => None,
    }
}

/// Whether `c` is whitespace.
pub fn is_whitespace(c: char) -> (b: bool)
    ensures
        b == is_space(c),
{
    let n: u32 = c as u32;
    (0x09 <= n && n <= 0x0D) || n == 0x20 || n == 0x85 || n == 0xA0 || n == 0x1680 || (0x2000 <= n
        && n <= 0x200A) || n == 0x2028 || n == 0x2029 || n == 0x202F || n == 0x205F || n == 0x3000
}

/// The characters of `text`, in order.
pub fn chars_of(text: &str) -> (chars: Vec<char>)
    ensures
        chars@ == text@,
{
    let mut chars: Vec<char> = Vec::new();
    let mut rest = text.chars();
    loop
        invariant
            rest.obeys_prophetic_iter_laws(),
            rest.decrease() is Some,
            chars@ + rest.remaining() == text@,
        ensures
            chars@ =~= text@,
        decreases rest.decrease()->0,
    {
        match rest.next() {
            Some(c) => {
                chars.push(c);
            },
            None => {
                break ;
            },
        }
    }
    chars
}

/// The end of the run that starts at `from` and stays before `to`: the first
/// position from `from` on whose character is of the other kind, or `to`.
pub(crate) fn skip_run(chars: &Vec<char>, from: usize, to: usize, space: bool) -> (end: usize)
    requires
        from <= to <= chars.len(),
    ensures
        from <= end <= to,
        end - from == leading_run(chars@.subrange(from as int, to as int), space),
{
    let mut end: usize = from;
    while end < to && is_whitespace(chars[end]) == space
        invariant
            from <= end <= to <= chars.len(),
            forall|j: int| from <= j < end ==> is_space(#[trigger] chars@[j]) == space,
        decreases to - end,
    {
        end += 1;
    }
    proof {
        let s = chars@.subrange(from as int, to as int);
        assert forall|j: int| 0 <= j < end - from implies is_space(#[trigger] s[j]) == space by {
            assert(s[j] == chars@[from + j]);
        }
        lemma_leading_run_is(s, space, (end - from) as nat);
    }
    end
}

/// The start of the run that ends at `to` and stays at or after `from`: the
/// position after the last character before `to` that is of the other kind, or
/// `from`.
pub(crate) fn skip_run_back(chars: &Vec<char>, from: usize, to: usize, space: bool) -> (start: usize)
    requires
        from <= to <= chars.len(),
    ensures
        from <= start <= to,
        to - start == trailing_run(chars@.subrange(from as int, to as int), space),
{
    let mut start: usize = to;
    while start > from && is_whitespace(chars[start - 1]) == space
        invariant
            from <= start <= to <= chars.len(),
            forall|j: int| start <= j < to ==> is_space(#[trigger] chars@[j]) == space,
        decreases start - from,
    {
        start -= 1;
    }
    proof {
        let s = chars@.subrange(from as int, to as int);
        assert forall|j: int| s.len() - (to - start) <= j < s.len() implies is_space(
            #[trigger] s[j],
        ) == space by {
            assert(s[j] == chars@[from + j]);
        }
        lemma_trailing_run_is(s, space, (to - start) as nat);
    }
    start
}

/// The bounds of the trimmed text between `from` and `to`.
pub(crate) fn trim_bounds(chars: &Vec<char>, from: usize, to: usize) -> (bounds: (usize, usize))
    requires
        from <= to <= chars.len(),
    ensures
        from <= bounds.0 <= bounds.1 <= to,
        chars@.subrange(bounds.0 as int, bounds.1 as int) == trim(
            chars@.subrange(from as int, to as int),
        ),
{
    let start = skip_run(chars, from, to, true);
    let end = skip_run_back(chars, start, to, true);
    proof {
        let s = chars@.subrange(from as int, to as int);
        assert(trim_start(s) =~= chars@.subrange(start as int, to as int));
        assert(trim(s) =~= chars@.subrange(start as int, end as int));
    }
    (start, end)
}

/// The words of `text`: what `split_whitespace` yields.
pub fn split_words(text: &str) -> (found: Vec<String>)
    ensures
        texts_of(found@) == words(text@),
{
    let chars = chars_of(text);
    let len = chars.len();
    let mut found: Vec<String> = Vec::new();
    let mut pos: usize = 0;
    proof {
        assert(text@.skip(0) =~= text@);
        assert(texts_of(found@) + words(text@) =~= words(text@));
    }
    loop
        invariant
            pos <= len == chars.len(),
            chars@ == text@,
            texts_of(found@) + words(text@.skip(pos as int)) == words(text@),
        ensures
            texts_of(found@) == words(text@),
        decreases len - pos,
    {
        let start = skip_run(&chars, pos, len, true);
        let end = skip_run(&chars, start, len, false);
        let ghost tail = text@.skip(pos as int);
        proof {
            assert(chars@.subrange(pos as int, len as int) =~= tail);
            assert(trim_start(tail) =~= chars@.subrange(start as int, len as int));
        }
        if end == start {
            proof {
                assert(texts_of(found@) + Seq::<Seq<char>>::empty() =~= texts_of(found@));
            }
            break ;
        }
        let word = text.substring_char(start, end).to_owned();
        let ghost before = texts_of(found@);
        found.push(word);
        proof {
            let from = trim_start(tail);
            assert(from.take(end - start) =~= word@);
            assert(from.skip(end - start) =~= text@.skip(end as int));
            assert(texts_of(found@) =~= before.push(word@));
            assert(before.push(word@) + words(text@.skip(end as int)) =~= before + (seq![word@]
                + words(text@.skip(end as int))));
        }
        pos = end;
    }
    found
}

} // verus!
