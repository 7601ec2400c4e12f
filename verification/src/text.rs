//! Characters, white space and tokens of an input line.

use vstd::prelude::*;
use vstd::std_specs::iter::IteratorSpec;
use vstd::string::StrSliceExecFns;

verus! {

/// Whether `c` is white space: one of the 25 code points that carry the
/// Unicode property `White_Space`.
pub open spec fn is_space(c: char) -> bool {
    let n: u32 = c as u32;
    ||| 0x09 <= n <= 0x0D
    ||| n == 0x20
    ||| n == 0x85
    ||| n == 0xA0
    ||| n == 0x1680
    ||| 0x2000 <= n <= 0x200A
    ||| n == 0x2028
    ||| n == 0x2029
    ||| n == 0x202F
    ||| n == 0x205F
    ||| n == 0x3000
}

/// `char::is_whitespace` of std, which is documented to tell whether a
/// character has the Unicode property `White_Space`. Trusted: the claim is
/// that the property holds of exactly the code points that `is_space` lists.
pub assume_specification[ char::is_whitespace ](c: char) -> (r: bool)
    ensures
        r == is_space(c),
;

/// Every character of `s` is white space.
pub open spec fn all_space(s: Seq<char>) -> bool {
    forall|i: int| 0 <= i < s.len() ==> is_space(#[trigger] s[i])
}

/// No character of `s` is white space.
pub open spec fn no_space(s: Seq<char>) -> bool {
    forall|i: int| 0 <= i < s.len() ==> !is_space(#[trigger] s[i])
}

/// Whether `s` is a word: it has a character, and none that is white space.
pub open spec fn is_word(s: Seq<char>) -> bool {
    s.len() > 0 && no_space(s)
}

/// How many white-space characters `s` begins with.
pub open spec fn leading_spaces(s: Seq<char>) -> nat
    decreases s.len(),
{
    if s.len() == 0 || !is_space(s[0]) {
        0
    } else {
        1 + leading_spaces(s.drop_first())
    }
}

/// How many characters other than white space `s` begins with.
pub open spec fn leading_word(s: Seq<char>) -> nat
    decreases s.len(),
{
    if s.len() == 0 || is_space(s[0]) {
        0
    } else {
        1 + leading_word(s.drop_first())
    }
}

/// The tokens of `s`: its maximal runs of characters other than white space,
/// from left to right.
pub open spec fn tokens(s: Seq<char>) -> Seq<Seq<char>>
    decreases s.len(),
    via tokens_terminates
{
    if s.len() == 0 {
        Seq::empty()
    } else if is_space(s[0]) {
        tokens(s.drop_first())
    } else {
        let n = leading_word(s) as int;
        seq![s.take(n)] + tokens(s.skip(n))
    }
}

#[via_fn]
proof fn tokens_terminates(s: Seq<char>) {
    if s.len() != 0 && !is_space(s[0]) {
        lemma_leading_word(s);
    }
}

/// `leading_word(s)` is the place of the first white-space character of `s`,
/// or the length of `s` where it has none.
pub proof fn lemma_leading_word(s: Seq<char>)
    ensures
        leading_word(s) <= s.len(),
        no_space(s.take(leading_word(s) as int)),
        leading_word(s) < s.len() ==> is_space(s[leading_word(s) as int]),
        s.len() > 0 && !is_space(s[0]) ==> leading_word(s) >= 1,
    decreases s.len(),
{
    if s.len() != 0 && !is_space(s[0]) {
        let rest = s.drop_first();
        lemma_leading_word(rest);
        let n = leading_word(s) as int;
        assert forall|i: int| 0 <= i < n implies !is_space(#[trigger] s.take(n)[i]) by {
            if i > 0 {
                assert(s[i] == rest.take(n - 1)[i - 1]);
            }
        }
    }
}

/// `leading_spaces(s)` is the place of the first character of `s` that is
/// not white space, or the length of `s` where it has none.
pub proof fn lemma_leading_spaces(s: Seq<char>)
    ensures
        leading_spaces(s) <= s.len(),
        all_space(s.take(leading_spaces(s) as int)),
        leading_spaces(s) < s.len() ==> !is_space(s[leading_spaces(s) as int]),
    decreases s.len(),
{
    if s.len() != 0 && is_space(s[0]) {
        let rest = s.drop_first();
        lemma_leading_spaces(rest);
        let n = leading_spaces(s) as int;
        assert forall|i: int| 0 <= i < n implies is_space(#[trigger] s.take(n)[i]) by {
            if i > 0 {
                assert(s[i] == rest.take(n - 1)[i - 1]);
            }
        }
    }
}

/// A word of `k` characters at the start of `s` goes on for as long as the
/// word that begins after it.
pub proof fn lemma_leading_word_from(s: Seq<char>, k: int)
    requires
        0 <= k <= s.len(),
        no_space(s.take(k)),
    ensures
        leading_word(s) == k + leading_word(s.skip(k)),
    decreases k,
{
    if k == 0 {
        assert(s.skip(0) =~= s);
    } else {
        assert(s.take(k)[0] == s[0]);
        let rest = s.drop_first();
        assert forall|i: int| 0 <= i < k - 1 implies !is_space(#[trigger] rest.take(k - 1)[i]) by {
            assert(rest.take(k - 1)[i] == s.take(k)[i + 1]);
        }
        lemma_leading_word_from(rest, k - 1);
        assert(rest.skip(k - 1) =~= s.skip(k));
    }
}

/// White space of `k` characters at the start of `s` goes on for as long as
/// the white space that begins after it.
pub proof fn lemma_leading_spaces_from(s: Seq<char>, k: int)
    requires
        0 <= k <= s.len(),
        all_space(s.take(k)),
    ensures
        leading_spaces(s) == k + leading_spaces(s.skip(k)),
    decreases k,
{
    if k == 0 {
        assert(s.skip(0) =~= s);
    } else {
        assert(s.take(k)[0] == s[0]);
        let rest = s.drop_first();
        assert forall|i: int| 0 <= i < k - 1 implies is_space(#[trigger] rest.take(k - 1)[i]) by {
            assert(rest.take(k - 1)[i] == s.take(k)[i + 1]);
        }
        lemma_leading_spaces_from(rest, k - 1);
        assert(rest.skip(k - 1) =~= s.skip(k));
    }
}

/// White space holds no token.
pub proof fn lemma_tokens_of_space(s: Seq<char>)
    requires
        all_space(s),
    ensures
        tokens(s) == Seq::<Seq<char>>::empty(),
    decreases s.len(),
{
    if s.len() != 0 {
        let rest = s.drop_first();
        assert(is_space(s[0]));
        assert forall|i: int| 0 <= i < rest.len() implies is_space(#[trigger] rest[i]) by {
            assert(rest[i] == s[i + 1]);
        }
        lemma_tokens_of_space(rest);
    }
}

/// A word, by itself, is one token.
pub proof fn lemma_tokens_of_word(word: Seq<char>)
    requires
        is_word(word),
    ensures
        tokens(word) == seq![word],
{
    let n = word.len() as int;
    assert(word.take(n) =~= word);
    lemma_leading_word_from(word, n);
    assert(word.skip(n) =~= Seq::<char>::empty());
    assert(tokens(word.skip(n)) =~= Seq::<Seq<char>>::empty());
    assert(!is_space(word[0]));
    assert(seq![word] + Seq::<Seq<char>>::empty() =~= seq![word]);
}

/// Every token is a word.
pub proof fn law_tokens_are_words(s: Seq<char>)
    ensures
        forall|i: int| 0 <= i < tokens(s).len() ==> is_word(#[trigger] tokens(s)[i]),
    decreases s.len(),
{
    if s.len() == 0 {
        assert(tokens(s).len() == 0);
    } else if is_space(s[0]) {
        law_tokens_are_words(s.drop_first());
        assert(tokens(s) == tokens(s.drop_first()));
    } else {
        let n = leading_word(s) as int;
        lemma_leading_word(s);
        law_tokens_are_words(s.skip(n));
        let first = s.take(n);
        let others = tokens(s.skip(n));
        assert(tokens(s) == seq![first] + others);
        assert forall|i: int| 0 <= i < tokens(s).len() implies is_word(#[trigger] tokens(s)[i]) by {
            if i > 0 {
                assert(tokens(s)[i] == others[i - 1]);
            } else {
                assert(tokens(s)[0] == first);
            }
        }
    }
}

/// Whether no word runs from the end of `a` into the start of `b`.
pub open spec fn apart(a: Seq<char>, b: Seq<char>) -> bool {
    a.len() == 0 || b.len() == 0 || is_space(a.last()) || is_space(b[0])
}

/// Where no word runs from `a` into `b`, the tokens of the two together are
/// those of `a`, then those of `b`.
pub proof fn lemma_tokens_of_parts(a: Seq<char>, b: Seq<char>)
    requires
        apart(a, b),
    ensures
        tokens(a + b) == tokens(a) + tokens(b),
    decreases a.len(),
{
    let s = a + b;
    if a.len() == 0 {
        assert(s =~= b);
        assert(tokens(a) + tokens(b) =~= tokens(b));
    } else if is_space(a[0]) {
        let rest = a.drop_first();
        assert(s.drop_first() =~= rest + b);
        if rest.len() > 0 {
            assert(rest.last() == a.last());
        }
        lemma_tokens_of_parts(rest, b);
    } else {
        let k = leading_word(a) as int;
        lemma_leading_word(a);
        assert(s.take(k) =~= a.take(k));
        lemma_leading_word_from(s, k);
        let rest = a.skip(k);
        assert(s.skip(k) =~= rest + b);
        if k < a.len() {
            assert((rest + b)[0] == a[k]);
        } else if b.len() > 0 {
            assert(a.last() == a.take(k)[k - 1]);
            assert((rest + b)[0] == b[0]);
        }
        assert(leading_word(s) == k);
        if rest.len() > 0 {
            assert(rest.last() == a.last());
        }
        lemma_tokens_of_parts(rest, b);
        assert(s[0] == a[0]);
        assert(seq![a.take(k)] + (tokens(rest) + tokens(b)) =~= (seq![a.take(k)] + tokens(rest))
            + tokens(b));
    }
}

/// A word set off by white space is one more token: after any text, a gap
/// of white space and then a word add that word, whole, to the tokens.
pub proof fn law_tokens_after_gap(s: Seq<char>, gap: Seq<char>, word: Seq<char>)
    requires
        gap.len() > 0,
        all_space(gap),
        is_word(word),
    ensures
        tokens(s + gap + word) == tokens(s).push(word),
{
    assert(is_space(gap[0]));
    assert(is_space(gap.last()));
    lemma_tokens_of_parts(s, gap);
    lemma_tokens_of_space(gap);
    assert((s + gap).last() == gap.last());
    lemma_tokens_of_parts(s + gap, word);
    lemma_tokens_of_word(word);
    assert(tokens(s) + Seq::<Seq<char>>::empty() + seq![word] =~= tokens(s).push(word));
}

/// The characters of `s`, in order.
pub fn to_chars(s: &str) -> (chars: Vec<char>)
    ensures
        chars@ == s@,
{
    let mut chars: Vec<char> = Vec::new();
    for c in it: s.chars()
        invariant
            chars@ == it.seq().take(it.index()),
            it.seq() == s@,
    {
        chars.push(c);
    }
    chars
}

/// The texts that the strings of `v` hold, in order.
pub open spec fn texts(v: Seq<String>) -> Seq<Seq<char>> {
    Seq::new(v.len(), |i: int| v[i]@)
}

/// How many white-space characters `chars` begins with.
pub fn count_leading_spaces(chars: &[char]) -> (n: usize)
    ensures
        n == leading_spaces(chars@),
        n <= chars@.len(),
{
    let mut n: usize = 0;
    while n < chars.len() && chars[n].is_whitespace()
        invariant
            n <= chars@.len(),
            all_space(chars@.take(n as int)),
        decreases chars@.len() - n,
    {
        n += 1;
        assert forall|i: int| 0 <= i < n implies is_space(#[trigger] chars@.take(n as int)[i]) by {
            if i < n - 1 {
                assert(chars@[i] == chars@.take(n - 1)[i]);
            }
        }
    }
    proof {
        lemma_leading_spaces_from(chars@, n as int);
    }
    n
}

/// The end of the word that begins at `from`: the place of the first
/// white-space character at or after `from`, or the length of `chars` where
/// there is none. A place beyond the end of `chars` is returned as it is.
pub fn word_end(chars: &[char], from: usize) -> (end: usize)
    ensures
        from <= chars@.len() ==> end == from + leading_word(chars@.skip(from as int)),
        from <= chars@.len() ==> end <= chars@.len(),
        from > chars@.len() ==> end == from,
{
    if from > chars.len() {
        return from;
    }
    let mut end: usize = from;
    while end < chars.len() && !chars[end].is_whitespace()
        invariant
            from <= end <= chars@.len(),
            no_space(chars@.skip(from as int).take(end - from)),
        decreases chars@.len() - end,
    {
        end += 1;
        assert forall|i: int| 0 <= i < end - from implies !is_space(
            #[trigger] chars@.skip(from as int).take(end - from)[i],
        ) by {
            if i < end - from - 1 {
                assert(chars@[from + i] == chars@.skip(from as int).take(end - from - 1)[i]);
            }
        }
    }
    proof {
        let tail = chars@.skip(from as int);
        lemma_leading_word_from(tail, end - from);
        assert(tail.skip(end - from) =~= chars@.skip(end as int));
    }
    end
}

/// Whether `chars` begins with `word`.
pub fn begins_with(chars: &[char], word: &[char]) -> (found: bool)
    ensures
        found == word@.is_prefix_of(chars@),
{
    if word.len() > chars.len() {
        return false;
    }
    let mut k: usize = 0;
    while k < word.len()
        invariant
            word@.len() <= chars@.len(),
            k <= word@.len(),
            forall|i: int| 0 <= i < k ==> word@[i] == chars@[i],
        decreases word@.len() - k,
    {
        if word[k] != chars[k] {
            assert(chars@.subrange(0, word@.len() as int)[k as int] != word@[k as int]);
            return false;
        }
        k += 1;
    }
    true
}

/// Splits `line` at white space into its tokens.
pub fn split_tokens(line: &str) -> (words: Vec<String>)
    ensures
        texts(words@) == tokens(line@),
{
    let chars = to_chars(line);
    let mut words: Vec<String> = Vec::new();
    let mut at: usize = 0;
    assert(chars@.skip(0) =~= chars@);
    assert(texts(words@) + tokens(chars@) =~= tokens(chars@));
    while at < chars.len()
        invariant
            chars@ == line@,
            at <= chars@.len(),
            texts(words@) + tokens(chars@.skip(at as int)) == tokens(chars@),
        decreases chars@.len() - at,
    {
        let ghost tail = chars@.skip(at as int);
        let ghost before = texts(words@);
        if chars[at].is_whitespace() {
            at += 1;
            assert(tail.drop_first() =~= chars@.skip(at as int));
        } else {
            let end = word_end(chars.as_slice(), at);
            let word = line.substring_char(at, end).to_owned();
            words.push(word);
            proof {
                assert(tail.take(end - at) =~= word@);
                assert(tail.skip(end - at) =~= chars@.skip(end as int));
                assert(texts(words@) =~= before + seq![word@]);
                assert(before + (seq![word@] + tokens(chars@.skip(end as int))) =~= texts(words@)
                    + tokens(chars@.skip(end as int)));
            }
            at = end;
        }
    }
    assert(chars@.skip(at as int) =~= Seq::<char>::empty());
    assert(texts(words@) + Seq::<Seq<char>>::empty() =~= texts(words@));
    words
}

} // verus!
