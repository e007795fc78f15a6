//! Cropping an extra model's decode of a merge window back to the chunk the
//! window ends with: comparable words, runs of them, and the seam search.

use vstd::prelude::*;
use crate::text::{
    ascii_alnum, is_ascii_alnum, std_is_alphanumeric, std_lowercase, is_alphanumeric,
    lowercase_of, utf8_width, chars_equal, byte_offset, char_utf8_width, chars_of, string_from_chars,
    trim_seq, trim_chars, is_blank, is_blank_chars, extend_chars, lemma_trim_facts,
};

verus! {

/// A word of a text, folded for comparison, with the byte offset it starts at.
pub type Token = (usize, String);

/// A character that makes up words: an ASCII letter or digit, or any other
/// Unicode alphanumeric character.
pub open spec fn word_char(c: char) -> bool {
    ascii_alnum(c) || std_is_alphanumeric(c)
}

/// Character `i` continues the ASCII word the previous character belongs to.
pub open spec fn continues_ascii_word(s: Seq<char>, i: int) -> bool {
    i > 0 && ascii_alnum(s[i]) && ascii_alnum(s[i - 1])
}

/// The comparable words of the first `k` characters of `s`, each as
/// (index of its first character, folded text). A run of ASCII letters and
/// digits is one word; any other alphanumeric character is a word of its
/// own; everything else separates words and is dropped. Folding is std's
/// lowercase mapping.
pub open spec fn words_prefix(s: Seq<char>, k: int) -> Seq<(int, Seq<char>)>
    decreases k,
{
    if k <= 0 {
        Seq::empty()
    } else {
        let prev = words_prefix(s, k - 1);
        let c = s[k - 1];
        if continues_ascii_word(s, k - 1) && prev.len() > 0 {
            prev.update(prev.len() - 1, (prev.last().0, prev.last().1 + std_lowercase(c)))
        } else if word_char(c) {
            prev.push((k - 1, std_lowercase(c)))
        } else {
            prev
        }
    }
}

/// The comparable words of `s`.
pub open spec fn words_of(s: Seq<char>) -> Seq<(int, Seq<char>)> {
    words_prefix(s, s.len() as int)
}

/// The folded texts of a word sequence.
pub open spec fn word_texts(w: Seq<(int, Seq<char>)>) -> Seq<Seq<char>> {
    Seq::new(w.len(), |i: int| w[i].1)
}

proof fn lemma_words_prefix_bounds(s: Seq<char>, k: int)
    requires
        0 <= k <= s.len(),
    ensures
        words_prefix(s, k).len() <= k,
        forall|j: int|
            0 <= j < words_prefix(s, k).len() ==> 0 <= #[trigger] words_prefix(s, k)[j].0 < k,
        forall|j: int, l: int|
            0 <= j < l < words_prefix(s, k).len() ==> #[trigger] words_prefix(s, k)[j].0
                < #[trigger] words_prefix(s, k)[l].0,
    decreases k,
{
    if k > 0 {
        lemma_words_prefix_bounds(s, k - 1);
    }
}

/// One word under construction: the index of its first character and its
/// folded text.
pub struct Word {
    pub at: usize,
    pub text: Vec<char>,
}

/// The spec view of a word vector.
pub open spec fn words_view(v: Seq<Word>) -> Seq<(int, Seq<char>)> {
    Seq::new(v.len(), |i: int| (v[i].at as int, v[i].text@))
}

/// The comparable words of a character vector, with character indices.
pub fn words_of_chars(s: &Vec<char>) -> (out: Vec<Word>)
    ensures
        words_view(out@) == words_of(s@),
{
    let mut out: Vec<Word> = Vec::new();
    let mut i: usize = 0;
    while i < s.len()
        invariant
            i <= s@.len(),
            words_view(out@) == words_prefix(s@, i as int),
        decreases s.len() - i,
    {
        let ch = s[i];
        let ascii = is_ascii_alnum(ch);
        let own = !ascii && is_alphanumeric(ch);
        let ghost prev = words_view(out@);
        if ascii && i > 0 && is_ascii_alnum(s[i - 1]) && out.len() > 0 {
            let mut last = out.pop().unwrap();
            let low = lowercase_of(ch);
            extend_chars(&mut last.text, &low);
            out.push(last);
            assert(words_view(out@) =~= prev.update(prev.len() - 1, (prev.last().0, prev.last().1 + std_lowercase(ch))));
        } else if ascii || own {
            let low = lowercase_of(ch);
            out.push(Word { at: i, text: low });
            assert(words_view(out@) =~= prev.push((i as int, std_lowercase(ch))));
        }
        i = i + 1;
    }
    out
}


/// The view of a token vector: (byte offset, folded text).
pub open spec fn tokens_view(v: Seq<Token>) -> Seq<(int, Seq<char>)> {
    Seq::new(v.len(), |i: int| (v[i].0 as int, v[i].1@))
}

/// The comparable words of `s` with byte offsets in place of character
/// indices.
pub open spec fn tokens_spec(s: Seq<char>) -> Seq<(int, Seq<char>)> {
    Seq::new(
        words_of(s).len(),
        |i: int| (byte_offset(s, words_of(s)[i].0) as int, words_of(s)[i].1),
    )
}

proof fn lemma_byte_offset_mono(s: Seq<char>, i: int, j: int)
    requires
        0 <= i <= j <= s.len(),
    ensures
        byte_offset(s, i) <= byte_offset(s, j) <= byte_offset(s, i) + 4 * (j - i),
    decreases j - i,
{
    if i < j {
        lemma_byte_offset_mono(s, i, j - 1);
    }
}

/// Split a text into comparable words, each with its starting byte offset:
/// case is folded, punctuation and white space are dropped, a run of ASCII
/// letters and digits is one word and any other alphanumeric character is a
/// word of its own.
pub fn tokens(text: &str) -> (out: Vec<Token>)
    requires
        text@.len() <= usize::MAX / 4,
    ensures
        tokens_view(out@) == tokens_spec(text@),
{
    let chars = chars_of(text);
    let words = words_of_chars(&chars);
    proof {
        lemma_words_prefix_bounds(text@, text@.len() as int);
        assert forall|j: int| 0 <= j < words@.len() implies #[trigger] words@[j].at == words_of(
            text@,
        )[j].0 && words@[j].text@ == words_of(text@)[j].1 by {
            assert(words_view(words@)[j] == (words@[j].at as int, words@[j].text@));
        }
    }
    let mut out: Vec<Token> = Vec::new();
    let mut offset: usize = 0;
    let mut ci: usize = 0;
    let mut wi: usize = 0;
    while wi < words.len()
        invariant
            chars@ == text@,
            text@.len() <= usize::MAX / 4,
            words_view(words@) == words_of(text@),
            wi <= words@.len(),
            wi < words@.len() ==> ci <= words@[wi as int].at,
            ci <= chars@.len(),
            offset == byte_offset(text@, ci as int),
            forall|j: int| 0 <= j < words@.len() ==> 0 <= #[trigger] words@[j].at < text@.len(),
            forall|j: int|
                0 <= j < words@.len() ==> #[trigger] words@[j].at == words_of(text@)[j].0
                    && words@[j].text@ == words_of(text@)[j].1,
            forall|j: int, k: int| 0 <= j < k < words@.len() ==> #[trigger] words@[j].at < #[trigger] words@[k].at,
            tokens_view(out@) == tokens_spec(text@).take(wi as int),
        decreases words.len() - wi,
    {
        let target = words[wi].at;
        while ci < target
            invariant
                ci <= target < chars@.len(),
                chars@ == text@,
                text@.len() <= usize::MAX / 4,
                offset == byte_offset(text@, ci as int),
            decreases target - ci,
        {
            proof {
                lemma_byte_offset_mono(text@, 0, ci as int + 1);
            }
            offset = offset + char_utf8_width(chars[ci]);
            ci = ci + 1;
        }
        let folded = string_from_chars(&words[wi].text);
        proof {
            assert(words_view(words@).len() == words@.len());
            assert(tokens_spec(text@).len() == words@.len());
            assert(tokens_view(out@).len() == out@.len());
            assert(out@.len() == wi);
        }
        out.push((offset, folded));
        proof {
            let k = wi as int;
            assert(ci == target);
            assert(offset == byte_offset(text@, words_of(text@)[k].0));
            assert(folded@ == words_of(text@)[k].1);
            assert(tokens_spec(text@)[k] == (offset as int, folded@));
            assert(tokens_view(out@)[k] == (offset as int, folded@));
        }
        wi = wi + 1;
        assert(tokens_view(out@) =~= tokens_spec(text@).take(wi as int));
    }
    assert(tokens_spec(text@).take(wi as int) =~= tokens_spec(text@));
    out
}


/// `want` occurs in `hay` word by word starting at word `start`.
pub open spec fn run_at(hay: Seq<Seq<char>>, want: Seq<Seq<char>>, start: int) -> bool {
    &&& 0 <= start
    &&& start + want.len() <= hay.len()
    &&& forall|j: int| 0 <= j < want.len() ==> hay[start + j] == want[j]
}

/// The first start at or after `from` at which `want` occurs in `hay`.
pub open spec fn first_run_from(hay: Seq<Seq<char>>, want: Seq<Seq<char>>, from: int) -> Option<int>
    decreases hay.len() - from,
{
    if from < 0 || from + want.len() > hay.len() {
        None
    } else if run_at(hay, want, from) {
        Some(from)
    } else {
        first_run_from(hay, want, from + 1)
    }
}

/// Where `want` first occurs in `hay`, word by word; `None` for an empty
/// `want` or one longer than `hay`.
pub open spec fn find_run_spec(hay: Seq<Seq<char>>, want: Seq<Seq<char>>) -> Option<int> {
    if want.len() == 0 || want.len() > hay.len() {
        None
    } else {
        first_run_from(hay, want, 0)
    }
}

proof fn lemma_first_run_from(hay: Seq<Seq<char>>, want: Seq<Seq<char>>, from: int)
    requires
        0 <= from,
    ensures
        first_run_from(hay, want, from) matches Some(k) ==> from <= k && run_at(hay, want, k),
    decreases hay.len() - from,
{
    if from + want.len() <= hay.len() && !run_at(hay, want, from) {
        lemma_first_run_from(hay, want, from + 1);
    }
}

/// The folded texts of a token sequence.
pub open spec fn token_texts(t: Seq<Token>) -> Seq<Seq<char>> {
    Seq::new(t.len(), |i: int| t[i].1@)
}

/// The index of the token at which `want` first occurs in `haystack`,
/// comparing folded texts.
pub fn find_run(haystack: &[Token], want: &[Token]) -> (r: Option<usize>)
    ensures
        r matches Some(k) ==> find_run_spec(token_texts(haystack@), token_texts(want@)) == Some(k as int),
        r is None ==> find_run_spec(token_texts(haystack@), token_texts(want@)) is None,
{
    let ghost h = token_texts(haystack@);
    let ghost w = token_texts(want@);
    if want.len() == 0 || want.len() > haystack.len() {
        return None;
    }
    let last = haystack.len() - want.len();
    let mut start: usize = 0;
    loop
        invariant_except_break
            start <= last,
            first_run_from(h, w, 0) == first_run_from(h, w, start as int),
        invariant
            h == token_texts(haystack@),
            w == token_texts(want@),
            last == haystack@.len() - want@.len(),
            0 < want@.len() <= haystack@.len(),
        ensures
            first_run_from(h, w, 0) is None,
        decreases last - start,
    {
        let mut j: usize = 0;
        let mut all = true;
        while j < want.len()
            invariant
                start <= last,
                last == haystack@.len() - want@.len(),
                h == token_texts(haystack@),
                w == token_texts(want@),
                j <= want@.len(),
                haystack@.len() == haystack.len(),
                all == forall|i: int| 0 <= i < j ==> h[start + i] == w[i],
            decreases want.len() - j,
        {
            proof {
                assert(h[start + j as int] == haystack@[start + j as int].1@);
                assert(w[j as int] == want@[j as int].1@);
            }
            if haystack[start + j].1 != want[j].1 {
                all = false;
            }
            j = j + 1;
        }
        if all {
            return Some(start);
        }
        assert(!run_at(h, w, start as int));
        if start == last {
            assert(first_run_from(h, w, start as int + 1) is None);
            break;
        }
        start = start + 1;
    }
    None
}

/// Where `want` first occurs in `hay` (character-indexed words).
fn find_word_run(hay: &Vec<Word>, want: &Vec<Word>, lo: usize, hi: usize) -> (r: Option<usize>)
    requires
        lo <= hi <= want@.len(),
    ensures
        r matches Some(k) ==> find_run_spec(
            word_texts(words_view(hay@)),
            word_texts(words_view(want@)).subrange(lo as int, hi as int),
        ) == Some(k as int),
        r is None ==> find_run_spec(
            word_texts(words_view(hay@)),
            word_texts(words_view(want@)).subrange(lo as int, hi as int),
        ) is None,
{
    let ghost h = word_texts(words_view(hay@));
    let ghost w = word_texts(words_view(want@)).subrange(lo as int, hi as int);
    let n = hi - lo;
    if n == 0 || n > hay.len() {
        return None;
    }
    let last = hay.len() - n;
    let mut start: usize = 0;
    loop
        invariant_except_break
            start <= last,
            first_run_from(h, w, 0) == first_run_from(h, w, start as int),
        invariant
            h == word_texts(words_view(hay@)),
            w == word_texts(words_view(want@)).subrange(lo as int, hi as int),
            lo <= hi <= want@.len(),
            n == hi - lo,
            last == hay@.len() - n,
            0 < n <= hay@.len(),
        ensures
            first_run_from(h, w, 0) is None,
        decreases last - start,
    {
        let mut j: usize = 0;
        let mut all = true;
        while j < n
            invariant
                start <= last,
                last == hay@.len() - n,
                lo <= hi <= want@.len(),
                n == hi - lo,
                h == word_texts(words_view(hay@)),
                w == word_texts(words_view(want@)).subrange(lo as int, hi as int),
                j <= n,
                hay@.len() == hay.len(),
                want@.len() == want.len(),
                all == forall|i: int| 0 <= i < j ==> h[start + i] == w[i],
            decreases n - j,
        {
            proof {
                assert(h[start + j as int] == hay@[start + j as int].text@);
                assert(w[j as int] == want@[lo + j as int].text@);
            }
            if !chars_equal(&hay[start + j].text, &want[lo + j].text) {
                all = false;
            }
            j = j + 1;
        }
        if all {
            return Some(start);
        }
        assert(!run_at(h, w, start as int));
        if start == last {
            assert(first_run_from(h, w, start as int + 1) is None);
            break;
        }
        start = start + 1;
    }
    None
}



/// The seam search: for anchor lengths from `tail` down to `shortest`, and for
/// each length with a drift of 0, 1 then 2 dropped context words, the first
/// anchor (the context's `tail` words ending `drift` words before its end)
/// that occurs in the decode; the result is the index of the decode's first
/// word past the anchor and the drifted words.
pub open spec fn seam_from(
    decoded: Seq<Seq<char>>,
    context: Seq<Seq<char>>,
    tail: int,
    drift: int,
    shortest: int,
) -> Option<int>
    decreases tail, 3 - drift,
{
    if tail <= 0 || tail < shortest || drift < 0 || drift > 3 {
        None
    } else if drift == 3 {
        seam_from(decoded, context, tail - 1, 0, shortest)
    } else if context.len() >= tail + drift && find_run_spec(
        decoded,
        context.subrange(context.len() - tail - drift, context.len() - drift),
    ) is Some {
        Some(
            find_run_spec(
                decoded,
                context.subrange(context.len() - tail - drift, context.len() - drift),
            )->0 + tail + drift,
        )
    } else {
        seam_from(decoded, context, tail, drift + 1, shortest)
    }
}

/// The smaller of two integers.
pub open spec fn min_int(a: int, b: int) -> int {
    if a <= b {
        a
    } else {
        b
    }
}

/// What cropping `decoded` against `context` yields: the decode's words
/// after the seam, trimmed; the whole decode trimmed when the context has no
/// words; `None` when no anchor of the context's tail is found.
pub open spec fn strip_spec(decoded: Seq<char>, context: Seq<char>) -> Option<Seq<char>> {
    let c = words_of(context);
    let d = words_of(decoded);
    if c.len() == 0 {
        Some(trim_seq(decoded))
    } else {
        match seam_from(
            word_texts(d),
            word_texts(c),
            min_int(c.len() as int, CONTEXT_TAIL_TOKENS as int),
            0,
            min_int(CONTEXT_TAIL_MIN_TOKENS as int, c.len() as int),
        ) {
            None => None,
            Some(k) => {
                let cut = if k < d.len() {
                    d[k].0
                } else {
                    decoded.len() as int
                };
                Some(trim_seq(decoded.subrange(cut, decoded.len() as int)))
            },
        }
    }
}

/// How many of the context's tail words the crop tries to find first.
pub const CONTEXT_TAIL_TOKENS: usize = 12;

/// The shortest run of context words a crop accepts as a boundary.
pub const CONTEXT_TAIL_MIN_TOKENS: usize = 3;

/// How many of the context's last words a decode may disagree about.
pub const CONTEXT_SEAM_DRIFT: usize = 2;

proof fn lemma_first_run_bound(hay: Seq<Seq<char>>, want: Seq<Seq<char>>)
    ensures
        find_run_spec(hay, want) matches Some(k) ==> 0 <= k && k + want.len() <= hay.len(),
{
    if want.len() > 0 && want.len() <= hay.len() {
        lemma_first_run_from(hay, want, 0);
    }
}

/// Crop one extra's decode of a merge window back to the window's last
/// chunk, anchoring on the context's tail words (longest first, then with up
/// to [`CONTEXT_SEAM_DRIFT`] of its last words dropped). `None` when no run of
/// at least [`CONTEXT_TAIL_MIN_TOKENS`] words (or the whole context, when it
/// is shorter) aligns; the whole decode, trimmed, when the context has no
/// words.
pub fn strip_context_prefix(decoded: &str, context: &str) -> (r: Option<String>)
    ensures
        r matches Some(t) ==> strip_spec(decoded@, context@) == Some(t@),
        r is None ==> strip_spec(decoded@, context@) is None,
{
    let context_chars = chars_of(context);
    let decoded_chars = chars_of(decoded);
    let context_words = words_of_chars(&context_chars);
    if context_words.len() == 0 {
        let t = trim_chars(&decoded_chars);
        return Some(string_from_chars(&t));
    }
    let decoded_words = words_of_chars(&decoded_chars);
    let ghost dt = word_texts(words_view(decoded_words@));
    let ghost ct = word_texts(words_view(context_words@));
    let clen = context_words.len();
    let longest = if clen < CONTEXT_TAIL_TOKENS { clen } else { CONTEXT_TAIL_TOKENS };
    let shortest = if CONTEXT_TAIL_MIN_TOKENS < clen { CONTEXT_TAIL_MIN_TOKENS } else { clen };
    let ghost target = seam_from(dt, ct, longest as int, 0, shortest as int);
    let mut tail = longest;
    while tail >= shortest
        invariant
            1 <= shortest <= longest <= clen == context_words@.len() == ct.len(),
            longest <= CONTEXT_TAIL_TOKENS,
            shortest - 1 <= tail <= longest,
            dt == word_texts(words_view(decoded_words@)),
            ct == word_texts(words_view(context_words@)),
            target == seam_from(dt, ct, tail as int, 0, shortest as int),
            words_view(decoded_words@) == words_of(decoded@),
            words_view(context_words@) == words_of(context@),
            decoded_chars@ == decoded@,
            target == seam_from(
                word_texts(words_of(decoded@)),
                word_texts(words_of(context@)),
                min_int(words_of(context@).len() as int, CONTEXT_TAIL_TOKENS as int),
                0,
                min_int(CONTEXT_TAIL_MIN_TOKENS as int, words_of(context@).len() as int),
            ),
        decreases tail,
    {
        let mut drift: usize = 0;
        while drift <= CONTEXT_SEAM_DRIFT
            invariant
                1 <= shortest <= tail <= longest <= clen == context_words@.len() == ct.len(),
                longest <= CONTEXT_TAIL_TOKENS,
                drift <= 3,
                decoded_words@.len() == decoded_words.len(),
                dt == word_texts(words_view(decoded_words@)),
                ct == word_texts(words_view(context_words@)),
                target == seam_from(dt, ct, tail as int, drift as int, shortest as int),
                words_view(decoded_words@) == words_of(decoded@),
                words_view(context_words@) == words_of(context@),
                decoded_chars@ == decoded@,
                target == seam_from(
                    word_texts(words_of(decoded@)),
                    word_texts(words_of(context@)),
                    min_int(words_of(context@).len() as int, CONTEXT_TAIL_TOKENS as int),
                    0,
                    min_int(CONTEXT_TAIL_MIN_TOKENS as int, words_of(context@).len() as int),
                ),
            decreases 3 - drift,
        {
            if clen >= tail + drift {
                let lo = clen - tail - drift;
                let hi = clen - drift;
                let found = find_word_run(&decoded_words, &context_words, lo, hi);
                if let Some(start) = found {
                    proof {
                        assert(ct.subrange(lo as int, hi as int) == word_texts(words_view(context_words@)).subrange(lo as int, hi as int));
                        lemma_first_run_bound(dt, ct.subrange(lo as int, hi as int));
                    }
                    let past = start + tail;
                    let ghost k = past + drift;
                    let cut = if past < decoded_words.len() && drift < decoded_words.len() - past {
                        decoded_words[past + drift].at
                    } else {
                        decoded_chars.len()
                    };
                    proof {
                        lemma_words_prefix_bounds(decoded@, decoded@.len() as int);
                        if k < decoded_words@.len() {
                            assert(words_view(decoded_words@)[k as int].0 == decoded_words@[k as int].at);
                        }
                    }
                    let mut rest: Vec<char> = Vec::new();
                    let mut i = cut;
                    while i < decoded_chars.len()
                        invariant
                            cut <= i <= decoded_chars@.len(),
                            rest@ == decoded_chars@.subrange(cut as int, i as int),
                        decreases decoded_chars.len() - i,
                    {
                        rest.push(decoded_chars[i]);
                        i = i + 1;
                    }
                    let t = trim_chars(&rest);
                    return Some(string_from_chars(&t));
                }
            }
            drift = drift + 1;
        }
        tail = tail - 1;
    }
    None
}

/// Crop a decode, dropping it (empty text) when it cannot be aligned; a blank
/// decode contributes nothing.
pub fn crop_decode(model_id: &str, decoded: &str, context: &str) -> (r: String)
    ensures
        is_blank(decoded@) ==> r@.len() == 0,
        !is_blank(decoded@) ==> r@ == match strip_spec(decoded@, context@) {
            Some(t) => t,
            None => Seq::empty(),
        },
{
    let d = chars_of(decoded);
    if is_blank_chars(&d) {
        return String::new();
    }
    match strip_context_prefix(decoded, context) {
        Some(cropped) => cropped,
        None => String::new(),
    }
}

} // verus!
