//! Splitting text into whitespace-separated words, joining words back with
//! single spaces, and trimming surrounding whitespace.
//!
//! The meaning of each operation is given over `Seq<char>`; the executable
//! functions work on `&str` and `String` and are proved against it.

use vstd::prelude::*;

verus! {

/// Which characters separate words.
#[derive(Clone, Copy, Debug, PartialEq, Eq)]
pub enum Spacing {
    /// Space, tab, line feed, form feed and carriage return.
    Ascii,
    /// Every character with the Unicode property `White_Space`.
    Unicode,
}

/// Space, tab, line feed, form feed or carriage return.
pub open spec fn is_ascii_space(c: char) -> bool {
    c == ' ' || c == '\t' || c == '\n' || c == '\x0C' || c == '\r'
}

/// The code points that carry the Unicode property `White_Space`.
pub open spec fn is_unicode_space(c: char) -> bool {
    let n = c as u32;
    ||| 0x09 <= n <= 0x0D
    ||| n == 0x20
    ||| n == 0x85
    ||| n == 0xA0
    ||| n == 0x1680
    ||| 0x2000 <= n <= 0x200A
    ||| n == 0x2028
    ||| n == 0x2029
    ||| n == 0x202F
    ||| n == 0x205F
    ||| n == 0x3000
}

impl Spacing {
    /// Whether `c` separates words under this spacing.
    pub open spec fn separates(self, c: char) -> bool {
        match self {
            Spacing::Ascii => is_ascii_space(c),
            Spacing::Unicode => is_unicode_space(c),
        }
    }

    /// Decides whether `c` separates words under this spacing.
    pub fn is_separator(&self, c: char) -> (b: bool)
        ensures
            b == self.separates(c),
    {
        match self {
            Spacing::Ascii => c == ' ' || c == '\t' || c == '\n' || c == '\x0C' || c == '\r',
            Spacing::Unicode => {
                let n: u32 = c as u32;
                (0x09 <= n && n <= 0x0D) || n == 0x20 || n == 0x85 || n == 0xA0 || n == 0x1680
                    || (0x2000 <= n && n <= 0x200A) || n == 0x2028 || n == 0x2029 || n == 0x202F
                    || n == 0x205F || n == 0x3000
            },
        }
    }
}

/// The number of characters before the first separator in `s`.
pub open spec fn word_len(s: Seq<char>, sp: Spacing) -> nat
    decreases s.len(),
{
    if s.len() == 0 || sp.separates(s[0]) {
        0
    } else {
        1 + word_len(s.drop_first(), sp)
    }
}

/// The maximal runs of non-separators in `s`, from left to right.
pub open spec fn words(s: Seq<char>, sp: Spacing) -> Seq<Seq<char>>
    decreases s.len(),
{
    if s.len() == 0 {
        Seq::empty()
    } else if sp.separates(s[0]) {
        words(s.drop_first(), sp)
    } else {
        // A text that begins with a non-separator has a first word of at
        // least one character; the test lets the recursion be seen to end.
        let n = word_len(s, sp) as int;
        if 0 < n <= s.len() {
            seq![s.take(n)] + words(s.skip(n), sp)
        } else {
            Seq::empty()
        }
    }
}

/// Whether `w` could be a word: it is not empty and holds no separator.
pub open spec fn is_word(w: Seq<char>, sp: Spacing) -> bool {
    w.len() > 0 && forall|k: int| 0 <= k < w.len() ==> !sp.separates(#[trigger] w[k])
}

/// The words of `ws` with one space between neighbours.
pub open spec fn join_words(ws: Seq<Seq<char>>) -> Seq<char>
    decreases ws.len(),
{
    if ws.len() == 0 {
        Seq::empty()
    } else if ws.len() == 1 {
        ws[0]
    } else {
        join_words(ws.drop_last()) + seq![' '] + ws.last()
    }
}

/// `s` without its leading separators.
pub open spec fn trim_start(s: Seq<char>, sp: Spacing) -> Seq<char>
    decreases s.len(),
{
    if s.len() > 0 && sp.separates(s[0]) {
        trim_start(s.drop_first(), sp)
    } else {
        s
    }
}

/// `s` without its trailing separators.
pub open spec fn trim_end(s: Seq<char>, sp: Spacing) -> Seq<char>
    decreases s.len(),
{
    if s.len() > 0 && sp.separates(s.last()) {
        trim_end(s.drop_last(), sp)
    } else {
        s
    }
}

/// `s` without its leading and trailing separators.
pub open spec fn trim(s: Seq<char>, sp: Spacing) -> Seq<char> {
    trim_end(trim_start(s, sp), sp)
}

/// Whether `s` begins with `prefix`.
pub open spec fn starts_with<T>(s: Seq<T>, prefix: Seq<T>) -> bool {
    prefix.len() <= s.len() && s.take(prefix.len() as int) == prefix
}

/// A run of `n` non-separators that ends the text or is followed by a
/// separator is exactly the first word's extent.
pub proof fn lemma_word_len(s: Seq<char>, sp: Spacing, n: int)
    requires
        0 <= n <= s.len(),
        forall|k: int| 0 <= k < n ==> !sp.separates(#[trigger] s[k]),
        n == s.len() || sp.separates(s[n]),
    ensures
        word_len(s, sp) == n,
    decreases n,
{
    if n > 0 {
        let t = s.drop_first();
        assert forall|k: int| 0 <= k < n - 1 implies !sp.separates(#[trigger] t[k]) by {
            assert(t[k] == s[k + 1]);
        }
        lemma_word_len(t, sp, n - 1);
    }
}

/// The first word never runs past the end of the text.
pub proof fn lemma_word_len_bound(s: Seq<char>, sp: Spacing)
    ensures
        word_len(s, sp) <= s.len(),
        forall|k: int| 0 <= k < word_len(s, sp) ==> !sp.separates(#[trigger] s[k]),
        word_len(s, sp) == s.len() || sp.separates(s[word_len(s, sp) as int]),
    decreases s.len(),
{
    if s.len() > 0 && !sp.separates(s[0]) {
        let t = s.drop_first();
        lemma_word_len_bound(t, sp);
        assert forall|k: int| 0 <= k < word_len(s, sp) implies !sp.separates(#[trigger] s[k]) by {
            if k > 0 {
                assert(s[k] == t[k - 1]);
            }
        }
        if word_len(s, sp) < s.len() {
            assert(s[word_len(s, sp) as int] == t[word_len(t, sp) as int]);
        }
    }
}

/// The characters of `line`, one by one.
pub fn chars_of(line: &str) -> (out: Vec<char>)
    ensures
        out@ == line@,
{
    let mut out: Vec<char> = Vec::new();
    for c in it: line.chars()
        invariant
            out@ == it.seq().take(it.index()),
            it.seq() == line@,
    {
        out.push(c);
    }
    out
}

/// `String::push` of the standard library appends the character to the end
/// of the text and leaves the rest of it as it was.
pub assume_specification[ String::push ](s: &mut String, c: char)
    ensures
        final(s)@ == old(s)@.push(c),
;

/// The text made of `chars[from..to]`.
pub fn text_of(chars: &Vec<char>, from: usize, to: usize) -> (out: String)
    requires
        from <= to <= chars.len(),
    ensures
        out@ == chars@.subrange(from as int, to as int),
{
    let mut out = String::new();
    let mut i: usize = from;
    while i < to
        invariant
            from <= i <= to <= chars.len(),
            out@ == chars@.subrange(from as int, i as int),
        decreases to - i,
    {
        out.push(chars[i]);
        i += 1;
    }
    out
}

/// Splits `line` into its words.
pub fn split_words(line: &str, sp: Spacing) -> (out: Vec<String>)
    ensures
        out.deep_view() == words(line@, sp),
{
    let chars = chars_of(line);
    let mut out: Vec<String> = Vec::new();
    let mut i: usize = 0;
    assert(chars@.skip(0) == chars@);
    while i < chars.len()
        invariant
            i <= chars.len(),
            chars@ == line@,
            out.deep_view() + words(chars@.skip(i as int), sp) == words(chars@, sp),
        decreases chars.len() - i,
    {
        let ghost rest = chars@.skip(i as int);
        if sp.is_separator(chars[i]) {
            assert(rest.drop_first() == chars@.skip(i + 1));
            i += 1;
        } else {
            let mut j: usize = i + 1;
            while j < chars.len() && !sp.is_separator(chars[j])
                invariant
                    i < j <= chars.len(),
                    forall|k: int| i <= k < j ==> !sp.separates(#[trigger] chars@[k]),
                decreases chars.len() - j,
            {
                j += 1;
            }
            let word = text_of(&chars, i, j);
            proof {
                let n = j - i;
                assert forall|k: int| 0 <= k < n implies !sp.separates(#[trigger] rest[k]) by {
                    assert(rest[k] == chars@[i + k]);
                }
                lemma_word_len(rest, sp, n);
                assert(rest.take(n) == chars@.subrange(i as int, j as int));
                assert(rest.skip(n) == chars@.skip(j as int));
                assert(out.deep_view().push(word@) + words(chars@.skip(j as int), sp)
                    == out.deep_view() + words(rest, sp));
            }
            let ghost before = out.deep_view();
            out.push(word);
            assert(out.deep_view() == before.push(word@));
            i = j;
        }
    }
    assert(chars@.skip(i as int).len() == 0);
    assert(out.deep_view() + Seq::<Seq<char>>::empty() == out.deep_view());
    out
}

/// Whether the text `s` reads exactly `lit`.
pub fn is_text(s: &str, lit: &str) -> (b: bool)
    ensures
        b == (s@ == lit@),
{
    s.to_owned() == lit.to_owned()
}

/// Joins `list[start..]` with single spaces.
pub fn join_from(list: &Vec<String>, start: usize) -> (out: String)
    requires
        start <= list.len(),
    ensures
        out@ == join_words(list.deep_view().skip(start as int)),
{
    let ghost all = list.deep_view();
    let mut out = String::new();
    let mut i: usize = start;
    assert(all.subrange(start as int, start as int).len() == 0);
    while i < list.len()
        invariant
            start <= i <= list.len(),
            all == list.deep_view(),
            out@ == join_words(all.subrange(start as int, i as int)),
        decreases list.len() - i,
    {
        let ghost done = all.subrange(start as int, i as int);
        let ghost next = all.subrange(start as int, i + 1);
        assert(next.drop_last() == done);
        assert(next.last() == list@[i as int]@);
        if i > start {
            out.push(' ');
        } else {
            assert(done.len() == 0);
            assert(Seq::<char>::empty() + list@[i as int]@ == list@[i as int]@);
        }
        out.append(list[i].as_str());
        i += 1;
    }
    assert(all.subrange(start as int, i as int) == all.skip(start as int));
    out
}

/// Leading separators are exactly what `trim_start` drops.
pub proof fn lemma_trim_start(s: Seq<char>, sp: Spacing, n: int)
    requires
        0 <= n <= s.len(),
        forall|k: int| 0 <= k < n ==> sp.separates(#[trigger] s[k]),
        n == s.len() || !sp.separates(s[n]),
    ensures
        trim_start(s, sp) == s.skip(n),
    decreases n,
{
    if n > 0 {
        let t = s.drop_first();
        assert forall|k: int| 0 <= k < n - 1 implies sp.separates(#[trigger] t[k]) by {
            assert(t[k] == s[k + 1]);
        }
        lemma_trim_start(t, sp, n - 1);
        assert(t.skip(n - 1) == s.skip(n));
    } else {
        assert(s.skip(0) == s);
    }
}

/// Trailing separators are exactly what `trim_end` drops.
pub proof fn lemma_trim_end(s: Seq<char>, sp: Spacing, n: int)
    requires
        0 <= n <= s.len(),
        forall|k: int| s.len() - n <= k < s.len() ==> sp.separates(#[trigger] s[k]),
        n == s.len() || !sp.separates(s[s.len() - n - 1]),
    ensures
        trim_end(s, sp) == s.take(s.len() - n),
    decreases n,
{
    if n > 0 {
        let t = s.drop_last();
        assert forall|k: int| t.len() - (n - 1) <= k < t.len() implies sp.separates(
            #[trigger] t[k],
        ) by {
            assert(t[k] == s[k]);
        }
        lemma_trim_end(t, sp, n - 1);
        assert(t.take(t.len() - (n - 1)) == s.take(s.len() - n));
    } else {
        assert(s.take(s.len() as int) == s);
    }
}

/// `line` without its leading and trailing separators.
pub fn trim_text(line: &str, sp: Spacing) -> (out: String)
    ensures
        out@ == trim(line@, sp),
{
    let chars = chars_of(line);
    let mut lo: usize = 0;
    while lo < chars.len() && sp.is_separator(chars[lo])
        invariant
            lo <= chars.len(),
            forall|k: int| 0 <= k < lo ==> sp.separates(#[trigger] chars@[k]),
        decreases chars.len() - lo,
    {
        lo += 1;
    }
    let mut hi: usize = chars.len();
    while hi > lo && sp.is_separator(chars[hi - 1])
        invariant
            lo <= hi <= chars.len(),
            forall|k: int| hi <= k < chars.len() ==> sp.separates(#[trigger] chars@[k]),
        decreases hi,
    {
        hi -= 1;
    }
    proof {
        lemma_trim_start(chars@, sp, lo as int);
        let t = chars@.skip(lo as int);
        let n = chars.len() - hi;
        assert forall|k: int| t.len() - n <= k < t.len() implies sp.separates(#[trigger] t[k]) by {
            assert(t[k] == chars@[lo + k]);
        }
        if n != t.len() {
            assert(t[t.len() - n - 1] == chars@[hi - 1]);
        }
        lemma_trim_end(t, sp, n);
        assert(t.take(t.len() - n) == chars@.subrange(lo as int, hi as int));
    }
    text_of(&chars, lo, hi)
}

/// The least index at which `key` occurs in `keys`, or `keys.len()` where it
/// does not occur.
pub open spec fn position<T>(keys: Seq<T>, key: T) -> int
    decreases keys.len(),
{
    if keys.len() == 0 || keys[0] == key {
        0
    } else {
        1 + position(keys.drop_first(), key)
    }
}

/// `position` lies within bounds, points at `key` where it is within the
/// sequence, and nothing before it is `key`.
pub proof fn lemma_position<T>(keys: Seq<T>, key: T)
    ensures
        0 <= position(keys, key) <= keys.len(),
        position(keys, key) < keys.len() ==> keys[position(keys, key)] == key,
        forall|k: int| 0 <= k < position(keys, key) ==> #[trigger] keys[k] != key,
        position(keys, key) < keys.len() <==> keys.contains(key),
    decreases keys.len(),
{
    if keys.len() > 0 && keys[0] != key {
        let t = keys.drop_first();
        lemma_position(t, key);
        let p = position(keys, key);
        assert forall|k: int| 0 <= k < p implies #[trigger] keys[k] != key by {
            if k > 0 {
                assert(keys[k] == t[k - 1]);
            }
        }
        if p < keys.len() {
            assert(keys[p] == t[p - 1]);
        }
        if keys.contains(key) {
            let i = choose|i: int| 0 <= i < keys.len() && keys[i] == key;
            assert(t[i - 1] == key);
        }
    } else if keys.len() > 0 {
        assert(keys[0] == key);
    }
}

/// An index that holds `key`, with no `key` before it, is `position`; so is
/// the length where `key` does not occur.
pub proof fn lemma_position_is<T>(keys: Seq<T>, key: T, n: int)
    requires
        0 <= n <= keys.len(),
        forall|k: int| 0 <= k < n ==> #[trigger] keys[k] != key,
        n == keys.len() || keys[n] == key,
    ensures
        position(keys, key) == n,
    decreases n,
{
    if n > 0 {
        let t = keys.drop_first();
        assert(keys[0] != key);
        assert forall|k: int| 0 <= k < n - 1 implies #[trigger] t[k] != key by {
            assert(t[k] == keys[k + 1]);
        }
        lemma_position_is(t, key, n - 1);
    }
}

/// The index of the first word of `list` that reads `key`, or the length of
/// `list` where none does.
pub fn find_word(list: &Vec<String>, key: &str) -> (at: usize)
    ensures
        at == position(list.deep_view(), key@),
{
    let mut i: usize = 0;
    while i < list.len() && !is_text(list[i].as_str(), key)
        invariant
            i <= list.len(),
            forall|k: int| 0 <= k < i ==> #[trigger] list.deep_view()[k] != key@,
        decreases list.len() - i,
    {
        i += 1;
    }
    proof {
        lemma_position_is(list.deep_view(), key@, i as int);
    }
    i
}

/// Whether `text` begins with `prefix`.
pub fn has_prefix(text: &str, prefix: &str) -> (b: bool)
    ensures
        b == starts_with(text@, prefix@),
{
    let chars = chars_of(text);
    let head = chars_of(prefix);
    if head.len() > chars.len() {
        return false;
    }
    let mut i: usize = 0;
    while i < head.len()
        invariant
            i <= head.len() <= chars.len(),
            chars@ == text@,
            head@ == prefix@,
            forall|k: int| 0 <= k < i ==> chars@[k] == head@[k],
        decreases head.len() - i,
    {
        if chars[i] != head[i] {
            assert(text@.take(prefix@.len() as int)[i as int] != prefix@[i as int]);
            return false;
        }
        i += 1;
    }
    assert(text@.take(prefix@.len() as int) == prefix@);
    true
}

/// Every word of a text is a word: not empty and free of separators.
pub proof fn law_words_are_words(s: Seq<char>, sp: Spacing)
    ensures
        forall|i: int| 0 <= i < words(s, sp).len() ==> is_word(#[trigger] words(s, sp)[i], sp),
    decreases s.len(),
{
    if s.len() == 0 {
        assert(words(s, sp).len() == 0);
    } else if sp.separates(s[0]) {
        law_words_are_words(s.drop_first(), sp);
        assert(words(s, sp) == words(s.drop_first(), sp));
    } else {
        let n = word_len(s, sp) as int;
        lemma_word_len_bound(s, sp);
        assert(n > 0);
        law_words_are_words(s.skip(n), sp);
        let first = s.take(n);
        assert(words(s, sp) == seq![first] + words(s.skip(n), sp));
        assert(is_word(first, sp)) by {
            assert forall|k: int| 0 <= k < first.len() implies !sp.separates(
                #[trigger] first[k],
            ) by {
                assert(first[k] == s[k]);
            }
        }
        assert forall|i: int| 0 <= i < words(s, sp).len() implies is_word(
            #[trigger] words(s, sp)[i],
            sp,
        ) by {
            if i > 0 {
                assert(words(s, sp)[i] == words(s.skip(n), sp)[i - 1]);
            } else {
                assert(words(s, sp)[0] == first);
            }
        }
    }
}

/// A text cut where a separator begins has the words of both parts.
pub proof fn lemma_words_split(a: Seq<char>, b: Seq<char>, sp: Spacing)
    requires
        b.len() == 0 || sp.separates(b[0]),
    ensures
        words(a + b, sp) == words(a, sp) + words(b, sp),
    decreases a.len(),
{
    let whole = a + b;
    if a.len() == 0 {
        assert(whole == b);
    } else if sp.separates(a[0]) {
        assert(whole.drop_first() == a.drop_first() + b);
        lemma_words_split(a.drop_first(), b, sp);
    } else {
        let n = word_len(a, sp) as int;
        lemma_word_len_bound(a, sp);
        assert forall|k: int| 0 <= k < n implies !sp.separates(#[trigger] whole[k]) by {
            assert(whole[k] == a[k]);
        }
        if n < a.len() {
            assert(whole[n] == a[n]);
        } else if b.len() > 0 {
            assert(whole[n] == b[0]);
        }
        lemma_word_len(whole, sp, n);
        assert(whole.take(n) == a.take(n));
        assert(whole.skip(n) == a.skip(n) + b);
        lemma_words_split(a.skip(n), b, sp);
    }
}

/// A word alone is its own only word.
pub proof fn lemma_words_of_word(w: Seq<char>, sp: Spacing)
    requires
        is_word(w, sp),
    ensures
        words(w, sp) == seq![w],
{
    lemma_word_len(w, sp, w.len() as int);
    assert(!sp.separates(w[0]));
    assert(w.take(w.len() as int) == w);
    assert(words(w.skip(w.len() as int), sp) == Seq::<Seq<char>>::empty());
    assert(seq![w] + Seq::<Seq<char>>::empty() == seq![w]);
}

/// Joining words with single spaces and cutting the result into words
/// again gives the words back.
pub proof fn law_words_of_join(ws: Seq<Seq<char>>, sp: Spacing)
    requires
        forall|i: int| 0 <= i < ws.len() ==> is_word(#[trigger] ws[i], sp),
    ensures
        words(join_words(ws), sp) == ws,
    decreases ws.len(),
{
    if ws.len() == 0 {
    } else if ws.len() == 1 {
        lemma_words_of_word(ws[0], sp);
    } else {
        let head = join_words(ws.drop_last());
        let tail = seq![' '] + ws.last();
        law_words_of_join(ws.drop_last(), sp);
        assert(sp.separates(tail[0]));
        lemma_words_split(head, tail, sp);
        assert(tail.drop_first() == ws.last());
        lemma_words_of_word(ws.last(), sp);
        assert(head + seq![' '] + ws.last() == head + tail);
        assert(ws.drop_last() + seq![ws.last()] == ws);
    }
}

} // verus!
