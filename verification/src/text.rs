//! String helpers used by the header and claim parsers: Unicode whitespace,
//! trimming, splitting at the first separator and splitting into words.

use vstd::prelude::*;

verus! {

/// The Unicode `White_Space` property, the set of characters that
/// `char::is_whitespace` accepts.
pub open spec fn is_ws(c: char) -> bool {
    let u = c as u32;
    ||| 0x09 <= u <= 0x0d
    ||| u == 0x20
    ||| u == 0x85
    ||| u == 0xa0
    ||| u == 0x1680
    ||| 0x2000 <= u <= 0x200a
    ||| u == 0x2028
    ||| u == 0x2029
    ||| u == 0x202f
    ||| u == 0x205f
    ||| u == 0x3000
}

/// Whether `c` is Unicode whitespace.
pub fn is_whitespace(c: char) -> (r: bool)
    ensures
        r == is_ws(c),
{
    let u = c as u32;
    (0x09 <= u && u <= 0x0d) || u == 0x20 || u == 0x85 || u == 0xa0 || u == 0x1680 || (0x2000
        <= u && u <= 0x200a) || u == 0x2028 || u == 0x2029 || u == 0x202f || u == 0x205f || u
        == 0x3000
}

/// Whether two strings are equal.
pub fn str_eq(a: &str, b: &str) -> (r: bool)
    ensures
        r == (a@ == b@),
{
    let n = a.unicode_len();
    if n != b.unicode_len() {
        return false;
    }
    let mut i: usize = 0;
    while i < n
        invariant
            n == a@.len(),
            n == b@.len(),
            0 <= i <= n,
            forall|j: int| 0 <= j < i ==> a@[j] == b@[j],
        decreases n - i,
    {
        if a.get_char(i) != b.get_char(i) {
            return false;
        }
        i = i + 1;
    }
    proof {
        assert(a@ =~= b@);
    }
    true
}

/// `s` with its leading whitespace removed.
pub open spec fn spec_trim_start(s: Seq<char>) -> Seq<char>
    decreases s.len(),
{
    if s.len() > 0 && is_ws(s[0]) {
        spec_trim_start(s.drop_first())
    } else {
        s
    }
}

/// `s` with its trailing whitespace removed.
pub open spec fn spec_trim_end(s: Seq<char>) -> Seq<char>
    decreases s.len(),
{
    if s.len() > 0 && is_ws(s.last()) {
        spec_trim_end(s.drop_last())
    } else {
        s
    }
}

/// `s` with leading and trailing whitespace removed.
pub open spec fn spec_trim(s: Seq<char>) -> Seq<char> {
    spec_trim_end(spec_trim_start(s))
}

/// `s` with every trailing occurrence of `c` removed.
pub open spec fn spec_trim_end_char(s: Seq<char>, c: char) -> Seq<char>
    decreases s.len(),
{
    if s.len() > 0 && s.last() == c {
        spec_trim_end_char(s.drop_last(), c)
    } else {
        s
    }
}

proof fn lemma_trim_start_skip(s: Seq<char>, i: int)
    requires
        0 <= i < s.len(),
        is_ws(s[i]),
    ensures
        spec_trim_start(s.skip(i)) == spec_trim_start(s.skip(i + 1)),
{
    assert(s.skip(i).drop_first() =~= s.skip(i + 1));
}

proof fn lemma_trim_end_take(s: Seq<char>, j: int, c: char, by_char: bool)
    requires
        0 < j <= s.len(),
        by_char ==> s[j - 1] == c,
        !by_char ==> is_ws(s[j - 1]),
    ensures
        by_char ==> spec_trim_end_char(s.take(j), c) == spec_trim_end_char(s.take(j - 1), c),
        !by_char ==> spec_trim_end(s.take(j)) == spec_trim_end(s.take(j - 1)),
{
    assert(s.take(j).drop_last() =~= s.take(j - 1));
}

/// Remove leading whitespace.
pub fn trim_start(s: &str) -> (r: &str)
    ensures
        r@ == spec_trim_start(s@),
{
    let n = s.unicode_len();
    let mut i: usize = 0;
    proof {
        assert(s@.skip(0) =~= s@);
    }
    while i < n && is_whitespace(s.get_char(i))
        invariant
            n == s@.len(),
            0 <= i <= n,
            spec_trim_start(s@) == spec_trim_start(s@.skip(i as int)),
        decreases n - i,
    {
        proof {
            lemma_trim_start_skip(s@, i as int);
        }
        i = i + 1;
    }
    let r = s.substring_char(i, n);
    proof {
        assert(r@ =~= s@.skip(i as int));
        if i < n {
            assert(s@.skip(i as int)[0] == s@[i as int]);
        }
    }
    r
}

/// Remove trailing whitespace.
pub fn trim_end(s: &str) -> (r: &str)
    ensures
        r@ == spec_trim_end(s@),
{
    let n = s.unicode_len();
    let mut j: usize = n;
    proof {
        assert(s@.take(n as int) =~= s@);
    }
    while j > 0 && is_whitespace(s.get_char(j - 1))
        invariant
            n == s@.len(),
            0 <= j <= n,
            spec_trim_end(s@) == spec_trim_end(s@.take(j as int)),
        decreases j,
    {
        proof {
            lemma_trim_end_take(s@, j as int, ' ', false);
        }
        j = j - 1;
    }
    let r = s.substring_char(0, j);
    proof {
        assert(r@ =~= s@.take(j as int));
        if j > 0 {
            assert(s@.take(j as int).last() == s@[j - 1]);
        }
    }
    r
}

/// Remove leading and trailing whitespace.
pub fn trim(s: &str) -> (r: &str)
    ensures
        r@ == spec_trim(s@),
{
    trim_end(trim_start(s))
}

/// Remove every trailing occurrence of `c`.
pub fn trim_end_char(s: &str, c: char) -> (r: &str)
    ensures
        r@ == spec_trim_end_char(s@, c),
{
    let n = s.unicode_len();
    let mut j: usize = n;
    proof {
        assert(s@.take(n as int) =~= s@);
    }
    while j > 0 && s.get_char(j - 1) == c
        invariant
            n == s@.len(),
            0 <= j <= n,
            spec_trim_end_char(s@, c) == spec_trim_end_char(s@.take(j as int), c),
        decreases j,
    {
        proof {
            lemma_trim_end_take(s@, j as int, c, true);
        }
        j = j - 1;
    }
    let r = s.substring_char(0, j);
    proof {
        assert(r@ =~= s@.take(j as int));
        if j > 0 {
            assert(s@.take(j as int).last() == s@[j - 1]);
        }
    }
    r
}

/// `i` is the position of the first occurrence of `c` in `s`.
pub open spec fn is_first_index_of(s: Seq<char>, c: char, i: int) -> bool {
    &&& 0 <= i < s.len()
    &&& s[i] == c
    &&& forall|j: int| 0 <= j < i ==> s[j] != c
}

/// Split `s` around the first occurrence of `sep`; `None` when `sep` does
/// not occur.
pub fn split_once<'a>(s: &'a str, sep: char) -> (r: Option<(&'a str, &'a str)>)
    ensures
        r is None <==> !s@.contains(sep),
        r matches Some((a, b)) ==> exists|i: int|
            #![trigger is_first_index_of(s@, sep, i)]
            is_first_index_of(s@, sep, i) && a@ == s@.take(i) && b@ == s@.skip(i + 1),
{
    let n = s.unicode_len();
    let mut i: usize = 0;
    while i < n
        invariant
            n == s@.len(),
            0 <= i <= n,
            forall|j: int| 0 <= j < i ==> s@[j] != sep,
        decreases n - i,
    {
        if s.get_char(i) == sep {
            let a = s.substring_char(0, i);
            let b = s.substring_char(i + 1, n);
            proof {
                assert(a@ =~= s@.take(i as int));
                assert(b@ =~= s@.skip(i + 1));
                assert(is_first_index_of(s@, sep, i as int));
            }
            return Some((a, b));
        }
        i = i + 1;
    }
    None
}

/// Words of `s` after the prefix already read: `cur` is the word being
/// read, if any, and the result lists the maximal runs of non-whitespace
/// characters in order.
pub open spec fn words_from(s: Seq<char>, cur: Seq<char>) -> Seq<Seq<char>>
    decreases s.len(),
{
    if s.len() == 0 {
        if cur.len() > 0 {
            seq![cur]
        } else {
            seq![]
        }
    } else if is_ws(s[0]) {
        if cur.len() > 0 {
            seq![cur] + words_from(s.drop_first(), seq![])
        } else {
            words_from(s.drop_first(), seq![])
        }
    } else {
        words_from(s.drop_first(), cur.push(s[0]))
    }
}

/// The whitespace-separated words of `s`, as `str::split_whitespace` yields
/// them: maximal runs of non-whitespace characters, in order.
pub open spec fn spec_words(s: Seq<char>) -> Seq<Seq<char>> {
    words_from(s, seq![])
}

/// Views of a list of strings.
pub open spec fn string_views(v: Seq<String>) -> Seq<Seq<char>> {
    v.map_values(|x: String| x@)
}

/// Split `s` into its whitespace-separated words.
pub fn split_whitespace(s: &str) -> (r: Vec<String>)
    ensures
        string_views(r@) == spec_words(s@),
{
    let n = s.unicode_len();
    let mut out: Vec<String> = Vec::new();
    let mut start: usize = 0;
    let mut in_word = false;
    let mut i: usize = 0;
    proof {
        assert(s@.skip(0) =~= s@);
        assert(s@.subrange(0, 0) =~= Seq::<char>::empty());
        assert(string_views(out@) =~= Seq::<Seq<char>>::empty());
        assert(string_views(out@) + spec_words(s@) =~= spec_words(s@));
    }
    while i < n
        invariant
            n == s@.len(),
            0 <= start <= i <= n,
            !in_word ==> start == i,
            in_word ==> start < i,
            spec_words(s@) == string_views(out@) + words_from(
                s@.skip(i as int),
                s@.subrange(start as int, i as int),
            ),
        decreases n - i,
    {
        let c = s.get_char(i);
        let ghost rest = s@.skip(i as int);
        let ghost cur = s@.subrange(start as int, i as int);
        proof {
            assert(rest[0] == c);
            assert(rest.drop_first() =~= s@.skip(i + 1));
        }
        if is_whitespace(c) {
            if in_word {
                let w = s.substring_char(start, i).to_owned();
                let ghost before = out@;
                out.push(w);
                proof {
                    assert(string_views(out@) =~= string_views(before).push(cur));
                    assert(s@.subrange((i + 1) as int, (i + 1) as int) =~= Seq::<char>::empty());
                    assert(string_views(before) + (seq![cur] + words_from(
                        s@.skip(i + 1),
                        seq![],
                    )) =~= string_views(out@) + words_from(s@.skip(i + 1), seq![]));
                }
            } else {
                proof {
                    assert(cur =~= Seq::<char>::empty());
                    assert(s@.subrange((i + 1) as int, (i + 1) as int) =~= Seq::<char>::empty());
                }
            }
            in_word = false;
            start = i + 1;
        } else {
            proof {
                assert(cur.push(c) =~= s@.subrange(start as int, i + 1));
            }
            in_word = true;
        }
        i = i + 1;
    }
    proof {
        assert(s@.skip(n as int) =~= Seq::<char>::empty());
    }
    if in_word {
        let w = s.substring_char(start, n).to_owned();
        let ghost before = out@;
        out.push(w);
        proof {
            assert(string_views(out@) =~= string_views(before).push(
                s@.subrange(start as int, n as int),
            ));
            assert(string_views(before) + seq![s@.subrange(start as int, n as int)]
                =~= string_views(out@));
        }
    } else {
        proof {
            assert(s@.subrange(start as int, n as int) =~= Seq::<char>::empty());
            assert(string_views(out@) + Seq::<Seq<char>>::empty() =~= string_views(out@));
        }
    }
    out
}

/// `w` is a word: non-empty, and free of whitespace.
pub open spec fn is_word(w: Seq<char>) -> bool {
    w.len() > 0 && forall|j: int| 0 <= j < w.len() ==> !is_ws(#[trigger] w[j])
}

/// The non-whitespace characters of `s`, in order.
pub open spec fn non_ws_chars(s: Seq<char>) -> Seq<char>
    decreases s.len(),
{
    if s.len() == 0 {
        s
    } else if is_ws(s[0]) {
        non_ws_chars(s.drop_first())
    } else {
        seq![s[0]] + non_ws_chars(s.drop_first())
    }
}

/// The words of `ws` written one after another.
pub open spec fn concat_all(ws: Seq<Seq<char>>) -> Seq<char>
    decreases ws.len(),
{
    if ws.len() == 0 {
        Seq::empty()
    } else {
        ws[0] + concat_all(ws.drop_first())
    }
}

proof fn lemma_words_from_props(s: Seq<char>, cur: Seq<char>)
    requires
        forall|j: int| 0 <= j < cur.len() ==> !is_ws(#[trigger] cur[j]),
    ensures
        forall|i: int| 0 <= i < words_from(s, cur).len() ==> is_word(#[trigger] words_from(s, cur)[i]),
        concat_all(words_from(s, cur)) == cur + non_ws_chars(s),
    decreases s.len(),
{
    if s.len() == 0 {
        if cur.len() > 0 {
            assert(concat_all(seq![cur]) == cur + concat_all(seq![cur].drop_first()));
            assert(seq![cur].drop_first() =~= Seq::<Seq<char>>::empty());
        }
        assert(cur + s =~= cur) by {
            if cur.len() == 0 {
                assert(cur =~= Seq::<char>::empty());
            }
        }
    } else if is_ws(s[0]) {
        let rest = s.drop_first();
        lemma_words_from_props(rest, seq![]);
        let w = words_from(rest, seq![]);
        if cur.len() > 0 {
            assert((seq![cur] + w)[0] == cur);
            assert((seq![cur] + w).drop_first() =~= w);
            assert forall|i: int| 0 <= i < (seq![cur] + w).len() implies is_word(
                #[trigger] (seq![cur] + w)[i],
            ) by {
                if i > 0 {
                    assert((seq![cur] + w)[i] == w[i - 1]);
                }
            }
            assert(Seq::<char>::empty() + non_ws_chars(rest) =~= non_ws_chars(rest));
        } else {
            assert(cur =~= Seq::<char>::empty());
            assert(Seq::<char>::empty() + non_ws_chars(rest) =~= non_ws_chars(rest));
            assert(cur + non_ws_chars(s) =~= non_ws_chars(s));
        }
    } else {
        let rest = s.drop_first();
        let c2 = cur.push(s[0]);
        assert forall|j: int| 0 <= j < c2.len() implies !is_ws(#[trigger] c2[j]) by {
            if j < cur.len() {
                assert(c2[j] == cur[j]);
            }
        }
        lemma_words_from_props(rest, c2);
        assert(c2 + non_ws_chars(rest) =~= cur + (seq![s[0]] + non_ws_chars(rest)));
    }
}

/// Splitting into words loses no text and adds none: every word is
/// non-empty and free of whitespace, and the words written one after
/// another are exactly the non-whitespace characters of `s`, in order.
pub proof fn lemma_words_are_the_text_without_whitespace(s: Seq<char>)
    ensures
        forall|i: int| 0 <= i < spec_words(s).len() ==> is_word(#[trigger] spec_words(s)[i]),
        concat_all(spec_words(s)) == non_ws_chars(s),
{
    lemma_words_from_props(s, seq![]);
    assert(Seq::<char>::empty() + non_ws_chars(s) =~= non_ws_chars(s));
}

proof fn lemma_words_from_split(a: Seq<char>, c: char, b: Seq<char>, cur: Seq<char>)
    requires
        is_ws(c),
    ensures
        words_from(a + seq![c] + b, cur) == words_from(a, cur) + words_from(b, seq![]),
    decreases a.len(),
{
    if a.len() == 0 {
        assert(a + seq![c] + b =~= seq![c] + b);
        assert((seq![c] + b).drop_first() =~= b);
        if cur.len() == 0 {
            assert(Seq::<Seq<char>>::empty() + words_from(b, seq![]) =~= words_from(b, seq![]));
        }
    } else {
        let s = a + seq![c] + b;
        assert(s[0] == a[0]);
        assert(s.drop_first() =~= a.drop_first() + seq![c] + b);
        if is_ws(a[0]) {
            lemma_words_from_split(a.drop_first(), c, b, seq![]);
            if cur.len() > 0 {
                assert(seq![cur] + (words_from(a.drop_first(), seq![]) + words_from(b, seq![])) =~= (
                seq![cur] + words_from(a.drop_first(), seq![])) + words_from(b, seq![]));
            }
        } else {
            lemma_words_from_split(a.drop_first(), c, b, cur.push(a[0]));
        }
    }
}

proof fn lemma_words_from_one_word(s: Seq<char>, cur: Seq<char>)
    requires
        forall|j: int| 0 <= j < s.len() ==> !is_ws(#[trigger] s[j]),
        cur.len() + s.len() > 0,
    ensures
        words_from(s, cur) == seq![cur + s],
    decreases s.len(),
{
    if s.len() == 0 {
        assert(cur + s =~= cur);
    } else {
        assert(!is_ws(s[0]));
        let rest = s.drop_first();
        assert forall|j: int| 0 <= j < rest.len() implies !is_ws(#[trigger] rest[j]) by {
            assert(rest[j] == s[j + 1]);
        }
        lemma_words_from_one_word(rest, cur.push(s[0]));
        assert(cur.push(s[0]) + rest =~= cur + s);
    }
}

/// Text free of whitespace is one word (none when empty), and a whitespace
/// character splits text into the words before it followed by the words
/// after it: words are the maximal runs of non-whitespace characters, so
/// no word is split or joined with its neighbour.
pub proof fn lemma_words_are_maximal_runs(a: Seq<char>, c: char, b: Seq<char>)
    ensures
        (forall|j: int| 0 <= j < a.len() ==> !is_ws(#[trigger] a[j])) ==> spec_words(a) == (if a.len()
            == 0 {
            Seq::<Seq<char>>::empty()
        } else {
            seq![a]
        }),
        is_ws(c) ==> spec_words(a + seq![c] + b) == spec_words(a) + spec_words(b),
{
    if forall|j: int| 0 <= j < a.len() ==> !is_ws(#[trigger] a[j]) {
        if a.len() > 0 {
            lemma_words_from_one_word(a, seq![]);
            assert(Seq::<char>::empty() + a =~= a);
        }
    }
    if is_ws(c) {
        lemma_words_from_split(a, c, b, seq![]);
    }
}

proof fn lemma_trim_start_shape(s: Seq<char>)
    ensures
        exists|k: int|
            #![trigger s.skip(k)]
            0 <= k <= s.len() && spec_trim_start(s) == s.skip(k) && (forall|j: int|
                0 <= j < k ==> is_ws(#[trigger] s[j])) && (k < s.len() ==> !is_ws(s[k])),
    decreases s.len(),
{
    if s.len() > 0 && is_ws(s[0]) {
        let rest = s.drop_first();
        lemma_trim_start_shape(rest);
        let k = choose|k: int|
            #![trigger rest.skip(k)]
            0 <= k <= rest.len() && spec_trim_start(rest) == rest.skip(k) && (forall|j: int|
                0 <= j < k ==> is_ws(#[trigger] rest[j])) && (k < rest.len() ==> !is_ws(rest[k]));
        assert(rest.skip(k) =~= s.skip(k + 1));
        assert forall|j: int| 0 <= j < k + 1 implies is_ws(#[trigger] s[j]) by {
            if j > 0 {
                assert(s[j] == rest[j - 1]);
            }
        }
        if k < rest.len() {
            assert(s[k + 1] == rest[k]);
        }
    } else {
        assert(s.skip(0) =~= s);
    }
}

proof fn lemma_trim_end_shape(s: Seq<char>)
    ensures
        exists|k: int|
            #![trigger s.take(k)]
            0 <= k <= s.len() && spec_trim_end(s) == s.take(k) && (forall|j: int|
                k <= j < s.len() ==> is_ws(#[trigger] s[j])) && (k > 0 ==> !is_ws(s[k - 1])),
    decreases s.len(),
{
    if s.len() > 0 && is_ws(s.last()) {
        let rest = s.drop_last();
        lemma_trim_end_shape(rest);
        let k = choose|k: int|
            #![trigger rest.take(k)]
            0 <= k <= rest.len() && spec_trim_end(rest) == rest.take(k) && (forall|j: int|
                k <= j < rest.len() ==> is_ws(#[trigger] rest[j])) && (k > 0 ==> !is_ws(rest[k - 1]));
        assert(rest.take(k) =~= s.take(k));
        assert forall|j: int| k <= j < s.len() implies is_ws(#[trigger] s[j]) by {
            if j < rest.len() {
                assert(s[j] == rest[j]);
            }
        }
        if k > 0 {
            assert(s[k - 1] == rest[k - 1]);
        }
    } else {
        assert(s.take(s.len() as int) =~= s);
    }
}

/// Trimming removes exactly the leading (or trailing) whitespace: the
/// result is what is left after a run of whitespace at the start (or end),
/// and it does not itself begin (or end) with whitespace.
pub proof fn lemma_trim_removes_only_whitespace(s: Seq<char>)
    ensures
        exists|k: int|
            #![trigger s.skip(k)]
            0 <= k <= s.len() && spec_trim_start(s) == s.skip(k) && (forall|j: int|
                0 <= j < k ==> is_ws(#[trigger] s[j])) && (k < s.len() ==> !is_ws(s[k])),
        exists|k: int|
            #![trigger s.take(k)]
            0 <= k <= s.len() && spec_trim_end(s) == s.take(k) && (forall|j: int|
                k <= j < s.len() ==> is_ws(#[trigger] s[j])) && (k > 0 ==> !is_ws(s[k - 1])),
{
    lemma_trim_start_shape(s);
    lemma_trim_end_shape(s);
}

} // verus!
