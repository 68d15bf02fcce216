//! Character classes and field splitting for whitespace-delimited records.

use vstd::prelude::*;
use vstd::string::*;

verus! {

/// The code points with the Unicode `White_Space` property.
pub open spec fn is_whitespace(c: char) -> bool {
    let n = c as u32;
    ||| 0x09 <= n <= 0x0D
    ||| n == 0x20
    ||| n == 0x85
    ||| n == 0xA0
    ||| n == 0x1680
    ||| 0x2000 <= n <= 0x200A
    ||| n == 0x2028
    ||| n == 0x2029
    ||| n == 0x202F
    ||| n == 0x205F
    ||| n == 0x3000
}

/// Decides whether `c` separates fields.
pub fn char_is_whitespace(c: char) -> (r: bool)
    ensures
        r == is_whitespace(c),
{
    let n: u32 = c as u32;
    (0x09 <= n && n <= 0x0D) || n == 0x20 || n == 0x85 || n == 0xA0 || n == 0x1680 || (0x2000 <= n
        && n <= 0x200A) || n == 0x2028 || n == 0x2029 || n == 0x202F || n == 0x205F || n == 0x3000
}

/// The characters of `s`, in order.
pub fn chars_of(s: &str) -> (v: Vec<char>)
    ensures
        v@ == s@,
{
    let mut v: Vec<char> = Vec::new();
    for c in it: s.chars()
        invariant
            v@ == it.seq().take(it.index()),
            it.seq() == s@,
    {
        v.push(c);
    }
    v
}

/// Index of the first whitespace character at or after `i`, or the length of
/// `s` where none follows: the end of the word that covers index `i`.
pub open spec fn word_end(s: Seq<char>, i: int) -> int
    decreases s.len() - i,
{
    if 0 <= i < s.len() && !is_whitespace(s[i]) {
        word_end(s, i + 1)
    } else {
        i
    }
}

/// A word never ends before it starts, nor beyond the text; it stops at
/// whitespace or at the end, and holds no whitespace.
pub proof fn lemma_word_end(s: Seq<char>, i: int)
    requires
        0 <= i <= s.len(),
    ensures
        i <= word_end(s, i) <= s.len(),
        i < s.len() && !is_whitespace(s[i]) ==> i < word_end(s, i),
        word_end(s, i) < s.len() ==> is_whitespace(s[word_end(s, i)]),
        forall|k: int| i <= k < word_end(s, i) ==> !is_whitespace(#[trigger] s[k]),
    decreases s.len() - i,
{
    if i < s.len() && !is_whitespace(s[i]) {
        lemma_word_end(s, i + 1);
    }
}

/// The maximal runs of non-whitespace characters of `s` that start at or
/// after index `i`, in order.
pub open spec fn fields_from(s: Seq<char>, i: int) -> Seq<Seq<char>>
    decreases s.len() - i,
{
    if i < 0 || i >= s.len() {
        Seq::empty()
    } else if is_whitespace(s[i]) {
        fields_from(s, i + 1)
    } else {
        proof {
            lemma_word_end(s, i);
        }
        seq![s.subrange(i, word_end(s, i))] + fields_from(s, word_end(s, i))
    }
}

/// The whitespace-separated fields of a line: its maximal runs of
/// non-whitespace characters, in order. Leading, trailing and repeated
/// whitespace yields no empty field.
pub open spec fn fields(s: Seq<char>) -> Seq<Seq<char>> {
    fields_from(s, 0)
}

/// Splits a line into its whitespace-separated fields.
pub fn split_fields(line: &str) -> (out: Vec<String>)
    ensures
        out.deep_view() == fields(line@),
{
    let chars = chars_of(line);
    let n = chars.len();
    let mut out: Vec<String> = Vec::new();
    let mut i: usize = 0;
    while i < n
        invariant
            n == chars.len(),
            chars@ == line@,
            i <= n,
            fields(line@) == out.deep_view() + fields_from(line@, i as int),
        decreases n - i,
    {
        if char_is_whitespace(chars[i]) {
            i += 1;
        } else {
            let start = i;
            let mut end = i;
            while end < n && !char_is_whitespace(chars[end])
                invariant
                    n == chars.len(),
                    chars@ == line@,
                    start <= end <= n,
                    word_end(line@, start as int) == word_end(line@, end as int),
                decreases n - end,
            {
                end += 1;
            }
            proof {
                lemma_word_end(line@, start as int);
            }
            let word = line.substring_char(start, end).to_owned();
            let ghost before = out.deep_view();
            out.push(word);
            assert(out.deep_view() =~= before.push(line@.subrange(start as int, end as int)));
            assert(before + (seq![line@.subrange(start as int, end as int)] + fields_from(
                line@,
                end as int,
            )) =~= before.push(line@.subrange(start as int, end as int)) + fields_from(
                line@,
                end as int,
            ));
            i = end;
        }
    }
    assert(out.deep_view() + Seq::<Seq<char>>::empty() =~= out.deep_view());
    out
}

/// A word is a non-empty run of characters without whitespace.
pub open spec fn is_word(w: Seq<char>) -> bool {
    &&& w.len() > 0
    &&& forall|k: int| 0 <= k < w.len() ==> !is_whitespace(#[trigger] w[k])
}

/// Every part is a word.
pub open spec fn all_words(parts: Seq<Seq<char>>) -> bool {
    forall|j: int| 0 <= j < parts.len() ==> is_word(#[trigger] parts[j])
}

/// Every field of a line is a word.
pub proof fn lemma_fields_are_words(s: Seq<char>, i: int)
    ensures
        all_words(fields_from(s, i)),
    decreases s.len() - i,
{
    if i < 0 || i >= s.len() {
    } else if is_whitespace(s[i]) {
        lemma_fields_are_words(s, i + 1);
    } else {
        lemma_word_end(s, i);
        lemma_fields_are_words(s, word_end(s, i));
        let first = s.subrange(i, word_end(s, i));
        let rest = fields_from(s, word_end(s, i));
        assert(is_word(first));
        assert(fields_from(s, i) == seq![first] + rest);
        assert forall|j: int| 0 <= j < fields_from(s, i).len() implies is_word(
            #[trigger] fields_from(s, i)[j],
        ) by {
            if j > 0 {
                assert(fields_from(s, i)[j] == rest[j - 1]);
            } else {
                assert(fields_from(s, i)[j] == first);
            }
        }
    }
}

/// The parts in order, with one space between neighbours.
pub open spec fn join_with_space(parts: Seq<Seq<char>>) -> Seq<char>
    decreases parts.len(),
{
    if parts.len() == 0 {
        Seq::empty()
    } else if parts.len() == 1 {
        parts[0]
    } else {
        join_with_space(parts.drop_last()) + seq![' '] + parts.last()
    }
}

/// Index of the first character at or after `i` that is not whitespace, or
/// the length of `s` where only whitespace follows.
pub open spec fn skip_whitespace(s: Seq<char>, i: int) -> int
    decreases s.len() - i,
{
    if 0 <= i < s.len() && is_whitespace(s[i]) {
        skip_whitespace(s, i + 1)
    } else {
        i
    }
}

/// One past the last character before `j` that is not whitespace, or 0 where
/// only whitespace precedes.
pub open spec fn skip_whitespace_back(s: Seq<char>, j: int) -> int
    decreases j,
{
    if 0 < j <= s.len() && is_whitespace(s[j - 1]) {
        skip_whitespace_back(s, j - 1)
    } else {
        j
    }
}

/// `s` without its leading and trailing whitespace.
pub open spec fn trim(s: Seq<char>) -> Seq<char> {
    let from = skip_whitespace(s, 0);
    let to = skip_whitespace_back(s, s.len() as int);
    if from < to {
        s.subrange(from, to)
    } else {
        Seq::empty()
    }
}

/// Trimming changes nothing where neither end is whitespace.
pub proof fn lemma_trim_identity(s: Seq<char>)
    requires
        s.len() > 0 ==> !is_whitespace(s.first()) && !is_whitespace(s.last()),
    ensures
        trim(s) == s,
{
    if s.len() > 0 {
        assert(s.subrange(0, s.len() as int) =~= s);
    } else {
        assert(trim(s) =~= s);
    }
}

/// Words joined by single spaces start with the first word's first
/// character and end with the last word's last one.
pub proof fn lemma_join_ends(parts: Seq<Seq<char>>)
    requires
        parts.len() > 0,
        all_words(parts),
    ensures
        join_with_space(parts).len() > 0,
        join_with_space(parts).first() == parts.first().first(),
        join_with_space(parts).last() == parts.last().last(),
    decreases parts.len(),
{
    if parts.len() > 1 {
        let head = parts.drop_last();
        assert(all_words(head)) by {
            assert forall|j: int| 0 <= j < head.len() implies is_word(#[trigger] head[j]) by {
                assert(head[j] == parts[j]);
            }
        }
        lemma_join_ends(head);
        assert(is_word(parts.last()));
        assert(head.first() == parts.first());
    } else {
        assert(is_word(parts[0]));
    }
}

/// Joined words have no whitespace at either end, so trimming keeps them
/// whole; and joined words are empty only where there is no word.
pub proof fn lemma_trim_joined_words(parts: Seq<Seq<char>>)
    requires
        all_words(parts),
    ensures
        trim(join_with_space(parts)) == join_with_space(parts),
        join_with_space(parts).len() == 0 <==> parts.len() == 0,
{
    if parts.len() > 0 {
        lemma_join_ends(parts);
        assert(is_word(parts.first()));
        assert(is_word(parts.last()));
    }
    lemma_trim_identity(join_with_space(parts));
}

/// Joins the fields from index `from` onward with single spaces.
pub fn join_fields(parts: &Vec<String>, from: usize) -> (out: String)
    requires
        from <= parts.len(),
    ensures
        out@ == join_with_space(parts.deep_view().skip(from as int)),
{
    let mut out = String::new();
    let mut i: usize = from;
    let ghost all = parts.deep_view();
    while i < parts.len()
        invariant
            from <= i <= parts.len(),
            all == parts.deep_view(),
            out@ == join_with_space(all.subrange(from as int, i as int)),
        decreases parts.len() - i,
    {
        let ghost before = out@;
        let ghost done = all.subrange(from as int, i as int);
        let ghost next = all.subrange(from as int, i + 1);
        if i > from {
            proof {
                reveal_strlit(" ");
            }
            out.append(" ");
            assert(out@ =~= before + seq![' ']);
        }
        out.append(parts[i].as_str());
        proof {
            assert(next.drop_last() =~= done);
            assert(next.last() == parts[i as int]@);
            if i == from {
                assert(before =~= Seq::<char>::empty());
                assert(out@ =~= next[0]);
            }
        }
        i += 1;
    }
    assert(all.subrange(from as int, parts.len() as int) =~= all.skip(from as int));
    out
}

/// Tells whether two strings hold the same characters.
pub fn str_equal(a: &str, b: &str) -> (same: bool)
    ensures
        same == (a@ == b@),
{
    let x = chars_of(a);
    let y = chars_of(b);
    if x.len() != y.len() {
        return false;
    }
    let mut i: usize = 0;
    while i < x.len()
        invariant
            x@ == a@,
            y@ == b@,
            x.len() == y.len(),
            i <= x.len(),
            forall|k: int| 0 <= k < i ==> x[k] == y[k],
        decreases x.len() - i,
    {
        if x[i] != y[i] {
            return false;
        }
        i += 1;
    }
    assert(x@ =~= y@);
    true
}

/// Tells whether `c` occurs in `s`.
pub fn has_char(s: &str, c: char) -> (found: bool)
    ensures
        found == s@.contains(c),
{
    let x = chars_of(s);
    let mut i: usize = 0;
    while i < x.len()
        invariant
            x@ == s@,
            i <= x.len(),
            forall|k: int| 0 <= k < i ==> x[k] != c,
        decreases x.len() - i,
    {
        if x[i] == c {
            return true;
        }
        i += 1;
    }
    false
}

/// Tells whether `s` begins with `prefix`.
pub fn starts_with(s: &str, prefix: &str) -> (yes: bool)
    ensures
        yes == prefix@.is_prefix_of(s@),
{
    let x = chars_of(s);
    let p = chars_of(prefix);
    if p.len() > x.len() {
        return false;
    }
    let mut i: usize = 0;
    while i < p.len()
        invariant
            x@ == s@,
            p@ == prefix@,
            p.len() <= x.len(),
            i <= p.len(),
            forall|k: int| 0 <= k < i ==> x[k] == p[k],
        decreases p.len() - i,
    {
        if x[i] != p[i] {
            assert(x@.subrange(0, p.len() as int)[i as int] != p@[i as int]);
            return false;
        }
        i += 1;
    }
    assert(p@ =~= x@.subrange(0, p.len() as int));
    true
}

/// The parts after the first `k` of a sequence of words are words.
pub proof fn lemma_words_skip(parts: Seq<Seq<char>>, k: int)
    requires
        all_words(parts),
        0 <= k <= parts.len(),
    ensures
        all_words(parts.skip(k)),
{
    assert forall|j: int| 0 <= j < parts.skip(k).len() implies is_word(
        #[trigger] parts.skip(k)[j],
    ) by {
        assert(parts.skip(k)[j] == parts[j + k]);
    }
}

/// Index of the first part at or after `i` that equals `target`.
pub open spec fn find_from(parts: Seq<Seq<char>>, target: Seq<char>, i: int) -> Option<int>
    decreases parts.len() - i,
{
    if i < 0 || i >= parts.len() {
        None
    } else if parts[i] == target {
        Some(i)
    } else {
        find_from(parts, target, i + 1)
    }
}

/// Finds the first field that equals `target`.
pub fn find_field(parts: &Vec<String>, target: &str) -> (at: Option<usize>)
    ensures
        match at {
            Some(i) => {
                &&& i < parts.len()
                &&& find_from(parts.deep_view(), target@, 0) == Some(i as int)
                &&& parts[i as int]@ == target@
                &&& forall|k: int| 0 <= k < i ==> parts[k]@ != target@
            },
            None => {
                &&& find_from(parts.deep_view(), target@, 0) is None
                &&& forall|k: int| 0 <= k < parts.len() ==> parts[k]@ != target@
            },
        },
{
    let mut i: usize = 0;
    while i < parts.len()
        invariant
            i <= parts.len(),
            find_from(parts.deep_view(), target@, 0) == find_from(
                parts.deep_view(),
                target@,
                i as int,
            ),
            forall|k: int| 0 <= k < i ==> parts[k]@ != target@,
        decreases parts.len() - i,
    {
        if str_equal(parts[i].as_str(), target) {
            return Some(i);
        }
        i += 1;
    }
    None
}

} // verus!
