//! Text as sequences of characters: searching, splitting, trimming and joining.

use vstd::prelude::*;

verus! {

/// `String::push` appends exactly the given character.
pub assume_specification[ String::push ](s: &mut String, c: char)
    ensures
        final(s)@ == old(s)@.push(c),
;

/// The text that `{:?}` gives for a string: the string in double quotes, with
/// the escapes of `str`'s `Debug`.
pub uninterp spec fn debug_quoted(s: Seq<char>) -> Seq<char>;

/// Formats a string through `<str as Debug>::fmt`, by `format!("{:?}", s)`. The
/// contract claims that the outcome depends on the characters of the string
/// alone, and says nothing of the escapes.
#[verifier::external_body]
pub(crate) fn debug_quote(s: &str) -> (r: String)
    ensures
        r@ == debug_quoted(s@),
{
    format!("{:?}", s)
}

/// The text that `{:?}` gives for a path, or for another string of the operating
/// system, that is text.
pub uninterp spec fn os_quoted(s: Seq<char>) -> Seq<char>;

/// Formats a path through `<std::path::Path as Debug>::fmt`, by `format!("{:?}", ..)`.
/// The contract claims that the outcome depends on the characters of the path alone,
/// and says nothing of the escapes, which are not quite those of `str`.
#[verifier::external_body]
pub(crate) fn os_quote(s: &str) -> (r: String)
    ensures
        r@ == os_quoted(s@),
{
    format!("{:?}", std::path::Path::new(s))
}

/// The text that `{:?}` gives for a list of strings.
pub open spec fn debug_list(parts: Seq<Seq<char>>) -> Seq<char> {
    "["@ + joined(Seq::new(parts.len(), |i: int| debug_quoted(parts[i])), ", "@) + "]"@
}

/// The views of a sequence of strings.
pub open spec fn texts(v: Seq<String>) -> Seq<Seq<char>> {
    Seq::new(v.len(), |i: int| v[i]@)
}

/// The characters that count as white space: those with the Unicode property
/// `White_Space`.
pub open spec fn white_space(c: char) -> bool {
    let n = c as u32;
    ||| 0x9 <= n <= 0xd
    ||| n == 0x20
    ||| n == 0x85
    ||| n == 0xa0
    ||| n == 0x1680
    ||| 0x2000 <= n <= 0x200a
    ||| n == 0x2028
    ||| n == 0x2029
    ||| n == 0x202f
    ||| n == 0x205f
    ||| n == 0x3000
}

/// `s` without its leading white space.
pub open spec fn trim_start(s: Seq<char>) -> Seq<char>
    decreases s.len(),
{
    if s.len() > 0 && white_space(s[0]) {
        trim_start(s.skip(1))
    } else {
        s
    }
}

/// `s` without its trailing white space.
pub open spec fn trim_end(s: Seq<char>) -> Seq<char>
    decreases s.len(),
{
    if s.len() > 0 && white_space(s.last()) {
        trim_end(s.drop_last())
    } else {
        s
    }
}

/// `s` without white space at either end.
pub open spec fn trimmed(s: Seq<char>) -> Seq<char> {
    trim_end(trim_start(s))
}

/// `p` occurs in `s` at index `i`.
pub open spec fn occurs_at(s: Seq<char>, p: Seq<char>, i: int) -> bool {
    &&& 0 <= i
    &&& i + p.len() <= s.len()
    &&& s.subrange(i, i + p.len()) == p
}

/// The first index from `i` on at which `p` occurs in `s`.
pub open spec fn find_from(s: Seq<char>, p: Seq<char>, i: int) -> Option<int>
    decreases s.len() - i + 1,
{
    if i + p.len() > s.len() {
        None
    } else if occurs_at(s, p, i) {
        Some(i)
    } else {
        find_from(s, p, i + 1)
    }
}

/// The first index at which `p` occurs in `s`.
pub open spec fn find(s: Seq<char>, p: Seq<char>) -> Option<int> {
    find_from(s, p, 0)
}

/// The last index up to `i` at which `p` occurs in `s`.
pub open spec fn rfind_from(s: Seq<char>, p: Seq<char>, i: int) -> Option<int>
    decreases i + 1,
{
    if i < 0 {
        None
    } else if occurs_at(s, p, i) {
        Some(i)
    } else {
        rfind_from(s, p, i - 1)
    }
}

/// The last index at which `p` occurs in `s`.
pub open spec fn rfind(s: Seq<char>, p: Seq<char>) -> Option<int> {
    rfind_from(s, p, s.len() - p.len())
}

/// `p` occurs somewhere in `s`.
pub open spec fn contains(s: Seq<char>, p: Seq<char>) -> bool {
    exists|i: int| occurs_at(s, p, i)
}

/// `s` begins with `p`.
pub open spec fn has_prefix(s: Seq<char>, p: Seq<char>) -> bool {
    occurs_at(s, p, 0)
}

/// What follows the prefix `p` of `s`, if `s` begins with `p`.
pub open spec fn strip_prefix(s: Seq<char>, p: Seq<char>) -> Option<Seq<char>> {
    if has_prefix(s, p) {
        Some(s.skip(p.len() as int))
    } else {
        None
    }
}

/// The parts of `s` between the occurrences of the nonempty `sep`, taken from
/// the left without overlap.
pub open spec fn split_nonempty(s: Seq<char>, sep: Seq<char>) -> Seq<Seq<char>>
    decreases s.len(),
    when sep.len() > 0
    via split_nonempty_decreases
{
    match find(s, sep) {
        None => seq![s],
        Some(i) => seq![s.take(i)] + split_nonempty(s.skip(i + sep.len()), sep),
    }
}

#[via_fn]
proof fn split_nonempty_decreases(s: Seq<char>, sep: Seq<char>) {
    lemma_find_from(s, sep, 0);
}

/// The parts of `s` between the occurrences of `sep`. The empty separator
/// occurs around every character.
pub open spec fn split(s: Seq<char>, sep: Seq<char>) -> Seq<Seq<char>> {
    if sep.len() == 0 {
        seq![Seq::<char>::empty()] + Seq::new(s.len(), |i: int| seq![s[i]])
            + seq![Seq::<char>::empty()]
    } else {
        split_nonempty(s, sep)
    }
}

/// The number of leading characters of `s` that are not white space.
pub open spec fn word_len(s: Seq<char>) -> nat
    decreases s.len(),
{
    if s.len() > 0 && !white_space(s[0]) {
        1 + word_len(s.skip(1))
    } else {
        0
    }
}

pub proof fn lemma_word_len_bound(s: Seq<char>)
    ensures
        word_len(s) <= s.len(),
        forall|i: int| 0 <= i < word_len(s) ==> !white_space(#[trigger] s[i]),
        word_len(s) < s.len() ==> white_space(s[word_len(s) as int]),
    decreases s.len(),
{
    if s.len() > 0 && !white_space(s[0]) {
        lemma_word_len_bound(s.skip(1));
        assert forall|i: int| 0 <= i < word_len(s) implies !white_space(#[trigger] s[i]) by {
            if i > 0 {
                assert(s[i] == s.skip(1)[i - 1]);
            }
        }
        if word_len(s) < s.len() {
            assert(s[word_len(s) as int] == s.skip(1)[word_len(s) - 1]);
        }
    }
}

/// The maximal runs of characters of `s` that are not white space.
pub open spec fn words(s: Seq<char>) -> Seq<Seq<char>>
    decreases s.len(),
    via words_decreases
{
    if s.len() == 0 {
        Seq::empty()
    } else if white_space(s[0]) {
        words(s.skip(1))
    } else {
        seq![s.take(word_len(s) as int)] + words(s.skip(word_len(s) as int))
    }
}

#[via_fn]
proof fn words_decreases(s: Seq<char>) {
    lemma_word_len_bound(s);
}

/// A text of at least one character, none of them white space.
pub open spec fn is_word(s: Seq<char>) -> bool {
    s.len() > 0 && forall|i: int| 0 <= i < s.len() ==> !white_space(#[trigger] s[i])
}

proof fn lemma_word_len_before(a: Seq<char>, c: char, b: Seq<char>)
    requires
        white_space(c),
    ensures
        word_len(a + seq![c] + b) == word_len(a),
    decreases a.len(),
{
    let s = a + seq![c] + b;
    if a.len() == 0 {
        assert(s[0] == c);
    } else {
        assert(s[0] == a[0]);
        assert(s.skip(1) =~= a.skip(1) + seq![c] + b);
        lemma_word_len_before(a.skip(1), c, b);
    }
}

/// White space parts words.
pub proof fn lemma_words_parted(a: Seq<char>, c: char, b: Seq<char>)
    requires
        white_space(c),
    ensures
        words(a + seq![c] + b) == words(a) + words(b),
    decreases a.len(),
{
    let s = a + seq![c] + b;
    if a.len() == 0 {
        assert(s[0] == c);
        assert(s.skip(1) =~= b);
        assert(words(a) + words(b) =~= words(b));
    } else if white_space(a[0]) {
        assert(s[0] == a[0]);
        assert(s.skip(1) =~= a.skip(1) + seq![c] + b);
        lemma_words_parted(a.skip(1), c, b);
    } else {
        let n = word_len(a) as int;
        lemma_word_len_before(a, c, b);
        lemma_word_len_bound(a);
        assert(s[0] == a[0]);
        assert(n > 0);
        assert(s.take(n) =~= a.take(n));
        assert(s.skip(n) =~= a.skip(n) + seq![c] + b);
        lemma_words_parted(a.skip(n), c, b);
        assert(words(s) =~= seq![a.take(n)] + (words(a.skip(n)) + words(b)));
        assert(words(a) + words(b) =~= seq![a.take(n)] + (words(a.skip(n)) + words(b)));
    }
}

/// The words of a list of words that are joined by spaces are those of the list.
pub proof fn lemma_words_of_joined(parts: Seq<Seq<char>>)
    requires
        forall|i: int| 0 <= i < parts.len() ==> is_word(#[trigger] parts[i]),
    ensures
        words(joined(parts, " "@)) == parts,
    decreases parts.len(),
{
    reveal_strlit(" ");
    assert(" "@ =~= seq![' ']);
    if parts.len() == 0 {
        assert(words(joined(parts, " "@)) =~= parts);
    } else {
        let last = parts.last();
        assert(is_word(parts[parts.len() - 1]));
        lemma_word_len_bound(last);
        assert(word_len(last) == last.len());
        assert(last.take(last.len() as int) =~= last);
        assert(last.skip(last.len() as int) =~= Seq::<char>::empty());
        assert(words(Seq::<char>::empty()) =~= Seq::<Seq<char>>::empty());
        assert(words(last) =~= seq![last] + words(last.skip(last.len() as int)));
        assert(words(last) =~= seq![last]);
        if parts.len() == 1 {
            assert(parts =~= seq![last]);
        } else {
            let before = parts.drop_last();
            assert forall|i: int| 0 <= i < before.len() implies is_word(#[trigger] before[i]) by {
                assert(before[i] == parts[i]);
            }
            lemma_words_of_joined(before);
            lemma_words_parted(joined(before, " "@), ' ', last);
            assert(parts =~= before + seq![last]);
        }
    }
}

/// A line without the carriage return that may end it.
pub open spec fn strip_return(s: Seq<char>) -> Seq<char> {
    if s.len() > 0 && s.last() == '\r' {
        s.drop_last()
    } else {
        s
    }
}

/// The lines of `s`, each without its line ending. A line ending at the end of
/// `s` begins no further line.
pub open spec fn lines(s: Seq<char>) -> Seq<Seq<char>>
    decreases s.len(),
    via lines_decreases
{
    if s.len() == 0 {
        Seq::empty()
    } else {
        match find(s, seq!['\n']) {
            None => seq![s],
            Some(i) => seq![strip_return(s.take(i))] + lines(s.skip(i + 1)),
        }
    }
}

#[via_fn]
proof fn lines_decreases(s: Seq<char>) {
    lemma_find_from(s, seq!['\n'], 0);
}

/// The parts with `sep` between each two of them.
pub open spec fn joined(parts: Seq<Seq<char>>, sep: Seq<char>) -> Seq<char>
    decreases parts.len(),
{
    if parts.len() == 0 {
        Seq::empty()
    } else if parts.len() == 1 {
        parts[0]
    } else {
        joined(parts.drop_last(), sep) + sep + parts.last()
    }
}

/// The decimal digit of `d`.
pub open spec fn digit(d: int) -> char {
    (('0' as u32) + d) as char
}

/// The decimal representation of `n`.
pub open spec fn decimal(n: nat) -> Seq<char>
    decreases n,
{
    if n < 10 {
        seq![digit(n as int)]
    } else {
        decimal(n / 10).push(digit((n % 10) as int))
    }
}

/// `find_from` is the least index at which the pattern occurs.
pub proof fn lemma_find_from(s: Seq<char>, p: Seq<char>, i: int)
    requires
        0 <= i,
    ensures
        match find_from(s, p, i) {
            Some(k) => {
                &&& i <= k
                &&& occurs_at(s, p, k)
                &&& forall|j: int| i <= j < k ==> !#[trigger] occurs_at(s, p, j)
            },
            None => forall|j: int| i <= j ==> !#[trigger] occurs_at(s, p, j),
        },
    decreases s.len() - i + 1,
{
    if i + p.len() > s.len() {
    } else if occurs_at(s, p, i) {
    } else {
        lemma_find_from(s, p, i + 1);
    }
}

/// `rfind_from` is the greatest index at which the pattern occurs.
pub proof fn lemma_rfind_from(s: Seq<char>, p: Seq<char>, i: int)
    ensures
        match rfind_from(s, p, i) {
            Some(k) => {
                &&& k <= i
                &&& occurs_at(s, p, k)
                &&& forall|j: int| k < j <= i ==> !#[trigger] occurs_at(s, p, j)
            },
            None => forall|j: int| j <= i ==> !#[trigger] occurs_at(s, p, j),
        },
    decreases i + 1,
{
    if i < 0 {
    } else if occurs_at(s, p, i) {
    } else {
        lemma_rfind_from(s, p, i - 1);
    }
}

/// A text contains a pattern exactly when the pattern can be found in it.
pub proof fn lemma_contains_find(s: Seq<char>, p: Seq<char>)
    ensures
        contains(s, p) <==> find(s, p) is Some,
        contains(s, p) <==> rfind(s, p) is Some,
{
    lemma_find_from(s, p, 0);
    lemma_rfind_from(s, p, s.len() - p.len());
}

/// A pattern occurs where the text has its characters one by one.
pub proof fn pattern_occurs_by_its_characters(s: Seq<char>, p: Seq<char>, i: int)
    ensures
        occurs_at(s, p, i) <==> 0 <= i && i + p.len() <= s.len() && forall|k: int|
            0 <= k < p.len() ==> s[i + k] == #[trigger] p[k],
{
    if 0 <= i && i + p.len() <= s.len() {
        let t = s.subrange(i, i + p.len());
        if occurs_at(s, p, i) {
            assert forall|k: int| 0 <= k < p.len() implies s[i + k] == #[trigger] p[k] by {
                assert(t[k] == s[i + k]);
            }
        } else if forall|k: int| 0 <= k < p.len() ==> s[i + k] == #[trigger] p[k] {
            assert(t =~= p);
        }
    }
}

/// A text contains each of its parts, begins with its front part, and loses only
/// that when the front part is taken off.
pub proof fn parts_of_a_text_are_found(a: Seq<char>, p: Seq<char>, b: Seq<char>)
    ensures
        contains(a + p + b, p),
        has_prefix(p + b, p),
        strip_prefix(p + b, p) == Some(b),
        find(a + p + b, p) is Some && find(a + p + b, p)->0 <= a.len(),
        rfind(a + p + b, p) is Some && rfind(a + p + b, p)->0 >= a.len(),
{
    let s = a + p + b;
    assert(s.subrange(a.len() as int, (a.len() + p.len()) as int) =~= p);
    assert(occurs_at(s, p, a.len() as int));
    assert((p + b).subrange(0, p.len() as int) =~= p);
    assert((p + b).skip(p.len() as int) =~= b);
    lemma_find_from(s, p, 0);
    lemma_rfind_from(s, p, s.len() - p.len());
}

/// A text that begins with another is that text and what is left without it.
pub proof fn prefix_and_rest_are_the_text(s: Seq<char>, p: Seq<char>)
    ensures
        strip_prefix(s, p) is Some <==> has_prefix(s, p),
        has_prefix(s, p) <==> p.len() <= s.len() && s.take(p.len() as int) == p,
        strip_prefix(s, p) matches Some(rest) ==> p + rest == s,
{
    if p.len() <= s.len() {
        assert(s.subrange(0, p.len() as int) =~= s.take(p.len() as int));
        assert(s.take(p.len() as int) + s.skip(p.len() as int) =~= s);
    }
}

/// Of the ASCII characters the space, the tabs, the line feed, the form feed and the
/// carriage return are white space, and no other.
pub proof fn ascii_white_space_is_this(c: char)
    requires
        (c as u32) < 0x80,
    ensures
        white_space(c) <==> c == ' ' || c == '\t' || c == '\n' || c == '\r' || c as u32 == 0xb
            || c as u32 == 0xc,
{
}

/// Trimming takes off the white space at both ends, and nothing else.
pub proof fn trimming_leaves_what_is_between(a: Seq<char>, s: Seq<char>, b: Seq<char>)
    requires
        forall|k: int| 0 <= k < a.len() ==> white_space(#[trigger] a[k]),
        forall|k: int| 0 <= k < b.len() ==> white_space(#[trigger] b[k]),
        s.len() > 0 ==> !white_space(s[0]) && !white_space(s.last()),
    ensures
        trimmed(a + s + b) == s,
{
    let t = a + s + b;
    let i = a.len() as int;
    let j = (a.len() + s.len()) as int;
    assert forall|k: int| 0 <= k < i implies white_space(#[trigger] t[k]) by {
        assert(t[k] == a[k]);
    }
    assert forall|k: int| j <= k < t.len() implies white_space(#[trigger] t[k]) by {
        assert(t[k] == b[k - j]);
    }
    lemma_trim_ends(t, i, j);
    assert(t.subrange(i, j) =~= s);
}

/// A word is the only word of itself, and white space has no words.
pub proof fn word_is_its_only_word(w: Seq<char>)
    ensures
        is_word(w) ==> words(w) == seq![w],
        (forall|i: int| 0 <= i < w.len() ==> white_space(#[trigger] w[i])) ==> words(w).len() == 0,
    decreases w.len(),
{
    if is_word(w) {
        lemma_word_len_bound(w);
        let n = w.len() as int;
        assert(word_len(w) == n);
        assert(w.take(n) =~= w);
        assert(w.skip(n) =~= Seq::<char>::empty());
        assert(words(w.skip(n)) =~= Seq::<Seq<char>>::empty());
        assert(words(w) =~= seq![w]);
    } else if w.len() > 0 && (forall|i: int| 0 <= i < w.len() ==> white_space(#[trigger] w[i])) {
        let t = w.skip(1);
        assert forall|i: int| 0 <= i < t.len() implies white_space(#[trigger] t[i]) by {
            assert(t[i] == w[i + 1]);
        }
        assert(white_space(w[0]));
        word_is_its_only_word(t);
    }
}

/// Trimming keeps the words of a text.
pub proof fn trimming_keeps_the_words(s: Seq<char>)
    ensures
        words(trimmed(s)) == words(s),
    decreases s.len(),
{
    if s.len() > 0 && white_space(s[0]) {
        trimming_keeps_the_words(s.skip(1));
    } else {
        lemma_words_of_trim_end(s);
    }
}

proof fn lemma_words_of_trim_end(s: Seq<char>)
    ensures
        words(trim_end(s)) == words(s),
    decreases s.len(),
{
    if s.len() > 0 && white_space(s.last()) {
        lemma_words_of_trim_end(s.drop_last());
        let none = Seq::<char>::empty();
        lemma_words_parted(s.drop_last(), s.last(), none);
        assert(s.drop_last() + seq![s.last()] + none =~= s);
        assert(words(none) =~= Seq::<Seq<char>>::empty());
        assert(words(s.drop_last()) + words(none) =~= words(s.drop_last()));
    }
}

/// The first occurrence of a character is behind a part that does not have it.
pub proof fn first_character_is_found(a: Seq<char>, c: char, b: Seq<char>)
    requires
        !a.contains(c),
    ensures
        find(a + seq![c] + b, seq![c]) == Some(a.len() as int),
        find(a, seq![c]) is None,
{
    let s = a + seq![c] + b;
    lemma_find_from(s, seq![c], 0);
    lemma_find_from(a, seq![c], 0);
    assert(s.subrange(a.len() as int, a.len() as int + 1) =~= seq![c]);
    assert(occurs_at(s, seq![c], a.len() as int));
    assert forall|j: int| 0 <= j < a.len() implies !#[trigger] occurs_at(s, seq![c], j) by {
        assert(s.subrange(j, j + 1)[0] == a[j]);
    }
    assert forall|j: int| 0 <= j implies !#[trigger] occurs_at(a, seq![c], j) by {
        if j < a.len() {
            assert(a.subrange(j, j + 1)[0] == a[j]);
        }
    }
}

/// A line feed ends a line, a carriage return before it belongs to the ending, and
/// what comes behind has lines of its own.
pub proof fn line_feeds_end_lines(a: Seq<char>, b: Seq<char>)
    requires
        !a.contains('\n'),
        a.len() > 0 ==> a.last() != '\r',
    ensures
        lines(a + seq!['\n'] + b) == seq![a] + lines(b),
        lines(a + seq!['\r', '\n'] + b) == seq![a] + lines(b),
        a.len() > 0 ==> lines(a) == seq![a],
        a.len() == 0 ==> lines(a).len() == 0,
{
    let s = a + seq!['\n'] + b;
    first_character_is_found(a, '\n', b);
    assert(s.take(a.len() as int) =~= a);
    assert(s.skip(a.len() as int + 1) =~= b);
    let r = a.push('\r');
    assert(!r.contains('\n')) by {
        if r.contains('\n') {
            let k = choose|k: int| 0 <= k < r.len() && r[k] == '\n';
            assert(a[k] == '\n');
        }
    }
    let t = a + seq!['\r', '\n'] + b;
    first_character_is_found(r, '\n', b);
    assert(t =~= r + seq!['\n'] + b);
    assert(t.take(r.len() as int) =~= r);
    assert(t.skip(r.len() as int + 1) =~= b);
    assert(r.drop_last() =~= a);
    assert(strip_return(r) =~= a);
}

/// Nothing is lost by splitting: the parts joined again are the text, and no part has
/// the separator in it.
pub proof fn split_parts_join_to_the_text(s: Seq<char>, sep: Seq<char>)
    requires
        sep.len() > 0,
    ensures
        split(s, sep).len() > 0,
        joined(split(s, sep), sep) == s,
        forall|i: int| 0 <= i < split(s, sep).len() ==> !contains(#[trigger] split(s, sep)[i], sep),
    decreases s.len(),
{
    lemma_find_from(s, sep, 0);
    lemma_contains_find(s, sep);
    match find(s, sep) {
        None => {},
        Some(i) => {
            let rest = s.skip(i + sep.len());
            split_parts_join_to_the_text(rest, sep);
            let head = s.take(i);
            let tail = split_nonempty(rest, sep);
            lemma_joined_first(head, tail, sep);
            assert(s =~= head + sep + rest) by {
                assert(s.subrange(i, i + sep.len()) == sep);
                assert forall|k: int| 0 <= k < s.len() implies s[k] == (head + sep + rest)[k] by {
                    if i <= k < i + sep.len() {
                        assert(s.subrange(i, i + sep.len())[k - i] == s[k]);
                    }
                }
            }
            assert(!contains(head, sep)) by {
                if contains(head, sep) {
                    let k = choose|k: int| occurs_at(head, sep, k);
                    assert(head.subrange(k, k + sep.len()) =~= s.subrange(k, k + sep.len()));
                    assert(occurs_at(s, sep, k));
                }
            }
            let all = split(s, sep);
            assert forall|k: int| 0 <= k < all.len() implies !contains(#[trigger] all[k], sep) by {
                if k > 0 {
                    assert(all[k] == split(rest, sep)[k - 1]);
                }
            }
        },
    }
}

proof fn lemma_joined_first(head: Seq<char>, tail: Seq<Seq<char>>, sep: Seq<char>)
    requires
        tail.len() > 0,
    ensures
        joined(seq![head] + tail, sep) == head + sep + joined(tail, sep),
    decreases tail.len(),
{
    let all = seq![head] + tail;
    assert(all.drop_last() =~= seq![head] + tail.drop_last());
    if tail.len() == 1 {
        assert(all.drop_last() =~= seq![head]);
        assert(joined(all.drop_last(), sep) == head);
    } else {
        lemma_joined_first(head, tail.drop_last(), sep);
        assert(head + sep + joined(tail.drop_last(), sep) + sep + tail.last() =~= head + sep + (
        joined(tail.drop_last(), sep) + sep + tail.last()));
    }
}

/// Joining puts the separator between neighbours only: before the first and behind
/// the last part there is none.
pub proof fn joining_parts_neighbours(a: Seq<Seq<char>>, b: Seq<Seq<char>>, sep: Seq<char>)
    requires
        a.len() > 0,
        b.len() > 0,
    ensures
        joined(a + b, sep) == joined(a, sep) + sep + joined(b, sep),
        joined(Seq::empty(), sep) == Seq::<char>::empty(),
        a.len() == 1 ==> joined(a, sep) == a[0],
    decreases b.len(),
{
    let all = a + b;
    if b.len() == 1 {
        assert(all.drop_last() =~= a);
    } else {
        joining_parts_neighbours(a, b.drop_last(), sep);
        assert(all.drop_last() =~= a + b.drop_last());
        assert(joined(a, sep) + sep + joined(b.drop_last(), sep) + sep + b.last() =~= joined(a, sep)
            + sep + (joined(b.drop_last(), sep) + sep + b.last()));
    }
}

/// The number that a sequence of decimal digits stands for.
pub open spec fn digits_value(s: Seq<char>) -> int
    decreases s.len(),
{
    if s.len() == 0 {
        0
    } else {
        10 * digits_value(s.drop_last()) + (s.last() as u32 - 0x30)
    }
}

/// The decimal representation consists of digits, stands for the number, and begins
/// with a zero only where it is the digit zero.
pub proof fn decimal_stands_for_the_number(n: nat)
    ensures
        digits_value(decimal(n)) == n,
        decimal(n).len() > 0,
        forall|i: int| 0 <= i < decimal(n).len() ==> '0' <= #[trigger] decimal(n)[i] <= '9',
        decimal(n).len() > 1 ==> decimal(n)[0] != '0',
    decreases n,
{
    reveal_with_fuel(digits_value, 2);
    let s = decimal(n);
    if n < 10 {
        assert(s.drop_last() =~= Seq::<char>::empty());
        assert(s.last() as u32 == 0x30 + n);
        if n > 0 {
            assert(s[0] != '0');
        }
    } else {
        decimal_stands_for_the_number(n / 10);
        let t = decimal(n / 10);
        assert(s.drop_last() =~= t);
        assert(s.last() as u32 == 0x30 + n % 10);
        assert forall|i: int| 0 <= i < s.len() implies '0' <= #[trigger] s[i] <= '9' by {
            if i < t.len() {
                assert(s[i] == t[i]);
            }
        }
        assert(s[0] == t[0]);
        if t.len() == 1 {
            assert(t.drop_last() =~= Seq::<char>::empty());
            assert(digits_value(t) == t[0] as u32 - 0x30);
        }
    }
}

/// The characters of `s`, in order.
pub fn to_chars(s: &str) -> (r: Vec<char>)
    ensures
        r@ == s@,
{
    let mut r: Vec<char> = Vec::new();
    for c in it: s.chars()
        invariant
            r@ == it.seq().take(it.index()),
            it.seq() == s@,
    {
        r.push(c);
    }
    r
}

/// The string made of the characters `chars[start..end]`.
pub fn from_chars(chars: &Vec<char>, start: usize, end: usize) -> (r: String)
    requires
        start <= end <= chars@.len(),
    ensures
        r@ == chars@.subrange(start as int, end as int),
{
    let mut r: String = String::new();
    let mut i: usize = start;
    while i < end
        invariant
            start <= i <= end <= chars@.len(),
            r@ == chars@.subrange(start as int, i as int),
        decreases end - i,
    {
        r.push(chars[i]);
        i = i + 1;
    }
    r
}

/// Whether `c` is white space.
pub fn is_white_space(c: char) -> (r: bool)
    ensures
        r == white_space(c),
{
    let n: u32 = c as u32;
    (0x9 <= n && n <= 0xd) || n == 0x20 || n == 0x85 || n == 0xa0 || n == 0x1680 || (0x2000 <= n
        && n <= 0x200a) || n == 0x2028 || n == 0x2029 || n == 0x202f || n == 0x205f || n == 0x3000
}

/// Whether `p` occurs in `s` at index `i`.
pub fn matches_at(s: &Vec<char>, p: &Vec<char>, i: usize) -> (r: bool)
    ensures
        r == occurs_at(s@, p@, i as int),
{
    if s.len() < p.len() || s.len() - p.len() < i {
        return false;
    }
    let mut k: usize = 0;
    while k < p.len()
        invariant
            i + p@.len() <= s.len(),
            k <= p@.len(),
            forall|j: int| 0 <= j < k ==> s@[i + j] == #[trigger] p@[j],
        decreases p@.len() - k,
    {
        if s[i + k] != p[k] {
            assert(s@.subrange(i as int, i + p@.len())[k as int] != p@[k as int]);
            return false;
        }
        k = k + 1;
    }
    assert(s@.subrange(i as int, i + p@.len()) =~= p@);
    true
}

/// The first index from `start` on at which `p` occurs in `s`.
pub fn index_of(s: &Vec<char>, p: &Vec<char>, start: usize) -> (r: Option<usize>)
    ensures
        match r {
            Some(i) => find_from(s@, p@, start as int) == Some(i as int),
            None => find_from(s@, p@, start as int) is None,
        },
{
    if s.len() < p.len() || s.len() - p.len() < start {
        return None;
    }
    let last: usize = s.len() - p.len();
    let mut i: usize = start;
    loop
        invariant
            start <= i <= last,
            last + p@.len() == s@.len(),
            find_from(s@, p@, start as int) == find_from(s@, p@, i as int),
        decreases last - i,
    {
        if matches_at(s, p, i) {
            return Some(i);
        }
        if i == last {
            assert(find_from(s@, p@, i + 1) is None);
            return None;
        }
        i = i + 1;
    }
}

/// The last index at which `p` occurs in `s`.
pub fn last_index_of(s: &Vec<char>, p: &Vec<char>) -> (r: Option<usize>)
    ensures
        match r {
            Some(i) => rfind(s@, p@) == Some(i as int),
            None => rfind(s@, p@) is None,
        },
{
    if s.len() < p.len() {
        return None;
    }
    let mut i: usize = s.len() - p.len();
    loop
        invariant
            i + p@.len() <= s@.len(),
            rfind(s@, p@) == rfind_from(s@, p@, i as int),
        decreases i,
    {
        if matches_at(s, p, i) {
            return Some(i);
        }
        if i == 0 {
            assert(rfind_from(s@, p@, -1) is None);
            return None;
        }
        i = i - 1;
    }
}

/// Whether `p` occurs in `s`.
pub fn has_text(s: &str, p: &str) -> (r: bool)
    ensures
        r == contains(s@, p@),
{
    proof {
        lemma_contains_find(s@, p@);
    }
    index_of(&to_chars(s), &to_chars(p), 0).is_some()
}

/// Whether two texts are the same.
pub fn same(a: &str, b: &str) -> (r: bool)
    ensures
        r == (a@ == b@),
{
    let x: Vec<char> = to_chars(a);
    let y: Vec<char> = to_chars(b);
    if x.len() != y.len() {
        return false;
    }
    proof {
        assert(a@.subrange(0, a@.len() as int) =~= a@);
    }
    matches_at(&x, &y, 0)
}

/// Whether `s` begins with `p`.
pub fn starts_with(s: &str, p: &str) -> (r: bool)
    ensures
        r == has_prefix(s@, p@),
{
    matches_at(&to_chars(s), &to_chars(p), 0)
}

/// What follows the prefix `p` of `s`, if `s` begins with `p`.
pub fn without_prefix(s: &str, p: &str) -> (r: Option<String>)
    ensures
        match r {
            Some(t) => strip_prefix(s@, p@) == Some(t@),
            None => strip_prefix(s@, p@) is None,
        },
{
    let x: Vec<char> = to_chars(s);
    let y: Vec<char> = to_chars(p);
    if matches_at(&x, &y, 0) {
        assert(x@.subrange(y@.len() as int, x@.len() as int) =~= s@.skip(p@.len() as int));
        Some(from_chars(&x, y.len(), x.len()))
    } else {
        None
    }
}

proof fn lemma_trim_ends(s: Seq<char>, i: int, j: int)
    requires
        0 <= i <= j <= s.len(),
        i == j || !white_space(s[i]),
        i == j || !white_space(s[j - 1]),
        forall|k: int| 0 <= k < i ==> white_space(#[trigger] s[k]),
        forall|k: int| j <= k < s.len() ==> white_space(#[trigger] s[k]),
    ensures
        trimmed(s) == s.subrange(i, j),
    decreases s.len(),
{
    if i > 0 {
        let t = s.skip(1);
        assert forall|k: int| 0 <= k < i - 1 implies white_space(#[trigger] t[k]) by {
            assert(t[k] == s[k + 1]);
        }
        assert forall|k: int| j - 1 <= k < t.len() implies white_space(#[trigger] t[k]) by {
            assert(t[k] == s[k + 1]);
        }
        lemma_trim_ends(t, i - 1, j - 1);
        assert(t.subrange(i - 1, j - 1) =~= s.subrange(i, j));
    } else if j == 0 && s.len() > 0 {
        let t = s.skip(1);
        assert(white_space(s[0]));
        assert forall|k: int| 0 <= k < t.len() implies white_space(#[trigger] t[k]) by {
            assert(t[k] == s[k + 1]);
        }
        lemma_trim_ends(t, 0, 0);
        assert(t.subrange(0, 0) =~= s.subrange(0, 0));
    } else {
        lemma_trim_end(s, j);
    }
}

proof fn lemma_trim_end(s: Seq<char>, j: int)
    requires
        0 <= j <= s.len(),
        j == 0 || !white_space(s[j - 1]),
        forall|k: int| j <= k < s.len() ==> white_space(#[trigger] s[k]),
    ensures
        trim_end(s) == s.subrange(0, j),
    decreases s.len(),
{
    if j < s.len() {
        assert(white_space(s[s.len() - 1]));
        lemma_trim_end(s.drop_last(), j);
        assert(s.drop_last().subrange(0, j) =~= s.subrange(0, j));
    } else {
        assert(s.subrange(0, j) =~= s);
    }
}

/// `s` without white space at either end.
pub fn trim(s: &str) -> (r: String)
    ensures
        r@ == trimmed(s@),
{
    let x: Vec<char> = to_chars(s);
    let mut i: usize = 0;
    while i < x.len() && is_white_space(x[i])
        invariant
            i <= x@.len(),
            forall|k: int| 0 <= k < i ==> white_space(#[trigger] x@[k]),
        decreases x@.len() - i,
    {
        i = i + 1;
    }
    let mut j: usize = x.len();
    while i < j && is_white_space(x[j - 1])
        invariant
            i <= j <= x@.len(),
            forall|k: int| j <= k < x@.len() ==> white_space(#[trigger] x@[k]),
        decreases j,
    {
        j = j - 1;
    }
    proof {
        lemma_trim_ends(x@, i as int, j as int);
    }
    from_chars(&x, i, j)
}

/// The parts of `s` between the occurrences of `sep`.
pub fn split_text(s: &str, sep: &str) -> (r: Vec<String>)
    ensures
        texts(r@) == split(s@, sep@),
{
    let x: Vec<char> = to_chars(s);
    let p: Vec<char> = to_chars(sep);
    let mut r: Vec<String> = Vec::new();
    if p.len() == 0 {
        r.push(String::new());
        let mut i: usize = 0;
        while i < x.len()
            invariant
                i <= x@.len(),
                x@ == s@,
                texts(r@) == seq![Seq::<char>::empty()] + Seq::new(
                    i as nat,
                    |k: int| seq![s@[k]],
                ),
            decreases x@.len() - i,
        {
            let t: String = from_chars(&x, i, i + 1);
            assert(t@ =~= seq![s@[i as int]]);
            let ghost before = r@;
            r.push(t);
            assert(texts(r@) =~= texts(before).push(t@));
            i = i + 1;
        }
        let last: String = String::new();
        r.push(last);
        return r;
    }
    let mut start: usize = 0;
    assert(s@.skip(0) =~= s@);
    assert(texts(r@) + split_nonempty(s@, sep@) =~= split_nonempty(s@, sep@));
    loop
        invariant
            start <= x.len(),
            x@ == s@,
            p@ == sep@,
            p@.len() > 0,
            split_nonempty(s@, sep@) == texts(r@) + split_nonempty(s@.skip(start as int), sep@),
        decreases x@.len() - start,
    {
        proof {
            lemma_find_skip(s@, sep@, start as int);
            lemma_find_from(s@, sep@, start as int);
        }
        match index_of(&x, &p, start) {
            None => {
                let t: String = from_chars(&x, start, x.len());
                assert(t@ =~= s@.skip(start as int));
                let ghost before = r@;
                r.push(t);
                assert(texts(r@) =~= texts(before).push(t@));
                return r;
            },
            Some(i) => {
                let t: String = from_chars(&x, start, i);
                let ghost rest = s@.skip(start as int);
                assert(t@ =~= rest.take(i - start));
                assert(rest.skip(i - start + sep@.len()) =~= s@.skip(i + sep@.len()));
                let ghost before = r@;
                r.push(t);
                assert(texts(r@) =~= texts(before).push(t@));
                assert(texts(r@) + split_nonempty(s@.skip(i + sep@.len()), sep@) =~= texts(before)
                    + (seq![t@] + split_nonempty(s@.skip(i + sep@.len()), sep@)));
                start = i + p.len();
            },
        }
    }
}

/// Searching a tail of a text finds what searching the text from there finds.
pub proof fn lemma_find_skip(s: Seq<char>, p: Seq<char>, k: int)
    requires
        0 <= k <= s.len(),
    ensures
        match find_from(s, p, k) {
            Some(i) => find(s.skip(k), p) == Some(i - k),
            None => find(s.skip(k), p) is None,
        },
{
    let t = s.skip(k);
    lemma_find_from(s, p, k);
    lemma_find_from(t, p, 0);
    assert forall|j: int| 0 <= j implies (#[trigger] occurs_at(t, p, j) <==> occurs_at(s, p, j + k)) by {
        if j + p.len() <= t.len() {
            assert(t.subrange(j, j + p.len()) =~= s.subrange(j + k, j + k + p.len()));
        }
    }
    match find_from(s, p, k) {
        Some(i) => {
            assert(occurs_at(t, p, i - k));
        },
        None => {},
    }
}

/// The maximal runs of characters of `s` that are not white space.
pub fn split_words(s: &str) -> (r: Vec<String>)
    ensures
        texts(r@) == words(s@),
{
    let x: Vec<char> = to_chars(s);
    let mut r: Vec<String> = Vec::new();
    let mut i: usize = 0;
    assert(s@.skip(0) =~= s@);
    while i < x.len()
        invariant
            i <= x@.len(),
            x@ == s@,
            words(s@) == texts(r@) + words(s@.skip(i as int)),
        decreases x@.len() - i,
    {
        let ghost rest = s@.skip(i as int);
        if is_white_space(x[i]) {
            assert(rest[0] == x@[i as int]);
            assert(rest.skip(1) =~= s@.skip(i + 1));
            i = i + 1;
        } else {
            let mut j: usize = i;
            while j < x.len() && !is_white_space(x[j])
                invariant
                    i <= j <= x@.len(),
                    x@ == s@,
                    word_len(s@.skip(i as int)) == (j - i) + word_len(s@.skip(j as int)),
                decreases x@.len() - j,
            {
                assert(s@.skip(j as int)[0] == x@[j as int]);
                assert(s@.skip(j as int).skip(1) =~= s@.skip(j + 1));
                j = j + 1;
            }
            if j < x.len() {
                assert(s@.skip(j as int)[0] == x@[j as int]);
            }
            assert(word_len(rest) == j - i);
            assert(rest[0] == x@[i as int]);
            let t: String = from_chars(&x, i, j);
            assert(t@ =~= rest.take(j - i));
            assert(rest.skip(j - i) =~= s@.skip(j as int));
            let ghost before = r@;
            r.push(t);
            assert(texts(r@) =~= texts(before).push(t@));
            assert(texts(r@) + words(s@.skip(j as int)) =~= texts(before) + (seq![t@] + words(
                s@.skip(j as int),
            )));
            i = j;
        }
    }
    assert(s@.skip(i as int) =~= Seq::<char>::empty());
    assert(texts(r@) + Seq::<Seq<char>>::empty() =~= texts(r@));
    r
}

/// The lines of `s`, each without its line ending.
pub fn split_lines(s: &str) -> (r: Vec<String>)
    ensures
        texts(r@) == lines(s@),
{
    let x: Vec<char> = to_chars(s);
    let mut p: Vec<char> = Vec::new();
    p.push('\n');
    assert(p@ =~= seq!['\n']);
    let mut r: Vec<String> = Vec::new();
    let mut start: usize = 0;
    assert(s@.skip(0) =~= s@);
    while start < x.len()
        invariant
            start <= x@.len(),
            x@ == s@,
            p@ == seq!['\n'],
            lines(s@) == texts(r@) + lines(s@.skip(start as int)),
        decreases x@.len() - start,
    {
        proof {
            lemma_find_skip(s@, p@, start as int);
            lemma_find_from(s@, p@, start as int);
        }
        let ghost rest = s@.skip(start as int);
        let ghost before = r@;
        match index_of(&x, &p, start) {
            None => {
                let t: String = from_chars(&x, start, x.len());
                assert(t@ =~= rest);
                r.push(t);
                assert(texts(r@) =~= texts(before).push(t@));
                start = x.len();
                assert(s@.skip(start as int) =~= Seq::<char>::empty());
                assert(texts(r@) + Seq::<Seq<char>>::empty() =~= texts(before) + seq![rest]);
            },
            Some(i) => {
                let end: usize = if start < i && x[i - 1] == '\r' {
                    i - 1
                } else {
                    i
                };
                let t: String = from_chars(&x, start, end);
                let ghost part = rest.take(i - start);
                assert(part.len() > 0 ==> part.last() == x@[i - 1]);
                assert(t@ =~= strip_return(part));
                assert(rest.skip(i - start + 1) =~= s@.skip(i + 1));
                r.push(t);
                assert(texts(r@) =~= texts(before).push(t@));
                assert(texts(r@) + lines(s@.skip(i + 1)) =~= texts(before) + (seq![t@] + lines(
                    s@.skip(i + 1),
                )));
                start = i + 1;
            },
        }
    }
    assert(s@.skip(start as int) =~= Seq::<char>::empty());
    assert(texts(r@) + Seq::<Seq<char>>::empty() =~= texts(r@));
    r
}

/// The parts with `sep` between each two of them.
pub fn join(parts: &Vec<String>, sep: &str) -> (r: String)
    ensures
        r@ == joined(texts(parts@), sep@),
{
    let mut r: String = String::new();
    let mut i: usize = 0;
    while i < parts.len()
        invariant
            i <= parts@.len(),
            r@ == joined(texts(parts@).take(i as int), sep@),
        decreases parts@.len() - i,
    {
        if i > 0 {
            r.append(sep);
        }
        r.append(parts[i].as_str());
        proof {
            let next = texts(parts@).take(i + 1);
            assert(next.drop_last() =~= texts(parts@).take(i as int));
            assert(next.last() == parts@[i as int]@);
            assert(Seq::<char>::empty() + parts@[i as int]@ =~= parts@[i as int]@);
            if i == 0 {
                assert(texts(parts@).take(0) =~= Seq::empty());
            }
        }
        i = i + 1;
    }
    assert(texts(parts@).take(parts@.len() as int) =~= texts(parts@));
    r
}

/// The text that `{:?}` gives for a list of strings.
pub fn debug_texts(parts: &Vec<String>) -> (r: String)
    ensures
        r@ == debug_list(texts(parts@)),
{
    let mut quoted: Vec<String> = Vec::new();
    let mut i: usize = 0;
    while i < parts.len()
        invariant
            i <= parts@.len(),
            quoted@.len() == i,
            forall|k: int|
                0 <= k < i ==> (#[trigger] quoted@[k])@ == debug_quoted(parts@[k]@),
        decreases parts@.len() - i,
    {
        quoted.push(debug_quote(parts[i].as_str()));
        i = i + 1;
    }
    proof {
        let t = texts(parts@);
        assert(texts(quoted@) =~= Seq::new(t.len(), |i: int| debug_quoted(t[i])));
    }
    let mut r: String = "[".to_owned();
    r.append(join(&quoted, ", ").as_str());
    r.append("]");
    r
}

/// The decimal digit of `d`.
fn digit_char(d: u64) -> (c: char)
    requires
        d < 10,
    ensures
        c == digit(d as int),
{
    if d == 0 {
        '0'
    } else if d == 1 {
        '1'
    } else if d == 2 {
        '2'
    } else if d == 3 {
        '3'
    } else if d == 4 {
        '4'
    } else if d == 5 {
        '5'
    } else if d == 6 {
        '6'
    } else if d == 7 {
        '7'
    } else if d == 8 {
        '8'
    } else {
        '9'
    }
}

/// The decimal representation of `n`.
pub fn to_decimal(n: u64) -> (r: String)
    ensures
        r@ == decimal(n as nat),
    decreases n,
{
    if n < 10 {
        let mut r: String = String::new();
        r.push(digit_char(n));
        assert(r@ =~= decimal(n as nat));
        r
    } else {
        let mut r: String = to_decimal(n / 10);
        r.push(digit_char(n % 10));
        r
    }
}

/// A list is shown element by element, in its order, each in quotes.
pub proof fn lists_are_shown_in_order(parts: Seq<Seq<char>>, part: Seq<char>)
    ensures
        debug_list(Seq::empty()) == "["@ + "]"@,
        debug_list(seq![part]) == "["@ + debug_quoted(part) + "]"@,
        parts.len() > 0 ==> {
            let all = debug_list(parts);
            debug_list(parts.push(part)) == all.take(all.len() - "]"@.len()) + ", "@ + debug_quoted(
                part,
            ) + "]"@
        },
{
    let quoted = |v: Seq<Seq<char>>| Seq::new(v.len(), |i: int| debug_quoted(v[i]));
    let none = Seq::<Seq<char>>::empty();
    assert(quoted(none) =~= none);
    assert(debug_list(none) =~= "["@ + "]"@);
    assert(quoted(seq![part]) =~= seq![debug_quoted(part)]);
    assert(joined(quoted(seq![part]), ", "@) == debug_quoted(part));
    if parts.len() > 0 {
        let a = quoted(parts);
        let b = seq![debug_quoted(part)];
        assert(quoted(parts.push(part)) =~= a + b);
        joining_parts_neighbours(a, b, ", "@);
        assert(joined(b, ", "@) == debug_quoted(part));
        let all = debug_list(parts);
        assert(all.take(all.len() - "]"@.len()) =~= "["@ + joined(a, ", "@));
        assert(debug_list(parts.push(part)) =~= "["@ + joined(a, ", "@) + ", "@ + debug_quoted(part)
            + "]"@);
    }
}

/// Beyond ASCII these are the characters that are white space, and no other.
pub proof fn other_white_space_is_this(c: char)
    requires
        (c as u32) >= 0x80,
    ensures
        white_space(c) <==> {
            let n = c as u32;
            ||| n == 0x85 || n == 0xa0 || n == 0x1680
            ||| 0x2000 <= n <= 0x200a
            ||| n == 0x2028 || n == 0x2029 || n == 0x202f || n == 0x205f || n == 0x3000
        },
{
}

/// The empty separator parts every character from the next, and stands at both ends.
pub proof fn empty_separator_parts_characters(s: Seq<char>, i: int)
    ensures
        split(s, Seq::empty()).len() == s.len() + 2,
        split(s, Seq::empty())[0].len() == 0 && split(s, Seq::empty()).last().len() == 0,
        0 <= i < s.len() ==> split(s, Seq::empty())[i + 1] == seq![s[i]],
{
}

} // verus!
