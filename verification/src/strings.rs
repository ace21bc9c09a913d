//! Text: trimming, folding, searching, joining and the writing of numbers,
//! each stated over the sequence of characters that a text holds.

use vstd::prelude::*;
use vstd::string::*;

use crate::chars::{
    ascii_lower, digit, digit_char, hex_char, hex_digit, lower_hex, to_ascii_lower, white_space,
};

verus! {

/// The lower-case form of a text, as `str::to_lowercase` gives it.
pub uninterp spec fn lowercase(s: Seq<char>) -> Seq<char>;

/// `str::to_lowercase` depends on the text alone.
pub assume_specification[ str::to_lowercase ](s: &str) -> (r: String)
    ensures
        r@ == lowercase(s@),
;

/// `String::push` appends one character.
pub assume_specification[ String::push ](s: &mut String, c: char)
    ensures
        final(s)@ == old(s)@.push(c),
;

// ---- Trimming ----

/// `s` without the leading characters that `drop` holds of.
pub open spec fn trim_start_where(s: Seq<char>, drop: spec_fn(char) -> bool) -> Seq<char>
    decreases s.len(),
{
    if s.len() > 0 && drop(s[0]) {
        trim_start_where(s.drop_first(), drop)
    } else {
        s
    }
}

/// `s` without the trailing characters that `drop` holds of.
pub open spec fn trim_end_where(s: Seq<char>, drop: spec_fn(char) -> bool) -> Seq<char>
    decreases s.len(),
{
    if s.len() > 0 && drop(s.last()) {
        trim_end_where(s.drop_last(), drop)
    } else {
        s
    }
}

pub open spec fn trim_where(s: Seq<char>, drop: spec_fn(char) -> bool) -> Seq<char> {
    trim_end_where(trim_start_where(s, drop), drop)
}

pub open spec fn blank() -> spec_fn(char) -> bool {
    |c: char| white_space(c)
}

/// `s` without white space at either end.
pub open spec fn trimmed(s: Seq<char>) -> Seq<char> {
    trim_where(s, blank())
}

pub fn chars_of(s: &str) -> (r: Vec<char>)
    ensures
        r@ == s@,
{
    let mut out: Vec<char> = Vec::new();
    for c in it: s.chars()
        invariant
            it.seq() == s@,
            out@ == s@.take(it.index() as int),
    {
        out.push(c);
    }
    out
}

/// The slice of `s` that is left when the marked characters go from both ends.
pub(crate) fn trim_by<'a>(
    s: &'a str,
    drop: &Vec<bool>,
    Ghost(p): Ghost<spec_fn(char) -> bool>,
) -> (r: &'a str)
    requires
        drop@.len() == s@.len(),
        forall|i: int| 0 <= i < s@.len() ==> #[trigger] drop@[i] == p(s@[i]),
    ensures
        r@ == trim_where(s@, p),
{
    let n: usize = drop.len();
    let mut from: usize = 0;
    assert(s@.subrange(0, n as int) =~= s@);
    while from < n && drop[from]
        invariant
            from <= n,
            n == drop@.len(),
            n == s@.len(),
            forall|i: int| 0 <= i < s@.len() ==> #[trigger] drop@[i] == p(s@[i]),
            trim_start_where(s@.subrange(from as int, n as int), p) == trim_start_where(s@, p),
        decreases n - from,
    {
        assert(s@.subrange(from as int, n as int).drop_first() =~= s@.subrange(
            from + 1,
            n as int,
        ));
        from = from + 1;
    }
    assert(trim_start_where(s@, p) == s@.subrange(from as int, n as int));
    let to: usize = solid_end(s, drop, from, Ghost(p));
    s.substring_char(from, to)
}

/// Where the trailing run of marked characters begins, not before `from`.
fn solid_end(
    s: &str,
    drop: &Vec<bool>,
    from: usize,
    Ghost(p): Ghost<spec_fn(char) -> bool>,
) -> (to: usize)
    requires
        drop@.len() == s@.len(),
        from <= s@.len(),
        forall|i: int| 0 <= i < s@.len() ==> #[trigger] drop@[i] == p(s@[i]),
    ensures
        from <= to <= s@.len(),
        s@.subrange(from as int, to as int) == trim_end_where(
            s@.subrange(from as int, s@.len() as int),
            p,
        ),
{
    let n: usize = drop.len();
    let mut to: usize = n;
    while to > from && drop[to - 1]
        invariant
            from <= to <= n,
            n == drop@.len(),
            n == s@.len(),
            forall|i: int| 0 <= i < s@.len() ==> #[trigger] drop@[i] == p(s@[i]),
            trim_end_where(s@.subrange(from as int, to as int), p) == trim_end_where(
                s@.subrange(from as int, n as int),
                p,
            ),
        decreases to - from,
    {
        assert(s@.subrange(from as int, to as int).drop_last() =~= s@.subrange(
            from as int,
            to - 1,
        ));
        to = to - 1;
    }
    to
}

/// The slice of `s` that is left when the marked characters go from its end.
pub(crate) fn trim_end_by<'a>(
    s: &'a str,
    drop: &Vec<bool>,
    Ghost(p): Ghost<spec_fn(char) -> bool>,
) -> (r: &'a str)
    requires
        drop@.len() == s@.len(),
        forall|i: int| 0 <= i < s@.len() ==> #[trigger] drop@[i] == p(s@[i]),
    ensures
        r@ == trim_end_where(s@, p),
{
    let to: usize = solid_end(s, drop, 0, Ghost(p));
    assert(s@.subrange(0, s@.len() as int) =~= s@);
    s.substring_char(0, to)
}

proof fn lemma_trim_start_where(s: Seq<char>, drop: spec_fn(char) -> bool)
    ensures
        trim_start_where(s, drop).len() == 0 || !drop(trim_start_where(s, drop)[0]),
    decreases s.len(),
{
    if s.len() > 0 && drop(s[0]) {
        lemma_trim_start_where(s.drop_first(), drop);
    }
}

proof fn lemma_trim_end_where(s: Seq<char>, drop: spec_fn(char) -> bool)
    ensures
        trim_end_where(s, drop).len() <= s.len(),
        trim_end_where(s, drop) == s.take(trim_end_where(s, drop).len() as int),
        trim_end_where(s, drop).len() == 0 || !drop(trim_end_where(s, drop).last()),
    decreases s.len(),
{
    if s.len() > 0 && drop(s.last()) {
        lemma_trim_end_where(s.drop_last(), drop);
        let r = trim_end_where(s, drop);
        assert(s.drop_last().take(r.len() as int) =~= s.take(r.len() as int));
    } else {
        assert(s.take(s.len() as int) =~= s);
    }
}

/// Trimming what is trimmed changes nothing.
pub proof fn lemma_trimmed_again(s: Seq<char>)
    ensures
        trimmed(trimmed(s)) == trimmed(s),
{
    let inner = trim_start_where(s, blank());
    lemma_trim_start_where(s, blank());
    lemma_trim_end_where(inner, blank());
    let r = trimmed(s);
    if r.len() > 0 {
        assert(r[0] == inner[0]);
    }
}

/// `s` without white space at either end.
pub fn trim<'a>(s: &'a str) -> (r: &'a str)
    ensures
        r@ == trimmed(s@),
{
    let chars: Vec<char> = chars_of(s);
    let n: usize = chars.len();
    let mut drop: Vec<bool> = Vec::new();
    for i in 0..n
        invariant
            n == chars@.len(),
            drop@.len() == i,
            forall|j: int| 0 <= j < i ==> #[trigger] drop@[j] == white_space(chars@[j]),
    {
        drop.push(chars[i].is_whitespace());
    }
    trim_by(s, &drop, Ghost(blank()))
}

pub fn trim_owned(s: &str) -> (r: String)
    ensures
        r@ == trimmed(s@),
{
    trim(s).to_owned()
}

// ---- Words ----

/// The maximal runs of characters that are not white space, in order.
pub open spec fn words(s: Seq<char>) -> Seq<Seq<char>>
    decreases s.len(),
{
    if s.len() == 0 {
        Seq::empty()
    } else {
        let init = s.drop_last();
        let before = words(init);
        if white_space(s.last()) {
            before
        } else if init.len() > 0 && !white_space(init.last()) {
            before.drop_last().push(before.last().push(s.last()))
        } else {
            before.push(seq![s.last()])
        }
    }
}

/// The parts with `sep` between each two of them.
pub open spec fn joined(parts: Seq<Seq<char>>, sep: Seq<char>) -> Seq<char>
    decreases parts.len(),
{
    if parts.len() == 0 {
        Seq::empty()
    } else if parts.len() == 1 {
        parts[0]
    } else {
        joined(parts.drop_last(), sep) + sep + parts.last()
    }
}

/// Words with one space between them: white space folded, none at the ends.
pub open spec fn folded(s: Seq<char>) -> Seq<char> {
    joined(words(s), seq![' '])
}

proof fn lemma_words_end(s: Seq<char>)
    ensures
        s.len() > 0 && !white_space(s.last()) ==> words(s).len() > 0,
{
}

proof fn lemma_joined_grow(parts: Seq<Seq<char>>, c: char, sep: Seq<char>)
    requires
        parts.len() > 0,
    ensures
        joined(parts.drop_last().push(parts.last().push(c)), sep) == joined(parts, sep).push(c),
{
    let grown = parts.drop_last().push(parts.last().push(c));
    assert(grown.drop_last() =~= parts.drop_last());
    assert(joined(grown, sep) =~= joined(parts, sep).push(c));
}

pub(crate) proof fn lemma_joined_push(parts: Seq<Seq<char>>, last: Seq<char>, sep: Seq<char>)
    ensures
        joined(parts.push(last), sep) == if parts.len() == 0 {
            last
        } else {
            joined(parts, sep) + sep + last
        },
{
    assert(parts.push(last).drop_last() =~= parts);
}

/// White space folded to one space between words, none at the ends.
pub fn fold_spaces(s: &str) -> (r: String)
    ensures
        r@ == folded(s@),
{
    let chars: Vec<char> = chars_of(s);
    let n: usize = chars.len();
    let mut out: String = String::new();
    let mut started: bool = false;
    for i in 0..n
        invariant
            n == chars@.len(),
            out@ == folded(chars@.take(i as int)),
            started == (words(chars@.take(i as int)).len() > 0),
    {
        let c: char = chars[i];
        let ghost now = chars@.take(i + 1);
        let ghost init = chars@.take(i as int);
        proof {
            assert(now.drop_last() =~= init);
            lemma_words_end(init);
        }
        if !c.is_whitespace() {
            if i > 0 && !chars[i - 1].is_whitespace() {
                proof {
                    lemma_joined_grow(words(init), c, seq![' ']);
                }
                out.push(c);
            } else {
                proof {
                    lemma_joined_push(words(init), seq![c], seq![' ']);
                    assert(out@.push(' ').push(c) =~= out@ + seq![' '] + seq![c]);
                    assert(Seq::<char>::empty().push(c) =~= seq![c]);
                }
                if started {
                    out.push(' ');
                }
                out.push(c);
                started = true;
            }
        }
    }
    assert(chars@.take(n as int) =~= s@);
    out
}

/// The parts of `parts` with `sep` between each two of them.
pub fn join(parts: &Vec<String>, sep: &str) -> (r: String)
    ensures
        r@ == joined(parts.deep_view(), sep@),
{
    let n: usize = parts.len();
    let mut out: String = String::new();
    for i in 0..n
        invariant
            n == parts@.len(),
            out@ == joined(parts.deep_view().take(i as int), sep@),
    {
        proof {
            let all = parts.deep_view();
            assert(all.take(i + 1) =~= all.take(i as int).push(all[i as int]));
            lemma_joined_push(all.take(i as int), all[i as int], sep@);
        }
        if i > 0 {
            out.append(sep);
        }
        out.append(parts[i].as_str());
    }
    assert(parts.deep_view().take(n as int) =~= parts.deep_view());
    out
}

// ---- Laws of folding ----

/// A text that is one word: neither empty nor with white space in it.
pub open spec fn is_word(w: Seq<char>) -> bool {
    w.len() > 0 && forall|i: int| 0 <= i < w.len() ==> !white_space(#[trigger] w[i])
}

pub open spec fn all_words(ws: Seq<Seq<char>>) -> bool {
    forall|i: int| 0 <= i < ws.len() ==> is_word(#[trigger] ws[i])
}

/// The only white space in a text is a single space between two characters that
/// are none.
pub open spec fn single_spaced(t: Seq<char>) -> bool {
    forall|i: int|
        0 <= i < t.len() && white_space(#[trigger] t[i]) ==> {
            &&& t[i] == ' '
            &&& 0 < i < t.len() - 1
            &&& !white_space(t[i - 1])
            &&& !white_space(t[i + 1])
        }
}

proof fn lemma_words_are_words(s: Seq<char>)
    ensures
        all_words(words(s)),
    decreases s.len(),
{
    if s.len() > 0 {
        let init = s.drop_last();
        let before = words(init);
        lemma_words_are_words(init);
        lemma_words_end(init);
        if !white_space(s.last()) {
            if init.len() > 0 && !white_space(init.last()) {
                assert(is_word(before[before.len() - 1]));
                assert(is_word(before.last().push(s.last())));
            } else {
                assert(is_word(seq![s.last()]));
            }
        }
    }
}

proof fn lemma_words_of_one_more(p: Seq<char>, w: Seq<char>)
    requires
        p.len() == 0 || white_space(p.last()),
        is_word(w),
    ensures
        words(p + w) == words(p).push(w),
    decreases w.len(),
{
    let t = p + w;
    let init = w.drop_last();
    assert(t.last() == w.last());
    assert(!white_space(w[w.len() - 1]));
    assert(t.drop_last() =~= p + init);
    if init.len() == 0 {
        assert(p + init =~= p);
        assert(seq![w.last()] =~= w);
    } else {
        assert(is_word(init)) by {
            assert forall|i: int| 0 <= i < init.len() implies !white_space(
                #[trigger] init[i],
            ) by {
                assert(init[i] == w[i]);
            }
        }
        lemma_words_of_one_more(p, init);
        assert((p + init).last() == w[w.len() - 2]);
        assert(words(p).push(init).drop_last() =~= words(p));
        assert(init.push(w.last()) =~= w);
    }
}

proof fn lemma_words_of_joined(ws: Seq<Seq<char>>)
    requires
        all_words(ws),
    ensures
        words(joined(ws, seq![' '])) == ws,
        single_spaced(joined(ws, seq![' '])),
        ws.len() > 0 ==> joined(ws, seq![' ']).len() > 0 && !white_space(
            joined(ws, seq![' '])[0],
        ) && !white_space(joined(ws, seq![' ']).last()),
    decreases ws.len(),
{
    let t = joined(ws, seq![' ']);
    if ws.len() == 1 {
        let none = Seq::<char>::empty();
        assert(is_word(ws[0]));
        lemma_words_of_one_more(none, ws[0]);
        assert(none + ws[0] =~= t);
        assert(words(none).push(ws[0]) =~= ws);
    } else if ws.len() > 1 {
        let rest = ws.drop_last();
        let w = ws.last();
        assert(all_words(rest)) by {
            assert forall|i: int| 0 <= i < rest.len() implies is_word(#[trigger] rest[i]) by {
                assert(rest[i] == ws[i]);
            }
        }
        assert(is_word(ws[ws.len() - 1]));
        lemma_words_of_joined(rest);
        let before = joined(rest, seq![' ']);
        let spaced = before + seq![' '];
        assert(spaced.drop_last() =~= before);
        assert(words(spaced) == rest);
        lemma_words_of_one_more(spaced, w);
        assert(t =~= spaced + w);
        assert(rest.push(w) =~= ws);
        assert forall|i: int| 0 <= i < t.len() && white_space(#[trigger] t[i]) implies {
            &&& t[i] == ' '
            &&& 0 < i < t.len() - 1
            &&& !white_space(t[i - 1])
            &&& !white_space(t[i + 1])
        } by {
            if i < before.len() {
                assert(white_space(before[i]));
                assert(t[i - 1] == before[i - 1]);
                assert(t[i + 1] == before[i + 1]);
            } else if i == before.len() {
                assert(t[i - 1] == before.last());
                assert(t[i + 1] == w[0]);
            } else {
                assert(t[i] == w[i - before.len() - 1]);
            }
        }
        assert(t[0] == before[0]);
        assert(t.last() == w[w.len() - 1]);
    }
}

/// Folding keeps the words of a text, leaves only single spaces between them,
/// and changes nothing when it is done again.
pub proof fn law_folding_keeps_the_words(s: Seq<char>)
    ensures
        words(folded(s)) == words(s),
        single_spaced(folded(s)),
        folded(folded(s)) == folded(s),
{
    lemma_words_are_words(s);
    lemma_words_of_joined(words(s));
}

/// A text of white space alone folds to nothing.
pub proof fn law_a_blank_text_folds_to_nothing(s: Seq<char>)
    requires
        forall|i: int| 0 <= i < s.len() ==> white_space(#[trigger] s[i]),
    ensures
        folded(s).len() == 0,
{
    lemma_blank_has_no_words(s);
}

proof fn lemma_blank_has_no_words(s: Seq<char>)
    requires
        forall|i: int| 0 <= i < s.len() ==> white_space(#[trigger] s[i]),
    ensures
        words(s).len() == 0,
    decreases s.len(),
{
    if s.len() > 0 {
        let init = s.drop_last();
        assert forall|i: int| 0 <= i < init.len() implies white_space(#[trigger] init[i]) by {
            assert(init[i] == s[i]);
        }
        assert(white_space(s[s.len() - 1]));
        lemma_blank_has_no_words(init);
    }
}

/// A text whose words are the given ones, with single spaces between them, folds
/// to itself.
pub proof fn law_joined_words_are_folded(ws: Seq<Seq<char>>)
    requires
        all_words(ws),
    ensures
        words(joined(ws, seq![' '])) == ws,
        single_spaced(joined(ws, seq![' '])),
        folded(joined(ws, seq![' '])) == joined(ws, seq![' ']),
{
    lemma_words_of_joined(ws);
}

// ---- Searching and comparing ----

/// `needle` stands in `hay` from position `at` on.
pub open spec fn occurs_at(hay: Seq<char>, needle: Seq<char>, at: int) -> bool {
    &&& 0 <= at
    &&& at + needle.len() <= hay.len()
    &&& hay.subrange(at, at + needle.len()) == needle
}

/// `needle` stands somewhere in `hay`.
pub open spec fn holds(hay: Seq<char>, needle: Seq<char>) -> bool {
    exists|at: int| occurs_at(hay, needle, at)
}

/// The same text but for the case of ASCII letters.
pub open spec fn same_ignoring_ascii_case(a: Seq<char>, b: Seq<char>) -> bool {
    &&& a.len() == b.len()
    &&& forall|i: int| 0 <= i < a.len() ==> ascii_lower(#[trigger] a[i]) == ascii_lower(b[i])
}

pub fn stands_at(hay: &Vec<char>, needle: &Vec<char>, at: usize) -> (r: bool)
    ensures
        r == occurs_at(hay@, needle@, at as int),
{
    let n: usize = needle.len();
    if at > hay.len() || n > hay.len() - at {
        return false;
    }
    for i in 0..n
        invariant
            n == needle@.len(),
            at + n <= hay.len(),
            forall|j: int| 0 <= j < i ==> #[trigger] needle@[j] == hay@[at + j],
    {
        if hay[at + i] != needle[i] {
            assert(hay@.subrange(at as int, at + n)[i as int] != needle@[i as int]);
            return false;
        }
    }
    assert(hay@.subrange(at as int, at + n) =~= needle@);
    true
}

pub fn contains(hay: &str, needle: &str) -> (r: bool)
    ensures
        r == holds(hay@, needle@),
{
    let h: Vec<char> = chars_of(hay);
    let x: Vec<char> = chars_of(needle);
    if x.len() > h.len() {
        return false;
    }
    let last: usize = h.len() - x.len();
    let mut at: usize = 0;
    while at <= last
        invariant
            h@ == hay@,
            x@ == needle@,
            last == h@.len() - x@.len(),
            at <= last + 1,
            forall|j: int| 0 <= j < at ==> !occurs_at(hay@, needle@, j),
        decreases last + 1 - at,
    {
        if stands_at(&h, &x, at) {
            return true;
        }
        if at == last {
            return false;
        }
        at = at + 1;
    }
    false
}

pub fn same(a: &str, b: &str) -> (r: bool)
    ensures
        r == (a@ == b@),
{
    let x: Vec<char> = chars_of(a);
    let y: Vec<char> = chars_of(b);
    if x.len() != y.len() {
        return false;
    }
    let n: usize = x.len();
    for i in 0..n
        invariant
            x@ == a@,
            y@ == b@,
            n == x@.len(),
            n == y@.len(),
            forall|j: int| 0 <= j < i ==> x@[j] == y@[j],
    {
        if x[i] != y[i] {
            return false;
        }
    }
    assert(a@ =~= b@);
    true
}

pub fn eq_ignore_ascii_case(a: &str, b: &str) -> (r: bool)
    ensures
        r == same_ignoring_ascii_case(a@, b@),
{
    let x: Vec<char> = chars_of(a);
    let y: Vec<char> = chars_of(b);
    if x.len() != y.len() {
        return false;
    }
    let n: usize = x.len();
    for i in 0..n
        invariant
            x@ == a@,
            y@ == b@,
            n == x@.len(),
            n == y@.len(),
            forall|j: int| 0 <= j < i ==> ascii_lower(#[trigger] x@[j]) == ascii_lower(y@[j]),
    {
        if to_ascii_lower(x[i]) != to_ascii_lower(y[i]) {
            assert(ascii_lower(a@[i as int]) != ascii_lower(b@[i as int]));
            return false;
        }
    }
    true
}

/// `text` is one of `list`.
pub fn is_among(list: &Vec<String>, text: &str) -> (r: bool)
    ensures
        r == list.deep_view().contains(text@),
{
    let n: usize = list.len();
    for i in 0..n
        invariant
            n == list@.len(),
            forall|j: int| 0 <= j < i ==> #[trigger] list.deep_view()[j] != text@,
    {
        if same(list[i].as_str(), text) {
            assert(list.deep_view()[i as int] == text@);
            return true;
        }
    }
    false
}

/// The same texts again.
pub fn copy_all(texts: &Vec<String>) -> (r: Vec<String>)
    ensures
        r.deep_view() == texts.deep_view(),
{
    let n: usize = texts.len();
    let mut out: Vec<String> = Vec::new();
    for i in 0..n
        invariant
            n == texts@.len(),
            out.deep_view() == texts.deep_view().take(i as int),
    {
        let ghost before = out.deep_view();
        out.push(texts[i].clone());
        assert(out.deep_view() =~= before.push(texts.deep_view()[i as int]));
        assert(texts.deep_view().take(i + 1) =~= before.push(texts.deep_view()[i as int]));
    }
    assert(texts.deep_view().take(n as int) =~= texts.deep_view());
    out
}

/// Two optional texts are both absent, or both there and the same.
pub fn same_option(a: &Option<String>, b: &Option<String>) -> (r: bool)
    ensures
        r == (a.deep_view() == b.deep_view()),
{
    match (a, b) {
        (Some(x), Some(y)) => same(x.as_str(), y.as_str()),
        (None, None) => true,
        _ => false,
    }
}

// ---- Order ----

/// `a` comes no later than `b`, character by character by code point.
pub open spec fn no_later(a: Seq<char>, b: Seq<char>) -> bool
    decreases a.len(),
{
    if a.len() == 0 {
        true
    } else if b.len() == 0 {
        false
    } else if a[0] == b[0] {
        no_later(a.drop_first(), b.drop_first())
    } else {
        a[0] < b[0]
    }
}

pub fn comes_no_later(a: &str, b: &str) -> (r: bool)
    ensures
        r == no_later(a@, b@),
{
    let x: Vec<char> = chars_of(a);
    let y: Vec<char> = chars_of(b);
    let mut i: usize = 0;
    assert(a@.skip(0) =~= a@);
    assert(b@.skip(0) =~= b@);
    while i < x.len() && i < y.len()
        invariant
            x@ == a@,
            y@ == b@,
            i <= x@.len(),
            i <= y@.len(),
            no_later(a@, b@) == no_later(a@.skip(i as int), b@.skip(i as int)),
        decreases x.len() - i,
    {
        if x[i] != y[i] {
            return x[i] < y[i];
        }
        assert(a@.skip(i as int).drop_first() =~= a@.skip(i + 1));
        assert(b@.skip(i as int).drop_first() =~= b@.skip(i + 1));
        i = i + 1;
    }
    i == x.len()
}

/// Of two texts, one always comes no later than the other, and if both do
/// they are the same text.
pub proof fn lemma_no_later_total(a: Seq<char>, b: Seq<char>)
    ensures
        no_later(a, b) || no_later(b, a),
        no_later(a, b) && no_later(b, a) ==> a == b,
    decreases a.len(),
{
    if a.len() > 0 && b.len() > 0 && a[0] == b[0] {
        lemma_no_later_total(a.drop_first(), b.drop_first());
        if a.drop_first() == b.drop_first() {
            assert(a =~= seq![a[0]] + a.drop_first());
            assert(b =~= seq![b[0]] + b.drop_first());
        }
    } else if a.len() == 0 && b.len() == 0 {
        assert(a =~= b);
    }
}

// ---- Numbers ----

/// A natural number in decimal digits, without leading zeros.
pub open spec fn decimal(n: nat) -> Seq<char>
    decreases n,
{
    if n < 10 {
        seq![digit_char(n as int)]
    } else {
        decimal(n / 10).push(digit_char((n % 10) as int))
    }
}

/// An integer in decimal digits, with a minus sign before a negative one.
pub open spec fn signed_decimal(n: int) -> Seq<char> {
    if n < 0 {
        seq!['-'] + decimal((-n) as nat)
    } else {
        decimal(n as nat)
    }
}

pub fn write_decimal(n: u64) -> (r: String)
    ensures
        r@ == decimal(n as nat),
    decreases n,
{
    if n < 10 {
        let mut out: String = String::new();
        out.push(digit(n as u8));
        assert(out@ =~= seq![digit_char(n as int)]);
        out
    } else {
        let mut out: String = write_decimal(n / 10);
        out.push(digit((n % 10) as u8));
        out
    }
}

pub fn write_signed(n: i64) -> (r: String)
    ensures
        r@ == signed_decimal(n as int),
{
    if n < 0 {
        let mut out: String = String::new();
        out.push('-');
        let size: u64 = (-(n as i128)) as u64;
        let digits: String = write_decimal(size);
        out.append(digits.as_str());
        assert(out@ =~= seq!['-'] + decimal(size as nat));
        out
    } else {
        write_decimal(n as u64)
    }
}

/// Different numbers are written differently.
pub proof fn lemma_decimal_injective(a: nat, b: nat)
    ensures
        decimal(a) == decimal(b) ==> a == b,
    decreases a,
{
    lemma_decimal_shape(a);
    lemma_decimal_shape(b);
    if decimal(a) == decimal(b) {
        assert(decimal(a).last() == digit_char((a % 10) as int));
        assert(decimal(b).last() == digit_char((b % 10) as int));
        if a >= 10 && b >= 10 {
            assert(decimal(a).drop_last() =~= decimal(a / 10));
            assert(decimal(b).drop_last() =~= decimal(b / 10));
            lemma_decimal_injective(a / 10, b / 10);
        }
    }
}

proof fn lemma_decimal_shape(n: nat)
    ensures
        decimal(n).len() > 0,
        decimal(n).len() == 1 <==> n < 10,
        decimal(n).last() == digit_char((n % 10) as int),
    decreases n,
{
    if n >= 10 {
        lemma_decimal_shape(n / 10);
    }
}

/// Bytes as pairs of lower-case hexadecimal digits.
pub open spec fn hex(bytes: Seq<u8>) -> Seq<char>
    decreases bytes.len(),
{
    if bytes.len() == 0 {
        Seq::empty()
    } else {
        hex(bytes.drop_last()) + seq![
            hex_char(bytes.last() as int / 16),
            hex_char(bytes.last() as int % 16),
        ]
    }
}

/// Each byte takes two lower-case hexadecimal digits.
pub proof fn lemma_hex_digits(bytes: Seq<u8>)
    ensures
        hex(bytes).len() == 2 * bytes.len(),
        forall|i: int| 0 <= i < hex(bytes).len() ==> lower_hex(#[trigger] hex(bytes)[i]),
    decreases bytes.len(),
{
    if bytes.len() > 0 {
        lemma_hex_digits(bytes.drop_last());
        let b = bytes.last() as int;
        assert(lower_hex(hex_char(b / 16)));
        assert(lower_hex(hex_char(b % 16)));
        let before = hex(bytes.drop_last());
        assert forall|i: int| 0 <= i < hex(bytes).len() implies lower_hex(
            #[trigger] hex(bytes)[i],
        ) by {
            if i < before.len() {
                assert(hex(bytes)[i] == before[i]);
            }
        }
    }
}

pub fn write_hex(bytes: &Vec<u8>) -> (r: String)
    ensures
        r@ == hex(bytes@),
{
    let n: usize = bytes.len();
    let mut out: String = String::new();
    for i in 0..n
        invariant
            n == bytes@.len(),
            out@ == hex(bytes@.take(i as int)),
    {
        let b: u8 = bytes[i];
        assert(bytes@.take(i + 1).drop_last() =~= bytes@.take(i as int));
        let ghost before = out@;
        out.push(hex_digit(b / 16));
        out.push(hex_digit(b % 16));
        assert(out@ =~= before + seq![hex_char(b as int / 16), hex_char(b as int % 16)]);
    }
    assert(bytes@.take(n as int) =~= bytes@);
    out
}

} // verus!
