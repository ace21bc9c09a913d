//! Laws of text: what trimming leaves, how texts are compared and joined, and that
//! a written number reads as the number it writes.

use vstd::prelude::*;

use crate::chars::{ascii_lower, digit_char, hex_char, white_space};
use crate::moment::{ascii_digit, digits_between, number_between};
use crate::strings::{
    blank, decimal, folded, hex, holds, is_word, joined, lemma_hex_digits, lemma_joined_push,
    no_later, occurs_at, same_ignoring_ascii_case, signed_decimal, trim_end_where,
    trim_start_where, trim_where, trimmed, words,
};

verus! {

// ---- Trimming ----

/// `t` is what is left of `s` when a run of dropped characters goes from its front
/// and another from its end, and no more can go.
pub open spec fn is_middle(
    s: Seq<char>,
    t: Seq<char>,
    drop: spec_fn(char) -> bool,
    from: int,
) -> bool {
    let to = from + t.len();
    &&& 0 <= from <= to <= s.len()
    &&& s.subrange(from, to) == t
    &&& forall|i: int| 0 <= i < from ==> drop(#[trigger] s[i])
    &&& forall|i: int| to <= i < s.len() ==> drop(#[trigger] s[i])
    &&& t.len() > 0 ==> !drop(t[0]) && !drop(t[t.len() - 1])
}

/// Trimming takes the dropped characters off both ends and nothing else: what is
/// left stands in the text, and begins and ends with a character that is kept.
pub proof fn law_trimming_leaves_the_middle(s: Seq<char>, drop: spec_fn(char) -> bool) -> (from: int)
    ensures
        is_middle(s, trim_where(s, drop), drop, from),
{
    let inner = trim_start_where(s, drop);
    let from = (s.len() - inner.len()) as int;
    lemma_start(s, drop);
    lemma_end(inner, drop);
    let t = trim_where(s, drop);
    let to = from + t.len();
    assert(s.subrange(from, to) =~= t) by {
        assert forall|i: int| 0 <= i < t.len() implies s.subrange(from, to)[i] == t[i] by {
            assert(t[i] == inner[i]);
            assert(inner[i] == s.skip(from)[i]);
        }
    }
    assert forall|i: int| to <= i < s.len() implies drop(#[trigger] s[i]) by {
        assert(inner[i - from] == s.skip(from)[i - from]);
        assert(drop(inner[i - from]));
    }
    if t.len() > 0 {
        assert(t[0] == inner[0]);
    }
    from
}

proof fn lemma_start(s: Seq<char>, drop: spec_fn(char) -> bool)
    ensures
        trim_start_where(s, drop).len() <= s.len(),
        trim_start_where(s, drop) == s.skip(s.len() - trim_start_where(s, drop).len()),
        forall|i: int|
            0 <= i < s.len() - trim_start_where(s, drop).len() ==> drop(#[trigger] s[i]),
        trim_start_where(s, drop).len() > 0 ==> !drop(trim_start_where(s, drop)[0]),
    decreases s.len(),
{
    let r = trim_start_where(s, drop);
    if s.len() > 0 && drop(s[0]) {
        let rest = s.drop_first();
        lemma_start(rest, drop);
        assert(rest.skip(rest.len() - r.len()) =~= s.skip(s.len() - r.len()));
        assert forall|i: int| 0 <= i < s.len() - r.len() implies drop(#[trigger] s[i]) by {
            if i > 0 {
                assert(rest[i - 1] == s[i]);
            }
        }
    } else {
        assert(s.skip(0) =~= s);
    }
}

proof fn lemma_end(s: Seq<char>, drop: spec_fn(char) -> bool)
    ensures
        trim_end_where(s, drop).len() <= s.len(),
        trim_end_where(s, drop) == s.take(trim_end_where(s, drop).len() as int),
        forall|i: int| trim_end_where(s, drop).len() <= i < s.len() ==> drop(#[trigger] s[i]),
        trim_end_where(s, drop).len() > 0 ==> !drop(
            trim_end_where(s, drop)[trim_end_where(s, drop).len() - 1],
        ),
    decreases s.len(),
{
    let r = trim_end_where(s, drop);
    if s.len() > 0 && drop(s.last()) {
        let rest = s.drop_last();
        lemma_end(rest, drop);
        assert(rest.take(r.len() as int) =~= s.take(r.len() as int));
        assert forall|i: int| r.len() <= i < s.len() implies drop(#[trigger] s[i]) by {
            if i < rest.len() {
                assert(rest[i] == s[i]);
            }
        }
    } else {
        assert(s.take(s.len() as int) =~= s);
    }
}

/// Trimming the end takes the dropped characters off the end and nothing else.
pub proof fn law_trimming_the_end_leaves_the_front(s: Seq<char>, drop: spec_fn(char) -> bool)
    ensures
        ({
            let t = trim_end_where(s, drop);
            &&& t.is_prefix_of(s)
            &&& forall|i: int| t.len() <= i < s.len() ==> drop(#[trigger] s[i])
            &&& t.len() > 0 ==> !drop(t[t.len() - 1])
        }),
{
    lemma_end(s, drop);
}

/// What is left after trimming is in the text with only white space around it, and
/// has none at its ends. A text of white space alone leaves nothing, and a text
/// without white space at its ends stays as it is.
pub proof fn law_only_white_space_is_trimmed(s: Seq<char>) -> (from: int)
    ensures
        ({
            let t = trimmed(s);
            &&& 0 <= from <= from + t.len() <= s.len()
            &&& s.subrange(from, from + t.len()) == t
            &&& forall|i: int| 0 <= i < from ==> white_space(#[trigger] s[i])
            &&& forall|i: int| from + t.len() <= i < s.len() ==> white_space(#[trigger] s[i])
            &&& t.len() > 0 ==> !white_space(t[0]) && !white_space(t[t.len() - 1])
        }),
        trimmed(s).len() == 0 <==> forall|i: int| 0 <= i < s.len() ==> white_space(#[trigger] s[i]),
        s.len() > 0 && !white_space(s[0]) && !white_space(s[s.len() - 1]) ==> trimmed(s) == s,
{
    let from = law_trimming_leaves_the_middle(s, blank());
    let t = trimmed(s);
    assert forall|i: int| 0 <= i < from implies white_space(#[trigger] s[i]) by {
        assert(blank()(s[i]));
    }
    assert forall|i: int| from + t.len() <= i < s.len() implies white_space(#[trigger] s[i]) by {
        assert(blank()(s[i]));
    }
    if t.len() > 0 {
        assert(!blank()(t[0]) && !blank()(t[t.len() - 1]));
        assert(t[0] == s[from]);
    }
    if s.len() > 0 && !white_space(s[0]) && !white_space(s[s.len() - 1]) {
        assert(from == 0);
        assert(t.len() == s.len());
        assert(t =~= s);
    }
    from
}

// ---- Comparing ----

/// The two characters are the same, or one is an ASCII capital and the other the
/// small letter of it.
pub open spec fn same_letter(a: char, b: char) -> bool {
    ||| a == b
    ||| 'A' <= a <= 'Z' && b as int == a as int + 32
    ||| 'A' <= b <= 'Z' && a as int == b as int + 32
}

/// Two texts are the same up to ASCII case exactly where they are as long as one
/// another and agree letter by letter: every text agrees with itself, and either
/// with the other.
pub proof fn law_case_alone_is_ignored(a: Seq<char>, b: Seq<char>)
    ensures
        same_ignoring_ascii_case(a, b) <==> a.len() == b.len() && forall|i: int|
            0 <= i < a.len() ==> same_letter(#[trigger] a[i], b[i]),
        same_ignoring_ascii_case(a, a),
        same_ignoring_ascii_case(a, b) == same_ignoring_ascii_case(b, a),
{
    assert forall|x: char, y: char| ascii_lower(x) == ascii_lower(y) implies same_letter(x, y) by {
    }
    assert forall|x: char, y: char| same_letter(x, y) implies #[trigger] ascii_lower(x)
        == #[trigger] ascii_lower(y) by {}
    if same_ignoring_ascii_case(a, b) {
        assert forall|i: int| 0 <= i < a.len() implies same_letter(#[trigger] a[i], b[i]) by {
            assert(ascii_lower(a[i]) == ascii_lower(b[i]));
        }
        assert forall|i: int| 0 <= i < b.len() implies ascii_lower(#[trigger] b[i])
            == ascii_lower(a[i]) by {
            assert(ascii_lower(a[i]) == ascii_lower(b[i]));
        }
    }
    if same_ignoring_ascii_case(b, a) {
        assert forall|i: int| 0 <= i < a.len() implies ascii_lower(#[trigger] a[i])
            == ascii_lower(b[i]) by {
            assert(ascii_lower(b[i]) == ascii_lower(a[i]));
        }
    }
    if a.len() == b.len() && forall|i: int| 0 <= i < a.len() ==> same_letter(#[trigger] a[i], b[i])
    {
        assert forall|i: int| 0 <= i < a.len() implies ascii_lower(#[trigger] a[i])
            == ascii_lower(b[i]) by {
            assert(same_letter(a[i], b[i]));
        }
    }
}

/// A text is held by another exactly where the other is that text with something,
/// or nothing, before and after it.
pub proof fn law_what_is_held_stands_within(
    before: Seq<char>,
    needle: Seq<char>,
    after: Seq<char>,
    hay: Seq<char>,
)
    ensures
        holds(before + needle + after, needle),
        holds(hay, hay),
        holds(hay, Seq::empty()),
        needle.len() > hay.len() ==> !holds(hay, needle),
        holds(hay, needle) ==> exists|at: int|
            0 <= at <= hay.len() - needle.len() && #[trigger] hay.take(at) + needle + hay.skip(
                at + needle.len(),
            ) == hay,
{
    let all = before + needle + after;
    let at = before.len() as int;
    assert(all.subrange(at, at + needle.len()) =~= needle);
    assert(occurs_at(all, needle, at));
    assert(hay.subrange(0, hay.len() as int) =~= hay);
    assert(occurs_at(hay, hay, 0));
    assert(hay.subrange(0, 0) =~= Seq::<char>::empty());
    assert(occurs_at(hay, Seq::empty(), 0));
    if holds(hay, needle) {
        let at = choose|at: int| occurs_at(hay, needle, at);
        assert(hay.take(at) + needle + hay.skip(at + needle.len()) =~= hay) by {
            assert forall|i: int| 0 <= i < needle.len() implies hay[at + i] == needle[i] by {
                assert(hay.subrange(at, at + needle.len())[i] == needle[i]);
            }
        }
    }
}

/// The order is that of the code points at the first place where the texts differ;
/// a text that is the front of another comes no later than it.
pub proof fn law_the_first_difference_decides(a: Seq<char>, b: Seq<char>, at: int)
    requires
        0 <= at <= a.len(),
        at <= b.len(),
        a.take(at) == b.take(at),
    ensures
        at == a.len() ==> no_later(a, b),
        at == b.len() && at < a.len() ==> !no_later(a, b),
        at < a.len() && at < b.len() && a[at] != b[at] ==> no_later(a, b) == (a[at] < b[at]),
    decreases at,
{
    if at > 0 {
        assert(a.take(at)[0] == a[0]);
        assert(b.take(at)[0] == b[0]);
        let (x, y) = (a.drop_first(), b.drop_first());
        assert(x.take(at - 1) =~= a.take(at).drop_first());
        assert(y.take(at - 1) =~= b.take(at).drop_first());
        law_the_first_difference_decides(x, y, at - 1);
    }
}

// ---- Words ----

/// White space parts the words: those of a text with white space between two parts
/// are the words of the one and then of the other. A text of other characters alone
/// is one word, and an empty one has none.
pub proof fn law_white_space_parts_the_words(a: Seq<char>, c: char, b: Seq<char>)
    ensures
        white_space(c) ==> words(a + seq![c] + b) == words(a) + words(b),
        is_word(a) ==> words(a) == seq![a],
        words(Seq::empty()).len() == 0,
    decreases b.len(),
{
    if white_space(c) {
        lemma_words_after(a, c, b);
    }
    if is_word(a) {
        lemma_one_word(a);
    }
}

proof fn lemma_words_after(a: Seq<char>, c: char, b: Seq<char>)
    requires
        white_space(c),
    ensures
        words(a + seq![c] + b) == words(a) + words(b),
        b.len() > 0 && !white_space(b.last()) ==> words(b).len() > 0,
    decreases b.len(),
{
    let t = a + seq![c] + b;
    if b.len() == 0 {
        assert(t.last() == c);
        assert(t.drop_last() =~= a);
        assert(words(a) + words(b) =~= words(a));
    } else {
        let init = b.drop_last();
        lemma_words_after(a, c, init);
        assert(t.last() == b.last());
        assert(t.drop_last() =~= a + seq![c] + init);
        let before = words(a) + words(init);
        if init.len() == 0 {
            assert(t.drop_last().last() == c);
        } else {
            assert(t.drop_last().last() == init.last());
        }
        if white_space(b.last()) {
            assert(words(t) =~= words(a) + words(b));
        } else if init.len() > 0 && !white_space(init.last()) {
            assert(before.last() == words(init).last());
            assert(words(t) =~= words(a) + words(b));
        } else {
            assert(words(t) =~= words(a) + words(b));
        }
    }
}

proof fn lemma_one_word(w: Seq<char>)
    requires
        is_word(w),
    ensures
        words(w) == seq![w],
    decreases w.len(),
{
    let init = w.drop_last();
    assert(!white_space(w[w.len() - 1]));
    if init.len() > 0 {
        assert(is_word(init)) by {
            assert forall|i: int| 0 <= i < init.len() implies !white_space(
                #[trigger] init[i],
            ) by {
                assert(init[i] == w[i]);
            }
        }
        lemma_one_word(init);
        assert(!white_space(w[w.len() - 2]));
        assert(init.push(w.last()) =~= w);
        assert(words(w) =~= seq![w]);
    } else {
        assert(seq![w.last()] =~= w);
        assert(words(init) =~= Seq::empty());
        assert(words(w) =~= seq![seq![w.last()]]);
    }
}

/// Joining puts the separator between each two parts: two lists joined make the
/// joined first, the separator, and the joined second.
pub proof fn law_joining_separates(a: Seq<Seq<char>>, b: Seq<Seq<char>>, sep: Seq<char>)
    ensures
        joined(Seq::empty(), sep).len() == 0,
        a.len() == 1 ==> joined(a, sep) == a[0],
        a.len() > 0 && b.len() > 0 ==> joined(a + b, sep) == joined(a, sep) + sep + joined(
            b,
            sep,
        ),
    decreases b.len(),
{
    if a.len() > 0 && b.len() > 0 {
        let rest = b.drop_last();
        assert(a + b =~= (a + rest).push(b.last()));
        lemma_joined_push(a + rest, b.last(), sep);
        assert(rest.push(b.last()) =~= b);
        lemma_joined_push(rest, b.last(), sep);
        if rest.len() > 0 {
            law_joining_separates(a, rest, sep);
            assert(joined(a + b, sep) =~= joined(a, sep) + sep + joined(b, sep));
        } else {
            assert(a + rest =~= a);
        }
    }
}

/// White space in other places or of another kind makes no difference once it is
/// folded: one space stands for it between two texts that are not blank.
pub proof fn law_folding_leaves_one_space(a: Seq<char>, c: char, b: Seq<char>)
    requires
        white_space(c),
        words(a).len() > 0,
        words(b).len() > 0,
    ensures
        folded(a + seq![c] + b) == folded(a) + seq![' '] + folded(b),
{
    law_white_space_parts_the_words(a, c, b);
    law_joining_separates(words(a), words(b), seq![' ']);
}

// ---- Numbers ----

/// The decimal digits of a number read as that number; they begin with a zero only
/// for zero itself.
pub proof fn law_a_written_number_reads_back(n: nat)
    ensures
        decimal(n).len() > 0,
        digits_between(decimal(n), 0, decimal(n).len() as int),
        number_between(decimal(n), 0, decimal(n).len() as int) == n,
        decimal(n)[0] == '0' ==> n == 0 && decimal(n).len() == 1,
    decreases n,
{
    let d = decimal(n);
    let len = d.len() as int;
    if n < 10 {
        assert(d[0] == digit_char(n as int));
        assert(number_between(d, 0, 0) == 0);
        assert(number_between(d, 0, 1) == number_between(d, 0, 0) * 10 + (d[0] as int - 48));
    } else {
        let head = decimal(n / 10);
        law_a_written_number_reads_back(n / 10);
        assert(d[len - 1] == digit_char((n % 10) as int));
        assert forall|i: int| 0 <= i < len implies ascii_digit(#[trigger] d[i]) by {
            if i < len - 1 {
                assert(d[i] == head[i]);
            }
        }
        lemma_front_number(head, d, 0, len - 1);
        assert(d[0] == head[0]);
        assert(number_between(d, 0, len) == number_between(d, 0, len - 1) * 10 + (d[len - 1]
            as int - 48));
    }
}

proof fn lemma_front_number(a: Seq<char>, b: Seq<char>, from: int, to: int)
    requires
        forall|i: int| from <= i < to ==> a[i] == b[i],
    ensures
        number_between(a, from, to) == number_between(b, from, to),
    decreases to - from,
{
    if from < to {
        lemma_front_number(a, b, from, to - 1);
    }
}

/// A negative number is a minus sign and the digits of its size; any other is its
/// digits alone.
pub proof fn law_the_sign_stands_before_the_digits(n: int)
    ensures
        n >= 0 ==> signed_decimal(n) == decimal(n as nat) && signed_decimal(n)[0] != '-',
        n < 0 ==> signed_decimal(n)[0] == '-' && signed_decimal(n).skip(1) == decimal(
            (-n) as nat,
        ),
{
    if n < 0 {
        assert(signed_decimal(n).skip(1) =~= decimal((-n) as nat));
    } else {
        law_a_written_number_reads_back(n as nat);
        assert(ascii_digit(decimal(n as nat)[0]));
    }
}

/// The value of a lower-case hexadecimal digit.
pub open spec fn hex_value(c: char) -> int {
    if '0' <= c <= '9' {
        c as int - '0' as int
    } else {
        c as int - 'a' as int + 10
    }
}

/// The two digits of each byte read as that byte, and so different bytes are written
/// differently.
pub proof fn law_hexadecimal_digits_read_back(bytes: Seq<u8>, i: int)
    requires
        0 <= i < bytes.len(),
    ensures
        hex(bytes).len() == 2 * bytes.len(),
        16 * hex_value(hex(bytes)[2 * i]) + hex_value(hex(bytes)[2 * i + 1]) == bytes[i],
    decreases bytes.len(),
{
    lemma_hex_digits(bytes);
    let before = bytes.drop_last();
    lemma_hex_digits(before);
    if i < bytes.len() - 1 {
        law_hexadecimal_digits_read_back(before, i);
        assert(hex(bytes)[2 * i] == hex(before)[2 * i]);
        assert(hex(bytes)[2 * i + 1] == hex(before)[2 * i + 1]);
    } else {
        let b = bytes[i] as int;
        assert(hex(bytes)[2 * i] == hex_char(b / 16));
        assert(hex(bytes)[2 * i + 1] == hex_char(b % 16));
    }
}

/// Different bytes are written differently.
pub proof fn law_hexadecimal_tells_bytes_apart(a: Seq<u8>, b: Seq<u8>)
    ensures
        hex(a) == hex(b) ==> a == b,
{
    if hex(a) == hex(b) {
        lemma_hex_digits(a);
        lemma_hex_digits(b);
        assert(a.len() == b.len());
        assert forall|i: int| 0 <= i < a.len() implies a[i] == b[i] by {
            law_hexadecimal_digits_read_back(a, i);
            law_hexadecimal_digits_read_back(b, i);
        }
        assert(a =~= b);
    }
}

} // verus!
