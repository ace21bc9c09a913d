//! Text on its way into a text column.
//!
//! A text column does not accept the character NUL: the insert fails, and the
//! whole document or episode is lost for a few bytes of it.

use std::borrow::Cow;
use vstd::prelude::*;

use crate::strings::chars_of;

verus! {

pub open spec fn not_nul() -> spec_fn(char) -> bool {
    |c: char| c != '\0'
}

/// The text without the characters that a text column refuses.
pub open spec fn storable(s: Seq<char>) -> Seq<char> {
    s.filter(not_nul())
}

/// Strips NUL from a text. The text is borrowed where there is nothing to
/// remove.
pub fn without_nul<'a>(text: &'a str) -> (r: Cow<'a, str>)
    ensures
        r@ == storable(text@),
        r is Borrowed <==> !text@.contains('\0'),
{
    let chars: Vec<char> = chars_of(text);
    let n: usize = chars.len();
    let mut kept: String = String::new();
    let mut found: bool = false;
    proof {
        reveal(Seq::filter);
        assert(text@.take(0).filter(not_nul()) =~= Seq::empty());
    }
    for i in 0..n
        invariant
            n == chars@.len(),
            chars@ == text@,
            kept@ == text@.take(i as int).filter(not_nul()),
            found == text@.take(i as int).contains('\0'),
            !found ==> kept@ == text@.take(i as int),
    {
        let ghost was = text@.take(i as int);
        let ghost now = text@.take(i + 1);
        proof {
            reveal(Seq::filter);
            assert(now =~= was.push(text@[i as int]));
            assert(now.drop_last() =~= was);
            if was.contains('\0') {
                let k = was.index_of('\0');
                assert(now[k] == '\0');
            }
            if now.contains('\0') {
                let k = now.index_of('\0');
                if k < i {
                    assert(was[k] == '\0');
                }
            }
        }
        if chars[i] == '\0' {
            found = true;
            assert(now[i as int] == '\0');
        } else {
            kept.push(chars[i]);
        }
    }
    assert(text@.take(n as int) =~= text@);
    if found {
        Cow::Owned(kept)
    } else {
        Cow::Borrowed(text)
    }
}

/// What is stored holds no NUL, and storing it again changes nothing.
pub proof fn law_storable_text_is_stored_as_it_is(s: Seq<char>)
    ensures
        !storable(s).contains('\0'),
        storable(storable(s)) == storable(s),
    decreases s.len(),
{
    reveal(Seq::filter);
    if s.len() > 0 {
        law_storable_text_is_stored_as_it_is(s.drop_last());
        let kept = storable(s.drop_last());
        if s.last() != '\0' {
            let grown = kept.push(s.last());
            assert(grown.drop_last() =~= kept);
            if grown.contains('\0') {
                let k = grown.index_of('\0');
                assert(kept[k] == '\0');
            }
        }
    }
}

/// Every other character is stored, once and in order: the parts of a text are
/// stored one after the other, and a text without NUL as it is.
pub proof fn law_all_but_nul_is_stored(a: Seq<char>, b: Seq<char>, c: char)
    ensures
        storable(a + b) == storable(a) + storable(b),
        storable(seq![c]) == if c == '\0' {
            Seq::empty()
        } else {
            seq![c]
        },
        (forall|i: int| 0 <= i < a.len() ==> #[trigger] a[i] != '\0') ==> storable(a) == a,
        storable(Seq::empty()).len() == 0,
    decreases a.len() + b.len(),
{
    reveal(Seq::filter);
    let one = seq![c];
    assert(one.drop_last() =~= Seq::empty());
    assert(Seq::<char>::empty().filter(not_nul()) =~= Seq::empty());
    assert(storable(one) =~= if c == '\0' {
        Seq::empty()
    } else {
        seq![c]
    });
    if b.len() > 0 {
        law_all_but_nul_is_stored(a, b.drop_last(), c);
        assert((a + b).drop_last() =~= a + b.drop_last());
        assert((a + b).last() == b.last());
        assert(storable(a + b) =~= storable(a) + storable(b));
    } else {
        assert(a + b =~= a);
        assert(storable(a + b) =~= storable(a) + storable(b));
    }
    if a.len() > 0 && forall|i: int| 0 <= i < a.len() ==> #[trigger] a[i] != '\0' {
        let init = a.drop_last();
        assert forall|i: int| 0 <= i < init.len() implies #[trigger] init[i] != '\0' by {
            assert(init[i] == a[i]);
        }
        law_all_but_nul_is_stored(init, Seq::empty(), c);
        assert(a[a.len() - 1] != '\0');
        assert(init.push(a.last()) =~= a);
    }
}

} // verus!
