//! Text helpers: trimming, comparison and joining, over sequences of characters.

use vstd::prelude::*;

verus! {

/// The views of the elements of a sequence.
pub open spec fn views<T: View>(items: Seq<T>) -> Seq<T::V> {
    items.map_values(|item: T| item@)
}

/// The view of an optional value.
pub open spec fn opt_view<T: View>(value: Option<T>) -> Option<T::V> {
    match value {
        Some(inner) => Some(inner@),
        None => None,
    }
}

/// The characters with the Unicode property `White_Space`.
pub open spec fn white_space(c: char) -> bool {
    ||| '\u{9}' <= c <= '\u{d}'
    ||| c == '\u{20}'
    ||| c == '\u{85}'
    ||| c == '\u{a0}'
    ||| c == '\u{1680}'
    ||| '\u{2000}' <= c <= '\u{200a}'
    ||| c == '\u{2028}'
    ||| c == '\u{2029}'
    ||| c == '\u{202f}'
    ||| c == '\u{205f}'
    ||| c == '\u{3000}'
}

/// What is left of a text once the white space at both ends is gone.
pub open spec fn trimmed(s: Seq<char>) -> Seq<char>
    decreases s.len(),
{
    if s.len() == 0 {
        s
    } else if white_space(s.first()) {
        trimmed(s.drop_first())
    } else if white_space(s.last()) {
        trimmed(s.drop_last())
    } else {
        s
    }
}

/// A text is blank when it holds nothing but white space.
pub open spec fn blank(s: Seq<char>) -> bool {
    forall|i: int| 0 <= i < s.len() ==> white_space(#[trigger] s[i])
}

/// The texts in order, with `separator` between neighbours.
pub open spec fn joined(texts: Seq<Seq<char>>, separator: Seq<char>) -> Seq<char>
    decreases texts.len(),
{
    if texts.len() == 0 {
        Seq::empty()
    } else if texts.len() == 1 {
        texts[0]
    } else {
        joined(texts.drop_last(), separator) + separator + texts.last()
    }
}

/// `str::trim` of std: the slice without leading and trailing characters of the
/// Unicode property `White_Space`.
pub assume_specification[ str::trim ](s: &str) -> (r: &str)
    ensures
        r@ == trimmed(s@),
;

/// Whether two texts hold the same characters.
pub(crate) fn same_text(a: &str, b: &str) -> (same: bool)
    ensures
        same == (a@ == b@),
{
    a.to_string() == b.to_string()
}

/// Appending to a sequence appends to its views.
pub proof fn lemma_views_push<T: View>(items: Seq<T>, item: T)
    ensures
        views(items.push(item)) == views(items).push(item@),
{
    assert(views(items.push(item)) =~= views(items).push(item@));
}

/// Trimming leaves nothing exactly when the text is blank.
pub proof fn lemma_trimmed_blank(s: Seq<char>)
    ensures
        trimmed(s).len() == 0 <==> blank(s),
    decreases s.len(),
{
    if s.len() > 0 {
        if white_space(s.first()) {
            lemma_trimmed_blank(s.drop_first());
            assert(blank(s.drop_first()) ==> blank(s)) by {
                if blank(s.drop_first()) {
                    assert forall|i: int| 0 <= i < s.len() implies white_space(
                        #[trigger] s[i],
                    ) by {
                        if i > 0 {
                            assert(s.drop_first()[i - 1] == s[i]);
                        }
                    }
                }
            }
        } else if white_space(s.last()) {
            lemma_trimmed_blank(s.drop_last());
            assert(!blank(s)) by {
                assert(!white_space(s[0]));
            }
            assert(!blank(s.drop_last())) by {
                assert(s.drop_last()[0] == s[0]);
            }
        } else {
            assert(!white_space(s[0]));
        }
    }
}

/// Trimming a trimmed text changes nothing.
pub proof fn law_trim_idempotent(s: Seq<char>)
    ensures
        trimmed(trimmed(s)) == trimmed(s),
    decreases s.len(),
{
    if s.len() > 0 {
        if white_space(s.first()) {
            law_trim_idempotent(s.drop_first());
        } else if white_space(s.last()) {
            law_trim_idempotent(s.drop_last());
        }
    }
}

/// Whether the text is blank.
pub fn is_blank(s: &str) -> (r: bool)
    ensures
        r == blank(s@),
{
    let r = s.trim().is_empty();
    proof {
        lemma_trimmed_blank(s@);
    }
    r
}

/// What trimming leaves is a stretch of the text: all before it and all after it is
/// white space, and it has none at its own ends.
pub proof fn law_trimmed_is_the_core(s: Seq<char>) -> (ends: (int, int))
    ensures
        0 <= ends.0 <= ends.1 <= s.len(),
        trimmed(s) == s.subrange(ends.0, ends.1),
        forall|i: int| 0 <= i < ends.0 ==> white_space(#[trigger] s[i]),
        forall|i: int| ends.1 <= i < s.len() ==> white_space(#[trigger] s[i]),
        ends.0 < ends.1 ==> !white_space(s[ends.0]) && !white_space(s[ends.1 - 1]),
    decreases s.len(),
{
    if s.len() == 0 {
        assert(trimmed(s) =~= s.subrange(0, 0));
        (0, 0)
    } else if white_space(s.first()) {
        let inner = s.drop_first();
        let (from, to) = law_trimmed_is_the_core(inner);
        assert(trimmed(s) =~= s.subrange(from + 1, to + 1));
        assert forall|i: int| 0 <= i < from + 1 implies white_space(#[trigger] s[i]) by {
            if i > 0 {
                assert(inner[i - 1] == s[i]);
            }
        }
        assert forall|i: int| to + 1 <= i < s.len() implies white_space(#[trigger] s[i]) by {
            assert(inner[i - 1] == s[i]);
        }
        (from + 1, to + 1)
    } else if white_space(s.last()) {
        let inner = s.drop_last();
        let (from, to) = law_trimmed_is_the_core(inner);
        assert(trimmed(s) =~= s.subrange(from, to));
        assert forall|i: int| 0 <= i < from implies white_space(#[trigger] s[i]) by {
            assert(inner[i] == s[i]);
        }
        assert forall|i: int| to <= i < s.len() implies white_space(#[trigger] s[i]) by {
            if i < s.len() - 1 {
                assert(inner[i] == s[i]);
            }
        }
        (from, to)
    } else {
        assert(trimmed(s) =~= s.subrange(0, s.len() as int));
        (0, s.len() as int)
    }
}

/// A text is blank exactly when it has no character that is not white space.
pub proof fn law_blank(s: Seq<char>)
    ensures
        blank(s) <==> !(exists|i: int| 0 <= i < s.len() && !white_space(#[trigger] s[i])),
{
}

/// Joining: nothing gives nothing, one text gives itself, and two rows of texts give
/// what each gives with the separator between.
pub proof fn law_joined(
    first: Seq<Seq<char>>,
    second: Seq<Seq<char>>,
    text: Seq<char>,
    separator: Seq<char>,
)
    ensures
        joined(Seq::empty(), separator).len() == 0,
        joined(seq![text], separator) == text,
        first.len() > 0 && second.len() > 0 ==> joined(first + second, separator) == joined(
            first,
            separator,
        ) + separator + joined(second, separator),
    decreases second.len(),
{
    if first.len() > 0 && second.len() == 1 {
        assert((first + second).drop_last() =~= first);
        assert((first + second).last() == second[0]);
    } else if first.len() > 0 && second.len() > 1 {
        law_joined(first, second.drop_last(), text, separator);
        assert((first + second).drop_last() =~= first + second.drop_last());
        assert((first + second).last() == second.last());
        assert(joined(first + second, separator) =~= joined(first, separator) + separator + joined(
            second,
            separator,
        ));
    }
}

/// The views of a sequence are as many as its elements, each the view of its own; and
/// an optional value has a view exactly where it is there.
pub proof fn law_views<T: View>(items: Seq<T>, value: Option<T>)
    ensures
        views(items).len() == items.len(),
        forall|i: int| 0 <= i < items.len() ==> #[trigger] views(items)[i] == items[i]@,
        value is Some ==> opt_view(value) == Some(value->0@),
        value is None ==> opt_view(value) is None,
{
}

} // verus!
