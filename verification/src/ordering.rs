//! The order of texts, character by character, and sorting by it.

use vstd::prelude::*;
use crate::text;

verus! {

/// Whether `a` comes before `b`, or is `b`: the first character in which they differ decides,
/// and a text comes before its continuations.
pub open spec fn text_le(a: Seq<char>, b: Seq<char>) -> bool
    decreases a.len(),
{
    if a.len() == 0 {
        true
    } else if b.len() == 0 {
        false
    } else if a[0] == b[0] {
        text_le(a.drop_first(), b.drop_first())
    } else {
        a[0] < b[0]
    }
}

/// The order of texts.
pub open spec fn text_order() -> spec_fn(Seq<char>, Seq<char>) -> bool {
    |a: Seq<char>, b: Seq<char>| text_le(a, b)
}

/// The strings, each by its characters.
pub open spec fn texts_of(s: Seq<String>) -> Seq<Seq<char>> {
    Seq::new(s.len(), |i: int| s[i]@)
}

proof fn lemma_le_reflexive(a: Seq<char>)
    ensures
        text_le(a, a),
    decreases a.len(),
{
    if a.len() > 0 {
        lemma_le_reflexive(a.drop_first());
    }
}

proof fn lemma_le_antisymmetric(a: Seq<char>, b: Seq<char>)
    requires
        text_le(a, b),
        text_le(b, a),
    ensures
        a == b,
    decreases a.len(),
{
    if a.len() > 0 && b.len() > 0 {
        lemma_le_antisymmetric(a.drop_first(), b.drop_first());
        assert(a == seq![a[0]] + a.drop_first());
        assert(b == seq![b[0]] + b.drop_first());
    } else {
        assert(a == b);
    }
}

proof fn lemma_le_transitive(a: Seq<char>, b: Seq<char>, c: Seq<char>)
    requires
        text_le(a, b),
        text_le(b, c),
    ensures
        text_le(a, c),
    decreases a.len(),
{
    if a.len() > 0 && b.len() > 0 && c.len() > 0 && a[0] == b[0] && b[0] == c[0] {
        lemma_le_transitive(a.drop_first(), b.drop_first(), c.drop_first());
    }
}

proof fn lemma_le_total(a: Seq<char>, b: Seq<char>)
    ensures
        text_le(a, b) || text_le(b, a),
    decreases a.len(),
{
    if a.len() > 0 && b.len() > 0 && a[0] == b[0] {
        lemma_le_total(a.drop_first(), b.drop_first());
    }
}

/// The order of texts is total.
pub proof fn law_text_order_is_total()
    ensures
        vstd::relations::total_ordering(text_order()),
{
    let le = text_order();
    assert forall|a: Seq<char>| #[trigger] le(a, a) by {
        lemma_le_reflexive(a);
    }
    assert forall|a: Seq<char>, b: Seq<char>| #[trigger] le(a, b) && #[trigger] le(b, a) implies a
        == b by {
        lemma_le_antisymmetric(a, b);
    }
    assert forall|a: Seq<char>, b: Seq<char>, c: Seq<char>| #[trigger]
        le(a, b) && #[trigger] le(b, c) implies le(a, c) by {
        lemma_le_transitive(a, b, c);
    }
    assert forall|a: Seq<char>, b: Seq<char>| #[trigger] le(a, b) || #[trigger] le(b, a) by {
        lemma_le_total(a, b);
    }
}

/// Whether `a` comes before `b`, or is `b`.
fn comes_before(a: &str, b: &str) -> (r: bool)
    ensures
        r == text_le(a@, b@),
{
    let left: Vec<char> = text::chars_of(a);
    let right: Vec<char> = text::chars_of(b);
    let mut i: usize = 0;
    assert(a@.skip(0) == a@ && b@.skip(0) == b@);
    while i < left.len() && i < right.len()
        invariant
            i <= left.len(),
            i <= right.len(),
            left@ == a@,
            right@ == b@,
            text_le(a@, b@) == text_le(a@.skip(i as int), b@.skip(i as int)),
        decreases left.len() - i,
    {
        if left[i] != right[i] {
            return left[i] < right[i];
        }
        assert(a@.skip(i as int).drop_first() == a@.skip(i + 1));
        assert(b@.skip(i as int).drop_first() == b@.skip(i + 1));
        i = i + 1;
    }
    i == left.len()
}

/// Inserting an element adds it to the elements there are.
proof fn lemma_insert_multiset(s: Seq<Seq<char>>, at: int, x: Seq<char>)
    requires
        0 <= at <= s.len(),
    ensures
        s.insert(at, x).to_multiset() == s.to_multiset().insert(x),
{
    let t = s.insert(at, x);
    t.to_multiset_ensures();
    assert(t.remove(at) == s);
    assert(t[at] == x);
    assert(t.contains(x));
    assert(s.to_multiset().insert(x) =~= t.to_multiset());
}

/// The strings in ascending order.
pub fn sort_texts(texts: &Vec<String>) -> (r: Vec<String>)
    ensures
        texts_of(r@) == texts_of(texts@).sort_by(text_order()),
{
    let mut sorted: Vec<String> = Vec::new();
    let ghost all = texts_of(texts@);
    let mut i: usize = 0;
    assert(texts_of(sorted@) == all.take(0));
    while i < texts.len()
        invariant
            i <= texts.len(),
            all == texts_of(texts@),
            vstd::relations::sorted_by(texts_of(sorted@), text_order()),
            texts_of(sorted@).to_multiset() == all.take(i as int).to_multiset(),
        decreases texts.len() - i,
    {
        let ghost before = texts_of(sorted@);
        let mut at: usize = sorted.len();
        while at > 0 && !comes_before(sorted[at - 1].as_str(), texts[i].as_str())
            invariant
                i < texts.len(),
                at <= sorted.len(),
                before == texts_of(sorted@),
                vstd::relations::sorted_by(before, text_order()),
                forall|j: int|
                    at <= j < sorted.len() ==> text_le(texts@[i as int]@, #[trigger] before[j]),
            decreases at,
        {
            proof {
                lemma_le_total(before[at - 1], texts@[i as int]@);
            }
            at = at - 1;
        }
        let ghost key = texts@[i as int]@;
        sorted.insert(at, texts[i].clone());
        i = i + 1;
        proof {
            let after = texts_of(sorted@);
            assert(after =~= before.insert(at as int, key));
            let le = text_order();
            assert forall|j: int, k: int| 0 <= j < k < after.len() implies #[trigger] le(
                after[j],
                after[k],
            ) by {
                let x = if j < at {
                    j
                } else {
                    j - 1
                };
                let y = if k < at {
                    k
                } else {
                    k - 1
                };
                if j != at && k != at {
                    assert(le(before[x], before[y]));
                } else if k == at {
                    assert(text_le(before[at - 1], key));
                    if j < at - 1 {
                        assert(le(before[j], before[at - 1]));
                        lemma_le_transitive(before[j], before[at - 1], key);
                    }
                }
            }
            lemma_insert_multiset(before, at as int, key);
            assert(all.take(i as int) == all.take(i - 1).push(key));
            all.take(i - 1).to_multiset_ensures();
        }
    }
    proof {
        assert(all.take(i as int) == all);
        law_text_order_is_total();
        all.lemma_sort_by_ensures(text_order());
        vstd::seq_lib::lemma_sorted_unique(
            texts_of(sorted@),
            all.sort_by(text_order()),
            text_order(),
        );
    }
    sorted
}

/// The first character in which two texts differ decides which comes first, by its place in
/// Unicode.
pub proof fn law_first_difference_decides(
    common: Seq<char>,
    c: char,
    d: char,
    x: Seq<char>,
    y: Seq<char>,
)
    requires
        c != d,
    ensures
        text_le(common + seq![c] + x, common + seq![d] + y) <==> c < d,
        (text_order())(common + seq![c] + x, common + seq![d] + y) <==> c < d,
    decreases common.len(),
{
    let a = common + seq![c] + x;
    let b = common + seq![d] + y;
    if common.len() > 0 {
        assert(a.drop_first() == common.drop_first() + seq![c] + x);
        assert(b.drop_first() == common.drop_first() + seq![d] + y);
        law_first_difference_decides(common.drop_first(), c, d, x, y);
    } else {
        assert(a[0] == c && b[0] == d);
    }
}

/// A text comes before its continuations, and a continuation does not come before the text.
pub proof fn law_texts_come_before_their_continuations(a: Seq<char>, more: Seq<char>)
    ensures
        text_le(a, a + more),
        (text_order())(a, a + more),
        more.len() > 0 ==> !text_le(a + more, a),
    decreases a.len(),
{
    if a.len() > 0 {
        assert((a + more).drop_first() == a.drop_first() + more);
        law_texts_come_before_their_continuations(a.drop_first(), more);
    }
}

/// The view of the strings leaves nothing out.
pub proof fn law_view_shows_every_text(texts: Seq<String>, i: int)
    requires
        0 <= i < texts.len(),
    ensures
        texts_of(texts).len() == texts.len(),
        texts_of(texts)[i] == texts[i]@,
{
}

} // verus!
