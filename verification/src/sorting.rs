//! Listing names in order.

use vstd::prelude::*;
use vstd::string::*;
use crate::text::{lex_less, same_text, text_precedes, texts_of};

verus! {

/// The order of a listing.
#[derive(Debug, Clone)]
pub enum NameOrder {
    /// By name, downwards.
    Downward,
    /// The given name first, the others by name, upwards.
    DefaultFirst(String),
}

/// The mathematical value of a [`NameOrder`].
pub ghost enum NameOrderView {
    Downward,
    DefaultFirst(Seq<char>),
}

impl View for NameOrder {
    type V = NameOrderView;

    open spec fn view(&self) -> NameOrderView {
        match self {
            NameOrder::Downward => NameOrderView::Downward,
            NameOrder::DefaultFirst(name) => NameOrderView::DefaultFirst(name@),
        }
    }
}

/// `a` is listed before `b`.
pub open spec fn before(a: Seq<char>, b: Seq<char>, order: NameOrderView) -> bool {
    match order {
        NameOrderView::Downward => lex_less(b, a),
        NameOrderView::DefaultFirst(first) => if a == first {
            b != first
        } else if b == first {
            false
        } else {
            lex_less(a, b)
        },
    }
}

/// No name is listed before one that stands earlier in `names`.
pub open spec fn in_order(names: Seq<Seq<char>>, order: NameOrderView) -> bool {
    forall|i: int, j: int| 0 <= i < j < names.len() ==> !before(names[j], names[i], order)
}

/// No text stands before itself.
pub proof fn lemma_lex_less_irreflexive(a: Seq<char>)
    ensures
        !lex_less(a, a),
    decreases a.len(),
{
    if a.len() > 0 {
        lemma_lex_less_irreflexive(a.drop_first());
    }
}

/// What stands before a text stands before all that the text stands before.
pub proof fn lemma_lex_less_transitive(a: Seq<char>, b: Seq<char>, c: Seq<char>)
    requires
        lex_less(a, b),
        lex_less(b, c),
    ensures
        lex_less(a, c),
    decreases a.len(),
{
    if a.len() > 0 && a[0] == b[0] && b[0] == c[0] {
        lemma_lex_less_transitive(a.drop_first(), b.drop_first(), c.drop_first());
    }
}

/// The order of a listing puts no name before itself, and is transitive.
pub proof fn lemma_before_is_strict(a: Seq<char>, b: Seq<char>, c: Seq<char>, order: NameOrderView)
    ensures
        !before(a, a, order),
        before(a, b, order) && before(b, c, order) ==> before(a, c, order),
{
    lemma_lex_less_irreflexive(a);
    if before(a, b, order) && before(b, c, order) {
        match order {
            NameOrderView::Downward => {
                lemma_lex_less_transitive(c, b, a);
            },
            NameOrderView::DefaultFirst(first) => {
                if a != first {
                    lemma_lex_less_transitive(a, b, c);
                }
            },
        }
    }
}

/// With a name put first, that name is listed before every other name, and
/// no other name before it.
pub proof fn lemma_first_name_is_first(other: Seq<char>, first: Seq<char>)
    requires
        other != first,
    ensures
        before(first, other, NameOrderView::DefaultFirst(first)),
        !before(other, first, NameOrderView::DefaultFirst(first)),
{
}

/// Decides whether `a` is listed before `b`.
pub fn precedes(a: &str, b: &str, order: &NameOrder) -> (r: bool)
    ensures
        r == before(a@, b@, order@),
{
    match order {
        NameOrder::Downward => text_precedes(b, a),
        NameOrder::DefaultFirst(first) => {
            if same_text(a, first.as_str()) {
                !same_text(b, first.as_str())
            } else if same_text(b, first.as_str()) {
                false
            } else {
                text_precedes(a, b)
            }
        },
    }
}

/// Lists `names` in the given order: the same names, each as often as it was
/// given, none before one that it should follow.
pub fn sort_names(names: &Vec<String>, order: &NameOrder) -> (r: Vec<String>)
    ensures
        in_order(texts_of(r@), order@),
        texts_of(r@).to_multiset() == texts_of(names@).to_multiset(),
{
    let ghost given = texts_of(names@);
    let mut out: Vec<String> = Vec::new();
    let mut i: usize = 0;
    assert(given.subrange(0, 0) =~= texts_of(out@));
    while i < names.len()
        invariant
            i <= names.len(),
            given == texts_of(names@),
            in_order(texts_of(out@), order@),
            texts_of(out@).to_multiset() == given.subrange(0, i as int).to_multiset(),
        decreases names.len() - i,
    {
        let name = names[i].clone();
        let ghost held = texts_of(out@);
        let mut at: usize = 0;
        while at < out.len() && !precedes(name.as_str(), out[at].as_str(), order)
            invariant
                at <= out.len(),
                held == texts_of(out@),
                forall|k: int| 0 <= k < at ==> !before(name@, held[k], order@),
            decreases out.len() - at,
        {
            at += 1;
        }
        out.insert(at, name);
        proof {
            let grown = texts_of(out@);
            assert(grown =~= held.insert(at as int, name@));
            assert forall|a: int, b: int| 0 <= a < b < grown.len() implies !before(
                grown[b],
                grown[a],
                order@,
            ) by {
                if b == at {
                    assert(grown[a] == held[a]);
                } else if a == at {
                    assert(grown[b] == held[b - 1]);
                    lemma_before_is_strict(held[b - 1], name@, held[at as int], order@);
                    lemma_before_is_strict(held[at as int], name@, held[at as int], order@);
                } else {
                    let x = if a < at {
                        a
                    } else {
                        a - 1
                    };
                    let y = if b < at {
                        b
                    } else {
                        b - 1
                    };
                    assert(grown[a] == held[x]);
                    assert(grown[b] == held[y]);
                }
            }
            let before_i = given.subrange(0, i as int);
            let through_i = given.subrange(0, i + 1);
            assert(through_i =~= before_i.push(name@));
            broadcast use vstd::seq_lib::group_to_multiset_ensures;
            assert(grown.remove(at as int) =~= held);
            assert(grown[at as int] == name@);
            assert(held.to_multiset() =~= grown.to_multiset().remove(name@));
            assert(grown.to_multiset().count(name@) > 0) by {
                assert(grown.contains(name@));
            }
            assert(grown.to_multiset() =~= held.to_multiset().insert(name@));
            assert(through_i.to_multiset() =~= before_i.to_multiset().insert(name@));
        }
        i += 1;
    }
    assert(given.subrange(0, names.len() as int) =~= given);
    out
}

} // verus!
