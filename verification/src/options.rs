//! Optional values in sequences.

use vstd::prelude::*;

verus! {

/// The sequence with the value appended, if there is one.
pub open spec fn with_option<A>(s: Seq<A>, value: Option<A>) -> Seq<A> {
    match value {
        Some(v) => s.push(v),
        None => s,
    }
}

/// The values that are there, in order.
pub open spec fn present<A>(s: Seq<Option<A>>) -> Seq<A>
    decreases s.len(),
{
    if s.len() == 0 {
        Seq::empty()
    } else {
        with_option(Seq::empty(), s.first()) + present(s.drop_first())
    }
}

/// `present` keeps exactly the values that are there.
pub proof fn present_members<A>(s: Seq<Option<A>>, e: A)
    ensures
        present(s).contains(e) <==> s.contains(Some(e)),
    decreases s.len(),
{
    if s.len() > 0 {
        let head = with_option(Seq::<A>::empty(), s.first());
        let tail = present(s.drop_first());
        present_members(s.drop_first(), e);
        if present(s).contains(e) {
            let i = choose|i: int| 0 <= i < present(s).len() && present(s)[i] == e;
            if i < head.len() {
                assert(s[0] == Some(e));
            } else {
                assert(tail[i - head.len()] == e);
                let j = choose|j: int|
                    0 <= j < s.drop_first().len() && s.drop_first()[j] == Some(e);
                assert(s[j + 1] == Some(e));
            }
        }
        if s.contains(Some(e)) {
            let i = choose|i: int| 0 <= i < s.len() && s[i] == Some(e);
            if i == 0 {
                assert(present(s)[0] == e);
            } else {
                assert(s.drop_first()[i - 1] == Some(e));
                let j = choose|j: int| 0 <= j < tail.len() && tail[j] == e;
                assert(present(s)[head.len() + j] == e);
            }
        }
    }
}

/// What is there of two sequences together is what is there of the one, and then of the other.
pub proof fn present_in_both<A>(a: Seq<Option<A>>, b: Seq<Option<A>>)
    ensures
        present(a + b) == present(a) + present(b),
    decreases a.len(),
{
    if a.len() == 0 {
        assert(a + b =~= b);
        assert(present(a) + present(b) =~= present(b));
    } else {
        assert((a + b).drop_first() =~= a.drop_first() + b);
        present_in_both(a.drop_first(), b);
        let head = with_option(Seq::<A>::empty(), a.first());
        assert(head + (present(a.drop_first()) + present(b)) =~= head + present(a.drop_first())
            + present(b));
    }
}

/// Of a single value all is there, of a missing one nothing.
pub proof fn present_of_one<A>(value: A)
    ensures
        present(seq![Some(value)]) == seq![value],
        present(seq![None::<A>]) == Seq::<A>::empty(),
        present(Seq::<Option<A>>::empty()) == Seq::<A>::empty(),
{
    reveal_with_fuel(present, 2);
    assert(seq![Some(value)].drop_first() =~= Seq::<Option<A>>::empty());
    assert(seq![None::<A>].drop_first() =~= Seq::<Option<A>>::empty());
    assert(present(seq![Some(value)]) =~= seq![value]);
    assert(present(seq![None::<A>]) =~= Seq::<A>::empty());
}

/// As many values are there as are not missing, and each one comes after those that were there
/// before it.
pub proof fn present_in_order<A>(s: Seq<Option<A>>, i: int)
    requires
        0 <= i < s.len(),
        s[i] is Some,
    ensures
        present(s).len() == s.filter(|o: Option<A>| o is Some).len(),
        ({
            let k = s.take(i).filter(|o: Option<A>| o is Some).len() as int;
            0 <= k < present(s).len() && present(s)[k] == s[i]->0
        }),
{
    present_count(s);
    present_count(s.take(i));
    let rest = s.skip(i);
    assert(s =~= s.take(i) + rest);
    present_in_both(s.take(i), rest);
    assert(present(rest)[0] == s[i]->0);
}

/// As many values are there as are not missing.
pub proof fn present_count<A>(s: Seq<Option<A>>)
    ensures
        present(s).len() == s.filter(|o: Option<A>| o is Some).len(),
    decreases s.len(),
{
    reveal(Seq::filter);
    if s.len() > 0 {
        present_count(s.drop_last());
        assert(s =~= s.drop_last() + seq![s.last()]);
        present_in_both(s.drop_last(), seq![s.last()]);
        match s.last() {
            Some(v) => {
                present_of_one(v);
            },
            None => {
                assert(seq![s.last()].drop_first() =~= Seq::<Option<A>>::empty());
                reveal_with_fuel(present, 2);
            },
        }
    }
}

} // verus!
