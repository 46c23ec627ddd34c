use vstd::prelude::*;

verus! {

/// `i` is the first position of `s` whose item satisfies `p`.
pub open spec fn is_first_index<T>(s: Seq<T>, p: spec_fn(T) -> bool, i: int) -> bool {
    &&& 0 <= i < s.len()
    &&& p(s[i])
    &&& forall|j: int| 0 <= j < i ==> !p(#[trigger] s[j])
}

/// The first position of `s` whose item satisfies `p`, if any.
pub open spec fn first_index<T>(s: Seq<T>, p: spec_fn(T) -> bool) -> Option<int> {
    if exists|i: int| #[trigger] is_first_index(s, p, i) {
        Some(choose|i: int| #[trigger] is_first_index(s, p, i))
    } else {
        None
    }
}

pub proof fn lemma_first_index_is<T>(s: Seq<T>, p: spec_fn(T) -> bool, i: int)
    requires
        is_first_index(s, p, i),
    ensures
        first_index(s, p) == Some(i),
{
    let k = choose|k: int| #[trigger] is_first_index(s, p, k);
    if k < i {
        assert(!p(s[k]));
    } else if i < k {
        assert(!p(s[i]));
    }
}

pub proof fn lemma_first_index_none<T>(s: Seq<T>, p: spec_fn(T) -> bool)
    requires
        forall|j: int| 0 <= j < s.len() ==> !p(#[trigger] s[j]),
    ensures
        first_index(s, p) == None::<int>,
{
    if exists|i: int| #[trigger] is_first_index(s, p, i) {
        let i = choose|i: int| #[trigger] is_first_index(s, p, i);
        assert(!p(s[i]));
    }
}

/// When some item satisfies `p`, a first one does.
pub proof fn lemma_first_index_exists<T>(s: Seq<T>, p: spec_fn(T) -> bool, i: int)
    requires
        0 <= i < s.len(),
        p(s[i]),
    ensures
        first_index(s, p) is Some,
    decreases i,
{
    if forall|j: int| 0 <= j < i ==> !p(#[trigger] s[j]) {
        lemma_first_index_is(s, p, i);
    } else {
        let j = choose|j: int| 0 <= j < i && p(#[trigger] s[j]);
        lemma_first_index_exists(s, p, j);
    }
}

pub proof fn lemma_first_index_sound<T>(s: Seq<T>, p: spec_fn(T) -> bool)
    ensures
        first_index(s, p) matches Some(i) ==> is_first_index(s, p, i),
{
}


/// `i` is the last position of `s` whose item satisfies `p`.
pub open spec fn is_last_index<T>(s: Seq<T>, p: spec_fn(T) -> bool, i: int) -> bool {
    &&& 0 <= i < s.len()
    &&& p(s[i])
    &&& forall|j: int| i < j < s.len() ==> !p(#[trigger] s[j])
}

/// The last position of `s` whose item satisfies `p`, if any.
pub open spec fn last_index<T>(s: Seq<T>, p: spec_fn(T) -> bool) -> Option<int> {
    if exists|i: int| #[trigger] is_last_index(s, p, i) {
        Some(choose|i: int| #[trigger] is_last_index(s, p, i))
    } else {
        None
    }
}

pub proof fn lemma_last_index_is<T>(s: Seq<T>, p: spec_fn(T) -> bool, i: int)
    requires
        is_last_index(s, p, i),
    ensures
        last_index(s, p) == Some(i),
{
    let k = choose|k: int| #[trigger] is_last_index(s, p, k);
    if k < i {
        assert(!p(s[i]));
    } else if i < k {
        assert(!p(s[k]));
    }
}

pub proof fn lemma_last_index_none<T>(s: Seq<T>, p: spec_fn(T) -> bool)
    requires
        forall|j: int| 0 <= j < s.len() ==> !p(#[trigger] s[j]),
    ensures
        last_index(s, p) == None::<int>,
{
    if exists|i: int| #[trigger] is_last_index(s, p, i) {
        let i = choose|i: int| #[trigger] is_last_index(s, p, i);
        assert(!p(s[i]));
    }
}

} // verus!
