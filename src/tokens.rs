use vstd::prelude::*;

verus! {

/// The tokens of `s`, read left to right: a space closes the current token
/// and opens a new, empty one; any other character extends the current one.
pub open spec fn split_on_space(s: Seq<char>) -> Seq<Seq<char>>
    decreases s.len(),
{
    if s.len() == 0 {
        seq![Seq::<char>::empty()]
    } else {
        let prev = split_on_space(s.drop_last());
        if s.last() == ' ' {
            prev.push(Seq::<char>::empty())
        } else {
            prev.update(prev.len() - 1, prev.last().push(s.last()))
        }
    }
}

/// `s` holds no space character.
pub open spec fn has_no_space(s: Seq<char>) -> bool {
    forall|i: int| 0 <= i < s.len() ==> s[i] != ' '
}

/// The views of a sequence of strings.
pub open spec fn texts_of(v: Seq<String>) -> Seq<Seq<char>> {
    v.map_values(|s: String| s@)
}

/// There is always at least one token.
pub proof fn lemma_split_nonempty(s: Seq<char>)
    ensures
        split_on_space(s).len() >= 1,
    decreases s.len(),
{
    if s.len() > 0 {
        lemma_split_nonempty(s.drop_last());
    }
}

/// A text without spaces is a single token: the text itself.
pub proof fn lemma_no_space_single_token(s: Seq<char>)
    requires
        has_no_space(s),
    ensures
        split_on_space(s) == seq![s],
    decreases s.len(),
{
    if s.len() > 0 {
        let p = s.drop_last();
        assert(has_no_space(p));
        lemma_no_space_single_token(p);
        assert(p.push(s.last()) =~= s);
        assert(seq![p].update(0, p.push(s.last())) =~= seq![s]);
    } else {
        assert(s =~= Seq::<char>::empty());
    }
}

/// Appending a space and then a word without spaces adds that word as one
/// more token.
pub proof fn lemma_split_append_word(s: Seq<char>, w: Seq<char>)
    requires
        has_no_space(w),
    ensures
        split_on_space(s + seq![' '] + w) == split_on_space(s).push(w),
    decreases w.len(),
{
    let t = s + seq![' '] + w;
    if w.len() == 0 {
        assert(t.drop_last() =~= s);
        assert(t.last() == ' ');
        assert(w =~= Seq::<char>::empty());
    } else {
        let p = w.drop_last();
        assert(has_no_space(p));
        lemma_split_append_word(s, p);
        assert(t.drop_last() =~= s + seq![' '] + p);
        assert(p.push(w.last()) =~= w);
        assert(t.last() == w.last());
        assert(w.last() != ' ');
        let prev = split_on_space(s).push(p);
        assert(prev.update(prev.len() - 1, p.push(w.last())) =~= split_on_space(s).push(w));
    }
}

} // verus!
