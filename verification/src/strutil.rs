use vstd::prelude::*;
use vstd::string::*;

verus! {

/// True when the character `c` occurs somewhere in `s`.
pub open spec fn has_char(s: Seq<char>, c: char) -> bool {
    exists|i: int| 0 <= i < s.len() && s[i] == c
}

/// The suffix of `s` strictly after the last occurrence of `c`,
/// or the whole of `s` when `c` does not occur.
pub open spec fn after_last(s: Seq<char>, c: char) -> Seq<char>
    decreases s.len(),
{
    if s.len() == 0 {
        s
    } else if s.last() == c {
        Seq::empty()
    } else {
        after_last(s.drop_last(), c).push(s.last())
    }
}

/// The prefix of `s` strictly before the last occurrence of `c`,
/// or empty when `c` does not occur.
pub open spec fn before_last(s: Seq<char>, c: char) -> Seq<char>
    decreases s.len(),
{
    if s.len() == 0 {
        s
    } else if s.last() == c {
        s.drop_last()
    } else {
        before_last(s.drop_last(), c)
    }
}

/// The suffix of `s` strictly after the first occurrence of `c`,
/// or empty when `c` does not occur.
pub open spec fn after_first(s: Seq<char>, c: char) -> Seq<char>
    decreases s.len(),
{
    if s.len() == 0 {
        s
    } else if s[0] == c {
        s.drop_first()
    } else {
        after_first(s.drop_first(), c)
    }
}

pub proof fn lemma_after_last_at(s: Seq<char>, c: char, i: int)
    requires
        0 <= i < s.len(),
        s[i] == c,
        forall|j: int| i < j < s.len() ==> s[j] != c,
    ensures
        after_last(s, c) =~= s.subrange(i + 1, s.len() as int),
    decreases s.len(),
{
    if i == s.len() - 1 {
        assert(s.last() == c);
    } else {
        assert(s.last() != c);
        assert(forall|j: int| i < j < s.drop_last().len() ==> s.drop_last()[j] != c);
        lemma_after_last_at(s.drop_last(), c, i);
    }
}

pub proof fn lemma_after_last_absent(s: Seq<char>, c: char)
    requires
        !has_char(s, c),
    ensures
        after_last(s, c) =~= s,
    decreases s.len(),
{
    if s.len() > 0 {
        assert(s[s.len() - 1] != c);
        assert(!has_char(s.drop_last(), c)) by {
            if has_char(s.drop_last(), c) {
                let i = choose|i: int| 0 <= i < s.drop_last().len() && s.drop_last()[i] == c;
                assert(s[i] == c);
            }
        }
        lemma_after_last_absent(s.drop_last(), c);
    }
}

pub proof fn lemma_before_last_at(s: Seq<char>, c: char, i: int)
    requires
        0 <= i < s.len(),
        s[i] == c,
        forall|j: int| i < j < s.len() ==> s[j] != c,
    ensures
        before_last(s, c) =~= s.subrange(0, i),
    decreases s.len(),
{
    if i == s.len() - 1 {
        assert(s.last() == c);
    } else {
        assert(s.last() != c);
        assert(forall|j: int| i < j < s.drop_last().len() ==> s.drop_last()[j] != c);
        lemma_before_last_at(s.drop_last(), c, i);
    }
}

/// Stripping through the first occurrence of `c` drops at least that
/// occurrence: the suffix is strictly shorter.
pub proof fn lemma_after_first_shorter(s: Seq<char>, c: char)
    requires
        has_char(s, c),
    ensures
        after_first(s, c).len() < s.len(),
    decreases s.len(),
{
    if s[0] != c {
        assert(has_char(s.drop_first(), c)) by {
            let i = choose|i: int| 0 <= i < s.len() && s[i] == c;
            assert(s.drop_first()[i - 1] == c);
        }
        lemma_after_first_shorter(s.drop_first(), c);
    }
}

pub proof fn lemma_after_first_at(s: Seq<char>, c: char, i: int)
    requires
        0 <= i < s.len(),
        s[i] == c,
        forall|j: int| 0 <= j < i ==> s[j] != c,
    ensures
        after_first(s, c) =~= s.subrange(i + 1, s.len() as int),
    decreases s.len(),
{
    if i == 0 {
        assert(s[0] == c);
    } else {
        assert(s[0] != c);
        assert(forall|j: int| 0 <= j < i - 1 ==> s.drop_first()[j] != c);
        assert(s.drop_first()[i - 1] == c);
        lemma_after_first_at(s.drop_first(), c, i - 1);
    }
}

/// `s` split on single ASCII spaces: the maximal (possibly empty)
/// space-free substrings of `s`, in order. A string of `n` space-separated
/// tokens splits into exactly those `n` tokens.
pub open spec fn spec_split_spaces(s: Seq<char>) -> Seq<Seq<char>>
    decreases s.len(),
{
    if s.len() == 0 {
        seq![Seq::<char>::empty()]
    } else if s[0] == ' ' {
        seq![Seq::<char>::empty()] + spec_split_spaces(s.drop_first())
    } else {
        let rest = spec_split_spaces(s.drop_first());
        seq![seq![s[0]] + rest[0]] + rest.drop_first()
    }
}

/// `parts` with `t` prepended onto its first element.
pub open spec fn prepend_to_first(t: Seq<char>, parts: Seq<Seq<char>>) -> Seq<Seq<char>>
    recommends
        parts.len() >= 1,
{
    seq![t + parts[0]] + parts.drop_first()
}

pub proof fn lemma_split_spaces_len(s: Seq<char>)
    ensures
        spec_split_spaces(s).len() >= 1,
    decreases s.len(),
{
    if s.len() > 0 {
        lemma_split_spaces_len(s.drop_first());
    }
}

/// Splitting `t + rest` for a space-free `t` splits `rest` and prepends `t`
/// onto the first resulting token.
pub proof fn lemma_split_prepend(t: Seq<char>, rest: Seq<char>)
    requires
        !has_char(t, ' '),
    ensures
        spec_split_spaces(t + rest) =~~= prepend_to_first(t, spec_split_spaces(rest)),
    decreases t.len(),
{
    lemma_split_spaces_len(rest);
    if t.len() == 0 {
        assert(t + rest =~= rest);
        assert(prepend_to_first(t, spec_split_spaces(rest)) =~~= spec_split_spaces(rest));
    } else {
        let s = t + rest;
        assert(s[0] == t[0]);
        assert(s[0] != ' ');
        assert(s.drop_first() =~= t.drop_first() + rest);
        assert(!has_char(t.drop_first(), ' ')) by {
            if has_char(t.drop_first(), ' ') {
                let i = choose|i: int|
                    0 <= i < t.drop_first().len() && t.drop_first()[i] == ' ';
                assert(t[i + 1] == ' ');
            }
        }
        lemma_split_prepend(t.drop_first(), rest);
        let inner = spec_split_spaces(rest);
        let sub = spec_split_spaces(t.drop_first() + rest);
        assert(sub =~~= prepend_to_first(t.drop_first(), inner));
        assert(sub.len() >= 1);
        assert(spec_split_spaces(s) =~~= seq![seq![s[0]] + sub[0]] + sub.drop_first());
        assert(seq![s[0]] + (t.drop_first() + inner[0]) =~= t + inner[0]);
        assert(spec_split_spaces(s) =~~= prepend_to_first(t, inner));
    }
}

/// `tokens` joined with one ASCII space between consecutive tokens.
pub open spec fn spec_join_spaces(tokens: Seq<Seq<char>>) -> Seq<char>
    decreases tokens.len(),
{
    if tokens.len() == 0 {
        Seq::empty()
    } else if tokens.len() == 1 {
        tokens[0]
    } else {
        tokens[0] + seq![' '] + spec_join_spaces(tokens.drop_first())
    }
}

/// Splitting a space-joined list of space-free tokens recovers exactly the
/// tokens, in their original order.
pub proof fn lemma_split_of_joined(tokens: Seq<Seq<char>>)
    requires
        tokens.len() >= 1,
        forall|k: int| 0 <= k < tokens.len() ==> !has_char(tokens[k], ' '),
    ensures
        spec_split_spaces(spec_join_spaces(tokens)) =~~= tokens,
    decreases tokens.len(),
{
    if tokens.len() == 1 {
        let t = tokens[0];
        assert(t + Seq::<char>::empty() =~= t);
        lemma_split_prepend(t, Seq::<char>::empty());
        assert(spec_split_spaces(Seq::<char>::empty()) =~~= seq![Seq::<char>::empty()]);
        assert(t + Seq::<char>::empty() =~= t);
        assert(spec_split_spaces(t) =~~= seq![t]);
        assert(spec_join_spaces(tokens) == t);
        assert(tokens =~~= seq![t]);
    } else {
        let t = tokens[0];
        let rest = tokens.drop_first();
        let tail = seq![' '] + spec_join_spaces(rest);
        assert(spec_join_spaces(tokens) =~= t + tail);
        lemma_split_prepend(t, tail);
        assert(tail[0] == ' ');
        assert(tail.drop_first() =~= spec_join_spaces(rest));
        assert(spec_split_spaces(tail) =~~= seq![Seq::<char>::empty()] + spec_split_spaces(
            spec_join_spaces(rest),
        ));
        assert(forall|k: int| 0 <= k < rest.len() ==> !has_char(rest[k], ' ')) by {
            assert(forall|k: int| 0 <= k < rest.len() ==> rest[k] == tokens[k + 1]);
        }
        lemma_split_of_joined(rest);
        let parts = seq![Seq::<char>::empty()] + rest;
        assert(spec_split_spaces(tail) =~~= parts);
        assert(t + parts[0] =~= t);
        assert(parts.drop_first() =~~= rest);
        assert(prepend_to_first(t, parts) =~~= seq![t] + rest);
        assert(seq![t] + rest =~~= tokens);
        assert(spec_split_spaces(spec_join_spaces(tokens)) =~~= prepend_to_first(t, spec_split_spaces(tail)));
    }
}

/// Splits `s` on single ASCII spaces.
pub fn split_spaces(s: &str) -> (r: Vec<String>)
    ensures
        r.deep_view() == spec_split_spaces(s@),
{
    let n = s.unicode_len();
    let mut finished: Vec<String> = Vec::new();
    let mut cur: String = String::new();
    let mut i: usize = 0;
    proof {
        lemma_split_spaces_len(s@);
        let parts = spec_split_spaces(s@);
        assert(s@.skip(0) =~= s@);
        assert(Seq::<char>::empty() + parts[0] =~= parts[0]);
        assert(prepend_to_first(Seq::<char>::empty(), parts) =~~= parts);
        assert(finished.deep_view() =~~= Seq::<Seq<char>>::empty());
        assert(finished.deep_view() + prepend_to_first(cur@, parts) =~~= parts);
    }
    while i < n
        invariant
            i <= n,
            n == s@.len(),
            spec_split_spaces(s@) =~~= finished.deep_view() + prepend_to_first(
                cur@,
                spec_split_spaces(s@.skip(i as int)),
            ),
        decreases n - i,
    {
        proof {
            assert(s@.skip(i as int)[0] == s@[i as int]);
            assert(s@.skip(i as int).drop_first() =~= s@.skip(i as int + 1));
            lemma_split_spaces_len(s@.skip(i as int + 1));
        }
        let ghost pre_finished = finished.deep_view();
        let ghost pre_cur = cur@;
        let c = s.get_char(i);
        if c == ' ' {
            finished.push(cur);
            cur = String::new();
            proof {
                let parts = spec_split_spaces(s@.skip(i as int + 1));
                assert(spec_split_spaces(s@.skip(i as int)) =~~= seq![Seq::<char>::empty()]
                    + parts);
                assert(pre_cur + Seq::<char>::empty() =~= pre_cur);
                assert(prepend_to_first(pre_cur, seq![Seq::<char>::empty()] + parts) =~~= seq![
                    pre_cur,
                ] + parts);
                assert(finished.deep_view() =~~= pre_finished.push(pre_cur));
                assert(Seq::<char>::empty() + parts[0] =~= parts[0]);
                assert(prepend_to_first(Seq::<char>::empty(), parts) =~~= parts);
                assert(pre_finished + (seq![pre_cur] + parts) =~~= finished.deep_view()
                    + prepend_to_first(cur@, parts));
            }
        } else {
            cur.append(s.substring_char(i, i + 1));
            proof {
                assert(s@.subrange(i as int, i as int + 1) =~= seq![s@[i as int]]);
                let parts = spec_split_spaces(s@.skip(i as int + 1));
                assert(spec_split_spaces(s@.skip(i as int)) =~~= seq![seq![s@[i as int]]
                    + parts[0]] + parts.drop_first());
                assert(pre_cur + (seq![s@[i as int]] + parts[0]) =~= cur@ + parts[0]);
                assert(prepend_to_first(pre_cur, spec_split_spaces(s@.skip(i as int)))
                    =~~= prepend_to_first(cur@, parts));
            }
        }
        i = i + 1;
    }
    proof {
        assert(s@.skip(n as int) =~= Seq::<char>::empty());
        assert(spec_split_spaces(s@.skip(n as int)) =~~= seq![Seq::<char>::empty()]);
        assert(cur@ + Seq::<char>::empty() =~= cur@);
        assert(prepend_to_first(cur@, seq![Seq::<char>::empty()]) =~~= seq![cur@]);
    }
    let ghost pre = finished.deep_view();
    finished.push(cur);
    proof {
        assert(finished.deep_view() =~~= pre.push(finished@[pre.len() as int]@));
        assert(spec_split_spaces(s@) =~~= finished.deep_view());
    }
    finished
}

/// Index of the last occurrence of `c` in `s`, if any.
pub fn find_last(s: &str, c: char) -> (r: Option<usize>)
    ensures
        match r {
            Some(i) => i < s@.len() && s@[i as int] == c && forall|j: int|
                i < j < s@.len() ==> s@[j] != c,
            None => !has_char(s@, c),
        },
{
    let n = s.unicode_len();
    let mut i = n;
    while i > 0
        invariant
            i <= n,
            n == s@.len(),
            forall|j: int| i <= j < s@.len() ==> s@[j] != c,
        decreases i,
    {
        i = i - 1;
        if s.get_char(i) == c {
            return Some(i);
        }
    }
    None
}

/// Index of the first occurrence of `c` in `s`, if any.
pub fn find_first(s: &str, c: char) -> (r: Option<usize>)
    ensures
        match r {
            Some(i) => i < s@.len() && s@[i as int] == c && forall|j: int|
                0 <= j < i ==> s@[j] != c,
            None => !has_char(s@, c),
        },
{
    let n = s.unicode_len();
    let mut i: usize = 0;
    while i < n
        invariant
            i <= n,
            n == s@.len(),
            forall|j: int| 0 <= j < i ==> s@[j] != c,
        decreases n - i,
    {
        if s.get_char(i) == c {
            return Some(i);
        }
        i = i + 1;
    }
    None
}

/// Character-for-character string equality, with its meaning over views.
pub fn str_eq(a: &str, b: &str) -> (r: bool)
    ensures
        r == (a@ == b@),
{
    let na = a.unicode_len();
    let nb = b.unicode_len();
    if na != nb {
        return false;
    }
    let mut i: usize = 0;
    while i < na
        invariant
            i <= na,
            na == a@.len(),
            nb == b@.len(),
            na == nb,
            forall|j: int| 0 <= j < i ==> a@[j] == b@[j],
        decreases na - i,
    {
        if a.get_char(i) != b.get_char(i) {
            return false;
        }
        i = i + 1;
    }
    proof {
        assert(a@ =~= b@);
    }
    true
}

} // verus!
