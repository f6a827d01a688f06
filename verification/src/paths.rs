//! Paths of names separated by white space.
use vstd::prelude::*;
use vstd::string::StringExecFns;

verus! {

/// The code points with Unicode's `White_Space` property.
pub open spec fn whitespace(c: char) -> bool {
    let n = c as int;
    ||| 0x9 <= n <= 0xd
    ||| n == 0x20
    ||| n == 0x85
    ||| n == 0xa0
    ||| n == 0x1680
    ||| 0x2000 <= n <= 0x200a
    ||| n == 0x2028
    ||| n == 0x2029
    ||| n == 0x202f
    ||| n == 0x205f
    ||| n == 0x3000
}

/// The words of `word + s`, where `word` holds no white space.
pub open spec fn split_words(s: Seq<char>, word: Seq<char>) -> Seq<Seq<char>>
    decreases s.len(),
{
    if s.len() == 0 {
        if word.len() == 0 {
            Seq::empty()
        } else {
            seq![word]
        }
    } else if whitespace(s[0]) {
        if word.len() == 0 {
            split_words(s.drop_first(), Seq::empty())
        } else {
            seq![word] + split_words(s.drop_first(), Seq::empty())
        }
    } else {
        split_words(s.drop_first(), word.push(s[0]))
    }
}

/// The maximal pieces of `s` without white space, in order.
pub open spec fn words(s: Seq<char>) -> Seq<Seq<char>> {
    split_words(s, Seq::empty())
}

/// The contents of a list of strings.
pub open spec fn texts(v: Seq<String>) -> Seq<Seq<char>> {
    v.map_values(|s: String| s@)
}

/// The words of a list joined by single spaces.
pub open spec fn join_words(v: Seq<Seq<char>>) -> Seq<char>
    decreases v.len(),
{
    if v.len() == 0 {
        Seq::empty()
    } else if v.len() == 1 {
        v[0]
    } else {
        join_words(v.drop_last()) + seq![' '] + v.last()
    }
}

/// Whether `s` is one word: not empty and without white space.
pub open spec fn is_word(s: Seq<char>) -> bool {
    s.len() > 0 && forall|i: int| 0 <= i < s.len() ==> !whitespace(#[trigger] s[i])
}

pub fn is_whitespace(c: char) -> (b: bool)
    ensures
        b == whitespace(c),
{
    let n: u32 = c as u32;
    (0x9 <= n && n <= 0xd) || n == 0x20 || n == 0x85 || n == 0xa0 || n == 0x1680
        || (0x2000 <= n && n <= 0x200a) || n == 0x2028 || n == 0x2029 || n == 0x202f
        || n == 0x205f || n == 0x3000
}

/// The words of `s`, in order.
pub fn split_whitespace(s: &str) -> (r: Vec<String>)
    ensures
        texts(r@) == words(s@),
{
    let n: usize = s.unicode_len();
    let mut r: Vec<String> = Vec::new();
    let mut start: usize = 0;
    let mut i: usize = 0;
    assert(s@.skip(0) =~= s@);
    assert(s@.subrange(0, 0) =~= Seq::empty());
    assert(texts(r@) + split_words(s@.skip(0), s@.subrange(0, 0)) =~= words(s@));
    while i < n
        invariant
            n == s@.len(),
            0 <= start <= i <= n,
            texts(r@) + split_words(s@.skip(i as int), s@.subrange(start as int, i as int)) == words(s@),
        decreases n - i,
    {
        let c = s.get_char(i);
        let ghost rest = s@.skip(i as int);
        let ghost word = s@.subrange(start as int, i as int);
        assert(rest.drop_first() =~= s@.skip(i + 1));
        if is_whitespace(c) {
            if start < i {
                let piece = s.substring_char(start, i).to_owned();
                let ghost before = r@;
                r.push(piece);
                assert(texts(r@) =~= texts(before) + seq![word]);
                assert(texts(before) + (seq![word] + split_words(rest.drop_first(), Seq::empty()))
                    =~= (texts(before) + seq![word]) + split_words(rest.drop_first(), Seq::empty()));
            }
            start = i + 1;
            assert(s@.subrange(start as int, i + 1) =~= Seq::empty());
        } else {
            assert(s@.subrange(start as int, i + 1) =~= word.push(c));
        }
        i = i + 1;
    }
    if start < n {
        let piece = s.substring_char(start, n).to_owned();
        let ghost before = r@;
        r.push(piece);
        assert(texts(r@) =~= texts(before) + seq![s@.subrange(start as int, n as int)]);
    }
    assert(texts(r@) =~= words(s@));
    r
}

/// The words of `v` up to `n`, joined by single spaces.
pub fn join(v: &Vec<String>, n: usize) -> (r: String)
    requires
        n <= v@.len(),
    ensures
        r@ == join_words(texts(v@).take(n as int)),
{
    let mut r: String = String::new();
    let ghost w = texts(v@);
    assert(w.take(0) =~= Seq::empty());
    let mut i: usize = 0;
    while i < n
        invariant
            n <= v@.len(),
            i <= n,
            w == texts(v@),
            r@ == join_words(w.take(i as int)),
        decreases n - i,
    {
        assert(w.take(i + 1).drop_last() =~= w.take(i as int));
        if i > 0 {
            proof {
                reveal_strlit(" ");
            }
            r.append(" ");
            assert(" "@ =~= seq![' ']);
        }
        r.append(v[i].as_str());
        i = i + 1;
    }
    r
}

/// `parent`, a space and `name`.
pub fn child_path(parent: &str, name: &str) -> (r: String)
    ensures
        r@ == parent@ + seq![' '] + name@,
{
    proof {
        reveal_strlit(" ");
    }
    assert(" "@ =~= seq![' ']);
    let mut r: String = parent.to_owned();
    r.append(" ");
    r.append(name);
    r
}

/// A word behind a path and a space is one more word of the path.
pub proof fn lemma_words_child(parent: Seq<char>, name: Seq<char>)
    requires
        is_word(name),
    ensures
        words(parent + seq![' '] + name) == words(parent).push(name),
{
    lemma_split_child(parent, Seq::empty(), name);
}

/// Words joined by single spaces are split again into these words.
pub proof fn lemma_words_joined(v: Seq<Seq<char>>)
    requires
        forall|i: int| 0 <= i < v.len() ==> is_word(#[trigger] v[i]),
    ensures
        words(join_words(v)) == v,
    decreases v.len(),
{
    if v.len() == 1 {
        assert(is_word(v[0]));
        lemma_split_word(v[0], Seq::empty());
        assert(Seq::<char>::empty() + v[0] =~= v[0]);
        assert(words(join_words(v)) =~= v);
    } else if v.len() > 1 {
        let p = v.drop_last();
        assert forall|i: int| 0 <= i < p.len() implies is_word(#[trigger] p[i]) by {
            assert(p[i] == v[i]);
        }
        assert(is_word(v[v.len() - 1]));
        lemma_words_joined(p);
        lemma_words_child(join_words(p), v.last());
        assert(p.push(v.last()) =~= v);
    } else {
        assert(words(join_words(v)) =~= v);
    }
}

proof fn lemma_split_child(s: Seq<char>, word: Seq<char>, name: Seq<char>)
    requires
        is_word(name),
    ensures
        split_words(s + seq![' '] + name, word) == split_words(s, word).push(name),
    decreases s.len(),
{
    let t = s + seq![' '] + name;
    if s.len() == 0 {
        assert(t[0] == ' ');
        assert(t.drop_first() =~= name);
        lemma_split_word(name, Seq::empty());
        assert(Seq::<char>::empty() + name =~= name);
        assert(split_words(t, word) =~= split_words(s, word).push(name));
    } else {
        assert(t[0] == s[0]);
        assert(t.drop_first() =~= s.drop_first() + seq![' '] + name);
        if whitespace(s[0]) {
            lemma_split_child(s.drop_first(), Seq::empty(), name);
            assert(split_words(t, word) =~= split_words(s, word).push(name));
        } else {
            lemma_split_child(s.drop_first(), word.push(s[0]), name);
        }
    }
}

proof fn lemma_split_word(s: Seq<char>, word: Seq<char>)
    requires
        forall|i: int| 0 <= i < s.len() ==> !whitespace(#[trigger] s[i]),
        s.len() + word.len() > 0,
    ensures
        split_words(s, word) == seq![word + s],
    decreases s.len(),
{
    if s.len() == 0 {
        assert(word + s =~= word);
    } else {
        assert(!whitespace(s[0]));
        let r = s.drop_first();
        assert forall|i: int| 0 <= i < r.len() implies !whitespace(#[trigger] r[i]) by {
            assert(r[i] == s[i + 1]);
        }
        lemma_split_word(r, word.push(s[0]));
        assert(word.push(s[0]) + r =~= word + s);
    }
}

} // verus!
