//! Text primitives the authorization logic is built on: string equality,
//! the Unicode white-space test, splitting on white space, and the
//! lexicographic order of strings.

use vstd::prelude::*;

verus! {

/// True when `a` and `b` hold the same characters.
pub fn str_equal(a: &str, b: &str) -> (r: bool)
    ensures
        r == (a@ == b@),
{
    let x = a.to_owned();
    let y = b.to_owned();
    x == y
}

/// The Unicode `White_Space` property of a code point, which is what
/// `char::is_whitespace` tests.
pub open spec fn is_white_space_code(u: u32) -> bool {
    ||| (0x09 <= u && u <= 0x0d)
    ||| u == 0x20
    ||| u == 0x85
    ||| u == 0xa0
    ||| u == 0x1680
    ||| (0x2000 <= u && u <= 0x200a)
    ||| u == 0x2028
    ||| u == 0x2029
    ||| u == 0x202f
    ||| u == 0x205f
    ||| u == 0x3000
}

pub open spec fn is_white_space(c: char) -> bool {
    is_white_space_code(c as u32)
}

/// Whether `c` is white space in the sense of `char::is_whitespace`.
pub fn is_white_space_char(c: char) -> (r: bool)
    ensures
        r == is_white_space(c),
{
    let u = c as u32;
    (0x09 <= u && u <= 0x0d) || u == 0x20 || u == 0x85 || u == 0xa0 || u == 0x1680
        || (0x2000 <= u && u <= 0x200a) || u == 0x2028 || u == 0x2029 || u == 0x202f
        || u == 0x205f || u == 0x3000
}


/// The words of `s` that are still to come when `cur` is the word being
/// read: white space ends a word, and empty words are not produced.
pub open spec fn words_from(s: Seq<char>, cur: Seq<char>) -> Seq<Seq<char>>
    decreases s.len(),
{
    if s.len() == 0 {
        if cur.len() == 0 { seq![] } else { seq![cur] }
    } else if is_white_space(s[0]) {
        (if cur.len() == 0 { seq![] } else { seq![cur] }) + words_from(s.drop_first(), seq![])
    } else {
        words_from(s.drop_first(), cur.push(s[0]))
    }
}

/// The maximal runs of non-white-space characters of `s`, in order; this is
/// what `str::split_whitespace` yields.
pub open spec fn words(s: Seq<char>) -> Seq<Seq<char>> {
    words_from(s, seq![])
}

pub open spec fn string_views(v: Seq<String>) -> Seq<Seq<char>> {
    v.map_values(|w: String| w@)
}

/// Splits `s` at white space, dropping empty pieces.
pub fn split_words(s: &str) -> (r: Vec<String>)
    ensures
        string_views(r@) == words(s@),
{
    let n = s.unicode_len();
    let mut out: Vec<String> = Vec::new();
    let mut start: usize = 0;
    let mut i: usize = 0;
    assert(s@.subrange(0, 0) =~= Seq::<char>::empty());
    assert(s@.skip(0) =~= s@);
    assert(string_views(out@) =~= Seq::<Seq<char>>::empty());
    while i < n
        invariant
            n == s@.len(),
            start <= i <= n,
            words(s@) == string_views(out@) + words_from(
                s@.skip(i as int),
                s@.subrange(start as int, i as int),
            ),
        decreases n - i,
    {
        let c = s.get_char(i);
        let ghost rest = s@.skip(i as int);
        let ghost cur = s@.subrange(start as int, i as int);
        let ghost before = string_views(out@);
        assert(rest[0] == c);
        assert(rest.drop_first() =~= s@.skip(i + 1));
        if is_white_space_char(c) {
            if start < i {
                let w = s.substring_char(start, i);
                let ws = w.to_owned();
                out.push(ws);
                assert(string_views(out@) =~= before.push(cur));
                assert(before.push(cur) + words_from(s@.skip(i + 1), seq![]) =~= before + (
                seq![cur] + words_from(s@.skip(i + 1), seq![])));
            } else {
                assert(seq![] + words_from(s@.skip(i + 1), seq![]) =~= words_from(
                    s@.skip(i + 1),
                    seq![],
                ));
            }
            i = i + 1;
            start = i;
            assert(s@.subrange(start as int, i as int) =~= Seq::<char>::empty());
        } else {
            i = i + 1;
            assert(s@.subrange(start as int, i as int) =~= cur.push(c));
        }
    }
    assert(s@.skip(n as int) =~= Seq::<char>::empty());
    let ghost cur = s@.subrange(start as int, n as int);
    if start < n {
        let w = s.substring_char(start, n);
        let ws = w.to_owned();
        let ghost before = string_views(out@);
        out.push(ws);
        assert(string_views(out@) =~= before.push(cur));
        assert(before + seq![cur] =~= before.push(cur));
    } else {
        assert(string_views(out@) + seq![] =~= string_views(out@));
    }
    out
}

/// The pieces that remain of `s` when `cur` is the piece being read and the
/// pieces are separated by `sep`; empty pieces are kept, as `str::split` keeps them.
pub open spec fn pieces_from(s: Seq<char>, sep: char, cur: Seq<char>) -> Seq<Seq<char>>
    decreases s.len(),
{
    if s.len() == 0 {
        seq![cur]
    } else if s[0] == sep {
        seq![cur] + pieces_from(s.drop_first(), sep, seq![])
    } else {
        pieces_from(s.drop_first(), sep, cur.push(s[0]))
    }
}

/// What `s.split(sep)` yields.
pub open spec fn pieces(s: Seq<char>, sep: char) -> Seq<Seq<char>> {
    pieces_from(s, sep, seq![])
}

/// Splits `s` at every `sep`.
pub fn split_at_char(s: &str, sep: char) -> (r: Vec<String>)
    ensures
        string_views(r@) == pieces(s@, sep),
{
    let n = s.unicode_len();
    let mut out: Vec<String> = Vec::new();
    let mut start: usize = 0;
    let mut i: usize = 0;
    assert(s@.subrange(0, 0) =~= Seq::<char>::empty());
    assert(s@.skip(0) =~= s@);
    assert(string_views(out@) =~= Seq::<Seq<char>>::empty());
    while i < n
        invariant
            n == s@.len(),
            start <= i <= n,
            pieces(s@, sep) == string_views(out@) + pieces_from(
                s@.skip(i as int),
                sep,
                s@.subrange(start as int, i as int),
            ),
        decreases n - i,
    {
        let c = s.get_char(i);
        let ghost rest = s@.skip(i as int);
        let ghost cur = s@.subrange(start as int, i as int);
        let ghost before = string_views(out@);
        assert(rest[0] == c);
        assert(rest.drop_first() =~= s@.skip(i + 1));
        if c == sep {
            let w = s.substring_char(start, i);
            let ws = w.to_owned();
            out.push(ws);
            assert(string_views(out@) =~= before.push(cur));
            assert(before.push(cur) + pieces_from(s@.skip(i + 1), sep, seq![]) =~= before + (
            seq![cur] + pieces_from(s@.skip(i + 1), sep, seq![])));
            i = i + 1;
            start = i;
            assert(s@.subrange(start as int, i as int) =~= Seq::<char>::empty());
        } else {
            i = i + 1;
            assert(s@.subrange(start as int, i as int) =~= cur.push(c));
        }
    }
    assert(s@.skip(n as int) =~= Seq::<char>::empty());
    let ghost cur = s@.subrange(start as int, n as int);
    let w = s.substring_char(start, n);
    let ws = w.to_owned();
    let ghost before = string_views(out@);
    out.push(ws);
    assert(string_views(out@) =~= before.push(cur));
    assert(before + seq![cur] =~= before.push(cur));
    out
}

/// Pushing onto a sequence adds the element to its set.
pub proof fn lemma_push_to_set<A>(s: Seq<A>, x: A)
    ensures
        s.push(x).to_set() == s.to_set().insert(x),
{
    assert forall|e: A| s.push(x).to_set().contains(e) implies s.to_set().insert(x).contains(e) by {
        let k = choose|k: int| 0 <= k < s.push(x).len() && s.push(x)[k] == e;
        if k < s.len() {
            assert(s[k] == e);
        }
    }
    assert forall|e: A| s.to_set().insert(x).contains(e) implies s.push(x).to_set().contains(e) by {
        if e == x {
            assert(s.push(x)[s.len() as int] == e);
        } else {
            let k = choose|k: int| 0 <= k < s.len() && s[k] == e;
            assert(s.push(x)[k] == e);
        }
    }
    assert(s.push(x).to_set() =~= s.to_set().insert(x));
}

/// Lexicographic order on character sequences, comparing code points.
/// On strings it is the order of `Ord for String`, since UTF-8 preserves the
/// order of code points byte by byte.
pub open spec fn seq_less(a: Seq<char>, b: Seq<char>) -> bool
    decreases a.len(),
{
    if a.len() == 0 {
        b.len() > 0
    } else if b.len() == 0 {
        false
    } else if a[0] != b[0] {
        (a[0] as int) < (b[0] as int)
    } else {
        seq_less(a.drop_first(), b.drop_first())
    }
}

pub proof fn lemma_seq_less_total(a: Seq<char>, b: Seq<char>)
    requires
        a != b,
    ensures
        seq_less(a, b) || seq_less(b, a),
    decreases a.len(),
{
    if a.len() > 0 && b.len() > 0 && a[0] == b[0] {
        if a.drop_first() == b.drop_first() {
            assert(a =~= seq![a[0]] + a.drop_first());
            assert(b =~= seq![b[0]] + b.drop_first());
        }
        lemma_seq_less_total(a.drop_first(), b.drop_first());
    } else if a.len() > 0 && b.len() > 0 {
        assert((a[0] as int) != (b[0] as int));
    } else if a.len() == 0 && b.len() == 0 {
        assert(a =~= b);
    }
}

pub proof fn lemma_seq_less_transitive(a: Seq<char>, b: Seq<char>, c: Seq<char>)
    requires
        seq_less(a, b),
        seq_less(b, c),
    ensures
        seq_less(a, c),
    decreases a.len(),
{
    if a.len() > 0 && b.len() > 0 && c.len() > 0 && a[0] == b[0] && b[0] == c[0] {
        lemma_seq_less_transitive(a.drop_first(), b.drop_first(), c.drop_first());
    }
}

/// Whether `a` comes strictly before `b` in the lexicographic order.
pub fn string_less(a: &String, b: &String) -> (r: bool)
    ensures
        r == seq_less(a@, b@),
{
    let x = a.as_str();
    let y = b.as_str();
    let n = x.unicode_len();
    let m = y.unicode_len();
    let mut i: usize = 0;
    assert(x@.skip(0) =~= x@);
    assert(y@.skip(0) =~= y@);
    while i < n && i < m
        invariant
            n == x@.len(),
            m == y@.len(),
            x@ == a@,
            y@ == b@,
            i <= n,
            i <= m,
            seq_less(x@, y@) == seq_less(x@.skip(i as int), y@.skip(i as int)),
        decreases n - i,
    {
        let cx = x.get_char(i);
        let cy = y.get_char(i);
        assert(x@.skip(i as int)[0] == cx);
        assert(y@.skip(i as int)[0] == cy);
        if cx != cy {
            assert(x@.skip(i as int).len() > 0 && y@.skip(i as int).len() > 0);
            assert(seq_less(x@.skip(i as int), y@.skip(i as int)) == ((cx as int) < (cy as int)));
            let r = (cx as u32) < (cy as u32);
            assert(r == ((cx as int) < (cy as int)));
            return r;
        }
        assert(x@.skip(i as int).drop_first() =~= x@.skip(i + 1));
        assert(y@.skip(i as int).drop_first() =~= y@.skip(i + 1));
        i = i + 1;
    }
    i == n && i < m
}

/// Strictly increasing in the lexicographic order, hence free of duplicates.
pub open spec fn strictly_sorted(v: Seq<Seq<char>>) -> bool {
    forall|i: int, j: int| 0 <= i < j < v.len() ==> seq_less(#[trigger] v[i], #[trigger] v[j])
}

/// Adds `x` to the strictly sorted vector `v` unless it holds it already.
pub fn insert_sorted_unique(v: &mut Vec<String>, x: String)
    requires
        strictly_sorted(string_views(old(v)@)),
    ensures
        strictly_sorted(string_views(final(v)@)),
        string_views(final(v)@).to_set() == string_views(old(v)@).to_set().insert(x@),
{
    let ghost xv = x@;
    let ghost old_views = string_views(v@);
    let n = v.len();
    let mut p: usize = 0;
    while p < n && string_less(&v[p], &x)
        invariant
            n == v@.len(),
            p <= n,
            old_views == string_views(v@),
            forall|k: int| 0 <= k < p ==> seq_less(#[trigger] old_views[k], x@),
        decreases n - p,
    {
        p = p + 1;
    }
    if p < n && v[p] == x {
        assert(old_views[p as int] == xv);
        assert(old_views.to_set().insert(xv) =~= old_views.to_set());
        return;
    }
    proof {
        if p < n {
            assert(!seq_less(old_views[p as int], xv));
            assert(old_views[p as int] != xv);
            lemma_seq_less_total(old_views[p as int], xv);
            assert forall|j: int| p <= j < n implies seq_less(xv, #[trigger] old_views[j]) by {
                if j > p {
                    lemma_seq_less_transitive(xv, old_views[p as int], old_views[j]);
                }
            }
        }
    }
    v.insert(p, x);
    let ghost new_views = string_views(v@);
    assert(new_views =~= old_views.insert(p as int, xv));
    assert forall|i: int, j: int| 0 <= i < j < new_views.len() implies seq_less(
        #[trigger] new_views[i],
        #[trigger] new_views[j],
    ) by {
        if j < p {
        } else if i < p && j == p {
        } else if i < p && j > p {
            assert(new_views[j] == old_views[j - 1]);
        } else if i == p {
            assert(new_views[j] == old_views[j - 1]);
        } else {
            assert(new_views[i] == old_views[i - 1]);
            assert(new_views[j] == old_views[j - 1]);
        }
    }
    assert(new_views.to_set() =~= old_views.to_set().insert(xv)) by {
        assert forall|e: Seq<char>| new_views.to_set().contains(e) implies old_views.to_set().insert(
            xv,
        ).contains(e) by {
            let k = choose|k: int| 0 <= k < new_views.len() && new_views[k] == e;
            if k < p {
                assert(old_views[k] == e);
            } else if k > p {
                assert(old_views[k - 1] == e);
            }
        }
        assert forall|e: Seq<char>| old_views.to_set().insert(xv).contains(e) implies new_views.to_set().contains(e) by {
            if e == xv {
                assert(new_views[p as int] == e);
            } else {
                let k = choose|k: int| 0 <= k < old_views.len() && old_views[k] == e;
                if k < p {
                    assert(new_views[k] == e);
                } else {
                    assert(new_views[k + 1] == e);
                }
            }
        }
    }
}

} // verus!
