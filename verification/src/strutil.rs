use vstd::prelude::*;

verus! {

/// Relies on String::push: it appends the given character to the end of
/// the string.
#[verifier::external_body]
pub fn push_char(s: &mut String, c: char)
    ensures
        final(s)@ == old(s)@.push(c),
{
    s.push(c);
}

/// Collects the characters of a string slice into a vector.
pub fn chars_vec(s: &str) -> (r: Vec<char>)
    ensures
        r@ == s@,
{
    let n = s.unicode_len();
    let mut r: Vec<char> = Vec::new();
    let mut i: usize = 0;
    while i < n
        invariant
            n == s@.len(),
            i <= n,
            r@ == s@.subrange(0, i as int),
        decreases n - i,
    {
        r.push(s.get_char(i));
        i = i + 1;
        proof {
            assert(r@ =~= s@.subrange(0, i as int));
        }
    }
    proof {
        assert(r@ =~= s@);
    }
    r
}

/// Builds an owned string out of a vector of characters.
pub fn string_from_chars(v: &Vec<char>) -> (r: String)
    ensures
        r@ == v@,
{
    let mut r = String::new();
    let mut i: usize = 0;
    while i < v.len()
        invariant
            i <= v@.len(),
            r@ == v@.subrange(0, i as int),
        decreases v@.len() - i,
    {
        push_char(&mut r, v[i]);
        i = i + 1;
        proof {
            assert(r@ =~= v@.subrange(0, i as int));
        }
    }
    proof {
        assert(r@ =~= v@);
    }
    r
}

/// Appends the contents of `src` to `dst`.
pub fn append_chars(dst: &mut Vec<char>, src: &Vec<char>)
    ensures
        final(dst)@ == old(dst)@ + src@,
{
    let mut i: usize = 0;
    while i < src.len()
        invariant
            i <= src@.len(),
            dst@ == old(dst)@ + src@.subrange(0, i as int),
        decreases src@.len() - i,
    {
        dst.push(src[i]);
        i = i + 1;
        proof {
            assert(dst@ =~= old(dst)@ + src@.subrange(0, i as int));
        }
    }
    proof {
        assert(dst@ =~= old(dst)@ + src@);
    }
}

/// Appends the characters of a string slice to `dst`.
pub fn append_str(dst: &mut Vec<char>, src: &str)
    ensures
        final(dst)@ == old(dst)@ + src@,
{
    let cs = chars_vec(src);
    append_chars(dst, &cs);
}

/// Copies the characters of `v` between `from` and `to` into a fresh vector.
pub fn sub_chars(v: &Vec<char>, from: usize, to: usize) -> (r: Vec<char>)
    requires
        from <= to <= v@.len(),
    ensures
        r@ == v@.subrange(from as int, to as int),
{
    let mut r: Vec<char> = Vec::new();
    let mut i: usize = from;
    while i < to
        invariant
            from <= i <= to <= v@.len(),
            r@ == v@.subrange(from as int, i as int),
        decreases to - i,
    {
        r.push(v[i]);
        i = i + 1;
        proof {
            assert(r@ =~= v@.subrange(from as int, i as int));
        }
    }
    r
}

/// The decimal rendering of a natural number, most significant digit first.
pub open spec fn spec_dec(n: nat) -> Seq<char>
    decreases n,
{
    if n < 10 {
        seq![spec_digit_char(n)]
    } else {
        spec_dec(n / 10).push(spec_digit_char(n % 10))
    }
}

/// The character for one decimal digit.
pub open spec fn spec_digit_char(d: nat) -> char {
    if d == 0 { '0' }
    else if d == 1 { '1' }
    else if d == 2 { '2' }
    else if d == 3 { '3' }
    else if d == 4 { '4' }
    else if d == 5 { '5' }
    else if d == 6 { '6' }
    else if d == 7 { '7' }
    else if d == 8 { '8' }
    else { '9' }
}

fn digit_char(d: u64) -> (c: char)
    requires
        d < 10,
    ensures
        c == spec_digit_char(d as nat),
{
    if d == 0 { '0' }
    else if d == 1 { '1' }
    else if d == 2 { '2' }
    else if d == 3 { '3' }
    else if d == 4 { '4' }
    else if d == 5 { '5' }
    else if d == 6 { '6' }
    else if d == 7 { '7' }
    else if d == 8 { '8' }
    else { '9' }
}

/// Renders a number in decimal.
pub fn dec_chars(n: u64) -> (r: Vec<char>)
    ensures
        r@ == spec_dec(n as nat),
    decreases n,
{
    if n < 10 {
        let mut r: Vec<char> = Vec::new();
        r.push(digit_char(n));
        proof {
            assert(r@ =~= spec_dec(n as nat));
        }
        r
    } else {
        let mut r = dec_chars(n / 10);
        r.push(digit_char(n % 10));
        r
    }
}

/// Whether `sub` occurs contiguously inside `s`.
pub open spec fn spec_contains(s: Seq<char>, sub: Seq<char>) -> bool {
    exists|i: int|
        0 <= i && i + sub.len() <= s.len() && #[trigger] s.subrange(i, i + sub.len()) == sub
}

/// Whether `sub` occurs in `s` starting at position `at`.
pub open spec fn match_at(s: Seq<char>, sub: Seq<char>, at: int) -> bool {
    0 <= at && at + sub.len() <= s.len() && s.subrange(at, at + sub.len()) == sub
}

fn matches_at(s: &Vec<char>, sub: &Vec<char>, at: usize) -> (r: bool)
    requires
        at + sub@.len() <= s@.len(),
    ensures
        r == match_at(s@, sub@, at as int),
{
    proof {
        assert(s@.len() == s.len());
    }
    let mut j: usize = 0;
    while j < sub.len()
        invariant
            at + sub@.len() <= s@.len(),
            s@.len() <= usize::MAX,
            j <= sub@.len(),
            forall|k: int| 0 <= k < j ==> s@[at + k] == sub@[k],
        decreases sub@.len() - j,
    {
        if s[at + j] != sub[j] {
            proof {
                let ghost sr = s@.subrange(at as int, at + sub@.len());
                assert(sr[j as int] == s@[at + j]);
                assert(sr != sub@);
            }
            return false;
        }
        j = j + 1;
    }
    proof {
        assert(s@.subrange(at as int, at + sub@.len()) =~= sub@);
    }
    true
}

/// Whether `sub` occurs contiguously inside `s`.
pub fn contains_sub(s: &Vec<char>, sub: &Vec<char>) -> (r: bool)
    ensures
        r == spec_contains(s@, sub@),
{
    if sub.len() > s.len() {
        proof {
            assert(!spec_contains(s@, sub@)) by {
                if spec_contains(s@, sub@) {
                    let i = choose|i: int|
                        0 <= i && i + sub@.len() <= s@.len() && #[trigger] s@.subrange(
                            i,
                            i + sub@.len(),
                        ) == sub@;
                }
            }
        }
        return false;
    }
    let mut i: usize = 0;
    let last = s.len() - sub.len();
    loop
        invariant
            sub@.len() <= s@.len(),
            last == s@.len() - sub@.len(),
            i <= last,
            forall|k: int| 0 <= k < i ==> !match_at(s@, sub@, k),
        decreases last - i,
    {
        if matches_at(s, sub, i) {
            return true;
        }
        if i == last {
            proof {
                assert(forall|k: int| 0 <= k <= last ==> !match_at(s@, sub@, k));
                assert(!spec_contains(s@, sub@)) by {
                    if spec_contains(s@, sub@) {
                        let j = choose|j: int|
                            0 <= j && j + sub@.len() <= s@.len() && #[trigger] s@.subrange(
                                j,
                                j + sub@.len(),
                            ) == sub@;
                        assert(match_at(s@, sub@, j));
                    }
                }
            }
            return false;
        }
        i = i + 1;
    }
}

/// Whether the needle, given as a string slice, occurs inside `s`.
pub fn contains_str(s: &Vec<char>, needle: &str) -> (r: bool)
    ensures
        r == spec_contains(s@, needle@),
{
    let nd = chars_vec(needle);
    contains_sub(s, &nd)
}

/// The first position at or after `from` holding `c`, or the length of `s`
/// when there is none.
pub open spec fn spec_find(s: Seq<char>, c: char, from: int) -> int
    decreases s.len() - from,
{
    if from < 0 {
        spec_find(s, c, 0)
    } else if from >= s.len() {
        s.len() as int
    } else if s[from] == c {
        from
    } else {
        spec_find(s, c, from + 1)
    }
}

/// Scans for the first occurrence of `c` at or after `from`.
pub fn find_char_from(s: &Vec<char>, c: char, from: usize) -> (r: usize)
    requires
        from <= s@.len(),
    ensures
        r == spec_find(s@, c, from as int),
        from <= r <= s@.len(),
        r < s@.len() ==> s@[r as int] == c,
    decreases s@.len() - from,
{
    if from >= s.len() {
        s.len()
    } else if s[from] == c {
        from
    } else {
        find_char_from(s, c, from + 1)
    }
}

/// Lexicographic order on character sequences, by scalar value.
pub open spec fn lex_leq(a: Seq<char>, b: Seq<char>) -> bool
    decreases a.len(),
{
    if a.len() == 0 {
        true
    } else if b.len() == 0 {
        false
    } else if (a[0] as u32) < (b[0] as u32) {
        true
    } else if (a[0] as u32) > (b[0] as u32) {
        false
    } else {
        lex_leq(a.drop_first(), b.drop_first())
    }
}

/// Compares two character vectors lexicographically.
pub fn lex_le(a: &Vec<char>, b: &Vec<char>) -> (r: bool)
    ensures
        r == lex_leq(a@, b@),
{
    proof {
        assert(a@.skip(0) =~= a@);
        assert(b@.skip(0) =~= b@);
    }
    lex_le_from(a, b, 0)
}

fn lex_le_from(a: &Vec<char>, b: &Vec<char>, i: usize) -> (r: bool)
    requires
        i <= a@.len(),
        i <= b@.len(),
    ensures
        r == lex_leq(a@.skip(i as int), b@.skip(i as int)),
    decreases a@.len() - i,
{
    proof {
        reveal_lex_step(a@, b@, i as int);
    }
    if i >= a.len() {
        true
    } else if i >= b.len() {
        false
    } else if (a[i] as u32) < (b[i] as u32) {
        true
    } else if (a[i] as u32) > (b[i] as u32) {
        false
    } else {
        lex_le_from(a, b, i + 1)
    }
}

proof fn reveal_lex_step(a: Seq<char>, b: Seq<char>, i: int)
    requires
        0 <= i <= a.len(),
        0 <= i <= b.len(),
    ensures
        lex_leq(a.skip(i), b.skip(i)) == (if a.len() == i {
            true
        } else if b.len() == i {
            false
        } else if (a[i] as u32) < (b[i] as u32) {
            true
        } else if (a[i] as u32) > (b[i] as u32) {
            false
        } else {
            lex_leq(a.skip(i + 1), b.skip(i + 1))
        }),
{
    let sa = a.skip(i);
    let sb = b.skip(i);
    if a.len() == i {
        assert(sa.len() == 0);
    } else if b.len() == i {
        assert(sb.len() == 0);
    } else {
        assert(sa[0] == a[i]);
        assert(sb[0] == b[i]);
        if (a[i] as u32) == (b[i] as u32) {
            assert(sa.drop_first() =~= a.skip(i + 1));
            assert(sb.drop_first() =~= b.skip(i + 1));
        }
    }
}

/// Inserting one element into a sequence sorted by `lex_leq`, keeping it
/// sorted.
pub open spec fn spec_insert_sorted(x: Seq<char>, s: Seq<Seq<char>>) -> Seq<Seq<char>>
    decreases s.len(),
{
    if s.len() == 0 {
        seq![x]
    } else if lex_leq(x, s[0]) {
        seq![x] + s
    } else {
        seq![s[0]] + spec_insert_sorted(x, s.drop_first())
    }
}

/// Sorting a sequence of character sequences by `lex_leq`, by repeated
/// insertion.
pub open spec fn spec_sort(s: Seq<Seq<char>>) -> Seq<Seq<char>>
    decreases s.len(),
{
    if s.len() == 0 {
        Seq::empty()
    } else {
        spec_insert_sorted(s.last(), spec_sort(s.drop_last()))
    }
}

/// The lexicographic order as a relation value.
pub open spec fn lex_leq_rel() -> spec_fn(Seq<char>, Seq<char>) -> bool {
    |a: Seq<char>, b: Seq<char>| lex_leq(a, b)
}

/// The lexicographic order is total: one of the two directions always
/// holds.
pub proof fn lemma_lex_total(a: Seq<char>, b: Seq<char>)
    ensures
        lex_leq(a, b) || lex_leq(b, a),
    decreases a.len(),
{
    if a.len() == 0 {
    } else if b.len() == 0 {
    } else if (a[0] as u32) == (b[0] as u32) {
        lemma_lex_total(a.drop_first(), b.drop_first());
    }
}

/// The lexicographic order is transitive.
pub proof fn lemma_lex_trans(a: Seq<char>, b: Seq<char>, c: Seq<char>)
    requires
        lex_leq(a, b),
        lex_leq(b, c),
    ensures
        lex_leq(a, c),
    decreases a.len(),
{
    if a.len() == 0 {
    } else if b.len() == 0 {
        assert(false);
    } else if c.len() == 0 {
        assert(false);
    } else {
        if (a[0] as u32) == (b[0] as u32) && (b[0] as u32) == (c[0] as u32) {
            lemma_lex_trans(a.drop_first(), b.drop_first(), c.drop_first());
        }
    }
}

/// Membership in an insertion: the inserted element, or one that was
/// already there.
pub proof fn lemma_insert_contains(x0: Seq<char>, s: Seq<Seq<char>>, t: Seq<char>)
    ensures
        spec_insert_sorted(x0, s).contains(t) <==> (t == x0 || s.contains(t)),
    decreases s.len(),
{
    broadcast use vstd::seq_lib::lemma_seq_concat_contains_all_elements;

    if s.len() == 0 {
        assert(spec_insert_sorted(x0, s) =~= seq![x0]);
        assert(seq![x0][0] == x0);
    } else if lex_leq(x0, s[0]) {
        assert(seq![x0][0] == x0);
    } else {
        lemma_insert_contains(x0, s.drop_first(), t);
        assert(s =~= seq![s[0]] + s.drop_first());
        assert(seq![s[0]][0] == s[0]);
    }
}

/// Sorting keeps exactly the members that were there before.
pub proof fn lemma_sort_contains(s: Seq<Seq<char>>, t: Seq<char>)
    ensures
        spec_sort(s).contains(t) <==> s.contains(t),
    decreases s.len(),
{
    broadcast use vstd::seq_lib::lemma_seq_concat_contains_all_elements;

    if s.len() == 0 {
    } else {
        lemma_sort_contains(s.drop_last(), t);
        lemma_insert_contains(s.last(), spec_sort(s.drop_last()), t);
        assert(s =~= s.drop_last() + seq![s.last()]);
        assert(seq![s.last()][0] == s.last());
    }
}

proof fn lemma_insert_keeps_sorted(x0: Seq<char>, s: Seq<Seq<char>>)
    requires
        vstd::relations::sorted_by(s, lex_leq_rel()),
    ensures
        vstd::relations::sorted_by(spec_insert_sorted(x0, s), lex_leq_rel()),
    decreases s.len(),
{
    let rel = lex_leq_rel();
    if s.len() == 0 {
    } else if lex_leq(x0, s[0]) {
        let out = seq![x0] + s;
        assert forall|i: int, j: int| 0 <= i < j < out.len() implies #[trigger] rel(
            out[i],
            out[j],
        ) by {
            if i == 0 {
                if j > 1 {
                    assert(rel(s[0], s[j - 1]));
                    lemma_lex_trans(x0, s[0], s[j - 1]);
                }
            } else {
                assert(rel(s[i - 1], s[j - 1]));
            }
        }
    } else {
        let tail = s.drop_first();
        assert(vstd::relations::sorted_by(tail, rel)) by {
            assert forall|i: int, j: int| 0 <= i < j < tail.len() implies #[trigger] rel(
                tail[i],
                tail[j],
            ) by {
                assert(rel(s[i + 1], s[j + 1]));
            }
        }
        lemma_insert_keeps_sorted(x0, tail);
        let ins = spec_insert_sorted(x0, tail);
        lemma_lex_total(x0, s[0]);
        let out = seq![s[0]] + ins;
        assert forall|i: int, j: int| 0 <= i < j < out.len() implies #[trigger] rel(
            out[i],
            out[j],
        ) by {
            if i == 0 {
                assert(ins.contains(ins[j - 1]));
                lemma_insert_contains(x0, tail, ins[j - 1]);
                if ins[j - 1] == x0 {
                    assert(rel(s[0], x0));
                } else {
                    let k = choose|k: int| 0 <= k < tail.len() && tail[k] == ins[j - 1];
                    assert(rel(s[0], s[k + 1]));
                }
            } else {
                assert(rel(ins[i - 1], ins[j - 1]));
            }
        }
    }
}

/// The deterministic sort really orders its output: neighbours stand in
/// the lexicographic order.
pub proof fn lemma_sort_sorted(s: Seq<Seq<char>>)
    ensures
        vstd::relations::sorted_by(spec_sort(s), lex_leq_rel()),
    decreases s.len(),
{
    if s.len() == 0 {
    } else {
        lemma_sort_sorted(s.drop_last());
        lemma_insert_keeps_sorted(s.last(), spec_sort(s.drop_last()));
    }
}

proof fn lemma_insert_multiset(x0: Seq<char>, s: Seq<Seq<char>>)
    ensures
        spec_insert_sorted(x0, s).to_multiset() =~= s.to_multiset().insert(x0),
    decreases s.len(),
{
    broadcast use vstd::seq_lib::lemma_multiset_commutative;
    broadcast use vstd::seq_lib::group_to_multiset_ensures;
    broadcast use vstd::multiset::group_multiset_axioms;

    if s.len() == 0 {
        assert(s =~= Seq::<Seq<char>>::empty());
        assert(seq![x0] =~= Seq::<Seq<char>>::empty().push(x0));
    } else if lex_leq(x0, s[0]) {
        assert(seq![x0] =~= Seq::<Seq<char>>::empty().push(x0));
        assert((seq![x0] + s).to_multiset() =~= s.to_multiset().insert(x0));
    } else {
        lemma_insert_multiset(x0, s.drop_first());
        assert(s =~= seq![s[0]] + s.drop_first());
        assert(seq![s[0]] =~= Seq::<Seq<char>>::empty().push(s[0]));
        assert((seq![s[0]] + spec_insert_sorted(x0, s.drop_first())).to_multiset()
            =~= s.to_multiset().insert(x0));
    }
}

/// The deterministic sort is a permutation: the token multiset is kept.
pub proof fn lemma_sort_permutes(s: Seq<Seq<char>>)
    ensures
        spec_sort(s).to_multiset() =~= s.to_multiset(),
    decreases s.len(),
{
    broadcast use vstd::seq_lib::group_to_multiset_ensures;
    broadcast use vstd::multiset::group_multiset_axioms;

    if s.len() == 0 {
    } else {
        lemma_sort_permutes(s.drop_last());
        lemma_insert_multiset(s.last(), spec_sort(s.drop_last()));
        assert(s =~= s.drop_last().push(s.last()));
    }
}

proof fn lemma_insert_sorted_position(x: Seq<char>, s: Seq<Seq<char>>, pos: int)
    requires
        0 <= pos <= s.len(),
        forall|k: int| 0 <= k < pos ==> !lex_leq(x, #[trigger] s[k]),
        pos < s.len() ==> lex_leq(x, s[pos]),
    ensures
        spec_insert_sorted(x, s) == s.subrange(0, pos) + seq![x] + s.subrange(pos, s.len() as int),
    decreases s.len(),
{
    if s.len() == 0 {
        assert(spec_insert_sorted(x, s) =~= s.subrange(0, pos) + seq![x] + s.subrange(pos, s.len() as int));
    } else if pos == 0 {
        assert(lex_leq(x, s[0]));
        assert(spec_insert_sorted(x, s) =~= s.subrange(0, pos) + seq![x] + s.subrange(pos, s.len() as int));
    } else {
        assert(!lex_leq(x, s[0]));
        let t = s.drop_first();
        assert(forall|k: int| 0 <= k < pos - 1 ==> !lex_leq(x, #[trigger] t[k]));
        lemma_insert_sorted_position(x, t, pos - 1);
        assert(spec_insert_sorted(x, s) == seq![s[0]] + spec_insert_sorted(x, t));
        assert(seq![s[0]] + (t.subrange(0, pos - 1) + seq![x] + t.subrange(pos - 1, t.len() as int))
            =~= s.subrange(0, pos) + seq![x] + s.subrange(pos, s.len() as int));
    }
}

/// The character sequences held by a list of character vectors.
pub open spec fn views_of(s: Seq<Vec<char>>) -> Seq<Seq<char>> {
    s.map_values(|v: Vec<char>| v@)
}

fn find_insert_pos(x: &Vec<char>, s: &Vec<Vec<char>>) -> (pos: usize)
    ensures
        pos <= s@.len(),
        forall|k: int| 0 <= k < pos ==> !lex_leq(x@, #[trigger] views_of(s@)[k]),
        pos < s@.len() ==> lex_leq(x@, views_of(s@)[pos as int]),
{
    let mut pos: usize = 0;
    while pos < s.len()
        invariant
            pos <= s@.len(),
            forall|k: int| 0 <= k < pos ==> !lex_leq(x@, #[trigger] views_of(s@)[k]),
        decreases s@.len() - pos,
    {
        proof {
            assert(views_of(s@)[pos as int] == s@[pos as int]@);
        }
        if lex_le(x, &s[pos]) {
            return pos;
        }
        pos = pos + 1;
    }
    pos
}

fn insert_sorted(x: Vec<char>, s: &mut Vec<Vec<char>>)
    ensures
        views_of(final(s)@) == spec_insert_sorted(x@, views_of(old(s)@)),
{
    let ghost xs = x@;
    let ghost ss = views_of(s@);
    let pos = find_insert_pos(&x, s);
    proof {
        lemma_insert_sorted_position(xs, ss, pos as int);
    }
    s.insert(pos, x);
    proof {
        assert(views_of(s@) =~= ss.subrange(0, pos as int) + seq![xs] + ss.subrange(
            pos as int,
            ss.len() as int,
        ));
    }
}

/// Sorts the tokens lexicographically by character value.
pub fn sort_tokens(v: &Vec<Vec<char>>) -> (r: Vec<Vec<char>>)
    ensures
        views_of(r@) == spec_sort(views_of(v@)),
{
    let ghost vs = views_of(v@);
    let mut r: Vec<Vec<char>> = Vec::new();
    let mut i: usize = 0;
    let n = v.len();
    proof {
        assert(views_of(r@) =~= spec_sort(vs.subrange(0, 0)));
    }
    while i < n
        invariant
            i <= n,
            n == vs.len(),
            vs == views_of(v@),
            views_of(r@) == spec_sort(vs.subrange(0, i as int)),
        decreases n - i,
    {
        let x = sub_chars(&v[i], 0, v[i].len());
        proof {
            assert(x@ =~= vs[i as int]);
            let pre = vs.subrange(0, i as int);
            let nxt = vs.subrange(0, i + 1);
            assert(nxt.drop_last() =~= pre);
            assert(nxt.last() == vs[i as int]);
        }
        insert_sorted(x, &mut r);
        i = i + 1;
    }
    proof {
        assert(vs.subrange(0, n as int) =~= vs);
    }
    r
}

/// Appends copies of all tokens in `src` to `dst`.
pub fn extend_tokens(dst: &mut Vec<Vec<char>>, src: &Vec<Vec<char>>)
    ensures
        views_of(final(dst)@) == views_of(old(dst)@) + views_of(src@),
{
    let mut i: usize = 0;
    proof {
        assert(views_of(dst@) =~= views_of(old(dst)@) + views_of(src@).subrange(0, 0));
    }
    while i < src.len()
        invariant
            i <= src@.len(),
            views_of(dst@) == views_of(old(dst)@) + views_of(src@).subrange(0, i as int),
        decreases src@.len() - i,
    {
        let x = sub_chars(&src[i], 0, src[i].len());
        proof {
            assert(x@ =~= views_of(src@)[i as int]);
        }
        let ghost prev = views_of(dst@);
        dst.push(x);
        i = i + 1;
        proof {
            assert(views_of(dst@) =~= prev.push(x@));
            assert(prev.push(x@) =~= views_of(old(dst)@) + views_of(src@).subrange(0, i as int));
        }
    }
    proof {
        assert(views_of(src@).subrange(0, src@.len() as int) =~= views_of(src@));
    }
}

/// Joining a list of character sequences with a separator between
/// neighbours.
pub open spec fn spec_join(parts: Seq<Seq<char>>, sep: Seq<char>) -> Seq<char>
    decreases parts.len(),
{
    if parts.len() == 0 {
        Seq::empty()
    } else if parts.len() == 1 {
        parts[0]
    } else {
        spec_join(parts.drop_last(), sep) + sep + parts.last()
    }
}

/// Joins the parts with the separator between neighbours.
pub fn join_chars(parts: &Vec<Vec<char>>, sep: &Vec<char>) -> (r: Vec<char>)
    ensures
        r@ == spec_join(views_of(parts@), sep@),
{
    let ghost ps = views_of(parts@);
    let mut r: Vec<char> = Vec::new();
    let mut i: usize = 0;
    while i < parts.len()
        invariant
            i <= ps.len(),
            ps.len() == parts@.len(),
            views_of(parts@) == ps,
            r@ == spec_join(ps.subrange(0, i as int), sep@),
        decreases ps.len() - i,
    {
        if i > 0 {
            append_chars(&mut r, sep);
        }
        proof {
            assert(parts@[i as int]@ == ps[i as int]);
        }
        append_chars(&mut r, &parts[i]);
        proof {
            let pre = ps.subrange(0, i as int);
            let nxt = ps.subrange(0, i + 1);
            assert(nxt.drop_last() =~= pre);
            assert(nxt.last() == ps[i as int]);
            if i == 0 {
                assert(r@ =~= spec_join(nxt, sep@));
            }
        }
        i = i + 1;
    }
    proof {
        assert(ps.subrange(0, parts@.len() as int) =~= ps);
    }
    r
}

} // verus!
