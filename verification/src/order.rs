//! Stable ordering of records by a text key.

use vstd::prelude::*;

use crate::text::char_vec;

verus! {

/// Lexicographic order by code point, a prefix before its extensions.
pub open spec fn lex_le(a: Seq<char>, b: Seq<char>) -> bool
    decreases a.len(),
{
    if a.len() == 0 {
        true
    } else if b.len() == 0 {
        false
    } else if a[0] != b[0] {
        (a[0] as int) < (b[0] as int)
    } else {
        lex_le(a.drop_first(), b.drop_first())
    }
}

/// A record that is ordered by a text.
pub trait Keyed {
    /// The characters that the record is ordered by.
    spec fn key(&self) -> Seq<char>;

    /// The text that the record is ordered by.
    fn key_text(&self) -> (r: &str)
        ensures
            r@ == self.key(),
    ;
}

impl Keyed for String {
    open spec fn key(&self) -> Seq<char> {
        self@
    }

    fn key_text(&self) -> (r: &str) {
        self.as_str()
    }
}

/// The records of `s` that carry the key `k`, in their order.
pub open spec fn with_key<T: Keyed>(s: Seq<T>, k: Seq<char>) -> Seq<T>
    decreases s.len(),
{
    if s.len() == 0 {
        Seq::empty()
    } else if s.last().key() == k {
        with_key(s.drop_last(), k).push(s.last())
    } else {
        with_key(s.drop_last(), k)
    }
}

/// Keys never decrease along `s`.
pub open spec fn is_sorted<T: Keyed>(s: Seq<T>) -> bool {
    forall|i: int, j: int|
        0 <= i < j < s.len() ==> lex_le(#[trigger] s[i].key(), #[trigger] s[j].key())
}

/// `output` holds the records of `input` ordered by key, records with equal
/// keys in the order in which they came.
pub open spec fn is_stable_sort<T: Keyed>(input: Seq<T>, output: Seq<T>) -> bool {
    &&& is_sorted(output)
    &&& output.len() == input.len()
    &&& forall|k: Seq<char>| #[trigger] with_key(output, k) == with_key(input, k)
}

/// The first text is the beginning of the second, or has the smaller character
/// where they first differ.
pub open spec fn comes_first(a: Seq<char>, b: Seq<char>) -> bool {
    exists|k: int| #[trigger] differ_at(a, b, k) && (k == a.len() || (k < b.len() && a[k] < b[k]))
}

/// The texts agree in their first `k` characters, and both have that many.
pub open spec fn differ_at(a: Seq<char>, b: Seq<char>, k: int) -> bool {
    0 <= k <= a.len() && k <= b.len() && a.take(k) == b.take(k)
}

/// Texts are ordered by their characters.
pub proof fn law_order_is_that_of_characters(a: Seq<char>, b: Seq<char>)
    ensures
        lex_le(a, b) <==> comes_first(a, b),
    decreases a.len(),
{
    if a.len() == 0 {
        assert(a.take(0) =~= b.take(0));
        assert(differ_at(a, b, 0));
    } else if b.len() > 0 {
        let (x, y) = (a.drop_first(), b.drop_first());
        law_order_is_that_of_characters(x, y);
        if a[0] == b[0] && comes_first(x, y) {
            let k = choose|k: int| #[trigger]
                differ_at(x, y, k) && (k == x.len() || (k < y.len() && x[k] < y[k]));
            assert(a.take(k + 1) =~= seq![a[0]] + x.take(k));
            assert(b.take(k + 1) =~= seq![b[0]] + y.take(k));
            assert(differ_at(a, b, k + 1));
        }
        if a[0] != b[0] && a[0] < b[0] {
            assert(a.take(0) =~= b.take(0));
            assert(differ_at(a, b, 0));
        }
        if comes_first(a, b) {
            let k = choose|k: int| #[trigger]
                differ_at(a, b, k) && (k == a.len() || (k < b.len() && a[k] < b[k]));
            if k > 0 {
                assert(a.take(k)[0] == b.take(k)[0]);
                assert(x.take(k - 1) =~= a.take(k).drop_first());
                assert(y.take(k - 1) =~= b.take(k).drop_first());
                assert(differ_at(x, y, k - 1));
            }
        }
    } else if comes_first(a, b) {
        let k = choose|k: int| #[trigger]
            differ_at(a, b, k) && (k == a.len() || (k < b.len() && a[k] < b[k]));
        assert(k == 0);
    }
}

/// Ordering a list neither adds nor loses a record, nor how often it is there;
/// records come in the order of their keys, and those with the same key in the
/// order in which they were.
pub proof fn law_ordering_keeps_the_records<T: Keyed>(input: Seq<T>, output: Seq<T>)
    requires
        is_stable_sort(input, output),
    ensures
        output.to_multiset() =~= input.to_multiset(),
        forall|i: int, j: int|
            0 <= i < j < output.len() ==> comes_first(
                #[trigger] output[i].key(),
                #[trigger] output[j].key(),
            ),
{
    assert forall|x: T| output.to_multiset().count(x) == input.to_multiset().count(x) by {
        lemma_class_counts(output, x);
        lemma_class_counts(input, x);
        assert(with_key(output, x.key()) == with_key(input, x.key()));
    }
    assert forall|i: int, j: int| 0 <= i < j < output.len() implies comes_first(
        #[trigger] output[i].key(),
        #[trigger] output[j].key(),
    ) by {
        law_order_is_that_of_characters(output[i].key(), output[j].key());
    }
}

/// A record is as often in a list as among those with its key.
proof fn lemma_class_counts<T: Keyed>(s: Seq<T>, x: T)
    ensures
        s.to_multiset().count(x) == with_key(s, x.key()).to_multiset().count(x),
    decreases s.len(),
{
    broadcast use vstd::seq_lib::group_to_multiset_ensures;

    if s.len() > 0 {
        let rest = s.drop_last();
        lemma_class_counts(rest, x);
        assert(s =~= rest.push(s.last()));
    }
}

/// The order is total.
pub proof fn lemma_lex_total(a: Seq<char>, b: Seq<char>)
    ensures
        lex_le(a, b) || lex_le(b, a),
    decreases a.len(),
{
    if a.len() > 0 && b.len() > 0 && a[0] == b[0] {
        lemma_lex_total(a.drop_first(), b.drop_first());
    }
}

/// The order is transitive.
pub proof fn lemma_lex_transitive(a: Seq<char>, b: Seq<char>, c: Seq<char>)
    requires
        lex_le(a, b),
        lex_le(b, c),
    ensures
        lex_le(a, c),
    decreases a.len(),
{
    if a.len() > 0 && b.len() > 0 && c.len() > 0 && a[0] == b[0] && b[0] == c[0] {
        lemma_lex_transitive(a.drop_first(), b.drop_first(), c.drop_first());
    }
}

/// Texts that stand before each other are equal.
pub proof fn lemma_lex_antisymmetric(a: Seq<char>, b: Seq<char>)
    requires
        lex_le(a, b),
        lex_le(b, a),
    ensures
        a == b,
    decreases a.len(),
{
    if a.len() > 0 && b.len() > 0 {
        lemma_lex_antisymmetric(a.drop_first(), b.drop_first());
        assert(a =~= seq![a[0]] + a.drop_first());
        assert(b =~= seq![b[0]] + b.drop_first());
    } else {
        assert(a =~= b);
    }
}

fn code_point(c: char) -> (r: u32)
    ensures
        r == c as int,
{
    c as u32
}

/// Whether `a` stands before `b` or equals it.
pub fn text_le(a: &str, b: &str) -> (r: bool)
    ensures
        r == lex_le(a@, b@),
{
    let x: Vec<char> = char_vec(a);
    let y: Vec<char> = char_vec(b);
    let mut i: usize = 0;
    proof {
        assert(a@.skip(0) =~= a@);
        assert(b@.skip(0) =~= b@);
    }
    loop
        invariant
            x@ == a@,
            y@ == b@,
            i <= x@.len(),
            i <= y@.len(),
            lex_le(a@, b@) == lex_le(a@.skip(i as int), b@.skip(i as int)),
        decreases x@.len() - i,
    {
        if i == x.len() {
            return true;
        }
        if i == y.len() {
            return false;
        }
        if x[i] != y[i] {
            return code_point(x[i]) < code_point(y[i]);
        }
        proof {
            assert(a@.skip(i as int).drop_first() =~= a@.skip(i + 1));
            assert(b@.skip(i as int).drop_first() =~= b@.skip(i + 1));
        }
        i = i + 1;
    }
}

proof fn lemma_with_key_concat<T: Keyed>(a: Seq<T>, b: Seq<T>, k: Seq<char>)
    ensures
        with_key(a + b, k) == with_key(a, k) + with_key(b, k),
    decreases b.len(),
{
    if b.len() == 0 {
        assert(a + b =~= a);
        assert(with_key(a, k) + with_key(b, k) =~= with_key(a, k));
    } else {
        assert((a + b).drop_last() =~= a + b.drop_last());
        lemma_with_key_concat(a, b.drop_last(), k);
        assert(with_key(a + b, k) =~= with_key(a, k) + with_key(b, k));
    }
}

proof fn lemma_without_key<T: Keyed>(s: Seq<T>, k: Seq<char>)
    requires
        forall|i: int| 0 <= i < s.len() ==> (#[trigger] s[i]).key() != k,
    ensures
        with_key(s, k) == Seq::<T>::empty(),
    decreases s.len(),
{
    if s.len() > 0 {
        assert forall|i: int| 0 <= i < s.drop_last().len() implies (#[trigger] s.drop_last()[i]).key()
            != k by {
            assert(s.drop_last()[i] == s[i]);
        }
        assert(s.last() == s[s.len() - 1]);
        lemma_without_key(s.drop_last(), k);
    }
}

/// Inserting a record behind every record that does not exceed it keeps the
/// order and puts it last among its equals.
proof fn lemma_insert<T: Keyed>(input: Seq<T>, out: Seq<T>, x: T, p: int)
    requires
        is_stable_sort(input, out),
        0 <= p <= out.len(),
        p > 0 ==> lex_le(out[p - 1].key(), x.key()),
        p < out.len() ==> !lex_le(out[p].key(), x.key()),
    ensures
        is_stable_sort(input.push(x), out.insert(p, x)),
{
    let new = out.insert(p, x);
    let low = out.subrange(0, p);
    let high = out.subrange(p, out.len() as int);
    assert(new =~= low + seq![x] + high);
    assert(out =~= low + high);
    assert forall|j: int| p <= j < out.len() implies lex_le(x.key(), #[trigger] out[j].key())
        && out[j].key() != x.key() by {
        lemma_lex_total(out[p].key(), x.key());
        if j > p {
            assert(lex_le(out[p].key(), out[j].key()));
            lemma_lex_transitive(x.key(), out[p].key(), out[j].key());
        }
        lemma_lex_total(x.key(), x.key());
    }
    assert forall|j: int| 0 <= j < p implies lex_le(#[trigger] out[j].key(), x.key()) by {
        if j < p - 1 {
            lemma_lex_transitive(out[j].key(), out[p - 1].key(), x.key());
        }
    }
    assert forall|i: int, j: int| 0 <= i < j < new.len() implies lex_le(
        #[trigger] new[i].key(),
        #[trigger] new[j].key(),
    ) by {
        let oi = if i < p { i } else { i - 1 };
        let oj = if j < p { j } else { j - 1 };
        if i != p && j != p {
            assert(new[i] == out[oi] && new[j] == out[oj]);
            assert(lex_le(out[oi].key(), out[oj].key()));
        } else if i == p {
            assert(new[j] == out[oj]);
            assert(lex_le(x.key(), out[oj].key()));
        } else {
            assert(new[i] == out[oi]);
            assert(lex_le(out[oi].key(), x.key()));
        }
    }
    assert forall|k: Seq<char>| #[trigger] with_key(new, k) == with_key(input.push(x), k) by {
        lemma_with_key_concat(low + seq![x], high, k);
        lemma_with_key_concat(low, seq![x], k);
        lemma_with_key_concat(low, high, k);
        assert(with_key(out, k) == with_key(input, k));
        assert(input.push(x).drop_last() =~= input);
        assert(seq![x].drop_last() =~= Seq::<T>::empty());
        reveal_with_fuel(with_key, 2);
        assert(seq![x].last() == x);
        assert(input.push(x).last() == x);
        assert(with_key(new, k) =~= with_key(low, k) + with_key(seq![x], k) + with_key(high, k));
        assert(with_key(input, k) =~= with_key(low, k) + with_key(high, k));
        if k == x.key() {
            assert forall|i: int| 0 <= i < high.len() implies (#[trigger] high[i]).key() != k by {
                assert(high[i] == out[p + i]);
                assert(out[p + i].key() != x.key());
            }
            lemma_without_key(high, k);
            assert(with_key(new, k) =~= with_key(input, k).push(x));
        } else {
            assert(with_key(new, k) =~= with_key(input, k));
        }
    }
}

/// Sorts records by key; records with equal keys keep their order.
pub fn sort_by_key<T: Keyed>(records: Vec<T>) -> (r: Vec<T>)
    ensures
        is_stable_sort(records@, r@),
{
    let mut rest: Vec<T> = records;
    let mut out: Vec<T> = Vec::new();
    let ghost mut done: Seq<T> = Seq::empty();
    while rest.len() > 0
        invariant
            done + rest@ == records@,
            is_stable_sort(done, out@),
        decreases rest@.len(),
    {
        let ghost before = rest@;
        let x: T = rest.remove(0);
        let mut p: usize = out.len();
        while p > 0 && !text_le(out[p - 1].key_text(), x.key_text())
            invariant
                p <= out@.len(),
                p < out@.len() ==> !lex_le(out@[p as int].key(), x.key()),
            decreases p,
        {
            p = p - 1;
        }
        proof {
            lemma_insert(done, out@, x, p as int);
            assert(done.push(x) + rest@ =~= done + before);
            done = done.push(x);
        }
        out.insert(p, x);
    }
    assert(done =~= records@);
    out
}

} // verus!
