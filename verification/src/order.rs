//! Lexicographic order of texts and byte strings.
use vstd::prelude::*;

use crate::text::chars_of;

verus! {

/// Whether `a` stands before `b` where the first difference decides, by `less`, and where a
/// beginning stands before what it begins.
pub open spec fn lex<A>(a: Seq<A>, b: Seq<A>, less: spec_fn(A, A) -> bool) -> bool
    decreases a.len(),
{
    if b.len() == 0 {
        false
    } else if a.len() == 0 {
        true
    } else if a[0] == b[0] {
        lex(a.drop_first(), b.drop_first(), less)
    } else {
        less(a[0], b[0])
    }
}

/// `less` is a strict total order.
pub open spec fn strict_total<A>(less: spec_fn(A, A) -> bool) -> bool {
    &&& forall|x: A| !#[trigger] less(x, x)
    &&& forall|x: A, y: A| x != y ==> #[trigger] less(x, y) || less(y, x)
    &&& forall|x: A, y: A, z: A| #[trigger] less(x, y) && #[trigger] less(y, z) ==> less(x, z)
}

/// Nothing stands before itself.
pub proof fn lemma_lex_irreflexive<A>(a: Seq<A>, less: spec_fn(A, A) -> bool)
    ensures
        !lex(a, a, less),
    decreases a.len(),
{
    if a.len() > 0 {
        lemma_lex_irreflexive(a.drop_first(), less);
    }
}

/// Of two different lists one stands before the other.
pub proof fn lemma_lex_total<A>(a: Seq<A>, b: Seq<A>, less: spec_fn(A, A) -> bool)
    requires
        strict_total(less),
    ensures
        a == b || lex(a, b, less) || lex(b, a, less),
    decreases a.len(),
{
    if a.len() == 0 && b.len() == 0 {
        assert(a == b);
    } else if a.len() > 0 && b.len() > 0 && a[0] == b[0] {
        lemma_lex_total(a.drop_first(), b.drop_first(), less);
        if a.drop_first() == b.drop_first() {
            assert(a == seq![a[0]] + a.drop_first());
            assert(b == seq![b[0]] + b.drop_first());
        }
    }
}

/// What stands before something that stands before a third stands before the third.
pub proof fn lemma_lex_transitive<A>(a: Seq<A>, b: Seq<A>, c: Seq<A>, less: spec_fn(A, A) -> bool)
    requires
        strict_total(less),
        lex(a, b, less),
        lex(b, c, less),
    ensures
        lex(a, c, less),
    decreases a.len(),
{
    if a.len() > 0 {
        if a[0] == b[0] && b[0] == c[0] {
            lemma_lex_transitive(a.drop_first(), b.drop_first(), c.drop_first(), less);
        } else if a[0] != b[0] && b[0] != c[0] {
            assert(less(a[0], b[0]) && less(b[0], c[0]));
            assert(less(a[0], c[0]));
            assert(a[0] != c[0]) by {
                assert(!less(a[0], a[0]));
            }
        }
    }
}

/// Characters by code point.
pub open spec fn char_less() -> spec_fn(char, char) -> bool {
    |x: char, y: char| (x as int) < (y as int)
}

/// Bytes by value.
pub open spec fn byte_less() -> spec_fn(u8, u8) -> bool {
    |x: u8, y: u8| x < y
}

/// Byte strings in lexicographic order.
pub open spec fn bytes_less() -> spec_fn(Seq<u8>, Seq<u8>) -> bool {
    |x: Seq<u8>, y: Seq<u8>| lex(x, y, byte_less())
}

/// Whether the text `a` sorts before the text `b`.
pub open spec fn text_before(a: Seq<char>, b: Seq<char>) -> bool {
    lex(a, b, char_less())
}

/// `text_before` is a strict total order.
pub proof fn lemma_text_order()
    ensures
        strict_total(char_less()),
        forall|a: Seq<char>| !#[trigger] text_before(a, a),
        forall|a: Seq<char>, b: Seq<char>|
            a != b ==> #[trigger] text_before(a, b) || text_before(b, a),
        forall|a: Seq<char>, b: Seq<char>, c: Seq<char>| #[trigger]
            text_before(a, b) && #[trigger] text_before(b, c) ==> text_before(a, c),
{
    assert forall|a: Seq<char>| !#[trigger] text_before(a, a) by {
        lemma_lex_irreflexive(a, char_less());
    }
    assert forall|a: Seq<char>, b: Seq<char>| a != b implies #[trigger] text_before(a, b)
        || text_before(b, a) by {
        lemma_lex_total(a, b, char_less());
    }
    assert forall|a: Seq<char>, b: Seq<char>, c: Seq<char>| #[trigger]
        text_before(a, b) && #[trigger] text_before(b, c) implies text_before(a, c) by {
        lemma_lex_transitive(a, b, c, char_less());
    }
}

/// Byte strings are in a strict total order.
pub proof fn lemma_bytes_order()
    ensures
        strict_total(byte_less()),
        strict_total(bytes_less()),
{
    let less = bytes_less();
    assert forall|a: Seq<u8>| !#[trigger] less(a, a) by {
        lemma_lex_irreflexive(a, byte_less());
    }
    assert forall|a: Seq<u8>, b: Seq<u8>| a != b implies #[trigger] less(a, b) || less(b, a) by {
        lemma_lex_total(a, b, byte_less());
    }
    assert forall|a: Seq<u8>, b: Seq<u8>, c: Seq<u8>| #[trigger] less(a, b) && #[trigger] less(
        b,
        c,
    ) implies less(a, c) by {
        lemma_lex_transitive(a, b, c, byte_less());
    }
}

/// After a common beginning the rest decides.
pub proof fn lemma_lex_skip<A>(a: Seq<A>, b: Seq<A>, n: int, less: spec_fn(A, A) -> bool)
    requires
        0 <= n <= a.len(),
        n <= b.len(),
        a.take(n) == b.take(n),
    ensures
        lex(a, b, less) == lex(a.skip(n), b.skip(n), less),
    decreases n,
{
    if n == 0 {
        assert(a.skip(0) == a);
        assert(b.skip(0) == b);
    } else {
        assert(a[0] == a.take(n)[0]);
        assert(b[0] == b.take(n)[0]);
        assert(a.drop_first().take(n - 1) == a.take(n).drop_first());
        assert(b.drop_first().take(n - 1) == b.take(n).drop_first());
        lemma_lex_skip(a.drop_first(), b.drop_first(), n - 1, less);
        assert(a.drop_first().skip(n - 1) == a.skip(n));
        assert(b.drop_first().skip(n - 1) == b.skip(n));
    }
}

fn code_point(c: char) -> (r: u32)
    ensures
        r as int == c as int,
{
    c as u32
}

/// Whether the text `a` sorts before the text `b`.
pub fn sorts_before(a: &str, b: &str) -> (r: bool)
    ensures
        r == text_before(a@, b@),
{
    let x = chars_of(a);
    let y = chars_of(b);
    let mut i: usize = 0;
    while i < x.len() && i < y.len() && x[i] == y[i]
        invariant
            x@ == a@,
            y@ == b@,
            i <= x.len(),
            i <= y.len(),
            x@.take(i as int) == y@.take(i as int),
        decreases x.len() - i,
    {
        assert(x@.take(i + 1) == x@.take(i as int).push(x@[i as int]));
        assert(y@.take(i + 1) == y@.take(i as int).push(y@[i as int]));
        i = i + 1;
    }
    proof {
        lemma_lex_skip(x@, y@, i as int, char_less());
    }
    if i == y.len() {
        false
    } else if i == x.len() {
        true
    } else {
        code_point(x[i]) < code_point(y[i])
    }
}

/// Whether the byte string `x` sorts before the byte string `y`.
pub fn bytes_sort_before(x: &Vec<u8>, y: &Vec<u8>) -> (r: bool)
    ensures
        r == lex(x@, y@, byte_less()),
{
    let mut i: usize = 0;
    while i < x.len() && i < y.len() && x[i] == y[i]
        invariant
            i <= x.len(),
            i <= y.len(),
            x@.take(i as int) == y@.take(i as int),
        decreases x.len() - i,
    {
        assert(x@.take(i + 1) == x@.take(i as int).push(x@[i as int]));
        assert(y@.take(i + 1) == y@.take(i as int).push(y@[i as int]));
        i = i + 1;
    }
    proof {
        lemma_lex_skip(x@, y@, i as int, byte_less());
    }
    if i == y.len() {
        false
    } else if i == x.len() {
        true
    } else {
        x[i] < y[i]
    }
}

/// Whether the two byte strings are equal.
pub fn same_bytes(x: &Vec<u8>, y: &Vec<u8>) -> (r: bool)
    ensures
        r == (x@ == y@),
{
    if x.len() != y.len() {
        return false;
    }
    let mut i: usize = 0;
    while i < x.len()
        invariant
            x.len() == y.len(),
            i <= x.len(),
            forall|j: int| 0 <= j < i ==> x@[j] == y@[j],
        decreases x.len() - i,
    {
        if x[i] != y[i] {
            return false;
        }
        i = i + 1;
    }
    assert(x@ == y@);
    true
}

/// The first difference decides, and a beginning stands before what it begins: `k` is the length
/// of what the two have in common.
pub proof fn law_first_difference_decides<A>(
    a: Seq<A>,
    b: Seq<A>,
    k: int,
    less: spec_fn(A, A) -> bool,
)
    requires
        0 <= k <= a.len(),
        k <= b.len(),
        a.take(k) == b.take(k),
        k < a.len() && k < b.len() ==> a[k] != b[k],
    ensures
        lex(a, b, less) == (k < b.len() && (k == a.len() || less(a[k], b[k]))),
{
    lemma_lex_skip(a, b, k, less);
    if k < a.len() {
        assert(a.skip(k)[0] == a[k]);
    }
    if k < b.len() {
        assert(b.skip(k)[0] == b[k]);
    }
}

/// Texts sort by the code points, and byte strings by the bytes, at their first difference.
pub proof fn law_code_points_and_bytes_decide(
    a: Seq<char>,
    b: Seq<char>,
    x: Seq<u8>,
    y: Seq<u8>,
    k: int,
)
    requires
        0 <= k,
    ensures
        k < a.len() && k < b.len() && a.take(k) == b.take(k) && a[k] != b[k] ==> text_before(a, b)
            == ((a[k] as int) < (b[k] as int)),
        k < x.len() && k < y.len() && x.take(k) == y.take(k) && x[k] != y[k] ==> lex(
            x,
            y,
            byte_less(),
        ) == (x[k] < y[k]),
        k == a.len() && k < b.len() && b.take(k) == a ==> text_before(a, b) && !text_before(b, a),
        k == x.len() && k < y.len() && y.take(k) == x ==> lex(x, y, byte_less()) && !lex(
            y,
            x,
            byte_less(),
        ),
{
    if k < a.len() && k < b.len() && a.take(k) == b.take(k) && a[k] != b[k] {
        law_first_difference_decides(a, b, k, char_less());
    }
    if k < x.len() && k < y.len() && x.take(k) == y.take(k) && x[k] != y[k] {
        law_first_difference_decides(x, y, k, byte_less());
    }
    if k == a.len() && k < b.len() && b.take(k) == a {
        assert(a.take(k) =~= a);
        law_first_difference_decides(a, b, k, char_less());
        law_first_difference_decides(b, a, k, char_less());
    }
    if k == x.len() && k < y.len() && y.take(k) == x {
        assert(x.take(k) =~= x);
        law_first_difference_decides(x, y, k, byte_less());
        law_first_difference_decides(y, x, k, byte_less());
    }
}

} // verus!
