//! Absolute file system paths, by their components.
//!
//! A path of Linux is a list of byte strings. The order of paths, the file name of a path and
//! its replacement are those of the components, so that `/a/b` sorts before `/a-b`.
use vstd::prelude::*;
use vstd::utf8::{decode_utf8, encode_utf8, valid_utf8};

use crate::order::{byte_less, bytes_less, bytes_sort_before, law_first_difference_decides, lemma_bytes_order, lemma_lex_irreflexive, lemma_lex_skip, lemma_lex_total, lemma_lex_transitive, lex, same_bytes, strict_total};
use crate::text::{lemma_filter_pushed, split};

verus! {

/// The byte `/`.
pub const SLASH: u8 = 47;

/// The byte `.`.
pub const DOT: u8 = 46;

/// The views of a list of byte strings.
pub open spec fn byte_lists(list: Seq<Vec<u8>>) -> Seq<Seq<u8>> {
    Seq::new(list.len(), |i: int| list[i]@)
}

/// Whether a piece between two slashes is a component: it is neither empty nor `.`.
pub open spec fn is_component(piece: Seq<u8>) -> bool {
    piece.len() > 0 && piece != seq![DOT]
}

/// The components of the absolute path that `bytes` writes.
pub open spec fn components_of(bytes: Seq<u8>) -> Seq<Seq<u8>> {
    split(bytes, SLASH).filter(|piece: Seq<u8>| is_component(piece))
}

/// Each component with a slash before it.
pub open spec fn slashed(components: Seq<Seq<u8>>) -> Seq<u8>
    decreases components.len(),
{
    if components.len() == 0 {
        Seq::empty()
    } else {
        slashed(components.drop_last()).push(SLASH) + components.last()
    }
}

/// The absolute path with these components.
pub open spec fn path_bytes(components: Seq<Seq<u8>>) -> Seq<u8> {
    if components.len() == 0 {
        seq![SLASH]
    } else {
        slashed(components)
    }
}

/// The last component, unless it leads to a parent directory.
pub open spec fn file_name_of(components: Seq<Seq<u8>>) -> Option<Seq<u8>> {
    if components.len() > 0 && components.last() != parent_dir() {
        Some(components.last())
    } else {
        None
    }
}

/// The path without its file name, if it has one.
pub open spec fn directory_of(components: Seq<Seq<u8>>) -> Seq<Seq<u8>> {
    if file_name_of(components) is Some {
        components.drop_last()
    } else {
        components
    }
}

/// The path with its file name, if it has one, replaced by `name`: the components of `name`
/// take its place, or that of the whole path where `name` is absolute.
pub open spec fn renamed(components: Seq<Seq<u8>>, name: Seq<u8>) -> Seq<Seq<u8>> {
    if name.len() > 0 && name[0] == SLASH {
        components_of(name)
    } else {
        directory_of(components) + components_of(name)
    }
}

/// The component that leads to a parent directory.
pub open spec fn parent_dir() -> Seq<u8> {
    seq![DOT, DOT]
}

/// Components in the order of their bytes, but for the one that leads to a parent directory,
/// which sorts before the others.
pub open spec fn component_less() -> spec_fn(Seq<u8>, Seq<u8>) -> bool {
    |x: Seq<u8>, y: Seq<u8>| y != parent_dir() && (x == parent_dir() || bytes_less()(x, y))
}

/// Whether the path `a` sorts before the path `b`.
pub open spec fn path_before(a: Seq<Seq<u8>>, b: Seq<Seq<u8>>) -> bool {
    lex(a, b, component_less())
}

/// An absolute path.
#[derive(Debug)]
pub struct SysPath {
    components: Vec<Vec<u8>>,
}

impl View for SysPath {
    type V = Seq<Seq<u8>>;

    closed spec fn view(&self) -> Seq<Seq<u8>> {
        byte_lists(self.components@)
    }
}

fn copy_bytes(bytes: &Vec<u8>) -> (r: Vec<u8>)
    ensures
        r@ == bytes@,
{
    vstd::slice::slice_to_vec(bytes.as_slice())
}

impl SysPath {
    /// Each component is a name: not empty, not `.`, and without a slash.
    pub open spec fn well_formed(&self) -> bool {
        forall|i: int|
            0 <= i < self@.len() ==> is_component(#[trigger] self@[i]) && !self@[i].contains(SLASH)
    }

    #[verifier::type_invariant]
    spec fn names(self) -> bool {
        self.well_formed()
    }

    /// Reads an absolute path.
    pub fn from_bytes(bytes: &Vec<u8>) -> (r: SysPath)
        ensures
            r@ == components_of(bytes@),
            r.well_formed(),
    {
        let ghost keep = |piece: Seq<u8>| is_component(piece);
        let mut components: Vec<Vec<u8>> = Vec::new();
        let mut piece: Vec<u8> = Vec::new();
        let mut i: usize = 0;
        assert(split(bytes@.take(0), SLASH) == seq![Seq::<u8>::empty()]);
        assert(split(bytes@.take(0), SLASH).drop_last() == Seq::<Seq<u8>>::empty());
        proof {
            lemma_filter_none(keep);
        }
        assert(byte_lists(components@) == Seq::<Seq<u8>>::empty());
        while i < bytes.len()
            invariant
                i <= bytes.len(),
                keep == (|piece: Seq<u8>| is_component(piece)),
                split(bytes@.take(i as int), SLASH).len() > 0,
                split(bytes@.take(i as int), SLASH).last() == piece@,
                !piece@.contains(SLASH),
                byte_lists(components@) == split(bytes@.take(i as int), SLASH).drop_last().filter(
                    keep,
                ),
                forall|j: int|
                    0 <= j < components.len() ==> is_component(#[trigger] components@[j]@)
                        && !components@[j]@.contains(SLASH),
            decreases bytes.len() - i,
        {
            let ghost before = split(bytes@.take(i as int), SLASH);
            let ghost had = components@;
            assert(bytes@.take(i + 1).drop_last() == bytes@.take(i as int));
            assert(bytes@.take(i + 1).last() == bytes@[i as int]);
            let b: u8 = bytes[i];
            if b == SLASH {
                assert(split(bytes@.take(i + 1), SLASH).drop_last() == before);
                assert(before == before.drop_last().push(piece@));
                proof {
                    lemma_filter_last(before, keep);
                }
                if component(&piece) {
                    components.push(piece);
                    assert(byte_lists(components@) == byte_lists(had).push(piece@));
                }
                piece = Vec::new();
            } else {
                let ghost was = piece@;
                piece.push(b);
                assert(split(bytes@.take(i + 1), SLASH).drop_last() == before.drop_last());
                assert(!piece@.contains(SLASH)) by {
                    if piece@.contains(SLASH) {
                        let k = choose|k: int| 0 <= k < piece@.len() && piece@[k] == SLASH;
                        if k < was.len() {
                            assert(was[k] == SLASH);
                        }
                    }
                }
            }
            i = i + 1;
        }
        assert(bytes@.take(i as int) == bytes@);
        let ghost all = split(bytes@, SLASH);
        let ghost had = components@;
        assert(all == all.drop_last().push(piece@));
        proof {
            lemma_filter_last(all, keep);
        }
        if component(&piece) {
            components.push(piece);
            assert(byte_lists(components@) == byte_lists(had).push(piece@));
        }
        assert forall|j: int| 0 <= j < byte_lists(components@).len() implies is_component(
            #[trigger] byte_lists(components@)[j],
        ) && !byte_lists(components@)[j].contains(SLASH) by {
            assert(is_component(components@[j]@));
        }
        SysPath { components }
    }

    /// Writes the path.
    pub fn to_bytes(&self) -> (r: Vec<u8>)
        ensures
            r@ == path_bytes(self@),
    {
        let mut out: Vec<u8> = Vec::new();
        if self.components.len() == 0 {
            out.push(SLASH);
            return out;
        }
        let mut i: usize = 0;
        assert(self@.take(0) == Seq::<Seq<u8>>::empty());
        while i < self.components.len()
            invariant
                i <= self.components.len(),
                self@ == byte_lists(self.components@),
                out@ == slashed(self@.take(i as int)),
            decreases self.components.len() - i,
        {
            let ghost had = out@;
            assert(self@.take(i + 1).drop_last() == self@.take(i as int));
            out.push(SLASH);
            let mut name = copy_bytes(&self.components[i]);
            out.append(&mut name);
            assert(self@.take(i + 1).last() == self.components@[i as int]@);
            i = i + 1;
        }
        assert(self@.take(i as int) == self@);
        out
    }

    /// The file name.
    pub fn file_name(&self) -> (r: Option<&Vec<u8>>)
        ensures
            r is Some <==> file_name_of(self@) is Some,
            r matches Some(name) ==> file_name_of(self@) == Some(name@) && !name@.contains(SLASH),
    {
        proof {
            use_type_invariant(self);
        }
        let n: usize = self.components.len();
        if n == 0 {
            return None;
        }
        let last = &self.components[n - 1];
        assert(self@[n - 1] == last@);
        if leads_to_parent(last) {
            None
        } else {
            Some(last)
        }
    }

    /// The path with its file name replaced.
    pub fn with_file_name(&self, name: &Vec<u8>) -> (r: SysPath)
        ensures
            r@ == renamed(self@, name@),
            r.well_formed(),
    {
        proof {
            use_type_invariant(self);
        }
        let named = SysPath::from_bytes(name);
        if name.len() > 0 && name[0] == SLASH {
            return named;
        }
        let mut kept: usize = self.components.len();
        if self.file_name().is_some() {
            kept = kept - 1;
        }
        let mut components: Vec<Vec<u8>> = Vec::new();
        let mut i: usize = 0;
        while i < kept
            invariant
                i <= kept <= self.components.len(),
                self@ == byte_lists(self.components@),
                byte_lists(components@) == self@.take(i as int),
            decreases kept - i,
        {
            let ghost had = components@;
            components.push(copy_bytes(&self.components[i]));
            assert(byte_lists(components@) == byte_lists(had).push(self@[i as int]));
            i = i + 1;
            assert(byte_lists(components@) == self@.take(i as int));
        }
        assert(byte_lists(components@) == directory_of(self@));
        let ghost dir = components@;
        let ghost tail = named@;
        let mut rest = named.components;
        let ghost added = rest@;
        components.append(&mut rest);
        assert(byte_lists(components@) =~= byte_lists(dir) + byte_lists(added));
        assert(byte_lists(components@) == renamed(self@, name@));
        assert forall|i: int| 0 <= i < byte_lists(components@).len() implies is_component(
            #[trigger] byte_lists(components@)[i],
        ) && !byte_lists(components@)[i].contains(SLASH) by {
            if i < kept {
                assert(byte_lists(components@)[i] == self@[i]);
            } else {
                assert(byte_lists(components@)[i] == tail[i - kept]);
            }
        }
        SysPath { components }
    }

    /// A copy of the path.
    pub fn copy(&self) -> (r: SysPath)
        ensures
            r@ == self@,
    {
        let mut components: Vec<Vec<u8>> = Vec::new();
        let mut i: usize = 0;
        while i < self.components.len()
            invariant
                i <= self.components.len(),
                self@ == byte_lists(self.components@),
                byte_lists(components@) == self@.take(i as int),
            decreases self.components.len() - i,
        {
            let ghost had = components@;
            components.push(copy_bytes(&self.components[i]));
            assert(byte_lists(components@) == byte_lists(had).push(self@[i as int]));
            i = i + 1;
            assert(byte_lists(components@) == self@.take(i as int));
        }
        proof {
            use_type_invariant(self);
            assert(self@.take(i as int) == self@);
        }
        SysPath { components }
    }

    /// Whether this path sorts before `other`.
    pub fn sorts_before(&self, other: &SysPath) -> (r: bool)
        ensures
            r == path_before(self@, other@),
    {
        let x = &self.components;
        let y = &other.components;
        let mut i: usize = 0;
        while i < x.len() && i < y.len() && same_bytes(&x[i], &y[i])
            invariant
                self@ == byte_lists(x@),
                other@ == byte_lists(y@),
                i <= x.len(),
                i <= y.len(),
                self@.take(i as int) == other@.take(i as int),
            decreases x.len() - i,
        {
            assert(self@.take(i + 1) == self@.take(i as int).push(x@[i as int]@));
            assert(other@.take(i + 1) == other@.take(i as int).push(y@[i as int]@));
            i = i + 1;
        }
        proof {
            lemma_lex_skip(self@, other@, i as int, component_less());
        }
        if i == y.len() {
            false
        } else if i == x.len() {
            true
        } else {
            !leads_to_parent(&y[i]) && (leads_to_parent(&x[i]) || bytes_sort_before(&x[i], &y[i]))
        }
    }

    /// Whether the two paths are equal.
    pub fn same(&self, other: &SysPath) -> (r: bool)
        ensures
            r == (self@ == other@),
    {
        let before = self.sorts_before(other);
        let after = other.sorts_before(self);
        proof {
            lemma_path_order();
            lemma_lex_irreflexive(self@, component_less());
        }
        !before && !after
    }
}

fn component(piece: &Vec<u8>) -> (r: bool)
    ensures
        r == is_component(piece@),
{
    let dot: bool = piece.len() == 1 && piece[0] == DOT;
    assert(dot == (piece@ == seq![DOT])) by {
        if piece.len() == 1 && piece@[0] == DOT {
            assert(piece@ =~= seq![DOT]);
        }
    }
    piece.len() > 0 && !dot
}

fn leads_to_parent(piece: &Vec<u8>) -> (r: bool)
    ensures
        r == (piece@ == parent_dir()),
{
    let r: bool = piece.len() == 2 && piece[0] == DOT && piece[1] == DOT;
    assert(r == (piece@ == parent_dir())) by {
        if r {
            assert(piece@ =~= parent_dir());
        }
    }
    r
}

/// Components are in a strict total order.
proof fn lemma_component_order()
    ensures
        strict_total(component_less()),
{
    lemma_bytes_order();
    let less = component_less();
    let bytes = bytes_less();
    assert forall|x: Seq<u8>| !#[trigger] less(x, x) by {
        assert(!bytes(x, x));
    }
    assert forall|x: Seq<u8>, y: Seq<u8>| x != y implies #[trigger] less(x, y) || less(y, x) by {
        assert(bytes(x, y) || bytes(y, x));
    }
    assert forall|x: Seq<u8>, y: Seq<u8>, z: Seq<u8>| #[trigger] less(x, y) && #[trigger] less(
        y,
        z,
    ) implies less(x, z) by {
        if x != parent_dir() {
            assert(bytes(x, y) && bytes(y, z));
        }
    }
}

/// `path_before` is a strict total order.
pub proof fn lemma_path_order()
    ensures
        forall|a: Seq<Seq<u8>>| !#[trigger] path_before(a, a),
        forall|a: Seq<Seq<u8>>, b: Seq<Seq<u8>>|
            a != b ==> #[trigger] path_before(a, b) || path_before(b, a),
        forall|a: Seq<Seq<u8>>, b: Seq<Seq<u8>>, c: Seq<Seq<u8>>| #[trigger]
            path_before(a, b) && #[trigger] path_before(b, c) ==> path_before(a, c),
{
    lemma_component_order();
    assert forall|a: Seq<Seq<u8>>| !#[trigger] path_before(a, a) by {
        lemma_lex_irreflexive(a, component_less());
    }
    assert forall|a: Seq<Seq<u8>>, b: Seq<Seq<u8>>| a != b implies #[trigger] path_before(a, b)
        || path_before(b, a) by {
        lemma_lex_total(a, b, component_less());
    }
    assert forall|a: Seq<Seq<u8>>, b: Seq<Seq<u8>>, c: Seq<Seq<u8>>| #[trigger]
        path_before(a, b) && #[trigger] path_before(b, c) implies path_before(a, c) by {
        lemma_lex_transitive(a, b, c, component_less());
    }
}

/// A piece without separators behind a separator is the last piece.
proof fn lemma_split_appended(s: Seq<u8>, piece: Seq<u8>)
    requires
        !piece.contains(SLASH),
    ensures
        split(s.push(SLASH) + piece, SLASH) == split(s, SLASH).push(piece),
    decreases piece.len(),
{
    let all = s.push(SLASH) + piece;
    if piece.len() == 0 {
        assert(all == s.push(SLASH));
        assert(all.drop_last() == s);
        assert(piece == Seq::<u8>::empty());
    } else {
        let shorter = piece.drop_last();
        assert(!shorter.contains(SLASH)) by {
            if shorter.contains(SLASH) {
                let k = choose|k: int| 0 <= k < shorter.len() && shorter[k] == SLASH;
                assert(piece[k] == SLASH);
            }
        }
        lemma_split_appended(s, shorter);
        assert(all.drop_last() == s.push(SLASH) + shorter);
        assert(all.last() == piece.last());
        assert(piece.last() != SLASH) by {
            assert(piece[piece.len() - 1] == piece.last());
        }
        assert(split(s, SLASH).push(shorter).drop_last() == split(s, SLASH));
        assert(shorter.push(piece.last()) == piece);
    }
}

proof fn lemma_split_slashed(components: Seq<Seq<u8>>)
    requires
        forall|i: int|
            0 <= i < components.len() ==> is_component(#[trigger] components[i])
                && !components[i].contains(SLASH),
    ensures
        split(slashed(components), SLASH) == seq![Seq::<u8>::empty()] + components,
    decreases components.len(),
{
    if components.len() == 0 {
        assert(seq![Seq::<u8>::empty()] + components == seq![Seq::<u8>::empty()]);
    } else {
        let before = components.drop_last();
        assert forall|i: int| 0 <= i < before.len() implies is_component(#[trigger] before[i])
            && !before[i].contains(SLASH) by {
            assert(before[i] == components[i]);
        }
        lemma_split_slashed(before);
        assert(components.last() == components[components.len() - 1]);
        lemma_split_appended(slashed(before), components.last());
        assert(seq![Seq::<u8>::empty()] + components == (seq![Seq::<u8>::empty()] + before).push(
            components.last(),
        ));
    }
}

proof fn lemma_filter_last(s: Seq<Seq<u8>>, keep: spec_fn(Seq<u8>) -> bool)
    requires
        s.len() > 0,
    ensures
        s.filter(keep) == if keep(s.last()) {
            s.drop_last().filter(keep).push(s.last())
        } else {
            s.drop_last().filter(keep)
        },
{
    reveal(Seq::filter);
}

proof fn lemma_filter_none(keep: spec_fn(Seq<u8>) -> bool)
    ensures
        Seq::<Seq<u8>>::empty().filter(keep) == Seq::<Seq<u8>>::empty(),
{
    reveal(Seq::filter);
}

proof fn lemma_all_kept(s: Seq<Seq<u8>>, keep: spec_fn(Seq<u8>) -> bool)
    requires
        forall|i: int| 0 <= i < s.len() ==> keep(#[trigger] s[i]),
    ensures
        s.filter(keep) == s,
    decreases s.len(),
{
    if s.len() == 0 {
        lemma_filter_none(keep);
        assert(s == Seq::<Seq<u8>>::empty());
    } else {
        let before = s.drop_last();
        lemma_all_kept(before, keep);
        lemma_filter_last(s, keep);
        assert(before.push(s.last()) == s);
    }
}

/// A path that is written reads back as the same path.
pub proof fn law_path_reads_back(path: &SysPath)
    requires
        path.well_formed(),
    ensures
        components_of(path_bytes(path@)) == path@,
{
    let keep = |piece: Seq<u8>| is_component(piece);
    if path@.len() == 0 {
        let bytes = seq![SLASH];
        assert(bytes.drop_last() == Seq::<u8>::empty());
        let first = seq![Seq::<u8>::empty()];
        assert(split(Seq::<u8>::empty(), SLASH) == first);
        let pieces = split(bytes, SLASH);
        assert(pieces == first.push(Seq::<u8>::empty()));
        lemma_filter_last(pieces, keep);
        assert(pieces.drop_last() == first);
        lemma_filter_last(first, keep);
        assert(first.drop_last() == Seq::<Seq<u8>>::empty());
        lemma_filter_none(keep);
        assert(path@ == Seq::<Seq<u8>>::empty());
    } else {
        lemma_split_slashed(path@);
        assert forall|i: int| 0 <= i < path@.len() implies keep(#[trigger] path@[i]) by {
            assert(is_component(path@[i]));
        }
        lemma_all_kept(path@, keep);
        let first = seq![Seq::<u8>::empty()];
        Seq::filter_distributes_over_add(first, path@, keep);
        lemma_filter_last(first, keep);
        assert(first.drop_last() == Seq::<Seq<u8>>::empty());
        lemma_filter_none(keep);
        assert(Seq::<Seq<u8>>::empty() + path@ == path@);
    }
}

/// A text without separators is its only piece.
proof fn lemma_split_whole(s: Seq<u8>)
    requires
        !s.contains(SLASH),
    ensures
        split(s, SLASH) == seq![s],
    decreases s.len(),
{
    if s.len() == 0 {
        assert(s == Seq::<u8>::empty());
    } else {
        let shorter = s.drop_last();
        assert(!shorter.contains(SLASH)) by {
            if shorter.contains(SLASH) {
                let k = choose|k: int| 0 <= k < shorter.len() && shorter[k] == SLASH;
                assert(s[k] == SLASH);
            }
        }
        lemma_split_whole(shorter);
        assert(s.contains(s.last()));
        assert(seq![shorter].drop_last() == Seq::<Seq<u8>>::empty());
        assert(shorter.push(s.last()) == s);
        assert(Seq::<Seq<u8>>::empty().push(s) == seq![s]);
    }
}

/// A name without a slash takes the place of the file name, and is the file name from then on.
pub proof fn law_renamed_path_has_the_name(components: Seq<Seq<u8>>, name: Seq<u8>)
    requires
        is_component(name),
        !name.contains(SLASH),
    ensures
        renamed(components, name) == directory_of(components).push(name),
        name != parent_dir() ==> file_name_of(renamed(components, name)) == Some(name),
        directory_of(renamed(components, name)) == if name != parent_dir() {
            directory_of(components)
        } else {
            renamed(components, name)
        },
{
    let keep = |piece: Seq<u8>| is_component(piece);
    lemma_split_whole(name);
    lemma_all_kept(seq![name], keep);
    assert(name.contains(name[0]));
    assert(directory_of(components) + seq![name] =~= directory_of(components).push(name));
    assert(directory_of(components).push(name).drop_last() =~= directory_of(components));
}

/// The text that the bytes encode in UTF-8.
///
/// Calls `std::str::from_utf8`, which accepts exactly the valid encodings and then gives the
/// text that they encode.
#[verifier::external_body]
pub(crate) fn utf8_text(bytes: &Vec<u8>) -> (r: Option<String>)
    ensures
        r is Some <==> valid_utf8(bytes@),
        r matches Some(s) ==> s@ == decode_utf8(bytes@),
{
    match std::str::from_utf8(bytes) {
        Ok(s) => Some(s.to_string()),
        Err(_) => None,
    }
}

/// What stands at a path.
pub trait AtPath: Sized {
    /// The components of the path.
    spec fn place(&self) -> Seq<Seq<u8>>;

    /// The path.
    fn path(&self) -> (r: &SysPath)
        ensures
            r@ == self.place(),
    ;
}

impl AtPath for SysPath {
    open spec fn place(&self) -> Seq<Seq<u8>> {
        self@
    }

    fn path(&self) -> (r: &SysPath) {
        self
    }
}

/// `s` with `x` put behind all that does not sort after it.
pub open spec fn placed<T: AtPath>(s: Seq<T>, x: T) -> Seq<T>
    decreases s.len(),
{
    if s.len() > 0 && path_before(x.place(), s.last().place()) {
        placed(s.drop_last(), x).push(s.last())
    } else {
        s.push(x)
    }
}

/// `s` sorted by path; what stands at the same path keeps its order.
pub open spec fn by_path<T: AtPath>(s: Seq<T>) -> Seq<T>
    decreases s.len(),
{
    if s.len() == 0 {
        s
    } else {
        placed(by_path(s.drop_last()), s.last())
    }
}

proof fn lemma_placed_at<T: AtPath>(s: Seq<T>, x: T, k: int)
    requires
        0 <= k <= s.len(),
        forall|i: int| k <= i < s.len() ==> path_before(x.place(), (#[trigger] s[i]).place()),
        k > 0 ==> !path_before(x.place(), s[k - 1].place()),
    ensures
        placed(s, x) == s.insert(k, x),
    decreases s.len(),
{
    if k == s.len() {
        assert(s.insert(k, x) == s.push(x));
    } else {
        assert(path_before(x.place(), s[s.len() - 1].place()));
        let before = s.drop_last();
        assert forall|i: int| k <= i < before.len() implies path_before(
            x.place(),
            (#[trigger] before[i]).place(),
        ) by {
            assert(before[i] == s[i]);
        }
        lemma_placed_at(before, x, k);
        assert(s.insert(k, x) == before.insert(k, x).push(s.last()));
    }
}

/// Sorts by path.
pub fn sort_by_path<T: AtPath>(items: Vec<T>) -> (r: Vec<T>)
    ensures
        r@ == by_path(items@),
{
    let ghost all = items@;
    let mut items = items;
    let mut out: Vec<T> = Vec::new();
    let n: usize = items.len();
    let mut done: usize = 0;
    assert(all.skip(0) == all);
    assert(all.take(0) == Seq::<T>::empty());
    while done < n
        invariant
            n == all.len(),
            done <= n,
            items@ == all.skip(done as int),
            out@ == by_path(all.take(done as int)),
        decreases n - done,
    {
        let x = items.remove(0);
        assert(x == all[done as int]);
        assert(items@ == all.skip(done + 1));
        assert(all.take(done + 1).drop_last() == all.take(done as int));
        let mut k: usize = out.len();
        while k > 0 && x.path().sorts_before(out[k - 1].path())
            invariant
                k <= out.len(),
                forall|i: int|
                    k <= i < out.len() ==> path_before(x.place(), (#[trigger] out@[i]).place()),
            decreases k,
        {
            k = k - 1;
        }
        proof {
            lemma_placed_at(out@, x, k as int);
        }
        out.insert(k, x);
        done = done + 1;
    }
    assert(all.take(done as int) == all);
    out
}

/// Whether nothing stands before something that sorts before it.
pub open spec fn in_path_order<T: AtPath>(s: Seq<T>) -> bool {
    forall|i: int, j: int|
        0 <= i < j < s.len() ==> !path_before((#[trigger] s[j]).place(), (#[trigger] s[i]).place())
}

proof fn lemma_placed_in_order<T: AtPath>(s: Seq<T>, x: T)
    requires
        in_path_order(s),
    ensures
        in_path_order(placed(s, x)),
        placed(s, x).to_multiset() == s.to_multiset().insert(x),
        placed(s, x).len() == s.len() + 1,
    decreases s.len(),
{
    broadcast use vstd::seq_lib::group_to_multiset_ensures;

    lemma_path_order();
    let r = placed(s, x);
    if s.len() > 0 && path_before(x.place(), s.last().place()) {
        let before = s.drop_last();
        assert forall|i: int, j: int| 0 <= i < j < before.len() implies !path_before(
            (#[trigger] before[j]).place(),
            (#[trigger] before[i]).place(),
        ) by {
            assert(before[i] == s[i] && before[j] == s[j]);
        }
        lemma_placed_in_order(before, x);
        let inner = placed(before, x);
        assert forall|i: int| 0 <= i < inner.len() implies !path_before(
            s.last().place(),
            (#[trigger] inner[i]).place(),
        ) by {
            assert(inner.to_multiset().count(inner[i]) > 0) by {
                assert(inner.contains(inner[i]));
            }
            if inner[i] != x {
                assert(before.to_multiset().count(inner[i]) > 0);
                assert(before.contains(inner[i]));
                let k = choose|k: int| 0 <= k < before.len() && before[k] == inner[i];
                assert(s[k] == inner[i] && s[s.len() - 1] == s.last());
            }
        }
        assert forall|i: int, j: int| 0 <= i < j < r.len() implies !path_before(
            (#[trigger] r[j]).place(),
            (#[trigger] r[i]).place(),
        ) by {
            if j < inner.len() {
                assert(r[i] == inner[i] && r[j] == inner[j]);
            } else {
                assert(r[i] == inner[i] && r[j] == s.last());
            }
        }
        assert(s == before.push(s.last()));
        assert(r.to_multiset() =~= s.to_multiset().insert(x));
    } else {
        assert forall|i: int, j: int| 0 <= i < j < r.len() implies !path_before(
            (#[trigger] r[j]).place(),
            (#[trigger] r[i]).place(),
        ) by {
            if j < s.len() {
                assert(r[i] == s[i] && r[j] == s[j]);
            } else {
                assert(r[j] == x && r[i] == s[i]);
                if path_before(x.place(), s[i].place()) {
                    if i < s.len() - 1 {
                        assert(!path_before(s[s.len() - 1].place(), s[i].place()));
                        if s[i].place() != s.last().place() {
                            assert(path_before(s[i].place(), s.last().place()));
                        }
                    }
                    assert(path_before(x.place(), s.last().place()));
                }
            }
        }
    }
}

/// Sorting by path puts the items in the order of their paths, and loses and adds none.
pub proof fn law_sorting_orders_and_keeps_all<T: AtPath>(s: Seq<T>)
    ensures
        in_path_order(by_path(s)),
        by_path(s).to_multiset() == s.to_multiset(),
        by_path(s).len() == s.len(),
    decreases s.len(),
{
    broadcast use vstd::seq_lib::group_to_multiset_ensures;

    if s.len() > 0 {
        law_sorting_orders_and_keeps_all(s.drop_last());
        lemma_placed_in_order(by_path(s.drop_last()), s.last());
        assert(s == s.drop_last().push(s.last()));
    }
    assert(by_path(s).to_multiset() =~= s.to_multiset());
}

/// The bytes of `_input`.
pub open spec fn input_suffix() -> Seq<u8> {
    seq![95u8, 105, 110, 112, 117, 116]
}

/// What stands before `_input` in a file name that is text and ends so.
pub open spec fn input_stem(name: Seq<u8>) -> Option<Seq<u8>> {
    if valid_utf8(name) && name.len() >= 6 && name.skip(name.len() - 6) == input_suffix() {
        Some(name.take(name.len() - 6))
    } else {
        None
    }
}

/// The stem of the file name of a path.
pub open spec fn path_stem(components: Seq<Seq<u8>>) -> Option<Seq<u8>> {
    match file_name_of(components) {
        Some(name) => input_stem(name),
        None => None,
    }
}

fn ends_in_input(name: &Vec<u8>) -> (r: bool)
    ensures
        r == (name.len() >= 6 && name@.skip(name.len() - 6) == input_suffix()),
{
    let n: usize = name.len();
    if n < 6 {
        return false;
    }
    let r: bool = name[n - 6] == 95 && name[n - 5] == 105 && name[n - 4] == 110 && name[n - 3]
        == 112 && name[n - 2] == 117 && name[n - 1] == 116;
    let ghost end = name@.skip(n - 6);
    assert(end[0] == name@[n - 6] && end[1] == name@[n - 5] && end[2] == name@[n - 4] && end[3]
        == name@[n - 3] && end[4] == name@[n - 2] && end[5] == name@[n - 1]);
    assert(r == (end == input_suffix())) by {
        if r {
            assert(end =~= input_suffix());
        }
    }
    r
}

/// A stem is text.
proof fn lemma_stem(components: Seq<Seq<u8>>)
    requires
        path_stem(components) is Some,
    ensures
        valid_utf8(path_stem(components)->0),
{
    let name = components.last();
    let stem = path_stem(components)->0;
    let cut = name.len() - 6;
    assert(name.skip(cut)[0] == name[cut]);
    assert(name[cut] == 95);
    assert(vstd::utf8::is_leading_byte_width_1(95u8)) by {
        assert(95u8 & 0x80 == 0) by (bit_vector);
    }
    vstd::utf8::is_char_boundary_iff_is_leading_byte(name, cut);
    vstd::utf8::valid_utf8_split(name, cut);
    assert(name.subrange(0, cut) == stem);
}

/// What stands before the `_input` of the file name of a path.
pub fn stem_of(path: &SysPath) -> (r: Option<Vec<u8>>)
    ensures
        r is Some <==> path_stem(path@) is Some,
        r matches Some(stem) ==> path_stem(path@) == Some(stem@) && valid_utf8(stem@),
{
    let name = match path.file_name() {
        Some(name) => name,
        None => {
            return None;
        },
    };
    if utf8_text(name).is_none() || !ends_in_input(name) {
        return None;
    }
    let n: usize = name.len();
    let mut stem = copy_bytes(name);
    stem.truncate(n - 6);
    assert(stem@ == name@.take(n - 6));
    proof {
        lemma_stem(path@);
    }
    Some(stem)
}

/// What a slash and a name behind it add to a path: the name, unless it is empty or a single
/// dot. Nothing written is no component, and a name alone is read like one behind a slash.
pub proof fn law_components_are_the_names_between_slashes(bytes: Seq<u8>, name: Seq<u8>)
    requires
        !name.contains(47u8),
    ensures
        components_of(Seq::<u8>::empty()) == Seq::<Seq<u8>>::empty(),
        name.len() == 0 || name == seq![46u8] ==> components_of(bytes + seq![47u8] + name)
            == components_of(bytes) && components_of(name) == Seq::<Seq<u8>>::empty(),
        name.len() > 0 && name != seq![46u8] ==> components_of(bytes + seq![47u8] + name)
            == components_of(bytes).push(name) && components_of(name) == seq![name],
{
    let keep = |piece: Seq<u8>| is_component(piece);
    let empty = Seq::<u8>::empty();
    lemma_split_appended(bytes, name);
    assert(bytes + seq![47u8] + name =~= bytes.push(SLASH) + name);
    let pieces = split(bytes, SLASH).push(name);
    lemma_filter_last(pieces, keep);
    assert(pieces.drop_last() =~= split(bytes, SLASH));
    lemma_split_whole(name);
    lemma_filter_last(seq![name], keep);
    assert(seq![name].drop_last() =~= Seq::<Seq<u8>>::empty());
    lemma_filter_none(keep);
    lemma_split_whole(empty);
    lemma_filter_last(seq![empty], keep);
    assert(seq![empty].drop_last() =~= Seq::<Seq<u8>>::empty());
    assert(Seq::<Seq<u8>>::empty().push(name) =~= seq![name]);
}

/// A path is written as a slash and a name for each component, and the root as a slash.
pub proof fn law_paths_are_written_with_slashes(components: Seq<Seq<u8>>, name: Seq<u8>)
    ensures
        path_bytes(Seq::<Seq<u8>>::empty()) == seq![47u8],
        path_bytes(components.push(name)) == if components.len() == 0 {
            seq![47u8] + name
        } else {
            path_bytes(components) + seq![47u8] + name
        },
{
    assert(components.push(name).drop_last() =~= components);
    assert(slashed(components.push(name)) =~= slashed(components) + seq![47u8] + name);
    if components.len() == 0 {
        assert(slashed(components) =~= Seq::<u8>::empty());
        assert(slashed(components) + seq![47u8] + name =~= seq![47u8] + name);
    }
}

/// The last component is the file name, unless it is two dots, and the rest is the directory.
pub proof fn law_file_name_is_the_last_component(components: Seq<Seq<u8>>, name: Seq<u8>)
    ensures
        file_name_of(Seq::<Seq<u8>>::empty()) is None,
        file_name_of(components.push(name)) == if name == seq![46u8, 46u8] {
            None
        } else {
            Some(name)
        },
        directory_of(components.push(name)) == if name == seq![46u8, 46u8] {
            components.push(name)
        } else {
            components
        },
        directory_of(Seq::<Seq<u8>>::empty()) == Seq::<Seq<u8>>::empty(),
{
    assert(components.push(name).drop_last() =~= components);
}

/// What is read in place of the file name: a relative name behind the directory, and an absolute
/// one alone.
pub proof fn law_renaming_keeps_the_directory(
    components: Seq<Seq<u8>>,
    old_name: Seq<u8>,
    name: Seq<u8>,
)
    ensures
        (name.len() == 0 || name[0] != 47) && old_name != seq![46u8, 46u8] ==> renamed(
            components.push(old_name),
            name,
        ) == components + components_of(name),
        (name.len() == 0 || name[0] != 47) && old_name == seq![46u8, 46u8] ==> renamed(
            components.push(old_name),
            name,
        ) == components.push(old_name) + components_of(name),
        name.len() == 0 || name[0] != 47 ==> renamed(Seq::<Seq<u8>>::empty(), name)
            == components_of(name),
        name.len() > 0 && name[0] == 47 ==> renamed(components, name) == components_of(name),
{
    law_file_name_is_the_last_component(components, old_name);
    assert(Seq::<Seq<u8>>::empty() + components_of(name) =~= components_of(name));
}

/// Paths sort by their first different component: two dots come before any name, names sort by
/// their first different byte, and a directory comes before what is in it.
pub proof fn law_paths_sort_by_components(a: Seq<Seq<u8>>, b: Seq<Seq<u8>>, k: int)
    requires
        0 <= k <= a.len(),
        k < b.len(),
        a.take(k) == b.take(k),
        k < a.len() ==> a[k] != b[k],
    ensures
        k == a.len() ==> path_before(a, b) && !path_before(b, a),
        k < a.len() && a[k] == seq![46u8, 46u8] ==> path_before(a, b),
        k < a.len() && b[k] == seq![46u8, 46u8] ==> !path_before(a, b),
        k < a.len() && a[k] != seq![46u8, 46u8] && b[k] != seq![46u8, 46u8] ==> path_before(a, b)
            == lex(a[k], b[k], |x: u8, y: u8| x < y),
{
    law_first_difference_decides(a, b, k, component_less());
    law_first_difference_decides(b, a, k, component_less());
    assert(byte_less() =~= (|x: u8, y: u8| x < y));
}

/// What stands at a path, as a condition.
pub open spec fn stands_at<T: AtPath>(path: Seq<Seq<u8>>) -> spec_fn(T) -> bool {
    |x: T| x.place() == path
}

proof fn lemma_placed_stably<T: AtPath>(s: Seq<T>, x: T, path: Seq<Seq<u8>>)
    ensures
        placed(s, x).filter(stands_at(path)) == s.push(x).filter(stands_at(path)),
    decreases s.len(),
{
    let at = stands_at::<T>(path);
    if s.len() > 0 && path_before(x.place(), s.last().place()) {
        lemma_path_order();
        let before = s.drop_last();
        let last = s.last();
        lemma_placed_stably(before, x, path);
        lemma_filter_pushed(placed(before, x), last, at);
        lemma_filter_pushed(before, x, at);
        lemma_filter_pushed(before, last, at);
        lemma_filter_pushed(s, x, at);
        assert(s =~= before.push(last));
        assert(!(at(x) && at(last)));
    }
}

/// Sorting keeps the order of what stands at the same path.
pub proof fn law_sorting_is_stable<T: AtPath>(s: Seq<T>, path: Seq<Seq<u8>>)
    ensures
        by_path(s).filter(stands_at(path)) == s.filter(stands_at(path)),
    decreases s.len(),
{
    if s.len() > 0 {
        let at = stands_at::<T>(path);
        let before = s.drop_last();
        law_sorting_is_stable(before, path);
        lemma_placed_stably(by_path(before), s.last(), path);
        lemma_filter_pushed(by_path(before), s.last(), at);
        lemma_filter_pushed(before, s.last(), at);
        assert(s =~= before.push(s.last()));
    }
}

/// A path has a stem exactly where its last component is text and ends in `_input`, and the stem
/// is what stands before that.
pub proof fn law_stem_stands_before_input(components: Seq<Seq<u8>>, stem: Seq<u8>)
    ensures
        path_stem(components) == Some(stem) <==> components.len() > 0 && valid_utf8(
            components.last(),
        ) && components.last() == stem + encode_utf8("_input"@),
{
    lemma_input_bytes();
    let end = encode_utf8("_input"@);
    if components.len() > 0 {
        let name = components.last();
        if name == stem + end {
            assert(name.skip(name.len() - 6) =~= end);
            assert(name.take(name.len() - 6) =~= stem);
        }
        if path_stem(components) == Some(stem) {
            assert(name =~= name.take(name.len() - 6) + name.skip(name.len() - 6));
        }
    }
}

/// Text of seven bits is encoded by its code points.
pub(crate) proof fn lemma_encode_ascii(s: Seq<char>, bytes: Seq<u8>)
    requires
        s.len() == bytes.len(),
        forall|i: int| 0 <= i < s.len() ==> (#[trigger] s[i]) as u32 == bytes[i] < 128,
    ensures
        encode_utf8(s) == bytes,
    decreases s.len(),
{
    if s.len() == 0 {
        assert(encode_utf8(s) =~= bytes);
    } else {
        let c = s[0] as u32;
        assert((c & 0x7F) as u8 == c) by (bit_vector)
            requires
                c < 128,
        ;
        let rest = s.drop_first();
        assert forall|i: int| 0 <= i < rest.len() implies (#[trigger] rest[i]) as u32
            == bytes.drop_first()[i] < 128 by {
            assert(rest[i] == s[i + 1]);
        }
        lemma_encode_ascii(rest, bytes.drop_first());
        assert(encode_utf8(s) =~= bytes);
    }
}

proof fn lemma_input_bytes()
    ensures
        encode_utf8("_input"@) == input_suffix(),
        encode_utf8("_input"@).len() == 6,
{
    reveal_strlit("_input");
    lemma_encode_ascii("_input"@, input_suffix());
}

} // verus!
