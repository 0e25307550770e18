//! Paths of links inside a repository tree: rows of bytes in which `/` separates names.

use crate::text::{trimmed, without_leading_slashes, without_trailing_slashes};
use vstd::prelude::*;
use vstd::string::*;
use vstd::utf8::*;

verus! {

/// The byte that separates the names of a path.
pub const SLASH: u8 = 0x2f;

/// The byte of which the name of the current directory is made.
pub const DOT: u8 = 0x2e;

/// A path, as the bytes that it is written with.
///
/// Two paths that are written differently can lead to the same place: see
/// [`LinkPath::leads_to_same_place`].
#[derive(Debug, PartialEq, Eq)]
pub struct LinkPath {
    pub bytes: Vec<u8>,
}

impl DeepView for LinkPath {
    type V = Seq<u8>;

    open spec fn deep_view(&self) -> Seq<u8> {
        self.bytes@
    }
}

impl Clone for LinkPath {
    fn clone(&self) -> (r: LinkPath)
        ensures
            r.deep_view() == self.deep_view(),
    {
        LinkPath { bytes: copied(self.bytes.as_slice(), 0, self.bytes.len()) }
    }
}

/// The bytes of `s` from `from` up to `to`.
fn copied(s: &[u8], from: usize, to: usize) -> (r: Vec<u8>)
    requires
        from <= to <= s@.len(),
    ensures
        r@ == s@.subrange(from as int, to as int),
{
    let mut r: Vec<u8> = Vec::new();
    let mut i: usize = from;
    while i < to
        invariant
            from <= i <= to <= s@.len(),
            r@ =~= s@.subrange(from as int, i as int),
        decreases to - i,
    {
        r.push(s[i]);
        i = i + 1;
    }
    r
}

/// How many bytes of `s` come before its first slash.
pub open spec fn first_name_len(s: Seq<u8>) -> int
    decreases s.len(),
{
    if s.len() == 0 || s.first() == SLASH {
        0
    } else {
        1 + first_name_len(s.drop_first())
    }
}

/// Whether `name` leads nowhere: it is empty or the name of the current directory.
pub open spec fn is_idle(name: Seq<u8>) -> bool {
    name.len() == 0 || name == seq![DOT]
}

/// The names in `s` from left to right, without those that lead nowhere.
pub open spec fn names(s: Seq<u8>) -> Seq<Seq<u8>>
    decreases s.len(),
{
    if s.len() == 0 {
        Seq::empty()
    } else {
        let n = first_name_len(s);
        let rest = names(after_first_name(s));
        if is_idle(s.take(n)) {
            rest
        } else {
            seq![s.take(n)] + rest
        }
    }
}

/// What follows the first name of `s` and the slash behind it.
pub open spec fn after_first_name(s: Seq<u8>) -> Seq<u8> {
    let n = first_name_len(s);
    if 0 <= n < s.len() {
        s.skip(n + 1)
    } else {
        Seq::empty()
    }
}

/// Where a path starts.
pub enum Anchor {
    /// At the root: the path begins with a slash.
    Root,
    /// Explicitly at the current directory: the first name is a single dot.
    Here,
    /// Nowhere in particular.
    Free,
}

/// The anchor of the path `s`.
pub open spec fn anchor(s: Seq<u8>) -> Anchor {
    if s.len() > 0 && s[0] == SLASH {
        Anchor::Root
    } else if s.len() > 0 && s[0] == DOT && (s.len() == 1 || s[1] == SLASH) {
        Anchor::Here
    } else {
        Anchor::Free
    }
}

/// Whether two paths have the same anchor and the same names: repeated and trailing slashes and
/// inner dots make no difference.
pub open spec fn same_place(a: Seq<u8>, b: Seq<u8>) -> bool {
    anchor(a) == anchor(b) && names(a) == names(b)
}

/// `s` without the names at its front that lead nowhere.
pub open spec fn without_idle_front(s: Seq<u8>) -> Seq<u8>
    decreases s.len(),
{
    if s.len() > 0 && is_idle(s.take(first_name_len(s))) {
        without_idle_front(after_first_name(s))
    } else {
        s
    }
}

/// How many bytes of `s` come behind its last slash.
pub open spec fn last_name_len(s: Seq<u8>) -> int
    decreases s.len(),
{
    if s.len() == 0 || s.last() == SLASH {
        0
    } else {
        1 + last_name_len(s.drop_last())
    }
}

/// What stands before the last name of `s` and the slash in front of it.
pub open spec fn before_last_name(s: Seq<u8>) -> Seq<u8> {
    let n = last_name_len(s);
    if 0 <= n < s.len() {
        s.take(s.len() - n - 1)
    } else {
        Seq::empty()
    }
}

/// `s` without the names at its end that lead nowhere.
pub open spec fn without_idle_back(s: Seq<u8>) -> Seq<u8>
    decreases s.len(),
{
    if s.len() > 0 && is_idle(s.skip(s.len() - last_name_len(s))) {
        without_idle_back(before_last_name(s))
    } else {
        s
    }
}

/// The path `s` taken from the root: where it starts at the root, what leads on from there, and
/// otherwise `s` itself.
pub open spec fn without_root(s: Seq<u8>) -> Seq<u8> {
    if s.len() > 0 && s[0] == SLASH {
        without_idle_back(without_idle_front(s.drop_first()))
    } else {
        s
    }
}

/// The path of the entry `name` in the directory `dir`.
pub open spec fn entry(dir: Seq<u8>, name: Seq<u8>) -> Seq<u8> {
    if dir.len() == 0 || dir.last() == SLASH {
        dir + name
    } else {
        dir.push(SLASH) + name
    }
}

/// The name of the file that records a link.
pub const LINK_FILE: &'static str = ".link.josh";

/// The path of the file that records the link at `dir`.
pub open spec fn link_file(dir: Seq<u8>) -> Seq<u8> {
    entry(dir, encode_utf8(LINK_FILE@))
}

/// The text that shows a row of bytes that need not be text: what is no UTF-8 is shown by
/// replacement characters.
pub uninterp spec fn shown(bytes: Seq<u8>) -> Seq<char>;

/// Calls `String::from_utf8_lossy` of std. Claimed of it: the result depends on the bytes alone,
/// and is the very text that the bytes encode where they are UTF-8.
#[verifier::external_body]
fn show(bytes: &[u8]) -> (r: String)
    ensures
        r@ == shown(bytes@),
        valid_utf8(bytes@) ==> r@ == decode_utf8(bytes@),
{
    String::from_utf8_lossy(bytes).into_owned()
}

/// Calls `std::str::from_utf8`. Claimed of it: it succeeds on UTF-8 alone, and the text that it
/// returns is the one that the bytes encode.
#[verifier::external_body]
fn as_utf8(bytes: &[u8]) -> (r: Option<&str>)
    ensures
        r is Some <==> valid_utf8(bytes@),
        r matches Some(t) ==> t@ == decode_utf8(bytes@),
{
    std::str::from_utf8(bytes).ok()
}

/// How many bytes of `s` from `from` on come before the first slash.
fn find_name_end(s: &[u8], from: usize) -> (r: usize)
    requires
        from <= s@.len(),
    ensures
        r as int == from + first_name_len(s@.skip(from as int)),
        from <= r <= s@.len(),
{
    let mut i: usize = from;
    while i < s.len() && s[i] != SLASH
        invariant
            from <= i <= s@.len(),
            from + first_name_len(s@.skip(from as int)) == i + first_name_len(s@.skip(i as int)),
        decreases s@.len() - i,
    {
        assert(s@.skip(i as int).drop_first() =~= s@.skip(i + 1));
        i = i + 1;
    }
    i
}

/// Where the name that ends at `to` starts in `s`.
fn find_name_start(s: &[u8], from: usize, to: usize) -> (r: usize)
    requires
        from <= to <= s@.len(),
    ensures
        r as int == to - last_name_len(s@.subrange(from as int, to as int)),
        from <= r <= to,
{
    let mut i: usize = to;
    while i > from && s[i - 1] != SLASH
        invariant
            from <= i <= to <= s@.len(),
            to - last_name_len(s@.subrange(from as int, to as int)) == i - last_name_len(
                s@.subrange(from as int, i as int),
            ),
        decreases i,
    {
        assert(s@.subrange(from as int, i as int).drop_last() =~= s@.subrange(from as int, i - 1));
        i = i - 1;
    }
    i
}

/// Whether the name that `s` holds from `from` up to `to` leads nowhere.
fn idle(s: &[u8], from: usize, to: usize) -> (r: bool)
    requires
        from <= to <= s@.len(),
    ensures
        r == is_idle(s@.subrange(from as int, to as int)),
{
    let ghost name = s@.subrange(from as int, to as int);
    if from == to {
        true
    } else if to - from == 1 && s[from] == DOT {
        assert(name =~= seq![DOT]);
        true
    } else {
        assert(name.len() == to - from);
        assert(name[0] == s@[from as int]);
        assert(seq![DOT].len() == 1 && seq![DOT][0] == DOT);
        false
    }
}

pub(crate) proof fn first_name_len_bounds(s: Seq<u8>)
    ensures
        0 <= first_name_len(s) <= s.len(),
        first_name_len(s) < s.len() ==> s[first_name_len(s)] == SLASH,
        forall|i: int| 0 <= i < first_name_len(s) ==> s[i] != SLASH,
    decreases s.len(),
{
    if s.len() > 0 && s.first() != SLASH {
        first_name_len_bounds(s.drop_first());
        let n = first_name_len(s);
        assert forall|i: int| 0 <= i < n implies s[i] != SLASH by {
            if i > 0 {
                assert(s[i] == s.drop_first()[i - 1]);
            }
        }
    }
}

proof fn last_name_len_bounds(s: Seq<u8>)
    ensures
        0 <= last_name_len(s) <= s.len(),
        last_name_len(s) < s.len() ==> s[s.len() - last_name_len(s) - 1] == SLASH,
        forall|i: int| s.len() - last_name_len(s) <= i < s.len() ==> s[i] != SLASH,
    decreases s.len(),
{
    if s.len() > 0 && s.last() != SLASH {
        let front = s.drop_last();
        last_name_len_bounds(front);
        assert forall|i: int| s.len() - last_name_len(s) <= i < s.len() implies s[i] != SLASH by {
            if i < front.len() {
                assert(s[i] == front[i]);
            }
        }
    }
}

impl LinkPath {
    /// The path that `text` writes.
    pub fn from_text(text: &str) -> (r: LinkPath)
        ensures
            r.deep_view() == encode_utf8(text@),
    {
        let raw = text.as_bytes();
        let r = LinkPath { bytes: copied(raw, 0, raw.len()) };
        assert(raw@.subrange(0, raw@.len() as int) =~= raw@);
        r
    }

    /// The path as text, where it is text.
    pub fn as_text(&self) -> (r: Option<&str>)
        ensures
            r is Some <==> valid_utf8(self.deep_view()),
            r matches Some(t) ==> t@ == decode_utf8(self.deep_view()),
    {
        as_utf8(self.bytes.as_slice())
    }

    /// A text that shows the path, for messages.
    pub fn display(&self) -> (r: String)
        ensures
            r@ == shown(self.deep_view()),
            valid_utf8(self.deep_view()) ==> r@ == decode_utf8(self.deep_view()),
    {
        show(self.bytes.as_slice())
    }

    /// The names that the path leads through.
    fn name_list(&self) -> (r: Vec<Vec<u8>>)
        ensures
            r@.len() == names(self.deep_view()).len(),
            forall|i: int| 0 <= i < r@.len() ==> #[trigger] r@[i]@ == names(self.deep_view())[i],
    {
        let s = self.bytes.as_slice();
        let mut r: Vec<Vec<u8>> = Vec::new();
        let mut at: usize = 0;
        assert(s@.skip(0) =~= s@);
        while at < s.len()
            invariant
                at <= s@.len(),
                s@ == self.bytes@,
                r@.len() + names(s@.skip(at as int)).len() == names(s@).len(),
                forall|i: int| 0 <= i < r@.len() ==> #[trigger] r@[i]@ == names(s@)[i],
                forall|i: int|
                    0 <= i < names(s@.skip(at as int)).len() ==> #[trigger] names(
                        s@.skip(at as int),
                    )[i] == names(s@)[r@.len() + i],
            decreases s@.len() - at,
        {
            let end = find_name_end(s, at);
            let ghost rest = s@.skip(at as int);
            let ghost n = first_name_len(rest);
            assert(rest.take(n) =~= s@.subrange(at as int, end as int));
            let ghost tail = after_first_name(rest);
            let next: usize = if end < s.len() {
                end + 1
            } else {
                end
            };
            assert(tail =~= s@.skip(next as int));
            let ghost before = r@;
            if !idle(s, at, end) {
                let name = copied(s, at, end);
                assert(names(rest) == seq![rest.take(n)] + names(tail));
                r.push(name);
                assert forall|i: int| 0 <= i < r@.len() implies #[trigger] r@[i]@ == names(
                    s@,
                )[i] by {
                    if i == before.len() {
                        assert(names(rest)[0] == names(s@)[before.len() as int]);
                    }
                }
                assert forall|i: int| 0 <= i < names(tail).len() implies #[trigger] names(tail)[i]
                    == names(s@)[r@.len() + i] by {
                    assert(names(rest)[i + 1] == names(tail)[i]);
                }
            } else {
                assert(names(rest) == names(tail));
            }
            at = next;
        }
        assert(names(s@.skip(at as int)).len() == 0);
        r
    }

    /// Whether two paths lead to the same place.
    pub fn leads_to_same_place(&self, other: &LinkPath) -> (r: bool)
        ensures
            r == same_place(self.deep_view(), other.deep_view()),
    {
        if !self.same_anchor(other) {
            return false;
        }
        let a = self.name_list();
        let b = other.name_list();
        let ghost x = names(self.deep_view());
        let ghost y = names(other.deep_view());
        if a.len() != b.len() {
            return false;
        }
        let mut i: usize = 0;
        while i < a.len()
            invariant
                i <= a@.len(),
                a@.len() == b@.len(),
                a@.len() == x.len(),
                b@.len() == y.len(),
                x == names(self.deep_view()),
                y == names(other.deep_view()),
                forall|j: int| 0 <= j < a@.len() ==> #[trigger] a@[j]@ == x[j],
                forall|j: int| 0 <= j < b@.len() ==> #[trigger] b@[j]@ == y[j],
                forall|j: int| 0 <= j < i ==> x[j] == y[j],
            decreases a@.len() - i,
        {
            if !same_bytes(a[i].as_slice(), b[i].as_slice()) {
                assert(a@[i as int]@ != b@[i as int]@);
                assert(x[i as int] != y[i as int]);
                return false;
            }
            assert(a@[i as int]@ == b@[i as int]@);
            i = i + 1;
        }
        assert(x =~= y);
        true
    }

    /// Whether two paths start at the same place.
    fn same_anchor(&self, other: &LinkPath) -> (r: bool)
        ensures
            r == (anchor(self.deep_view()) == anchor(other.deep_view())),
    {
        match (self.start(), other.start()) {
            (Anchor::Root, Anchor::Root) => true,
            (Anchor::Here, Anchor::Here) => true,
            (Anchor::Free, Anchor::Free) => true,
            _ => false,
        }
    }

    /// Where the path starts.
    fn start(&self) -> (r: Anchor)
        ensures
            r == anchor(self.deep_view()),
    {
        let len: usize = self.bytes.len();
        if len > 0 && self.bytes[0] == SLASH {
            Anchor::Root
        } else if len > 0 && self.bytes[0] == DOT && (len == 1 || self.bytes[1] == SLASH) {
            Anchor::Here
        } else {
            Anchor::Free
        }
    }

    /// The path taken from the root: trees hold relative paths only.
    pub fn strip_root(&self) -> (r: LinkPath)
        ensures
            r.deep_view() == without_root(self.deep_view()),
    {
        let s = self.bytes.as_slice();
        let len: usize = s.len();
        if len == 0 || s[0] != SLASH {
            return self.clone();
        }
        let mut from: usize = 1;
        let ghost body = s@.drop_first();
        assert(s@.skip(1) =~= body);
        while from < len && idle(s, from, find_name_end(s, from))
            invariant
                1 <= from <= len,
                len == s@.len(),
                without_idle_front(body) == without_idle_front(s@.skip(from as int)),
            decreases len - from,
        {
            let end = find_name_end(s, from);
            let ghost rest = s@.skip(from as int);
            assert(rest.take(first_name_len(rest)) =~= s@.subrange(from as int, end as int));
            let next: usize = if end < len {
                end + 1
            } else {
                end
            };
            assert(after_first_name(rest) =~= s@.skip(next as int));
            from = next;
        }
        let ghost front = s@.skip(from as int);
        proof {
            if from < len {
                let n = first_name_len(front);
                first_name_len_bounds(front);
                assert(front.take(n) =~= s@.subrange(from as int, from + n));
            }
            assert(without_idle_front(body) == front);
        }
        let mut to: usize = len;
        assert(s@.subrange(from as int, to as int) =~= front);
        while to > from && idle(s, find_name_start(s, from, to), to)
            invariant
                from <= to <= len,
                len == s@.len(),
                without_idle_back(front) == without_idle_back(s@.subrange(from as int, to as int)),
            decreases to,
        {
            let start = find_name_start(s, from, to);
            let ghost rest = s@.subrange(from as int, to as int);
            assert(rest.skip(rest.len() - last_name_len(rest)) =~= s@.subrange(
                start as int,
                to as int,
            ));
            let next: usize = if start > from {
                start - 1
            } else {
                from
            };
            assert(before_last_name(rest) =~= s@.subrange(from as int, next as int));
            to = next;
        }
        proof {
            let rest = s@.subrange(from as int, to as int);
            if to > from {
                let n = last_name_len(rest);
                last_name_len_bounds(rest);
                assert(rest.skip(rest.len() - n) =~= s@.subrange(to - n, to as int));
            }
            assert(without_idle_back(front) == rest);
        }
        LinkPath { bytes: copied(s, from, to) }
    }

    /// The path of the file that records the link at this path.
    pub fn link_file(&self) -> (r: LinkPath)
        ensures
            r.deep_view() == link_file(self.deep_view()),
    {
        let mut bytes: Vec<u8> = copied(self.bytes.as_slice(), 0, self.bytes.len());
        assert(bytes@ =~= self.bytes@);
        if bytes.len() > 0 && bytes[bytes.len() - 1] != SLASH {
            bytes.push(SLASH);
        }
        let name = LINK_FILE.as_bytes();
        let ghost dir = bytes@;
        let mut i: usize = 0;
        while i < name.len()
            invariant
                i <= name@.len(),
                bytes@ =~= dir + name@.take(i as int),
            decreases name@.len() - i,
        {
            bytes.push(name[i]);
            i = i + 1;
        }
        assert(name@.take(i as int) =~= name@);
        LinkPath { bytes }
    }
}

/// Whether two rows of bytes are equal.
fn same_bytes(a: &[u8], b: &[u8]) -> (r: bool)
    ensures
        r == (a@ == b@),
{
    if a.len() != b.len() {
        return false;
    }
    let mut i: usize = 0;
    while i < a.len()
        invariant
            i <= a@.len(),
            a@.len() == b@.len(),
            forall|j: int| 0 <= j < i ==> a@[j] == b@[j],
        decreases a@.len() - i,
    {
        if a[i] != b[i] {
            return false;
        }
        i = i + 1;
    }
    assert(a@ =~= b@);
    true
}

pub(crate) proof fn names_of_both_sides(a: Seq<u8>, b: Seq<u8>)
    ensures
        names(a.push(SLASH) + b) == names(a) + names(b),
    decreases a.len(),
{
    let s = a.push(SLASH) + b;
    let n = first_name_len(a);
    first_name_len_bounds(a);
    first_name_len_bounds(s);
    let m = first_name_len(s);
    assert(m == n) by {
        if m < n {
            assert(s[m] == a[m]);
        }
        if n < m {
            assert(s[n] == SLASH);
        }
    }
    assert(s.take(n) =~= a.take(n));
    if n < a.len() {
        let rest = after_first_name(a);
        assert(after_first_name(s) =~= rest.push(SLASH) + b);
        names_of_both_sides(rest, b);
        assert(names(s) =~= names(a) + names(b));
    } else {
        assert(after_first_name(s) =~= b);
        if a.len() > 0 {
            assert(after_first_name(a) =~= Seq::empty());
            assert(names(after_first_name(a)) =~= Seq::empty());
        }
        assert(names(s) =~= names(a) + names(b));
    }
}

proof fn idle_front_has_no_names(s: Seq<u8>)
    ensures
        names(without_idle_front(s)) == names(s),
        anchor(without_idle_front(s)) is Free,
    decreases s.len(),
{
    let n = first_name_len(s);
    first_name_len_bounds(s);
    if s.len() > 0 {
        if is_idle(s.take(n)) {
            idle_front_has_no_names(after_first_name(s));
        } else {
            if s[0] == DOT && (s.len() == 1 || s[1] == SLASH) {
                if s.len() > 1 && n > 1 {
                    assert(s[1] != SLASH);
                }
                assert(s.take(n) =~= seq![DOT]);
            }
        }
    }
}

proof fn idle_back_has_no_names(s: Seq<u8>)
    ensures
        names(without_idle_back(s)) == names(s),
        without_idle_back(s).len() <= s.len(),
        without_idle_back(s) == s.take(without_idle_back(s).len() as int),
        without_idle_back(s).len() == 0 || without_idle_back(s).len() == s.len()
            || s[without_idle_back(s).len() as int] == SLASH,
    decreases s.len(),
{
    let n = last_name_len(s);
    last_name_len_bounds(s);
    if s.len() > 0 && is_idle(s.skip(s.len() - n)) {
        let front = before_last_name(s);
        let name = s.skip(s.len() - n);
        idle_back_has_no_names(front);
        assert(names(name) =~= Seq::empty()) by {
            first_name_len_bounds(name);
            if name.len() > 0 {
                let m = first_name_len(name);
                if m < name.len() {
                    assert(name[m] == s[s.len() - n + m]);
                }
                assert(name.take(m) =~= name);
                assert(after_first_name(name) =~= Seq::empty());
                assert(names(Seq::<u8>::empty()) =~= Seq::empty());
            }
        }
        if n < s.len() {
            assert(s =~= front.push(SLASH) + name);
            names_of_both_sides(front, name);
            assert(names(s) =~= names(front));
        } else {
            assert(s =~= name);
            assert(names(front) =~= Seq::empty());
        }
        let t = without_idle_back(front);
        assert(front.take(t.len() as int) =~= s.take(t.len() as int));
    } else {
        assert(s.take(s.len() as int) =~= s);
    }
}

/// A path taken from the root is relative, and leads through the same names as before.
pub proof fn root_is_stripped(s: Seq<u8>)
    requires
        anchor(s) is Root,
    ensures
        anchor(without_root(s)) is Free,
        names(without_root(s)) == names(s),
{
    let body = s.drop_first();
    assert(s.take(0) =~= Seq::empty());
    assert(after_first_name(s) =~= body);
    assert(names(s) == names(body));
    idle_front_has_no_names(body);
    let front = without_idle_front(body);
    idle_back_has_no_names(front);
    let t = without_idle_back(front);
    if t.len() > 0 {
        assert(t[0] == front[0]);
        if t.len() > 1 {
            assert(t[1] == front[1]);
        }
    }
}

/// The file that records a link is the entry with the link file's name in the directory of the
/// link.
pub proof fn link_file_is_in_directory(dir: Seq<u8>)
    ensures
        names(link_file(dir)) == names(dir).push(encode_utf8(LINK_FILE@)),
{
    reveal_strlit(".link.josh");
    let name = encode_utf8(LINK_FILE@);
    is_ascii_chars_encode_utf8(LINK_FILE@);
    assert(name.len() == 10);
    assert forall|i: int| 0 <= i < name.len() implies name[i] != SLASH by {
        assert(name[i] == LINK_FILE@[i] as u8);
    }
    assert(names(name) =~= seq![name]) by {
        first_name_len_bounds(name);
        assert(name.take(name.len() as int) =~= name);
        assert(seq![DOT].len() == 1);
        assert(after_first_name(name) =~= Seq::empty());
        assert(names(Seq::<u8>::empty()) =~= Seq::empty());
    }
    if dir.len() == 0 {
        assert(link_file(dir) =~= name);
        assert(names(dir) =~= Seq::empty());
    } else if dir.last() == SLASH {
        let front = dir.drop_last();
        assert(dir =~= front.push(SLASH) + Seq::<u8>::empty());
        names_of_both_sides(front, Seq::empty());
        names_of_both_sides(front, name);
        assert(link_file(dir) =~= front.push(SLASH) + name);
        assert(names(dir) =~= names(front));
    } else {
        names_of_both_sides(dir, name);
    }
    assert(names(dir).push(name) =~= names(dir) + seq![name]);
}

/// To lead to the same place is an equivalence of paths.
pub proof fn same_place_is_equivalence(a: Seq<u8>, b: Seq<u8>, c: Seq<u8>)
    ensures
        same_place(a, a),
        same_place(a, b) == same_place(b, a),
        same_place(a, b) && same_place(b, c) ==> same_place(a, c),
{
}

/// A slash in front of the path of a link makes no difference to where its link file goes.
pub proof fn leading_slash_does_not_move_link_file(path: Seq<u8>)
    ensures
        names(link_file(without_root(seq![SLASH] + path))) == names(link_file(without_root(path))),
{
    let rooted = seq![SLASH] + path;
    assert(rooted.take(0) =~= Seq::empty());
    assert(after_first_name(rooted) =~= path);
    assert(names(rooted) == names(path));
    root_is_stripped(rooted);
    if anchor(path) is Root {
        root_is_stripped(path);
    }
    link_file_is_in_directory(without_root(rooted));
    link_file_is_in_directory(without_root(path));
}

proof fn encoded_side_by_side(a: Seq<char>, b: Seq<char>)
    ensures
        encode_utf8(a + b) == encode_utf8(a) + encode_utf8(b),
    decreases a.len(),
{
    if a.len() == 0 {
        assert(a + b =~= b);
        assert(encode_utf8(a) + encode_utf8(b) =~= encode_utf8(b));
    } else {
        assert((a + b).drop_first() =~= a.drop_first() + b);
        encoded_side_by_side(a.drop_first(), b);
        assert(encode_utf8(a + b) =~= encode_utf8(a) + encode_utf8(b));
    }
}

proof fn slash_is_encoded()
    ensures
        encode_utf8(seq!['/']) == seq![SLASH],
{
    let s = seq!['/'];
    is_ascii_chars_encode_utf8(s);
    assert(encode_utf8(s) =~= seq![SLASH]);
}

proof fn leading_slashes_add_no_names(s: Seq<char>)
    ensures
        names(encode_utf8(without_leading_slashes(s))) == names(encode_utf8(s)),
    decreases s.len(),
{
    if s.len() > 0 && s.first() == '/' {
        let rest = s.drop_first();
        let raw = encode_utf8(s);
        slash_is_encoded();
        encoded_side_by_side(seq!['/'], rest);
        assert(seq!['/'] + rest =~= s);
        assert(raw.take(0) =~= Seq::empty());
        assert(after_first_name(raw) =~= encode_utf8(rest));
        leading_slashes_add_no_names(rest);
    }
}

proof fn trailing_slashes_add_no_names(s: Seq<char>)
    ensures
        names(encode_utf8(without_trailing_slashes(s))) == names(encode_utf8(s)),
    decreases s.len(),
{
    if s.len() > 0 && s.last() == '/' {
        let front = s.drop_last();
        let none = Seq::<u8>::empty();
        slash_is_encoded();
        encoded_side_by_side(front, seq!['/']);
        assert(front + seq!['/'] =~= s);
        assert(encode_utf8(s) =~= encode_utf8(front).push(SLASH) + none);
        names_of_both_sides(encode_utf8(front), none);
        assert(names(encode_utf8(front)) + names(none) =~= names(encode_utf8(front)));
        trailing_slashes_add_no_names(front);
    }
}

/// Slashes around the text of a path make no difference to the names that it leads through.
pub proof fn outer_slashes_add_no_names(s: Seq<char>)
    ensures
        names(encode_utf8(trimmed(s))) == names(encode_utf8(s)),
{
    leading_slashes_add_no_names(s);
    trailing_slashes_add_no_names(without_leading_slashes(s));
}

/// Taken from the root, a path with a name at either end is kept as it is.
pub proof fn ends_are_kept(s: Seq<u8>)
    requires
        s.len() > 0,
        s[0] != SLASH,
        s[s.len() - 1] != SLASH,
        !(s[0] == DOT && (s.len() == 1 || s[1] == SLASH)),
        !(s[s.len() - 1] == DOT && (s.len() == 1 || s[s.len() - 2] == SLASH)),
    ensures
        without_idle_back(without_idle_front(s)) == s,
{
    let n = first_name_len(s);
    first_name_len_bounds(s);
    let dot = seq![DOT];
    assert(dot.len() == 1);
    assert(s.take(n)[0] == s[0]);
    assert(s.take(n).len() == n);
    assert(without_idle_front(s) == s);
    let m = last_name_len(s);
    last_name_len_bounds(s);
    let last = s.skip(s.len() - m);
    assert(last[m - 1] == s[s.len() - 1]);
    assert(last.len() == m);
}

} // verus!
