//! When two paths lead to the same place.

use crate::path::{
    after_first_name, first_name_len, first_name_len_bounds, is_idle, names,
    names_of_both_sides, same_place, DOT, SLASH,
};
use vstd::prelude::*;

verus! {

/// Whether `path` is written as plainly as can be: it neither starts nor ends with a slash, no two
/// slashes stand side by side, and no name is a lone dot.
pub open spec fn is_plain(path: Seq<u8>) -> bool {
    let n = path.len() as int;
    &&& n > 0
    &&& path[0] != 0x2f
    &&& path[n - 1] != 0x2f
    &&& forall|i: int| 0 < i < n && #[trigger] path[i] == 0x2f ==> path[i - 1] != 0x2f
    &&& forall|i: int|
        0 <= i < n && #[trigger] path[i] == 0x2e && (i == 0 || path[i - 1] == 0x2f) ==> i + 1 < n
            && path[i + 1] != 0x2f
}

proof fn plain_path_starts_with_name(path: Seq<u8>)
    requires
        is_plain(path),
    ensures
        ({
            let n = first_name_len(path);
            &&& 0 < n <= path.len()
            &&& names(path) == seq![path.take(n)] + names(after_first_name(path))
            &&& n < path.len() ==> is_plain(after_first_name(path))
            &&& n == path.len() ==> after_first_name(path).len() == 0
            &&& n < path.len() ==> path == path.take(n).push(SLASH) + after_first_name(path)
        }),
{
    let n = first_name_len(path);
    first_name_len_bounds(path);
    let first = path.take(n);
    assert(first.len() == n);
    assert(first[0] == path[0]);
    if first == seq![DOT] {
        assert(seq![DOT].len() == 1);
        assert(path[0] == 0x2e);
        assert(path[1] != 0x2f);
    }
    assert(!is_idle(first));
    if n < path.len() {
        let rest = after_first_name(path);
        if n + 1 == path.len() {
            assert(path[path.len() - 1] == SLASH);
        }
        if path[n + 1] == 0x2f {
            assert(path[n] != 0x2f);
        }
        assert(rest[0] == path[n + 1]);
        assert(rest[rest.len() - 1] == path[path.len() - 1]);
        assert forall|i: int| 0 < i < rest.len() && #[trigger] rest[i] == 0x2f implies rest[i - 1]
            != 0x2f by {
            assert(path[n + 1 + i] == 0x2f);
        }
        assert forall|i: int|
            0 <= i < rest.len() && #[trigger] rest[i] == 0x2e && (i == 0 || rest[i - 1]
                == 0x2f) implies i + 1 < rest.len() && rest[i + 1] != 0x2f by {
            assert(path[n + 1 + i] == 0x2e);
            if i > 0 {
                assert(path[n + i] == rest[i - 1]);
            }
            if i + 1 < rest.len() {
                assert(rest[i + 1] == path[n + 2 + i]);
            }
        }
        assert(path =~= first.push(SLASH) + rest);
    }
}

proof fn plain_names_write_one_path(a: Seq<u8>, b: Seq<u8>)
    requires
        is_plain(a),
        is_plain(b),
        names(a) == names(b),
    ensures
        a == b,
    decreases a.len(),
{
    let n = first_name_len(a);
    let m = first_name_len(b);
    plain_path_starts_with_name(a);
    plain_path_starts_with_name(b);
    let others_a = names(after_first_name(a));
    let others_b = names(after_first_name(b));
    assert(names(a)[0] == a.take(n));
    assert(names(b)[0] == b.take(m));
    assert(a.take(n).len() == n && b.take(m).len() == m);
    assert(others_a =~= names(a).drop_first());
    assert(others_b =~= names(b).drop_first());
    if n < a.len() {
        plain_path_starts_with_name(after_first_name(a));
    }
    if m < b.len() {
        plain_path_starts_with_name(after_first_name(b));
    }
    if n < a.len() && m < b.len() {
        plain_names_write_one_path(after_first_name(a), after_first_name(b));
    } else {
        assert(n == a.len() && m == b.len());
        assert(a.take(n) =~= a);
        assert(b.take(m) =~= b);
    }
}

/// Paths that are plainly written lead to the same place only where they are the same.
pub proof fn plain_paths_lead_to_their_own_places(a: Seq<u8>, b: Seq<u8>)
    requires
        is_plain(a),
        is_plain(b),
    ensures
        same_place(a, b) <==> a == b,
{
    if same_place(a, b) {
        plain_names_write_one_path(a, b);
    }
}

/// A slash at the end, a second slash next to one, and a lone dot between slashes lead nowhere.
pub proof fn idle_names_lead_nowhere(front: Seq<u8>, back: Seq<u8>)
    requires
        front.len() > 0,
    ensures
        same_place(front, front.push(0x2f)),
        same_place(front.push(0x2f) + back, front + seq![0x2fu8, 0x2fu8] + back),
        same_place(front.push(0x2f) + back, front + seq![0x2fu8, 0x2eu8, 0x2fu8] + back),
{
    let none = Seq::<u8>::empty();
    let dot = seq![DOT];
    assert(front.push(SLASH) + none =~= front.push(SLASH));
    names_of_both_sides(front, none);
    assert(names(front) + names(none) =~= names(front));
    names_of_both_sides(front, back);
    let slashes = front + seq![0x2fu8, 0x2fu8] + back;
    assert(slashes =~= front.push(SLASH) + (none.push(SLASH) + back));
    names_of_both_sides(front, none.push(SLASH) + back);
    names_of_both_sides(none, back);
    assert(names(none) + names(back) =~= names(back));
    let dotted = front + seq![0x2fu8, 0x2eu8, 0x2fu8] + back;
    assert(dotted =~= front.push(SLASH) + (dot.push(SLASH) + back));
    names_of_both_sides(front, dot.push(SLASH) + back);
    names_of_both_sides(dot, back);
    assert(names(dot) =~= Seq::empty()) by {
        first_name_len_bounds(dot);
        let n = first_name_len(dot);
        if n == 0 {
            assert(dot[0] == SLASH);
        }
        assert(dot.take(1) =~= dot);
        assert(after_first_name(dot) =~= none);
    }
    assert(names(dot) + names(back) =~= names(back));
    let plain = front.push(SLASH) + back;
    assert(plain[0] == front[0] && slashes[0] == front[0] && dotted[0] == front[0]);
    if front.len() > 1 {
        assert(plain[1] == front[1] && slashes[1] == front[1] && dotted[1] == front[1]);
        assert(front.push(0x2f)[1] == front[1]);
    } else {
        assert(plain[1] == SLASH && slashes[1] == SLASH && dotted[1] == SLASH);
    }
}

/// A path from the root, a path from the current directory, and any other path lead to different
/// places.
pub proof fn paths_start_where_they_say(a: Seq<u8>, b: Seq<u8>)
    requires
        same_place(a, b),
    ensures
        a.len() > 0 && a[0] == 0x2f ==> b.len() > 0 && b[0] == 0x2f,
        a.len() > 0 && a[0] == 0x2e && (a.len() == 1 || a[1] == 0x2f) ==> b.len() > 0 && b[0]
            == 0x2e && (b.len() == 1 || b[1] == 0x2f),
{
}

} // verus!
