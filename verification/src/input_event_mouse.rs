//! Selection of pointing-device node names: a device node belongs to a
//! pointing device exactly when its file name carries the event-mouse
//! marker.

use vstd::prelude::*;

verus! {

/// The marker that a pointing device's node name carries.
pub open spec fn mouse_marker() -> Seq<char> {
    "event-mouse"@
}

/// `pat` occurs in `s` starting at index `i`.
pub open spec fn contains_seq_at(s: Seq<char>, pat: Seq<char>, i: int) -> bool {
    0 <= i && i + pat.len() <= s.len() && s.subrange(i, i + pat.len() as int) == pat
}

/// `pat` occurs somewhere in `s`.
pub open spec fn contains_seq(s: Seq<char>, pat: Seq<char>) -> bool {
    exists|i: int| contains_seq_at(s, pat, i)
}

/// The name names a pointing device.
pub open spec fn is_event_mouse_name(s: Seq<char>) -> bool {
    contains_seq(s, mouse_marker())
}

/// The names that name pointing devices, kept in their order.
pub open spec fn event_mouse_matches(names: Seq<String>) -> Seq<String> {
    names.filter(|n: String| is_event_mouse_name(n@))
}

fn match_at(s: &str, pat: &str, i: usize) -> (r: bool)
    requires
        i + pat@.len() <= s@.len(),
        s@.len() <= usize::MAX,
    ensures
        r == contains_seq_at(s@, pat@, i as int),
{
    let m = pat.unicode_len();
    let mut j: usize = 0;
    while j < m
        invariant
            j <= m,
            m == pat@.len(),
            i + m <= s@.len(),
            s@.len() <= usize::MAX,
            forall|t: int| 0 <= t < j ==> s@[i + t] == pat@[t],
        decreases m - j,
    {
        if s.get_char(i + j) != pat.get_char(j) {
            proof {
                if contains_seq_at(s@, pat@, i as int) {
                    assert(s@.subrange(i as int, i + pat@.len() as int)[j as int] == s@[i + j]);
                }
            }
            return false;
        }
        j += 1;
    }
    proof {
        assert(s@.subrange(i as int, i + pat@.len() as int) =~= pat@);
    }
    true
}

fn str_contains(s: &str, pat: &str) -> (r: bool)
    ensures
        r == contains_seq(s@, pat@),
{
    let n = s.unicode_len();
    let m = pat.unicode_len();
    if m == 0 {
        proof {
            assert(s@.subrange(0, 0) =~= pat@);
            assert(contains_seq_at(s@, pat@, 0));
        }
        return true;
    }
    if m > n {
        proof {
            if contains_seq(s@, pat@) {
                let k = choose|k: int| contains_seq_at(s@, pat@, k);
                assert(k + pat@.len() <= s@.len());
            }
        }
        return false;
    }
    let mut i: usize = 0;
    while i <= n - m
        invariant
            1 <= m <= n,
            n == s@.len(),
            m == pat@.len(),
            i <= n - m + 1,
            forall|k: int| 0 <= k < i ==> !contains_seq_at(s@, pat@, k),
        decreases n + 1 - m - i,
    {
        if match_at(s, pat, i) {
            return true;
        }
        i += 1;
    }
    proof {
        if contains_seq(s@, pat@) {
            let k = choose|k: int| contains_seq_at(s@, pat@, k);
            assert(k <= n - m);
        }
    }
    false
}

/// Keep the device node names that name pointing devices, in the order
/// they were handed in.
pub fn find_event_mouses(names: Vec<String>) -> (r: Vec<String>)
    ensures
        r@ == event_mouse_matches(names@),
{
    let ghost all = names@;
    let mut rest = names;
    let mut found: Vec<String> = Vec::new();
    let ghost mut i: int = 0;
    proof {
        assert(all.take(0) =~= Seq::<String>::empty());
        assert(Seq::<String>::empty().filter(|n: String| is_event_mouse_name(n@)) =~= Seq::<
            String,
        >::empty());
    }
    while rest.len() > 0
        invariant
            0 <= i <= all.len(),
            rest@ == all.skip(i),
            found@ == event_mouse_matches(all.take(i)),
        decreases rest.len(),
    {
        let s = rest.remove(0);
        proof {
            assert(s == all.skip(i)[0]);
            assert(s == all[i]);
            assert(rest@ =~= all.skip(i + 1));
        }
        let is_match = str_contains(s.as_str(), "event-mouse");
        proof {
            reveal_with_fuel(Seq::<_>::filter, 2);
            let t = all.take(i);
            let x = all[i];
            assert(all.take(i + 1) =~= t.push(x));
            assert(t.push(x).drop_last() =~= t);
            assert(t.push(x).drop_last() == t);
            assert(t.push(x).last() == x);
            assert(event_mouse_matches(t.push(x)) == (if is_event_mouse_name(x@) {
                event_mouse_matches(t).push(x)
            } else {
                event_mouse_matches(t)
            }));
        }
        if is_match {
            found.push(s);
        }
        proof {
            i = i + 1;
        }
    }
    proof {
        assert(all.take(i) =~= all);
    }
    found
}

/// The first pointing-device node name, if any.
pub fn find_event_mouse(names: Vec<String>) -> (r: Option<String>)
    ensures
        event_mouse_matches(names@).len() == 0 ==> r is None,
        event_mouse_matches(names@).len() > 0 ==> r == Some(event_mouse_matches(names@)[0]),
{
    let mut found = find_event_mouses(names);
    if found.len() == 0 {
        None
    } else {
        Some(found.remove(0))
    }
}

} // verus!
