//! Properties of the orders in which lists are shown, and of path completion.
use vstd::prelude::*;
use vstd::multiset::Multiset;
use crate::backup_tree::{insert_by_created, newest_backups_first};
use crate::chat::ChatSession;
use crate::chat_state::{insert_by_time, newest_first};
use crate::path_complete::{common_prefix, completion, lcp, matches_of};
use crate::text::seq_starts_with;
use crate::ui_state::BackupInfo;
use crate::notebook::{ids_minus, id_pos, lemma_id_pos, lemma_id_pos_first, moved_after, moved_before, next_in, prev_in,
    rotated_next, rotated_prev};

verus! {

broadcast use vstd::seq_lib::group_to_multiset_ensures;

/// Sessions newest first: no session is older than one after it.
pub open spec fn sessions_ordered(s: Seq<ChatSession>) -> bool {
    forall|i: int, j: int| 0 <= i < j < s.len() ==> s[i].updated_at >= s[j].updated_at
}

/// Putting a session into a newest-first list keeps the list newest first
/// and adds just that session.
proof fn lemma_insert_by_time(sorted: Seq<ChatSession>, x: ChatSession)
    requires
        sessions_ordered(sorted),
    ensures
        sessions_ordered(insert_by_time(sorted, x)),
        insert_by_time(sorted, x).to_multiset() == sorted.to_multiset().insert(x),
    decreases sorted.len(),
{
    if sorted.len() == 0 {
        assert(seq![x] =~= Seq::<ChatSession>::empty().push(x));
    } else if sorted.last().updated_at >= x.updated_at {
    } else {
        let a = sorted.drop_last();
        assert(sorted =~= a.push(sorted.last()));
        lemma_insert_by_time(a, x);
        let r = insert_by_time(a, x);
        assert forall|k: int| 0 <= k < r.len() implies r[k].updated_at >= sorted.last().updated_at by {
            if r[k] != x {
                assert(r.to_multiset().count(r[k]) > 0);
                assert(a.to_multiset().insert(x).count(r[k]) > 0);
                assert(a.contains(r[k]));
            }
        }
    }
}

/// The saved sessions are listed newest first, and the list holds exactly
/// the sessions there are.
pub proof fn law_sessions_newest_first(s: Seq<ChatSession>)
    ensures
        sessions_ordered(newest_first(s)),
        newest_first(s).to_multiset() == s.to_multiset(),
    decreases s.len(),
{
    if s.len() > 0 {
        law_sessions_newest_first(s.drop_last());
        lemma_insert_by_time(newest_first(s.drop_last()), s.last());
        assert(s =~= s.drop_last().push(s.last()));
    } else {
        assert(s.to_multiset() =~= Multiset::empty());
        assert(newest_first(s).to_multiset() =~= Multiset::empty());
    }
}

/// Backups newest first: no backup is older than one after it.
pub open spec fn backups_ordered(s: Seq<BackupInfo>) -> bool {
    forall|i: int, j: int| 0 <= i < j < s.len() ==> s[i].created_at >= s[j].created_at
}

/// Putting a backup into a newest-first list keeps the list newest first
/// and adds just that backup.
proof fn lemma_insert_by_created(sorted: Seq<BackupInfo>, x: BackupInfo)
    requires
        backups_ordered(sorted),
    ensures
        backups_ordered(insert_by_created(sorted, x)),
        insert_by_created(sorted, x).to_multiset() == sorted.to_multiset().insert(x),
    decreases sorted.len(),
{
    if sorted.len() == 0 {
        assert(seq![x] =~= Seq::<BackupInfo>::empty().push(x));
    } else if sorted.last().created_at >= x.created_at {
    } else {
        let a = sorted.drop_last();
        assert(sorted =~= a.push(sorted.last()));
        lemma_insert_by_created(a, x);
        let r = insert_by_created(a, x);
        assert forall|k: int| 0 <= k < r.len() implies r[k].created_at >= sorted.last().created_at by {
            if r[k] != x {
                assert(r.to_multiset().count(r[k]) > 0);
                assert(a.to_multiset().insert(x).count(r[k]) > 0);
                assert(a.contains(r[k]));
            }
        }
    }
}

/// The backup files are listed newest first, and the list holds exactly
/// the backups found.
pub proof fn law_backups_newest_first(s: Seq<BackupInfo>)
    ensures
        backups_ordered(newest_backups_first(s)),
        newest_backups_first(s).to_multiset() == s.to_multiset(),
    decreases s.len(),
{
    if s.len() > 0 {
        law_backups_newest_first(s.drop_last());
        lemma_insert_by_created(newest_backups_first(s.drop_last()), s.last());
        assert(s =~= s.drop_last().push(s.last()));
    } else {
        assert(s.to_multiset() =~= Multiset::empty());
        assert(newest_backups_first(s).to_multiset() =~= Multiset::empty());
    }
}

/// Two texts that both begin with `p` share a beginning that begins with `p`.
proof fn lemma_lcp_keeps(a: Seq<char>, b: Seq<char>, p: Seq<char>)
    requires
        seq_starts_with(a, p),
        seq_starts_with(b, p),
    ensures
        seq_starts_with(lcp(a, b), p),
        seq_starts_with(a, lcp(a, b)),
    decreases a.len(),
{
    if a.len() == 0 || b.len() == 0 || a[0] != b[0] {
        if p.len() > 0 {
            assert(a.subrange(0, p.len() as int)[0] == p[0]);
            assert(b.subrange(0, p.len() as int)[0] == p[0]);
            assert(false);
        }
        assert(lcp(a, b) =~= Seq::<char>::empty());
        assert(a.subrange(0, 0) =~= Seq::<char>::empty());
        assert(lcp(a, b).subrange(0, 0) =~= p);
    } else {
        let q = if p.len() > 0 { p.drop_first() } else { p };
        assert(a.drop_first().subrange(0, q.len() as int) =~= q) by {
            if p.len() > 0 {
                assert forall|k: int| 0 <= k < q.len() implies a.drop_first()[k] == q[k] by {
                    assert(a.subrange(0, p.len() as int)[k + 1] == p[k + 1]);
                }
            }
        }
        assert(b.drop_first().subrange(0, q.len() as int) =~= q) by {
            if p.len() > 0 {
                assert forall|k: int| 0 <= k < q.len() implies b.drop_first()[k] == q[k] by {
                    assert(b.subrange(0, p.len() as int)[k + 1] == p[k + 1]);
                }
            }
        }
        lemma_lcp_keeps(a.drop_first(), b.drop_first(), q);
        let rest = lcp(a.drop_first(), b.drop_first());
        let l = seq![a[0]] + rest;
        assert(l.subrange(0, p.len() as int) =~= p) by {
            if p.len() > 0 {
                assert(p =~= seq![p[0]] + q);
                assert forall|k: int| 0 <= k < p.len() implies l[k] == p[k] by {
                    if k > 0 {
                        assert(rest.subrange(0, q.len() as int)[k - 1] == q[k - 1]);
                    } else {
                        assert(a.subrange(0, p.len() as int)[0] == p[0]);
                    }
                }
            }
        }
        assert(a.subrange(0, l.len() as int) =~= l) by {
            assert forall|k: int| 0 <= k < l.len() implies a[k] == l[k] by {
                if k > 0 {
                    assert(a.drop_first().subrange(0, rest.len() as int)[k - 1] == rest[k - 1]);
                }
            }
        }
    }
}

/// Every entry that matches begins with `p`.
proof fn lemma_matches_start(e: Seq<(Seq<char>, bool)>, p: Seq<char>)
    ensures
        forall|k: int| 0 <= k < matches_of(e, p).len() ==> seq_starts_with(#[trigger] matches_of(e, p)[k].0, p),
    decreases e.len(),
{
    if e.len() > 0 {
        lemma_matches_start(e.drop_last(), p);
        let m = matches_of(e.drop_last(), p);
        if seq_starts_with(e.last().0, p) {
            assert forall|k: int| 0 <= k < m.push(e.last()).len() implies seq_starts_with(#[trigger] m.push(e.last())[k].0, p) by {
                if k < m.len() {
                    assert(m.push(e.last())[k] == m[k]);
                }
            }
        }
    }
}

/// The shared beginning of names that all begin with `p` begins with `p`.
proof fn lemma_common_prefix_keeps(m: Seq<(Seq<char>, bool)>, p: Seq<char>)
    requires
        m.len() > 0,
        forall|k: int| 0 <= k < m.len() ==> seq_starts_with(#[trigger] m[k].0, p),
    ensures
        seq_starts_with(common_prefix(m), p),
    decreases m.len(),
{
    if m.len() > 1 {
        let a = m.drop_last();
        assert forall|k: int| 0 <= k < a.len() implies seq_starts_with(#[trigger] a[k].0, p) by {
            assert(a[k] == m[k]);
        }
        lemma_common_prefix_keeps(a, p);
        assert(seq_starts_with(m.last().0, p));
        lemma_lcp_keeps(common_prefix(a), m.last().0, p);
    }
}

/// Completing a path only adds to it: what it becomes begins with the
/// folder and the start of the name that were typed.
pub proof fn law_completion_extends(dir: Seq<char>, p: Seq<char>, entries: Seq<(Seq<char>, bool)>)
    ensures
        completion(dir, p, entries) matches Some(s) ==> seq_starts_with(s, dir + p),
{
    let m = matches_of(entries, p);
    lemma_matches_start(entries, p);
    if m.len() == 1 {
        let s = dir + m[0].0 + if m[0].1 { "/"@ } else { ""@ };
        assert(seq_starts_with(m[0].0, p));
        assert(s.subrange(0, (dir + p).len() as int) =~= dir + p) by {
            assert forall|k: int| 0 <= k < (dir + p).len() implies s[k] == (dir + p)[k] by {
                if k >= dir.len() {
                    assert(m[0].0.subrange(0, p.len() as int)[k - dir.len()] == p[k - dir.len()]);
                }
            }
        }
    } else if m.len() > 1 {
        lemma_common_prefix_keeps(m, p);
        let cp = common_prefix(m);
        let s = dir + cp;
        assert(s.subrange(0, (dir + p).len() as int) =~= dir + p) by {
            assert forall|k: int| 0 <= k < (dir + p).len() implies s[k] == (dir + p)[k] by {
                if k >= dir.len() {
                    assert(cp.subrange(0, p.len() as int)[k - dir.len()] == p[k - dir.len()]);
                }
            }
        }
    }
}

/// Taking out an id held once, at `p`, removes just that position.
proof fn lemma_minus_once(s: Seq<u128>, x: u128, p: int)
    requires
        0 <= p < s.len(),
        s[p] == x,
        forall|k: int| 0 <= k < s.len() && k != p ==> s[k] != x,
    ensures
        ids_minus(s, x) == s.remove(p),
    decreases s.len(),
{
    reveal_with_fuel(Seq::filter, 1);
    let d = s.drop_last();
    if p == s.len() - 1 {
        assert(!d.contains(x)) by {
            if d.contains(x) {
                let j = choose|j: int| 0 <= j < d.len() && d[j] == x;
                assert(s[j] == x);
            }
        }
        crate::laws::lemma_minus_absent(d, x);
        assert(s.remove(p) =~= d);
    } else {
        assert forall|k: int| 0 <= k < d.len() && k != p implies d[k] != x by {
            assert(d[k] == s[k]);
        }
        lemma_minus_once(d, x, p);
        assert(s.last() != x);
        assert(d.remove(p).push(s.last()) =~= s.remove(p));
    }
}

/// With no id twice, `id_pos` finds the one position of an id.
proof fn lemma_pos_distinct(s: Seq<u128>, j: int)
    requires
        0 <= j < s.len(),
        s.no_duplicates(),
    ensures
        id_pos(s, s[j]) == j,
{
    lemma_id_pos_first(s, s[j], j);
}

/// Moving a root notebook to the next root position and then back to the
/// previous one restores the order of the roots.
pub proof fn law_root_rotation_undone(s: Seq<u128>, i: int)
    requires
        0 <= i < s.len(),
    ensures
        rotated_prev(rotated_next(s, i), (i + 1) % (s.len() as int)) == s,
{
    let n = s.len() as int;
    let j = (i + 1) % n;
    assert(i + 1 < n ==> (i + 1) % n == i + 1) by (nonlinear_arith)
        requires 0 <= i < n;
    assert(i + 1 == n ==> (i + 1) % n == 0) by (nonlinear_arith)
        requires 0 <= i < n;
    let r = s.remove(i);
    let t = rotated_next(s, i);
    assert(0 <= j < n);
    assert(t == r.insert(j, s[i]));
    assert(t[j] == s[i]);
    assert(t.remove(j) =~= r);
    let back = if j == 0 { n - 1 } else { j - 1 };
    assert(back == i) by {
        if j == 0 {
            assert(i == n - 1);
        }
    }
    assert(r.insert(i, s[i]) =~= s);
}

/// Moving a notebook that is not the last of its siblings to the next
/// position and then to the previous one restores the order: the
/// sibling it passed is the one it is moved back before.
pub proof fn law_sibling_swap_undone(kids: Seq<u128>, x: u128)
    requires
        kids.no_duplicates(),
        kids.contains(x),
        id_pos(kids, x) < kids.len() - 1,
    ensures
        ({
            let t = moved_after(kids, x, next_in(kids, x));
            &&& prev_in(t, x) == next_in(kids, x)
            &&& moved_before(t, x, prev_in(t, x)) == kids
        }),
{
    lemma_id_pos(kids, x);
    let p = id_pos(kids, x);
    let n = kids.len() as int;
    assert((p + 1) % n == p + 1) by (nonlinear_arith)
        requires 0 <= p, p + 1 < n;
    let y = kids[p + 1];
    assert(next_in(kids, x) == y);
    assert forall|k: int| 0 <= k < n && k != p implies kids[k] != x by {
        if kids[k] == x {
            assert(kids[k] == kids[p]);
        }
    }
    lemma_minus_once(kids, x, p);
    let r = kids.remove(p);
    assert(r.no_duplicates()) by {
        assert forall|a: int, b: int| 0 <= a < r.len() && 0 <= b < r.len() && a != b implies r[a] != r[b] by {
            let a2 = if a < p { a } else { a + 1 };
            let b2 = if b < p { b } else { b + 1 };
            assert(r[a] == kids[a2]);
            assert(r[b] == kids[b2]);
        }
    }
    assert(r[p] == y);
    lemma_pos_distinct(r, p);
    let t = r.insert(p + 1, x);
    assert(t == moved_after(kids, x, y));
    assert(t[p + 1] == x);
    assert(t[p] == y);
    assert(forall|k: int| 0 <= k < t.len() && k != p + 1 ==> t[k] != x) by {
        assert forall|k: int| 0 <= k < t.len() && k != p + 1 implies t[k] != x by {
            if k <= p {
                assert(t[k] == r[k]);
                let k2 = if k < p { k } else { k + 1 };
                assert(r[k] == kids[k2]);
            } else {
                assert(t[k] == r[k - 1]);
                assert(r[k - 1] == kids[k]);
            }
        }
    }
    lemma_id_pos_first(t, x, p + 1);
    assert(prev_in(t, x) == y);
    lemma_minus_once(t, x, p + 1);
    assert(t.remove(p + 1) =~= r);
    assert(r.insert(p, x) =~= kids);
}

} // verus!
