//! The username index of the registry: a vector of (username, game id)
//! pairs with distinct names, seen as a map from name to game id.
use vstd::prelude::*;

verus! {

/// Entry `i` of `s` holds the name `u`.
pub open spec fn names_user(s: Seq<(String, u32)>, u: Seq<char>, i: int) -> bool {
    0 <= i < s.len() && s[i].0@ == u
}

/// No name is held twice.
pub open spec fn distinct_users(s: Seq<(String, u32)>) -> bool {
    forall|i: int, j: int|
        0 <= i < s.len() && 0 <= j < s.len() && i != j ==> #[trigger] s[i].0@ != #[trigger] s[j].0@
}

/// The map from each name held in `s` to the game id beside it.
pub open spec fn user_index(s: Seq<(String, u32)>) -> Map<Seq<char>, u32> {
    Map::new(
        |u: Seq<char>| exists|i: int| names_user(s, u, i),
        |u: Seq<char>| s[choose|i: int| names_user(s, u, i)].1,
    )
}

/// The map gives each entry's own game id.
pub proof fn lemma_index_at(s: Seq<(String, u32)>, i: int)
    requires
        distinct_users(s),
        0 <= i < s.len(),
    ensures
        user_index(s).contains_key(s[i].0@),
        user_index(s)[s[i].0@] == s[i].1,
{
    let u = s[i].0@;
    assert(names_user(s, u, i));
    let j = choose|j: int| names_user(s, u, j);
    assert(s[j].0@ == s[i].0@);
}

/// Adding an entry for a new name adds that name to the map.
pub proof fn lemma_index_push(s: Seq<(String, u32)>, name: String, id: u32)
    requires
        distinct_users(s),
        !user_index(s).contains_key(name@),
    ensures
        distinct_users(s.push((name, id))),
        user_index(s.push((name, id))) == user_index(s).insert(name@, id),
{
    let t = s.push((name, id));
    assert forall|i: int, j: int|
        0 <= i < t.len() && 0 <= j < t.len() && i != j implies #[trigger] t[i].0@
        != #[trigger] t[j].0@ by {
        if i == s.len() {
            assert(!names_user(s, name@, j));
        } else if j == s.len() {
            assert(!names_user(s, name@, i));
        }
    }
    assert forall|u: Seq<char>|
        #[trigger] user_index(t).contains_key(u) == user_index(s).insert(name@, id).contains_key(
            u,
        ) by {
        if user_index(s).contains_key(u) {
            let i = choose|i: int| names_user(s, u, i);
            assert(names_user(t, u, i));
        }
        if u == name@ {
            assert(names_user(t, u, s.len() as int));
        }
        if user_index(t).contains_key(u) && u != name@ {
            let i = choose|i: int| names_user(t, u, i);
            assert(names_user(s, u, i));
        }
    }
    assert forall|u: Seq<char>| #[trigger]
        user_index(t).contains_key(u) implies user_index(t)[u] == user_index(s).insert(
        name@,
        id,
    )[u] by {
        if u == name@ {
            lemma_index_at(t, s.len() as int);
        } else {
            let i = choose|i: int| names_user(t, u, i);
            assert(i < s.len());
            lemma_index_at(t, i);
            lemma_index_at(s, i);
        }
    }
    assert(user_index(t) =~= user_index(s).insert(name@, id));
}

/// Taking entry `k` out takes its name out of the map.
pub proof fn lemma_index_remove(s: Seq<(String, u32)>, k: int)
    requires
        distinct_users(s),
        0 <= k < s.len(),
    ensures
        distinct_users(s.remove(k)),
        user_index(s.remove(k)) == user_index(s).remove(s[k].0@),
{
    let t = s.remove(k);
    let name = s[k].0@;
    assert forall|i: int, j: int|
        0 <= i < t.len() && 0 <= j < t.len() && i != j implies #[trigger] t[i].0@
        != #[trigger] t[j].0@ by {
        let si = if i < k {
            i
        } else {
            i + 1
        };
        let sj = if j < k {
            j
        } else {
            j + 1
        };
        assert(t[i] == s[si]);
        assert(t[j] == s[sj]);
    }
    assert forall|u: Seq<char>| #[trigger]
        user_index(t).contains_key(u) == user_index(s).remove(name).contains_key(u) by {
        if user_index(t).contains_key(u) {
            let i = choose|i: int| names_user(t, u, i);
            let si = if i < k {
                i
            } else {
                i + 1
            };
            assert(t[i] == s[si]);
            assert(names_user(s, u, si));
            assert(si != k);
            assert(u != name);
        }
        if user_index(s).contains_key(u) && u != name {
            let i = choose|i: int| names_user(s, u, i);
            assert(i != k);
            let ti = if i < k {
                i
            } else {
                i - 1
            };
            assert(t[ti] == s[i]);
            assert(names_user(t, u, ti));
        }
    }
    assert forall|u: Seq<char>| #[trigger]
        user_index(t).contains_key(u) implies user_index(t)[u] == user_index(s)[u] by {
        let i = choose|i: int| names_user(t, u, i);
        let si = if i < k {
            i
        } else {
            i + 1
        };
        assert(t[i] == s[si]);
        lemma_index_at(t, i);
        lemma_index_at(s, si);
    }
    assert(user_index(t) =~= user_index(s).remove(name));
}

/// The position of `user`'s entry in `s`, if there is one.
pub fn find_user(s: &Vec<(String, u32)>, user: &String) -> (r: Option<usize>)
    requires
        distinct_users(s@),
    ensures
        r is None <==> !user_index(s@).contains_key(user@),
        r matches Some(i) ==> i < s.len() && s@[i as int].0@ == user@ && user_index(s@)[user@]
            == s@[i as int].1,
{
    let mut i: usize = 0;
    while i < s.len()
        invariant
            i <= s.len(),
            distinct_users(s@),
            forall|j: int| 0 <= j < i ==> !names_user(s@, user@, j),
        decreases s.len() - i,
    {
        if s[i].0 == *user {
            proof {
                lemma_index_at(s@, i as int);
            }
            return Some(i);
        }
        i = i + 1;
    }
    None
}

} // verus!
