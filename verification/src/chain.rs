//! Families of linked lists that share one set of nodes.
//!
//! A node is named by its address. `links` gives the address that a node points to, 0 at the end of
//! a list. Every list has a home: `None` is the state word, `Some(t)` is the walk of thread `t`.

use vstd::prelude::*;

verus! {

/// The address at place `i` of a list, 0 past its end.
pub open spec fn at(list: Seq<usize>, i: int) -> usize {
    if 0 <= i < list.len() {
        list[i]
    } else {
        0
    }
}

/// The nodes reached from `head` along `links` are those of `list`, in that order.
pub open spec fn chain(links: Map<usize, usize>, head: usize, list: Seq<usize>) -> bool {
    &&& head == at(list, 0)
    &&& forall|i: int|
        0 <= i < list.len() ==> #[trigger] list[i] != 0 && links[list[i]] == at(list, i + 1)
}

/// There is only one list from a head.
pub proof fn lemma_unique(links: Map<usize, usize>, head: usize, a: Seq<usize>, b: Seq<usize>)
    requires
        chain(links, head, a),
        chain(links, head, b),
    ensures
        a == b,
    decreases a.len(),
{
    if a.len() == 0 {
        if b.len() > 0 {
            assert(b[0] != 0);
        }
        assert(a =~= b);
    } else {
        assert(a[0] != 0 && b[0] == a[0]);
        lemma_rest(links, a);
        lemma_rest(links, b);
        lemma_unique(links, links[head], a.drop_first(), b.drop_first());
        assert(a =~= seq![a[0]] + a.drop_first());
        assert(b =~= seq![b[0]] + b.drop_first());
    }
}

/// What follows the first node of a list is a list.
pub proof fn lemma_rest(links: Map<usize, usize>, list: Seq<usize>)
    requires
        list.len() > 0,
        chain(links, list[0], list),
    ensures
        chain(links, links[list[0]], list.drop_first()),
{
    let rest = list.drop_first();
    assert(links[list[0]] == at(list, 1));
    assert forall|i: int| 0 <= i < rest.len() implies #[trigger] rest[i] != 0 && links[rest[i]]
        == at(rest, i + 1) by {
        assert(rest[i] == list[i + 1]);
    }
}

/// Whether `x` stands at place `i` of the list of `home`.
pub open spec fn stands(
    lists: Map<Option<usize>, Seq<usize>>,
    home: Option<usize>,
    i: int,
    x: usize,
) -> bool {
    &&& lists.contains_key(home)
    &&& 0 <= i < lists[home].len()
    &&& lists[home][i] == x
}

/// Whether `x` stands in some list.
pub open spec fn listed(lists: Map<Option<usize>, Seq<usize>>, x: usize) -> bool {
    exists|home: Option<usize>, i: int| stands(lists, home, i, x)
}

/// `lists` are the lists that start at `heads`. No node stands in two places.
pub open spec fn family(
    links: Map<usize, usize>,
    heads: Map<Option<usize>, usize>,
    lists: Map<Option<usize>, Seq<usize>>,
) -> bool {
    &&& lists.dom() == heads.dom()
    &&& forall|home: Option<usize>| #[trigger]
        lists.contains_key(home) ==> chain(links, heads[home], lists[home])
    &&& forall|h1: Option<usize>, i1: int, h2: Option<usize>, i2: int, x: usize|
        #[trigger] stands(lists, h1, i1, x) && #[trigger] stands(lists, h2, i2, x) ==> h1 == h2
            && i1 == i2
}

/// Changing the link of a node that stands nowhere changes no list.
pub proof fn lemma_relink(
    links: Map<usize, usize>,
    heads: Map<Option<usize>, usize>,
    lists: Map<Option<usize>, Seq<usize>>,
    x: usize,
    link: usize,
)
    requires
        family(links, heads, lists),
        !listed(lists, x),
    ensures
        family(links.insert(x, link), heads, lists),
{
    assert forall|home: Option<usize>| #[trigger] lists.contains_key(home) implies chain(
        links.insert(x, link),
        heads[home],
        lists[home],
    ) by {
        assert forall|i: int| 0 <= i < lists[home].len() implies #[trigger] lists[home][i]
            != 0 && links.insert(x, link)[lists[home][i]] == at(lists[home], i + 1) by {
            assert(stands(lists, home, i, lists[home][i]));
        }
    }
}

/// A node that stands nowhere goes in front of a list.
pub proof fn lemma_push(
    links: Map<usize, usize>,
    heads: Map<Option<usize>, usize>,
    lists: Map<Option<usize>, Seq<usize>>,
    home: Option<usize>,
    x: usize,
)
    requires
        family(links, heads, lists),
        lists.contains_key(home),
        !listed(lists, x),
        x != 0,
    ensures
        family(
            links.insert(x, heads[home]),
            heads.insert(home, x),
            lists.insert(home, seq![x] + lists[home]),
        ),
        forall|h: Option<usize>, i: int, y: usize| #[trigger]
            stands(lists.insert(home, seq![x] + lists[home]), h, i, y) <==> if h == home {
                (i == 0 && y == x) || stands(lists, h, i - 1, y)
            } else {
                stands(lists, h, i, y)
            },
{
    let links1 = links.insert(x, heads[home]);
    let heads1 = heads.insert(home, x);
    let list1 = seq![x] + lists[home];
    let lists1 = lists.insert(home, list1);
    assert forall|h: Option<usize>, i: int, y: usize| #[trigger]
        stands(lists1, h, i, y) <==> if h == home {
            (i == 0 && y == x) || stands(lists, h, i - 1, y)
        } else {
            stands(lists, h, i, y)
        } by {}
    assert(lists1.dom() =~= heads1.dom());
    assert forall|h: Option<usize>| #[trigger] lists1.contains_key(h) implies chain(
        links1,
        heads1[h],
        lists1[h],
    ) by {
        assert(lists.contains_key(h));
        assert(chain(links, heads[h], lists[h]));
        assert forall|i: int| 0 <= i < lists1[h].len() implies #[trigger] lists1[h][i] != 0
            && links1[lists1[h][i]] == at(lists1[h], i + 1) by {
            if h == home {
                if i > 0 {
                    assert(lists1[h][i] == lists[h][i - 1]);
                    assert(stands(lists, h, i - 1, lists[h][i - 1]));
                }
            } else {
                assert(stands(lists, h, i, lists[h][i]));
            }
        }
    }
    assert forall|h1: Option<usize>, i1: int, h2: Option<usize>, i2: int, y: usize|
        #[trigger] stands(lists1, h1, i1, y) && #[trigger] stands(lists1, h2, i2, y) implies h1
        == h2 && i1 == i2 by {
        let j1 = if h1 == home {
            i1 - 1
        } else {
            i1
        };
        let j2 = if h2 == home {
            i2 - 1
        } else {
            i2
        };
        if y == x {
            if !(h1 == home && i1 == 0) {
                assert(stands(lists, h1, j1, y));
            }
            if !(h2 == home && i2 == 0) {
                assert(stands(lists, h2, j2, y));
            }
        } else {
            assert(stands(lists, h1, j1, y) && stands(lists, h2, j2, y));
        }
    }
}

/// The first node of a list leaves it.
pub proof fn lemma_pop(
    links: Map<usize, usize>,
    heads: Map<Option<usize>, usize>,
    lists: Map<Option<usize>, Seq<usize>>,
    home: Option<usize>,
)
    requires
        family(links, heads, lists),
        lists.contains_key(home),
        heads[home] != 0,
    ensures
        lists[home].len() > 0,
        lists[home][0] == heads[home],
        stands(lists, home, 0, heads[home]),
        family(
            links,
            heads.insert(home, links[heads[home]]),
            lists.insert(home, lists[home].drop_first()),
        ),
        forall|h: Option<usize>, i: int, y: usize| #[trigger]
            stands(lists.insert(home, lists[home].drop_first()), h, i, y) <==> if h == home {
                i >= 0 && stands(lists, h, i + 1, y)
            } else {
                stands(lists, h, i, y)
            },
{
    assert(chain(links, heads[home], lists[home]));
    let heads1 = heads.insert(home, links[heads[home]]);
    let lists1 = lists.insert(home, lists[home].drop_first());
    assert(lists1.dom() =~= heads1.dom());
    assert(links[lists[home][0]] == at(lists[home], 1));
    assert forall|h: Option<usize>, i: int, y: usize| #[trigger]
        stands(lists1, h, i, y) <==> if h == home {
            i >= 0 && stands(lists, h, i + 1, y)
        } else {
            stands(lists, h, i, y)
        } by {}
    assert forall|h: Option<usize>| #[trigger] lists1.contains_key(h) implies chain(
        links,
        heads1[h],
        lists1[h],
    ) by {
        assert(lists.contains_key(h));
        assert(chain(links, heads[h], lists[h]));
        assert forall|i: int| 0 <= i < lists1[h].len() implies #[trigger] lists1[h][i] != 0
            && links[lists1[h][i]] == at(lists1[h], i + 1) by {
            if h == home {
                assert(lists1[h][i] == lists[h][i + 1]);
            }
        }
    }
    assert forall|h1: Option<usize>, i1: int, h2: Option<usize>, i2: int, y: usize|
        #[trigger] stands(lists1, h1, i1, y) && #[trigger] stands(lists1, h2, i2, y) implies h1
        == h2 && i1 == i2 by {
        let j1 = if h1 == home {
            i1 + 1
        } else {
            i1
        };
        let j2 = if h2 == home {
            i2 + 1
        } else {
            i2
        };
        assert(stands(lists, h1, j1, y) && stands(lists, h2, j2, y));
    }
}

/// A whole list moves from one home to another that has none.
pub proof fn lemma_move(
    links: Map<usize, usize>,
    heads: Map<Option<usize>, usize>,
    lists: Map<Option<usize>, Seq<usize>>,
    from: Option<usize>,
    to: Option<usize>,
)
    requires
        family(links, heads, lists),
        lists.contains_key(from),
        lists.contains_key(to),
        from != to,
        heads[to] == 0,
    ensures
        family(
            links,
            heads.insert(from, 0).insert(to, heads[from]),
            lists.insert(from, Seq::empty()).insert(to, lists[from]),
        ),
        forall|h: Option<usize>, i: int, y: usize| #[trigger]
            stands(lists.insert(from, Seq::empty()).insert(to, lists[from]), h, i, y) <==> if h
                == to {
                stands(lists, from, i, y)
            } else {
                h != from && stands(lists, h, i, y)
            },
{
    let heads1 = heads.insert(from, 0).insert(to, heads[from]);
    let lists1 = lists.insert(from, Seq::empty()).insert(to, lists[from]);
    assert(lists1.dom() =~= heads1.dom());
    assert(chain(links, heads[from], lists[from]));
    assert forall|h: Option<usize>| #[trigger] lists1.contains_key(h) implies chain(
        links,
        heads1[h],
        lists1[h],
    ) by {
        assert(lists.contains_key(h));
        assert(chain(links, heads[h], lists[h]));
    }
    assert(lists[to].len() == 0) by {
        assert(chain(links, heads[to], lists[to]));
        if lists[to].len() > 0 {
            assert(stands(lists, to, 0, lists[to][0]));
        }
    }
    assert forall|h: Option<usize>, i: int, y: usize| #[trigger]
        stands(lists1, h, i, y) <==> if h == to {
            stands(lists, from, i, y)
        } else {
            h != from && stands(lists, h, i, y)
        } by {}
    assert forall|h1: Option<usize>, i1: int, h2: Option<usize>, i2: int, y: usize|
        #[trigger] stands(lists1, h1, i1, y) && #[trigger] stands(lists1, h2, i2, y) implies h1
        == h2 && i1 == i2 by {
        let k1 = if h1 == to {
            from
        } else {
            h1
        };
        let k2 = if h2 == to {
            from
        } else {
            h2
        };
        assert(stands(lists, k1, i1, y) && stands(lists, k2, i2, y));
    }
}

} // verus!
