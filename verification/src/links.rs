//! The order of the link definitions that close a rendered changelog.

use crate::changelog::{release_models, Release, ReleaseModel};
use crate::version::version_below;
use vstd::prelude::*;

verus! {

/// Whether a release gets a link definition under its version.
pub open spec fn has_link_line(r: ReleaseModel) -> bool {
    r.version is Some && r.link is Some
}

/// Whether the release at place `i` comes before the one at place `j` by
/// its version.
pub open spec fn release_below(releases: Seq<ReleaseModel>, i: int, j: int) -> bool {
    version_below(releases[i].version->0, releases[j].version->0)
}

/// The first place at or after `p` in `order` that holds a release of a
/// lower version than the release at `x`; the length of `order` if none does.
pub open spec fn place_from(releases: Seq<ReleaseModel>, order: Seq<int>, x: int, p: int) -> int
    decreases order.len() - p,
{
    if p < 0 || p >= order.len() {
        order.len() as int
    } else if release_below(releases, order[p], x) {
        p
    } else {
        place_from(releases, order, x, p + 1)
    }
}

/// The places of the first `n` releases that get a link definition, by
/// falling version; of two that the order does not tell apart, the one that
/// the changelog holds first comes first.
pub open spec fn link_order(releases: Seq<ReleaseModel>, n: int) -> Seq<int>
    decreases n,
{
    if n <= 0 {
        Seq::empty()
    } else {
        let rest = link_order(releases, n - 1);
        if n <= releases.len() && has_link_line(releases[n - 1]) {
            rest.insert(place_from(releases, rest, n - 1, 0), n - 1)
        } else {
            rest
        }
    }
}

pub proof fn lemma_place_from(releases: Seq<ReleaseModel>, order: Seq<int>, x: int, p: int)
    requires
        0 <= p <= order.len(),
    ensures
        p <= place_from(releases, order, x, p) <= order.len(),
        forall|j: int|
            p <= j < place_from(releases, order, x, p) ==> !release_below(
                releases,
                #[trigger] order[j],
                x,
            ),
        place_from(releases, order, x, p) < order.len() ==> release_below(
            releases,
            order[place_from(releases, order, x, p)],
            x,
        ),
    decreases order.len() - p,
{
    if p < order.len() && !release_below(releases, order[p], x) {
        lemma_place_from(releases, order, x, p + 1);
    }
}

/// Whether the order of versions never puts two of the releases each below
/// the other.
pub open spec fn order_is_strict(releases: Seq<ReleaseModel>) -> bool {
    forall|i: int, j: int|
        0 <= i < releases.len() && 0 <= j < releases.len() ==> !(#[trigger] release_below(
            releases,
            i,
            j,
        ) && release_below(releases, j, i))
}

/// The link definitions are those of the releases that have a version and a
/// link, each once.
pub proof fn lemma_link_order_holds_each_once(releases: Seq<ReleaseModel>, n: int)
    requires
        0 <= n <= releases.len(),
    ensures
        forall|a: int|
            0 <= a < link_order(releases, n).len() ==> 0 <= #[trigger] link_order(releases, n)[a]
                < n && has_link_line(releases[link_order(releases, n)[a]]),
        forall|a: int, b: int|
            0 <= a < b < link_order(releases, n).len() ==> link_order(releases, n)[a]
                != link_order(releases, n)[b],
        forall|i: int|
            0 <= i < n && has_link_line(#[trigger] releases[i]) ==> link_order(
                releases,
                n,
            ).contains(i),
    decreases n,
{
    if n > 0 {
        lemma_link_order_holds_each_once(releases, n - 1);
        let rest = link_order(releases, n - 1);
        let all = link_order(releases, n);
        if has_link_line(releases[n - 1]) {
            let p = place_from(releases, rest, n - 1, 0);
            lemma_place_from(releases, rest, n - 1, 0);
            assert(all[p] == n - 1);
            assert forall|i: int| 0 <= i < n && has_link_line(
                #[trigger] releases[i],
            ) implies all.contains(i) by {
                if i < n - 1 {
                    assert(rest.contains(i));
                    let a = choose|a: int| 0 <= a < rest.len() && rest[a] == i;
                    if a < p {
                        assert(all[a] == i);
                    } else {
                        assert(all[a + 1] == i);
                    }
                }
            }
        }
    }
}

/// Where the order of versions never puts two releases each below the
/// other, no link definition stands before one of a higher version.
pub proof fn lemma_link_order_falls(releases: Seq<ReleaseModel>, n: int)
    requires
        0 <= n <= releases.len(),
        order_is_strict(releases),
    ensures
        forall|a: int|
            0 <= a && a + 1 < link_order(releases, n).len() ==> !release_below(
                releases,
                #[trigger] link_order(releases, n)[a],
                link_order(releases, n)[a + 1],
            ),
    decreases n,
{
    if n > 0 {
        lemma_link_order_falls(releases, n - 1);
        lemma_link_order_holds_each_once(releases, n - 1);
        let rest = link_order(releases, n - 1);
        let all = link_order(releases, n);
        if has_link_line(releases[n - 1]) {
            let p = place_from(releases, rest, n - 1, 0);
            lemma_place_from(releases, rest, n - 1, 0);
            assert forall|a: int| 0 <= a && a + 1 < all.len() implies !release_below(
                releases,
                #[trigger] all[a],
                all[a + 1],
            ) by {
                if a + 1 < p {
                    assert(all[a] == rest[a] && all[a + 1] == rest[a + 1]);
                } else if a + 1 == p {
                    assert(all[a] == rest[a] && all[a + 1] == n - 1);
                } else if a == p {
                    assert(all[a] == n - 1 && all[a + 1] == rest[p]);
                    assert(release_below(releases, rest[p], n - 1));
                    assert(!(release_below(releases, rest[p], n - 1) && release_below(
                        releases,
                        n - 1,
                        rest[p],
                    )));
                } else {
                    assert(all[a] == rest[a - 1] && all[a + 1] == rest[a]);
                }
            }
        }
    }
}

/// A list of places as integers.
pub open spec fn places(s: Seq<usize>) -> Seq<int> {
    s.map_values(|i: usize| i as int)
}

/// The places of the releases that get a link definition, in the order of
/// their definitions.
pub fn link_order_of(releases: &Vec<Release>) -> (order: Vec<usize>)
    ensures
        places(order@) == link_order(release_models(releases@), releases.len() as int),
        forall|a: int|
            0 <= a < order.len() ==> (#[trigger] order[a]) < releases.len() && has_link_line(
                releases[order[a] as int]@,
            ),
{
    let ghost rm = release_models(releases@);
    let mut order: Vec<usize> = Vec::new();
    let mut i: usize = 0;
    while i < releases.len()
        invariant
            i <= releases.len(),
            rm == release_models(releases@),
            places(order@) == link_order(rm, i as int),
            forall|a: int| 0 <= a < order.len() ==> (#[trigger] order[a]) < i,
        decreases releases.len() - i,
    {
        assert(rm[i as int] == releases@[i as int]@);
        let release = &releases[i];
        match (release.version(), release.link()) {
            (Some(version), Some(_)) => {
                let ghost rest = places(order@);
                proof {
                    lemma_link_order_holds_each_once(rm, i as int);
                }
                let mut p: usize = 0;
                let mut found = false;
                while p < order.len() && !found
                    invariant
                        p <= order.len(),
                        rm == release_models(releases@),
                        rest == places(order@),
                        rest == link_order(rm, i as int),
                        i < releases.len(),
                        rm[i as int].version == Some(version@),
                        forall|a: int|
                            0 <= a < rest.len() ==> 0 <= #[trigger] rest[a] < i && has_link_line(
                                rm[rest[a]],
                            ),
                        place_from(rm, rest, i as int, p as int) == place_from(
                            rm,
                            rest,
                            i as int,
                            0,
                        ),
                        found ==> p < order.len() && release_below(rm, rest[p as int], i as int),
                    decreases order.len() - p + (if found { 0int } else { 1int }),
                {
                    assert(rest[p as int] == order[p as int] as int);
                    let other = &releases[order[p]];
                    assert(rm[order[p as int] as int] == other@);
                    let below = match other.version() {
                        Some(v) => v.below(version),
                        None => false,
                    };
                    assert(below == release_below(rm, rest[p as int], i as int));
                    if below {
                        found = true;
                    } else {
                        p += 1;
                    }
                }
                assert(place_from(rm, rest, i as int, p as int) == p);
                order.insert(p, i);
                assert(places(order@) =~= rest.insert(p as int, i as int));
            },
            _ => {
                assert(!has_link_line(rm[i as int]));
            },
        }
        i += 1;
    }
    proof {
        lemma_link_order_holds_each_once(rm, releases.len() as int);
        assert forall|a: int| 0 <= a < order.len() implies has_link_line(
            releases[(#[trigger] order[a]) as int]@,
        ) by {
            assert(places(order@)[a] == order[a] as int);
            assert(rm[order[a] as int] == releases@[order[a] as int]@);
        }
    }
    order
}

} // verus!
