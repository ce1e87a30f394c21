//! The hostname dispatcher: routes a URL to the one adapter claiming its host.

use vstd::prelude::*;
use crate::engine::ParseError;
use crate::web::{host_of, url_host};

verus! {

/// Does adapter `a` claim hostname `h`?
pub open spec fn claims(sets: Seq<Seq<Seq<char>>>, a: int, h: Seq<char>) -> bool {
    0 <= a < sets.len() && sets[a].contains(h)
}

/// Do two different adapters claim one hostname?
pub open spec fn has_shared(sets: Seq<Seq<Seq<char>>>) -> bool {
    exists|a: int, b: int, h: Seq<char>| a != b && #[trigger] claims(sets, a, h) && #[trigger] claims(sets, b, h)
}

/// Do two different adapters claim `h`?
pub open spec fn shared(sets: Seq<Seq<Seq<char>>>, h: Seq<char>) -> bool {
    exists|a: int, b: int| a != b && #[trigger] claims(sets, a, h) && #[trigger] claims(sets, b, h)
}

/// Does no adapter claim `h`?
pub open spec fn unclaimed(sets: Seq<Seq<Seq<char>>>, h: Seq<char>) -> bool {
    forall|b: int| !#[trigger] claims(sets, b, h)
}

/// Hostname sets, one per adapter, no hostname claimed twice.
pub struct Registry {
    sets: Vec<Vec<String>>,
}

fn holds(set: &Vec<String>, h: &String) -> (r: bool)
    ensures
        r == set.deep_view().contains(h@),
{
    let ghost sv = set.deep_view();
    let mut i: usize = 0;
    while i < set.len()
        invariant
            sv == set.deep_view(),
            i <= sv.len(),
            forall|j: int| 0 <= j < i ==> sv[j] != h@,
        decreases sv.len() - i,
    {
        if set[i] == *h {
            assert(sv[i as int] == h@);
            return true;
        }
        i = i + 1;
    }
    false
}

/// Is `h` claimed by an adapter after `a`?
fn claimed_after(sets: &Vec<Vec<String>>, a: usize, h: &String) -> (r: bool)
    ensures
        r == exists|b: int| a < b && #[trigger] claims(sets.deep_view(), b, h@),
{
    let ghost sv = sets.deep_view();
    if a >= sets.len() {
        return false;
    }
    let mut b: usize = a + 1;
    while b < sets.len()
        invariant
            sv == sets.deep_view(),
            a < b <= sv.len(),
            forall|c: int| a < c < b ==> !#[trigger] claims(sv, c, h@),
        decreases sv.len() - b,
    {
        assert(sv[b as int] == sets@[b as int].deep_view());
        if holds(&sets[b], h) {
            assert(claims(sv, b as int, h@));
            return true;
        }
        b = b + 1;
    }
    false
}

impl Registry {
    /// The hostname sets, one per adapter.
    pub closed spec fn sets(&self) -> Seq<Seq<Seq<char>>> {
        self.sets.deep_view()
    }

    /// Builds the registry; fails with a hostname that two adapters claim.
    pub fn new(sets: Vec<Vec<String>>) -> (r: Result<Registry, String>)
        ensures
            r is Ok <==> !has_shared(sets.deep_view()),
            r matches Ok(reg) ==> reg.sets() == sets.deep_view(),
            r matches Err(h) ==> shared(sets.deep_view(), h@),
    {
        let ghost sv = sets.deep_view();
        let mut a: usize = 0;
        while a < sets.len()
            invariant
                sv == sets.deep_view(),
                a <= sv.len(),
                forall|x: int, y: int, h: Seq<char>| x < a && x < y && #[trigger] claims(sv, x, h) ==> !#[trigger] claims(sv, y, h),
            decreases sv.len() - a,
        {
            let ghost hv = sv[a as int];
            assert(hv == sets@[a as int].deep_view());
            let mut j: usize = 0;
            while j < sets[a].len()
                invariant
                    sv == sets.deep_view(),
                    a < sv.len(),
                    hv == sv[a as int],
                    j <= hv.len(),
                    forall|x: int, y: int, h: Seq<char>| x < a && x < y && #[trigger] claims(sv, x, h) ==> !#[trigger] claims(sv, y, h),
                    forall|k: int, y: int| 0 <= k < j && a < y ==> !#[trigger] claims(sv, y, hv[k]),
                decreases hv.len() - j,
            {
                assert(hv[j as int] == sets@[a as int]@[j as int]@);
                if claimed_after(&sets, a, &sets[a][j]) {
                    let h = sets[a][j].clone();
                    assert(claims(sv, a as int, h@));
                    let ghost b = choose|b: int| a < b && #[trigger] claims(sv, b, h@);
                    assert(sv[a as int][j as int] == h@);
                    assert(claims(sv, a as int, h@));
                    assert(claims(sv, b, h@));
                    assert(a as int != b);
                    assert(shared(sv, h@));
                    return Err(h);
                }
                j = j + 1;
            }
            assert forall|x: int, y: int, h: Seq<char>| x < a + 1 && x < y && #[trigger] claims(sv, x, h) implies !#[trigger] claims(sv, y, h) by {
                if x == a {
                    let k = choose|k: int| 0 <= k < hv.len() && hv[k] == h;
                    assert(!claims(sv, y, hv[k]));
                }
            }
            a = a + 1;
        }
        assert(!has_shared(sv)) by {
            if has_shared(sv) {
                let (x, y, h) = choose|x: int, y: int, h: Seq<char>| x != y && #[trigger] claims(sv, x, h) && #[trigger] claims(sv, y, h);
                if x < y {
                    assert(!claims(sv, y, h));
                } else {
                    assert(!claims(sv, x, h));
                }
            }
        }
        Ok(Registry { sets })
    }

    /// The adapter that claims hostname `host`.
    pub fn lookup(&self, host: &String) -> (r: Result<usize, ParseError>)
        requires
            !has_shared(self.sets()),
        ensures
            r matches Ok(i) ==> claims(self.sets(), i as int, host@)
                && forall|b: int| #[trigger] claims(self.sets(), b, host@) ==> b == i,
            r matches Err(e) ==> e == ParseError::UnknownHost && unclaimed(self.sets(), host@),
    {
        let ghost sv = self.sets.deep_view();
        let mut a: usize = 0;
        while a < self.sets.len()
            invariant
                sv == self.sets.deep_view(),
                !has_shared(sv),
                a <= sv.len(),
                forall|b: int| b < a ==> !#[trigger] claims(sv, b, host@),
            decreases sv.len() - a,
        {
            assert(sv[a as int] == self.sets@[a as int].deep_view());
            if holds(&self.sets[a], host) {
                assert(claims(sv, a as int, host@));
                assert forall|b: int| #[trigger] claims(self.sets(), b, host@) implies b == a by {
                    if b != a {
                        assert(self.sets() == sv);
                        assert(claims(sv, a as int, host@));
                        assert(claims(sv, b, host@));
                        assert(has_shared(sv));
                    }
                }
                return Ok(a);
            }
            a = a + 1;
        }
        assert(unclaimed(self.sets(), host@));
        Err(ParseError::UnknownHost)
    }

    /// The adapter for a URL, by its host.
    pub fn dispatch(&self, url: &str) -> (r: Result<usize, ParseError>)
        requires
            !has_shared(self.sets()),
        ensures
            r matches Ok(i) ==> url_host(url@) matches Some(h) && claims(self.sets(), i as int, h),
            r is Err ==> r == Err::<usize, ParseError>(ParseError::UnknownHost),
            r is Err <==> match url_host(url@) {
                Some(h) => unclaimed(self.sets(), h),
                None => true,
            },
    {
        match host_of(url) {
            Some(h) => {
                assert(url_host(url@) == Some(h@));
                let r = self.lookup(&h);
                match r {
                    Ok(i) => {
                        assert(claims(self.sets(), i as int, h@));
                        assert(!unclaimed(self.sets(), h@));
                    },
                    Err(_) => {},
                }
                r
            },
            None => Err(ParseError::UnknownHost),
        }
    }
}

} // verus!
