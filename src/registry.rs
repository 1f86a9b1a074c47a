use vstd::prelude::*;

verus! {

/// The serial identifiers that a list of strings holds.
pub open spec fn views(v: Seq<String>) -> Seq<Seq<char>> {
    v.map_values(|s: String| s@)
}

/// Every index is larger than the one before it: no index occurs twice.
pub open spec fn strictly_increasing(s: Seq<usize>) -> bool {
    forall|a: int, b: int| 0 <= a < b < s.len() ==> s[a] < s[b]
}

/// No serial occurs twice.
pub open spec fn distinct(keys: Seq<Seq<char>>) -> bool {
    forall|a: int, b: int| 0 <= a < b < keys.len() ==> keys[a] != keys[b]
}

/// `vis[j]` is the first sighting of its serial in this enumeration.
pub open spec fn first_sighting(vis: Seq<Seq<char>>, j: int) -> bool {
    forall|j2: int| 0 <= j2 < j ==> vis[j2] != vis[j]
}

/// `removed` lists, in registry order, each known serial that is not visible.
pub open spec fn removed_exact(keys: Seq<Seq<char>>, vis: Seq<Seq<char>>, removed: Seq<usize>) -> bool {
    &&& strictly_increasing(removed)
    &&& forall|k: int|
        0 <= k < removed.len() ==> #[trigger] removed[k] < keys.len() && !vis.contains(
            keys[removed[k] as int],
        )
    &&& forall|i: int|
        0 <= i < keys.len() && !vis.contains(#[trigger] keys[i]) ==> removed.contains(i as usize)
}

/// `reconnect` pairs, in enumeration order, each sighting of a known serial
/// with the registry entry that holds it.
pub open spec fn reconnect_exact(
    keys: Seq<Seq<char>>,
    vis: Seq<Seq<char>>,
    reconnect: Seq<(usize, usize)>,
) -> bool {
    &&& forall|a: int, b: int|
        0 <= a < b < reconnect.len() ==> reconnect[a].0 < reconnect[b].0
    &&& forall|k: int|
        0 <= k < reconnect.len() ==> #[trigger] reconnect[k].0 < vis.len() && reconnect[k].1
            < keys.len() && keys[reconnect[k].1 as int] == vis[reconnect[k].0 as int]
    &&& forall|j: int|
        0 <= j < vis.len() && keys.contains(#[trigger] vis[j]) ==> exists|k: int|
            0 <= k < reconnect.len() && #[trigger] reconnect[k].0 == j
}

/// `fresh` lists, in enumeration order, the first sighting of each serial
/// that the registry does not know.
pub open spec fn fresh_exact(keys: Seq<Seq<char>>, vis: Seq<Seq<char>>, fresh: Seq<usize>) -> bool {
    &&& strictly_increasing(fresh)
    &&& forall|k: int|
        0 <= k < fresh.len() ==> #[trigger] fresh[k] < vis.len() && !keys.contains(
            vis[fresh[k] as int],
        ) && first_sighting(vis, fresh[k] as int)
    &&& forall|j: int|
        0 <= j < vis.len() && !keys.contains(#[trigger] vis[j]) && first_sighting(vis, j)
            ==> fresh.contains(j as usize)
}

/// The serial identifier of a remote.
#[derive(Debug, PartialEq, Eq, Hash, Clone)]
pub struct WiimoteSerialNumber(pub String);

/// What one scan pass has to do, by index: `removed` into the registry,
/// `fresh` into the enumeration, `reconnect` as (enumeration, registry) pairs.
pub struct ScanPlan {
    pub removed: Vec<usize>,
    pub reconnect: Vec<(usize, usize)>,
    pub fresh: Vec<usize>,
}

/// The known devices, keyed by serial identifier. An entry, once made, is
/// never removed: a device that vanishes keeps its handle for reconnection.
pub struct Registry<H> {
    serials: Vec<String>,
    handles: Vec<H>,
}

/// The index of the first of `v[..upto]` equal to `x`.
fn position(v: &Vec<String>, x: &String, upto: usize) -> (r: Option<usize>)
    requires
        upto <= v@.len(),
    ensures
        r is Some ==> r->Some_0 < upto && v@[r->Some_0 as int]@ == x@ && forall|k: int|
            0 <= k < r->Some_0 ==> v@[k]@ != x@,
        r is None ==> forall|k: int| 0 <= k < upto ==> v@[k]@ != x@,
{
    let mut k: usize = 0;
    while k < upto
        invariant
            k <= upto <= v@.len(),
            forall|k2: int| 0 <= k2 < k ==> v@[k2]@ != x@,
        decreases upto - k,
    {
        if v[k] == *x {
            return Some(k);
        }
        k = k + 1;
    }
    None
}

impl<H> Registry<H> {
    /// The serials of the entries, in the order they were made.
    pub closed spec fn keys(&self) -> Seq<Seq<char>> {
        views(self.serials@)
    }

    /// The handles, index for index with `keys`.
    pub closed spec fn handles(&self) -> Seq<H> {
        self.handles@
    }

    pub closed spec fn wf(&self) -> bool {
        &&& self.serials@.len() == self.handles@.len()
        &&& distinct(self.keys())
    }

    pub fn new() -> (r: Self)
        ensures
            r.wf(),
            r.keys().len() == 0,
            r.handles().len() == 0,
    {
        Registry { serials: Vec::new(), handles: Vec::new() }
    }

    pub fn len(&self) -> (r: usize)
        requires
            self.wf(),
        ensures
            r == self.keys().len(),
            r == self.handles().len(),
    {
        self.serials.len()
    }

    pub fn serial(&self, i: usize) -> (r: &String)
        requires
            self.wf(),
            i < self.keys().len(),
        ensures
            r@ == self.keys()[i as int],
    {
        &self.serials[i]
    }

    pub fn handle(&self, i: usize) -> (r: &H)
        requires
            self.wf(),
            i < self.handles().len(),
        ensures
            *r == self.handles()[i as int],
    {
        &self.handles[i]
    }

    /// The index of the entry for `serial`, if there is one.
    pub fn find(&self, serial: &String) -> (r: Option<usize>)
        requires
            self.wf(),
        ensures
            r is Some ==> r->Some_0 < self.keys().len() && self.keys()[r->Some_0 as int]
                == serial@,
            r is None <==> !self.keys().contains(serial@),
    {
        let r = position(&self.serials, serial, self.serials.len());
        proof {
            if r is None {
                assert forall|i: int| 0 <= i < self.keys().len() implies self.keys()[i]
                    != serial@ by {
                    assert(self.keys()[i] == self.serials@[i]@);
                }
            } else {
                assert(self.keys()[r->Some_0 as int] == self.serials@[r->Some_0 as int]@);
            }
        }
        r
    }

    /// Makes an entry for a serial seen for the first time. A serial that
    /// already has an entry is left as it is: there is never a second one.
    pub fn register(&mut self, serial: String, handle: H) -> (r: bool)
        requires
            old(self).wf(),
        ensures
            final(self).wf(),
            r == !old(self).keys().contains(serial@),
            old(self).keys().is_prefix_of(final(self).keys()),
            r ==> final(self).keys() == old(self).keys().push(serial@) && final(self).handles()
                == old(self).handles().push(handle),
            !r ==> *final(self) == *old(self),
    {
        match self.find(&serial) {
            Some(_) => false,
            None => {
                proof {
                    assert(views(self.serials@.push(serial)) == self.keys().push(serial@));
                }
                self.serials.push(serial);
                self.handles.push(handle);
                true
            }
        }
    }

    /// Compares one enumeration of visible serials with the registry.
    pub fn plan_scan(&self, visible: &Vec<String>) -> (r: ScanPlan)
        requires
            self.wf(),
        ensures
            removed_exact(self.keys(), views(visible@), r.removed@),
            reconnect_exact(self.keys(), views(visible@), r.reconnect@),
            fresh_exact(self.keys(), views(visible@), r.fresh@),
    {
        let ghost keys = self.keys();
        let ghost vis = views(visible@);
        let mut removed: Vec<usize> = Vec::new();
        let mut i: usize = 0;
        while i < self.serials.len()
            invariant
                self.wf(),
                keys == self.keys(),
                vis == views(visible@),
                i <= keys.len(),
                strictly_increasing(removed@),
                forall|k: int| 0 <= k < removed@.len() ==> removed@[k] < i,
                forall|k: int|
                    0 <= k < removed@.len() ==> removed@[k] < keys.len() && !vis.contains(
                        #[trigger] keys[removed@[k] as int],
                    ),
                forall|i2: int|
                    0 <= i2 < i && !vis.contains(#[trigger] keys[i2]) ==> removed@.contains(
                        i2 as usize,
                    ),
            decreases self.serials.len() - i,
        {
            let ghost before = removed@;
            let p = position(visible, &self.serials[i], visible.len());
            proof {
                assert(keys[i as int] == self.serials@[i as int]@);
            }
            if p.is_none() {
                proof {
                    assert forall|j: int| 0 <= j < vis.len() implies vis[j] != keys[i as int] by {
                        assert(vis[j] == visible@[j]@);
                    }
                }
                removed.push(i);
                proof {
                    assert(removed@.last() == i);
                    assert forall|i2: int|
                        0 <= i2 < i + 1 && !vis.contains(#[trigger] keys[i2]) implies removed@.contains(
                        i2 as usize,
                    ) by {
                        if i2 < i {
                            let k = choose|k: int| 0 <= k < before.len() && before[k] == i2 as usize;
                            assert(removed@[k] == i2 as usize);
                        } else {
                            assert(removed@[before.len() as int] == i2 as usize);
                        }
                    }
                }
            } else {
                proof {
                    assert(vis[p->Some_0 as int] == visible@[p->Some_0 as int]@);
                    assert(vis.contains(keys[i as int]));
                }
            }
            i = i + 1;
        }
        let mut reconnect: Vec<(usize, usize)> = Vec::new();
        let mut fresh: Vec<usize> = Vec::new();
        let mut j: usize = 0;
        while j < visible.len()
            invariant
                self.wf(),
                keys == self.keys(),
                vis == views(visible@),
                j <= vis.len(),
                forall|k: int| 0 <= k < reconnect@.len() ==> reconnect@[k].0 < j,
                forall|a: int, b: int|
                    0 <= a < b < reconnect@.len() ==> reconnect@[a].0 < reconnect@[b].0,
                forall|k: int|
                    0 <= k < reconnect@.len() ==> #[trigger] reconnect@[k].0 < vis.len()
                        && reconnect@[k].1 < keys.len() && keys[reconnect@[k].1 as int]
                        == vis[reconnect@[k].0 as int],
                forall|j2: int|
                    0 <= j2 < j && keys.contains(#[trigger] vis[j2]) ==> exists|k: int|
                        0 <= k < reconnect@.len() && #[trigger] reconnect@[k].0 == j2,
                strictly_increasing(fresh@),
                forall|k: int| 0 <= k < fresh@.len() ==> fresh@[k] < j,
                forall|k: int|
                    0 <= k < fresh@.len() ==> fresh@[k] < vis.len() && !keys.contains(
                        #[trigger] vis[fresh@[k] as int],
                    ) && first_sighting(vis, fresh@[k] as int),
                forall|j2: int|
                    0 <= j2 < j && !keys.contains(#[trigger] vis[j2]) && first_sighting(vis, j2)
                        ==> fresh@.contains(j2 as usize),
            decreases visible.len() - j,
        {
            proof {
                assert(vis[j as int] == visible@[j as int]@);
            }
            let ghost rc_before = reconnect@;
            let ghost fresh_before = fresh@;
            match self.find(&visible[j]) {
                Some(e) => {
                    reconnect.push((j, e));
                    proof {
                        assert(reconnect@[reconnect@.len() - 1].0 == j);
                        assert(keys.contains(vis[j as int]));
                        assert forall|j2: int|
                            0 <= j2 < j + 1 && keys.contains(#[trigger] vis[j2]) implies exists|
                            k: int,
                        | 0 <= k < reconnect@.len() && #[trigger] reconnect@[k].0 == j2 by {
                            if j2 < j {
                                let k = choose|k: int|
                                    0 <= k < rc_before.len() && #[trigger] rc_before[k].0 == j2;
                                assert(reconnect@[k] == rc_before[k]);
                            } else {
                                assert(reconnect@[rc_before.len() as int].0 == j2);
                            }
                        }
                        assert forall|j2: int|
                            0 <= j2 < j + 1 && !keys.contains(#[trigger] vis[j2]) && first_sighting(
                                vis,
                                j2,
                            ) implies fresh@.contains(j2 as usize) by {
                            if j2 == j {
                                assert(keys[e as int] == vis[j as int]);
                            }
                        }
                    }
                },
                None => {
                    let earlier = position(visible, &visible[j], j);
                    if earlier.is_none() {
                        proof {
                            assert forall|j2: int| 0 <= j2 < j implies vis[j2] != vis[j as int] by {
                                assert(vis[j2] == visible@[j2]@);
                            }
                        }
                        fresh.push(j);
                        proof {
                            assert(fresh@.last() == j);
                            assert forall|j2: int|
                                0 <= j2 < j + 1 && !keys.contains(#[trigger] vis[j2])
                                    && first_sighting(vis, j2) implies fresh@.contains(
                                j2 as usize,
                            ) by {
                                if j2 < j {
                                    let k = choose|k: int|
                                        0 <= k < fresh_before.len() && fresh_before[k] == j2 as usize;
                                    assert(fresh@[k] == j2 as usize);
                                } else {
                                    assert(fresh@[fresh_before.len() as int] == j2 as usize);
                                }
                            }
                        }
                    } else {
                        proof {
                            let e = earlier->Some_0 as int;
                            assert(vis[e] == visible@[e]@);
                            assert(!first_sighting(vis, j as int));
                        }
                    }
                },
            }
            j = j + 1;
        }
        ScanPlan { removed, reconnect, fresh }
    }
}

/// A known serial that is absent from an enumeration is handed to
/// `disconnected` exactly once in that pass, and its entry stays.
pub proof fn law_vanished_serial_disconnected_once(
    keys: Seq<Seq<char>>,
    vis: Seq<Seq<char>>,
    removed: Seq<usize>,
    i: usize,
)
    requires
        removed_exact(keys, vis, removed),
        i < keys.len(),
        !vis.contains(keys[i as int]),
    ensures
        exists|k: int|
            0 <= k < removed.len() && removed[k] == i && forall|k2: int|
                0 <= k2 < removed.len() && removed[k2] == i ==> k2 == k,
{
    assert(removed.contains(i));
    let k = choose|k: int| 0 <= k < removed.len() && removed[k] == i;
    assert forall|k2: int| 0 <= k2 < removed.len() && removed[k2] == i implies k2 == k by {
        if k2 < k {
            assert(removed[k2] < removed[k]);
        } else if k < k2 {
            assert(removed[k] < removed[k2]);
        }
    }
}

/// A serial that already has an entry is reconnected on that entry and is
/// never announced as new.
pub proof fn law_known_serial_reconnects(
    keys: Seq<Seq<char>>,
    vis: Seq<Seq<char>>,
    reconnect: Seq<(usize, usize)>,
    fresh: Seq<usize>,
    j: int,
)
    requires
        reconnect_exact(keys, vis, reconnect),
        fresh_exact(keys, vis, fresh),
        vis.len() <= usize::MAX,
        0 <= j < vis.len(),
        keys.contains(vis[j]),
    ensures
        !fresh.contains(j as usize),
        exists|k: int|
            0 <= k < reconnect.len() && reconnect[k].0 == j && keys[reconnect[k].1 as int]
                == vis[j],
{
    if fresh.contains(j as usize) {
        let k = choose|k: int| 0 <= k < fresh.len() && fresh[k] == j as usize;
        assert(!keys.contains(vis[fresh[k] as int]));
    }
    let k = choose|k: int| 0 <= k < reconnect.len() && #[trigger] reconnect[k].0 == j;
    assert(keys[reconnect[k].1 as int] == vis[reconnect[k].0 as int]);
}

proof fn lemma_first_sighting_exists(vis: Seq<Seq<char>>, j: int)
    requires
        0 <= j < vis.len(),
    ensures
        exists|j0: int| 0 <= j0 <= j && vis[j0] == vis[j] && first_sighting(vis, j0),
    decreases j,
{
    if !first_sighting(vis, j) {
        let j2 = choose|j2: int| 0 <= j2 < j && vis[j2] == vis[j];
        lemma_first_sighting_exists(vis, j2);
    }
}

/// A serial that the registry does not know and that is visible is announced
/// as new exactly once in the pass.
pub proof fn law_new_serial_announced_once(
    keys: Seq<Seq<char>>,
    vis: Seq<Seq<char>>,
    fresh: Seq<usize>,
    serial: Seq<char>,
)
    requires
        fresh_exact(keys, vis, fresh),
        vis.len() <= usize::MAX,
        vis.contains(serial),
        !keys.contains(serial),
    ensures
        exists|k: int|
            0 <= k < fresh.len() && vis[fresh[k] as int] == serial && forall|k2: int|
                0 <= k2 < fresh.len() && vis[fresh[k2] as int] == serial ==> k2 == k,
{
    let j = choose|j: int| 0 <= j < vis.len() && vis[j] == serial;
    lemma_first_sighting_exists(vis, j);
    let j0 = choose|j0: int| 0 <= j0 <= j && vis[j0] == vis[j] && first_sighting(vis, j0);
    assert(!keys.contains(vis[j0]));
    assert(fresh.contains(j0 as usize));
    let k = choose|k: int| 0 <= k < fresh.len() && fresh[k] == j0 as usize;
    assert forall|k2: int|
        0 <= k2 < fresh.len() && vis[fresh[k2] as int] == serial implies k2 == k by {
        assert(first_sighting(vis, fresh[k2] as int));
        assert(first_sighting(vis, fresh[k] as int));
        if k2 < k {
            assert(fresh[k2] < fresh[k]);
        } else if k < k2 {
            assert(fresh[k] < fresh[k2]);
        }
    }
}

/// Registering every serial announced in one pass makes each of them known,
/// so no later pass announces it again.
pub proof fn law_registered_serial_stays_known(old_keys: Seq<Seq<char>>, new_keys: Seq<Seq<char>>, serial: Seq<char>)
    requires
        old_keys.contains(serial),
        old_keys.is_prefix_of(new_keys),
    ensures
        new_keys.contains(serial),
{
    let i = choose|i: int| 0 <= i < old_keys.len() && old_keys[i] == serial;
    assert(new_keys[i] == serial);
}

} // verus!
