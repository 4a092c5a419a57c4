//! Detection of HomePod stereo pairs among discovered receivers.
use crate::airplay::device_profile::{kind_is_homepod, kind_of_model};
use crate::airplay::discovery::AirPlayReceiver;
use crate::text::{
    chars_of, concat, lemma_seq_lt_asymmetric, lemma_seq_lt_irreflexive, lemma_seq_lt_total,
    lemma_seq_lt_transitive, lt_chars, seq_eq, seq_lt, str_eq, to_lowercase, trim, trimmed,
    unicode_lowercase,
};
use vstd::prelude::*;
use vstd::string::StringExecFns;

verus! {

/// A stereo pair of two HomePods, presented as one receiver.
#[derive(Debug, Clone)]
pub struct HomePodPair {
    pub id: String,
    pub name: String,
    pub leader_id: String,
    pub member_ids: Vec<String>,
    pub member_names: Vec<String>,
    pub group_id: Option<String>,
    pub tight_sync_id: Option<String>,
}

/// Abstract value of a [`HomePodPair`].
pub struct HomePodPairView {
    pub id: Seq<char>,
    pub name: Seq<char>,
    pub leader_id: Seq<char>,
    pub member_ids: Seq<Seq<char>>,
    pub member_names: Seq<Seq<char>>,
    pub group_id: Option<Seq<char>>,
    pub tight_sync_id: Option<Seq<char>>,
}

pub open spec fn opt_view(o: Option<String>) -> Option<Seq<char>> {
    match o {
        Some(s) => Some(s@),
        None => None,
    }
}

impl View for HomePodPair {
    type V = HomePodPairView;

    open spec fn view(&self) -> HomePodPairView {
        HomePodPairView {
            id: self.id@,
            name: self.name@,
            leader_id: self.leader_id@,
            member_ids: self.member_ids@.map_values(|s: String| s@),
            member_names: self.member_names@.map_values(|s: String| s@),
            group_id: opt_view(self.group_id),
            tight_sync_id: opt_view(self.tight_sync_id),
        }
    }
}

pub open spec fn is_homepod_receiver(d: AirPlayReceiver) -> bool {
    kind_is_homepod(kind_of_model(d.model@))
}

/// The grouping key of a receiver: its tight-sync id, or its group id.
pub open spec fn group_key(d: AirPlayReceiver, by_tsid: bool) -> Option<Seq<char>> {
    if by_tsid {
        opt_view(d.tight_sync_id)
    } else {
        opt_view(d.group_id)
    }
}

pub open spec fn carries_key(devs: Seq<AirPlayReceiver>, by_tsid: bool, k: Seq<char>, j: int) -> bool {
    is_homepod_receiver(devs[j]) && group_key(devs[j], by_tsid) == Some(k)
}

/// Indices below `n`, in discovery order, of the HomePods that carry key `k`.
pub open spec fn key_members(devs: Seq<AirPlayReceiver>, by_tsid: bool, k: Seq<char>, n: int) -> Seq<
    int,
>
    decreases n,
{
    if n <= 0 {
        seq![]
    } else {
        let prev = key_members(devs, by_tsid, k, n - 1);
        if carries_key(devs, by_tsid, k, n - 1) {
            prev.push(n - 1)
        } else {
            prev
        }
    }
}

/// All HomePods that carry key `k`, in discovery order.
pub open spec fn members_of(devs: Seq<AirPlayReceiver>, by_tsid: bool, k: Seq<char>) -> Seq<int> {
    key_members(devs, by_tsid, k, devs.len() as int)
}

/// Whether member `b` is ordered before member `a` inside a pair: the group
/// leader first, then by lowercased name.
pub open spec fn member_before(b: AirPlayReceiver, a: AirPlayReceiver) -> bool {
    ||| b.is_group_leader && !a.is_group_leader
    ||| b.is_group_leader == a.is_group_leader && seq_lt(
        unicode_lowercase(b.name@),
        unicode_lowercase(a.name@),
    )
}

/// The name of a pair: the first advertised public group name (in member
/// order) when it is not blank, otherwise "first + second".
pub open spec fn pair_name(first: AirPlayReceiver, second: AirPlayReceiver) -> Seq<char> {
    let found = if first.group_public_name is Some {
        first.group_public_name
    } else {
        second.group_public_name
    };
    match found {
        Some(g) => if trimmed(g@).len() > 0 {
            g@
        } else {
            first.name@ + " + "@ + second.name@
        },
        None => first.name@ + " + "@ + second.name@,
    }
}

/// The pair built from the two members `a` and `b` (in discovery order).
pub open spec fn pair_from(
    a: AirPlayReceiver,
    b: AirPlayReceiver,
    id: Seq<char>,
    tsid: Option<Seq<char>>,
    gid: Option<Seq<char>>,
) -> HomePodPairView {
    let first = if member_before(b, a) {
        b
    } else {
        a
    };
    let second = if member_before(b, a) {
        a
    } else {
        b
    };
    HomePodPairView {
        id: id,
        name: pair_name(first, second),
        leader_id: first.id@,
        member_ids: seq![first.id@, second.id@],
        member_names: seq![first.name@, second.name@],
        group_id: if gid is Some {
            gid
        } else {
            opt_view(first.group_id)
        },
        tight_sync_id: if tsid is Some {
            tsid
        } else {
            opt_view(first.tight_sync_id)
        },
    }
}

/// A tight-sync id held by exactly two HomePods makes a pair.
pub open spec fn is_tsid_pair_key(devs: Seq<AirPlayReceiver>, k: Seq<char>) -> bool {
    members_of(devs, true, k).len() == 2
}

/// Ids of receivers that already belong to a tight-sync pair.
pub open spec fn consumed_id(devs: Seq<AirPlayReceiver>, id: Seq<char>) -> bool {
    exists|k: Seq<char>|
        #![trigger is_tsid_pair_key(devs, k)]
        is_tsid_pair_key(devs, k) && (devs[members_of(devs, true, k)[0]].id@ == id || devs[members_of(
            devs,
            true,
            k,
        )[1]].id@ == id)
}

/// Bonjour exposes leader or group metadata for the pair.
pub open spec fn confident(a: AirPlayReceiver, b: AirPlayReceiver) -> bool {
    a.is_group_leader || b.is_group_leader || a.group_contains_discoverable_leader
        || b.group_contains_discoverable_leader || a.group_public_name is Some
        || b.group_public_name is Some
}

/// A group id held by exactly two HomePods makes a pair when not both of
/// them are already in a tight-sync pair and the metadata is confident.
pub open spec fn is_gid_pair_key(devs: Seq<AirPlayReceiver>, k: Seq<char>) -> bool {
    let m = members_of(devs, false, k);
    &&& m.len() == 2
    &&& !(consumed_id(devs, devs[m[0]].id@) && consumed_id(devs, devs[m[1]].id@))
    &&& confident(devs[m[0]], devs[m[1]])
}

pub open spec fn is_pair_key(devs: Seq<AirPlayReceiver>, by_tsid: bool, k: Seq<char>) -> bool {
    if by_tsid {
        is_tsid_pair_key(devs, k)
    } else {
        is_gid_pair_key(devs, k)
    }
}

pub open spec fn key_prefix(by_tsid: bool) -> Seq<char> {
    if by_tsid {
        "tsid:"@
    } else {
        "gid:"@
    }
}

/// The pair made by key `k`.
pub open spec fn pair_for(devs: Seq<AirPlayReceiver>, by_tsid: bool, k: Seq<char>) -> HomePodPairView {
    let m = members_of(devs, by_tsid, k);
    pair_from(
        devs[m[0]],
        devs[m[1]],
        key_prefix(by_tsid) + k,
        if by_tsid {
            Some(k)
        } else {
            None
        },
        if by_tsid {
            None
        } else {
            Some(k)
        },
    )
}

/// The pairs that `detect_homepod_pairs` reports.
pub open spec fn is_detected_pair(devs: Seq<AirPlayReceiver>, p: HomePodPairView) -> bool {
    ||| exists|k: Seq<char>|
        #![trigger pair_for(devs, true, k)]
        is_pair_key(devs, true, k) && p == pair_for(devs, true, k)
    ||| exists|k: Seq<char>|
        #![trigger pair_for(devs, false, k)]
        is_pair_key(devs, false, k) && p == pair_for(devs, false, k)
}

/// Where a pair comes from: tight-sync pairs (0) before group pairs (1), then by key.
pub open spec fn pair_rank(p: HomePodPairView) -> (int, Seq<char>) {
    if "tsid:"@.is_prefix_of(p.id) {
        (0, p.id.skip(5))
    } else {
        (1, p.id.skip(4))
    }
}

/// The order of the reported pairs: by lowercased name, ties by origin.
pub open spec fn pair_before(p: HomePodPairView, q: HomePodPairView) -> bool {
    let lp = unicode_lowercase(p.name);
    let lq = unicode_lowercase(q.name);
    ||| seq_lt(lp, lq)
    ||| lp == lq && pair_rank(p).0 < pair_rank(q).0
    ||| lp == lq && pair_rank(p).0 == pair_rank(q).0 && seq_lt(pair_rank(p).1, pair_rank(q).1)
}

proof fn lemma_key_members(devs: Seq<AirPlayReceiver>, by_tsid: bool, k: Seq<char>, n: int)
    requires
        0 <= n <= devs.len(),
    ensures
        ({
            let km = key_members(devs, by_tsid, k, n);
            &&& forall|q: int|
                0 <= q < km.len() ==> 0 <= #[trigger] km[q] < n && carries_key(
                    devs,
                    by_tsid,
                    k,
                    km[q],
                )
            &&& forall|q1: int, q2: int| 0 <= q1 < q2 < km.len() ==> km[q1] < km[q2]
            &&& forall|j: int|
                0 <= j < n && #[trigger] carries_key(devs, by_tsid, k, j) ==> km.contains(j)
        }),
    decreases n,
{
    if n > 0 {
        lemma_key_members(devs, by_tsid, k, n - 1);
        let prev = key_members(devs, by_tsid, k, n - 1);
        let km = key_members(devs, by_tsid, k, n);
        assert forall|j: int| 0 <= j < n && #[trigger] carries_key(devs, by_tsid, k, j) implies km.contains(j) by {
            if j < n - 1 {
                assert(prev.contains(j));
                let q = choose|q: int| 0 <= q < prev.len() && prev[q] == j;
                assert(km[q] == j);
            } else {
                assert(km[km.len() - 1] == j);
            }
        }
    }
}

/// The first HomePod that carries `k` is the first member.
proof fn lemma_first_member(devs: Seq<AirPlayReceiver>, by_tsid: bool, k: Seq<char>, j: int)
    requires
        0 <= j < devs.len(),
        carries_key(devs, by_tsid, k, j),
    ensures
        members_of(devs, by_tsid, k).len() > 0,
        members_of(devs, by_tsid, k)[0] <= j,
        carries_key(devs, by_tsid, k, members_of(devs, by_tsid, k)[0]),
{
    lemma_key_members(devs, by_tsid, k, devs.len() as int);
    let km = members_of(devs, by_tsid, k);
    assert(km.contains(j));
    let q = choose|q: int| 0 <= q < km.len() && km[q] == j;
    if q > 0 {
        assert(km[0] < km[q]);
    }
}

proof fn lemma_pair_rank(devs: Seq<AirPlayReceiver>, by_tsid: bool, k: Seq<char>)
    ensures
        pair_rank(pair_for(devs, by_tsid, k)) == (if by_tsid {
            0int
        } else {
            1int
        }, k),
{
    reveal_strlit("tsid:");
    reveal_strlit("gid:");
    let id = key_prefix(by_tsid) + k;
    assert(pair_for(devs, by_tsid, k).id == id);
    if by_tsid {
        assert("tsid:"@.is_prefix_of(id)) by {
            assert(id.subrange(0, 5) =~= "tsid:"@);
        }
        assert(id.skip(5) =~= k);
    } else {
        assert(!"tsid:"@.is_prefix_of(id)) by {
            assert(id[0] == 'g');
            assert("tsid:"@[0] == 't');
        }
        assert(id.skip(4) =~= k);
    }
}

proof fn lemma_pair_before_irreflexive(p: HomePodPairView)
    ensures
        !pair_before(p, p),
{
    lemma_seq_lt_irreflexive(unicode_lowercase(p.name));
    lemma_seq_lt_irreflexive(pair_rank(p).1);
}

proof fn lemma_pair_before_transitive(p: HomePodPairView, q: HomePodPairView, r: HomePodPairView)
    requires
        pair_before(p, q),
        pair_before(q, r),
    ensures
        pair_before(p, r),
{
    let lp = unicode_lowercase(p.name);
    let lq = unicode_lowercase(q.name);
    let lr = unicode_lowercase(r.name);
    if seq_lt(lp, lq) && seq_lt(lq, lr) {
        lemma_seq_lt_transitive(lp, lq, lr);
    } else if seq_lt(lp, lq) || seq_lt(lq, lr) {
    } else if pair_rank(p).0 == pair_rank(q).0 && pair_rank(q).0 == pair_rank(r).0 {
        lemma_seq_lt_transitive(pair_rank(p).1, pair_rank(q).1, pair_rank(r).1);
    }
}

proof fn lemma_pair_before_total(p: HomePodPairView, q: HomePodPairView)
    requires
        pair_rank(p) != pair_rank(q),
    ensures
        pair_before(p, q) || pair_before(q, p),
{
    let lp = unicode_lowercase(p.name);
    let lq = unicode_lowercase(q.name);
    if lp != lq {
        lemma_seq_lt_total(lp, lq);
    } else if pair_rank(p).0 == pair_rank(q).0 {
        lemma_seq_lt_total(pair_rank(p).1, pair_rank(q).1);
    }
}

fn lowercase_chars(s: &String) -> (r: Vec<char>)
    ensures
        r@ == unicode_lowercase(s@),
{
    let l = to_lowercase(s.as_str());
    chars_of(l.as_str())
}

fn clone_opt(o: &Option<String>) -> (r: Option<String>)
    ensures
        opt_view(r) == opt_view(*o),
{
    match o {
        Some(s) => Some(s.clone()),
        None => None,
    }
}

fn is_blank(s: &String) -> (r: bool)
    ensures
        r == (trimmed(s@).len() == 0),
{
    let t = trim(s.as_str());
    t.len() == 0
}

/// Builds the pair presented for two HomePods (given in discovery order).
fn build_homepod_pair(
    id: String,
    members: Vec<&AirPlayReceiver>,
    tight_sync_id: Option<String>,
    group_id: Option<String>,
) -> (p: HomePodPair)
    requires
        members@.len() == 2,
    ensures
        p@ == pair_from(
            *members@[0],
            *members@[1],
            id@,
            opt_view(tight_sync_id),
            opt_view(group_id),
        ),
{
    let a = members[0];
    let b = members[1];
    let la = lowercase_chars(&a.name);
    let lb = lowercase_chars(&b.name);
    let swap = (b.is_group_leader && !a.is_group_leader) || (b.is_group_leader
        == a.is_group_leader && lt_chars(&lb, &la));
    let first = if swap {
        b
    } else {
        a
    };
    let second = if swap {
        a
    } else {
        b
    };
    let found: Option<&String> = match &first.group_public_name {
        Some(g) => Some(g),
        None => match &second.group_public_name {
            Some(g) => Some(g),
            None => None,
        },
    };
    let joined = {
        let left = concat(first.name.as_str(), " + ");
        left.concat(second.name.as_str())
    };
    let name = match found {
        Some(g) => if !is_blank(g) {
            g.clone()
        } else {
            joined
        },
        None => joined,
    };
    let group = match group_id {
        Some(g) => Some(g),
        None => clone_opt(&first.group_id),
    };
    let tight = match tight_sync_id {
        Some(t) => Some(t),
        None => clone_opt(&first.tight_sync_id),
    };
    let member_ids = vec![first.id.clone(), second.id.clone()];
    let member_names = vec![first.name.clone(), second.name.clone()];
    let p = HomePodPair {
        id,
        name,
        leader_id: first.id.clone(),
        member_ids,
        member_names,
        group_id: group,
        tight_sync_id: tight,
    };
    proof {
        assert(p@.member_ids =~= seq![first.id@, second.id@]);
        assert(p@.member_names =~= seq![first.name@, second.name@]);
    }
    p
}

/// Pairs kept in report order, with each pair's lowercased name and origin.
struct SortedPairs {
    pairs: Vec<HomePodPair>,
    lnames: Vec<Vec<char>>,
    ranks: Vec<u8>,
    keys: Vec<Vec<char>>,
}

impl SortedPairs {
    spec fn wf(&self) -> bool {
        &&& self.lnames@.len() == self.pairs@.len()
        &&& self.ranks@.len() == self.pairs@.len()
        &&& self.keys@.len() == self.pairs@.len()
        &&& forall|i: int|
            0 <= i < self.pairs@.len() ==> #[trigger] self.lnames@[i]@ == unicode_lowercase(
                self.pairs@[i]@.name,
            )
        &&& forall|i: int|
            0 <= i < self.pairs@.len() ==> pair_rank(#[trigger] self.pairs@[i]@) == (
                self.ranks@[i] as int,
                self.keys@[i]@,
            )
        &&& forall|i: int, j: int|
            0 <= i < j < self.pairs@.len() ==> pair_before(
                #[trigger] self.pairs@[i]@,
                #[trigger] self.pairs@[j]@,
            )
    }

    spec fn holds(&self, x: HomePodPairView) -> bool {
        exists|i: int| 0 <= i < self.pairs@.len() && #[trigger] self.pairs@[i]@ == x
    }

    fn new() -> (s: Self)
        ensures
            s.wf(),
            s.pairs@.len() == 0,
    {
        SortedPairs { pairs: Vec::new(), lnames: Vec::new(), ranks: Vec::new(), keys: Vec::new() }
    }

    fn comes_before(&self, i: usize, lname: &Vec<char>, rank: u8, key: &Vec<char>, p: Ghost<HomePodPairView>) -> (r: bool)
        requires
            self.wf(),
            i < self.pairs@.len(),
            lname@ == unicode_lowercase(p@.name),
            pair_rank(p@) == (rank as int, key@),
        ensures
            r == pair_before(self.pairs@[i as int]@, p@),
    {
        if lt_chars(&self.lnames[i], lname) {
            return true;
        }
        if !seq_eq(&self.lnames[i], lname) {
            return false;
        }
        if self.ranks[i] < rank {
            return true;
        }
        self.ranks[i] == rank && lt_chars(&self.keys[i], key)
    }

    fn insert(&mut self, p: HomePodPair, rank: u8, key: Vec<char>)
        requires
            old(self).wf(),
            pair_rank(p@) == (rank as int, key@),
            forall|i: int|
                0 <= i < old(self).pairs@.len() ==> pair_rank(#[trigger] old(self).pairs@[i]@)
                    != pair_rank(p@),
        ensures
            final(self).wf(),
            final(self).pairs@.len() == old(self).pairs@.len() + 1,
            forall|x: HomePodPairView| #[trigger]
                final(self).holds(x) <==> (x == p@ || old(self).holds(x)),
    {
        let ghost pv = p@;
        let ghost old_pairs = self.pairs@;
        let lname = lowercase_chars(&p.name);
        let mut pos: usize = 0;
        while pos < self.pairs.len() && self.comes_before(pos, &lname, rank, &key, Ghost(pv))
            invariant
                self.wf(),
                self.pairs@ == old_pairs,
                pos <= self.pairs@.len(),
                lname@ == unicode_lowercase(pv.name),
                pair_rank(pv) == (rank as int, key@),
                forall|i: int| 0 <= i < pos ==> pair_before(#[trigger] self.pairs@[i]@, pv),
            decreases self.pairs@.len() - pos,
        {
            pos = pos + 1;
        }
        proof {
            if pos < old_pairs.len() {
                assert(!pair_before(old_pairs[pos as int]@, pv));
                assert(pair_rank(old_pairs[pos as int]@) != pair_rank(pv));
                lemma_pair_before_total(old_pairs[pos as int]@, pv);
                assert forall|j: int| pos <= j < old_pairs.len() implies pair_before(
                    pv,
                    #[trigger] old_pairs[j]@,
                ) by {
                    if j > pos {
                        assert(pair_before(old_pairs[pos as int]@, old_pairs[j]@));
                        lemma_pair_before_transitive(pv, old_pairs[pos as int]@, old_pairs[j]@);
                    }
                }
            }
        }
        self.pairs.insert(pos, p);
        self.lnames.insert(pos, lname);
        self.ranks.insert(pos, rank);
        self.keys.insert(pos, key);
        proof {
            let np = self.pairs@;
            assert forall|i: int| 0 <= i < np.len() implies #[trigger] self.lnames@[i]@
                == unicode_lowercase(np[i]@.name) by {
                if i < pos {
                } else if i == pos {
                } else {
                    assert(np[i] == old_pairs[i - 1]);
                }
            }
            assert forall|i: int| 0 <= i < np.len() implies pair_rank(#[trigger] np[i]@) == (
                self.ranks@[i] as int,
                self.keys@[i]@,
            ) by {
                if i < pos {
                } else if i == pos {
                } else {
                    assert(np[i] == old_pairs[i - 1]);
                }
            }
            assert forall|i: int, j: int| 0 <= i < j < np.len() implies pair_before(
                #[trigger] np[i]@,
                #[trigger] np[j]@,
            ) by {
                if j < pos {
                } else if j == pos {
                } else if i < pos {
                    assert(np[j] == old_pairs[j - 1]);
                    assert(pair_before(old_pairs[i]@, old_pairs[j - 1]@));
                } else if i == pos {
                    assert(np[j] == old_pairs[j - 1]);
                } else {
                    assert(np[j] == old_pairs[j - 1]);
                    assert(np[i] == old_pairs[i - 1]);
                }
            }
            assert forall|x: HomePodPairView| #[trigger]
                self.holds(x) <==> (x == pv || (exists|i: int|
                    0 <= i < old_pairs.len() && #[trigger] old_pairs[i]@ == x)) by {
                if self.holds(x) {
                    let i = choose|i: int| 0 <= i < np.len() && #[trigger] np[i]@ == x;
                    if i < pos {
                        assert(old_pairs[i]@ == x);
                    } else if i > pos {
                        assert(old_pairs[i - 1]@ == x);
                    }
                }
                if x == pv {
                    assert(np[pos as int]@ == x);
                }
                if exists|i: int| 0 <= i < old_pairs.len() && #[trigger] old_pairs[i]@ == x {
                    let i = choose|i: int| 0 <= i < old_pairs.len() && #[trigger] old_pairs[i]@
                        == x;
                    if i < pos {
                        assert(np[i]@ == x);
                    } else {
                        assert(np[i + 1]@ == x);
                    }
                }
            }
        }
    }
}

/// Key `k` makes a pair and its first HomePod comes before index `i`.
spec fn found_before(devs: Seq<AirPlayReceiver>, by_tsid: bool, k: Seq<char>, i: int) -> bool {
    is_pair_key(devs, by_tsid, k) && members_of(devs, by_tsid, k)[0] < i
}

spec fn made_before(devs: Seq<AirPlayReceiver>, by_tsid: bool, x: HomePodPairView, i: int) -> bool {
    exists|k: Seq<char>| #[trigger] found_before(devs, by_tsid, k, i) && x == pair_for(devs, by_tsid, k)
}

spec fn pair_member_id(devs: Seq<AirPlayReceiver>, k: Seq<char>, id: Seq<char>) -> bool {
    devs[members_of(devs, true, k)[0]].id@ == id || devs[members_of(devs, true, k)[1]].id@ == id
}

spec fn consumed_before(devs: Seq<AirPlayReceiver>, id: Seq<char>, i: int) -> bool {
    exists|k: Seq<char>| #[trigger] found_before(devs, true, k, i) && pair_member_id(devs, k, id)
}

spec fn holds_id(v: Seq<String>, id: Seq<char>) -> bool {
    exists|q: int| 0 <= q < v.len() && #[trigger] v[q]@ == id
}

/// Every pair key is found once all receivers have been looked at.
proof fn lemma_found_at_end(devs: Seq<AirPlayReceiver>, by_tsid: bool, k: Seq<char>)
    ensures
        found_before(devs, by_tsid, k, devs.len() as int) == is_pair_key(devs, by_tsid, k),
{
    lemma_key_members(devs, by_tsid, k, devs.len() as int);
    if is_pair_key(devs, by_tsid, k) {
        let m = members_of(devs, by_tsid, k);
        assert(m.len() == 2);
        assert(m[0] < devs.len());
    }
}

/// Which keys become found when index `i` is looked at: only the key of
/// receiver `i`, and only if no earlier HomePod carries it.
proof fn lemma_found_step(
    devs: Seq<AirPlayReceiver>,
    by_tsid: bool,
    i: int,
    kk: Seq<char>,
    fresh: bool,
)
    requires
        0 <= i < devs.len(),
        fresh ==> carries_key(devs, by_tsid, kk, i),
        fresh ==> forall|j: int| 0 <= j < i ==> !carries_key(devs, by_tsid, kk, j),
        !fresh ==> forall|k: Seq<char>|
            carries_key(devs, by_tsid, k, i) ==> exists|j: int|
                0 <= j < i && carries_key(devs, by_tsid, k, j),
    ensures
        forall|k: Seq<char>| #[trigger]
            found_before(devs, by_tsid, k, i + 1) <==> (found_before(devs, by_tsid, k, i) || (
            fresh && k == kk && is_pair_key(devs, by_tsid, k))),
        fresh ==> members_of(devs, by_tsid, kk)[0] == i,
{
    lemma_key_members(devs, by_tsid, kk, devs.len() as int);
    if fresh {
        lemma_first_member(devs, by_tsid, kk, i);
        let f = members_of(devs, by_tsid, kk)[0];
        if f < i {
            assert(carries_key(devs, by_tsid, kk, f));
        }
    }
    assert forall|k: Seq<char>| #[trigger]
        found_before(devs, by_tsid, k, i + 1) <==> (found_before(devs, by_tsid, k, i) || (fresh
            && k == kk && is_pair_key(devs, by_tsid, k))) by {
        lemma_key_members(devs, by_tsid, k, devs.len() as int);
        let m = members_of(devs, by_tsid, k);
        if is_pair_key(devs, by_tsid, k) && m[0] == i {
            assert(m.len() > 0);
            assert(carries_key(devs, by_tsid, k, i));
            if fresh {
                assert(group_key(devs[i], by_tsid) == Some(k));
                assert(group_key(devs[i], by_tsid) == Some(kk));
            } else {
                let j = choose|j: int| 0 <= j < i && carries_key(devs, by_tsid, k, j);
                lemma_first_member(devs, by_tsid, k, j);
            }
        }
    }
}

fn key_of(d: &AirPlayReceiver, by_tsid: bool) -> (r: Option<&String>)
    ensures
        match r {
            Some(s) => group_key(*d, by_tsid) == Some(s@),
            None => group_key(*d, by_tsid) is None,
        },
{
    let o = if by_tsid {
        &d.tight_sync_id
    } else {
        &d.group_id
    };
    match o {
        Some(s) => Some(s),
        None => None,
    }
}

fn carries_exec(
    devices: &[AirPlayReceiver],
    hp: &Vec<bool>,
    by_tsid: bool,
    k: &String,
    j: usize,
) -> (r: bool)
    requires
        hp@.len() == devices@.len(),
        forall|q: int| 0 <= q < hp@.len() ==> #[trigger] hp@[q] == is_homepod_receiver(devices@[q]),
        j < devices@.len(),
    ensures
        r == carries_key(devices@, by_tsid, k@, j as int),
{
    if !hp[j] {
        return false;
    }
    match key_of(&devices[j], by_tsid) {
        Some(other) => str_eq(other.as_str(), k.as_str()),
        None => false,
    }
}

fn collect_members(devices: &[AirPlayReceiver], hp: &Vec<bool>, by_tsid: bool, k: &String) -> (m: Vec<usize>)
    requires
        hp@.len() == devices@.len(),
        forall|q: int| 0 <= q < hp@.len() ==> #[trigger] hp@[q] == is_homepod_receiver(devices@[q]),
    ensures
        m@.len() == members_of(devices@, by_tsid, k@).len(),
        forall|q: int| 0 <= q < m@.len() ==> #[trigger] m@[q] as int == members_of(devices@, by_tsid, k@)[q],
{
    let mut m: Vec<usize> = Vec::new();
    let mut j: usize = 0;
    while j < devices.len()
        invariant
            hp@.len() == devices@.len(),
            forall|q: int| 0 <= q < hp@.len() ==> #[trigger] hp@[q] == is_homepod_receiver(devices@[q]),
            j <= devices@.len(),
            m@.len() == key_members(devices@, by_tsid, k@, j as int).len(),
            forall|q: int| 0 <= q < m@.len() ==> #[trigger] m@[q] as int == key_members(devices@, by_tsid, k@, j as int)[q],
        decreases devices.len() - j,
    {
        if carries_exec(devices, hp, by_tsid, k, j) {
            m.push(j);
        }
        j = j + 1;
    }
    m
}

fn holds_id_exec(v: &Vec<String>, id: &String) -> (r: bool)
    ensures
        r == holds_id(v@, id@),
{
    let mut q: usize = 0;
    while q < v.len()
        invariant
            q <= v@.len(),
            forall|t: int| 0 <= t < q ==> v@[t]@ != id@,
        decreases v.len() - q,
    {
        if str_eq(v[q].as_str(), id.as_str()) {
            return true;
        }
        q = q + 1;
    }
    false
}

spec fn seq_holds(s: Seq<HomePodPair>, x: HomePodPairView) -> bool {
    exists|i: int| 0 <= i < s.len() && #[trigger] s[i]@ == x
}

fn confident_exec(a: &AirPlayReceiver, b: &AirPlayReceiver) -> (r: bool)
    ensures
        r == confident(*a, *b),
{
    a.is_group_leader || b.is_group_leader || a.group_contains_discoverable_leader
        || b.group_contains_discoverable_leader || a.group_public_name.is_some()
        || b.group_public_name.is_some()
}

fn first_carrier_before(
    devices: &[AirPlayReceiver],
    hp: &Vec<bool>,
    by_tsid: bool,
    k: &String,
    i: usize,
) -> (seen: bool)
    requires
        hp@.len() == devices@.len(),
        forall|q: int| 0 <= q < hp@.len() ==> #[trigger] hp@[q] == is_homepod_receiver(devices@[q]),
        i <= devices@.len(),
    ensures
        seen == exists|j: int| 0 <= j < i && carries_key(devices@, by_tsid, k@, j),
{
    let mut j: usize = 0;
    while j < i
        invariant
            hp@.len() == devices@.len(),
            forall|q: int| 0 <= q < hp@.len() ==> #[trigger] hp@[q] == is_homepod_receiver(devices@[q]),
            i <= devices@.len(),
            j <= i,
            forall|t: int| 0 <= t < j ==> !carries_key(devices@, by_tsid, k@, t),
        decreases i - j,
    {
        if carries_exec(devices, hp, by_tsid, k, j) {
            return true;
        }
        j = j + 1;
    }
    false
}

/// One grouping pass: adds, in report order, the pair of every key (of the
/// chosen kind) that makes one.
fn add_group_pairs(
    devices: &[AirPlayReceiver],
    hp: &Vec<bool>,
    by_tsid: bool,
    consumed: &mut Vec<String>,
    acc: &mut SortedPairs,
)
    requires
        hp@.len() == devices@.len(),
        forall|q: int| 0 <= q < hp@.len() ==> #[trigger] hp@[q] == is_homepod_receiver(devices@[q]),
        old(acc).wf(),
        forall|x: HomePodPairView| #[trigger] old(acc).holds(x) ==> (!by_tsid && pair_rank(x).0 == 0),
        by_tsid ==> old(consumed)@.len() == 0,
        !by_tsid ==> forall|id: Seq<char>| #[trigger] holds_id(old(consumed)@, id) <==> consumed_id(devices@, id),
    ensures
        final(acc).wf(),
        forall|x: HomePodPairView| #[trigger] final(acc).holds(x) <==> (old(acc).holds(x) || made_before(devices@, by_tsid, x, devices@.len() as int)),
        by_tsid ==> forall|id: Seq<char>| #[trigger] holds_id(final(consumed)@, id) <==> consumed_before(devices@, id, devices@.len() as int),
        !by_tsid ==> final(consumed)@ == old(consumed)@,
{
    let ghost devs = devices@;
    let ghost old_pairs = acc.pairs@;
    let ghost old_consumed = consumed@;
    let ghost rb: int = if by_tsid { 0 } else { 1 };
    let n = devices.len();
    let mut i: usize = 0;
    proof {
        assert forall|x: HomePodPairView| #[trigger] seq_holds(old_pairs, x) implies (!by_tsid
            && pair_rank(x).0 == 0) by {
            assert(acc.holds(x));
        }
        assert forall|x: HomePodPairView| #[trigger] acc.holds(x) <==> (seq_holds(old_pairs, x)
            || made_before(devs, by_tsid, x, 0)) by {
            if made_before(devs, by_tsid, x, 0) {
                let k = choose|k: Seq<char>| #[trigger] found_before(devs, by_tsid, k, 0) && x
                    == pair_for(devs, by_tsid, k);
                lemma_key_members(devs, by_tsid, k, devs.len() as int);
            }
            if acc.holds(x) {
                assert(seq_holds(old_pairs, x));
            }
        }
        if by_tsid {
            assert forall|id: Seq<char>| #[trigger] holds_id(consumed@, id) <==> consumed_before(
                devs,
                id,
                0,
            ) by {
                if consumed_before(devs, id, 0) {
                    let k = choose|k: Seq<char>| #[trigger] found_before(devs, true, k, 0)
                        && pair_member_id(devs, k, id);
                    lemma_key_members(devs, true, k, devs.len() as int);
                }
            }
        }
    }
    while i < n
        invariant
            devs == devices@,
            n == devs.len(),
            hp@.len() == devs.len(),
            forall|q: int| 0 <= q < hp@.len() ==> #[trigger] hp@[q] == is_homepod_receiver(devs[q]),
            i <= n,
            acc.wf(),
            rb == (if by_tsid { 0int } else { 1int }),
            forall|x: HomePodPairView| #[trigger] seq_holds(old_pairs, x) ==> (!by_tsid && pair_rank(x).0 == 0),
            forall|x: HomePodPairView| #[trigger] acc.holds(x) <==> (seq_holds(old_pairs, x) || made_before(devs, by_tsid, x, i as int)),
            by_tsid ==> forall|id: Seq<char>| #[trigger] holds_id(consumed@, id) <==> consumed_before(devs, id, i as int),
            !by_tsid ==> consumed@ == old_consumed,
            !by_tsid ==> forall|id: Seq<char>| #[trigger] holds_id(old_consumed, id) <==> consumed_id(devs, id),
        decreases n - i,
    {
        let ghost before_pairs = acc.pairs@;
        let ghost before_consumed = consumed@;
        let mut fresh_key: Option<&String> = None;
        if hp[i] {
            match key_of(&devices[i], by_tsid) {
                Some(k) => {
                    if !first_carrier_before(devices, hp, by_tsid, k, i) {
                        fresh_key = Some(k);
                    } else {
                        proof {
                            assert forall|k2: Seq<char>| carries_key(devs, by_tsid, k2, i as int) implies exists|j: int|
                                0 <= j < i && carries_key(devs, by_tsid, k2, j) by {
                                assert(k2 == k@);
                            }
                            lemma_found_step(devs, by_tsid, i as int, k@, false);
                        }
                    }
                },
                None => {
                    proof {
                        lemma_found_step(devs, by_tsid, i as int, Seq::empty(), false);
                    }
                },
            }
        } else {
            proof {
                lemma_found_step(devs, by_tsid, i as int, Seq::empty(), false);
            }
        }
        match fresh_key {
            None => {
                proof {
                    assert forall|x: HomePodPairView| #[trigger] acc.holds(x) <==> (seq_holds(old_pairs, x) || made_before(devs, by_tsid, x, i + 1)) by {
                        if made_before(devs, by_tsid, x, i + 1) {
                            let k = choose|k: Seq<char>| #[trigger] found_before(devs, by_tsid, k, i + 1) && x == pair_for(devs, by_tsid, k);
                            assert(found_before(devs, by_tsid, k, i as int));
                        }
                        if made_before(devs, by_tsid, x, i as int) {
                            let k = choose|k: Seq<char>| #[trigger] found_before(devs, by_tsid, k, i as int) && x == pair_for(devs, by_tsid, k);
                            assert(found_before(devs, by_tsid, k, i + 1));
                        }
                    }
                    if by_tsid {
                        assert forall|id: Seq<char>| #[trigger] holds_id(consumed@, id) <==> consumed_before(devs, id, i + 1) by {
                            if consumed_before(devs, id, i + 1) {
                                let k = choose|k: Seq<char>| #[trigger] found_before(devs, true, k, i + 1) && pair_member_id(devs, k, id);
                                assert(found_before(devs, true, k, i as int));
                            }
                            if consumed_before(devs, id, i as int) {
                                let k = choose|k: Seq<char>| #[trigger] found_before(devs, true, k, i as int) && pair_member_id(devs, k, id);
                                assert(found_before(devs, true, k, i + 1));
                            }
                        }
                    }
                }
            },
            Some(k) => {
                proof {
                    lemma_found_step(devs, by_tsid, i as int, k@, true);
                    lemma_key_members(devs, by_tsid, k@, devs.len() as int);
                }
                let m = collect_members(devices, hp, by_tsid, k);
                let mut accepted = false;
                if m.len() == 2 {
                    let d0 = &devices[m[0]];
                    let d1 = &devices[m[1]];
                    let accept = if by_tsid {
                        true
                    } else {
                        !(holds_id_exec(consumed, &d0.id) && holds_id_exec(consumed, &d1.id))
                            && confident_exec(d0, d1)
                    };
                    if accept {
                        let prefix = if by_tsid { "tsid:" } else { "gid:" };
                        let id = concat(prefix, k.as_str());
                        let tsid_arg = if by_tsid { Some(k.clone()) } else { None };
                        let gid_arg = if by_tsid { None } else { Some(k.clone()) };
                        let pair = build_homepod_pair(id, vec![d0, d1], tsid_arg, gid_arg);
                        let rank: u8 = if by_tsid { 0 } else { 1 };
                        let key = chars_of(k.as_str());
                        proof {
                            assert(is_pair_key(devs, by_tsid, k@));
                            assert(pair@ == pair_for(devs, by_tsid, k@));
                            lemma_pair_rank(devs, by_tsid, k@);
                            assert forall|t: int| 0 <= t < acc.pairs@.len() implies pair_rank(#[trigger] acc.pairs@[t]@) != pair_rank(pair@) by {
                                let y = acc.pairs@[t]@;
                                assert(acc.holds(y));
                                if seq_holds(old_pairs, y) {
                                } else {
                                    let k2 = choose|k2: Seq<char>| #[trigger] found_before(devs, by_tsid, k2, i as int) && y == pair_for(devs, by_tsid, k2);
                                    lemma_pair_rank(devs, by_tsid, k2);
                                }
                            }
                        }
                        acc.insert(pair, rank, key);
                        if by_tsid {
                            consumed.push(d0.id.clone());
                            consumed.push(d1.id.clone());
                        }
                        accepted = true;
                    }
                }
                proof {
                    assert(accepted == is_pair_key(devs, by_tsid, k@));
                    assert forall|x: HomePodPairView| #[trigger] acc.holds(x) <==> (seq_holds(old_pairs, x) || made_before(devs, by_tsid, x, i + 1)) by {
                        if made_before(devs, by_tsid, x, i + 1) {
                            let k2 = choose|k2: Seq<char>| #[trigger] found_before(devs, by_tsid, k2, i + 1) && x == pair_for(devs, by_tsid, k2);
                            if found_before(devs, by_tsid, k2, i as int) {
                            } else {
                                assert(k2 == k@);
                            }
                        }
                        if made_before(devs, by_tsid, x, i as int) {
                            let k2 = choose|k2: Seq<char>| #[trigger] found_before(devs, by_tsid, k2, i as int) && x == pair_for(devs, by_tsid, k2);
                            assert(found_before(devs, by_tsid, k2, i + 1));
                        }
                        if accepted && x == pair_for(devs, by_tsid, k@) {
                            assert(found_before(devs, by_tsid, k@, i + 1));
                        }
                    }
                    if by_tsid {
                        assert forall|id: Seq<char>| #[trigger] holds_id(consumed@, id) <==> consumed_before(devs, id, i + 1) by {
                            if consumed_before(devs, id, i + 1) {
                                let k2 = choose|k2: Seq<char>| #[trigger] found_before(devs, true, k2, i + 1) && pair_member_id(devs, k2, id);
                                if found_before(devs, true, k2, i as int) {
                                    assert(consumed_before(devs, id, i as int));
                                    assert(holds_id(before_consumed, id));
                                    let q = choose|q: int| 0 <= q < before_consumed.len() && #[trigger] before_consumed[q]@ == id;
                                    assert(consumed@[q]@ == id);
                                } else {
                                    assert(k2 == k@);
                                    if devs[members_of(devs, true, k@)[0]].id@ == id {
                                        assert(consumed@[before_consumed.len() as int]@ == id);
                                    } else {
                                        assert(consumed@[before_consumed.len() as int + 1]@ == id);
                                    }
                                }
                            }
                            if holds_id(consumed@, id) {
                                let q = choose|q: int| 0 <= q < consumed@.len() && #[trigger] consumed@[q]@ == id;
                                if q < before_consumed.len() {
                                    assert(holds_id(before_consumed, id));
                                    let k2 = choose|k2: Seq<char>| #[trigger] found_before(devs, true, k2, i as int) && pair_member_id(devs, k2, id);
                                    assert(found_before(devs, true, k2, i + 1));
                                } else {
                                    assert(found_before(devs, true, k@, i + 1));
                                    assert(pair_member_id(devs, k@, id));
                                }
                            }
                        }
                    }
                }
            },
        }
        i = i + 1;
    }
}

/// A discovered HomePod has this id.
pub open spec fn is_discovered_homepod(devs: Seq<AirPlayReceiver>, id: Seq<char>) -> bool {
    exists|j: int| 0 <= j < devs.len() && is_homepod_receiver(devs[j]) && #[trigger] devs[j].id@ == id
}

/// Both members of the pair are discovered HomePods.
pub open spec fn members_are_homepods(devs: Seq<AirPlayReceiver>, p: HomePodPairView) -> bool {
    &&& p.member_ids.len() == 2
    &&& is_discovered_homepod(devs, p.member_ids[0])
    &&& is_discovered_homepod(devs, p.member_ids[1])
}

/// The pair's id tells its origin: a tight-sync id or a group id.
pub open spec fn id_tells_origin(p: HomePodPairView) -> bool {
    "tsid:"@.is_prefix_of(p.id) || "gid:"@.is_prefix_of(p.id)
}

proof fn lemma_detected_pair_shape(devs: Seq<AirPlayReceiver>, p: HomePodPairView)
    requires
        is_detected_pair(devs, p),
    ensures
        members_are_homepods(devs, p),
        id_tells_origin(p),
        forall|k: Seq<char>| p.id == "tsid:"@ + k ==> p == pair_for(devs, true, k),
{
    reveal_strlit("tsid:");
    reveal_strlit("gid:");
    let by_tsid = if exists|k: Seq<char>| #[trigger] is_pair_key(devs, true, k) && p == pair_for(devs, true, k) {
        true
    } else {
        false
    };
    let k = choose|k: Seq<char>| #[trigger] is_pair_key(devs, by_tsid, k) && p == pair_for(devs, by_tsid, k);
    assert(is_pair_key(devs, by_tsid, k) && p == pair_for(devs, by_tsid, k));
    lemma_key_members(devs, by_tsid, k, devs.len() as int);
    let m = members_of(devs, by_tsid, k);
    assert(m.len() == 2);
    assert(carries_key(devs, by_tsid, k, m[0]));
    assert(carries_key(devs, by_tsid, k, m[1]));
    assert forall|t: int| 0 <= t < 2 implies is_discovered_homepod(devs, #[trigger] p.member_ids[t]) by {
        if p.member_ids[t] == devs[m[0]].id@ {
            assert(devs[m[0]].id@ == p.member_ids[t]);
        } else {
            assert(devs[m[1]].id@ == p.member_ids[t]);
        }
    }
    let id = key_prefix(by_tsid) + k;
    assert(p.id == id);
    if by_tsid {
        assert(id.subrange(0, 5) =~= "tsid:"@);
        assert forall|k2: Seq<char>| p.id == "tsid:"@ + k2 implies p == pair_for(devs, true, k2) by {
            assert(k2 =~= id.skip(5));
            assert(k =~= id.skip(5));
        }
    } else {
        assert(id.subrange(0, 4) =~= "gid:"@);
        assert forall|k2: Seq<char>| p.id == "tsid:"@ + k2 implies p == pair_for(devs, true, k2) by {
            assert(p.id[0] == 'g');
            assert(("tsid:"@ + k2)[0] == 't');
        }
    }
}

/// Finds HomePod stereo pairs: two HomePods sharing a tight-sync id, or,
/// failing that, two HomePods sharing a group id with confident leader or
/// group metadata (unless both are already in a tight-sync pair). Pairs come
/// sorted by lowercased name, ties broken by origin.
pub fn detect_homepod_pairs(devices: &[AirPlayReceiver]) -> (pairs: Vec<HomePodPair>)
    ensures
        forall|i: int, j: int|
            0 <= i < j < pairs@.len() ==> pair_before(#[trigger] pairs@[i]@, #[trigger] pairs@[j]@),
        forall|i: int| 0 <= i < pairs@.len() ==> is_detected_pair(devices@, #[trigger] pairs@[i]@),
        forall|p: HomePodPairView|
            is_detected_pair(devices@, p) ==> exists|i: int|
                0 <= i < pairs@.len() && #[trigger] pairs@[i]@ == p,
        forall|i: int|
            0 <= i < pairs@.len() ==> members_are_homepods(devices@, #[trigger] pairs@[i]@)
                && id_tells_origin(pairs@[i]@),
        forall|k: Seq<char>|
            #[trigger] is_tsid_pair_key(devices@, k) ==> (exists|i: int|
                0 <= i < pairs@.len() && pairs@[i]@.id == "tsid:"@ + k) && (forall|i: int, j: int|
                0 <= i < pairs@.len() && 0 <= j < pairs@.len() && #[trigger] pairs@[i]@.id == "tsid:"@
                    + k && #[trigger] pairs@[j]@.id == "tsid:"@ + k ==> i == j),
{
    let ghost devs = devices@;
    let mut hp: Vec<bool> = Vec::new();
    let mut i: usize = 0;
    while i < devices.len()
        invariant
            i <= devices@.len(),
            hp@.len() == i,
            forall|q: int| 0 <= q < i ==> #[trigger] hp@[q] == is_homepod_receiver(devices@[q]),
        decreases devices.len() - i,
    {
        hp.push(devices[i].device_kind().is_homepod());
        i = i + 1;
    }
    let mut consumed: Vec<String> = Vec::new();
    let mut acc = SortedPairs::new();
    add_group_pairs(devices, &hp, true, &mut consumed, &mut acc);
    proof {
        assert forall|id: Seq<char>| #[trigger] holds_id(consumed@, id) <==> consumed_id(devs, id) by {
            if consumed_id(devs, id) {
                let k = choose|k: Seq<char>| #[trigger] is_tsid_pair_key(devs, k) && (devs[members_of(devs, true, k)[0]].id@ == id || devs[members_of(devs, true, k)[1]].id@ == id);
                lemma_found_at_end(devs, true, k);
                assert(found_before(devs, true, k, devs.len() as int));
            }
            if holds_id(consumed@, id) {
                assert(consumed_before(devs, id, devs.len() as int));
                let k = choose|k: Seq<char>| #[trigger] found_before(devs, true, k, devs.len() as int) && pair_member_id(devs, k, id);
                assert(is_tsid_pair_key(devs, k));
            }
        }
        assert forall|x: HomePodPairView| #[trigger] acc.holds(x) implies (!false && pair_rank(x).0 == 0) by {
            assert(made_before(devs, true, x, devs.len() as int));
            let k = choose|k: Seq<char>| #[trigger] found_before(devs, true, k, devs.len() as int) && x == pair_for(devs, true, k);
            lemma_pair_rank(devs, true, k);
        }
    }
    let ghost tsid_acc = acc.pairs@;
    proof {
        assert forall|x: HomePodPairView| #[trigger] seq_holds(tsid_acc, x) <==> made_before(
            devs,
            true,
            x,
            devs.len() as int,
        ) by {
            if seq_holds(tsid_acc, x) {
                assert(acc.holds(x));
            }
            if made_before(devs, true, x, devs.len() as int) {
                assert(acc.holds(x));
            }
        }
    }
    add_group_pairs(devices, &hp, false, &mut consumed, &mut acc);
    proof {
        assert forall|x: HomePodPairView| #[trigger] acc.holds(x) <==> is_detected_pair(devs, x) by {
            if acc.holds(x) {
                if seq_holds(tsid_acc, x) {
                    assert(made_before(devs, true, x, devs.len() as int));
                    let k = choose|k: Seq<char>| #[trigger] found_before(devs, true, k, devs.len() as int) && x == pair_for(devs, true, k);
                    assert(is_pair_key(devs, true, k));
                } else {
                    assert(made_before(devs, false, x, devs.len() as int));
                    let k = choose|k: Seq<char>| #[trigger] found_before(devs, false, k, devs.len() as int) && x == pair_for(devs, false, k);
                    assert(is_pair_key(devs, false, k));
                }
            }
            if is_detected_pair(devs, x) {
                if exists|k: Seq<char>| #[trigger] is_pair_key(devs, true, k) && x == pair_for(devs, true, k) {
                    let k = choose|k: Seq<char>| #[trigger] is_pair_key(devs, true, k) && x == pair_for(devs, true, k);
                    lemma_found_at_end(devs, true, k);
                    assert(found_before(devs, true, k, devs.len() as int));
                    assert(made_before(devs, true, x, devs.len() as int));
                    assert(seq_holds(tsid_acc, x));
                } else {
                    let k = choose|k: Seq<char>| #[trigger] is_pair_key(devs, false, k) && x == pair_for(devs, false, k);
                    lemma_found_at_end(devs, false, k);
                    assert(found_before(devs, false, k, devs.len() as int));
                    assert(made_before(devs, false, x, devs.len() as int));
                }
            }
        }
        assert forall|t: int| 0 <= t < acc.pairs@.len() implies is_detected_pair(devs, #[trigger] acc.pairs@[t]@) by {
            assert(acc.holds(acc.pairs@[t]@));
        }
        assert forall|p: HomePodPairView| is_detected_pair(devs, p) implies exists|t: int|
                0 <= t < acc.pairs@.len() && #[trigger] acc.pairs@[t]@ == p by {
            assert(acc.holds(p));
        }
    }
    let pairs = acc.pairs;
    proof {
        assert forall|i: int| 0 <= i < pairs@.len() implies members_are_homepods(devs, #[trigger] pairs@[i]@)
            && id_tells_origin(pairs@[i]@) by {
            lemma_detected_pair_shape(devs, pairs@[i]@);
        }
        assert forall|k: Seq<char>| #[trigger] is_tsid_pair_key(devs, k) implies (exists|i: int|
            0 <= i < pairs@.len() && pairs@[i]@.id == "tsid:"@ + k) && (forall|i: int, j: int|
            0 <= i < pairs@.len() && 0 <= j < pairs@.len() && #[trigger] pairs@[i]@.id == "tsid:"@
                + k && #[trigger] pairs@[j]@.id == "tsid:"@ + k ==> i == j) by {
            let p = pair_for(devs, true, k);
            assert(is_pair_key(devs, true, k));
            assert(is_detected_pair(devs, p));
            let t = choose|t: int| 0 <= t < pairs@.len() && #[trigger] pairs@[t]@ == p;
            assert(pairs@[t]@.id == "tsid:"@ + k);
            assert forall|i: int, j: int|
                0 <= i < pairs@.len() && 0 <= j < pairs@.len() && #[trigger] pairs@[i]@.id == "tsid:"@
                    + k && #[trigger] pairs@[j]@.id == "tsid:"@ + k implies i == j by {
                lemma_detected_pair_shape(devs, pairs@[i]@);
                lemma_detected_pair_shape(devs, pairs@[j]@);
                assert(pairs@[i]@ == pairs@[j]@);
                lemma_pair_before_irreflexive(pairs@[i]@);
                if i < j {
                    assert(pair_before(pairs@[i]@, pairs@[j]@));
                } else if j < i {
                    assert(pair_before(pairs@[j]@, pairs@[i]@));
                }
            }
        }
    }
    pairs
}

/// A group id held by exactly two HomePods, not both already in a
/// tight-sync pair, makes a pair as soon as either member carries any group
/// metadata: a leader flag, a discoverable leader, or a published group
/// name. Without any of these it makes none.
pub proof fn law_group_pairs_need_metadata(devs: Seq<AirPlayReceiver>, k: Seq<char>)
    requires
        members_of(devs, false, k).len() == 2,
        !(consumed_id(devs, devs[members_of(devs, false, k)[0]].id@) && consumed_id(
            devs,
            devs[members_of(devs, false, k)[1]].id@,
        )),
    ensures
        ({
            let a = devs[members_of(devs, false, k)[0]];
            let b = devs[members_of(devs, false, k)[1]];
            &&& (a.group_public_name is Some || b.group_public_name is Some) ==> is_gid_pair_key(devs, k)
            &&& (a.is_group_leader || b.is_group_leader) ==> is_gid_pair_key(devs, k)
            &&& (a.group_contains_discoverable_leader || b.group_contains_discoverable_leader)
                ==> is_gid_pair_key(devs, k)
            &&& is_gid_pair_key(devs, k) ==> (a.group_public_name is Some || b.group_public_name is Some
                || a.is_group_leader || b.is_group_leader || a.group_contains_discoverable_leader
                || b.group_contains_discoverable_leader)
            &&& is_gid_pair_key(devs, k) ==> is_detected_pair(devs, pair_for(devs, false, k))
        }),
{
}

} // verus!
