//! Whether a person reaches a chosen person through trusted social
//! relations: a breadth-first search that asks for one person's relations
//! at a time and stops after a bounded number of people.
use vstd::prelude::*;
use crate::session::keys_view;
use crate::model::Authority;

verus! {

/// How sure the graph is of a relation.
#[derive(PartialEq, Eq, Structural, Clone, Copy, Debug)]
pub enum RelationStatus {
    Confirmed,
    Stated,
    Hypothesis,
    Denied,
    Outdated,
}

/// A social relation between two people; confidence in millionths.
pub struct RelationFacts {
    pub person_a: String,
    pub person_b: String,
    pub status: RelationStatus,
    /// The relation was inferred rather than stated or confirmed by someone.
    pub inferred: bool,
    pub confidence_micros: i64,
}

/// The least confidence a relation on a trust path needs, in millionths.
pub const SOCIAL_PATH_MIN_CONFIDENCE_MICROS: i64 = 500_000;
/// The most people a search visits.
pub const SOCIAL_PATH_MAX_NODES: usize = 128;

/// A relation carries trust when it is confirmed or stated, not inferred,
/// and confident enough.
pub open spec fn carries_trust(r: RelationFacts) -> bool {
    (r.status == RelationStatus::Confirmed || r.status == RelationStatus::Stated) && !r.inferred
        && r.confidence_micros >= SOCIAL_PATH_MIN_CONFIDENCE_MICROS
}

/// `relation_allows_trust_path`.
pub fn relation_allows_trust_path(r: &RelationFacts) -> (b: bool)
    ensures
        b == carries_trust(*r),
{
    (r.status == RelationStatus::Confirmed || r.status == RelationStatus::Stated) && !r.inferred
        && r.confidence_micros >= SOCIAL_PATH_MIN_CONFIDENCE_MICROS
}

/// The other person of a relation that involves `person`.
pub open spec fn other_of(r: RelationFacts, person: Seq<char>) -> Option<Seq<char>> {
    if r.person_a@ == person {
        Some(r.person_b@)
    } else if r.person_b@ == person {
        Some(r.person_a@)
    } else {
        None
    }
}

/// `other_relation_person`.
pub fn other_relation_person(r: &RelationFacts, person: &String) -> (o: Option<String>)
    ensures
        crate::memory::opt_view(o) == other_of(*r, person@),
{
    if r.person_a == *person {
        Some(r.person_b.clone())
    } else if r.person_b == *person {
        Some(r.person_a.clone())
    } else {
        None
    }
}

/// Two people are linked by a trust-carrying relation among `rels`.
pub open spec fn trust_edge(rels: Seq<RelationFacts>, a: Seq<char>, b: Seq<char>) -> bool {
    exists|k: int| 0 <= k < rels.len() && carries_trust(#[trigger] rels[k]) && other_of(rels[k], a) == Some(b)
}

/// `path` walks from its first to its last person along trust-carrying
/// relations among `rels`.
pub open spec fn trust_path(rels: Seq<RelationFacts>, path: Seq<Seq<char>>) -> bool {
    path.len() >= 1 && forall|i: int| 0 <= i < path.len() - 1 ==> #[trigger] trust_edge(rels, path[i], path[i + 1])
}

/// `to` is reached from `from` along trust-carrying relations among `rels`.
pub open spec fn reaches(rels: Seq<RelationFacts>, from: Seq<char>, to: Seq<char>) -> bool {
    exists|path: Seq<Seq<char>>| #[trigger] trust_path(rels, path) && path[0] == from && path.last() == to
}

/// A search in progress: the people seen, the layer being visited, the
/// next layer, the chosen people it looks for, and, as ghost state, the
/// relations read so far, the people whose relations were read, and the
/// trusted links found from them.
pub struct PathSearch {
    pub start: String,
    pub chosen: Vec<String>,
    pub seen: Vec<String>,
    pub frontier: Vec<String>,
    pub next: Vec<String>,
    pub pos: usize,
    pub read: Ghost<Seq<RelationFacts>>,
    pub visited: Ghost<Seq<Seq<char>>>,
    pub edges: Ghost<Seq<(Seq<char>, Seq<char>)>>,
}

/// `path` walks from its first to its last person along the links.
pub open spec fn link_path(edges: Seq<(Seq<char>, Seq<char>)>, path: Seq<Seq<char>>) -> bool {
    path.len() >= 1 && forall|i: int| 0 <= i < path.len() - 1 ==> #[trigger] edges.contains((path[i], path[i + 1]))
}

/// `to` is reached from `from` along the links.
pub open spec fn links_reach(edges: Seq<(Seq<char>, Seq<char>)>, from: Seq<char>, to: Seq<char>) -> bool {
    exists|path: Seq<Seq<char>>| #[trigger] link_path(edges, path) && path[0] == from && path.last() == to
}

impl PathSearch {
    /// Everyone the search has seen is reached from the start along the
    /// relations it has read.
    pub open spec fn sound(self) -> bool {
        &&& self.pos <= self.frontier@.len()
        &&& forall|k: int| 0 <= k < self.seen@.len() ==> reaches(self.read@, self.start@, #[trigger] self.seen@[k]@)
        &&& forall|k: int| 0 <= k < self.frontier@.len() ==> keys_view(self.seen@).contains(#[trigger] self.frontier@[k]@)
        &&& forall|k: int| 0 <= k < self.next@.len() ==> keys_view(self.seen@).contains(#[trigger] self.next@[k]@)
    }

    /// The people still to visit: the rest of this layer and the next one.
    pub open spec fn pending(self) -> Seq<Seq<char>> {
        keys_view(self.frontier@).skip(self.pos as int) + keys_view(self.next@)
    }

    /// Nothing is missed: the start is seen; no one seen but the start is a
    /// chosen person; everyone seen is visited or still to visit, and every
    /// visited person was seen; each link goes from a visited person to a
    /// seen one and is a trusted relation that was read.
    pub open spec fn complete(self) -> bool {
        &&& keys_view(self.seen@).contains(self.start@)
        &&& forall|x: Seq<char>|
            #[trigger] keys_view(self.seen@).contains(x) && x != self.start@ ==> !keys_view(self.chosen@).contains(x)
        &&& forall|x: Seq<char>|
            #[trigger] keys_view(self.seen@).contains(x) ==> self.visited@.contains(x) || self.pending().contains(x)
        &&& forall|x: Seq<char>| #[trigger] self.visited@.contains(x) ==> keys_view(self.seen@).contains(x)
        &&& forall|e: (Seq<char>, Seq<char>)|
            #[trigger] self.edges@.contains(e) ==> self.visited@.contains(e.0) && keys_view(self.seen@).contains(e.1)
                && trust_edge(self.read@, e.0, e.1)
    }
}

/// What the search needs next.
pub enum PathStep {
    /// The relations of this person.
    Fetch(String),
    /// The search ran out of people without meeting a chosen person.
    Exhausted,
}

/// Starts a search from `person` for any of `chosen`.
pub fn start_search(person: &String, chosen: &Vec<String>) -> (s: PathSearch)
    ensures
        s.sound(),
        s.complete(),
        s.start@ == person@,
        s.chosen@ == chosen@,
        s.read@.len() == 0,
        s.visited@.len() == 0,
        s.edges@.len() == 0,
        keys_view(s.seen@) == seq![person@],
        s.frontier@.len() == 1 && s.frontier@[0]@ == person@,
        s.next@.len() == 0,
        s.pos == 0,
{
    let s = PathSearch {
        start: person.clone(),
        chosen: chosen.clone(),
        seen: vec![person.clone()],
        frontier: vec![person.clone()],
        next: Vec::new(),
        pos: 0,
        read: Ghost(Seq::empty()),
        visited: Ghost(Seq::empty()),
        edges: Ghost(Seq::empty()),
    };
    proof {
        assert(keys_view(s.seen@) =~= seq![person@]);
        assert(keys_view(s.seen@)[0] == person@);
        assert forall|k: int| 0 <= k < s.seen@.len() implies reaches(s.read@, s.start@, #[trigger] s.seen@[k]@) by {
            let path = seq![person@];
            assert(trust_path(s.read@, path));
        }
        assert(s.pending() =~= seq![person@]);
        assert forall|x: Seq<char>| #[trigger] keys_view(s.seen@).contains(x) implies s.visited@.contains(x)
            || s.pending().contains(x) by {
            assert(s.pending()[0] == person@);
        }
    }
    s
}

proof fn lemma_pending_after_layer(s: PathSearch, t: PathSearch)
    requires
        s.pos == s.frontier@.len(),
        t.frontier@ == s.next@,
        t.next@.len() == 0,
        t.pos == 0,
    ensures
        t.pending() =~= s.pending(),
{
    assert(keys_view(s.frontier@).skip(s.pos as int) =~= Seq::<Seq<char>>::empty());
    assert(keys_view(t.next@) =~= Seq::<Seq<char>>::empty());
}

/// The next person whose relations the search reads, moving to the next
/// layer when this one is done.
pub fn next_step(s: &mut PathSearch) -> (step: PathStep)
    requires
        old(s).sound(),
    ensures
        final(s).sound(),
        old(s).complete() ==> final(s).complete(),
        final(s).start == old(s).start,
        final(s).chosen@ == old(s).chosen@,
        final(s).seen@ == old(s).seen@,
        final(s).read@ == old(s).read@,
        final(s).visited@ == old(s).visited@,
        final(s).edges@ == old(s).edges@,
        final(s).pending() == old(s).pending(),
        match step {
            PathStep::Fetch(p) => final(s).pos < final(s).frontier@.len() && final(s).frontier@[final(s).pos as int]@
                == p@,
            PathStep::Exhausted => old(s).pos == old(s).frontier@.len() && old(s).next@.len() == 0
                && final(s).pending().len() == 0,
        },
{
    if s.pos < s.frontier.len() {
        return PathStep::Fetch(s.frontier[s.pos].clone());
    }
    if s.next.len() == 0 {
        proof {
            assert(s.pending() =~= Seq::<Seq<char>>::empty());
        }
        return PathStep::Exhausted;
    }
    let ghost before = *s;
    let mut layer: Vec<String> = Vec::new();
    std::mem::swap(&mut layer, &mut s.next);
    s.frontier = layer;
    s.pos = 0;
    proof {
        lemma_pending_after_layer(before, *s);
    }
    PathStep::Fetch(s.frontier[0].clone())
}

/// What the relations of one person tell the search.
#[derive(PartialEq, Eq, Structural, Clone, Copy, Debug)]
pub enum PathVisit {
    /// A chosen person is a trusted neighbor.
    Found,
    /// The search saw as many people as it may without meeting one.
    GaveUp,
    /// Go on with the next person.
    Continue,
}

proof fn lemma_reaches_extend(rels: Seq<RelationFacts>, more: Seq<RelationFacts>, from: Seq<char>, to: Seq<char>)
    requires
        reaches(rels, from, to),
    ensures
        reaches(rels + more, from, to),
{
    let path = choose|path: Seq<Seq<char>>| #[trigger] trust_path(rels, path) && path[0] == from && path.last() == to;
    assert forall|i: int| 0 <= i < path.len() - 1 implies #[trigger] trust_edge(rels + more, path[i], path[i + 1]) by {
        assert(trust_edge(rels, path[i], path[i + 1]));
        let k = choose|k: int| 0 <= k < rels.len() && carries_trust(#[trigger] rels[k]) && other_of(rels[k], path[i]) == Some(path[i + 1]);
        assert((rels + more)[k] == rels[k]);
    }
    assert(trust_path(rels + more, path));
}

proof fn lemma_reaches_step(rels: Seq<RelationFacts>, from: Seq<char>, mid: Seq<char>, k: int, to: Seq<char>)
    requires
        reaches(rels, from, mid),
        0 <= k < rels.len(),
        carries_trust(rels[k]),
        other_of(rels[k], mid) == Some(to),
    ensures
        reaches(rels, from, to),
{
    let path = choose|path: Seq<Seq<char>>| #[trigger] trust_path(rels, path) && path[0] == from && path.last() == mid;
    let longer = path.push(to);
    assert(trust_edge(rels, mid, to));
    assert forall|i: int| 0 <= i < longer.len() - 1 implies #[trigger] trust_edge(rels, longer[i], longer[i + 1]) by {
        if i < path.len() - 1 {
            assert(longer[i] == path[i] && longer[i + 1] == path[i + 1]);
        } else {
            assert(longer[i] == mid && longer[i + 1] == to);
        }
    }
    assert(trust_path(rels, longer));
    assert(longer[0] == from && longer.last() == to);
}

proof fn lemma_trust_edge_extend(rels: Seq<RelationFacts>, more: Seq<RelationFacts>, a: Seq<char>, b: Seq<char>)
    requires
        trust_edge(rels, a, b),
    ensures
        trust_edge(rels + more, a, b),
{
    let k = choose|k: int| 0 <= k < rels.len() && carries_trust(#[trigger] rels[k]) && other_of(rels[k], a) == Some(b);
    assert((rels + more)[k] == rels[k]);
}

proof fn lemma_push_has<T>(s: Seq<T>, v: T)
    ensures
        forall|x: T| #[trigger] s.push(v).contains(x) <==> (s.contains(x) || x == v),
{
    assert forall|x: T| #[trigger] s.push(v).contains(x) <==> (s.contains(x) || x == v) by {
        if s.contains(x) {
            let t = choose|t: int| 0 <= t < s.len() && s[t] == x;
            assert(s.push(v)[t] == x);
        }
        if x == v {
            assert(s.push(v)[s.len() as int] == x);
        }
        if s.push(v).contains(x) {
            let t = choose|t: int| 0 <= t < s.push(v).len() && s.push(v)[t] == x;
            if t < s.len() {
                assert(s[t] == x);
            }
        }
    }
}

/// The trusted neighbor a relation gives `person`, if any.
pub open spec fn trusted_neighbor(r: RelationFacts, person: Seq<char>) -> Option<Seq<char>> {
    if carries_trust(r) {
        other_of(r, person)
    } else {
        None
    }
}

/// Takes in the relations of the person `next_step` asked for (all of
/// them, whatever the store holds). A chosen person among their trusted
/// neighbors ends the search; new neighbors join the next layer, and seeing
/// as many people as the bound allows ends it.
pub fn visit(s: &mut PathSearch, relations: &Vec<RelationFacts>) -> (v: PathVisit)
    requires
        old(s).sound(),
        old(s).complete(),
        old(s).pos < old(s).frontier@.len(),
    ensures
        final(s).sound(),
        final(s).start == old(s).start,
        final(s).chosen@ == old(s).chosen@,
        final(s).read@ == old(s).read@ + relations@,
        final(s).visited@ == old(s).visited@.push(old(s).frontier@[old(s).pos as int]@),
        v == PathVisit::Found ==> exists|c: Seq<char>|
            keys_view(final(s).chosen@).contains(c) && #[trigger] reaches(final(s).read@, final(s).start@, c),
        v == PathVisit::GaveUp ==> final(s).seen@.len() >= SOCIAL_PATH_MAX_NODES,
        v == PathVisit::Continue ==> {
            &&& final(s).pos == old(s).pos + 1
            &&& final(s).complete()
            &&& forall|k: int|
                0 <= k < relations@.len() && #[trigger] trusted_neighbor(relations@[k], old(s).frontier@[old(s).pos as int]@)
                    is Some ==> final(s).edges@.contains(
                    (
                        old(s).frontier@[old(s).pos as int]@,
                        trusted_neighbor(relations@[k], old(s).frontier@[old(s).pos as int]@)->0,
                    ),
                )
        },
{
    let current = s.frontier[s.pos].clone();
    let ghost rels = s.read@ + relations@;
    let ghost old_read = s.read@;
    let ghost cur = current@;
    let ghost visited0 = s.visited@;
    proof {
        assert forall|k: int| 0 <= k < s.seen@.len() implies reaches(rels, s.start@, #[trigger] s.seen@[k]@) by {
            lemma_reaches_extend(old_read, relations@, s.start@, s.seen@[k]@);
        }
        assert(keys_view(s.seen@).contains(current@));
        let t = choose|t: int| 0 <= t < keys_view(s.seen@).len() && keys_view(s.seen@)[t] == current@;
        assert(s.seen@[t]@ == current@);
        assert(reaches(rels, s.start@, current@));
        assert forall|e: (Seq<char>, Seq<char>)| #[trigger] s.edges@.contains(e) implies trust_edge(rels, e.0, e.1) by {
            lemma_trust_edge_extend(old_read, relations@, e.0, e.1);
        }
        lemma_push_has(visited0, cur);
        assert(keys_view(s.frontier@).skip(s.pos as int)[0] == cur);
        assert(s.pending()[0] == cur);
    }
    s.read = Ghost(rels);
    s.visited = Ghost(visited0.push(cur));
    let ghost pos0 = s.pos;
    let mut i: usize = 0;
    while i < relations.len()
        invariant
            0 <= i <= relations.len(),
            s.read@ == rels,
            rels == old_read + relations@,
            old_read == old(s).read@,
            s.pos == old(s).pos,
            s.pos == pos0,
            s.start == old(s).start,
            s.chosen == old(s).chosen,
            s.frontier == old(s).frontier,
            s.pos < s.frontier@.len(),
            cur == current@,
            cur == s.frontier@[s.pos as int]@,
            s.visited@ == visited0.push(cur),
            visited0 == old(s).visited@,
            reaches(rels, s.start@, current@),
            forall|k: int| 0 <= k < s.seen@.len() ==> reaches(s.read@, s.start@, #[trigger] s.seen@[k]@),
            forall|k: int| 0 <= k < s.frontier@.len() ==> keys_view(s.seen@).contains(#[trigger] s.frontier@[k]@),
            forall|k: int| 0 <= k < s.next@.len() ==> keys_view(s.seen@).contains(#[trigger] s.next@[k]@),
            keys_view(s.seen@).contains(s.start@),
            forall|x: Seq<char>|
                #[trigger] keys_view(s.seen@).contains(x) && x != s.start@ ==> !keys_view(s.chosen@).contains(x),
            forall|x: Seq<char>| #[trigger] keys_view(s.seen@).contains(x) ==> s.visited@.contains(x) || s.pending().contains(x),
            forall|x: Seq<char>| #[trigger] s.visited@.contains(x) ==> keys_view(s.seen@).contains(x),
            forall|e: (Seq<char>, Seq<char>)|
                #[trigger] s.edges@.contains(e) ==> s.visited@.contains(e.0) && keys_view(s.seen@).contains(e.1)
                    && trust_edge(s.read@, e.0, e.1),
            forall|k: int|
                0 <= k < i && #[trigger] trusted_neighbor(relations@[k], cur) is Some ==> s.edges@.contains(
                    (cur, trusted_neighbor(relations@[k], cur)->0),
                ),
        decreases relations.len() - i,
    {
        let r = &relations[i];
        if relation_allows_trust_path(r) {
            match other_relation_person(r, &current) {
                Some(other) => {
                    let ghost ov = other@;
                    proof {
                        assert(rels[old_read.len() + i] == relations@[i as int]);
                        lemma_reaches_step(rels, s.start@, current@, old_read.len() + i, other@);
                        assert(trust_edge(rels, cur, ov));
                    }
                    if crate::session::holds_key(&s.chosen, &other) {
                        return PathVisit::Found;
                    }
                    if !crate::session::holds_key(&s.seen, &other) {
                        let ghost seen_before = s.seen@;
                        let ghost pending_before = s.pending();
                        s.seen.push(other.clone());
                        proof {
                            assert(keys_view(s.seen@) =~= keys_view(seen_before).push(ov));
                            crate::session::lemma_push_contains(keys_view(seen_before), ov);
                            assert forall|k: int| 0 <= k < s.seen@.len() implies reaches(
                                s.read@,
                                s.start@,
                                #[trigger] s.seen@[k]@,
                            ) by {
                                if k < seen_before.len() {
                                    assert(s.seen@[k] == seen_before[k]);
                                }
                            }
                        }
                        if s.seen.len() >= SOCIAL_PATH_MAX_NODES {
                            return PathVisit::GaveUp;
                        }
                        let ghost next_before = s.next@;
                        s.next.push(other);
                        proof {
                            assert(keys_view(s.next@) =~= keys_view(next_before).push(ov));
                            assert(s.pending() =~= pending_before.push(ov));
                            lemma_push_has(pending_before, ov);
                            assert forall|k: int| 0 <= k < s.next@.len() implies keys_view(s.seen@).contains(
                                #[trigger] s.next@[k]@,
                            ) by {
                                if k < next_before.len() {
                                    assert(s.next@[k] == next_before[k]);
                                } else {
                                    assert(keys_view(s.seen@)[s.seen@.len() - 1] == ov);
                                }
                            }
                        }
                    }
                    let ghost edges_before = s.edges@;
                    proof {
                        assert(keys_view(s.seen@).contains(ov));
                        assert forall|e: (Seq<char>, Seq<char>)| #[trigger] edges_before.contains(e) implies s.visited@.contains(e.0)
                            && keys_view(s.seen@).contains(e.1) && trust_edge(s.read@, e.0, e.1) by {}
                    }
                    s.edges = Ghost(edges_before.push((cur, ov)));
                    proof {
                        lemma_push_has(edges_before, (cur, ov));
                        lemma_push_has(visited0, cur);
                        assert(s.visited@.contains(cur));
                        assert forall|e: (Seq<char>, Seq<char>)| #[trigger] s.edges@.contains(e) implies s.visited@.contains(e.0)
                            && keys_view(s.seen@).contains(e.1) && trust_edge(s.read@, e.0, e.1) by {
                            if e != (cur, ov) {
                                assert(edges_before.contains(e));
                            }
                        }
                        assert(trusted_neighbor(relations@[i as int], cur) == Some(ov));
                    }
                },
                None => {
                    proof {
                        assert(trusted_neighbor(relations@[i as int], cur) is None);
                    }
                },
            }
        } else {
            proof {
                assert(trusted_neighbor(relations@[i as int], cur) is None);
            }
        }
        i = i + 1;
    }
    let ghost before_step = *s;
    let flen = s.frontier.len();
    assert(s.pos < flen);
    s.pos = s.pos + 1;
    proof {
        let fr = keys_view(before_step.frontier@);
        assert(fr.skip(pos0 as int) =~= seq![cur] + fr.skip(pos0 + 1));
        assert(before_step.pending() =~= seq![cur] + s.pending());
        assert forall|x: Seq<char>| #[trigger] keys_view(s.seen@).contains(x) implies s.visited@.contains(x)
            || s.pending().contains(x) by {
            if before_step.pending().contains(x) && !s.visited@.contains(x) {
                let t = choose|t: int| 0 <= t < before_step.pending().len() && before_step.pending()[t] == x;
                if t == 0 {
                    lemma_push_has(visited0, cur);
                } else {
                    assert(s.pending()[t - 1] == x);
                }
            }
        }
    }
    PathVisit::Continue
}

proof fn lemma_link_path_seen(s: PathSearch, path: Seq<Seq<char>>, i: int)
    requires
        s.complete(),
        link_path(s.edges@, path),
        path[0] == s.start@,
        0 <= i < path.len(),
    ensures
        keys_view(s.seen@).contains(path[i]),
    decreases i,
{
    if i > 0 {
        lemma_link_path_seen(s, path, i - 1);
        let j = i - 1;
        assert(s.edges@.contains((path[j], path[j + 1])));
    }
}

/// A search that runs out misses no chosen person: once a complete search
/// has no one left to visit, every chosen person reached from the start
/// along the trusted links found from the people it visited is the start
/// itself.
pub proof fn lemma_exhausted_search_misses_no_chosen(s: PathSearch, c: Seq<char>)
    requires
        s.complete(),
        s.pending().len() == 0,
        keys_view(s.chosen@).contains(c),
        links_reach(s.edges@, s.start@, c),
    ensures
        c == s.start@,
{
    let path = choose|path: Seq<Seq<char>>| #[trigger] link_path(s.edges@, path) && path[0] == s.start@ && path.last() == c;
    lemma_link_path_seen(s, path, path.len() - 1);
}

/// Where a person's trust ceiling comes from.
#[derive(PartialEq, Eq, Structural, Clone, Copy, Debug)]
pub enum TrustCeiling {
    /// The ceiling of this authority.
    OfAuthority(Authority),
    /// The person's current trust, in millionths, kept within zero and the
    /// default authority's ceiling.
    CurrentTrust(i64),
}

pub open spec fn trust_ceiling_of(
    authority: Authority,
    is_chosen: bool,
    path_found: bool,
    current_trust_micros: i64,
    default_ceiling_micros: i64,
) -> TrustCeiling {
    if authority != Authority::Default {
        TrustCeiling::OfAuthority(authority)
    } else if is_chosen {
        TrustCeiling::OfAuthority(Authority::ChosenPerson)
    } else if path_found {
        TrustCeiling::OfAuthority(Authority::Default)
    } else if current_trust_micros < 0 {
        TrustCeiling::CurrentTrust(0)
    } else if current_trust_micros > default_ceiling_micros {
        TrustCeiling::CurrentTrust(default_ceiling_micros)
    } else {
        TrustCeiling::CurrentTrust(current_trust_micros)
    }
}

/// `relationship_trust_ceiling`: a person with an authority of their own gets
/// its ceiling; a chosen person that of the chosen person; a person that a
/// trusted path links to a chosen person the default ceiling; anyone else
/// keeps their current trust, within zero and the default ceiling.
/// `path_found` is what the social path search answered for the person.
pub fn relationship_trust_ceiling(
    authority: Authority,
    person: &String,
    chosen_people: &Vec<String>,
    path_found: bool,
    current_trust_micros: i64,
    default_ceiling_micros: i64,
) -> (r: TrustCeiling)
    requires
        default_ceiling_micros >= 0,
    ensures
        r == trust_ceiling_of(
            authority,
            keys_view(chosen_people@).contains(person@),
            path_found,
            current_trust_micros,
            default_ceiling_micros,
        ),
{
    if authority != Authority::Default {
        return TrustCeiling::OfAuthority(authority);
    }
    if crate::session::holds_key(chosen_people, person) {
        return TrustCeiling::OfAuthority(Authority::ChosenPerson);
    }
    if path_found {
        TrustCeiling::OfAuthority(Authority::Default)
    } else if current_trust_micros < 0 {
        TrustCeiling::CurrentTrust(0)
    } else if current_trust_micros > default_ceiling_micros {
        TrustCeiling::CurrentTrust(default_ceiling_micros)
    } else {
        TrustCeiling::CurrentTrust(current_trust_micros)
    }
}

} // verus!
