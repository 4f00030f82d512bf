use actor::model::Authority;
use actor::social_path::{
    relationship_trust_ceiling, TrustCeiling,
    next_step, other_relation_person, relation_allows_trust_path, start_search, visit, PathStep, PathVisit,
    RelationFacts, RelationStatus,
};

fn rel(a: &str, b: &str, status: RelationStatus, inferred: bool, confidence_micros: i64) -> RelationFacts {
    RelationFacts { person_a: a.to_string(), person_b: b.to_string(), status, inferred, confidence_micros }
}

fn search(graph: &[RelationFacts], start: &str, chosen: &[&str]) -> bool {
    let chosen = chosen.iter().map(|c| c.to_string()).collect::<Vec<_>>();
    let mut s = start_search(&start.to_string(), &chosen);
    loop {
        let current = match next_step(&mut s) {
            PathStep::Fetch(p) => p,
            PathStep::Exhausted => return false,
        };
        let relations = graph
            .iter()
            .filter(|r| r.person_a == current || r.person_b == current)
            .map(|r| rel(&r.person_a, &r.person_b, r.status, r.inferred, r.confidence_micros))
            .collect::<Vec<_>>();
        match visit(&mut s, &relations) {
            PathVisit::Found => return true,
            PathVisit::GaveUp => return false,
            PathVisit::Continue => {}
        }
    }
}

#[test]
fn trust_paths_need_confident_stated_relations() {
    assert!(relation_allows_trust_path(&rel("a", "b", RelationStatus::Confirmed, false, 500_000)));
    assert!(relation_allows_trust_path(&rel("a", "b", RelationStatus::Stated, false, 900_000)));
    assert!(!relation_allows_trust_path(&rel("a", "b", RelationStatus::Stated, true, 900_000)));
    assert!(!relation_allows_trust_path(&rel("a", "b", RelationStatus::Hypothesis, false, 900_000)));
    assert!(!relation_allows_trust_path(&rel("a", "b", RelationStatus::Confirmed, false, 499_999)));
    assert_eq!(other_relation_person(&rel("a", "b", RelationStatus::Confirmed, false, 1), &"b".to_string()).as_deref(), Some("a"));
    assert_eq!(other_relation_person(&rel("a", "b", RelationStatus::Confirmed, false, 1), &"c".to_string()), None);
}

#[test]
fn chosen_person_connected_social_path_is_found() {
    let graph = vec![
        rel("stranger", "friend", RelationStatus::Stated, false, 800_000),
        rel("friend", "person-chosen", RelationStatus::Confirmed, false, 900_000),
    ];
    assert!(search(&graph, "stranger", &["person-chosen"]));
}

#[test]
fn default_people_without_a_trusted_path_have_none() {
    let graph = vec![
        rel("stranger", "friend", RelationStatus::Stated, false, 800_000),
        rel("friend", "person-chosen", RelationStatus::Hypothesis, false, 900_000),
        rel("friend", "other", RelationStatus::Stated, true, 900_000),
    ];
    assert!(!search(&graph, "stranger", &["person-chosen"]));
    assert!(!search(&[], "stranger", &["person-chosen"]));
}

#[test]
fn searches_stop_at_the_node_bound() {
    let mut graph = Vec::new();
    for i in 0..200 {
        graph.push(rel("hub", &format!("p-{i}"), RelationStatus::Confirmed, false, 900_000));
    }
    graph.push(rel("p-199", "person-chosen", RelationStatus::Confirmed, false, 900_000));
    assert!(!search(&graph, "hub", &["person-chosen"]));
}

#[test]
fn trust_ceiling_follows_authority_chosen_people_then_the_path() {
    let chosen = vec!["chosen".to_string()];
    let p = "p".to_string();
    assert_eq!(
        relationship_trust_ceiling(Authority::Trusted, &p, &chosen, false, 100, 500_000),
        TrustCeiling::OfAuthority(Authority::Trusted)
    );
    assert_eq!(
        relationship_trust_ceiling(Authority::Default, &"chosen".to_string(), &chosen, false, 100, 500_000),
        TrustCeiling::OfAuthority(Authority::ChosenPerson)
    );
    assert_eq!(
        relationship_trust_ceiling(Authority::Default, &p, &chosen, true, 100, 500_000),
        TrustCeiling::OfAuthority(Authority::Default)
    );
}

#[test]
fn without_a_path_trust_stays_within_the_default_ceiling() {
    let chosen = vec!["chosen".to_string()];
    let p = "stranger".to_string();
    assert_eq!(relationship_trust_ceiling(Authority::Default, &p, &chosen, false, 300_000, 500_000), TrustCeiling::CurrentTrust(300_000));
    assert_eq!(relationship_trust_ceiling(Authority::Default, &p, &chosen, false, 900_000, 500_000), TrustCeiling::CurrentTrust(500_000));
    assert_eq!(relationship_trust_ceiling(Authority::Default, &p, &chosen, false, -5, 500_000), TrustCeiling::CurrentTrust(0));
}
