use talent_search::Talent;
use talent_search::params::Params;
use talent_search::params::Value;
use talent_search::query::eval_exec;
use talent_search::results::Hit;
use talent_search::results::process_hits;
use talent_search::store::TalentIndex;
use talent_search::store::search_plan;
use talent_search::ranking::RankField;
use talent_search::ranking::SortOrder;

const NOW: &str = "2016-01-01T12:00:00+00:00";
const INDEX: &str = "sample_talents";

fn year(y: &str) -> String {
    format!("{}-01-01T12:00:00+00:00", y)
}

fn fixture() -> Vec<Talent> {
    vec![
        Talent {
            id: 1,
            accepted: true,
            work_roles: vec![],
            work_experience: "1..2".to_string(),
            work_locations: vec!["Berlin".to_string()],
            work_authorization: "yes".to_string(),
            skills: vec!["Rust".to_string(), "HTML5".to_string(), "HTML".to_string()],
            summary: "I'm a Rust developer and sometimes I do also HTML.".to_string(),
            company_ids: vec![],
            batch_starts_at: year("2006"),
            batch_ends_at: year("2020"),
            added_to_batch_at: year("2006"),
            weight: -5,
            blocked_companies: vec![],
        },
        Talent {
            id: 2,
            accepted: true,
            work_roles: vec![],
            work_experience: "8+".to_string(),
            work_locations: vec!["Rome".to_string(), "Berlin".to_string()],
            work_authorization: "yes".to_string(),
            skills: vec!["Rust".to_string(), "HTML5".to_string(), "Java".to_string()],
            summary: "I'm a java dev with some tricks up my sleeves".to_string(),
            company_ids: vec![],
            batch_starts_at: year("2006"),
            batch_ends_at: year("2020"),
            added_to_batch_at: year("2006"),
            weight: 6,
            blocked_companies: vec![],
        },
        Talent {
            id: 3,
            accepted: false,
            work_roles: vec![],
            work_experience: "1..2".to_string(),
            work_locations: vec!["Berlin".to_string()],
            work_authorization: "yes".to_string(),
            skills: vec![],
            summary: "".to_string(),
            company_ids: vec![],
            batch_starts_at: year("2007"),
            batch_ends_at: year("2020"),
            added_to_batch_at: year("2011"),
            weight: 6,
            blocked_companies: vec![],
        },
        Talent {
            id: 4,
            accepted: true,
            work_roles: vec!["Fullstack".to_string(), "DevOps".to_string()],
            work_experience: "1..2".to_string(),
            work_locations: vec!["Berlin".to_string()],
            work_authorization: "yes".to_string(),
            skills: vec!["ClojureScript".to_string(), "C++".to_string()],
            summary: "ClojureScript right now, previously C++".to_string(),
            company_ids: vec![6],
            batch_starts_at: year("2008"),
            batch_ends_at: year("2020"),
            added_to_batch_at: year("2011"),
            weight: 0,
            blocked_companies: vec![],
        },
        Talent {
            id: 5,
            accepted: true,
            work_roles: vec!["Fullstack".to_string(), "DevOps".to_string()],
            work_experience: "1..2".to_string(),
            work_locations: vec!["Berlin".to_string()],
            work_authorization: "yes".to_string(),
            skills: vec!["JavaScript".to_string(), "C++".to_string()],
            summary: "Frontend dev. HTML, JavaScript and C#.".to_string(),
            company_ids: vec![6],
            batch_starts_at: year("2008"),
            batch_ends_at: year("2020"),
            added_to_batch_at: year("2011"),
            weight: 0,
            blocked_companies: vec![],
        },
    ]
}

fn populated_index() -> TalentIndex {
    let mut ix = TalentIndex::new(INDEX.to_string());
    ix.reset_index();
    for t in fixture() {
        ix.index(t);
    }
    ix
}

fn str_param(key: &str, value: &str) -> Params {
    let mut p = Params::new();
    p.assign(key, Value::Str(value.to_string()));
    p
}

#[test]
fn test_search() {
    let ix = populated_index();

    // no parameters are given
    let results = ix.search_at(INDEX, &Params::new(), NOW);
    assert_eq!(vec![4, 5, 2, 1], results);

    // a non existing index is given
    let p = str_param("index", "lololol");
    assert!(ix.search_at(INDEX, &p, NOW).is_empty());

    // a date that doesn't match given indexes is given
    let p = str_param("epoch", &year("2040"));
    assert!(ix.search_at(INDEX, &p, NOW).is_empty());

    // searching for work roles
    let p = str_param("work_roles[]", "Fullstack");
    assert_eq!(vec![4, 5], ix.search_at(INDEX, &p, NOW));

    // searching for work experience
    let p = str_param("work_experience[]", "8+");
    assert_eq!(vec![2], ix.search_at(INDEX, &p, NOW));

    // searching for work locations
    let p = str_param("work_locations[]", "Rome");
    assert_eq!(vec![2], ix.search_at(INDEX, &p, NOW));

    // searching for a single, differently cased and incomplete keyword
    let p = str_param("keywords", "html");
    assert_eq!(vec![1, 2, 5], ix.search_at(INDEX, &p, NOW));

    // searching for keywords and filters
    let mut p = str_param("keywords", "Rust, HTML5 and HTML");
    p.assign("work_locations[]", Value::Str("Rome".to_string()));
    assert_eq!(vec![2], ix.search_at(INDEX, &p, NOW));

    // searching for a non-matching keyword
    let p = str_param("keywords", "Criogenesi");
    assert!(ix.search_at(INDEX, &p, NOW).is_empty());

    // searching for an empty keyword
    let p = str_param("keywords", "");
    assert_eq!(vec![4, 5, 2, 1], ix.search_at(INDEX, &p, NOW));

    // JavaScript
    let p = str_param("keywords", "javascript");
    assert_eq!(vec![5], ix.search_at(INDEX, &p, NOW));

    // JavaScript, ClojureScript
    let p = str_param("keywords", "script");
    assert_eq!(vec![4, 5], ix.search_at(INDEX, &p, NOW));

    // Searching for summary
    let p = str_param("keywords", "right now");
    assert_eq!(vec![4], ix.search_at(INDEX, &p, NOW));

    let p = str_param("keywords", "C++");
    assert_eq!(vec![4, 5], ix.search_at(INDEX, &p, NOW));

    let p = str_param("keywords", "C#");
    assert_eq!(vec![5], ix.search_at(INDEX, &p, NOW));

    // filtering for given company_id
    let p = str_param("company_id", "6");
    assert_eq!(vec![2, 1], ix.search_at(INDEX, &p, NOW));

    // filtering for given bookmarks (ids)
    let mut p = Params::new();
    p.assign("ids[]", Value::UInt(2));
    p.assign("ids[]", Value::UInt(4));
    assert_eq!(vec![4, 2], ix.search_at(INDEX, &p, NOW));
}

#[test]
fn presented_talents_bypass_visibility() {
    let ix = populated_index();
    // entity 3 is unaccepted, so it only appears when presented
    let mut p = Params::new();
    p.assign("presented_talents[]", Value::UInt(3));
    assert_eq!(vec![4, 5, 3, 2, 1], ix.search_at(INDEX, &p, NOW));
    assert_eq!(vec![4, 5, 2, 1], ix.search_at(INDEX, &Params::new(), NOW));
}

#[test]
fn visibility_filters_respect_override_list() {
    let docs = fixture();
    let unaccepted = &docs[2];
    let nodes = Talent::visibility_filters(NOW, &vec![]);
    assert!(!eval_exec(&nodes[0], unaccepted));
    let nodes = Talent::visibility_filters(NOW, &vec![3]);
    assert!(eval_exec(&nodes[0], unaccepted));
    // outside the batch window, only the override admits
    let accepted = &docs[0];
    let nodes = Talent::visibility_filters(&year("2040"), &vec![]);
    assert!(!eval_exec(&nodes[0], accepted));
    let nodes = Talent::visibility_filters(&year("2040"), &vec![1]);
    assert!(eval_exec(&nodes[0], accepted));
}

#[test]
fn two_roles_select_the_union() {
    let ix = populated_index();
    let mut p = Params::new();
    p.assign("work_roles[]", Value::Str("DevOps".to_string()));
    p.assign("work_roles[]", Value::Str("Missing".to_string()));
    assert_eq!(vec![4, 5], ix.search_at(INDEX, &p, NOW));
    // adding a second category narrows to the intersection
    let mut p = Params::new();
    p.assign("work_roles[]", Value::Str("DevOps".to_string()));
    p.assign("work_locations[]", Value::Str("Rome".to_string()));
    assert!(ix.search_at(INDEX, &p, NOW).is_empty());
}

#[test]
fn blocked_company_excludes_too() {
    let mut ix = TalentIndex::new(INDEX.to_string());
    ix.reset_index();
    let mut docs = fixture();
    docs[0].blocked_companies = vec![6];
    for t in docs {
        ix.index(t);
    }
    let p = str_param("company_id", "6");
    // 4 and 5 are owned by company 6; 1 blocks it
    assert_eq!(vec![2], ix.search_at(INDEX, &p, NOW));
}

#[test]
fn full_text_search_requires_nonempty_keywords() {
    assert!(Talent::full_text_search(&Params::new()).is_none());
    assert!(Talent::full_text_search(&str_param("keywords", "")).is_none());
    assert!(Talent::full_text_search(&str_param("keywords", "html")).is_some());
}

#[test]
fn relevance_floor_drops_low_scored_hits() {
    let hits = vec![
        Hit { id: 1, score_millis: Some(901) },
        Hit { id: 2, score_millis: Some(900) },
        Hit { id: 3, score_millis: None },
        Hit { id: 3, score_millis: None },
        Hit { id: 4, score_millis: Some(899) },
    ];
    assert_eq!(vec![1, 3], process_hits(&hits));
}

#[test]
fn reindexing_is_idempotent() {
    let mut ix = populated_index();
    let p = str_param("keywords", "html");
    let first = ix.search_at(INDEX, &p, NOW);
    let no_params_first = ix.search_at(INDEX, &Params::new(), NOW);
    ix.reset_index();
    for t in fixture() {
        ix.index(t);
    }
    assert_eq!(first, ix.search_at(INDEX, &p, NOW));
    assert_eq!(no_params_first, ix.search_at(INDEX, &Params::new(), NOW));
}

#[test]
fn indexing_overwrites_by_identifier() {
    let mut ix = populated_index();
    let mut changed = fixture().swap_remove(0);
    changed.work_locations = vec!["Rome".to_string()];
    ix.index(changed);
    let p = str_param("work_locations[]", "Rome");
    assert_eq!(vec![2, 1], ix.search_at(INDEX, &p, NOW));
    // still four visible entities, not five
    assert_eq!(vec![4, 5, 2, 1], ix.search_at(INDEX, &Params::new(), NOW));
}

#[test]
fn reset_installs_the_schema() {
    let mut ix = TalentIndex::new(INDEX.to_string());
    assert!(ix.schema.is_none());
    ix.reset_index();
    let schema = ix.schema.as_ref().expect("schema installed");
    assert_eq!(schema.fields.len(), 14);
    assert_eq!(schema.settings.number_of_shards, 1);
    assert_eq!(schema.settings.filters.len(), 2);
    assert_eq!(schema.settings.analyzers.len(), 2);
    assert_eq!(schema.settings.analyzers[0].filters.len(), 3);
    assert_eq!(schema.settings.analyzers[1].filters.len(), 2);
    assert!(ix.docs.is_empty());
}

#[test]
fn sorting_criteria_is_the_descending_chain() {
    let keys = Talent::sorting_criteria();
    assert_eq!(keys.len(), 3);
    assert_eq!(keys[0].field, RankField::BatchStartsAt);
    assert_eq!(keys[1].field, RankField::Weight);
    assert_eq!(keys[2].field, RankField::AddedToBatchAt);
    assert!(keys.iter().all(|k| k.order == SortOrder::Desc));
}

#[test]
fn search_plan_picks_sort_only_without_keywords() {
    let plan = search_plan(&Params::new(), INDEX, NOW);
    assert!(plan.sort.is_some());
    assert_eq!(plan.size, 1000);
    assert_eq!(plan.target, INDEX);
    let plan = search_plan(&str_param("keywords", "html"), INDEX, NOW);
    assert!(plan.sort.is_none());
    let plan = search_plan(&str_param("index", "other"), INDEX, NOW);
    assert_eq!(plan.target, "other");
}

#[test]
fn current_time_search_respects_batch_windows() {
    // every fixture batch ended in 2020, so a search at the real
    // current time sees nothing ...
    let ix = populated_index();
    assert!(ix.search(INDEX, &Params::new()).is_empty());
    // ... unless an entity's window is still open
    let mut ix = populated_index();
    let mut open_ended = fixture().swap_remove(1);
    open_ended.batch_ends_at = year("9999");
    ix.index(open_ended);
    assert_eq!(vec![2], ix.search(INDEX, &Params::new()));
}

#[test]
fn window_bounds_are_inclusive() {
    let ix = populated_index();
    // an epoch equal to the latest batch start admits that batch
    let p = str_param("epoch", &year("2008"));
    assert_eq!(vec![4, 5, 2, 1], ix.search_at(INDEX, &p, NOW));
}

#[test]
fn oversized_identifiers_are_ignored() {
    let ix = populated_index();
    // a company identifier that fits no entity id leaves everything in
    let p = str_param("company_id", "99999999999");
    assert_eq!(vec![4, 5, 2, 1], ix.search_at(INDEX, &p, NOW));
    let p = str_param("company_id", "not-a-number");
    assert_eq!(vec![4, 5, 2, 1], ix.search_at(INDEX, &p, NOW));
    let mut p = Params::new();
    p.assign("ids[]", Value::UInt(u64::MAX));
    assert_eq!(vec![4, 5, 2, 1], ix.search_at(INDEX, &p, NOW));
}
