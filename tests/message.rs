use i18n_leptos::langid::LangId;
use i18n_leptos::message::{AttrLookup, Localizable, Message, ReactiveLocalizedDisplay, ReactiveMessage};
use i18n_leptos::query::Query;

fn id(s: &str) -> LangId {
    LangId::parse(s).unwrap()
}

fn resolved(r: AttrLookup) -> Option<String> {
    match r {
        AttrLookup::Resolved(s) => Some(s),
        AttrLookup::NeedsQuery => None,
    }
}

/// A stand-in localizer.
fn greeting(lang: &LangId) -> Option<Message> {
    let value = match lang.as_str() {
        "en" => "Hello",
        "fr" => "Bonjour",
        _ => return None,
    };
    Some(Message::new("greeting".to_string(), value.to_string(), vec!["title".to_string()]))
}

#[test]
fn message_follows_the_language() {
    let l1 = id("en");
    let l2 = id("fr");
    let mut m = ReactiveMessage::from_query("greeting");
    assert!(m.needs_refresh(&l1));
    m.refresh(l1.clone(), greeting(&l1));
    assert!(!m.needs_refresh(&l1));
    assert_eq!(m.value(), "Hello");
    assert!(m.needs_refresh(&l2));
    let notify = m.refresh(l2.clone(), greeting(&l2));
    assert!(notify);
    assert_eq!(m.value(), "Bonjour");
    assert_eq!(m.id_untracked(), "greeting");
}

#[test]
fn untracked_reads_do_not_subscribe() {
    let l1 = id("en");
    let mut m = ReactiveMessage::from_query("greeting");
    assert_eq!(m.value_untracked(), "greeting");
    assert!(!m.refresh(l1.clone(), greeting(&l1)));
    assert_eq!(m.id(), "greeting");
    assert!(m.refresh(id("fr"), greeting(&id("fr"))));
}

#[test]
fn missing_attribute_reads_as_its_name() {
    let l1 = id("en");
    let mut m = ReactiveMessage::from_query("greeting");
    m.refresh(l1.clone(), greeting(&l1));
    assert_eq!(resolved(m.attr("foo", &vec![])), Some("foo".to_string()));
    assert_eq!(resolved(m.attr_untracked("foo", &vec![])), Some("foo".to_string()));
}

#[test]
fn failed_query_gives_placeholder() {
    let mut m = ReactiveMessage::from_query("farewell");
    m.refresh(id("de"), None);
    assert_eq!(m.id(), "farewell");
    assert_eq!(m.value(), "farewell");
    assert_eq!(resolved(m.attr("title", &vec![])), Some("title".to_string()));
}

#[test]
fn attribute_is_resolved_once_per_generation() {
    let l1 = id("en");
    let args_a = vec![("name".to_string(), "Ann".to_string())];
    let args_b = vec![("name".to_string(), "Bob".to_string())];
    let mut m = ReactiveMessage::from_query("greeting");
    m.refresh(l1.clone(), greeting(&l1));
    let mut queries = 0;
    for _ in 0..3 {
        if resolved(m.attr("title", &args_a)).is_none() {
            queries += 1;
            assert_eq!(m.record_attr("title", &args_a, Some("Hi Ann".to_string())), "Hi Ann");
        }
    }
    assert_eq!(queries, 1);
    assert_eq!(resolved(m.attr("title", &args_a)), Some("Hi Ann".to_string()));
    assert!(resolved(m.attr("title", &args_b)).is_none());
    m.refresh(id("fr"), greeting(&id("fr")));
    assert!(resolved(m.attr("title", &args_a)).is_none());
}

#[test]
fn failed_attribute_reads_as_its_name_and_is_not_memoized() {
    let l1 = id("en");
    let mut m = ReactiveMessage::from_query("greeting");
    m.refresh(l1.clone(), greeting(&l1));
    assert_eq!(m.record_attr("title", &vec![], None), "title");
    assert!(resolved(m.attr_untracked("title", &vec![])).is_none());
}

#[test]
fn precomputed_message_is_never_stale() {
    let msg = Message::new("item".to_string(), "An item".to_string(), vec![]);
    let mut m = ReactiveMessage::from_precomputed(msg);
    assert!(!m.needs_refresh(&id("en")));
    assert!(!m.refresh(id("fr"), None));
    assert_eq!(m.value_untracked(), "An item");
    assert_eq!(m.id(), "item");
}

#[test]
fn repeated_attribute_names_count_once() {
    let mut msg = Message::new("m".to_string(), "v".to_string(), vec!["a".to_string(), "a".to_string(), "b".to_string()]);
    assert_eq!(msg.record_attr("a", &vec![], Some("A".to_string())), "A");
    assert_eq!(resolved(msg.lookup_attr("a", &vec![])), Some("A".to_string()));
    assert!(resolved(msg.lookup_attr("b", &vec![])).is_none());
    assert_eq!(msg.id(), "m");
    assert_eq!(msg.value(), "v");
}

struct Item(u32);

impl Localizable for Item {
    fn localize(&self, language: &LangId) -> Message {
        Message::new(format!("item-{}", self.0), format!("{} ({})", self.0, language.as_str()), vec!["label".to_string()])
    }

    fn localize_attr(&self, language: &LangId, attr: &str, _args: &Vec<(String, String)>) -> Option<String> {
        (attr == "label").then(|| format!("label {} ({})", self.0, language.as_str()))
    }
}

#[test]
fn localizable_objects_become_precomputed_handles() {
    let m = Item(7).reactive_localize(&id("en-gb"));
    assert_eq!(m.value_untracked(), "7 (en-GB)");
    assert_eq!(m.id_untracked(), "item-7");
    assert!(!m.needs_refresh(&id("de")));
    assert!(resolved(m.attr_untracked("label", &vec![])).is_none());
    let label = Item(7).localize_attr(&id("en-gb"), "label", &vec![]);
    assert_eq!(label.as_deref(), Some("label 7 (en-GB)"));
}

#[test]
fn refresh_drops_what_a_handed_in_message_memoized() {
    let mut handed = Message::new("greeting".to_string(), "Hallo".to_string(), vec!["title".to_string()]);
    handed.record_attr("title", &vec![], Some("stale".to_string()));
    assert_eq!(resolved(handed.lookup_attr("title", &vec![])), Some("stale".to_string()));
    let mut m = ReactiveMessage::from_query("greeting");
    m.refresh(id("de"), Some(handed));
    assert_eq!(m.value_untracked(), "Hallo");
    assert!(resolved(m.attr_untracked("title", &vec![])).is_none());
}

#[test]
fn query_groups_attribute_arguments() {
    let q = Query::new("greeting")
        .with_arg("name", "Ann".to_string())
        .with_attr_arg("title", "n", "1".to_string())
        .with_attr_arg("alt", "m", "2".to_string())
        .with_attr_arg("title", "k", "3".to_string());
    assert_eq!(q.id(), "greeting");
    assert_eq!(q.args(), &vec![("name".to_string(), "Ann".to_string())]);
    let groups = q.attr_args();
    assert_eq!(groups.len(), 2);
    assert_eq!(groups[0].0, "title");
    assert_eq!(groups[0].1, vec![("n".to_string(), "1".to_string()), ("k".to_string(), "3".to_string())]);
    assert_eq!(groups[1].0, "alt");
    assert_eq!(groups[1].1, vec![("m".to_string(), "2".to_string())]);
}
