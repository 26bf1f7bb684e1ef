use notegraph::note::{Matter, Note, NoteId};

fn plain_note(name: &str) -> Note {
    Note {
        id: NoteId { timestamp: "20210903212343".to_string(), slug: name.to_string() },
        path: format!("/notes/20210903212343-{}", name),
        matter: Matter { name: name.to_string(), tags: None, links: None },
        content: "Body text.".to_string(),
    }
}

fn count(v: &Option<Vec<String>>, item: &str) -> usize {
    match v {
        Some(v) => v.iter().filter(|s| s.as_str() == item).count(),
        None => 0,
    }
}

#[test]
fn tag_present_after_add_and_absent_after_remove() {
    let mut n = plain_note("a");
    let t = "todo".to_string();
    assert!(!n.has_tag(&t));
    let w = n.add_tag(&t);
    assert!(w.is_some());
    assert!(n.has_tag(&t));
    let w = n.remove_tag(&t);
    assert!(w.is_some());
    assert!(!n.has_tag(&t));
    // Regardless of prior state: adding to a note that already has the tag
    // and removing from one that never had it keep the outcome.
    let mut m = plain_note("b");
    m.add_tag(&t);
    m.add_tag(&t);
    assert!(m.has_tag(&t));
    let mut k = plain_note("c");
    k.remove_tag(&t);
    assert!(!k.has_tag(&t));
}

#[test]
fn redundant_add_performs_no_write() {
    let mut n = plain_note("a");
    let t = "todo".to_string();
    assert!(n.add_tag(&t).is_some());
    // The tag is already present: success, and no file write is owed.
    assert!(n.add_tag(&t).is_none());
    let l = "b".to_string();
    assert!(n.add_link(&l).is_some());
    assert!(n.add_link(&l).is_none());
    // Removing something absent is a successful no-op too.
    assert!(n.remove_tag(&"other".to_string()).is_none());
    assert!(n.remove_link(&"other".to_string()).is_none());
}

#[test]
fn double_add_link_keeps_single_entry() {
    let mut a = plain_note("A");
    let b = "B".to_string();
    assert!(a.add_link(&b).is_some());
    assert!(a.add_link(&b).is_none());
    assert_eq!(count(&a.matter.links, "B"), 1);
}

#[test]
fn header_layout_is_exact() {
    let m = Matter {
        name: "n".to_string(),
        tags: Some(vec!["a".to_string(), "b".to_string()]),
        links: Some(vec!["c".to_string()]),
    };
    assert_eq!(m.build(), "---\nname: n\ntags:\n- a\n- b\nlinks:\n- c\n---\n");
    let bare = Matter { name: "n".to_string(), tags: None, links: None };
    assert_eq!(bare.build(), "---\nname: n\n---\n");
}

#[test]
fn rewrite_keeps_body_and_rebuilds_header() {
    let mut a = plain_note("A");
    let w = a.add_link(&"B".to_string()).expect("a write is owed");
    assert_eq!(w.path, a.path);
    assert_eq!(w.header, "---\nname: A\nlinks:\n- B\n---\n");
    assert_eq!(w.body, "Body text.");
}

#[test]
fn removal_keeps_survivor_order() {
    let mut n = plain_note("a");
    for t in ["x", "y", "z"] {
        n.add_tag(&t.to_string());
    }
    n.remove_tag(&"y".to_string());
    assert_eq!(n.matter.tags, Some(vec!["x".to_string(), "z".to_string()]));
}

#[test]
fn parse_header_reads_back_built_layout() {
    let m = Matter {
        name: "my note".to_string(),
        tags: Some(vec!["a".to_string(), "b".to_string()]),
        links: Some(vec!["c".to_string()]),
    };
    // The inner block as the front matter splitter hands it over: the
    // delimiters stripped and the block trimmed.
    let p = Matter::from_text("name: my note\ntags:\n- a\n- b\nlinks:\n- c");
    assert_eq!(p.name, m.name);
    assert_eq!(p.tags, m.tags);
    assert_eq!(p.links, m.links);
}

#[test]
fn parse_header_ignores_unknown_lines() {
    let p = Matter::from_text("title: x\nname: n\nstray\n- loose item");
    assert_eq!(p.name, "n");
    assert_eq!(p.tags, None);
    assert_eq!(p.links, None);
}

#[test]
fn note_id_parse_splits_timestamp_and_slug() {
    let id = NoteId::parse("20210903212343-my-note").expect("well-formed");
    assert_eq!(id.timestamp, "20210903212343");
    assert_eq!(id.slug, "my-note");
    assert!(NoteId::parse("no-leading-digits").is_none());
    assert!(NoteId::parse("12345").is_none());
    assert!(NoteId::parse("12345-").is_none());
    assert!(NoteId::parse("-slug").is_none());
}

#[test]
fn note_new_splits_matter_from_body() {
    let text = "---\nname: A\ntags:\n- t1\n---\nBody text.".to_string();
    let n = Note::new("/notes/20210101-a".to_string(), "20210101-a", &text)
        .expect("well-formed note file");
    assert_eq!(n.id.timestamp, "20210101");
    assert_eq!(n.id.slug, "a");
    assert_eq!(n.path, "/notes/20210101-a");
    assert_eq!(n.matter.name, "A");
    assert_eq!(n.matter.tags, Some(vec!["t1".to_string()]));
    assert_eq!(n.matter.links, None);
    assert_eq!(n.content, "Body text.");
    assert!(n.has_tag(&"t1".to_string()));
}

#[test]
fn note_new_rejects_missing_front_matter() {
    let text = "just a body".to_string();
    assert!(Note::new("/p".to_string(), "20210101-a", &text).is_none());
    let text = "---\nname: A\n---\nbody".to_string();
    assert!(Note::new("/p".to_string(), "badname", &text).is_none());
}
