use relay_bot::error::{RelayError, Service};
use relay_bot::report::{
    annotation_prompt, collate, read_profile_answer, render, CharacterSnapshot, LevelEntry,
    LevelReport,
};

fn snap(name: &str, level: u32) -> CharacterSnapshot {
    CharacterSnapshot {
        name: name.to_string(),
        level,
        race: "Orc".to_string(),
        class: "Warrior".to_string(),
    }
}

fn names(v: &[&str]) -> Vec<String> {
    v.iter().map(|s| s.to_string()).collect()
}

#[test]
fn entries_sorted_by_level_descending() {
    let n = names(&["a", "b", "c"]);
    let outcomes = vec![Ok(snap("A", 10)), Ok(snap("B", 40)), Ok(snap("C", 25))];
    let r = collate(&n, &outcomes);
    let levels: Vec<u32> = r.entries.iter().map(|e| e.level).collect();
    assert_eq!(levels, vec![40, 25, 10]);
    assert_eq!(r.entries[0].name, "B");
    assert_eq!(r.entries[0].label, "Orc Warrior");
    assert!(r.errors.is_empty());
}

#[test]
fn equal_levels_keep_input_order() {
    let n = names(&["a", "b", "c", "d"]);
    let outcomes = vec![Ok(snap("A", 20)), Ok(snap("B", 30)), Ok(snap("C", 20)), Ok(snap("D", 30))];
    let r = collate(&n, &outcomes);
    let order: Vec<&str> = r.entries.iter().map(|e| e.name.as_str()).collect();
    assert_eq!(order, vec!["B", "D", "A", "C"]);
}

#[test]
fn one_line_per_name_with_failures() {
    let n = names(&["Pyuul", "Ghost", "Zara", "Miko"]);
    let outcomes = vec![
        Ok(snap("Pyuul", 12)),
        Err(RelayError::NotFound("Ghost".to_string())),
        Err(RelayError::Status(Service::Profile, 500)),
        Ok(snap("Miko", 60)),
    ];
    let r = collate(&n, &outcomes);
    assert_eq!(r.entries.len() + r.errors.len(), 4);
    assert_eq!(r.entries.len(), 2);
    assert_eq!(
        r.errors,
        vec![
            "Ghost: Character **Ghost** not found on Nightslayer.".to_string(),
            "Zara: Blizzard API returned status 500".to_string(),
        ]
    );
}

#[test]
fn nothing_tracked_report() {
    let r = collate(&Vec::new(), &Vec::new());
    assert_eq!(r.entries.len(), 0);
    assert_eq!(r.errors.len(), 0);
    assert_eq!(
        render(&r, &Vec::new()),
        "No characters tracked. Use `!addcharacter <name>` to add one."
    );
}

#[test]
fn render_lines_with_and_without_remarks() {
    let r = LevelReport {
        entries: vec![
            LevelEntry { name: "Miko".to_string(), level: 60, label: "Orc Warrior".to_string() },
            LevelEntry { name: "Zara".to_string(), level: 5, label: "Gnome Mage".to_string() },
        ],
        errors: vec!["Ghost: gone".to_string()],
    };
    let text = render(&r, &vec![Some("  tiny brain \n".to_string()), None]);
    assert_eq!(
        text,
        "**Level Check \u{2014} Nightslayer**\n  Miko \u{2014} Level 60 Orc Warrior \u{2014} *tiny brain*\n  Zara \u{2014} Level 5 Gnome Mage\n  \u{26a0} Ghost: gone\n"
    );
}

#[test]
fn remark_request_names_entry() {
    let e = LevelEntry { name: "Zara".to_string(), level: 7, label: "Gnome Mage".to_string() };
    assert_eq!(
        annotation_prompt(&e),
        "Give a 1-5 word insult for a level 7 Gnome Mage named Zara. Reply with ONLY the insult, nothing else."
    );
}

#[test]
fn profile_answers_are_read() {
    match read_profile_answer("Ghost", 404, Err("no body".to_string())) {
        Err(RelayError::NotFound(n)) => assert_eq!(n, "Ghost"),
        other => panic!("unexpected {:?}", other.err()),
    }
    assert!(matches!(
        read_profile_answer("x", 503, Ok(snap("x", 1))),
        Err(RelayError::Status(Service::Profile, 503))
    ));
    assert!(matches!(
        read_profile_answer("x", 200, Err("bad".to_string())),
        Err(RelayError::Malformed(Service::Profile, _))
    ));
    let ok = read_profile_answer("x", 200, Ok(snap("X", 9))).ok().unwrap();
    assert_eq!(ok.level, 9);
}
