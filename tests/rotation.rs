use pokeme::catalog::{pick_variant, Catalog, CatalogError};
use pokeme::clock::{
    checkpoint_at, current_checkpoint, is_override_date, is_override_month_day, Checkpoint,
    RESET_HOUR, SECS_PER_DAY, SECS_PER_HOUR,
};
use pokeme::ledger::Ledger;
use pokeme::loader::{add_variant, construct_catalog, normalize_text, FlavorRecord, SpeciesRecord, ENGLISH};
use pokeme::request::{
    assigned_reply, image_url, padded_id, still_message, still_reply, Reply, Rotation, OVERRIDE_ID,
};

// 2020-01-01 00:00:00 UTC
const JAN1_2020: i64 = 1_577_836_800;
const HOUR: i64 = 3600;
const DAY: i64 = 86_400;

fn species(id: u32, lang: u32, name: &str, genus: Option<&str>) -> SpeciesRecord {
    SpeciesRecord {
        species_id: id,
        language_id: lang,
        name: name.to_string(),
        genus: genus.map(|g| g.to_string()),
    }
}

fn flavor(id: u32, lang: u32, text: &str) -> FlavorRecord {
    FlavorRecord { species_id: id, version_id: 1, language_id: lang, flavor_text: text.to_string() }
}

fn small_catalog() -> Catalog {
    let s = vec![
        species(1, ENGLISH, "Bulbasaur", Some("Seed")),
        species(1, 1, "Fushigidane", Some("Tane")),
        species(2, ENGLISH, "Ivysaur", Some("Seed")),
        species(3, ENGLISH, "Venusaur", None),
    ];
    let f = vec![
        flavor(1, ENGLISH, "A strange seed."),
        flavor(1, ENGLISH, "A strange seed."),
        flavor(1, ENGLISH, "It grows\nin the sun."),
        flavor(2, ENGLISH, "When the bulb\ron its back grows."),
        flavor(2, 1, "not english"),
        flavor(3, ENGLISH, "A large flower."),
    ];
    construct_catalog(&s, &f).unwrap()
}

#[test]
fn checkpoint_before_reset_hour_is_yesterday() {
    let now = JAN1_2020 + 13 * HOUR;
    assert_eq!(checkpoint_at(now), Checkpoint { secs: JAN1_2020 - DAY + 14 * HOUR });
}

#[test]
fn checkpoint_at_reset_hour_is_today() {
    assert_eq!(checkpoint_at(JAN1_2020 + 14 * HOUR).secs, JAN1_2020 + 14 * HOUR);
    assert_eq!(checkpoint_at(JAN1_2020 + 23 * HOUR + 59 * 60).secs, JAN1_2020 + 14 * HOUR);
}

#[test]
fn checkpoint_before_unix_epoch() {
    // 1969-12-31 13:00 UTC belongs to the window opened 1969-12-30 14:00.
    assert_eq!(checkpoint_at(-11 * HOUR).secs, -DAY - DAY + 14 * HOUR);
    // 1969-12-31 15:00 UTC.
    assert_eq!(checkpoint_at(-9 * HOUR).secs, -DAY + 14 * HOUR);
}

#[test]
fn checkpoint_same_window_and_next_day() {
    let t1 = JAN1_2020 + 15 * HOUR;
    let t2 = JAN1_2020 + DAY + 13 * HOUR;
    assert_eq!(checkpoint_at(t1), checkpoint_at(t2));
    let t3 = JAN1_2020 + DAY + 14 * HOUR;
    assert!(checkpoint_at(t3).secs > checkpoint_at(t1).secs);
    assert_eq!(checkpoint_at(t3).secs, checkpoint_at(t1).secs + DAY);
}

#[test]
fn current_checkpoint_is_on_a_boundary() {
    let c = current_checkpoint();
    assert_eq!(c.secs.rem_euclid(SECS_PER_DAY), RESET_HOUR * SECS_PER_HOUR);
    // Repeated computation without a boundary in between gives the same value.
    let again = current_checkpoint();
    assert!(again == c || again.secs == c.secs + SECS_PER_DAY);
}

#[test]
fn override_date_is_march_31() {
    assert!(is_override_month_day(3, 31));
    assert!(!is_override_month_day(3, 30));
    assert!(!is_override_month_day(4, 31));
    // 2021-03-31 12:00 UTC and one day earlier.
    assert!(is_override_date(1_617_192_000));
    assert!(!is_override_date(1_617_192_000 - DAY));
    // 2021-03-31 23:59:59 UTC and the next second.
    assert!(is_override_date(1_617_235_199));
    assert!(!is_override_date(1_617_235_200));
}

#[test]
fn loads_english_rows_in_order() {
    let c = small_catalog();
    assert_eq!(c.len(), 3);
    let e1 = c.get(1).unwrap();
    assert_eq!(e1.name, "Bulbasaur");
    assert_eq!(e1.category, "Seed");
    assert_eq!(e1.variants, vec!["A strange seed.".to_string(), "It grows in the sun.".to_string()]);
    let e2 = c.get(2).unwrap();
    assert_eq!(e2.variants, vec!["When the bulb on its back grows.".to_string()]);
    let e3 = c.get(3).unwrap();
    assert_eq!(e3.category, "");
    assert_eq!(e3.id, 3);
}

#[test]
fn get_fails_outside_one_to_n() {
    let c = small_catalog();
    assert_eq!(c.get(0).err(), Some(CatalogError::NotFound { id: 0 }));
    assert_eq!(c.get(4).err(), Some(CatalogError::NotFound { id: 4 }));
    for id in 1..=3 {
        let e = c.get(id).unwrap();
        assert_eq!(e.id, id);
        assert!(!e.variants.is_empty());
    }
}

#[test]
fn load_rejects_id_gap() {
    let s = vec![species(1, ENGLISH, "A", None), species(3, ENGLISH, "C", None)];
    let f = vec![flavor(1, ENGLISH, "a")];
    assert_eq!(construct_catalog(&s, &f).err(), Some(CatalogError::IdGap { expected: 2, found: 3 }));
}

#[test]
fn load_rejects_unknown_species() {
    let s = vec![species(1, ENGLISH, "A", None)];
    let f = vec![flavor(1, ENGLISH, "a"), flavor(2, ENGLISH, "b")];
    assert_eq!(construct_catalog(&s, &f).err(), Some(CatalogError::UnknownSpecies { id: 2 }));
    let f0 = vec![flavor(0, ENGLISH, "zero")];
    assert_eq!(construct_catalog(&s, &f0).err(), Some(CatalogError::UnknownSpecies { id: 0 }));
}

#[test]
fn load_rejects_empty() {
    let s = vec![species(1, 1, "A", None)];
    let f: Vec<FlavorRecord> = vec![flavor(1, 1, "a")];
    assert_eq!(construct_catalog(&s, &f).err(), Some(CatalogError::Empty));
}

#[test]
fn load_rejects_species_without_text() {
    let s = vec![species(1, ENGLISH, "A", None), species(2, ENGLISH, "B", None)];
    let f = vec![flavor(1, ENGLISH, "a"), flavor(2, 1, "b")];
    assert_eq!(construct_catalog(&s, &f).err(), Some(CatalogError::NoVariants { id: 2 }));
}

#[test]
fn normalize_turns_line_breaks_into_spaces() {
    assert_eq!(normalize_text(&"a\nb\rc\r\nd".to_string()), "a b c  d");
    assert_eq!(normalize_text(&"plain".to_string()), "plain");
}

#[test]
fn add_variant_skips_duplicates() {
    let mut v: Vec<String> = Vec::new();
    add_variant(&mut v, "x".to_string());
    add_variant(&mut v, "y".to_string());
    add_variant(&mut v, "x".to_string());
    assert_eq!(v, vec!["x".to_string(), "y".to_string()]);
}

#[test]
fn random_choices_come_from_the_catalog() {
    let c = small_catalog();
    for _ in 0..20 {
        let e = c.random();
        assert_eq!(c.get(e.id).unwrap().name, e.name);
        let v = pick_variant(e);
        assert!(e.variants.contains(v));
    }
}

#[test]
fn rotation_rejects_missing_override() {
    let c = small_catalog();
    assert_eq!(Rotation::new(c, 4).err(), Some(CatalogError::NotFound { id: 4 }));
    let c = small_catalog();
    assert_eq!(Rotation::new(c, OVERRIDE_ID).err(), Some(CatalogError::NotFound { id: OVERRIDE_ID }));
    assert!(Rotation::new(small_catalog(), 2).is_ok());
}

#[test]
fn image_url_pads_id_to_three_digits() {
    assert_eq!(padded_id(7), "007");
    assert_eq!(padded_id(25), "025");
    assert_eq!(padded_id(700), "700");
    assert_eq!(padded_id(1234), "1234");
    assert_eq!(image_url(7), "http://assets.pokemon.com/assets/cms2/img/pokedex/full/007.png");
}

#[test]
fn still_message_names_the_entry() {
    assert_eq!(still_message("Bulbasaur"), "You are still a Bulbasaur. Try again tomorrow.");
    assert_eq!(
        still_reply(5, "Ivysaur".to_string()),
        Reply::Still {
            user: 5,
            name: "Ivysaur".to_string(),
            text: "You are still a Ivysaur. Try again tomorrow.".to_string()
        }
    );
}

#[test]
fn assigned_reply_carries_entry_fields() {
    let c = small_catalog();
    let e = c.get(1).unwrap();
    assert_eq!(
        assigned_reply(9, e, 1),
        Reply::Assigned {
            user: 9,
            id: 1,
            name: "Bulbasaur".to_string(),
            category: "Seed".to_string(),
            variant: "It grows in the sun.".to_string(),
            image_url: "http://assets.pokemon.com/assets/cms2/img/pokedex/full/001.png".to_string(),
        }
    );
}

#[test]
fn same_window_keeps_entry_and_rollover_resamples() {
    let rot = Rotation::new(small_catalog(), 2).unwrap();
    let user_a = 42u64;
    let day1_morning = JAN1_2020 + 10 * HOUR;
    let mut ledger = Ledger::new(checkpoint_at(day1_morning));
    // Before the reset hour: a fresh assignment of entry X (position 0).
    assert_eq!(rot.decide(&mut ledger, user_a, day1_morning, false, 0), None);
    assert_eq!(ledger.assigned(user_a), Some("Bulbasaur".to_string()));
    let x = rot.candidate(false, 0);
    match assigned_reply(user_a, x, 0) {
        Reply::Assigned { name, variant, .. } => {
            assert_eq!(name, "Bulbasaur");
            assert!(x.variants.contains(&variant));
        }
        other => panic!("unexpected reply {:?}", other),
    }
    // One hour later, still before the reset hour: the same entry, short reply.
    let held = rot.decide(&mut ledger, user_a, day1_morning + HOUR, false, 2).unwrap();
    assert_eq!(held, "Bulbasaur");
    match still_reply(user_a, held) {
        Reply::Still { text, .. } => assert!(text.starts_with("You are still a Bulbasaur.")),
        other => panic!("unexpected reply {:?}", other),
    }
    // After the reset hour: a freshly drawn entry.
    let after = JAN1_2020 + 14 * HOUR + 5;
    assert_eq!(rot.decide(&mut ledger, user_a, after, false, 2), None);
    assert_eq!(ledger.assigned(user_a), Some("Venusaur".to_string()));
    assert_eq!(ledger.epoch(), checkpoint_at(after));
    assert_eq!(ledger.len(), 1);
}

#[test]
fn simultaneous_first_requests_assign_once() {
    let rot = Rotation::new(small_catalog(), 2).unwrap();
    let now = JAN1_2020 + 16 * HOUR;
    let mut ledger = Ledger::new(checkpoint_at(now));
    let first = rot.decide(&mut ledger, 7, now, false, 0);
    let second = rot.decide(&mut ledger, 7, now, false, 1);
    assert_eq!(first, None);
    assert_eq!(second, Some("Bulbasaur".to_string()));
    assert_eq!(ledger.len(), 1);
}

#[test]
fn other_users_do_not_disturb_an_assignment() {
    let rot = Rotation::new(small_catalog(), 2).unwrap();
    let now = JAN1_2020 + 16 * HOUR;
    let mut ledger = Ledger::new(checkpoint_at(now));
    assert_eq!(rot.decide(&mut ledger, 1, now, false, 2), None);
    assert_eq!(rot.decide(&mut ledger, 2, now + HOUR, false, 0), None);
    assert_eq!(rot.decide(&mut ledger, 1, now + 2 * HOUR, false, 0), Some("Venusaur".to_string()));
    assert_eq!(ledger.len(), 2);
}

#[test]
fn older_checkpoint_does_not_clear() {
    let rot = Rotation::new(small_catalog(), 2).unwrap();
    let now = JAN1_2020 + 16 * HOUR;
    let mut ledger = Ledger::new(checkpoint_at(now));
    assert_eq!(rot.decide(&mut ledger, 1, now, false, 0), None);
    assert_eq!(rot.decide(&mut ledger, 2, now - DAY, false, 1), None);
    assert_eq!(ledger.len(), 2);
    assert_eq!(ledger.epoch(), checkpoint_at(now));
}

#[test]
fn override_date_gives_override_entry_for_any_draw() {
    let rot = Rotation::new(small_catalog(), 2).unwrap();
    let now = 1_617_192_000; // 2021-03-31 12:00 UTC
    assert!(is_override_date(now));
    for roll in 0..3usize {
        let mut ledger = Ledger::new(checkpoint_at(now));
        assert_eq!(rot.decide(&mut ledger, 3, now, true, roll), None);
        assert_eq!(ledger.assigned(3), Some("Ivysaur".to_string()));
        assert_eq!(rot.candidate(true, roll).id, 2);
    }
}

#[test]
fn handle_request_assigns_then_repeats() {
    let rot = Rotation::new(small_catalog(), 2).unwrap();
    let mut ledger = Ledger::new(current_checkpoint());
    let first = rot.handle_request(&mut ledger, 11);
    let name = match first {
        Reply::Assigned { user, id, name, variant, image_url, .. } => {
            assert_eq!(user, 11);
            let e = rot.catalog.get(id).unwrap();
            assert_eq!(e.name, name);
            assert!(e.variants.contains(&variant));
            assert!(image_url.ends_with(".png"));
            name
        }
        other => panic!("unexpected reply {:?}", other),
    };
    match rot.handle_request(&mut ledger, 11) {
        Reply::Still { user, name: held, text } => {
            assert_eq!(user, 11);
            assert_eq!(held, name);
            assert_eq!(text, format!("You are still a {}. Try again tomorrow.", name));
        }
        // The window may have rolled over between the two calls.
        Reply::Assigned { .. } => {}
    }
}
