use tfa_protector_bot::date::Date;
use tfa_protector_bot::expiry::{Expiry, Timestamp};
use tfa_protector_bot::protection::{
    expiries_param, parse_entries, plan_is_wf, protections_param, reconcile, DesiredProtection,
    ProtectionEntry, RawProtection,
};

fn entry(
    kind: &str,
    level: &str,
    expiry: Expiry,
    cascading: bool,
    source: Option<&str>,
) -> ProtectionEntry {
    ProtectionEntry {
        kind: kind.to_string(),
        level: level.to_string(),
        expiry,
        cascading,
        source: source.map(|s| s.to_string()),
    }
}

fn at(year: u32, month: u32, day: u32, hour: u32, minute: u32, second: u32) -> Expiry {
    Expiry::At(Timestamp {
        date: Date { year, month, day },
        hour,
        minute,
        second,
    })
}

fn raw(kind: &str, level: &str, expiry: &str, cascading: bool, source: Option<&str>) -> RawProtection {
    RawProtection {
        kind: kind.to_string(),
        level: level.to_string(),
        expiry: expiry.to_string(),
        cascading,
        source: source.map(|s| s.to_string()),
    }
}

#[test]
fn idempotent_when_move_protected_forever() {
    // An infinite sysop move protection satisfies any desired expiry.
    let entries = vec![entry("move", "sysop", Expiry::Infinity, false, None)];
    let desired = DesiredProtection {
        expiry: Date { year: 2024, month: 6, day: 2 },
        needs_edit: false,
    };
    assert!(reconcile(&entries, &desired).is_none());
}

#[test]
fn idempotent_when_both_kinds_protected() {
    let entries = vec![
        entry("move", "sysop", at(2024, 6, 5, 0, 0, 0), false, None),
        entry("edit", "sysop", Expiry::Infinity, false, None),
    ];
    let desired = DesiredProtection {
        expiry: Date { year: 2024, month: 6, day: 2 },
        needs_edit: true,
    };
    assert!(reconcile(&entries, &desired).is_none());
}

#[test]
fn weaker_level_does_not_count() {
    // An autoconfirmed move protection does not satisfy the desired state;
    // since the move kind is being rewritten, the weaker entry is replaced,
    // not carried.
    let entries = vec![entry("move", "autoconfirmed", Expiry::Infinity, false, None)];
    let desired = DesiredProtection {
        expiry: Date { year: 2024, month: 6, day: 2 },
        needs_edit: false,
    };
    let plan = reconcile(&entries, &desired).expect("a write is needed");
    assert_eq!(
        plan.protections,
        vec![("move".to_string(), "sysop".to_string())]
    );
    assert_eq!(plan.expiries, vec![at(2024, 6, 2, 0, 0, 0)]);
}

#[test]
fn preserves_unrelated_entry() {
    // Move protection already suffices; only edit is requested. The move
    // entry is unrelated to the change and is resubmitted unchanged.
    let entries = vec![entry("move", "sysop", Expiry::Infinity, false, None)];
    let desired = DesiredProtection {
        expiry: Date { year: 2024, month: 6, day: 2 },
        needs_edit: true,
    };
    let plan = reconcile(&entries, &desired).expect("edit protection is missing");
    assert_eq!(
        plan.protections,
        vec![
            ("edit".to_string(), "sysop".to_string()),
            ("move".to_string(), "sysop".to_string()),
        ]
    );
    assert_eq!(plan.expiries, vec![at(2024, 6, 2, 0, 0, 0), Expiry::Infinity]);
    assert!(!plan.cascade);
    assert!(plan_is_wf(&plan));
    assert_eq!(protections_param(&plan), "edit=sysop|move=sysop");
    assert_eq!(
        expiries_param(&plan),
        "2024-06-02T00:00:00Z|infinity"
    );
}

#[test]
fn inherited_entry_never_resubmitted() {
    // The inherited edit entry (source set) must not appear in the plan,
    // and the legacy "aft" kind is dropped too.
    let entries = vec![
        entry("move", "sysop", Expiry::Infinity, false, None),
        entry("edit", "autoconfirmed", Expiry::Infinity, false, Some("Main Page")),
        entry("aft", "sysop", Expiry::Infinity, false, None),
    ];
    let desired = DesiredProtection {
        expiry: Date { year: 2024, month: 6, day: 2 },
        needs_edit: true,
    };
    let plan = reconcile(&entries, &desired).expect("edit protection is missing");
    assert_eq!(
        plan.protections,
        vec![
            ("edit".to_string(), "sysop".to_string()),
            ("move".to_string(), "sysop".to_string()),
        ]
    );
}

#[test]
fn cascade_kept_when_a_carried_entry_cascades() {
    let entries = vec![
        entry("upload", "sysop", Expiry::Infinity, true, None),
    ];
    let desired = DesiredProtection {
        expiry: Date { year: 2024, month: 6, day: 2 },
        needs_edit: false,
    };
    let plan = reconcile(&entries, &desired).expect("move protection is missing");
    assert!(plan.cascade);
    assert_eq!(
        plan.protections,
        vec![
            ("move".to_string(), "sysop".to_string()),
            ("upload".to_string(), "sysop".to_string()),
        ]
    );
}

#[test]
fn cascade_clear_when_no_carried_entry_cascades() {
    // A cascading entry that is skipped (inherited) does not set the flag.
    let entries = vec![
        entry("edit", "sysop", Expiry::Infinity, true, Some("Main Page")),
    ];
    let desired = DesiredProtection {
        expiry: Date { year: 2024, month: 6, day: 2 },
        needs_edit: false,
    };
    let plan = reconcile(&entries, &desired).expect("move protection is missing");
    assert!(!plan.cascade);
    assert_eq!(plan.protections, vec![("move".to_string(), "sysop".to_string())]);
}

#[test]
fn expiry_compared_at_date_granularity() {
    // 2024-06-02T23:00:00Z reaches the desired day 2024-06-02 even though
    // the instant is before midnight of the next day...
    let raws = vec![raw("move", "sysop", "2024-06-02T23:00:00Z", false, None)];
    let entries = parse_entries(&raws).expect("the expiry parses");
    assert_eq!(entries[0].expiry, at(2024, 6, 2, 23, 0, 0));
    let on_the_day = DesiredProtection {
        expiry: Date { year: 2024, month: 6, day: 2 },
        needs_edit: false,
    };
    assert!(reconcile(&entries, &on_the_day).is_none());
    // ...but not the day after.
    let day_after = DesiredProtection {
        expiry: Date { year: 2024, month: 6, day: 3 },
        needs_edit: false,
    };
    assert!(reconcile(&entries, &day_after).is_some());
}

#[test]
fn fresh_protection_from_empty_state() {
    let entries: Vec<ProtectionEntry> = vec![];
    let desired = DesiredProtection {
        expiry: Date { year: 2024, month: 6, day: 2 },
        needs_edit: true,
    };
    let plan = reconcile(&entries, &desired).expect("nothing is protected yet");
    assert_eq!(
        plan.protections,
        vec![
            ("move".to_string(), "sysop".to_string()),
            ("edit".to_string(), "sysop".to_string()),
        ]
    );
    assert!(!plan.cascade);
    assert!(plan_is_wf(&plan));
    assert_eq!(protections_param(&plan), "move=sysop|edit=sysop");
    assert_eq!(
        expiries_param(&plan),
        "2024-06-02T00:00:00Z|2024-06-02T00:00:00Z"
    );
}

#[test]
fn no_edit_protection_for_plain_pages() {
    // Without the redirect flag, a missing edit protection asks for nothing.
    let entries = vec![entry("move", "sysop", Expiry::Infinity, false, None)];
    let desired = DesiredProtection {
        expiry: Date { year: 2024, month: 6, day: 2 },
        needs_edit: false,
    };
    assert!(reconcile(&entries, &desired).is_none());
}

#[test]
fn parse_entries_keeps_fields() {
    let raws = vec![
        raw("edit", "autoconfirmed", "infinity", false, None),
        raw("move", "sysop", "2030-01-02T03:04:05Z", true, Some("Other")),
    ];
    let entries = parse_entries(&raws).expect("both expiries parse");
    assert_eq!(entries.len(), 2);
    assert_eq!(entries[0].kind, "edit");
    assert_eq!(entries[0].level, "autoconfirmed");
    assert_eq!(entries[0].expiry, Expiry::Infinity);
    assert!(!entries[0].cascading);
    assert_eq!(entries[0].source, None);
    assert_eq!(entries[1].expiry, at(2030, 1, 2, 3, 4, 5));
    assert!(entries[1].cascading);
    assert_eq!(entries[1].source, Some("Other".to_string()));
}

#[test]
fn parse_entries_reports_first_bad_expiry() {
    let raws = vec![
        raw("edit", "sysop", "infinity", false, None),
        raw("move", "sysop", "sometime soon", false, None),
        raw("upload", "sysop", "also wrong", false, None),
    ];
    let err = parse_entries(&raws).expect_err("the second expiry is unusable");
    assert_eq!(err.text, "sometime soon");
    assert_eq!(
        err.message(),
        "cannot parse protection expiry: sometime soon"
    );
}
