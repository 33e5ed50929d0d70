use rand::rngs::StdRng;
use rand::SeedableRng;
use sensor_recorder::activity::{key_command, label_line, Activity, KeyCommand};
use sensor_recorder::cues::{passage_at, Renderer};
use sensor_recorder::plan::{base_slot_vec, plan_session, SessionPlan, PASSAGE_COUNT};
use sensor_recorder::timeline::{autonomous_script, Step, ACTIVE_MS, COUNTDOWN_FROM, TICK_MS};

fn labels_with_times(steps: &[Step]) -> Vec<(u64, Activity)> {
    let mut t: u64 = 0;
    let mut out = Vec::new();
    for s in steps {
        match s {
            Step::Label(a) => out.push((t, *a)),
            Step::Wait { ms } => t += ms,
            _ => {}
        }
    }
    out
}

fn seeded_plan(seed: u64) -> SessionPlan {
    let mut rng = StdRng::seed_from_u64(seed);
    plan_session(&mut rng)
}

#[test]
fn label_line_formats_timestamp_and_code() {
    assert_eq!(label_line(1700000000123, Activity::Typing), "1700000000123;t\n");
    assert_eq!(label_line(0, Activity::Other), "0;o\n");
    assert_eq!(label_line(42, Activity::Scrolling), "42;s\n");
    assert_eq!(label_line(7, Activity::Fidgeting), "7;f\n");
    assert_eq!(label_line(u64::MAX, Activity::Nothing), "18446744073709551615;n\n");
}

#[test]
fn keys_map_to_commands() {
    assert_eq!(key_command('t'), KeyCommand::Mark(Activity::Typing));
    assert_eq!(key_command('s'), KeyCommand::Mark(Activity::Scrolling));
    assert_eq!(key_command('f'), KeyCommand::Mark(Activity::Fidgeting));
    assert_eq!(key_command('n'), KeyCommand::Mark(Activity::Nothing));
    assert_eq!(key_command('q'), KeyCommand::Quit);
    assert_eq!(key_command('x'), KeyCommand::Ignore);
    assert_eq!(key_command('T'), KeyCommand::Ignore);
}

#[test]
fn countdown_and_instruction_messages() {
    assert_eq!(Activity::Typing.countdown_message(5), "Prepare to type! 5");
    assert_eq!(Activity::Nothing.countdown_message(1), "Prepare to nothing! 1");
    assert_eq!(Activity::Scrolling.before_message(), "Prepare to scroll!");
    assert_eq!(Activity::Fidgeting.before_message(), "Prepare to fidget!");
    assert_eq!(Activity::Nothing.after_message(), "Do nothing!");
    assert_eq!(Activity::Scrolling.after_message(), "Scroll!");
    assert_eq!(Activity::Fidgeting.after_message(), "Fidget!");
    assert_eq!(Activity::Typing.after_message(), "Retype this:\n\n");
}

#[test]
fn script_of_one_slot() {
    let steps = autonomous_script(&vec![Activity::Scrolling], &vec![0]);
    let s = Activity::Scrolling;
    let expected = vec![
        Step::Label(Activity::Other),
        Step::Prepare { activity: s, remaining: 5 },
        Step::Wait { ms: 1000 },
        Step::Prepare { activity: s, remaining: 4 },
        Step::Wait { ms: 1000 },
        Step::Prepare { activity: s, remaining: 3 },
        Step::Wait { ms: 1000 },
        Step::Prepare { activity: s, remaining: 2 },
        Step::Wait { ms: 1000 },
        Step::Prepare { activity: s, remaining: 1 },
        Step::Wait { ms: 1000 },
        Step::Instruct { activity: s, passage: 0 },
        Step::Label(s),
        Step::Wait { ms: 15000 },
        Step::Label(Activity::Other),
        Step::Finish,
    ];
    assert_eq!(steps, expected);
}

#[test]
fn empty_order_gives_final_marker_only() {
    let steps = autonomous_script(&vec![], &vec![]);
    assert_eq!(steps, vec![Step::Label(Activity::Other), Step::Finish]);
}

#[test]
fn full_session_label_counts() {
    let plan = seeded_plan(7);
    let steps = plan.script();
    assert_eq!(steps.len(), 8 * 14 + 2);
    let labels = labels_with_times(&steps);
    assert_eq!(labels.len(), 17);
    assert_eq!(labels.iter().filter(|l| l.1 == Activity::Other).count(), 9);
    for a in [Activity::Nothing, Activity::Typing, Activity::Scrolling, Activity::Fidgeting] {
        assert_eq!(labels.iter().filter(|l| l.1 == a).count(), 2);
    }
    assert_eq!(labels[0].1, Activity::Other);
    assert_eq!(labels[16].1, Activity::Other);
}

#[test]
fn countdown_precedes_each_real_label() {
    let plan = seeded_plan(11);
    let labels = labels_with_times(&plan.script());
    let countdown = COUNTDOWN_FROM as u64 * TICK_MS;
    assert_eq!(countdown, 5000);
    for j in 0..labels.len() {
        if labels[j].1 != Activity::Other {
            assert!(j >= 1);
            assert_eq!(labels[j - 1].1, Activity::Other);
            assert_eq!(labels[j].0 - labels[j - 1].0, countdown);
        }
    }
    assert_eq!(labels[2].0, countdown + ACTIVE_MS);
}

#[test]
fn plan_is_a_permutation_with_valid_passages() {
    for seed in 0..20u64 {
        let plan = seeded_plan(seed);
        let mut got = plan.order.clone();
        let mut base = base_slot_vec();
        let key = |a: &Activity| match a {
            Activity::Nothing => 0,
            Activity::Typing => 1,
            Activity::Scrolling => 2,
            Activity::Fidgeting => 3,
            Activity::Other => 4,
        };
        got.sort_by_key(key);
        base.sort_by_key(key);
        assert_eq!(got, base);
        assert_eq!(plan.passages.len(), 8);
        for k in 0..8 {
            assert!(plan.passages[k] < PASSAGE_COUNT);
            if plan.order[k] != Activity::Typing {
                assert_eq!(plan.passages[k], 0);
            }
        }
    }
}

#[test]
fn shuffle_moves_slots_for_some_seed() {
    let base = base_slot_vec();
    assert!((0..20u64).any(|seed| seeded_plan(seed).order != base));
}

#[test]
fn same_seed_gives_same_plan() {
    for seed in [0u64, 1, 42, 12345] {
        let a = seeded_plan(seed);
        let b = seeded_plan(seed);
        assert_eq!(a.order, b.order);
        assert_eq!(a.passages, b.passages);
        assert_eq!(a.script(), b.script());
    }
}

#[test]
fn typing_instruction_shows_passage() {
    let r = Renderer::standard().expect("standard font");
    let shown = r.screen(&Step::Instruct { activity: Activity::Typing, passage: 4 }).unwrap();
    assert!(shown.starts_with("Retype this:\n\nMusic has the power"));
    assert_eq!(shown, format!("Retype this:\n\n{}", passage_at(4)));
}

#[test]
fn banners_are_drawn_for_cues() {
    let r = Renderer::standard().expect("standard font");
    let shown = r.screen(&Step::Prepare { activity: Activity::Typing, remaining: 3 }).unwrap();
    assert_ne!(shown, "Prepare to type! 3");
    assert!(shown.lines().count() > 1);
    assert!(r.screen(&Step::Instruct { activity: Activity::Scrolling, passage: 0 }).is_some());
    assert!(r.screen(&Step::Finish).is_some());
    assert_eq!(r.screen(&Step::Label(Activity::Typing)), None);
    assert_eq!(r.screen(&Step::Wait { ms: 1000 }), None);
}
