use berry_lib::moderation::{
    decide, determine_offence, punishment, severity, threshold, Category, ModerationScores,
    PunishmentAction,
};

fn zero() -> ModerationScores {
    ModerationScores {
        harassment: 0,
        harassment_threatening: 0,
        hate: 0,
        hate_threatening: 0,
        self_harm: 0,
        self_harm_instructions: 0,
        self_harm_intent: 0,
        sexual: 0,
        sexual_minors: 0,
        violence: 0,
        violence_graphic: 0,
    }
}

#[test]
fn hate_above_threshold_times_out_for_a_minute() {
    let mut s = zero();
    s.hate = 990;
    let v = decide(&s);
    assert!(v.flagged);
    assert_eq!(v.category, Some(Category::Hate));
    assert_eq!(v.score, 990);
    assert_eq!(v.punishment, PunishmentAction::Timeout(60));
}

#[test]
fn most_severe_category_wins() {
    let mut s = zero();
    s.sexual_minors = 600;
    s.harassment = 999;
    let v = decide(&s);
    assert_eq!(v.category, Some(Category::SexualMinors));
    assert_eq!(v.punishment, PunishmentAction::Ban);
    assert_eq!(v.score, 600);
}

#[test]
fn nothing_above_threshold_is_not_flagged() {
    let mut s = zero();
    s.hate = 549;
    s.harassment = 949;
    s.violence_graphic = 989;
    let v = decide(&s);
    assert!(!v.flagged);
    assert_eq!(v.category, None);
    assert_eq!(v.punishment, PunishmentAction::NoAction);
    assert_eq!(v.score, 0);
}

#[test]
fn threshold_is_inclusive() {
    let mut s = zero();
    s.violence = 950;
    let v = decide(&s);
    assert_eq!(v.category, Some(Category::Violence));
    assert_eq!(v.punishment, PunishmentAction::Timeout(30));
}

#[test]
fn deciding_twice_gives_the_same_verdict() {
    let mut s = zero();
    s.self_harm_intent = 960;
    s.sexual = 900;
    assert_eq!(decide(&s), decide(&s));
    assert_eq!(decide(&s).category, Some(Category::SelfHarmIntent));
    assert_eq!(decide(&s).punishment, PunishmentAction::Timeout(120));
}

#[test]
fn rank_not_score_decides() {
    let mut s = zero();
    s.hate = 560;
    s.harassment_threatening = 1000;
    assert_eq!(decide(&s).category, Some(Category::Hate));
}

#[test]
fn tables_match_policy() {
    assert_eq!(severity(Category::SexualMinors), 1);
    assert_eq!(severity(Category::Harassment), 11);
    assert_eq!(threshold(Category::SexualMinors), 500);
    assert_eq!(threshold(Category::ViolenceGraphic), 990);
    assert_eq!(punishment(Category::HarassmentThreatening), PunishmentAction::Ban);
    assert_eq!(punishment(Category::Harassment), PunishmentAction::Warn);
}

#[test]
fn determine_offence_picks_lowest_rank() {
    assert_eq!(determine_offence(&vec![]), None);
    assert_eq!(
        determine_offence(&vec![Category::Violence, Category::SelfHarm, Category::Harassment]),
        Some(Category::SelfHarm)
    );
}

#[test]
fn get_score_reads_each_category() {
    let mut s = zero();
    s.self_harm_instructions = 321;
    assert_eq!(s.get_score(Category::SelfHarmInstructions), 321);
    assert_eq!(s.get_score(Category::SelfHarm), 0);
}
