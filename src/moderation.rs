//! Moderation decisions made from classifier category scores.
//!
//! Scores are held in thousandths (`0..=1000` stands for `0.0..=1.0`): the
//! classifier's confidence rounded to three decimal places, which is the
//! precision at which thresholds are compared.

use vstd::prelude::*;

verus! {

/// The closed set of moderation categories reported by the classifier.
#[derive(Clone, Copy, Debug, PartialEq, Eq, Structural)]
pub enum Category {
    Harassment,
    HarassmentThreatening,
    Hate,
    HateThreatening,
    SelfHarm,
    SelfHarmInstructions,
    SelfHarmIntent,
    Sexual,
    SexualMinors,
    Violence,
    ViolenceGraphic,
}

/// The action taken against a sender whose message was flagged.
#[derive(Clone, Copy, Debug, PartialEq, Eq, Structural)]
pub enum PunishmentAction {
    /// Time the sender out for this many seconds.
    Timeout(u64),
    Ban,
    Delete,
    Warn,
    NoAction,
}

/// Severity rank of a category: a lower rank is more severe.
pub open spec fn rank_of(c: Category) -> int {
    match c {
        Category::SexualMinors => 1,
        Category::Hate => 2,
        Category::SelfHarm => 3,
        Category::SelfHarmIntent => 4,
        Category::HateThreatening => 5,
        Category::SelfHarmInstructions => 6,
        Category::HarassmentThreatening => 7,
        Category::Sexual => 8,
        Category::ViolenceGraphic => 9,
        Category::Violence => 10,
        Category::Harassment => 11,
    }
}

/// Threshold of a category, in thousandths: a score at or above it flags.
pub open spec fn threshold_of(c: Category) -> int {
    match c {
        Category::Harassment => 950,
        Category::HarassmentThreatening => 970,
        Category::Hate => 550,
        Category::HateThreatening => 960,
        Category::SelfHarm => 980,
        Category::SelfHarmInstructions => 970,
        Category::SelfHarmIntent => 950,
        Category::Sexual => 880,
        Category::SexualMinors => 500,
        Category::Violence => 950,
        Category::ViolenceGraphic => 990,
    }
}

/// The punishment that goes with each category.
pub open spec fn punishment_of(c: Category) -> PunishmentAction {
    match c {
        Category::Harassment => PunishmentAction::Warn,
        Category::HarassmentThreatening => PunishmentAction::Ban,
        Category::Hate => PunishmentAction::Timeout(60),
        Category::HateThreatening => PunishmentAction::Ban,
        Category::SelfHarm => PunishmentAction::Delete,
        Category::SelfHarmInstructions => PunishmentAction::Delete,
        Category::SelfHarmIntent => PunishmentAction::Timeout(120),
        Category::Sexual => PunishmentAction::Delete,
        Category::SexualMinors => PunishmentAction::Ban,
        Category::Violence => PunishmentAction::Timeout(30),
        Category::ViolenceGraphic => PunishmentAction::Delete,
    }
}

/// Two categories with the same rank are the same category.
pub proof fn lemma_rank_injective(a: Category, b: Category)
    requires
        rank_of(a) == rank_of(b),
    ensures
        a == b,
{
}

/// Severity rank of a category (lower is more severe).
pub fn severity(c: Category) -> (r: u8)
    ensures
        r as int == rank_of(c),
        1 <= r <= 11,
{
    match c {
        Category::SexualMinors => 1,
        Category::Hate => 2,
        Category::SelfHarm => 3,
        Category::SelfHarmIntent => 4,
        Category::HateThreatening => 5,
        Category::SelfHarmInstructions => 6,
        Category::HarassmentThreatening => 7,
        Category::Sexual => 8,
        Category::ViolenceGraphic => 9,
        Category::Violence => 10,
        Category::Harassment => 11,
    }
}

/// Threshold of a category, in thousandths.
pub fn threshold(c: Category) -> (r: u32)
    ensures
        r as int == threshold_of(c),
{
    match c {
        Category::Harassment => 950,
        Category::HarassmentThreatening => 970,
        Category::Hate => 550,
        Category::HateThreatening => 960,
        Category::SelfHarm => 980,
        Category::SelfHarmInstructions => 970,
        Category::SelfHarmIntent => 950,
        Category::Sexual => 880,
        Category::SexualMinors => 500,
        Category::Violence => 950,
        Category::ViolenceGraphic => 990,
    }
}

/// The punishment that goes with a category.
pub fn punishment(c: Category) -> (r: PunishmentAction)
    ensures
        r == punishment_of(c),
{
    match c {
        Category::Harassment => PunishmentAction::Warn,
        Category::HarassmentThreatening => PunishmentAction::Ban,
        Category::Hate => PunishmentAction::Timeout(60),
        Category::HateThreatening => PunishmentAction::Ban,
        Category::SelfHarm => PunishmentAction::Delete,
        Category::SelfHarmInstructions => PunishmentAction::Delete,
        Category::SelfHarmIntent => PunishmentAction::Timeout(120),
        Category::Sexual => PunishmentAction::Delete,
        Category::SexualMinors => PunishmentAction::Ban,
        Category::Violence => PunishmentAction::Timeout(30),
        Category::ViolenceGraphic => PunishmentAction::Delete,
    }
}

/// One score per category, in thousandths.
#[derive(Clone, Copy, Debug, PartialEq, Eq, Structural)]
pub struct ModerationScores {
    pub harassment: u32,
    pub harassment_threatening: u32,
    pub hate: u32,
    pub hate_threatening: u32,
    pub self_harm: u32,
    pub self_harm_instructions: u32,
    pub self_harm_intent: u32,
    pub sexual: u32,
    pub sexual_minors: u32,
    pub violence: u32,
    pub violence_graphic: u32,
}

impl ModerationScores {
    /// The score of one category.
    pub open spec fn score(&self, c: Category) -> u32 {
        match c {
            Category::Harassment => self.harassment,
            Category::HarassmentThreatening => self.harassment_threatening,
            Category::Hate => self.hate,
            Category::HateThreatening => self.hate_threatening,
            Category::SelfHarm => self.self_harm,
            Category::SelfHarmInstructions => self.self_harm_instructions,
            Category::SelfHarmIntent => self.self_harm_intent,
            Category::Sexual => self.sexual,
            Category::SexualMinors => self.sexual_minors,
            Category::Violence => self.violence,
            Category::ViolenceGraphic => self.violence_graphic,
        }
    }

    /// Returns the score of one category.
    pub fn get_score(&self, c: Category) -> (r: u32)
        ensures
            r == self.score(c),
    {
        match c {
            Category::Harassment => self.harassment,
            Category::HarassmentThreatening => self.harassment_threatening,
            Category::Hate => self.hate,
            Category::HateThreatening => self.hate_threatening,
            Category::SelfHarm => self.self_harm,
            Category::SelfHarmInstructions => self.self_harm_instructions,
            Category::SelfHarmIntent => self.self_harm_intent,
            Category::Sexual => self.sexual,
            Category::SexualMinors => self.sexual_minors,
            Category::Violence => self.violence,
            Category::ViolenceGraphic => self.violence_graphic,
        }
    }
}

/// The score of `c` meets or exceeds its threshold.
pub open spec fn meets_threshold(s: ModerationScores, c: Category) -> bool {
    s.score(c) >= threshold_of(c)
}

/// `c` is violated and no violated category is more severe.
pub open spec fn is_offence(s: ModerationScores, c: Category) -> bool {
    &&& meets_threshold(s, c)
    &&& forall|d: Category| meets_threshold(s, d) ==> rank_of(c) <= #[trigger] rank_of(d)
}

/// The most severe violated category, if any category is violated.
pub open spec fn offence_of(s: ModerationScores) -> Option<Category> {
    if exists|c: Category| is_offence(s, c) {
        Some(choose|c: Category| is_offence(s, c))
    } else {
        None
    }
}

/// The outcome of moderating one message.
#[derive(Clone, Copy, Debug, PartialEq, Eq, Structural)]
pub struct ModerationVerdict {
    pub flagged: bool,
    pub category: Option<Category>,
    /// The offending category's score, in thousandths; 0 when not flagged.
    pub score: u32,
    pub punishment: PunishmentAction,
}

/// The verdict that `decide` gives for `s`.
pub open spec fn verdict_of(s: ModerationScores) -> ModerationVerdict {
    match offence_of(s) {
        Some(c) => ModerationVerdict {
            flagged: true,
            category: Some(c),
            score: s.score(c),
            punishment: punishment_of(c),
        },
        None => ModerationVerdict {
            flagged: false,
            category: None,
            score: 0,
            punishment: PunishmentAction::NoAction,
        },
    }
}

/// An offence exists exactly when some category is violated, and it is the one
/// violated category of least rank.
pub proof fn lemma_offence_unique(s: ModerationScores, c: Category)
    requires
        is_offence(s, c),
    ensures
        offence_of(s) == Some(c),
{
    let d = choose|d: Category| is_offence(s, d);
    assert(rank_of(c) <= rank_of(d) && rank_of(d) <= rank_of(c));
    lemma_rank_injective(c, d);
}

/// Every category, in declaration order.
pub open spec fn all_categories() -> Seq<Category> {
    seq![
        Category::Harassment,
        Category::HarassmentThreatening,
        Category::Hate,
        Category::HateThreatening,
        Category::SelfHarm,
        Category::SelfHarmInstructions,
        Category::SelfHarmIntent,
        Category::Sexual,
        Category::SexualMinors,
        Category::Violence,
        Category::ViolenceGraphic,
    ]
}

/// The position of a category in `all_categories()`.
pub open spec fn category_index(c: Category) -> int {
    match c {
        Category::Harassment => 0,
        Category::HarassmentThreatening => 1,
        Category::Hate => 2,
        Category::HateThreatening => 3,
        Category::SelfHarm => 4,
        Category::SelfHarmInstructions => 5,
        Category::SelfHarmIntent => 6,
        Category::Sexual => 7,
        Category::SexualMinors => 8,
        Category::Violence => 9,
        Category::ViolenceGraphic => 10,
    }
}

proof fn lemma_category_index(c: Category)
    ensures
        0 <= category_index(c) < all_categories().len(),
        all_categories()[category_index(c)] == c,
{
}

/// The categories whose score meets their threshold.
pub fn categories_over_threshold(s: &ModerationScores) -> (r: Vec<Category>)
    ensures
        forall|c: Category| r@.contains(c) <==> meets_threshold(*s, c),
{
    let all: Vec<Category> = vec![
        Category::Harassment,
        Category::HarassmentThreatening,
        Category::Hate,
        Category::HateThreatening,
        Category::SelfHarm,
        Category::SelfHarmInstructions,
        Category::SelfHarmIntent,
        Category::Sexual,
        Category::SexualMinors,
        Category::Violence,
        Category::ViolenceGraphic,
    ];
    assert(all@ == all_categories());
    let mut r: Vec<Category> = Vec::new();
    let mut i: usize = 0;
    while i < all.len()
        invariant
            i <= all@.len(),
            all@ == all_categories(),
            forall|j: int| 0 <= j < r@.len() ==> meets_threshold(*s, #[trigger] r@[j]),
            forall|k: int|
                0 <= k < i && meets_threshold(*s, #[trigger] all@[k]) ==> r@.contains(all@[k]),
        decreases all@.len() - i,
    {
        let c = all[i];
        if s.get_score(c) >= threshold(c) {
            let ghost before = r@;
            r.push(c);
            proof {
                assert(r@[before.len() as int] == c);
                assert forall|k: int|
                    0 <= k < i + 1 && meets_threshold(*s, #[trigger] all@[k]) implies r@.contains(
                    all@[k]) by {
                    if k < i {
                        let j = choose|j: int| 0 <= j < before.len() && before[j] == all@[k];
                        assert(r@[j] == all@[k]);
                    }
                }
            }
        }
        i = i + 1;
    }
    proof {
        assert forall|c: Category| meets_threshold(*s, c) implies r@.contains(c) by {
            lemma_category_index(c);
            assert(all@[category_index(c)] == c);
        }
    }
    r
}

/// Picks the most severe of the given categories, or `None` when there are none.
pub fn determine_offence(categories: &Vec<Category>) -> (r: Option<Category>)
    ensures
        r is None <==> categories@.len() == 0,
        r matches Some(c) ==> categories@.contains(c) && forall|i: int|
            0 <= i < categories@.len() ==> rank_of(c) <= #[trigger] rank_of(categories@[i]),
{
    let mut best: Option<Category> = None;
    let mut best_rank: u8 = 0;
    let mut i: usize = 0;
    while i < categories.len()
        invariant
            i <= categories@.len(),
            best is None <==> i == 0,
            best matches Some(c) ==> {
                &&& best_rank as int == rank_of(c)
                &&& categories@.subrange(0, i as int).contains(c)
                &&& forall|j: int| 0 <= j < i ==> rank_of(c) <= #[trigger] rank_of(categories@[j])
            },
        decreases categories@.len() - i,
    {
        let c = categories[i];
        let r = severity(c);
        if best.is_none() || r < best_rank {
            best = Some(c);
            best_rank = r;
            assert(categories@.subrange(0, i + 1)[i as int] == c);
        } else {
            proof {
                let b = best->Some_0;
                let k = choose|k: int| 0 <= k < i && categories@.subrange(0, i as int)[k] == b;
                assert(categories@.subrange(0, i + 1)[k] == b);
            }
        }
        i = i + 1;
    }
    proof {
        if let Some(c) = best {
            assert(categories@.subrange(0, i as int) =~= categories@);
        }
    }
    best
}

/// Decides whether content with these scores is flagged, which category is the
/// offence and what punishment follows.
///
/// The offence is the most severe category whose score meets its threshold;
/// severity is a fixed ranking, independent of how large the scores are.
pub fn decide(scores: &ModerationScores) -> (r: ModerationVerdict)
    ensures
        r == verdict_of(*scores),
        r.flagged <==> exists|c: Category| meets_threshold(*scores, c),
        r.category matches Some(c) ==> is_offence(*scores, c),
{
    let over = categories_over_threshold(scores);
    match determine_offence(&over) {
        Some(c) => {
            proof {
                assert forall|d: Category| meets_threshold(*scores, d) implies rank_of(c)
                    <= rank_of(d) by {
                    assert(over@.contains(d));
                    let k = choose|k: int| 0 <= k < over@.len() && over@[k] == d;
                    assert(rank_of(c) <= rank_of(over@[k]));
                }
                lemma_offence_unique(*scores, c);
            }
            ModerationVerdict {
                flagged: true,
                category: Some(c),
                score: scores.get_score(c),
                punishment: punishment(c),
            }
        },
        None => {
            proof {
                assert forall|d: Category| !meets_threshold(*scores, d) by {
                    if meets_threshold(*scores, d) {
                        assert(over@.contains(d));
                    }
                }
            }
            ModerationVerdict {
                flagged: false,
                category: None,
                score: 0,
                punishment: PunishmentAction::NoAction,
            }
        },
    }
}

/// Deciding is a function of the scores alone: equal scores always give equal
/// verdicts, however often `decide` is called.
pub proof fn lemma_decide_deterministic(a: ModerationScores, b: ModerationScores)
    requires
        a == b,
    ensures
        verdict_of(a) == verdict_of(b),
{
}

/// When both `sexual_minors` (the most severe category) and `harassment` (the
/// least severe) meet their thresholds, the offence is `sexual_minors`.
pub proof fn lemma_most_severe_wins(s: ModerationScores)
    requires
        meets_threshold(s, Category::SexualMinors),
        meets_threshold(s, Category::Harassment),
    ensures
        verdict_of(s).flagged,
        verdict_of(s).category == Some(Category::SexualMinors),
        verdict_of(s).punishment == PunishmentAction::Ban,
{
    assert(is_offence(s, Category::SexualMinors));
    lemma_offence_unique(s, Category::SexualMinors);
}

/// When no category meets its threshold, nothing is flagged and no punishment
/// follows.
pub proof fn lemma_nothing_flagged(s: ModerationScores)
    requires
        forall|c: Category| !meets_threshold(s, c),
    ensures
        !verdict_of(s).flagged,
        verdict_of(s).category is None,
        verdict_of(s).punishment == PunishmentAction::NoAction,
{
}

} // verus!
