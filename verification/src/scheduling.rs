//! Trigger rules and when triggers fire.
use crate::json::{
    entries_view, entry, json_read, list_view, plain_json, read_json, text_field, Json, JsonView,
    NESTING_LIMIT,
};
use crate::text::text_less;
use vstd::prelude::*;

verus! {

/// One rule of a trigger: its text, and what it is for.
#[derive(Debug)]
pub struct TriggerRule {
    pub rule: String,
    pub description: String,
}

/// A rule over character sequences.
pub struct RuleView {
    pub rule: Seq<char>,
    pub description: Seq<char>,
}

impl View for TriggerRule {
    type V = RuleView;

    open spec fn view(&self) -> RuleView {
        RuleView { rule: self.rule@, description: self.description@ }
    }
}

pub open spec fn rule_views(rules: Seq<TriggerRule>) -> Seq<RuleView> {
    rules.map_values(|r: TriggerRule| r@)
}

/// The JSON form of a rule.
pub open spec fn rule_json(r: RuleView) -> JsonView {
    JsonView::Object(
        seq![
            ("description"@, JsonView::Text(r.description)),
            ("rule"@, JsonView::Text(r.rule)),
        ],
    )
}

/// The JSON form of a list of rules.
pub open spec fn rules_json(rules: Seq<RuleView>) -> JsonView {
    JsonView::List(rules.map_values(|r: RuleView| rule_json(r)))
}

/// The rule that a JSON value stands for.
pub open spec fn rule_of(j: JsonView) -> Option<RuleView> {
    match (text_field(j, "rule"@), text_field(j, "description"@)) {
        (Some(rule), Some(description)) => Some(RuleView { rule, description }),
        _ => None,
    }
}

/// The rules that a list of JSON values stands for; none where one of them is no rule.
pub open spec fn rules_of(items: Seq<JsonView>) -> Option<Seq<RuleView>>
    decreases items.len(),
{
    if items.len() == 0 {
        Some(Seq::empty())
    } else {
        match (rules_of(items.drop_last()), rule_of(items.last())) {
            (Some(rules), Some(rule)) => Some(rules.push(rule)),
            _ => None,
        }
    }
}

/// The rules that a text in the store stands for; none where it is no list of rules.
pub open spec fn stored_rules(text: Seq<char>) -> Seq<RuleView> {
    match json_read(text) {
        Ok(JsonView::List(items)) => match rules_of(items) {
            Some(rules) => rules,
            None => Seq::empty(),
        },
        _ => Seq::empty(),
    }
}

/// The JSON form of rules is one in which serde_json gives values.
pub proof fn lemma_rules_plain(rules: Seq<RuleView>)
    ensures
        plain_json(rules_json(rules), NESTING_LIMIT as nat),
{
    let items = rules.map_values(|r: RuleView| rule_json(r));
    reveal_strlit("rule");
    reveal_strlit("description");
    assert("description"@[0] == 'd' && "rule"@[0] == 'r');
    assert(text_less("description"@, "rule"@));
    assert forall|i: int| 0 <= i < items.len() implies plain_json(
        #[trigger] items[i],
        (NESTING_LIMIT - 1) as nat,
    ) by {
        assert(items[i] == rule_json(rules[i]));
        let entries = rule_json(rules[i])->Object_0;
        assert(plain_json(entries[0].1, (NESTING_LIMIT - 2) as nat));
        assert(plain_json(entries[1].1, (NESTING_LIMIT - 2) as nat));
        assert(forall|i: int, k: int|
            0 <= i < k < entries.len() ==> text_less(
                (#[trigger] entries[i]).0,
                (#[trigger] entries[k]).0,
            ));
    }
}

/// Rules come back from their JSON form.
pub proof fn law_rules_round_trip(rules: Seq<RuleView>)
    ensures
        rules_of(rules.map_values(|r: RuleView| rule_json(r))) == Some(rules),
    decreases rules.len(),
{
    let items = rules.map_values(|r: RuleView| rule_json(r));
    if rules.len() > 0 {
        law_rules_round_trip(rules.drop_last());
        assert(items.drop_last() =~= rules.drop_last().map_values(|r: RuleView| rule_json(r)));
        let r = rules.last();
        reveal_strlit("rule");
        reveal_strlit("description");
        assert("rule"@.len() == 4 && "description"@.len() == 11);
        let entries = seq![
            ("description"@, JsonView::Text(r.description)),
            ("rule"@, JsonView::Text(r.rule)),
        ];
        crate::json::lemma_lookup_at(entries, "description"@, 0);
        crate::json::lemma_lookup_at(entries, "rule"@, 1);
        assert(rules.drop_last().push(r) =~= rules);
    } else {
        assert(rules =~= Seq::empty());
    }
}

impl TriggerRule {
    /// A copy of the rule.
    pub fn duplicate_rule(&self) -> (copy: TriggerRule)
        ensures
            copy == *self,
    {
        TriggerRule { rule: self.rule.clone(), description: self.description.clone() }
    }
}

/// The JSON form of a list of rules.
pub fn rules_to_json(rules: &Vec<TriggerRule>) -> (j: Json)
    ensures
        j@ == rules_json(rule_views(rules@)),
{
    let mut items: Vec<Json> = Vec::new();
    let mut i: usize = 0;
    while i < rules.len()
        invariant
            i <= rules@.len(),
            items@.len() == i,
            forall|k: int| 0 <= k < i ==> (#[trigger] items@[k])@ == rule_json(rules@[k]@),
        decreases rules@.len() - i,
    {
        let r = &rules[i];
        let entries = vec![
            entry("description", Json::text(r.description.as_str())),
            entry("rule", Json::text(r.rule.as_str())),
        ];
        proof {
            assert(entries_view(entries@) =~= seq![
                ("description"@, JsonView::Text(r.description@)),
                ("rule"@, JsonView::Text(r.rule@)),
            ]);
        }
        items.push(Json::object(entries));
        i = i + 1;
    }
    proof {
        assert(list_view(items@) =~= rule_views(rules@).map_values(|r: RuleView| rule_json(r)));
    }
    Json::list(items)
}

/// Reads the rules that a text in the store stands for.
pub fn read_rules(text: &str) -> (rules: Vec<TriggerRule>)
    ensures
        rule_views(rules@) == stored_rules(text@),
{
    broadcast use crate::json::lemma_json_list_view;

    let mut rules: Vec<TriggerRule> = Vec::new();
    proof {
        assert(rule_views(rules@) =~= Seq::empty());
    }
    match read_json(text) {
        Ok(Json::List(items)) => {
            let ghost all = list_view(items@);
            let mut i: usize = 0;
            proof {
                assert(all.take(0) =~= Seq::empty());
            }
            while i < items.len()
                invariant
                    i <= items@.len(),
                    all == list_view(items@),
                    json_read(text@) == Ok::<JsonView, Seq<char>>(JsonView::List(all)),
                    rules_of(all.take(i as int)) == Some(rule_views(rules@)),
                decreases items@.len() - i,
            {
                proof {
                    assert(all.take(i + 1).drop_last() =~= all.take(i as int));
                    assert(all.take(i + 1).last() == items@[i as int]@);
                }
                match (items[i].get_text("rule"), items[i].get_text("description")) {
                    (Some(rule), Some(description)) => {
                        let ghost before = rules@;
                        rules.push(TriggerRule { rule, description });
                        proof {
                            assert(rule_views(rules@) =~= rule_views(before).push(rules@.last()@));
                        }
                    },
                    _ => {
                        proof {
                            lemma_bad_rule(all, i as int);
                        }
                        let none: Vec<TriggerRule> = Vec::new();
                        proof {
                            assert(rule_views(none@) =~= Seq::empty());
                        }
                        return none;
                    },
                }
                i = i + 1;
            }
            proof {
                assert(all.take(i as int) =~= all);
            }
            rules
        },
        _ => rules,
    }
}

proof fn lemma_bad_rule(items: Seq<JsonView>, at: int)
    requires
        0 <= at < items.len(),
        rule_of(items[at]) is None,
    ensures
        rules_of(items) is None,
    decreases items.len(),
{
    if at < items.len() - 1 {
        lemma_bad_rule(items.drop_last(), at);
    }
}

} // verus!
