use vstd::prelude::*;
use crate::settings::mapping_ops::{
    ObjectRefView, with_proxy, create_spec, rename_spec, opt_preset_view, duplicate_name, MutationResultView,
    MutationErrorView, delete_preset_spec, delete_rule_spec, insert_rule_spec, move_rule_spec, moved, with_rules,
    find_preset, find_preset_upto, lemma_find_bounds, mutation_spec, table_of, with_table, MappingMutation, MutationEffect,
    ProxyRuleTable,
};
use crate::settings::model::{default_preset, default_proxy, AppSettingsView, MappingRuleView, MappingTableView, PresetView, ProxyView};
use crate::text::{trim_spec, lemma_trim_idempotent};

verus! {

proof fn lemma_find_unchanged_by_rules(presets: Seq<PresetView>, name: Seq<char>, index: int, preset: PresetView, n: nat)
    requires
        0 <= index < presets.len(),
        preset.name == presets[index].name,
        n <= presets.len(),
    ensures
        find_preset_upto(presets.update(index, preset), name, n) == find_preset_upto(presets, name, n),
    decreases n,
{
    if n > 0 {
        lemma_find_unchanged_by_rules(presets, name, index, preset, (n - 1) as nat);
    }
}

/// A mutation whose effect is `Unchanged` leaves the settings exactly as they were.
pub proof fn unchanged_mutation_keeps_settings(s: AppSettingsView, m: MappingMutation)
    requires
        mutation_spec(s, m) is Ok,
        mutation_spec(s, m)->Ok_0.1.effect == MutationEffect::Unchanged,
    ensures
        mutation_spec(s, m)->Ok_0.0 == s,
{
    let p = s.proxy->0;
    match m {
        MappingMutation::RenamePreset { name, .. } => {
            lemma_find_bounds(p.presets, trim_spec(name@), p.presets.len());
        },
        MappingMutation::SetTableEnabled { preset, .. } | MappingMutation::UpdateRemoteRule { preset, .. }
        | MappingMutation::UpdateLocalRule { preset, .. } | MappingMutation::MoveRule { preset, .. }
        | MappingMutation::SetRuleEnabled { preset, .. } => {
            lemma_find_bounds(p.presets, trim_spec(preset@), p.presets.len());
        },
        _ => {},
    }
    match m {
        MappingMutation::RenamePreset { name, new_name } => {
            let idx = find_preset(p.presets, trim_spec(name@))->0;
            assert(p.presets.update(idx, PresetView { name: trim_spec(new_name@), ..p.presets[idx] }) =~= p.presets);
        },
        MappingMutation::SetTableEnabled { preset, table, enabled } => {
            let idx = find_preset(p.presets, trim_spec(preset@))->0;
            assert(p.presets.update(idx, with_table(p.presets[idx], table,
                MappingTableView { enable: enabled, ..table_of(p.presets[idx], table) })) =~= p.presets);
        },
        MappingMutation::UpdateRemoteRule { preset, index, from, to } => {
            let pi = find_preset(p.presets, trim_spec(preset@))->0;
            let rules = table_of(p.presets[pi], ProxyRuleTable::Remote).rules;
            assert(rules.update(index as int, MappingRuleView { from: from@, to: to@, ..rules[index as int] }) =~= rules);
            assert(p.presets.update(pi, with_table(p.presets[pi], ProxyRuleTable::Remote,
                MappingTableView { rules, ..table_of(p.presets[pi], ProxyRuleTable::Remote) })) =~= p.presets);
        },
        MappingMutation::UpdateLocalRule { preset, index, from, to } => {
            let pi = find_preset(p.presets, trim_spec(preset@))->0;
            let rules = table_of(p.presets[pi], ProxyRuleTable::Local).rules;
            assert(rules.update(index as int, MappingRuleView { from: from@, to: to@, ..rules[index as int] }) =~= rules);
            assert(p.presets.update(pi, with_table(p.presets[pi], ProxyRuleTable::Local,
                MappingTableView { rules, ..table_of(p.presets[pi], ProxyRuleTable::Local) })) =~= p.presets);
        },
        MappingMutation::MoveRule { preset, table, from, to } => {
            let pi = find_preset(p.presets, trim_spec(preset@))->0;
            let rules = table_of(p.presets[pi], table).rules;
            assert(p.presets.update(pi, with_table(p.presets[pi], table,
                MappingTableView { rules, ..table_of(p.presets[pi], table) })) =~= p.presets);
        },
        MappingMutation::SetRuleEnabled { preset, table, index, enabled } => {
            let pi = find_preset(p.presets, trim_spec(preset@))->0;
            let rules = table_of(p.presets[pi], table).rules;
            assert(rules.update(index as int, MappingRuleView { enable: enabled, ..rules[index as int] }) =~= rules);
            assert(p.presets.update(pi, with_table(p.presets[pi], table,
                MappingTableView { rules, ..table_of(p.presets[pi], table) })) =~= p.presets);
        },
        _ => {},
    }
}


proof fn lemma_rules_roundtrip(p: ProxyView, pi: int, table: ProxyRuleTable, rules: Seq<MappingRuleView>)
    requires
        0 <= pi < p.presets.len(),
        rules == table_of(p.presets[pi], table).rules,
    ensures
        with_rules(p, pi, table, rules) == p,
{
    assert(with_table(p.presets[pi], table, MappingTableView { rules, ..table_of(p.presets[pi], table) }) == p.presets[pi]);
    assert(p.presets.update(pi, p.presets[pi]) =~= p.presets);
}

proof fn lemma_rules_twice(p: ProxyView, pi: int, table: ProxyRuleTable, a: Seq<MappingRuleView>, b: Seq<MappingRuleView>)
    requires
        0 <= pi < p.presets.len(),
    ensures
        with_rules(with_rules(p, pi, table, a), pi, table, b) == with_rules(p, pi, table, b),
        table_of(with_rules(p, pi, table, a).presets[pi], table).rules == a,
        with_rules(p, pi, table, a).presets[pi].name == p.presets[pi].name,
        with_rules(p, pi, table, a).presets.len() == p.presets.len(),
{
    let q = with_rules(p, pi, table, a);
    assert(q.presets.update(pi, with_table(q.presets[pi], table, MappingTableView { rules: b, ..table_of(q.presets[pi], table) }))
        =~= p.presets.update(pi, with_table(p.presets[pi], table, MappingTableView { rules: b, ..table_of(p.presets[pi], table) })));
}

/// Inserting a rule and then deleting the rule at the same index gives back the settings
/// that were there before.
pub proof fn insert_then_delete_rule_restores(s: AppSettingsView, preset: Seq<char>, table: ProxyRuleTable, index: usize, rule: MappingRuleView)
    requires
        insert_rule_spec(s, preset, table, Some(index), rule) is Ok,
    ensures
        delete_rule_spec(insert_rule_spec(s, preset, table, Some(index), rule)->Ok_0.0, preset, table, index) is Ok,
        delete_rule_spec(insert_rule_spec(s, preset, table, Some(index), rule)->Ok_0.0, preset, table, index)->Ok_0.0 == s,
{
    let n = trim_spec(preset);
    let p = s.proxy->0;
    lemma_find_bounds(p.presets, n, p.presets.len());
    let pi = find_preset(p.presets, n)->0;
    let rules = table_of(p.presets[pi], table).rules;
    let inserted = rules.insert(index as int, rule);
    let q = with_rules(p, pi, table, inserted);
    lemma_rules_twice(p, pi, table, inserted, rules);
    lemma_rules_roundtrip(p, pi, table, rules);
    let t = table_of(p.presets[pi], table);
    lemma_find_unchanged_by_rules(p.presets, n, pi,
        with_table(p.presets[pi], table, MappingTableView { rules: inserted, ..t }), p.presets.len());
    assert(inserted.remove(index as int) =~= rules);
}

/// Moving a rule and then moving it back gives back the settings that were there before.
#[verifier::spinoff_prover]
pub proof fn move_then_move_back_restores(s: AppSettingsView, preset: Seq<char>, table: ProxyRuleTable, from: usize, to: usize)
    requires
        move_rule_spec(s, preset, table, from, to) is Ok,
    ensures
        move_rule_spec(move_rule_spec(s, preset, table, from, to)->Ok_0.0, preset, table, to, from) is Ok,
        move_rule_spec(move_rule_spec(s, preset, table, from, to)->Ok_0.0, preset, table, to, from)->Ok_0.0 == s,
{
    let n = trim_spec(preset);
    let p = s.proxy->0;
    lemma_find_bounds(p.presets, n, p.presets.len());
    let pi = find_preset(p.presets, n)->0;
    let rules = table_of(p.presets[pi], table).rules;
    let forward = moved(rules, from as int, to as int);
    lemma_rules_twice(p, pi, table, forward, rules);
    lemma_rules_roundtrip(p, pi, table, rules);
    let t = table_of(p.presets[pi], table);
    lemma_find_unchanged_by_rules(p.presets, n, pi,
        with_table(p.presets[pi], table, MappingTableView { rules: forward, ..t }), p.presets.len());
    assert(forward.len() == rules.len());
    if from != to {
        assert(forward[to as int] == rules[from as int]);
        assert(moved(forward, to as int, from as int) =~= rules);
    }
}

proof fn lemma_find_pushed(presets: Seq<PresetView>, name: Seq<char>, preset: PresetView, n: nat)
    requires
        n <= presets.len(),
        find_preset_upto(presets, name, n) is None,
    ensures
        find_preset_upto(presets.push(preset), name, n) is None,
    decreases n,
{
    if n > 0 {
        lemma_find_pushed(presets, name, preset, (n - 1) as nat);
    }
}

/// Creating a preset and then deleting it by the same name gives back the settings that were
/// there before, when proxy settings exist and their active preset is not that name.
pub proof fn create_then_delete_preset_restores(s: AppSettingsView, name: Seq<char>, initial: Option<PresetView>)
    requires
        create_spec(s, name, initial) is Ok,
        s.proxy is Some,
        !(s.proxy->0.active_preset matches Some(a) && trim_spec(a) == trim_spec(name)),
    ensures
        delete_preset_spec(create_spec(s, name, initial)->Ok_0.0, name) is Ok,
        delete_preset_spec(create_spec(s, name, initial)->Ok_0.0, name)->Ok_0.0 == s,
{
    let n = trim_spec(name);
    let p = s.proxy->0;
    let base = match initial { Some(x) => x, None => default_preset() };
    let preset = PresetView { name: n, ..base };
    let pushed = p.presets.push(preset);
    lemma_find_pushed(p.presets, n, preset, p.presets.len());
    assert(trim_spec(pushed[p.presets.len() as int].name) == trim_spec(n)) by {
        assert(pushed[p.presets.len() as int].name == n);
    }
    assert(find_preset(pushed, n) == Some(p.presets.len() as int));
    assert(pushed.remove(p.presets.len() as int) =~= p.presets);
}

// ---------------------------------------------------------------- what an effect means

/// A move of a rule to another position across rules that are all the same as it, which
/// leaves the table reading as it did.
pub open spec fn moves_among_equal_rules(s: AppSettingsView, m: MappingMutation) -> bool {
    match m {
        MappingMutation::MoveRule { preset, table, from, to } => match s.proxy {
            Some(p) => match find_preset(p.presets, trim_spec(preset@)) {
                Some(pi) => {
                    let rules = table_of(p.presets[pi], table).rules;
                    let lo: int = if from <= to { from as int } else { to as int };
                    let hi: int = if from <= to { to as int } else { from as int };
                    from != to && forall|k: int| lo <= k <= hi ==> #[trigger] rules[k] == rules[from as int]
                },
                None => false,
            },
            None => false,
        },
        _ => false,
    }
}

/// The preset names an object reference carries have no white space at either end.
pub open spec fn ref_names_trimmed(r: ObjectRefView) -> bool {
    match r {
        ObjectRefView::Preset { name } => trim_spec(name) == name,
        ObjectRefView::PresetName { name } => trim_spec(name) == name,
        ObjectRefView::Table { preset, .. } => trim_spec(preset) == preset,
        ObjectRefView::Rule { preset, .. } => trim_spec(preset) == preset,
        ObjectRefView::RuleField { preset, .. } => trim_spec(preset) == preset,
        _ => true,
    }
}

proof fn lemma_chain_equal<T>(s: Seq<T>, a: int, b: int)
    requires
        0 <= a <= b < s.len(),
        forall|k: int| #![trigger s[k]] a <= k < b ==> s[k] == s[k + 1],
    ensures
        forall|k: int| a <= k <= b ==> #[trigger] s[k] == s[a],
    decreases b - a,
{
    if b > a {
        lemma_chain_equal(s, a, b - 1);
        assert(s[b - 1] == s[b]);
    }
}

/// A move that gives back the same rules moved a rule across rules all the same as it.
proof fn lemma_unmoved_means_equal_run<T>(rules: Seq<T>, from: int, to: int)
    requires
        0 <= from < rules.len(),
        0 <= to < rules.len(),
        from != to,
        moved(rules, from, to) == rules,
    ensures
        forall|k: int| (if from <= to { from } else { to }) <= k <= (if from <= to { to } else { from })
            ==> #[trigger] rules[k] == rules[from],
{
    let m = moved(rules, from, to);
    if from < to {
        assert forall|k: int| #![trigger rules[k]] from <= k < to implies rules[k] == rules[k + 1] by {
            assert(m[k] == rules[k + 1]);
        }
        lemma_chain_equal(rules, from, to);
    } else {
        assert forall|k: int| #![trigger rules[k]] to <= k < from implies rules[k] == rules[k + 1] by {
            assert(m[k + 1] == rules[k]);
        }
        lemma_chain_equal(rules, to, from);
    }
}

proof fn lemma_with_rules_differs(s: AppSettingsView, pi: int, table: ProxyRuleTable, rules: Seq<MappingRuleView>)
    requires
        s.proxy is Some,
        0 <= pi < s.proxy->0.presets.len(),
        rules != table_of(s.proxy->0.presets[pi], table).rules,
    ensures
        with_proxy(s, with_rules(s.proxy->0, pi, table, rules)) != s,
{
    let q = with_rules(s.proxy->0, pi, table, rules);
    assert(table_of(q.presets[pi], table).rules == rules);
}

proof fn lemma_found(s: AppSettingsView, preset: Seq<char>) -> (pi: int)
    requires
        s.proxy is Some,
        find_preset(s.proxy->0.presets, trim_spec(preset)) is Some,
    ensures
        pi == find_preset(s.proxy->0.presets, trim_spec(preset))->0,
        0 <= pi < s.proxy->0.presets.len(),
{
    lemma_find_bounds(s.proxy->0.presets, trim_spec(preset), s.proxy->0.presets.len());
    find_preset(s.proxy->0.presets, trim_spec(preset))->0
}

proof fn lemma_changed_differs_create_preset(s: AppSettingsView, m: MappingMutation)
    requires
        m is CreatePreset,
        mutation_spec(s, m) is Ok,
        mutation_spec(s, m)->Ok_0.1.effect == MutationEffect::Changed,
    ensures
        mutation_spec(s, m)->Ok_0.0 != s,
{
    let r = mutation_spec(s, m)->Ok_0;
    let p = s.proxy->0;
    match m {
        MappingMutation::CreatePreset { .. } => {
            if s.proxy is Some {
                assert(r.0.proxy->0.presets.len() == p.presets.len() + 1);
            }
        },
        _ => {},
    }
}

proof fn lemma_changed_differs_rename_preset(s: AppSettingsView, m: MappingMutation)
    requires
        m is RenamePreset,
        mutation_spec(s, m) is Ok,
        mutation_spec(s, m)->Ok_0.1.effect == MutationEffect::Changed,
    ensures
        mutation_spec(s, m)->Ok_0.0 != s,
{
    let r = mutation_spec(s, m)->Ok_0;
    let p = s.proxy->0;
    match m {
        MappingMutation::RenamePreset { name, new_name } => {
            let idx = lemma_found(s, name@);
            assert(r.0.proxy->0.presets[idx].name == trim_spec(new_name@));
        },
        _ => {},
    }
}

proof fn lemma_changed_differs_delete_preset(s: AppSettingsView, m: MappingMutation)
    requires
        m is DeletePreset,
        mutation_spec(s, m) is Ok,
        mutation_spec(s, m)->Ok_0.1.effect == MutationEffect::Changed,
    ensures
        mutation_spec(s, m)->Ok_0.0 != s,
{
    let r = mutation_spec(s, m)->Ok_0;
    let p = s.proxy->0;
    match m {
        MappingMutation::DeletePreset { name } => {
            let idx = lemma_found(s, name@);
            assert(r.0.proxy->0.presets.len() + 1 == p.presets.len());
        },
        _ => {},
    }
}

proof fn lemma_changed_differs_set_table_enabled(s: AppSettingsView, m: MappingMutation)
    requires
        m is SetTableEnabled,
        mutation_spec(s, m) is Ok,
        mutation_spec(s, m)->Ok_0.1.effect == MutationEffect::Changed,
    ensures
        mutation_spec(s, m)->Ok_0.0 != s,
{
    let r = mutation_spec(s, m)->Ok_0;
    let p = s.proxy->0;
    match m {
        MappingMutation::SetTableEnabled { preset, table, .. } => {
            let idx = lemma_found(s, preset@);
            assert(table_of(r.0.proxy->0.presets[idx], table).enable != table_of(p.presets[idx], table).enable);
        },
        _ => {},
    }
}

proof fn lemma_changed_differs_append_remote_rule(s: AppSettingsView, m: MappingMutation)
    requires
        m is AppendRemoteRule,
        mutation_spec(s, m) is Ok,
        mutation_spec(s, m)->Ok_0.1.effect == MutationEffect::Changed,
    ensures
        mutation_spec(s, m)->Ok_0.0 != s,
{
    let r = mutation_spec(s, m)->Ok_0;
    let p = s.proxy->0;
    match m {
        MappingMutation::AppendRemoteRule { preset, rule } => {
            let pi = lemma_found(s, preset@);
            let rules = table_of(p.presets[pi], ProxyRuleTable::Remote).rules;
            assert(rules.insert(rules.len() as int, rule@).len() != rules.len());
            lemma_with_rules_differs(s, pi, ProxyRuleTable::Remote, rules.insert(rules.len() as int, rule@));
        },
        _ => {},
    }
}

proof fn lemma_changed_differs_insert_remote_rule(s: AppSettingsView, m: MappingMutation)
    requires
        m is InsertRemoteRule,
        mutation_spec(s, m) is Ok,
        mutation_spec(s, m)->Ok_0.1.effect == MutationEffect::Changed,
    ensures
        mutation_spec(s, m)->Ok_0.0 != s,
{
    let r = mutation_spec(s, m)->Ok_0;
    let p = s.proxy->0;
    match m {
        MappingMutation::InsertRemoteRule { preset, index, rule } => {
            let pi = lemma_found(s, preset@);
            let rules = table_of(p.presets[pi], ProxyRuleTable::Remote).rules;
            assert(rules.insert(index as int, rule@).len() != rules.len());
            lemma_with_rules_differs(s, pi, ProxyRuleTable::Remote, rules.insert(index as int, rule@));
        },
        _ => {},
    }
}

proof fn lemma_changed_differs_append_local_rule(s: AppSettingsView, m: MappingMutation)
    requires
        m is AppendLocalRule,
        mutation_spec(s, m) is Ok,
        mutation_spec(s, m)->Ok_0.1.effect == MutationEffect::Changed,
    ensures
        mutation_spec(s, m)->Ok_0.0 != s,
{
    let r = mutation_spec(s, m)->Ok_0;
    let p = s.proxy->0;
    match m {
        MappingMutation::AppendLocalRule { preset, rule } => {
            let pi = lemma_found(s, preset@);
            let rules = table_of(p.presets[pi], ProxyRuleTable::Local).rules;
            assert(rules.insert(rules.len() as int, rule@).len() != rules.len());
            lemma_with_rules_differs(s, pi, ProxyRuleTable::Local, rules.insert(rules.len() as int, rule@));
        },
        _ => {},
    }
}

proof fn lemma_changed_differs_insert_local_rule(s: AppSettingsView, m: MappingMutation)
    requires
        m is InsertLocalRule,
        mutation_spec(s, m) is Ok,
        mutation_spec(s, m)->Ok_0.1.effect == MutationEffect::Changed,
    ensures
        mutation_spec(s, m)->Ok_0.0 != s,
{
    let r = mutation_spec(s, m)->Ok_0;
    let p = s.proxy->0;
    match m {
        MappingMutation::InsertLocalRule { preset, index, rule } => {
            let pi = lemma_found(s, preset@);
            let rules = table_of(p.presets[pi], ProxyRuleTable::Local).rules;
            assert(rules.insert(index as int, rule@).len() != rules.len());
            lemma_with_rules_differs(s, pi, ProxyRuleTable::Local, rules.insert(index as int, rule@));
        },
        _ => {},
    }
}

proof fn lemma_changed_differs_update_remote_rule(s: AppSettingsView, m: MappingMutation)
    requires
        m is UpdateRemoteRule,
        mutation_spec(s, m) is Ok,
        mutation_spec(s, m)->Ok_0.1.effect == MutationEffect::Changed,
    ensures
        mutation_spec(s, m)->Ok_0.0 != s,
{
    let r = mutation_spec(s, m)->Ok_0;
    let p = s.proxy->0;
    match m {
        MappingMutation::UpdateRemoteRule { preset, index, from, to } => {
            let pi = lemma_found(s, preset@);
            let rules = table_of(p.presets[pi], ProxyRuleTable::Remote).rules;
            let next = rules.update(index as int, MappingRuleView { from: from@, to: to@, ..rules[index as int] });
            assert(next[index as int] != rules[index as int]);
            lemma_with_rules_differs(s, pi, ProxyRuleTable::Remote, next);
        },
        _ => {},
    }
}

proof fn lemma_changed_differs_update_local_rule(s: AppSettingsView, m: MappingMutation)
    requires
        m is UpdateLocalRule,
        mutation_spec(s, m) is Ok,
        mutation_spec(s, m)->Ok_0.1.effect == MutationEffect::Changed,
    ensures
        mutation_spec(s, m)->Ok_0.0 != s,
{
    let r = mutation_spec(s, m)->Ok_0;
    let p = s.proxy->0;
    match m {
        MappingMutation::UpdateLocalRule { preset, index, from, to } => {
            let pi = lemma_found(s, preset@);
            let rules = table_of(p.presets[pi], ProxyRuleTable::Local).rules;
            let next = rules.update(index as int, MappingRuleView { from: from@, to: to@, ..rules[index as int] });
            assert(next[index as int] != rules[index as int]);
            lemma_with_rules_differs(s, pi, ProxyRuleTable::Local, next);
        },
        _ => {},
    }
}

proof fn lemma_changed_differs_delete_rule(s: AppSettingsView, m: MappingMutation)
    requires
        m is DeleteRule,
        mutation_spec(s, m) is Ok,
        mutation_spec(s, m)->Ok_0.1.effect == MutationEffect::Changed,
    ensures
        mutation_spec(s, m)->Ok_0.0 != s,
{
    let r = mutation_spec(s, m)->Ok_0;
    let p = s.proxy->0;
    match m {
        MappingMutation::DeleteRule { preset, table, index } => {
            let pi = lemma_found(s, preset@);
            let rules = table_of(p.presets[pi], table).rules;
            assert(rules.remove(index as int).len() != rules.len());
            lemma_with_rules_differs(s, pi, table, rules.remove(index as int));
        },
        _ => {},
    }
}

proof fn lemma_changed_differs_move_rule(s: AppSettingsView, m: MappingMutation)
    requires
        m is MoveRule,
        mutation_spec(s, m) is Ok,
        mutation_spec(s, m)->Ok_0.1.effect == MutationEffect::Changed,
        !moves_among_equal_rules(s, m),
    ensures
        mutation_spec(s, m)->Ok_0.0 != s,
{
    let r = mutation_spec(s, m)->Ok_0;
    let p = s.proxy->0;
    match m {
        MappingMutation::MoveRule { preset, table, from, to } => {
            let pi = lemma_found(s, preset@);
            let rules = table_of(p.presets[pi], table).rules;
            if moved(rules, from as int, to as int) == rules {
                lemma_unmoved_means_equal_run(rules, from as int, to as int);
            }
            lemma_with_rules_differs(s, pi, table, moved(rules, from as int, to as int));
        },
        _ => {},
    }
}

proof fn lemma_changed_differs_set_rule_enabled(s: AppSettingsView, m: MappingMutation)
    requires
        m is SetRuleEnabled,
        mutation_spec(s, m) is Ok,
        mutation_spec(s, m)->Ok_0.1.effect == MutationEffect::Changed,
    ensures
        mutation_spec(s, m)->Ok_0.0 != s,
{
    let r = mutation_spec(s, m)->Ok_0;
    let p = s.proxy->0;
    match m {
        MappingMutation::SetRuleEnabled { preset, table, index, enabled } => {
            let pi = lemma_found(s, preset@);
            let rules = table_of(p.presets[pi], table).rules;
            let next = rules.update(index as int, MappingRuleView { enable: enabled, ..rules[index as int] });
            assert(next[index as int] != rules[index as int]);
            lemma_with_rules_differs(s, pi, table, next);
        },
        _ => {},
    }
}

proof fn lemma_changed_differs(s: AppSettingsView, m: MappingMutation)
    requires
        mutation_spec(s, m) is Ok,
        mutation_spec(s, m)->Ok_0.1.effect == MutationEffect::Changed,
        !moves_among_equal_rules(s, m),
    ensures
        mutation_spec(s, m)->Ok_0.0 != s,
{
    match m {
        MappingMutation::CreatePreset { .. } => lemma_changed_differs_create_preset(s, m),
        MappingMutation::RenamePreset { .. } => lemma_changed_differs_rename_preset(s, m),
        MappingMutation::DeletePreset { .. } => lemma_changed_differs_delete_preset(s, m),
        MappingMutation::SetActivePreset { .. } => {},
        MappingMutation::SetGlobalEnabled { .. } => {},
        MappingMutation::SetTableEnabled { .. } => lemma_changed_differs_set_table_enabled(s, m),
        MappingMutation::AppendRemoteRule { .. } => lemma_changed_differs_append_remote_rule(s, m),
        MappingMutation::InsertRemoteRule { .. } => lemma_changed_differs_insert_remote_rule(s, m),
        MappingMutation::AppendLocalRule { .. } => lemma_changed_differs_append_local_rule(s, m),
        MappingMutation::InsertLocalRule { .. } => lemma_changed_differs_insert_local_rule(s, m),
        MappingMutation::UpdateRemoteRule { .. } => lemma_changed_differs_update_remote_rule(s, m),
        MappingMutation::UpdateLocalRule { .. } => lemma_changed_differs_update_local_rule(s, m),
        MappingMutation::DeleteRule { .. } => lemma_changed_differs_delete_rule(s, m),
        MappingMutation::MoveRule { .. } => lemma_changed_differs_move_rule(s, m),
        MappingMutation::SetRuleEnabled { .. } => lemma_changed_differs_set_rule_enabled(s, m),
    }
}

proof fn lemma_affected_trimmed(s: AppSettingsView, m: MappingMutation)
    requires
        mutation_spec(s, m) is Ok,
    ensures
        ref_names_trimmed(mutation_spec(s, m)->Ok_0.1.affected),
{
    match m {
        MappingMutation::CreatePreset { name, .. } => lemma_trim_idempotent(name@),
        MappingMutation::RenamePreset { new_name, .. } => lemma_trim_idempotent(new_name@),
        MappingMutation::DeletePreset { name } => lemma_trim_idempotent(name@),
        MappingMutation::SetActivePreset { .. } => {},
        MappingMutation::SetGlobalEnabled { .. } => {},
        MappingMutation::SetTableEnabled { preset, .. } => lemma_trim_idempotent(preset@),
        MappingMutation::AppendRemoteRule { preset, .. } => lemma_trim_idempotent(preset@),
        MappingMutation::InsertRemoteRule { preset, .. } => lemma_trim_idempotent(preset@),
        MappingMutation::AppendLocalRule { preset, .. } => lemma_trim_idempotent(preset@),
        MappingMutation::InsertLocalRule { preset, .. } => lemma_trim_idempotent(preset@),
        MappingMutation::UpdateRemoteRule { preset, .. } => lemma_trim_idempotent(preset@),
        MappingMutation::UpdateLocalRule { preset, .. } => lemma_trim_idempotent(preset@),
        MappingMutation::DeleteRule { preset, .. } => lemma_trim_idempotent(preset@),
        MappingMutation::MoveRule { preset, .. } => lemma_trim_idempotent(preset@),
        MappingMutation::SetRuleEnabled { preset, .. } => lemma_trim_idempotent(preset@),
    }
}

/// What the effect of a mutation means: a mutation reported as `Changed` leaves settings
/// that differ from those it was given, except a move of a rule across rules that are all
/// the same as it; one reported as `Unchanged` leaves them as they were; and every preset
/// name it reports as affected has no white space at either end.
pub proof fn mutation_effect_tells_whether_settings_changed(s: AppSettingsView, m: MappingMutation)
    requires
        mutation_spec(s, m) is Ok,
    ensures
        mutation_spec(s, m)->Ok_0.1.effect == MutationEffect::Changed && !moves_among_equal_rules(s, m)
            ==> mutation_spec(s, m)->Ok_0.0 != s,
        mutation_spec(s, m)->Ok_0.1.effect == MutationEffect::Unchanged ==> mutation_spec(s, m)->Ok_0.0 == s,
        ref_names_trimmed(mutation_spec(s, m)->Ok_0.1.affected),
{
    if mutation_spec(s, m)->Ok_0.1.effect == MutationEffect::Unchanged {
        unchanged_mutation_keeps_settings(s, m);
    } else if !moves_among_equal_rules(s, m) {
        lemma_changed_differs(s, m);
    }
    lemma_affected_trimmed(s, m);
}

// ---------------------------------------------------------------- preset names stay distinct

/// No two presets have the same name once surrounding white space is removed.
pub open spec fn preset_names_distinct(s: AppSettingsView) -> bool {
    match s.proxy {
        None => true,
        Some(p) => forall|i: int, j: int|
            0 <= i < j < p.presets.len() ==> trim_spec(#[trigger] p.presets[i].name) != trim_spec(
                #[trigger] p.presets[j].name,
            ),
    }
}

proof fn lemma_find_none(presets: Seq<PresetView>, name: Seq<char>, n: nat)
    requires
        n <= presets.len(),
        find_preset_upto(presets, name, n) is None,
    ensures
        forall|i: int| 0 <= i < n ==> trim_spec(#[trigger] presets[i].name) != trim_spec(name),
    decreases n,
{
    if n > 0 {
        lemma_find_none(presets, name, (n - 1) as nat);
    }
}

proof fn lemma_same_names_distinct(s: AppSettingsView, t: AppSettingsView)
    requires
        preset_names_distinct(s),
        s.proxy is Some,
        t.proxy is Some,
        t.proxy->0.presets.len() == s.proxy->0.presets.len(),
        forall|i: int| 0 <= i < s.proxy->0.presets.len() ==> (#[trigger] t.proxy->0.presets[i]).name
            == s.proxy->0.presets[i].name,
    ensures
        preset_names_distinct(t),
{
    let a = s.proxy->0.presets;
    let b = t.proxy->0.presets;
    assert forall|i: int, j: int| 0 <= i < j < b.len() implies trim_spec(#[trigger] b[i].name) != trim_spec(
        #[trigger] b[j].name,
    ) by {
        assert(b[i].name == a[i].name && b[j].name == a[j].name);
    }
}

proof fn lemma_rules_keep_names(s: AppSettingsView, pi: int, table: ProxyRuleTable, rules: Seq<MappingRuleView>)
    requires
        preset_names_distinct(s),
        s.proxy is Some,
        0 <= pi < s.proxy->0.presets.len(),
    ensures
        preset_names_distinct(with_proxy(s, with_rules(s.proxy->0, pi, table, rules))),
{
    let t = with_proxy(s, with_rules(s.proxy->0, pi, table, rules));
    assert forall|i: int| 0 <= i < s.proxy->0.presets.len() implies (#[trigger] t.proxy->0.presets[i]).name
        == s.proxy->0.presets[i].name by {}
    lemma_same_names_distinct(s, t);
}

proof fn lemma_create_keeps_distinct(s: AppSettingsView, name: Seq<char>, initial: Option<PresetView>)
    requires
        preset_names_distinct(s),
        create_spec(s, name, initial) is Ok,
    ensures
        preset_names_distinct(create_spec(s, name, initial)->Ok_0.0),
{
    let n = trim_spec(name);
    let p = match s.proxy { Some(p) => p, None => default_proxy() };
    let t = create_spec(s, name, initial)->Ok_0.0;
    let b = t.proxy->0.presets;
    if s.proxy is Some {
        lemma_find_none(p.presets, n, p.presets.len());
    }
    lemma_trim_idempotent(name);
    assert forall|i: int, j: int| 0 <= i < j < b.len() implies trim_spec(#[trigger] b[i].name) != trim_spec(
        #[trigger] b[j].name,
    ) by {
        assert(b[i] == p.presets[i]);
        if j < p.presets.len() {
            assert(b[j] == p.presets[j]);
        } else {
            assert(b[j].name == n);
        }
    }
}

proof fn lemma_rename_keeps_distinct(s: AppSettingsView, name: Seq<char>, new_name: Seq<char>)
    requires
        preset_names_distinct(s),
        rename_spec(s, name, new_name) is Ok,
    ensures
        preset_names_distinct(rename_spec(s, name, new_name)->Ok_0.0),
{
    let n = trim_spec(name);
    let nn = trim_spec(new_name);
    let p = s.proxy->0;
    lemma_find_bounds(p.presets, name, p.presets.len());
    lemma_trim_idempotent(name);
    lemma_trim_idempotent(new_name);
    let idx = find_preset(p.presets, n)->0;
    lemma_find_bounds(p.presets, n, p.presets.len());
    let t = rename_spec(s, name, new_name)->Ok_0.0;
    let b = t.proxy->0.presets;
    assert(b == p.presets.update(idx, PresetView { name: nn, ..p.presets[idx] }));
    assert forall|c: int| 0 <= c < p.presets.len() && c != idx implies trim_spec(#[trigger] p.presets[c].name) != nn by {
        if n == nn {
            if c < idx {
                assert(trim_spec(p.presets[c].name) != trim_spec(p.presets[idx].name));
            } else {
                assert(trim_spec(p.presets[idx].name) != trim_spec(p.presets[c].name));
            }
        }
    }
    assert forall|i: int, j: int| 0 <= i < j < b.len() implies trim_spec(#[trigger] b[i].name) != trim_spec(
        #[trigger] b[j].name,
    ) by {
        if i == idx {
            assert(trim_spec(b[j].name) == trim_spec(p.presets[j].name));
        } else if j == idx {
            assert(trim_spec(b[i].name) == trim_spec(p.presets[i].name));
        } else {
            assert(b[i] == p.presets[i] && b[j] == p.presets[j]);
        }
    }
}

proof fn lemma_delete_keeps_distinct(s: AppSettingsView, name: Seq<char>)
    requires
        preset_names_distinct(s),
        delete_preset_spec(s, name) is Ok,
    ensures
        preset_names_distinct(delete_preset_spec(s, name)->Ok_0.0),
{
    let p = s.proxy->0;
    let n = trim_spec(name);
    lemma_find_bounds(p.presets, n, p.presets.len());
    let idx = find_preset(p.presets, n)->0;
    let b = p.presets.remove(idx);
    assert forall|i: int, j: int| 0 <= i < j < b.len() implies trim_spec(#[trigger] b[i].name) != trim_spec(
        #[trigger] b[j].name,
    ) by {
        let ii = if i < idx { i } else { i + 1 };
        let jj = if j < idx { j } else { j + 1 };
        assert(b[i] == p.presets[ii] && b[j] == p.presets[jj]);
    }
}

/// Renaming a preset to a name that another preset already has, once surrounding white
/// space is removed from both, is refused as a duplicate name at the new name, unless the
/// new name is the preset's own.
pub proof fn lemma_rename_to_taken_name_is_refused(s: AppSettingsView, name: String, new_name: String, other: int)
    requires
        s.proxy is Some,
        trim_spec(name@).len() > 0,
        trim_spec(new_name@).len() > 0,
        trim_spec(name@) != trim_spec(new_name@),
        find_preset(s.proxy->0.presets, trim_spec(name@)) is Some,
        0 <= other < s.proxy->0.presets.len(),
        other != find_preset(s.proxy->0.presets, trim_spec(name@))->0,
        trim_spec(s.proxy->0.presets[other].name) == trim_spec(new_name@),
    ensures
        mutation_spec(s, MappingMutation::RenamePreset { name, new_name }) == Err::<
            (AppSettingsView, MutationResultView),
            MutationErrorView,
        >(duplicate_name(trim_spec(new_name@))),
{
}

/// Every mutation that succeeds keeps the preset names distinct: a created preset takes a
/// name no preset has, a renamed one a name no other preset has, and the other mutations
/// leave the names as they are.
pub proof fn lemma_mutations_keep_preset_names_distinct(s: AppSettingsView, m: MappingMutation)
    requires
        preset_names_distinct(s),
        mutation_spec(s, m) is Ok,
    ensures
        preset_names_distinct(mutation_spec(s, m)->Ok_0.0),
{
    let t = mutation_spec(s, m)->Ok_0.0;
    match m {
        MappingMutation::CreatePreset { name, initial } => lemma_create_keeps_distinct(s, name@, opt_preset_view(initial)),
        MappingMutation::RenamePreset { name, new_name } => lemma_rename_keeps_distinct(s, name@, new_name@),
        MappingMutation::DeletePreset { name } => lemma_delete_keeps_distinct(s, name@),
        MappingMutation::SetActivePreset { .. } | MappingMutation::SetGlobalEnabled { .. } => {
            lemma_same_names_distinct(s, t);
        },
        MappingMutation::SetTableEnabled { preset, table, enabled } => {
            let p = s.proxy->0;
            lemma_find_bounds(p.presets, trim_spec(preset@), p.presets.len());
            let idx = find_preset(p.presets, trim_spec(preset@))->0;
            assert forall|i: int| 0 <= i < p.presets.len() implies (#[trigger] t.proxy->0.presets[i]).name
                == p.presets[i].name by {}
            lemma_same_names_distinct(s, t);
        },
        MappingMutation::AppendRemoteRule { preset, .. } | MappingMutation::InsertRemoteRule { preset, .. }
        | MappingMutation::UpdateRemoteRule { preset, .. } => {
            let p = s.proxy->0;
            lemma_find_bounds(p.presets, trim_spec(preset@), p.presets.len());
            let pi = find_preset(p.presets, trim_spec(preset@))->0;
            lemma_rules_keep_names(s, pi, ProxyRuleTable::Remote, table_of(t.proxy->0.presets[pi], ProxyRuleTable::Remote).rules);
        },
        MappingMutation::AppendLocalRule { preset, .. } | MappingMutation::InsertLocalRule { preset, .. }
        | MappingMutation::UpdateLocalRule { preset, .. } => {
            let p = s.proxy->0;
            lemma_find_bounds(p.presets, trim_spec(preset@), p.presets.len());
            let pi = find_preset(p.presets, trim_spec(preset@))->0;
            lemma_rules_keep_names(s, pi, ProxyRuleTable::Local, table_of(t.proxy->0.presets[pi], ProxyRuleTable::Local).rules);
        },
        MappingMutation::DeleteRule { preset, table, .. } | MappingMutation::MoveRule { preset, table, .. }
        | MappingMutation::SetRuleEnabled { preset, table, .. } => {
            let p = s.proxy->0;
            lemma_find_bounds(p.presets, trim_spec(preset@), p.presets.len());
            let pi = find_preset(p.presets, trim_spec(preset@))->0;
            lemma_rules_keep_names(s, pi, table, table_of(t.proxy->0.presets[pi], table).rules);
        },
    }
}

} // verus!
