//! Maps.

use vstd::prelude::*;
use std::rc::Rc;
use crate::equality::equal_values;
use crate::error::{AresError, AresResult, unexpected_arity, unexpected_type};
use crate::eval::context::Context;
use crate::eval::frames::{StepState, rest_of};
use crate::eval::semantics;
use crate::eval::semantics::{distinct_keys, key_index, table_of};
use crate::equality::values_equal;
use crate::value::ValueView;
use crate::eval::{lemma_rest_of, lemma_rest_of_end, transition};
use crate::value::{Value, entry_views, lemma_table_view, views};

verus! {

/// No entry before the one that a key is found at has an equal key.
pub proof fn lemma_key_index(entries: Seq<(ValueView, ValueView)>, key: ValueView, from: int)
    requires
        0 <= from <= entries.len(),
    ensures
        from <= key_index(entries, key, from) <= entries.len(),
        forall|k: int|
            from <= k < key_index(entries, key, from) ==> !values_equal(
                (#[trigger] entries[k]).0,
                key,
            ),
    decreases entries.len() - from,
{
    if from < entries.len() && !values_equal(entries[from].0, key) {
        lemma_key_index(entries, key, from + 1);
    }
}

/// A map in which no two keys are equal is one still after a key was given
/// a value.
pub proof fn lemma_insert_keeps_keys_distinct(
    entries: Seq<(ValueView, ValueView)>,
    key: ValueView,
    value: ValueView,
)
    requires
        distinct_keys(entries),
    ensures
        distinct_keys(semantics::table_insert(entries, key, value)),
{
    lemma_key_index(entries, key, 0);
    let after = semantics::table_insert(entries, key, value);
    let at = key_index(entries, key, 0);
    assert forall|i: int, j: int| 0 <= i < j < after.len() implies !values_equal(
        (#[trigger] after[i]).0,
        (#[trigger] after[j]).0,
    ) by {
        if at < entries.len() {
            assert(after[i].0 == entries[i].0);
            assert(after[j].0 == entries[j].0);
        } else if j < entries.len() {
            assert(after[i] == entries[i]);
            assert(after[j] == entries[j]);
        } else {
            assert(after[i] == entries[i]);
        }
    }
}

/// In the map made of keys and values that stand in turn, no two keys are
/// equal.
pub proof fn lemma_table_keys_distinct(items: Seq<ValueView>, n: int)
    ensures
        distinct_keys(table_of(items, n)),
    decreases n,
{
    if n > 0 && 2 * n <= items.len() {
        lemma_table_keys_distinct(items, n - 1);
        lemma_insert_keeps_keys_distinct(
            table_of(items, n - 1),
            items[2 * n - 2],
            items[2 * n - 1],
        );
    }
}

/// Gives `key` the value `value` in `entries`: the entry with an equal key
/// gets the value, or a new entry comes last. Where no two keys were equal,
/// none are afterwards.
pub fn table_insert(entries: &mut Vec<(Value, Value)>, key: Value, value: Value)
    ensures
        entry_views(final(entries)@) == semantics::table_insert(
            entry_views(old(entries)@),
            key@,
            value@,
        ),
        distinct_keys(entry_views(old(entries)@)) ==> distinct_keys(entry_views(final(entries)@)),
{
    let ghost all = entry_views(entries@);
    proof {
        if distinct_keys(all) {
            lemma_insert_keeps_keys_distinct(all, key@, value@);
        }
    }
    let mut i: usize = 0;
    while i < entries.len()
        invariant
            i <= entries.len(),
            *entries == *old(entries),
            all == entry_views(entries@),
            key_index(all, key@, 0) == key_index(all, key@, i as int),
        decreases entries.len() - i,
    {
        assert(all[i as int] == (entries@[i as int].0@, entries@[i as int].1@));
        if equal_values(&entries[i].0, &key) {
            let kept = entries[i].0.clone();
            entries[i] = (kept, value);
            assert(entry_views(entries@) =~= all.update(i as int, (all[i as int].0, value@)));
            return ;
        }
        i += 1;
    }
    entries.push((key, value));
    assert(entry_views(entries@) =~= all.push((key@, value@)));
}

/// The map made of the keys and values that stand in turn in `items`; no
/// two of its keys are equal.
pub fn table_from_items(items: &Vec<Value>) -> (r: Vec<(Value, Value)>)
    ensures
        entry_views(r@) == table_of(views(items@), items@.len() as int / 2),
        distinct_keys(entry_views(r@)),
{
    proof {
        lemma_table_keys_distinct(views(items@), items@.len() as int / 2);
    }
    let ghost all = views(items@);
    let mut entries: Vec<(Value, Value)> = Vec::new();
    let mut n: usize = 0;
    assert(entry_views(entries@) =~= table_of(all, 0));
    while 2 * n + 1 < items.len()
        invariant
            2 * n <= items.len(),
            all == views(items@),
            entry_views(entries@) == table_of(all, n as int),
        decreases items.len() - 2 * n,
    {
        assert(all[2 * n] == items@[2 * n]@);
        assert(all[2 * n + 1] == items@[2 * n + 1]@);
        table_insert(&mut entries, items[2 * n].clone(), items[2 * n + 1].clone());
        n += 1;
    }
    entries
}

/// Evaluates the next key of a `hash-map`, or returns the map.
pub fn table_next(entries: Vec<(Value, Value)>, form: Rc<Vec<Value>>, next: usize, ctx: &mut Context)
    -> (r: AresResult<()>)
    requires
        old(ctx).wf(),
    ensures
        transition(
            *old(ctx),
            *final(ctx),
            r,
            semantics::table_next(old(ctx)@, entry_views(entries@), rest_of(form@, next as int)),
        ),
{
    if next < form.len() {
        proof {
            lemma_rest_of(form@, next as int);
        }
        let key = form[next].clone();
        ctx.push(StepState::Table { entries: entries, key: None, form: form, next: next + 1 });
        ctx.request(key);
    } else {
        proof {
            lemma_rest_of_end(form@, next as int);
        }
        let table = Rc::new(entries);
        proof {
            lemma_table_view(table);
        }
        ctx.complete(Value::Table(table));
    }
    Ok(())
}

/// `(hash-map k v ..)`.
pub fn hash_map(args: Rc<Vec<Value>>, ctx: &mut Context) -> (r: AresResult<()>)
    requires
        old(ctx).wf(),
    ensures
        transition(*old(ctx), *final(ctx), r, semantics::hash_map(old(ctx)@, views(args@))),
{
    if args.len() % 2 == 1 {
        return Err(unexpected_arity(args.len(), "an even number"));
    }
    proof {
        if args@.len() > 0 {
            lemma_rest_of(args@, 0);
        } else {
            lemma_rest_of_end(args@, 0);
        }
    }
    let entries: Vec<(Value, Value)> = Vec::new();
    assert(entry_views(entries@) =~= Seq::empty());
    table_next(entries, args, 0, ctx)
}

/// A key or a value of a `hash-map` was evaluated to `v`.
pub fn from_table(
    entries: Vec<(Value, Value)>,
    key: Option<Value>,
    form: Rc<Vec<Value>>,
    next: usize,
    v: Value,
    ctx: &mut Context,
) -> (r: AresResult<()>)
    requires
        old(ctx).wf(),
    ensures
        transition(
            *old(ctx),
            *final(ctx),
            r,
            semantics::from_table(
                old(ctx)@,
                entry_views(entries@),
                match key {
                    Some(k) => Some(k@),
                    None => None,
                },
                rest_of(form@, next as int),
                v@,
            ),
        ),
{
    match key {
        None => {
            match &v {
                Value::List(_) => {
                    return Err(unexpected_type(&v, "a hashable type"));
                },
                Value::Table(_) => {
                    return Err(unexpected_type(&v, "a hashable type"));
                },
                _ => {},
            }
            if next < form.len() {
                proof {
                    lemma_rest_of(form@, next as int);
                }
                let value = form[next].clone();
                ctx.push(
                    StepState::Table { entries: entries, key: Some(v), form: form, next: next + 1 },
                );
                ctx.request(value);
                Ok(())
            } else {
                proof {
                    lemma_rest_of_end(form@, next as int);
                }
                Err(AresError::InvalidState("a key without a value".to_owned()))
            }
        },
        Some(k) => {
            let mut entries = entries;
            table_insert(&mut entries, k, v);
            table_next(entries, form, next, ctx)
        },
    }
}

} // verus!
