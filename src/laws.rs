//! Properties of the test plan that hold for every document.
use crate::directive::{parse_info, word_ignore, StepModel};
use crate::executor::{open_after, plan};
use crate::scanner::EventModel;
use crate::text::{split_on, trim};
use vstd::prelude::*;

verus! {

/// Events that hold no directive leave no step open and run no step.
pub proof fn law_no_directive_runs_nothing(evs: Seq<EventModel>)
    requires
        forall|i: int|
            0 <= i < evs.len() ==> (#[trigger] evs[i] matches EventModel::FenceStart(info)
                ==> parse_info(info) is None),
    ensures
        plan(evs) == Seq::<StepModel>::empty(),
        open_after(evs) is None,
    decreases evs.len(),
{
    if evs.len() > 0 {
        let init = evs.drop_last();
        assert forall|i: int|
            0 <= i < init.len() implies (#[trigger] init[i] matches EventModel::FenceStart(info)
                ==> parse_info(info) is None) by {
            assert(init[i] == evs[i]);
        }
        law_no_directive_runs_nothing(init);
        assert(evs.last() == evs[evs.len() - 1]);
    }
}

/// No step that is marked to be skipped is ever run.
pub proof fn law_skipped_steps_never_run(evs: Seq<EventModel>)
    ensures
        forall|i: int| 0 <= i < plan(evs).len() ==> !(#[trigger] plan(evs)[i]).ignore,
    decreases evs.len(),
{
    if evs.len() > 0 {
        law_skipped_steps_never_run(evs.drop_last());
    }
}

/// A code block whose directive is marked to be skipped runs nothing: the events
/// after it run the same steps as they would without it.
pub proof fn law_skipped_block_runs_nothing(evs: Seq<EventModel>, info: Seq<char>, body: Seq<char>)
    requires
        parse_info(info) matches Some(s) && s.ignore,
    ensures
        plan(evs + seq![EventModel::FenceStart(info), EventModel::Text(body), EventModel::CodeEnd])
            == plan(evs),
        open_after(
            evs + seq![EventModel::FenceStart(info), EventModel::Text(body), EventModel::CodeEnd],
        ) is None,
{
    lemma_block_steps(evs, info, body);
}

/// A code block whose info string is not a directive is no test: the events
/// after it run the same steps as they would without it.
pub proof fn law_invalid_directive_runs_nothing(evs: Seq<EventModel>, info: Seq<char>, body: Seq<char>)
    requires
        parse_info(info) is None,
    ensures
        plan(evs + seq![EventModel::FenceStart(info), EventModel::Text(body), EventModel::CodeEnd])
            == plan(evs),
        open_after(
            evs + seq![EventModel::FenceStart(info), EventModel::Text(body), EventModel::CodeEnd],
        ) is None,
{
    lemma_block_steps(evs, info, body);
}

proof fn lemma_block_steps(evs: Seq<EventModel>, info: Seq<char>, body: Seq<char>)
    ensures
        ({
            let e1 = evs.push(EventModel::FenceStart(info));
            let e2 = e1.push(EventModel::Text(body));
            let e3 = e2.push(EventModel::CodeEnd);
            &&& e3 == evs + seq![
                EventModel::FenceStart(info),
                EventModel::Text(body),
                EventModel::CodeEnd,
            ]
            &&& e1.drop_last() == evs
            &&& e2.drop_last() == e1
            &&& e3.drop_last() == e2
            &&& plan(e1) == plan(evs)
            &&& plan(e2) == plan(evs)
            &&& open_after(e3) is None
            &&& (parse_info(info) matches Some(s) && s.ignore) || parse_info(info) is None
                ==> plan(e3) == plan(evs)
        }),
{
    let e1 = evs.push(EventModel::FenceStart(info));
    let e2 = e1.push(EventModel::Text(body));
    let e3 = e2.push(EventModel::CodeEnd);
    assert(e3 =~= evs + seq![
        EventModel::FenceStart(info),
        EventModel::Text(body),
        EventModel::CodeEnd,
    ]);
    assert(e1.drop_last() =~= evs);
    assert(e2.drop_last() =~= e1);
    assert(e3.drop_last() =~= e2);
}

/// Whitespace around the tokens of a directive does not matter: two info strings
/// with as many comma-separated tokens, equal once trimmed, parse alike.
pub proof fn law_directive_ignores_whitespace(a: Seq<char>, b: Seq<char>)
    requires
        split_on(a, ',').len() == split_on(b, ',').len(),
        forall|j: int|
            0 <= j < split_on(a, ',').len() ==> trim(#[trigger] split_on(a, ',')[j]) == trim(
                split_on(b, ',')[j],
            ),
    ensures
        parse_info(a) == parse_info(b),
{
    crate::text::lemma_split_nonempty(a, ',');
    let ta = split_on(a, ',');
    let tb = split_on(b, ',');
    assert(trim(ta[0]) == trim(tb[0]));
    assert((forall|j: int| 1 <= j < ta.len() ==> trim(#[trigger] ta[j]) == word_ignore())
        == (forall|j: int| 1 <= j < tb.len() ==> trim(#[trigger] tb[j]) == word_ignore())) by {
        if forall|j: int| 1 <= j < ta.len() ==> trim(#[trigger] ta[j]) == word_ignore() {
            assert forall|j: int| 1 <= j < tb.len() implies trim(#[trigger] tb[j]) == word_ignore() by {
                assert(trim(ta[j]) == trim(tb[j]));
            }
        }
        if forall|j: int| 1 <= j < tb.len() ==> trim(#[trigger] tb[j]) == word_ignore() {
            assert forall|j: int| 1 <= j < ta.len() implies trim(#[trigger] ta[j]) == word_ignore() by {
                assert(trim(ta[j]) == trim(tb[j]));
            }
        }
    }
}

/// The steps run by a prefix of the events are the first ones run by all of them.
pub proof fn law_plan_grows_by_prefix(evs: Seq<EventModel>, k: int)
    requires
        0 <= k <= evs.len(),
    ensures
        plan(evs.take(k)).len() <= plan(evs).len(),
        plan(evs).take(plan(evs.take(k)).len() as int) == plan(evs.take(k)),
    decreases evs.len() - k,
{
    if k == evs.len() {
        assert(evs.take(k) =~= evs);
        assert(plan(evs).take(plan(evs).len() as int) =~= plan(evs));
    } else {
        law_plan_grows_by_prefix(evs, k + 1);
        assert(evs.take(k + 1).drop_last() =~= evs.take(k));
        let p = plan(evs.take(k));
        let q = plan(evs.take(k + 1));
        assert(q.take(p.len() as int) =~= p);
        assert(plan(evs).take(p.len() as int) =~= q.take(p.len() as int));
    }
}

} // verus!
