//! The GPU usage of processes.

use crate::sensor::{Float64, GPUSensor, SensorError, SensorType};
use std::collections::HashMap;
use vstd::prelude::*;
use vstd::std_specs::hash::*;

verus! {

/// The list of usages put into a map, later ones in the place of earlier.
pub open spec fn extended(usages: Map<u32, Float64>, list: Seq<(u32, Float64)>) -> Map<u32, Float64>
    decreases list.len(),
{
    if list.len() == 0 {
        usages
    } else {
        extended(usages, list.drop_last()).insert(list.last().0, list.last().1)
    }
}

/// The usages of all GPUs that answered, those of later GPUs in the place of
/// earlier.
pub open spec fn merged_usage(
    answers: Seq<Result<Vec<(u32, Float64)>, SensorError>>,
) -> Map<u32, Float64>
    decreases answers.len(),
{
    if answers.len() == 0 {
        Map::empty()
    } else {
        match answers.last() {
            Ok(list) => extended(merged_usage(answers.drop_last()), list@),
            Err(_) => merged_usage(answers.drop_last()),
        }
    }
}

/// Merges what every GPU sensor answered; a GPU that gave no answer is passed
/// over.
pub fn merge_gpu_usage(
    answers: &Vec<Result<Vec<(u32, Float64)>, SensorError>>,
) -> (r: HashMap<u32, Float64>)
    ensures
        r@ == merged_usage(answers@),
{
    broadcast use group_hash_axioms;

    let mut usages: HashMap<u32, Float64> = HashMap::new();
    for i in 0..answers.len()
        invariant
            usages@ == merged_usage(answers@.take(i as int)),
    {
        let ghost before = usages@;
        proof {
            assert(answers@.take(i + 1).drop_last() == answers@.take(i as int));
            assert(answers@.take(i + 1).last() == answers@[i as int]);
        }
        if let Ok(list) = &answers[i] {
            assert(list@.take(0) == Seq::<(u32, Float64)>::empty());
            for k in 0..list.len()
                invariant
                    usages@ == extended(before, list@.take(k as int)),
            {
                let (pid, usage_percent) = list[k];
                usages.insert(pid, usage_percent);
                assert(list@.take(k + 1).drop_last() == list@.take(k as int));
            }
            assert(list@.take(list@.len() as int) == list@);
        }
    }
    assert(answers@.take(answers@.len() as int) == answers@);
    usages
}

/// The GPUs among the sensors, in order.
pub open spec fn gpu_sensors<S>(sensors: Seq<SensorType<S>>) -> Seq<GPUSensor<S>>
    decreases sensors.len(),
{
    if sensors.len() == 0 {
        Seq::empty()
    } else {
        match sensors.last() {
            SensorType::GPU(g) => gpu_sensors(sensors.drop_last()).push(g),
            _ => gpu_sensors(sensors.drop_last()),
        }
    }
}

/// The answers are what the GPUs said of their processes.
pub open spec fn usage_asked<
    S,
    F: Fn(&GPUSensor<S>, u64) -> Result<Vec<(u32, Float64)>, SensorError>,
>(
    ask: F,
    timestamp_secs: u64,
    gpus: Seq<GPUSensor<S>>,
    answers: Seq<Result<Vec<(u32, Float64)>, SensorError>>,
) -> bool {
    &&& answers.len() == gpus.len()
    &&& forall|k: int|
        0 <= k < answers.len() ==> call_ensures(
            ask,
            (&gpus[k], timestamp_secs),
            #[trigger] answers[k],
        )
}

/// The GPU usage of each process: every GPU is asked, at the given second, and
/// the answers are merged.
pub fn get_process_gpu_usage<
    S,
    F: Fn(&GPUSensor<S>, u64) -> Result<Vec<(u32, Float64)>, SensorError>,
>(sensors: &Vec<SensorType<S>>, timestamp_secs: u64, ask: F) -> (r: HashMap<u32, Float64>)
    requires
        forall|g: &GPUSensor<S>| call_requires(ask, (g, timestamp_secs)),
    ensures
        exists|answers: Seq<Result<Vec<(u32, Float64)>, SensorError>>|
            #[trigger] usage_asked(ask, timestamp_secs, gpu_sensors(sensors@), answers) && r@
                == merged_usage(answers),
{
    let mut answers: Vec<Result<Vec<(u32, Float64)>, SensorError>> = Vec::new();
    for i in 0..sensors.len()
        invariant
            forall|g: &GPUSensor<S>| call_requires(ask, (g, timestamp_secs)),
            usage_asked(ask, timestamp_secs, gpu_sensors(sensors@.take(i as int)), answers@),
    {
        let ghost asked = gpu_sensors(sensors@.take(i as int));
        proof {
            assert(sensors@.take(i + 1).drop_last() == sensors@.take(i as int));
        }
        if let SensorType::GPU(gpu) = &sensors[i] {
            let answer = ask(gpu, timestamp_secs);
            let ghost before = answers@;
            answers.push(answer);
            proof {
                let now = asked.push(*gpu);
                assert(gpu_sensors(sensors@.take(i + 1)) == now);
                assert forall|k: int| 0 <= k < answers@.len() implies call_ensures(
                    ask,
                    (&now[k], timestamp_secs),
                    #[trigger] answers@[k],
                ) by {
                    if k < before.len() {
                        assert(answers@[k] == before[k]);
                        assert(now[k] == asked[k]);
                    }
                }
            }
        } else {
            assert(gpu_sensors(sensors@.take(i + 1)) == asked);
        }
    }
    assert(sensors@.take(sensors@.len() as int) == sensors@);
    merge_gpu_usage(&answers)
}

proof fn lemma_extended(usages: Map<u32, Float64>, list: Seq<(u32, Float64)>, pid: u32)
    ensures
        extended(usages, list).contains_key(pid) <==> usages.contains_key(pid) || exists|k: int|
            0 <= k < list.len() && (#[trigger] list[k]).0 == pid,
        (forall|k: int| 0 <= k < list.len() ==> (#[trigger] list[k]).0 != pid) && usages.contains_key(pid)
            ==> extended(usages, list)[pid] == usages[pid],
    decreases list.len(),
{
    if list.len() > 0 {
        let front = list.drop_last();
        lemma_extended(usages, front, pid);
        if exists|k: int| 0 <= k < list.len() && (#[trigger] list[k]).0 == pid {
            let k = choose|k: int| 0 <= k < list.len() && (#[trigger] list[k]).0 == pid;
            if k < list.len() - 1 {
                assert(front[k].0 == pid);
            }
        }
        if exists|k: int| 0 <= k < front.len() && (#[trigger] front[k]).0 == pid {
            let k = choose|k: int| 0 <= k < front.len() && (#[trigger] front[k]).0 == pid;
            assert(list[k].0 == pid);
        }
        assert(list[list.len() - 1] == list.last());
        assert forall|k: int|
            (forall|h: int| 0 <= h < list.len() ==> (#[trigger] list[h]).0 != pid) && 0 <= k
                < front.len() implies (#[trigger] front[k]).0 != pid by {
            assert(front[k] == list[k]);
        }
    }
}

proof fn lemma_extended_last(usages: Map<u32, Float64>, list: Seq<(u32, Float64)>, k: int)
    requires
        0 <= k < list.len(),
        forall|h: int| k < h < list.len() ==> (#[trigger] list[h]).0 != list[k].0,
    ensures
        extended(usages, list).contains_key(list[k].0),
        extended(usages, list)[list[k].0] == list[k].1,
    decreases list.len(),
{
    if k < list.len() - 1 {
        let front = list.drop_last();
        assert(list[list.len() - 1] == list.last());
        assert forall|h: int| k < h < front.len() implies (#[trigger] front[h]).0 != front[k].0 by {
            assert(front[h] == list[h]);
        }
        lemma_extended_last(usages, front, k);
    }
}

proof fn lemma_merged(answers: Seq<Result<Vec<(u32, Float64)>, SensorError>>, pid: u32)
    ensures
        merged_usage(answers).contains_key(pid) <==> exists|i: int, k: int|
            #![trigger answers[i]->Ok_0@[k]]
            0 <= i < answers.len() && answers[i] is Ok && 0 <= k < answers[i]->Ok_0@.len()
                && answers[i]->Ok_0@[k].0 == pid,
    decreases answers.len(),
{
    if answers.len() > 0 {
        let front = answers.drop_last();
        let n = answers.len() - 1;
        lemma_merged(front, pid);
        if let Ok(list) = answers.last() {
            lemma_extended(merged_usage(front), list@, pid);
            if exists|k: int| 0 <= k < list@.len() && (#[trigger] list@[k]).0 == pid {
                let k = choose|k: int| 0 <= k < list@.len() && (#[trigger] list@[k]).0 == pid;
                assert(answers[n]->Ok_0@[k].0 == pid);
            }
        }
        if merged_usage(front).contains_key(pid) {
            let (i, k) = choose|i: int, k: int|
                #![trigger front[i]->Ok_0@[k]]
                0 <= i < front.len() && front[i] is Ok && 0 <= k < front[i]->Ok_0@.len()
                    && front[i]->Ok_0@[k].0 == pid;
            assert(answers[i]->Ok_0@[k].0 == pid);
        }
        if exists|i: int, k: int|
            #![trigger answers[i]->Ok_0@[k]]
            0 <= i < answers.len() && answers[i] is Ok && 0 <= k < answers[i]->Ok_0@.len()
                && answers[i]->Ok_0@[k].0 == pid {
            let (i, k) = choose|i: int, k: int|
                #![trigger answers[i]->Ok_0@[k]]
                0 <= i < answers.len() && answers[i] is Ok && 0 <= k < answers[i]->Ok_0@.len()
                    && answers[i]->Ok_0@[k].0 == pid;
            if i < n {
                assert(front[i]->Ok_0@[k].0 == pid);
            }
        }
    }
}

/// A process has a usage exactly if some GPU that answered lists it.
pub proof fn law_merged_usage_is_what_some_gpu_reported(
    answers: Vec<Result<Vec<(u32, Float64)>, SensorError>>,
    r: HashMap<u32, Float64>,
    pid: u32,
)
    requires
        call_ensures(merge_gpu_usage, (&answers,), r),
    ensures
        r@.contains_key(pid) <==> exists|i: int, k: int|
            #![trigger answers@[i]->Ok_0@[k]]
            0 <= i < answers@.len() && answers@[i] is Ok && 0 <= k < answers@[i]->Ok_0@.len()
                && answers@[i]->Ok_0@[k].0 == pid,
{
    lemma_merged(answers@, pid);
}

/// The last word counts: a process has the usage that stands last in the list of
/// the last GPU that lists it.
pub proof fn law_the_last_report_of_a_process_counts(
    answers: Vec<Result<Vec<(u32, Float64)>, SensorError>>,
    r: HashMap<u32, Float64>,
    i: int,
    k: int,
)
    requires
        call_ensures(merge_gpu_usage, (&answers,), r),
        0 <= i < answers@.len(),
        answers@[i] is Ok,
        0 <= k < answers@[i]->Ok_0@.len(),
        forall|h: int|
            k < h < answers@[i]->Ok_0@.len() ==> (#[trigger] answers@[i]->Ok_0@[h]).0
                != answers@[i]->Ok_0@[k].0,
        forall|g: int, h: int|
            #![trigger answers@[g]->Ok_0@[h]]
            i < g < answers@.len() && answers@[g] is Ok && 0 <= h < answers@[g]->Ok_0@.len()
                ==> answers@[g]->Ok_0@[h].0 != answers@[i]->Ok_0@[k].0,
    ensures
        r@.contains_key(answers@[i]->Ok_0@[k].0),
        r@[answers@[i]->Ok_0@[k].0] == answers@[i]->Ok_0@[k].1,
{
    lemma_merged_last(answers@, i, k);
}

proof fn lemma_merged_last(
    answers: Seq<Result<Vec<(u32, Float64)>, SensorError>>,
    i: int,
    k: int,
)
    requires
        0 <= i < answers.len(),
        answers[i] is Ok,
        0 <= k < answers[i]->Ok_0@.len(),
        forall|h: int|
            k < h < answers[i]->Ok_0@.len() ==> (#[trigger] answers[i]->Ok_0@[h]).0
                != answers[i]->Ok_0@[k].0,
        forall|g: int, h: int|
            #![trigger answers[g]->Ok_0@[h]]
            i < g < answers.len() && answers[g] is Ok && 0 <= h < answers[g]->Ok_0@.len()
                ==> answers[g]->Ok_0@[h].0 != answers[i]->Ok_0@[k].0,
    ensures
        merged_usage(answers).contains_key(answers[i]->Ok_0@[k].0),
        merged_usage(answers)[answers[i]->Ok_0@[k].0] == answers[i]->Ok_0@[k].1,
    decreases answers.len(),
{
    let front = answers.drop_last();
    let n = answers.len() - 1;
    if i == n {
        lemma_extended_last(merged_usage(front), answers[i]->Ok_0@, k);
    } else {
        assert forall|g: int, h: int|
            #![trigger front[g]->Ok_0@[h]]
            i < g < front.len() && front[g] is Ok && 0 <= h < front[g]->Ok_0@.len() implies front[g]->Ok_0@[h].0
            != front[i]->Ok_0@[k].0 by {
            assert(answers[g]->Ok_0@[h].0 != answers[i]->Ok_0@[k].0);
        }
        lemma_merged_last(front, i, k);
        if let Ok(list) = answers.last() {
            let pid = answers[i]->Ok_0@[k].0;
            assert forall|h: int| 0 <= h < list@.len() implies (#[trigger] list@[h]).0 != pid by {
                assert(answers[n]->Ok_0@[h].0 != pid);
            }
            lemma_extended(merged_usage(front), list@, pid);
        }
    }
}

/// The GPUs among the sensors are asked, all of them and nothing else, each in
/// its turn: sensor `j`, if it is a GPU, is behind the GPUs before it.
pub proof fn law_every_gpu_is_asked_in_its_turn<S>(sensors: Seq<SensorType<S>>, j: int)
    requires
        0 <= j < sensors.len(),
    ensures
        gpu_sensors(sensors).len() == sensors.filter(|s: SensorType<S>| s is GPU).len(),
        sensors[j] matches SensorType::GPU(g) ==> {
            let i = sensors.take(j).filter(|s: SensorType<S>| s is GPU).len() as int;
            i < gpu_sensors(sensors).len() && gpu_sensors(sensors)[i] == g
        },
    decreases sensors.len(),
{
    reveal(Seq::filter);
    let p = |s: SensorType<S>| s is GPU;
    let front = sensors.drop_last();
    lemma_gpu_count(front);
    lemma_gpu_count(sensors);
    if j == sensors.len() - 1 {
        assert(sensors.take(j) == front);
    } else {
        law_every_gpu_is_asked_in_its_turn(front, j);
        assert(front.take(j) == sensors.take(j));
    }
}

proof fn lemma_gpu_count<S>(sensors: Seq<SensorType<S>>)
    ensures
        gpu_sensors(sensors).len() == sensors.filter(|s: SensorType<S>| s is GPU).len(),
    decreases sensors.len(),
{
    reveal(Seq::filter);
    if sensors.len() > 0 {
        lemma_gpu_count(sensors.drop_last());
    }
}

/// The usage of processes comes from the GPUs: there is an answer of each, given
/// at the second that was named, and a process has a usage exactly if one of
/// these answers lists it.
pub proof fn law_usage_comes_from_the_gpus<
    S,
    F: Fn(&GPUSensor<S>, u64) -> Result<Vec<(u32, Float64)>, SensorError>,
>(
    sensors: Vec<SensorType<S>>,
    timestamp_secs: u64,
    ask: F,
    r: HashMap<u32, Float64>,
)
    requires
        call_ensures(get_process_gpu_usage::<S, F>, (&sensors, timestamp_secs, ask), r),
    ensures
        exists|told: Seq<Result<Vec<(u32, Float64)>, SensorError>>|
            {
                &&& r@ == #[trigger] merged_usage(told)
                &&& told.len() == sensors@.filter(|s: SensorType<S>| s is GPU).len()
                &&& forall|j: int|
                    0 <= j < sensors@.len() ==> ((#[trigger] sensors@[j]) matches SensorType::GPU(g)
                        ==> call_ensures(
                        ask,
                        (&g, timestamp_secs),
                        told[sensors@.take(j).filter(|s: SensorType<S>| s is GPU).len() as int],
                    ))
                &&& forall|pid: u32| #[trigger]
                    r@.contains_key(pid) <==> exists|i: int, k: int|
                        #![trigger told[i]->Ok_0@[k]]
                        0 <= i < told.len() && told[i] is Ok && 0 <= k < told[i]->Ok_0@.len()
                            && told[i]->Ok_0@[k].0 == pid
            },
{
    let told = choose|told: Seq<Result<Vec<(u32, Float64)>, SensorError>>|
        #[trigger] usage_asked(ask, timestamp_secs, gpu_sensors(sensors@), told) && r@ == merged_usage(told);
    lemma_gpu_count(sensors@);
    assert forall|j: int| 0 <= j < sensors@.len() implies ((#[trigger] sensors@[j]) matches SensorType::GPU(g)
        ==> call_ensures(
        ask,
        (&g, timestamp_secs),
        told[sensors@.take(j).filter(|s: SensorType<S>| s is GPU).len() as int],
    )) by {
        law_every_gpu_is_asked_in_its_turn(sensors@, j);
    }
    assert forall|pid: u32| #[trigger] r@.contains_key(pid) <==> exists|i: int, k: int|
        #![trigger told[i]->Ok_0@[k]]
        0 <= i < told.len() && told[i] is Ok && 0 <= k < told[i]->Ok_0@.len() && told[i]->Ok_0@[k].0 == pid by {
        lemma_merged(told, pid);
    }
    assert(r@ == merged_usage(told));
}

} // verus!
