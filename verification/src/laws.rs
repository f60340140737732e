use vstd::prelude::*;

verus! {

use crate::services::tasks_for;
use crate::services::shown_task;
use crate::services::services_listing;
use crate::services::ServiceV;
use crate::store::StoreV;
use crate::store::TaskRecV;
use crate::store::with_name;

/// Every entry of a shown task group carries the service id it is grouped
/// under.
pub proof fn lemma_tasks_for_service_id(tasks: Seq<TaskRecV>, sid: i32)
    ensures
        forall|k: int|
            0 <= k < tasks_for(tasks, sid).len() ==> (#[trigger] tasks_for(tasks, sid)[k]).service_id
                == sid,
    decreases tasks.len(),
{
    if tasks.len() > 0 {
        lemma_tasks_for_service_id(tasks.drop_last(), sid);
        let l = tasks_for(tasks, sid);
        let rest = tasks_for(tasks.drop_last(), sid);
        assert forall|k: int| 0 <= k < l.len() implies (#[trigger] l[k]).service_id == sid by {
            if tasks.last().service_id == sid {
                if k < rest.len() {
                    assert(l[k] == rest[k]);
                } else {
                    assert(l[k] == shown_task(tasks.last()));
                }
            } else {
                assert(l[k] == rest[k]);
            }
        }
    }
}

/// A stored task whose service_id is sid appears in the shown group for sid.
pub proof fn lemma_tasks_for_complete(tasks: Seq<TaskRecV>, sid: i32, j: int)
    requires
        0 <= j < tasks.len(),
        tasks[j].service_id == sid,
    ensures
        tasks_for(tasks, sid).contains(shown_task(tasks[j])),
    decreases tasks.len(),
{
    if j == tasks.len() - 1 {
        let l = tasks_for(tasks, sid);
        assert(tasks.last() == tasks[j]);
        assert(l[l.len() - 1] == shown_task(tasks[j]));
    } else {
        lemma_tasks_for_complete(tasks.drop_last(), sid, j);
        let rest = tasks_for(tasks.drop_last(), sid);
        let w = choose|w: int| 0 <= w < rest.len() && rest[w] == shown_task(tasks.drop_last()[j]);
        assert(tasks.drop_last()[j] == tasks[j]);
        assert(tasks_for(tasks, sid)[w] == shown_task(tasks[j]));
    }
}

/// The grouping law. In the listing of a well-formed store, every task sits
/// under exactly the service whose id equals its service_id: each entry's
/// tasks all carry that entry's id, every stored task that references a
/// listed service appears under that service's entry, and no task appears
/// under two different entries.
pub proof fn lemma_listing_groups(st: StoreV)
    requires
        st.wf(),
    ensures
        services_listing(st).len() == st.services.len(),
        forall|i: int, k: int|
            0 <= i < st.services.len() && 0 <= k < services_listing(st)[i].tasks.len() ==> (
            #[trigger] services_listing(st)[i].tasks[k]).service_id == st.services[i].id,
        forall|i: int, j: int|
            0 <= i < st.services.len() && 0 <= j < st.tasks.len() && st.tasks[j].service_id
                == st.services[i].id ==> #[trigger] services_listing(st)[i].tasks.contains(
                shown_task(st.tasks[j]),
            ),
        forall|i1: int, i2: int, k: int|
            0 <= i1 < st.services.len() && 0 <= i2 < st.services.len() && i1 != i2 && 0 <= k
                < services_listing(st)[i1].tasks.len() ==> !(
            #[trigger] services_listing(st)[i2].tasks.contains(
                services_listing(st)[i1].tasks[k],
            )),
{
    assert forall|i: int, k: int|
        0 <= i < st.services.len() && 0 <= k < services_listing(st)[i].tasks.len() implies (
    #[trigger] services_listing(st)[i].tasks[k]).service_id == st.services[i].id by {
        lemma_tasks_for_service_id(st.tasks, st.services[i].id);
        assert(services_listing(st)[i].tasks == tasks_for(st.tasks, st.services[i].id));
    }
    assert forall|i: int, j: int|
        0 <= i < st.services.len() && 0 <= j < st.tasks.len() && st.tasks[j].service_id
            == st.services[i].id implies #[trigger] services_listing(st)[i].tasks.contains(
        shown_task(st.tasks[j]),
    ) by {
        lemma_tasks_for_complete(st.tasks, st.services[i].id, j);
        assert(services_listing(st)[i].tasks == tasks_for(st.tasks, st.services[i].id));
    }
    assert forall|i1: int, i2: int, k: int|
        0 <= i1 < st.services.len() && 0 <= i2 < st.services.len() && i1 != i2 && 0 <= k
            < services_listing(st)[i1].tasks.len() implies !(
        #[trigger] services_listing(st)[i2].tasks.contains(
            services_listing(st)[i1].tasks[k],
        )) by {
        lemma_tasks_for_service_id(st.tasks, st.services[i1].id);
        lemma_tasks_for_service_id(st.tasks, st.services[i2].id);
        assert(services_listing(st)[i1].tasks == tasks_for(st.tasks, st.services[i1].id));
        assert(services_listing(st)[i2].tasks == tasks_for(st.tasks, st.services[i2].id));
        assert(st.services[i1].id != st.services[i2].id);
        if services_listing(st)[i2].tasks.contains(services_listing(st)[i1].tasks[k]) {
            let w = choose|w: int|
                0 <= w < services_listing(st)[i2].tasks.len() && services_listing(st)[i2].tasks[w]
                    == services_listing(st)[i1].tasks[k];
            assert(services_listing(st)[i2].tasks[w].service_id == st.services[i2].id);
        }
    }
}

/// Renaming one service changes only that entry's shown name: its id and
/// its tasks, and every other entry of the listing, stay as they were.
pub proof fn lemma_edit_service_then_list(o: StoreV, n: StoreV, i: int, value: Seq<char>)
    requires
        0 <= i < o.services.len(),
        n.services == o.services.update(i, with_name(o.services[i], value)),
        n.tasks == o.tasks,
    ensures
        services_listing(n).len() == services_listing(o).len(),
        services_listing(n)[i].name == value,
        services_listing(n)[i].id == services_listing(o)[i].id,
        services_listing(n)[i].tasks == services_listing(o)[i].tasks,
        forall|k: int|
            0 <= k < o.services.len() && k != i ==> services_listing(n)[k]
                == services_listing(o)[k],
{
}

/// Reading the listing is pure: with no mutation between them, two listings
/// of the same store hold identical service and task data.
pub proof fn lemma_listing_repeatable(st: StoreV, r1: Seq<ServiceV>, r2: Seq<ServiceV>)
    requires
        r1 == services_listing(st),
        r2 == services_listing(st),
    ensures
        r1 == r2,
{
}

} // verus!
