use vstd::prelude::*;

verus! {

use vstd::string::StringExecFns;
use crate::decimal::i32_dec_seq;
use crate::error::ResponderError;
use crate::error::is_not_found;
use crate::error::not_found;
use crate::store::Store;
use crate::store::StoreV;
use crate::store::ServiceRecord;
use crate::store::TaskRecord;
use crate::store::ServiceRecV;
use crate::store::TaskRecV;
use crate::store::opt_text_view;

/// One task as the dashboard shows it: the stored row with an absent
/// description shown as empty text.
#[derive(Debug)]
pub struct Task {
    pub id: i32,
    pub service_id: i32,
    pub description: String,
    pub progress: i32,
    pub max_progress: i32,
}

/// Mathematical shape of a shown task.
pub struct TaskV {
    pub id: i32,
    pub service_id: i32,
    pub description: Seq<char>,
    pub progress: i32,
    pub max_progress: i32,
}

impl View for Task {
    type V = TaskV;

    open spec fn view(&self) -> TaskV {
        TaskV {
            id: self.id,
            service_id: self.service_id,
            description: self.description@,
            progress: self.progress,
            max_progress: self.max_progress,
        }
    }
}

/// One service as the dashboard shows it, its tasks grouped under it.
#[derive(Debug)]
pub struct Service {
    pub id: i32,
    pub name: String,
    pub tasks: Vec<Task>,
    pub last_update: String,
}

/// Mathematical shape of a shown service.
pub struct ServiceV {
    pub id: i32,
    pub name: Seq<char>,
    pub tasks: Seq<TaskV>,
    pub last_update: Seq<char>,
}

/// The views of a sequence of shown tasks.
pub open spec fn tasks_view(l: Seq<Task>) -> Seq<TaskV> {
    l.map_values(|t: Task| t@)
}

impl View for Service {
    type V = ServiceV;

    open spec fn view(&self) -> ServiceV {
        ServiceV {
            id: self.id,
            name: self.name@,
            tasks: tasks_view(self.tasks@),
            last_update: self.last_update@,
        }
    }
}

/// The views of a built listing.
pub open spec fn listing_view(l: Seq<Service>) -> Seq<ServiceV> {
    l.map_values(|s: Service| s@)
}

/// A mutation request: the target row's id and the new field value.
#[derive(Debug)]
pub struct IdValueForm<T> {
    pub id: i32,
    pub value: T,
}

/// A render instruction: the template to use and the listing to hand it.
#[derive(Debug)]
pub struct Page {
    pub template: String,
    pub services: Vec<Service>,
}

/// A stored optional text, shown as the empty text when absent.
pub open spec fn text_or_empty(o: Option<Seq<char>>) -> Seq<char> {
    match o {
        Some(s) => s,
        None => Seq::empty(),
    }
}

/// The stored task row as the dashboard shows it.
pub open spec fn shown_task(t: TaskRecV) -> TaskV {
    TaskV {
        id: t.id,
        service_id: t.service_id,
        description: text_or_empty(t.description),
        progress: t.progress,
        max_progress: t.max_progress,
    }
}

/// The tasks that belong to the service with the given id, in stored order.
pub open spec fn tasks_for(tasks: Seq<TaskRecV>, sid: i32) -> Seq<TaskV>
    decreases tasks.len(),
{
    if tasks.len() == 0 {
        Seq::empty()
    } else if tasks.last().service_id == sid {
        tasks_for(tasks.drop_last(), sid).push(shown_task(tasks.last()))
    } else {
        tasks_for(tasks.drop_last(), sid)
    }
}

/// The stored service row as the dashboard shows it.
pub open spec fn shown_service(s: ServiceRecV, tasks: Seq<TaskRecV>) -> ServiceV {
    ServiceV {
        id: s.id,
        name: s.name,
        tasks: tasks_for(tasks, s.id),
        last_update: text_or_empty(s.last_update),
    }
}

/// The full listing: every service, in stored order, with its tasks.
pub open spec fn services_listing(st: StoreV) -> Seq<ServiceV> {
    Seq::new(st.services.len(), |i: int| shown_service(st.services[i], st.tasks))
}

fn clone_or_empty(o: &Option<String>) -> (r: String)
    ensures
        r@ == text_or_empty(opt_text_view(*o)),
{
    match o {
        Some(s) => s.clone(),
        None => String::new(),
    }
}

fn tasks_of_service(db: &Store, sid: i32) -> (r: Vec<Task>)
    ensures
        tasks_view(r@) == tasks_for(db@.tasks, sid),
{
    let mut out: Vec<Task> = Vec::new();
    let mut j: usize = 0;
    while j < db.tasks.len()
        invariant
            j <= db.tasks.len(),
            tasks_view(out@) == tasks_for(db@.tasks.subrange(0, j as int), sid),
        decreases db.tasks.len() - j,
    {
        let t = &db.tasks[j];
        if t.service_id == sid {
            let shown = Task {
                id: t.id,
                service_id: t.service_id,
                description: clone_or_empty(&t.description),
                progress: t.progress,
                max_progress: t.max_progress,
            };
            proof {
                assert(shown@ == shown_task(db@.tasks[j as int]));
            }
            out.push(shown);
        }
        proof {
            let pre = db@.tasks.subrange(0, j as int);
            let post = db@.tasks.subrange(0, j as int + 1);
            assert(post.drop_last() =~= pre);
            assert(post.last() == db@.tasks[j as int]);
            assert(tasks_view(out@) =~= tasks_for(post, sid));
        }
        j += 1;
    }
    proof {
        assert(db@.tasks.subrange(0, db@.tasks.len() as int) =~= db@.tasks);
    }
    out
}

/// Reads every service with its tasks out of the store and shapes it for
/// display. The in-memory store cannot fail, so the full listing is always
/// returned.
pub fn get_services(db: &Store) -> (r: Result<Vec<Service>, ResponderError>)
    ensures
        r is Ok,
        r matches Ok(list) ==> listing_view(list@) == services_listing(db@),
{
    let mut list: Vec<Service> = Vec::new();
    let mut i: usize = 0;
    while i < db.services.len()
        invariant
            i <= db.services.len(),
            list@.len() == i,
            forall|k: int|
                0 <= k < i ==> (#[trigger] list@[k])@ == shown_service(
                    db@.services[k],
                    db@.tasks,
                ),
        decreases db.services.len() - i,
    {
        let srec = &db.services[i];
        let service_tasks = tasks_of_service(db, srec.id);
        let svc = Service {
            id: srec.id,
            name: srec.name.clone(),
            tasks: service_tasks,
            last_update: clone_or_empty(&srec.last_update),
        };
        proof {
            assert(svc@ == shown_service(db@.services[i as int], db@.tasks));
        }
        list.push(svc);
        i += 1;
    }
    proof {
        assert(listing_view(list@) =~= services_listing(db@));
    }
    Ok(list)
}

/// Resolves a service id to a copy of its stored row; fails with the
/// Services not-found error exactly when no row carries the id.
pub fn get_service_by_id(service: i32, db: &Store) -> (r: Result<ServiceRecord, ResponderError>)
    ensures
        r is Ok <==> db@.has_service(service),
        r matches Ok(rec) ==> rec@.id == service && exists|i: int|
            0 <= i < db@.services.len() && (#[trigger] db@.services[i]) == rec@,
        r matches Err(e) ==> is_not_found(e, "Services"@, i32_dec_seq(service as int)),
{
    match db.find_service_index(service) {
        Some(i) => Ok(db.services[i].clone()),
        None => Err(not_found("Services", service)),
    }
}

/// Resolves a task id to a copy of its stored row; fails with the Tasks
/// not-found error exactly when no row carries the id.
pub fn get_task_by_id(task: i32, db: &Store) -> (r: Result<TaskRecord, ResponderError>)
    ensures
        r is Ok <==> db@.has_task(task),
        r matches Ok(rec) ==> rec@.id == task && exists|j: int|
            0 <= j < db@.tasks.len() && (#[trigger] db@.tasks[j]) == rec@,
        r matches Err(e) ==> is_not_found(e, "Tasks"@, i32_dec_seq(task as int)),
{
    match db.find_task_index(task) {
        Some(j) => Ok(db.tasks[j].clone()),
        None => Err(not_found("Tasks", task)),
    }
}

/// Sets the name of the service named by the form to the form's value; any
/// value is accepted, the empty text too. Fails, mutating nothing, exactly
/// when the id resolves to no service.
pub fn service_edit(db: &mut Store, data: IdValueForm<String>) -> (r: Result<(), ResponderError>)
    requires
        old(db)@.wf(),
    ensures
        final(db)@.wf(),
        r is Ok <==> old(db)@.has_service(data.id),
        final(db)@.tasks == old(db)@.tasks,
        r matches Err(e) ==> is_not_found(e, "Services"@, i32_dec_seq(data.id as int)) && *final(db) == *old(db),
        r is Ok ==> final(db)@.services == old(db)@.services.update(
            crate::store::service_index_of(old(db)@, data.id),
            crate::store::with_name(
                old(db)@.services[crate::store::service_index_of(old(db)@, data.id)],
                data.value@,
            ),
        ),
{
    match db.find_service_index(data.id) {
        None => Err(not_found("Services", data.id)),
        Some(i) => {
            db.services[i].name = data.value;
            proof {
                let o = old(db)@;
                let ci = crate::store::service_index_of(o, data.id);
                assert(0 <= ci < o.services.len() && o.services[ci].id == data.id);
                assert(ci == i as int);
                assert(final(db)@.services =~= o.services.update(
                    ci,
                    crate::store::with_name(o.services[ci], data.value@),
                ));
                assert(final(db)@.tasks =~= o.tasks);
                crate::store::lemma_wf_service_update(
                    o,
                    ci,
                    crate::store::with_name(o.services[ci], data.value@),
                );
            }
            Ok(())
        },
    }
}

/// Sets the description of the task named by the form to the form's value;
/// any value is accepted, the empty text too. Fails, mutating nothing,
/// exactly when the id resolves to no task.
pub fn task_edit(db: &mut Store, data: IdValueForm<String>) -> (r: Result<(), ResponderError>)
    requires
        old(db)@.wf(),
    ensures
        final(db)@.wf(),
        r is Ok <==> old(db)@.has_task(data.id),
        final(db)@.services == old(db)@.services,
        r matches Err(e) ==> is_not_found(e, "Tasks"@, i32_dec_seq(data.id as int)) && *final(db)
            == *old(db),
        r is Ok ==> final(db)@.tasks == old(db)@.tasks.update(
            crate::store::task_index_of(old(db)@, data.id),
            crate::store::with_description(
                old(db)@.tasks[crate::store::task_index_of(old(db)@, data.id)],
                data.value@,
            ),
        ),
{
    match db.find_task_index(data.id) {
        None => Err(not_found("Tasks", data.id)),
        Some(j) => {
            db.tasks[j].description = Some(data.value);
            proof {
                let o = old(db)@;
                let cj = crate::store::task_index_of(o, data.id);
                assert(0 <= cj < o.tasks.len() && o.tasks[cj].id == data.id);
                assert(cj == j as int);
                assert(final(db)@.tasks =~= o.tasks.update(
                    cj,
                    crate::store::with_description(o.tasks[cj], data.value@),
                ));
                assert(final(db)@.services =~= o.services);
                crate::store::lemma_wf_task_update(
                    o,
                    cj,
                    crate::store::with_description(o.tasks[cj], data.value@),
                );
            }
            Ok(())
        },
    }
}

/// Inserts the hardcoded demo service: name "Test1", no last-update stamp,
/// no tasks, under a fresh identifier.
pub fn add(db: &mut Store) -> (r: Result<(), ResponderError>)
    requires
        old(db)@.wf(),
        forall|i: int|
            0 <= i < old(db)@.services.len() ==> (#[trigger] old(db)@.services[i]).id < i32::MAX,
    ensures
        final(db)@.wf(),
        r is Ok,
        final(db)@.tasks == old(db)@.tasks,
        final(db)@.services.len() == old(db)@.services.len() + 1,
        final(db)@.services.drop_last() == old(db)@.services,
        final(db)@.services.last().name == "Test1"@,
        final(db)@.services.last().last_update is None,
        !old(db)@.has_service(final(db)@.services.last().id),
{
    let mut mx: i32 = 0;
    let mut i: usize = 0;
    while i < db.services.len()
        invariant
            *db == *old(db),
            i <= db.services.len(),
            0 <= mx < i32::MAX,
            forall|k: int|
                0 <= k < db@.services.len() ==> (#[trigger] db@.services[k]).id < i32::MAX,
            forall|k: int| 0 <= k < i ==> (#[trigger] db@.services[k]).id <= mx,
        decreases db.services.len() - i,
    {
        let sid = db.services[i].id;
        proof {
            assert(db@.services[i as int].id < i32::MAX);
        }
        if sid > mx {
            mx = sid;
        }
        i += 1;
    }
    proof {
        assert(forall|k: int|
            0 <= k < old(db)@.services.len() ==> (#[trigger] old(db)@.services[k]).id != mx + 1);
    }
    let rec = ServiceRecord { id: mx + 1, name: String::from_str("Test1"), last_update: None };
    let inserted = db.insert_service(rec);
    proof {
        assert(inserted);
        assert(final(db)@.services.drop_last() =~= old(db)@.services);
        assert(final(db)@.services.last().name == "Test1"@);
    }
    Ok(())
}

/// Adds one to the progress of the task carrying the given id; every other
/// field of every row stays as it was. Fails, mutating nothing, exactly when
/// the id resolves to no task.
pub fn increment_task_progress(task: i32, db: &mut Store) -> (r: Result<(), ResponderError>)
    requires
        old(db)@.wf(),
        forall|j: int|
            0 <= j < old(db)@.tasks.len() && (#[trigger] old(db)@.tasks[j]).id == task ==> old(db)@.tasks[j].progress < i32::MAX,
    ensures
        final(db)@.wf(),
        r is Ok <==> old(db)@.has_task(task),
        final(db)@.services == old(db)@.services,
        r matches Err(e) ==> is_not_found(e, "Tasks"@, i32_dec_seq(task as int)) && *final(db)
            == *old(db),
        r is Ok ==> final(db)@.tasks == old(db)@.tasks.update(
            crate::store::task_index_of(old(db)@, task),
            crate::store::with_progress_incremented(
                old(db)@.tasks[crate::store::task_index_of(old(db)@, task)],
            ),
        ),
{
    match db.find_task_index(task) {
        None => Err(not_found("Tasks", task)),
        Some(j) => {
            proof {
                assert(old(db)@.tasks[j as int].progress < i32::MAX);
            }
            let p = db.tasks[j].progress;
            db.tasks[j].progress = p + 1;
            proof {
                let o = old(db)@;
                let cj = crate::store::task_index_of(o, task);
                assert(0 <= cj < o.tasks.len() && o.tasks[cj].id == task);
                assert(cj == j as int);
                assert(final(db)@.tasks =~= o.tasks.update(
                    cj,
                    crate::store::with_progress_incremented(o.tasks[cj]),
                ));
                assert(final(db)@.services =~= o.services);
                crate::store::lemma_wf_task_update(
                    o,
                    cj,
                    crate::store::with_progress_incremented(o.tasks[cj]),
                );
            }
            Ok(())
        },
    }
}

/// Adds one to the task's progress and stamps the owning service's
/// last_update with the given time, both in one step. Resolves the service
/// first: a missing service id fails with the Services error, then a missing
/// task id with the Tasks error, and a failure mutates nothing.
pub fn increment_progress_at(service: i32, task: i32, db: &mut Store, datetime: String) -> (r:
    Result<(), ResponderError>)
    requires
        old(db)@.wf(),
        forall|j: int|
            0 <= j < old(db)@.tasks.len() && (#[trigger] old(db)@.tasks[j]).id == task ==> old(
                db,
            )@.tasks[j].progress < i32::MAX,
    ensures
        final(db)@.wf(),
        r is Ok <==> old(db)@.has_service(service) && old(db)@.has_task(task),
        r matches Err(e) ==> *final(db) == *old(db) && (if !old(db)@.has_service(service) {
            is_not_found(e, "Services"@, i32_dec_seq(service as int))
        } else {
            is_not_found(e, "Tasks"@, i32_dec_seq(task as int))
        }),
        r is Ok ==> final(db)@.tasks == old(db)@.tasks.update(
            crate::store::task_index_of(old(db)@, task),
            crate::store::with_progress_incremented(
                old(db)@.tasks[crate::store::task_index_of(old(db)@, task)],
            ),
        ) && final(db)@.services == old(db)@.services.update(
            crate::store::service_index_of(old(db)@, service),
            crate::store::with_last_update(
                old(db)@.services[crate::store::service_index_of(old(db)@, service)],
                datetime@,
            ),
        ),
{
    let si = match db.find_service_index(service) {
        None => {
            return Err(not_found("Services", service));
        },
        Some(i) => i,
    };
    let tj = match db.find_task_index(task) {
        None => {
            return Err(not_found("Tasks", task));
        },
        Some(j) => j,
    };
    proof {
        assert(old(db)@.tasks[tj as int].progress < i32::MAX);
    }
    let p = db.tasks[tj].progress;
    db.tasks[tj].progress = p + 1;
    db.services[si].last_update = Some(datetime);
    proof {
        let o = old(db)@;
        let ci = crate::store::service_index_of(o, service);
        let cj = crate::store::task_index_of(o, task);
        assert(0 <= ci < o.services.len() && o.services[ci].id == service);
        assert(0 <= cj < o.tasks.len() && o.tasks[cj].id == task);
        assert(ci == si as int);
        assert(cj == tj as int);
        assert(final(db)@.tasks =~= o.tasks.update(
            cj,
            crate::store::with_progress_incremented(o.tasks[cj]),
        ));
        assert(final(db)@.services =~= o.services.update(
            ci,
            crate::store::with_last_update(o.services[ci], datetime@),
        ));
        crate::store::lemma_wf_task_update(
            o,
            cj,
            crate::store::with_progress_incremented(o.tasks[cj]),
        );
        crate::store::lemma_wf_service_update(
            StoreV {
                services: o.services,
                tasks: o.tasks.update(cj, crate::store::with_progress_incremented(o.tasks[cj])),
            },
            ci,
            crate::store::with_last_update(o.services[ci], datetime@),
        );
    }
    Ok(())
}

/// Relies on chrono's Utc::now and DateTime::to_rfc3339: the current UTC
/// wall-clock time, printed in RFC 3339 form. The value depends on the
/// clock, so nothing is claimed of it.
#[verifier::external_body]
fn now_rfc3339() -> (r: String)
    ensures
        r@.len() > 0,
{
    chrono::offset::Utc::now().to_rfc3339()
}

/// The scoped increment as the route performs it: stamps the owning service
/// with the current UTC clock time. Apart from the stamp's value, which the
/// clock decides, the effect is that of increment_progress_at.
pub fn increment_progress(service: i32, task: i32, db_state: &mut Store) -> (r: Result<
    (),
    ResponderError,
>)
    requires
        old(db_state)@.wf(),
        forall|j: int|
            0 <= j < old(db_state)@.tasks.len() && (#[trigger] old(db_state)@.tasks[j]).id == task
                ==> old(db_state)@.tasks[j].progress < i32::MAX,
    ensures
        final(db_state)@.wf(),
        r is Ok <==> old(db_state)@.has_service(service) && old(db_state)@.has_task(task),
        r matches Err(e) ==> *final(db_state) == *old(db_state) && (if !old(
            db_state,
        )@.has_service(service) {
            is_not_found(e, "Services"@, i32_dec_seq(service as int))
        } else {
            is_not_found(e, "Tasks"@, i32_dec_seq(task as int))
        }),
        r is Ok ==> final(db_state)@.tasks == old(db_state)@.tasks.update(
            crate::store::task_index_of(old(db_state)@, task),
            crate::store::with_progress_incremented(
                old(db_state)@.tasks[crate::store::task_index_of(old(db_state)@, task)],
            ),
        ),
        r is Ok ==> exists|ts: Seq<char>|
            ts.len() > 0 && final(db_state)@.services == old(db_state)@.services.update(
                crate::store::service_index_of(old(db_state)@, service),
                #[trigger] crate::store::with_last_update(
                    old(db_state)@.services[crate::store::service_index_of(old(db_state)@, service)],
                    ts,
                ),
            ),
{
    let datetime = now_rfc3339();
    let ghost ts = datetime@;
    let r = increment_progress_at(service, task, db_state, datetime);
    proof {
        if r is Ok {
            let o = old(db_state)@;
            let ci = crate::store::service_index_of(o, service);
            assert(final(db_state)@.services == o.services.update(
                ci,
                crate::store::with_last_update(o.services[ci], ts),
            ));
        }
    }
    r
}

/// Renders the full dashboard: the listing under the overview template.
pub fn service_index(db: &Store) -> (r: Result<Page, ResponderError>)
    ensures
        r is Ok,
        r matches Ok(page) ==> page.template@ == "services-overview"@ && listing_view(
            page.services@,
        ) == services_listing(db@),
{
    let services = get_services(db)?;
    Ok(Page { template: String::from_str("services-overview"), services })
}

/// Renders the lighter listing used after an update: the same listing under
/// the plain services template.
pub fn update_progress(db: &Store) -> (r: Result<Page, ResponderError>)
    ensures
        r is Ok,
        r matches Ok(page) ==> page.template@ == "services"@ && listing_view(page.services@)
            == services_listing(db@),
{
    let services = get_services(db)?;
    Ok(Page { template: String::from_str("services"), services })
}

} // verus!
