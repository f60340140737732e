use vstd::prelude::*;

verus! {

/// A stored Service row: identifier, display name, and the time of the last
/// progress change under it (absent until one happens).
#[derive(Debug)]
pub struct ServiceRecord {
    pub id: i32,
    pub name: String,
    pub last_update: Option<String>,
}

/// A stored Task row. The description is optional in storage and shown as
/// empty text when absent; progress is not validated against max_progress.
#[derive(Debug)]
pub struct TaskRecord {
    pub id: i32,
    pub service_id: i32,
    pub description: Option<String>,
    pub progress: i32,
    pub max_progress: i32,
}

/// The view of an optional stored text.
pub open spec fn opt_text_view(o: Option<String>) -> Option<Seq<char>> {
    match o {
        Some(s) => Some(s@),
        None => None,
    }
}

/// Mathematical shape of a stored Service row.
pub struct ServiceRecV {
    pub id: i32,
    pub name: Seq<char>,
    pub last_update: Option<Seq<char>>,
}

/// Mathematical shape of a stored Task row.
pub struct TaskRecV {
    pub id: i32,
    pub service_id: i32,
    pub description: Option<Seq<char>>,
    pub progress: i32,
    pub max_progress: i32,
}

impl View for ServiceRecord {
    type V = ServiceRecV;

    open spec fn view(&self) -> ServiceRecV {
        ServiceRecV { id: self.id, name: self.name@, last_update: opt_text_view(self.last_update) }
    }
}

impl View for TaskRecord {
    type V = TaskRecV;

    open spec fn view(&self) -> TaskRecV {
        TaskRecV {
            id: self.id,
            service_id: self.service_id,
            description: opt_text_view(self.description),
            progress: self.progress,
            max_progress: self.max_progress,
        }
    }
}

/// The service row renamed.
pub open spec fn with_name(s: ServiceRecV, n: Seq<char>) -> ServiceRecV {
    ServiceRecV { id: s.id, name: n, last_update: s.last_update }
}

/// The service row stamped with a last-update time.
pub open spec fn with_last_update(s: ServiceRecV, ts: Seq<char>) -> ServiceRecV {
    ServiceRecV { id: s.id, name: s.name, last_update: Some(ts) }
}

/// The task row with its description replaced.
pub open spec fn with_description(t: TaskRecV, d: Seq<char>) -> TaskRecV {
    TaskRecV {
        id: t.id,
        service_id: t.service_id,
        description: Some(d),
        progress: t.progress,
        max_progress: t.max_progress,
    }
}

/// The task row with its progress one higher.
pub open spec fn with_progress_incremented(t: TaskRecV) -> TaskRecV {
    TaskRecV {
        id: t.id,
        service_id: t.service_id,
        description: t.description,
        progress: (t.progress + 1) as i32,
        max_progress: t.max_progress,
    }
}

/// Mathematical shape of the whole store.
pub struct StoreV {
    pub services: Seq<ServiceRecV>,
    pub tasks: Seq<TaskRecV>,
}

impl StoreV {
    /// Some service row carries this id.
    pub open spec fn has_service(self, sid: i32) -> bool {
        exists|i: int| 0 <= i < self.services.len() && (#[trigger] self.services[i]).id == sid
    }

    /// Some task row carries this id.
    pub open spec fn has_task(self, tid: i32) -> bool {
        exists|j: int| 0 <= j < self.tasks.len() && (#[trigger] self.tasks[j]).id == tid
    }

    /// Every identifier names at most one row, and every task's service_id
    /// names an existing service.
    pub open spec fn wf(self) -> bool {
        &&& forall|i: int, j: int|
            0 <= i < j < self.services.len() ==> (#[trigger] self.services[i]).id != (
            #[trigger] self.services[j]).id
        &&& forall|i: int, j: int|
            0 <= i < j < self.tasks.len() ==> (#[trigger] self.tasks[i]).id != (
            #[trigger] self.tasks[j]).id
        &&& forall|j: int|
            0 <= j < self.tasks.len() ==> self.has_service((#[trigger] self.tasks[j]).service_id)
    }
}

/// The progress store: the authoritative, in-memory keyed state of services
/// and tasks.
pub struct Store {
    pub services: Vec<ServiceRecord>,
    pub tasks: Vec<TaskRecord>,
}

impl View for Store {
    type V = StoreV;

    open spec fn view(&self) -> StoreV {
        StoreV {
            services: self.services@.map_values(|r: ServiceRecord| r@),
            tasks: self.tasks@.map_values(|r: TaskRecord| r@),
        }
    }
}

impl Store {
    /// An empty store.
    pub fn new() -> (s: Store)
        ensures
            s@.services == Seq::<ServiceRecV>::empty(),
            s@.tasks == Seq::<TaskRecV>::empty(),
            s@.wf(),
    {
        let s = Store { services: Vec::new(), tasks: Vec::new() };
        proof {
            assert(s@.services =~= Seq::<ServiceRecV>::empty());
            assert(s@.tasks =~= Seq::<TaskRecV>::empty());
        }
        s
    }

    /// The index of the service row carrying the given id, if any.
    pub fn find_service_index(&self, id: i32) -> (r: Option<usize>)
        ensures
            match r {
                Some(i) => i < self@.services.len() && self@.services[i as int].id == id,
                None => !self@.has_service(id),
            },
    {
        let mut i: usize = 0;
        while i < self.services.len()
            invariant
                i <= self.services.len(),
                forall|k: int| 0 <= k < i ==> (#[trigger] self@.services[k]).id != id,
            decreases self.services.len() - i,
        {
            if self.services[i].id == id {
                return Some(i);
            }
            i += 1;
        }
        None
    }

    /// The index of the task row carrying the given id, if any.
    pub fn find_task_index(&self, id: i32) -> (r: Option<usize>)
        ensures
            match r {
                Some(j) => j < self@.tasks.len() && self@.tasks[j as int].id == id,
                None => !self@.has_task(id),
            },
    {
        let mut j: usize = 0;
        while j < self.tasks.len()
            invariant
                j <= self.tasks.len(),
                forall|k: int| 0 <= k < j ==> (#[trigger] self@.tasks[k]).id != id,
            decreases self.tasks.len() - j,
        {
            if self.tasks[j].id == id {
                return Some(j);
            }
            j += 1;
        }
        None
    }

    /// Seeds one service row; refuses a duplicate identifier.
    pub fn insert_service(&mut self, rec: ServiceRecord) -> (r: bool)
        requires
            old(self)@.wf(),
        ensures
            final(self)@.wf(),
            r == !old(self)@.has_service(rec.id),
            r ==> final(self)@.services == old(self)@.services.push(rec@) && final(self)@.tasks
                == old(self)@.tasks,
            !r ==> *final(self) == *old(self),
    {
        match self.find_service_index(rec.id) {
            Some(_) => false,
            None => {
                self.services.push(rec);
                proof {
                    assert(self@.services =~= old(self)@.services.push(rec@));
                    assert(self@.tasks =~= old(self)@.tasks);
                    let o = old(self)@;
                    let n = self@;
                    assert forall|i: int, j: int| 0 <= i < j < n.services.len() implies (
                    #[trigger] n.services[i]).id != (#[trigger] n.services[j]).id by {
                        if j == o.services.len() {
                            assert(n.services[i] == o.services[i]);
                            assert(!o.has_service(rec.id));
                        }
                    }
                    assert forall|j: int| 0 <= j < n.tasks.len() implies n.has_service(
                        (#[trigger] n.tasks[j]).service_id,
                    ) by {
                        assert(o.has_service(o.tasks[j].service_id));
                        let w = choose|w: int|
                            0 <= w < o.services.len() && (#[trigger] o.services[w]).id
                                == o.tasks[j].service_id;
                        assert(n.services[w].id == n.tasks[j].service_id);
                    }
                }
                true
            },
        }
    }

    /// Seeds one task row; refuses a duplicate identifier and a service_id
    /// that names no existing service.
    pub fn insert_task(&mut self, rec: TaskRecord) -> (r: bool)
        requires
            old(self)@.wf(),
        ensures
            final(self)@.wf(),
            r == (!old(self)@.has_task(rec.id) && old(self)@.has_service(rec.service_id)),
            r ==> final(self)@.tasks == old(self)@.tasks.push(rec@) && final(self)@.services
                == old(self)@.services,
            !r ==> *final(self) == *old(self),
    {
        if self.find_task_index(rec.id).is_some() {
            return false;
        }
        match self.find_service_index(rec.service_id) {
            None => false,
            Some(_) => {
                self.tasks.push(rec);
                proof {
                    assert(self@.tasks =~= old(self)@.tasks.push(rec@));
                    assert(self@.services =~= old(self)@.services);
                }
                true
            },
        }
    }
}

/// The index of the service row carrying the given id; meaningful when the
/// id is present.
pub open spec fn service_index_of(st: StoreV, sid: i32) -> int {
    choose|i: int| 0 <= i < st.services.len() && (#[trigger] st.services[i]).id == sid
}

/// The index of the task row carrying the given id; meaningful when the id
/// is present.
pub open spec fn task_index_of(st: StoreV, tid: i32) -> int {
    choose|j: int| 0 <= j < st.tasks.len() && (#[trigger] st.tasks[j]).id == tid
}

fn clone_opt_text(o: &Option<String>) -> (r: Option<String>)
    ensures
        opt_text_view(r) == opt_text_view(*o),
{
    match o {
        Some(s) => Some(s.clone()),
        None => None,
    }
}

impl Clone for ServiceRecord {
    /// The copy shows the same row.
    fn clone(&self) -> (r: Self)
        ensures
            r@ == self@,
    {
        ServiceRecord {
            id: self.id,
            name: self.name.clone(),
            last_update: clone_opt_text(&self.last_update),
        }
    }
}

impl Clone for TaskRecord {
    /// The copy shows the same row.
    fn clone(&self) -> (r: Self)
        ensures
            r@ == self@,
    {
        TaskRecord {
            id: self.id,
            service_id: self.service_id,
            description: clone_opt_text(&self.description),
            progress: self.progress,
            max_progress: self.max_progress,
        }
    }
}

/// Updating one task row without changing its id or its service_id keeps the
/// store well formed.
pub proof fn lemma_wf_task_update(st: StoreV, j: int, t: TaskRecV)
    requires
        st.wf(),
        0 <= j < st.tasks.len(),
        t.id == st.tasks[j].id,
        t.service_id == st.tasks[j].service_id,
    ensures
        (StoreV { services: st.services, tasks: st.tasks.update(j, t) }).wf(),
{
    let n = StoreV { services: st.services, tasks: st.tasks.update(j, t) };
    assert(forall|k: int| 0 <= k < n.tasks.len() ==> (#[trigger] n.tasks[k]).id == st.tasks[k].id
        && n.tasks[k].service_id == st.tasks[k].service_id);
}

/// Updating one service row without changing its id keeps the store well
/// formed.
pub proof fn lemma_wf_service_update(st: StoreV, i: int, s: ServiceRecV)
    requires
        st.wf(),
        0 <= i < st.services.len(),
        s.id == st.services[i].id,
    ensures
        (StoreV { services: st.services.update(i, s), tasks: st.tasks }).wf(),
{
    let n = StoreV { services: st.services.update(i, s), tasks: st.tasks };
    assert(forall|k: int|
        0 <= k < n.services.len() ==> (#[trigger] n.services[k]).id == st.services[k].id);
    assert forall|j: int| 0 <= j < n.tasks.len() implies n.has_service(
        (#[trigger] n.tasks[j]).service_id,
    ) by {
        assert(st.has_service(st.tasks[j].service_id));
        let w = choose|w: int|
            0 <= w < st.services.len() && (#[trigger] st.services[w]).id
                == st.tasks[j].service_id;
        assert(n.services[w].id == n.tasks[j].service_id);
    }
}

} // verus!
