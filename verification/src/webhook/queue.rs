//! Queues of webhook jobs.

use vstd::prelude::*;

use crate::error::{Error, ErrorView, Result};
use crate::model::views;
use crate::table::{lemma_push_contains, named_order, NameSet, Table};
use crate::text::{join, opt_str, same, texts};
use crate::webhook::types::{JobData, JobView};

verus! {

/// A queue of webhook jobs.
pub trait QueueInterface {
    /// Adds a job to a queue.
    fn add_to_queue(&mut self, queue_name: &str, data: JobData) -> Result<()>;

    /// Notes that the jobs of a queue are worked on.
    fn process_queue(&mut self, queue_name: &str) -> Result<()>;

    /// Gives the queue up.
    fn disconnect(&mut self) -> Result<()>;
}

/// The jobs of one queue.
pub struct Jobs {
    pub jobs: Vec<JobData>,
}

impl View for Jobs {
    type V = Seq<JobView>;

    open spec fn view(&self) -> Seq<JobView> {
        views(self.jobs@)
    }
}

/// Jobs that were taken from a queue to be worked on.
pub struct TakenJobs {
    pub queue: String,
    pub jobs: Vec<JobData>,
}

/// Jobs that were taken from a queue, by their views.
#[verifier::ext_equal]
pub struct TakenView {
    pub queue: Seq<char>,
    pub jobs: Seq<JobView>,
}

impl View for TakenJobs {
    type V = TakenView;

    open spec fn view(&self) -> TakenView {
        TakenView { queue: self.queue@, jobs: views(self.jobs@) }
    }
}

/// Queues in memory.
pub struct MemoryQueueManager {
    queues: Table<Jobs>,
    processors: NameSet,
}

/// Queues in memory by their views: the jobs of each, the oldest first, and the queues whose jobs
/// are worked on.
#[verifier::ext_equal]
pub struct QueuesView {
    pub queues: Map<Seq<char>, Seq<JobView>>,
    pub processors: Set<Seq<char>>,
}

impl View for MemoryQueueManager {
    type V = QueuesView;

    closed spec fn view(&self) -> QueuesView {
        QueuesView { queues: self.queues@, processors: self.processors@ }
    }
}

impl QueuesView {
    /// The jobs of a queue, the oldest first.
    pub open spec fn jobs(self, queue: Seq<char>) -> Seq<JobView> {
        if self.queues.contains_key(queue) {
            self.queues[queue]
        } else {
            Seq::empty()
        }
    }

    /// The queues after a job was added to one.
    pub open spec fn added(self, queue: Seq<char>, job: JobView) -> QueuesView {
        QueuesView { queues: self.queues.insert(queue, self.jobs(queue).push(job)), ..self }
    }

    /// The queues whose jobs are worked on, and which have any.
    pub open spec fn due(self) -> Set<Seq<char>> {
        self.queues.dom().filter(
            |q: Seq<char>| self.processors.contains(q) && self.queues[q].len() > 0,
        )
    }

    /// The queues after the jobs of those that are worked on were taken.
    pub open spec fn worked_on(self) -> QueuesView {
        QueuesView {
            queues: self.queues.map_entries(
                |q: Seq<char>, jobs: Seq<JobView>|
                    if self.processors.contains(q) {
                        Seq::empty()
                    } else {
                        jobs
                    },
            ),
            ..self
        }
    }

    /// Whether `taken` are the jobs that are due, queue by queue.
    pub open spec fn are_due(self, taken: Seq<TakenView>) -> bool {
        &&& named_order(taken.map_values(|t: TakenView| t.queue), self.due())
        &&& forall|i: int|
            0 <= i < taken.len() ==> (#[trigger] taken[i]).jobs == self.jobs(taken[i].queue)
    }
}

impl MemoryQueueManager {
    /// No queues.
    pub fn new() -> (r: Self)
        ensures
            r@ == (QueuesView { queues: Map::empty(), processors: Set::empty() }),
    {
        MemoryQueueManager { queues: Table::new(), processors: NameSet::new() }
    }

    /// Makes sure that a queue exists.
    fn open_queue(&mut self, queue_name: &str)
        ensures
            final(self)@ == (QueuesView {
                queues: old(self)@.queues.insert(queue_name@, old(self)@.jobs(queue_name@)),
                ..old(self)@
            }),
    {
        if !self.queues.contains_key(queue_name) {
            let jobs: Vec<JobData> = Vec::new();
            assert(views(jobs@) =~= Seq::<JobView>::empty());
            self.queues.insert(queue_name.to_string(), Jobs { jobs });
        }
        assert(self.queues@ =~= old(self)@.queues.insert(
            queue_name@,
            old(self)@.jobs(queue_name@),
        ));
    }

    /// Takes all jobs of the queues that are worked on, those of each queue the oldest first. In
    /// which order the queues come is left open.
    pub fn start_processing(&mut self) -> (r: Vec<TakenJobs>)
        ensures
            old(self)@.are_due(views(r@)),
            final(self)@ == old(self)@.worked_on(),
    {
        let ghost start = old(self)@;
        let names = self.queues.keys();
        let mut r: Vec<TakenJobs> = Vec::new();
        let mut i: usize = 0;
        let ghost queue_of = |t: TakenView| t.queue;
        assert(views(r@).map_values(queue_of) =~= Seq::<Seq<char>>::empty());
        while i < names.len()
            invariant
                i <= names@.len(),
                start == old(self)@,
                queue_of == (|t: TakenView| t.queue),
                texts(names@).no_duplicates(),
                texts(names@).to_set() == start.queues.dom(),
                self.processors@ == start.processors,
                self.queues@.dom() == start.queues.dom(),
                forall|q: Seq<char>| #[trigger]
                    self.queues@.contains_key(q) ==> self.queues@[q] == if start.processors.contains(
                        q,
                    ) && texts(names@).take(i as int).contains(q) {
                        Seq::empty()
                    } else {
                        start.queues[q]
                    },
                views(r@).map_values(queue_of).no_duplicates(),
                forall|q: Seq<char>|
                    #![trigger views(r@).map_values(queue_of).contains(q)]
                    views(r@).map_values(queue_of).contains(q) <==> start.due().contains(q)
                        && texts(names@).take(i as int).contains(q),
                forall|j: int|
                    0 <= j < r@.len() ==> (#[trigger] views(r@)[j]).jobs == start.jobs(
                        views(r@)[j].queue,
                    ),
            decreases names@.len() - i,
        {
            let ghost name = names@[i as int]@;
            let ghost seen = texts(names@).take(i as int);
            let ghost before = r@;
            proof {
                assert(texts(names@)[i as int] == name);
                assert(texts(names@).to_set().contains(name));
                assert(texts(names@).take(i + 1) =~= seen.push(name));
                assert forall|k: Seq<char>| seen.push(name).contains(k) <==> (seen.contains(k) || k
                    == name) by {
                    lemma_push_contains(seen, name, k);
                }
                assert(!seen.contains(name)) by {
                    if seen.contains(name) {
                        let j = choose|j: int| 0 <= j < seen.len() && seen[j] == name;
                        assert(texts(names@)[j] == name);
                    }
                }
            }
            if self.processors.contains(names[i].as_str()) {
                match self.queues.get_mut(names[i].as_str()) {
                    Some(queue) => {
                        let mut jobs: Vec<JobData> = Vec::new();
                        assert(views(jobs@) =~= Seq::<JobView>::empty());
                        std::mem::swap(&mut jobs, &mut queue.jobs);
                        assert(views(jobs@) == start.queues[name]);
                        assert(views(jobs@).len() == jobs@.len());
                        if jobs.len() > 0 {
                            let taken = TakenJobs { queue: names[i].clone(), jobs };
                            r.push(taken);
                            proof {
                                assert(views(r@) =~= views(before).push(taken@));
                                assert(views(r@).map_values(queue_of) =~= views(before).map_values(
                                    queue_of,
                                ).push(name));
                                let old_names = views(before).map_values(queue_of);
                                assert forall|k: Seq<char>| old_names.push(name).contains(k) <==> (
                                old_names.contains(k) || k == name) by {
                                    lemma_push_contains(old_names, name, k);
                                }
                                assert(!old_names.contains(name));
                                assert forall|a: int, b: int|
                                    0 <= a < old_names.len() + 1 && 0 <= b < old_names.len() + 1 && a
                                        != b implies old_names.push(name)[a] != old_names.push(
                                    name,
                                )[b] by {
                                    if a < old_names.len() {
                                        assert(old_names.contains(old_names[a]));
                                    }
                                    if b < old_names.len() {
                                        assert(old_names.contains(old_names[b]));
                                    }
                                }
                            }
                        }
                    },
                    None => {},
                }
            }
            proof {
                assert(self.queues@.dom() =~= start.queues.dom());
                let now = views(r@).map_values(queue_of);
                let was = views(before).map_values(queue_of);
                assert forall|q: Seq<char>| #[trigger] now.contains(q) <==> start.due().contains(q)
                    && texts(names@).take(i + 1).contains(q) by {
                    lemma_push_contains(seen, name, q);
                    lemma_push_contains(was, name, q);
                    assert(was.contains(q) <==> start.due().contains(q) && seen.contains(q));
                }
            }
            i = i + 1;
        }
        proof {
            assert(texts(names@).take(i as int) =~= texts(names@));
            assert forall|q: Seq<char>| start.queues.contains_key(q) implies #[trigger] texts(
                names@,
            ).contains(q) by {
                assert(texts(names@).to_set().contains(q));
            }
            assert(views(r@).map_values(queue_of).to_set() =~= start.due());
            assert(self.queues@ =~= start.worked_on().queues);
        }
        r
    }
}

impl QueueInterface for MemoryQueueManager {
    /// Adds a job at the end of a queue.
    fn add_to_queue(&mut self, queue_name: &str, data: JobData) -> (r: Result<()>)
        ensures
            r is Ok,
            final(self)@ == old(self)@.added(queue_name@, data@),
    {
        self.open_queue(queue_name);
        match self.queues.get_mut(queue_name) {
            Some(queue) => {
                let ghost before = queue.jobs@;
                queue.jobs.push(data);
                assert(views(queue.jobs@) =~= views(before).push(data@));
            },
            None => {},
        }
        assert(self.queues@ =~= old(self)@.added(queue_name@, data@).queues);
        Ok(())
    }

    /// Notes that the jobs of a queue are worked on. A queue that does not exist is made.
    fn process_queue(&mut self, queue_name: &str) -> (r: Result<()>)
        ensures
            r is Ok,
            final(self)@ == (QueuesView {
                queues: old(self)@.queues.insert(queue_name@, old(self)@.jobs(queue_name@)),
                processors: old(self)@.processors.insert(queue_name@),
            }),
    {
        self.open_queue(queue_name);
        self.processors.insert(queue_name.to_string());
        Ok(())
    }

    /// There is nothing to give up.
    fn disconnect(&mut self) -> (r: Result<()>)
        ensures
            r is Ok,
            *final(self) == *old(self),
    {
        Ok(())
    }
}

/// Jobs come out of a queue in the order in which they were put in: a job that is added stands
/// behind all others of its queue, and no other queue changes.
pub proof fn queue_is_first_in_first_out(
    queues: QueuesView,
    queue: Seq<char>,
    job: JobView,
    other: Seq<char>,
)
    ensures
        queues.added(queue, job).jobs(queue) == queues.jobs(queue).push(job),
        other != queue ==> queues.added(queue, job).jobs(other) == queues.jobs(other),
{
}

/// A job that was taken is not taken again, and a job of a queue that nobody works on stays.
pub proof fn taken_jobs_are_gone(queues: QueuesView, queue: Seq<char>)
    ensures
        queues.processors.contains(queue) ==> queues.worked_on().jobs(queue) == Seq::<
            JobView,
        >::empty(),
        !queues.processors.contains(queue) ==> queues.worked_on().jobs(queue) == queues.jobs(queue),
        queues.worked_on().due() == Set::<Seq<char>>::empty(),
{
    assert(queues.worked_on().due() =~= Set::<Seq<char>>::empty());
}

/// How the jobs of a server are named and worked on where they stand in Redis.
pub struct RedisQueueManager {
    prefix: String,
    concurrency: usize,
    job_processors: NameSet,
}

/// What came of waiting for a job.
pub enum Popped {
    /// The text of a job.
    Job(String),
    /// No job came.
    Nothing,
    /// The attempt failed.
    Failed,
}

/// What a worker does next.
#[derive(Debug, Clone, Copy, PartialEq, Eq, Structural)]
pub enum WorkerStep {
    /// Works on the job.
    Work,
    /// Waits for a job.
    Wait,
    /// Does nothing for this many seconds, and then waits for a job.
    Pause(u64),
}

impl RedisQueueManager {
    /// What the keys of the queues start with.
    pub closed spec fn key_prefix(&self) -> Seq<char> {
        self.prefix@
    }

    /// How many workers each queue has.
    pub closed spec fn workers(&self) -> usize {
        self.concurrency
    }

    /// The queues whose jobs are worked on.
    pub closed spec fn processors(&self) -> Set<Seq<char>> {
        self.job_processors@
    }

    /// Queues whose keys start with `prefix`, with this many workers each.
    pub fn new(prefix: &str, concurrency: usize) -> (r: Self)
        ensures
            r.key_prefix() == prefix@,
            r.workers() == concurrency,
            r.processors() == Set::<Seq<char>>::empty(),
    {
        RedisQueueManager {
            prefix: prefix.to_string(),
            concurrency,
            job_processors: NameSet::new(),
        }
    }

    /// The key under which the jobs of a queue stand.
    pub fn format_key(&self, queue_name: &str) -> (r: String)
        ensures
            r@ == self.key_prefix() + ":queue:"@ + queue_name@,
    {
        join(self.prefix.as_str(), ":queue:", queue_name)
    }

    /// Notes that the jobs of a queue are worked on, and says by how many workers.
    pub fn process_queue(&mut self, queue_name: &str) -> (r: usize)
        ensures
            r == old(self).workers(),
            final(self).processors() == old(self).processors().insert(queue_name@),
            final(self).key_prefix() == old(self).key_prefix(),
            final(self).workers() == old(self).workers(),
    {
        self.job_processors.insert(queue_name.to_string());
        self.concurrency
    }

    /// What a worker does next.
    pub fn worker_step(popped: &Popped) -> (r: WorkerStep)
        ensures
            r == match *popped {
                Popped::Job(_) => WorkerStep::Work,
                Popped::Nothing => WorkerStep::Wait,
                Popped::Failed => WorkerStep::Pause(1),
            },
    {
        match popped {
            Popped::Job(_) => WorkerStep::Work,
            Popped::Nothing => WorkerStep::Wait,
            Popped::Failed => WorkerStep::Pause(1),
        }
    }

    /// The error that a job could not be added.
    pub fn push_failure(queue_name: &str, text: &str) -> (r: Error)
        ensures
            r@ == ErrorView::Queue(
                "Redis RPUSH failed for queue "@ + queue_name@ + ": "@ + text@,
            ),
    {
        let start = join("Redis RPUSH failed for queue ", queue_name, ": ");
        Error::Queue(crate::text::concat(start.as_str(), text))
    }
}

/// Which queues a server uses.
pub enum QueueChoice {
    /// Queues in Redis.
    Redis { url: String, prefix: String, concurrency: usize },
    /// Queues in memory.
    Memory,
}

/// Which queues a server uses, by its view.
#[verifier::ext_equal]
pub enum ChoiceView {
    Redis { url: Seq<char>, prefix: Seq<char>, concurrency: int },
    Memory,
}

impl View for QueueChoice {
    type V = ChoiceView;

    open spec fn view(&self) -> ChoiceView {
        match self {
            QueueChoice::Redis { url, prefix, concurrency } => ChoiceView::Redis {
                url: url@,
                prefix: prefix@,
                concurrency: *concurrency as int,
            },
            QueueChoice::Memory => ChoiceView::Memory,
        }
    }
}

/// What stands in an option, or else `otherwise`.
pub open spec fn text_or(given: Option<Seq<char>>, otherwise: Seq<char>) -> Seq<char> {
    match given {
        Some(text) => text,
        None => otherwise,
    }
}

/// The queues that a driver with these settings stands for; any driver but Redis is memory.
pub open spec fn queue_choice(
    driver: Seq<char>,
    redis_url: Option<Seq<char>>,
    prefix: Option<Seq<char>>,
    concurrency: Option<usize>,
) -> ChoiceView {
    if driver == "redis"@ {
        ChoiceView::Redis {
            url: text_or(redis_url, "redis://127.0.0.1:6379/"@),
            prefix: text_or(prefix, "sockudo"@),
            concurrency: match concurrency {
                Some(n) => n as int,
                None => 5,
            },
        }
    } else {
        ChoiceView::Memory
    }
}

/// Chooses queues.
pub struct QueueManagerFactory;

impl QueueManagerFactory {
    /// The queues that a driver with these settings stands for.
    pub fn create(
        driver: &str,
        redis_url: Option<&str>,
        prefix: Option<&str>,
        concurrency: Option<usize>,
    ) -> (r: QueueChoice)
        ensures
            r@ == queue_choice(driver@, opt_str(redis_url), opt_str(prefix), concurrency),
    {
        if same(driver, "redis") {
            let url = match redis_url {
                Some(url) => url,
                None => "redis://127.0.0.1:6379/",
            };
            let prefix = match prefix {
                Some(prefix) => prefix,
                None => "sockudo",
            };
            let concurrency: usize = match concurrency {
                Some(n) => n,
                None => 5,
            };
            QueueChoice::Redis { url: url.to_string(), prefix: prefix.to_string(), concurrency }
        } else {
            QueueChoice::Memory
        }
    }
}

/// The queues of a server that keeps them in memory.
pub struct QueueManager {
    driver: MemoryQueueManager,
}

impl View for QueueManager {
    type V = QueuesView;

    closed spec fn view(&self) -> QueuesView {
        self.driver@
    }
}

impl QueueManager {
    /// The queues of a driver.
    pub fn new(driver: MemoryQueueManager) -> (r: Self)
        ensures
            r@ == driver@,
    {
        QueueManager { driver }
    }

    /// Adds a job at the end of a queue.
    pub fn add_to_queue(&mut self, queue_name: &str, data: JobData) -> (r: Result<()>)
        ensures
            r is Ok,
            final(self)@ == old(self)@.added(queue_name@, data@),
    {
        self.driver.add_to_queue(queue_name, data)
    }

    /// Notes that the jobs of a queue are worked on.
    pub fn process_queue(&mut self, queue_name: &str) -> (r: Result<()>)
        ensures
            r is Ok,
            final(self)@ == (QueuesView {
                queues: old(self)@.queues.insert(queue_name@, old(self)@.jobs(queue_name@)),
                processors: old(self)@.processors.insert(queue_name@),
            }),
    {
        self.driver.process_queue(queue_name)
    }

    /// Takes all jobs of the queues that are worked on.
    pub fn take_jobs(&mut self) -> (r: Vec<TakenJobs>)
        ensures
            old(self)@.are_due(views(r@)),
            final(self)@ == old(self)@.worked_on(),
    {
        self.driver.start_processing()
    }

    /// Gives the queues up.
    pub fn disconnect(&mut self) -> (r: Result<()>)
        ensures
            r is Ok,
            final(self)@ == old(self)@,
    {
        self.driver.disconnect()
    }
}

/// The jobs that are due are those of the queues that are worked on, all of them, each queue once, in
/// the order in which they were added.
pub proof fn due_jobs_are_all_taken(
    queues: QueuesView,
    taken: Seq<TakenView>,
    queue: Seq<char>,
    i: int,
)
    requires
        queues.are_due(taken),
    ensures
        0 <= i < taken.len() ==> {
            &&& queues.queues.contains_key(taken[i].queue)
            &&& queues.processors.contains(taken[i].queue)
            &&& taken[i].jobs == queues.queues[taken[i].queue]
            &&& taken[i].jobs.len() > 0
        },
        queues.queues.contains_key(queue) && queues.processors.contains(queue)
            && queues.queues[queue].len() > 0 ==> exists|j: int|
            0 <= j < taken.len() && (#[trigger] taken[j]).queue == queue && taken[j].jobs
                == queues.queues[queue],
{
    let names = taken.map_values(|t: TakenView| t.queue);
    if 0 <= i < taken.len() {
        assert(names[i] == taken[i].queue);
        assert(names.to_set().contains(taken[i].queue));
        assert(queues.due().contains(taken[i].queue));
    }
    if queues.queues.contains_key(queue) && queues.processors.contains(queue)
        && queues.queues[queue].len() > 0 {
        assert(queues.due().contains(queue));
        assert(names.to_set().contains(queue));
        let j = choose|j: int| 0 <= j < names.len() && names[j] == queue;
        assert(taken[j].queue == queue);
    }
}

/// The driver `redis` stands for queues in Redis with the settings that are given, and where one is
/// not, at the usual address, under `sockudo`, with five workers; any other stands for memory.
pub proof fn driver_chooses_the_queues(
    driver: Seq<char>,
    url: Seq<char>,
    prefix: Seq<char>,
    concurrency: usize,
)
    ensures
        queue_choice("redis"@, Some(url), Some(prefix), Some(concurrency)) == (ChoiceView::Redis {
            url,
            prefix,
            concurrency: concurrency as int,
        }),
        queue_choice("redis"@, None, None, None) == (ChoiceView::Redis {
            url: "redis://127.0.0.1:6379/"@,
            prefix: "sockudo"@,
            concurrency: 5,
        }),
        driver != "redis"@ ==> queue_choice(driver, Some(url), Some(prefix), Some(concurrency))
            is Memory,
{
}

} // verus!
