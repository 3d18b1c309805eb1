use vstd::prelude::*;
use crate::art::Placement;
use crate::feeder::blocked_names;
use crate::feeder::is_blocked;
use crate::feeder::known_ids;
use crate::feeder::step;
use crate::feeder::action_view;
use crate::feeder::event_view;
use crate::feeder::tag_views;
use crate::feeder::Action;
use crate::feeder::Event;
use crate::feeder::FeedState;
use crate::feeder::InstaFeeder;
use crate::feeder::Stage;
use crate::generator::sank;
use crate::generator::shows;
use crate::generator::MosaicArtGenerator;
use crate::picture::Picture;
use crate::post::InstaPost;
use crate::size::fits;
use crate::size::tiles;
use crate::size::ConfigError;
use crate::size::ImageSize;

verus! {

/// Seconds between two calls of a worker's pipeline.
pub const REFRESH_INTERVAL: u64 = 3;

/// Most posts that are taken from the store to fill a new mosaic.
pub const INIT_POSTS_LIMIT: usize = 1000;

/// Starts mosaic jobs and keeps the list of blocked authors, which all
/// of them share.
pub struct Worker {
    block_users: Vec<String>,
}

/// One running mosaic job: the mosaic with its scorer, and the pipeline
/// that feeds it.
pub struct Job {
    generator: MosaicArtGenerator,
    feeder: InstaFeeder,
}

/// Whether handing the posts to the generator one after the other leads
/// through the given mosaics with the given answers: `states` starts
/// with the mosaic before the first post, and each post leads from one
/// mosaic to the next as `sank` says.
pub open spec fn seeded(
    algo: crate::distance::DistanceCalcAlgo,
    states: Seq<crate::art::MosaicArt>,
    posts: Seq<InstaPost>,
    results: Seq<Placement>,
) -> bool {
    &&& states.len() == posts.len() + 1
    &&& results.len() == posts.len()
    &&& forall|i: int|
        0 <= i < posts.len() ==> #[trigger] sank(
            algo,
            states[i],
            posts[i],
            results[i],
            states[i + 1],
        )
}

/// Whether every photo of a list is a well-formed picture.
pub open spec fn photos_wf(posts: Seq<InstaPost>) -> bool {
    forall|i: int| 0 <= i < posts.len() ==> (#[trigger] posts[i]).image().wf()
}

impl Worker {
    /// The handles of the blocked authors.
    pub closed spec fn blocked(&self) -> Set<Seq<char>> {
        blocked_names(self.block_users@)
    }

    /// A worker with nobody on its block list.
    pub fn new() -> (worker: Worker)
        ensures
            worker.blocked() == Set::<Seq<char>>::empty(),
    {
        let worker = Worker { block_users: Vec::new() };
        assert(worker.blocked() =~= Set::<Seq<char>>::empty());
        worker
    }

    /// Puts an author on the block list.
    pub fn add_block_user(&mut self, user_name: String)
        ensures
            final(self).blocked() == old(self).blocked().insert(user_name@),
    {
        if !is_blocked(&self.block_users, &user_name) {
            let ghost before = self.block_users@;
            self.block_users.push(user_name);
            assert forall|name: Seq<char>|
                blocked_names(self.block_users@).contains(name) == blocked_names(before).insert(
                    user_name@,
                ).contains(name) by {
                if blocked_names(before).contains(name) {
                    let i = choose|i: int| 0 <= i < before.len() && before[i]@ == name;
                    assert(self.block_users@[i]@ == name);
                }
                if name == user_name@ {
                    assert(self.block_users@[before.len() as int]@ == name);
                }
            }
        }
        assert(self.blocked() =~= old(self).blocked().insert(user_name@));
    }

    /// Whether an author is on the block list.
    pub fn is_blocked(&self, user_name: &String) -> (found: bool)
        ensures
            found == self.blocked().contains(user_name@),
    {
        is_blocked(&self.block_users, user_name)
    }

    /// Starts a job: checks the sizes, cuts the reference, fills the
    /// mosaic from the first `INIT_POSTS_LIMIT` of the stored posts, in
    /// their order, and sets up the pipeline, not yet started, with
    /// `REFRESH_INTERVAL` between its calls.
    ///
    /// Refused, with nothing set up, exactly when the piece size does
    /// not tile the reference (`SizeMismatch`), the reference is too
    /// large (`TooLarge`), or there is no hashtag to poll (`NoHashtags`),
    /// in this order.
    pub fn run(
        &self,
        hashtags: Vec<String>,
        origin_image: Picture,
        piece: ImageSize,
        init_posts: Vec<InstaPost>,
    ) -> (res: Result<Job, ConfigError>)
        requires
            origin_image.wf(),
            photos_wf(init_posts@),
        ensures
            res.is_ok() <==> tiles(origin_image.size(), piece) && fits(origin_image.size())
                && hashtags@.len() > 0,
            res matches Err(e) ==> e == start_refusal(origin_image.size(), piece, hashtags@.len())
                .unwrap(),
            res matches Ok(job) ==> fresh_job(job, origin_image, piece, hashtags@, init_posts@),
    {
        let tags = crate::generator::clone_strings(hashtags.as_slice());
        let mut generator = match MosaicArtGenerator::new(origin_image, piece, hashtags) {
            Ok(generator) => generator,
            Err(e) => {
                return Err(e);
            },
        };
        if tags.len() == 0 {
            assert(tag_views(tags@).len() == tag_views(hashtags@).len());
            return Err(ConfigError::NoHashtags);
        }
        assert(tag_views(tags@).len() == tag_views(hashtags@).len());
        let ghost fresh = generator.art();
        let mut posts = init_posts;
        posts.truncate(INIT_POSTS_LIMIT);
        assert(posts@ =~= init_posts@.take(seed_count(init_posts@.len())));
        let ghost taken = posts@;
        let ghost algo = generator.algo();
        let results = seed(&mut generator, posts);
        let feeder = InstaFeeder::new(tags, REFRESH_INTERVAL);
        let job = Job { generator, feeder };
        proof {
            let states = choose|states: Seq<crate::art::MosaicArt>|
                {
                    &&& #[trigger] seeded(algo, states, taken, results@)
                    &&& states[0] == fresh
                    &&& states.last() == job.generator().art()
                };
            assert(seeded(job.generator().algo(), states, taken, results@));
            assert(job.feeder().state().tags =~= tag_views(hashtags@));
        }
        Ok(job)
    }
}

/// What a job is like when it has just been started: scorer and mosaic
/// are made for the reference and the piece size; the mosaic is an empty
/// one that has taken in the first `INIT_POSTS_LIMIT` stored posts, one
/// after the other; and the pipeline stands idle before the first of the
/// hashtags, with `REFRESH_INTERVAL` between its calls.
pub open spec fn fresh_job(
    job: Job,
    origin_image: Picture,
    piece: ImageSize,
    hashtags: Seq<String>,
    init_posts: Seq<InstaPost>,
) -> bool {
    &&& job.wf()
    &&& job.generator().algo().origin() == origin_image
    &&& job.generator().algo().grid().piece() == piece
    &&& job.generator().art().hashtags() == tag_views(hashtags)
    &&& job.feeder().state() == (FeedState {
        stage: Stage::Idle,
        tags: tag_views(hashtags),
        tag_cursor: 0,
        hashtag: Seq::empty(),
        page_cursor: None,
        has_more: false,
        queue: Seq::empty(),
        detail: None,
        interval: REFRESH_INTERVAL,
    })
    &&& exists|states: Seq<crate::art::MosaicArt>, results: Seq<Placement>|
        {
            &&& #[trigger] seeded(
                job.generator().algo(),
                states,
                init_posts.take(seed_count(init_posts.len())),
                results,
            )
            &&& states.last() == job.generator().art()
            &&& forall|i: int|
                0 <= i < states[0].cells().len() ==> (#[trigger] states[0].cells()[i]).is_none()
        }
}

/// How many of `len` stored posts fill a new mosaic.
pub open spec fn seed_count(len: nat) -> int {
    if len <= INIT_POSTS_LIMIT {
        len as int
    } else {
        INIT_POSTS_LIMIT as int
    }
}

/// Why a job cannot be started, if it cannot.
pub open spec fn start_refusal(reference: ImageSize, piece: ImageSize, hashtags: nat) -> Option<
    ConfigError,
> {
    if !tiles(reference, piece) {
        Some(ConfigError::SizeMismatch)
    } else if !fits(reference) {
        Some(ConfigError::TooLarge)
    } else if hashtags == 0 {
        Some(ConfigError::NoHashtags)
    } else {
        None
    }
}

/// Hands the posts to the generator one after the other, in their
/// order, and comes back with what became of each. The generator goes
/// through one mosaic per post, each step as `sank` says.
pub fn seed(generator: &mut MosaicArtGenerator, posts: Vec<InstaPost>) -> (results: Vec<Placement>)
    requires
        old(generator).wf(),
        photos_wf(posts@),
    ensures
        final(generator).wf(),
        final(generator).algo() == old(generator).algo(),
        final(generator).art().hashtags() == old(generator).art().hashtags(),
        final(generator).art().grid() == old(generator).art().grid(),
        exists|states: Seq<crate::art::MosaicArt>|
            {
                &&& #[trigger] seeded(old(generator).algo(), states, posts@, results@)
                &&& states[0] == old(generator).art()
                &&& states.last() == final(generator).art()
            },
{
    let ghost all = posts@;
    let ghost algo = generator.algo();
    let mut posts = posts;
    let mut results: Vec<Placement> = Vec::new();
    let ghost mut states: Seq<crate::art::MosaicArt> = seq![generator.art()];
    while posts.len() > 0
        invariant
            generator.wf(),
            generator.algo() == algo,
            generator.art().hashtags() == old(generator).art().hashtags(),
            generator.art().grid() == old(generator).art().grid(),
            photos_wf(all),
            results@.len() + posts@.len() == all.len(),
            posts@ == all.skip(results@.len() as int),
            states.len() == results@.len() + 1,
            states[0] == old(generator).art(),
            states.last() == generator.art(),
            forall|i: int|
                0 <= i < results@.len() ==> #[trigger] sank(
                    algo,
                    states[i],
                    all[i],
                    results@[i],
                    states[i + 1],
                ),
        decreases posts@.len(),
    {
        let ghost k = results@.len() as int;
        let ghost before = states;
        let post = posts.remove(0);
        assert(post == all[k]);
        assert(posts@ =~= all.skip(k + 1));
        let placement = generator.place(post);
        results.push(placement);
        proof {
            states = states.push(generator.art());
            assert forall|i: int| 0 <= i < results@.len() implies #[trigger] sank(
                algo,
                states[i],
                all[i],
                results@[i],
                states[i + 1],
            ) by {
                if i < k {
                    assert(sank(algo, before[i], all[i], results@[i], before[i + 1]));
                }
            }
        }
    }
    assert(seeded(algo, states, all, results@));
    results
}

impl Job {
    /// The mosaic of the job, with its scorer.
    pub closed spec fn generator(&self) -> MosaicArtGenerator {
        self.generator
    }

    /// The pipeline of the job.
    pub closed spec fn feeder(&self) -> InstaFeeder {
        self.feeder
    }

    /// Generator and pipeline are well-formed.
    pub open spec fn wf(&self) -> bool {
        self.generator().wf() && self.feeder().wf()
    }

    /// Runs the job's pipeline one step against the job's own mosaic and
    /// the worker's block list.
    pub fn step(&mut self, event: Event, worker: &Worker) -> (action: Action)
        requires
            old(self).wf(),
        ensures
            final(self).wf(),
            final(self).generator() == old(self).generator(),
            (final(self).feeder().state(), action_view(action)) == step(
                old(self).feeder().state(),
                event_view(event),
                known_ids(old(self).generator().art()),
                worker.blocked(),
            ),
    {
        self.feeder.run(event, self.generator.get_art(), &worker.block_users)
    }

    /// Scores a candidate and takes it into the job's mosaic.
    pub fn sink(&mut self, post: InstaPost) -> (res: Placement)
        requires
            old(self).wf(),
            post.image().wf(),
        ensures
            final(self).wf(),
            final(self).feeder() == old(self).feeder(),
            final(self).generator().algo() == old(self).generator().algo(),
            sank(
                old(self).generator().algo(),
                old(self).generator().art(),
                post,
                res,
                final(self).generator().art(),
            ),
    {
        self.generator.place(post)
    }

    /// The mosaic as it stands, copied out.
    pub fn snapshot(&self) -> (snapshot: crate::generator::MosaicArt)
        requires
            self.wf(),
        ensures
            shows(snapshot, self.generator().art()),
    {
        self.generator.current_art()
    }

    /// What the pipeline is waiting for.
    pub fn stage(&self) -> (stage: Stage)
        ensures
            stage == self.feeder().state().stage,
    {
        self.feeder.stage()
    }

    /// The mosaic itself, to read.
    pub fn art(&self) -> (art: &crate::art::MosaicArt)
        ensures
            *art == self.generator().art(),
    {
        self.generator.get_art()
    }
}

// ---------------------------------------------------------------------
// The jobs of a process
// ---------------------------------------------------------------------

/// The identity of a job, given out when it is started.
#[derive(Clone, Copy, Debug, PartialEq, Eq, Hash, Structural)]
pub struct WorkerId(pub u64);

/// A job under its identity.
pub struct Entry {
    id: u64,
    job: Job,
}

/// The running jobs of a process, each under its own identity.
pub struct WorkerManager {
    worker: Worker,
    entries: Vec<Entry>,
    next_id: u64,
}

impl Entry {
    pub closed spec fn id(&self) -> WorkerId {
        WorkerId(self.id)
    }

    pub closed spec fn job(&self) -> Job {
        self.job
    }
}

impl WorkerManager {
    /// The jobs with their identities, in the order they were started.
    pub closed spec fn entries(&self) -> Seq<Entry> {
        self.entries@
    }

    /// The identity that the next job gets.
    pub closed spec fn next_id(&self) -> u64 {
        self.next_id
    }

    /// The handles of the blocked authors.
    pub closed spec fn blocked(&self) -> Set<Seq<char>> {
        self.worker.blocked()
    }

    /// Whether the job at place `i` has the identity `id`.
    pub open spec fn is_at(&self, i: int, id: WorkerId) -> bool {
        0 <= i < self.entries().len() && self.entries()[i].id() == id
    }

    /// Whether a job runs under this identity.
    pub open spec fn has(&self, id: WorkerId) -> bool {
        exists|i: int| self.is_at(i, id)
    }

    /// The job that runs under this identity.
    pub open spec fn job(&self, id: WorkerId) -> Job {
        self.entries()[choose|i: int| self.is_at(i, id)].job()
    }

    /// Every job is well-formed, no two jobs share an identity, and the
    /// identity to be given out next is not in use.
    pub open spec fn wf(&self) -> bool {
        &&& forall|i: int|
            0 <= i < self.entries().len() ==> (#[trigger] self.entries()[i]).job().wf()
        &&& forall|i: int|
            0 <= i < self.entries().len() ==> (#[trigger] self.entries()[i]).id().0 < self.next_id()
        &&& forall|i: int, j: int, id: WorkerId| self.is_at(i, id) && self.is_at(j, id) ==> i == j
    }

    /// A manager without jobs whose first job gets the identity 0.
    pub fn new() -> (manager: WorkerManager)
        ensures
            manager.wf(),
            manager.entries().len() == 0,
            manager.next_id() == 0,
            manager.blocked() == Set::<Seq<char>>::empty(),
    {
        WorkerManager { worker: Worker::new(), entries: Vec::new(), next_id: 0 }
    }

    /// A manager without jobs whose first job gets the identity `first`.
    pub fn with_first_id(first: u64) -> (manager: WorkerManager)
        ensures
            manager.wf(),
            manager.entries().len() == 0,
            manager.next_id() == first,
            manager.blocked() == Set::<Seq<char>>::empty(),
    {
        WorkerManager { worker: Worker::new(), entries: Vec::new(), next_id: first }
    }

    /// Puts an author on the block list that all jobs share.
    pub fn add_block_user(&mut self, user_name: String)
        ensures
            final(self).blocked() == old(self).blocked().insert(user_name@),
            final(self).entries() == old(self).entries(),
            final(self).next_id() == old(self).next_id(),
    {
        self.worker.add_block_user(user_name);
    }

    /// The place of the job that runs under `id`, if there is one.
    fn find(&self, id: WorkerId) -> (place: Option<usize>)
        ensures
            place.is_some() == self.has(id),
            place matches Some(i) ==> self.is_at(i as int, id),
    {
        let mut i: usize = 0;
        while i < self.entries.len()
            invariant
                i <= self.entries@.len(),
                forall|k: int| 0 <= k < i ==> !self.is_at(k, id),
            decreases self.entries@.len() - i,
        {
            if self.entries[i].id == id.0 {
                assert(self.is_at(i as int, id));
                return Some(i);
            }
            i += 1;
        }
        None
    }

    /// Starts a job as `Worker::run` does and gives it the next identity.
    /// Where the job cannot be started, or no identity is left, nothing
    /// changes: no job is added.
    pub fn start_worker(
        &mut self,
        origin_image: Picture,
        piece: ImageSize,
        hashtags: Vec<String>,
        init_posts: Vec<InstaPost>,
    ) -> (res: Result<WorkerId, ConfigError>)
        requires
            old(self).wf(),
            origin_image.wf(),
            photos_wf(init_posts@),
        ensures
            final(self).wf(),
            final(self).blocked() == old(self).blocked(),
            res.is_ok() <==> start_refusal(origin_image.size(), piece, hashtags@.len()).is_none()
                && old(self).next_id() < u64::MAX,
            res matches Err(e) ==> {
                &&& final(self).entries() == old(self).entries()
                &&& final(self).next_id() == old(self).next_id()
                &&& e == match start_refusal(origin_image.size(), piece, hashtags@.len()) {
                    Some(why) => why,
                    None => ConfigError::OutOfIds,
                }
            },
            res matches Ok(id) ==> {
                &&& id.0 == old(self).next_id()
                &&& !old(self).has(id)
                &&& final(self).next_id() == old(self).next_id() + 1
                &&& final(self).entries().len() == old(self).entries().len() + 1
                &&& final(self).entries().drop_last() == old(self).entries()
                &&& final(self).entries().last().id() == id
                &&& fresh_job(
                    final(self).entries().last().job(),
                    origin_image,
                    piece,
                    hashtags@,
                    init_posts@,
                )
            },
    {
        let job = match self.worker.run(hashtags, origin_image, piece, init_posts) {
            Ok(job) => job,
            Err(e) => {
                return Err(e);
            },
        };
        if self.next_id == u64::MAX {
            return Err(ConfigError::OutOfIds);
        }
        let id = self.next_id;
        self.entries.push(Entry { id, job });
        self.next_id = id + 1;
        proof {
            assert(self.entries().drop_last() =~= old(self).entries());
            assert forall|i: int, j: int, other: WorkerId|
                self.is_at(i, other) && self.is_at(j, other) implies i == j by {
                let n = old(self).entries().len() as int;
                if i < n && j < n {
                    assert(old(self).is_at(i, other) && old(self).is_at(j, other));
                } else if i < n {
                    assert(old(self).entries()[i].id().0 < id);
                } else if j < n {
                    assert(old(self).entries()[j].id().0 < id);
                }
            }
            assert(!old(self).has(WorkerId(id))) by {
                if old(self).has(WorkerId(id)) {
                    let i = choose|i: int| old(self).is_at(i, WorkerId(id));
                    assert(old(self).entries()[i].id().0 < id);
                }
            }
        }
        Ok(WorkerId(id))
    }

    /// Stops the job that runs under `id` and lets go of it. Says
    /// whether there was such a job. The other jobs stay, in their order.
    pub fn stop_worker(&mut self, id: WorkerId) -> (found: bool)
        requires
            old(self).wf(),
        ensures
            final(self).wf(),
            found == old(self).has(id),
            !final(self).has(id),
            final(self).next_id() == old(self).next_id(),
            final(self).blocked() == old(self).blocked(),
            forall|other: WorkerId|
                other != id ==> final(self).has(other) == old(self).has(other) && (old(self).has(
                    other,
                ) ==> final(self).job(other) == old(self).job(other)),
            found ==> final(self).entries().len() + 1 == old(self).entries().len(),
            !found ==> final(self).entries() == old(self).entries(),
    {
        match self.find(id) {
            None => false,
            Some(place) => {
                let ghost before = self.entries@;
                let ghost p = place as int;
                let _gone = self.entries.remove(place);
                proof {
                    let after = self.entries@;
                    assert forall|i: int| 0 <= i < after.len() implies after[i] == before[if i < p {
                        i
                    } else {
                        i + 1
                    }] by {}
                    assert forall|i: int, j: int, other: WorkerId|
                        self.is_at(i, other) && self.is_at(j, other) implies i == j by {
                        let bi = if i < p { i } else { i + 1 };
                        let bj = if j < p { j } else { j + 1 };
                        assert(old(self).is_at(bi, other) && old(self).is_at(bj, other));
                    }
                    assert(!self.has(id)) by {
                        if self.has(id) {
                            let i = choose|i: int| self.is_at(i, id);
                            let bi = if i < p { i } else { i + 1 };
                            assert(old(self).is_at(bi, id) && old(self).is_at(p, id));
                        }
                    }
                    assert forall|other: WorkerId| other != id implies self.has(other) == old(
                        self,
                    ).has(other) && (old(self).has(other) ==> self.job(other) == old(self).job(
                        other,
                    )) by {
                        if old(self).has(other) {
                            let b = choose|i: int| old(self).is_at(i, other);
                            let a = if b < p { b } else { b - 1 };
                            assert(self.is_at(a, other));
                            let c = choose|i: int| self.is_at(i, other);
                            assert(c == a);
                        }
                        if self.has(other) {
                            let a = choose|i: int| self.is_at(i, other);
                            let b = if a < p { a } else { a + 1 };
                            assert(old(self).is_at(b, other));
                        }
                    }
                }
                true
            },
        }
    }

    /// The job that runs under `id`, to read; `None` for an identity
    /// under which no job runs.
    pub fn get(&self, id: WorkerId) -> (job: Option<&Job>)
        requires
            self.wf(),
        ensures
            job.is_some() == self.has(id),
            job matches Some(j) ==> *j == self.job(id),
    {
        match self.find(id) {
            None => None,
            Some(place) => {
                proof {
                    let c = choose|i: int| self.is_at(i, id);
                    assert(self.is_at(c, id));
                }
                Some(&self.entries[place].job)
            },
        }
    }

    /// Whether this manager is `before` but for the job under `id`,
    /// which is now `job`.
    pub open spec fn differs_at(&self, before: WorkerManager, id: WorkerId, job: Job) -> bool {
        &&& self.next_id() == before.next_id()
        &&& self.blocked() == before.blocked()
        &&& self.entries().len() == before.entries().len()
        &&& forall|i: int|
            0 <= i < self.entries().len() ==> (#[trigger] self.entries()[i]).id()
                == before.entries()[i].id()
        &&& forall|i: int|
            0 <= i < self.entries().len() && before.entries()[i].id() != id ==> (
            #[trigger] self.entries()[i]).job() == before.entries()[i].job()
        &&& self.has(id)
        &&& self.job(id) == job
    }

    /// A manager stays well-formed when one of its jobs is exchanged for
    /// a well-formed one under the same identity.
    proof fn lemma_exchanged(&self, before: WorkerManager, place: int, job: Job)
        requires
            before.wf(),
            0 <= place < before.entries().len(),
            job.wf(),
            self.next_id() == before.next_id(),
            self.blocked() == before.blocked(),
            self.entries().len() == before.entries().len(),
            self.entries()[place].id() == before.entries()[place].id(),
            self.entries()[place].job() == job,
            forall|i: int|
                0 <= i < self.entries().len() && i != place ==> #[trigger] self.entries()[i]
                    == before.entries()[i],
        ensures
            self.wf(),
            self.differs_at(before, before.entries()[place].id(), job),
    {
        let id = before.entries()[place].id();
        assert forall|i: int| 0 <= i < self.entries().len() implies (#[trigger] self.entries()[i]).id()
            == before.entries()[i].id() by {
            if i != place {
                assert(self.entries()[i] == before.entries()[i]);
            }
        }
        assert forall|i: int, j: int, other: WorkerId|
            self.is_at(i, other) && self.is_at(j, other) implies i == j by {
            assert(before.is_at(i, other) && before.is_at(j, other));
        }
        assert(self.is_at(place, id));
        let c = choose|i: int| self.is_at(i, id);
        assert(self.is_at(c, id));
        assert forall|i: int|
            0 <= i < self.entries().len() && before.entries()[i].id() != id implies (
        #[trigger] self.entries()[i]).job() == before.entries()[i].job() by {
            assert(i != place);
        }
        assert forall|i: int| 0 <= i < self.entries().len() implies (#[trigger] self.entries()[i])
            .job().wf() by {
            if i != place {
                assert(self.entries()[i] == before.entries()[i]);
            }
        }
        assert forall|i: int| 0 <= i < self.entries().len() implies (#[trigger] self.entries()[i])
            .id().0 < self.next_id() by {
            assert(before.entries()[i].id().0 < before.next_id());
        }
    }

    /// Runs the pipeline of the job under `id` one step. `None`, with
    /// nothing changed, where no job runs under `id`.
    pub fn step(&mut self, id: WorkerId, event: Event) -> (action: Option<Action>)
        requires
            old(self).wf(),
        ensures
            final(self).wf(),
            action.is_some() == old(self).has(id),
            action.is_none() ==> final(self).entries() == old(self).entries(),
            action.is_none() ==> final(self).next_id() == old(self).next_id(),
            action.is_none() ==> final(self).blocked() == old(self).blocked(),
            action matches Some(a) ==> {
                let job = final(self).job(id);
                &&& final(self).differs_at(*old(self), id, job)
                &&& job.generator() == old(self).job(id).generator()
                &&& (job.feeder().state(), action_view(a)) == step(
                    old(self).job(id).feeder().state(),
                    event_view(event),
                    known_ids(old(self).job(id).generator().art()),
                    old(self).blocked(),
                )
            },
    {
        match self.find(id) {
            None => None,
            Some(place) => {
                proof {
                    let c = choose|i: int| self.is_at(i, id);
                    assert(self.is_at(c, id));
                }
                let mut entry = self.entries.remove(place);
                let action = entry.job.step(event, &self.worker);
                let ghost job = entry.job;
                self.entries.insert(place, entry);
                proof {
                    self.lemma_exchanged(*old(self), place as int, job);
                }
                Some(action)
            },
        }
    }

    /// Scores a candidate and takes it into the mosaic of the job under
    /// `id`. `None`, with nothing changed, where no job runs under `id`.
    pub fn sink(&mut self, id: WorkerId, post: InstaPost) -> (res: Option<Placement>)
        requires
            old(self).wf(),
            post.image().wf(),
        ensures
            final(self).wf(),
            res.is_some() == old(self).has(id),
            res.is_none() ==> final(self).entries() == old(self).entries(),
            res.is_none() ==> final(self).next_id() == old(self).next_id(),
            res.is_none() ==> final(self).blocked() == old(self).blocked(),
            res matches Some(placement) ==> {
                let job = final(self).job(id);
                &&& final(self).differs_at(*old(self), id, job)
                &&& job.feeder() == old(self).job(id).feeder()
                &&& job.generator().algo() == old(self).job(id).generator().algo()
                &&& sank(
                    old(self).job(id).generator().algo(),
                    old(self).job(id).generator().art(),
                    post,
                    placement,
                    job.generator().art(),
                )
            },
    {
        match self.find(id) {
            None => None,
            Some(place) => {
                proof {
                    let c = choose|i: int| self.is_at(i, id);
                    assert(self.is_at(c, id));
                }
                let mut entry = self.entries.remove(place);
                let placement = entry.job.sink(post);
                let ghost job = entry.job;
                self.entries.insert(place, entry);
                proof {
                    self.lemma_exchanged(*old(self), place as int, job);
                }
                Some(placement)
            },
        }
    }

    /// The worker that the jobs share.
    pub fn worker(&self) -> (worker: &Worker)
        ensures
            worker.blocked() == self.blocked(),
    {
        &self.worker
    }
}

} // verus!
