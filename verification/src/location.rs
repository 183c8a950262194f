//! The dialogue with the GeoClue location service.
//!
//! A query says which step to take next. Its caller takes the step on the bus
//! and reports what came of it, until the query is finished.

use vstd::prelude::*;

verus! {

/// How often a query asks for a location fix.
pub const POLL_LIMIT: u32 = 10;

/// Pause after an answer without a fix, in milliseconds.
pub const POLL_INTERVAL_MILLIS: u64 = 500;

/// Desktop id that a query goes by.
pub const DESKTOP_ID: &'static str = "cosmic-comp";

/// Accuracy that a query asks for: the level of a city.
pub const ACCURACY_LEVEL: u32 = 4;

/// What a query wants done next. `T` is the type of a coordinate.
#[derive(Debug, Clone, Copy, PartialEq)]
pub enum LocationStep<T> {
    /// Connect to the system bus.
    Connect,
    /// Open the manager object of the service.
    OpenManager,
    /// Ask the manager for the path of a client object.
    GetClient,
    /// Open the properties of the client object.
    OpenProperties,
    /// Set the client's desktop id.
    SetDesktopId,
    /// Set the client's accuracy level.
    SetAccuracyLevel,
    /// Open the client object itself.
    OpenClient,
    /// Start the client.
    Start,
    /// Ask for the path of the client's location object.
    PollLocation {
        /// How often it was asked for before.
        attempt: u32,
    },
    /// Pause before the next attempt.
    Sleep {
        /// How often the path was asked for before the attempt that gave none.
        attempt: u32,
    },
    /// Open the properties of the location object.
    OpenLocation,
    /// Read the latitude.
    GetLatitude,
    /// Read the longitude.
    GetLongitude {
        /// The latitude.
        latitude: T,
    },
    /// Stop the client.
    Stop {
        /// What the query will end with.
        result: Option<(T, T)>,
    },
    /// Nothing more: the query has ended.
    Finished {
        /// Latitude and longitude, if there was a fix.
        result: Option<(T, T)>,
    },
}

/// What came of a step.
#[derive(Debug)]
pub enum LocationReply<T> {
    /// It succeeded.
    Done,
    /// It gave the path of an object.
    Path(String),
    /// It gave a coordinate.
    Coordinate(T),
    /// It failed.
    Failed,
}

impl<T> LocationReply<T> {
    /// The path `/`, which stands for no object.
    pub open spec fn is_no_object(self) -> bool {
        self matches LocationReply::Path(path) && path@ == "/"@
    }

    /// The path of an object.
    pub open spec fn is_object(self) -> bool {
        self matches LocationReply::Path(path) && path@ != "/"@
    }
}

/// The end of a query without a result.
pub open spec fn no_location<T>() -> LocationStep<T> {
    LocationStep::Finished { result: None }
}

/// The step after `step`, once the reply to it is known. A step that cannot do
/// without the reply it asks for ends the query where that reply does not come;
/// the others are taken on trust.
pub open spec fn next_step<T>(step: LocationStep<T>, reply: LocationReply<T>) -> LocationStep<T> {
    match step {
        LocationStep::Connect => if reply is Done {
            LocationStep::OpenManager
        } else {
            no_location()
        },
        LocationStep::OpenManager => if reply is Done {
            LocationStep::GetClient
        } else {
            no_location()
        },
        LocationStep::GetClient => if reply.is_object() {
            LocationStep::OpenProperties
        } else {
            no_location()
        },
        LocationStep::OpenProperties => if reply is Done {
            LocationStep::SetDesktopId
        } else {
            no_location()
        },
        LocationStep::SetDesktopId => LocationStep::SetAccuracyLevel,
        LocationStep::SetAccuracyLevel => LocationStep::OpenClient,
        LocationStep::OpenClient => if reply is Done {
            LocationStep::Start
        } else {
            no_location()
        },
        LocationStep::Start => LocationStep::PollLocation { attempt: 0 },
        LocationStep::PollLocation { attempt } => if reply.is_object() {
            LocationStep::OpenLocation
        } else if reply.is_no_object() {
            LocationStep::Sleep { attempt }
        } else {
            no_location()
        },
        LocationStep::Sleep { attempt } => if attempt + 1 < POLL_LIMIT {
            LocationStep::PollLocation { attempt: (attempt + 1) as u32 }
        } else {
            LocationStep::Stop { result: None }
        },
        LocationStep::OpenLocation => if reply is Done {
            LocationStep::GetLatitude
        } else {
            no_location()
        },
        LocationStep::GetLatitude => match reply {
            LocationReply::Coordinate(latitude) => LocationStep::GetLongitude { latitude },
            _ => no_location(),
        },
        LocationStep::GetLongitude { latitude } => match reply {
            LocationReply::Coordinate(longitude) => LocationStep::Stop {
                result: Some((latitude, longitude)),
            },
            _ => no_location(),
        },
        LocationStep::Stop { result } => LocationStep::Finished { result },
        LocationStep::Finished { result } => LocationStep::Finished { result },
    }
}

/// What a location query knows: the step to take, and the paths of the client
/// and of the location object, empty until they are known.
pub ghost struct QueryState<T> {
    pub step: LocationStep<T>,
    pub client: Seq<char>,
    pub location: Seq<char>,
}

impl<T> QueryState<T> {
    /// The start of a query.
    pub open spec fn start() -> Self {
        QueryState { step: LocationStep::Connect, client: Seq::empty(), location: Seq::empty() }
    }

    /// The query once it has the reply to its step.
    pub open spec fn after(self, reply: LocationReply<T>) -> Self {
        QueryState {
            step: next_step(self.step, reply),
            client: if self.step is GetClient && reply.is_object() {
                reply->Path_0@
            } else {
                self.client
            },
            location: if self.step is PollLocation && reply.is_object() {
                reply->Path_0@
            } else {
                self.location
            },
        }
    }
}

/// A location query in progress.
#[derive(Debug)]
pub struct LocationQuery<T> {
    step: LocationStep<T>,
    client: String,
    location: String,
}

impl<T> View for LocationQuery<T> {
    type V = QueryState<T>;

    closed spec fn view(&self) -> QueryState<T> {
        QueryState { step: self.step, client: self.client@, location: self.location@ }
    }
}

/// Is `path` the path `/`, which stands for no object?
fn is_no_object(path: &String) -> (r: bool)
    ensures
        r == (path@ == "/"@),
{
    proof {
        reveal_strlit("/");
    }
    let text = path.as_str();
    if text.unicode_len() != 1 {
        return false;
    }
    let r = text.get_char(0) == '/';
    proof {
        if r {
            assert(path@ =~= "/"@);
        }
    }
    r
}

impl<T: Copy> LocationQuery<T> {
    /// A query counts its attempts within the limit.
    pub open spec fn well_formed(&self) -> bool {
        valid_step(self@.step)
    }

    /// A query at its first step.
    pub fn new() -> (query: Self)
        ensures
            query.well_formed(),
            query@ == QueryState::<T>::start(),
    {
        let query = LocationQuery {
            step: LocationStep::Connect,
            client: String::new(),
            location: String::new(),
        };
        assert(query@.client =~= Seq::empty() && query@.location =~= Seq::empty());
        query
    }

    /// The step to take.
    pub fn step(&self) -> (step: LocationStep<T>)
        ensures
            step == self@.step,
    {
        self.step
    }

    /// The path of the client object, empty until the manager has named it.
    pub fn client(&self) -> (path: &str)
        ensures
            path@ == self@.client,
    {
        self.client.as_str()
    }

    /// The path of the location object, empty until the client has named it.
    pub fn location(&self) -> (path: &str)
        ensures
            path@ == self@.location,
    {
        self.location.as_str()
    }

    /// Goes on to the next step with the reply to the present one.
    pub fn advance(&mut self, reply: LocationReply<T>)
        requires
            old(self).well_formed(),
        ensures
            final(self).well_formed(),
            final(self)@ == old(self)@.after(reply),
    {
        let finished = LocationStep::Finished { result: None };
        match self.step {
            LocationStep::Connect => {
                self.step = match reply {
                    LocationReply::Done => LocationStep::OpenManager,
                    _ => finished,
                };
            },
            LocationStep::OpenManager => {
                self.step = match reply {
                    LocationReply::Done => LocationStep::GetClient,
                    _ => finished,
                };
            },
            LocationStep::GetClient => {
                match reply {
                    LocationReply::Path(path) => {
                        if is_no_object(&path) {
                            self.step = finished;
                        } else {
                            self.client = path;
                            self.step = LocationStep::OpenProperties;
                        }
                    },
                    _ => {
                        self.step = finished;
                    },
                }
            },
            LocationStep::OpenProperties => {
                self.step = match reply {
                    LocationReply::Done => LocationStep::SetDesktopId,
                    _ => finished,
                };
            },
            LocationStep::SetDesktopId => {
                self.step = LocationStep::SetAccuracyLevel;
            },
            LocationStep::SetAccuracyLevel => {
                self.step = LocationStep::OpenClient;
            },
            LocationStep::OpenClient => {
                self.step = match reply {
                    LocationReply::Done => LocationStep::Start,
                    _ => finished,
                };
            },
            LocationStep::Start => {
                self.step = LocationStep::PollLocation { attempt: 0 };
            },
            LocationStep::PollLocation { attempt } => {
                match reply {
                    LocationReply::Path(path) => {
                        if is_no_object(&path) {
                            self.step = LocationStep::Sleep { attempt };
                        } else {
                            self.location = path;
                            self.step = LocationStep::OpenLocation;
                        }
                    },
                    _ => {
                        self.step = finished;
                    },
                }
            },
            LocationStep::Sleep { attempt } => {
                self.step = if attempt + 1 < POLL_LIMIT {
                    LocationStep::PollLocation { attempt: attempt + 1 }
                } else {
                    LocationStep::Stop { result: None }
                };
            },
            LocationStep::OpenLocation => {
                self.step = match reply {
                    LocationReply::Done => LocationStep::GetLatitude,
                    _ => finished,
                };
            },
            LocationStep::GetLatitude => {
                self.step = match reply {
                    LocationReply::Coordinate(latitude) => LocationStep::GetLongitude { latitude },
                    _ => finished,
                };
            },
            LocationStep::GetLongitude { latitude } => {
                self.step = match reply {
                    LocationReply::Coordinate(longitude) => LocationStep::Stop {
                        result: Some((latitude, longitude)),
                    },
                    _ => finished,
                };
            },
            LocationStep::Stop { result } => {
                self.step = LocationStep::Finished { result };
            },
            LocationStep::Finished { result: _ } => {},
        }
    }
}

/// Attempts are counted within the limit.
pub open spec fn valid_step<T>(step: LocationStep<T>) -> bool {
    match step {
        LocationStep::PollLocation { attempt } => attempt < POLL_LIMIT,
        LocationStep::Sleep { attempt } => attempt < POLL_LIMIT,
        _ => true,
    }
}

/// How many more steps a query can take at most.
pub open spec fn steps_left<T>(step: LocationStep<T>) -> nat {
    match step {
        LocationStep::Connect => 31,
        LocationStep::OpenManager => 30,
        LocationStep::GetClient => 29,
        LocationStep::OpenProperties => 28,
        LocationStep::SetDesktopId => 27,
        LocationStep::SetAccuracyLevel => 26,
        LocationStep::OpenClient => 25,
        LocationStep::Start => 24,
        LocationStep::PollLocation { attempt } => (3 + 2 * (POLL_LIMIT - attempt)) as nat,
        LocationStep::Sleep { attempt } => (2 + 2 * (POLL_LIMIT - attempt)) as nat,
        LocationStep::OpenLocation => 4,
        LocationStep::GetLatitude => 3,
        LocationStep::GetLongitude { latitude: _ } => 2,
        LocationStep::Stop { result: _ } => 1,
        LocationStep::Finished { result: _ } => 0,
    }
}

/// Is `queries` with `replies` a dialogue with `perform`, from the start of a
/// query on? It ends no later than the query does.
pub open spec fn is_dialogue<T, P: Fn(&LocationQuery<T>) -> LocationReply<T>>(
    perform: P,
    queries: Seq<LocationQuery<T>>,
    replies: Seq<LocationReply<T>>,
) -> bool {
    &&& queries.len() == replies.len() + 1
    &&& queries[0]@ == QueryState::<T>::start()
    &&& forall|i: int|
        #![trigger replies[i]]
        0 <= i < replies.len() ==> {
            &&& !(queries[i]@.step is Finished)
            &&& call_ensures(perform, (&queries[i],), replies[i])
            &&& queries[i + 1]@ == queries[i]@.after(replies[i])
        }
}

/// Query the system location: latitude and longitude, if there is a fix.
///
/// `perform` takes the step that a query is at, and gives what came of it.
pub fn query_location<T: Copy, P: Fn(&LocationQuery<T>) -> LocationReply<T>>(perform: &P) -> (result:
    Option<(T, T)>)
    requires
        forall|query: LocationQuery<T>|
            query.well_formed() ==> #[trigger] call_requires(*perform, (&query,)),
    ensures
        exists|queries: Seq<LocationQuery<T>>, replies: Seq<LocationReply<T>>| #[trigger]
            is_dialogue(*perform, queries, replies) && queries.last()@.step
                == (LocationStep::Finished { result }),
{
    let mut query: LocationQuery<T> = LocationQuery::new();
    let ghost mut queries: Seq<LocationQuery<T>> = seq![query];
    let ghost mut replies: Seq<LocationReply<T>> = Seq::empty();
    loop
        invariant
            query.well_formed(),
            queries.len() > 0,
            queries.last() == query,
            is_dialogue(*perform, queries, replies),
            forall|q: LocationQuery<T>|
                q.well_formed() ==> #[trigger] call_requires(*perform, (&q,)),
        decreases steps_left(query@.step),
    {
        if let LocationStep::Finished { result } = query.step() {
            return result;
        }
        let reply = perform(&query);
        proof {
            replies = replies.push(reply);
        }
        query.advance(reply);
        proof {
            queries = queries.push(query);
        }
    }
}

/// How many of the steps of a dialogue ask for the location object.
pub open spec fn polls<T>(queries: Seq<LocationQuery<T>>) -> nat
    decreases queries.len(),
{
    if queries.len() == 0 {
        0
    } else {
        polls(queries.drop_last()) + if queries.last()@.step is PollLocation {
            1nat
        } else {
            0
        }
    }
}

/// How many of the steps of a dialogue are pauses.
pub open spec fn pauses<T>(queries: Seq<LocationQuery<T>>) -> nat
    decreases queries.len(),
{
    if queries.len() == 0 {
        0
    } else {
        pauses(queries.drop_last()) + if queries.last()@.step is Sleep {
            1nat
        } else {
            0
        }
    }
}

/// A step without which the query cannot go on.
pub open spec fn is_needed<T>(step: LocationStep<T>) -> bool {
    match step {
        LocationStep::SetDesktopId => false,
        LocationStep::SetAccuracyLevel => false,
        LocationStep::Start => false,
        LocationStep::Sleep { attempt: _ } => false,
        LocationStep::Stop { result: _ } => false,
        LocationStep::Finished { result: _ } => false,
        _ => true,
    }
}

/// What the counts of a dialogue are at its step `i`.
proof fn lemma_dialogue_counts<T, P: Fn(&LocationQuery<T>) -> LocationReply<T>>(
    perform: P,
    queries: Seq<LocationQuery<T>>,
    replies: Seq<LocationReply<T>>,
    i: int,
)
    requires
        is_dialogue(perform, queries, replies),
        0 <= i < queries.len(),
    ensures
        valid_step(queries[i]@.step),
        steps_left(queries[i]@.step) + i <= 31,
        match queries[i]@.step {
            LocationStep::PollLocation { attempt } => polls(queries.take(i + 1)) == attempt + 1
                && pauses(queries.take(i + 1)) == attempt,
            LocationStep::Sleep { attempt } => polls(queries.take(i + 1)) == attempt + 1 && pauses(
                queries.take(i + 1),
            ) == attempt + 1,
            _ => if 24 <= steps_left(queries[i]@.step) {
                polls(queries.take(i + 1)) == 0 && pauses(queries.take(i + 1)) == 0
            } else {
                polls(queries.take(i + 1)) <= POLL_LIMIT && pauses(queries.take(i + 1))
                    <= POLL_LIMIT
            },
        },
    decreases i,
{
    reveal_with_fuel(polls, 2);
    reveal_with_fuel(pauses, 2);
    assert(queries.take(i + 1).last() == queries[i]);
    assert(queries.take(i + 1).drop_last() =~= queries.take(i));
    if i > 0 {
        lemma_dialogue_counts(perform, queries, replies, i - 1);
        assert(queries[i]@ == queries[i - 1]@.after(replies[i - 1]));
    }
}

/// A query comes to its end: no dialogue is longer than 31 replies.
pub proof fn law_query_ends<T, P: Fn(&LocationQuery<T>) -> LocationReply<T>>(
    perform: P,
    queries: Seq<LocationQuery<T>>,
    replies: Seq<LocationReply<T>>,
)
    requires
        is_dialogue(perform, queries, replies),
    ensures
        replies.len() <= 31,
        replies.len() == 31 ==> queries.last()@.step is Finished,
{
    lemma_dialogue_counts(perform, queries, replies, replies.len() as int);
}

/// A query asks for a fix at most ten times, and pauses for at most five seconds
/// in all.
pub proof fn law_polls_bounded<T, P: Fn(&LocationQuery<T>) -> LocationReply<T>>(
    perform: P,
    queries: Seq<LocationQuery<T>>,
    replies: Seq<LocationReply<T>>,
)
    requires
        is_dialogue(perform, queries, replies),
    ensures
        polls(queries) <= POLL_LIMIT,
        pauses(queries) * POLL_INTERVAL_MILLIS <= 5000,
{
    lemma_dialogue_counts(perform, queries, replies, replies.len() as int);
    assert(queries.take(replies.len() as int + 1) =~= queries);
}

/// A query that ends with a location ends with the latitude and the longitude
/// that were read, one after the other, and has stopped the client after that.
pub proof fn law_location_as_read<T, P: Fn(&LocationQuery<T>) -> LocationReply<T>>(
    perform: P,
    queries: Seq<LocationQuery<T>>,
    replies: Seq<LocationReply<T>>,
    latitude: T,
    longitude: T,
)
    requires
        is_dialogue(perform, queries, replies),
        queries.last()@.step == (LocationStep::Finished { result: Some((latitude, longitude)) }),
    ensures
        replies.len() >= 3,
        queries[replies.len() - 3]@.step is GetLatitude,
        replies[replies.len() - 3] == LocationReply::Coordinate(latitude),
        queries[replies.len() - 2]@.step is GetLongitude,
        replies[replies.len() - 2] == LocationReply::Coordinate(longitude),
        queries[replies.len() - 1]@.step is Stop,
{
    let n = replies.len() as int;
    assert(n > 0);
    assert(queries[n]@ == queries[n - 1]@.after(replies[n - 1]));
    assert(queries[n - 1]@.step is Stop);
    assert(n > 1);
    assert(queries[n - 1]@ == queries[n - 2]@.after(replies[n - 2]));
    assert(n > 2);
    assert(queries[n - 2]@ == queries[n - 3]@.after(replies[n - 3]));
}

/// Where a needed step fails, the query ends there, without a location.
pub proof fn law_failure_ends_query<T, P: Fn(&LocationQuery<T>) -> LocationReply<T>>(
    perform: P,
    queries: Seq<LocationQuery<T>>,
    replies: Seq<LocationReply<T>>,
    i: int,
)
    requires
        is_dialogue(perform, queries, replies),
        0 <= i < replies.len(),
        is_needed(queries[i]@.step),
        replies[i] is Failed,
    ensures
        replies.len() == i + 1,
        queries.last()@.step == no_location::<T>(),
{
    assert(queries[i + 1]@ == queries[i]@.after(replies[i]));
    if i + 1 < replies.len() {
        assert(!(queries[i + 1]@.step is Finished)) by {
            let _ = replies[i + 1];
        }
    }
}

/// A query opens the objects that it was told of: the paths that it holds at any
/// of its steps came in replies, to the manager's and to the client's step, and
/// are not the path `/`.
pub proof fn law_paths_as_told<T, P: Fn(&LocationQuery<T>) -> LocationReply<T>>(
    perform: P,
    queries: Seq<LocationQuery<T>>,
    replies: Seq<LocationReply<T>>,
    i: int,
)
    requires
        is_dialogue(perform, queries, replies),
        0 <= i < queries.len(),
    ensures
        queries[i]@.step is OpenProperties || queries[i]@.step is OpenClient ==> exists|j: int|
            #![trigger replies[j]]
            0 <= j < i && queries[j]@.step is GetClient && replies[j].is_object()
                && replies[j]->Path_0@ == queries[i]@.client,
        queries[i]@.step is OpenLocation ==> exists|j: int|
            #![trigger replies[j]]
            0 <= j < i && queries[j]@.step is PollLocation && replies[j].is_object()
                && replies[j]->Path_0@ == queries[i]@.location,
    decreases i,
{
    if i > 0 {
        assert(queries[i]@ == queries[i - 1]@.after(replies[i - 1]));
        if queries[i]@.step is OpenClient {
            assert(queries[i - 1]@.step is SetAccuracyLevel);
            assert(queries[i - 1]@ == queries[i - 2]@.after(replies[i - 2]));
            assert(queries[i - 2]@ == queries[i - 3]@.after(replies[i - 3]));
            assert(queries[i - 3]@.step is OpenProperties);
            law_paths_as_told(perform, queries, replies, i - 3);
        }
    }
}

/// A dialogue is what its name says: a query at each step that is not the last
/// has not ended, and gets the reply that `perform` gives for it.
pub proof fn law_every_step_performed<T, P: Fn(&LocationQuery<T>) -> LocationReply<T>>(
    perform: P,
    queries: Seq<LocationQuery<T>>,
    replies: Seq<LocationReply<T>>,
    i: int,
)
    requires
        is_dialogue(perform, queries, replies),
        0 <= i < replies.len(),
    ensures
        queries.len() == replies.len() + 1,
        !(queries[i]@.step is Finished),
        call_ensures(perform, (&queries[i],), replies[i]),
{
    let _ = replies[i];
}

/// A location object that the client names, at whichever attempt, is opened next,
/// under the path that was named; a client object that the manager names is
/// opened next in the same way.
pub proof fn law_named_object_is_opened<T, P: Fn(&LocationQuery<T>) -> LocationReply<T>>(
    perform: P,
    queries: Seq<LocationQuery<T>>,
    replies: Seq<LocationReply<T>>,
    i: int,
)
    requires
        is_dialogue(perform, queries, replies),
        0 <= i < replies.len(),
        replies[i] is Path,
        replies[i]->Path_0@ != "/"@,
    ensures
        queries[i]@.step is PollLocation ==> queries[i + 1]@.step is OpenLocation && queries[i
            + 1]@.location == replies[i]->Path_0@,
        queries[i]@.step is GetClient ==> queries[i + 1]@.step is OpenProperties && queries[i
            + 1]@.client == replies[i]->Path_0@,
{
    assert(queries[i + 1]@ == queries[i]@.after(replies[i]));
}

/// A query never goes back: from one step to a later one, fewer steps are left.
proof fn lemma_steps_go_on<T, P: Fn(&LocationQuery<T>) -> LocationReply<T>>(
    perform: P,
    queries: Seq<LocationQuery<T>>,
    replies: Seq<LocationReply<T>>,
    i: int,
    j: int,
)
    requires
        is_dialogue(perform, queries, replies),
        0 <= i < j < queries.len(),
    ensures
        valid_step(queries[i]@.step),
        valid_step(queries[j]@.step),
        steps_left(queries[j]@.step) < steps_left(queries[i]@.step),
    decreases j,
{
    lemma_dialogue_counts(perform, queries, replies, i);
    lemma_dialogue_counts(perform, queries, replies, j);
    lemma_dialogue_counts(perform, queries, replies, j - 1);
    assert(queries[j]@ == queries[j - 1]@.after(replies[j - 1]));
    assert(!(queries[j - 1]@.step is Finished)) by {
        let _ = replies[j - 1];
    }
    if i < j - 1 {
        lemma_steps_go_on(perform, queries, replies, i, j - 1);
    }
}

/// A query holds on to the paths that it was told: once the manager has named
/// the client object, and once the client has named the location object, the
/// path is the one that was named, to the end.
pub proof fn law_paths_are_kept<T, P: Fn(&LocationQuery<T>) -> LocationReply<T>>(
    perform: P,
    queries: Seq<LocationQuery<T>>,
    replies: Seq<LocationReply<T>>,
    i: int,
    j: int,
)
    requires
        is_dialogue(perform, queries, replies),
        0 <= i < j < queries.len(),
        replies[i] is Path,
        replies[i]->Path_0@ != "/"@,
    ensures
        queries[i]@.step is GetClient ==> queries[j]@.client == replies[i]->Path_0@,
        queries[i]@.step is PollLocation ==> queries[j]@.location == replies[i]->Path_0@,
    decreases j,
{
    assert(queries[j]@ == queries[j - 1]@.after(replies[j - 1]));
    if i < j - 1 {
        law_paths_are_kept(perform, queries, replies, i, j - 1);
        law_named_object_is_opened(perform, queries, replies, i);
        lemma_steps_go_on(perform, queries, replies, i, j - 1);
        if i + 1 < j - 1 {
            lemma_steps_go_on(perform, queries, replies, i + 1, j - 1);
        }
    }
}

/// How a query goes as long as each step gets the kind of reply that it asks for
/// and no location object is named: it connects, opens the manager, gets and
/// opens the client, sets it up and starts it, and then asks for a location ten
/// times, with a pause after each; then it stops the client and ends without a
/// location. What comes of setting the client up, of starting and stopping it and
/// of the pauses does not count.
pub proof fn law_query_without_fix<T, P: Fn(&LocationQuery<T>) -> LocationReply<T>>(
    perform: P,
    queries: Seq<LocationQuery<T>>,
    replies: Seq<LocationReply<T>>,
    i: int,
)
    requires
        is_dialogue(perform, queries, replies),
        0 <= i < queries.len(),
        forall|j: int|
            #![trigger replies[j]]
            0 <= j < i ==> match queries[j]@.step {
                LocationStep::Connect
                | LocationStep::OpenManager
                | LocationStep::OpenProperties
                | LocationStep::OpenClient
                | LocationStep::OpenLocation => replies[j] is Done,
                LocationStep::GetClient => replies[j] is Path && replies[j]->Path_0@ != "/"@,
                LocationStep::PollLocation { attempt: _ } => replies[j] is Path,
                LocationStep::GetLatitude => replies[j] is Coordinate,
                LocationStep::GetLongitude { latitude: _ } => replies[j] is Coordinate,
                _ => true,
            },
        forall|j: int|
            #![trigger replies[j]]
            0 <= j < i && queries[j]@.step is PollLocation ==> replies[j]->Path_0@ == "/"@,
    ensures
        i <= 29,
        i == 0 ==> queries[i]@.step is Connect,
        i == 1 ==> queries[i]@.step is OpenManager,
        i == 2 ==> queries[i]@.step is GetClient,
        i == 3 ==> queries[i]@.step is OpenProperties,
        i == 4 ==> queries[i]@.step is SetDesktopId,
        i == 5 ==> queries[i]@.step is SetAccuracyLevel,
        i == 6 ==> queries[i]@.step is OpenClient,
        i == 7 ==> queries[i]@.step is Start,
        8 <= i < 28 && i % 2 == 0 ==> queries[i]@.step == (LocationStep::<T>::PollLocation {
            attempt: ((i - 8) / 2) as u32,
        }),
        8 <= i < 28 && i % 2 == 1 ==> queries[i]@.step == (LocationStep::<T>::Sleep {
            attempt: ((i - 9) / 2) as u32,
        }),
        i == 28 ==> queries[i]@.step == (LocationStep::<T>::Stop { result: None }),
        i == 29 ==> queries[i]@.step == (LocationStep::<T>::Finished { result: None }),
    decreases i,
{
    if i > 0 {
        law_query_without_fix(perform, queries, replies, i - 1);
        let _ = replies[i - 1];
        assert(queries[i]@ == queries[i - 1]@.after(replies[i - 1]));
    }
}

/// A query that ends although each step got the kind of reply that it asks for
/// and no location object was ever named has asked for one ten times, has
/// stopped the client, and gives no location.
pub proof fn law_gives_up_after_ten<T, P: Fn(&LocationQuery<T>) -> LocationReply<T>>(
    perform: P,
    queries: Seq<LocationQuery<T>>,
    replies: Seq<LocationReply<T>>,
)
    requires
        is_dialogue(perform, queries, replies),
        queries.last()@.step is Finished,
        forall|j: int|
            #![trigger replies[j]]
            0 <= j < replies.len() ==> match queries[j]@.step {
                LocationStep::Connect
                | LocationStep::OpenManager
                | LocationStep::OpenProperties
                | LocationStep::OpenClient
                | LocationStep::OpenLocation => replies[j] is Done,
                LocationStep::GetClient => replies[j] is Path && replies[j]->Path_0@ != "/"@,
                LocationStep::PollLocation { attempt: _ } => replies[j] is Path,
                LocationStep::GetLatitude => replies[j] is Coordinate,
                LocationStep::GetLongitude { latitude: _ } => replies[j] is Coordinate,
                _ => true,
            },
        forall|j: int|
            #![trigger replies[j]]
            0 <= j < replies.len() && queries[j]@.step is PollLocation ==> replies[j]->Path_0@
                == "/"@,
    ensures
        replies.len() == 29,
        queries.last()@.step == (LocationStep::<T>::Finished { result: None }),
        queries[28]@.step is Stop,
        forall|k: int|
            8 <= k < 28 && k % 2 == 0 ==> (#[trigger] queries[k])@.step is PollLocation,
        forall|k: int| 8 <= k < 28 && k % 2 == 1 ==> (#[trigger] queries[k])@.step is Sleep,
{
    let n = replies.len() as int;
    law_query_without_fix(perform, queries, replies, n);
    assert forall|k: int| 8 <= k < 28 && k % 2 == 0 implies (
    #[trigger] queries[k])@.step is PollLocation by {
        law_query_without_fix(perform, queries, replies, k);
    }
    assert forall|k: int| 8 <= k < 28 && k % 2 == 1 implies (#[trigger] queries[k])@.step is Sleep by {
        law_query_without_fix(perform, queries, replies, k);
    }
    law_query_without_fix(perform, queries, replies, 28);
}

/// A query that ends although each step got the kind of reply that it asks for,
/// and in which an attempt named a location object, opens that object, reads the
/// latitude and the longitude from it, stops the client, and gives what it read.
pub proof fn law_fix_is_given<T, P: Fn(&LocationQuery<T>) -> LocationReply<T>>(
    perform: P,
    queries: Seq<LocationQuery<T>>,
    replies: Seq<LocationReply<T>>,
    i: int,
)
    requires
        is_dialogue(perform, queries, replies),
        queries.last()@.step is Finished,
        forall|j: int|
            #![trigger replies[j]]
            0 <= j < replies.len() ==> match queries[j]@.step {
                LocationStep::Connect
                | LocationStep::OpenManager
                | LocationStep::OpenProperties
                | LocationStep::OpenClient
                | LocationStep::OpenLocation => replies[j] is Done,
                LocationStep::GetClient => replies[j] is Path && replies[j]->Path_0@ != "/"@,
                LocationStep::PollLocation { attempt: _ } => replies[j] is Path,
                LocationStep::GetLatitude => replies[j] is Coordinate,
                LocationStep::GetLongitude { latitude: _ } => replies[j] is Coordinate,
                _ => true,
            },
        0 <= i < replies.len(),
        queries[i]@.step is PollLocation,
        replies[i]->Path_0@ != "/"@,
    ensures
        replies.len() == i + 5,
        queries[i + 1]@.step is OpenLocation,
        queries[i + 1]@.location == replies[i]->Path_0@,
        queries[i + 2]@.step is GetLatitude,
        queries[i + 3]@.step is GetLongitude,
        queries[i + 4]@.step is Stop,
        replies[i + 2] is Coordinate,
        replies[i + 3] is Coordinate,
        queries.last()@.step == (LocationStep::Finished {
            result: Some((replies[i + 2]->Coordinate_0, replies[i + 3]->Coordinate_0)),
        }),
{
    let n = replies.len() as int;
    assert(queries[i + 1]@ == queries[i]@.after(replies[i]));
    assert(i + 1 < n);
    assert(queries[i + 2]@ == queries[i + 1]@.after(replies[i + 1]));
    assert(i + 2 < n);
    assert(queries[i + 3]@ == queries[i + 2]@.after(replies[i + 2]));
    assert(i + 3 < n);
    assert(queries[i + 4]@ == queries[i + 3]@.after(replies[i + 3]));
    assert(i + 4 < n);
    assert(queries[i + 5]@ == queries[i + 4]@.after(replies[i + 4]));
    if i + 5 < n {
        let _ = replies[i + 5];
    }
}

/// A query that does not get the kind of reply that a step asks for ends there,
/// without a location. The path `/` is not what it asks the manager for.
pub proof fn law_wrong_reply_ends_query<T, P: Fn(&LocationQuery<T>) -> LocationReply<T>>(
    perform: P,
    queries: Seq<LocationQuery<T>>,
    replies: Seq<LocationReply<T>>,
    i: int,
)
    requires
        is_dialogue(perform, queries, replies),
        0 <= i < replies.len(),
        match queries[i]@.step {
            LocationStep::Connect
            | LocationStep::OpenManager
            | LocationStep::OpenProperties
            | LocationStep::OpenClient
            | LocationStep::OpenLocation => !(replies[i] is Done),
            LocationStep::GetClient => !(replies[i] is Path) || replies[i]->Path_0@ == "/"@,
            LocationStep::PollLocation { attempt: _ } => !(replies[i] is Path),
            LocationStep::GetLatitude => !(replies[i] is Coordinate),
            LocationStep::GetLongitude { latitude: _ } => !(replies[i] is Coordinate),
            _ => false,
        },
    ensures
        replies.len() == i + 1,
        queries.last()@.step == (LocationStep::<T>::Finished { result: None }),
{
    assert(queries[i + 1]@ == queries[i]@.after(replies[i]));
    if i + 1 < replies.len() {
        let _ = replies[i + 1];
    }
}

/// A query starts out to connect, and knows no path.
pub proof fn law_query_starts<T>()
    ensures
        QueryState::<T>::start().step is Connect,
        QueryState::<T>::start().client.len() == 0,
        QueryState::<T>::start().location.len() == 0,
{
}

/// A query learns a path only where it asks for one and an object is named, and
/// then it is that object's: the client's from the manager, and the location's
/// from the client.
pub proof fn law_paths_learnt<T>(state: QueryState<T>, reply: LocationReply<T>)
    ensures
        state.step is GetClient && reply is Path && reply->Path_0@ != "/"@ ==> state.after(
            reply,
        ).client == reply->Path_0@,
        state.step is PollLocation && reply is Path && reply->Path_0@ != "/"@ ==> state.after(
            reply,
        ).location == reply->Path_0@,
        !(state.step is GetClient) || !(reply is Path) || reply->Path_0@ == "/"@ ==> state.after(
            reply,
        ).client == state.client,
        !(state.step is PollLocation) || !(reply is Path) || reply->Path_0@ == "/"@ ==> state.after(
            reply,
        ).location == state.location,
{
}

/// A query whose step gets the kind of reply that it asks for goes on to the next
/// one, and one that does not is over without a location. A poll that names no
/// object is followed by a pause, and a pause by the next poll, up to ten of
/// them. What comes of the other steps does not count, and a query that has ended
/// stays as it is.
pub proof fn law_query_goes_on<T>(state: QueryState<T>, reply: LocationReply<T>)
    requires
        valid_step(state.step),
    ensures
        ({
            let next = state.after(reply).step;
            let over = LocationStep::<T>::Finished { result: None };
            match state.step {
                LocationStep::Connect => if reply is Done {
                    next is OpenManager
                } else {
                    next == over
                },
                LocationStep::OpenManager => if reply is Done {
                    next is GetClient
                } else {
                    next == over
                },
                LocationStep::GetClient => if reply is Path && reply->Path_0@ != "/"@ {
                    next is OpenProperties
                } else {
                    next == over
                },
                LocationStep::OpenProperties => if reply is Done {
                    next is SetDesktopId
                } else {
                    next == over
                },
                LocationStep::SetDesktopId => next is SetAccuracyLevel,
                LocationStep::SetAccuracyLevel => next is OpenClient,
                LocationStep::OpenClient => if reply is Done {
                    next is Start
                } else {
                    next == over
                },
                LocationStep::Start => next == (LocationStep::<T>::PollLocation { attempt: 0 }),
                LocationStep::PollLocation { attempt } => {
                    &&& !(reply is Path) ==> next == over
                    &&& reply is Path && reply->Path_0@ != "/"@ ==> next is OpenLocation
                    &&& reply is Path && reply->Path_0@ == "/"@ ==> next == (
                    LocationStep::<T>::Sleep { attempt })
                },
                LocationStep::Sleep { attempt } => {
                    &&& attempt < 9 ==> (next matches LocationStep::PollLocation { attempt: a } && a
                        == attempt + 1)
                    &&& attempt == 9 ==> next == (LocationStep::<T>::Stop { result: None })
                },
                LocationStep::OpenLocation => if reply is Done {
                    next is GetLatitude
                } else {
                    next == over
                },
                LocationStep::GetLatitude => if reply is Coordinate {
                    next == (LocationStep::GetLongitude { latitude: reply->Coordinate_0 })
                } else {
                    next == over
                },
                LocationStep::GetLongitude { latitude } => if reply is Coordinate {
                    next == (LocationStep::Stop { result: Some((latitude, reply->Coordinate_0)) })
                } else {
                    next == over
                },
                LocationStep::Stop { result } => next == (LocationStep::Finished { result }),
                LocationStep::Finished { result } => next == (LocationStep::Finished { result }),
            }
        }),
{
}

} // verus!
