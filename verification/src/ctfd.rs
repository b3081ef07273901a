//! The challenge-hosting platform: the records exchanged with it, what its
//! answers mean, and the exchanges that take more than one request.
//!
//! Nothing here sends anything. An exchange says which request is to be sent
//! next; the driver sends it and reports the answer.

use crate::ctfd_model::{
    by_category_address, by_name_address, challenge_body, challenges_path, creation_step,
    find_user, first_id, flag_body, flags_path, posting_step, solves_address, submission_body,
    submissions_path, upstream_name, user_id_in, users_path, CreationOutcome, CreationStep,
    CreationView, FlagView, NewChallengeView, PostingOutcome, PostingStep, PostingView,
    ProgressView, ReplyView, RequestView, SubmissionView,
};
use crate::db::texts;
use crate::remote::{check_status, RemoteApiError, RemoteApiErrorView};
use crate::text::decimal;
use chrono::Utc;
use vstd::prelude::*;
use vstd::string::*;

verus! {

/// A point in time: whole seconds since the start of 1970 in UTC, and the
/// nanoseconds past that second.
#[derive(Clone, Copy, Debug, Eq, Hash, PartialEq)]
pub struct Timestamp {
    pub seconds: i64,
    pub nanos: u32,
}

/// `chrono::Utc::now`, read out through `DateTime::timestamp` and
/// `DateTime::timestamp_subsec_nanos`: the system's current time. Nothing is
/// known of it. The call fails only where the system's clock stands before
/// 1970.
#[verifier::external_body]
fn utc_now() -> (now: Timestamp) {
    let now = Utc::now();
    Timestamp { seconds: now.timestamp(), nanos: now.timestamp_subsec_nanos() }
}

/// Envelope that the platform wraps around every answer.
#[derive(Debug)]
pub struct APIResponse<T> {
    pub success: bool,
    pub errors: Option<Vec<String>>,
    pub data: Option<T>,
}

/// A challenge as the platform lists it.
#[derive(Debug, Eq, Hash, PartialEq)]
pub struct Challenge {
    pub id: i64,
    pub name: String,
}

/// The body of a request that creates a challenge.
#[derive(Debug, Eq, Hash, PartialEq)]
pub struct NewChallenge {
    pub name: String,
    pub category: String,
    pub description: String,
    pub value: String,
    pub state: String,
    pub typestr: String,
}

/// The body of a request that attaches a flag to a challenge.
#[derive(Debug, Eq, Hash, PartialEq)]
pub struct Flag {
    pub content: String,
    pub data: String,
    pub typestr: String,
    pub challenge: i64,
}

/// A custom field of a user's profile.
#[derive(Debug, Eq, Hash, PartialEq)]
pub struct Field {
    pub name: String,
    pub value: String,
}

/// A user of the platform. The first custom field holds the username that
/// the user has on the upstream platform.
#[derive(Debug, Eq, Hash, PartialEq)]
pub struct User {
    pub name: String,
    pub fields: Vec<Field>,
    pub id: i64,
}

/// An account that solved a challenge.
#[derive(Debug, Eq, Hash, PartialEq)]
pub struct ChallengeSolver {
    pub account_id: i64,
    pub name: String,
}

/// A team of the platform.
#[derive(Debug)]
pub struct Team {
    pub id: i64,
    pub name: String,
}

/// A line of the scoreboard.
#[derive(Debug)]
pub struct ScoreboardEntry {
    pub id: i64,
    pub name: String,
}

/// The body of a request that records a submission for a user.
#[derive(Debug, Eq, Hash, PartialEq)]
pub struct Submission {
    pub challenge_id: i64,
    pub user_id: i64,
    pub provided: String,
    pub typestr: String,
    pub date: Timestamp,
}

impl View for NewChallenge {
    type V = NewChallengeView;

    open spec fn view(&self) -> NewChallengeView {
        NewChallengeView {
            name: self.name@,
            category: self.category@,
            description: self.description@,
            value: self.value@,
            state: self.state@,
            typestr: self.typestr@,
        }
    }
}

impl View for Flag {
    type V = FlagView;

    open spec fn view(&self) -> FlagView {
        FlagView {
            content: self.content@,
            data: self.data@,
            typestr: self.typestr@,
            challenge: self.challenge,
        }
    }
}

impl View for Submission {
    type V = SubmissionView;

    open spec fn view(&self) -> SubmissionView {
        SubmissionView {
            challenge_id: self.challenge_id,
            user_id: self.user_id,
            provided: self.provided@,
            typestr: self.typestr@,
        }
    }
}

impl NewChallenge {
    /// A visible, standard challenge worth 100 points, described as a mirror
    /// of the module it is filed under.
    pub fn new(challenge_category: &str, challenge_name: &str) -> (res: Self)
        ensures
            res@ == challenge_body(challenge_category@, challenge_name@),
    {
        let description = String::from_str("This challenge will be on PWN College in the ")
            .concat(challenge_category)
            .concat(" module and will auto-complete here when you solve it there");
        NewChallenge {
            name: String::from_str(challenge_name),
            category: String::from_str(challenge_category),
            description,
            value: String::from_str("100"),
            state: String::from_str("visible"),
            typestr: String::from_str("standard"),
        }
    }
}

impl Flag {
    /// A static flag, compared without regard to case, for the challenge
    /// with the given id.
    pub fn new(challenge_id: i64, flag: &str) -> (res: Self)
        ensures
            res@ == flag_body(challenge_id, flag@),
    {
        Flag {
            content: String::from_str(flag),
            data: String::from_str("case_insensitive"),
            typestr: String::from_str("static"),
            challenge: challenge_id,
        }
    }
}

impl Submission {
    /// A submission of `flag` made at the given time.
    pub fn at(challenge_id: i64, user_id: i64, flag: &str, date: Timestamp) -> (res: Self)
        ensures
            res@ == submission_body(challenge_id, user_id, flag@),
            res.date == date,
    {
        Submission {
            challenge_id,
            user_id,
            provided: String::from_str(flag),
            typestr: String::from_str("string"),
            date,
        }
    }

    /// A submission of `flag` made now.
    pub fn new(challenge_id: i64, user_id: i64, flag: &str) -> (res: Self)
        ensures
            res@ == submission_body(challenge_id, user_id, flag@),
    {
        Submission::at(challenge_id, user_id, flag, utc_now())
    }
}

/// What the driver reports to an exchange with the platform.
#[derive(Debug)]
pub enum Reply {
    /// The exchange is to begin.
    Start,
    /// The platform's answer to a request for challenges.
    Challenges(APIResponse<Vec<Challenge>>),
    /// The platform's answer to a request for users.
    Users(APIResponse<Vec<User>>),
    /// The status of the platform's answer to a post.
    Status(u16),
    /// The request could not be sent, or its answer could not be read; the
    /// text is the driver's report.
    Failed(String),
}

/// What the driver is asked to send.
#[allow(inconsistent_fields)]
#[derive(Debug, PartialEq, Eq)]
pub enum Request {
    /// Get the challenges at the address.
    GetChallenges { url: String },
    /// Get the users at the address.
    GetUsers { url: String },
    /// Post the body to the address, to create a challenge.
    PostChallenge { url: String, body: NewChallenge },
    /// Post the body to the address, to attach a flag.
    PostFlag { url: String, body: Flag },
    /// Post the body to the address, to record a submission.
    PostSubmission { url: String, body: Submission },
}

/// What an exchange asks for next, or what came of it.
#[derive(Debug, PartialEq, Eq)]
pub enum Progress<T> {
    /// Send the request and report the answer.
    Send(Request),
    /// Nothing: the exchange is over, with this result.
    Finished(Result<T, RemoteApiError>),
}

/// The data of an answer, where it has any.
pub open spec fn listed<T>(response: APIResponse<Vec<T>>) -> Option<Seq<T>> {
    match response.data {
        Some(list) => Some(list@),
        None => None,
    }
}

/// A result with the report of its failure taken as characters.
pub open spec fn outcome<T>(result: Result<T, RemoteApiError>) -> Result<T, RemoteApiErrorView> {
    match result {
        Ok(value) => Ok(value),
        Err(e) => Err(e@),
    }
}

impl View for Reply {
    type V = ReplyView;

    open spec fn view(&self) -> ReplyView {
        match *self {
            Reply::Start => ReplyView::Start,
            Reply::Challenges(response) => ReplyView::Challenges(listed(response)),
            Reply::Users(response) => ReplyView::Users(listed(response)),
            Reply::Status(status) => ReplyView::Status(status),
            Reply::Failed(report) => ReplyView::Failed(report@),
        }
    }
}

impl View for Request {
    type V = RequestView;

    open spec fn view(&self) -> RequestView {
        match *self {
            Request::GetChallenges { url } => RequestView::GetChallenges { url: url@ },
            Request::GetUsers { url } => RequestView::GetUsers { url: url@ },
            Request::PostChallenge { url, body } => RequestView::PostChallenge {
                url: url@,
                body: body@,
            },
            Request::PostFlag { url, body } => RequestView::PostFlag { url: url@, body: body@ },
            Request::PostSubmission { url, body } => RequestView::PostSubmission {
                url: url@,
                body: body@,
            },
        }
    }
}

impl<T> View for Progress<T> {
    type V = ProgressView<T>;

    open spec fn view(&self) -> ProgressView<T> {
        match *self {
            Progress::Send(request) => ProgressView::Send(request@),
            Progress::Finished(result) => ProgressView::Finished(outcome(result)),
        }
    }
}

/// The creation of one challenge: what is wanted and how far it has come.
pub struct ChallengeCreation {
    step: CreationStep,
    name: String,
    category: String,
    flag: String,
    id: i64,
}

impl View for ChallengeCreation {
    type V = CreationView;

    closed spec fn view(&self) -> CreationView {
        CreationView {
            step: self.step,
            name: self.name@,
            category: self.category@,
            flag: self.flag@,
            id: self.id,
        }
    }
}

impl ChallengeCreation {
    /// The creation, not yet started, of a challenge of the given name in
    /// the given category, to be solved with the given flag.
    pub fn new(name: &str, category: &str, flag: &str) -> (run: Self)
        ensures
            run@ == CreationView::idle(name@, category@, flag@),
    {
        ChallengeCreation {
            step: CreationStep::Idle,
            name: String::from_str(name),
            category: String::from_str(category),
            flag: String::from_str(flag),
            id: 0,
        }
    }

    /// Whether the creation is over.
    pub fn is_done(&self) -> (done: bool)
        ensures
            done == (self@.step == CreationStep::Done),
    {
        self.step == CreationStep::Done
    }

    /// Ends the creation.
    fn finish(&mut self, result: Result<i64, RemoteApiError>) -> (progress: Progress<i64>)
        ensures
            (CreationOutcome { run: final(self)@, progress: progress@ }) == old(self)@.finish(
                outcome(result),
            ),
    {
        self.step = CreationStep::Done;
        Progress::Finished(result)
    }
}

/// The posting of one submission: what is to be posted and how far it has
/// come.
pub struct SubmissionPosting {
    step: PostingStep,
    challenge_id: i64,
    username: String,
    flag: String,
}

impl View for SubmissionPosting {
    type V = PostingView;

    closed spec fn view(&self) -> PostingView {
        PostingView {
            step: self.step,
            challenge_id: self.challenge_id,
            username: self.username@,
            flag: self.flag@,
        }
    }
}

impl SubmissionPosting {
    /// The posting, not yet started, of `flag` for the challenge of the
    /// given id, on behalf of the user with the given upstream username.
    pub fn new(challenge_id: i64, username: &str, flag: &str) -> (run: Self)
        ensures
            run@ == PostingView::idle(challenge_id, username@, flag@),
    {
        SubmissionPosting {
            step: PostingStep::Idle,
            challenge_id,
            username: String::from_str(username),
            flag: String::from_str(flag),
        }
    }

    /// Whether the posting is over.
    pub fn is_done(&self) -> (done: bool)
        ensures
            done == (self@.step == PostingStep::Done),
    {
        self.step == PostingStep::Done
    }

    /// Ends the posting.
    fn finish(&mut self, result: Result<(), RemoteApiError>) -> (progress: Progress<()>)
        ensures
            (PostingOutcome { run: final(self)@, progress: progress@ }) == old(self)@.finish(
                outcome(result),
            ),
    {
        self.step = PostingStep::Done;
        Progress::Finished(result)
    }
}

/// The challenge platform at one address, as far as requests have to be
/// phrased and answers understood. It sends nothing itself.
pub struct CTFdClient {
    url: String,
    api_key: String,
}

impl CTFdClient {
    /// The base address of the platform.
    pub closed spec fn base(&self) -> Seq<char> {
        self.url@
    }

    /// The key that the platform knows the client by.
    pub closed spec fn key(&self) -> Seq<char> {
        self.api_key@
    }

    /// A client for the platform at `url`, known to it by `api_key`.
    pub fn new(url: String, api_key: String) -> (client: Self)
        ensures
            client.base() == url@,
            client.key() == api_key@,
    {
        CTFdClient { url, api_key }
    }

    /// The kind of content that every request carries and asks for.
    pub fn content_type(&self) -> (value: String)
        ensures
            value@ == "application/json"@,
    {
        String::from_str("application/json")
    }

    /// The value of the header that authorises every request.
    pub fn authorization(&self) -> (value: String)
        ensures
            value@ == "Token "@ + self.key(),
    {
        String::from_str("Token ").concat(self.api_key.as_str())
    }

    /// The address of the platform's challenges.
    pub fn challenges_url(&self) -> (url: String)
        ensures
            url@ == self.base() + challenges_path(),
    {
        self.url.clone().concat("/api/v1/challenges")
    }

    /// The address that lists the challenges of the given category.
    pub fn challenges_of_category_url(&self, category: &str) -> (url: String)
        ensures
            url@ == by_category_address(self.base(), category@),
    {
        self.challenges_url().concat("?category=").concat(category)
    }

    /// The address that lists the challenges of the given name.
    pub fn challenge_by_name_url(&self, name: &str) -> (url: String)
        ensures
            url@ == by_name_address(self.base(), name@),
    {
        self.challenges_url().concat("?name=").concat(name)
    }

    /// The address of the platform's flags.
    pub fn flags_url(&self) -> (url: String)
        ensures
            url@ == self.base() + flags_path(),
    {
        self.url.clone().concat("/api/v1/flags")
    }

    /// The address that lists all users of the platform.
    pub fn users_url(&self) -> (url: String)
        ensures
            url@ == self.base() + users_path(),
    {
        self.url.clone().concat("/api/v1/users?view=admin")
    }

    /// The address that takes submissions.
    pub fn submissions_url(&self) -> (url: String)
        ensures
            url@ == self.base() + submissions_path(),
    {
        self.url.clone().concat("/api/v1/submissions")
    }

    /// The challenges in the platform's answer.
    pub fn get_challenges(&self, response: APIResponse<Vec<Challenge>>) -> (res: Result<
        Vec<Challenge>,
        RemoteApiError,
    >)
        ensures
            res == match response.data {
                Some(list) => Ok::<Vec<Challenge>, RemoteApiError>(list),
                None => Err::<Vec<Challenge>, RemoteApiError>(RemoteApiError::Missing),
            },
    {
        match response.data {
            Some(list) => Ok(list),
            None => Err(RemoteApiError::Missing),
        }
    }

    /// The challenges in the platform's answer to a request by category.
    pub fn get_challenges_of_category(&self, response: APIResponse<Vec<Challenge>>) -> (res:
        Result<Vec<Challenge>, RemoteApiError>)
        ensures
            res == match response.data {
                Some(list) => Ok::<Vec<Challenge>, RemoteApiError>(list),
                None => Err::<Vec<Challenge>, RemoteApiError>(RemoteApiError::Missing),
            },
    {
        self.get_challenges(response)
    }

    /// The id of the first challenge in the platform's answer to a request
    /// by name.
    pub fn get_challenge_id_by_name(&self, response: &APIResponse<Vec<Challenge>>) -> (res: Result<
        i64,
        RemoteApiError,
    >)
        ensures
            outcome(res) == first_id(listed(*response)),
    {
        match &response.data {
            Some(list) => {
                if list.len() == 0 {
                    Err(RemoteApiError::NotFound)
                } else {
                    Ok(list[0].id)
                }
            },
            None => Err(RemoteApiError::Missing),
        }
    }

    /// The upstream usernames of the users in the platform's answer, in the
    /// platform's order. A user without custom fields has none and is left
    /// out.
    pub fn get_users(&self, response: &APIResponse<Vec<User>>) -> (res: Result<
        Vec<String>,
        RemoteApiError,
    >)
        ensures
            match response.data {
                Some(users) => res is Ok && texts(res->Ok_0@) == users@.filter_map(
                    |u: User| upstream_name(u),
                ),
                None => res == Err::<Vec<String>, RemoteApiError>(RemoteApiError::Missing),
            },
    {
        match &response.data {
            Some(users) => {
                let ghost pick = |u: User| upstream_name(u);
                let mut names: Vec<String> = Vec::new();
                let mut i: usize = 0;
                while i < users.len()
                    invariant
                        i <= users.len(),
                        pick == |u: User| upstream_name(u),
                        texts(names@) == users@.take(i as int).filter_map(pick),
                    decreases users.len() - i,
                {
                    proof {
                        users@.lemma_filter_map_take_succ(pick, i as int);
                    }
                    if users[i].fields.len() > 0 {
                        names.push(users[i].fields[0].value.clone());
                    }
                    i += 1;
                }
                proof {
                    assert(users@.take(users.len() as int) =~= users@);
                }
                Ok(names)
            },
            None => Err(RemoteApiError::Missing),
        }
    }

    /// The platform's id of the first user in the answer whose upstream
    /// username is `username`.
    pub fn get_user_id_for_user(&self, response: &APIResponse<Vec<User>>, username: &str) -> (res:
        Result<i64, RemoteApiError>)
        ensures
            outcome(res) == user_id_in(listed(*response), username@),
    {
        match &response.data {
            Some(users) => {
                let wanted = String::from_str(username);
                let mut i: usize = 0;
                proof {
                    assert(users@.skip(0) =~= users@);
                }
                while i < users.len()
                    invariant
                        i <= users.len(),
                        wanted@ == username@,
                        listed(*response) == Some(users@),
                        find_user(users@, username@) == find_user(users@.skip(i as int), username@),
                    decreases users.len() - i,
                {
                    proof {
                        assert(users@.skip(i as int).drop_first() =~= users@.skip(i + 1));
                    }
                    if users[i].fields.len() > 0 && users[i].fields[0].value == wanted {
                        return Ok(users[i].id);
                    }
                    i += 1;
                }
                Err(RemoteApiError::NotFound)
            },
            None => Err(RemoteApiError::Missing),
        }
    }

    /// Takes the creation of a challenge one step further: says what the
    /// reply means for it and which request, if any, is to be sent next.
    pub fn new_challenge(&self, run: &mut ChallengeCreation, reply: Reply) -> (progress: Progress<
        i64,
    >)
        ensures
            (CreationOutcome { run: final(run)@, progress: progress@ }) == creation_step(
                self.base(),
                old(run)@,
                reply@,
            ),
    {
        match reply {
            Reply::Start => {
                if run.step == CreationStep::Idle {
                    run.step = CreationStep::Existing;
                    Progress::Send(
                        Request::GetChallenges { url: self.challenge_by_name_url(run.name.as_str()) },
                    )
                } else {
                    run.finish(Err(RemoteApiError::Unexpected))
                }
            },
            Reply::Challenges(response) => {
                if run.step == CreationStep::Existing {
                    match self.get_challenge_id_by_name(&response) {
                        Ok(id) => {
                            run.id = id;
                            run.finish(Ok(id))
                        },
                        Err(RemoteApiError::NotFound) => {
                            run.step = CreationStep::Posted;
                            Progress::Send(
                                Request::PostChallenge {
                                    url: self.challenges_url(),
                                    body: NewChallenge::new(
                                        run.category.as_str(),
                                        run.name.as_str(),
                                    ),
                                },
                            )
                        },
                        Err(e) => run.finish(Err(e)),
                    }
                } else if run.step == CreationStep::Created {
                    match self.get_challenge_id_by_name(&response) {
                        Ok(id) => {
                            run.id = id;
                            run.step = CreationStep::Flagged;
                            Progress::Send(
                                Request::PostFlag {
                                    url: self.flags_url(),
                                    body: Flag::new(id, run.flag.as_str()),
                                },
                            )
                        },
                        Err(e) => run.finish(Err(e)),
                    }
                } else {
                    run.finish(Err(RemoteApiError::Unexpected))
                }
            },
            Reply::Status(status) => {
                if run.step == CreationStep::Posted {
                    match check_status(status) {
                        Ok(_) => {
                            run.step = CreationStep::Created;
                            Progress::Send(
                                Request::GetChallenges {
                                    url: self.challenge_by_name_url(run.name.as_str()),
                                },
                            )
                        },
                        Err(e) => run.finish(Err(e)),
                    }
                } else if run.step == CreationStep::Flagged {
                    match check_status(status) {
                        Ok(_) => {
                            let id = run.id;
                            run.finish(Ok(id))
                        },
                        Err(e) => run.finish(Err(e)),
                    }
                } else {
                    run.finish(Err(RemoteApiError::Unexpected))
                }
            },
            Reply::Failed(report) => {
                if run.step == CreationStep::Existing || run.step == CreationStep::Posted
                    || run.step == CreationStep::Created || run.step == CreationStep::Flagged {
                    run.finish(Err(RemoteApiError::Transport(report)))
                } else {
                    run.finish(Err(RemoteApiError::Unexpected))
                }
            },
            Reply::Users(_) => run.finish(Err(RemoteApiError::Unexpected)),
        }
    }

    /// Takes the posting of a submission one step further: says what the
    /// reply means for it and which request, if any, is to be sent next.
    pub fn post_submission(&self, run: &mut SubmissionPosting, reply: Reply) -> (progress:
        Progress<()>)
        ensures
            (PostingOutcome { run: final(run)@, progress: progress@ }) == posting_step(
                self.base(),
                old(run)@,
                reply@,
            ),
    {
        match reply {
            Reply::Start => {
                if run.step == PostingStep::Idle {
                    run.step = PostingStep::Users;
                    Progress::Send(Request::GetUsers { url: self.users_url() })
                } else {
                    run.finish(Err(RemoteApiError::Unexpected))
                }
            },
            Reply::Users(response) => {
                if run.step == PostingStep::Users {
                    match self.get_user_id_for_user(&response, run.username.as_str()) {
                        Ok(user_id) => {
                            run.step = PostingStep::Posted;
                            Progress::Send(
                                Request::PostSubmission {
                                    url: self.submissions_url(),
                                    body: Submission::new(
                                        run.challenge_id,
                                        user_id,
                                        run.flag.as_str(),
                                    ),
                                },
                            )
                        },
                        Err(e) => run.finish(Err(e)),
                    }
                } else {
                    run.finish(Err(RemoteApiError::Unexpected))
                }
            },
            Reply::Status(status) => {
                if run.step == PostingStep::Posted {
                    run.finish(check_status(status))
                } else {
                    run.finish(Err(RemoteApiError::Unexpected))
                }
            },
            Reply::Failed(report) => {
                if run.step == PostingStep::Users || run.step == PostingStep::Posted {
                    run.finish(Err(RemoteApiError::Transport(report)))
                } else {
                    run.finish(Err(RemoteApiError::Unexpected))
                }
            },
            Reply::Challenges(_) => run.finish(Err(RemoteApiError::Unexpected)),
        }
    }
}

impl Challenge {
    /// The address that lists who solved this challenge.
    pub fn solves_url(&self, client: &CTFdClient) -> (url: String)
        ensures
            url@ == solves_address(client.base(), self.id),
    {
        client.challenges_url().concat("/").concat(decimal(self.id).as_str()).concat("/solves")
    }

    /// The accounts that solved this challenge, as the platform's answer
    /// lists them.
    pub fn get_solves(&self, response: APIResponse<Vec<ChallengeSolver>>) -> (res: Result<
        Vec<ChallengeSolver>,
        RemoteApiError,
    >)
        ensures
            res == match response.data {
                Some(list) => Ok::<Vec<ChallengeSolver>, RemoteApiError>(list),
                None => Err::<Vec<ChallengeSolver>, RemoteApiError>(RemoteApiError::Missing),
            },
    {
        match response.data {
            Some(list) => Ok(list),
            None => Err(RemoteApiError::Missing),
        }
    }
}

} // verus!
