//! The challenge platform, as mathematics: what its answers mean, and how
//! the creation of a challenge and the posting of a submission proceed from
//! one answer to the next.

use crate::ctfd::{Challenge, User};
use crate::remote::{RemoteApiErrorView, STATUS_OK};
use vstd::prelude::*;

verus! {

/// The body of a request that creates a challenge, as characters.
pub struct NewChallengeView {
    pub name: Seq<char>,
    pub category: Seq<char>,
    pub description: Seq<char>,
    pub value: Seq<char>,
    pub state: Seq<char>,
    pub typestr: Seq<char>,
}

/// The body of a request that attaches a flag, as characters.
pub struct FlagView {
    pub content: Seq<char>,
    pub data: Seq<char>,
    pub typestr: Seq<char>,
    pub challenge: i64,
}

/// The body of a request that records a submission, as characters, without
/// the time at which it was made.
pub struct SubmissionView {
    pub challenge_id: i64,
    pub user_id: i64,
    pub provided: Seq<char>,
    pub typestr: Seq<char>,
}

/// Text that opens the description of every mirrored challenge.
pub open spec fn description_head() -> Seq<char> {
    "This challenge will be on PWN College in the "@
}

/// Text that closes the description of every mirrored challenge.
pub open spec fn description_tail() -> Seq<char> {
    " module and will auto-complete here when you solve it there"@
}

/// A visible, standard challenge worth 100 points, described as a mirror of
/// the module it is filed under.
pub open spec fn challenge_body(category: Seq<char>, name: Seq<char>) -> NewChallengeView {
    NewChallengeView {
        name,
        category,
        description: description_head() + category + description_tail(),
        value: "100"@,
        state: "visible"@,
        typestr: "standard"@,
    }
}

/// A static flag, compared without regard to case.
pub open spec fn flag_body(challenge: i64, flag: Seq<char>) -> FlagView {
    FlagView { content: flag, data: "case_insensitive"@, typestr: "static"@, challenge }
}

/// A submission of a flag as text.
pub open spec fn submission_body(challenge_id: i64, user_id: i64, flag: Seq<char>)
    -> SubmissionView {
    SubmissionView { challenge_id, user_id, provided: flag, typestr: "string"@ }
}

/// Where the platform keeps its challenges.
pub open spec fn challenges_path() -> Seq<char> {
    "/api/v1/challenges"@
}

/// Where the platform keeps its flags.
pub open spec fn flags_path() -> Seq<char> {
    "/api/v1/flags"@
}

/// Where the platform lists all its users.
pub open spec fn users_path() -> Seq<char> {
    "/api/v1/users?view=admin"@
}

/// Where the platform takes submissions.
pub open spec fn submissions_path() -> Seq<char> {
    "/api/v1/submissions"@
}

/// The address that lists the challenges of the given name.
pub open spec fn by_name_address(base: Seq<char>, name: Seq<char>) -> Seq<char> {
    base + challenges_path() + "?name="@ + name
}

/// The address that lists the challenges of the given category.
pub open spec fn by_category_address(base: Seq<char>, category: Seq<char>) -> Seq<char> {
    base + challenges_path() + "?category="@ + category
}

/// The address that lists who solved the challenge of the given id.
pub open spec fn solves_address(base: Seq<char>, id: i64) -> Seq<char> {
    base + challenges_path() + "/"@ + crate::text::decimal_text(id as int) + "/solves"@
}

/// The username that a user has on the upstream platform: the value of the
/// first custom field of the profile, where there is one.
pub open spec fn upstream_name(user: User) -> Option<Seq<char>> {
    if user.fields.len() > 0 {
        Some(user.fields[0].value@)
    } else {
        None
    }
}

/// The id of the first listed challenge.
pub open spec fn first_id(data: Option<Seq<Challenge>>) -> Result<i64, RemoteApiErrorView> {
    match data {
        None => Err(RemoteApiErrorView::Missing),
        Some(list) => if list.len() == 0 {
            Err(RemoteApiErrorView::NotFound)
        } else {
            Ok(list[0].id)
        },
    }
}

/// The platform's id of the first listed user whose upstream username is
/// `username`.
pub open spec fn find_user(users: Seq<User>, username: Seq<char>) -> Option<i64>
    decreases users.len(),
{
    if users.len() == 0 {
        None
    } else if upstream_name(users[0]) == Some(username) {
        Some(users[0].id)
    } else {
        find_user(users.drop_first(), username)
    }
}

/// The platform's id of the user with the given upstream username.
pub open spec fn user_id_in(data: Option<Seq<User>>, username: Seq<char>) -> Result<
    i64,
    RemoteApiErrorView,
> {
    match data {
        None => Err(RemoteApiErrorView::Missing),
        Some(users) => match find_user(users, username) {
            Some(id) => Ok(id),
            None => Err(RemoteApiErrorView::NotFound),
        },
    }
}

/// What the driver reports to an exchange with the platform.
pub enum ReplyView {
    /// The exchange is to begin.
    Start,
    /// The platform's answer to a request for challenges: its data, if any.
    Challenges(Option<Seq<Challenge>>),
    /// The platform's answer to a request for users: its data, if any.
    Users(Option<Seq<User>>),
    /// The status of the platform's answer to a post.
    Status(u16),
    /// The request could not be sent, or its answer could not be read.
    Failed(Seq<char>),
}

/// What the driver is asked to send.
#[allow(inconsistent_fields)]
pub enum RequestView {
    /// Get the challenges at the address.
    GetChallenges { url: Seq<char> },
    /// Get the users at the address.
    GetUsers { url: Seq<char> },
    /// Post the body to the address, to create a challenge.
    PostChallenge { url: Seq<char>, body: NewChallengeView },
    /// Post the body to the address, to attach a flag.
    PostFlag { url: Seq<char>, body: FlagView },
    /// Post the body to the address, to record a submission.
    PostSubmission { url: Seq<char>, body: SubmissionView },
}

/// What an exchange asks for next, or what came of it.
pub enum ProgressView<T> {
    /// Send the request and report the answer.
    Send(RequestView),
    /// Nothing: the exchange is over, with this result.
    Finished(Result<T, RemoteApiErrorView>),
}

/// What the creation of a challenge waits for.
#[derive(Clone, Copy, Debug, PartialEq, Eq, Structural)]
pub enum CreationStep {
    /// Nothing yet.
    Idle,
    /// The challenges of the wanted name, to see whether one exists.
    Existing,
    /// The status of the post that creates the challenge.
    Posted,
    /// The challenges of the wanted name, to learn the new one's id.
    Created,
    /// The status of the post that attaches the flag.
    Flagged,
    /// Nothing any more.
    Done,
}

/// Where the creation of a challenge stands.
pub struct CreationView {
    pub step: CreationStep,
    pub name: Seq<char>,
    pub category: Seq<char>,
    pub flag: Seq<char>,
    /// The id of the challenge, once it is known.
    pub id: i64,
}

/// The creation and the request after a reply.
pub struct CreationOutcome {
    pub run: CreationView,
    pub progress: ProgressView<i64>,
}

impl CreationView {
    /// A creation that has not started.
    pub open spec fn idle(name: Seq<char>, category: Seq<char>, flag: Seq<char>) -> CreationView {
        CreationView { step: CreationStep::Idle, name, category, flag, id: 0 }
    }

    /// The creation, over with the given result.
    pub open spec fn finish(self, result: Result<i64, RemoteApiErrorView>) -> CreationOutcome {
        CreationOutcome {
            run: CreationView { step: CreationStep::Done, ..self },
            progress: ProgressView::Finished(result),
        }
    }

    /// The creation, waiting at `step` for the answer to `request`.
    pub open spec fn ask(self, step: CreationStep, request: RequestView) -> CreationOutcome {
        CreationOutcome { run: CreationView { step, ..self }, progress: ProgressView::Send(request) }
    }
}

/// The creation of a challenge after `reply`, against the platform at
/// `base`. A challenge of the wanted name that exists is taken as it is;
/// otherwise the challenge is posted, looked up for its id, and given its
/// flag. Any failure ends the creation.
pub open spec fn creation_step(base: Seq<char>, run: CreationView, reply: ReplyView)
    -> CreationOutcome {
    match (run.step, reply) {
        (CreationStep::Idle, ReplyView::Start) => run.ask(
            CreationStep::Existing,
            RequestView::GetChallenges { url: by_name_address(base, run.name) },
        ),
        (CreationStep::Existing, ReplyView::Challenges(data)) => match first_id(data) {
            Ok(id) => CreationView { id, ..run }.finish(Ok(id)),
            Err(RemoteApiErrorView::NotFound) => run.ask(
                CreationStep::Posted,
                RequestView::PostChallenge {
                    url: base + challenges_path(),
                    body: challenge_body(run.category, run.name),
                },
            ),
            Err(e) => run.finish(Err(e)),
        },
        (CreationStep::Posted, ReplyView::Status(status)) => if status == STATUS_OK {
            run.ask(
                CreationStep::Created,
                RequestView::GetChallenges { url: by_name_address(base, run.name) },
            )
        } else {
            run.finish(Err(RemoteApiErrorView::Status(status)))
        },
        (CreationStep::Created, ReplyView::Challenges(data)) => match first_id(data) {
            Ok(id) => CreationView { id, ..run }.ask(
                CreationStep::Flagged,
                RequestView::PostFlag { url: base + flags_path(), body: flag_body(id, run.flag) },
            ),
            Err(e) => run.finish(Err(e)),
        },
        (CreationStep::Flagged, ReplyView::Status(status)) => if status == STATUS_OK {
            run.finish(Ok(run.id))
        } else {
            run.finish(Err(RemoteApiErrorView::Status(status)))
        },
        (CreationStep::Existing, ReplyView::Failed(report)) => run.finish(
            Err(RemoteApiErrorView::Transport(report)),
        ),
        (CreationStep::Posted, ReplyView::Failed(report)) => run.finish(
            Err(RemoteApiErrorView::Transport(report)),
        ),
        (CreationStep::Created, ReplyView::Failed(report)) => run.finish(
            Err(RemoteApiErrorView::Transport(report)),
        ),
        (CreationStep::Flagged, ReplyView::Failed(report)) => run.finish(
            Err(RemoteApiErrorView::Transport(report)),
        ),
        _ => run.finish(Err(RemoteApiErrorView::Unexpected)),
    }
}

/// The creation of a challenge as a whole, where the platform answers every
/// request: `existing` is what it lists under the wanted name at first,
/// `posted` the status of the post that creates the challenge, `created` what
/// it lists under the name after that, `flagged` the status of the post that
/// attaches the flag. A challenge that exists is taken as it is. Otherwise
/// the id is that of the challenge just created, and is given only where
/// both posts succeeded.
pub open spec fn creation(
    existing: Option<Seq<Challenge>>,
    posted: u16,
    created: Option<Seq<Challenge>>,
    flagged: u16,
) -> Result<i64, RemoteApiErrorView> {
    match first_id(existing) {
        Ok(id) => Ok(id),
        Err(RemoteApiErrorView::NotFound) => if posted != STATUS_OK {
            Err(RemoteApiErrorView::Status(posted))
        } else {
            match first_id(created) {
                Ok(id) => if flagged != STATUS_OK {
                    Err(RemoteApiErrorView::Status(flagged))
                } else {
                    Ok(id)
                },
                Err(e) => Err(e),
            }
        },
        Err(e) => Err(e),
    }
}

/// The result of an exchange that is over, or `otherwise` while it is not.
pub open spec fn result_or<T>(progress: ProgressView<T>, otherwise: Result<T, RemoteApiErrorView>)
    -> Result<T, RemoteApiErrorView> {
    match progress {
        ProgressView::Finished(result) => result,
        ProgressView::Send(_) => otherwise,
    }
}

/// The exchange is the creation. Let the driver begin a creation and report
/// the platform's answers one after the other, for as long as the creation
/// asks for anything. Then the creation ends, at the latest with the fourth
/// answer, and its result is that of the creation as a whole.
pub proof fn lemma_exchange_is_the_creation(
    base: Seq<char>,
    name: Seq<char>,
    category: Seq<char>,
    flag: Seq<char>,
    existing: Option<Seq<Challenge>>,
    posted: u16,
    created: Option<Seq<Challenge>>,
    flagged: u16,
)
    ensures
        ({
            let a = creation_step(base, CreationView::idle(name, category, flag), ReplyView::Start);
            let b = creation_step(base, a.run, ReplyView::Challenges(existing));
            let c = creation_step(base, b.run, ReplyView::Status(posted));
            let d = creation_step(base, c.run, ReplyView::Challenges(created));
            let e = creation_step(base, d.run, ReplyView::Status(flagged));
            let whole = creation(existing, posted, created, flagged);
            &&& a.progress is Send
            &&& e.progress is Finished
            &&& result_or(b.progress, result_or(c.progress, result_or(d.progress, result_or(e.progress, whole))))
                == whole
        }),
{
}

/// Creating a challenge that exists creates nothing. Where the platform
/// lists a challenge of the wanted name, the creation asks once, for that
/// list, and ends with the id of the first challenge listed; nothing is
/// posted.
pub proof fn lemma_existing_challenge_is_kept(
    base: Seq<char>,
    name: Seq<char>,
    category: Seq<char>,
    flag: Seq<char>,
    existing: Seq<Challenge>,
)
    requires
        existing.len() > 0,
    ensures
        ({
            let begun = creation_step(
                base,
                CreationView::idle(name, category, flag),
                ReplyView::Start,
            );
            let ended = creation_step(base, begun.run, ReplyView::Challenges(Some(existing)));
            &&& begun.progress == ProgressView::<i64>::Send(
                RequestView::GetChallenges { url: by_name_address(base, name) },
            )
            &&& ended.progress == ProgressView::<i64>::Finished(Ok(existing[0].id))
            &&& ended.run.step == CreationStep::Done
        }),
{
}

/// A challenge gets its flag only once it exists: the request that attaches
/// the flag names the id that the platform listed for the challenge just
/// before.
pub proof fn lemma_flag_follows_creation(base: Seq<char>, run: CreationView, reply: ReplyView)
    ensures
        creation_step(base, run, reply).progress matches ProgressView::Send(
            RequestView::PostFlag { url, body },
        ) ==> {
            &&& run.step == CreationStep::Created
            &&& reply matches ReplyView::Challenges(Some(list))
            &&& list.len() > 0
            &&& body == flag_body(list[0].id, run.flag)
            &&& url == base + flags_path()
        },
{
}

/// What the posting of a submission waits for.
#[derive(Clone, Copy, Debug, PartialEq, Eq, Structural)]
pub enum PostingStep {
    /// Nothing yet.
    Idle,
    /// The platform's users, to find the id of the one who submits.
    Users,
    /// The status of the post that records the submission.
    Posted,
    /// Nothing any more.
    Done,
}

/// Where the posting of a submission stands.
pub struct PostingView {
    pub step: PostingStep,
    pub challenge_id: i64,
    pub username: Seq<char>,
    pub flag: Seq<char>,
}

/// The posting and the request after a reply.
pub struct PostingOutcome {
    pub run: PostingView,
    pub progress: ProgressView<()>,
}

impl PostingView {
    /// A posting that has not started.
    pub open spec fn idle(challenge_id: i64, username: Seq<char>, flag: Seq<char>) -> PostingView {
        PostingView { step: PostingStep::Idle, challenge_id, username, flag }
    }

    /// The posting, over with the given result.
    pub open spec fn finish(self, result: Result<(), RemoteApiErrorView>) -> PostingOutcome {
        PostingOutcome {
            run: PostingView { step: PostingStep::Done, ..self },
            progress: ProgressView::Finished(result),
        }
    }

    /// The posting, waiting at `step` for the answer to `request`.
    pub open spec fn ask(self, step: PostingStep, request: RequestView) -> PostingOutcome {
        PostingOutcome { run: PostingView { step, ..self }, progress: ProgressView::Send(request) }
    }
}

/// The posting of a submission after `reply`, against the platform at
/// `base`. The username is resolved to the platform's id of the user first;
/// the submission is then posted for that user.
pub open spec fn posting_step(base: Seq<char>, run: PostingView, reply: ReplyView)
    -> PostingOutcome {
    match (run.step, reply) {
        (PostingStep::Idle, ReplyView::Start) => run.ask(
            PostingStep::Users,
            RequestView::GetUsers { url: base + users_path() },
        ),
        (PostingStep::Users, ReplyView::Users(data)) => match user_id_in(data, run.username) {
            Ok(user_id) => run.ask(
                PostingStep::Posted,
                RequestView::PostSubmission {
                    url: base + submissions_path(),
                    body: submission_body(run.challenge_id, user_id, run.flag),
                },
            ),
            Err(e) => run.finish(Err(e)),
        },
        (PostingStep::Posted, ReplyView::Status(status)) => if status == STATUS_OK {
            run.finish(Ok(()))
        } else {
            run.finish(Err(RemoteApiErrorView::Status(status)))
        },
        (PostingStep::Users, ReplyView::Failed(report)) => run.finish(
            Err(RemoteApiErrorView::Transport(report)),
        ),
        (PostingStep::Posted, ReplyView::Failed(report)) => run.finish(
            Err(RemoteApiErrorView::Transport(report)),
        ),
        _ => run.finish(Err(RemoteApiErrorView::Unexpected)),
    }
}

/// The posting of a submission as a whole, where the platform answers every
/// request: `users` is its list of users, `posted` the status of the post
/// that records the submission. Nothing is posted for a user that the
/// platform does not list.
pub open spec fn posting(users: Option<Seq<User>>, username: Seq<char>, posted: u16) -> Result<
    (),
    RemoteApiErrorView,
> {
    match user_id_in(users, username) {
        Ok(_) => if posted != STATUS_OK {
            Err(RemoteApiErrorView::Status(posted))
        } else {
            Ok(())
        },
        Err(e) => Err(e),
    }
}

/// The exchange is the posting. Let the driver begin a posting and report
/// the platform's answers one after the other, for as long as the posting
/// asks for anything. Then the posting ends, at the latest with the second
/// answer; its result is that of the posting as a whole; and what it posts,
/// if anything, is the flag for the challenge, in the name of the platform's
/// user with the given upstream username.
pub proof fn lemma_exchange_is_the_posting(
    base: Seq<char>,
    challenge_id: i64,
    username: Seq<char>,
    flag: Seq<char>,
    users: Option<Seq<User>>,
    posted: u16,
)
    ensures
        ({
            let a = posting_step(
                base,
                PostingView::idle(challenge_id, username, flag),
                ReplyView::Start,
            );
            let b = posting_step(base, a.run, ReplyView::Users(users));
            let c = posting_step(base, b.run, ReplyView::Status(posted));
            let whole = posting(users, username, posted);
            &&& a.progress == ProgressView::<()>::Send(
                RequestView::GetUsers { url: base + users_path() },
            )
            &&& c.progress is Finished
            &&& result_or(b.progress, result_or(c.progress, whole)) == whole
            &&& b.progress matches ProgressView::Send(request) ==> user_id_in(users, username) is Ok
                && request == (RequestView::PostSubmission {
                url: base + submissions_path(),
                body: submission_body(challenge_id, user_id_in(users, username)->Ok_0, flag),
            })
        }),
{
}

} // verus!
